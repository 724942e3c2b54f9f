//! The parser: a token buffer, the variables, and the two entry points.

use crate::element::{calculate_binomial, reduce, reduced_view, terms_view, ElementType};
use crate::errors::{Failure, ParseError, ParseErrorType};
use crate::evaluate::{evaluate_expression, evaluate_sentence};
use crate::op::{
    priority_view, is_monomial_token, is_word, monomial_token, priority_of, result_view,
    token_priority,
};
use crate::semantics::{
    applied, bracket_failure, evaluated, expression, occurrences, reduced, sentence, Outcome,
};
use crate::splitting::{split_words, strings_view, tokenize, words_to_strings, words_view};
use crate::text::{chars_of, string_from_chars};
use crate::value::{Value, VarType};
use crate::variables::{declared, lookup, stored, unwound, Env, Scopes};
use std::collections::VecDeque;
use vstd::prelude::*;

verus! {

/// What a parser holds: the tokens it has buffered and its variables.
pub ghost struct ParserState {
    /// The buffered tokens.
    pub tokens: Seq<Seq<char>>,
    /// The variables.
    pub env: Env,
    /// How deep brackets may be nested.
    pub max_depth: nat,
}

/// How deep brackets may be nested in a parser that was told nothing else.
pub const DEFAULT_MAX_DEPTH: usize = 256;

/// The state of a parser that has seen nothing.
pub open spec fn fresh_state() -> ParserState {
    ParserState {
        tokens: Seq::empty(),
        env: seq![Map::<Seq<char>, Value>::empty()],
        max_depth: DEFAULT_MAX_DEPTH as nat,
    }
}

/// An interpreter for token sequences. Tokens accumulate from one call of
/// `parse` to the next, and every call evaluates all of them; the
/// variables of the top level stay until they are cleared.
pub struct ExprParser {
    cmds: Vec<Vec<char>>,
    variables: Scopes,
    max_depth: usize,
}

impl View for ExprParser {
    type V = ParserState;

    closed spec fn view(&self) -> ParserState {
        ParserState {
            tokens: words_view(self.cmds@),
            env: self.variables@,
            max_depth: self.max_depth as nat,
        }
    }
}

/// Whether a production that began at position `start` gave what `out`
/// describes, with every block closed after it.
pub open spec fn closed_production(
    r: Result<VarType, ParseError>,
    env: Env,
    end: usize,
    start: int,
    out: Outcome,
) -> bool {
    &&& result_view(r) == out.result
    &&& end == start + out.consumed
    &&& env == unwound(out.env)
}

fn count_word(tokens: &Vec<Vec<char>>, word: &str) -> (r: usize)
    ensures
        r == occurrences(words_view(tokens@), word@),
{
    let ghost t = words_view(tokens@);
    let mut r: usize = 0;
    let mut i: usize = 0;
    while i < tokens.len()
        invariant
            i <= tokens.len(),
            t == words_view(tokens@),
            r <= i,
            r == occurrences(t.take(i as int), word@),
        decreases tokens.len() - i,
    {
        assert(t.take(i + 1).drop_last() =~= t.take(i as int));
        assert(t.take(i + 1).last() == tokens[i as int]@);
        if is_word(&tokens[i], word) {
            r += 1;
        }
        i += 1;
    }
    assert(t.take(tokens.len() as int) =~= t);
    r
}

fn bracket_error(kind: &str) -> (e: ParseError)
    ensures
        e@ == Failure::Bracket(kind@),
{
    ParseError::new(ParseErrorType::Bracket(string_from_chars(&chars_of(kind))))
}

/// Finds the bracket that lacks its counterpart.
fn check_brackets(tokens: &Vec<Vec<char>>) -> (r: Option<ParseError>)
    ensures
        match r {
            Some(e) => bracket_failure(words_view(tokens@)) == Some(e@),
            None => bracket_failure(words_view(tokens@)) is None,
        },
{
    let round_open = count_word(tokens, "(");
    let round_close = count_word(tokens, ")");
    let curly_open = count_word(tokens, "{");
    let curly_close = count_word(tokens, "}");
    if round_open > round_close {
        Some(bracket_error("("))
    } else if round_open < round_close {
        Some(bracket_error(")"))
    } else if curly_open > curly_close {
        Some(bracket_error("{"))
    } else if curly_open < curly_close {
        Some(bracket_error("}"))
    } else {
        None
    }
}

impl ExprParser {
    /// Whether the parser is valid: it stands at the top level, and its
    /// variables are valid.
    pub closed spec fn wf(&self) -> bool {
        self.variables.wf() && self.variables@.len() == 1
    }

    /// A valid parser stands at the top level: one scope is open.
    pub proof fn lemma_wf_top_level(&self)
        requires
            self.wf(),
        ensures
            self@.env.len() == 1,
    {
    }

    /// A parser that has seen nothing.
    pub fn new() -> (r: ExprParser)
        ensures
            r.wf(),
            r@ == fresh_state(),
    {
        let r = ExprParser {
            cmds: Vec::new(),
            variables: Scopes::new(),
            max_depth: DEFAULT_MAX_DEPTH,
        };
        assert(words_view(r.cmds@) =~= Seq::empty());
        r
    }

    /// How deep brackets may be nested.
    pub fn max_depth(&self) -> (r: usize)
        ensures
            r == self@.max_depth,
    {
        self.max_depth
    }

    /// Sets how deep brackets may be nested: an expression that opens a
    /// bracket inside more than `depth` others is refused.
    pub fn set_max_depth(&mut self, depth: usize)
        requires
            old(self).wf(),
        ensures
            final(self).wf(),
            final(self)@ == (ParserState { max_depth: depth as nat, ..old(self)@ }),
    {
        self.max_depth = depth;
    }

    /// A parser that has buffered the tokens of a source text.
    pub fn from_string(cmd: &str) -> (r: ExprParser)
        ensures
            r.wf(),
            r@ == (ParserState { tokens: tokenize(cmd@), ..fresh_state() }),
    {
        let chars = chars_of(cmd);
        ExprParser {
            cmds: split_words(&chars),
            variables: Scopes::new(),
            max_depth: DEFAULT_MAX_DEPTH,
        }
    }

    /// The buffered tokens.
    pub fn tokens(&self) -> (r: Vec<String>)
        ensures
            strings_view(r@) == self@.tokens,
    {
        words_to_strings(&self.cmds)
    }

    /// Forgets the buffered tokens.
    pub fn clear(&mut self)
        requires
            old(self).wf(),
        ensures
            final(self).wf(),
            final(self)@ == (ParserState { tokens: Seq::empty(), ..old(self)@ }),
    {
        self.cmds.clear();
        assert(words_view(self.cmds@) =~= Seq::empty());
    }

    /// Forgets the buffered tokens and every variable.
    pub fn clear_all(&mut self)
        requires
            old(self).wf(),
        ensures
            final(self).wf(),
            final(self)@ == (ParserState { max_depth: old(self)@.max_depth, ..fresh_state() }),
    {
        self.variables.clear();
        self.cmds.clear();
        assert(words_view(self.cmds@) =~= Seq::empty());
    }

    /// Appends the tokens of a source text to the buffer.
    pub fn split_elements(&mut self, cmd: &String)
        requires
            old(self).wf(),
        ensures
            final(self).wf(),
            final(self)@ == (ParserState {
                tokens: old(self)@.tokens + tokenize(cmd@),
                ..old(self)@
            }),
    {
        let chars = chars_of(cmd.as_str());
        let mut words = split_words(&chars);
        let ghost added = words_view(words@);
        self.cmds.append(&mut words);
        assert(words_view(self.cmds@) =~= words_view(old(self).cmds@) + added);
    }

    /// Interprets a source text: its tokens join the buffer, and all
    /// buffered tokens are evaluated from the first on.
    pub fn parse(&mut self, cmd: &String) -> (r: Result<VarType, ParseError>)
        requires
            old(self).wf(),
        ensures
            final(self).wf(),
            final(self)@.tokens == old(self)@.tokens + tokenize(cmd@),
            final(self)@.max_depth == old(self)@.max_depth,
            reduced_view(r, final(self)@.env) == evaluated(
                final(self)@.tokens,
                old(self)@.env,
                old(self)@.max_depth,
            ),
    {
        self.split_elements(cmd);
        match check_brackets(&self.cmds) {
            Some(e) => Err(e),
            None => {
                let (r, _) = evaluate_sentence(
                    &self.cmds,
                    &mut self.variables,
                    0,
                    self.max_depth,
                    VarType::Void,
                );
                self.variables.unwind();
                proof {
                    self.variables.lemma_wf_depth();
                }
                r
            },
        }
    }

    /// Evaluates the statements from the token at `pointer` on, and moves
    /// `pointer` to where they ended. A failure closes every block.
    pub fn parse_sentence(&mut self, pointer: &mut usize) -> (r: Result<VarType, ParseError>)
        requires
            old(self).wf(),
            *old(pointer) <= old(self)@.tokens.len(),
        ensures
            final(self).wf(),
            final(self)@.tokens == old(self)@.tokens,
            final(self)@.max_depth == old(self)@.max_depth,
            closed_production(
                r,
                final(self)@.env,
                *final(pointer),
                *old(pointer) as int,
                sentence(
                    old(self)@.tokens,
                    *old(pointer) as int,
                    old(self)@.env,
                    old(self)@.max_depth,
                    Value::Void,
                ),
            ),
    {
        let (r, end) = evaluate_sentence(
            &self.cmds,
            &mut self.variables,
            *pointer,
            self.max_depth,
            VarType::Void,
        );
        self.variables.unwind();
        proof {
            self.variables.lemma_wf_depth();
        }
        *pointer = end;
        r
    }

    /// Evaluates the expression from the token at `pointer` on, and moves
    /// `pointer` to where it ended. A failure closes every block.
    pub fn parse_expression(&mut self, pointer: &mut usize) -> (r: Result<VarType, ParseError>)
        requires
            old(self).wf(),
            *old(pointer) <= old(self)@.tokens.len(),
        ensures
            final(self).wf(),
            final(self)@.tokens == old(self)@.tokens,
            final(self)@.max_depth == old(self)@.max_depth,
            closed_production(
                r,
                final(self)@.env,
                *final(pointer),
                *old(pointer) as int,
                expression(
                    old(self)@.tokens,
                    *old(pointer) as int,
                    old(self)@.env,
                    old(self)@.max_depth,
                ),
            ),
    {
        let (r, end) = evaluate_expression(
            &self.cmds,
            &mut self.variables,
            *pointer,
            self.max_depth,
        );
        self.variables.unwind();
        proof {
            self.variables.lemma_wf_depth();
        }
        *pointer = end;
        r
    }

    /// The row of the precedence table that holds a binary operator; row 0
    /// binds tightest.
    pub fn get_priority(op: &str) -> (r: Option<usize>)
        ensures
            priority_view(r) == priority_of(op@),
    {
        token_priority(&chars_of(op))
    }

    /// Whether a token writes a unary operator.
    pub fn is_monomial(op: &str) -> (r: bool)
        ensures
            r == is_monomial_token(op@),
    {
        monomial_token(&chars_of(op))
    }

    /// Reduces a pending operator with its operands to one value.
    pub fn try_calculate_all(&mut self, data: (String, VecDeque<ElementType>)) -> (r: Result<
        VarType,
        ParseError,
    >)
        requires
            old(self).wf(),
        ensures
            final(self).wf(),
            final(self)@.tokens == old(self)@.tokens,
            final(self)@.max_depth == old(self)@.max_depth,
            reduced_view(r, final(self)@.env) == reduced(
                data.0@,
                terms_view(data.1@),
                old(self)@.env,
            ),
    {
        let op = chars_of(data.0.as_str());
        reduce(&mut self.variables, &op, data.1)
    }

    /// Applies the operator that a token writes to two operands.
    pub fn calculate_binomial(&mut self, op: &str, left: ElementType, right: ElementType) -> (r:
        Result<VarType, ParseError>)
        requires
            old(self).wf(),
        ensures
            final(self).wf(),
            final(self)@.tokens == old(self)@.tokens,
            final(self)@.max_depth == old(self)@.max_depth,
            reduced_view(r, final(self)@.env) == applied(op@, left@, right@, old(self)@.env),
    {
        calculate_binomial(&mut self.variables, &chars_of(op), &left, &right)
    }

    /// Whether a variable of the given name is visible.
    pub fn has_variable(&self, name: &str) -> (r: bool)
        requires
            self.wf(),
        ensures
            r == lookup(self@.env, name@) is Some,
    {
        self.variables.has(&chars_of(name))
    }

    /// The value of the variable of the given name.
    pub fn get_variable(&self, name: &str) -> (r: Option<&VarType>)
        requires
            self.wf(),
        ensures
            match r {
                Some(v) => lookup(self@.env, name@) == Some(v@),
                None => lookup(self@.env, name@) is None,
            },
    {
        self.variables.get(&chars_of(name))
    }

    /// The place of the value of the variable of the given name: what is
    /// put there is stored in the variable.
    pub fn get_variable_mut(&mut self, name: &str) -> (r: Option<&mut VarType>)
        requires
            old(self).wf(),
        ensures
            match r {
                Some(v) => lookup(old(self)@.env, name@) == Some(v@) && final(self)@ == (
                ParserState { env: stored(old(self)@.env, name@, final(v)@), ..old(self)@ })
                    && final(self).wf(),
                None => lookup(old(self)@.env, name@) is None && final(self)@ == old(self)@
                    && final(self).wf(),
            },
    {
        self.variables.get_mut(&chars_of(name))
    }

    /// Declares a variable in the innermost scope, where it is not
    /// declared there yet.
    pub fn create_variable(&mut self, name: String)
        requires
            old(self).wf(),
        ensures
            final(self).wf(),
            final(self)@ == (ParserState {
                env: declared(old(self)@.env, name@),
                ..old(self)@
            }),
    {
        self.variables.declare(&chars_of(name.as_str()));
    }
}

} // verus!
