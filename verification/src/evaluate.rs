//! The evaluator: expressions and statements over a token sequence.

use crate::element::{reduce, reduced_view, terms_view, ElementType};
use crate::errors::{Failure, ParseError, ParseErrorType};
use crate::literal::{integer_literal, numeric, read_literal};
use crate::op::{
    invalid_expression, is_word, monomial_token, priority_of, result_view, token_priority,
};
use crate::semantics::{
    after_operand, at_end, closing, completed, expression, fed, is_quoted, is_terminator,
    operand_at, placed, primary_of, scan, sentence, settled, too_deep_text, wrapped, yields_to,
    Operand, Outcome, Pending, Placement, Reduced, Term,
};
use crate::splitting::words_view;
use crate::text::{append_text, chars_of, copy_text, same_text, string_from_chars};
use crate::value::{trim_quotes_of, Value, VarType};
use crate::variables::{entered, exited, Env, Scopes};
use std::collections::VecDeque;
use std::rc::Rc;
use vstd::prelude::*;

verus! {

/// An operator that waits for its operands.
pub struct PendingOp {
    /// The token between the operands.
    pub op: Vec<char>,
    /// The operands read so far, left to right.
    pub operands: VecDeque<ElementType>,
}

impl View for PendingOp {
    type V = Pending;

    open spec fn view(&self) -> Pending {
        Pending { op: self.op@, operands: terms_view(self.operands@) }
    }
}

/// The pending operators that a stack holds.
pub open spec fn frames_view(frames: Seq<PendingOp>) -> Seq<Pending> {
    frames.map_values(|f: PendingOp| f@)
}

/// The operand that a reading of a token gives.
pub open spec fn term_result_view(r: Result<ElementType, ParseError>) -> Result<Term, Failure> {
    match r {
        Ok(t) => Ok(t@),
        Err(e) => Err(e@),
    }
}

fn terminator(token: &Vec<char>) -> (r: bool)
    ensures
        r == is_terminator(token@),
{
    is_word(token, ";") || is_word(token, ")") || is_word(token, "}")
}

fn ends_at(tokens: &Vec<Vec<char>>, p: usize) -> (r: bool)
    ensures
        r == at_end(words_view(tokens@), p as int),
{
    p >= tokens.len() || terminator(&tokens[p])
}

fn quoted(token: &Vec<char>) -> (r: bool)
    ensures
        r == is_quoted(token@),
{
    token.len() > 0 && token[0] == '"' && token[token.len() - 1] == '"'
}

fn single(term: ElementType) -> (r: VecDeque<ElementType>)
    ensures
        terms_view(r@) == seq![term@],
{
    let mut r: VecDeque<ElementType> = VecDeque::new();
    r.push_back(term);
    assert(terms_view(r@) =~= seq![term@]);
    r
}

/// Reads the operand that a token stands for by itself.
pub fn primary(scopes: &Scopes, token: &Vec<char>) -> (r: Result<ElementType, ParseError>)
    requires
        scopes.wf(),
    ensures
        term_result_view(r) == primary_of(token@, scopes@),
{
    if numeric(token) {
        match read_literal(token) {
            Ok(v) => Ok(ElementType::Immediate(v)),
            Err(e) => Err(e),
        }
    } else if scopes.has(token) {
        Ok(ElementType::Variable(string_from_chars(token)))
    } else if token_priority(token).is_some() {
        let mut t = chars_of("Illegal operator \"");
        append_text(&mut t, token);
        append_text(&mut t, &chars_of("\"."));
        Err(invalid_expression(&t))
    } else if quoted(token) {
        Ok(ElementType::Immediate(VarType::String(string_from_chars(&trim_quotes_of(token)))))
    } else {
        Err(ParseError::new(ParseErrorType::VariableNotFound(string_from_chars(token))))
    }
}

/// Puts an operand under the unary operators read before it.
pub fn wrap(operand: ElementType, unary: &mut Vec<Vec<char>>) -> (r: ElementType)
    ensures
        r@ == wrapped(operand@, words_view(old(unary)@)),
        final(unary)@.len() == 0,
{
    let mut term = operand;
    while unary.len() > 0
        invariant
            wrapped(operand@, words_view(old(unary)@)) == wrapped(term@, words_view(unary@)),
        decreases unary.len(),
    {
        let ghost before = words_view(unary@);
        let op = unary.pop().unwrap();
        assert(words_view(unary@) =~= before.drop_last());
        assert(before.last() == op@);
        let next = ElementType::Monomial(string_from_chars(&op), Rc::new(term));
        assert(next@ == Term::Monomial(op@, Box::new(term@)));
        term = next;
    }
    term
}

/// Reduces all pending operators, the last one first.
fn settle(scopes: &mut Scopes, frames: Vec<PendingOp>) -> (r: Result<VarType, ParseError>)
    requires
        old(scopes).wf(),
        frames@.len() > 0,
    ensures
        final(scopes).wf(),
        final(scopes)@.len() == old(scopes)@.len(),
        reduced_view(r, final(scopes)@) == settled(frames_view(frames@), old(scopes)@),
{
    let mut stack = frames;
    let ghost all = frames_view(stack@);
    let top = stack.pop().unwrap();
    assert(frames_view(stack@) =~= all.drop_last());
    assert(all.last() == top@);
    let mut acc = match reduce(scopes, &top.op, top.operands) {
        Ok(v) => v,
        Err(e) => {
            return Err(e);
        },
    };
    while stack.len() > 0
        invariant
            scopes.wf(),
            scopes@.len() == old(scopes)@.len(),
            all == frames_view(frames@),
            all.len() > 0,
            settled(all, old(scopes)@) == fed(
                frames_view(stack@),
                Reduced { result: Ok(acc@), env: scopes@ },
            ),
        decreases stack.len(),
    {
        if acc.is_empty() {
            return Err(ParseError::new(ParseErrorType::VoidOperation));
        }
        let ghost before = frames_view(stack@);
        let next = stack.pop().unwrap();
        assert(frames_view(stack@) =~= before.drop_last());
        assert(before.last() == next@);
        let mut operands = next.operands;
        let ghost held = terms_view(operands@);
        operands.push_back(ElementType::Immediate(acc));
        assert(terms_view(operands@) =~= held.push(Term::Immediate(acc@)));
        match reduce(scopes, &next.op, operands) {
            Ok(v) => {
                acc = v;
            },
            Err(e) => {
                assert(fed(
                    frames_view(stack@),
                    Reduced { result: Err(e@), env: scopes@ },
                ).result is Err);
                return Err(e);
            },
        }
    }
    Ok(acc)
}

/// Ends an expression with its last operand.
pub fn complete(scopes: &mut Scopes, frames: Vec<PendingOp>, term: ElementType) -> (r: Result<
    VarType,
    ParseError,
>)
    requires
        old(scopes).wf(),
    ensures
        final(scopes).wf(),
        final(scopes)@.len() == old(scopes)@.len(),
        reduced_view(r, final(scopes)@) == completed(frames_view(frames@), term@, old(scopes)@),
{
    let mut stack = frames;
    if stack.len() == 0 {
        term.to_vartype(scopes)
    } else {
        let ghost all = frames_view(stack@);
        let top = stack.pop().unwrap();
        assert(frames_view(stack@) =~= all.drop_last());
        assert(all.last() == top@);
        let mut operands = top.operands;
        let ghost held = terms_view(operands@);
        operands.push_back(term);
        assert(terms_view(operands@) =~= held.push(term@));
        let joined = PendingOp { op: top.op, operands };
        stack.push(joined);
        assert(frames_view(stack@) =~= all.drop_last().push(joined@));
        settle(scopes, stack)
    }
}

fn gives_way(upcoming: Option<usize>, pending: Option<usize>) -> (r: bool)
    ensures
        r == match (upcoming, pending) {
            (Some(u), Some(p)) => u >= p,
            (Some(_), None) => true,
            (None, Some(_)) => false,
            (None, None) => true,
        },
{
    match (upcoming, pending) {
        (Some(u), Some(p)) => u >= p,
        (Some(_), None) => true,
        (None, Some(_)) => false,
        (None, None) => true,
    }
}

/// Places an operand that the token `upcoming` follows. Returns the result
/// where that completes the expression, and nothing where the scan goes
/// on.
pub fn place(
    scopes: &mut Scopes,
    frames: &mut Vec<PendingOp>,
    term: ElementType,
    upcoming: &Vec<char>,
) -> (r: Option<Result<VarType, ParseError>>)
    requires
        old(scopes).wf(),
    ensures
        final(scopes).wf(),
        final(scopes)@.len() == old(scopes)@.len(),
        match placed(frames_view(old(frames)@), term@, upcoming@, old(scopes)@) {
            Placement::Done(done) => r is Some && reduced_view(r->0, final(scopes)@) == done,
            Placement::Continue(next, env) => r is None && frames_view(final(frames)@) == next
                && final(scopes)@ == env,
        },
{
    let ghost all = frames_view(frames@);
    if frames.len() == 0 {
        let fresh = PendingOp { op: copy_text(upcoming), operands: single(term) };
        frames.push(fresh);
        assert(frames_view(frames@) =~= seq![fresh@]);
        None
    } else {
        let last = frames.len() - 1;
        let differs = !same_text(upcoming, &frames[last].op);
        let way = gives_way(token_priority(upcoming), token_priority(&frames[last].op));
        assert(all.last() == frames[last as int]@);
        assert(way == yields_to(priority_of(upcoming@), priority_of(all.last().op)));
        if differs && way {
            let top = frames.pop().unwrap();
            assert(frames_view(frames@) =~= all.drop_last());
            let mut operands = top.operands;
            let ghost held = terms_view(operands@);
            operands.push_back(term);
            assert(terms_view(operands@) =~= held.push(term@));
            match reduce(scopes, &top.op, operands) {
                Err(e) => Some(Err(e)),
                Ok(v) => {
                    if v.is_empty() {
                        Some(Err(ParseError::new(ParseErrorType::VoidOperation)))
                    } else {
                        let fresh = PendingOp {
                            op: copy_text(upcoming),
                            operands: single(ElementType::Immediate(v)),
                        };
                        frames.push(fresh);
                        assert(frames_view(frames@) =~= all.drop_last().push(fresh@));
                        None
                    }
                },
            }
        } else {
            let fresh = PendingOp { op: copy_text(upcoming), operands: single(term) };
            frames.push(fresh);
            assert(frames_view(frames@) =~= all.push(fresh@));
            None
        }
    }
}

/// Whether a production that began at position `start` gave what `out`
/// describes: its result, the position where it ended, and the variables
/// after it.
pub open spec fn produced(
    r: (Result<VarType, ParseError>, usize),
    env: Env,
    start: int,
    out: Outcome,
) -> bool {
    &&& result_view(r.0) == out.result
    &&& r.1 == start + out.consumed
    &&& env == out.env
}

/// Whether `whole` is what `rest` becomes once the `gone` tokens before it
/// are counted in.
pub open spec fn continues(whole: Outcome, rest: Outcome, gone: int) -> bool {
    &&& whole.result == rest.result
    &&& whole.env == rest.env
    &&& whole.consumed == rest.consumed + gone
}

/// What reading an operand gave.
pub enum Read {
    /// An operand and the position after it.
    Found(ElementType, usize),
    /// A unary operator.
    Prefix,
    /// A failure and the position it came at.
    Failed(ParseError, usize),
}

/// Whether a reading from position `p` is the one that `operand` describes,
/// with `env` the variables after it.
pub open spec fn read_as(read: Read, p: int, env: Env, operand: Operand) -> bool {
    match operand {
        Operand::Found(t, more, after) => read matches Read::Found(found, q) && found@ == t && q
            == p + 1 + more && env == after,
        Operand::Prefix => read is Prefix,
        Operand::Failed(e, read_tokens, after) => read matches Read::Failed(x, end) && x@ == e
            && end == p + read_tokens && env == after,
    }
}

fn too_deep() -> (e: ParseError)
    ensures
        e@ == Failure::InvalidExpression(too_deep_text()),
{
    invalid_expression(&chars_of("Nesting is too deep."))
}

/// Reads the operand that a `(` at position `p` opens.
fn read_group(tokens: &Vec<Vec<char>>, scopes: &mut Scopes, p: usize, room: usize) -> (r: Read)
    requires
        old(scopes).wf(),
        p < tokens.len(),
        tokens[p as int]@ == "("@,
    ensures
        final(scopes).wf(),
        read_as(
            r,
            p as int,
            final(scopes)@,
            operand_at(words_view(tokens@), p as int, old(scopes)@, room as nat),
        ),
        !(r is Prefix),
        r matches Read::Found(_, q) ==> p < q <= tokens.len() && final(scopes)@.len() == old(
            scopes,
        )@.len(),
        r matches Read::Failed(_, end) ==> p <= end <= tokens.len(),
        final(scopes)@.len() >= old(scopes)@.len(),
    decreases tokens.len() - p, 0nat,
{
    let ghost t = words_view(tokens@);
    let ghost env = scopes@;
    let n = tokens.len();
    assert(t[p as int] == "("@);
    assert(!at_end(t, p as int)) by {
        lemma_brackets_differ();
    }
    if room == 0 {
        return Read::Failed(too_deep(), p);
    }
    let (r, e) = evaluate_expression(tokens, scopes, p + 1, room - 1);
    let ghost sub = expression(t, p + 1, env, (room - 1) as nat);
    match r {
        Err(x) => {
            assert(operand_at(t, p as int, env, room as nat) == Operand::Failed(
                x@,
                1 + sub.consumed,
                sub.env,
            ));
            Read::Failed(x, e)
        },
        Ok(v) => {
            assert(operand_at(t, p as int, env, room as nat) == Operand::Found(
                Term::Immediate(v@),
                sub.consumed + closing(t, p + 1 + sub.consumed),
                sub.env,
            ));
            let q = if e < n {
                e + 1
            } else {
                e
            };
            Read::Found(ElementType::Immediate(v), q)
        },
    }
}

/// Reads the operand that a `{` at position `p` opens.
fn read_block(tokens: &Vec<Vec<char>>, scopes: &mut Scopes, p: usize, room: usize) -> (r: Read)
    requires
        old(scopes).wf(),
        p < tokens.len(),
        tokens[p as int]@ == "{"@,
    ensures
        final(scopes).wf(),
        read_as(
            r,
            p as int,
            final(scopes)@,
            operand_at(words_view(tokens@), p as int, old(scopes)@, room as nat),
        ),
        !(r is Prefix),
        r matches Read::Found(_, q) ==> p < q <= tokens.len() && final(scopes)@.len() == old(
            scopes,
        )@.len(),
        r matches Read::Failed(_, end) ==> p <= end <= tokens.len(),
        final(scopes)@.len() >= old(scopes)@.len(),
    decreases tokens.len() - p, 0nat,
{
    let ghost t = words_view(tokens@);
    let ghost env = scopes@;
    let n = tokens.len();
    assert(t[p as int] == "{"@);
    assert(!at_end(t, p as int) && t[p as int] != "("@) by {
        lemma_brackets_differ();
    }
    if room == 0 {
        return Read::Failed(too_deep(), p);
    }
    proof {
        scopes.lemma_wf_depth();
    }
    scopes.enter_scope();
    let (r, e) = evaluate_sentence(tokens, scopes, p + 1, room - 1, VarType::Void);
    let ghost sub = sentence(t, p + 1, entered(env), (room - 1) as nat, Value::Void);
    match r {
        Err(x) => {
            assert(operand_at(t, p as int, env, room as nat) == Operand::Failed(
                x@,
                1 + sub.consumed,
                sub.env,
            ));
            Read::Failed(x, e)
        },
        Ok(v) => {
            scopes.exit_scope();
            assert(operand_at(t, p as int, env, room as nat) == Operand::Found(
                Term::Immediate(v@),
                sub.consumed + closing(t, p + 1 + sub.consumed),
                exited(sub.env),
            ));
            let q = if e < n {
                e + 1
            } else {
                e
            };
            Read::Found(ElementType::Immediate(v), q)
        },
    }
}

/// Reads the operand at position `p`, with brackets nested up to `room`
/// deep.
pub fn read_operand(tokens: &Vec<Vec<char>>, scopes: &mut Scopes, p: usize, room: usize) -> (r:
    Read)
    requires
        old(scopes).wf(),
        p < tokens.len(),
        !at_end(words_view(tokens@), p as int),
    ensures
        final(scopes).wf(),
        read_as(
            r,
            p as int,
            final(scopes)@,
            operand_at(words_view(tokens@), p as int, old(scopes)@, room as nat),
        ),
        r is Prefix ==> final(scopes)@ == old(scopes)@,
        r matches Read::Found(_, q) ==> p < q <= tokens.len() && final(scopes)@.len() == old(
            scopes,
        )@.len(),
        r matches Read::Failed(_, end) ==> p <= end <= tokens.len(),
        final(scopes)@.len() >= old(scopes)@.len(),
    decreases tokens.len() - p, 1nat,
{
    let ghost t = words_view(tokens@);
    let ghost env = scopes@;
    let token = &tokens[p];
    assert(t[p as int] == token@);
    if is_word(token, "(") {
        read_group(tokens, scopes, p, room)
    } else if is_word(token, "{") {
        read_block(tokens, scopes, p, room)
    } else if !numeric(token) && !scopes.has(token) && monomial_token(token) {
        assert(operand_at(t, p as int, env, room as nat) == Operand::Prefix);
        Read::Prefix
    } else {
        let found = primary(scopes, token);
        assert(operand_at(t, p as int, env, room as nat) == match primary_of(token@, env) {
            Err(e) => Operand::Failed(e, 0, env),
            Ok(t) => Operand::Found(t, 0, env),
        });
        match found {
            Err(x) => Read::Failed(x, p),
            Ok(found) => Read::Found(found, p + 1),
        }
    }
}

/// The brackets that open an operand are no terminators, and differ.
proof fn lemma_brackets_differ()
    ensures
        !is_terminator("("@),
        !is_terminator("{"@),
        "("@ != "{"@,
{
    reveal_strlit("(");
    reveal_strlit("{");
    reveal_strlit(";");
    reveal_strlit(")");
    reveal_strlit("}");
    assert("("@[0] == '(');
    assert("{"@[0] == '{');
    assert(";"@[0] == ';');
    assert(")"@[0] == ')');
    assert("}"@[0] == '}');
}

/// Evaluates one expression from position `start` on, with brackets nested
/// up to `room` deep. Returns its result and the position where it ended.
pub fn evaluate_expression(
    tokens: &Vec<Vec<char>>,
    scopes: &mut Scopes,
    start: usize,
    room: usize,
) -> (r: (Result<VarType, ParseError>, usize))
    requires
        old(scopes).wf(),
        start <= tokens.len(),
    ensures
        final(scopes).wf(),
        r.1 <= tokens.len(),
        produced(
            r,
            final(scopes)@,
            start as int,
            expression(words_view(tokens@), start as int, old(scopes)@, room as nat),
        ),
        final(scopes)@.len() >= old(scopes)@.len(),
        r.0 is Ok ==> final(scopes)@.len() == old(scopes)@.len(),
    decreases tokens.len() - start, 2nat,
{
    let ghost t = words_view(tokens@);
    let ghost whole = scan(t, start as int, scopes@, room as nat, Seq::empty(), Seq::empty());
    let n = tokens.len();
    let mut p: usize = start;
    let mut frames: Vec<PendingOp> = Vec::new();
    let mut unary: Vec<Vec<char>> = Vec::new();
    assert(frames_view(frames@) =~= Seq::empty());
    assert(words_view(unary@) =~= Seq::empty());
    loop
        invariant
            scopes.wf(),
            n == tokens.len(),
            t == words_view(tokens@),
            start <= p <= n,
            scopes@.len() == old(scopes)@.len(),
            whole == scan(
                t,
                start as int,
                old(scopes)@,
                room as nat,
                Seq::empty(),
                Seq::empty(),
            ),
            continues(
                whole,
                scan(t, p as int, scopes@, room as nat, frames_view(frames@), words_view(unary@)),
                p - start,
            ),
        decreases n - p,
    {
        if ends_at(tokens, p) {
            let r = if frames.len() == 0 {
                Err(ParseError::new(ParseErrorType::NoInput))
            } else {
                settle(scopes, frames)
            };
            return (r, p);
        }
        assert(t[p as int] == tokens[p as int]@);
        match read_operand(tokens, scopes, p, room) {
            Read::Failed(x, end) => {
                return (Err(x), end);
            },
            Read::Prefix => {
                let ghost before = words_view(unary@);
                unary.push(copy_text(&tokens[p]));
                assert(words_view(unary@) =~= before.push(t[p as int]));
                p += 1;
            },
            Read::Found(operand, q) => {
                let term = wrap(operand, &mut unary);
                assert(words_view(unary@) =~= Seq::empty());
                assert(continues(
                    whole,
                    after_operand(
                        t,
                        q as int,
                        scopes@,
                        room as nat,
                        frames_view(frames@),
                        term@,
                    ),
                    q - start,
                ));
                if ends_at(tokens, q) {
                    let r = complete(scopes, frames, term);
                    return (r, q);
                }
                assert(t[q as int] == tokens[q as int]@);
                match place(scopes, &mut frames, term, &tokens[q]) {
                    Some(r) => {
                        return (r, q);
                    },
                    None => {
                        p = q + 1;
                    },
                }
            },
        }
    }
}

/// Evaluates the statements from position `start` on, up to a `}` or the
/// end of the tokens, with brackets nested up to `room` deep; `last` is
/// the value of the statements before. Returns the result and the position
/// where the statements ended.
pub fn evaluate_sentence(
    tokens: &Vec<Vec<char>>,
    scopes: &mut Scopes,
    start: usize,
    room: usize,
    last: VarType,
) -> (r: (Result<VarType, ParseError>, usize))
    requires
        old(scopes).wf(),
        start <= tokens.len(),
    ensures
        final(scopes).wf(),
        r.1 <= tokens.len(),
        produced(
            r,
            final(scopes)@,
            start as int,
            sentence(words_view(tokens@), start as int, old(scopes)@, room as nat, last@),
        ),
        final(scopes)@.len() >= old(scopes)@.len(),
        r.0 is Ok ==> final(scopes)@.len() == old(scopes)@.len(),
    decreases tokens.len() - start, 3nat,
{
    let ghost t = words_view(tokens@);
    let ghost whole = sentence(t, start as int, scopes@, room as nat, last@);
    let n = tokens.len();
    let mut p: usize = start;
    let mut value = last;
    loop
        invariant
            scopes.wf(),
            n == tokens.len(),
            t == words_view(tokens@),
            start <= p <= n,
            scopes@.len() == old(scopes)@.len(),
            whole == sentence(t, start as int, old(scopes)@, room as nat, last@),
            continues(whole, sentence(t, p as int, scopes@, room as nat, value@), p - start),
        decreases n - p,
    {
        if p >= n {
            return (Ok(value), p);
        }
        let token = &tokens[p];
        assert(t[p as int] == token@);
        if is_word(token, "}") {
            return (Ok(value), p);
        }
        if is_word(token, ";") {
            value = VarType::Void;
            p += 1;
            continue ;
        }
        if is_word(token, "let") {
            if p + 1 < n && !integer_literal(&tokens[p + 1]) {
                assert(t[p + 1] == tokens[p + 1]@);
                scopes.declare(&tokens[p + 1]);
                p += 1;
                continue ;
            } else {
                assert(p + 1 < n ==> t[p + 1] == tokens[p + 1]@);
                return (
                    Err(
                        invalid_expression(
                            &chars_of("Next of \"let\" keyword must be variable name."),
                        ),
                    ),
                    p,
                );
            }
        }
        let (r, e) = evaluate_expression(tokens, scopes, p, room);
        match r {
            Err(x) => {
                return (Err(x), e);
            },
            Ok(v) => {
                if e >= n {
                    return (Ok(v), e);
                }
                assert(t[e as int] == tokens[e as int]@);
                if is_word(&tokens[e], "}") {
                    return (Ok(v), e);
                }
                value = if is_word(&tokens[e], ";") {
                    VarType::Void
                } else {
                    v
                };
                p = e + 1;
            },
        }
    }
}

} // verus!
