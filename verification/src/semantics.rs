//! What a sequence of tokens means: the value it evaluates to and what it
//! does to the variables.

use crate::errors::Failure;
use crate::op::{
    assignment_base, binary_result, invalid_operator_text, is_assignment, is_monomial_token,
    monomial_result, operator_named, priority_of,
};
use crate::text::decimal;
use crate::value::{is_empty_value, trim_quotes, Value};
use crate::variables::{declared, entered, exited, lookup, stored, unwound, Env};
use vstd::prelude::*;

verus! {

/// An operand before it is evaluated.
pub ghost enum Term {
    /// The variable of the given name.
    Variable(Seq<char>),
    /// A value.
    Immediate(Value),
    /// A unary operator applied to an operand.
    Monomial(Seq<char>, Box<Term>),
}

/// An operator that waits for its operands.
pub ghost struct Pending {
    /// The token between the operands.
    pub op: Seq<char>,
    /// The operands read so far, left to right.
    pub operands: Seq<Term>,
}

/// A result together with the variables after it.
pub ghost struct Reduced {
    /// The value, or the failure.
    pub result: Result<Value, Failure>,
    /// The variables afterwards.
    pub env: Env,
}

/// The result of a production: its value or failure, how many tokens it
/// read, and the variables after it.
pub ghost struct Outcome {
    /// The value, or the failure.
    pub result: Result<Value, Failure>,
    /// How many tokens were read.
    pub consumed: nat,
    /// The variables afterwards.
    pub env: Env,
}

/// What reading an operand leads to.
pub ghost enum Operand {
    /// An operand, how many tokens it took beyond its first, and the
    /// variables after it.
    Found(Term, nat, Env),
    /// A unary operator: the operand is still to come.
    Prefix,
    /// A failure, how many tokens were read up to it, and the variables
    /// after it.
    Failed(Failure, nat, Env),
}

/// What placing an operand before the next operator leads to.
pub ghost enum Placement {
    /// The expression is complete.
    Done(Reduced),
    /// The scan goes on after the operator, with these pending operators.
    Continue(Seq<Pending>, Env),
}

/// Why a `let` is refused.
pub open spec fn let_text() -> Seq<char> {
    "Next of \"let\" keyword must be variable name."@
}

/// Why brackets nested too deeply are refused.
pub open spec fn too_deep_text() -> Seq<char> {
    "Nesting is too deep."@
}

/// Why an assignment is refused.
pub open spec fn left_hand_text() -> Seq<char> {
    "The left-hand must be variable."@
}

/// Why an operator cannot stand where an operand is due.
pub open spec fn illegal_operator_text(token: Seq<char>) -> Seq<char> {
    "Illegal operator \""@ + token + "\"."@
}

/// Why a literal with a character that is no digit is refused.
pub open spec fn invalid_integer_text() -> Seq<char> {
    "Invalid integer."@
}

/// Why a literal with a digit that its base does not have is refused.
pub open spec fn not_based_text(token: Seq<char>, base: int) -> Seq<char> {
    "Invalid integer. `"@ + token + "` is not "@ + decimal(base as nat) + "-based number."@
}

/// Whether a character is a decimal digit.
pub open spec fn is_digit(c: char) -> bool {
    '0' <= c && c <= '9'
}

/// The value of a character as a digit of a base up to sixteen.
pub open spec fn digit_value(c: char) -> Option<int> {
    if '0' <= c && c <= '9' {
        Some(c as int - '0' as int)
    } else if 'a' <= c && c <= 'f' {
        Some(c as int - 'a' as int + 10)
    } else if 'A' <= c && c <= 'F' {
        Some(c as int - 'A' as int + 10)
    } else {
        None
    }
}

/// The base that a literal is written in: 16 after `0x`, 2 after `0b`, else
/// 10. A literal that begins with `0` and goes on with anything but `x`,
/// `b` or a decimal digit has none.
pub open spec fn literal_base(token: Seq<char>) -> Option<int> {
    if token.len() >= 2 && token[0] == '0' {
        if token[1] == 'x' {
            Some(16)
        } else if token[1] == 'b' {
            Some(2)
        } else if is_digit(token[1]) {
            Some(10)
        } else {
            None
        }
    } else {
        Some(10)
    }
}

/// Where the digits of a literal begin: after the two characters of the
/// prefix, if there is one.
pub open spec fn digits_start(token: Seq<char>) -> int {
    if token.len() >= 2 && token[0] == '0' && (token[1] == 'x' || token[1] == 'b') {
        2
    } else {
        0
    }
}

/// The number that the digits from position `i` on write after the digits
/// that gave `acc`. An underscore separates digits and counts for nothing.
pub open spec fn digits_value(token: Seq<char>, i: int, base: int, acc: int) -> Result<
    int,
    Failure,
>
    decreases token.len() - i,
{
    if 0 <= i < token.len() {
        if token[i] == '_' {
            digits_value(token, i + 1, base, acc)
        } else {
            match digit_value(token[i]) {
                None => Err(Failure::InvalidExpression(invalid_integer_text())),
                Some(d) => if d < base {
                    digits_value(token, i + 1, base, acc * base + d)
                } else {
                    Err(Failure::InvalidExpression(not_based_text(token, base)))
                },
            }
        }
    } else {
        Ok(acc)
    }
}

/// The integer that a literal writes. A number above the largest 32-bit
/// integer is refused as `InvalidInteger`.
pub open spec fn literal_value(token: Seq<char>) -> Result<Value, Failure> {
    match literal_base(token) {
        None => Err(Failure::InvalidExpression(invalid_integer_text())),
        Some(base) => match digits_value(token, digits_start(token), base, 0) {
            Err(e) => Err(e),
            Ok(n) => if n <= i32::MAX {
                Ok(Value::Integer(n as i32))
            } else {
                Err(Failure::InvalidInteger)
            },
        },
    }
}

/// Whether a token begins with a decimal digit.
pub open spec fn is_numeric(token: Seq<char>) -> bool {
    token.len() > 0 && is_digit(token[0])
}

/// Whether a token is an integer literal that can be read.
pub open spec fn is_integer_literal(token: Seq<char>) -> bool {
    is_numeric(token) && literal_value(token) is Ok
}

/// Whether a token begins and ends with a double quote.
pub open spec fn is_quoted(token: Seq<char>) -> bool {
    token.len() > 0 && token.first() == '"' && token.last() == '"'
}

/// Whether a token ends an expression.
pub open spec fn is_terminator(token: Seq<char>) -> bool {
    token == ";"@ || token == ")"@ || token == "}"@
}

/// Whether an expression ends at position `p`: at a terminator or at the
/// end of the tokens.
pub open spec fn at_end(tokens: Seq<Seq<char>>, p: int) -> bool {
    p < 0 || p >= tokens.len() || is_terminator(tokens[p])
}

/// How many tokens lie at and after position `p`.
pub open spec fn remaining(tokens: Seq<Seq<char>>, p: int) -> nat {
    if 0 <= p < tokens.len() {
        (tokens.len() - p) as nat
    } else {
        0
    }
}

/// The value of an operand. A variable reads as its innermost binding; a
/// unary operator applies to the value of its operand.
pub open spec fn term_value(t: Term, env: Env) -> Result<Value, Failure>
    decreases t,
{
    match t {
        Term::Variable(name) => match lookup(env, name) {
            Some(v) => Ok(v),
            None => Err(Failure::VariableNotFound(name)),
        },
        Term::Immediate(v) => Ok(v),
        Term::Monomial(op, inner) => match term_value(*inner, env) {
            Ok(v) => monomial_result(op, v),
            Err(e) => Err(e),
        },
    }
}

/// An operand under the unary operators that were read before it; the one
/// read last applies first.
pub open spec fn wrapped(primary: Term, unary: Seq<Seq<char>>) -> Term
    decreases unary.len(),
{
    if unary.len() == 0 {
        primary
    } else {
        wrapped(Term::Monomial(unary.last(), Box::new(primary)), unary.drop_last())
    }
}

/// The operand that a token other than a bracket and a unary operator
/// stands for: an integer literal, a visible variable or a string literal.
/// A binary operator is refused, and so is any other token, as the name of
/// a variable that is not there.
pub open spec fn primary_of(token: Seq<char>, env: Env) -> Result<Term, Failure> {
    if is_numeric(token) {
        match literal_value(token) {
            Ok(v) => Ok(Term::Immediate(v)),
            Err(e) => Err(e),
        }
    } else if lookup(env, token) is Some {
        Ok(Term::Variable(token))
    } else if priority_of(token) is Some {
        Err(Failure::InvalidExpression(illegal_operator_text(token)))
    } else if is_quoted(token) {
        Ok(Term::Immediate(Value::Text(trim_quotes(token))))
    } else {
        Err(Failure::VariableNotFound(token))
    }
}

/// One application of the operator that a token writes.
///
/// An assigning operator wants a variable on its left: it evaluates the
/// right operand, computes the value to store from the variable's value
/// and the right one, stores it and yields `Void`. Any other operator
/// evaluates the left operand, then the right one, and combines the two.
pub open spec fn applied(op: Seq<char>, left: Term, right: Term, env: Env) -> Reduced {
    match operator_named(op) {
        None => Reduced { result: Err(Failure::InvalidExpression(invalid_operator_text(op))), env },
        Some(o) => if is_assignment(o) {
            match left {
                Term::Variable(name) => match term_value(right, env) {
                    Err(e) => Reduced { result: Err(e), env },
                    Ok(r) => match lookup(env, name) {
                        None => Reduced { result: Err(Failure::VariableNotFound(name)), env },
                        Some(current) => {
                            let value = match assignment_base(o) {
                                Some(base) => binary_result(base, current, r),
                                None => Ok(r),
                            };
                            match value {
                                Ok(v) => Reduced {
                                    result: Ok(Value::Void),
                                    env: stored(env, name, v),
                                },
                                Err(e) => Reduced { result: Err(e), env },
                            }
                        },
                    },
                },
                _ => Reduced { result: Err(Failure::InvalidExpression(left_hand_text())), env },
            }
        } else {
            match term_value(left, env) {
                Err(e) => Reduced { result: Err(e), env },
                Ok(l) => match term_value(right, env) {
                    Err(e) => Reduced { result: Err(e), env },
                    Ok(r) => Reduced { result: binary_result(o, l, r), env },
                },
            }
        },
    }
}

/// Whether the operands of a pending operator are taken from the back:
/// those of the assigning operators are.
pub open spec fn from_back(op: Seq<char>) -> bool {
    priority_of(op) == Some(6nat)
}

/// Whether a reduction stops at the value it has: `&&` stops at the integer
/// 0, `||` at anything else.
pub open spec fn short_circuits(op: Seq<char>, acc: Value) -> bool {
    (op == "&&"@ && acc == Value::Integer(0)) || (op == "||"@ && acc != Value::Integer(0))
}

/// Folds the operands that are left into the value that the reduction has.
pub open spec fn folded(op: Seq<char>, acc: Value, rest: Seq<Term>, env: Env) -> Reduced
    decreases rest.len(),
{
    if rest.len() == 0 || short_circuits(op, acc) {
        Reduced { result: Ok(acc), env }
    } else {
        let step = if from_back(op) {
            applied(op, rest.last(), Term::Immediate(acc), env)
        } else {
            applied(op, Term::Immediate(acc), rest.first(), env)
        };
        let left = if from_back(op) {
            rest.drop_last()
        } else {
            rest.drop_first()
        };
        match step.result {
            Ok(v) => folded(op, v, left, step.env),
            Err(e) => step,
        }
    }
}

/// Reduces a pending operator to one value: the first operand is
/// evaluated, and each further one is combined with the value so far. The
/// assigning operators begin at the last operand and go leftwards. With no
/// operand at all there is nothing to reduce, which is `Unhandled`.
pub open spec fn reduced(op: Seq<char>, operands: Seq<Term>, env: Env) -> Reduced {
    if operands.len() == 0 {
        Reduced { result: Err(Failure::Unhandled), env }
    } else {
        let first = if from_back(op) {
            operands.last()
        } else {
            operands.first()
        };
        let rest = if from_back(op) {
            operands.drop_last()
        } else {
            operands.drop_first()
        };
        match term_value(first, env) {
            Ok(v) => folded(op, v, rest, env),
            Err(e) => Reduced { result: Err(e), env },
        }
    }
}

/// Hands a result to the pending operators, the last one first: each takes
/// the value as its last operand and is reduced. A value that is `Void` or
/// `Uninitialized` cannot be handed on.
pub open spec fn fed(frames: Seq<Pending>, r: Reduced) -> Reduced
    decreases frames.len(),
{
    if frames.len() == 0 {
        r
    } else {
        match r.result {
            Err(e) => r,
            Ok(v) => if is_empty_value(v) {
                Reduced { result: Err(Failure::VoidOperation), env: r.env }
            } else {
                let top = frames.last();
                fed(
                    frames.drop_last(),
                    reduced(top.op, top.operands.push(Term::Immediate(v)), r.env),
                )
            },
        }
    }
}

/// Reduces all pending operators, the last one first.
pub open spec fn settled(frames: Seq<Pending>, env: Env) -> Reduced
    recommends
        frames.len() > 0,
{
    let top = frames.last();
    fed(frames.drop_last(), reduced(top.op, top.operands, env))
}

/// Whether an operator of priority `upcoming` makes the pending operator of
/// priority `pending` reduce: it does unless it binds tighter. A token that
/// is no operator counts as binding tightest of all.
pub open spec fn yields_to(upcoming: Option<nat>, pending: Option<nat>) -> bool {
    match (upcoming, pending) {
        (Some(u), Some(p)) => u >= p,
        (Some(_), None) => true,
        (None, Some(_)) => false,
        (None, None) => true,
    }
}

/// Places an operand that the token `upcoming` follows.
///
/// With nothing pending, the token becomes a pending operator with the
/// operand as its first. Otherwise, where the token differs from the last
/// pending operator and does not bind tighter, that operator takes the
/// operand and is reduced, and the token is pending in its place with the
/// value as its first operand; else the token is pending on top with the
/// operand as its first.
pub open spec fn placed(frames: Seq<Pending>, term: Term, upcoming: Seq<char>, env: Env) -> Placement {
    if frames.len() == 0 {
        Placement::Continue(seq![Pending { op: upcoming, operands: seq![term] }], env)
    } else {
        let top = frames.last();
        if upcoming != top.op && yields_to(priority_of(upcoming), priority_of(top.op)) {
            let r = reduced(top.op, top.operands.push(term), env);
            match r.result {
                Err(e) => Placement::Done(r),
                Ok(v) => if is_empty_value(v) {
                    Placement::Done(Reduced { result: Err(Failure::VoidOperation), env: r.env })
                } else {
                    Placement::Continue(
                        frames.drop_last().push(
                            Pending { op: upcoming, operands: seq![Term::Immediate(v)] },
                        ),
                        r.env,
                    )
                },
            }
        } else {
            Placement::Continue(frames.push(Pending { op: upcoming, operands: seq![term] }), env)
        }
    }
}

/// The result of an expression whose last operand was read: alone it is
/// evaluated, else the last pending operator takes it and all are reduced.
pub open spec fn completed(frames: Seq<Pending>, term: Term, env: Env) -> Reduced {
    if frames.len() == 0 {
        Reduced { result: term_value(term, env), env }
    } else {
        let top = frames.last();
        settled(
            frames.drop_last().push(Pending { op: top.op, operands: top.operands.push(term) }),
            env,
        )
    }
}

/// How many tokens a closing bracket at position `p` takes: one if there
/// is a token there, else none.
pub open spec fn closing(tokens: Seq<Seq<char>>, p: int) -> nat {
    if p < tokens.len() {
        1
    } else {
        0
    }
}

/// The operand at position `p`, where no expression ends; `room` is how
/// many brackets may still be open inside one another.
///
/// A `(` opens an expression and a `{` a block, whose value is the
/// operand; the token after either is passed over. With no room left
/// either is refused. A unary operator that is no literal and no visible
/// variable is a prefix of the operand to come. Any other token is an
/// operand by itself.
pub open spec fn operand_at(tokens: Seq<Seq<char>>, p: int, env: Env, room: nat) -> Operand
    decreases remaining(tokens, p), 0nat,
{
    if at_end(tokens, p) {
        Operand::Failed(Failure::NoInput, 0, env)
    } else {
        let token = tokens[p];
        if (token == "("@ || token == "{"@) && room == 0 {
            Operand::Failed(Failure::InvalidExpression(too_deep_text()), 0, env)
        } else if token == "("@ {
            let sub = expression(tokens, p + 1, env, (room - 1) as nat);
            match sub.result {
                Err(e) => Operand::Failed(e, 1 + sub.consumed, sub.env),
                Ok(v) => Operand::Found(
                    Term::Immediate(v),
                    sub.consumed + closing(tokens, p + 1 + sub.consumed),
                    sub.env,
                ),
            }
        } else if token == "{"@ {
            let sub = sentence(tokens, p + 1, entered(env), (room - 1) as nat, Value::Void);
            match sub.result {
                Err(e) => Operand::Failed(e, 1 + sub.consumed, sub.env),
                Ok(v) => Operand::Found(
                    Term::Immediate(v),
                    sub.consumed + closing(tokens, p + 1 + sub.consumed),
                    exited(sub.env),
                ),
            }
        } else if !is_numeric(token) && lookup(env, token) is None && is_monomial_token(token) {
            Operand::Prefix
        } else {
            match primary_of(token, env) {
                Err(e) => Operand::Failed(e, 0, env),
                Ok(t) => Operand::Found(t, 0, env),
            }
        }
    }
}

/// The scan of an expression from position `p` on, with the operators that
/// are pending and the unary operators read since the last operand.
///
/// At a terminator or at the end the pending operators are reduced; with
/// none pending there is `NoInput`. Else the operand at `p` is read: a
/// prefix joins the unary operators, and an operand goes under them and is
/// placed.
pub open spec fn scan(
    tokens: Seq<Seq<char>>,
    p: int,
    env: Env,
    room: nat,
    frames: Seq<Pending>,
    unary: Seq<Seq<char>>,
) -> Outcome
    decreases remaining(tokens, p), 1nat,
{
    if at_end(tokens, p) {
        if frames.len() == 0 {
            Outcome { result: Err(Failure::NoInput), consumed: 0, env }
        } else {
            let r = settled(frames, env);
            Outcome { result: r.result, consumed: 0, env: r.env }
        }
    } else {
        match operand_at(tokens, p, env, room) {
            Operand::Failed(e, read, after) => Outcome { result: Err(e), consumed: read, env: after },
            Operand::Prefix => {
                let rest = scan(tokens, p + 1, env, room, frames, unary.push(tokens[p]));
                Outcome { consumed: 1 + rest.consumed, ..rest }
            },
            Operand::Found(t, more, after) => {
                let rest = after_operand(
                    tokens,
                    p + 1 + more,
                    after,
                    room,
                    frames,
                    wrapped(t, unary),
                );
                Outcome { consumed: 1 + more + rest.consumed, ..rest }
            },
        }
    }
}

/// The scan after an operand, at the position `q` of the token that
/// follows it.
pub open spec fn after_operand(
    tokens: Seq<Seq<char>>,
    q: int,
    env: Env,
    room: nat,
    frames: Seq<Pending>,
    term: Term,
) -> Outcome
    decreases remaining(tokens, q), 2nat,
{
    if at_end(tokens, q) {
        let r = completed(frames, term, env);
        Outcome { result: r.result, consumed: 0, env: r.env }
    } else {
        match placed(frames, term, tokens[q], env) {
            Placement::Done(r) => Outcome { result: r.result, consumed: 0, env: r.env },
            Placement::Continue(next, e) => {
                let rest = scan(tokens, q + 1, e, room, next, Seq::empty());
                Outcome { consumed: 1 + rest.consumed, ..rest }
            },
        }
    }
}

/// One expression from position `p` on: it ends before a terminator or at
/// the end of the tokens.
pub open spec fn expression(tokens: Seq<Seq<char>>, p: int, env: Env, room: nat) -> Outcome
    decreases remaining(tokens, p), 3nat,
{
    scan(tokens, p, env, room, Seq::empty(), Seq::empty())
}

/// The statements from position `p` on, up to a `}` or the end of the
/// tokens; `last` is the value of the statements before.
///
/// A `;` separates statements and leaves `Void` as the value so far. A
/// `let` declares the token after it, which must be there and be no
/// integer literal, in the innermost scope; the statement goes on at that
/// token. Anything else is an expression, whose value is the value so far;
/// a `)` after it is passed over.
pub open spec fn sentence(
    tokens: Seq<Seq<char>>,
    p: int,
    env: Env,
    room: nat,
    last: Value,
) -> Outcome
    decreases remaining(tokens, p), 4nat,
{
    if p < 0 || p >= tokens.len() || tokens[p] == "}"@ {
        Outcome { result: Ok(last), consumed: 0, env }
    } else if tokens[p] == ";"@ {
        let rest = sentence(tokens, p + 1, env, room, Value::Void);
        Outcome { consumed: rest.consumed + 1, ..rest }
    } else if tokens[p] == "let"@ {
        if p + 1 < tokens.len() && !is_integer_literal(tokens[p + 1]) {
            let rest = sentence(tokens, p + 1, declared(env, tokens[p + 1]), room, last);
            Outcome { consumed: rest.consumed + 1, ..rest }
        } else {
            Outcome { result: Err(Failure::InvalidExpression(let_text())), consumed: 0, env }
        }
    } else {
        let first = expression(tokens, p, env, room);
        let q = p + first.consumed;
        match first.result {
            Err(e) => first,
            Ok(v) => if q >= tokens.len() || tokens[q] == "}"@ {
                first
            } else {
                let rest = sentence(
                    tokens,
                    q + 1,
                    first.env,
                    room,
                    if tokens[q] == ";"@ {
                        Value::Void
                    } else {
                        v
                    },
                );
                Outcome { consumed: first.consumed + 1 + rest.consumed, ..rest }
            },
        }
    }
}

/// How often a word occurs among the tokens.
pub open spec fn occurrences(tokens: Seq<Seq<char>>, word: Seq<char>) -> nat
    decreases tokens.len(),
{
    if tokens.len() == 0 {
        0
    } else {
        occurrences(tokens.drop_last(), word) + if tokens.last() == word {
            1nat
        } else {
            0nat
        }
    }
}

/// The bracket that lacks its counterpart, if the round brackets or the
/// curly ones do not balance in number. The round ones are counted first.
pub open spec fn bracket_failure(tokens: Seq<Seq<char>>) -> Option<Failure> {
    if occurrences(tokens, "("@) > occurrences(tokens, ")"@) {
        Some(Failure::Bracket("("@))
    } else if occurrences(tokens, "("@) < occurrences(tokens, ")"@) {
        Some(Failure::Bracket(")"@))
    } else if occurrences(tokens, "{"@) > occurrences(tokens, "}"@) {
        Some(Failure::Bracket("{"@))
    } else if occurrences(tokens, "{"@) < occurrences(tokens, "}"@) {
        Some(Failure::Bracket("}"@))
    } else {
        None
    }
}

/// What evaluating the tokens from the first on does, with brackets nested
/// up to `room` deep: unbalanced brackets fail before anything is touched;
/// else the statements are evaluated and every block that a failure left
/// open is closed.
pub open spec fn evaluated(tokens: Seq<Seq<char>>, env: Env, room: nat) -> Reduced {
    match bracket_failure(tokens) {
        Some(f) => Reduced { result: Err(f), env },
        None => {
            let o = sentence(tokens, 0, env, room, Value::Void);
            Reduced { result: o.result, env: unwound(o.env) }
        },
    }
}

} // verus!
