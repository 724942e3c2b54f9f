//! The operator table and what each operator does to values.

use crate::errors::{Failure, ParseError, ParseErrorType};
use crate::text::{append_text, chars_of, string_from_chars};
use crate::value::{is_empty_value, value_text, Value, VarType};
use std::rc::Rc;
use vstd::prelude::*;

verus! {

/// The binary operators, in the order of the precedence table.
#[derive(Clone, Copy, Debug, PartialEq, Eq, Structural)]
pub enum Operator {
    Mul,
    Div,
    Rem,
    Add,
    Sub,
    Shr,
    Shl,
    BitAnd,
    BitOr,
    BitXor,
    Equal,
    NotEqual,
    Greater,
    Less,
    GreaterEqual,
    LessEqual,
    And,
    Or,
    Assign,
    AddAssign,
    SubAssign,
    MulAssign,
    DivAssign,
    RemAssign,
    OrAssign,
    AndAssign,
    XorAssign,
    ShrAssign,
    ShlAssign,
}

/// The binary operator that a token writes, if it writes one.
pub open spec fn operator_named(token: Seq<char>) -> Option<Operator> {
    if token == "*"@ {
        Some(Operator::Mul)
    } else if token == "/"@ {
        Some(Operator::Div)
    } else if token == "%"@ {
        Some(Operator::Rem)
    } else if token == "+"@ {
        Some(Operator::Add)
    } else if token == "-"@ {
        Some(Operator::Sub)
    } else if token == ">>"@ {
        Some(Operator::Shr)
    } else if token == "<<"@ {
        Some(Operator::Shl)
    } else if token == "&"@ {
        Some(Operator::BitAnd)
    } else if token == "|"@ {
        Some(Operator::BitOr)
    } else if token == "^"@ {
        Some(Operator::BitXor)
    } else if token == "=="@ {
        Some(Operator::Equal)
    } else if token == "!="@ {
        Some(Operator::NotEqual)
    } else if token == ">"@ {
        Some(Operator::Greater)
    } else if token == "<"@ {
        Some(Operator::Less)
    } else if token == ">="@ {
        Some(Operator::GreaterEqual)
    } else if token == "<="@ {
        Some(Operator::LessEqual)
    } else if token == "&&"@ {
        Some(Operator::And)
    } else if token == "||"@ {
        Some(Operator::Or)
    } else if token == "="@ {
        Some(Operator::Assign)
    } else if token == "+="@ {
        Some(Operator::AddAssign)
    } else if token == "-="@ {
        Some(Operator::SubAssign)
    } else if token == "*="@ {
        Some(Operator::MulAssign)
    } else if token == "/="@ {
        Some(Operator::DivAssign)
    } else if token == "%="@ {
        Some(Operator::RemAssign)
    } else if token == "|="@ {
        Some(Operator::OrAssign)
    } else if token == "&="@ {
        Some(Operator::AndAssign)
    } else if token == "^="@ {
        Some(Operator::XorAssign)
    } else if token == ">>="@ {
        Some(Operator::ShrAssign)
    } else if token == "<<="@ {
        Some(Operator::ShlAssign)
    } else {
        None
    }
}

/// The row of the precedence table that holds the operator; row 0 binds
/// tightest.
pub open spec fn operator_priority(op: Operator) -> nat {
    match op {
        Operator::Mul | Operator::Div | Operator::Rem => 0,
        Operator::Add | Operator::Sub => 1,
        Operator::Shr | Operator::Shl => 2,
        Operator::BitAnd | Operator::BitOr | Operator::BitXor => 3,
        Operator::Equal
        | Operator::NotEqual
        | Operator::Greater
        | Operator::Less
        | Operator::GreaterEqual
        | Operator::LessEqual => 4,
        Operator::And | Operator::Or => 5,
        _ => 6,
    }
}

/// The priority of the binary operator that a token writes.
pub open spec fn priority_of(token: Seq<char>) -> Option<nat> {
    match operator_named(token) {
        Some(op) => Some(operator_priority(op)),
        None => None,
    }
}

/// Whether a token writes a unary operator.
pub open spec fn is_monomial_token(token: Seq<char>) -> bool {
    token == "+"@ || token == "-"@ || token == "&"@ || token == "&&"@ || token == "*"@ || token
        == "!"@ || token == "~"@
}

/// Whether the operator stores into its left operand.
pub open spec fn is_assignment(op: Operator) -> bool {
    operator_priority(op) == 6
}

/// The operator that an assigning operator applies before it stores, where
/// it applies one.
pub open spec fn assignment_base(op: Operator) -> Option<Operator> {
    match op {
        Operator::AddAssign => Some(Operator::Add),
        Operator::SubAssign => Some(Operator::Sub),
        Operator::MulAssign => Some(Operator::Mul),
        Operator::DivAssign => Some(Operator::Div),
        Operator::RemAssign => Some(Operator::Rem),
        Operator::OrAssign => Some(Operator::BitOr),
        Operator::AndAssign => Some(Operator::BitAnd),
        Operator::XorAssign => Some(Operator::BitXor),
        Operator::ShrAssign => Some(Operator::Shr),
        Operator::ShlAssign => Some(Operator::Shl),
        _ => None,
    }
}

/// Whether a token holds exactly the characters of a word.
pub fn is_word(token: &Vec<char>, word: &str) -> (r: bool)
    ensures
        r == (token@ == word@),
{
    let w = chars_of(word);
    crate::text::same_text(token, &w)
}

/// Finds the binary operator that a token writes.
pub fn operator_of(token: &Vec<char>) -> (r: Option<Operator>)
    ensures
        r == operator_named(token@),
{
    if is_word(token, "*") {
        Some(Operator::Mul)
    } else if is_word(token, "/") {
        Some(Operator::Div)
    } else if is_word(token, "%") {
        Some(Operator::Rem)
    } else if is_word(token, "+") {
        Some(Operator::Add)
    } else if is_word(token, "-") {
        Some(Operator::Sub)
    } else if is_word(token, ">>") {
        Some(Operator::Shr)
    } else if is_word(token, "<<") {
        Some(Operator::Shl)
    } else if is_word(token, "&") {
        Some(Operator::BitAnd)
    } else if is_word(token, "|") {
        Some(Operator::BitOr)
    } else if is_word(token, "^") {
        Some(Operator::BitXor)
    } else if is_word(token, "==") {
        Some(Operator::Equal)
    } else if is_word(token, "!=") {
        Some(Operator::NotEqual)
    } else if is_word(token, ">") {
        Some(Operator::Greater)
    } else if is_word(token, "<") {
        Some(Operator::Less)
    } else if is_word(token, ">=") {
        Some(Operator::GreaterEqual)
    } else if is_word(token, "<=") {
        Some(Operator::LessEqual)
    } else if is_word(token, "&&") {
        Some(Operator::And)
    } else if is_word(token, "||") {
        Some(Operator::Or)
    } else if is_word(token, "=") {
        Some(Operator::Assign)
    } else if is_word(token, "+=") {
        Some(Operator::AddAssign)
    } else if is_word(token, "-=") {
        Some(Operator::SubAssign)
    } else if is_word(token, "*=") {
        Some(Operator::MulAssign)
    } else if is_word(token, "/=") {
        Some(Operator::DivAssign)
    } else if is_word(token, "%=") {
        Some(Operator::RemAssign)
    } else if is_word(token, "|=") {
        Some(Operator::OrAssign)
    } else if is_word(token, "&=") {
        Some(Operator::AndAssign)
    } else if is_word(token, "^=") {
        Some(Operator::XorAssign)
    } else if is_word(token, ">>=") {
        Some(Operator::ShrAssign)
    } else if is_word(token, "<<=") {
        Some(Operator::ShlAssign)
    } else {
        None
    }
}

/// The row of the precedence table that holds the operator.
pub fn priority(op: Operator) -> (r: usize)
    ensures
        r == operator_priority(op),
{
    match op {
        Operator::Mul | Operator::Div | Operator::Rem => 0,
        Operator::Add | Operator::Sub => 1,
        Operator::Shr | Operator::Shl => 2,
        Operator::BitAnd | Operator::BitOr | Operator::BitXor => 3,
        Operator::Equal
        | Operator::NotEqual
        | Operator::Greater
        | Operator::Less
        | Operator::GreaterEqual
        | Operator::LessEqual => 4,
        Operator::And | Operator::Or => 5,
        _ => 6,
    }
}

/// A priority as a natural number.
pub open spec fn priority_view(r: Option<usize>) -> Option<nat> {
    match r {
        Some(p) => Some(p as nat),
        None => None,
    }
}

/// The priority of the operator that a token writes.
pub fn token_priority(token: &Vec<char>) -> (r: Option<usize>)
    ensures
        priority_view(r) == priority_of(token@),
{
    match operator_of(token) {
        Some(op) => Some(priority(op)),
        None => None,
    }
}

/// Whether a token writes a unary operator.
pub fn monomial_token(token: &Vec<char>) -> (r: bool)
    ensures
        r == is_monomial_token(token@),
{
    is_word(token, "+") || is_word(token, "-") || is_word(token, "&") || is_word(token, "&&")
        || is_word(token, "*") || is_word(token, "!") || is_word(token, "~")
}

/// The distance of an integer from zero.
pub open spec fn magnitude(x: int) -> int {
    if x < 0 {
        -x
    } else {
        x
    }
}

/// The quotient of a division that rounds towards zero.
pub open spec fn quotient(x: int, y: int) -> int {
    if (x < 0) == (y < 0) {
        magnitude(x) / magnitude(y)
    } else {
        -(magnitude(x) / magnitude(y))
    }
}

/// The remainder of a division that rounds towards zero: it has the sign of
/// the dividend.
pub open spec fn remainder(x: int, y: int) -> int {
    if x < 0 {
        -(magnitude(x) % magnitude(y))
    } else {
        magnitude(x) % magnitude(y)
    }
}

/// Why two values cannot be ordered.
pub open spec fn compare_text(a: Value, b: Value) -> Seq<char> {
    "Cannot compare "@ + value_text(a) + " and "@ + value_text(b) + "."@
}

/// Why a unary operator does not apply to a value.
pub open spec fn monomial_text(op: Seq<char>, v: Value) -> Seq<char> {
    "Monomial \""@ + op + "\" is not for "@ + value_text(v) + "."@
}

/// Why a token cannot stand between two operands.
pub open spec fn invalid_operator_text(token: Seq<char>) -> Seq<char> {
    "Invalid operator \""@ + token + "\"."@
}

/// What an arithmetic, bitwise or shift operator makes of two integers.
/// Results outside the 32-bit range and shifts by less than 0 or more than
/// 31 bits fail.
pub open spec fn integer_result(op: Operator, a: i32, b: i32) -> Result<Value, Failure> {
    match op {
        Operator::Add => if i32::MIN <= a + b <= i32::MAX {
            Ok(Value::Integer((a + b) as i32))
        } else {
            Err(Failure::OperationOverflow)
        },
        Operator::Sub => if i32::MIN <= a - b <= i32::MAX {
            Ok(Value::Integer((a - b) as i32))
        } else {
            Err(Failure::OperationUnderflow)
        },
        Operator::Mul => if i32::MIN <= a * b <= i32::MAX {
            Ok(Value::Integer((a * b) as i32))
        } else {
            Err(Failure::OperationOverflow)
        },
        Operator::Div => if b == 0 {
            Err(Failure::DivideByZero)
        } else if a == i32::MIN && b == -1 {
            Err(Failure::OperationOverflow)
        } else {
            Ok(Value::Integer(quotient(a as int, b as int) as i32))
        },
        Operator::Rem => if b == 0 {
            Err(Failure::DivideByZero)
        } else if a == i32::MIN && b == -1 {
            Err(Failure::OperationOverflow)
        } else {
            Ok(Value::Integer(remainder(a as int, b as int) as i32))
        },
        Operator::Shr => if 0 <= b < 32 {
            Ok(Value::Integer(a >> b))
        } else {
            Err(Failure::OperationUnderflow)
        },
        Operator::Shl => if 0 <= b < 32 {
            Ok(Value::Integer(a << b))
        } else {
            Err(Failure::OperationOverflow)
        },
        Operator::BitAnd => Ok(Value::Integer(a & b)),
        Operator::BitOr => Ok(Value::Integer(a | b)),
        Operator::BitXor => Ok(Value::Integer(a ^ b)),
        _ => Err(Failure::Unhandled),
    }
}

/// The integer that stands for a truth value.
pub open spec fn truth(b: bool) -> Value {
    Value::Integer(
        if b {
            1i32
        } else {
            0i32
        },
    )
}

/// Why an operator that wants two integers (or, for `+`, two strings)
/// refuses its operands.
pub open spec fn operand_failure(l: Value, r: Value) -> Failure {
    if is_empty_value(l) || is_empty_value(r) {
        Failure::VoidOperation
    } else {
        Failure::InvalidExpression("Invalid operation."@)
    }
}

/// Why two values that are not both integers cannot be ordered.
pub open spec fn order_failure(l: Value, r: Value) -> Failure {
    if is_empty_value(l) || is_empty_value(r) {
        Failure::VoidOperation
    } else {
        Failure::InvalidExpression(compare_text(l, r))
    }
}

/// What a binary operator that stores nothing makes of two values.
///
/// Equality holds between values of the same variant and content, whatever
/// the variant. The relations order integers only. The logical operators
/// take integers, where 0 is false. `+` adds integers and joins strings;
/// the other operators take integers. An operator that refuses its
/// operands fails with `VoidOperation` where one of them is `Void` or
/// `Uninitialized`, and with `InvalidExpression` else.
pub open spec fn binary_result(op: Operator, l: Value, r: Value) -> Result<Value, Failure> {
    match op {
        Operator::Equal => Ok(truth(l == r)),
        Operator::NotEqual => Ok(truth(l != r)),
        Operator::Greater | Operator::Less | Operator::GreaterEqual | Operator::LessEqual => {
            match (l, r) {
                (Value::Integer(a), Value::Integer(b)) => Ok(
                    truth(
                        match op {
                            Operator::Greater => a > b,
                            Operator::Less => a < b,
                            Operator::GreaterEqual => a >= b,
                            _ => a <= b,
                        },
                    ),
                ),
                _ => Err(order_failure(l, r)),
            }
        },
        Operator::And => match (l, r) {
            (Value::Integer(a), Value::Integer(b)) => Ok(truth(a != 0 && b != 0)),
            _ => Err(operand_failure(l, r)),
        },
        Operator::Or => match (l, r) {
            (Value::Integer(a), Value::Integer(b)) => Ok(truth(a != 0 || b != 0)),
            _ => Err(operand_failure(l, r)),
        },
        _ => if is_assignment(op) {
            Err(Failure::Unhandled)
        } else {
            match (l, r) {
                (Value::Integer(a), Value::Integer(b)) => integer_result(op, a, b),
                (Value::Text(a), Value::Text(b)) => if op == Operator::Add {
                    Ok(Value::Text(a + b))
                } else {
                    Err(operand_failure(l, r))
                },
                _ => Err(operand_failure(l, r)),
            }
        },
    }
}

/// What a unary operator makes of a value. The token `&&` takes the address
/// twice; `-` fails on the smallest integer, whose negation does not fit;
/// the bitwise complement of `i` is `-1 - i`.
pub open spec fn monomial_result(op: Seq<char>, v: Value) -> Result<Value, Failure> {
    if is_empty_value(v) {
        Err(Failure::VoidOperation)
    } else if op == "&"@ {
        Ok(Value::Pointer(Box::new(v)))
    } else if op == "&&"@ {
        Ok(Value::Pointer(Box::new(Value::Pointer(Box::new(v)))))
    } else {
        match v {
            Value::Integer(i) => if op == "+"@ {
                Ok(Value::Integer(i))
            } else if op == "-"@ {
                if i == i32::MIN {
                    Err(Failure::OperationOverflow)
                } else {
                    Ok(Value::Integer((-i) as i32))
                }
            } else if op == "~"@ {
                Ok(Value::Integer((-1 - i) as i32))
            } else if op == "!"@ {
                Ok(truth(i == 0))
            } else {
                Err(Failure::InvalidExpression(monomial_text(op, v)))
            },
            Value::Pointer(p) => if op == "*"@ {
                Ok(*p)
            } else {
                Err(Failure::InvalidExpression(monomial_text(op, v)))
            },
            _ => Err(Failure::InvalidExpression(monomial_text(op, v))),
        }
    }
}

/// The mathematical content of an evaluation's result.
pub open spec fn result_view(r: Result<VarType, crate::errors::ParseError>) -> Result<
    Value,
    Failure,
> {
    match r {
        Ok(v) => Ok(v@),
        Err(e) => Err(e@),
    }
}

/// A failure that says the expression is malformed.
pub fn invalid_expression(message: &Vec<char>) -> (r: ParseError)
    ensures
        r@ == Failure::InvalidExpression(message@),
{
    ParseError::new(ParseErrorType::InvalidExpression(string_from_chars(message)))
}

fn truth_value(b: bool) -> (r: VarType)
    ensures
        r@ == truth(b),
{
    if b {
        VarType::Integer(1)
    } else {
        VarType::Integer(0)
    }
}

fn operand_error(l: &VarType, r: &VarType) -> (e: ParseError)
    ensures
        e@ == operand_failure(l@, r@),
{
    if l.is_empty() || r.is_empty() {
        ParseError::new(ParseErrorType::VoidOperation)
    } else {
        invalid_expression(&chars_of("Invalid operation."))
    }
}

fn compare_error(l: &VarType, r: &VarType) -> (e: ParseError)
    ensures
        e@ == order_failure(l@, r@),
{
    if l.is_empty() || r.is_empty() {
        return ParseError::new(ParseErrorType::VoidOperation);
    }
    let mut t = chars_of("Cannot compare ");
    append_text(&mut t, &l.text());
    append_text(&mut t, &chars_of(" and "));
    append_text(&mut t, &r.text());
    append_text(&mut t, &chars_of("."));
    invalid_expression(&t)
}

fn monomial_error(op: &Vec<char>, v: &VarType) -> (e: ParseError)
    ensures
        e@ == Failure::InvalidExpression(monomial_text(op@, v@)),
{
    let mut t = chars_of("Monomial \"");
    append_text(&mut t, op);
    append_text(&mut t, &chars_of("\" is not for "));
    append_text(&mut t, &v.text());
    append_text(&mut t, &chars_of("."));
    invalid_expression(&t)
}

/// A failure that says a token cannot stand between two operands.
pub fn invalid_operator(token: &Vec<char>) -> (e: ParseError)
    ensures
        e@ == Failure::InvalidExpression(invalid_operator_text(token@)),
{
    let mut t = chars_of("Invalid operator \"");
    append_text(&mut t, token);
    append_text(&mut t, &chars_of("\"."));
    invalid_expression(&t)
}

proof fn lemma_quotient_fits(a: i32, b: i32)
    requires
        b != 0,
        !(a == i32::MIN && b == -1),
    ensures
        i32::MIN <= quotient(a as int, b as int) <= i32::MAX,
        a.checked_div(b) == Some(quotient(a as int, b as int) as i32),
{
    let x = magnitude(a as int);
    let y = magnitude(b as int);
    assert(0 <= x / y <= x) by (nonlinear_arith)
        requires
            x >= 0,
            y >= 1,
    ;
    assert(0int / y == 0) by (nonlinear_arith)
        requires
            y >= 1,
    ;
    if y >= 2 && x > 0 {
        assert(x / y < x) by (nonlinear_arith)
            requires
                x > 0,
                y >= 2,
        ;
    }
    if y == 1 {
        assert(x / y == x) by (nonlinear_arith)
            requires
                y == 1,
        ;
    }
}

proof fn lemma_remainder_fits(a: i32, b: i32)
    requires
        b != 0,
        !(a == i32::MIN && b == -1),
    ensures
        i32::MIN <= remainder(a as int, b as int) <= i32::MAX,
        a.checked_rem(b) == Some(remainder(a as int, b as int) as i32),
{
    let x = magnitude(a as int);
    let y = magnitude(b as int);
    assert(0 <= x % y < y) by (nonlinear_arith)
        requires
            y >= 1,
    ;
    assert(0int % y == 0) by (nonlinear_arith)
        requires
            y >= 1,
    ;
}

/// Applies an arithmetic, bitwise or shift operator to two integers.
pub fn calculate_integers(op: Operator, a: i32, b: i32) -> (r: Result<VarType, ParseError>)
    ensures
        result_view(r) == integer_result(op, a, b),
{
    match op {
        Operator::Add => match a.checked_add(b) {
            Some(v) => Ok(VarType::Integer(v)),
            None => Err(ParseError::new(ParseErrorType::OperationOverflow)),
        },
        Operator::Sub => match a.checked_sub(b) {
            Some(v) => Ok(VarType::Integer(v)),
            None => Err(ParseError::new(ParseErrorType::OperationUnderflow)),
        },
        Operator::Mul => match a.checked_mul(b) {
            Some(v) => Ok(VarType::Integer(v)),
            None => Err(ParseError::new(ParseErrorType::OperationOverflow)),
        },
        Operator::Div => {
            if b == 0 {
                Err(ParseError::new(ParseErrorType::DivideByZero))
            } else if a == i32::MIN && b == -1 {
                Err(ParseError::new(ParseErrorType::OperationOverflow))
            } else {
                proof {
                    lemma_quotient_fits(a, b);
                }
                match a.checked_div(b) {
                    Some(v) => Ok(VarType::Integer(v)),
                    None => Err(ParseError::new(ParseErrorType::Unhandled)),
                }
            }
        },
        Operator::Rem => {
            if b == 0 {
                Err(ParseError::new(ParseErrorType::DivideByZero))
            } else if a == i32::MIN && b == -1 {
                Err(ParseError::new(ParseErrorType::OperationOverflow))
            } else {
                proof {
                    lemma_remainder_fits(a, b);
                }
                match a.checked_rem(b) {
                    Some(v) => Ok(VarType::Integer(v)),
                    None => Err(ParseError::new(ParseErrorType::Unhandled)),
                }
            }
        },
        Operator::Shr => {
            if 0 <= b && b < 32 {
                Ok(VarType::Integer(a >> b))
            } else {
                Err(ParseError::new(ParseErrorType::OperationUnderflow))
            }
        },
        Operator::Shl => {
            if 0 <= b && b < 32 {
                Ok(VarType::Integer(a << b))
            } else {
                Err(ParseError::new(ParseErrorType::OperationOverflow))
            }
        },
        Operator::BitAnd => Ok(VarType::Integer(a & b)),
        Operator::BitOr => Ok(VarType::Integer(a | b)),
        Operator::BitXor => Ok(VarType::Integer(a ^ b)),
        _ => Err(ParseError::new(ParseErrorType::Unhandled)),
    }
}

/// Applies a binary operator that stores nothing to two values.
pub fn calculate(op: Operator, l: &VarType, r: &VarType) -> (res: Result<VarType, ParseError>)
    ensures
        result_view(res) == binary_result(op, l@, r@),
{
    match op {
        Operator::Equal => Ok(truth_value(l.same(r))),
        Operator::NotEqual => Ok(truth_value(!l.same(r))),
        Operator::Greater | Operator::Less | Operator::GreaterEqual | Operator::LessEqual => {
            match (l, r) {
                (VarType::Integer(a), VarType::Integer(b)) => Ok(
                    truth_value(
                        match op {
                            Operator::Greater => *a > *b,
                            Operator::Less => *a < *b,
                            Operator::GreaterEqual => *a >= *b,
                            _ => *a <= *b,
                        },
                    ),
                ),
                _ => Err(compare_error(l, r)),
            }
        },
        Operator::And => match (l, r) {
            (VarType::Integer(a), VarType::Integer(b)) => Ok(truth_value(*a != 0 && *b != 0)),
            _ => Err(operand_error(l, r)),
        },
        Operator::Or => match (l, r) {
            (VarType::Integer(a), VarType::Integer(b)) => Ok(truth_value(*a != 0 || *b != 0)),
            _ => Err(operand_error(l, r)),
        },
        _ => {
            if priority(op) == 6 {
                Err(ParseError::new(ParseErrorType::Unhandled))
            } else {
                match (l, r) {
                    (VarType::Integer(a), VarType::Integer(b)) => calculate_integers(op, *a, *b),
                    (VarType::String(a), VarType::String(b)) => {
                        if op == Operator::Add {
                            let mut t = chars_of(a.as_str());
                            append_text(&mut t, &chars_of(b.as_str()));
                            Ok(VarType::String(string_from_chars(&t)))
                        } else {
                            Err(operand_error(l, r))
                        }
                    },
                    _ => Err(operand_error(l, r)),
                }
            }
        },
    }
}

/// Applies a unary operator to a value.
pub fn calculate_monomial(op: &Vec<char>, v: VarType) -> (res: Result<VarType, ParseError>)
    ensures
        result_view(res) == monomial_result(op@, v@),
{
    if v.is_empty() {
        Err(ParseError::new(ParseErrorType::VoidOperation))
    } else if is_word(op, "&") {
        let r = VarType::Pointer(Rc::new(v));
        assert(r@ == Value::Pointer(Box::new(v@)));
        Ok(r)
    } else if is_word(op, "&&") {
        let inner = VarType::Pointer(Rc::new(v));
        assert(inner@ == Value::Pointer(Box::new(v@)));
        let r = VarType::Pointer(Rc::new(inner));
        assert(r@ == Value::Pointer(Box::new(inner@)));
        Ok(r)
    } else {
        match &v {
            VarType::Integer(i) => {
                if is_word(op, "+") {
                    Ok(VarType::Integer(*i))
                } else if is_word(op, "-") {
                    if *i == i32::MIN {
                        Err(ParseError::new(ParseErrorType::OperationOverflow))
                    } else {
                        Ok(VarType::Integer(-*i))
                    }
                } else if is_word(op, "~") {
                    Ok(VarType::Integer(-1 - *i))
                } else if is_word(op, "!") {
                    Ok(truth_value(*i == 0))
                } else {
                    Err(monomial_error(op, &v))
                }
            },
            VarType::Pointer(p) => {
                if is_word(op, "*") {
                    let r = (&**p).clone();
                    assert(monomial_result(op@, v@) == Ok::<Value, Failure>(r@));
                    Ok(r)
                } else {
                    Err(monomial_error(op, &v))
                }
            },
            _ => Err(monomial_error(op, &v)),
        }
    }
}

} // verus!
