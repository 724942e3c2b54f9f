//! Reading integer literals.

use crate::errors::{Failure, ParseError, ParseErrorType};
use crate::op::{invalid_expression, result_view};
use crate::semantics::{
    digit_value, digits_start, digits_value, is_integer_literal, is_numeric, literal_base,
    literal_value, not_based_text,
};
use crate::text::{append_text, chars_of, decimal, digit_char};
use crate::value::VarType;
use vstd::prelude::*;

verus! {

/// Digits that follow a number above the 32-bit range leave it there.
proof fn lemma_digits_grow(token: Seq<char>, i: int, base: int, acc: int)
    requires
        base >= 2,
        acc > i32::MAX,
    ensures
        match digits_value(token, i, base, acc) {
            Ok(n) => n > i32::MAX,
            Err(_) => true,
        },
    decreases token.len() - i,
{
    if 0 <= i < token.len() {
        if token[i] == '_' {
            lemma_digits_grow(token, i + 1, base, acc);
        } else {
            match digit_value(token[i]) {
                None => {},
                Some(d) => {
                    if d < base {
                        assert(acc * base + d > i32::MAX) by (nonlinear_arith)
                            requires
                                base >= 2,
                                acc > i32::MAX,
                                d >= 0,
                        ;
                        lemma_digits_grow(token, i + 1, base, acc * base + d);
                    }
                },
            }
        }
    }
}

/// The value of a character as a digit of a base up to sixteen.
pub fn digit_of(c: char) -> (r: Option<u8>)
    ensures
        match r {
            Some(d) => digit_value(c) == Some(d as int) && d < 16,
            None => digit_value(c) is None,
        },
{
    if '0' <= c && c <= '9' {
        Some(((c as u32) - ('0' as u32)) as u8)
    } else if 'a' <= c && c <= 'f' {
        Some(((c as u32) - ('a' as u32) + 10) as u8)
    } else if 'A' <= c && c <= 'F' {
        Some(((c as u32) - ('A' as u32) + 10) as u8)
    } else {
        None
    }
}

fn not_based_error(token: &Vec<char>, base: u8) -> (e: ParseError)
    requires
        base == 2 || base == 10 || base == 16,
    ensures
        e@ == Failure::InvalidExpression(not_based_text(token@, base as int)),
{
    let mut t = chars_of("Invalid integer. `");
    append_text(&mut t, token);
    append_text(&mut t, &chars_of("` is not "));
    let mut digits: Vec<char> = Vec::new();
    if base == 2 {
        digits.push('2');
        assert(digits@ =~= decimal(2));
    } else if base == 10 {
        digits.push('1');
        digits.push('0');
        assert(decimal(10) =~= decimal(1).push(digit_char(0))) by {
            reveal_with_fuel(decimal, 2);
        }
        assert(digits@ =~= decimal(10));
    } else {
        digits.push('1');
        digits.push('6');
        assert(decimal(16) =~= decimal(1).push(digit_char(6))) by {
            reveal_with_fuel(decimal, 2);
        }
        assert(digits@ =~= decimal(16));
    }
    append_text(&mut t, &digits);
    append_text(&mut t, &chars_of("-based number."));
    invalid_expression(&t)
}

/// Reads the integer that a literal writes.
pub fn read_literal(token: &Vec<char>) -> (r: Result<VarType, ParseError>)
    ensures
        result_view(r) == literal_value(token@),
{
    let n = token.len();
    let mut base: u8 = 10;
    let mut i: usize = 0;
    if n >= 2 && token[0] == '0' {
        let second = token[1];
        if second == 'x' {
            base = 16;
            i = 2;
        } else if second == 'b' {
            base = 2;
            i = 2;
        } else if !('0' <= second && second <= '9') {
            return Err(invalid_expression(&chars_of("Invalid integer.")));
        }
    }
    let mut acc: u64 = 0;
    let mut over = false;
    let ghost mut exact: int = 0;
    while i < n
        invariant
            n == token.len(),
            i <= n,
            base == 2 || base == 10 || base == 16,
            literal_base(token@) == Some(base as int),
            digits_value(token@, digits_start(token@), base as int, 0) == digits_value(
                token@,
                i as int,
                base as int,
                exact,
            ),
            over ==> exact > i32::MAX,
            !over ==> exact == acc && acc <= i32::MAX,
        decreases n - i,
    {
        let c = token[i];
        if c != '_' {
            match digit_of(c) {
                None => {
                    return Err(invalid_expression(&chars_of("Invalid integer.")));
                },
                Some(d) => {
                    if d >= base {
                        return Err(not_based_error(token, base));
                    }
                    proof {
                        if over {
                            assert(exact * base + d > i32::MAX) by (nonlinear_arith)
                                requires
                                    exact > i32::MAX,
                                    base >= 2,
                                    d >= 0,
                            ;
                        }
                        exact = exact * base + d;
                    }
                    if !over {
                        assert(acc * base + d <= 0x7fff_ffff * 16 + 16) by (nonlinear_arith)
                            requires
                                acc <= 0x7fff_ffff,
                                base <= 16,
                                d < 16,
                        ;
                        let next: u64 = acc * (base as u64) + (d as u64);
                        if next > 0x7fff_ffff {
                            over = true;
                        } else {
                            acc = next;
                        }
                    }
                },
            }
        }
        i += 1;
    }
    if over {
        proof {
            lemma_digits_grow(token@, n as int, base as int, exact);
        }
        Err(ParseError::new(ParseErrorType::InvalidInteger))
    } else {
        Ok(VarType::Integer(acc as i32))
    }
}

/// Whether a token begins with a decimal digit.
pub fn numeric(token: &Vec<char>) -> (r: bool)
    ensures
        r == is_numeric(token@),
{
    token.len() > 0 && '0' <= token[0] && token[0] <= '9'
}

/// Whether a token is an integer literal that can be read.
pub fn integer_literal(token: &Vec<char>) -> (r: bool)
    ensures
        r == is_integer_literal(token@),
{
    numeric(token) && read_literal(token).is_ok()
}

} // verus!
