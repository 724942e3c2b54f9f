use expr_parser::{ExprParser, ParseError, ParseErrorType, VarType};
use std::rc::Rc;

fn eval(source: &str) -> Result<VarType, ParseError> {
    let mut parser = ExprParser::new();
    parser.parse(&source.to_string())
}

fn number(source: &str) -> i32 {
    match eval(source) {
        Ok(VarType::Integer(i)) => i,
        other => panic!("expected an integer, got {:?}", other),
    }
}

fn failure(source: &str) -> ParseErrorType {
    match eval(source) {
        Ok(v) => panic!("expected a failure, got {:?}", v),
        Err(e) => e.kind().clone(),
    }
}

fn invalid(message: &str) -> ParseErrorType {
    ParseErrorType::InvalidExpression(message.to_string())
}

#[test]
fn priorities_follow_the_table() {
    for op in ["*", "/", "%"] {
        assert_eq!(ExprParser::get_priority(op), Some(0));
    }
    for op in ["+", "-"] {
        assert_eq!(ExprParser::get_priority(op), Some(1));
    }
    for op in [">>", "<<"] {
        assert_eq!(ExprParser::get_priority(op), Some(2));
    }
    for op in ["&", "|", "^"] {
        assert_eq!(ExprParser::get_priority(op), Some(3));
    }
    for op in ["==", "!=", ">", "<", ">=", "<="] {
        assert_eq!(ExprParser::get_priority(op), Some(4));
    }
    for op in ["&&", "||"] {
        assert_eq!(ExprParser::get_priority(op), Some(5));
    }
    for op in ["=", "+=", "-=", "*=", "/=", "%=", "|=", "&=", "^=", ">>=", "<<="] {
        assert_eq!(ExprParser::get_priority(op), Some(6));
    }
    for op in ["!", "~", "=>", "a", "", "**", "(", ";"] {
        assert_eq!(ExprParser::get_priority(op), None);
    }
}

#[test]
fn unary_operators_are_known() {
    for op in ["+", "-", "&", "&&", "*", "!", "~"] {
        assert!(ExprParser::is_monomial(op));
    }
    for op in ["/", "%", "||", "=", "a", "", "--"] {
        assert!(!ExprParser::is_monomial(op));
    }
}

#[test]
fn arithmetic_is_exact() {
    assert_eq!(number("2 + 3"), 5);
    assert_eq!(number("2 - 3"), -1);
    assert_eq!(number("6 * 7"), 42);
    assert_eq!(number("7 / 2"), 3);
    assert_eq!(number("-7 / 2"), -3);
    assert_eq!(number("7 / -2"), -3);
    assert_eq!(number("-7 / -2"), 3);
    assert_eq!(number("7 % 3"), 1);
    assert_eq!(number("-7 % 3"), -1);
    assert_eq!(number("7 % -3"), 1);
    assert_eq!(number("0 / 5"), 0);
}

#[test]
fn bits_and_shifts_are_exact() {
    assert_eq!(number("12 & 10"), 8);
    assert_eq!(number("12 | 10"), 14);
    assert_eq!(number("12 ^ 10"), 6);
    assert_eq!(number("1 << 4"), 16);
    assert_eq!(number("-16 >> 2"), -4);
    assert_eq!(number("1 << 31"), i32::MIN);
    assert_eq!(number("3 << 31"), i32::MIN);
    assert_eq!(number("~5"), -6);
    assert_eq!(number("~0"), -1);
    assert_eq!(number("!0"), 1);
    assert_eq!(number("!7"), 0);
    assert_eq!(number("-5"), -5);
    assert_eq!(number("+5"), 5);
    assert_eq!(number("- - 5"), 5);
}

#[test]
fn comparisons_give_one_or_zero() {
    assert_eq!(number("1 == 1"), 1);
    assert_eq!(number("1 == 2"), 0);
    assert_eq!(number("1 != 2"), 1);
    assert_eq!(number("2 > 1"), 1);
    assert_eq!(number("1 > 1"), 0);
    assert_eq!(number("1 < 2"), 1);
    assert_eq!(number("2 >= 2"), 1);
    assert_eq!(number("1 >= 2"), 0);
    assert_eq!(number("2 <= 2"), 1);
    assert_eq!(number("3 <= 2"), 0);
    assert_eq!(number("\"a\" == \"a\""), 1);
    assert_eq!(number("\"a\" == \"b\""), 0);
    assert_eq!(number("\"a\" != 1"), 1);
    assert_eq!(number("let a; a = 3; &a == &a"), 1);
}

#[test]
fn logic_gives_one_or_zero() {
    assert_eq!(number("1 && 2"), 1);
    assert_eq!(number("1 && 0"), 0);
    assert_eq!(number("0 || 0"), 0);
    assert_eq!(number("0 || 3"), 1);
}

#[test]
fn logic_stops_at_the_deciding_operand() {
    assert_eq!(number("0 && -\"a\""), 0);
    assert_eq!(number("5 || -\"a\""), 5);
    assert_eq!(failure("1 && -\"a\""), invalid("Monomial \"-\" is not for String(\"a\")."));
}

#[test]
fn precedence_orders_the_reductions() {
    assert_eq!(number("1 + 2 * 3 + 4"), 11);
    assert_eq!(number("2 * 3 + 4 * 5"), 26);
    assert_eq!(number("1 + 2 == 3"), 1);
    assert_eq!(number("1 << 2 + 1"), 8);
    assert_eq!(number("6 & 3 == 2"), 1);
    assert_eq!(number("2 * (3 + 4)"), 14);
    assert_eq!(number("((2))"), 2);
}

#[test]
fn equal_operators_nest_to_the_right() {
    assert_eq!(number("10 - 2 - 3"), 11);
    assert_eq!(number("8 / 2 / 2"), 8);
    assert_eq!(number("1 + 2 + 3"), 6);
}

#[test]
fn trailing_operator_is_dropped() {
    assert_eq!(number("1 +"), 1);
    assert_eq!(number("(2 *) + 1"), 3);
}

#[test]
fn assignments_store_and_yield_void() {
    assert_eq!(eval("let a; a = 5"), Ok(VarType::Void));
    assert_eq!(number("let a = 5; a"), 5);
    assert_eq!(number("let a = 5; a += 2; a"), 7);
    assert_eq!(number("let a = 5; a -= 2; a"), 3);
    assert_eq!(number("let a = 5; a *= 2; a"), 10);
    assert_eq!(number("let a = 5; a /= 2; a"), 2);
    assert_eq!(number("let a = 5; a %= 2; a"), 1);
    assert_eq!(number("let a = 5; a |= 2; a"), 7);
    assert_eq!(number("let a = 5; a &= 4; a"), 4);
    assert_eq!(number("let a = 5; a ^= 1; a"), 4);
    assert_eq!(number("let a = 5; a >>= 1; a"), 2);
    assert_eq!(number("let a = 5; a <<= 1; a"), 10);
    assert_eq!(number("let a = 1; a = a + 2 * 3; a"), 7);
    assert_eq!(
        eval("let s = \"ab\"; s += \"cd\"; s"),
        Ok(VarType::String("abcd".to_string()))
    );
}

#[test]
fn assignment_wants_a_variable_on_the_left() {
    assert_eq!(failure("1 = 2"), invalid("The left-hand must be variable."));
    assert_eq!(failure("let a = 1; -a = 2"), invalid("The left-hand must be variable."));
}

#[test]
fn chained_assignment_hands_void_on() {
    assert_eq!(failure("let a; let b; a = b = 5"), ParseErrorType::VoidOperation);
}

#[test]
fn compound_assignment_to_unassigned_fails() {
    assert_eq!(failure("let a; a += 1"), ParseErrorType::VoidOperation);
}

#[test]
fn out_of_range_results_fail() {
    assert_eq!(failure("2147483647 + 1"), ParseErrorType::OperationOverflow);
    assert_eq!(failure("-2147483647 - 2"), ParseErrorType::OperationUnderflow);
    assert_eq!(failure("65536 * 65536"), ParseErrorType::OperationOverflow);
    assert_eq!(failure("(-2147483647 - 1) / -1"), ParseErrorType::OperationOverflow);
    assert_eq!(failure("(-2147483647 - 1) % -1"), ParseErrorType::OperationOverflow);
    assert_eq!(failure("-(-2147483647 - 1)"), ParseErrorType::OperationOverflow);
    assert_eq!(failure("1 << 32"), ParseErrorType::OperationOverflow);
    assert_eq!(failure("1 << -1"), ParseErrorType::OperationOverflow);
    assert_eq!(failure("1 >> 32"), ParseErrorType::OperationUnderflow);
    assert_eq!(failure("let a = 1; a <<= 40"), ParseErrorType::OperationOverflow);
    assert_eq!(failure("let a = 1; a >>= 40"), ParseErrorType::OperationUnderflow);
    assert_eq!(failure("let a = 2147483647; a += 1"), ParseErrorType::OperationOverflow);
    assert_eq!(number("-2147483647 - 1"), i32::MIN);
}

#[test]
fn void_operands_fail() {
    assert_eq!(failure("let a; a + 1"), ParseErrorType::VoidOperation);
    assert_eq!(failure("let a; 1 * a"), ParseErrorType::VoidOperation);
    assert_eq!(failure("let a; -a"), ParseErrorType::VoidOperation);
    assert_eq!(failure("let a; &a"), ParseErrorType::VoidOperation);
    assert_eq!(failure("let a; a && 1"), ParseErrorType::VoidOperation);
    assert_eq!(failure("let a; a < 1"), ParseErrorType::VoidOperation);
    assert_eq!(failure("let a; 1 >= a"), ParseErrorType::VoidOperation);
    assert_eq!(failure("{} <= \"a\""), ParseErrorType::VoidOperation);
    assert_eq!(number("let a; let b; a == b"), 1);
    assert_eq!(number("let a; a != 1"), 1);
    assert_eq!(failure("{} + 1"), ParseErrorType::VoidOperation);
    assert_eq!(failure("1 + {} + 1"), ParseErrorType::VoidOperation);
}

#[test]
fn mixed_operands_fail() {
    assert_eq!(failure("1 + \"a\""), invalid("Invalid operation."));
    assert_eq!(failure("\"a\" - \"b\""), invalid("Invalid operation."));
    assert_eq!(failure("\"a\" && 1"), invalid("Invalid operation."));
    assert_eq!(
        failure("1 < \"a\""),
        invalid("Cannot compare Integer(1) and String(\"a\").")
    );
    assert_eq!(
        failure("let a = 1; &a > -3"),
        invalid("Cannot compare Pointer(Integer(1)) and Integer(-3).")
    );
    assert_eq!(failure("*5"), invalid("Monomial \"*\" is not for Integer(5)."));
    assert_eq!(failure("~\"a\""), invalid("Monomial \"~\" is not for String(\"a\")."));
}

#[test]
fn tokens_that_are_no_operators_fail_between_operands() {
    assert_eq!(failure("1 2 + 3"), invalid("Invalid operator \"2\"."));
    assert_eq!(number("1 + 2 3"), 3);
}

#[test]
fn operator_in_place_of_an_operand_fails() {
    assert_eq!(failure("1 + / 2"), invalid("Illegal operator \"/\"."));
    assert_eq!(failure("== 2"), invalid("Illegal operator \"==\"."));
}

#[test]
fn address_of_address() {
    assert_eq!(
        eval("let a = 1; &&a"),
        Ok(VarType::Pointer(Rc::new(VarType::Pointer(Rc::new(VarType::Integer(1))))))
    );
    assert_eq!(number("let a = 1; **&&a"), 1);
    assert_eq!(number("let a = 1; -*&a"), -1);
}
