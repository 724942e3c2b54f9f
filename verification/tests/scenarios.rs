use expr_parser::{ExprParser, ParseError, ParseErrorType, VarType};
use std::rc::Rc;

fn run(source: &str) -> Result<VarType, ParseError> {
    let mut parser = ExprParser::new();
    parser.parse(&source.to_string())
}

fn kind(source: &str) -> ParseErrorType {
    match run(source) {
        Ok(v) => panic!("expected a failure, got {:?}", v),
        Err(e) => e.kind().clone(),
    }
}

#[test]
fn integer_literals_evaluate_to_themselves() {
    assert_eq!(run("0"), Ok(VarType::Integer(0)));
    assert_eq!(run("7"), Ok(VarType::Integer(7)));
    assert_eq!(run("2147483647"), Ok(VarType::Integer(2147483647)));
    assert_eq!(run("0x1f"), Ok(VarType::Integer(31)));
    assert_eq!(run("0b101"), Ok(VarType::Integer(5)));
    assert_eq!(run("1_000"), Ok(VarType::Integer(1000)));
    assert_eq!(run("012"), Ok(VarType::Integer(12)));
}

#[test]
fn multiplication_binds_tighter_than_addition() {
    assert_eq!(run("1+2*3"), Ok(VarType::Integer(7)));
}

#[test]
fn parentheses_override_precedence() {
    assert_eq!(run("(1+2)*3"), Ok(VarType::Integer(9)));
}

#[test]
fn declared_variable_is_assigned_and_read() {
    assert_eq!(run("let a; a = 5; a + 1"), Ok(VarType::Integer(6)));
}

#[test]
fn unassigned_variable_reads_as_uninitialized() {
    assert_eq!(run("let a; a"), Ok(VarType::Uninitialized));
    assert_eq!(kind("let a; a + 1"), ParseErrorType::VoidOperation);
}

#[test]
fn block_variable_is_gone_after_the_block() {
    assert_eq!(kind("{ let x; x = 5; }; x"), ParseErrorType::VariableNotFound("x".to_string()));
}

#[test]
fn division_by_zero_fails() {
    assert_eq!(kind("5 / 0"), ParseErrorType::DivideByZero);
    assert_eq!(kind("5 % 0"), ParseErrorType::DivideByZero);
}

#[test]
fn addition_above_the_range_overflows() {
    assert_eq!(kind("2147483647 + 1"), ParseErrorType::OperationOverflow);
}

#[test]
fn strings_concatenate() {
    assert_eq!(run("\"ab\" + \"cd\""), Ok(VarType::String("abcd".to_string())));
}

#[test]
fn unbalanced_round_bracket_is_reported() {
    assert_eq!(kind("(1 + 2"), ParseErrorType::Bracket("(".to_string()));
    assert_eq!(kind("1 + 2)"), ParseErrorType::Bracket(")".to_string()));
    assert_eq!(kind("{ 1"), ParseErrorType::Bracket("{".to_string()));
    assert_eq!(kind("1 }"), ParseErrorType::Bracket("}".to_string()));
}

#[test]
fn pointer_is_a_snapshot() {
    assert_eq!(
        run("let a; a = 5; &a"),
        Ok(VarType::Pointer(Rc::new(VarType::Integer(5))))
    );
    assert_eq!(run("let a; a = 5; *&a"), Ok(VarType::Integer(5)));
    assert_eq!(
        run("let a; let p; a = 5; p = &a; a = 6; *p"),
        Ok(VarType::Integer(5))
    );
}

#[test]
fn reset_gives_a_fresh_session() {
    let mut parser = ExprParser::new();
    assert_eq!(parser.parse(&"let a; a = 5; a".to_string()), Ok(VarType::Integer(5)));
    parser.clear_all();
    assert!(!parser.has_variable("a"));
    assert_eq!(parser.parse(&"let a; a".to_string()), Ok(VarType::Uninitialized));
    let mut fresh = ExprParser::new();
    assert_eq!(fresh.parse(&"let a; a".to_string()), Ok(VarType::Uninitialized));
}
