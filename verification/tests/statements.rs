use expr_parser::errors::{
    BracketError, InvalidExpressionError, NoInputError, OperationError, ReferenceError,
    ReferenceErrorType, VariableNotFoundError,
};
use expr_parser::{ElementType, ExprParser, ParseError, ParseErrorType, VarType};
use std::collections::VecDeque;
use std::rc::Rc;

fn eval(source: &str) -> Result<VarType, ParseError> {
    let mut parser = ExprParser::new();
    parser.parse(&source.to_string())
}

fn failure(source: &str) -> ParseErrorType {
    match eval(source) {
        Ok(v) => panic!("expected a failure, got {:?}", v),
        Err(e) => e.kind().clone(),
    }
}

fn invalid(message: &str) -> ParseErrorType {
    ParseErrorType::InvalidExpression(message.to_string())
}

#[test]
fn empty_input_is_void() {
    assert_eq!(eval(""), Ok(VarType::Void));
    assert_eq!(eval(";"), Ok(VarType::Void));
    assert_eq!(eval(";;"), Ok(VarType::Void));
    assert_eq!(eval("// nothing"), Ok(VarType::Void));
}

#[test]
fn last_statement_gives_the_value() {
    assert_eq!(eval("1; 2"), Ok(VarType::Integer(2)));
    assert_eq!(eval("1;"), Ok(VarType::Void));
    assert_eq!(eval("1;;2"), Ok(VarType::Integer(2)));
    assert_eq!(eval("1 ) 2"), Err(ParseError::new(ParseErrorType::Bracket(")".to_string()))));
}

#[test]
fn blocks_yield_their_last_value() {
    assert_eq!(eval("{ 1; 2 }"), Ok(VarType::Integer(2)));
    assert_eq!(eval("{ 1; }"), Ok(VarType::Void));
    assert_eq!(eval("{}"), Ok(VarType::Void));
    assert_eq!(eval("{ 2 } * 3"), Ok(VarType::Integer(6)));
    assert_eq!(eval("1 + { let a = 2; a * 2 }"), Ok(VarType::Integer(5)));
}

#[test]
fn empty_brackets_are_no_input() {
    assert_eq!(failure("()"), ParseErrorType::NoInput);
    assert_eq!(failure("1 + ()"), ParseErrorType::NoInput);
}

#[test]
fn let_wants_a_name() {
    assert_eq!(failure("let"), invalid("Next of \"let\" keyword must be variable name."));
    assert_eq!(failure("let 5"), invalid("Next of \"let\" keyword must be variable name."));
    assert_eq!(failure("let 0x10"), invalid("Next of \"let\" keyword must be variable name."));
    assert_eq!(eval("let a"), Ok(VarType::Uninitialized));
    assert_eq!(eval("let a;"), Ok(VarType::Void));
}

#[test]
fn redeclaration_keeps_the_value() {
    assert_eq!(eval("let a = 1; let a; a"), Ok(VarType::Integer(1)));
}

#[test]
fn inner_scope_shadows_and_ends() {
    assert_eq!(eval("let a = 1; { let a = 2; }; a"), Ok(VarType::Integer(1)));
    assert_eq!(eval("let a = 1; { let a = 2; a }"), Ok(VarType::Integer(2)));
    assert_eq!(eval("let a = 1; { a = 2; }; a"), Ok(VarType::Integer(2)));
    assert_eq!(eval("let a = 1; { let a; a }"), Ok(VarType::Uninitialized));
    assert_eq!(eval("let a; { a = 5; }; a"), Ok(VarType::Integer(5)));
    assert_eq!(
        failure("{ { let x = 1; }; x }"),
        ParseErrorType::VariableNotFound("x".to_string())
    );
}

#[test]
fn unknown_names_are_not_found() {
    assert_eq!(failure("x"), ParseErrorType::VariableNotFound("x".to_string()));
    assert_eq!(failure("x = 1"), ParseErrorType::VariableNotFound("x".to_string()));
    assert_eq!(failure("1 + y"), ParseErrorType::VariableNotFound("y".to_string()));
}

#[test]
fn literals_are_checked() {
    assert_eq!(failure("12z"), invalid("Invalid integer."));
    assert_eq!(failure("0_1"), invalid("Invalid integer."));
    assert_eq!(failure("0a"), invalid("Invalid integer."));
    assert_eq!(failure("12a"), invalid("Invalid integer. `12a` is not 10-based number."));
    assert_eq!(failure("0b12"), invalid("Invalid integer. `0b12` is not 2-based number."));
    assert_eq!(failure("2147483648"), ParseErrorType::InvalidInteger);
    assert_eq!(failure("99999999999999999999999999"), ParseErrorType::InvalidInteger);
    assert_eq!(failure("0x80000000"), ParseErrorType::InvalidInteger);
    assert_eq!(eval("0x7fff_ffff"), Ok(VarType::Integer(i32::MAX)));
    assert_eq!(eval("0xFF"), Ok(VarType::Integer(255)));
    assert_eq!(eval("0x"), Ok(VarType::Integer(0)));
    assert_eq!(eval("00"), Ok(VarType::Integer(0)));
    assert_eq!(eval("1__2"), Ok(VarType::Integer(12)));
}

#[test]
fn unbalanced_brackets_touch_no_variable() {
    let mut parser = ExprParser::new();
    assert_eq!(
        parser.parse(&"let a; (a = 5".to_string()),
        Err(ParseError::new(ParseErrorType::Bracket("(".to_string())))
    );
    assert!(!parser.has_variable("a"));
}

#[test]
fn variables_outlive_a_failure_and_a_call() {
    let mut parser = ExprParser::new();
    assert_eq!(
        parser.parse(&"let a = 5; { let b = 1; 1 / 0 }".to_string()),
        Err(ParseError::new(ParseErrorType::DivideByZero))
    );
    assert!(parser.has_variable("a"));
    assert!(!parser.has_variable("b"));
    assert_eq!(parser.get_variable("a"), Some(&VarType::Integer(5)));
    parser.clear();
    assert_eq!(parser.parse(&"a + 1".to_string()), Ok(VarType::Integer(6)));
    assert_eq!(parser.parse(&"; let c = a; c".to_string()), Ok(VarType::Integer(5)));
}

#[test]
fn every_call_evaluates_the_whole_buffer() {
    let mut parser = ExprParser::new();
    assert_eq!(parser.parse(&"let a = 1;".to_string()), Ok(VarType::Void));
    assert_eq!(parser.parse(&"a += 1; a".to_string()), Ok(VarType::Integer(2)));
    assert_eq!(parser.parse(&"".to_string()), Ok(VarType::Integer(2)));
    parser.clear();
    assert_eq!(parser.parse(&"a += 1; a".to_string()), Ok(VarType::Integer(3)));
}

#[test]
fn variables_are_created_read_and_written() {
    let mut parser = ExprParser::new();
    assert!(!parser.has_variable("n"));
    assert_eq!(parser.get_variable("n"), None);
    assert!(parser.get_variable_mut("n").is_none());
    parser.create_variable("n".to_string());
    assert!(parser.has_variable("n"));
    assert_eq!(parser.get_variable("n"), Some(&VarType::Uninitialized));
    match parser.get_variable_mut("n") {
        Some(slot) => *slot = VarType::Integer(9),
        None => panic!("the variable was declared"),
    }
    assert_eq!(parser.get_variable("n"), Some(&VarType::Integer(9)));
    parser.create_variable("n".to_string());
    assert_eq!(parser.get_variable("n"), Some(&VarType::Integer(9)));
    assert_eq!(parser.parse(&"n * 2".to_string()), Ok(VarType::Integer(18)));
    parser.clear_all();
    assert!(!parser.has_variable("n"));
}

#[test]
fn productions_move_the_pointer() {
    let mut parser = ExprParser::from_string("1 + 2 ; 3 } 4");
    let mut pointer = 0;
    assert_eq!(parser.parse_expression(&mut pointer), Ok(VarType::Integer(3)));
    assert_eq!(pointer, 3);
    let mut pointer = 0;
    assert_eq!(parser.parse_sentence(&mut pointer), Ok(VarType::Integer(3)));
    assert_eq!(pointer, 5);
    let mut pointer = 7;
    assert_eq!(parser.parse_sentence(&mut pointer), Ok(VarType::Void));
    assert_eq!(pointer, 7);
}

fn queue(items: Vec<ElementType>) -> VecDeque<ElementType> {
    let mut q = VecDeque::new();
    for item in items {
        q.push_back(item);
    }
    q
}

fn imm(i: i32) -> ElementType {
    ElementType::Immediate(VarType::Integer(i))
}

#[test]
fn reduction_folds_from_the_front() {
    let mut parser = ExprParser::new();
    assert_eq!(
        parser.try_calculate_all(("-".to_string(), queue(vec![imm(10), imm(2), imm(3)]))),
        Ok(VarType::Integer(5))
    );
    assert_eq!(
        parser.try_calculate_all(("+".to_string(), queue(vec![imm(7)]))),
        Ok(VarType::Integer(7))
    );
    assert_eq!(
        parser.try_calculate_all(("&&".to_string(), queue(vec![imm(0), imm(2), imm(3)]))),
        Ok(VarType::Integer(0))
    );
}

#[test]
fn reduction_of_assignments_folds_from_the_back() {
    let mut parser = ExprParser::new();
    parser.create_variable("a".to_string());
    let a = ElementType::Variable("a".to_string());
    assert_eq!(
        parser.try_calculate_all(("=".to_string(), queue(vec![a, imm(4)]))),
        Ok(VarType::Void)
    );
    assert_eq!(parser.get_variable("a"), Some(&VarType::Integer(4)));
}

#[test]
fn reduction_of_nothing_is_unhandled() {
    let mut parser = ExprParser::new();
    assert_eq!(
        parser.try_calculate_all(("+".to_string(), queue(vec![]))),
        Err(ParseError::new(ParseErrorType::Unhandled))
    );
}

#[test]
fn operands_evaluate() {
    let mut parser = ExprParser::new();
    let negated = ElementType::Monomial("-".to_string(), Rc::new(imm(4)));
    assert_eq!(
        parser.calculate_binomial("*", negated, imm(3)),
        Ok(VarType::Integer(-12))
    );
    assert_eq!(
        parser.calculate_binomial("=>", imm(1), imm(2)),
        Err(ParseError::new(ParseErrorType::InvalidExpression(
            "Invalid operator \"=>\".".to_string()
        )))
    );
}

#[test]
fn failures_have_messages() {
    assert_eq!(
        ParseErrorType::Bracket("(".to_string()).message(),
        "There are no corresponding brackets to \"(\""
    );
    assert_eq!(ParseErrorType::DivideByZero.message(), "Divide by zero error");
    assert_eq!(ParseErrorType::InvalidDereference.message(), "Invalid dereference.");
    assert_eq!(
        ParseErrorType::InvalidExpression("x".to_string()).message(),
        "Invalid expression: x"
    );
    assert_eq!(ParseErrorType::InvalidInteger.message(), "Invalid integer.");
    assert_eq!(ParseErrorType::NoInput.message(), "No inputs.");
    assert_eq!(ParseErrorType::OperationOverflow.message(), "Overflow occured");
    assert_eq!(ParseErrorType::OperationUnderflow.message(), "Underflow occured");
    assert_eq!(ParseErrorType::Unhandled.message(), "Unhandled error.");
    assert_eq!(ParseErrorType::Uninitialized.message(), "Variable was uninitialized");
    assert_eq!(
        ParseErrorType::VariableNotFound("v".to_string()).message(),
        "Variable \"v\" was not found."
    );
    assert_eq!(ParseErrorType::VoidOperation.message(), "Cannot operate with void.");
    assert_eq!(
        ParseError::new(ParseErrorType::NoInput).message(),
        "No inputs."
    );
}

#[test]
fn typed_failures_join_the_taxonomy() {
    assert_eq!(
        VariableNotFoundError::new("v".to_string()).into_parse_error(),
        ParseError::new(ParseErrorType::VariableNotFound("v".to_string()))
    );
    assert_eq!(
        VariableNotFoundError::new("v".to_string()).message(),
        "Variable \"v\" was not found."
    );
    assert_eq!(
        BracketError::new("{").into_parse_error(),
        ParseError::new(ParseErrorType::Bracket("{".to_string()))
    );
    assert_eq!(
        BracketError::new("{").message(),
        "There are no corresponding brackets to \"{\""
    );
    assert_eq!(
        InvalidExpressionError::new("bad").into_parse_error(),
        ParseError::new(ParseErrorType::InvalidExpression("bad".to_string()))
    );
    assert_eq!(InvalidExpressionError::new("bad").message(), "Invalid expression: bad");
    assert_eq!(NoInputError.into_parse_error(), ParseError::new(ParseErrorType::NoInput));
    assert_eq!(NoInputError.message(), "No inputs.");
    assert_eq!(
        OperationError.into_parse_error(),
        ParseError::new(ParseErrorType::VoidOperation)
    );
    assert_eq!(OperationError.message(), "Cannot operate with void.");
    assert_eq!(
        ReferenceError::invalid_dereference().into_parse_error(),
        ParseError::new(ParseErrorType::InvalidDereference)
    );
    assert_eq!(
        ReferenceError::uninitialized().into_parse_error(),
        ParseError::new(ParseErrorType::Uninitialized)
    );
    assert_eq!(ReferenceError::uninitialized().kind(), ReferenceErrorType::Uninitialized);
    assert_eq!(ReferenceError::invalid_dereference().message(), "Invalid dereference.");
}

#[test]
fn nesting_is_bounded() {
    let mut parser = ExprParser::new();
    assert_eq!(parser.max_depth(), 256);
    parser.set_max_depth(2);
    assert_eq!(parser.parse(&"((1))".to_string()), Ok(VarType::Integer(1)));
    parser.clear();
    assert_eq!(parser.parse(&"({ 2 })".to_string()), Ok(VarType::Integer(2)));
    parser.clear();
    assert_eq!(
        parser.parse(&"1 + (2 * (3 + (4)))".to_string()),
        Err(ParseError::new(ParseErrorType::InvalidExpression(
            "Nesting is too deep.".to_string()
        )))
    );
    parser.clear();
    assert_eq!(
        parser.parse(&"{ { { 1 } } }".to_string()),
        Err(ParseError::new(ParseErrorType::InvalidExpression(
            "Nesting is too deep.".to_string()
        )))
    );
    parser.set_max_depth(0);
    parser.clear();
    assert_eq!(parser.parse(&"1 + 2".to_string()), Ok(VarType::Integer(3)));
    parser.clear_all();
    assert_eq!(parser.max_depth(), 0);
}

#[test]
fn deep_nesting_within_the_bound_evaluates() {
    let mut source = String::new();
    for _ in 0..200 {
        source.push('(');
    }
    source.push('7');
    for _ in 0..200 {
        source.push(')');
    }
    let mut parser = ExprParser::new();
    assert_eq!(parser.parse(&source), Ok(VarType::Integer(7)));
}
