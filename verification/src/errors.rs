//! The closed set of failures that evaluation can end in.

use crate::text::{append_text, chars_of, string_from_chars};
use vstd::prelude::*;

verus! {

/// The mathematical content of a failure.
pub ghost enum Failure {
    /// The brackets of the given kind do not balance.
    Bracket(Seq<char>),
    /// Division or remainder by zero.
    DivideByZero,
    /// A dereference of something that is no pointer.
    InvalidDereference,
    /// The expression is malformed; the text says how.
    InvalidExpression(Seq<char>),
    /// An integer literal does not fit in 32 bits.
    InvalidInteger,
    /// There was nothing to evaluate.
    NoInput,
    /// An arithmetic result above the largest integer.
    OperationOverflow,
    /// An arithmetic result below the smallest integer.
    OperationUnderflow,
    /// An internal invariant was broken.
    Unhandled,
    /// A variable was used before it was assigned.
    Uninitialized,
    /// No variable of the given name is visible.
    VariableNotFound(Seq<char>),
    /// An operand was `Void` or `Uninitialized`.
    VoidOperation,
}

/// The kinds of failure.
#[derive(Debug, PartialEq)]
pub enum ParseErrorType {
    /// The brackets of the given kind do not balance.
    Bracket(String),
    /// Division or remainder by zero.
    DivideByZero,
    /// A dereference of something that is no pointer.
    InvalidDereference,
    /// The expression is malformed; the message says how.
    InvalidExpression(String),
    /// An integer literal does not fit in 32 bits.
    InvalidInteger,
    /// There was nothing to evaluate.
    NoInput,
    /// An arithmetic result above the largest integer.
    OperationOverflow,
    /// An arithmetic result below the smallest integer.
    OperationUnderflow,
    /// An internal invariant was broken.
    Unhandled,
    /// A variable was used before it was assigned.
    Uninitialized,
    /// No variable of the given name is visible.
    VariableNotFound(String),
    /// An operand was `Void` or `Uninitialized`.
    VoidOperation,
}

impl View for ParseErrorType {
    type V = Failure;

    open spec fn view(&self) -> Failure {
        match self {
            ParseErrorType::Bracket(s) => Failure::Bracket(s@),
            ParseErrorType::DivideByZero => Failure::DivideByZero,
            ParseErrorType::InvalidDereference => Failure::InvalidDereference,
            ParseErrorType::InvalidExpression(s) => Failure::InvalidExpression(s@),
            ParseErrorType::InvalidInteger => Failure::InvalidInteger,
            ParseErrorType::NoInput => Failure::NoInput,
            ParseErrorType::OperationOverflow => Failure::OperationOverflow,
            ParseErrorType::OperationUnderflow => Failure::OperationUnderflow,
            ParseErrorType::Unhandled => Failure::Unhandled,
            ParseErrorType::Uninitialized => Failure::Uninitialized,
            ParseErrorType::VariableNotFound(s) => Failure::VariableNotFound(s@),
            ParseErrorType::VoidOperation => Failure::VoidOperation,
        }
    }
}

impl Clone for ParseErrorType {
    fn clone(&self) -> (r: Self)
        ensures
            r@ == self@,
    {
        match self {
            ParseErrorType::Bracket(s) => ParseErrorType::Bracket(s.clone()),
            ParseErrorType::DivideByZero => ParseErrorType::DivideByZero,
            ParseErrorType::InvalidDereference => ParseErrorType::InvalidDereference,
            ParseErrorType::InvalidExpression(s) => ParseErrorType::InvalidExpression(s.clone()),
            ParseErrorType::InvalidInteger => ParseErrorType::InvalidInteger,
            ParseErrorType::NoInput => ParseErrorType::NoInput,
            ParseErrorType::OperationOverflow => ParseErrorType::OperationOverflow,
            ParseErrorType::OperationUnderflow => ParseErrorType::OperationUnderflow,
            ParseErrorType::Unhandled => ParseErrorType::Unhandled,
            ParseErrorType::Uninitialized => ParseErrorType::Uninitialized,
            ParseErrorType::VariableNotFound(s) => ParseErrorType::VariableNotFound(s.clone()),
            ParseErrorType::VoidOperation => ParseErrorType::VoidOperation,
        }
    }
}

/// The sentence that reports a failure.
pub open spec fn failure_text(f: Failure) -> Seq<char> {
    match f {
        Failure::Bracket(kind) => "There are no corresponding brackets to \""@ + kind + "\""@,
        Failure::DivideByZero => "Divide by zero error"@,
        Failure::InvalidDereference => "Invalid dereference."@,
        Failure::InvalidExpression(message) => "Invalid expression: "@ + message,
        Failure::InvalidInteger => "Invalid integer."@,
        Failure::NoInput => "No inputs."@,
        Failure::OperationOverflow => "Overflow occured"@,
        Failure::OperationUnderflow => "Underflow occured"@,
        Failure::Unhandled => "Unhandled error."@,
        Failure::Uninitialized => "Variable was uninitialized"@,
        Failure::VariableNotFound(name) => "Variable \""@ + name + "\" was not found."@,
        Failure::VoidOperation => "Cannot operate with void."@,
    }
}

impl ParseErrorType {
    /// The sentence that reports the failure.
    pub fn message(&self) -> (r: String)
        ensures
            r@ == failure_text(self@),
    {
        let text = match self {
            ParseErrorType::Bracket(kind) => {
                let mut t = chars_of("There are no corresponding brackets to \"");
                append_text(&mut t, &chars_of(kind.as_str()));
                append_text(&mut t, &chars_of("\""));
                t
            },
            ParseErrorType::DivideByZero => chars_of("Divide by zero error"),
            ParseErrorType::InvalidDereference => chars_of("Invalid dereference."),
            ParseErrorType::InvalidExpression(message) => {
                let mut t = chars_of("Invalid expression: ");
                append_text(&mut t, &chars_of(message.as_str()));
                t
            },
            ParseErrorType::InvalidInteger => chars_of("Invalid integer."),
            ParseErrorType::NoInput => chars_of("No inputs."),
            ParseErrorType::OperationOverflow => chars_of("Overflow occured"),
            ParseErrorType::OperationUnderflow => chars_of("Underflow occured"),
            ParseErrorType::Unhandled => chars_of("Unhandled error."),
            ParseErrorType::Uninitialized => chars_of("Variable was uninitialized"),
            ParseErrorType::VariableNotFound(name) => {
                let mut t = chars_of("Variable \"");
                append_text(&mut t, &chars_of(name.as_str()));
                append_text(&mut t, &chars_of("\" was not found."));
                t
            },
            ParseErrorType::VoidOperation => chars_of("Cannot operate with void."),
        };
        string_from_chars(&text)
    }
}

/// A failure of evaluation.
#[derive(Debug, PartialEq)]
pub struct ParseError {
    error_type: ParseErrorType,
}

impl View for ParseError {
    type V = Failure;

    closed spec fn view(&self) -> Failure {
        self.error_type@
    }
}

impl Clone for ParseError {
    fn clone(&self) -> (r: Self)
        ensures
            r@ == self@,
    {
        ParseError { error_type: self.error_type.clone() }
    }
}

impl ParseError {
    /// A failure of the given kind.
    pub fn new(data: ParseErrorType) -> (r: Self)
        ensures
            r@ == data@,
    {
        ParseError { error_type: data }
    }

    /// The kind of the failure.
    pub fn kind(&self) -> (r: &ParseErrorType)
        ensures
            r@ == self@,
    {
        &self.error_type
    }

    /// The sentence that reports the failure.
    pub fn message(&self) -> (r: String)
        ensures
            r@ == failure_text(self@),
    {
        self.error_type.message()
    }
}

/// The failure of reading a variable that is not visible.
#[derive(Debug, PartialEq)]
pub struct VariableNotFoundError {
    name: String,
}

impl View for VariableNotFoundError {
    type V = Failure;

    closed spec fn view(&self) -> Failure {
        Failure::VariableNotFound(self.name@)
    }
}

impl VariableNotFoundError {
    /// The failure for the variable of the given name.
    pub fn new(name: String) -> (r: VariableNotFoundError)
        ensures
            r@ == Failure::VariableNotFound(name@),
    {
        VariableNotFoundError { name }
    }

    /// The sentence that reports the failure.
    pub fn message(&self) -> (r: String)
        ensures
            r@ == failure_text(self@),
    {
        ParseErrorType::VariableNotFound(self.name.clone()).message()
    }

    /// The failure as one of the taxonomy.
    pub fn into_parse_error(self) -> (r: ParseError)
        ensures
            r@ == self@,
    {
        ParseError::new(ParseErrorType::VariableNotFound(self.name))
    }
}

/// The failure of brackets that do not balance.
#[derive(Debug, PartialEq)]
pub struct BracketError {
    bracket_type: String,
}

impl View for BracketError {
    type V = Failure;

    closed spec fn view(&self) -> Failure {
        Failure::Bracket(self.bracket_type@)
    }
}

impl BracketError {
    /// The failure for the bracket that lacks its counterpart.
    pub fn new(bracket_type: &str) -> (r: BracketError)
        ensures
            r@ == Failure::Bracket(bracket_type@),
    {
        BracketError { bracket_type: string_from_chars(&chars_of(bracket_type)) }
    }

    /// The sentence that reports the failure.
    pub fn message(&self) -> (r: String)
        ensures
            r@ == failure_text(self@),
    {
        ParseErrorType::Bracket(self.bracket_type.clone()).message()
    }

    /// The failure as one of the taxonomy.
    pub fn into_parse_error(self) -> (r: ParseError)
        ensures
            r@ == self@,
    {
        ParseError::new(ParseErrorType::Bracket(self.bracket_type))
    }
}

/// The failure of a malformed expression.
#[derive(Debug, PartialEq)]
pub struct InvalidExpressionError {
    message: String,
}

impl View for InvalidExpressionError {
    type V = Failure;

    closed spec fn view(&self) -> Failure {
        Failure::InvalidExpression(self.message@)
    }
}

impl InvalidExpressionError {
    /// The failure with the text that says what is malformed.
    pub fn new(str: &str) -> (r: InvalidExpressionError)
        ensures
            r@ == Failure::InvalidExpression(str@),
    {
        InvalidExpressionError { message: string_from_chars(&chars_of(str)) }
    }

    /// The sentence that reports the failure.
    pub fn message(&self) -> (r: String)
        ensures
            r@ == failure_text(self@),
    {
        ParseErrorType::InvalidExpression(self.message.clone()).message()
    }

    /// The failure as one of the taxonomy.
    pub fn into_parse_error(self) -> (r: ParseError)
        ensures
            r@ == self@,
    {
        ParseError::new(ParseErrorType::InvalidExpression(self.message))
    }
}

/// The failure of evaluating nothing.
#[derive(Debug, PartialEq)]
pub struct NoInputError;

impl NoInputError {
    /// The sentence that reports the failure.
    pub fn message(&self) -> (r: String)
        ensures
            r@ == failure_text(Failure::NoInput),
    {
        ParseErrorType::NoInput.message()
    }

    /// The failure as one of the taxonomy.
    pub fn into_parse_error(self) -> (r: ParseError)
        ensures
            r@ == Failure::NoInput,
    {
        ParseError::new(ParseErrorType::NoInput)
    }
}

/// The failure of operating on `Void` or `Uninitialized`.
#[derive(Debug, PartialEq)]
pub struct OperationError;

impl OperationError {
    /// The sentence that reports the failure.
    pub fn message(&self) -> (r: String)
        ensures
            r@ == failure_text(Failure::VoidOperation),
    {
        ParseErrorType::VoidOperation.message()
    }

    /// The failure as one of the taxonomy.
    pub fn into_parse_error(self) -> (r: ParseError)
        ensures
            r@ == Failure::VoidOperation,
    {
        ParseError::new(ParseErrorType::VoidOperation)
    }
}

/// The two ways in which a reference can fail.
#[derive(Clone, Copy, Debug, PartialEq, Eq, Structural)]
pub enum ReferenceErrorType {
    /// A dereference of something that is no pointer.
    InvalidDereference,
    /// A variable was used before it was assigned.
    Uninitialized,
}

/// The failure that a way of failing of a reference stands for.
pub open spec fn reference_failure(kind: ReferenceErrorType) -> Failure {
    match kind {
        ReferenceErrorType::InvalidDereference => Failure::InvalidDereference,
        ReferenceErrorType::Uninitialized => Failure::Uninitialized,
    }
}

/// The failure of a reference.
#[derive(Debug, PartialEq)]
pub struct ReferenceError {
    error_type: ReferenceErrorType,
}

impl View for ReferenceError {
    type V = Failure;

    closed spec fn view(&self) -> Failure {
        reference_failure(self.error_type)
    }
}

impl ReferenceError {
    /// The failure of dereferencing something that is no pointer.
    pub fn invalid_dereference() -> (r: ReferenceError)
        ensures
            r@ == Failure::InvalidDereference,
    {
        ReferenceError { error_type: ReferenceErrorType::InvalidDereference }
    }

    /// The failure of using a variable before it was assigned.
    pub fn uninitialized() -> (r: ReferenceError)
        ensures
            r@ == Failure::Uninitialized,
    {
        ReferenceError { error_type: ReferenceErrorType::Uninitialized }
    }

    /// The way in which the reference failed.
    pub fn kind(&self) -> (r: ReferenceErrorType)
        ensures
            reference_failure(r) == self@,
    {
        self.error_type
    }

    /// The sentence that reports the failure.
    pub fn message(&self) -> (r: String)
        ensures
            r@ == failure_text(self@),
    {
        match self.error_type {
            ReferenceErrorType::InvalidDereference => ParseErrorType::InvalidDereference.message(),
            ReferenceErrorType::Uninitialized => ParseErrorType::Uninitialized.message(),
        }
    }

    /// The failure as one of the taxonomy.
    pub fn into_parse_error(self) -> (r: ParseError)
        ensures
            r@ == self@,
    {
        match self.error_type {
            ReferenceErrorType::InvalidDereference => ParseError::new(
                ParseErrorType::InvalidDereference,
            ),
            ReferenceErrorType::Uninitialized => ParseError::new(ParseErrorType::Uninitialized),
        }
    }
}

} // verus!
