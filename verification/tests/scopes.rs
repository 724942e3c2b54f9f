use expr_parser::variables::Scopes;
use expr_parser::{ParseError, ParseErrorType, VarType};

fn name(text: &str) -> Vec<char> {
    text.chars().collect()
}

#[test]
fn declared_names_read_as_uninitialized() {
    let mut scopes = Scopes::new();
    assert_eq!(scopes.depth(), 0);
    assert!(!scopes.has(&name("a")));
    assert_eq!(
        scopes.read(&name("a")),
        Err(ParseError::new(ParseErrorType::VariableNotFound("a".to_string())))
    );
    scopes.declare(&name("a"));
    assert!(scopes.has(&name("a")));
    assert_eq!(scopes.read(&name("a")), Ok(VarType::Uninitialized));
}

#[test]
fn redeclaration_in_the_same_scope_changes_nothing() {
    let mut scopes = Scopes::new();
    scopes.declare(&name("a"));
    assert!(scopes.assign(&name("a"), VarType::Integer(1)));
    scopes.declare(&name("a"));
    assert_eq!(scopes.read(&name("a")), Ok(VarType::Integer(1)));
}

#[test]
fn inner_bindings_shadow_and_are_discarded() {
    let mut scopes = Scopes::new();
    scopes.declare(&name("a"));
    scopes.declare(&name("b"));
    scopes.assign(&name("a"), VarType::Integer(1));
    scopes.assign(&name("b"), VarType::Integer(10));
    scopes.enter_scope();
    assert_eq!(scopes.depth(), 1);
    assert_eq!(scopes.read(&name("a")), Ok(VarType::Integer(1)));
    scopes.declare(&name("a"));
    assert_eq!(scopes.read(&name("a")), Ok(VarType::Uninitialized));
    scopes.assign(&name("a"), VarType::Integer(2));
    scopes.assign(&name("b"), VarType::Integer(20));
    scopes.enter_scope();
    scopes.declare(&name("c"));
    assert_eq!(scopes.depth(), 2);
    assert_eq!(scopes.read(&name("a")), Ok(VarType::Integer(2)));
    scopes.exit_scope();
    assert!(!scopes.has(&name("c")));
    scopes.exit_scope();
    assert_eq!(scopes.depth(), 0);
    assert_eq!(scopes.read(&name("a")), Ok(VarType::Integer(1)));
    assert_eq!(scopes.read(&name("b")), Ok(VarType::Integer(20)));
    scopes.exit_scope();
    assert_eq!(scopes.depth(), 0);
    assert_eq!(scopes.read(&name("a")), Ok(VarType::Integer(1)));
}

#[test]
fn stores_go_through_the_handle() {
    let mut scopes = Scopes::new();
    scopes.declare(&name("a"));
    match scopes.read_mut(&name("a")) {
        Ok(slot) => *slot = VarType::String("s".to_string()),
        Err(e) => panic!("unexpected {:?}", e),
    }
    assert_eq!(scopes.get(&name("a")), Some(&VarType::String("s".to_string())));
    assert!(scopes.read_mut(&name("z")).is_err());
    assert!(scopes.get_mut(&name("z")).is_none());
    assert!(!scopes.assign(&name("z"), VarType::Void));
}

#[test]
fn unwinding_and_clearing() {
    let mut scopes = Scopes::new();
    scopes.declare(&name("a"));
    scopes.enter_scope();
    scopes.enter_scope();
    scopes.declare(&name("b"));
    scopes.unwind();
    assert_eq!(scopes.depth(), 0);
    assert!(scopes.has(&name("a")));
    assert!(!scopes.has(&name("b")));
    scopes.clear();
    assert!(!scopes.has(&name("a")));
    assert_eq!(scopes.depth(), 0);
}
