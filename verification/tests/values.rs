use expr_parser::VarType;
use std::cmp::Ordering;
use std::rc::Rc;

#[test]
fn empty_values_are_void_and_uninitialized() {
    assert!(VarType::Void.is_empty());
    assert!(VarType::Uninitialized.is_empty());
    assert!(!VarType::Integer(0).is_empty());
    assert!(!VarType::String(String::new()).is_empty());
    assert!(!VarType::Pointer(Rc::new(VarType::Void)).is_empty());
}

#[test]
fn string_values_drop_their_quotes() {
    assert_eq!(VarType::new_string("\"ab\""), VarType::String("ab".to_string()));
    assert_eq!(VarType::new_string("\"\""), VarType::String(String::new()));
    assert_eq!(VarType::new_string("\""), VarType::String(String::new()));
    assert_eq!(VarType::new_string("\"\"a\"b\"\""), VarType::String("a\"b".to_string()));
    assert_eq!(VarType::new_string("plain"), VarType::String("plain".to_string()));
}

#[test]
fn values_are_written_out() {
    assert_eq!(VarType::Uninitialized.to_text(), "Uninitialized");
    assert_eq!(VarType::Void.to_text(), "Void");
    assert_eq!(VarType::Integer(0).to_text(), "Integer(0)");
    assert_eq!(VarType::Integer(1203).to_text(), "Integer(1203)");
    assert_eq!(VarType::Integer(-45).to_text(), "Integer(-45)");
    assert_eq!(VarType::Integer(i32::MIN).to_text(), "Integer(-2147483648)");
    assert_eq!(VarType::Integer(i32::MAX).to_text(), "Integer(2147483647)");
    assert_eq!(VarType::String("ab".to_string()).to_text(), "String(\"ab\")");
    assert_eq!(
        VarType::Pointer(Rc::new(VarType::Integer(7))).to_text(),
        "Pointer(Integer(7))"
    );
}

#[test]
fn copies_and_comparisons_go_by_content() {
    let p = VarType::Pointer(Rc::new(VarType::String("s".to_string())));
    let q = p.clone();
    assert!(p.same(&q));
    assert_eq!(p, q);
    assert!(!p.same(&VarType::Pointer(Rc::new(VarType::String("t".to_string())))));
    assert!(!VarType::Void.same(&VarType::Uninitialized));
    assert!(VarType::Integer(3).same(&VarType::Integer(3)));
    assert!(!VarType::Integer(3).same(&VarType::String("3".to_string())));
}

#[test]
fn only_integers_are_ordered() {
    assert_eq!(
        VarType::Integer(1).partial_cmp(&VarType::Integer(2)),
        Some(Ordering::Less)
    );
    assert_eq!(
        VarType::Integer(2).partial_cmp(&VarType::Integer(2)),
        Some(Ordering::Equal)
    );
    assert_eq!(
        VarType::Integer(3).partial_cmp(&VarType::Integer(2)),
        Some(Ordering::Greater)
    );
    assert!(VarType::Integer(-1) < VarType::Integer(0));
    assert_eq!(
        VarType::String("a".to_string()).partial_cmp(&VarType::String("b".to_string())),
        None
    );
    assert_eq!(VarType::Integer(1).partial_cmp(&VarType::Void), None);
    assert_eq!(VarType::Void.partial_cmp(&VarType::Void), None);
}
