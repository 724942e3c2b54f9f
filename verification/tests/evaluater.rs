use expr_parser::Evaluater;
use std::collections::VecDeque;

fn command(words: &[&str]) -> VecDeque<String> {
    let mut q = VecDeque::new();
    for w in words {
        q.push_back(w.to_string());
    }
    q
}

#[test]
fn new_evaluater_is_empty() {
    let mut evaluater = Evaluater::new();
    assert_eq!(evaluater.pop_command(), None);
    assert_eq!(evaluater.get_variable("a"), None);
}

#[test]
fn text_is_split_at_gaps_and_signs() {
    let mut evaluater = Evaluater::new();
    evaluater.split_elements("ab = (1+2)*c\t% 3;".to_string());
    assert_eq!(
        evaluater.pop_command(),
        Some(command(&["ab", "=", "(", "1", "+", "2", ")", "*", "c", "%", "3"]))
    );
    assert_eq!(evaluater.pop_command(), None);
}

#[test]
fn each_semicolon_records_the_words_so_far() {
    let mut evaluater = Evaluater::new();
    evaluater.split_elements("a = 1; b-2;\r\n c".to_string());
    assert_eq!(
        evaluater.pop_command(),
        Some(command(&["a", "=", "1", "b", "-", "2"]))
    );
    assert_eq!(evaluater.pop_command(), Some(command(&["a", "=", "1"])));
    assert_eq!(evaluater.pop_command(), None);
}

#[test]
fn text_without_semicolon_gives_no_command() {
    let mut evaluater = Evaluater::new();
    evaluater.split_elements("a = 1".to_string());
    assert_eq!(evaluater.pop_command(), None);
    evaluater.split_elements(";".to_string());
    assert_eq!(evaluater.pop_command(), None);
    evaluater.split_elements(" ; x;".to_string());
    assert_eq!(evaluater.pop_command(), Some(command(&["x"])));
}

#[test]
fn variables_start_at_zero_and_are_made_once() {
    let mut evaluater = Evaluater::new();
    assert!(evaluater.create_variable("n"));
    assert_eq!(evaluater.get_variable("n"), Some(&0));
    match evaluater.get_variable_mut("n") {
        Some(slot) => *slot = 42,
        None => panic!("the variable was made"),
    }
    assert_eq!(evaluater.get_variable("n"), Some(&42));
    assert!(!evaluater.create_variable("n"));
    assert_eq!(evaluater.get_variable("n"), Some(&42));
    assert!(evaluater.get_variable_mut("m").is_none());
    assert!(evaluater.create_variable("m"));
    assert_eq!(evaluater.get_variable("m"), Some(&0));
    assert_eq!(evaluater.get_variable("n"), Some(&42));
}
