use expr_parser::splitting::split_text;
use expr_parser::{CharType, ExprParser};

fn words(source: &str) -> Vec<String> {
    split_text(source)
}

#[test]
fn blank_space_separates_words() {
    assert_eq!(words("let a ;\n\ta\r\n"), vec!["let", "a", ";", "a"]);
    assert_eq!(words(""), Vec::<String>::new());
    assert_eq!(words("   "), Vec::<String>::new());
}

#[test]
fn symbols_and_names_split_each_other() {
    assert_eq!(words("a+b"), vec!["a", "+", "b"]);
    assert_eq!(words("(1+2)*3"), vec!["(", "1", "+", "2", ")", "*", "3"]);
    assert_eq!(words("foo_bar1=2"), vec!["foo_bar1", "=", "2"]);
}

#[test]
fn operators_merge_greedily() {
    assert_eq!(words("a>>=1"), vec!["a", ">>=", "1"]);
    assert_eq!(words("a==b"), vec!["a", "==", "b"]);
    assert_eq!(words("a&&b||c"), vec!["a", "&&", "b", "||", "c"]);
    assert_eq!(words("a<=b>=c!=d"), vec!["a", "<=", "b", ">=", "c", "!=", "d"]);
    assert_eq!(words("x=-1"), vec!["x", "=", "-", "1"]);
    assert_eq!(words("(("), vec!["(", "("]);
    assert_eq!(words("a<<=2"), vec!["a", "<<=", "2"]);
}

#[test]
fn string_literals_keep_their_blanks_and_symbols() {
    assert_eq!(words("\"a b\" + \"c;d\""), vec!["\"a b\"", "+", "\"c;d\""]);
    assert_eq!(words("\"ab\"+\"cd\""), vec!["\"ab\"", "+", "\"cd\""]);
    assert_eq!(words("\"a\\\"b\""), vec!["\"a\\\"b\""]);
    assert_eq!(words("\"a // b\""), vec!["\"a // b\""]);
}

#[test]
fn open_string_is_closed_at_the_end() {
    assert_eq!(words("\"abc"), vec!["\"abc"]);
}

#[test]
fn comments_are_transparent() {
    assert_eq!(words("1 // one\n+ 2"), vec!["1", "+", "2"]);
    assert_eq!(words("1 /* one */ + 2"), vec!["1", "+", "2"]);
    assert_eq!(words("ab/* c */cd"), vec!["abcd"]);
    assert_eq!(words("a//b\nc"), vec!["a", "c"]);
    assert_eq!(words("1 /* never closed"), vec!["1"]);
    assert_eq!(words("6/2"), vec!["6", "/", "2"]);
    assert_eq!(words("1 /*/ 2 */ 3"), vec!["1", "3"]);
}

#[test]
fn characters_are_classified() {
    assert_eq!(CharType::get_chartype(' '), CharType::WhiteSpace);
    assert_eq!(CharType::get_chartype('\n'), CharType::WhiteSpace);
    assert_eq!(CharType::get_chartype('\x0C'), CharType::WhiteSpace);
    assert_eq!(CharType::get_chartype('+'), CharType::Punctuation);
    assert_eq!(CharType::get_chartype('"'), CharType::Punctuation);
    assert_eq!(CharType::get_chartype('~'), CharType::Punctuation);
    assert_eq!(CharType::get_chartype('_'), CharType::Normal);
    assert_eq!(CharType::get_chartype('a'), CharType::Normal);
    assert_eq!(CharType::get_chartype('9'), CharType::Normal);
    assert_eq!(CharType::get_chartype('é'), CharType::Normal);
}

#[test]
fn parser_buffers_tokens_across_calls() {
    let mut parser = ExprParser::from_string("1 +");
    assert_eq!(parser.tokens(), vec!["1", "+"]);
    parser.split_elements(&"2".to_string());
    assert_eq!(parser.tokens(), vec!["1", "+", "2"]);
    parser.clear();
    assert_eq!(parser.tokens(), Vec::<String>::new());
}
