//! Laws that hold of the evaluator on all inputs.

use crate::errors::Failure;
use crate::op::monomial_result;
use crate::semantics::{
    after_operand, at_end, bracket_failure, completed, digit_value, digits_start, digits_value,
    evaluated,
    expression, is_digit, is_numeric, is_terminator, literal_base, literal_value, occurrences,
    operand_at, primary_of, scan, sentence, term_value, wrapped, Operand, Term,
};
use crate::splitting::{
    char_class, flushed, lex_from, lex_start, lex_step, lex_width, tokenize, CharType, CommentType,
    LexState,
};
use crate::text::{decimal, digit_char};
use crate::value::{is_empty_value, Value};
use crate::variables::{binding_depth, declared, entered, exited, lookup, stored, unwound, Env};
use vstd::prelude::*;

verus! {

/// Whether every character of a text is a decimal digit.
pub open spec fn all_digits(s: Seq<char>) -> bool {
    forall|i: int| 0 <= i < s.len() ==> is_digit(#[trigger] s[i])
}

/// The number that a text of decimal digits writes.
pub open spec fn number_of(s: Seq<char>) -> int
    decreases s.len(),
{
    if s.len() == 0 {
        0
    } else {
        number_of(s.drop_last()) * 10 + (s.last() as int - '0' as int)
    }
}

/// A decimal numeral is made of digits, has at least one, and writes its
/// number.
pub proof fn lemma_decimal_digits(n: nat)
    ensures
        all_digits(decimal(n)),
        decimal(n).len() >= 1,
        number_of(decimal(n)) == n,
    decreases n,
{
    if n < 10 {
        let s = decimal(n);
        assert(s.len() == 1);
        assert(s[0] == digit_char(n as int));
        assert(s.drop_last().len() == 0);
        assert(number_of(s.drop_last()) == 0);
        assert(number_of(s) == n);
    } else {
        lemma_decimal_digits(n / 10);
        let head = decimal(n / 10);
        let s = decimal(n);
        assert(s == head.push(digit_char((n % 10) as int)));
        assert(s.drop_last() =~= head);
        assert(s.last() == digit_char((n % 10) as int));
        assert forall|i: int| 0 <= i < s.len() implies is_digit(#[trigger] s[i]) by {
            if i < head.len() {
                assert(s[i] == head[i]);
            }
        }
    }
}

/// Read from position `i` on, after digits that gave the number of the
/// text before `i`, a text of decimal digits gives its number.
proof fn lemma_digits_value(s: Seq<char>, i: int)
    requires
        all_digits(s),
        0 <= i <= s.len(),
    ensures
        digits_value(s, i, 10, number_of(s.take(i))) == Ok::<int, Failure>(number_of(s)),
    decreases s.len() - i,
{
    if i < s.len() {
        assert(is_digit(s[i]));
        assert(s.take(i + 1).drop_last() =~= s.take(i));
        assert(s.take(i + 1).last() == s[i]);
        lemma_digits_value(s, i + 1);
    } else {
        assert(s.take(i) =~= s);
    }
}

/// A text of decimal digits whose number fits in 32 bits is a literal of
/// that number.
pub proof fn lemma_literal_of_digits(s: Seq<char>)
    requires
        all_digits(s),
        s.len() >= 1,
        number_of(s) <= i32::MAX,
    ensures
        is_numeric(s),
        literal_value(s) == Ok::<Value, Failure>(Value::Integer(number_of(s) as i32)),
{
    assert(is_digit(s[0]));
    if s.len() >= 2 {
        assert(is_digit(s[1]));
    }
    assert(literal_base(s) == Some(10int));
    assert(digits_start(s) == 0);
    assert(s.take(0).len() == 0);
    assert(number_of(s.take(0)) == 0);
    lemma_digits_value(s, 0);
}

/// Whether every character of a text is of the class of names and
/// literals.
pub open spec fn all_normal(s: Seq<char>) -> bool {
    forall|i: int| 0 <= i < s.len() ==> char_class(#[trigger] s[i]) == CharType::Normal
}

/// Read from position `i` on with the text before `i` as the word, a text
/// of name characters is one token.
proof fn lemma_lex_word(s: Seq<char>, i: int)
    requires
        all_normal(s),
        s.len() >= 1,
        0 <= i <= s.len(),
    ensures
        lex_from(
            s,
            i,
            LexState {
                tokens: Seq::empty(),
                word: s.take(i),
                in_string: false,
                comment: CommentType::Code,
            },
        ) == seq![s],
    decreases s.len() - i,
{
    let st = LexState {
        tokens: Seq::empty(),
        word: s.take(i),
        in_string: false,
        comment: CommentType::Code,
    };
    if i < s.len() {
        let c = s[i];
        assert(char_class(c) == CharType::Normal);
        if i > 0 {
            assert(s.take(i).last() == s[i - 1]);
            assert(char_class(s[i - 1]) == CharType::Normal);
        }
        assert(s.take(i).push(c) =~= s.take(i + 1));
        assert(lex_width(s, i, st) == 1);
        assert(lex_step(s, i, st) == LexState {
            tokens: Seq::empty(),
            word: s.take(i + 1),
            in_string: false,
            comment: CommentType::Code,
        });
        lemma_lex_word(s, i + 1);
    } else {
        assert(s.take(i) =~= s);
        assert(flushed(Seq::empty(), s) =~= seq![s]);
    }
}

/// A text of name characters is one token.
pub proof fn lemma_tokenize_word(s: Seq<char>)
    requires
        all_normal(s),
        s.len() >= 1,
    ensures
        tokenize(s) == seq![s],
{
    assert(s.take(0) =~= Seq::<char>::empty());
    lemma_lex_word(s, 0);
}

/// A text of decimal digits is one token.
pub proof fn lemma_tokenize_digits(s: Seq<char>)
    requires
        all_digits(s),
        s.len() >= 1,
    ensures
        tokenize(s) == seq![s],
{
    assert forall|i: int| 0 <= i < s.len() implies char_class(#[trigger] s[i])
        == CharType::Normal by {
        assert(is_digit(s[i]));
    }
    lemma_tokenize_word(s);
}

/// Digits that can be read are digits of some base or underscores.
proof fn lemma_read_digits_are_normal(token: Seq<char>, i: int, base: int, acc: int)
    requires
        0 <= i,
        digits_value(token, i, base, acc) is Ok,
    ensures
        forall|k: int| i <= k < token.len() ==> char_class(#[trigger] token[k]) == CharType::Normal,
    decreases token.len() - i,
{
    if i < token.len() {
        if token[i] == '_' {
            lemma_read_digits_are_normal(token, i + 1, base, acc);
        } else {
            let d = digit_value(token[i])->0;
            lemma_read_digits_are_normal(token, i + 1, base, acc * base + d);
        }
    }
}

/// An integer literal that can be read is made of name characters.
pub proof fn lemma_literal_is_word(token: Seq<char>)
    requires
        is_numeric(token),
        literal_value(token) is Ok,
    ensures
        all_normal(token),
        token.len() >= 1,
{
    let base = literal_base(token)->0;
    lemma_read_digits_are_normal(token, digits_start(token), base, 0);
    assert forall|k: int| 0 <= k < token.len() implies char_class(#[trigger] token[k])
        == CharType::Normal by {
        if k < digits_start(token) {
            assert(token[0] == '0');
            assert(token[1] == 'x' || token[1] == 'b');
        }
    }
}

/// A token that begins with a digit is no bracket, no separator and no
/// keyword.
proof fn lemma_numeric_is_plain(token: Seq<char>)
    requires
        is_numeric(token),
    ensures
        token != "("@,
        token != ")"@,
        token != "{"@,
        token != "}"@,
        token != ";"@,
        token != "let"@,
        !is_terminator(token),
{
    reveal_strlit("(");
    reveal_strlit(")");
    reveal_strlit("{");
    reveal_strlit("}");
    reveal_strlit(";");
    reveal_strlit("let");
    assert("("@[0] == '(');
    assert(")"@[0] == ')');
    assert("{"@[0] == '{');
    assert("}"@[0] == '}');
    assert(";"@[0] == ';');
    assert("let"@[0] == 'l');
}

/// Alone among the tokens, an integer literal evaluates to its value and
/// leaves the variables as they are.
pub proof fn lemma_single_literal(token: Seq<char>, env: Env, room: nat)
    requires
        is_numeric(token),
        literal_value(token) is Ok,
    ensures
        evaluated(seq![token], env, room).result == literal_value(token),
        evaluated(seq![token], env, room).env == unwound(env),
{
    let tokens = seq![token];
    let v = literal_value(token)->Ok_0;
    lemma_numeric_is_plain(token);
    assert(tokens.drop_last().len() == 0);
    assert(tokens.last() == token);
    assert(occurrences(tokens.drop_last(), "("@) == 0);
    assert(occurrences(tokens.drop_last(), ")"@) == 0);
    assert(occurrences(tokens.drop_last(), "{"@) == 0);
    assert(occurrences(tokens.drop_last(), "}"@) == 0);
    assert(occurrences(tokens, "("@) == 0);
    assert(occurrences(tokens, ")"@) == 0);
    assert(occurrences(tokens, "{"@) == 0);
    assert(occurrences(tokens, "}"@) == 0);
    assert(bracket_failure(tokens) is None);
    assert(tokens[0] == token);
    assert(!at_end(tokens, 0));
    assert(primary_of(token, env) == Ok::<Term, Failure>(Term::Immediate(v)));
    assert(operand_at(tokens, 0, env, room) == Operand::Found(Term::Immediate(v), 0, env));
    let none = Seq::<Seq<char>>::empty();
    assert(wrapped(Term::Immediate(v), none) == Term::Immediate(v));
    assert(at_end(tokens, 1));
    assert(completed(Seq::empty(), Term::Immediate(v), env).result == Ok::<Value, Failure>(v));
    let rest = after_operand(tokens, 1, env, room, Seq::empty(), Term::Immediate(v));
    assert(rest.consumed == 0 && rest.env == env);
    assert(rest.result == Ok::<Value, Failure>(v));
    let e = expression(tokens, 0, env, room);
    assert(e == scan(tokens, 0, env, room, Seq::empty(), none));
    assert(e.result == Ok::<Value, Failure>(v));
    assert(e.consumed == 1);
    assert(e.env == env);
    assert(sentence(tokens, 0, env, room, Value::Void) == e);
}

/// Every integer literal that can be read, decimal or with a prefix and
/// with or without underscores, is one token and evaluates to the integer
/// that it writes, and leaves the variables as they are.
pub proof fn lemma_literal_evaluates(token: Seq<char>, env: Env, room: nat)
    requires
        is_numeric(token),
        literal_value(token) is Ok,
    ensures
        tokenize(token) == seq![token],
        Seq::<Seq<char>>::empty() + tokenize(token) == seq![token],
        evaluated(tokenize(token), env, room).result == literal_value(token),
        evaluated(tokenize(token), env, room).env == unwound(env),
{
    lemma_literal_is_word(token);
    lemma_tokenize_word(token);
    lemma_single_literal(token, env, room);
    assert(Seq::<Seq<char>>::empty() + seq![token] =~= seq![token]);
}

/// Every integer from 0 up to the largest, written as a decimal numeral,
/// is read as one token and evaluates to itself.
pub proof fn lemma_decimal_literal_evaluates(n: nat, env: Env, room: nat)
    requires
        n <= i32::MAX,
    ensures
        tokenize(decimal(n)) == seq![decimal(n)],
        evaluated(tokenize(decimal(n)), env, room).result == Ok::<Value, Failure>(
            Value::Integer(n as i32),
        ),
        evaluated(tokenize(decimal(n)), env, room).env == unwound(env),
{
    lemma_decimal_digits(n);
    lemma_tokenize_digits(decimal(n));
    lemma_literal_of_digits(decimal(n));
    lemma_single_literal(decimal(n), env, room);
}

/// Taking the address of a value that is neither `Void` nor
/// `Uninitialized` and dereferencing the pointer gives the value back.
pub proof fn lemma_dereference_of_address(v: Value)
    requires
        !is_empty_value(v),
    ensures
        monomial_result("&"@, v) == Ok::<Value, Failure>(Value::Pointer(Box::new(v))),
        monomial_result("*"@, Value::Pointer(Box::new(v))) == Ok::<Value, Failure>(v),
{
    reveal_strlit("&");
    reveal_strlit("&&");
    reveal_strlit("*");
    assert("&"@.len() == 1);
    assert("&&"@.len() == 2);
    assert("*"@[0] == '*');
    assert("&"@[0] == '&');
}

/// A pointer is a snapshot: the address of a variable holds the value that
/// the variable had when the address was taken, and dereferencing it gives
/// that value whatever the variables hold later.
pub proof fn lemma_pointer_is_snapshot(name: Seq<char>, env: Env, later: Env)
    requires
        lookup(env, name) is Some,
        !is_empty_value(lookup(env, name)->0),
    ensures
        term_value(Term::Monomial("&"@, Box::new(Term::Variable(name))), env) == Ok::<
            Value,
            Failure,
        >(Value::Pointer(Box::new(lookup(env, name)->0))),
        term_value(
            Term::Monomial(
                "*"@,
                Box::new(Term::Immediate(Value::Pointer(Box::new(lookup(env, name)->0)))),
            ),
            later,
        ) == Ok::<Value, Failure>(lookup(env, name)->0),
{
    let v = lookup(env, name)->0;
    lemma_dereference_of_address(v);
    assert(term_value(Term::Variable(name), env) == Ok::<Value, Failure>(v));
    assert(term_value(Term::Immediate(Value::Pointer(Box::new(v))), later) == Ok::<
        Value,
        Failure,
    >(Value::Pointer(Box::new(v))));
}

/// Where the brackets do not balance, evaluation fails with the bracket
/// that lacks its counterpart and touches no variable.
pub proof fn lemma_unbalanced_brackets_touch_nothing(
    tokens: Seq<Seq<char>>,
    env: Env,
    room: nat,
)
    requires
        bracket_failure(tokens) is Some,
    ensures
        evaluated(tokens, env, room).result == Err::<Value, Failure>(bracket_failure(tokens)->0),
        evaluated(tokens, env, room).env == env,
{
}

/// Declaring a name in a scope that binds it changes nothing, so to
/// declare twice is to declare once.
pub proof fn lemma_redeclaration_changes_nothing(env: Env, name: Seq<char>)
    ensures
        declared(declared(env, name), name) == declared(env, name),
        env.len() > 0 && env.last().contains_key(name) ==> declared(env, name) == env,
{
    if env.len() > 0 && !env.last().contains_key(name) {
        let once = declared(env, name);
        assert(once.last().contains_key(name));
    }
}

/// A name that was just declared in a scope that did not bind it reads as
/// `Uninitialized`, whatever outer scopes bind it to.
pub proof fn lemma_declared_reads_uninitialized(env: Env, name: Seq<char>)
    requires
        env.len() > 0,
        !env.last().contains_key(name),
    ensures
        lookup(declared(env, name), name) == Some(Value::Uninitialized),
{
    let after = declared(env, name);
    assert(after.last().contains_key(name));
    assert(binding_depth(after, name) == Some(after.len() - 1));
}

/// What is declared inside a block is gone when the block is left: the
/// variables are those from before the block.
pub proof fn lemma_block_declarations_end_with_block(env: Env, name: Seq<char>)
    ensures
        exited(declared(entered(env), name)) == env,
        exited(entered(env)) == env,
{
    assert(exited(entered(env)) =~= env);
    assert(exited(declared(entered(env), name)) =~= env);
}

/// A store into a visible name is read back, and leaves every other name
/// as it was.
pub proof fn lemma_store_then_read(env: Env, name: Seq<char>, other: Seq<char>, v: Value)
    requires
        lookup(env, name) is Some,
    ensures
        lookup(stored(env, name, v), name) == Some(v),
        other != name ==> lookup(stored(env, name, v), other) == lookup(env, other),
{
    lemma_stored_depths(env, name, name, v);
    lemma_stored_depths(env, name, other, v);
    crate::variables::lemma_binding_depth_is_innermost(env, name);
    crate::variables::lemma_binding_depth_is_innermost(env, other);
}

/// A store moves no binding: every name is bound at the depth it was.
proof fn lemma_stored_depths(env: Env, name: Seq<char>, other: Seq<char>, v: Value)
    requires
        lookup(env, name) is Some,
    ensures
        binding_depth(stored(env, name, v), other) == binding_depth(env, other),
    decreases env.len(),
{
    crate::variables::lemma_binding_depth_is_innermost(env, name);
    let d = binding_depth(env, name)->0;
    let after = stored(env, name, v);
    assert(after.len() == env.len());
    if d == env.len() - 1 {
        assert(after.drop_last() =~= env.drop_last());
        assert(after.last().contains_key(other) == env.last().contains_key(other));
    } else {
        let rest = env.drop_last();
        assert(!env.last().contains_key(name));
        assert(binding_depth(rest, name) == Some(d));
        assert(rest[d] == env[d]);
        lemma_stored_depths(rest, name, other, v);
        assert(after.drop_last() =~= stored(rest, name, v));
        assert(after.last() == env.last());
    }
}

/// After a reset a parser is in the state of a new one, in which a name
/// that is declared reads as `Uninitialized` and nothing else is visible.
pub proof fn lemma_fresh_state_is_empty(name: Seq<char>, other: Seq<char>)
    ensures
        lookup(crate::parser::fresh_state().env, name) is None,
        lookup(declared(crate::parser::fresh_state().env, name), name) == Some(
            Value::Uninitialized,
        ),
        other != name ==> lookup(declared(crate::parser::fresh_state().env, name), other) is None,
{
    let env = crate::parser::fresh_state().env;
    assert(env.len() == 1);
    assert(env.drop_last().len() == 0);
    assert(binding_depth(env.drop_last(), name) is None);
    lemma_declared_reads_uninitialized(env, name);
    let after = declared(env, name);
    assert(after.drop_last().len() == 0);
    assert(binding_depth(after.drop_last(), other) is None);
}

/// Whether no word of a sequence is empty.
pub open spec fn no_empty_word(words: Seq<Seq<char>>) -> bool {
    forall|i: int| 0 <= i < words.len() ==> (#[trigger] words[i]).len() > 0
}

/// From a state whose words are not empty, the tokenizer goes on without
/// making an empty word.
proof fn lemma_lex_keeps_words(text: Seq<char>, i: int, st: LexState)
    requires
        no_empty_word(st.tokens),
    ensures
        no_empty_word(lex_from(text, i, st)),
    decreases text.len() - i,
{
    if 0 <= i < text.len() {
        let next = lex_step(text, i, st);
        assert(no_empty_word(flushed(st.tokens, st.word)));
        assert(no_empty_word(next.tokens));
        lemma_lex_keeps_words(text, i + lex_width(text, i, st), next);
    } else {
        assert(no_empty_word(flushed(st.tokens, st.word)));
    }
}

/// The tokenizer makes no empty token.
pub proof fn lemma_tokens_are_not_empty(text: Seq<char>)
    ensures
        no_empty_word(tokenize(text)),
{
    lemma_lex_keeps_words(text, 0, lex_start());
}

} // verus!
