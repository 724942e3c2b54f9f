//! The tokenizer: from source text to the words that the evaluator reads.

use crate::op::{operator_named, operator_of};
use vstd::prelude::*;

verus! {

/// The classes of characters that the tokenizer tells apart.
#[derive(Clone, Copy, Debug, PartialEq, Eq, Structural)]
pub enum CharType {
    /// Part of a name or a literal.
    Normal,
    /// A symbol.
    Punctuation,
    /// Blank space.
    WhiteSpace,
}

/// Whether a character is ASCII blank space: space, tab, line feed, form
/// feed or carriage return.
pub open spec fn is_blank(c: char) -> bool {
    c == ' ' || c == '\t' || c == '\n' || c == '\x0C' || c == '\r'
}

/// Whether a character is an ASCII symbol.
pub open spec fn is_symbol(c: char) -> bool {
    ('!' <= c && c <= '/') || (':' <= c && c <= '@') || ('[' <= c && c <= '`') || ('{' <= c && c
        <= '~')
}

/// The class of a character. The underscore counts as part of a name.
pub open spec fn char_class(c: char) -> CharType {
    if is_blank(c) {
        CharType::WhiteSpace
    } else if c != '_' && is_symbol(c) {
        CharType::Punctuation
    } else {
        CharType::Normal
    }
}

impl CharType {
    /// The class of a character.
    pub fn get_chartype(c: char) -> (r: CharType)
        ensures
            r == char_class(c),
    {
        if c == ' ' || c == '\t' || c == '\n' || c == '\x0C' || c == '\r' {
            CharType::WhiteSpace
        } else if c != '_' && (('!' <= c && c <= '/') || (':' <= c && c <= '@') || ('[' <= c && c
            <= '`') || ('{' <= c && c <= '~')) {
            CharType::Punctuation
        } else {
            CharType::Normal
        }
    }
}

/// What the tokenizer is skipping, if anything.
#[derive(Clone, Copy, Debug, PartialEq, Eq, Structural)]
pub enum CommentType {
    /// Nothing: the characters count.
    Code,
    /// A comment that ends before the next line feed.
    SingleLine,
    /// A comment that ends after the next `*/`.
    MultiLine,
}

/// The tokenizer's state between two characters.
pub ghost struct LexState {
    /// The words that are complete.
    pub tokens: Seq<Seq<char>>,
    /// The word that is being read.
    pub word: Seq<char>,
    /// Whether the word is a string literal that is still open.
    pub in_string: bool,
    /// The comment that is being skipped.
    pub comment: CommentType,
}

/// The state before the first character.
pub open spec fn lex_start() -> LexState {
    LexState { tokens: Seq::empty(), word: Seq::empty(), in_string: false, comment: CommentType::Code }
}

/// The complete words of a state, with the word being read closed.
pub open spec fn flushed(tokens: Seq<Seq<char>>, word: Seq<char>) -> Seq<Seq<char>> {
    if word.len() > 0 {
        tokens.push(word)
    } else {
        tokens
    }
}

/// How many characters the step at position `i` reads: two for the marks
/// that open and close comments, else one.
pub open spec fn lex_width(text: Seq<char>, i: int, st: LexState) -> int {
    let paired = i + 1 < text.len();
    if st.comment == CommentType::MultiLine {
        if text[i] == '*' && paired && text[i + 1] == '/' {
            2
        } else {
            1
        }
    } else if st.comment == CommentType::Code && !st.in_string && text[i] == '/' && paired && (
    text[i + 1] == '/' || text[i + 1] == '*') {
        2
    } else {
        1
    }
}

/// The state after the step at position `i`.
///
/// Inside a comment nothing counts; a line feed ends a line comment and is
/// then blank space like any other. Inside a string literal every character
/// joins the word, and a double quote that no backslash precedes closes the
/// literal. Elsewhere blank space closes the word; a symbol joins the word
/// where the longer word is still a binary operator, and otherwise closes it
/// and starts the next, a double quote opening a literal; any other
/// character joins a word that ends in such a character and closes a word
/// that ends in a symbol.
pub open spec fn lex_step(text: Seq<char>, i: int, st: LexState) -> LexState {
    let c = text[i];
    let paired = i + 1 < text.len();
    if st.comment == CommentType::MultiLine {
        if c == '*' && paired && text[i + 1] == '/' {
            LexState { comment: CommentType::Code, ..st }
        } else {
            st
        }
    } else if st.comment == CommentType::SingleLine && c != '\n' {
        st
    } else if st.in_string {
        let closes = c == '"' && !(st.word.len() > 0 && st.word.last() == '\\');
        LexState { word: st.word.push(c), in_string: !closes, ..st }
    } else if c == '/' && paired && text[i + 1] == '/' {
        LexState { comment: CommentType::SingleLine, ..st }
    } else if c == '/' && paired && text[i + 1] == '*' {
        LexState { comment: CommentType::MultiLine, ..st }
    } else {
        match char_class(c) {
            CharType::WhiteSpace => LexState {
                tokens: flushed(st.tokens, st.word),
                word: Seq::empty(),
                in_string: false,
                comment: CommentType::Code,
            },
            CharType::Punctuation => if c != '"' && operator_named(st.word.push(c)) is Some {
                LexState { word: st.word.push(c), comment: CommentType::Code, ..st }
            } else {
                LexState {
                    tokens: flushed(st.tokens, st.word),
                    word: seq![c],
                    in_string: c == '"',
                    comment: CommentType::Code,
                }
            },
            CharType::Normal => if st.word.len() > 0 && char_class(st.word.last())
                != CharType::Normal {
                LexState {
                    tokens: st.tokens.push(st.word),
                    word: seq![c],
                    in_string: false,
                    comment: CommentType::Code,
                }
            } else {
                LexState { word: st.word.push(c), comment: CommentType::Code, ..st }
            },
        }
    }
}

/// The words read from position `i` on, after those of the state. The end
/// of the text closes the word being read, an open literal too.
pub open spec fn lex_from(text: Seq<char>, i: int, st: LexState) -> Seq<Seq<char>>
    decreases text.len() - i,
{
    if 0 <= i < text.len() {
        lex_from(text, i + lex_width(text, i, st), lex_step(text, i, st))
    } else {
        flushed(st.tokens, st.word)
    }
}

/// The words of a source text.
pub open spec fn tokenize(text: Seq<char>) -> Seq<Seq<char>> {
    lex_from(text, 0, lex_start())
}

/// The texts that a vector of words holds.
pub open spec fn words_view(words: Seq<Vec<char>>) -> Seq<Seq<char>> {
    words.map_values(|w: Vec<char>| w@)
}

fn flush(tokens: &mut Vec<Vec<char>>, word: &mut Vec<char>)
    ensures
        words_view(final(tokens)@) == flushed(words_view(old(tokens)@), old(word)@),
        final(word)@ == Seq::<char>::empty(),
{
    if word.len() > 0 {
        let mut taken: Vec<char> = Vec::new();
        std::mem::swap(word, &mut taken);
        tokens.push(taken);
        assert(words_view(tokens@) =~= words_view(old(tokens)@).push(old(word)@));
    } else {
        assert(word@ =~= Seq::<char>::empty());
    }
}

/// Splits a source text into words.
pub fn split_words(text: &Vec<char>) -> (tokens: Vec<Vec<char>>)
    ensures
        words_view(tokens@) == tokenize(text@),
{
    let mut tokens: Vec<Vec<char>> = Vec::new();
    let mut word: Vec<char> = Vec::new();
    let mut in_string = false;
    let mut comment = CommentType::Code;
    let n = text.len();
    let mut i: usize = 0;
    assert(words_view(tokens@) =~= Seq::<Seq<char>>::empty());
    while i < n
        invariant
            n == text.len(),
            i <= n,
            tokenize(text@) == lex_from(
                text@,
                i as int,
                LexState { tokens: words_view(tokens@), word: word@, in_string, comment },
            ),
        decreases n - i,
    {
        let ghost st = LexState { tokens: words_view(tokens@), word: word@, in_string, comment };
        let ghost start = i;
        let c = text[i];
        let paired = i + 1 < n;
        if comment == CommentType::MultiLine {
            if c == '*' && paired && text[i + 1] == '/' {
                comment = CommentType::Code;
                i += 2;
            } else {
                i += 1;
            }
        } else if comment == CommentType::SingleLine && c != '\n' {
            i += 1;
        } else if in_string {
            let escaped = word.len() > 0 && word[word.len() - 1] == '\\';
            if c == '"' && !escaped {
                in_string = false;
            }
            word.push(c);
            i += 1;
        } else if c == '/' && paired && text[i + 1] == '/' {
            comment = CommentType::SingleLine;
            i += 2;
        } else if c == '/' && paired && text[i + 1] == '*' {
            comment = CommentType::MultiLine;
            i += 2;
        } else {
            comment = CommentType::Code;
            match CharType::get_chartype(c) {
                CharType::WhiteSpace => {
                    flush(&mut tokens, &mut word);
                },
                CharType::Punctuation => {
                    let mut longer = crate::text::copy_text(&word);
                    longer.push(c);
                    if c != '"' && operator_of(&longer).is_some() {
                        word.push(c);
                    } else {
                        flush(&mut tokens, &mut word);
                        word.push(c);
                        in_string = c == '"';
                        assert(word@ =~= seq![c]);
                    }
                },
                CharType::Normal => {
                    if word.len() > 0 && CharType::get_chartype(word[word.len() - 1])
                        != CharType::Normal {
                        flush(&mut tokens, &mut word);
                        word.push(c);
                        assert(word@ =~= seq![c]);
                    } else {
                        word.push(c);
                    }
                },
            }
            i += 1;
        }
        assert(LexState { tokens: words_view(tokens@), word: word@, in_string, comment }
            == lex_step(text@, start as int, st));
        assert(i == start + lex_width(text@, start as int, st));
    }
    flush(&mut tokens, &mut word);
    tokens
}

/// The texts that a vector of strings holds.
pub open spec fn strings_view(words: Seq<String>) -> Seq<Seq<char>> {
    words.map_values(|w: String| w@)
}

/// The words of a vector as strings.
pub fn words_to_strings(words: &Vec<Vec<char>>) -> (r: Vec<String>)
    ensures
        strings_view(r@) == words_view(words@),
{
    let mut r: Vec<String> = Vec::new();
    let mut i: usize = 0;
    while i < words.len()
        invariant
            i <= words.len(),
            r.len() == i,
            forall|k: int| 0 <= k < i ==> (#[trigger] r[k])@ == words[k]@,
        decreases words.len() - i,
    {
        r.push(crate::text::string_from_chars(&words[i]));
        i += 1;
    }
    assert(strings_view(r@) =~= words_view(words@));
    r
}

/// Splits a source text into its words.
pub fn split_text(text: &str) -> (r: Vec<String>)
    ensures
        strings_view(r@) == tokenize(text@),
{
    let chars = crate::text::chars_of(text);
    let words = split_words(&chars);
    words_to_strings(&words)
}

} // verus!
