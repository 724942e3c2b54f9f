//! A line-oriented evaluator front: it splits a text into commands, one
//! for each `;`, and keeps integer variables.

use crate::splitting::{strings_view, words_to_strings, words_view};
use crate::text::{chars_of, copy_text};
use crate::variables::{
    distinct_names, find_binding, frame_of, lemma_frame_keys, lemma_frame_update, Binding,
};
use std::collections::VecDeque;
use vstd::prelude::*;

verus! {

/// What an evaluator holds.
pub ghost struct EvaluaterState {
    /// The variables and their values.
    pub variables: Map<Seq<char>, i32>,
    /// The commands that were split off and not taken yet.
    pub commands: Seq<Seq<Seq<char>>>,
}

/// Whether a character separates words and counts for nothing else.
pub open spec fn is_gap(c: char) -> bool {
    c == '\r' || c == '\n' || c == '\t' || c == ' '
}

/// Whether a character is a word by itself.
pub open spec fn is_sign(c: char) -> bool {
    c == '+' || c == '-' || c == '/' || c == '*' || c == '%' || c == '(' || c == ')' || c == '='
}

/// The words with the word being read closed.
pub open spec fn closed_word(words: Seq<Seq<char>>, word: Seq<char>) -> Seq<Seq<char>> {
    if word.len() > 0 {
        words.push(word)
    } else {
        words
    }
}

/// The commands after the text from position `i` on was read, with `word`
/// the word being read and `words` the words read so far.
///
/// A gap closes the word; a sign closes it and is a word by itself; a `;`
/// closes it and records the words read so far as a command, if there are
/// any; every other character joins the word. What follows the last `;`
/// is no command.
pub open spec fn commands_from(
    text: Seq<char>,
    i: int,
    word: Seq<char>,
    words: Seq<Seq<char>>,
    commands: Seq<Seq<Seq<char>>>,
) -> Seq<Seq<Seq<char>>>
    decreases text.len() - i,
{
    if 0 <= i < text.len() {
        let c = text[i];
        if is_gap(c) {
            commands_from(text, i + 1, Seq::empty(), closed_word(words, word), commands)
        } else if is_sign(c) {
            commands_from(
                text,
                i + 1,
                Seq::empty(),
                closed_word(words, word).push(seq![c]),
                commands,
            )
        } else if c == ';' {
            let all = closed_word(words, word);
            commands_from(
                text,
                i + 1,
                Seq::empty(),
                all,
                if all.len() > 0 {
                    commands.push(all)
                } else {
                    commands
                },
            )
        } else {
            commands_from(text, i + 1, word.push(c), words, commands)
        }
    } else {
        commands
    }
}

/// The words that each command of a vector holds.
pub open spec fn commands_view(commands: Seq<Vec<Vec<char>>>) -> Seq<Seq<Seq<char>>> {
    commands.map_values(|c: Vec<Vec<char>>| words_view(c@))
}

/// Splits texts into commands and keeps integer variables.
pub struct Evaluater {
    variables: Vec<Binding<i32>>,
    cmds: Vec<Vec<Vec<char>>>,
}

impl View for Evaluater {
    type V = EvaluaterState;

    closed spec fn view(&self) -> EvaluaterState {
        EvaluaterState { variables: frame_of(self.variables@), commands: commands_view(self.cmds@) }
    }
}

fn close_word(words: &mut Vec<Vec<char>>, word: &mut Vec<char>)
    ensures
        words_view(final(words)@) == closed_word(words_view(old(words)@), old(word)@),
        final(word)@ == Seq::<char>::empty(),
{
    if word.len() > 0 {
        let mut taken: Vec<char> = Vec::new();
        std::mem::swap(word, &mut taken);
        words.push(taken);
        assert(words_view(words@) =~= words_view(old(words)@).push(old(word)@));
    } else {
        assert(word@ =~= Seq::<char>::empty());
    }
}

fn copy_words(words: &Vec<Vec<char>>) -> (r: Vec<Vec<char>>)
    ensures
        words_view(r@) == words_view(words@),
{
    let mut r: Vec<Vec<char>> = Vec::new();
    let mut i: usize = 0;
    while i < words.len()
        invariant
            i <= words.len(),
            r.len() == i,
            forall|k: int| 0 <= k < i ==> (#[trigger] r[k])@ == words[k]@,
        decreases words.len() - i,
    {
        r.push(copy_text(&words[i]));
        i += 1;
    }
    assert(words_view(r@) =~= words_view(words@));
    r
}

impl Evaluater {
    /// Whether the evaluator is valid: no variable is kept twice.
    pub closed spec fn wf(&self) -> bool {
        distinct_names(self.variables@)
    }

    /// An evaluator without variables and commands.
    pub fn new() -> (r: Evaluater)
        ensures
            r.wf(),
            r@.variables == Map::<Seq<char>, i32>::empty(),
            r@.commands == Seq::<Seq<Seq<char>>>::empty(),
    {
        let r = Evaluater { variables: Vec::new(), cmds: Vec::new() };
        assert(commands_view(r.cmds@) =~= Seq::empty());
        r
    }

    /// Splits a text into commands and adds them to those not taken yet.
    pub fn split_elements(&mut self, data: String)
        requires
            old(self).wf(),
        ensures
            final(self).wf(),
            final(self)@.variables == old(self)@.variables,
            final(self)@.commands == commands_from(
                data@,
                0,
                Seq::empty(),
                Seq::empty(),
                old(self)@.commands,
            ),
    {
        let text = chars_of(data.as_str());
        let mut word: Vec<char> = Vec::new();
        let mut cmd: Vec<Vec<char>> = Vec::new();
        let mut i: usize = 0;
        assert(words_view(cmd@) =~= Seq::empty());
        while i < text.len()
            invariant
                i <= text.len(),
                text@ == data@,
                self.variables == old(self).variables,
                commands_from(data@, 0, Seq::empty(), Seq::empty(), old(self)@.commands)
                    == commands_from(
                    text@,
                    i as int,
                    word@,
                    words_view(cmd@),
                    commands_view(self.cmds@),
                ),
            decreases text.len() - i,
        {
            let c = text[i];
            if c == '\r' || c == '\n' || c == '\t' || c == ' ' {
                close_word(&mut cmd, &mut word);
            } else if c == '+' || c == '-' || c == '/' || c == '*' || c == '%' || c == '(' || c
                == ')' || c == '=' {
                close_word(&mut cmd, &mut word);
                let ghost before = words_view(cmd@);
                let mut sign: Vec<char> = Vec::new();
                sign.push(c);
                assert(sign@ =~= seq![c]);
                cmd.push(sign);
                assert(words_view(cmd@) =~= before.push(seq![c]));
            } else if c == ';' {
                close_word(&mut cmd, &mut word);
                if cmd.len() > 0 {
                    let ghost before = commands_view(self.cmds@);
                    let copy = copy_words(&cmd);
                    self.cmds.push(copy);
                    assert(commands_view(self.cmds@) =~= before.push(words_view(cmd@)));
                }
            } else {
                word.push(c);
            }
            i += 1;
        }
    }

    /// Takes the command that was split off last.
    pub fn pop_command(&mut self) -> (r: Option<VecDeque<String>>)
        requires
            old(self).wf(),
        ensures
            final(self).wf(),
            final(self)@.variables == old(self)@.variables,
            match r {
                Some(words) => old(self)@.commands.len() > 0 && strings_view(words@) == old(
                    self,
                )@.commands.last() && final(self)@.commands == old(self)@.commands.drop_last(),
                None => old(self)@.commands.len() == 0 && final(self)@.commands == old(
                    self,
                )@.commands,
            },
    {
        let ghost before = commands_view(self.cmds@);
        match self.cmds.pop() {
            Some(cmd) => {
                assert(commands_view(self.cmds@) =~= before.drop_last());
                assert(before.last() == words_view(cmd@));
                let strings = words_to_strings(&cmd);
                let mut words: VecDeque<String> = VecDeque::new();
                let mut i: usize = 0;
                while i < strings.len()
                    invariant
                        i <= strings.len(),
                        words@.len() == i,
                        forall|k: int| 0 <= k < i ==> (#[trigger] words@[k])@ == strings[k]@,
                    decreases strings.len() - i,
                {
                    words.push_back(strings[i].clone());
                    i += 1;
                }
                assert(strings_view(words@) =~= strings_view(strings@));
                Some(words)
            },
            None => None,
        }
    }

    /// The value of the variable of the given name.
    pub fn get_variable(&self, name: &str) -> (r: Option<&i32>)
        requires
            self.wf(),
        ensures
            match r {
                Some(v) => self@.variables.contains_key(name@) && self@.variables[name@] == *v,
                None => !self@.variables.contains_key(name@),
            },
    {
        match find_binding(&self.variables, &chars_of(name)) {
            Some(j) => Some(&self.variables[j].value),
            None => None,
        }
    }

    /// The place of the value of the variable of the given name: what is
    /// put there is the value of the variable from then on.
    pub fn get_variable_mut(&mut self, name: &str) -> (r: Option<&mut i32>)
        requires
            old(self).wf(),
        ensures
            match r {
                Some(v) => old(self)@.variables.contains_key(name@) && old(self)@.variables[name@]
                    == *v && final(self)@.variables == old(self)@.variables.insert(
                    name@,
                    *final(v),
                ) && final(self)@.commands == old(self)@.commands && final(self).wf(),
                None => !old(self)@.variables.contains_key(name@) && final(self)@ == old(self)@
                    && final(self).wf(),
            },
    {
        match find_binding(&self.variables, &chars_of(name)) {
            Some(j) => {
                let ghost before = self.variables@;
                proof {
                    assert forall|value: i32|
                        distinct_names(
                            #[trigger] before.update(
                                j as int,
                                Binding { name: before[j as int].name, value },
                            ),
                        ) && frame_of(
                            before.update(j as int, Binding { name: before[j as int].name, value }),
                        ) == frame_of(before).insert(name@, value) by {
                        lemma_frame_update(
                            before,
                            j as int,
                            Binding { name: before[j as int].name, value },
                        );
                    }
                }
                Some(&mut self.variables[j].value)
            },
            None => None,
        }
    }

    /// Makes a variable of the given name with the value 0, unless there
    /// is one; tells whether it made one.
    pub fn create_variable(&mut self, name: &str) -> (r: bool)
        requires
            old(self).wf(),
        ensures
            final(self).wf(),
            r == !old(self)@.variables.contains_key(name@),
            final(self)@.commands == old(self)@.commands,
            final(self)@.variables == if r {
                old(self)@.variables.insert(name@, 0i32)
            } else {
                old(self)@.variables
            },
    {
        let key = chars_of(name);
        if find_binding(&self.variables, &key).is_some() {
            false
        } else {
            let ghost before = self.variables@;
            let b = Binding { name: key, value: 0i32 };
            self.variables.push(b);
            assert(self.variables@.drop_last() =~= before);
            assert(distinct_names(self.variables@)) by {
                let now = self.variables@;
                assert forall|x: int, y: int| 0 <= x < y < now.len() implies (
                #[trigger] now[x]).name@ != (#[trigger] now[y]).name@ by {
                    if y == now.len() - 1 {
                        lemma_frame_keys(before, name@);
                        assert(before[x].name@ != name@);
                    } else {
                        assert(before[x].name@ != before[y].name@);
                    }
                }
            }
            true
        }
    }
}

} // verus!
