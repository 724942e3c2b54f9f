//! The block-scoped variable store.

use crate::errors::{Failure, ParseError, ParseErrorType};
use crate::text::{copy_text, same_text, string_from_chars};
use crate::value::{Value, VarType};
use vstd::prelude::*;

verus! {

/// One scope as a table from names to values.
pub type Frame = Map<Seq<char>, Value>;

/// The scopes that are open, the top level first and the innermost last.
pub type Env = Seq<Frame>;

/// The depth of the innermost scope that binds `name`, counted from 0 at
/// the top level.
pub open spec fn binding_depth(env: Env, name: Seq<char>) -> Option<int>
    decreases env.len(),
{
    if env.len() == 0 {
        None
    } else if env.last().contains_key(name) {
        Some(env.len() - 1)
    } else {
        binding_depth(env.drop_last(), name)
    }
}

/// The value that `name` reads as: that of its innermost binding.
pub open spec fn lookup(env: Env, name: Seq<char>) -> Option<Value> {
    match binding_depth(env, name) {
        Some(d) => Some(env[d][name]),
        None => None,
    }
}

/// The scopes after `name` was declared: the innermost scope binds it to
/// `Uninitialized` unless it bound it before.
pub open spec fn declared(env: Env, name: Seq<char>) -> Env {
    if env.len() == 0 || env.last().contains_key(name) {
        env
    } else {
        env.update(env.len() - 1, env.last().insert(name, Value::Uninitialized))
    }
}

/// The scopes after `v` was stored in the innermost binding of `name`.
pub open spec fn stored(env: Env, name: Seq<char>, v: Value) -> Env {
    match binding_depth(env, name) {
        Some(d) => env.update(d, env[d].insert(name, v)),
        None => env,
    }
}

/// The scopes after a block was entered.
pub open spec fn entered(env: Env) -> Env {
    env.push(Map::empty())
}

/// The scopes after the innermost block was left: its bindings are gone.
pub open spec fn exited(env: Env) -> Env {
    env.drop_last()
}

/// The scopes with every block left: only the top level stays.
pub open spec fn unwound(env: Env) -> Env {
    env.take(1)
}

/// The innermost binding of a name lies in the deepest scope that binds it.
pub proof fn lemma_binding_depth_is_innermost(env: Env, name: Seq<char>)
    ensures
        match binding_depth(env, name) {
            Some(d) => 0 <= d < env.len() && env[d].contains_key(name) && forall|k: int|
                d < k < env.len() ==> !(#[trigger] env[k]).contains_key(name),
            None => forall|k: int| 0 <= k < env.len() ==> !(#[trigger] env[k]).contains_key(name),
        },
    decreases env.len(),
{
    if env.len() > 0 && !env.last().contains_key(name) {
        lemma_binding_depth_is_innermost(env.drop_last(), name);
        let rest = env.drop_last();
        assert forall|k: int| 0 <= k < rest.len() implies rest[k] == env[k] by {}
        match binding_depth(rest, name) {
            Some(d) => {
                assert forall|k: int| d < k < env.len() implies !(#[trigger] env[k]).contains_key(
                    name,
                ) by {
                    if k < rest.len() {
                        assert(rest[k] == env[k]);
                    }
                }
            },
            None => {
                assert forall|k: int| 0 <= k < env.len() implies !(#[trigger] env[k]).contains_key(
                    name,
                ) by {
                    if k < rest.len() {
                        assert(rest[k] == env[k]);
                    }
                }
            },
        }
    }
}

/// A name with the value bound to it.
pub struct Binding<T> {
    /// The name.
    pub name: Vec<char>,
    /// The value bound to it.
    pub value: T,
}

/// The table that a list of bindings stands for.
pub open spec fn frame_of<T: View>(bindings: Seq<Binding<T>>) -> Map<Seq<char>, T::V>
    decreases bindings.len(),
{
    if bindings.len() == 0 {
        Map::empty()
    } else {
        frame_of(bindings.drop_last()).insert(bindings.last().name@, bindings.last().value@)
    }
}

/// Whether no name occurs twice in a list of bindings.
pub open spec fn distinct_names<T>(bindings: Seq<Binding<T>>) -> bool {
    forall|i: int, j: int|
        0 <= i < j < bindings.len() ==> (#[trigger] bindings[i]).name@ != (
        #[trigger] bindings[j]).name@
}

/// A table binds the names of its bindings, and no others.
pub proof fn lemma_frame_keys<T: View>(bindings: Seq<Binding<T>>, name: Seq<char>)
    ensures
        frame_of(bindings).contains_key(name) <==> exists|i: int|
            0 <= i < bindings.len() && (#[trigger] bindings[i]).name@ == name,
    decreases bindings.len(),
{
    if bindings.len() > 0 {
        let rest = bindings.drop_last();
        lemma_frame_keys(rest, name);
        if frame_of(bindings).contains_key(name) {
            if bindings.last().name@ == name {
                assert(bindings[bindings.len() - 1].name@ == name);
            } else {
                let i = choose|i: int| 0 <= i < rest.len() && (#[trigger] rest[i]).name@ == name;
                assert(bindings[i].name@ == name);
            }
        }
        if exists|i: int| 0 <= i < bindings.len() && (#[trigger] bindings[i]).name@ == name {
            let i = choose|i: int| 0 <= i < bindings.len() && (#[trigger] bindings[i]).name@ == name;
            if i < rest.len() {
                assert(rest[i].name@ == name);
            }
        }
    }
}

/// A table binds the name of each of its bindings to the value of that
/// binding.
pub proof fn lemma_frame_value<T: View>(bindings: Seq<Binding<T>>, i: int)
    requires
        distinct_names(bindings),
        0 <= i < bindings.len(),
    ensures
        frame_of(bindings).contains_key(bindings[i].name@),
        frame_of(bindings)[bindings[i].name@] == bindings[i].value@,
    decreases bindings.len(),
{
    let rest = bindings.drop_last();
    if i < bindings.len() - 1 {
        assert(distinct_names(rest)) by {
            assert forall|a: int, b: int| 0 <= a < b < rest.len() implies (#[trigger] rest[a]).name@
                != (#[trigger] rest[b]).name@ by {
                assert(bindings[a].name@ != bindings[b].name@);
            }
        }
        lemma_frame_value(rest, i);
        assert(rest[i] == bindings[i]);
        assert(bindings[i].name@ != bindings[bindings.len() - 1].name@);
    }
}

/// Replacing the value of a binding stores the new value under its name.
pub proof fn lemma_frame_update<T: View>(bindings: Seq<Binding<T>>, i: int, b: Binding<T>)
    requires
        distinct_names(bindings),
        0 <= i < bindings.len(),
        b.name@ == bindings[i].name@,
    ensures
        distinct_names(bindings.update(i, b)),
        frame_of(bindings.update(i, b)) == frame_of(bindings).insert(b.name@, b.value@),
    decreases bindings.len(),
{
    let after = bindings.update(i, b);
    assert(distinct_names(after)) by {
        assert forall|x: int, y: int| 0 <= x < y < after.len() implies (#[trigger] after[x]).name@
            != (#[trigger] after[y]).name@ by {
            assert(bindings[x].name@ != bindings[y].name@);
        }
    }
    let rest = bindings.drop_last();
    if i == bindings.len() - 1 {
        assert(after.drop_last() =~= rest);
        assert(frame_of(after) =~= frame_of(bindings).insert(b.name@, b.value@));
    } else {
        assert(distinct_names(rest)) by {
            assert forall|x: int, y: int| 0 <= x < y < rest.len() implies (#[trigger] rest[x]).name@
                != (#[trigger] rest[y]).name@ by {
                assert(bindings[x].name@ != bindings[y].name@);
            }
        }
        lemma_frame_update(rest, i, b);
        assert(after.drop_last() =~= rest.update(i, b));
        assert(bindings[i].name@ != bindings[bindings.len() - 1].name@);
        assert(frame_of(after) =~= frame_of(bindings).insert(b.name@, b.value@));
    }
}

/// Finds the binding of `name` in a list of bindings.
pub fn find_binding<T: View>(frame: &Vec<Binding<T>>, name: &Vec<char>) -> (r: Option<usize>)
    requires
        distinct_names(frame@),
    ensures
        match r {
            Some(j) => j < frame.len() && frame[j as int].name@ == name@ && frame_of(
                frame@,
            ).contains_key(name@) && frame_of(frame@)[name@] == frame[j as int].value@,
            None => !frame_of(frame@).contains_key(name@),
        },
{
    let mut j: usize = 0;
    while j < frame.len()
        invariant
            j <= frame.len(),
            distinct_names(frame@),
            forall|k: int| 0 <= k < j ==> (#[trigger] frame@[k]).name@ != name@,
        decreases frame.len() - j,
    {
        if same_text(&frame[j].name, name) {
            proof {
                lemma_frame_value(frame@, j as int);
            }
            return Some(j);
        }
        j += 1;
    }
    proof {
        lemma_frame_keys(frame@, name@);
    }
    None
}

/// The variables of the open scopes.
pub struct Scopes {
    frames: Vec<Vec<Binding<VarType>>>,
}

impl View for Scopes {
    type V = Env;

    closed spec fn view(&self) -> Env {
        Seq::new(self.frames.len() as nat, |d: int| frame_of(self.frames[d]@))
    }
}

impl Scopes {
    /// Whether the store is valid: the top level is open and no scope binds
    /// a name twice.
    pub closed spec fn wf(&self) -> bool {
        &&& self.frames.len() >= 1
        &&& forall|d: int| 0 <= d < self.frames.len() ==> distinct_names((#[trigger] self.frames[d])@)
    }

    /// A valid store has the top-level scope open.
    pub proof fn lemma_wf_depth(&self)
        requires
            self.wf(),
        ensures
            self@.len() >= 1,
    {
    }

    /// A store with the top-level scope only, and nothing bound in it.
    pub fn new() -> (r: Self)
        ensures
            r.wf(),
            r@ == seq![Map::<Seq<char>, Value>::empty()],
    {
        let mut frames: Vec<Vec<Binding<VarType>>> = Vec::new();
        frames.push(Vec::new());
        let r = Scopes { frames };
        assert(r@ =~= seq![Map::<Seq<char>, Value>::empty()]);
        r
    }

    /// The depth of the innermost open scope; the top level has depth 0.
    pub fn depth(&self) -> (r: usize)
        requires
            self.wf(),
        ensures
            r == self@.len() - 1,
    {
        self.frames.len() - 1
    }

    /// Where the innermost binding of `name` lies: its scope and its place
    /// in that scope.
    fn find(&self, name: &Vec<char>) -> (r: Option<(usize, usize)>)
        requires
            self.wf(),
        ensures
            match r {
                Some((d, j)) => binding_depth(self@, name@) == Some(d as int) && d
                    < self.frames.len() && j < self.frames[d as int].len()
                    && self.frames[d as int][j as int].name@ == name@
                    && self.frames[d as int][j as int].value@ == self@[d as int][name@],
                None => binding_depth(self@, name@) is None,
            },
    {
        let mut d: usize = self.frames.len();
        assert(self@.take(d as int) =~= self@);
        while d > 0
            invariant
                self.wf(),
                d <= self.frames.len(),
                binding_depth(self@, name@) == binding_depth(self@.take(d as int), name@),
            decreases d,
        {
            d -= 1;
            assert(self@.take(d + 1).last() == self@[d as int]);
            assert(self@.take(d + 1).drop_last() =~= self@.take(d as int));
            match find_binding(&self.frames[d], name) {
                Some(j) => {
                    return Some((d, j));
                },
                None => {},
            }
        }
        None
    }

    /// Whether a binding of `name` is visible.
    pub fn has(&self, name: &Vec<char>) -> (r: bool)
        requires
            self.wf(),
        ensures
            r == lookup(self@, name@) is Some,
    {
        self.find(name).is_some()
    }

    /// The value that `name` reads as.
    pub fn get(&self, name: &Vec<char>) -> (r: Option<&VarType>)
        requires
            self.wf(),
        ensures
            match r {
                Some(v) => lookup(self@, name@) == Some(v@),
                None => lookup(self@, name@) is None,
            },
    {
        match self.find(name) {
            Some((d, j)) => Some(&self.frames[d][j].value),
            None => None,
        }
    }

    /// The place of the value that `name` reads as, to store into: what is
    /// put there is stored in the innermost binding of `name`.
    pub fn get_mut(&mut self, name: &Vec<char>) -> (r: Option<&mut VarType>)
        requires
            old(self).wf(),
        ensures
            match r {
                Some(v) => lookup(old(self)@, name@) == Some(v@) && final(self)@ == stored(
                    old(self)@,
                    name@,
                    final(v)@,
                ) && final(self).wf() && final(self)@.len() == old(self)@.len(),
                None => lookup(old(self)@, name@) is None && final(self)@ == old(self)@
                    && final(self).wf(),
            },
    {
        match self.find(name) {
            Some((d, j)) => {
                let ghost before = self.frames[d as int]@;
                proof {
                    assert forall|value: VarType|
                        distinct_names(
                            #[trigger] before.update(
                                j as int,
                                Binding { name: before[j as int].name, value },
                            ),
                        ) && frame_of(
                            before.update(j as int, Binding { name: before[j as int].name, value }),
                        ) == frame_of(before).insert(name@, value@) by {
                        lemma_frame_update(
                            before,
                            j as int,
                            Binding { name: before[j as int].name, value },
                        );
                    }
                }
                Some(&mut self.frames[d][j].value)
            },
            None => None,
        }
    }

    /// A copy of the value that `name` reads as, or `VariableNotFound`
    /// where no binding of it is visible.
    pub fn read(&self, name: &Vec<char>) -> (r: Result<VarType, ParseError>)
        requires
            self.wf(),
        ensures
            match r {
                Ok(v) => lookup(self@, name@) == Some(v@),
                Err(e) => lookup(self@, name@) is None && e@ == Failure::VariableNotFound(name@),
            },
    {
        match self.get(name) {
            Some(v) => Ok(v.clone()),
            None => Err(ParseError::new(ParseErrorType::VariableNotFound(string_from_chars(name)))),
        }
    }

    /// The place of the value that `name` reads as, to store into, or
    /// `VariableNotFound` where no binding of it is visible.
    pub fn read_mut(&mut self, name: &Vec<char>) -> (r: Result<&mut VarType, ParseError>)
        requires
            old(self).wf(),
        ensures
            match r {
                Ok(v) => lookup(old(self)@, name@) == Some(v@) && final(self)@ == stored(
                    old(self)@,
                    name@,
                    final(v)@,
                ) && final(self).wf() && final(self)@.len() == old(self)@.len(),
                Err(e) => lookup(old(self)@, name@) is None && e@ == Failure::VariableNotFound(
                    name@,
                ) && final(self)@ == old(self)@ && final(self).wf(),
            },
    {
        match self.get_mut(name) {
            Some(v) => Ok(v),
            None => Err(ParseError::new(ParseErrorType::VariableNotFound(string_from_chars(name)))),
        }
    }

    /// Declares `name` in the innermost scope, where it is not declared
    /// there yet.
    pub fn declare(&mut self, name: &Vec<char>)
        requires
            old(self).wf(),
        ensures
            final(self).wf(),
            final(self)@ == declared(old(self)@, name@),
            final(self)@.len() == old(self)@.len(),
    {
        let last = self.frames.len() - 1;
        if find_binding(&self.frames[last], name).is_none() {
            let ghost before = self.frames[last as int]@;
            let b = Binding { name: copy_text(name), value: VarType::Uninitialized };
            self.frames[last].push(b);
            assert(self.frames[last as int]@ == before.push(b));
            assert(self.frames[last as int]@.drop_last() =~= before);
            assert(distinct_names(self.frames[last as int]@)) by {
                let now = self.frames[last as int]@;
                assert forall|x: int, y: int| 0 <= x < y < now.len() implies (
                #[trigger] now[x]).name@ != (#[trigger] now[y]).name@ by {
                    if y == now.len() - 1 {
                        lemma_frame_keys(before, name@);
                        assert(before[x].name@ != name@);
                    } else {
                        assert(before[x].name@ != before[y].name@);
                    }
                }
            }
            assert(final(self)@ =~= declared(old(self)@, name@));
        } else {
            assert(final(self)@ =~= declared(old(self)@, name@));
        }
    }

    /// Stores `value` in the innermost binding of `name`; tells whether
    /// there was one.
    pub fn assign(&mut self, name: &Vec<char>, value: VarType) -> (r: bool)
        requires
            old(self).wf(),
        ensures
            final(self).wf(),
            r == lookup(old(self)@, name@) is Some,
            final(self)@ == stored(old(self)@, name@, value@),
            final(self)@.len() == old(self)@.len(),
    {
        match self.find(name) {
            Some((d, j)) => {
                let ghost before = self.frames[d as int]@;
                let ghost b = Binding { name: before[j as int].name, value };
                self.frames[d][j].value = value;
                assert(self.frames[d as int]@ =~= before.update(j as int, b));
                proof {
                    lemma_frame_update(before, j as int, b);
                }
                assert(final(self)@ =~= stored(old(self)@, name@, value@));
                true
            },
            None => false,
        }
    }

    /// Opens a scope.
    pub fn enter_scope(&mut self)
        requires
            old(self).wf(),
        ensures
            final(self).wf(),
            final(self)@ == entered(old(self)@),
    {
        self.frames.push(Vec::new());
        assert(final(self)@ =~= entered(old(self)@));
    }

    /// Closes the innermost scope, unless it is the top level.
    pub fn exit_scope(&mut self)
        requires
            old(self).wf(),
        ensures
            final(self).wf(),
            final(self)@ == if old(self)@.len() > 1 {
                exited(old(self)@)
            } else {
                old(self)@
            },
    {
        if self.frames.len() > 1 {
            self.frames.pop();
            assert(final(self)@ =~= exited(old(self)@));
        }
    }

    /// Closes every scope but the top level.
    pub fn unwind(&mut self)
        requires
            old(self).wf(),
        ensures
            final(self).wf(),
            final(self)@ == unwound(old(self)@),
    {
        self.frames.truncate(1);
        assert(final(self)@ =~= unwound(old(self)@));
    }

    /// Forgets every variable and closes every scope but the top level.
    pub fn clear(&mut self)
        requires
            old(self).wf(),
        ensures
            final(self).wf(),
            final(self)@ == seq![Map::<Seq<char>, Value>::empty()],
    {
        self.frames.clear();
        self.frames.push(Vec::new());
        assert(final(self)@ =~= seq![Map::<Seq<char>, Value>::empty()]);
    }
}

} // verus!
