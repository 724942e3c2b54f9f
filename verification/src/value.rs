//! The tagged runtime value.

use crate::text::{append_text, chars_of, signed_decimal, signed_decimal_of, string_from_chars};
use std::rc::Rc;
use vstd::prelude::*;

verus! {

/// The mathematical content of a runtime value.
pub ghost enum Value {
    /// A declared variable that was never assigned.
    Uninitialized,
    /// The result of a statement that yields nothing.
    Void,
    /// A signed 32-bit integer.
    Integer(i32),
    /// A sequence of characters.
    Text(Seq<char>),
    /// A snapshot of another value.
    Pointer(Box<Value>),
}

/// A value that a variable can hold.
#[derive(Debug, PartialEq)]
pub enum VarType {
    /// A declared variable that was never assigned.
    Uninitialized,
    /// The result of a statement that yields nothing.
    Void,
    /// A signed 32-bit integer.
    Integer(i32),
    /// An owned string.
    String(String),
    /// A snapshot of another value, taken when the address was asked for.
    Pointer(Rc<VarType>),
}

impl View for VarType {
    type V = Value;

    open spec fn view(&self) -> Value
        decreases self,
    {
        match self {
            VarType::Uninitialized => Value::Uninitialized,
            VarType::Void => Value::Void,
            VarType::Integer(i) => Value::Integer(*i),
            VarType::String(s) => Value::Text(s@),
            VarType::Pointer(p) => Value::Pointer(Box::new((**p).view())),
        }
    }
}

impl Clone for VarType {
    fn clone(&self) -> (r: Self)
        ensures
            r@ == self@,
        decreases self,
    {
        match self {
            VarType::Uninitialized => VarType::Uninitialized,
            VarType::Void => VarType::Void,
            VarType::Integer(i) => VarType::Integer(*i),
            VarType::String(s) => VarType::String(s.clone()),
            VarType::Pointer(p) => VarType::Pointer(Rc::new((&**p).clone())),
        }
    }
}

/// Whether a value is `Uninitialized` or `Void`.
pub open spec fn is_empty_value(v: Value) -> bool {
    v is Uninitialized || v is Void
}

/// `s` without the double quotes at its front.
pub open spec fn trim_front_quotes(s: Seq<char>) -> Seq<char>
    decreases s.len(),
{
    if s.len() > 0 && s.first() == '"' {
        trim_front_quotes(s.drop_first())
    } else {
        s
    }
}

/// `s` without the double quotes at its back.
pub open spec fn trim_back_quotes(s: Seq<char>) -> Seq<char>
    decreases s.len(),
{
    if s.len() > 0 && s.last() == '"' {
        trim_back_quotes(s.drop_last())
    } else {
        s
    }
}

/// `s` without the double quotes that surround it.
pub open spec fn trim_quotes(s: Seq<char>) -> Seq<char> {
    trim_back_quotes(trim_front_quotes(s))
}

/// How a value is written out.
pub open spec fn value_text(v: Value) -> Seq<char>
    decreases v,
{
    match v {
        Value::Uninitialized => "Uninitialized"@,
        Value::Void => "Void"@,
        Value::Integer(i) => "Integer("@ + signed_decimal(i as int) + ")"@,
        Value::Text(s) => "String(\""@ + s + "\")"@,
        Value::Pointer(p) => "Pointer("@ + value_text(*p) + ")"@,
    }
}

/// Removes the double quotes around a character vector.
pub fn trim_quotes_of(v: &Vec<char>) -> (r: Vec<char>)
    ensures
        r@ == trim_quotes(v@),
{
    let n = v.len();
    let mut i: usize = 0;
    assert(v@.subrange(0, n as int) =~= v@);
    while i < n && v[i] == '"'
        invariant
            n == v.len(),
            i <= n,
            trim_front_quotes(v@) == trim_front_quotes(v@.subrange(i as int, n as int)),
        decreases n - i,
    {
        assert(v@.subrange(i as int, n as int).drop_first() =~= v@.subrange(i + 1, n as int));
        i += 1;
    }
    let mut j: usize = n;
    while j > i && v[j - 1] == '"'
        invariant
            n == v.len(),
            i <= j <= n,
            trim_front_quotes(v@) == v@.subrange(i as int, n as int),
            trim_quotes(v@) == trim_back_quotes(v@.subrange(i as int, j as int)),
        decreases j,
    {
        assert(v@.subrange(i as int, j as int).drop_last() =~= v@.subrange(i as int, j - 1));
        j -= 1;
    }
    let mut r: Vec<char> = Vec::new();
    let mut k: usize = i;
    while k < j
        invariant
            i <= k <= j <= n,
            n == v.len(),
            r@ == v@.subrange(i as int, k as int),
        decreases j - k,
    {
        r.push(v[k]);
        assert(v@.subrange(i as int, k as int).push(v@[k as int]) =~= v@.subrange(
            i as int,
            k + 1,
        ));
        k += 1;
    }
    r
}

impl VarType {
    /// Whether the value is `Uninitialized` or `Void`.
    pub fn is_empty(&self) -> (r: bool)
        ensures
            r == is_empty_value(self@),
    {
        match self {
            VarType::Uninitialized => true,
            VarType::Void => true,
            _ => false,
        }
    }

    /// A string value made of a literal, without the quotes around it.
    pub fn new_string(data: &str) -> (r: Self)
        ensures
            r@ == Value::Text(trim_quotes(data@)),
    {
        let chars = chars_of(data);
        let inner = trim_quotes_of(&chars);
        VarType::String(string_from_chars(&inner))
    }

    /// Whether two values are equal, variant by variant.
    pub fn same(&self, other: &VarType) -> (r: bool)
        ensures
            r == (self@ == other@),
        decreases self,
    {
        match (self, other) {
            (VarType::Uninitialized, VarType::Uninitialized) => true,
            (VarType::Void, VarType::Void) => true,
            (VarType::Integer(a), VarType::Integer(b)) => *a == *b,
            (VarType::String(a), VarType::String(b)) => {
                let r = *a == *b;
                assert(r == (a@ == b@));
                r
            },
            (VarType::Pointer(a), VarType::Pointer(b)) => {
                let r = (&**a).same(&**b);
                assert(r == (self@ == other@));
                r
            },
            _ => {
                assert(self@ != other@);
                false
            },
        }
    }

    /// The characters that write the value out.
    pub fn text(&self) -> (r: Vec<char>)
        ensures
            r@ == value_text(self@),
        decreases self,
    {
        match self {
            VarType::Uninitialized => chars_of("Uninitialized"),
            VarType::Void => chars_of("Void"),
            VarType::Integer(i) => {
                let mut r = chars_of("Integer(");
                append_text(&mut r, &signed_decimal_of(*i));
                append_text(&mut r, &chars_of(")"));
                r
            },
            VarType::String(s) => {
                let mut r = chars_of("String(\"");
                append_text(&mut r, &chars_of(s.as_str()));
                append_text(&mut r, &chars_of("\")"));
                r
            },
            VarType::Pointer(p) => {
                let mut r = chars_of("Pointer(");
                append_text(&mut r, &(&**p).text());
                append_text(&mut r, &chars_of(")"));
                r
            },
        }
    }

    /// The value written out as a string.
    pub fn to_text(&self) -> (r: String)
        ensures
            r@ == value_text(self@),
    {
        string_from_chars(&self.text())
    }
}

} // verus!
