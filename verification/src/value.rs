//! The scalar values a style property can hold: text, whole numbers,
//! fixed-point thousandths (for fractional results such as opacity and
//! accessibility-scaled font sizes), and flags. A closed enumeration stands
//! in for the open-ended JSON scalar of the wire format; the host converts
//! at the boundary.

use vstd::prelude::*;
use crate::strutil::str_eq;

verus! {

/// Mathematical value of a [`StyleValue`].
pub enum SpecVal {
    Str(Seq<char>),
    Int(int),
    Milli(int),
    Bool(bool),
}

#[derive(Debug)]
pub enum StyleValue {
    /// Text, as a CSS keyword, color, or dimension string.
    Str(String),
    /// A whole number, as converted device pixels.
    Int(i64),
    /// A fixed-point number in thousandths.
    Milli(i64),
    /// A flag, as a native boolean hint.
    Bool(bool),
}

impl View for StyleValue {
    type V = SpecVal;

    open spec fn view(&self) -> SpecVal {
        match self {
            StyleValue::Str(s) => SpecVal::Str(s@),
            StyleValue::Int(i) => SpecVal::Int(*i as int),
            StyleValue::Milli(m) => SpecVal::Milli(*m as int),
            StyleValue::Bool(b) => SpecVal::Bool(*b),
        }
    }
}

impl StyleValue {
    /// Build a text value from a string slice.
    pub fn of_str(s: &str) -> (r: StyleValue)
        ensures
            r@ == SpecVal::Str(s@),
    {
        StyleValue::Str(String::from_str(s))
    }

    /// Build a text value from a character vector.
    pub fn of_chars(s: &Vec<char>) -> (r: StyleValue)
        ensures
            r@ == SpecVal::Str(s@),
    {
        StyleValue::Str(crate::strutil::chars_to_string(s))
    }

    pub fn as_str(&self) -> (r: Option<&str>)
        ensures
            match r {
                Some(s) => self@ matches SpecVal::Str(t) && s@ == t,
                None => !(self@ matches SpecVal::Str(_)),
            },
    {
        match self {
            StyleValue::Str(s) => Some(s.as_str()),
            _ => None,
        }
    }

    pub fn as_int(&self) -> (r: Option<i64>)
        ensures
            match r {
                Some(i) => self@ matches SpecVal::Int(j) && i as int == j,
                None => !(self@ matches SpecVal::Int(_)),
            },
    {
        match self {
            StyleValue::Int(i) => Some(*i),
            _ => None,
        }
    }

    pub fn as_milli(&self) -> (r: Option<i64>)
        ensures
            match r {
                Some(i) => self@ matches SpecVal::Milli(j) && i as int == j,
                None => !(self@ matches SpecVal::Milli(_)),
            },
    {
        match self {
            StyleValue::Milli(i) => Some(*i),
            _ => None,
        }
    }

    pub fn as_bool(&self) -> (r: Option<bool>)
        ensures
            match r {
                Some(b) => self@ == SpecVal::Bool(b),
                None => !(self@ matches SpecVal::Bool(_)),
            },
    {
        match self {
            StyleValue::Bool(b) => Some(*b),
            _ => None,
        }
    }

    /// True when the value is the given text.
    pub fn is_str(&self, t: &str) -> (r: bool)
        ensures
            r == (self@ == SpecVal::Str(t@)),
    {
        match self {
            StyleValue::Str(s) => str_eq(s.as_str(), t),
            _ => false,
        }
    }

    /// A copy with the same mathematical value.
    pub fn dup(&self) -> (r: StyleValue)
        ensures
            r@ == self@,
    {
        match self {
            StyleValue::Str(s) => StyleValue::Str(s.clone()),
            StyleValue::Int(i) => StyleValue::Int(*i),
            StyleValue::Milli(m) => StyleValue::Milli(*m),
            StyleValue::Bool(b) => StyleValue::Bool(*b),
        }
    }
}

} // verus!
