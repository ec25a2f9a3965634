//! Functions and structs whose results borrow from their inputs, and
//! functions that need no lifetime because they return owned values.
use vstd::prelude::*;
use vstd::string::*;

verus! {

/// `a`, a space, then `b`, as a new `String` (`format!("{} {}", a, b)`).
pub fn join_strings(a: &str, b: &str) -> (r: String)
    ensures
        r@ == a@ + " "@ + b@,
{
    let mut r = String::from_str(a);
    r.append(" ");
    r.append(b);
    r
}

/// Appends `suffix` to `s` in place.
pub fn append_suffix(s: &mut String, suffix: &str)
    ensures
        final(s)@ == old(s)@ + suffix@,
{
    s.append(suffix);
}

/// The longer of two strings by byte length; `y` when they are equally long.
pub fn longest<'a>(x: &'a str, y: &'a str) -> (r: &'a str)
    ensures
        r == if x.len() > y.len() {
            x
        } else {
            y
        },
{
    if x.len() > y.len() {
        x
    } else {
        y
    }
}

/// A struct that borrows part of a string.
#[derive(Debug)]
pub struct Excerpt<'a> {
    pub part: &'a str,
}

impl<'a> Excerpt<'a> {
    /// The borrowed part, with the lifetime of the excerpt.
    pub fn get_part(&self) -> (r: &str)
        ensures
            r == self.part,
    {
        self.part
    }

    /// Byte length of the borrowed part.
    pub fn len(&self) -> (r: usize)
        ensures
            r == self.part.len(),
    {
        self.part.len()
    }
}

/// A reader over borrowed content.
pub struct Reader<'a> {
    pub content: &'a str,
}

impl<'a> Reader<'a> {
    /// The content; the result borrows from `self`.
    pub fn get_content(&self) -> (r: &str)
        ensures
            r == self.content,
    {
        self.content
    }
}

/// A struct holding a reference to a value of any type that outlives it.
pub struct Container<'a, T: 'a> {
    pub reference: &'a T,
}

impl<'a, T: 'a> Container<'a, T> {
    /// The reference, with its full lifetime `'a`.
    pub fn get_reference(&self) -> (r: &'a T)
        ensures
            r == self.reference,
    {
        self.reference
    }
}

/// A string literal, valid for the whole program.
pub fn get_static_str() -> (r: &'static str)
    ensures
        r@ == "string literal"@,
{
    "string literal"
}

/// A reference to a constant, valid for the whole program.
pub fn return_static() -> (r: &'static i32)
    ensures
        *r == 1,
{
    &1
}

} // verus!
