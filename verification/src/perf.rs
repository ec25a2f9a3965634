//! The same computations on a borrowed value and on an owned one: the
//! result is the same, only the cost of getting the argument differs.
use vstd::prelude::*;
use crate::slices::{byte_len, utf8_len};

verus! {

/// Byte length of a borrowed string.
pub fn process_string_by_ref(s: &String) -> (r: usize)
    requires
        utf8_len(s@) <= usize::MAX,
    ensures
        r == utf8_len(s@),
{
    byte_len(s.as_str())
}

/// Byte length of an owned string.
pub fn process_string_by_value(s: String) -> (r: usize)
    requires
        utf8_len(s@) <= usize::MAX,
    ensures
        r == utf8_len(s@),
{
    byte_len(s.as_str())
}

/// A user record with two large text fields.
#[derive(Clone)]
pub struct PerfUser {
    pub id: u64,
    pub text1: String,
    pub text2: String,
    pub age: u32,
}

/// Whether a borrowed user is an adult.
pub fn process_user_by_ref(user: &PerfUser) -> (r: bool)
    ensures
        r == (user.age > 18),
{
    user.age > 18
}

/// Whether an owned user is an adult.
pub fn process_user_by_value(user: PerfUser) -> (r: bool)
    ensures
        r == (user.age > 18),
{
    user.age > 18
}

/// Length of a borrowed vector.
pub fn process_vec_by_ref(v: &Vec<i32>) -> (r: usize)
    ensures
        r == v@.len(),
{
    v.len()
}

/// Length of an owned vector.
pub fn process_vec_by_value(v: Vec<i32>) -> (r: usize)
    ensures
        r == v@.len(),
{
    v.len()
}

/// `n` copies of `c`.
pub fn repeat_char(c: char, n: usize) -> (r: String)
    ensures
        r@ == Seq::new(n as nat, |_i: int| c),
{
    let mut r = String::new();
    let mut k: usize = 0;
    while k < n
        invariant
            k <= n,
            r@ == Seq::new(k as nat, |_i: int| c),
        decreases n - k,
    {
        crate::text::push_char(&mut r, c);
        k = k + 1;
        assert(r@ =~= Seq::new(k as nat, |_i: int| c));
    }
    r
}

} // verus!
