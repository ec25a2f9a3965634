//! Stack values and heap allocations side by side.
use vstd::prelude::*;
use vstd::string::*;

verus! {

/// The three heap values of the layout demonstration: a boxed integer, a
/// string and a vector.
pub fn heap_values() -> (r: (Box<i32>, String, Vec<i32>))
    ensures
        *r.0 == 42,
        r.1@ == "hello"@,
        r.2@ == seq![1i32, 2, 3],
{
    let box1 = Box::new(42i32);
    let string = String::from_str("hello");
    let vec = vec![1i32, 2, 3];
    (box1, string, vec)
}

/// Stack values (`u64`, `u32`, `bool`) and heap values (`Box`, `String`,
/// `Vec`) created in one frame; nothing is returned.
pub fn example() {
    let _a: u64 = 100;
    let _b: u32 = 200;
    let _c: bool = true;
    let (_box1, _string, _vec) = heap_values();
}

/// Same layout demonstration as [`example`].
pub fn ejemplo() {
    let _a: u64 = 100;
    let _b: u32 = 200;
    let _c: bool = true;
    let (_box1, _string, _vec) = heap_values();
}

} // verus!
