//! Associated types in a container trait, methods only for some
//! instantiations of a generic type, static trait methods called by path,
//! and one method name provided by two traits.
use vstd::prelude::*;
use vstd::string::*;

verus! {

/// A container whose item type is fixed by each implementation.
pub trait Container {
    type Item;

    spec fn contents(&self) -> Seq<Self::Item>;

    /// The most recently put item.
    fn get(&self) -> (r: Option<&Self::Item>)
        ensures
            self.contents().len() == 0 ==> r is None,
            self.contents().len() > 0 ==> r == Some(&self.contents().last()),
    ;

    fn put(&mut self, item: Self::Item)
        ensures
            final(self).contents() == old(self).contents().push(item),
    ;
}

/// A stack backed by a vector.
pub struct Stack<T> {
    pub items: Vec<T>,
}

impl<T> Container for Stack<T> {
    type Item = T;

    open spec fn contents(&self) -> Seq<T> {
        self.items@
    }

    fn get(&self) -> (r: Option<&T>) {
        if self.items.len() == 0 {
            None
        } else {
            Some(&self.items[self.items.len() - 1])
        }
    }

    fn put(&mut self, item: T) {
        self.items.push(item);
    }
}

/// A generic wrapper around one value.
pub struct Wrapper<T> {
    pub value: T,
}

impl<T> Wrapper<T> {
    pub fn new(value: T) -> (w: Self)
        ensures
            w.value == value,
    {
        Wrapper { value }
    }

    pub fn get(&self) -> (r: &T)
        ensures
            *r == self.value,
    {
        &self.value
    }
}

impl Wrapper<i32> {
    /// Only for `Wrapper<i32>`: twice the value.
    pub fn double(&self) -> (r: i32)
        requires
            i32::MIN <= 2 * self.value <= i32::MAX,
        ensures
            r == 2 * self.value,
    {
        self.value * 2
    }

    /// Only for `Wrapper<i32>`: whether the value is above zero.
    pub fn is_positive(&self) -> (r: bool)
        ensures
            r == (self.value > 0),
    {
        self.value > 0
    }
}

impl Wrapper<String> {
    /// Only for `Wrapper<String>`: the value in upper case with `!`.
    pub fn shout(&self) -> (r: String)
        ensures
            r@ == crate::text::uppercase_of(self.value@) + "!"@,
    {
        crate::text::shout(self.value.as_str())
    }

    /// Only for `Wrapper<String>`: byte length of the value.
    pub fn len(&self) -> (r: usize)
        requires
            crate::slices::utf8_len(self.value@) <= usize::MAX,
        ensures
            r == crate::slices::utf8_len(self.value@),
    {
        crate::slices::byte_len(self.value.as_str())
    }
}

/// A trait with an instance method and a static method.
pub trait Calculator {
    spec fn spec_value(&self) -> i32;

    fn value(&self) -> (r: i32)
        ensures
            r == self.spec_value(),
    ;

    fn add(a: i32, b: i32) -> (r: i32)
        requires
            i32::MIN <= a + b <= i32::MAX,
        ensures
            r == a + b,
    ;
}

/// A calculator holding a value.
pub struct Calc {
    pub value: i32,
}

impl Calculator for Calc {
    open spec fn spec_value(&self) -> i32 {
        self.value
    }

    fn value(&self) -> (r: i32) {
        self.value
    }

    fn add(a: i32, b: i32) -> (r: i32) {
        a + b
    }
}

/// A mapping given as a static method.
pub trait Mapper {
    spec fn mapped(x: i32) -> int;

    spec fn maps(x: i32) -> bool;

    fn map(x: i32) -> (r: i32)
        requires
            Self::maps(x),
        ensures
            r == Self::mapped(x),
    ;
}

/// Doubles its argument.
pub struct Doubler;

impl Mapper for Doubler {
    open spec fn mapped(x: i32) -> int {
        2 * x
    }

    open spec fn maps(x: i32) -> bool {
        i32::MIN <= 2 * x <= i32::MAX
    }

    fn map(x: i32) -> (r: i32) {
        x * 2
    }
}

/// Applies `T::map` to every number, naming the method by its path.
pub fn apply<T: Mapper>(nums: Vec<i32>) -> (r: Vec<i32>)
    requires
        forall|i: int| 0 <= i < nums@.len() ==> T::maps(#[trigger] nums@[i]),
    ensures
        r@.len() == nums@.len(),
        forall|i: int| 0 <= i < nums@.len() ==> #[trigger] r@[i] == T::mapped(nums@[i]),
{
    let mut r: Vec<i32> = Vec::new();
    let mut i: usize = 0;
    while i < nums.len()
        invariant
            i <= nums@.len(),
            r@.len() == i,
            forall|i: int| 0 <= i < nums@.len() ==> T::maps(#[trigger] nums@[i]),
            forall|j: int| 0 <= j < i ==> #[trigger] r@[j] == T::mapped(nums@[j]),
        decreases nums@.len() - i,
    {
        r.push(T::map(nums[i]));
        i = i + 1;
    }
    r
}

/// First of two traits with a method `foo`.
pub trait TraitA {
    /// The text that `TraitA::foo` answers with.
    spec fn text_a(&self) -> Seq<char>;

    fn foo(&self) -> (r: &'static str)
        ensures
            r@ == self.text_a(),
    ;
}

/// Second of two traits with a method `foo`.
pub trait TraitB {
    /// The text that `TraitB::foo` answers with.
    spec fn text_b(&self) -> Seq<char>;

    fn foo(&self) -> (r: &'static str)
        ensures
            r@ == self.text_b(),
    ;
}

/// Implements both traits; callers pick one by path.
pub struct MyStruct;

impl TraitA for MyStruct {
    open spec fn text_a(&self) -> Seq<char> {
        "I come from TraitA"@
    }

    fn foo(&self) -> &'static str {
        "I come from TraitA"
    }
}

impl TraitB for MyStruct {
    open spec fn text_b(&self) -> Seq<char> {
        "I come from TraitB"@
    }

    fn foo(&self) -> &'static str {
        "I come from TraitB"
    }
}

/// `TraitA::foo` of [`MyStruct`].
pub fn foo_from_a(s: &MyStruct) -> (r: &'static str)
    ensures
        r@ == "I come from TraitA"@,
{
    TraitA::foo(s)
}

/// `TraitB::foo` of [`MyStruct`].
pub fn foo_from_b(s: &MyStruct) -> (r: &'static str)
    ensures
        r@ == "I come from TraitB"@,
{
    TraitB::foo(s)
}

/// Methods added to `str` by a trait of this crate.
pub trait StringExt {
    /// The text in upper case followed by `!`.
    fn shout(&self) -> (r: String);

    /// Whether the text ends with `?`.
    fn is_question(&self) -> (r: bool);
}

impl StringExt for str {
    fn shout(&self) -> (r: String)
        ensures
            r@ == crate::text::uppercase_of(self@) + "!"@,
    {
        crate::text::shout(self)
    }

    fn is_question(&self) -> (r: bool)
        ensures
            r <==> self@.len() > 0 && self@.last() == '?',
    {
        crate::text::ends_with_char(self, '?')
    }
}

} // verus!
