//! A trait with a default method, a trait implemented by hand for
//! several types, and a trait implemented for a type of the standard library.
use vstd::prelude::*;
use vstd::string::*;

verus! {

/// Something that can greet; the formal greeting is derived from it.
pub trait Greeting {
    spec fn greeting(&self) -> Seq<char>;

    fn greet(&self) -> (r: String)
        ensures
            r@ == self.greeting(),
    ;

    /// `Formally: ` followed by the greeting.
    fn formal_greeting(&self) -> (r: String)
        ensures
            r@ == "Formally: "@ + self.greeting(),
    {
        let g = self.greet();
        let mut r = String::from_str("Formally: ");
        r.append(g.as_str());
        r
    }
}

/// A person with a name.
pub struct Person {
    pub name: String,
}

/// A robot with a model number.
pub struct Robot {
    pub model: String,
}

impl Greeting for Person {
    open spec fn greeting(&self) -> Seq<char> {
        "Hello, I am "@ + self.name@
    }

    fn greet(&self) -> (r: String) {
        let mut r = String::from_str("Hello, I am ");
        r.append(self.name.as_str());
        r
    }
}

impl Greeting for Robot {
    open spec fn greeting(&self) -> Seq<char> {
        "BEEP BOOP. Unit "@ + self.model@
    }

    fn greet(&self) -> (r: String) {
        let mut r = String::from_str("BEEP BOOP. Unit ");
        r.append(self.model.as_str());
        r
    }
}

impl Greeting for String {
    /// A local trait on a foreign type: `Hello, <text>`.
    open spec fn greeting(&self) -> Seq<char> {
        "Hello, "@ + self@
    }

    fn greet(&self) -> (r: String) {
        let mut r = String::from_str("Hello, ");
        r.append(self.as_str());
        r
    }
}

/// An operation on an `i64`.
pub trait Operation {
    /// The mathematical result of applying the operation to `x`.
    spec fn result_for(&self, x: int) -> int;

    fn apply(&self, x: i64) -> (r: i64)
        requires
            i64::MIN <= self.result_for(x as int) <= i64::MAX,
        ensures
            r == self.result_for(x as int),
    ;
}

/// Adds a fixed amount.
#[derive(Debug, Clone, Copy, PartialEq, Eq, Structural)]
pub struct Add(pub i64);

/// Multiplies by a fixed factor.
#[derive(Debug, Clone, Copy, PartialEq, Eq, Structural)]
pub struct Multiply(pub i64);

impl Operation for Add {
    open spec fn result_for(&self, x: int) -> int {
        x + self.0
    }

    fn apply(&self, x: i64) -> (r: i64) {
        x + self.0
    }
}

impl Operation for Multiply {
    open spec fn result_for(&self, x: int) -> int {
        x * self.0
    }

    fn apply(&self, x: i64) -> (r: i64) {
        x * self.0
    }
}

} // verus!
