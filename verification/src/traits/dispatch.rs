//! Static dispatch through generics, a closed set of implementations
//! chosen at run time, traits as return types, and associated types.
use vstd::prelude::*;
use vstd::string::*;
use crate::text::{decimal, push_decimal, str_eq};
use super::concepts::{Add, Multiply, Operation};

verus! {

/// Applies an operation given by value (`impl Operation`).
pub fn with_impl_trait(op: impl Operation, x: i64) -> (r: i64)
    requires
        i64::MIN <= op.result_for(x as int) <= i64::MAX,
    ensures
        r == op.result_for(x as int),
{
    op.apply(x)
}

/// Applies an operation given by a generic parameter.
pub fn with_generic<T: Operation>(op: T, x: i64) -> (r: i64)
    requires
        i64::MIN <= op.result_for(x as int) <= i64::MAX,
    ensures
        r == op.result_for(x as int),
{
    op.apply(x)
}

/// Applies an operation whose bound is written in a `where` clause.
pub fn with_where<T>(op: T, x: i64) -> (r: i64) where T: Operation
    requires
        i64::MIN <= op.result_for(x as int) <= i64::MAX,
    ensures
        r == op.result_for(x as int),
{
    op.apply(x)
}

/// Applies an operation through a trait object.
pub fn with_dyn(op: &dyn Operation, x: i64) -> (r: i64)
    requires
        i64::MIN <= op.result_for(x as int) <= i64::MAX,
    ensures
        r == op.result_for(x as int),
{
    op.apply(x)
}

/// Applies an operation given by reference.
pub fn with_ref<T: Operation>(op: &T, x: i64) -> (r: i64)
    requires
        i64::MIN <= op.result_for(x as int) <= i64::MAX,
    ensures
        r == op.result_for(x as int),
{
    op.apply(x)
}

/// Applies an operation held in a box behind a trait object.
pub fn with_box_dyn(op: Box<dyn Operation>, x: i64) -> (r: i64)
    requires
        i64::MIN <= op.result_for(x as int) <= i64::MAX,
    ensures
        r == op.result_for(x as int),
{
    op.apply(x)
}

/// One of the known operations, chosen at run time.
#[derive(Debug, Clone, Copy, PartialEq, Eq, Structural)]
pub enum AnyOperation {
    Add(Add),
    Multiply(Multiply),
}

impl Operation for AnyOperation {
    open spec fn result_for(&self, x: int) -> int {
        match self {
            AnyOperation::Add(a) => a.result_for(x),
            AnyOperation::Multiply(m) => m.result_for(x),
        }
    }

    fn apply(&self, x: i64) -> (r: i64) {
        match self {
            AnyOperation::Add(a) => a.apply(x),
            AnyOperation::Multiply(m) => m.apply(x),
        }
    }
}

/// Always the same concrete operation: adds 100.
pub fn create_adder() -> (op: Add)
    ensures
        op == Add(100),
{
    Add(100)
}

/// `add` gives `Add(10)`, `mult` gives `Multiply(5)`, anything else the
/// identity `Add(0)`.
pub fn create_by_type(type_: &str) -> (op: AnyOperation)
    ensures
        op == (if type_@ == "add"@ {
            AnyOperation::Add(Add(10))
        } else if type_@ == "mult"@ {
            AnyOperation::Multiply(Multiply(5))
        } else {
            AnyOperation::Add(Add(0))
        }),
{
    if str_eq(type_, "add") {
        AnyOperation::Add(Add(10))
    } else if str_eq(type_, "mult") {
        AnyOperation::Multiply(Multiply(5))
    } else {
        AnyOperation::Add(Add(0))
    }
}

/// A callable that doubles its argument.
#[derive(Debug, Clone, Copy, PartialEq, Eq, Structural)]
pub struct Doubler;

impl Doubler {
    pub fn call(&self, x: i64) -> (r: i64)
        requires
            i64::MIN <= 2 * x <= i64::MAX,
        ensures
            r == 2 * x,
    {
        x * 2
    }
}

/// The callable returned by [`create_closure`].
pub fn create_closure() -> (f: Doubler)
    ensures
        f == Doubler,
{
    Doubler
}

/// Something that can be drawn as text.
pub trait Drawable {
    spec fn drawing(&self) -> Seq<char>;

    fn draw(&self) -> (r: String)
        ensures
            r@ == self.drawing(),
    ;
}

/// Drawn as `○`.
pub struct Circle;

/// Drawn as `□`.
pub struct Square;

impl Drawable for Circle {
    open spec fn drawing(&self) -> Seq<char> {
        "○"@
    }

    fn draw(&self) -> (r: String) {
        String::from_str("○")
    }
}

impl Drawable for Square {
    open spec fn drawing(&self) -> Seq<char> {
        "□"@
    }

    fn draw(&self) -> (r: String) {
        String::from_str("□")
    }
}

/// Draws every shape, in order, each through its trait object.
pub fn draw_all(shapes: &Vec<Box<dyn Drawable>>) -> (r: Vec<String>)
    ensures
        r@.len() == shapes@.len(),
        forall|i: int| 0 <= i < shapes@.len() ==> #[trigger] r@[i]@ == shapes@[i].drawing(),
{
    let mut r: Vec<String> = Vec::new();
    let mut i: usize = 0;
    while i < shapes.len()
        invariant
            i <= shapes@.len(),
            r@.len() == i,
            forall|j: int| 0 <= j < i ==> #[trigger] r@[j]@ == shapes@[j].drawing(),
        decreases shapes@.len() - i,
    {
        r.push(shapes[i].draw());
        i = i + 1;
    }
    r
}

/// A conversion whose input, output and error types are chosen by each
/// implementation.
pub trait TripleTransform {
    type Input;
    type Output;
    type Error;

    fn transform(&self, input: Self::Input) -> Result<Self::Output, Self::Error>;
}

/// Converts non-negative integers to text and refuses negative ones.
pub struct SafeConverter;

impl SafeConverter {
    /// `Safe value: <n>` for `n >= 0`, `Negatives not allowed` otherwise.
    pub fn convert(&self, input: i32) -> (r: Result<String, String>)
        ensures
            input < 0 ==> (r matches Err(e) && e@ == "Negatives not allowed"@),
            input >= 0 ==> (r matches Ok(s) && s@ == "Safe value: "@ + decimal(input as nat)),
    {
        if input < 0 {
            Err(String::from_str("Negatives not allowed"))
        } else {
            let mut s = String::from_str("Safe value: ");
            push_decimal(&mut s, input as u64);
            Ok(s)
        }
    }
}

impl TripleTransform for SafeConverter {
    type Input = i32;
    type Output = String;
    type Error = String;

    fn transform(&self, input: i32) -> (r: Result<String, String>)
        ensures
            input < 0 ==> (r matches Err(e) && e@ == "Negatives not allowed"@),
            input >= 0 ==> (r matches Ok(s) && s@ == "Safe value: "@ + decimal(input as nat)),
    {
        self.convert(input)
    }
}

} // verus!
