//! Closures: factories that capture a value, counters that keep state,
//! operations picked by name, validators that hold a strategy, and a
//! middleware that wraps a function.
use vstd::prelude::*;

verus! {

/// Whether `v` fits in an `i32`.
pub open spec fn fits_i32(v: int) -> bool {
    i32::MIN <= v <= i32::MAX
}

/// A closure that multiplies its argument by `factor`.
pub fn make_multiplier(factor: i32) -> (f: impl Fn(i32) -> i32)
    ensures
        forall|x: i32| fits_i32(x * factor) ==> #[trigger] f.requires((x,)),
        forall|x: i32, y: i32| f.ensures((x,), y) ==> y == x * factor,
{
    move |x: i32| -> (y: i32)
        requires
            fits_i32(x * factor),
        ensures
            y == x * factor,
        { x * factor }
}

/// A closure that adds `x` to its argument (a partial application of `+`).
pub fn create_adder(x: i32) -> (f: impl Fn(i32) -> i32)
    ensures
        forall|y: i32| fits_i32(x + y) ==> #[trigger] f.requires((y,)),
        forall|y: i32, r: i32| f.ensures((y,), r) ==> r == x + y,
{
    move |y: i32| -> (r: i32)
        requires
            fits_i32(x + y),
        ensures
            r == x + y,
        { x + y }
}

/// Calls a producer of text and hands back what it produced.
pub fn greet<F: Fn() -> String>(f: F) -> (r: String)
    requires
        f.requires(()),
    ensures
        f.ensures((), r),
{
    f()
}

/// The greeting that `greet` is usually handed.
pub fn say_hello() -> (r: String)
    ensures
        r@ == "Hello, world!"@,
{
    String::from_str("Hello, world!")
}

/// Wraps `func` in a closure that calls it with the same argument and
/// answers what it answered.
pub fn with_logging<T, R, F: Fn(T) -> R>(func: F) -> (g: impl Fn(T) -> R)
    ensures
        forall|arg: T| func.requires((arg,)) ==> #[trigger] g.requires((arg,)),
        forall|arg: T, r: R| g.ensures((arg,), r) ==> func.ensures((arg,), r),
{
    move |arg: T| -> (r: R)
        requires
            func.requires((arg,)),
        ensures
            func.ensures((arg,), r),
        { func(arg) }
}

/// A binary operation picked by name.
#[derive(Debug, Clone, Copy, PartialEq, Eq, Structural)]
pub enum BinaryOp {
    Add,
    Mul,
    Zero,
}

impl BinaryOp {
    /// The value of the operation on `a` and `b`.
    pub open spec fn value(self, a: int, b: int) -> int {
        match self {
            BinaryOp::Add => a + b,
            BinaryOp::Mul => a * b,
            BinaryOp::Zero => 0,
        }
    }

    pub fn apply(&self, a: i32, b: i32) -> (r: i32)
        requires
            fits_i32(self.value(a as int, b as int)),
        ensures
            r == self.value(a as int, b as int),
    {
        match self {
            BinaryOp::Add => a + b,
            BinaryOp::Mul => a * b,
            BinaryOp::Zero => 0,
        }
    }
}

/// `"add"` gives addition, `"mul"` multiplication, any other name an
/// operation that always answers 0.
pub fn create_operation(op: &str) -> (r: BinaryOp)
    ensures
        r == (if op@ == "add"@ {
            BinaryOp::Add
        } else if op@ == "mul"@ {
            BinaryOp::Mul
        } else {
            BinaryOp::Zero
        }),
{
    if crate::text::str_eq(op, "add") {
        BinaryOp::Add
    } else if crate::text::str_eq(op, "mul") {
        BinaryOp::Mul
    } else {
        BinaryOp::Zero
    }
}

/// A counter that starts at a value and counts up by one on each call.
pub struct Counter {
    pub count: i32,
}

/// A counter whose first `next` answers `start + 1`.
pub fn create_counter(start: i32) -> (c: Counter)
    ensures
        c.count == start,
{
    Counter { count: start }
}

impl Counter {
    pub fn next(&mut self) -> (r: i32)
        requires
            old(self).count < i32::MAX,
        ensures
            final(self).count == old(self).count + 1,
            r == final(self).count,
    {
        self.count = self.count + 1;
        self.count
    }
}

/// A check on text, held as a strategy.
pub struct Validator<F: Fn(&str) -> bool> {
    pub validate: F,
}

impl<F: Fn(&str) -> bool> Validator<F> {
    pub fn new(validate: F) -> (v: Self)
        ensures
            v.validate == validate,
    {
        Validator { validate }
    }

    /// What the held strategy answers for `s`.
    pub fn is_valid(&self, s: &str) -> (r: bool)
        requires
            (self.validate).requires((s,)),
        ensures
            (self.validate).ensures((s,), r),
    {
        (self.validate)(s)
    }
}

/// Whether a character has Unicode's numeric property, as
/// `char::is_numeric` reports it.
pub uninterp spec fn numeric_char(c: char) -> bool;

/// Calls `char::is_numeric`. Its result depends on the character alone; of
/// Unicode's tables the contract states only that ASCII digits are numeric
/// and ASCII letters are not, as the documentation's examples show.
#[verifier::external_body]
fn char_is_numeric(c: char) -> (r: bool)
    ensures
        r == numeric_char(c),
        '0' <= c <= '9' ==> r,
        ('a' <= c <= 'z' || 'A' <= c <= 'Z') ==> !r,
{
    c.is_numeric()
}

/// Whether every character of `s` is numeric.
pub fn all_numeric(s: &str) -> (r: bool)
    ensures
        r <==> forall|i: int| 0 <= i < s@.len() ==> numeric_char(#[trigger] s@[i]),
{
    let n = s.unicode_len();
    let mut k: usize = 0;
    while k < n
        invariant
            n == s@.len(),
            k <= n,
            forall|i: int| 0 <= i < k ==> numeric_char(#[trigger] s@[i]),
        decreases n - k,
    {
        if !char_is_numeric(s.get_char(k)) {
            return false;
        }
        k = k + 1;
    }
    true
}

/// Whether `s` is longer than five bytes.
pub fn longer_than_five(s: &str) -> (r: bool)
    ensures
        r <==> s.len() > 5,
{
    s.len() > 5
}

/// A value computed on first use and kept for every later use.
#[verifier::reject_recursive_types(T)]
pub struct Lazy<T, F: Fn() -> T> {
    value: Option<T>,
    initializer: F,
}

impl<T, F: Fn() -> T> Lazy<T, F> {
    /// The value kept so far, if any.
    pub closed spec fn cached(&self) -> Option<T> {
        self.value
    }

    /// The function that computes the value.
    pub closed spec fn initializer(&self) -> F {
        self.initializer
    }

    pub fn new(initializer: F) -> (l: Self)
        ensures
            l.cached() is None,
            l.initializer() == initializer,
    {
        Lazy { value: None, initializer }
    }

    /// The value: computed by the initializer on the first call, the kept
    /// one afterwards.
    pub fn get(&mut self) -> (r: &T)
        requires
            old(self).initializer().requires(()),
        ensures
            final(self).initializer() == old(self).initializer(),
            final(self).cached() == Some(*r),
            old(self).cached() matches Some(v) ==> *r == v,
            old(self).cached() is None ==> old(self).initializer().ensures((), *r),
    {
        if self.value.is_none() {
            self.value = Some((self.initializer)());
        }
        self.value.as_ref().unwrap()
    }
}

/// The operation named `add` computes the sum of its operands, `mul` their
/// product, and any other name 0, for all operands.
pub proof fn law_operations_by_name(a: int, b: int)
    ensures
        BinaryOp::Add.value(a, b) == a + b,
        BinaryOp::Mul.value(a, b) == a * b,
        BinaryOp::Zero.value(a, b) == 0,
{
}

} // verus!
