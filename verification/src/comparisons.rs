//! Equality and order written by hand: what `==` and `<` mean for a few
//! small types, stated so that verified callers can rely on them.
use vstd::prelude::*;
use core::cmp::Ordering;
use vstd::std_specs::cmp::PartialEqSpec;
use vstd::std_specs::cmp::PartialOrdSpec;

verus! {

/// An age in years; two ages are equal when their numbers are.
#[derive(Debug)]
pub struct Age(pub u8);

impl PartialEq for Age {
    fn eq(&self, other: &Self) -> (r: bool) {
        self.0 == other.0
    }
}

impl vstd::std_specs::cmp::PartialEqSpecImpl for Age {
    open spec fn obeys_eq_spec() -> bool {
        true
    }

    open spec fn eq_spec(&self, other: &Self) -> bool {
        self.0 == other.0
    }
}

/// A point in the plane; equal when both coordinates are.
#[derive(Debug)]
pub struct Point {
    pub x: i32,
    pub y: i32,
}

impl PartialEq for Point {
    fn eq(&self, other: &Self) -> (r: bool) {
        self.x == other.x && self.y == other.y
    }
}

impl vstd::std_specs::cmp::PartialEqSpecImpl for Point {
    open spec fn obeys_eq_spec() -> bool {
        true
    }

    open spec fn eq_spec(&self, other: &Self) -> bool {
        self.x == other.x && self.y == other.y
    }
}

impl Eq for Point {}

/// A user id, ordered by its number.
#[derive(Debug, Ord)]
pub struct UserId(pub u64);

impl PartialEq for UserId {
    fn eq(&self, other: &Self) -> (r: bool) {
        self.0 == other.0
    }
}

impl vstd::std_specs::cmp::PartialEqSpecImpl for UserId {
    open spec fn obeys_eq_spec() -> bool {
        true
    }

    open spec fn eq_spec(&self, other: &Self) -> bool {
        self.0 == other.0
    }
}

impl Eq for UserId {}

impl PartialOrd for UserId {
    fn partial_cmp(&self, other: &Self) -> (r: Option<Ordering>) {
        if self.0 < other.0 {
            Some(Ordering::Less)
        } else if self.0 == other.0 {
            Some(Ordering::Equal)
        } else {
            Some(Ordering::Greater)
        }
    }
}

impl vstd::std_specs::cmp::PartialOrdSpecImpl for UserId {
    open spec fn obeys_partial_cmp_spec() -> bool {
        true
    }

    open spec fn partial_cmp_spec(&self, other: &Self) -> Option<Ordering> {
        if self.0 < other.0 {
            Some(Ordering::Less)
        } else if self.0 == other.0 {
            Some(Ordering::Equal)
        } else {
            Some(Ordering::Greater)
        }
    }
}

/// Three priorities, ordered as declared: `Low < Medium < High`.
#[derive(Debug, Clone, Copy, PartialEq, Eq, Structural, Ord)]
pub enum Priority {
    Low,
    Medium,
    High,
}

impl Priority {
    /// The position of the priority in its declaration.
    pub open spec fn rank(self) -> int {
        match self {
            Priority::Low => 0,
            Priority::Medium => 1,
            Priority::High => 2,
        }
    }

    /// The position of the priority in its declaration.
    pub fn level(&self) -> (r: u8)
        ensures
            r == self.rank(),
    {
        match self {
            Priority::Low => 0,
            Priority::Medium => 1,
            Priority::High => 2,
        }
    }
}

impl PartialOrd for Priority {
    fn partial_cmp(&self, other: &Self) -> (r: Option<Ordering>) {
        let a = self.level();
        let b = other.level();
        if a < b {
            Some(Ordering::Less)
        } else if a == b {
            Some(Ordering::Equal)
        } else {
            Some(Ordering::Greater)
        }
    }
}

impl vstd::std_specs::cmp::PartialOrdSpecImpl for Priority {
    open spec fn obeys_partial_cmp_spec() -> bool {
        true
    }

    open spec fn partial_cmp_spec(&self, other: &Self) -> Option<Ordering> {
        if self.rank() < other.rank() {
            Some(Ordering::Less)
        } else if self.rank() == other.rank() {
            Some(Ordering::Equal)
        } else {
            Some(Ordering::Greater)
        }
    }
}

/// Equality of ages is an equivalence: reflexive, symmetric, transitive.
pub proof fn law_age_eq_is_equivalence(a: Age, b: Age, c: Age)
    ensures
        a.eq_spec(&a),
        a.eq_spec(&b) == b.eq_spec(&a),
        a.eq_spec(&b) && b.eq_spec(&c) ==> a.eq_spec(&c),
{
}

/// Equality of points is an equivalence, which is what `Eq` promises.
pub proof fn law_point_eq_is_equivalence(a: Point, b: Point, c: Point)
    ensures
        a.eq_spec(&a),
        a.eq_spec(&b) == b.eq_spec(&a),
        a.eq_spec(&b) && b.eq_spec(&c) ==> a.eq_spec(&c),
{
}

/// The order of user ids is total and consistent with their equality:
/// every pair compares, `Less` one way is `Greater` the other, `Equal`
/// means equal, and `Less` is transitive.
pub proof fn law_user_id_total_order(a: UserId, b: UserId, c: UserId)
    ensures
        a.partial_cmp_spec(&b) is Some,
        (a.partial_cmp_spec(&b) == Some(Ordering::Less)) == (b.partial_cmp_spec(&a) == Some(
            Ordering::Greater,
        )),
        (a.partial_cmp_spec(&b) == Some(Ordering::Equal)) == a.eq_spec(&b),
        a.partial_cmp_spec(&b) == Some(Ordering::Less) && b.partial_cmp_spec(&c) == Some(
            Ordering::Less,
        ) ==> a.partial_cmp_spec(&c) == Some(Ordering::Less),
{
}

/// Priorities are totally ordered by their declaration: `Low < Medium <
/// High`, `Equal` only for the same priority, and `Less` is transitive.
pub proof fn law_priority_total_order(a: Priority, b: Priority, c: Priority)
    ensures
        Priority::Low.partial_cmp_spec(&Priority::Medium) == Some(Ordering::Less),
        Priority::Medium.partial_cmp_spec(&Priority::High) == Some(Ordering::Less),
        (a.partial_cmp_spec(&b) == Some(Ordering::Equal)) == (a == b),
        (a.partial_cmp_spec(&b) == Some(Ordering::Less)) == (b.partial_cmp_spec(&a) == Some(
            Ordering::Greater,
        )),
        a.partial_cmp_spec(&b) == Some(Ordering::Less) && b.partial_cmp_spec(&c) == Some(
            Ordering::Less,
        ) ==> a.partial_cmp_spec(&c) == Some(Ordering::Less),
{
}

/// Two points are equal exactly when their `x` coordinates are equal and
/// their `y` coordinates are equal; points that differ in either coordinate
/// are never equal.
pub proof fn law_point_eq_is_coordinatewise(a: Point, b: Point)
    ensures
        a.eq_spec(&b) <==> (a.x == b.x && a.y == b.y),
        a.x != b.x ==> !a.eq_spec(&b),
        a.y != b.y ==> !a.eq_spec(&b),
{
}

} // verus!
