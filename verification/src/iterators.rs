//! Hand-written iterators (a cursor over owned or borrowed items) and the
//! classic adapters and consumers (map, filter, take, skip, enumerate,
//! chain, zip, sum, fold, find, any, all, count) over integer slices.
use vstd::prelude::*;
use crate::slices::seq_sum;

verus! {

/// What a cursor over `items` positioned at `index` has left to yield.
pub open spec fn remaining<A>(items: Seq<A>, index: int) -> Seq<A> {
    if index <= items.len() {
        items.skip(index)
    } else {
        Seq::empty()
    }
}

/// An iterator that owns its items and yields them by value.
pub struct MyIntoIter {
    pub items: Vec<i32>,
    pub index: usize,
}

impl MyIntoIter {
    /// A cursor at the first item.
    pub fn new(items: Vec<i32>) -> (it: Self)
        ensures
            it.items@ == items@,
            it.index == 0,
    {
        MyIntoIter { items, index: 0 }
    }

    /// The items not yet yielded.
    pub open spec fn rest(&self) -> Seq<i32> {
        remaining(self.items@, self.index as int)
    }

    /// Yields the next item and advances, or `None` once exhausted.
    pub fn next(&mut self) -> (r: Option<i32>)
        ensures
            final(self).items@ == old(self).items@,
            old(self).rest().len() > 0 ==> r == Some(old(self).rest()[0]) && final(self).rest()
                == old(self).rest().drop_first(),
            old(self).rest().len() == 0 ==> r is None && final(self).rest() == old(self).rest(),
    {
        if self.index < self.items.len() {
            let result = self.items[self.index];
            self.index = self.index + 1;
            assert(self.rest() =~= old(self).rest().drop_first());
            Some(result)
        } else {
            None
        }
    }
}

/// An iterator over owned strings that yields clones of them.
pub struct MyStringIter {
    pub items: Vec<String>,
    pub index: usize,
}

impl MyStringIter {
    /// The items not yet yielded.
    pub open spec fn rest(&self) -> Seq<String> {
        remaining(self.items@, self.index as int)
    }

    /// Yields a copy of the next string and advances, or `None` once exhausted.
    pub fn next(&mut self) -> (r: Option<String>)
        ensures
            final(self).items@ == old(self).items@,
            old(self).rest().len() > 0 ==> r == Some(old(self).rest()[0]) && final(self).rest()
                == old(self).rest().drop_first(),
            old(self).rest().len() == 0 ==> r is None && final(self).rest() == old(self).rest(),
    {
        if self.index < self.items.len() {
            let result = self.items[self.index].clone();
            self.index = self.index + 1;
            assert(self.rest() =~= old(self).rest().drop_first());
            Some(result)
        } else {
            None
        }
    }
}

/// A container that hands out an owning iterator over its items.
pub struct MyData {
    pub items: Vec<i32>,
}

impl MyData {
    pub fn new(items: Vec<i32>) -> (d: Self)
        ensures
            d.items@ == items@,
    {
        MyData { items }
    }

    /// Consumes the container into a cursor at its first item.
    pub fn into_iter(self) -> (it: MyIntoIter)
        ensures
            it.rest() == self.items@,
            it.index == 0,
    {
        let it = MyIntoIter { items: self.items, index: 0 };
        assert(it.rest() =~= self.items@);
        it
    }
}

/// A borrowing iterator that yields references into a vector.
pub struct MyIter<'a> {
    pub items: &'a Vec<i32>,
    pub index: usize,
}

impl<'a> MyIter<'a> {
    /// The items not yet yielded.
    pub open spec fn rest(&self) -> Seq<i32> {
        remaining(self.items@, self.index as int)
    }

    /// Yields a reference to the next item and advances.
    pub fn next(&mut self) -> (r: Option<&'a i32>)
        ensures
            final(self).items == old(self).items,
            old(self).rest().len() > 0 ==> r == Some(&old(self).rest()[0]) && final(self).rest()
                == old(self).rest().drop_first(),
            old(self).rest().len() == 0 ==> r is None && final(self).rest() == old(self).rest(),
    {
        if self.index < self.items.len() {
            let result = &self.items[self.index];
            self.index = self.index + 1;
            assert(self.rest() =~= old(self).rest().drop_first());
            Some(result)
        } else {
            None
        }
    }
}

/// A container with the three iteration styles: by reference, by mutable
/// reference and by value.
pub struct MyContainer {
    pub items: Vec<i32>,
}

impl MyContainer {
    pub fn new(items: Vec<i32>) -> (c: Self)
        ensures
            c.items@ == items@,
    {
        MyContainer { items }
    }

    /// Iteration by shared reference, from the first item.
    pub fn iter(&self) -> (it: MyIter<'_>)
        ensures
            it.rest() == self.items@,
            it.items == &self.items,
    {
        let it = MyIter { items: &self.items, index: 0 };
        assert(it.rest() =~= self.items@);
        it
    }

    /// The items as a mutable slice, for in-place modification.
    pub fn iter_mut(&mut self) -> (s: &mut [i32])
        ensures
            s@ == old(self).items@,
            final(self).items@ == final(s)@,
    {
        self.items.as_mut_slice()
    }

    /// Consumes the container into a cursor at its first item.
    pub fn into_iter(self) -> (it: MyIntoIter)
        ensures
            it.rest() == self.items@,
    {
        let it = MyIntoIter { items: self.items, index: 0 };
        assert(it.rest() =~= self.items@);
        it
    }
}

/// `x` is even.
pub open spec fn is_even(x: i32) -> bool {
    x % 2 == 0
}

/// Twice `x`.
pub open spec fn double(x: i32) -> i32 {
    (2 * x) as i32
}

/// No element's double leaves the `i32` range.
pub open spec fn doubles_fit(s: Seq<i32>) -> bool {
    forall|i: int| 0 <= i < s.len() ==> i32::MIN <= 2 * #[trigger] s[i] <= i32::MAX
}

/// Every element doubled (`iter().map(|x| x * 2)`).
pub fn doubled(v: &[i32]) -> (r: Vec<i32>)
    requires
        doubles_fit(v@),
    ensures
        r@ == v@.map_values(|x: i32| double(x)),
{
    let mut r: Vec<i32> = Vec::new();
    let mut i: usize = 0;
    while i < v.len()
        invariant
            i <= v@.len(),
            doubles_fit(v@),
            r@ == v@.take(i as int).map_values(|x: i32| double(x)),
        decreases v@.len() - i,
    {
        let x = v[i];
        r.push(x * 2);
        i = i + 1;
        assert(r@ =~= v@.take(i as int).map_values(|x: i32| double(x)));
    }
    assert(v@.take(v@.len() as int) =~= v@);
    r
}

/// Every element doubled, plus one (`map(|x| x * 2).map(|x| x + 1)`).
pub fn doubled_plus_one(v: &[i32]) -> (r: Vec<i32>)
    requires
        forall|i: int| 0 <= i < v@.len() ==> i32::MIN <= 2 * #[trigger] v@[i] + 1 <= i32::MAX,
        doubles_fit(v@),
    ensures
        r@ == v@.map_values(|x: i32| (double(x) + 1) as i32),
{
    let mut r: Vec<i32> = Vec::new();
    let mut i: usize = 0;
    while i < v.len()
        invariant
            i <= v@.len(),
            forall|i: int| 0 <= i < v@.len() ==> i32::MIN <= 2 * #[trigger] v@[i] + 1 <= i32::MAX,
            r@ == v@.take(i as int).map_values(|x: i32| (double(x) + 1) as i32),
        decreases v@.len() - i,
    {
        let x = v[i];
        r.push(x * 2 + 1);
        i = i + 1;
        assert(r@ =~= v@.take(i as int).map_values(|x: i32| (double(x) + 1) as i32));
    }
    assert(v@.take(v@.len() as int) =~= v@);
    r
}

/// The even elements, in order (`filter(|x| x % 2 == 0)`).
pub fn evens(v: &[i32]) -> (r: Vec<i32>)
    ensures
        r@ == v@.filter(|x: i32| is_even(x)),
{
    let mut r: Vec<i32> = Vec::new();
    let mut i: usize = 0;
    assert(v@.take(0) =~= Seq::<i32>::empty());
    proof {
        reveal(Seq::filter);
    }
    while i < v.len()
        invariant
            i <= v@.len(),
            r@ == v@.take(i as int).filter(|x: i32| is_even(x)),
        decreases v@.len() - i,
    {
        let x = v[i];
        proof {
            reveal(Seq::filter);
            assert(v@.take(i + 1).drop_last() =~= v@.take(i as int));
        }
        if x % 2 == 0 {
            r.push(x);
        }
        i = i + 1;
    }
    assert(v@.take(v@.len() as int) =~= v@);
    r
}

/// Every element kept by a filter comes from the filtered sequence.
pub proof fn lemma_filter_from(s: Seq<i32>, pred: spec_fn(i32) -> bool)
    ensures
        forall|k: int| 0 <= k < s.filter(pred).len() ==> s.contains(#[trigger] s.filter(pred)[k]),
    decreases s.len(),
{
    reveal(Seq::filter);
    if s.len() > 0 {
        let sub = s.drop_last().filter(pred);
        lemma_filter_from(s.drop_last(), pred);
        assert forall|k: int| 0 <= k < s.filter(pred).len() implies s.contains(
            #[trigger] s.filter(pred)[k],
        ) by {
            if k < sub.len() {
                let x = sub[k];
                assert(s.drop_last().contains(x));
                let j = choose|j: int| 0 <= j < s.drop_last().len() && s.drop_last()[j] == x;
                assert(s[j] == x);
            } else {
                assert(s[s.len() - 1] == s.filter(pred)[k]);
            }
        }
    }
}

/// The even elements, each doubled (`filter(even).map(|x| x * 2)`).
pub fn evens_doubled(v: &[i32]) -> (r: Vec<i32>)
    requires
        doubles_fit(v@),
    ensures
        r@ == v@.filter(|x: i32| is_even(x)).map_values(|x: i32| double(x)),
{
    let e = evens(v);
    proof {
        lemma_filter_from(v@, |x: i32| is_even(x));
        assert forall|i: int| 0 <= i < e@.len() implies i32::MIN <= 2 * #[trigger] e@[i]
            <= i32::MAX by {
            assert(v@.contains(e@[i]));
        }
    }
    doubled(e.as_slice())
}

/// The squares of the even elements, at most `n` of them
/// (`filter(even).map(|x| x * x).take(n)`).
pub fn squares_of_evens(v: &[i32], n: usize) -> (r: Vec<i32>)
    requires
        forall|i: int| 0 <= i < v@.len() ==> -46340 <= #[trigger] v@[i] <= 46340,
    ensures
        ({
            let sq = v@.filter(|x: i32| is_even(x)).map_values(|x: i32| (x * x) as i32);
            r@ == if n <= sq.len() {
                sq.take(n as int)
            } else {
                sq
            }
        }),
{
    let e = evens(v);
    let ghost sq = v@.filter(|x: i32| is_even(x)).map_values(|x: i32| (x * x) as i32);
    let mut r: Vec<i32> = Vec::new();
    let mut i: usize = 0;
    proof {
        lemma_filter_from(v@, |x: i32| is_even(x));
    }
    while i < e.len() && i < n
        invariant
            i <= e@.len(),
            i <= n,
            e@ == v@.filter(|x: i32| is_even(x)),
            sq == e@.map_values(|x: i32| (x * x) as i32),
            forall|i: int| 0 <= i < v@.len() ==> -46340 <= #[trigger] v@[i] <= 46340,
            forall|k: int| 0 <= k < e@.len() ==> v@.contains(#[trigger] e@[k]),
            r@ == sq.take(i as int),
        decreases e@.len() - i,
    {
        let x = e[i];
        proof {
            let k = choose|k: int| 0 <= k < v@.len() && v@[k] == x;
            assert(-46340 <= v@[k] <= 46340);
            assert(x * x <= 46340 * 46340) by (nonlinear_arith)
                requires
                    -46340 <= x <= 46340,
            ;
            assert(x * x >= 0) by (nonlinear_arith);
        }
        r.push(x * x);
        i = i + 1;
        assert(r@ =~= sq.take(i as int));
    }
    proof {
        if n > sq.len() {
            assert(sq.take(i as int) =~= sq);
        }
    }
    r
}

/// The first `n` elements, or all of them (`take(n)`).
pub fn take_n(v: &[i32], n: usize) -> (r: Vec<i32>)
    ensures
        r@ == if n <= v@.len() {
            v@.take(n as int)
        } else {
            v@
        },
{
    let mut r: Vec<i32> = Vec::new();
    let mut i: usize = 0;
    while i < v.len() && i < n
        invariant
            i <= v@.len(),
            i <= n,
            r@ == v@.take(i as int),
        decreases v@.len() - i,
    {
        r.push(v[i]);
        i = i + 1;
        assert(r@ =~= v@.take(i as int));
    }
    proof {
        if n > v@.len() {
            assert(v@.take(i as int) =~= v@);
        }
    }
    r
}

/// All elements after the first `n` (`skip(n)`).
pub fn skip_n(v: &[i32], n: usize) -> (r: Vec<i32>)
    ensures
        r@ == if n <= v@.len() {
            v@.skip(n as int)
        } else {
            Seq::<i32>::empty()
        },
{
    let mut r: Vec<i32> = Vec::new();
    if n >= v.len() {
        return r;
    }
    let mut i: usize = n;
    while i < v.len()
        invariant
            n <= i <= v@.len(),
            r@ == v@.subrange(n as int, i as int),
        decreases v@.len() - i,
    {
        r.push(v[i]);
        i = i + 1;
        assert(r@ =~= v@.subrange(n as int, i as int));
    }
    assert(v@.subrange(n as int, v@.len() as int) =~= v@.skip(n as int));
    r
}

/// The integers `lo, lo + 1, ...` below `hi`, skipping the first `skip` and
/// keeping at most `take` (`(lo..hi).skip(skip).take(take)`).
pub fn range_skip_take(lo: i32, hi: i32, skip: usize, take: usize) -> (r: Vec<i32>)
    ensures
        ({
            let start = lo + skip;
            let stop = if hi - start < take {
                hi as int
            } else {
                start + take
            };
            &&& r@.len() == if start < hi {
                stop - start
            } else {
                0
            }
            &&& forall|k: int| 0 <= k < r@.len() ==> #[trigger] r@[k] == start + k
        }),
{
    let mut r: Vec<i32> = Vec::new();
    if hi <= lo {
        return r;
    }
    let diff: u64 = ((hi as i64) - (lo as i64)) as u64;
    if skip as u64 >= diff {
        return r;
    }
    let start: i32 = ((lo as i64) + (skip as i64)) as i32;
    let mut x: i32 = start;
    let mut count: usize = 0;
    while x < hi && count < take
        invariant
            start == lo + skip,
            start <= x <= hi,
            count == x - start,
            count <= take,
            r@.len() == count,
            forall|k: int| 0 <= k < r@.len() ==> #[trigger] r@[k] == start + k,
        decreases hi - x,
    {
        r.push(x);
        x = x + 1;
        count = count + 1;
    }
    r
}

/// Each element with its position (`enumerate()`).
pub fn enumerate<T: Copy>(v: &[T]) -> (r: Vec<(usize, T)>)
    ensures
        r@.len() == v@.len(),
        forall|k: int| 0 <= k < v@.len() ==> #[trigger] r@[k] == (k as usize, v@[k]),
{
    let mut r: Vec<(usize, T)> = Vec::new();
    let mut i: usize = 0;
    while i < v.len()
        invariant
            i <= v@.len(),
            r@.len() == i,
            forall|k: int| 0 <= k < i ==> #[trigger] r@[k] == (k as usize, v@[k]),
        decreases v@.len() - i,
    {
        r.push((i, v[i]));
        i = i + 1;
    }
    r
}

/// The elements of `a` followed by those of `b` (`chain`).
pub fn chain<T: Copy>(a: &[T], b: &[T]) -> (r: Vec<T>)
    ensures
        r@ == a@ + b@,
{
    let mut r: Vec<T> = Vec::new();
    let mut i: usize = 0;
    while i < a.len()
        invariant
            i <= a@.len(),
            r@ == a@.take(i as int),
        decreases a@.len() - i,
    {
        r.push(a[i]);
        i = i + 1;
        assert(r@ =~= a@.take(i as int));
    }
    let mut j: usize = 0;
    assert(a@.take(a@.len() as int) =~= a@);
    while j < b.len()
        invariant
            j <= b@.len(),
            r@ == a@ + b@.take(j as int),
        decreases b@.len() - j,
    {
        r.push(b[j]);
        j = j + 1;
        assert(r@ =~= a@ + b@.take(j as int));
    }
    assert(b@.take(b@.len() as int) =~= b@);
    r
}

/// Pairs of elements at the same position, as long as both sides last (`zip`).
pub fn zip<A: Copy, B: Copy>(a: &[A], b: &[B]) -> (r: Vec<(A, B)>)
    ensures
        r@.len() == if a@.len() <= b@.len() {
            a@.len()
        } else {
            b@.len()
        },
        forall|k: int| 0 <= k < r@.len() ==> #[trigger] r@[k] == (a@[k], b@[k]),
{
    let mut r: Vec<(A, B)> = Vec::new();
    let mut i: usize = 0;
    while i < a.len() && i < b.len()
        invariant
            i <= a@.len(),
            i <= b@.len(),
            r@.len() == i,
            forall|k: int| 0 <= k < i ==> #[trigger] r@[k] == (a@[k], b@[k]),
        decreases a@.len() - i,
    {
        r.push((a[i], b[i]));
        i = i + 1;
    }
    r
}

/// Product of a sequence of integers.
pub open spec fn seq_product(s: Seq<i32>) -> int
    decreases s.len(),
{
    if s.len() == 0 {
        1
    } else {
        seq_product(s.drop_last()) * s.last()
    }
}

/// Product of the elements starting from 1 (`fold(1, |acc, x| acc * x)`).
pub fn product(v: &[i32]) -> (r: i32)
    requires
        forall|k: int| 0 <= k <= v@.len() ==> i32::MIN <= #[trigger] seq_product(v@.take(k)) <= i32::MAX,
    ensures
        r == seq_product(v@),
{
    let mut acc: i32 = 1;
    let mut i: usize = 0;
    assert(v@.take(0) =~= Seq::<i32>::empty());
    while i < v.len()
        invariant
            i <= v@.len(),
            forall|k: int| 0 <= k <= v@.len() ==> i32::MIN <= #[trigger] seq_product(v@.take(k))
                <= i32::MAX,
            acc == seq_product(v@.take(i as int)),
        decreases v@.len() - i,
    {
        assert(v@.take(i + 1).drop_last() =~= v@.take(i as int));
        assert(seq_product(v@.take(i + 1)) == seq_product(v@.take(i as int)) * v@[i as int]);
        acc = acc * v[i];
        i = i + 1;
    }
    assert(v@.take(v@.len() as int) =~= v@);
    acc
}

/// Sum of the elements (`sum()`), see [`seq_sum`].
pub fn total(v: &[i32]) -> (r: i32)
    requires
        crate::slices::sums_fit_i32(v@),
    ensures
        r == seq_sum(v@),
{
    crate::slices::sum_i32(v)
}

/// The first element that is even (`find(|x| x % 2 == 0)`).
pub fn find_first_even(v: &[i32]) -> (r: Option<i32>)
    ensures
        r is None <==> forall|i: int| 0 <= i < v@.len() ==> !is_even(#[trigger] v@[i]),
        r matches Some(x) ==> exists|i: int|
            0 <= i < v@.len() && v@[i] == x && is_even(x) && forall|j: int|
                0 <= j < i ==> !is_even(#[trigger] v@[j]),
{
    let mut i: usize = 0;
    while i < v.len()
        invariant
            i <= v@.len(),
            forall|j: int| 0 <= j < i ==> !is_even(#[trigger] v@[j]),
        decreases v@.len() - i,
    {
        if v[i] % 2 == 0 {
            return Some(v[i]);
        }
        i = i + 1;
    }
    None
}

/// The first element greater than `bound` (`find(|x| x > bound)`).
pub fn find_first_greater(v: &[i32], bound: i32) -> (r: Option<i32>)
    ensures
        r is None <==> forall|i: int| 0 <= i < v@.len() ==> #[trigger] v@[i] <= bound,
        r matches Some(x) ==> exists|i: int|
            0 <= i < v@.len() && v@[i] == x && x > bound && forall|j: int|
                0 <= j < i ==> #[trigger] v@[j] <= bound,
{
    let mut i: usize = 0;
    while i < v.len()
        invariant
            i <= v@.len(),
            forall|j: int| 0 <= j < i ==> #[trigger] v@[j] <= bound,
        decreases v@.len() - i,
    {
        if v[i] > bound {
            return Some(v[i]);
        }
        i = i + 1;
    }
    None
}

/// Some element is even (`any`).
pub fn any_even(v: &[i32]) -> (r: bool)
    ensures
        r <==> exists|i: int| 0 <= i < v@.len() && is_even(#[trigger] v@[i]),
{
    match find_first_even(v) {
        Some(_) => true,
        None => false,
    }
}

/// Every element is even (`all`).
pub fn all_even(v: &[i32]) -> (r: bool)
    ensures
        r <==> forall|i: int| 0 <= i < v@.len() ==> is_even(#[trigger] v@[i]),
{
    let mut i: usize = 0;
    while i < v.len()
        invariant
            i <= v@.len(),
            forall|j: int| 0 <= j < i ==> is_even(#[trigger] v@[j]),
        decreases v@.len() - i,
    {
        if v[i] % 2 != 0 {
            assert(!is_even(v@[i as int]));
            return false;
        }
        i = i + 1;
    }
    true
}

/// Number of elements, counted one by one (`count()`).
pub fn count<T>(v: &[T]) -> (r: usize)
    ensures
        r == v@.len(),
{
    let mut n: usize = 0;
    let mut i: usize = 0;
    while i < v.len()
        invariant
            i <= v@.len(),
            n == i,
        decreases v@.len() - i,
    {
        n = n + 1;
        i = i + 1;
    }
    n
}

/// Doubles every item of a vector in place (`for x in &mut v { *x *= 2 }`).
pub fn double_all(v: &mut Vec<i32>)
    requires
        doubles_fit(old(v)@),
    ensures
        final(v)@ == old(v)@.map_values(|x: i32| double(x)),
{
    let n = v.len();
    let mut i: usize = 0;
    while i < n
        invariant
            n == v@.len(),
            n == old(v)@.len(),
            i <= n,
            doubles_fit(old(v)@),
            forall|j: int| 0 <= j < i ==> #[trigger] v@[j] == double(old(v)@[j]),
            forall|j: int| i <= j < n ==> #[trigger] v@[j] == old(v)@[j],
        decreases n - i,
    {
        let x = v[i];
        v[i] = x * 2;
        i = i + 1;
    }
    assert(v@ =~= old(v)@.map_values(|x: i32| double(x)));
}

/// What `take(n)` keeps and what `skip(n)` keeps, put together, is the
/// whole sequence, for every `n`.
pub proof fn law_take_then_skip(v: Seq<i32>, n: nat)
    ensures
        (if n <= v.len() {
            v.take(n as int)
        } else {
            v
        }) + (if n <= v.len() {
            v.skip(n as int)
        } else {
            Seq::<i32>::empty()
        }) == v,
{
    if n <= v.len() {
        assert(v.take(n as int) + v.skip(n as int) =~= v);
    } else {
        assert(v + Seq::<i32>::empty() =~= v);
    }
}

/// Twice `k`.
pub open spec fn twice(k: int) -> int {
    2 * k
}

/// `evens` keeps exactly the elements that are twice some integer: the
/// filter it is specified by is the filter by divisibility by 2, and an
/// element passes it exactly when it equals `2 * k` for some integer `k`
/// (so odd numbers, negative ones included, never pass).
pub proof fn law_evens_keep_multiples_of_two(v: Seq<i32>)
    ensures
        v.filter(|x: i32| is_even(x)) == v.filter(|x: i32| x % 2 == 0),
        forall|x: i32| #[trigger] is_even(x) <==> exists|k: int| x == #[trigger] twice(k),
{
    assert((|x: i32| is_even(x)) =~= (|x: i32| x % 2 == 0));
    assert forall|x: i32| #[trigger] is_even(x) <==> exists|k: int| x == #[trigger] twice(k) by {
        if is_even(x) {
            assert(x == twice(x / 2));
        }
        if exists|k: int| x == #[trigger] twice(k) {
            let k = choose|k: int| x == #[trigger] twice(k);
            assert((2 * k) % 2 == 0);
        }
    }
}

} // verus!
