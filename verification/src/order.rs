//! Lexicographic order, the order of arrays, slices, vectors, strings and
//! tuples: the first position where two sequences differ decides, and a
//! proper prefix comes first.
use vstd::prelude::*;

verus! {

/// `a` comes strictly before `b` in lexicographic order.
pub open spec fn lex_less(a: Seq<int>, b: Seq<int>) -> bool
    decreases a.len(),
{
    if a.len() == 0 {
        b.len() > 0
    } else if b.len() == 0 {
        false
    } else if a[0] < b[0] {
        true
    } else if a[0] > b[0] {
        false
    } else {
        lex_less(a.drop_first(), b.drop_first())
    }
}

/// The elements of an `i32` sequence as integers.
pub open spec fn ints(s: Seq<i32>) -> Seq<int> {
    s.map_values(|x: i32| x as int)
}

/// The code points of a character sequence as integers.
pub open spec fn codes(s: Seq<char>) -> Seq<int> {
    s.map_values(|c: char| c as int)
}

/// Comparing from position `i` on, after equal elements before it, decides
/// as comparing from position `i + 1` on when the elements at `i` are equal.
proof fn lemma_lex_step(a: Seq<int>, b: Seq<int>, i: int)
    requires
        0 <= i < a.len(),
        i < b.len(),
        a[i] == b[i],
    ensures
        lex_less(a.skip(i), b.skip(i)) == lex_less(a.skip(i + 1), b.skip(i + 1)),
{
    assert(a.skip(i).drop_first() =~= a.skip(i + 1));
    assert(b.skip(i).drop_first() =~= b.skip(i + 1));
}

/// Whether slice `a` comes strictly before slice `b`.
pub fn slice_less(a: &[i32], b: &[i32]) -> (r: bool)
    ensures
        r == lex_less(ints(a@), ints(b@)),
{
    let ghost sa = ints(a@);
    let ghost sb = ints(b@);
    let mut i: usize = 0;
    assert(sa.skip(0) =~= sa);
    assert(sb.skip(0) =~= sb);
    while i < a.len() && i < b.len()
        invariant
            i <= a@.len(),
            i <= b@.len(),
            sa == ints(a@),
            sb == ints(b@),
            lex_less(sa, sb) == lex_less(sa.skip(i as int), sb.skip(i as int)),
        decreases a@.len() - i,
    {
        if a[i] < b[i] {
            return true;
        }
        if a[i] > b[i] {
            return false;
        }
        proof {
            lemma_lex_step(sa, sb, i as int);
        }
        i = i + 1;
    }
    a.len() < b.len()
}

/// Whether string `a` comes strictly before string `b`, comparing
/// characters by code point.
pub fn str_less(a: &str, b: &str) -> (r: bool)
    ensures
        r == lex_less(codes(a@), codes(b@)),
{
    let ghost sa = codes(a@);
    let ghost sb = codes(b@);
    let n = a.unicode_len();
    let m = b.unicode_len();
    let mut i: usize = 0;
    assert(sa.skip(0) =~= sa);
    assert(sb.skip(0) =~= sb);
    while i < n && i < m
        invariant
            n == a@.len(),
            m == b@.len(),
            i <= n,
            i <= m,
            sa == codes(a@),
            sb == codes(b@),
            lex_less(sa, sb) == lex_less(sa.skip(i as int), sb.skip(i as int)),
        decreases n - i,
    {
        let x = a.get_char(i);
        let y = b.get_char(i);
        if x < y {
            return true;
        }
        if x > y {
            return false;
        }
        proof {
            lemma_lex_step(sa, sb, i as int);
        }
        i = i + 1;
    }
    n < m
}

/// No sequence comes before itself.
pub proof fn law_lex_irreflexive(a: Seq<int>)
    ensures
        !lex_less(a, a),
    decreases a.len(),
{
    if a.len() > 0 {
        law_lex_irreflexive(a.drop_first());
    }
}

/// Of two different sequences exactly one comes first.
pub proof fn law_lex_trichotomy(a: Seq<int>, b: Seq<int>)
    ensures
        a != b ==> (lex_less(a, b) || lex_less(b, a)),
        !(lex_less(a, b) && lex_less(b, a)),
    decreases a.len(),
{
    if a.len() > 0 && b.len() > 0 {
        law_lex_trichotomy(a.drop_first(), b.drop_first());
        if a != b && a[0] == b[0] {
            assert(a.drop_first() != b.drop_first()) by {
                if a.drop_first() == b.drop_first() {
                    assert forall|i: int| 0 <= i < a.len() implies a[i] == b[i] by {
                        if i > 0 {
                            assert(a[i] == a.drop_first()[i - 1]);
                            assert(b[i] == b.drop_first()[i - 1]);
                        }
                    }
                    assert(a =~= b);
                }
            }
        }
    } else if a.len() == 0 && b.len() == 0 {
        assert(a =~= b);
    }
}

/// Lexicographic order is transitive.
pub proof fn law_lex_transitive(a: Seq<int>, b: Seq<int>, c: Seq<int>)
    requires
        lex_less(a, b),
        lex_less(b, c),
    ensures
        lex_less(a, c),
    decreases a.len(),
{
    if a.len() > 0 && b.len() > 0 && c.len() > 0 && a[0] == b[0] && b[0] == c[0] {
        law_lex_transitive(a.drop_first(), b.drop_first(), c.drop_first());
    }
}

/// A proper prefix comes before the sequence it starts.
pub proof fn law_prefix_is_less(a: Seq<int>, b: Seq<int>)
    requires
        a.len() < b.len(),
        a == b.take(a.len() as int),
    ensures
        lex_less(a, b),
    decreases a.len(),
{
    if a.len() > 0 {
        assert(a.drop_first() =~= b.drop_first().take(a.len() - 1));
        law_prefix_is_less(a.drop_first(), b.drop_first());
    }
}

} // verus!
