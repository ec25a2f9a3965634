//! Arrays, slices, vectors and UTF-8 strings: sums, in-place updates,
//! copies, byte offsets of characters and checked substrings.
use vstd::prelude::*;
use vstd::string::*;
use crate::text::push_char;

verus! {

/// Sum of a sequence of integers.
pub open spec fn seq_sum(s: Seq<i32>) -> int
    decreases s.len(),
{
    if s.len() == 0 {
        0
    } else {
        seq_sum(s.drop_last()) + s.last()
    }
}

/// Every running total of `s` fits in an `i32` (summing never overflows).
pub open spec fn sums_fit_i32(s: Seq<i32>) -> bool {
    forall|k: int| 0 <= k <= s.len() ==> i32::MIN <= #[trigger] seq_sum(s.take(k)) <= i32::MAX
}

/// Sum of the elements, as `iter().sum::<i32>()`.
pub fn sum_i32(a: &[i32]) -> (r: i32)
    requires
        sums_fit_i32(a@),
    ensures
        r == seq_sum(a@),
{
    let mut total: i32 = 0;
    let mut i: usize = 0;
    assert(a@.take(0) =~= Seq::<i32>::empty());
    while i < a.len()
        invariant
            i <= a@.len(),
            sums_fit_i32(a@),
            total == seq_sum(a@.take(i as int)),
        decreases a@.len() - i,
    {
        assert(a@.take(i + 1).drop_last() =~= a@.take(i as int));
        assert(seq_sum(a@.take(i + 1)) == seq_sum(a@.take(i as int)) + a@[i as int]);
        total = total + a[i];
        i = i + 1;
    }
    assert(a@.take(a@.len() as int) =~= a@);
    total
}

/// Doubles every element in place.
pub fn double_values(data: &mut [i32])
    requires
        forall|i: int| 0 <= i < old(data)@.len() ==> i32::MIN <= 2 * #[trigger] old(data)@[i] <= i32::MAX,
    ensures
        final(data)@.len() == old(data)@.len(),
        forall|i: int| 0 <= i < old(data)@.len() ==> #[trigger] final(data)@[i] == 2 * old(data)@[i],
{
    let n = data.len();
    let mut i: usize = 0;
    while i < n
        invariant
            n == data@.len(),
            data@.len() == old(data)@.len(),
            i <= n,
            forall|j: int| 0 <= j < old(data)@.len() ==> i32::MIN <= 2 * #[trigger] old(data)@[j] <= i32::MAX,
            forall|j: int| 0 <= j < i ==> #[trigger] data@[j] == 2 * old(data)@[j],
            forall|j: int| i <= j < n ==> #[trigger] data@[j] == old(data)@[j],
        decreases n - i,
    {
        let v = data[i];
        data[i] = v * 2;
        i = i + 1;
    }
}

/// A heap copy of a slice (`to_vec`).
pub fn copy_to_vec(s: &[i32]) -> (v: Vec<i32>)
    ensures
        v@ == s@,
{
    let mut v: Vec<i32> = Vec::new();
    let mut i: usize = 0;
    while i < s.len()
        invariant
            i <= s@.len(),
            v@ == s@.take(i as int),
        decreases s@.len() - i,
    {
        v.push(s[i]);
        i = i + 1;
        assert(v@ =~= s@.take(i as int));
    }
    assert(s@.take(s@.len() as int) =~= s@);
    v
}

/// A string literal: its data lives for the whole program.
pub fn get_static() -> (r: &'static str)
    ensures
        r@ == "this lives forever"@,
{
    "this lives forever"
}

/// Number of bytes of the UTF-8 encoding of `c`.
pub open spec fn utf8_width(c: char) -> nat {
    if (c as u32) < 0x80 {
        1
    } else if (c as u32) < 0x800 {
        2
    } else if (c as u32) < 0x10000 {
        3
    } else {
        4
    }
}

/// Number of bytes of the UTF-8 encoding of a character sequence.
pub open spec fn utf8_len(s: Seq<char>) -> nat
    decreases s.len(),
{
    if s.len() == 0 {
        0
    } else {
        utf8_len(s.drop_last()) + utf8_width(s.last())
    }
}

/// Number of bytes of the UTF-8 encoding of `c` (`char::len_utf8`).
pub fn char_width(c: char) -> (w: usize)
    ensures
        w == utf8_width(c),
{
    let v = c as u32;
    if v < 0x80 {
        1
    } else if v < 0x800 {
        2
    } else if v < 0x10000 {
        3
    } else {
        4
    }
}

proof fn lemma_utf8_len_bound(s: Seq<char>)
    ensures
        utf8_len(s) <= 4 * s.len(),
    decreases s.len(),
{
    if s.len() > 0 {
        lemma_utf8_len_bound(s.drop_last());
    }
}

/// The characters of `s`, each with the byte offset at which it starts
/// (`char_indices`).
pub fn char_indices(s: &str) -> (r: Vec<(usize, char)>)
    requires
        4 * s@.len() <= usize::MAX,
    ensures
        r@.len() == s@.len(),
        forall|k: int|
            0 <= k < s@.len() ==> #[trigger] r@[k] == (utf8_len(s@.take(k)) as usize, s@[k]),
{
    let n = s.unicode_len();
    let mut r: Vec<(usize, char)> = Vec::new();
    let mut offset: usize = 0;
    let mut k: usize = 0;
    assert(s@.take(0) =~= Seq::<char>::empty());
    while k < n
        invariant
            n == s@.len(),
            4 * n <= usize::MAX,
            k <= n,
            offset == utf8_len(s@.take(k as int)),
            r@.len() == k,
            forall|j: int| 0 <= j < k ==> #[trigger] r@[j] == (utf8_len(s@.take(j)) as usize, s@[j]),
        decreases n - k,
    {
        let c = s.get_char(k);
        r.push((offset, c));
        proof {
            assert(s@.take(k + 1).drop_last() =~= s@.take(k as int));
            lemma_utf8_len_bound(s@.take(k + 1));
        }
        offset = offset + char_width(c);
        k = k + 1;
    }
    r
}

proof fn lemma_encode_width(c: char)
    ensures
        vstd::utf8::encode_scalar(c as u32).len() == utf8_width(c),
{
    vstd::utf8::char_is_scalar(c);
}

proof fn lemma_encode_drop_last(s: Seq<char>)
    requires
        s.len() > 0,
    ensures
        vstd::utf8::encode_utf8(s).len() == vstd::utf8::encode_utf8(s.drop_last()).len()
            + vstd::utf8::encode_scalar(s.last() as u32).len(),
    decreases s.len(),
{
    if s.len() == 1 {
        assert(s.drop_first() =~= Seq::<char>::empty());
        assert(s.drop_last() =~= Seq::<char>::empty());
    } else {
        lemma_encode_drop_last(s.drop_first());
        assert(s.drop_last().drop_first() =~= s.drop_first().drop_last());
        assert(s.drop_last()[0] == s[0]);
    }
}

/// The UTF-8 encoding of a character sequence has [`utf8_len`] bytes.
pub proof fn lemma_utf8_len_is_encoding_len(s: Seq<char>)
    ensures
        vstd::utf8::encode_utf8(s).len() == utf8_len(s),
    decreases s.len(),
{
    if s.len() > 0 {
        lemma_encode_drop_last(s);
        lemma_utf8_len_is_encoding_len(s.drop_last());
        lemma_encode_width(s.last());
    }
}

/// Number of bytes of the UTF-8 encoding of `s` (`str::len`).
pub fn byte_len(s: &str) -> (r: usize)
    requires
        utf8_len(s@) <= usize::MAX,
    ensures
        r == utf8_len(s@),
{
    proof {
        lemma_utf8_len_is_encoding_len(s@);
    }
    s.len()
}

/// The characters of `s`, collected into a vector.
pub fn chars_of(s: &str) -> (r: Vec<char>)
    ensures
        r@ == s@,
{
    let n = s.unicode_len();
    let mut r: Vec<char> = Vec::new();
    let mut k: usize = 0;
    while k < n
        invariant
            n == s@.len(),
            k <= n,
            r@ == s@.take(k as int),
        decreases n - k,
    {
        r.push(s.get_char(k));
        k = k + 1;
        assert(r@ =~= s@.take(k as int));
    }
    assert(s@.take(n as int) =~= s@);
    r
}

/// ASCII upper case of one character; other characters are unchanged.
pub open spec fn ascii_upper(c: char) -> char {
    if 'a' <= c <= 'z' {
        ((c as u32) - 32) as char
    } else {
        c
    }
}

/// ASCII lower case of one character; other characters are unchanged.
pub open spec fn ascii_lower(c: char) -> char {
    if 'A' <= c <= 'Z' {
        ((c as u32) + 32) as char
    } else {
        c
    }
}

fn upper_char(c: char) -> (r: char)
    ensures
        r == ascii_upper(c),
{
    if 'a' <= c && c <= 'z' {
        let v = (c as u32) - 32;
        assert(0x41 <= v <= 0x5a);
        char_from_ascii(v)
    } else {
        c
    }
}

fn lower_char(c: char) -> (r: char)
    ensures
        r == ascii_lower(c),
{
    if 'A' <= c && c <= 'Z' {
        let v = (c as u32) + 32;
        char_from_ascii(v)
    } else {
        c
    }
}

fn char_from_ascii(v: u32) -> (c: char)
    requires
        v < 0x80,
    ensures
        c == v as char,
{
    let b = v as u8;
    b as char
}

/// `s` with every ASCII letter in upper case (`to_ascii_uppercase`); the
/// length in bytes is unchanged.
pub fn ascii_uppercase(s: &str) -> (r: String)
    ensures
        r@ == s@.map_values(|c: char| ascii_upper(c)),
{
    let n = s.unicode_len();
    let mut r = String::new();
    let mut k: usize = 0;
    while k < n
        invariant
            n == s@.len(),
            k <= n,
            r@ == s@.take(k as int).map_values(|c: char| ascii_upper(c)),
        decreases n - k,
    {
        let c = s.get_char(k);
        push_char(&mut r, upper_char(c));
        k = k + 1;
        assert(r@ =~= s@.take(k as int).map_values(|c: char| ascii_upper(c)));
    }
    assert(s@.take(n as int) =~= s@);
    r
}

/// `s` with every ASCII letter in lower case (`to_ascii_lowercase`).
pub fn ascii_lowercase(s: &str) -> (r: String)
    ensures
        r@ == s@.map_values(|c: char| ascii_lower(c)),
{
    let n = s.unicode_len();
    let mut r = String::new();
    let mut k: usize = 0;
    while k < n
        invariant
            n == s@.len(),
            k <= n,
            r@ == s@.take(k as int).map_values(|c: char| ascii_lower(c)),
        decreases n - k,
    {
        let c = s.get_char(k);
        push_char(&mut r, lower_char(c));
        k = k + 1;
        assert(r@ =~= s@.take(k as int).map_values(|c: char| ascii_lower(c)));
    }
    assert(s@.take(n as int) =~= s@);
    r
}

/// Whether byte offset `b` is where some character of `s` starts, or the
/// end of `s` (a character boundary).
pub open spec fn is_boundary(s: Seq<char>, b: int) -> bool {
    exists|i: int| 0 <= i <= s.len() && #[trigger] utf8_len(s.take(i)) == b
}

proof fn lemma_utf8_len_take_step(s: Seq<char>, k: int)
    requires
        0 <= k < s.len(),
    ensures
        utf8_len(s.take(k + 1)) == utf8_len(s.take(k)) + utf8_width(s[k]),
{
    assert(s.take(k + 1).drop_last() =~= s.take(k));
}

proof fn lemma_utf8_len_take_mono(s: Seq<char>, a: int, b: int)
    requires
        0 <= a < b <= s.len(),
    ensures
        utf8_len(s.take(a)) < utf8_len(s.take(b)),
    decreases b - a,
{
    lemma_utf8_len_take_step(s, b - 1);
    if a < b - 1 {
        lemma_utf8_len_take_mono(s, a, b - 1);
    }
}

/// The bytes `start..end` of `s` when both offsets are character boundaries
/// and `start <= end`, else `None` (`str::get` with a range).
pub fn substring(s: &str, start: usize, end: usize) -> (r: Option<&str>)
    requires
        4 * s@.len() <= usize::MAX,
    ensures
        r is Some <==> (start <= end && is_boundary(s@, start as int) && is_boundary(s@, end as int)),
        r matches Some(sub) ==> exists|i: int, j: int|
            0 <= i <= j <= s@.len() && utf8_len(s@.take(i)) == start && utf8_len(s@.take(j)) == end
                && sub@ == s@.subrange(i, j),
{
    let n = s.unicode_len();
    let mut i_opt: Option<usize> = None;
    let mut j_opt: Option<usize> = None;
    let mut offset: usize = 0;
    let mut k: usize = 0;
    assert(s@.take(0) =~= Seq::<char>::empty());
    loop
        invariant
            n == s@.len(),
            4 * n <= usize::MAX,
            k <= n,
            offset == utf8_len(s@.take(k as int)),
            i_opt matches Some(i) ==> i <= k && utf8_len(s@.take(i as int)) == start,
            i_opt is None ==> forall|m: int| 0 <= m < k ==> utf8_len(s@.take(m)) != start,
            j_opt matches Some(j) ==> j <= k && utf8_len(s@.take(j as int)) == end,
            j_opt is None ==> forall|m: int| 0 <= m < k ==> utf8_len(s@.take(m)) != end,
        ensures
            k == n,
            i_opt matches Some(i) ==> i <= n && utf8_len(s@.take(i as int)) == start,
            i_opt is None ==> forall|m: int| 0 <= m <= n ==> utf8_len(s@.take(m)) != start,
            j_opt matches Some(j) ==> j <= n && utf8_len(s@.take(j as int)) == end,
            j_opt is None ==> forall|m: int| 0 <= m <= n ==> utf8_len(s@.take(m)) != end,
        decreases n - k,
    {
        if offset == start && i_opt.is_none() {
            i_opt = Some(k);
        }
        if offset == end && j_opt.is_none() {
            j_opt = Some(k);
        }
        if k == n {
            break;
        }
        let c = s.get_char(k);
        proof {
            lemma_utf8_len_take_step(s@, k as int);
            lemma_utf8_len_bound(s@.take(k + 1));
        }
        offset = offset + char_width(c);
        k = k + 1;
    }
    match (i_opt, j_opt) {
        (Some(i), Some(j)) => {
            if i <= j {
                proof {
                    if i < j {
                        lemma_utf8_len_take_mono(s@, i as int, j as int);
                    }
                    assert(is_boundary(s@, start as int));
                    assert(is_boundary(s@, end as int));
                }
                let sub = s.substring_char(i, j);
                Some(sub)
            } else {
                proof {
                    lemma_utf8_len_take_mono(s@, j as int, i as int);
                }
                None
            }
        },
        _ => None,
    }
}

} // verus!
