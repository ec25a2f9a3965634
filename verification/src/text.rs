//! Text building blocks: decimal formatting and parsing of integers,
//! whitespace-separated words, ASCII case mapping and character counts.
use vstd::prelude::*;
use vstd::string::*;

verus! {

/// Appends one character to a `String` (`String::push`).
/// Claims: the new contents are the old contents followed by `c`.
#[verifier::external_body]
pub(crate) fn push_char(s: &mut String, c: char)
    ensures
        final(s)@ == old(s)@.push(c),
{
    s.push(c);
}

/// A fresh `String` holding the characters of `s`.
pub fn owned(s: &str) -> (r: String)
    ensures
        r@ == s@,
{
    String::from_str(s)
}

/// `a` followed by `b`, as a new `String`.
pub fn concat(a: &str, b: &str) -> (r: String)
    ensures
        r@ == a@ + b@,
{
    let mut r = String::from_str(a);
    r.append(b);
    r
}

/// The decimal digit character of `d` (`0 <= d < 10`).
pub open spec fn digit_char(d: nat) -> char {
    if d == 0 {
        '0'
    } else if d == 1 {
        '1'
    } else if d == 2 {
        '2'
    } else if d == 3 {
        '3'
    } else if d == 4 {
        '4'
    } else if d == 5 {
        '5'
    } else if d == 6 {
        '6'
    } else if d == 7 {
        '7'
    } else if d == 8 {
        '8'
    } else {
        '9'
    }
}

/// Whether `c` is one of `'0'..='9'`.
pub open spec fn is_digit(c: char) -> bool {
    '0' <= c <= '9'
}

/// The value of a digit character.
pub open spec fn digit_value(c: char) -> int {
    c as int - '0' as int
}

/// Decimal representation of `n`, without leading zeros (`"0"` for zero).
pub open spec fn decimal(n: nat) -> Seq<char>
    decreases n,
{
    if n < 10 {
        seq![digit_char(n)]
    } else {
        decimal(n / 10).push(digit_char(n % 10))
    }
}

/// Decimal representation of a signed value, with a leading `-` when negative.
pub open spec fn signed_decimal(n: int) -> Seq<char> {
    if n < 0 {
        seq!['-'] + decimal((-n) as nat)
    } else {
        decimal(n as nat)
    }
}

fn digit_to_char(d: u64) -> (c: char)
    requires
        d < 10,
    ensures
        c == digit_char(d as nat),
{
    if d == 0 {
        '0'
    } else if d == 1 {
        '1'
    } else if d == 2 {
        '2'
    } else if d == 3 {
        '3'
    } else if d == 4 {
        '4'
    } else if d == 5 {
        '5'
    } else if d == 6 {
        '6'
    } else if d == 7 {
        '7'
    } else if d == 8 {
        '8'
    } else {
        '9'
    }
}

/// Appends the decimal representation of `n` to `out`.
pub fn push_decimal(out: &mut String, n: u64)
    ensures
        final(out)@ == old(out)@ + decimal(n as nat),
    decreases n,
{
    if n < 10 {
        push_char(out, digit_to_char(n));
        assert(decimal(n as nat) == seq![digit_char(n as nat)]);
        assert(old(out)@.push(digit_char(n as nat)) =~= old(out)@ + decimal(n as nat));
    } else {
        push_decimal(out, n / 10);
        let ghost mid = out@;
        push_char(out, digit_to_char(n % 10));
        assert(decimal(n as nat) == decimal((n / 10) as nat).push(digit_char((n % 10) as nat)));
        assert(out@ =~= old(out)@ + decimal(n as nat));
    }
}

/// Appends the decimal representation of a signed value to `out`.
pub fn push_signed_decimal(out: &mut String, n: i64)
    ensures
        final(out)@ == old(out)@ + signed_decimal(n as int),
{
    if n < 0 {
        push_char(out, '-');
        let magnitude: u64 = if n == i64::MIN {
            9223372036854775808u64
        } else {
            (-n) as u64
        };
        push_decimal(out, magnitude);
        assert(out@ =~= old(out)@ + signed_decimal(n as int));
    } else {
        push_decimal(out, n as u64);
    }
}

/// Decimal text of an unsigned value.
pub fn u64_to_string(n: u64) -> (r: String)
    ensures
        r@ == decimal(n as nat),
{
    let mut r = String::new();
    push_decimal(&mut r, n);
    assert(r@ =~= decimal(n as nat));
    r
}

/// Decimal text of a signed value.
pub fn i64_to_string(n: i64) -> (r: String)
    ensures
        r@ == signed_decimal(n as int),
{
    let mut r = String::new();
    push_signed_decimal(&mut r, n);
    assert(r@ =~= signed_decimal(n as int));
    r
}

/// Why a text could not be read as an integer of a given range.
#[derive(Debug, Clone, Copy, PartialEq, Eq, Structural)]
pub enum IntErrorKind {
    /// The text is empty.
    Empty,
    /// A character is not a digit, or a sign stands alone.
    InvalidDigit,
    /// The value is above the largest value of the range.
    PosOverflow,
    /// The value is below the smallest value of the range.
    NegOverflow,
}

/// Reads the digits `ds` after the accumulated value `acc`, subtracting
/// digits when `neg`; stops at the first character that is not a digit or
/// at the first step that leaves `lo..=hi`.
pub open spec fn scan_digits(ds: Seq<char>, acc: int, neg: bool, lo: int, hi: int) -> Result<
    int,
    IntErrorKind,
>
    decreases ds.len(),
{
    if ds.len() == 0 {
        Ok(acc)
    } else if !is_digit(ds[0]) {
        Err(IntErrorKind::InvalidDigit)
    } else {
        let next = if neg {
            acc * 10 - digit_value(ds[0])
        } else {
            acc * 10 + digit_value(ds[0])
        };
        if next > hi {
            Err(IntErrorKind::PosOverflow)
        } else if next < lo {
            Err(IntErrorKind::NegOverflow)
        } else {
            scan_digits(ds.drop_first(), next, neg, lo, hi)
        }
    }
}

/// Integer parsing in the manner of `str::parse` for integer types: an
/// optional `+` (or `-` when the range is signed) followed by at least one
/// decimal digit, the value lying in `lo..=hi`.
pub open spec fn parse_int(s: Seq<char>, lo: int, hi: int) -> Result<int, IntErrorKind> {
    if s.len() == 0 {
        Err(IntErrorKind::Empty)
    } else if (s[0] == '+' || s[0] == '-') && s.len() == 1 {
        Err(IntErrorKind::InvalidDigit)
    } else if s[0] == '+' {
        scan_digits(s.drop_first(), 0, false, lo, hi)
    } else if s[0] == '-' && lo < 0 {
        scan_digits(s.drop_first(), 0, true, lo, hi)
    } else {
        scan_digits(s, 0, false, lo, hi)
    }
}

proof fn lemma_scan_in_range(ds: Seq<char>, acc: int, neg: bool, lo: int, hi: int)
    requires
        lo <= acc <= hi,
    ensures
        scan_digits(ds, acc, neg, lo, hi) matches Ok(v) ==> lo <= v <= hi,
    decreases ds.len(),
{
    if ds.len() > 0 && is_digit(ds[0]) {
        let next = if neg {
            acc * 10 - digit_value(ds[0])
        } else {
            acc * 10 + digit_value(ds[0])
        };
        if lo <= next <= hi {
            lemma_scan_in_range(ds.drop_first(), next, neg, lo, hi);
        }
    }
}

/// Every successful parse lies in the requested range.
pub proof fn lemma_parse_in_range(s: Seq<char>, lo: int, hi: int)
    requires
        lo <= 0 <= hi,
    ensures
        parse_int(s, lo, hi) matches Ok(v) ==> lo <= v <= hi,
{
    if s.len() > 1 && s[0] == '+' {
        lemma_scan_in_range(s.drop_first(), 0, false, lo, hi);
    } else if s.len() > 1 && s[0] == '-' && lo < 0 {
        lemma_scan_in_range(s.drop_first(), 0, true, lo, hi);
    } else if s.len() > 0 {
        lemma_scan_in_range(s, 0, false, lo, hi);
    }
}

proof fn lemma_scan_split(ds: Seq<char>, i: int, acc: int, neg: bool, lo: int, hi: int)
    requires
        0 <= i <= ds.len(),
        scan_digits(ds.take(i), acc, neg, lo, hi) matches Ok(_),
    ensures
        scan_digits(ds, acc, neg, lo, hi) == scan_digits(
            ds.skip(i),
            scan_digits(ds.take(i), acc, neg, lo, hi)->Ok_0,
            neg,
            lo,
            hi,
        ),
    decreases i,
{
    if i > 0 {
        let next = if neg {
            acc * 10 - digit_value(ds[0])
        } else {
            acc * 10 + digit_value(ds[0])
        };
        assert(ds.take(i)[0] == ds[0]);
        assert(ds.take(i).drop_first() =~= ds.drop_first().take(i - 1));
        assert(ds.skip(i) =~= ds.drop_first().skip(i - 1));
        lemma_scan_split(ds.drop_first(), i - 1, next, neg, lo, hi);
    } else {
        assert(ds.skip(0) =~= ds);
    }
}

fn char_digit(c: char) -> (d: i128)
    requires
        is_digit(c),
    ensures
        d == digit_value(c),
        0 <= d < 10,
{
    (c as u32 - '0' as u32) as i128
}

/// Reads the characters of `s` from position `start` on as digits.
fn scan_from(s: &str, start: usize, neg: bool, lo: i128, hi: i128) -> (r: Result<i128, IntErrorKind>)
    requires
        start <= s@.len(),
        -0x8000_0000_0000_0000 <= lo <= 0 <= hi <= 0xffff_ffff_ffff_ffff,
    ensures
        match r {
            Ok(v) => scan_digits(s@.skip(start as int), 0, neg, lo as int, hi as int) == Ok::<
                int,
                IntErrorKind,
            >(v as int),
            Err(e) => scan_digits(s@.skip(start as int), 0, neg, lo as int, hi as int) == Err::<
                int,
                IntErrorKind,
            >(e),
        },
{
    let n = s.unicode_len();
    let ghost ds = s@.skip(start as int);
    let mut acc: i128 = 0;
    let mut i = start;
    assert(ds.take(0) =~= Seq::<char>::empty());
    while i < n
        invariant
            start <= i <= n,
            n == s@.len(),
            ds == s@.skip(start as int),
            lo <= acc <= hi,
            -0x8000_0000_0000_0000 <= lo <= 0 <= hi <= 0xffff_ffff_ffff_ffff,
            scan_digits(ds.take(i - start), 0, neg, lo as int, hi as int) == Ok::<int, IntErrorKind>(
                acc as int,
            ),
        decreases n - i,
    {
        let c = s.get_char(i);
        proof {
            lemma_scan_split(ds, i - start, 0, neg, lo as int, hi as int);
            assert(ds.skip(i - start)[0] == c);
        }
        if !('0' <= c && c <= '9') {
            return Err(IntErrorKind::InvalidDigit);
        }
        let d = char_digit(c);
        let next = if neg {
            acc * 10 - d
        } else {
            acc * 10 + d
        };
        if next > hi {
            return Err(IntErrorKind::PosOverflow);
        }
        if next < lo {
            return Err(IntErrorKind::NegOverflow);
        }
        proof {
            let k = i - start;
            assert(ds[k] == c);
            assert(ds.take(k + 1) =~= ds.take(k).push(c));
            lemma_scan_push(ds.take(k), c, 0, neg, lo as int, hi as int);
            assert(seq![c].drop_first() =~= Seq::<char>::empty());
            assert(seq![c][0] == c);
            assert(scan_digits(Seq::<char>::empty(), next as int, neg, lo as int, hi as int) == Ok::<
                int,
                IntErrorKind,
            >(next as int));
            assert(scan_digits(seq![c], acc as int, neg, lo as int, hi as int) == Ok::<
                int,
                IntErrorKind,
            >(next as int));
        }
        acc = next;
        i = i + 1;
    }
    proof {
        assert(ds.take(n - start) =~= ds);
    }
    Ok(acc)
}

proof fn lemma_scan_push(ds: Seq<char>, c: char, acc: int, neg: bool, lo: int, hi: int)
    requires
        scan_digits(ds, acc, neg, lo, hi) matches Ok(_),
    ensures
        ({
            let v = scan_digits(ds, acc, neg, lo, hi)->Ok_0;
            scan_digits(ds.push(c), acc, neg, lo, hi) == scan_digits(seq![c], v, neg, lo, hi)
        }),
    decreases ds.len(),
{
    if ds.len() > 0 {
        let next = if neg {
            acc * 10 - digit_value(ds[0])
        } else {
            acc * 10 + digit_value(ds[0])
        };
        assert(ds.push(c).drop_first() =~= ds.drop_first().push(c));
        lemma_scan_push(ds.drop_first(), c, next, neg, lo, hi);
    } else {
        assert(ds.push(c) =~= seq![c]);
    }
}

proof fn lemma_digit_char(d: nat)
    requires
        d < 10,
    ensures
        is_digit(digit_char(d)),
        digit_value(digit_char(d)) == d,
{
}

proof fn lemma_decimal_starts_with_digit(m: nat)
    ensures
        decimal(m).len() >= 1,
        is_digit(decimal(m)[0]),
    decreases m,
{
    if m < 10 {
        lemma_digit_char(m);
    } else {
        lemma_decimal_starts_with_digit(m / 10);
    }
}

proof fn lemma_scan_decimal(m: nat, neg: bool, lo: int, hi: int)
    requires
        lo <= 0 <= hi,
        neg ==> lo <= -m,
        !neg ==> m <= hi,
    ensures
        scan_digits(decimal(m), 0, neg, lo, hi) == Ok::<int, IntErrorKind>(
            if neg {
                -m
            } else {
                m as int
            },
        ),
    decreases m,
{
    let v: int = if neg {
        -m
    } else {
        m as int
    };
    assert(scan_digits(Seq::<char>::empty(), v, neg, lo, hi) == Ok::<int, IntErrorKind>(v));
    if m < 10 {
        lemma_digit_char(m);
        assert(seq![digit_char(m)].drop_first() =~= Seq::<char>::empty());
        assert(decimal(m) == seq![digit_char(m)]);
    } else {
        let q = m / 10;
        let c = digit_char(m % 10);
        lemma_scan_decimal(q, neg, lo, hi);
        lemma_scan_push(decimal(q), c, 0, neg, lo, hi);
        lemma_digit_char(m % 10);
        assert(seq![c].drop_first() =~= Seq::<char>::empty());
        assert(seq![c][0] == c);
        assert(q * 10 + m % 10 == m);
        assert(decimal(m) == decimal(q).push(c));
        if neg {
            assert(lo <= -q);
            assert(scan_digits(seq![c], -q, neg, lo, hi) == scan_digits(Seq::<char>::empty(), v, neg, lo, hi));
        } else {
            assert(scan_digits(seq![c], q as int, neg, lo, hi) == scan_digits(Seq::<char>::empty(), v, neg, lo, hi));
        }
    }
}

/// Reading back the decimal text of a value gives the value, for every
/// value of the range being read.
pub proof fn law_parse_after_format(n: int, lo: int, hi: int)
    requires
        lo <= 0 <= hi,
        lo <= n <= hi,
    ensures
        parse_int(signed_decimal(n), lo, hi) == Ok::<int, IntErrorKind>(n),
{
    if n < 0 {
        let m = (-n) as nat;
        lemma_scan_decimal(m, true, lo, hi);
        lemma_decimal_starts_with_digit(m);
        let s = seq!['-'] + decimal(m);
        assert(s.drop_first() =~= decimal(m));
    } else {
        lemma_scan_decimal(n as nat, false, lo, hi);
        lemma_decimal_starts_with_digit(n as nat);
    }
}

/// The number that a string of decimal digits denotes, most significant
/// digit first.
pub open spec fn digits_value(s: Seq<char>) -> int
    decreases s.len(),
{
    if s.len() == 0 {
        0
    } else {
        10 * digits_value(s.drop_last()) + (s.last() as int - '0' as int)
    }
}

proof fn lemma_decimal_digits(m: nat)
    ensures
        decimal(m).len() >= 1,
        forall|i: int| 0 <= i < decimal(m).len() ==> '0' <= #[trigger] decimal(m)[i] <= '9',
        (decimal(m)[0] == '0') == (m == 0),
        digits_value(decimal(m)) == m,
    decreases m,
{
    if m < 10 {
        lemma_digit_char(m);
        assert(seq![digit_char(m)].drop_last() =~= Seq::<char>::empty());
        assert(digits_value(Seq::<char>::empty()) == 0);
        assert(decimal(m) == seq![digit_char(m)]);
        assert(digits_value(seq![digit_char(m)]) == digit_value(digit_char(m)));
    } else {
        let q = m / 10;
        let c = digit_char(m % 10);
        lemma_decimal_digits(q);
        lemma_digit_char(m % 10);
        let s = decimal(q).push(c);
        assert(decimal(m) == s);
        assert(s.drop_last() =~= decimal(q));
        assert(s[0] == decimal(q)[0]);
        assert forall|i: int| 0 <= i < s.len() implies '0' <= #[trigger] s[i] <= '9' by {
            if i < decimal(q).len() {
                assert(s[i] == decimal(q)[i]);
            }
        }
        assert(q * 10 + m % 10 == m);
        assert(s.last() == c);
        assert(digits_value(s) == 10 * digits_value(decimal(q)) + digit_value(c));
    }
}

/// The decimal text of an integer: its magnitude written with digits only,
/// without leading zeros, denoting the magnitude, preceded by `-` exactly
/// when the integer is negative (a non-negative integer gets no sign, and
/// its text is the unsigned text of the same number).
pub proof fn law_decimal_text(n: int)
    ensures
        ({
            let s = signed_decimal(n);
            let digits = if n < 0 {
                s.drop_first()
            } else {
                s
            };
            let magnitude = if n < 0 {
                -n
            } else {
                n
            };
            &&& s.len() >= 1
            &&& (s[0] == '-') == (n < 0)
            &&& n >= 0 ==> s == decimal(n as nat)
            &&& digits.len() >= 1
            &&& forall|i: int| 0 <= i < digits.len() ==> '0' <= #[trigger] digits[i] <= '9'
            &&& (digits[0] == '0') == (n == 0)
            &&& digits_value(digits) == magnitude
        }),
{
    if n < 0 {
        let m = (-n) as nat;
        lemma_decimal_digits(m);
        let s = seq!['-'] + decimal(m);
        assert(s.drop_first() =~= decimal(m));
    } else {
        lemma_decimal_digits(n as nat);
    }
}

/// Parses `s` as an integer in `lo..=hi` (see [`parse_int`]).
pub fn parse_in_range(s: &str, lo: i128, hi: i128) -> (r: Result<i128, IntErrorKind>)
    requires
        -0x8000_0000_0000_0000 <= lo <= 0 <= hi <= 0xffff_ffff_ffff_ffff,
    ensures
        match r {
            Ok(v) => parse_int(s@, lo as int, hi as int) == Ok::<int, IntErrorKind>(v as int),
            Err(e) => parse_int(s@, lo as int, hi as int) == Err::<int, IntErrorKind>(e),
        },
{
    let n = s.unicode_len();
    if n == 0 {
        return Err(IntErrorKind::Empty);
    }
    let first = s.get_char(0);
    if (first == '+' || first == '-') && n == 1 {
        return Err(IntErrorKind::InvalidDigit);
    }
    proof {
        assert(s@.skip(1) =~= s@.drop_first());
        assert(s@.skip(0) =~= s@);
    }
    if first == '+' {
        scan_from(s, 1, false, lo, hi)
    } else if first == '-' && lo < 0 {
        scan_from(s, 1, true, lo, hi)
    } else {
        scan_from(s, 0, false, lo, hi)
    }
}

/// `s` read as an `i32` (as `s.parse::<i32>()`).
pub fn parse_i32(s: &str) -> (r: Result<i32, IntErrorKind>)
    ensures
        match r {
            Ok(v) => parse_int(s@, i32::MIN as int, i32::MAX as int) == Ok::<int, IntErrorKind>(
                v as int,
            ),
            Err(e) => parse_int(s@, i32::MIN as int, i32::MAX as int) == Err::<int, IntErrorKind>(e),
        },
{
    match parse_in_range(s, i32::MIN as i128, i32::MAX as i128) {
        Ok(v) => {
            proof {
                lemma_parse_in_range(s@, i32::MIN as int, i32::MAX as int);
            }
            Ok(v as i32)
        },
        Err(e) => Err(e),
    }
}

/// `s` read as a `u32` (as `s.parse::<u32>()`).
pub fn parse_u32(s: &str) -> (r: Result<u32, IntErrorKind>)
    ensures
        match r {
            Ok(v) => parse_int(s@, 0, u32::MAX as int) == Ok::<int, IntErrorKind>(v as int),
            Err(e) => parse_int(s@, 0, u32::MAX as int) == Err::<int, IntErrorKind>(e),
        },
{
    match parse_in_range(s, 0, u32::MAX as i128) {
        Ok(v) => {
            proof {
                lemma_parse_in_range(s@, 0, u32::MAX as int);
            }
            Ok(v as u32)
        },
        Err(e) => Err(e),
    }
}

/// `s` read as a `u16` (as `s.parse::<u16>()`).
pub fn parse_u16(s: &str) -> (r: Result<u16, IntErrorKind>)
    ensures
        match r {
            Ok(v) => parse_int(s@, 0, u16::MAX as int) == Ok::<int, IntErrorKind>(v as int),
            Err(e) => parse_int(s@, 0, u16::MAX as int) == Err::<int, IntErrorKind>(e),
        },
{
    match parse_in_range(s, 0, u16::MAX as i128) {
        Ok(v) => {
            proof {
                lemma_parse_in_range(s@, 0, u16::MAX as int);
            }
            Ok(v as u16)
        },
        Err(e) => Err(e),
    }
}

/// Characters with the Unicode `White_Space` property (`char::is_whitespace`).
pub open spec fn is_white(c: char) -> bool {
    let v = c as u32;
    (0x09 <= v <= 0x0d) || v == 0x20 || v == 0x85 || v == 0xa0 || v == 0x1680 || (0x2000 <= v
        <= 0x200a) || v == 0x2028 || v == 0x2029 || v == 0x202f || v == 0x205f || v == 0x3000
}

/// Whether `c` is white space (`char::is_whitespace`).
pub fn is_whitespace(c: char) -> (r: bool)
    ensures
        r == is_white(c),
{
    let v = c as u32;
    (0x09 <= v && v <= 0x0d) || v == 0x20 || v == 0x85 || v == 0xa0 || v == 0x1680 || (0x2000 <= v
        && v <= 0x200a) || v == 0x2028 || v == 0x2029 || v == 0x202f || v == 0x205f || v == 0x3000
}

/// Position of the first character at or after `from` that is (when
/// `white`) or is not (when `!white`) white space; `s.len()` if none.
pub open spec fn next_where(s: Seq<char>, from: int, white: bool) -> int
    decreases s.len() - from,
{
    if from >= s.len() {
        s.len() as int
    } else if is_white(s[from]) == white {
        from
    } else {
        next_where(s, from + 1, white)
    }
}

proof fn lemma_next_where(s: Seq<char>, from: int, white: bool)
    requires
        0 <= from <= s.len(),
    ensures
        from <= next_where(s, from, white) <= s.len(),
        forall|k: int| from <= k < next_where(s, from, white) ==> is_white(#[trigger] s[k]) != white,
        next_where(s, from, white) < s.len() ==> is_white(s[next_where(s, from, white)]) == white,
    decreases s.len() - from,
{
    if from < s.len() && is_white(s[from]) != white {
        lemma_next_where(s, from + 1, white);
    }
}

fn find_from(s: &str, n: usize, from: usize, white: bool) -> (r: usize)
    requires
        n == s@.len(),
        from <= n,
    ensures
        r == next_where(s@, from as int, white),
    decreases n - from,
{
    if from >= n {
        return n;
    }
    let c = s.get_char(from);
    if is_whitespace(c) == white {
        from
    } else {
        find_from(s, n, from + 1, white)
    }
}

/// The first run of non-white characters of `s`, or the empty string when
/// `s` has none (`split_whitespace().next().unwrap_or("")`).
pub open spec fn first_word_of(s: Seq<char>) -> Seq<char> {
    let start = next_where(s, 0, false);
    s.subrange(start, next_where(s, start, true))
}

/// The first whitespace-separated word of `s`, or `""`.
pub fn first_word(s: &str) -> (r: &str)
    ensures
        r@ == first_word_of(s@),
{
    let n = s.unicode_len();
    let start = find_from(s, n, 0, false);
    proof {
        lemma_next_where(s@, 0, false);
        lemma_next_where(s@, start as int, true);
    }
    let end = find_from(s, n, start, true);
    s.substring_char(start, end)
}

/// Position just past the last non-white character at or before `to`.
pub open spec fn prev_non_white(s: Seq<char>, to: int) -> int
    decreases to,
{
    if to <= 0 {
        0
    } else if !is_white(s[to - 1]) {
        to
    } else {
        prev_non_white(s, to - 1)
    }
}

/// `s` without leading and trailing white space (`str::trim`).
pub open spec fn trimmed(s: Seq<char>) -> Seq<char> {
    let start = next_where(s, 0, false);
    s.subrange(start, if start == s.len() { start } else { prev_non_white(s, s.len() as int) })
}

proof fn lemma_prev_non_white(s: Seq<char>, to: int)
    requires
        0 <= to <= s.len(),
    ensures
        0 <= prev_non_white(s, to) <= to,
        forall|k: int| prev_non_white(s, to) <= k < to ==> is_white(#[trigger] s[k]),
        prev_non_white(s, to) > 0 ==> !is_white(s[prev_non_white(s, to) - 1]),
    decreases to,
{
    if to > 0 && is_white(s[to - 1]) {
        lemma_prev_non_white(s, to - 1);
    }
}

/// Trimming removes exactly the white space at both ends: the result is the
/// part of the text between a prefix and a suffix made only of white space,
/// and when it is not empty it neither starts nor ends with white space (so
/// it keeps everything from the first to the last non-white character).
pub proof fn law_trim_removes_outer_white_space(s: Seq<char>)
    ensures
        exists|i: int, j: int|
            0 <= i <= j <= s.len() && trimmed(s) == s.subrange(i, j) && (forall|k: int|
                0 <= k < i ==> is_white(#[trigger] s[k])) && (forall|k: int|
                j <= k < s.len() ==> is_white(#[trigger] s[k])),
        trimmed(s).len() > 0 ==> !is_white(trimmed(s)[0]) && !is_white(
            trimmed(s)[trimmed(s).len() - 1],
        ),
        (exists|k: int| 0 <= k < s.len() && !is_white(#[trigger] s[k])) ==> trimmed(s).len() > 0,
{
    lemma_next_where(s, 0, false);
    let start = next_where(s, 0, false);
    if start == s.len() {
        assert(trimmed(s) == s.subrange(start, start));
        assert(trimmed(s).len() == 0);
        assert forall|k: int| 0 <= k < s.len() implies is_white(#[trigger] s[k]) by {}
    } else {
        lemma_prev_non_white(s, s.len() as int);
        let end = prev_non_white(s, s.len() as int);
        if end <= start {
            assert(is_white(s[start]));
        }
        assert(start < end);
        let t = s.subrange(start, end);
        assert(trimmed(s) == t);
        assert(t[0] == s[start]);
        assert(t[t.len() - 1] == s[end - 1]);
    }
}

fn back_to_non_white(s: &str, start: usize, to: usize) -> (r: usize)
    requires
        start < to <= s@.len(),
        !is_white(s@[start as int]),
    ensures
        r == prev_non_white(s@, to as int),
        start < r <= to,
    decreases to,
{
    let c = s.get_char(to - 1);
    if !is_whitespace(c) {
        to
    } else {
        back_to_non_white(s, start, to - 1)
    }
}

/// `s` without leading and trailing white space.
pub fn trim(s: &str) -> (r: &str)
    ensures
        r@ == trimmed(s@),
{
    let n = s.unicode_len();
    let start = find_from(s, n, 0, false);
    proof {
        lemma_next_where(s@, 0, false);
    }
    if start == n {
        return s.substring_char(start, start);
    }
    let end = back_to_non_white(s, start, n);
    s.substring_char(start, end)
}

/// `needle` occurs in `hay` at position `i`.
pub open spec fn occurs_at(hay: Seq<char>, needle: Seq<char>, i: int) -> bool {
    0 <= i && i + needle.len() <= hay.len() && hay.subrange(i, i + needle.len()) == needle
}

fn matches_at(hay: &str, needle: &str, i: usize, hn: usize, nn: usize) -> (r: bool)
    requires
        hn == hay@.len(),
        nn == needle@.len(),
        i + nn <= hn,
    ensures
        r == occurs_at(hay@, needle@, i as int),
{
    let mut k: usize = 0;
    while k < nn
        invariant
            hn == hay@.len(),
            nn == needle@.len(),
            i + nn <= hn,
            k <= nn,
            forall|j: int| 0 <= j < k ==> hay@[i + j] == #[trigger] needle@[j],
        decreases nn - k,
    {
        if hay.get_char(i + k) != needle.get_char(k) {
            assert(hay@.subrange(i as int, i + nn)[k as int] != needle@[k as int]);
            return false;
        }
        k = k + 1;
    }
    assert(hay@.subrange(i as int, i + nn) =~= needle@);
    true
}

/// Whether `needle` occurs somewhere in `hay` (`str::contains`).
pub fn contains(hay: &str, needle: &str) -> (r: bool)
    ensures
        r <==> exists|i: int| occurs_at(hay@, needle@, i),
{
    let hn = hay.unicode_len();
    let nn = needle.unicode_len();
    if nn > hn {
        return false;
    }
    let mut i: usize = 0;
    loop
        invariant
            hn == hay@.len(),
            nn == needle@.len(),
            nn <= hn,
            i <= hn - nn,
            forall|j: int| 0 <= j < i ==> !occurs_at(hay@, needle@, j),
        decreases hn - nn - i,
    {
        if matches_at(hay, needle, i, hn, nn) {
            return true;
        }
        if i >= hn - nn {
            return false;
        }
        i = i + 1;
    }
}

/// Whether the last character of `s` is `c` (`str::ends_with` with a char).
pub fn ends_with_char(s: &str, c: char) -> (r: bool)
    ensures
        r <==> s@.len() > 0 && s@.last() == c,
{
    let n = s.unicode_len();
    n > 0 && s.get_char(n - 1) == c
}

/// The Unicode uppercase form of a text, as `str::to_uppercase` computes it.
pub uninterp spec fn uppercase_of(s: Seq<char>) -> Seq<char>;

/// Calls `str::to_uppercase`. Its result depends on the text alone and is
/// named by [`uppercase_of`]; of Unicode's case tables the contract states
/// only that a text of ASCII characters has its lowercase letters raised and
/// every other character kept, which the documentation's examples show.
#[verifier::external_body]
pub(crate) fn to_uppercase(s: &str) -> (r: String)
    ensures
        r@ == uppercase_of(s@),
        vstd::utf8::is_ascii_chars(s@) ==> r@ == s@.map_values(|c: char| crate::slices::ascii_upper(c)),
{
    s.to_uppercase()
}

/// `s` in upper case followed by `!`.
pub fn shout(s: &str) -> (r: String)
    ensures
        r@ == uppercase_of(s@) + "!"@,
{
    let mut r = to_uppercase(s);
    r.append("!");
    r
}

/// Whether two strings hold the same characters (`==` on `str`).
pub fn str_eq(a: &str, b: &str) -> (r: bool)
    ensures
        r <==> a@ == b@,
{
    let n = a.unicode_len();
    if n != b.unicode_len() {
        return false;
    }
    let mut k: usize = 0;
    while k < n
        invariant
            n == a@.len(),
            n == b@.len(),
            k <= n,
            forall|j: int| 0 <= j < k ==> a@[j] == b@[j],
        decreases n - k,
    {
        if a.get_char(k) != b.get_char(k) {
            return false;
        }
        k = k + 1;
    }
    assert(a@ =~= b@);
    true
}

} // verus!
