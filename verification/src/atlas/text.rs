//! Byte-level reading of text: lines, separators and decimal integers.
//!
//! Every delimiter here is an ASCII byte, so splitting the UTF-8 encoding of
//! a text at these bytes splits the text at the same characters.
use vstd::prelude::*;

verus! {

pub const NEWLINE: u8 = 10;

pub const CARRIAGE_RETURN: u8 = 13;

pub const TAB: u8 = 9;

/// Index of the first newline at or after `i`, or the length of `s`.
pub open spec fn line_end(s: Seq<u8>, i: int) -> int
    decreases s.len() - i,
{
    if i >= s.len() {
        s.len() as int
    } else if s[i] == NEWLINE {
        i
    } else {
        line_end(s, i + 1)
    }
}

/// A line without the carriage return that ends it, if any.
pub open spec fn strip_cr(l: Seq<u8>) -> Seq<u8> {
    if l.len() > 0 && l[l.len() - 1] == CARRIAGE_RETURN {
        l.subrange(0, l.len() - 1)
    } else {
        l
    }
}

/// The lines of `s` from byte `i` on, in the sense of `str::lines`: split
/// after each newline, a line ending in a newline loses that newline and
/// then one carriage return before it; no empty line follows a final newline.
pub open spec fn lines_from(s: Seq<u8>, i: int) -> Seq<Seq<u8>>
    decreases s.len() - i,
{
    if i < 0 || i >= s.len() {
        seq![]
    } else {
        let e = line_end(s, i);
        proof {
            lemma_line_end(s, i);
        }
        if e < s.len() {
            seq![strip_cr(s.subrange(i, e))] + lines_from(s, e + 1)
        } else {
            seq![s.subrange(i, s.len() as int)]
        }
    }
}

/// The lines of `s`, in the sense of `str::lines`.
pub open spec fn text_lines(s: Seq<u8>) -> Seq<Seq<u8>> {
    lines_from(s, 0)
}

/// Index of the last byte `b` before index `i`.
pub open spec fn rfind_before(s: Seq<u8>, b: u8, i: int) -> Option<int>
    decreases i,
{
    if i <= 0 {
        None
    } else if s[i - 1] == b {
        Some(i - 1)
    } else {
        rfind_before(s, b, i - 1)
    }
}

/// Index of the last byte `b` in `s`.
pub open spec fn rfind(s: Seq<u8>, b: u8) -> Option<int> {
    rfind_before(s, b, s.len() as int)
}

/// Index of the first occurrence, at or after `i`, of the two bytes `a b`.
pub open spec fn find_pair_from(s: Seq<u8>, a: u8, b: u8, i: int) -> Option<int>
    decreases s.len() - i,
{
    if i < 0 || i + 1 >= s.len() {
        None
    } else if s[i] == a && s[i + 1] == b {
        Some(i)
    } else {
        find_pair_from(s, a, b, i + 1)
    }
}

/// The pieces of `s` from byte `i` on, split at each occurrence of the two
/// bytes `a b` (as `str::split` with a two-byte pattern).
pub open spec fn split_pair_from(s: Seq<u8>, a: u8, b: u8, i: int) -> Seq<Seq<u8>>
    decreases s.len() - i,
{
    if i < 0 || i > s.len() {
        seq![]
    } else {
        match find_pair_from(s, a, b, i) {
            None => seq![s.subrange(i, s.len() as int)],
            Some(j) => {
                proof {
                    lemma_find_pair_from(s, a, b, i);
                }
                seq![s.subrange(i, j)] + split_pair_from(s, a, b, j + 2)
            },
        }
    }
}

/// Whether every byte of `s` is an ASCII decimal digit.
pub open spec fn all_digits(s: Seq<u8>) -> bool {
    forall|k: int| 0 <= k < s.len() ==> 48 <= #[trigger] s[k] <= 57
}

/// The value of a string of decimal digits.
pub open spec fn decimal_value(s: Seq<u8>) -> int
    decreases s.len(),
{
    if s.len() == 0 {
        0
    } else {
        decimal_value(s.drop_last()) * 10 + (s.last() - 48)
    }
}

/// The `i32` that `s` writes, in the sense of `i32::from_str`: an optional
/// `+` or `-`, then at least one decimal digit, with a value in range.
pub open spec fn parse_i32_spec(s: Seq<u8>) -> Option<int> {
    let negative = s.len() > 0 && s[0] == 45;
    let digits = if s.len() > 0 && (s[0] == 45 || s[0] == 43) {
        s.drop_first()
    } else {
        s
    };
    let v = if negative {
        -decimal_value(digits)
    } else {
        decimal_value(digits)
    };
    if digits.len() == 0 || !all_digits(digits) || !(i32::MIN <= v <= i32::MAX) {
        None
    } else {
        Some(v)
    }
}

pub proof fn lemma_line_end(s: Seq<u8>, i: int)
    requires
        0 <= i <= s.len(),
    ensures
        i <= line_end(s, i) <= s.len(),
        line_end(s, i) < s.len() ==> s[line_end(s, i)] == NEWLINE,
        forall|k: int| i <= k < line_end(s, i) ==> s[k] != NEWLINE,
    decreases s.len() - i,
{
    if i < s.len() && s[i] != NEWLINE {
        lemma_line_end(s, i + 1);
    }
}

pub proof fn lemma_find_pair_from(s: Seq<u8>, a: u8, b: u8, i: int)
    ensures
        find_pair_from(s, a, b, i) matches Some(j) ==> 0 <= i <= j && j + 1 < s.len() && s[j] == a
            && s[j + 1] == b,
    decreases s.len() - i,
{
    if !(i < 0 || i + 1 >= s.len()) && !(s[i] == a && s[i + 1] == b) {
        lemma_find_pair_from(s, a, b, i + 1);
    }
}

pub proof fn lemma_rfind_before(s: Seq<u8>, b: u8, i: int)
    requires
        i <= s.len(),
    ensures
        rfind_before(s, b, i) matches Some(k) ==> 0 <= k < i && s[k] == b && forall|m: int|
            k < m < i ==> s[m] != b,
        rfind_before(s, b, i) is None ==> forall|m: int| 0 <= m < i ==> s[m] != b,
    decreases i,
{
    if i > 0 && s[i - 1] != b {
        lemma_rfind_before(s, b, i - 1);
    }
}

/// Index of the first newline at or after `i`, or the length of `s`.
pub fn find_line_end(s: &[u8], i: usize) -> (e: usize)
    requires
        i <= s@.len(),
    ensures
        e == line_end(s@, i as int),
{
    let mut j = i;
    while j < s.len() && s[j] != NEWLINE
        invariant
            i <= j <= s@.len(),
            line_end(s@, j as int) == line_end(s@, i as int),
        decreases s@.len() - j,
    {
        j = j + 1;
    }
    j
}

/// Index of the last byte `b` in `s`.
pub fn rfind_byte(s: &[u8], b: u8) -> (r: Option<usize>)
    ensures
        r matches Some(k) ==> rfind(s@, b) == Some(k as int) && k < s@.len(),
        r is None ==> rfind(s@, b) is None,
{
    let mut i = s.len();
    while i > 0
        invariant
            i <= s@.len(),
            rfind_before(s@, b, i as int) == rfind(s@, b),
        decreases i,
    {
        if s[i - 1] == b {
            return Some(i - 1);
        }
        i = i - 1;
    }
    None
}

/// Index of the first occurrence, at or after `i`, of the two bytes `a b`.
pub fn find_pair(s: &[u8], a: u8, b: u8, i: usize) -> (r: Option<usize>)
    ensures
        r matches Some(j) ==> find_pair_from(s@, a, b, i as int) == Some(j as int) && i <= j && j
            + 1 < s@.len(),
        r is None ==> find_pair_from(s@, a, b, i as int) is None,
{
    let mut j = i;
    while j < s.len() && j + 1 < s.len()
        invariant
            i <= j,
            find_pair_from(s@, a, b, j as int) == find_pair_from(s@, a, b, i as int),
        decreases s@.len() - j,
    {
        if s[j] == a && s[j + 1] == b {
            return Some(j);
        }
        j = j + 1;
    }
    None
}

/// A copy of the bytes `s[lo..hi]`.
pub fn copy_range(s: &[u8], lo: usize, hi: usize) -> (v: Vec<u8>)
    requires
        lo <= hi <= s@.len(),
    ensures
        v@ == s@.subrange(lo as int, hi as int),
{
    let mut v: Vec<u8> = Vec::new();
    let mut k = lo;
    while k < hi
        invariant
            lo <= k <= hi <= s@.len(),
            v@ == s@.subrange(lo as int, k as int),
        decreases hi - k,
    {
        v.push(s[k]);
        k = k + 1;
        assert(v@ =~= s@.subrange(lo as int, k as int));
    }
    v
}

/// Whether the bytes of `a` and `b` are equal.
pub fn bytes_equal(a: &[u8], b: &[u8]) -> (r: bool)
    ensures
        r == (a@ == b@),
{
    if a.len() != b.len() {
        return false;
    }
    let mut k: usize = 0;
    while k < a.len()
        invariant
            a@.len() == b@.len(),
            k <= a@.len(),
            forall|m: int| 0 <= m < k ==> a@[m] == b@[m],
        decreases a@.len() - k,
    {
        if a[k] != b[k] {
            return false;
        }
        k = k + 1;
    }
    assert(a@ =~= b@);
    true
}

proof fn lemma_decimal_step(s: Seq<u8>, k: int)
    requires
        0 <= k < s.len(),
    ensures
        decimal_value(s.subrange(0, k + 1)) == decimal_value(s.subrange(0, k)) * 10 + (s[k] - 48),
{
    assert(s.subrange(0, k + 1).drop_last() =~= s.subrange(0, k));
}

proof fn lemma_decimal_nonneg(s: Seq<u8>)
    requires
        all_digits(s),
    ensures
        decimal_value(s) >= 0,
    decreases s.len(),
{
    if s.len() > 0 {
        lemma_decimal_nonneg(s.drop_last());
    }
}

/// The `i32` that `s` writes, in the sense of `i32::from_str`.
pub fn parse_i32(s: &[u8]) -> (r: Option<i32>)
    ensures
        r matches Some(v) ==> parse_i32_spec(s@) == Some(v as int),
        r is None ==> parse_i32_spec(s@) is None,
{
    let negative = s.len() > 0 && s[0] == 45;
    let start: usize = if s.len() > 0 && (s[0] == 45 || s[0] == 43) {
        1
    } else {
        0
    };
    let ghost digits = s@.subrange(start as int, s@.len() as int);
    assert(digits =~= (if s@.len() > 0 && (s@[0] == 45 || s@[0] == 43) {
        s@.drop_first()
    } else {
        s@
    }));
    if start >= s.len() {
        return None;
    }
    // The value read so far, capped just above the largest magnitude of an i32.
    let cap: i64 = 2147483649;
    let mut acc: i64 = 0;
    let mut k = start;
    while k < s.len()
        invariant
            start <= k <= s@.len(),
            digits == s@.subrange(start as int, s@.len() as int),
            digits == (if s@.len() > 0 && (s@[0] == 45 || s@[0] == 43) {
                s@.drop_first()
            } else {
                s@
            }),
            all_digits(s@.subrange(start as int, k as int)),
            0 <= acc <= cap,
            cap == 2147483649,
            decimal_value(s@.subrange(start as int, k as int)) >= cap ==> acc == cap,
            decimal_value(s@.subrange(start as int, k as int)) < cap ==> acc == decimal_value(
                s@.subrange(start as int, k as int),
            ),
        decreases s@.len() - k,
    {
        let c = s[k];
        if c < 48 || c > 57 {
            assert(digits[k - start] == c);
            assert(!all_digits(digits));
            return None;
        }
        proof {
            let t = s@.subrange(start as int, s@.len() as int);
            assert(s@.subrange(start as int, k + 1) =~= t.subrange(0, k - start + 1));
            assert(s@.subrange(start as int, k as int) =~= t.subrange(0, k - start));
            lemma_decimal_step(t, k - start);
            assert(all_digits(s@.subrange(start as int, k + 1)));
            lemma_decimal_nonneg(s@.subrange(start as int, k as int));
        }
        let next: i64 = acc * 10 + (c - 48) as i64;
        acc = if next > cap {
            cap
        } else {
            next
        };
        k = k + 1;
    }
    assert(s@.subrange(start as int, k as int) =~= digits);
    if negative {
        if acc > 2147483648 {
            None
        } else {
            Some((-acc) as i32)
        }
    } else {
        if acc > 2147483647 {
            None
        } else {
            Some(acc as i32)
        }
    }
}

} // verus!
