//! Byte-string helpers.
use vstd::prelude::*;

verus! {

/// Whether two byte strings are equal.
pub fn bytes_eq(a: &Vec<u8>, b: &Vec<u8>) -> (r: bool)
    ensures
        r == (a@ == b@),
{
    if a.len() != b.len() {
        return false;
    }
    let mut i: usize = 0;
    while i < a.len()
        invariant
            i <= a.len(),
            a.len() == b.len(),
            forall|j: int| 0 <= j < i ==> a@[j] == b@[j],
        decreases a.len() - i,
    {
        if a[i] != b[i] {
            return false;
        }
        i = i + 1;
    }
    assert(a@ =~= b@);
    true
}

/// A copy of a byte string.
pub fn copy_bytes(s: &Vec<u8>) -> (r: Vec<u8>)
    ensures
        r@ == s@,
{
    let mut r: Vec<u8> = Vec::new();
    let mut i: usize = 0;
    while i < s.len()
        invariant
            i <= s.len(),
            r@ == s@.subrange(0, i as int),
        decreases s.len() - i,
    {
        r.push(s[i]);
        i = i + 1;
        assert(r@ =~= s@.subrange(0, i as int));
    }
    assert(r@ =~= s@);
    r
}

/// Space, tab or carriage return.
pub open spec fn is_blank(b: u8) -> bool {
    b == 32 || b == 9 || b == 13
}

pub open spec fn trim_start(s: Seq<u8>) -> Seq<u8>
    decreases s.len(),
{
    if s.len() > 0 && is_blank(s[0]) {
        trim_start(s.drop_first())
    } else {
        s
    }
}

pub open spec fn trim_end(s: Seq<u8>) -> Seq<u8>
    decreases s.len(),
{
    if s.len() > 0 && is_blank(s.last()) {
        trim_end(s.drop_last())
    } else {
        s
    }
}

/// `s` without its leading and trailing blanks.
pub open spec fn trim(s: Seq<u8>) -> Seq<u8> {
    trim_end(trim_start(s))
}

/// The index of the first `b` in `s`, or the length of `s` when it has none.
pub open spec fn find_byte(s: Seq<u8>, b: u8) -> int
    decreases s.len(),
{
    if s.len() == 0 {
        0
    } else if s[0] == b {
        0
    } else {
        1 + find_byte(s.drop_first(), b)
    }
}

/// The bounds of `text[lo..hi]` without its leading and trailing blanks.
pub fn trim_range(text: &Vec<u8>, lo: usize, hi: usize) -> (r: (usize, usize))
    requires
        lo <= hi <= text.len(),
    ensures
        lo <= r.0 <= r.1 <= hi,
        text@.subrange(r.0 as int, r.1 as int) == trim(text@.subrange(lo as int, hi as int)),
{
    let mut a: usize = lo;
    while a < hi && (text[a] == 32 || text[a] == 9 || text[a] == 13)
        invariant
            lo <= a <= hi <= text.len(),
            trim_start(text@.subrange(a as int, hi as int)) == trim_start(
                text@.subrange(lo as int, hi as int),
            ),
        decreases hi - a,
    {
        assert(text@.subrange(a as int, hi as int).drop_first() =~= text@.subrange(
            a + 1,
            hi as int,
        ));
        a = a + 1;
    }
    let mut b: usize = hi;
    while b > a && (text[b - 1] == 32 || text[b - 1] == 9 || text[b - 1] == 13)
        invariant
            lo <= a <= b <= hi <= text.len(),
            trim_end(text@.subrange(a as int, b as int)) == trim(
                text@.subrange(lo as int, hi as int),
            ),
        decreases b - a,
    {
        assert(text@.subrange(a as int, b as int).drop_last() =~= text@.subrange(
            a as int,
            b - 1,
        ));
        b = b - 1;
    }
    (a, b)
}

/// The index of the first `c` in `text[lo..hi]`, or `hi` when there is none.
pub fn find_in(text: &Vec<u8>, lo: usize, hi: usize, c: u8) -> (r: usize)
    requires
        lo <= hi <= text.len(),
    ensures
        lo <= r <= hi,
        r - lo == find_byte(text@.subrange(lo as int, hi as int), c),
{
    let mut i: usize = lo;
    while i < hi && text[i] != c
        invariant
            lo <= i <= hi <= text.len(),
            find_byte(text@.subrange(lo as int, hi as int), c) == (i - lo) + find_byte(
                text@.subrange(i as int, hi as int),
                c,
            ),
        decreases hi - i,
    {
        assert(text@.subrange(i as int, hi as int).drop_first() =~= text@.subrange(
            i + 1,
            hi as int,
        ));
        i = i + 1;
    }
    i
}

pub open spec fn is_digit(b: u8) -> bool {
    48 <= b <= 57
}

/// The number that a string of decimal digits denotes.
pub open spec fn digits_value(s: Seq<u8>) -> nat
    decreases s.len(),
{
    if s.len() == 0 {
        0
    } else {
        digits_value(s.drop_last()) * 10 + (s.last() - 48) as nat
    }
}

/// A non-empty string of decimal digits whose value fits in `u32`.
pub open spec fn spec_parse_u32(s: Seq<u8>) -> Option<u32> {
    if s.len() > 0 && (forall|i: int| 0 <= i < s.len() ==> is_digit(#[trigger] s[i]))
        && digits_value(s) <= u32::MAX {
        Some(digits_value(s) as u32)
    } else {
        None
    }
}

proof fn lemma_digits_grow(s: Seq<u8>, j: int)
    requires
        0 <= j <= s.len(),
        forall|i: int| 0 <= i < s.len() ==> is_digit(#[trigger] s[i]),
    ensures
        digits_value(s.subrange(0, j)) <= digits_value(s),
    decreases s.len(),
{
    if j < s.len() {
        assert(s.drop_last().subrange(0, j) =~= s.subrange(0, j));
        lemma_digits_grow(s.drop_last(), j);
    } else {
        assert(s.subrange(0, j) =~= s);
    }
}

/// Reads `text[lo..hi]` as a decimal `u32`.
pub fn parse_u32(text: &Vec<u8>, lo: usize, hi: usize) -> (r: Option<u32>)
    requires
        lo <= hi <= text.len(),
    ensures
        r == spec_parse_u32(text@.subrange(lo as int, hi as int)),
{
    let ghost s = text@.subrange(lo as int, hi as int);
    if lo == hi {
        return None;
    }
    let mut acc: u64 = 0;
    let mut i: usize = lo;
    while i < hi
        invariant
            lo <= i <= hi <= text.len(),
            s == text@.subrange(lo as int, hi as int),
            forall|k: int| 0 <= k < i - lo ==> is_digit(#[trigger] s[k]),
            acc == digits_value(s.subrange(0, i - lo)),
            acc <= u32::MAX,
        decreases hi - i,
    {
        let d: u8 = text[i];
        if d < 48 || d > 57 {
            assert(!is_digit(s[i - lo]));
            return None;
        }
        assert(s.subrange(0, i + 1 - lo).drop_last() =~= s.subrange(0, i - lo));
        acc = acc * 10 + (d - 48) as u64;
        i = i + 1;
        if acc > 0xffff_ffff {
            proof {
                if forall|k: int| 0 <= k < s.len() ==> is_digit(#[trigger] s[k]) {
                    lemma_digits_grow(s, i - lo);
                }
            }
            return None;
        }
    }
    assert(s.subrange(0, s.len() as int) =~= s);
    Some(acc as u32)
}

} // verus!
