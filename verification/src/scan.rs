//! Reading separated fields and decimal numbers out of byte strings.
use vstd::prelude::*;
use vstd::slice::slice_subrange;

verus! {

/// The position of the first `b` in `s`, or the length of `s` if there is none.
pub open spec fn first(s: Seq<u8>, b: u8) -> int
    decreases s.len(),
{
    if s.len() == 0 || s[0] == b {
        0
    } else {
        1 + first(s.skip(1), b)
    }
}

pub proof fn first_bounds(s: Seq<u8>, b: u8)
    ensures
        0 <= first(s, b) <= s.len(),
        first(s, b) < s.len() ==> s[first(s, b)] == b,
        forall|k: int| 0 <= k < first(s, b) ==> s[k] != b,
    decreases s.len(),
{
    if s.len() == 0 || s[0] == b {
    } else {
        first_bounds(s.skip(1), b);
        assert forall|k: int| 0 <= k < first(s, b) implies s[k] != b by {
            if k > 0 {
                assert(s.skip(1)[k - 1] == s[k]);
            }
        }
    }
}

/// A position with `b` and none before it is the first.
pub proof fn first_is(s: Seq<u8>, b: u8, i: int)
    requires
        0 <= i <= s.len(),
        i < s.len() ==> s[i] == b,
        forall|k: int| 0 <= k < i ==> s[k] != b,
    ensures
        first(s, b) == i,
{
    first_bounds(s, b);
    let j = first(s, b);
    if j < i {
        assert(s[j] != b);
    } else if i < j {
        assert(s[i] != b);
    }
}

/// The position of the first `b` in `s`, or the length of `s`.
pub(crate) fn find(s: &[u8], b: u8) -> (i: usize)
    ensures
        i == first(s@, b),
        i <= s.len(),
{
    let mut i: usize = 0;
    while i < s.len() && s[i] != b
        invariant
            i <= s.len(),
            forall|k: int| 0 <= k < i ==> s@[k] != b,
        decreases s.len() - i,
    {
        i += 1;
    }
    proof {
        first_is(s@, b, i as int);
    }
    i
}

/// The part of `s` before the first `b`.
pub open spec fn before(s: Seq<u8>, b: u8) -> Seq<u8> {
    s.take(first(s, b))
}

/// The part of `s` after the first `b`, if there is one.
pub open spec fn after(s: Seq<u8>, b: u8) -> Option<Seq<u8>> {
    if first(s, b) < s.len() {
        Some(s.skip(first(s, b) + 1))
    } else {
        None
    }
}

/// Splits `s` at the first `b`.
pub(crate) fn cut<'a>(s: &'a [u8], b: u8) -> (parts: (&'a [u8], Option<&'a [u8]>))
    ensures
        parts.0@ == before(s@, b),
        match parts.1 {
            Some(rest) => after(s@, b) == Some(rest@),
            None => after(s@, b) is None,
        },
{
    let i: usize = find(s, b);
    let head = slice_subrange(s, 0, i);
    if i < s.len() {
        let tail = slice_subrange(s, i + 1, s.len());
        assert(tail@ =~= s@.skip(i + 1));
        (head, Some(tail))
    } else {
        (head, None)
    }
}

/// The field with number `n` of `s`, where `sep` stands between fields.
pub open spec fn field(s: Seq<u8>, sep: u8, n: nat) -> Option<Seq<u8>>
    decreases n,
{
    if n == 0 {
        Some(before(s, sep))
    } else {
        match after(s, sep) {
            Some(rest) => field(rest, sep, (n - 1) as nat),
            None => None,
        }
    }
}

/// The field with number `n` of `s`, where `sep` stands between fields.
pub(crate) fn nth_field<'a>(s: &'a [u8], sep: u8, n: usize) -> (r: Option<&'a [u8]>)
    ensures
        match r {
            Some(f) => field(s@, sep, n as nat) == Some(f@),
            None => field(s@, sep, n as nat) is None,
        },
{
    let mut rest: &[u8] = s;
    let mut k: usize = n;
    while k > 0
        invariant
            k <= n,
            field(s@, sep, n as nat) == field(rest@, sep, k as nat),
        decreases k,
    {
        match cut(rest, sep).1 {
            Some(tail) => {
                rest = tail;
            },
            None => {
                return None;
            },
        }
        k -= 1;
    }
    Some(cut(rest, sep).0)
}

/// Whether `prefix` is the beginning of `s`.
pub open spec fn starts_with(s: Seq<u8>, prefix: Seq<u8>) -> bool {
    prefix.len() <= s.len() && s.take(prefix.len() as int) == prefix
}

/// Whether `suffix` is the end of `s`.
pub open spec fn ends_with(s: Seq<u8>, suffix: Seq<u8>) -> bool {
    suffix.len() <= s.len() && s.skip(s.len() - suffix.len()) == suffix
}

/// `s` without `prefix`, if it begins with it.
pub(crate) fn strip_prefix<'a>(s: &'a [u8], prefix: &[u8]) -> (r: Option<&'a [u8]>)
    ensures
        match r {
            Some(rest) => starts_with(s@, prefix@) && rest@ == s@.skip(prefix@.len() as int),
            None => !starts_with(s@, prefix@),
        },
{
    if prefix.len() > s.len() {
        return None;
    }
    let head = slice_subrange(s, 0, prefix.len());
    if crate::text::same_bytes(head, prefix) {
        let rest = slice_subrange(s, prefix.len(), s.len());
        assert(rest@ =~= s@.skip(prefix@.len() as int));
        Some(rest)
    } else {
        None
    }
}

/// `s` without `suffix`, if it ends with it.
pub(crate) fn strip_suffix<'a>(s: &'a [u8], suffix: &[u8]) -> (r: Option<&'a [u8]>)
    ensures
        match r {
            Some(rest) => ends_with(s@, suffix@) && rest@ == s@.take(s@.len() - suffix@.len()),
            None => !ends_with(s@, suffix@),
        },
{
    if suffix.len() > s.len() {
        return None;
    }
    let at: usize = s.len() - suffix.len();
    let tail = slice_subrange(s, at, s.len());
    assert(tail@ =~= s@.skip(at as int));
    if crate::text::same_bytes(tail, suffix) {
        Some(slice_subrange(s, 0, at))
    } else {
        None
    }
}

/// Whether the byte is an ASCII digit.
pub open spec fn is_digit(b: u8) -> bool {
    0x30 <= b <= 0x39
}

/// Whether all bytes are ASCII digits.
pub open spec fn all_digits(s: Seq<u8>) -> bool {
    forall|i: int| 0 <= i < s.len() ==> is_digit(#[trigger] s[i])
}

/// The number that a string of digits writes.
pub open spec fn value_of(s: Seq<u8>) -> nat
    decreases s.len(),
{
    if s.len() == 0 {
        0
    } else {
        value_of(s.drop_last()) * 10 + (s.last() - 0x30) as nat
    }
}

/// The number that `s` writes: digits, with a plus sign before them or not. None
/// if `s` is anything else or the number exceeds `max`.
pub open spec fn unsigned(s: Seq<u8>, max: nat) -> Option<nat> {
    let digits = if s.len() > 0 && s[0] == 0x2b {
        s.skip(1)
    } else {
        s
    };
    if digits.len() > 0 && all_digits(digits) && value_of(digits) <= max {
        Some(value_of(digits))
    } else {
        None
    }
}

/// The number that `s` writes: digits, with a sign before them or not. None if `s`
/// is anything else or the number is no `i32`.
pub open spec fn signed(s: Seq<u8>) -> Option<int> {
    if s.len() > 0 && s[0] == 0x2d {
        let digits = s.skip(1);
        if digits.len() > 0 && all_digits(digits) && -(value_of(digits) as int) >= i32::MIN {
            Some(-(value_of(digits) as int))
        } else {
            None
        }
    } else {
        match unsigned(s, i32::MAX as nat) {
            Some(v) => Some(v as int),
            None => None,
        }
    }
}

proof fn value_grows(s: Seq<u8>, k: int)
    requires
        0 <= k <= s.len(),
        all_digits(s),
    ensures
        value_of(s.take(k)) <= value_of(s),
    decreases s.len(),
{
    if k == s.len() {
        assert(s.take(k) =~= s);
    } else {
        value_grows(s.drop_last(), k);
        assert(s.drop_last().take(k) =~= s.take(k));
    }
}

/// The number that the digits write, or `None` if there are none, if one of them
/// is no digit, or if the number exceeds `max`.
fn digits_up_to(s: &[u8], max: u64) -> (r: Option<u64>)
    requires
        max <= 0xffff_ffff,
    ensures
        match r {
            Some(v) => s@.len() > 0 && all_digits(s@) && value_of(s@) == v && v <= max,
            None => s@.len() == 0 || !all_digits(s@) || value_of(s@) > max,
        },
{
    if s.len() == 0 {
        return None;
    }
    let mut v: u64 = 0;
    let mut i: usize = 0;
    let mut over: bool = false;
    while i < s.len()
        invariant
            i <= s.len(),
            max <= 0xffff_ffff,
            all_digits(s@.take(i as int)),
            !over ==> v == value_of(s@.take(i as int)) && v <= max,
            over ==> value_of(s@.take(i as int)) > max,
        decreases s.len() - i,
    {
        let b: u8 = s[i];
        if b < 0x30 || b > 0x39 {
            assert(!is_digit(s@[i as int]));
            return None;
        }
        proof {
            let grown = s@.take(i + 1);
            assert(grown.drop_last() =~= s@.take(i as int));
            assert(forall|k: int| 0 <= k < i ==> grown[k] == s@.take(i as int)[k]);
            assert(grown[i as int] == b);
            assert(all_digits(grown));
            value_grows(grown, i as int);
            assert(grown.take(i as int) =~= s@.take(i as int));
        }
        if !over {
            v = v * 10 + (b - 0x30) as u64;
            if v > max {
                over = true;
            }
        }
        i += 1;
    }
    assert(s@.take(i as int) =~= s@);
    if over {
        None
    } else {
        Some(v)
    }
}

fn unsigned_up_to(s: &[u8], max: u64) -> (r: Option<u64>)
    requires
        max <= 0xffff_ffff,
    ensures
        match r {
            Some(v) => unsigned(s@, max as nat) == Some(v as nat) && v <= max,
            None => unsigned(s@, max as nat) is None,
        },
{
    if s.len() > 0 && s[0] == 0x2b {
        let digits = slice_subrange(s, 1, s.len());
        assert(digits@ =~= s@.skip(1));
        digits_up_to(digits, max)
    } else {
        digits_up_to(s, max)
    }
}

/// The `u32` that `s` writes.
pub fn parse_u32(s: &[u8]) -> (r: Option<u32>)
    ensures
        match r {
            Some(v) => unsigned(s@, u32::MAX as nat) == Some(v as nat),
            None => unsigned(s@, u32::MAX as nat) is None,
        },
{
    match unsigned_up_to(s, 0xffff_ffff) {
        Some(v) => Some(v as u32),
        None => None,
    }
}

/// The `u16` that `s` writes.
pub fn parse_u16(s: &[u8]) -> (r: Option<u16>)
    ensures
        match r {
            Some(v) => unsigned(s@, u16::MAX as nat) == Some(v as nat),
            None => unsigned(s@, u16::MAX as nat) is None,
        },
{
    match unsigned_up_to(s, 0xffff) {
        Some(v) => Some(v as u16),
        None => None,
    }
}

/// The `i32` that `s` writes.
pub fn parse_i32(s: &[u8]) -> (r: Option<i32>)
    ensures
        match r {
            Some(v) => signed(s@) == Some(v as int),
            None => signed(s@) is None,
        },
{
    if s.len() > 0 && s[0] == 0x2d {
        let digits = slice_subrange(s, 1, s.len());
        assert(digits@ =~= s@.skip(1));
        match digits_up_to(digits, 0x8000_0000) {
            Some(v) => Some((0 - v as i64) as i32),
            None => None,
        }
    } else {
        match unsigned_up_to(s, 0x7fff_ffff) {
            Some(v) => Some(v as i32),
            None => None,
        }
    }
}

/// The number that digits write, or the largest `u32` if it is larger.
pub open spec fn clamped(v: nat) -> u32 {
    if v > u32::MAX {
        u32::MAX
    } else {
        v as u32
    }
}

/// The number that the digits write, as far as a `u32` can hold it.
pub(crate) fn saturating_value(s: &[u8]) -> (v: u32)
    requires
        all_digits(s@),
    ensures
        v == clamped(value_of(s@)),
{
    let mut v: u32 = 0;
    let mut i: usize = 0;
    assert(s@.take(0).len() == 0);
    while i < s.len()
        invariant
            i <= s.len(),
            all_digits(s@),
            v == clamped(value_of(s@.take(i as int))),
        decreases s.len() - i,
    {
        assert(is_digit(s@[i as int]));
        assert(s@.take(i + 1).drop_last() =~= s@.take(i as int));
        let wide: u64 = v as u64 * 10 + (s[i] - 0x30) as u64;
        v = if wide > u32::MAX as u64 {
            u32::MAX
        } else {
            wide as u32
        };
        i += 1;
    }
    assert(s@.take(i as int) =~= s@);
    v
}

/// The length of the longest beginning of `s` that consists of digits.
pub open spec fn digit_run(s: Seq<u8>) -> int
    decreases s.len(),
{
    if s.len() == 0 || !is_digit(s[0]) {
        0
    } else {
        1 + digit_run(s.skip(1))
    }
}

pub proof fn digit_run_bounds(s: Seq<u8>)
    ensures
        0 <= digit_run(s) <= s.len(),
        all_digits(s.take(digit_run(s))),
        digit_run(s) < s.len() ==> !is_digit(s[digit_run(s)]),
    decreases s.len(),
{
    if s.len() > 0 && is_digit(s[0]) {
        digit_run_bounds(s.skip(1));
        let n = digit_run(s);
        assert forall|i: int| 0 <= i < n implies is_digit(#[trigger] s.take(n)[i]) by {
            if i > 0 {
                assert(s.skip(1).take(n - 1)[i - 1] == s.take(n)[i]);
            }
        }
    }
}

/// A beginning of digits that ends before a non-digit or with `s` is the longest.
pub proof fn digit_run_is(s: Seq<u8>, n: int)
    requires
        0 <= n <= s.len(),
        all_digits(s.take(n)),
        n < s.len() ==> !is_digit(s[n]),
    ensures
        digit_run(s) == n,
{
    digit_run_bounds(s);
    let m = digit_run(s);
    if m < n {
        assert(s.take(n)[m] == s[m]);
    } else if n < m {
        assert(s.take(m)[n] == s[n]);
    }
}

} // verus!
