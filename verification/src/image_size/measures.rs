//! What holds of the sizes that are read from images.
use super::{extent, jpeg_size, png_signature, png_size, sixel_size, Extent};
use crate::reply::{decimal, decimals_read_back};
use crate::scan::first_is;
use vstd::prelude::*;

verus! {

/// A number in four bytes, the highest first.
pub open spec fn in_four(n: u32) -> Seq<u8> {
    seq![
        (n as int / 0x100_0000) as u8,
        (n as int / 0x1_0000 % 0x100) as u8,
        (n as int / 0x100 % 0x100) as u8,
        (n as int % 0x100) as u8,
    ]
}

/// A number in two bytes, the higher first.
pub open spec fn in_two(n: u16) -> Seq<u8> {
    seq![(n as int / 0x100) as u8, (n as int % 0x100) as u8]
}

/// A PNG file has the width and the height that stand behind its signature and the
/// head of its first chunk, in this order.
pub proof fn the_size_of_a_png(w: u32, h: u32, head: Seq<u8>, rest: Seq<u8>)
    requires
        head.len() == 8,
    ensures
        png_size(
            seq![0x89u8, 0x50u8, 0x4eu8, 0x47u8, 0x0du8, 0x0au8, 0x1au8, 0x0au8] + head + in_four(
                w,
            ) + in_four(h) + rest,
        ) == Some((w, h)),
{
    let sig = seq![0x89u8, 0x50u8, 0x4eu8, 0x47u8, 0x0du8, 0x0au8, 0x1au8, 0x0au8];
    let s = sig + head + in_four(w) + in_four(h) + rest;
    assert(s.take(8) =~= png_signature());
    let a = in_four(w);
    let b = in_four(h);
    assert(s[16] == a[0] && s[17] == a[1] && s[18] == a[2] && s[19] == a[3]);
    assert(s[20] == b[0] && s[21] == b[1] && s[22] == b[2] && s[23] == b[3]);
    four_bytes(w);
    four_bytes(h);
}

proof fn four_bytes(n: u32)
    ensures
        ({
            let s = in_four(n);
            s[0] * 0x100_0000 + s[1] * 0x1_0000 + s[2] * 0x100 + s[3] == n
        }),
{
    let x = n as int;
    assert(0 <= x / 0x100_0000 < 0x100);
}

/// A JPEG file has the size of its first frame, which states the height before the
/// width.
pub proof fn the_size_of_a_jpeg(w: u16, h: u16, marker: u8, length: Seq<u8>, depth: u8, rest: Seq<u8>)
    requires
        marker == 0xc0 || marker == 0xc1 || marker == 0xc2,
        length.len() == 2,
    ensures
        jpeg_size(
            seq![0xffu8, 0xd8u8, 0xffu8, marker] + length + seq![depth] + in_two(h) + in_two(w)
                + rest,
        ) == Some((w as u32, h as u32)),
{
    let s = seq![0xffu8, 0xd8u8, 0xffu8, marker] + length + seq![depth] + in_two(h) + in_two(w)
        + rest;
    let a = in_two(h);
    let b = in_two(w);
    assert(s[0] == 0xff && s[1] == 0xd8 && s[2] == 0xff && s[3] == marker);
    assert(s[7] == a[0] && s[8] == a[1] && s[9] == b[0] && s[10] == b[1]);
    assert(s.len() >= 11);
    reveal_with_fuel(super::frame_size, 2);
}

/// Sixels that stand side by side are as many columns wide and one band of six rows
/// high.
pub proof fn sixels_side_by_side(n: nat, x: u8)
    requires
        1 <= n <= u32::MAX,
        0x3f <= x <= 0x7e,
    ensures
        sixel_size(Seq::new(n, |i: int| x)) == Some((n as u32, 6u32)),
{
    let s = Seq::new(n, |i: int| x);
    first_is(s, 0x22, n as int);
    a_run_of_sixels(n, x, Extent::start());
}

proof fn a_run_of_sixels(n: nat, x: u8, e: Extent)
    requires
        0x3f <= x <= 0x7e,
    ensures
        ({
            let r = extent(Seq::new(n, |i: int| x), e);
            &&& r.x == e.x + n
            &&& r.bands == e.bands
            &&& n > 0 ==> r.drawn
            &&& n == 0 ==> r == e
            &&& r.widest == (if n > 0 && e.x + n > e.widest {
                e.x + n
            } else {
                e.widest
            })
        }),
    decreases n,
{
    let s = Seq::new(n, |i: int| x);
    if n > 0 {
        assert(s.skip(1) =~= Seq::new((n - 1) as nat, |i: int| x));
        a_run_of_sixels((n - 1) as nat, x, e.draw(1));
    }
}

/// A new line of sixels begins at the left, six rows further down; a carriage return
/// begins at the left in the same rows.
pub proof fn lines_of_sixels(a: nat, b: nat, x: u8)
    requires
        1 <= a <= u32::MAX,
        1 <= b <= u32::MAX,
        0x3f <= x <= 0x7e,
    ensures
        ({
            let upper = Seq::new(a, |i: int| x);
            let lower = Seq::new(b, |i: int| x);
            let widest = if a > b {
                a
            } else {
                b
            };
            &&& sixel_size(upper + seq![0x2du8] + lower) == Some((widest as u32, 12u32))
            &&& sixel_size(upper + seq![0x24u8] + lower) == Some((widest as u32, 6u32))
        }),
{
    let upper = Seq::new(a, |i: int| x);
    let lower = Seq::new(b, |i: int| x);
    let s = upper + seq![0x2du8] + lower;
    let t = upper + seq![0x24u8] + lower;
    first_is(s, 0x22, s.len() as int);
    first_is(t, 0x22, t.len() as int);
    sixels_and_more(a, x, seq![0x2du8] + lower, Extent::start());
    sixels_and_more(a, x, seq![0x24u8] + lower, Extent::start());
    assert(s =~= upper + (seq![0x2du8] + lower));
    assert(t =~= upper + (seq![0x24u8] + lower));
    let e = extent(upper, Extent::start());
    a_run_of_sixels(a, x, Extent::start());
    assert((seq![0x2du8] + lower).skip(1) =~= lower);
    assert((seq![0x24u8] + lower).skip(1) =~= lower);
    a_run_of_sixels(b, x, Extent { x: 0, bands: e.bands + 1, ..e });
    a_run_of_sixels(b, x, Extent { x: 0, ..e });
}

proof fn sixels_and_more(n: nat, x: u8, rest: Seq<u8>, e: Extent)
    requires
        0x3f <= x <= 0x7e,
    ensures
        extent(Seq::new(n, |i: int| x) + rest, e) == extent(
            rest,
            extent(Seq::new(n, |i: int| x), e),
        ),
    decreases n,
{
    let run = Seq::new(n, |i: int| x);
    if n == 0 {
        assert(run + rest =~= rest);
        assert(extent(run, e) == e);
    } else {
        let shorter = Seq::new((n - 1) as nat, |i: int| x);
        assert(run.skip(1) =~= shorter);
        assert((run + rest).skip(1) =~= shorter + rest);
        sixels_and_more((n - 1) as nat, x, rest, e.draw(1));
    }
}

/// A sixel that is repeated is as wide as it is often.
pub proof fn sixels_repeated(n: nat, x: u8)
    requires
        1 <= n <= u32::MAX,
        0x3f <= x <= 0x7e,
    ensures
        sixel_size(seq![0x21u8] + decimal(n) + seq![x]) == Some((n as u32, 6u32)),
{
    let digits = decimal(n);
    let s = seq![0x21u8] + digits + seq![x];
    decimals_read_back(n);
    assert forall|k: int| 0 <= k < s.len() implies s[k] != 0x22 by {
        if 1 <= k <= digits.len() {
            assert(s[k] == digits[k - 1]);
            assert(crate::scan::is_digit(digits[k - 1]));
        }
    }
    first_is(s, 0x22, s.len() as int);
    let tail = s.skip(1);
    assert(tail.take(digits.len() as int) =~= digits);
    assert(tail[digits.len() as int] == x);
    crate::scan::digit_run_is(tail, digits.len() as int);
    let rest = s.skip(1 + digits.len() as int);
    assert(rest =~= seq![x]);
    assert(rest.skip(1) =~= Seq::empty());
    let e = Extent::start().draw(n);
    assert(extent(Seq::empty(), e) == e);
    assert(extent(s, Extent::start()) == e);
}

} // verus!
