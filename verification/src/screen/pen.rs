//! What the codes of a rendition do to the cells that are written from then on.
use super::model::ScreenView;
use super::sgr::{
    all_coded, all_codes, all_styles, coded, codes_taken, extended_color, group_codes, is_style,
    rendition,
};
use crate::attrs::{Attrs, UnderlineStyle};
use crate::color::Color;
use crate::cursor::Cursor;
use vstd::prelude::*;

verus! {

/// Codes, each a parameter of its own.
pub open spec fn each(codes: Seq<u16>) -> Seq<Seq<u16>> {
    Seq::new(codes.len(), |i: int| seq![codes[i]])
}

/// What the codes do to the screen.
pub open spec fn after_codes(s: ScreenView, codes: Seq<u16>) -> ScreenView {
    s.csi(each(codes), Seq::empty(), 'm')
}

/// What one parameter with several numbers in it does to the screen.
pub open spec fn after_group(s: ScreenView, g: Seq<u16>) -> ScreenView {
    s.csi(seq![g], Seq::empty(), 'm')
}

/// Only how new cells look changed.
pub open spec fn only_the_pen(s: ScreenView, t: ScreenView) -> bool {
    t == (ScreenView {
        cursor: Cursor {
            attrs: t.cursor.attrs,
            fg: t.cursor.fg,
            bg: t.cursor.bg,
            underline_color: t.cursor.underline_color,
            underline_style: t.cursor.underline_style,
            ..s.cursor
        },
        ..s
    })
}

proof fn codes_are_read(c: Cursor, codes: Seq<u16>)
    ensures
        rendition(c, each(codes)) == all_coded(c, codes),
{
    flattening(codes, codes.len() as int);
    assert(each(codes).take(codes.len() as int) =~= each(codes));
    assert(codes.take(codes.len() as int) =~= codes);
    no_styles(c, codes, codes.len() as int);
}

proof fn flattening(codes: Seq<u16>, n: int)
    requires
        0 <= n <= codes.len(),
    ensures
        all_codes(each(codes).take(n)) == codes.take(n),
    decreases n,
{
    if n == 0 {
        assert(codes.take(0) =~= Seq::empty());
    } else {
        flattening(codes, n - 1);
        let p = each(codes).take(n);
        assert(p.drop_last() =~= each(codes).take(n - 1));
        assert(p.last() == seq![codes[n - 1]]);
        assert(codes.take(n - 1) + seq![codes[n - 1]] =~= codes.take(n));
    }
}

proof fn no_styles(c: Cursor, codes: Seq<u16>, n: int)
    requires
        0 <= n <= codes.len(),
    ensures
        all_styles(c, each(codes).take(n)) == c,
    decreases n,
{
    if n > 0 {
        no_styles(c, codes, n - 1);
        let p = each(codes).take(n);
        assert(p.drop_last() =~= each(codes).take(n - 1));
        assert(p.last() == seq![codes[n - 1]]);
    }
}

proof fn the_codes_act(s: ScreenView, codes: Seq<u16>)
    ensures
        after_codes(s, codes) == (ScreenView { cursor: all_coded(s.cursor, codes), ..s }),
{
    reveal(ScreenView::csi);
    codes_are_read(s.cursor, codes);
}

proof fn one_code(s: ScreenView, n: u16)
    ensures
        after_codes(s, seq![n]) == (ScreenView { cursor: coded(s.cursor, n, Seq::empty()), ..s }),
{
    the_codes_act(s, seq![n]);
    let codes = seq![n];
    assert(codes.skip(1) =~= Seq::empty());
    assert(codes_taken(n, codes.skip(1)) == 1);
    assert(all_coded(coded(s.cursor, n, codes.skip(1)), codes.skip(1)) == coded(
        s.cursor,
        n,
        codes.skip(1),
    ));
}

/// A code that switches an attribute on, the one that switches it off, and the
/// attribute.
pub open spec fn switches(on: u16, off: u16, flag: u16) -> bool {
    ||| on == 1 && off == 22 && flag == Attrs::BOLD
    ||| on == 2 && off == 22 && flag == Attrs::DIM
    ||| on == 3 && off == 23 && flag == Attrs::ITALIC
    ||| on == 4 && off == 24 && flag == Attrs::UNDERLINE
    ||| on == 5 && off == 25 && flag == Attrs::BLINK
    ||| on == 7 && off == 27 && flag == Attrs::REVERSE
    ||| on == 8 && off == 28 && flag == Attrs::HIDDEN
    ||| on == 9 && off == 29 && flag == Attrs::STRIKETHROUGH
}

proof fn bits_of_attributes(b: u16, f: u16, g: u16)
    by (bit_vector)
    requires
        f == 1 || f == 2 || f == 4 || f == 8 || f == 16 || f == 32 || f == 64 || f == 128,
        g == 1 || g == 2 || g == 4 || g == 8 || g == 16 || g == 32 || g == 64 || g == 128,
        f != g,
    ensures
        (b | f) & f == f,
        (b & !f) & f != f,
        (b | g) & f == b & f,
        (b & !g) & f == b & f,
        ((b & !1) & !2) & 1 != 1,
        ((b & !1) & !2) & 2 != 2,
        f != 1 && f != 2 ==> ((b & !1) & !2) & f == b & f,
{
}

/// Each attribute has its own code to switch it on, and one to switch it off; bold and
/// dim have one for both. No code touches another attribute or a color.
pub proof fn attributes_are_switched(
    s: ScreenView,
    on: u16,
    off: u16,
    flag: u16,
    on2: u16,
    off2: u16,
    other: u16,
)
    requires
        switches(on, off, flag),
        switches(on2, off2, other),
        flag != other,
    ensures
        ({
            let a = after_codes(s, seq![on]);
            let b = after_codes(s, seq![off]);
            &&& only_the_pen(s, a) && only_the_pen(s, b)
            &&& a.cursor.attrs.has(flag)
            &&& !b.cursor.attrs.has(flag)
            &&& a.cursor.attrs.has(other) == s.cursor.attrs.has(other)
            &&& off != off2 ==> b.cursor.attrs.has(other) == s.cursor.attrs.has(other)
            &&& off == off2 ==> !b.cursor.attrs.has(other)
            &&& a.cursor.fg == s.cursor.fg && a.cursor.bg == s.cursor.bg
            &&& a.cursor.underline_color == s.cursor.underline_color
            &&& b.cursor.fg == s.cursor.fg && b.cursor.bg == s.cursor.bg
            &&& b.cursor.underline_color == s.cursor.underline_color
            &&& a.cursor.underline_style == (if on == 4 {
                UnderlineStyle::Single
            } else {
                s.cursor.underline_style
            })
            &&& b.cursor.underline_style == (if off == 24 {
                UnderlineStyle::Off
            } else {
                s.cursor.underline_style
            })
        }),
{
    one_code(s, on);
    one_code(s, off);
    let b: u16 = s.cursor.attrs.bits;
    bits_of_attributes(b, flag, other);
    bits_of_attributes(b, other, flag);
}

/// A color of the palette by its own code: the eight dark ones and the eight bright
/// ones, for the text and for the background; and the default color.
pub proof fn named_colors(s: ScreenView, k: u16)
    requires
        k < 8,
    ensures
        ({
            let text = |n: int, c: Color| {
                let t = after_codes(s, seq![n as u16]);
                t == (ScreenView { cursor: Cursor { fg: c, ..s.cursor }, ..s })
            };
            let ground = |n: int, c: Color| {
                let t = after_codes(s, seq![n as u16]);
                t == (ScreenView { cursor: Cursor { bg: c, ..s.cursor }, ..s })
            };
            &&& text(30 + k, Color::Indexed(k as u8))
            &&& text(90 + k, Color::Indexed((8 + k) as u8))
            &&& text(39, Color::Default)
            &&& ground(40 + k, Color::Indexed(k as u8))
            &&& ground(100 + k, Color::Indexed((8 + k) as u8))
            &&& ground(49, Color::Default)
            &&& after_codes(s, seq![59u16]) == (ScreenView {
                cursor: Cursor { underline_color: Color::Default, ..s.cursor },
                ..s
            })
        }),
{
    one_code(s, (30 + k) as u16);
    one_code(s, (90 + k) as u16);
    one_code(s, 39);
    one_code(s, (40 + k) as u16);
    one_code(s, (100 + k) as u16);
    one_code(s, 49);
    one_code(s, 59);
}

proof fn the_codes_of_a_color(s: ScreenView, n: u16, rest: Seq<u16>)
    requires
        n == 38 || n == 48 || n == 58,
        extended_color(rest).0 is Some,
        extended_color(rest).1 == rest.len(),
    ensures
        after_codes(s, seq![n] + rest) == (ScreenView {
            cursor: coded(s.cursor, n, rest),
            ..s
        }),
        all_coded(s.cursor, seq![n] + rest) == coded(s.cursor, n, rest),
{
    let codes = seq![n] + rest;
    the_codes_act(s, codes);
    assert(codes.skip(1) =~= rest);
    assert(codes.skip(1 + rest.len() as int) =~= Seq::empty());
    assert(all_coded(coded(s.cursor, n, rest), Seq::empty()) == coded(s.cursor, n, rest));
}

/// A color of the large palette and one of red, green and blue, for the text (38), the
/// background (48) and the underline (58), written as parameters of their own or as
/// one.
pub proof fn extended_colors(s: ScreenView, n: u16, k: u8, r: u8, g: u8, b: u8)
    requires
        n == 38 || n == 48 || n == 58,
    ensures
        ({
            let drawn = |t: ScreenView, c: Color| {
                &&& n == 38 ==> t == (ScreenView { cursor: Cursor { fg: c, ..s.cursor }, ..s })
                &&& n == 48 ==> t == (ScreenView { cursor: Cursor { bg: c, ..s.cursor }, ..s })
                &&& n == 58 ==> t == (ScreenView {
                    cursor: Cursor { underline_color: c, ..s.cursor },
                    ..s
                })
            };
            let palette = Color::Indexed(k);
            let mixed = Color::Rgb(r, g, b);
            &&& drawn(after_codes(s, seq![n, 5u16, k as u16]), palette)
            &&& drawn(after_group(s, seq![n, 5u16, k as u16]), palette)
            &&& drawn(after_codes(s, seq![n, 2u16, r as u16, g as u16, b as u16]), mixed)
            &&& drawn(after_group(s, seq![n, 2u16, r as u16, g as u16, b as u16]), mixed)
            &&& drawn(
                after_group(s, seq![n, 2u16, 0u16, r as u16, g as u16, b as u16]),
                mixed,
            )
        }),
{
    let five = seq![5u16, k as u16];
    let two = seq![2u16, r as u16, g as u16, b as u16];
    the_codes_of_a_color(s, n, five);
    the_codes_of_a_color(s, n, two);
    let a = seq![n, 5u16, k as u16];
    let c = seq![n, 2u16, r as u16, g as u16, b as u16];
    let e = seq![n, 2u16, 0u16, r as u16, g as u16, b as u16];
    assert(seq![n] + five =~= a);
    assert(seq![n] + two =~= c);
    one_group(s, a);
    one_group(s, c);
    one_group(s, e);
    assert(group_codes(e) =~= c);
}

proof fn one_group(s: ScreenView, g: Seq<u16>)
    ensures
        !is_style(g) ==> after_group(s, g) == (ScreenView {
            cursor: all_coded(s.cursor, group_codes(g)),
            ..s
        }),
        is_style(g) ==> after_group(s, g) == (ScreenView {
            cursor: super::sgr::styled(s.cursor, g[1]),
            ..s
        }),
{
    reveal(ScreenView::csi);
    let p = seq![g];
    assert(p.drop_last() =~= Seq::empty());
    assert(p.last() == g);
    assert(all_codes(p.drop_last()) == Seq::<u16>::empty());
    assert(all_styles(s.cursor, p.drop_last()) == s.cursor);
    assert(all_codes(p) =~= group_codes(g));
    if is_style(g) {
        let c = super::sgr::styled(s.cursor, g[1]);
        assert(all_styles(s.cursor, p) == c);
        assert(all_coded(c, Seq::empty()) == c);
    }
}

/// The styles of an underline, and that there is one at all.
pub proof fn underlines_have_styles(s: ScreenView, style: u16)
    ensures
        ({
            let t = after_group(s, seq![4u16, style]);
            let u = t.cursor.underline_style;
            &&& only_the_pen(s, t)
            &&& t.cursor.fg == s.cursor.fg && t.cursor.bg == s.cursor.bg
            &&& t.cursor.underline_color == s.cursor.underline_color
            &&& t.cursor.attrs.has(Attrs::UNDERLINE) == (style != 0)
            &&& style == 0 ==> u == UnderlineStyle::Off
            &&& style == 1 ==> u == UnderlineStyle::Single
            &&& style == 2 ==> u == UnderlineStyle::Double
            &&& style == 3 ==> u == UnderlineStyle::Curly
            &&& style == 4 ==> u == UnderlineStyle::Dotted
            &&& style == 5 ==> u == UnderlineStyle::Dashed
        }),
{
    one_group(s, seq![4u16, style]);
    bits_of_attributes(s.cursor.attrs.bits, 8, 1);
}

/// A zero takes back all that renditions did, and nothing else.
pub proof fn a_zero_resets_the_pen(s: ScreenView)
    ensures
        ({
            let t = after_codes(s, seq![0u16]);
            &&& only_the_pen(s, t)
            &&& t.cursor.attrs.bits == 0
            &&& t.cursor.fg == Color::Default
            &&& t.cursor.bg == Color::Default
            &&& t.cursor.underline_color == Color::Default
            &&& t.cursor.underline_style == UnderlineStyle::Off
        }),
{
    one_code(s, 0);
}

/// Codes act one after the other: two sequences do what one with all the codes does,
/// unless a color is cut in two.
pub proof fn codes_act_in_their_order(s: ScreenView, n: u16, rest: Seq<u16>)
    requires
        n != 38 && n != 48 && n != 58,
    ensures
        after_codes(s, seq![n] + rest) == after_codes(after_codes(s, seq![n]), rest),
{
    one_code(s, n);
    the_codes_act(s, seq![n] + rest);
    the_codes_act(after_codes(s, seq![n]), rest);
    assert((seq![n] + rest).skip(1) =~= rest);
}

} // verus!
