//! The rendition of new cells (SGR).
use crate::attrs::{Attrs, UnderlineStyle};
use crate::color::Color;
use crate::cursor::Cursor;
use vstd::prelude::*;

verus! {

/// The lists of numbers in a list of vectors.
pub open spec fn groups(v: Seq<Vec<u16>>) -> Seq<Seq<u16>> {
    Seq::new(v.len(), |i: int| v[i]@)
}

/// Whether a group selects an underline style: `4` with a sub-parameter.
pub open spec fn is_style(g: Seq<u16>) -> bool {
    g.len() >= 2 && g[0] == 4
}

/// The codes of a group. A color given as red, green and blue with colons may name a
/// color space before them, which is dropped.
pub open spec fn group_codes(g: Seq<u16>) -> Seq<u16> {
    if is_style(g) {
        Seq::empty()
    } else if g.len() == 6 && (g[0] == 38 || g[0] == 48 || g[0] == 58) && g[1] == 2 {
        seq![g[0], 2, g[3], g[4], g[5]]
    } else {
        g
    }
}

/// The codes of a list of groups.
pub open spec fn all_codes(p: Seq<Seq<u16>>) -> Seq<u16>
    decreases p.len(),
{
    if p.len() == 0 {
        Seq::empty()
    } else {
        all_codes(p.drop_last()) + group_codes(p.last())
    }
}

/// The pen with an underline style. The style without a line clears the underline.
pub open spec fn styled(c: Cursor, style: u16) -> Cursor {
    Cursor {
        attrs: if style == 0 {
            c.attrs.without(Attrs::UNDERLINE)
        } else {
            c.attrs.with(Attrs::UNDERLINE)
        },
        underline_style: crate::attrs::style_of_code(style),
        ..c
    }
}

/// The pen after the underline styles of a list of groups.
pub open spec fn all_styles(c: Cursor, p: Seq<Seq<u16>>) -> Cursor
    decreases p.len(),
{
    if p.len() == 0 {
        c
    } else {
        let done = all_styles(c, p.drop_last());
        if is_style(p.last()) {
            styled(done, p.last()[1])
        } else {
            done
        }
    }
}

/// The color after `38`, `48` or `58`, and the number of codes that it takes.
pub open spec fn extended_color(s: Seq<u16>) -> (Option<Color>, int) {
    if s.len() >= 2 && s[0] == 5 {
        (Some(Color::Indexed(s[1] as u8)), 2)
    } else if s.len() >= 4 && s[0] == 2 {
        (Some(Color::Rgb(s[1] as u8, s[2] as u8, s[3] as u8)), 4)
    } else {
        (None, 0)
    }
}

/// The color that a code gives to text or background, where `base` is the first
/// code of its kind.
pub open spec fn color_after(
    current: Color,
    base: int,
    bright: int,
    n: u16,
    rest: Seq<u16>,
) -> Color {
    if base <= n < base + 8 {
        Color::Indexed((n - base) as u8)
    } else if n == base + 8 {
        match extended_color(rest).0 {
            Some(c) => c,
            None => current,
        }
    } else if n == base + 9 {
        Color::Default
    } else if bright <= n < bright + 8 {
        Color::Indexed((n - bright + 8) as u8)
    } else {
        current
    }
}

/// The attributes after a code.
pub open spec fn attrs_after(a: Attrs, n: u16) -> Attrs {
    if n == 0 {
        Attrs { bits: 0 }
    } else if n == 1 {
        a.with(Attrs::BOLD)
    } else if n == 2 {
        a.with(Attrs::DIM)
    } else if n == 3 {
        a.with(Attrs::ITALIC)
    } else if n == 4 {
        a.with(Attrs::UNDERLINE)
    } else if n == 5 {
        a.with(Attrs::BLINK)
    } else if n == 7 {
        a.with(Attrs::REVERSE)
    } else if n == 8 {
        a.with(Attrs::HIDDEN)
    } else if n == 9 {
        a.with(Attrs::STRIKETHROUGH)
    } else if n == 22 {
        a.without(Attrs::BOLD).without(Attrs::DIM)
    } else if n == 23 {
        a.without(Attrs::ITALIC)
    } else if n == 24 {
        a.without(Attrs::UNDERLINE)
    } else if n == 25 {
        a.without(Attrs::BLINK)
    } else if n == 27 {
        a.without(Attrs::REVERSE)
    } else if n == 28 {
        a.without(Attrs::HIDDEN)
    } else if n == 29 {
        a.without(Attrs::STRIKETHROUGH)
    } else {
        a
    }
}

/// The pen after the code `n`, where `rest` follows it.
pub open spec fn coded(c: Cursor, n: u16, rest: Seq<u16>) -> Cursor {
    Cursor {
        attrs: attrs_after(c.attrs, n),
        fg: if n == 0 {
            Color::Default
        } else {
            color_after(c.fg, 30, 90, n, rest)
        },
        bg: if n == 0 {
            Color::Default
        } else {
            color_after(c.bg, 40, 100, n, rest)
        },
        underline_color: if n == 0 || n == 59 {
            Color::Default
        } else if n == 58 {
            match extended_color(rest).0 {
                Some(color) => color,
                None => c.underline_color,
            }
        } else {
            c.underline_color
        },
        underline_style: if n == 0 || n == 24 {
            UnderlineStyle::Off
        } else if n == 4 {
            UnderlineStyle::Single
        } else {
            c.underline_style
        },
        ..c
    }
}

/// The number of codes that `n` and what belongs to it take.
pub open spec fn codes_taken(n: u16, rest: Seq<u16>) -> int {
    if n == 38 || n == 48 || n == 58 {
        1 + extended_color(rest).1
    } else {
        1
    }
}

/// The pen after a list of codes.
pub open spec fn all_coded(c: Cursor, codes: Seq<u16>) -> Cursor
    decreases codes.len(),
{
    if codes.len() == 0 {
        c
    } else {
        let rest = codes.skip(1);
        all_coded(coded(c, codes[0], rest), codes.skip(codes_taken(codes[0], rest)))
    }
}

/// The pen after SGR with these parameters: the underline styles first, then the
/// codes in their order.
pub open spec fn rendition(c: Cursor, p: Seq<Seq<u16>>) -> Cursor {
    all_coded(all_styles(c, p), all_codes(p))
}

fn parse_extended_color(codes: &Vec<u16>, at: usize) -> (r: (Option<Color>, usize))
    requires
        at <= codes@.len(),
    ensures
        r.0 == extended_color(codes@.skip(at as int)).0,
        r.1 == extended_color(codes@.skip(at as int)).1,
        at + r.1 <= codes@.len(),
{
    let left: usize = codes.len() - at;
    if left >= 2 && codes[at] == 5 {
        (Some(Color::Indexed(codes[at + 1] as u8)), 2)
    } else if left >= 4 && codes[at] == 2 {
        (
            Some(Color::Rgb(codes[at + 1] as u8, codes[at + 2] as u8, codes[at + 3] as u8)),
            4,
        )
    } else {
        (None, 0)
    }
}

fn push_codes(codes: &mut Vec<u16>, g: &Vec<u16>)
    ensures
        final(codes)@ == old(codes)@ + group_codes(g@),
{
    let ghost before = codes@;
    if g.len() >= 2 && g[0] == 4 {
        assert(codes@ =~= before + Seq::empty());
    } else if g.len() == 6 && (g[0] == 38 || g[0] == 48 || g[0] == 58) && g[1] == 2 {
        codes.push(g[0]);
        codes.push(2);
        codes.push(g[3]);
        codes.push(g[4]);
        codes.push(g[5]);
        assert(codes@ =~= before + seq![g@[0], 2, g@[3], g@[4], g@[5]]);
    } else {
        let mut i: usize = 0;
        while i < g.len()
            invariant
                i <= g.len(),
                codes@ =~= before + g@.take(i as int),
            decreases g.len() - i,
        {
            codes.push(g[i]);
            i += 1;
        }
        assert(g@.take(i as int) =~= g@);
    }
}

fn apply_code(c: &mut Cursor, n: u16, color: Option<Color>)
    ensures
        forall|rest: Seq<u16>| color == extended_color(rest).0 ==> *final(c) == #[trigger] coded(
            *old(c),
            n,
            rest,
        ),
{
    match n {
        0 => {
            c.attrs = Attrs::empty();
            c.fg = Color::Default;
            c.bg = Color::Default;
            c.underline_color = Color::Default;
            c.underline_style = UnderlineStyle::Off;
        },
        1 => {
            c.attrs.insert(Attrs::BOLD);
        },
        2 => {
            c.attrs.insert(Attrs::DIM);
        },
        3 => {
            c.attrs.insert(Attrs::ITALIC);
        },
        4 => {
            c.attrs.insert(Attrs::UNDERLINE);
            c.underline_style = UnderlineStyle::Single;
        },
        5 => {
            c.attrs.insert(Attrs::BLINK);
        },
        7 => {
            c.attrs.insert(Attrs::REVERSE);
        },
        8 => {
            c.attrs.insert(Attrs::HIDDEN);
        },
        9 => {
            c.attrs.insert(Attrs::STRIKETHROUGH);
        },
        22 => {
            c.attrs.remove(Attrs::BOLD);
            c.attrs.remove(Attrs::DIM);
        },
        23 => {
            c.attrs.remove(Attrs::ITALIC);
        },
        24 => {
            c.attrs.remove(Attrs::UNDERLINE);
            c.underline_style = UnderlineStyle::Off;
        },
        25 => {
            c.attrs.remove(Attrs::BLINK);
        },
        27 => {
            c.attrs.remove(Attrs::REVERSE);
        },
        28 => {
            c.attrs.remove(Attrs::HIDDEN);
        },
        29 => {
            c.attrs.remove(Attrs::STRIKETHROUGH);
        },
        30..=37 => {
            c.fg = Color::from_ansi_basic((n - 30) as u8);
        },
        38 => {
            if let Some(color) = color {
                c.fg = color;
            }
        },
        39 => {
            c.fg = Color::Default;
        },
        40..=47 => {
            c.bg = Color::from_ansi_basic((n - 40) as u8);
        },
        48 => {
            if let Some(color) = color {
                c.bg = color;
            }
        },
        49 => {
            c.bg = Color::Default;
        },
        58 => {
            if let Some(color) = color {
                c.underline_color = color;
            }
        },
        59 => {
            c.underline_color = Color::Default;
        },
        90..=97 => {
            c.fg = Color::from_ansi_bright((n - 90) as u8);
        },
        100..=107 => {
            c.bg = Color::from_ansi_bright((n - 100) as u8);
        },
        _ => {},
    }
}

/// Applies SGR with these parameters to the pen.
pub(crate) fn handle_sgr(c: &mut Cursor, params: &[Vec<u16>])
    ensures
        *final(c) == rendition(*old(c), groups(params@)),
{
    let ghost start = *c;
    let ghost p = groups(params@);
    let mut codes: Vec<u16> = Vec::new();
    let mut k: usize = 0;
    assert(p.take(0).len() == 0);
    while k < params.len()
        invariant
            k <= params.len(),
            p == groups(params@),
            *c == all_styles(start, p.take(k as int)),
            codes@ == all_codes(p.take(k as int)),
        decreases params.len() - k,
    {
        let g: &Vec<u16> = &params[k];
        assert(p.take(k + 1).drop_last() =~= p.take(k as int));
        assert(p.take(k + 1).last() == g@);
        if g.len() >= 2 && g[0] == 4 {
            if g[1] == 0 {
                c.attrs.remove(Attrs::UNDERLINE);
                c.underline_style = UnderlineStyle::Off;
            } else {
                c.attrs.insert(Attrs::UNDERLINE);
                c.underline_style = UnderlineStyle::from_sgr_subparam(g[1]);
            }
        }
        push_codes(&mut codes, g);
        k += 1;
    }
    assert(p.take(k as int) =~= p);
    let ghost styled_pen = *c;
    let mut i: usize = 0;
    assert(codes@.skip(0) =~= codes@);
    while i < codes.len()
        invariant
            i <= codes.len(),
            all_coded(styled_pen, codes@) == all_coded(*c, codes@.skip(i as int)),
        decreases codes.len() - i,
    {
        let n: u16 = codes[i];
        let ghost rest = codes@.skip(i as int).skip(1);
        assert(rest =~= codes@.skip(i + 1));
        let (color, taken) = parse_extended_color(&codes, i + 1);
        apply_code(c, n, color);
        if n == 38 || n == 48 || n == 58 {
            assert(codes@.skip(i as int).skip(1 + taken) =~= codes@.skip(i + 1 + taken));
            i += taken;
        } else {
            assert(codes@.skip(i as int).skip(1) =~= codes@.skip(i + 1));
        }
        i += 1;
    }
}

} // verus!
