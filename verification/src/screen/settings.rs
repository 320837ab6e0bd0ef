//! What a program switches, negotiates and asks for, and what it is answered.
use super::model::{b, ScreenView};
use super::sequences::only_moved;
use crate::modes::Modes;
use crate::reply::decimal;
use vstd::prelude::*;
use vstd::utf8::is_ascii_chars_encode_utf8;

verus! {

/// The sign of a private sequence, a question mark.
pub open spec fn private() -> Seq<u8> {
    seq![0x3fu8]
}

/// What a private mode is good for: the flag by which the rest of the terminal knows it.
pub open spec fn meaning(code: int, flag: u64) -> bool {
    ||| code == 1 && flag == Modes::APP_CURSOR_KEYS
    ||| code == 6 && flag == Modes::ORIGIN
    ||| code == 7 && flag == Modes::AUTOWRAP
    ||| code == 9 && flag == Modes::MOUSE_X10
    ||| code == 25 && flag == Modes::CURSOR_VISIBLE
    ||| code == 1000 && flag == Modes::MOUSE_BTN
    ||| code == 1002 && flag == Modes::MOUSE_BTN_EVENT
    ||| code == 1003 && flag == Modes::MOUSE_ANY
    ||| code == 1004 && flag == Modes::FOCUS_EVENTS
    ||| code == 1006 && flag == Modes::MOUSE_SGR
    ||| code == 2004 && flag == Modes::BRACKETED_PASTE
    ||| code == 2031 && flag == Modes::COLOR_SCHEME_UPDATES
}

/// No two modes share a flag.
proof fn modes_have_flags_of_their_own(a: int, f: u64, c: int, g: u64)
    requires
        meaning(a, f),
        meaning(c, g),
        a != c,
    ensures
        f != 0,
        f & g == 0,
{
    single_bits(f, g);
}

proof fn single_bits(f: u64, g: u64)
    by (bit_vector)
    requires
        f == 0x1 || f == 0x2 || f == 0x10 || f == 0x20 || f == 0x40 || f == 0x80 || f == 0x100
            || f == 0x200 || f == 0x400 || f == 0x1000 || f == 0x2000 || f == 0x4000,
        g == 0x1 || g == 0x2 || g == 0x10 || g == 0x20 || g == 0x40 || g == 0x80 || g == 0x100
            || g == 0x200 || g == 0x400 || g == 0x1000 || g == 0x2000 || g == 0x4000,
        f != g,
    ensures
        f & g == 0,
{
}

/// Setting a private mode switches its flag on and resetting it switches it off. No
/// other mode changes. Nothing else changes either, but that the cursor goes home with
/// origin mode.
#[verifier::spinoff_prover]
pub proof fn switching_a_mode(s: ScreenView, code: u16, flag: u64, other: int, g: u64)
    requires
        s.wf(),
        s.in_bounds(),
        meaning(code as int, flag),
        meaning(other, g),
        other != code,
    ensures
        ({
            let on = s.csi(seq![seq![code]], private(), 'h');
            let off = s.csi(seq![seq![code]], private(), 'l');
            &&& on.modes.has(flag) && !off.modes.has(flag)
            &&& on.modes.has(g) == s.modes.has(g) && off.modes.has(g) == s.modes.has(g)
            &&& code != 6 ==> on == (ScreenView { modes: on.modes, ..s })
            &&& code != 6 ==> off == (ScreenView { modes: off.modes, ..s })
            &&& code == 6 ==> {
                &&& only_moved(ScreenView { modes: on.modes, ..s }, on)
                &&& on.cursor.row.0 == s.scroll_region.0 && on.cursor.col.0 == 0
                &&& only_moved(ScreenView { modes: off.modes, ..s }, off)
                &&& off.cursor.row.0 == 0 && off.cursor.col.0 == 0
            }
        }),
{
    switching_one(s, code, true);
    switching_one(s, code, false);
    modes_have_flags_of_their_own(code as int, flag, other, g);
    crate::modes::switching_one_mode_keeps_the_others(s.modes, flag, g, true);
    crate::modes::switching_one_mode_keeps_the_others(s.modes, flag, g, false);
}

pub(crate) proof fn switching_one(s: ScreenView, code: u16, on: bool)
    ensures
        s.csi(
            seq![seq![code]],
            private(),
            if on {
                'h'
            } else {
                'l'
            },
        ) == s.private_mode(code, on),
{
    let p = seq![seq![code]];
    lists_of_modes(s, p);
    reveal_with_fuel(ScreenView::modes_set, 2);
    assert(p.drop_last() =~= Seq::empty());
    assert(p[0][0] == code);
}

proof fn lists_of_modes(s: ScreenView, p: Seq<Seq<u16>>)
    ensures
        s.csi(p, private(), 'h') == s.modes_set(p, true, true),
        s.csi(p, private(), 'l') == s.modes_set(p, true, false),
        s.csi(p, Seq::empty(), 'h') == s.modes_set(p, false, true),
        s.csi(p, Seq::empty(), 'l') == s.modes_set(p, false, false),
{
    assert(private()[0] == 0x3f);
    assert(s.csi(p, private(), 'h') == s.modes_set(p, true, true)) by {
        reveal(ScreenView::csi);
    }
    assert(s.csi(p, private(), 'l') == s.modes_set(p, true, false)) by {
        reveal(ScreenView::csi);
    }
    assert(s.csi(p, Seq::empty(), 'h') == s.modes_set(p, false, true)) by {
        reveal(ScreenView::csi);
    }
    assert(s.csi(p, Seq::empty(), 'l') == s.modes_set(p, false, false)) by {
        reveal(ScreenView::csi);
    }
}

/// Modes are switched in the order in which a sequence names them.
pub proof fn modes_are_switched_one_by_one(
    s: ScreenView,
    p: Seq<Seq<u16>>,
    code: u16,
    inter: Seq<u8>,
)
    ensures
        s.csi(p.push(seq![code]), private(), 'h') == s.csi(p, private(), 'h').csi(
            seq![seq![code]],
            private(),
            'h',
        ),
        s.csi(p.push(seq![code]), private(), 'l') == s.csi(p, private(), 'l').csi(
            seq![seq![code]],
            private(),
            'l',
        ),
        inter.len() == 0 ==> s.csi(p, inter, 'h') == s && s.csi(p, inter, 'l') == s,
{
    switching_one(s.csi(p, private(), 'h'), code, true);
    switching_one(s.csi(p, private(), 'l'), code, false);
    let all = p.push(seq![code]);
    lists_of_modes(s, p);
    lists_of_modes(s, all);
    assert(all.drop_last() =~= p);
    assert(all.last()[0] == code);
    if inter.len() == 0 {
        assert(inter =~= Seq::empty());
        ansi_modes_do_nothing(s, p, true);
        ansi_modes_do_nothing(s, p, false);
    }
}

proof fn ansi_modes_do_nothing(s: ScreenView, p: Seq<Seq<u16>>, on: bool)
    ensures
        s.modes_set(p, false, on) == s,
    decreases p.len(),
{
    if p.len() > 0 {
        ansi_modes_do_nothing(s, p.drop_last(), on);
    }
}

/// What a question for a private mode is answered: the number of the mode, and 1 if it
/// is set, 2 if it is not, and 0 if there is no such mode. So a mode that was just set is
/// reported as set.
#[verifier::spinoff_prover]
pub proof fn a_mode_is_reported_as_it_was_switched(s: ScreenView, code: u16, flag: u64)
    requires
        meaning(code as int, flag) && code != 6 || code == 1049 && flag == Modes::ALT_SCREEN,
    ensures
        s.csi(seq![seq![code]], seq![0x3fu8, 0x24u8], 'p').replies == s.replies.push(
            seq![0x1bu8, 0x5bu8, 0x3fu8] + decimal(code as nat) + seq![0x3bu8] + decimal(
                if s.modes.has(flag) {
                    1
                } else {
                    2
                },
            ) + seq![0x24u8, 0x79u8],
        ),
{
    let inter = seq![0x3fu8, 0x24u8];
    assert(inter[0] == 0x3f && inter[1] == 0x24);
    assert(inter.contains(0x24) && inter.contains(0x3f));
    let p = seq![seq![code]];
    assert(s.csi(p, inter, 'p') == s.mode_reported(p, true)) by {
        reveal(ScreenView::csi);
    }
    assert(p[0][0] == code);
    reveal_strlit("\x1b[?");
    reveal_strlit(";");
    reveal_strlit("$y");
    is_ascii_chars_encode_utf8("\x1b[?"@);
    is_ascii_chars_encode_utf8(";"@);
    is_ascii_chars_encode_utf8("$y"@);
    assert(b("\x1b[?"@) =~= seq![0x1bu8, 0x5bu8, 0x3fu8]);
    assert(b(";"@) =~= seq![0x3bu8]);
    assert(b("$y"@) =~= seq![0x24u8, 0x79u8]);
}

/// What a question for the flags of the Kitty keyboard protocol is answered.
pub open spec fn flags_reply(flags: u8) -> Seq<u8> {
    seq![0x1bu8, 0x5bu8, 0x3fu8] + decimal(flags as nat) + seq![0x75u8]
}

proof fn flags_are_answered(s: ScreenView)
    ensures
        s.csi(Seq::empty(), private(), 'u').replies == s.replies.push(
            flags_reply(s.kbd.kitty(s.modes.has(Modes::ALT_SCREEN)).current),
        ),
{
    assert(private()[0] == 0x3f);
    assert(s.csi(Seq::empty(), private(), 'u') == s.kitty_keys(Seq::empty(), private())) by {
        reveal(ScreenView::csi);
    }
    reveal_strlit("\x1b[?");
    reveal_strlit("u");
    is_ascii_chars_encode_utf8("\x1b[?"@);
    is_ascii_chars_encode_utf8("u"@);
    assert(b("\x1b[?"@) =~= seq![0x1bu8, 0x5bu8, 0x3fu8]);
    assert(b("u"@) =~= seq![0x75u8]);
}

/// The keyboard flags that were pushed or set are those that a question is answered
/// with, and a pop brings back those before the push. The other screen buffer keeps its
/// own.
#[verifier::spinoff_prover]
pub proof fn keyboard_flags_are_answered_as_they_were_set(s: ScreenView, flags: u8)
    requires
        s.kbd.wf(),
    ensures
        ({
            let alt = s.modes.has(Modes::ALT_SCREEN);
            let before = s.kbd.kitty(alt).current;
            let p = seq![seq![flags as u16]];
            let pushed = s.csi(p, seq![0x3eu8], 'u');
            let set = s.csi(p, seq![0x3du8], 'u');
            let popped = pushed.csi(Seq::empty(), seq![0x3cu8], 'u');
            &&& s.csi(Seq::empty(), private(), 'u').replies.last() == flags_reply(before)
            &&& pushed.csi(Seq::empty(), private(), 'u').replies.last() == flags_reply(flags)
            &&& set.csi(Seq::empty(), private(), 'u').replies.last() == flags_reply(flags)
            &&& popped.csi(Seq::empty(), private(), 'u').replies.last() == flags_reply(before)
            &&& pushed.kbd.kitty(!alt) == s.kbd.kitty(!alt)
            &&& set.kbd.kitty(!alt) == s.kbd.kitty(!alt)
            &&& popped.kbd.kitty(!alt) == s.kbd.kitty(!alt)
            &&& set.kbd.kitty(alt).stack == s.kbd.kitty(alt).stack
        }),
{
    let alt = s.modes.has(Modes::ALT_SCREEN);
    let p = seq![seq![flags as u16]];
    assert(p[0][0] == flags);
    let pushed = s.csi(p, seq![0x3eu8], 'u');
    let set = s.csi(p, seq![0x3du8], 'u');
    let popped = pushed.csi(Seq::empty(), seq![0x3cu8], 'u');
    flags_are_answered(s);
    flags_are_answered(pushed);
    flags_are_answered(set);
    flags_are_answered(popped);
    crate::keyboard::pop_takes_back_a_push(s.kbd.kitty(alt), flags);
    flags_are_pushed_and_set(s, flags);
    flags_are_popped_once(pushed);
}

proof fn flags_are_pushed_and_set(s: ScreenView, flags: u8)
    ensures
        ({
            let alt = s.modes.has(Modes::ALT_SCREEN);
            let p = seq![seq![flags as u16]];
            let k = s.kbd.kitty(alt);
            &&& s.csi(p, seq![0x3eu8], 'u') == (ScreenView {
                kbd: s.kbd.with_kitty(alt, k.pushed(flags)),
                ..s
            })
            &&& s.csi(p, seq![0x3du8], 'u') == (ScreenView {
                kbd: s.kbd.with_kitty(alt, k.set(flags, 1)),
                ..s
            })
        }),
{
    let p = seq![seq![flags as u16]];
    assert(p[0][0] == flags);
    assert(seq![0x3eu8][0] == 0x3e && seq![0x3du8][0] == 0x3d);
    assert(s.csi(p, seq![0x3eu8], 'u') == s.kitty_keys(p, seq![0x3eu8])) by {
        reveal(ScreenView::csi);
    }
    assert(s.csi(p, seq![0x3du8], 'u') == s.kitty_keys(p, seq![0x3du8])) by {
        reveal(ScreenView::csi);
    }
}

proof fn flags_are_popped_once(s: ScreenView)
    ensures
        ({
            let alt = s.modes.has(Modes::ALT_SCREEN);
            s.csi(Seq::empty(), seq![0x3cu8], 'u') == (ScreenView {
                kbd: s.kbd.with_kitty(alt, s.kbd.kitty(alt).popped(1)),
                ..s
            })
        }),
{
    assert(seq![0x3cu8][0] == 0x3c);
    assert(s.csi(Seq::empty(), seq![0x3cu8], 'u') == s.kitty_keys(Seq::empty(), seq![0x3cu8])) by {
        reveal(ScreenView::csi);
    }
}

/// Keyboard flags are added with mode 2 and taken away with mode 3, bit by bit.
#[verifier::spinoff_prover]
pub proof fn keyboard_flags_are_added_and_removed(s: ScreenView, flags: u8, bit: u8)
    ensures
        ({
            let alt = s.modes.has(Modes::ALT_SCREEN);
            let before = s.kbd.kitty(alt).current;
            let added = s.csi(
                seq![seq![flags as u16], seq![2u16]],
                seq![0x3du8],
                'u',
            ).kbd.kitty(alt).current;
            let removed = s.csi(
                seq![seq![flags as u16], seq![3u16]],
                seq![0x3du8],
                'u',
            ).kbd.kitty(alt).current;
            &&& (added & bit == 0) == (before & bit == 0 && flags & bit == 0)
            &&& bit & flags == 0 ==> removed & bit == before & bit
            &&& removed & flags == 0
        }),
{
    let add_these = seq![seq![flags as u16], seq![2u16]];
    let drop_these = seq![seq![flags as u16], seq![3u16]];
    assert(seq![0x3du8][0] == 0x3d);
    assert(add_these[0][0] == flags && add_these[1][0] == 2);
    assert(drop_these[0][0] == flags && drop_these[1][0] == 3);
    assert(s.csi(add_these, seq![0x3du8], 'u') == s.kitty_keys(add_these, seq![0x3du8])) by {
        reveal(ScreenView::csi);
    }
    assert(s.csi(drop_these, seq![0x3du8], 'u') == s.kitty_keys(drop_these, seq![0x3du8])) by {
        reveal(ScreenView::csi);
    }
    let alt = s.modes.has(Modes::ALT_SCREEN);
    let f: u8 = s.kbd.kitty(alt).current;
    assert(((f | flags) & bit == 0) == (f & bit == 0 && flags & bit == 0)) by (bit_vector);
    assert((bit & flags == 0 ==> (f & !flags) & bit == f & bit) && (f & !flags) & flags == 0)
        by (bit_vector);
}

/// The level of modifyOtherKeys that was set is the one that a question is answered with.
/// Levels that there are not change nothing, and without a level it goes back to 0.
#[verifier::spinoff_prover]
pub proof fn the_level_of_keys_is_answered_as_it_was_set(s: ScreenView, level: u16)
    ensures
        ({
            let t = s.csi(seq![seq![4u16], seq![level]], seq![0x3eu8], 'm');
            let q = t.csi(seq![seq![4u16]], private(), 'm');
            &&& level <= 2 ==> q.replies == t.replies.push(
                seq![0x1bu8, 0x5bu8, 0x3eu8, 0x34u8, 0x3bu8] + decimal(level as nat)
                    + seq![0x6du8],
            )
            &&& level > 2 ==> t == s
            &&& t == (ScreenView { kbd: t.kbd, ..s })
            &&& s.csi(seq![seq![4u16]], seq![0x3eu8], 'm').kbd.modify_other_keys == 0
        }),
{
    let set = seq![seq![4u16], seq![level]];
    let ask = seq![seq![4u16]];
    let t = s.csi(set, seq![0x3eu8], 'm');
    assert(seq![0x3eu8][0] == 0x3e && private()[0] == 0x3f);
    assert(set[0][0] == 4 && set[1][0] == level && ask[0][0] == 4);
    assert(t == s.modify_keys_set(set)) by {
        reveal(ScreenView::csi);
    }
    assert(s.csi(ask, seq![0x3eu8], 'm') == s.modify_keys_set(ask)) by {
        reveal(ScreenView::csi);
    }
    assert(t.csi(ask, private(), 'm') == t.modify_keys_reported(ask)) by {
        reveal(ScreenView::csi);
    }
    reveal_strlit("\x1b[>4;");
    reveal_strlit("m");
    is_ascii_chars_encode_utf8("\x1b[>4;"@);
    is_ascii_chars_encode_utf8("m"@);
    assert(b("\x1b[>4;"@) =~= seq![0x1bu8, 0x5bu8, 0x3eu8, 0x34u8, 0x3bu8]);
    assert(b("m"@) =~= seq![0x6du8]);
}

/// What a question for a size is answered: `CSI kind ; height ; width t`.
pub open spec fn size_answer(kind: nat, height: nat, width: nat) -> Seq<u8> {
    seq![0x1bu8, 0x5bu8] + decimal(kind) + seq![0x3bu8] + decimal(height) + seq![0x3bu8]
        + decimal(width) + seq![0x74u8]
}

/// The sizes that a program is told: rows before columns, heights before widths. The
/// size of the text area in pixels is that of its cells together, as far as it can be
/// told.
#[verifier::spinoff_prover]
pub proof fn sizes_are_told(s: ScreenView, inter: Seq<u8>, cell_w: nat, cell_h: nat)
    requires
        s.wf(),
        s.area_px_w > 0 && s.area_px_h > 0 ==> {
            &&& s.area_px_w >= s.active.cols ==> cell_w == s.area_px_w as int
                / s.active.cols as int
            &&& s.area_px_w < s.active.cols ==> cell_w == 1
            &&& s.area_px_h >= s.active.rows.len() ==> cell_h == s.area_px_h as int
                / s.active.rows.len() as int
            &&& s.area_px_h < s.active.rows.len() ==> cell_h == 1
        },
        s.area_px_w == 0 || s.area_px_h == 0 ==> cell_w == 10 && cell_h == 20,
        cell_w * s.active.cols <= u16::MAX,
        cell_h * s.active.rows.len() <= u16::MAX,
    ensures
        ({
            let (rows, cols) = (s.active.rows.len(), s.active.cols as nat);
            &&& s.csi(seq![seq![14u16]], inter, 't').replies.last() == size_answer(4, cell_h * rows, cell_w * cols)
            &&& s.csi(seq![seq![15u16]], inter, 't').replies.last() == size_answer(5, cell_h * rows, cell_w * cols)
            &&& s.csi(seq![seq![16u16]], inter, 't').replies.last() == size_answer(6, cell_h, cell_w)
            &&& s.csi(seq![seq![18u16]], inter, 't').replies.last() == size_answer(8, rows, cols)
            &&& s.csi(seq![seq![19u16]], inter, 't').replies.last() == size_answer(9, rows, cols)
        }),
{
    size_asked(s, inter, 14);
    size_asked(s, inter, 15);
    size_asked(s, inter, 16);
    size_asked(s, inter, 18);
    size_asked(s, inter, 19);
    reveal_strlit("\x1b[");
    reveal_strlit(";");
    reveal_strlit("t");
    is_ascii_chars_encode_utf8("\x1b["@);
    is_ascii_chars_encode_utf8(";"@);
    is_ascii_chars_encode_utf8("t"@);
    assert(b("\x1b["@) =~= seq![0x1bu8, 0x5bu8]);
    assert(b(";"@) =~= seq![0x3bu8]);
    assert(b("t"@) =~= seq![0x74u8]);
    let (w, h) = s.cell_pixels();
    let (cols, rows) = (s.active.cols as int, s.active.rows.len() as int);
    if s.area_px_w > 0 && s.area_px_h > 0 {
        pixels_per_cell(s.area_px_w as int, cols);
        pixels_per_cell(s.area_px_h as int, rows);
    }
    assert(w == cell_w && h == cell_h);
    assert(super::model::sat_mul(w, s.cols()) == cell_w * cols);
    assert(super::model::sat_mul(h, s.rows()) == cell_h * rows);
}

proof fn size_asked(s: ScreenView, inter: Seq<u8>, op: u16)
    ensures
        s.csi(seq![seq![op]], inter, 't') == s.size_reported(op),
{
    let p = seq![seq![op]];
    assert(p[0][0] == op);
    assert(s.csi(p, inter, 't') == s.size_reported(op)) by {
        reveal(ScreenView::csi);
    }
}

proof fn pixels_per_cell(area: int, n: int)
    by (nonlinear_arith)
    requires
        area >= 0,
        n >= 1,
    ensures
        area >= n ==> area / n >= 1,
        area < n ==> area / n == 0,
{
}

/// A program is told which color scheme is in use, that the terminal works, and what the
/// terminal is.
#[verifier::spinoff_prover]
pub proof fn the_terminal_answers(s: ScreenView)
    ensures
        s.csi(seq![seq![996u16]], private(), 'n').replies == s.replies.push(
            seq![0x1bu8, 0x5bu8, 0x3fu8, 0x39u8, 0x39u8, 0x37u8, 0x3bu8].push(
                if s.color_scheme_dark {
                    0x31u8
                } else {
                    0x32u8
                },
            ).push(0x6eu8),
        ),
        s.csi(seq![seq![5u16]], Seq::empty(), 'n').replies == s.replies.push(
            seq![0x1bu8, 0x5bu8, 0x30u8, 0x6eu8],
        ),
        s.csi(Seq::empty(), Seq::empty(), 'c').replies == s.replies.push(
            seq![0x1bu8, 0x5bu8, 0x3fu8, 0x31u8, 0x3bu8, 0x32u8, 0x63u8],
        ),
{
    let ask_scheme = seq![seq![996u16]];
    let ask_status = seq![seq![5u16]];
    assert(s.csi(ask_scheme, private(), 'n') == s.status_reported(true, 996)) by {
        reveal(ScreenView::csi);
        assert(private()[0] == 0x3f && ask_scheme[0][0] == 996);
    }
    assert(s.csi(ask_status, Seq::empty(), 'n') == s.status_reported(false, 5)) by {
        reveal(ScreenView::csi);
        assert(ask_status[0][0] == 5);
    }
    assert(s.csi(Seq::empty(), Seq::empty(), 'c') == s.attributes_reported(false)) by {
        reveal(ScreenView::csi);
    }
    reveal_strlit("\x1b[?997;");
    reveal_strlit("n");
    reveal_strlit("\x1b[0n");
    reveal_strlit("\x1b[?1;2c");
    is_ascii_chars_encode_utf8("\x1b[?997;"@);
    is_ascii_chars_encode_utf8("n"@);
    is_ascii_chars_encode_utf8("\x1b[0n"@);
    is_ascii_chars_encode_utf8("\x1b[?1;2c"@);
    assert(b("\x1b[?997;"@) + decimal(1) + b("n"@) =~= seq![
        0x1bu8,
        0x5bu8,
        0x3fu8,
        0x39u8,
        0x39u8,
        0x37u8,
        0x3bu8,
    ].push(0x31).push(0x6e));
    assert(b("\x1b[?997;"@) + decimal(2) + b("n"@) =~= seq![
        0x1bu8,
        0x5bu8,
        0x3fu8,
        0x39u8,
        0x39u8,
        0x37u8,
        0x3bu8,
    ].push(0x32).push(0x6e));
    assert(b("\x1b[0n"@) =~= seq![0x1bu8, 0x5bu8, 0x30u8, 0x6eu8]);
    assert(b("\x1b[?1;2c"@) =~= seq![0x1bu8, 0x5bu8, 0x3fu8, 0x31u8, 0x3bu8, 0x32u8, 0x63u8]);
}

/// Popping several times at once is popping them one by one; to pop more than was pushed
/// leaves no flags.
#[verifier::spinoff_prover]
pub proof fn flags_are_popped_one_by_one(s: ScreenView, n: u16)
    requires
        1 <= n < u16::MAX,
    ensures
        ({
            let alt = s.modes.has(Modes::ALT_SCREEN);
            let pop = |t: ScreenView, k: u16| t.csi(seq![seq![k]], seq![0x3cu8], 'u');
            let deep = s.kbd.kitty(alt).stack.len();
            &&& n < deep ==> pop(s, (n + 1) as u16) == pop(pop(s, n), 1)
            &&& n > deep ==> pop(s, n).kbd.kitty(alt).current == 0
            &&& n <= deep ==> pop(s, n).kbd.kitty(alt).current == s.kbd.kitty(alt).stack[deep - n]
        }),
{
    flags_are_popped(s, n);
    flags_are_popped(s, (n + 1) as u16);
    let t = s.csi(seq![seq![n]], seq![0x3cu8], 'u');
    flags_are_popped(t, 1);
    let alt = s.modes.has(Modes::ALT_SCREEN);
    let k = s.kbd.kitty(alt);
    if n < k.stack.len() {
        assert(t.modes == s.modes);
        assert(t.kbd.kitty(alt) == k.popped(n));
        assert(k.popped(n).popped(1).stack =~= k.popped((n + 1) as u16).stack);
        assert(k.popped(n).popped(1) == k.popped((n + 1) as u16));
    }
}

proof fn flags_are_popped(s: ScreenView, n: u16)
    ensures
        ({
            let alt = s.modes.has(Modes::ALT_SCREEN);
            s.csi(seq![seq![n]], seq![0x3cu8], 'u') == (ScreenView {
                kbd: s.kbd.with_kitty(alt, s.kbd.kitty(alt).popped(n)),
                ..s
            })
        }),
{
    let p = seq![seq![n]];
    assert(p[0][0] == n);
    assert(seq![0x3cu8][0] == 0x3c);
    assert(s.csi(p, seq![0x3cu8], 'u') == s.kitty_keys(p, seq![0x3cu8])) by {
        reveal(ScreenView::csi);
    }
}

/// A mode that there is not is reported with zero.
pub proof fn other_modes_are_not_known(s: ScreenView, code: u16)
    requires
        code != 1 && code != 7 && code != 9 && code != 25,
        code != 1000 && code != 1002 && code != 1003 && code != 1004 && code != 1006,
        code != 1049 && code != 2004 && code != 2031,
    ensures
        s.csi(seq![seq![code]], seq![0x3fu8, 0x24u8], 'p').replies == s.replies.push(
            seq![0x1bu8, 0x5bu8, 0x3fu8] + decimal(code as nat) + seq![
                0x3bu8,
                0x30u8,
                0x24u8,
                0x79u8,
            ],
        ),
{
    let inter = seq![0x3fu8, 0x24u8];
    assert(inter[0] == 0x3f && inter[1] == 0x24);
    assert(inter.contains(0x24) && inter.contains(0x3f));
    let p = seq![seq![code]];
    assert(s.csi(p, inter, 'p') == s.mode_reported(p, true)) by {
        reveal(ScreenView::csi);
    }
    assert(p[0][0] == code);
    reveal_strlit("\x1b[?");
    reveal_strlit(";");
    reveal_strlit("$y");
    is_ascii_chars_encode_utf8("\x1b[?"@);
    is_ascii_chars_encode_utf8(";"@);
    is_ascii_chars_encode_utf8("$y"@);
    assert(b("\x1b[?"@) =~= seq![0x1bu8, 0x5bu8, 0x3fu8]);
    assert(b("\x1b[?"@) + decimal(code as nat) + b(";"@) + decimal(0) + b("$y"@) =~= seq![
        0x1bu8,
        0x5bu8,
        0x3fu8,
    ] + decimal(code as nat) + seq![0x3bu8, 0x30u8, 0x24u8, 0x79u8]);
}

} // verus!
