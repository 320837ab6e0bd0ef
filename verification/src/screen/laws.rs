//! What holds of a screen whatever a program sends to it.
use super::model::{count, first_of, index, param, param_or, ScreenView};
use super::print::scrolling_keeps_the_rest;
use crate::cell::CellView;
use crate::grid::GridView;
use crate::modes::Modes;
use crate::parser::Op;
use vstd::prelude::*;

verus! {

/// Whether a list continues another: nothing of that one is lost or changed.
pub open spec fn continues<T>(s: Seq<T>, t: Seq<T>) -> bool {
    s.len() <= t.len() && t.take(s.len() as int) == s
}

proof fn continues_itself<T>(s: Seq<T>)
    ensures
        continues(s, s),
{
    assert(s.take(s.len() as int) =~= s);
}

proof fn continues_pushed<T>(s: Seq<T>, x: T)
    ensures
        continues(s, s.push(x)),
{
    assert(s.push(x).take(s.len() as int) =~= s);
}

proof fn continues_on<T>(s: Seq<T>, t: Seq<T>, u: Seq<T>)
    requires
        continues(s, t),
        continues(t, u),
    ensures
        continues(s, u),
{
    assert(u.take(s.len() as int) =~= u.take(t.len() as int).take(s.len() as int));
}

/// The grid of the main screen, whether it is shown or stands behind the alternate one.
pub open spec fn main_grid(s: ScreenView) -> GridView {
    match s.alt {
        Some(g) => g,
        None => s.active,
    }
}

/// What an operation leaves in place: what the terminal is told from outside, and
/// what waits to be taken out. What was negotiated about the keyboard stays within its
/// bounds. The alternate screen has no scrollback, no images and no shell marks, and the
/// main screen behind it is not touched.
pub open spec fn succeeds(s: ScreenView, t: ScreenView) -> bool {
    &&& t.term == s.term
    &&& t.color_scheme_dark == s.color_scheme_dark
    &&& t.area_px_w == s.area_px_w
    &&& t.area_px_h == s.area_px_h
    &&& t.scrollback.cap == s.scrollback.cap
    &&& continues(s.replies, t.replies)
    &&& continues(s.clipboard_writes, t.clipboard_writes)
    &&& continues(s.color_queries, t.color_queries)
    &&& continues(s.hyperlinks, t.hyperlinks)
    &&& (s.bell_pending ==> t.bell_pending)
    &&& (s.kbd.wf() ==> t.kbd.wf())
    &&& (s.alt is Some ==> {
        &&& main_grid(t) == main_grid(s)
        &&& t.scrollback == s.scrollback
        &&& t.images == s.images
        &&& t.placements == s.placements
        &&& t.virtual_placements == s.virtual_placements
        &&& t.blocks_completed == s.blocks_completed
        &&& t.last_block_exit == s.last_block_exit
    })
}

proof fn succeeds_itself(s: ScreenView)
    ensures
        succeeds(s, s),
{
    continues_itself(s.replies);
    continues_itself(s.clipboard_writes);
    continues_itself(s.color_queries);
    continues_itself(s.hyperlinks);
}

/// Whether two screens have the same size.
pub open spec fn same_size(s: ScreenView, t: ScreenView) -> bool {
    t.active.rows.len() == s.active.rows.len() && t.active.cols == s.active.cols
}

/// A screen with at least two columns, so that a wide character has room, whose
/// cursor and scroll region are inside.
pub open spec fn sound(s: ScreenView) -> bool {
    s.in_bounds() && 1 <= s.active.rows.len() <= u16::MAX && s.active.cols >= 2
}

proof fn scrolling_keeps_the_size(g: GridView, top: u16, bottom: u16, n: u16)
    ensures
        g.scrolled_up(top, bottom, n).rows.len() == g.rows.len(),
        g.scrolled_up(top, bottom, n).cols == g.cols,
        g.scrolled_down(top, bottom, n).rows.len() == g.rows.len(),
        g.scrolled_down(top, bottom, n).cols == g.cols,
{
}

proof fn kept_rows_keep_the_cap(s: ScreenView, rows: Seq<crate::row::RowView>)
    ensures
        s.keep_rows(rows).scrollback.cap == s.scrollback.cap,
    decreases rows.len(),
{
    if rows.len() > 0 {
        kept_rows_keep_the_cap(s, rows.drop_last());
    }
}

proof fn scrolled(s: ScreenView, n: u16)
    requires
        sound(s),
    ensures
        succeeds(s, s.scrolled_up(n)),
        same_size(s, s.scrolled_up(n)),
        sound(s.scrolled_up(n)),
        s.scrolled_up(n).cursor == s.cursor,
        s.scrolled_up(n).scroll_region == s.scroll_region,
        s.scrolled_up(n).alt == s.alt,
        s.scrolled_up(n).saved_cursor == s.saved_cursor,
{
    let (top, bottom) = s.scroll_region;
    let next = ScreenView { active: s.active.scrolled_up(top, bottom, n), ..s };
    scrolling_keeps_the_rest(s, n);
    scrolling_keeps_the_size(s.active, top, bottom, n);
    kept_rows_keep_the_cap(next, s.active.pushed_out(top, bottom, n));
    succeeds_itself(s);
}

/// Equal but for the grid, whose size is the same, and the cursor, which stands in
/// the grid.
spec fn drawn(s: ScreenView, t: ScreenView) -> bool {
    &&& t == (ScreenView { active: t.active, cursor: t.cursor, ..s })
    &&& same_size(s, t)
    &&& t.cursor.within(s.active.rows.len() as int, s.active.cols as int)
}

proof fn drawing(s: ScreenView, t: ScreenView)
    requires
        sound(s),
        drawn(s, t),
    ensures
        succeeds(s, t),
        sound(t),
{
    succeeds_itself(s);
}

proof fn stepping(s: ScreenView, soft: bool)
    requires
        sound(s),
    ensures
        succeeds(s, s.next_row(soft)),
        same_size(s, s.next_row(soft)),
        sound(s.next_row(soft)),
        s.next_row(soft).cursor.col == s.cursor.col,
        s.next_row(soft).alt == s.alt,
{
    scrolled(s, 1);
    succeeds_itself(s);
}

proof fn following(s: ScreenView, t: ScreenView, u: ScreenView)
    requires
        succeeds(s, t),
        same_size(s, t),
        succeeds(t, u),
        same_size(t, u),
        s.alt is Some ==> t.alt is Some,
    ensures
        succeeds(s, u),
        same_size(s, u),
{
    continues_on(s.replies, t.replies, u.replies);
    continues_on(s.clipboard_writes, t.clipboard_writes, u.clipboard_writes);
    continues_on(s.color_queries, t.color_queries, u.color_queries);
    continues_on(s.hyperlinks, t.hyperlinks, u.hyperlinks);
}

/// The claim of these lemmas: an operation that led from `s` to `t` lost nothing,
/// and the screen is as large and as sound as before.
pub open spec fn fine(s: ScreenView, t: ScreenView) -> bool {
    succeeds(s, t) && same_size(s, t) && sound(t)
}

pub(crate) proof fn wrapping(s: ScreenView)
    requires
        sound(s),
    ensures
        fine(s, s.wrapped()),
        s.wrapped().cursor.col.0 == 0,
        s.wrapped().alt == s.alt,
{
    stepping(s, true);
    let t = s.next_row(true);
    drawing(t, s.wrapped());
    following(s, t, s.wrapped());
}

proof fn putting(s: ScreenView, cell: CellView, start: u16, end: u16)
    requires
        sound(s),
    ensures
        drawn(s, s.unstraddled(start, end)),
        drawn(s, s.put_cell(cell)),
        drawn(s, s.unstraddled(start, end).put_cell(cell)),
        s.unstraddled(start, end).put_cell(cell).cursor == s.cursor,
{
}

pub(crate) proof fn room_made(s: ScreenView, w: u16)
    requires
        sound(s),
    ensures
        fine(s, s.make_room(w)),
        w == 2 ==> s.make_room(w).cursor.col.0 + 1 < s.active.cols,
        s.make_room(w).alt == s.alt,
{
    let auto = s.modes.has(Modes::AUTOWRAP);
    wrapping(s);
    succeeds_itself(s);
    let t = if s.cursor.pending_wrap && auto {
        s.wrapped()
    } else {
        s
    };
    let col = t.cursor.col.0;
    if w == 2 && col + 1 >= t.cols() {
        if auto {
            let u = t.unstraddled(col, col).put_cell(CellView::blank());
            putting(t, CellView::blank(), col, col);
            drawing(t, u);
            wrapping(u);
            following(s, t, u);
            following(s, u, u.wrapped());
        } else {
            drawing(t, s.make_room(w));
            following(s, t, s.make_room(w));
        }
    }
}

proof fn printing(s: ScreenView, text: Seq<char>, w: u16)
    requires
        sound(s),
    ensures
        fine(s, s.printed_as(text, w)),
{
    reveal(ScreenView::printed_as);
    if w == 0 {
        drawing(s, s.joined(text));
    } else {
        room_made(s, w);
        let r = s.make_room(w);
        let col = r.cursor.col.0;
        putting(
            r,
            r.pen_cell(text),
            col,
            if w == 2 {
                (col + 1) as u16
            } else {
                col
            },
        );
        assert(drawn(r, r.write(text, w)));
        drawing(r, r.write(text, w));
        following(s, r, r.write(text, w));
    }
}

proof fn settling(s: ScreenView)
    requires
        sound(s),
    ensures
        fine(s, s.settled()),
{
    drawing(s, s.settled());
}

proof fn controlling(s: ScreenView, byte: u8)
    requires
        sound(s),
    ensures
        fine(s, s.controlled(byte)),
{
    reveal(ScreenView::controlled);
    if byte == 0x07 {
        succeeds_itself(s);
    } else if 0x0a <= byte <= 0x0c {
        stepping(s, false);
        settling(s.next_row(false));
        following(s, s.next_row(false), s.controlled(byte));
    } else {
        assert(drawn(s, s.controlled(byte)));
        drawing(s, s.controlled(byte));
    }
}

/// Equal but for what an operation beside the grid changes: tab stops, modes, the
/// keyboard, titles, and what waits to be taken out, where nothing is lost.
spec fn noted(s: ScreenView, t: ScreenView) -> bool {
    &&& t == (ScreenView {
        tabs: t.tabs,
        kbd: t.kbd,
        modes: t.modes,
        title: t.title,
        icon_title: t.icon_title,
        cwd: t.cwd,
        replies: t.replies,
        clipboard_writes: t.clipboard_writes,
        color_queries: t.color_queries,
        ..s
    })
    &&& (s.kbd.wf() ==> t.kbd.wf())
    &&& (t.replies == s.replies || t.replies == s.replies.push(t.replies.last()))
    &&& (t.clipboard_writes == s.clipboard_writes || t.clipboard_writes
        == s.clipboard_writes.push(t.clipboard_writes.last()))
    &&& (t.color_queries == s.color_queries || t.color_queries == s.color_queries.push(
        t.color_queries.last(),
    ))
}

proof fn noting(s: ScreenView, t: ScreenView)
    requires
        sound(s),
        noted(s, t),
    ensures
        fine(s, t),
{
    succeeds_itself(s);
    continues_pushed(s.replies, t.replies.last());
    continues_pushed(s.clipboard_writes, t.clipboard_writes.last());
    continues_pushed(s.color_queries, t.color_queries.last());
}

proof fn replying(s: ScreenView, bytes: Seq<u8>)
    ensures
        noted(s, s.replied(bytes)),
        noted(s, s),
{
    assert(s.replied(bytes).replies.last() == bytes);
}

/// A rendition changes the pen and does not move the cursor.
pub proof fn renditions_do_not_move(c: crate::cursor::Cursor, p: Seq<Seq<u16>>)
    ensures
        super::sgr::rendition(c, p).row == c.row,
        super::sgr::rendition(c, p).col == c.col,
        super::sgr::rendition(c, p).pending_wrap == c.pending_wrap,
{
    styles_do_not_move(c, p);
    codes_do_not_move(super::sgr::all_styles(c, p), super::sgr::all_codes(p));
}

proof fn styles_do_not_move(c: crate::cursor::Cursor, p: Seq<Seq<u16>>)
    ensures
        super::sgr::all_styles(c, p).row == c.row,
        super::sgr::all_styles(c, p).col == c.col,
        super::sgr::all_styles(c, p).pending_wrap == c.pending_wrap,
    decreases p.len(),
{
    if p.len() > 0 {
        styles_do_not_move(c, p.drop_last());
    }
}

proof fn codes_do_not_move(c: crate::cursor::Cursor, codes: Seq<u16>)
    ensures
        super::sgr::all_coded(c, codes).row == c.row,
        super::sgr::all_coded(c, codes).col == c.col,
        super::sgr::all_coded(c, codes).pending_wrap == c.pending_wrap,
    decreases codes.len(),
{
    if codes.len() > 0 {
        let rest = codes.skip(1);
        codes_do_not_move(
            super::sgr::coded(c, codes[0], rest),
            codes.skip(super::sgr::codes_taken(codes[0], rest)),
        );
    }
}

/// Equal but for the grids, the cursors and the modes.
spec fn switched(s: ScreenView, t: ScreenView) -> bool {
    &&& t == (ScreenView {
        active: t.active,
        alt: t.alt,
        saved_cursor: t.saved_cursor,
        cursor: t.cursor,
        modes: t.modes,
        ..s
    })
    &&& main_grid(t) == main_grid(s)
    &&& same_size(s, t)
    &&& sound(t)
}

proof fn switching_mode(s: ScreenView, code: u16, on: bool)
    requires
        sound(s),
    ensures
        switched(s, s.private_mode(code, on)),
{
}

proof fn switching_modes(s: ScreenView, p: Seq<Seq<u16>>, private: bool, on: bool)
    requires
        sound(s),
    ensures
        switched(s, s.modes_set(p, private, on)),
    decreases p.len(),
{
    if p.len() > 0 {
        let t = s.modes_set(p.drop_last(), private, on);
        switching_modes(s, p.drop_last(), private, on);
        match param(p, p.len() - 1) {
            Some(code) => switching_mode(t, code, on),
            None => {},
        }
    }
}

proof fn moving(s: ScreenView, n: u16, row: u16, col: u16)
    requires
        sound(s),
    ensures
        drawn(s, s.cursor_up(n)),
        drawn(s, s.cursor_down(n)),
        drawn(s, s.cursor_to(row, col)),
        drawn(s, s.at(s.absolute_row(row), s.cursor.col.0)),
        drawn(s, s.at(s.cursor.row.0, crate::coords::min16(col, s.last_col()))),
        drawn(s, ScreenView { cursor: s.cursor.moved_right(n, s.cols()), ..s }),
        drawn(s, ScreenView { cursor: s.cursor.moved_left(n), ..s }),
{
}

proof fn editing(s: ScreenView, n: u16, mode: u16)
    requires
        sound(s),
    ensures
        drawn(s, s.display_erased(mode)),
        drawn(s, s.line_erased(mode)),
        drawn(s, s.cells_erased(n)),
        drawn(s, s.blanks_inserted(n)),
        drawn(s, s.chars_deleted(n)),
        drawn(s, s.lines_inserted(n)),
        drawn(s, s.lines_deleted(n)),
        drawn(
            s,
            ScreenView {
                active: s.active.scrolled_down(s.scroll_region.0, s.scroll_region.1, n),
                ..s
            },
        ),
{
    scrolling_keeps_the_size(s.active, s.cursor.row.0, s.scroll_region.1, n);
    scrolling_keeps_the_size(s.active, s.scroll_region.0, s.scroll_region.1, n);
}

proof fn answering(s: ScreenView, p: Seq<Seq<u16>>, inter: Seq<u8>, private: bool, mode: u16)
    ensures
        noted(s, s.status_reported(private, mode)),
        noted(s, s.attributes_reported(private)),
        noted(s, s.size_reported(mode)),
        noted(s, s.mode_reported(p, private)),
        noted(s, s.modify_keys_reported(p)),
        noted(s, s.modify_keys_set(p)),
        noted(s, s.kitty_keys(p, inter)),
        noted(s, s.tabs_cleared(mode)),
{
    assert forall|bytes: Seq<u8>| #[trigger] noted(s, s.replied(bytes)) by {
        replying(s, bytes);
    }
}

spec fn is_question(action: char, inter: Seq<u8>) -> bool {
    action == 'n' || action == 'c' || action == 't' || action == 'u' || action == 'g' || action
        == 'q' || (action == 'p' && inter.contains(0x24)) || (action == 'm' && (first_of(inter)
        == Some(0x3eu8) || first_of(inter) == Some(0x3fu8)))
}

spec fn is_switch(action: char, inter: Seq<u8>) -> bool {
    action == 'h' || action == 'l' || action == 'S' || action == 'r' || (action == 'p'
        && !inter.contains(0x24)) || (action == 'm' && first_of(inter) != Some(0x3eu8) && first_of(
        inter,
    ) != Some(0x3fu8))
}

spec fn is_motion(action: char) -> bool {
    action == 'A' || action == 'B' || action == 'C' || action == 'D' || action == 'G' || action
        == 'H' || action == 'f' || action == 'd'
}

#[verifier::spinoff_prover]
proof fn asking(s: ScreenView, p: Seq<Seq<u16>>, inter: Seq<u8>, action: char)
    requires
        is_question(action, inter),
    ensures
        noted(s, s.csi(p, inter, action)),
{
    reveal(ScreenView::csi);
    answering(s, p, inter, first_of(inter) == Some(0x3fu8), param_or(p, 0, 0));
    answering(s, p, inter, first_of(inter) == Some(0x3eu8), param_or(p, 0, 0));
    answering(s, p, inter, inter.contains(0x3f), param_or(p, 0, 0));
    replying(s, super::model::b("\x1bP>|plexy-glass(0.1.0)\x1b\\"@));
}

proof fn resetting(s: ScreenView, top: u16, bottom: u16, p: Seq<Seq<u16>>)
    requires
        sound(s),
    ensures
        fine(s, s.region_set(top, bottom)),
        fine(s, s.soft_reset()),
        fine(s, ScreenView { cursor: super::sgr::rendition(s.cursor, p), ..s }),
        fine(s, s),
{
    succeeds_itself(s);
    renditions_do_not_move(s.cursor, p);
}

proof fn switching(s: ScreenView, p: Seq<Seq<u16>>, private: bool, on: bool)
    requires
        sound(s),
    ensures
        fine(s, s.modes_set(p, private, on)),
{
    succeeds_itself(s);
    switching_modes(s, p, private, on);
}

#[verifier::spinoff_prover]
proof fn setting(s: ScreenView, p: Seq<Seq<u16>>, inter: Seq<u8>, action: char)
    requires
        sound(s),
        is_switch(action, inter),
    ensures
        fine(s, s.csi(p, inter, action)),
{
    let t = s.csi(p, inter, action);
    let private = first_of(inter) == Some(0x3fu8);
    assert(t == s.modes_set(p, private, true) || t == s.modes_set(p, private, false) || t
        == s.scrolled_up(count(p)) || t == s.region_set(index(p, 0), param_or(p, 1, s.rows())) || t
        == s.soft_reset() || t == s || t == (ScreenView {
        cursor: super::sgr::rendition(s.cursor, p),
        ..s
    })) by {
        reveal(ScreenView::csi);
    }
    switching(s, p, private, true);
    switching(s, p, private, false);
    scrolled(s, count(p));
    resetting(s, index(p, 0), param_or(p, 1, s.rows()), p);
}

#[verifier::spinoff_prover]
proof fn going(s: ScreenView, p: Seq<Seq<u16>>, inter: Seq<u8>, action: char)
    requires
        sound(s),
        is_motion(action),
    ensures
        drawn(s, s.csi(p, inter, action)),
{
    reveal(ScreenView::csi);
    moving(s, count(p), index(p, 0), index(p, 1));
    moving(s, count(p), index(p, 0), index(p, 0));
}

#[verifier::spinoff_prover]
proof fn redrawing(s: ScreenView, p: Seq<Seq<u16>>, inter: Seq<u8>, action: char)
    requires
        sound(s),
        !is_motion(action),
        !is_switch(action, inter),
        !is_question(action, inter),
    ensures
        drawn(s, s.csi(p, inter, action)),
{
    reveal(ScreenView::csi);
    editing(s, count(p), param_or(p, 0, 0));
    assert(drawn(s, s));
}

proof fn sequencing(s: ScreenView, p: Seq<Seq<u16>>, inter: Seq<u8>, action: char)
    requires
        sound(s),
    ensures
        fine(s, s.csi(p, inter, action)),
{
    let t = s.csi(p, inter, action);
    if is_question(action, inter) {
        asking(s, p, inter, action);
        noting(s, t);
    } else if is_switch(action, inter) {
        setting(s, p, inter, action);
    } else if is_motion(action) {
        going(s, p, inter, action);
        drawing(s, t);
    } else {
        redrawing(s, p, inter, action);
        drawing(s, t);
    }
}

proof fn escaping(s: ScreenView, inter: Seq<u8>, byte: u8)
    requires
        sound(s),
    ensures
        same_size(s, s.esc(inter, byte)),
        sound(s.esc(inter, byte)),
        s.kbd.wf() ==> s.esc(inter, byte).kbd.wf(),
        byte != 0x63 || inter.len() > 0 ==> succeeds(s, s.esc(inter, byte)),
{
    reveal(ScreenView::esc);
    let t = s.esc(inter, byte);
    succeeds_itself(s);
    if inter.len() == 0 && byte == 0x44 {
        stepping(s, false);
        settling(s.next_row(false));
        following(s, s.next_row(false), t);
    } else if inter.len() == 0 && byte == 0x45 {
        let u = ScreenView {
            cursor: crate::cursor::Cursor { col: crate::coords::Col(0), ..s.cursor },
            ..s
        };
        drawing(s, u);
        stepping(u, false);
        settling(u.next_row(false));
        following(s, u, u.next_row(false));
        following(s, u.next_row(false), t);
    } else if inter.len() == 0 && byte == 0x4d {
        scrolling_keeps_the_size(s.active, s.scroll_region.0, s.scroll_region.1, 1);
    }
}

/// Equal but for the images, their placements and their numbers, on the main screen.
spec fn pictured(s: ScreenView, t: ScreenView) -> bool {
    &&& t == (ScreenView {
        images: t.images,
        placements: t.placements,
        virtual_placements: t.virtual_placements,
        pending_tx: t.pending_tx,
        graphics_seq: t.graphics_seq,
        placement_id_seq: t.placement_id_seq,
        image_id_seq: t.image_id_seq,
        image_gen: t.image_gen,
        ..s
    })
    &&& s.alt is None
}

proof fn picturing(s: ScreenView, t: ScreenView)
    requires
        sound(s),
        pictured(s, t),
    ensures
        fine(s, t),
{
    succeeds_itself(s);
}

proof fn stepping_on(s: ScreenView, n: nat)
    requires
        sound(s),
    ensures
        fine(s, s.next_rows(n)),
        s.next_rows(n).alt == s.alt,
    decreases n,
{
    if n == 0 {
        succeeds_itself(s);
    } else {
        let t = s.next_rows((n - 1) as nat);
        stepping_on(s, (n - 1) as nat);
        stepping(t, false);
        following(s, t, s.next_rows(n));
    }
}

proof fn placing(
    s: ScreenView,
    image_id: u32,
    protocol: crate::graphics::ImageProtocol,
    pixel_w: u32,
    pixel_h: u32,
    r: Option<u16>,
    c: Option<u16>,
    z: i32,
)
    requires
        sound(s),
        s.alt is None,
    ensures
        fine(s, s.placed(image_id, protocol, pixel_w, pixel_h, r, c, z)),
{
    let size = s.footprint(pixel_w, pixel_h, r, c);
    let t = s.recorded(image_id, protocol, size, z);
    let u = t.next_rows(size.0 as nat);
    let v = s.placed(image_id, protocol, pixel_w, pixel_h, r, c, z);
    assert(pictured(s, t));
    picturing(s, t);
    stepping_on(t, size.0 as nat);
    drawing(u, v);
    following(s, t, u);
    following(s, u, v);
}

proof fn completing(s: ScreenView, head: Option<Seq<u8>>)
    requires
        sound(s),
        s.alt is None,
    ensures
        fine(s, s.completed(head)),
{
    match s.pending_tx {
        Some(tx) => {
            let given = (super::images::or_zero(tx.width), super::images::or_zero(tx.height));
            let in_head = match head {
                Some(bytes) => crate::image_size::png_size(bytes),
                None => None,
            };
            let (w, h) = if (given.0 == 0 || given.1 == 0) && tx.format
                == crate::graphics::ImageFormat::Png && in_head is Some {
                in_head->0
            } else {
                given
            };
            let gen = s.image_gen.wrapping_add(1);
            let t = ScreenView { pending_tx: None, image_gen: gen, ..s }.stored(
                crate::graphics::ImageView {
                    id: tx.id,
                    protocol: crate::graphics::ImageProtocol::Kitty,
                    format: tx.format,
                    pixel_w: w,
                    pixel_h: h,
                    data_b64: tx.data_b64,
                    iterm_args: None,
                    generation: gen,
                    frames: Seq::empty(),
                    anim_control: None,
                },
            );
            assert(pictured(s, t));
            picturing(s, t);
            if s.has_room_for(tx.data_b64.len()) && tx.display && !tx.unicode {
                let z = match tx.z {
                    Some(z) => z,
                    None => 0,
                };
                placing(
                    t,
                    tx.id,
                    crate::graphics::ImageProtocol::Kitty,
                    w,
                    h,
                    tx.place_rows,
                    tx.place_cols,
                    z,
                );
                following(s, t, s.completed(head));
            } else {
                assert(pictured(s, s.completed(head)));
                picturing(s, s.completed(head));
            }
        },
        None => picturing(s, s),
    }
}

proof fn drawing_graphics(s: ScreenView, framed: Seq<u8>)
    requires
        sound(s),
    ensures
        fine(s, s.graphics(framed)),
{
    reveal(ScreenView::graphics);
    let t = s.graphics(framed);
    succeeds_itself(s);
    if s.alt is None {
        match crate::command::command_of(framed) {
            Some(cmd) => if cmd.action == 0x70 {
                match cmd.id {
                    Some(id) => if s.images.contains(id) && !cmd.unicode {
                        let img = s.images.images[crate::image_store::position(
                            s.images.images,
                            id,
                        )];
                        let z = match cmd.z {
                            Some(z) => z,
                            None => 0,
                        };
                        placing(
                            s,
                            id,
                            img.protocol,
                            img.pixel_w,
                            img.pixel_h,
                            cmd.rows,
                            cmd.cols,
                            z,
                        );
                    } else {
                        assert(pictured(s, t));
                        picturing(s, t);
                    },
                    None => {},
                }
            } else if cmd.action == 0x74 || cmd.action == 0x54 {
                let u = s.chunk_taken(cmd);
                assert(pictured(s, u));
                picturing(s, u);
                if !cmd.more {
                    completing(
                        u,
                        crate::iterm::base64_decoded(
                            super::images::header_part(u.pending_tx->0.data_b64),
                        ),
                    );
                    following(s, u, t);
                }
            } else {
                assert(pictured(s, t));
                picturing(s, t);
            },
            None => {},
        }
    }
}

proof fn showing(
    s: ScreenView,
    protocol: crate::graphics::ImageProtocol,
    format: crate::graphics::ImageFormat,
    size: (u32, u32),
    data: Seq<u8>,
    args: Option<Seq<char>>,
)
    requires
        sound(s),
        s.alt is None,
    ensures
        fine(s, s.shown(protocol, format, size, data, args)),
{
    if s.has_room_for(data.len()) {
        let id = s.image_id_seq.wrapping_add(1);
        let gen = s.image_gen.wrapping_add(1);
        let t = ScreenView { image_id_seq: id, image_gen: gen, ..s }.stored(
            crate::graphics::ImageView {
                id,
                protocol,
                format,
                pixel_w: size.0,
                pixel_h: size.1,
                data_b64: data,
                iterm_args: args,
                generation: gen,
                frames: Seq::empty(),
                anim_control: None,
            },
        );
        assert(pictured(s, t));
        picturing(s, t);
        placing(t, id, protocol, size.0, size.1, None, None, 0);
        following(s, t, s.shown(protocol, format, size, data, args));
    } else {
        succeeds_itself(s);
    }
}

proof fn taking_file(s: ScreenView, body: Seq<char>)
    requires
        sound(s),
        s.alt is None,
    ensures
        fine(s, s.file_taken(body)),
{
    succeeds_itself(s);
    match crate::iterm::iterm_file(body) {
        Some((args, data)) => {
            let size = crate::iterm::iterm_size(
                vstd::utf8::encode_utf8(args),
                crate::iterm::base64_decoded(
                    vstd::utf8::encode_utf8(crate::iterm::data_head(data)),
                ),
            );
            showing(
                s,
                crate::graphics::ImageProtocol::Iterm2,
                crate::graphics::ImageFormat::Png,
                match size {
                    Some(sz) => sz,
                    None => (0, 0),
                },
                vstd::utf8::encode_utf8(data),
                Some(args),
            );
        },
        None => {},
    }
}

proof fn marking(s: ScreenView, p: Seq<Seq<u8>>, ms: u32, url: Seq<char>)
    requires
        sound(s),
    ensures
        fine(s, s.shell_marked(p, ms)),
        fine(s, s.linked(url)),
{
    succeeds_itself(s);
    continues_pushed(s.hyperlinks, url);
}

proof fn recording(s: ScreenView, p: Seq<Seq<u8>>, query: super::ColorQuery)
    ensures
        noted(s, s.color_asked(p, query)),
        noted(s, s.clipboard_set(p)),
{
    let n = s.replies.len() as usize;
    assert(s.color_queries.push((n, query)).last() == (n, query));
    match super::osc::field(p, 2) {
        Some(payload) => {
            match crate::iterm::base64_decoded(payload) {
                Some(bytes) => {
                    assert(s.clipboard_writes.push(bytes).last() == bytes);
                },
                None => {},
            }
        },
        None => {},
    }
}

#[verifier::spinoff_prover]
proof fn commanding(s: ScreenView, p: Seq<Seq<u8>>, ms: u32)
    requires
        sound(s),
    ensures
        fine(s, s.osc(p, ms)),
{
    let t = s.osc(p, ms);
    let url = match super::osc::field(p, 2) {
        Some(u) => super::osc::lossy_text(u),
        None => Seq::empty(),
    };
    let body = super::osc::lossy_text(super::osc::rejoined(p, 1));
    assert(noted(s, t) || t == s.shell_marked(p, ms) || t == s.linked(url) || (s.alt is None && t
        == s.file_taken(body))) by {
        reveal(ScreenView::osc);
        recording(s, p, super::ColorQuery::Foreground);
        recording(s, p, super::ColorQuery::Background);
        recording(s, p, super::ColorQuery::Cursor);
    }
    if noted(s, t) {
        noting(s, t);
    } else if t == s.shell_marked(p, ms) || t == s.linked(url) {
        marking(s, p, ms, url);
    } else {
        taking_file(s, body);
    }
}

proof fn reporting(s: ScreenView, names: Seq<u8>)
    requires
        sound(s),
    ensures
        fine(s, s.capabilities_reported(names)),
    decreases names.len(),
{
    let t = match crate::terminfo::hex_bytes(crate::scan::before(names, 0x3b)) {
        Some(name) => if name.len() > 0 && vstd::utf8::valid_utf8(name) {
            s.replied(super::osc::capability_reply(name, s.term))
        } else {
            s
        },
        None => s,
    };
    match crate::terminfo::hex_bytes(crate::scan::before(names, 0x3b)) {
        Some(name) => replying(s, super::osc::capability_reply(name, s.term)),
        None => replying(s, Seq::empty()),
    }
    noting(s, t);
    match crate::scan::after(names, 0x3b) {
        Some(rest) => if rest.len() < names.len() {
            reporting(t, rest);
            following(s, t, s.capabilities_reported(names));
        },
        None => {},
    }
}

proof fn stringing(s: ScreenView, inter: Seq<u8>, action: u8, p: Seq<Seq<u16>>, payload: Seq<u8>)
    requires
        sound(s),
    ensures
        fine(s, s.dcs(inter, action, p, payload)),
{
    reveal(ScreenView::dcs);
    succeeds_itself(s);
    if first_of(inter) == Some(0x2bu8) && action == 0x71 {
        reporting(s, payload);
    } else if action == 0x71 && inter.len() == 0 && s.alt is None {
        showing(
            s,
            crate::graphics::ImageProtocol::Sixel,
            crate::graphics::ImageFormat::Rgba,
            match crate::image_size::sixel_size(payload) {
                Some(size) => size,
                None => (0, 0),
            },
            super::images::sixel_data(p, payload),
            None,
        );
    }
}

/// Whether an operation is the full reset.
pub open spec fn is_reset(op: Op) -> bool {
    op matches Op::Esc(inter, byte) && inter.len() == 0 && byte == 0x63
}

/// No operation moves the cursor, the saved cursor or the scroll region out of the
/// screen, or changes the size of the screen, and the level of modifyOtherKeys and the
/// flag stacks stay within their bounds. A screen of one column is another matter: a
/// wide character has no room in it.
pub proof fn operations_stay_in_bounds(s: ScreenView, op: Op, ms: u32)
    requires
        sound(s),
    ensures
        sound(s.done(op, ms)),
        same_size(s, s.done(op, ms)),
        s.kbd.wf() ==> s.done(op, ms).kbd.wf(),
{
    one_operation(s, op, ms);
}

/// No operation but the full reset drops a reply, a clipboard entry, a question, the
/// bell or a hyperlink, or changes what the terminal was told from outside. While
/// the alternate screen is shown, the main screen, the scrollback, the images and the
/// record of commands stay as they are.
pub proof fn operations_lose_nothing(s: ScreenView, op: Op, ms: u32)
    requires
        sound(s),
        !is_reset(op),
    ensures
        succeeds(s, s.done(op, ms)),
{
    one_operation(s, op, ms);
}

proof fn one_operation(s: ScreenView, op: Op, ms: u32)
    requires
        sound(s),
    ensures
        sound(s.done(op, ms)),
        same_size(s, s.done(op, ms)),
        s.kbd.wf() ==> s.done(op, ms).kbd.wf(),
        !is_reset(op) ==> succeeds(s, s.done(op, ms)),
{
    reveal(ScreenView::done);
    match op {
        Op::Put(text) => printing(s, text, crate::width::text_width(text) as u16),
        Op::Control(byte) => controlling(s, byte),
        Op::Csi(p, inter, action) => sequencing(s, p, inter, action),
        Op::Osc(p) => commanding(s, p, ms),
        Op::Esc(inter, byte) => escaping(s, inter, byte),
        Op::Dcs(inter, action, p, payload) => stringing(s, inter, action, p, payload),
        Op::Graphics(framed) => drawing_graphics(s, framed),
    }
}

/// Whatever a program sends, the cursor stays in the screen, the screen keeps its size,
/// and what is negotiated about the keyboard stays within its bounds.
pub proof fn programs_stay_in_bounds(s: ScreenView, ops: Seq<Op>, clock: Seq<u32>)
    requires
        sound(s),
        clock.len() == ops.len(),
    ensures
        sound(s.done_all(ops, clock)),
        same_size(s, s.done_all(ops, clock)),
        s.kbd.wf() ==> s.done_all(ops, clock).kbd.wf(),
    decreases ops.len(),
{
    if ops.len() > 0 {
        programs_stay_in_bounds(s, ops.drop_last(), clock.drop_last());
        operations_stay_in_bounds(
            s.done_all(ops.drop_last(), clock.drop_last()),
            ops.last(),
            clock.last(),
        );
    }
}

/// Whether an operation ends a command that is running.
pub open spec fn ends_command(s: ScreenView, op: Op) -> bool {
    &&& s.alt is None
    &&& s.command_running
    &&& op matches Op::Osc(p)
    &&& p.len() > 1
    &&& p[0] == super::model::b("133"@)
    &&& first_of(p[1]) == Some(0x44u8)
}

/// What an operation does depends on the clock only where it ends a command that is
/// running.
pub proof fn only_the_end_of_a_command_takes_time(s: ScreenView, op: Op, a: u32, b: u32)
    requires
        !ends_command(s, op),
    ensures
        s.done(op, a) == s.done(op, b),
{
    reveal(ScreenView::done);
    reveal(ScreenView::osc);
}

/// Leaving the alternate screen gives the main screen back as it was when the
/// alternate one was entered: its cells, its cursor and its scrollback.
pub proof fn the_main_screen_comes_back(s: ScreenView)
    requires
        s.alt is None,
    ensures
        s.alt_entered().alt == Some(s.active),
        s.alt_entered().alt_left().active == s.active,
        s.alt_entered().alt_left().alt is None,
        s.alt_entered().alt_left().cursor == s.cursor,
        s.alt_entered().alt_left().scrollback == s.scrollback,
        s.alt_entered().alt_left().scroll_region == s.scroll_region,
{
}

/// Whatever a program does on the alternate screen, when it leaves it the main screen is
/// as it was; unless it resets the terminal.
pub proof fn the_main_screen_waits(s: ScreenView, ops: Seq<Op>, clock: Seq<u32>)
    requires
        sound(s),
        s.alt is Some,
        clock.len() == ops.len(),
        forall|k: int|
            0 <= k < ops.len() ==> !is_reset(#[trigger] ops[k]) && s.done_all(
                ops.take(k),
                clock.take(k),
            ).alt is Some,
    ensures
        main_grid(s.done_all(ops, clock)) == s.alt->0,
        s.done_all(ops, clock).alt is None ==> s.done_all(ops, clock).active == s.alt->0,
    decreases ops.len(),
{
    if ops.len() > 0 {
        let n = ops.len() - 1;
        let before = ops.drop_last();
        let early = clock.drop_last();
        assert forall|k: int| 0 <= k < before.len() implies !is_reset(#[trigger] before[k])
            && s.done_all(before.take(k), early.take(k)).alt is Some by {
            assert(before[k] == ops[k]);
            assert(before.take(k) =~= ops.take(k));
            assert(early.take(k) =~= clock.take(k));
        }
        the_main_screen_waits(s, before, early);
        programs_stay_in_bounds(s, before, early);
        assert(ops.take(n) =~= before);
        assert(clock.take(n) =~= early);
        assert(!is_reset(ops[n]));
        operations_lose_nothing(s.done_all(before, early), ops.last(), clock.last());
    }
}

/// The alternate screen is blank when it is entered.
pub proof fn the_alternate_screen_starts_blank(s: ScreenView)
    requires
        s.alt is None,
    ensures
        s.alt_entered().active == GridView::blank(s.rows(), s.cols()),
        s.alt_entered().cursor == crate::cursor::Cursor::initial(),
        s.alt_entered().alt_entered() == s.alt_entered(),
{
}

/// A saved cursor comes back with its position and pen, wherever it was moved in
/// between; a pending wrap does not.
pub proof fn a_saved_cursor_comes_back(s: ScreenView, row: u16, col: u16)
    ensures
        s.esc(Seq::empty(), 0x37).at(row, col).esc(Seq::empty(), 0x38).cursor == (
        crate::cursor::Cursor { pending_wrap: false, ..s.cursor }),
        s.esc(Seq::empty(), 0x37).active == s.active,
{
    reveal(ScreenView::esc);
}

/// The full reset gives a new screen of the same size. Only what the terminal was
/// told from outside survives it: its name and the color scheme.
pub proof fn a_reset_starts_over(s: ScreenView)
    ensures
        s.esc(Seq::empty(), 0x63) == super::model::blank_screen(
            s.rows(),
            s.cols(),
            s.term,
            s.color_scheme_dark,
        ),
{
    reveal(ScreenView::esc);
}

/// A new screen is sound.
pub proof fn new_screens_are_sound(rows: u16, cols: u16, term: Seq<char>, dark: bool)
    requires
        rows >= 1,
        cols >= 2,
    ensures
        sound(super::model::blank_screen(rows, cols, term, dark)),
        super::model::blank_screen(rows, cols, term, dark).kbd.wf(),
{
}

proof fn kept_rows_are_pushed(s: ScreenView, rows: Seq<crate::row::RowView>)
    ensures
        s.keep_rows(rows).scrollback == s.scrollback.pushed_all(rows),
    decreases rows.len(),
{
    if rows.len() > 0 {
        kept_rows_are_pushed(s, rows.drop_last());
    }
}

/// The rows that leave the main screen at its top go to the scrollback in their
/// order. Rows that leave a region further down, or the alternate screen, do not.
pub proof fn only_the_top_feeds_the_scrollback(s: ScreenView, n: u16)
    ensures
        s.alt is None && s.scroll_region.0 == 0 ==> s.scrolled_up(n).scrollback
            == s.scrollback.pushed_all(s.active.pushed_out(0, s.scroll_region.1, n)),
        s.alt is Some || s.scroll_region.0 > 0 ==> s.scrolled_up(n).scrollback == s.scrollback,
{
    let (top, bottom) = s.scroll_region;
    let next = ScreenView { active: s.active.scrolled_up(top, bottom, n), ..s };
    kept_rows_are_pushed(next, s.active.pushed_out(top, bottom, n));
}

} // verus!
