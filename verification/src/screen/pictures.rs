//! What a graphics command does, from its bytes to the picture on the screen.
use super::model::{retained, ScreenView};
use crate::command::{as_i32, as_u16, as_u32, command_of, first_byte, is_one, CommandView};
use crate::graphics::{FrameView, ImageFormat, ImageProtocol, ImageView, Placement};
use crate::reply::{decimal, decimals_read_back};
use crate::scan::first_is;
use vstd::prelude::*;

verus! {

/// A key and its value, as they are written in a command.
pub open spec fn pair_text(p: (u8, Seq<u8>)) -> Seq<u8> {
    seq![p.0, 0x3du8] + p.1
}

/// Keys with their values, with commas between them.
pub open spec fn joined(pairs: Seq<(u8, Seq<u8>)>) -> Seq<u8>
    decreases pairs.len(),
{
    if pairs.len() == 0 {
        Seq::empty()
    } else if pairs.len() == 1 {
        pair_text(pairs[0])
    } else {
        pair_text(pairs[0]) + seq![0x2cu8] + joined(pairs.skip(1))
    }
}

/// A graphics command: `ESC _ G`, the keys, `;`, the data, `ESC \`.
pub open spec fn command_bytes(pairs: Seq<(u8, Seq<u8>)>, data: Seq<u8>) -> Seq<u8> {
    seq![0x1bu8, 0x5fu8, 0x47u8] + joined(pairs) + seq![0x3bu8] + data + seq![0x1bu8, 0x5cu8]
}

/// Keys are not punctuation, and values hold none.
pub open spec fn well_written(pairs: Seq<(u8, Seq<u8>)>) -> bool {
    pairs.len() > 0 && forall|i: int|
        0 <= i < pairs.len() ==> {
            let p = #[trigger] pairs[i];
            &&& p.0 != 0x2c && p.0 != 0x3b && p.0 != 0x3d
            &&& !p.1.contains(0x2cu8) && !p.1.contains(0x3bu8)
        }
}

/// The last value that is given for a key is `v`.
pub open spec fn says(pairs: Seq<(u8, Seq<u8>)>, k: u8, v: Seq<u8>) -> bool {
    exists|i: int|
        0 <= i < pairs.len() && #[trigger] pairs[i] == (k, v) && forall|j: int|
            i < j < pairs.len() ==> (#[trigger] pairs[j]).0 != k
}

/// A key does not occur.
pub open spec fn omits_key(pairs: Seq<(u8, Seq<u8>)>, k: u8) -> bool {
    forall|i: int| 0 <= i < pairs.len() ==> (#[trigger] pairs[i]).0 != k
}

spec fn folded(c: CommandView, pairs: Seq<(u8, Seq<u8>)>) -> CommandView
    decreases pairs.len(),
{
    if pairs.len() == 0 {
        c
    } else {
        folded(c.with_key(pairs[0].0, pairs[0].1), pairs.skip(1))
    }
}

proof fn a_pair_is_read(c: CommandView, p: (u8, Seq<u8>))
    requires
        p.0 != 0x3d,
    ensures
        c.with_pair(pair_text(p)) == c.with_key(p.0, p.1),
{
    first_is(pair_text(p), 0x3d, 1);
    assert(pair_text(p).skip(2) =~= p.1);
}

proof fn pairs_are_read(c: CommandView, pairs: Seq<(u8, Seq<u8>)>)
    requires
        well_written(pairs),
    ensures
        c.with_pairs(joined(pairs)) == folded(c, pairs),
        !joined(pairs).contains(0x3bu8),
    decreases pairs.len(),
{
    let text = pair_text(pairs[0]);
    let p = pairs[0];
    a_pair_is_read(c, p);
    assert forall|k: int| 0 <= k < text.len() implies text[k] != 0x2c && text[k] != 0x3b by {
        if k >= 2 {
            assert(text[k] == p.1[k - 2]);
            assert(p.1.contains(p.1[k - 2]));
        }
    }
    let all = joined(pairs);
    first_is(all, 0x2c, text.len() as int);
    assert(all.take(text.len() as int) =~= text);
    if pairs.len() == 1 {
        assert(pairs.skip(1) =~= Seq::empty());
        assert(folded(c, pairs) == folded(c.with_key(p.0, p.1), pairs.skip(1)));
    } else {
        let rest = pairs.skip(1);
        assert forall|i: int| 0 <= i < rest.len() implies {
            let q = #[trigger] rest[i];
            &&& q.0 != 0x2c && q.0 != 0x3b && q.0 != 0x3d
            &&& !q.1.contains(0x2cu8) && !q.1.contains(0x3bu8)
        } by {
            assert(rest[i] == pairs[i + 1]);
        }
        pairs_are_read(c.with_key(p.0, p.1), rest);
        assert(all.skip(text.len() as int + 1) =~= joined(rest));
        assert forall|k: int| 0 <= k < all.len() implies all[k] != 0x3b by {
            if k > text.len() {
                assert(all[k] == joined(rest)[k - text.len() - 1]);
                assert(joined(rest).contains(all[k]));
            }
        }
    }
}

proof fn a_command_is_read(pairs: Seq<(u8, Seq<u8>)>, data: Seq<u8>)
    requires
        well_written(pairs),
    ensures
        command_of(command_bytes(pairs, data)) == Some(folded(CommandView::bare(data), pairs)),
{
    let framed = command_bytes(pairs, data);
    let text = joined(pairs);
    pairs_are_read(CommandView::bare(data), pairs);
    assert(framed.take(2) =~= seq![0x1bu8, 0x5fu8]);
    let inner = framed.skip(2);
    assert(inner.skip(inner.len() - 2) =~= seq![0x1bu8, 0x5cu8]);
    let cut = inner.take(inner.len() - 2);
    assert(cut =~= seq![0x47u8] + text + seq![0x3bu8] + data);
    let body = cut.skip(1);
    assert(body =~= text + seq![0x3bu8] + data);
    assert forall|k: int| 0 <= k < text.len() implies body[k] != 0x3b by {
        assert(body[k] == text[k]);
        assert(text.contains(text[k]));
    }
    first_is(body, 0x3b, text.len() as int);
    assert(body.take(text.len() as int) =~= text);
    assert(body.skip(text.len() as int + 1) =~= data);
}

/// What a key stands for.
spec fn key_is(c: CommandView, k: u8, v: Seq<u8>) -> bool {
    &&& k == 0x61 ==> v.len() > 0 ==> c.action == v[0]
    &&& k == 0x69 ==> c.id == as_u32(v)
    &&& k == 0x70 ==> c.placement_id == as_u32(v)
    &&& k == 0x66 ==> c.format == as_u32(v)
    &&& k == 0x73 ==> c.width == as_u32(v)
    &&& k == 0x76 ==> c.height == as_u32(v)
    &&& k == 0x72 ==> c.rows == as_u16(v)
    &&& k == 0x63 ==> c.cols == as_u16(v)
    &&& k == 0x7a ==> c.z == as_i32(v)
    &&& k == 0x6d ==> c.saw_m && c.more == is_one(v)
    &&& k == 0x64 ==> c.delete_target == first_byte(v)
    &&& k == 0x55 ==> c.unicode == is_one(v)
    &&& k == 0x78 ==> c.frame_x == as_u32(v)
    &&& k == 0x79 ==> c.frame_y == as_u32(v)
    &&& k == 0x58 ==> c.compose_overwrite == is_one(v)
    &&& k == 0x59 ==> c.bg_color == as_u32(v)
}

spec fn same_key(a: CommandView, b: CommandView, k: u8) -> bool {
    &&& k == 0x61 ==> b.action == a.action
    &&& k == 0x69 ==> b.id == a.id
    &&& k == 0x70 ==> b.placement_id == a.placement_id
    &&& k == 0x66 ==> b.format == a.format
    &&& k == 0x73 ==> b.width == a.width
    &&& k == 0x76 ==> b.height == a.height
    &&& k == 0x72 ==> b.rows == a.rows
    &&& k == 0x63 ==> b.cols == a.cols
    &&& k == 0x7a ==> b.z == a.z
    &&& k == 0x6d ==> b.saw_m == a.saw_m && b.more == a.more
    &&& k == 0x64 ==> b.delete_target == a.delete_target
    &&& k == 0x55 ==> b.unicode == a.unicode
    &&& k == 0x78 ==> b.frame_x == a.frame_x
    &&& k == 0x79 ==> b.frame_y == a.frame_y
    &&& k == 0x58 ==> b.compose_overwrite == a.compose_overwrite
    &&& k == 0x59 ==> b.bg_color == a.bg_color
}

proof fn the_last_value_counts(c: CommandView, pairs: Seq<(u8, Seq<u8>)>, k: u8, v: Seq<u8>)
    ensures
        says(pairs, k, v) ==> key_is(folded(c, pairs), k, v),
        omits_key(pairs, k) ==> same_key(c, folded(c, pairs), k),
        folded(c, pairs).payload == c.payload,
    decreases pairs.len(),
{
    if pairs.len() > 0 {
        let rest = pairs.skip(1);
        let next = c.with_key(pairs[0].0, pairs[0].1);
        the_last_value_counts(next, rest, k, v);
        if says(pairs, k, v) {
            let i = choose|i: int|
                0 <= i < pairs.len() && #[trigger] pairs[i] == (k, v) && forall|j: int|
                    i < j < pairs.len() ==> (#[trigger] pairs[j]).0 != k;
            assert forall|j: int| i - 1 < j < rest.len() && j >= 0 implies (
            #[trigger] rest[j]).0 != k by {
                assert(rest[j] == pairs[j + 1]);
            }
            if i > 0 {
                assert(rest[i - 1] == (k, v));
                assert(says(rest, k, v));
            } else {
                assert(omits_key(rest, k));
                assert(key_is(next, k, v));
            }
        }
        if omits_key(pairs, k) {
            assert(pairs[0].0 != k);
            assert forall|j: int| 0 <= j < rest.len() implies (#[trigger] rest[j]).0 != k by {
                assert(rest[j] == pairs[j + 1]);
            }
            assert(same_key(c, next, k));
        }
    }
}

proof fn numbers_are_read(n: nat)
    ensures
        n <= u16::MAX ==> as_u16(decimal(n)) == Some(n as u16),
        n <= u32::MAX ==> as_u32(decimal(n)) == Some(n as u32),
{
    decimals_read_back(n);
    assert(crate::scan::is_digit(decimal(n)[0]));
}

/// The command that some keys make, with numbers in their places.
proof fn what_the_keys_say(pairs: Seq<(u8, Seq<u8>)>, data: Seq<u8>, k: u8, v: Seq<u8>)
    requires
        well_written(pairs),
    ensures
        ({
            let c = folded(CommandView::bare(data), pairs);
            &&& command_of(command_bytes(pairs, data)) == Some(c)
            &&& says(pairs, k, v) ==> key_is(c, k, v)
            &&& omits_key(pairs, k) ==> same_key(CommandView::bare(data), c, k)
            &&& c.payload == data
        }),
{
    a_command_is_read(pairs, data);
    the_last_value_counts(CommandView::bare(data), pairs, k, v);
}

/// The image with a number is stored at place `j`.
pub open spec fn stored_at(s: ScreenView, id: u32, j: int) -> bool {
    0 <= j < s.images.images.len() && s.images.images[j].id == id
}

proof fn the_image_is_found(s: ScreenView, id: u32, j: int)
    requires
        s.images.wf(),
        stored_at(s, id, j),
    ensures
        s.images.contains(id),
        crate::image_store::position(s.images.images, id) == j,
{
    crate::image_store::position_bounds(s.images.images, id);
    let p = crate::image_store::position(s.images.images, id);
    if p < j {
        assert(s.images.images[p].id != s.images.images[j].id);
    }
}

/// Placements that stay keep all but their line.
proof fn the_last_placement_stays(ps: Seq<Placement>, n: u32)
    requires
        ps.len() > 0,
        ps.last().anchor_line >= n,
    ensures
        super::model::moved_up(ps, n).len() > 0,
        super::model::moved_up(ps, n).last() == (Placement {
            anchor_line: (ps.last().anchor_line - n) as u32,
            ..ps.last()
        }),
{
}

/// The placement is still there, and the cursor is `n` lines below its top.
spec fn stands_below(s: ScreenView, p: Placement, n: int) -> bool {
    &&& s.alt is None
    &&& s.scroll_region.0 == 0
    &&& s.cursor.row.0 <= s.scroll_region.1 < s.active.rows.len() <= u16::MAX
    &&& s.scrollback.rows.len() <= s.scrollback.cap
    &&& s.placements.len() > 0
    &&& s.placements.last() == (Placement {
        anchor_line: s.placements.last().anchor_line,
        ..p
    })
    &&& s.scrollback.rows.len() + s.cursor.row.0 == s.placements.last().anchor_line + n
}

#[verifier::spinoff_prover]
proof fn one_row_below(s: ScreenView, p: Placement, n: int)
    requires
        stands_below(s, p, n),
        n < s.scrollback.cap,
        n >= 0,
    ensures
        stands_below(s.next_row(false), p, n + 1),
        s.next_row(false).scrollback.cap == s.scrollback.cap,
        s.next_row(false).scroll_region == s.scroll_region,
        s.next_row(false).cursor == (crate::cursor::Cursor {
            row: s.next_row(false).cursor.row,
            ..s.cursor
        }),
        s.next_row(false).images == s.images,
        s.next_row(false).pending_tx == s.pending_tx,
        s.next_row(false).virtual_placements == s.virtual_placements,
        s.cursor.row.0 < s.scroll_region.1 ==> s.next_row(false).cursor.row.0 == s.cursor.row.0
            + 1,
        s.cursor.row.0 == s.scroll_region.1 ==> s.next_row(false).cursor.row.0
            == s.cursor.row.0,
{
    let bottom = s.scroll_region.1;
    if s.cursor.row.0 == bottom {
        super::print::scrolling_keeps_the_rest(s, 1);
        let out = s.active.pushed_out(0, bottom, 1);
        assert(out.len() == 1);
        assert(out.drop_last() =~= Seq::empty());
        let next = ScreenView { active: s.active.scrolled_up(0, bottom, 1), ..s };
        assert(next.keep_rows(out.drop_last()) == next);
        assert(s.scrolled_up(1) == next.keep_row(out.last()));
        let gone = s.scrollback.evicted() as u32;
        the_last_placement_stays(s.placements, gone);
    }
}

proof fn rows_below(s: ScreenView, p: Placement, n: nat)
    requires
        stands_below(s, p, 0),
        n <= s.scrollback.cap,
    ensures
        ({
            let t = s.next_rows(n);
            &&& stands_below(t, p, n as int)
            &&& t.scrollback.cap == s.scrollback.cap
            &&& t.scroll_region == s.scroll_region
            &&& t.cursor == (crate::cursor::Cursor { row: t.cursor.row, ..s.cursor })
            &&& t.images == s.images
            &&& t.pending_tx == s.pending_tx
            &&& t.virtual_placements == s.virtual_placements
            &&& t.cursor.row.0 == (if s.cursor.row.0 + n <= s.scroll_region.1 {
                s.cursor.row.0 + n
            } else {
                s.scroll_region.1 as int
            })
        }),
    decreases n,
{
    if n > 0 {
        rows_below(s, p, (n - 1) as nat);
        one_row_below(s.next_rows((n - 1) as nat), p, n - 1);
    }
}

spec fn scrolls_here(s: ScreenView, rows: int) -> bool {
    &&& s.alt is None
    &&& s.scroll_region.0 == 0
    &&& s.cursor.row.0 <= s.scroll_region.1 < s.active.rows.len() <= u16::MAX
    &&& s.scrollback.rows.len() <= s.scrollback.cap
    &&& 0 <= rows <= s.scrollback.cap
    &&& s.scrollback.rows.len() + s.cursor.row.0 <= u32::MAX
}

/// A place for a picture: a main screen that scrolls from its top, with the cursor in
/// what scrolls and a scrollback for the rows of the picture.
pub open spec fn has_room(s: ScreenView, rows: int) -> bool {
    &&& s.wf()
    &&& s.in_bounds()
    &&& s.alt is None
    &&& s.scroll_region.0 == 0
    &&& s.cursor.row.0 <= s.scroll_region.1
    &&& 0 <= rows <= s.scrollback.cap
    &&& s.scrollback.rows.len() + s.cursor.row.0 <= u32::MAX
}

/// The last placement of `t` shows an image at the cursor of `s`, `rows` rows high and
/// `cols` columns wide, and the cursor is at the left edge below it: further down by that
/// many rows, as far as there are such rows, and that many lines below the top of the
/// picture in any case.
pub open spec fn placed_there(
    s: ScreenView,
    t: ScreenView,
    id: u32,
    rows: int,
    cols: int,
) -> bool {
    let p = t.placements.last();
    &&& t.placements.len() > 0
    &&& p.image_id == id
    &&& p.rows == rows
    &&& p.cols == cols
    &&& p.col == s.cursor.col.0
    &&& t.cursor.col.0 == 0
    &&& t.scrollback.rows.len() + t.cursor.row.0 == p.anchor_line + rows
    &&& s.cursor.row.0 + rows <= s.scroll_region.1 ==> t.cursor.row.0 == s.cursor.row.0 + rows
    &&& s.cursor.row.0 + rows > s.scroll_region.1 ==> t.cursor.row.0 == s.scroll_region.1
}

proof fn placing(
    s: ScreenView,
    id: u32,
    protocol: ImageProtocol,
    w: u32,
    h: u32,
    r: Option<u16>,
    c: Option<u16>,
    z: i32,
)
    requires
        scrolls_here(s, s.footprint(w, h, r, c).0 as int),
    ensures
        ({
            let (rows, cols) = s.footprint(w, h, r, c);
            let t = s.placed(id, protocol, w, h, r, c, z);
            &&& t.images == s.images
            &&& t.pending_tx == s.pending_tx
            &&& t.virtual_placements == s.virtual_placements
            &&& placed_there(s, t, id, rows as int, cols as int)
            &&& t.placements.last().z == z
            &&& t.placements.last().protocol == protocol
        }),
{
    let size = s.footprint(w, h, r, c);
    let u = s.recorded(id, protocol, size, z);
    let p = u.placements.last();
    assert(s.scrollback.rows.len() as u32 == s.scrollback.rows.len());
    assert(p.anchor_line == s.scrollback.rows.len() + s.cursor.row.0);
    rows_below(u, p, size.0 as nat);
}

/// A number of cells covers a number of pixels, and no cell is too many. There is at
/// least one, and there are at most a thousand.
pub open spec fn covers(cells: int, pixels: int, cell: int) -> bool {
    &&& 1 <= cells <= 1000
    &&& cells < 1000 ==> cells * cell >= pixels
    &&& cells > 1 ==> (cells - 1) * cell < pixels
}

proof fn cells_cover(pixels: u32, cell: u16)
    requires
        cell >= 1,
    ensures
        covers(super::images::cells_for(pixels, cell) as int, pixels as int, cell as int),
{
    let a = pixels + cell - 1;
    let c = cell as int;
    assert(a / c * c <= a < a / c * c + c) by (nonlinear_arith)
        requires
            c >= 1,
    ;
    let q = a / c;
    assert(1000 < q ==> 999 * c < q * c - c) by (nonlinear_arith)
        requires
            c >= 1,
    ;
    assert(q > 0 ==> (q - 1) * c == q * c - c) by (nonlinear_arith);
    assert(1000 * c - c == 999 * c);
    assert(q < 1 ==> q * c <= 0) by (nonlinear_arith)
        requires
            c >= 1,
    ;
}

/// Where a command places a stored image again, it is shown at the cursor. It has as
/// many rows as the command states (`r`) and as many columns as it states (`c`), and the
/// cursor goes down by that many rows. What is not stated is as large as the pixels of
/// the image need.
pub proof fn a_placement_is_as_large_as_stated(
    s: ScreenView,
    pairs: Seq<(u8, Seq<u8>)>,
    data: Seq<u8>,
    id: u32,
    j: int,
    rows: u16,
    cols: u16,
)
    requires
        well_written(pairs),
        says(pairs, 0x61, seq![0x70u8]),
        says(pairs, 0x69, decimal(id as nat)),
        omits_key(pairs, 0x55),
        stored_at(s, id, j),
        says(pairs, 0x72, decimal(rows as nat)) && has_room(s, rows as int) || omits_key(
            pairs,
            0x72,
        ) && has_room(s, 1000),
        says(pairs, 0x63, decimal(cols as nat)) || omits_key(pairs, 0x63),
    ensures
        ({
            let t = s.graphics(command_bytes(pairs, data));
            let p = t.placements.last();
            let img = s.images.images[j];
            let (w, h) = s.cell_pixels();
            &&& placed_there(s, t, id, p.rows as int, p.cols as int)
            &&& p.protocol == img.protocol
            &&& says(pairs, 0x72, decimal(rows as nat)) ==> p.rows == rows
            &&& says(pairs, 0x63, decimal(cols as nat)) ==> p.cols == cols
            &&& omits_key(pairs, 0x72) ==> covers(p.rows as int, img.pixel_h as int, h as int)
            &&& omits_key(pairs, 0x63) ==> covers(p.cols as int, img.pixel_w as int, w as int)
        }),
{
    reveal(ScreenView::graphics);
    let c = folded(CommandView::bare(data), pairs);
    what_the_keys_say(pairs, data, 0x61, seq![0x70u8]);
    what_the_keys_say(pairs, data, 0x69, decimal(id as nat));
    what_the_keys_say(pairs, data, 0x55, Seq::empty());
    what_the_keys_say(pairs, data, 0x72, decimal(rows as nat));
    what_the_keys_say(pairs, data, 0x63, decimal(cols as nat));
    numbers_are_read(id as nat);
    numbers_are_read(rows as nat);
    numbers_are_read(cols as nat);
    the_image_is_found(s, id, j);
    let img = s.images.images[j];
    let z = match c.z {
        Some(z) => z,
        None => 0,
    };
    let (w, h) = s.cell_pixels();
    cells_cover(img.pixel_h, h);
    cells_cover(img.pixel_w, w);
    placing(s, id, img.protocol, img.pixel_w, img.pixel_h, c.rows, c.cols, z);
}

/// A transmission stores the image under its number, with its format, its size in
/// pixels and its data. If it is to be shown as well (`a=T`), it is placed at the cursor,
/// as large as stated; else (`a=t`) nothing is placed and the cursor stays.
pub proof fn a_transmission_is_stored(
    s: ScreenView,
    pairs: Seq<(u8, Seq<u8>)>,
    data: Seq<u8>,
    id: u32,
    w: u32,
    h: u32,
    f: u32,
    rows: u16,
    cols: u16,
    show: bool,
)
    requires
        well_written(pairs),
        says(
            pairs,
            0x61,
            seq![
                if show {
                    0x54u8
                } else {
                    0x74u8
                },
            ],
        ),
        says(pairs, 0x69, decimal(id as nat)),
        says(pairs, 0x73, decimal(w as nat)),
        says(pairs, 0x76, decimal(h as nat)),
        says(pairs, 0x66, decimal(f as nat)),
        says(pairs, 0x72, decimal(rows as nat)) && has_room(s, rows as int) || omits_key(
            pairs,
            0x72,
        ) && has_room(s, 1000),
        says(pairs, 0x63, decimal(cols as nat)) || omits_key(pairs, 0x63),
        omits_key(pairs, 0x6d),
        omits_key(pairs, 0x55),
        w > 0 && h > 0,
        s.images.bytes + data.len() <= usize::MAX,
    ensures
        ({
            let t = s.graphics(command_bytes(pairs, data));
            let img = t.images.images.last();
            let p = t.placements.last();
            let (cw, ch) = s.cell_pixels();
            &&& t.images.images.len() > 0
            &&& img.id == id
            &&& img.protocol == ImageProtocol::Kitty
            &&& img.pixel_w == w && img.pixel_h == h
            &&& img.data_b64 == data
            &&& f == 24 ==> img.format == ImageFormat::Rgb
            &&& f == 32 ==> img.format == ImageFormat::Rgba
            &&& f == 100 ==> img.format == ImageFormat::Png
            &&& img.frames.len() == 0 && img.anim_control is None
            &&& t.pending_tx is None
            &&& !show ==> t.cursor == s.cursor && t.placements.len() <= s.placements.len()
            &&& show ==> {
                &&& placed_there(s, t, id, p.rows as int, p.cols as int)
                &&& says(pairs, 0x72, decimal(rows as nat)) ==> p.rows == rows
                &&& says(pairs, 0x63, decimal(cols as nat)) ==> p.cols == cols
                &&& omits_key(pairs, 0x72) ==> covers(p.rows as int, h as int, ch as int)
                &&& omits_key(pairs, 0x63) ==> covers(p.cols as int, w as int, cw as int)
            }
        }),
{
    reveal(ScreenView::graphics);
    let c = folded(CommandView::bare(data), pairs);
    let a = seq![
        if show {
            0x54u8
        } else {
            0x74u8
        },
    ];
    what_the_keys_say(pairs, data, 0x61, a);
    what_the_keys_say(pairs, data, 0x69, decimal(id as nat));
    what_the_keys_say(pairs, data, 0x73, decimal(w as nat));
    what_the_keys_say(pairs, data, 0x76, decimal(h as nat));
    what_the_keys_say(pairs, data, 0x66, decimal(f as nat));
    what_the_keys_say(pairs, data, 0x72, decimal(rows as nat));
    what_the_keys_say(pairs, data, 0x63, decimal(cols as nat));
    what_the_keys_say(pairs, data, 0x6d, Seq::empty());
    what_the_keys_say(pairs, data, 0x55, Seq::empty());
    numbers_are_read(id as nat);
    numbers_are_read(w as nat);
    numbers_are_read(h as nat);
    numbers_are_read(f as nat);
    numbers_are_read(rows as nat);
    numbers_are_read(cols as nat);
    let gen = s.image_gen.wrapping_add(1);
    let img = ImageView {
        id,
        protocol: ImageProtocol::Kitty,
        format: super::images::format_asked(Some(f)),
        pixel_w: w,
        pixel_h: h,
        data_b64: data,
        iterm_args: None,
        generation: gen,
        frames: Seq::empty(),
        anim_control: None,
    };
    assert(crate::graphics::frame_bytes(Seq::empty()) == 0);
    crate::image_store::insertion_meets_the_budget(s.images, img);
    let u = ScreenView { pending_tx: None, image_gen: gen, ..s }.stored(img);
    let all = s.images.grown(img);
    let gone = crate::image_store::ids(all).take(crate::image_store::surplus(all));
    retaining(s.placements, |p: Placement| !gone.contains(p.image_id));
    let (cw, ch) = s.cell_pixels();
    assert(u.cell_pixels() == (cw, ch));
    cells_cover(h, ch);
    cells_cover(w, cw);
    let z = match c.z {
        Some(z) => z,
        None => 0,
    };
    if show {
        placing(u, id, ImageProtocol::Kitty, w, h, c.rows, c.cols, z);
        assert(s.graphics(command_bytes(pairs, data)) == u.placed(
            id,
            ImageProtocol::Kitty,
            w,
            h,
            c.rows,
            c.cols,
            z,
        ));
    } else {
        assert(s.graphics(command_bytes(pairs, data)) == u);
    }
}

proof fn retaining<T>(s: Seq<T>, keep: spec_fn(T) -> bool)
    ensures
        retained(s, keep).len() <= s.len(),
        forall|i: int|
            0 <= i < s.len() && keep(s[i]) ==> retained(s, keep).contains(#[trigger] s[i]),
        forall|i: int|
            0 <= i < retained(s, keep).len() ==> keep(#[trigger] retained(s, keep)[i])
                && s.contains(retained(s, keep)[i]),
    decreases s.len(),
{
    if s.len() > 0 {
        let front = s.drop_last();
        retaining(front, keep);
        let r = retained(s, keep);
        let done = retained(front, keep);
        assert forall|i: int| 0 <= i < s.len() && keep(s[i]) implies r.contains(
            #[trigger] s[i],
        ) by {
            if i < s.len() - 1 {
                assert(front[i] == s[i]);
                let k = choose|k: int| 0 <= k < done.len() && done[k] == s[i];
                assert(r[k] == s[i]);
            } else {
                assert(r[r.len() - 1] == s[i]);
            }
        }
        assert forall|i: int| 0 <= i < r.len() implies keep(#[trigger] r[i]) && s.contains(
            r[i],
        ) by {
            if i < done.len() {
                assert(r[i] == done[i]);
                let k = choose|k: int| 0 <= k < front.len() && front[k] == done[i];
                assert(s[k] == r[i]);
            } else {
                assert(s[s.len() - 1] == r[i]);
            }
        }
    }
}

/// Data may come in chunks: a command that announces more (`m=1`) and one that brings
/// the rest (`m=0`) do what one command with all the data does.
pub proof fn chunks_are_put_together(
    s: ScreenView,
    pairs: Seq<(u8, Seq<u8>)>,
    id: u32,
    show: bool,
    first: Seq<u8>,
    second: Seq<u8>,
)
    requires
        s.alt is None,
        well_written(pairs),
        says(
            pairs,
            0x61,
            seq![
                if show {
                    0x54u8
                } else {
                    0x74u8
                },
            ],
        ),
        says(pairs, 0x69, decimal(id as nat)),
        omits_key(pairs, 0x6d),
    ensures
        s.graphics(command_bytes(pairs.push((0x6du8, seq![0x31u8])), first)).graphics(
            command_bytes(seq![(0x6du8, seq![0x30u8])], second),
        ) == s.graphics(command_bytes(pairs, first + second)),
{
    let a = seq![
        if show {
            0x54u8
        } else {
            0x74u8
        },
    ];
    let begun = pairs.push((0x6du8, seq![0x31u8]));
    let rest = seq![(0x6du8, seq![0x30u8])];
    let c = folded(CommandView::bare(first + second), pairs);
    let c1 = CommandView { payload: first, saw_m: true, more: true, ..c };
    let c2 = CommandView { saw_m: true, ..CommandView::bare(second) };
    assert(command_of(command_bytes(begun, first)) == Some(c1)) by {
        assert forall|i: int| 0 <= i < begun.len() implies {
            let p = #[trigger] begun[i];
            &&& p.0 != 0x2c && p.0 != 0x3b && p.0 != 0x3d
            &&& !p.1.contains(0x2cu8) && !p.1.contains(0x3bu8)
        } by {
            if i < pairs.len() {
                assert(begun[i] == pairs[i]);
            }
        }
        a_command_is_read(begun, first);
        one_pair_more(CommandView::bare(first), pairs, (0x6du8, seq![0x31u8]));
        other_data(CommandView::bare(first), pairs, first + second);
        the_last_value_counts(CommandView::bare(first), pairs, 0x6d, Seq::empty());
        let read = folded(CommandView::bare(first), pairs);
        assert(CommandView::bare(first + second) == (CommandView {
            payload: first + second,
            ..CommandView::bare(first)
        }));
        assert(c == (CommandView { payload: first + second, ..read }));
        assert(read.payload == first);
        assert(is_one(seq![0x31u8]));
        assert(folded(CommandView::bare(first), begun) == (CommandView {
            saw_m: true,
            more: true,
            ..read
        }));
    }
    assert(command_of(command_bytes(rest, second)) == Some(c2)) by {
        a_command_is_read(rest, second);
        one_pair_more(CommandView::bare(second), Seq::empty(), (0x6du8, seq![0x30u8]));
        assert(Seq::<(u8, Seq<u8>)>::empty().push((0x6du8, seq![0x30u8])) =~= rest);
        assert(seq![0x30u8][0] != seq![0x31u8][0]);
    }
    assert(command_of(command_bytes(pairs, first + second)) == Some(c) && c.action == a[0]
        && c.id == Some(id) && !c.more && !c.saw_m && c.payload == first + second) by {
        what_the_keys_say(pairs, first + second, 0x61, a);
        what_the_keys_say(pairs, first + second, 0x69, decimal(id as nat));
        what_the_keys_say(pairs, first + second, 0x6d, Seq::empty());
        numbers_are_read(id as nat);
    }
    two_chunks_are_one(
        s,
        command_bytes(begun, first),
        command_bytes(rest, second),
        command_bytes(pairs, first + second),
        c,
        first,
        second,
    );
}

proof fn two_chunks_are_one(
    s: ScreenView,
    b1: Seq<u8>,
    b2: Seq<u8>,
    b: Seq<u8>,
    c: CommandView,
    first: Seq<u8>,
    second: Seq<u8>,
)
    requires
        s.alt is None,
        c.action == 0x54 || c.action == 0x74,
        c.id is Some,
        !c.more && !c.saw_m,
        c.payload == first + second,
        command_of(b) == Some(c),
        command_of(b1) == Some(CommandView { payload: first, saw_m: true, more: true, ..c }),
        command_of(b2) == Some(CommandView { saw_m: true, ..CommandView::bare(second) }),
    ensures
        s.graphics(b1).graphics(b2) == s.graphics(b),
{
    let c1 = CommandView { payload: first, saw_m: true, more: true, ..c };
    let c2 = CommandView { saw_m: true, ..CommandView::bare(second) };
    let t = s.chunk_taken(c1);
    assert(s.graphics(b1) == t) by {
        reveal(ScreenView::graphics);
    }
    assert(t.alt is None && t.continues(c2));
    assert(t.graphics(b2) == t.chunk_taken(c2).finalized()) by {
        reveal(ScreenView::graphics);
    }
    assert(s.graphics(b) == s.chunk_taken(c).finalized()) by {
        reveal(ScreenView::graphics);
    }
    assert(t.chunk_taken(c2) == s.chunk_taken(c));
}

proof fn one_pair_more(c: CommandView, pairs: Seq<(u8, Seq<u8>)>, p: (u8, Seq<u8>))
    ensures
        folded(c, pairs.push(p)) == folded(c, pairs).with_key(p.0, p.1),
    decreases pairs.len(),
{
    let all = pairs.push(p);
    if pairs.len() == 0 {
        assert(all.skip(1) =~= Seq::empty());
        reveal_with_fuel(folded, 2);
    } else {
        assert(all.skip(1) =~= pairs.skip(1).push(p));
        one_pair_more(c.with_key(pairs[0].0, pairs[0].1), pairs.skip(1), p);
    }
}

proof fn other_data(c: CommandView, pairs: Seq<(u8, Seq<u8>)>, data: Seq<u8>)
    ensures
        folded(CommandView { payload: data, ..c }, pairs) == (CommandView {
            payload: data,
            ..folded(c, pairs)
        }),
    decreases pairs.len(),
{
    if pairs.len() > 0 {
        let (k, v) = pairs[0];
        other_data(c.with_key(k, v), pairs.skip(1), data);
        assert(CommandView { payload: data, ..c }.with_key(k, v) == (CommandView {
            payload: data,
            ..c.with_key(k, v)
        }));
    }
}

/// Deleting takes away the placements of the image that is named, and no others;
/// without a name it takes all away. The images stay.
pub proof fn deleting_placements(
    s: ScreenView,
    pairs: Seq<(u8, Seq<u8>)>,
    data: Seq<u8>,
    id: u32,
    i: int,
)
    requires
        s.alt is None,
        well_written(pairs),
        says(pairs, 0x61, seq![0x64u8]),
    ensures
        ({
            let t = s.graphics(command_bytes(pairs, data));
            &&& t == (ScreenView {
                placements: t.placements,
                virtual_placements: t.virtual_placements,
                ..s
            })
            &&& omits_key(pairs, 0x69) ==> t.placements.len() == 0 && t.virtual_placements.len()
                == 0
            &&& says(pairs, 0x69, decimal(id as nat)) ==> {
                &&& 0 <= i < t.placements.len() ==> t.placements[i].image_id != id
                    && s.placements.contains(t.placements[i])
                &&& 0 <= i < s.placements.len() && s.placements[i].image_id != id
                    ==> t.placements.contains(s.placements[i])
                &&& 0 <= i < t.virtual_placements.len() ==> t.virtual_placements[i].image_id != id
                    && s.virtual_placements.contains(t.virtual_placements[i])
                &&& 0 <= i < s.virtual_placements.len() && s.virtual_placements[i].image_id != id
                    ==> t.virtual_placements.contains(s.virtual_placements[i])
            }
        }),
{
    reveal(ScreenView::graphics);
    what_the_keys_say(pairs, data, 0x61, seq![0x64u8]);
    what_the_keys_say(pairs, data, 0x69, decimal(id as nat));
    numbers_are_read(id as nat);
    let ids = seq![id];
    assert(ids[0] == id);
    assert forall|x: u32| ids.contains(x) implies x == id by {}
    assert(ids.contains(id));
    retaining(s.placements, |p: Placement| !ids.contains(p.image_id));
    retaining(
        s.virtual_placements,
        |p: crate::graphics::VirtualPlacement| !ids.contains(p.image_id),
    );
}

/// An image that is placed by placeholder characters (`U=1`) is remembered with its
/// size, under its number and that of the placement, in place of the one of the same
/// numbers. Nothing is drawn: neither the cursor nor the other placements change.
pub proof fn placing_by_placeholders(
    s: ScreenView,
    pairs: Seq<(u8, Seq<u8>)>,
    data: Seq<u8>,
    id: u32,
    number: u32,
    j: int,
    rows: u16,
    cols: u16,
    i: int,
)
    requires
        s.wf(),
        s.alt is None,
        well_written(pairs),
        says(pairs, 0x61, seq![0x70u8]),
        says(pairs, 0x69, decimal(id as nat)),
        says(pairs, 0x70, decimal(number as nat)),
        says(pairs, 0x55, seq![0x31u8]),
        says(pairs, 0x72, decimal(rows as nat)),
        says(pairs, 0x63, decimal(cols as nat)),
        stored_at(s, id, j),
    ensures
        ({
            let t = s.graphics(command_bytes(pairs, data));
            let v = t.virtual_placements.last();
            let n = t.virtual_placements.len();
            &&& n > 0
            &&& v.image_id == id && v.placement_id == number
            &&& v.rows == rows && v.cols == cols
            &&& 0 <= i < n - 1 ==> t.virtual_placements[i].image_id != id
                || t.virtual_placements[i].placement_id != number
            &&& t == (ScreenView {
                virtual_placements: t.virtual_placements,
                graphics_seq: t.graphics_seq,
                ..s
            })
        }),
{
    reveal(ScreenView::graphics);
    what_the_keys_say(pairs, data, 0x61, seq![0x70u8]);
    what_the_keys_say(pairs, data, 0x69, decimal(id as nat));
    what_the_keys_say(pairs, data, 0x70, decimal(number as nat));
    what_the_keys_say(pairs, data, 0x55, seq![0x31u8]);
    what_the_keys_say(pairs, data, 0x72, decimal(rows as nat));
    what_the_keys_say(pairs, data, 0x63, decimal(cols as nat));
    numbers_are_read(id as nat);
    numbers_are_read(number as nat);
    numbers_are_read(rows as nat);
    numbers_are_read(cols as nat);
    the_image_is_found(s, id, j);
    retaining(
        s.virtual_placements,
        |p: crate::graphics::VirtualPlacement| !(p.image_id == id && p.placement_id == number),
    );
}

/// A frame that comes for an image is its newest, with its place, its size, its pause and
/// its data as they were stated.
pub proof fn a_frame_is_added(
    s: ScreenView,
    pairs: Seq<(u8, Seq<u8>)>,
    data: Seq<u8>,
    id: u32,
    j: int,
    k: int,
    nums: (u32, u32, u32, u32),
    colors: (u16, u16, u32),
)
    requires
        s.wf(),
        s.alt is None,
        well_written(pairs),
        says(pairs, 0x61, seq![0x66u8]),
        says(pairs, 0x69, decimal(id as nat)),
        says(pairs, 0x78, decimal(nums.0 as nat)),
        says(pairs, 0x79, decimal(nums.1 as nat)),
        says(pairs, 0x73, decimal(nums.2 as nat)),
        says(pairs, 0x76, decimal(nums.3 as nat)),
        says(pairs, 0x72, decimal(colors.0 as nat)),
        says(pairs, 0x63, decimal(colors.1 as nat)),
        says(pairs, 0x59, decimal(colors.2 as nat)),
        stored_at(s, id, j),
        s.images.images[j].frames.len() > 0 ==> s.images.images[j].frames.last().seq < u64::MAX,
        s.images.bytes + data.len() <= usize::MAX,
        stored_at(s.graphics(command_bytes(pairs, data)), id, k),
    ensures
        ({
            let t = s.graphics(command_bytes(pairs, data));
            let old_frames = s.images.images[j].frames;
            let frames = t.images.images[k].frames;
            let f = frames.last();
            &&& frames.len() > 0
            &&& f.x == nums.0 && f.y == nums.1
            &&& f.width == nums.2 && f.height == nums.3
            &&& f.frame_number == Some(colors.0 as u32)
            &&& f.canvas_source == Some(colors.1 as u32)
            &&& f.bg_color == colors.2
            &&& says(pairs, 0x58, seq![0x31u8]) ==> f.overwrite
            &&& omits_key(pairs, 0x58) ==> !f.overwrite
            &&& omits_key(pairs, 0x7a) ==> f.gap_ms == 0
            &&& f.data_b64 == data
            &&& old_frames.len() > 0 ==> f.seq == old_frames.last().seq + 1
            &&& old_frames.len() < 512 ==> frames.drop_last() == old_frames
            &&& t.images.images[k].data_b64 == s.images.images[j].data_b64
            &&& t.cursor == s.cursor
        }),
{
    reveal(ScreenView::graphics);
    let c = folded(CommandView::bare(data), pairs);
    what_the_keys_say(pairs, data, 0x61, seq![0x66u8]);
    what_the_keys_say(pairs, data, 0x69, decimal(id as nat));
    what_the_keys_say(pairs, data, 0x78, decimal(nums.0 as nat));
    what_the_keys_say(pairs, data, 0x79, decimal(nums.1 as nat));
    what_the_keys_say(pairs, data, 0x73, decimal(nums.2 as nat));
    what_the_keys_say(pairs, data, 0x76, decimal(nums.3 as nat));
    what_the_keys_say(pairs, data, 0x72, decimal(colors.0 as nat));
    what_the_keys_say(pairs, data, 0x63, decimal(colors.1 as nat));
    what_the_keys_say(pairs, data, 0x59, decimal(colors.2 as nat));
    what_the_keys_say(pairs, data, 0x58, seq![0x31u8]);
    what_the_keys_say(pairs, data, 0x7a, Seq::empty());
    numbers_are_read(id as nat);
    numbers_are_read(nums.0 as nat);
    numbers_are_read(nums.1 as nat);
    numbers_are_read(nums.2 as nat);
    numbers_are_read(nums.3 as nat);
    numbers_are_read(colors.0 as nat);
    numbers_are_read(colors.1 as nat);
    numbers_are_read(colors.2 as nat);
    the_image_is_found(s, id, j);
    let all = s.images.animated(id, super::images::frame_of(c));
    let t = s.graphics(command_bytes(pairs, data));
    let gone = crate::image_store::surplus(all);
    crate::image_store::surplus_is_less(all);
    assert(t.images.images == all.skip(gone));
    assert(t.images.images[k] == all[k + gone]);
    if k + gone < j {
        assert(s.images.images[k + gone].id != s.images.images[j].id);
    } else if k + gone > j {
        assert(s.images.images[j].id != s.images.images[k + gone].id);
    }
    let grown = s.images.images[j].frames.push(
        FrameView { seq: t.images.images[k].frames.last().seq, ..super::images::frame_of(c) },
    );
    if s.images.images[j].frames.len() < 512 {
        assert(grown.drop_last() =~= s.images.images[j].frames);
    }
}

/// A command on an animation says what it does (`s`), how often (`v`) and which frame is
/// shown (`c`), each in its own place.
pub proof fn an_animation_is_controlled(
    s: ScreenView,
    pairs: Seq<(u8, Seq<u8>)>,
    data: Seq<u8>,
    id: u32,
    j: int,
    state: u8,
    loops: u32,
    frame: u16,
)
    requires
        s.wf(),
        s.alt is None,
        well_written(pairs),
        says(pairs, 0x61, seq![0x61u8]),
        says(pairs, 0x69, decimal(id as nat)),
        says(pairs, 0x73, decimal(state as nat)),
        says(pairs, 0x76, decimal(loops as nat)),
        says(pairs, 0x63, decimal(frame as nat)),
        stored_at(s, id, j),
    ensures
        ({
            let t = s.graphics(command_bytes(pairs, data));
            let c = t.images.images[j].anim_control;
            &&& c is Some
            &&& state > 0 ==> c->0.state == Some(state)
            &&& state == 0 ==> c->0.state is None
            &&& loops > 0 ==> c->0.loop_count == Some(loops)
            &&& loops == 0 ==> c->0.loop_count is None
            &&& c->0.current_frame == Some(frame as u32)
            &&& t == (ScreenView { images: t.images, ..s })
            &&& t.images.images == s.images.images.update(j, t.images.images[j])
            &&& t.images.images[j] == (ImageView { anim_control: c, ..s.images.images[j] })
        }),
{
    reveal(ScreenView::graphics);
    what_the_keys_say(pairs, data, 0x61, seq![0x61u8]);
    what_the_keys_say(pairs, data, 0x69, decimal(id as nat));
    what_the_keys_say(pairs, data, 0x73, decimal(state as nat));
    what_the_keys_say(pairs, data, 0x76, decimal(loops as nat));
    what_the_keys_say(pairs, data, 0x63, decimal(frame as nat));
    numbers_are_read(id as nat);
    numbers_are_read(state as nat);
    numbers_are_read(loops as nat);
    numbers_are_read(frame as nat);
    the_image_is_found(s, id, j);
}

/// A picture has as many cells as its pixels need, whatever the protocol, and is shown
/// at the cursor. The alternate screen shows none.
pub proof fn pictures_of_other_protocols(
    s: ScreenView,
    p: Seq<Seq<u16>>,
    payload: Seq<u8>,
    w: u32,
    h: u32,
)
    requires
        has_room(s, 1000),
        payload.len() > 0,
        crate::image_size::sixel_size(payload) == Some((w, h)),
        s.images.bytes + super::images::sixel_data(p, payload).len() <= usize::MAX,
    ensures
        ({
            let t = s.sixel(p, payload);
            let img = t.images.images.last();
            let shown = t.placements.last();
            let (cw, ch) = s.cell_pixels();
            &&& img.protocol == ImageProtocol::Sixel
            &&& img.pixel_w == w && img.pixel_h == h
            &&& img.id == s.image_id_seq.wrapping_add(1)
            &&& placed_there(s, t, img.id, shown.rows as int, shown.cols as int)
            &&& covers(shown.rows as int, h as int, ch as int)
            &&& covers(shown.cols as int, w as int, cw as int)
        }),
{
    let id = s.image_id_seq.wrapping_add(1);
    let gen = s.image_gen.wrapping_add(1);
    let img = ImageView {
        id,
        protocol: ImageProtocol::Sixel,
        format: ImageFormat::Rgba,
        pixel_w: w,
        pixel_h: h,
        data_b64: super::images::sixel_data(p, payload),
        iterm_args: None,
        generation: gen,
        frames: Seq::empty(),
        anim_control: None,
    };
    assert(crate::graphics::frame_bytes(Seq::empty()) == 0);
    crate::image_store::insertion_meets_the_budget(s.images, img);
    let u = ScreenView { image_id_seq: id, image_gen: gen, ..s }.stored(img);
    let (cw, ch) = s.cell_pixels();
    assert(u.cell_pixels() == (cw, ch));
    cells_cover(h, ch);
    cells_cover(w, cw);
    placing(u, id, ImageProtocol::Sixel, w, h, None, None, 0);
    assert(s.sixel(p, payload) == u.placed(id, ImageProtocol::Sixel, w, h, None, None, 0));
}

/// A picture that is shown gets the next number.
pub(crate) proof fn showing_counts(
    s: ScreenView,
    args: Seq<char>,
    data: Seq<char>,
    size: Option<(u32, u32)>,
)
    ensures
        s.images.bytes + vstd::utf8::encode_utf8(data).len() <= usize::MAX ==> s.file_shown(
            args,
            data,
            size,
        ).image_id_seq == s.image_id_seq.wrapping_add(1),
{
    let id = s.image_id_seq.wrapping_add(1);
    let gen = s.image_gen.wrapping_add(1);
    let (w, h) = match size {
        Some(x) => x,
        None => (0, 0),
    };
    let img = ImageView {
        id,
        protocol: ImageProtocol::Iterm2,
        format: ImageFormat::Png,
        pixel_w: w,
        pixel_h: h,
        data_b64: vstd::utf8::encode_utf8(data),
        iterm_args: Some(args),
        generation: gen,
        frames: Seq::empty(),
        anim_control: None,
    };
    let u = ScreenView { image_id_seq: id, image_gen: gen, ..s }.stored(img);
    let (rows, cols) = u.footprint(w, h, None, None);
    going_down_counts_nothing(u.recorded(id, ImageProtocol::Iterm2, (rows, cols), 0), rows as nat);
}

proof fn going_down_counts_nothing(s: ScreenView, n: nat)
    ensures
        s.next_rows(n).image_id_seq == s.image_id_seq,
    decreases n,
{
    if n > 0 {
        going_down_counts_nothing(s, (n - 1) as nat);
        super::print::scrolling_keeps_the_rest(s.next_rows((n - 1) as nat), 1);
    }
}

/// The height of a placement in the stack is the one that is stated (`z`), also below the
/// text, or none.
pub proof fn a_placement_has_its_height(
    s: ScreenView,
    pairs: Seq<(u8, Seq<u8>)>,
    data: Seq<u8>,
    id: u32,
    j: int,
    rows: u16,
    z: nat,
)
    requires
        well_written(pairs),
        says(pairs, 0x61, seq![0x70u8]),
        says(pairs, 0x69, decimal(id as nat)),
        says(pairs, 0x72, decimal(rows as nat)),
        omits_key(pairs, 0x55),
        stored_at(s, id, j),
        has_room(s, rows as int),
        z <= i32::MAX,
    ensures
        ({
            let p = s.graphics(command_bytes(pairs, data)).placements.last();
            &&& says(pairs, 0x7a, decimal(z)) ==> p.z == z
            &&& says(pairs, 0x7a, seq![0x2du8] + decimal(z)) ==> p.z == -z
            &&& omits_key(pairs, 0x7a) ==> p.z == 0
        }),
{
    reveal(ScreenView::graphics);
    let c = folded(CommandView::bare(data), pairs);
    what_the_keys_say(pairs, data, 0x61, seq![0x70u8]);
    what_the_keys_say(pairs, data, 0x69, decimal(id as nat));
    what_the_keys_say(pairs, data, 0x55, Seq::empty());
    what_the_keys_say(pairs, data, 0x72, decimal(rows as nat));
    what_the_keys_say(pairs, data, 0x7a, decimal(z));
    what_the_keys_say(pairs, data, 0x7a, seq![0x2du8] + decimal(z));
    numbers_are_read(id as nat);
    numbers_are_read(rows as nat);
    decimals_read_back(z);
    assert(crate::scan::is_digit(decimal(z)[0]));
    assert((seq![0x2du8] + decimal(z)).skip(1) =~= decimal(z));
    the_image_is_found(s, id, j);
    let img = s.images.images[j];
    let height = match c.z {
        Some(z) => z,
        None => 0,
    };
    placing(s, id, img.protocol, img.pixel_w, img.pixel_h, c.rows, c.cols, height);
}

/// When a row goes up into a scrollback with room, placements keep their lines. When the
/// scrollback is full its oldest line goes: a placement on it is gone, and the others
/// are one line further up. So a placement stays with its line.
pub proof fn placements_stay_with_their_lines(s: ScreenView, row: crate::row::RowView, i: int)
    requires
        s.scrollback.rows.len() <= s.scrollback.cap,
        s.scrollback.cap > 0,
        0 <= i < s.placements.len(),
    ensures
        ({
            let t = s.keep_row(row);
            let p = s.placements[i];
            &&& s.scrollback.rows.len() < s.scrollback.cap ==> t.placements == s.placements
            &&& s.scrollback.rows.len() == s.scrollback.cap && p.anchor_line > 0
                ==> t.placements.contains(
                Placement { anchor_line: (p.anchor_line - 1) as u32, ..p },
            )
            &&& s.scrollback.rows.len() == s.scrollback.cap ==> t.placements.len()
                <= s.placements.len()
        }),
{
    all_move_up(s.placements, 0);
    all_move_up(s.placements, 1);
}

proof fn all_move_up(ps: Seq<Placement>, n: u32)
    ensures
        super::model::moved_up(ps, n).len() <= ps.len(),
        n == 0 ==> super::model::moved_up(ps, n) == ps,
        forall|i: int|
            0 <= i < ps.len() && (#[trigger] ps[i]).anchor_line >= n ==> super::model::moved_up(
                ps,
                n,
            ).contains(Placement { anchor_line: (ps[i].anchor_line - n) as u32, ..ps[i] }),
    decreases ps.len(),
{
    if ps.len() > 0 {
        let front = ps.drop_last();
        all_move_up(front, n);
        let done = super::model::moved_up(front, n);
        let all = super::model::moved_up(ps, n);
        if n == 0 {
            assert(all =~= ps);
        }
        assert forall|i: int| 0 <= i < ps.len() && (#[trigger] ps[i]).anchor_line >= n implies
            all.contains(Placement { anchor_line: (ps[i].anchor_line - n) as u32, ..ps[i] }) by {
            let q = Placement { anchor_line: (ps[i].anchor_line - n) as u32, ..ps[i] };
            if i < ps.len() - 1 {
                assert(front[i] == ps[i]);
                let k = choose|k: int| 0 <= k < done.len() && done[k] == q;
                assert(all[k] == q);
            } else {
                assert(all[all.len() - 1] == q);
            }
        }
    }
}

/// The parameters of a sixel picture stand before its data, with semicolons between
/// them.
pub proof fn sixels_keep_their_parameters(p: Seq<Seq<u16>>, n: u16, payload: Seq<u8>)
    ensures
        super::images::sixel_data(Seq::empty(), payload) == seq![0x71u8] + payload,
        super::images::sixel_data(seq![seq![n]], payload) == decimal(n as nat) + seq![0x71u8]
            + payload,
        p.len() > 0 ==> super::images::sixel_data(p.push(seq![n]), payload)
            == super::images::sixel_params(p) + seq![0x3bu8] + decimal(n as nat) + seq![0x71u8]
            + payload,
{
    let none = super::images::sixel_params(Seq::empty());
    assert(none =~= Seq::<u8>::empty());
    assert(super::images::sixel_data(Seq::empty(), payload) =~= seq![0x71u8] + payload);
    let one = seq![seq![n]];
    assert(one.drop_last() =~= Seq::empty());
    assert(one.last()[0] == n);
    assert(super::images::sixel_params(one) =~= decimal(n as nat));
    assert(super::images::sixel_data(one, payload) =~= decimal(n as nat) + seq![0x71u8] + payload);
    let more = p.push(seq![n]);
    assert(more.drop_last() =~= p);
    assert(more.last()[0] == n);
    if p.len() > 0 {
        assert(super::images::sixel_params(more) =~= super::images::sixel_params(p) + seq![0x3bu8]
            + decimal(n as nat));
        assert(super::images::sixel_data(more, payload) =~= super::images::sixel_params(p)
            + seq![0x3bu8] + decimal(n as nat) + seq![0x71u8] + payload);
    }
}

/// An image that comes without a number gets the next one that the terminal gives out.
pub proof fn images_are_numbered(
    s: ScreenView,
    pairs: Seq<(u8, Seq<u8>)>,
    data: Seq<u8>,
    w: u32,
    h: u32,
)
    requires
        s.wf(),
        s.alt is None,
        well_written(pairs),
        says(pairs, 0x61, seq![0x74u8]),
        omits_key(pairs, 0x69),
        says(pairs, 0x73, decimal(w as nat)),
        says(pairs, 0x76, decimal(h as nat)),
        omits_key(pairs, 0x6d),
        w > 0 && h > 0,
        s.images.bytes + data.len() <= usize::MAX,
    ensures
        ({
            let t = s.graphics(command_bytes(pairs, data));
            &&& t.images.images.len() > 0
            &&& t.images.images.last().id == t.image_id_seq
            &&& s.image_id_seq < u32::MAX ==> t.image_id_seq == s.image_id_seq + 1
            &&& t.images.images.last().data_b64 == data
            &&& t.images.images.last().pixel_w == w && t.images.images.last().pixel_h == h
        }),
{
    reveal(ScreenView::graphics);
    let c = folded(CommandView::bare(data), pairs);
    what_the_keys_say(pairs, data, 0x61, seq![0x74u8]);
    what_the_keys_say(pairs, data, 0x69, Seq::empty());
    what_the_keys_say(pairs, data, 0x73, decimal(w as nat));
    what_the_keys_say(pairs, data, 0x76, decimal(h as nat));
    what_the_keys_say(pairs, data, 0x6d, Seq::empty());
    numbers_are_read(w as nat);
    numbers_are_read(h as nat);
    let gen = s.image_gen.wrapping_add(1);
    let id = s.image_id_seq.wrapping_add(1);
    let img = ImageView {
        id,
        protocol: ImageProtocol::Kitty,
        format: super::images::format_asked(c.format),
        pixel_w: w,
        pixel_h: h,
        data_b64: data,
        iterm_args: None,
        generation: gen,
        frames: Seq::empty(),
        anim_control: None,
    };
    assert(crate::graphics::frame_bytes(Seq::empty()) == 0);
    crate::image_store::insertion_meets_the_budget(s.images, img);
    let u = ScreenView { pending_tx: None, image_gen: gen, image_id_seq: id, ..s }.stored(img);
    assert(s.graphics(command_bytes(pairs, data)) == u);
}

/// The alternate screen takes no pictures, whatever the command.
pub proof fn no_pictures_on_the_alternate_screen(
    s: ScreenView,
    framed: Seq<u8>,
    p: Seq<Seq<u16>>,
    payload: Seq<u8>,
)
    requires
        s.alt is Some,
    ensures
        s.graphics(framed) == s,
        s.sixel(p, payload) == s,
{
    reveal(ScreenView::graphics);
}

} // verus!
