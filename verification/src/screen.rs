//! The screen: the grid, the scrollback, the cursor and all other state of a
//! terminal, and what control functions do to it.
pub mod csi;
pub mod images;
pub mod laws;
pub mod model;
pub mod ops;
pub mod osc;
pub mod pairs;
pub mod pen;
pub mod pictures;
pub mod print;
pub mod sequences;
pub mod settings;
pub mod sgr;
pub mod shapes;
pub mod strings;
pub mod writing;

use crate::cursor::Cursor;
use crate::graphics::{ImageFormat, ImageStore, Placement, VirtualPlacement};
use crate::grid::Grid;
use crate::hyperlinks::HyperlinkTable;
use crate::keyboard::KeyboardState;
use crate::modes::Modes;
use crate::row::Row;
use crate::scrollback::Scrollback;
use crate::tabs::TabStops;
use vstd::prelude::*;
use vstd::string::StringExecFns;

verus! {

broadcast use crate::row::group_contents;

/// A question for a color of the palette (OSC 10, 11 and 12).
#[derive(Debug, Clone, Copy, PartialEq, Eq, Structural)]
pub enum ColorQuery {
    Foreground,
    Background,
    Cursor,
}

/// An image whose chunks are still coming in.
#[derive(Debug)]
pub struct PendingTx {
    pub id: u32,
    pub format: ImageFormat,
    pub width: Option<u32>,
    pub height: Option<u32>,
    pub data_b64: Vec<u8>,
    /// Place the image when it is complete.
    pub display: bool,
    pub place_rows: Option<u16>,
    pub place_cols: Option<u16>,
    /// Place it by placeholder characters.
    pub unicode: bool,
    pub placement_id: Option<u32>,
    pub z: Option<i32>,
}

/// The contents of an image whose chunks are still coming in.
#[verifier::ext_equal]
pub ghost struct TxView {
    pub id: u32,
    pub format: ImageFormat,
    pub width: Option<u32>,
    pub height: Option<u32>,
    pub data_b64: Seq<u8>,
    pub display: bool,
    pub place_rows: Option<u16>,
    pub place_cols: Option<u16>,
    pub unicode: bool,
    pub placement_id: Option<u32>,
    pub z: Option<i32>,
}

impl View for PendingTx {
    type V = TxView;

    open spec fn view(&self) -> TxView {
        TxView {
            id: self.id,
            format: self.format,
            width: self.width,
            height: self.height,
            data_b64: self.data_b64@,
            display: self.display,
            place_rows: self.place_rows,
            place_cols: self.place_cols,
            unicode: self.unicode,
            placement_id: self.placement_id,
            z: self.z,
        }
    }
}

#[verifier::external_type_specification]
#[verifier::external_body]
pub struct ExInstant(std::time::Instant);

/// The state of one terminal.
#[derive(Debug)]
pub struct Screen {
    /// The grid that is shown.
    pub active: Grid,
    /// The main grid, while the alternate one is shown.
    pub alt: Option<Grid>,
    pub scrollback: Scrollback,
    pub cursor: Cursor,
    pub saved_cursor: Option<Cursor>,
    pub modes: Modes,
    pub tabs: TabStops,
    pub title: String,
    pub icon_title: String,
    pub cwd: Option<String>,
    pub hyperlinks: HyperlinkTable,
    /// The first and the last row of the scroll region.
    pub scroll_region: (u16, u16),
    /// Replies that the program behind the terminal waits for.
    pub replies: Vec<Vec<u8>>,
    /// What the program put on the clipboard.
    pub clipboard_writes: Vec<Vec<u8>>,
    /// Questions for colors, each with the number of replies before it: programs
    /// rely on the order of all answers.
    pub color_queries: Vec<(usize, ColorQuery)>,
    /// The bell rang.
    pub bell_pending: bool,
    pub kbd: KeyboardState,
    /// The name by which the terminal calls itself.
    pub term: String,
    /// The color scheme of the terminal that draws the screen.
    pub color_scheme_dark: bool,
    /// The number of blocks that shell integration completed.
    pub blocks_completed: u64,
    /// The exit code of the last block.
    pub last_block_exit: Option<i32>,
    /// The duration of the last block in milliseconds.
    pub last_block_duration: Option<u32>,
    /// When the running command began.
    pub pending_command_start: Option<std::time::Instant>,
    /// The size of the text area in pixels; 0 if unknown.
    pub area_px_w: u16,
    pub area_px_h: u16,
    pub images: ImageStore,
    pub placements: Vec<Placement>,
    pub virtual_placements: Vec<VirtualPlacement>,
    /// The image whose chunks are still coming in.
    pub pending_tx: Option<PendingTx>,
    /// Counts placements.
    pub graphics_seq: u64,
    /// Counts the numbers given to placements.
    pub placement_id_seq: u32,
    /// Counts the numbers given to images that came without one.
    pub image_id_seq: u32,
    /// Counts transmissions.
    pub image_gen: u64,
}

/// The byte strings in a list of vectors.
pub open spec fn byte_strings(v: Seq<Vec<u8>>) -> Seq<Seq<u8>> {
    Seq::new(v.len(), |i: int| v[i]@)
}

impl View for Screen {
    type V = model::ScreenView;

    open spec fn view(&self) -> model::ScreenView {
        model::ScreenView {
            active: self.active@,
            alt: match self.alt {
                Some(g) => Some(g@),
                None => None,
            },
            scrollback: self.scrollback@,
            cursor: self.cursor,
            saved_cursor: self.saved_cursor,
            modes: self.modes,
            tabs: self.tabs@,
            title: self.title@,
            icon_title: self.icon_title@,
            cwd: match self.cwd {
                Some(s) => Some(s@),
                None => None,
            },
            hyperlinks: self.hyperlinks@,
            scroll_region: self.scroll_region,
            replies: byte_strings(self.replies@),
            clipboard_writes: byte_strings(self.clipboard_writes@),
            color_queries: self.color_queries@,
            bell_pending: self.bell_pending,
            kbd: self.kbd@,
            term: self.term@,
            color_scheme_dark: self.color_scheme_dark,
            blocks_completed: self.blocks_completed,
            last_block_exit: self.last_block_exit,
            last_block_duration: self.last_block_duration,
            command_running: self.pending_command_start is Some,
            area_px_w: self.area_px_w,
            area_px_h: self.area_px_h,
            images: self.images@,
            placements: self.placements@,
            virtual_placements: self.virtual_placements@,
            pending_tx: match self.pending_tx {
                Some(tx) => Some(tx@),
                None => None,
            },
            graphics_seq: self.graphics_seq,
            placement_id_seq: self.placement_id_seq,
            image_id_seq: self.image_id_seq,
            image_gen: self.image_gen,
        }
    }
}

/// Takes the list out of its place.
fn take_list<T>(list: &mut Vec<T>) -> (r: Vec<T>)
    ensures
        r == *old(list),
        final(list)@ == Seq::<T>::empty(),
{
    let mut out: Vec<T> = Vec::new();
    std::mem::swap(&mut out, list);
    out
}

impl Screen {
    /// A blank screen.
    pub fn new(rows: u16, cols: u16) -> (s: Screen)
        ensures
            s@ == model::blank_screen(rows, cols, "xterm-256color"@, true),
            s@.wf(),
    {
        Screen::blank(rows, cols, String::from_str("xterm-256color"), true)
    }

    fn blank(rows: u16, cols: u16, term: String, dark: bool) -> (s: Screen)
        ensures
            s@ == model::blank_screen(rows, cols, term@, dark),
            s@.wf(),
    {
        let s = Screen {
            active: Grid::new(rows, cols),
            alt: None,
            scrollback: Scrollback::default(),
            cursor: Cursor::default(),
            saved_cursor: None,
            modes: Modes::default(),
            tabs: TabStops::new(cols),
            title: String::new(),
            icon_title: String::new(),
            cwd: None,
            hyperlinks: HyperlinkTable::default(),
            scroll_region: (0, rows.saturating_sub(1)),
            replies: Vec::new(),
            clipboard_writes: Vec::new(),
            color_queries: Vec::new(),
            bell_pending: false,
            kbd: KeyboardState::default(),
            term,
            color_scheme_dark: dark,
            blocks_completed: 0,
            last_block_exit: None,
            last_block_duration: None,
            pending_command_start: None,
            area_px_w: 0,
            area_px_h: 0,
            images: ImageStore::default(),
            placements: Vec::new(),
            virtual_placements: Vec::new(),
            pending_tx: None,
            graphics_seq: 0,
            placement_id_seq: 0,
            image_id_seq: 0x8000_0000,
            image_gen: 0,
        };
        assert(byte_strings(s.replies@) =~= Seq::empty());
        assert(byte_strings(s.clipboard_writes@) =~= Seq::empty());
        s
    }

    /// Sets the size of the text area in pixels.
    pub fn set_pixel_area(&mut self, w: u16, h: u16)
        ensures
            final(self)@ == (model::ScreenView { area_px_w: w, area_px_h: h, ..old(self)@ }),
    {
        self.area_px_w = w;
        self.area_px_h = h;
    }

    /// The width and height of a cell in pixels.
    pub fn cell_pixels(&self) -> (r: (u16, u16))
        requires
            self@.wf(),
        ensures
            r == self@.cell_pixels(),
    {
        if self.area_px_w == 0 || self.area_px_h == 0 {
            (10, 20)
        } else {
            (
                crate::coords::larger(self.area_px_w / self.cols(), 1),
                crate::coords::larger(self.area_px_h / self.rows(), 1),
            )
        }
    }

    /// Sets the name by which the terminal calls itself.
    pub fn set_term(&mut self, term: String)
        ensures
            final(self)@ == (model::ScreenView { term: term@, ..old(self)@ }),
    {
        self.term = term;
    }

    /// Records the color scheme of the terminal that draws the screen.
    pub fn set_color_scheme_dark(&mut self, dark: bool)
        ensures
            final(self)@ == (model::ScreenView { color_scheme_dark: dark, ..old(self)@ }),
    {
        self.color_scheme_dark = dark;
    }

    /// Takes the replies that are to be sent.
    pub fn take_replies(&mut self) -> (r: Vec<Vec<u8>>)
        ensures
            byte_strings(r@) == old(self)@.replies,
            final(self)@ == (model::ScreenView { replies: Seq::empty(), ..old(self)@ }),
    {
        let r = take_list(&mut self.replies);
        assert(byte_strings(self.replies@) =~= Seq::empty());
        r
    }

    /// Takes what was put on the clipboard.
    pub fn take_clipboard_writes(&mut self) -> (r: Vec<Vec<u8>>)
        ensures
            byte_strings(r@) == old(self)@.clipboard_writes,
            final(self)@ == (model::ScreenView { clipboard_writes: Seq::empty(), ..old(self)@ }),
    {
        let r = take_list(&mut self.clipboard_writes);
        assert(byte_strings(self.clipboard_writes@) =~= Seq::empty());
        r
    }

    /// Takes the questions for colors, each with the number of replies before it.
    pub fn take_color_queries(&mut self) -> (r: Vec<(usize, ColorQuery)>)
        ensures
            r@ == old(self)@.color_queries,
            final(self)@ == (model::ScreenView { color_queries: Seq::empty(), ..old(self)@ }),
    {
        take_list(&mut self.color_queries)
    }

    /// Takes the signal of the bell.
    pub fn take_bell(&mut self) -> (r: bool)
        ensures
            r == old(self)@.bell_pending,
            final(self)@ == (model::ScreenView { bell_pending: false, ..old(self)@ }),
    {
        let r: bool = self.bell_pending;
        self.bell_pending = false;
        r
    }

    /// The number of rows.
    pub fn rows(&self) -> (n: u16)
        ensures
            n == self@.rows(),
            self@.active.wf() ==> n >= 1,
    {
        self.active.num_rows()
    }

    /// The number of columns.
    pub fn cols(&self) -> (n: u16)
        ensures
            n == self@.cols(),
            self@.active.wf() ==> n >= 1,
    {
        self.active.num_cols()
    }

    /// Puts restored rows into the scrollback, the oldest first. What was counted
    /// stays as it is.
    pub fn preseed_scrollback(&mut self, rows: Vec<Row>)
        requires
            old(self)@.wf(),
        ensures
            final(self)@ == (model::ScreenView {
                scrollback: old(self)@.scrollback.pushed_all(crate::row::rows_view(rows@)),
                ..old(self)@
            }),
            final(self)@.wf(),
    {
        let ghost all = crate::row::rows_view(rows@);
        let ghost before = self@;
        for row in it: rows
            invariant
                it.seq() == rows@,
                all == crate::row::rows_view(rows@),
                self@ == (model::ScreenView {
                    scrollback: before.scrollback.pushed_all(all.take(it.index() as int)),
                    ..before
                }),
        {
            assert(all.take(it.index() + 1).drop_last() =~= all.take(it.index() as int));
            assert(all.take(it.index() + 1).last() == row@);
            let evicted: usize = self.scrollback.push(row);
        }
        assert(all.take(all.len() as int) =~= all);
        proof {
            crate::scrollback::pushing_rows_keeps_the_newest(before.scrollback, all);
        }
    }

    /// Adds a reply that is to be sent.
    fn push_reply(&mut self, bytes: Vec<u8>)
        ensures
            final(self)@ == old(self)@.replied(bytes@),
    {
        let ghost before = self@;
        self.replies.push(bytes);
        assert(byte_strings(self.replies@) =~= before.replies.push(bytes@));
    }
}

} // verus!
