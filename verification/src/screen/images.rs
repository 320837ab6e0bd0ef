//! Inline images: transmitting, placing and deleting them.
use super::model::{d, retained, ScreenView};
use super::{PendingTx, Screen, TxView};
use crate::command::{parse_command, CommandView, GraphicsCommand};
use crate::coords::Col;
use crate::cursor::Cursor;
use crate::graphics::{
    AnimControl, Frame, FrameView, Image, ImageFormat, ImageProtocol, ImageView, Placement,
    VirtualPlacement,
};
use crate::image_size::{png_dimensions, sixel_dimensions};
use crate::image_store::StoreView;
use crate::iterm::{base64_decode, base64_decoded};
use crate::reply::{push_bytes, push_number};
use std::sync::Arc;
use vstd::prelude::*;
use vstd::slice::slice_subrange;

verus! {

/// The number of placements of each kind that a screen keeps.
pub const MAX_PLACEMENTS: usize = 1024;

/// The number of cells of `cell` pixels that `pixels` take: at least one, and not
/// absurdly many.
pub open spec fn cells_for(pixels: u32, cell: u16) -> u16 {
    let n = (pixels + cell - 1) / cell as int;
    if n < 1 {
        1
    } else if n > 1000 {
        1000
    } else {
        n as u16
    }
}

/// A list with room for one more item: the oldest goes where it is full.
pub open spec fn with_room<T>(s: Seq<T>) -> Seq<T> {
    if s.len() >= MAX_PLACEMENTS {
        s.skip(1)
    } else {
        s
    }
}

/// The value, or 0 if it is absent.
pub open spec fn or_zero(v: Option<u32>) -> u32 {
    match v {
        Some(n) => n,
        None => 0,
    }
}

/// The format that a command asks for; PNG where it names none that there is.
pub open spec fn format_asked(f: Option<u32>) -> ImageFormat {
    match f {
        Some(f) => match crate::graphics::format_of_f(f) {
            Some(format) => format,
            None => ImageFormat::Png,
        },
        None => ImageFormat::Png,
    }
}

/// The frame that a command describes, as it was received: its number and its
/// background stand in the keys for rows and columns, and the time until the next frame
/// in that for the height in the stack. Its place among the frames is given to it later.
pub open spec fn frame_of(cmd: CommandView) -> FrameView {
    FrameView {
        frame_number: widened(cmd.rows),
        canvas_source: widened(cmd.cols),
        x: or_zero(cmd.frame_x),
        y: or_zero(cmd.frame_y),
        width: or_zero(cmd.width),
        height: or_zero(cmd.height),
        overwrite: cmd.compose_overwrite,
        bg_color: or_zero(cmd.bg_color),
        gap_ms: match cmd.z {
            Some(z) => z,
            None => 0,
        },
        format: format_asked(cmd.format),
        data_b64: cmd.payload,
        seq: 0,
    }
}

/// The animation state that a command sets: the state and the number of loops stand in
/// the keys for width and height, where 0 says nothing, and the frame to show in that
/// for columns. A state that does not fit a byte says nothing either.
pub open spec fn control_of(cmd: CommandView) -> AnimControl {
    AnimControl {
        state: match cmd.width {
            Some(n) => if 0 < n <= u8::MAX {
                Some(n as u8)
            } else {
                None
            },
            None => None,
        },
        loop_count: match cmd.height {
            Some(n) => if n > 0 {
                Some(n)
            } else {
                None
            },
            None => None,
        },
        current_frame: widened(cmd.cols),
    }
}

pub open spec fn widened(v: Option<u16>) -> Option<u32> {
    match v {
        Some(n) => Some(n as u32),
        None => None,
    }
}

/// The beginning of base64 data that holds a PNG header, cut to whole groups.
pub open spec fn header_part(data: Seq<u8>) -> Seq<u8> {
    let n = data.len() / 4 * 4;
    data.take(
        if n < 64 {
            n as int
        } else {
            64
        },
    )
}

/// The data that shows a sixel image again: its parameters and its own data.
pub open spec fn sixel_data(p: Seq<Seq<u16>>, payload: Seq<u8>) -> Seq<u8> {
    sixel_params(p).push(0x71) + payload
}

/// The parameters of a sixel image, separated by semicolons.
pub open spec fn sixel_params(p: Seq<Seq<u16>>) -> Seq<u8>
    decreases p.len(),
{
    if p.len() == 0 {
        Seq::empty()
    } else {
        let done = sixel_params(p.drop_last());
        let sep = if p.len() > 1 {
            done.push(0x3b)
        } else {
            done
        };
        if p.last().len() > 0 {
            sep + d(p.last()[0] as int)
        } else {
            sep
        }
    }
}

impl ScreenView {
    /// No placements of these images.
    pub open spec fn without_images(self, ids: Seq<u32>) -> ScreenView {
        ScreenView {
            placements: retained(self.placements, |p: Placement| !ids.contains(p.image_id)),
            virtual_placements: retained(
                self.virtual_placements,
                |p: VirtualPlacement| !ids.contains(p.image_id),
            ),
            ..self
        }
    }

    /// Whether the bytes of an image can still be counted.
    pub open spec fn has_room_for(self, len: nat) -> bool {
        self.images.bytes + len <= usize::MAX
    }

    /// An image stored. Images over the budget go, and their placements with them.
    pub open spec fn stored(self, img: ImageView) -> ScreenView {
        let all = self.images.grown(img);
        ScreenView { images: StoreView::trimmed(all), ..self }.without_images(
            crate::image_store::ids(all).take(crate::image_store::surplus(all)),
        )
    }

    /// The cursor down by `n` rows, scrolling where it must.
    pub open spec fn next_rows(self, n: nat) -> ScreenView
        decreases n,
    {
        if n == 0 {
            self
        } else {
            self.next_rows((n - 1) as nat).next_row(false)
        }
    }

    /// The size in cells of an image: the given one, or what its size in pixels
    /// takes.
    pub open spec fn footprint(
        self,
        pixel_w: u32,
        pixel_h: u32,
        r: Option<u16>,
        c: Option<u16>,
    ) -> (u16, u16) {
        let (cell_w, cell_h) = self.cell_pixels();
        (
            match r {
                Some(n) => n,
                None => cells_for(pixel_h, cell_h),
            },
            match c {
                Some(n) => n,
                None => cells_for(pixel_w, cell_w),
            },
        )
    }

    /// A placement at the cursor recorded.
    pub open spec fn recorded(
        self,
        image_id: u32,
        protocol: ImageProtocol,
        size: (u16, u16),
        z: i32,
    ) -> ScreenView {
        ScreenView {
            placement_id_seq: self.placement_id_seq.wrapping_add(1),
            graphics_seq: self.graphics_seq.wrapping_add(1),
            placements: with_room(self.placements).push(
                Placement {
                    image_id,
                    placement_id: self.placement_id_seq.wrapping_add(1),
                    protocol,
                    anchor_line: (self.scrollback.rows.len() as u32).wrapping_add(
                        self.cursor.row.0 as u32,
                    ),
                    col: self.cursor.col.0,
                    rows: size.0,
                    cols: size.1,
                    z,
                    seq: self.graphics_seq,
                },
            ),
            ..self
        }
    }

    /// An image placed at the cursor, which moves below it.
    pub open spec fn placed(
        self,
        image_id: u32,
        protocol: ImageProtocol,
        pixel_w: u32,
        pixel_h: u32,
        r: Option<u16>,
        c: Option<u16>,
        z: i32,
    ) -> ScreenView {
        let size = self.footprint(pixel_w, pixel_h, r, c);
        let s = self.recorded(image_id, protocol, size, z).next_rows(size.0 as nat);
        ScreenView { cursor: Cursor { col: Col(0), ..s.cursor }, ..s }
    }

    /// An image placed by placeholder characters, in place of an earlier placement
    /// with the same numbers. The cursor stays.
    pub open spec fn virtually_placed(
        self,
        image_id: u32,
        placement_id: Option<u32>,
        r: Option<u16>,
        c: Option<u16>,
    ) -> ScreenView {
        let pid = or_zero(placement_id);
        let others = retained(
            self.virtual_placements,
            |p: VirtualPlacement| !(p.image_id == image_id && p.placement_id == pid),
        );
        ScreenView {
            graphics_seq: self.graphics_seq.wrapping_add(1),
            virtual_placements: with_room(others).push(
                VirtualPlacement {
                    image_id,
                    placement_id: pid,
                    rows: match r {
                        Some(n) => n,
                        None => 0,
                    },
                    cols: match c {
                        Some(n) => n,
                        None => 0,
                    },
                    seq: self.graphics_seq,
                },
            ),
            ..self
        }
    }

    /// Whether a command goes on with the image whose chunks are coming in: it says
    /// that it is a chunk, and says nothing else of the image.
    pub open spec fn continues(self, cmd: CommandView) -> bool {
        self.pending_tx is Some && cmd.saw_m && cmd.format is None && cmd.id is None
            && cmd.width is None && cmd.height is None && cmd.rows is None && cmd.cols is None
    }

    /// A chunk taken in: of the current image, or the first of another, which gets a
    /// number of its own if it has none.
    pub open spec fn chunk_taken(self, cmd: CommandView) -> ScreenView {
        if self.continues(cmd) {
            let tx = self.pending_tx->0;
            ScreenView {
                pending_tx: Some(TxView { data_b64: tx.data_b64 + cmd.payload, ..tx }),
                ..self
            }
        } else {
            let seq = match cmd.id {
                Some(_) => self.image_id_seq,
                None => self.image_id_seq.wrapping_add(1),
            };
            ScreenView {
                image_id_seq: seq,
                pending_tx: Some(
                    TxView {
                        id: match cmd.id {
                            Some(id) => id,
                            None => seq,
                        },
                        format: format_asked(cmd.format),
                        width: cmd.width,
                        height: cmd.height,
                        data_b64: cmd.payload,
                        display: cmd.action == 0x54,
                        place_rows: cmd.rows,
                        place_cols: cmd.cols,
                        unicode: cmd.unicode,
                        placement_id: cmd.placement_id,
                        z: cmd.z,
                    },
                ),
                ..self
            }
        }
    }

    /// The image complete, where `head` is the decoded beginning of its data: stored,
    /// and placed if it is to be shown. A PNG without a stated size has the size of
    /// its header.
    pub open spec fn completed(self, head: Option<Seq<u8>>) -> ScreenView {
        match self.pending_tx {
            Some(tx) => {
                let given = (or_zero(tx.width), or_zero(tx.height));
                let in_head = match head {
                    Some(bytes) => crate::image_size::png_size(bytes),
                    None => None,
                };
                let (w, h) = if (given.0 == 0 || given.1 == 0) && tx.format == ImageFormat::Png
                    && in_head is Some {
                    in_head->0
                } else {
                    given
                };
                let taken = ScreenView { pending_tx: None, ..self };
                if !self.has_room_for(tx.data_b64.len()) {
                    taken
                } else {
                    let gen = self.image_gen.wrapping_add(1);
                    let s = ScreenView { image_gen: gen, ..taken }.stored(
                        ImageView {
                            id: tx.id,
                            protocol: ImageProtocol::Kitty,
                            format: tx.format,
                            pixel_w: w,
                            pixel_h: h,
                            data_b64: tx.data_b64,
                            iterm_args: None,
                            generation: gen,
                            frames: Seq::empty(),
                            anim_control: None,
                        },
                    );
                    if !tx.display {
                        s
                    } else if tx.unicode {
                        s.virtually_placed(tx.id, tx.placement_id, tx.place_rows, tx.place_cols)
                    } else {
                        s.placed(
                            tx.id,
                            ImageProtocol::Kitty,
                            w,
                            h,
                            tx.place_rows,
                            tx.place_cols,
                            match tx.z {
                                Some(z) => z,
                                None => 0,
                            },
                        )
                    }
                }
            },
            None => self,
        }
    }

    /// The image complete, with the beginning of its data decoded.
    pub open spec fn finalized(self) -> ScreenView {
        match self.pending_tx {
            Some(tx) => self.completed(base64_decoded(header_part(tx.data_b64))),
            None => self,
        }
    }

    /// A chunk taken in, and the image completed with its last one.
    pub open spec fn transmitted(self, cmd: CommandView) -> ScreenView {
        let s = self.chunk_taken(cmd);
        if cmd.more {
            s
        } else {
            s.finalized()
        }
    }

    /// Placements deleted: those of one image, or all.
    pub open spec fn placements_deleted(self, id: Option<u32>) -> ScreenView {
        match id {
            Some(id) => self.without_images(seq![id]),
            None => ScreenView {
                placements: Seq::empty(),
                virtual_placements: Seq::empty(),
                ..self
            },
        }
    }

    /// An image placed that was transmitted before. An unknown one is ignored.
    pub open spec fn put_again(self, cmd: CommandView) -> ScreenView {
        match cmd.id {
            Some(id) => if self.images.contains(id) {
                let img = self.images.images[crate::image_store::position(
                    self.images.images,
                    id,
                )];
                if cmd.unicode {
                    self.virtually_placed(id, cmd.placement_id, cmd.rows, cmd.cols)
                } else {
                    self.placed(
                        id,
                        img.protocol,
                        img.pixel_w,
                        img.pixel_h,
                        cmd.rows,
                        cmd.cols,
                        match cmd.z {
                            Some(z) => z,
                            None => 0,
                        },
                    )
                }
            } else {
                self
            },
            None => self,
        }
    }

    /// The frame that a command describes put to the frames of its image. Images over
    /// the budget go, and their placements with them. A frame for an unknown image is
    /// dropped.
    pub open spec fn frame_added(self, cmd: CommandView) -> ScreenView {
        match cmd.id {
            Some(id) => if self.images.contains(id) && self.images.has_number_for(id)
                && self.has_room_for(cmd.payload.len()) {
                let all = self.images.animated(id, frame_of(cmd));
                ScreenView { images: StoreView::trimmed(all), ..self }.without_images(
                    crate::image_store::ids(all).take(crate::image_store::surplus(all)),
                )
            } else {
                self
            },
            None => self,
        }
    }

    /// The animation state of an image set to what a command says. Nothing is left of
    /// an earlier state.
    pub open spec fn animation_controlled(self, cmd: CommandView) -> ScreenView {
        match cmd.id {
            Some(id) => if self.images.contains(id) {
                ScreenView { images: self.images.controlled(id, control_of(cmd)), ..self }
            } else {
                self
            },
            None => self,
        }
    }

    /// A graphics command executed. On the alternate screen there are no images.
    #[verifier::opaque]
    pub open spec fn graphics(self, framed: Seq<u8>) -> ScreenView {
        if self.alt is Some {
            self
        } else {
            match crate::command::command_of(framed) {
                Some(cmd) => if cmd.action == 0x64 {
                    self.placements_deleted(cmd.id)
                } else if cmd.action == 0x70 {
                    self.put_again(cmd)
                } else if cmd.action == 0x74 || cmd.action == 0x54 {
                    self.transmitted(cmd)
                } else if cmd.action == 0x66 {
                    self.frame_added(cmd)
                } else if cmd.action == 0x61 {
                    self.animation_controlled(cmd)
                } else {
                    self
                },
                None => self,
            }
        }
    }

    /// An image stored under a new number and placed at the cursor.
    pub open spec fn shown(
        self,
        protocol: ImageProtocol,
        format: ImageFormat,
        size: (u32, u32),
        data: Seq<u8>,
        args: Option<Seq<char>>,
    ) -> ScreenView {
        if !self.has_room_for(data.len()) {
            self
        } else {
            let id = self.image_id_seq.wrapping_add(1);
            let gen = self.image_gen.wrapping_add(1);
            ScreenView { image_id_seq: id, image_gen: gen, ..self }.stored(
                ImageView {
                    id,
                    protocol,
                    format,
                    pixel_w: size.0,
                    pixel_h: size.1,
                    data_b64: data,
                    iterm_args: args,
                    generation: gen,
                    frames: Seq::empty(),
                    anim_control: None,
                },
            ).placed(id, protocol, size.0, size.1, None, None, 0)
        }
    }

    /// A sixel image shown. An empty one is ignored, and there are none on the
    /// alternate screen.
    pub open spec fn sixel(self, p: Seq<Seq<u16>>, payload: Seq<u8>) -> ScreenView {
        if self.alt is Some || payload.len() == 0 {
            self
        } else {
            self.shown(
                ImageProtocol::Sixel,
                ImageFormat::Rgba,
                match crate::image_size::sixel_size(payload) {
                    Some(size) => size,
                    None => (0, 0),
                },
                sixel_data(p, payload),
                None,
            )
        }
    }
}

/// True if `id` is in the list.
fn listed(ids: &Vec<u32>, id: u32) -> (r: bool)
    ensures
        r == ids@.contains(id),
{
    let mut i: usize = 0;
    while i < ids.len()
        invariant
            i <= ids.len(),
            forall|k: int| 0 <= k < i ==> ids@[k] != id,
        decreases ids.len() - i,
    {
        if ids[i] == id {
            assert(ids@[i as int] == id);
            return true;
        }
        i += 1;
    }
    false
}

fn drop_placements(list: &mut Vec<Placement>, ids: &Vec<u32>)
    ensures
        final(list)@ == retained(old(list)@, |p: Placement| !ids@.contains(p.image_id)),
{
    let ghost before = list@;
    let ghost keep = |p: Placement| !ids@.contains(p.image_id);
    let mut kept: Vec<Placement> = Vec::new();
    let mut i: usize = 0;
    assert(before.take(0).len() == 0);
    while i < list.len()
        invariant
            i <= list.len(),
            list@ == before,
            keep == (|p: Placement| !ids@.contains(p.image_id)),
            kept@ == retained(before.take(i as int), keep),
        decreases list.len() - i,
    {
        assert(before.take(i + 1).drop_last() =~= before.take(i as int));
        let p: Placement = list[i];
        if !listed(ids, p.image_id) {
            kept.push(p);
        }
        i += 1;
    }
    assert(before.take(i as int) =~= before);
    *list = kept;
}

fn drop_virtual(list: &mut Vec<VirtualPlacement>, ids: &Vec<u32>)
    ensures
        final(list)@ == retained(old(list)@, |p: VirtualPlacement| !ids@.contains(p.image_id)),
{
    let ghost before = list@;
    let ghost keep = |p: VirtualPlacement| !ids@.contains(p.image_id);
    let mut kept: Vec<VirtualPlacement> = Vec::new();
    let mut i: usize = 0;
    assert(before.take(0).len() == 0);
    while i < list.len()
        invariant
            i <= list.len(),
            list@ == before,
            keep == (|p: VirtualPlacement| !ids@.contains(p.image_id)),
            kept@ == retained(before.take(i as int), keep),
        decreases list.len() - i,
    {
        assert(before.take(i + 1).drop_last() =~= before.take(i as int));
        let p: VirtualPlacement = list[i];
        if !listed(ids, p.image_id) {
            kept.push(p);
        }
        i += 1;
    }
    assert(before.take(i as int) =~= before);
    *list = kept;
}

fn drop_same(list: &mut Vec<VirtualPlacement>, image_id: u32, placement_id: u32)
    ensures
        final(list)@ == retained(
            old(list)@,
            |p: VirtualPlacement| !(p.image_id == image_id && p.placement_id == placement_id),
        ),
{
    let ghost before = list@;
    let ghost keep = |p: VirtualPlacement|
        !(p.image_id == image_id && p.placement_id == placement_id);
    let mut kept: Vec<VirtualPlacement> = Vec::new();
    let mut i: usize = 0;
    assert(before.take(0).len() == 0);
    while i < list.len()
        invariant
            i <= list.len(),
            list@ == before,
            keep == (|p: VirtualPlacement|
                !(p.image_id == image_id && p.placement_id == placement_id)),
            kept@ == retained(before.take(i as int), keep),
        decreases list.len() - i,
    {
        assert(before.take(i + 1).drop_last() =~= before.take(i as int));
        let p: VirtualPlacement = list[i];
        if !(p.image_id == image_id && p.placement_id == placement_id) {
            kept.push(p);
        }
        i += 1;
    }
    assert(before.take(i as int) =~= before);
    *list = kept;
}

fn cells_of(pixels: u32, cell: u16) -> (n: u16)
    requires
        cell > 0,
    ensures
        n == cells_for(pixels, cell),
{
    let wide: u64 = (pixels as u64 + cell as u64 - 1) / cell as u64;
    if wide < 1 {
        1
    } else if wide > 1000 {
        1000
    } else {
        wide as u16
    }
}

fn asked_format(f: Option<u32>) -> (format: ImageFormat)
    ensures
        format == format_asked(f),
{
    match f {
        Some(f) => match ImageFormat::from_kitty_f(f) {
            Some(format) => format,
            None => ImageFormat::Png,
        },
        None => ImageFormat::Png,
    }
}

fn value_or_zero(v: Option<u32>) -> (n: u32)
    ensures
        n == or_zero(v),
{
    match v {
        Some(n) => n,
        None => 0,
    }
}

fn widen(v: Option<u16>) -> (r: Option<u32>)
    ensures
        r == widened(v),
{
    match v {
        Some(n) => Some(n as u32),
        None => None,
    }
}

/// `Arc::from`: the bytes in shared memory.
#[verifier::external_body]
fn shared_bytes(bytes: &[u8]) -> (r: Arc<[u8]>)
    ensures
        (*r)@ == bytes@,
{
    Arc::from(bytes)
}

/// `Arc::from`: the text in shared memory.
#[verifier::external_body]
fn shared_text(text: &str) -> (r: Arc<str>)
    ensures
        (*r)@ == text@,
{
    Arc::from(text)
}

impl Screen {
    fn drop_images(&mut self, ids: &Vec<u32>)
        ensures
            final(self)@ == old(self)@.without_images(ids@),
    {
        drop_placements(&mut self.placements, ids);
        drop_virtual(&mut self.virtual_placements, ids);
    }

    fn store_image(&mut self, image: Image)
        requires
            old(self)@.wf(),
            old(self)@.has_room_for(image@.size()),
        ensures
            final(self)@ == old(self)@.stored(image@),
            final(self)@.wf(),
    {
        let evicted: Vec<u32> = self.images.insert(image);
        self.drop_images(&evicted);
    }

    fn advance_rows(&mut self, n: u16)
        requires
            old(self)@.wf(),
        ensures
            final(self)@ == old(self)@.next_rows(n as nat),
            final(self)@.wf(),
    {
        let ghost before = self@;
        let mut i: u16 = 0;
        while i < n
            invariant
                i <= n,
                self@ == before.next_rows(i as nat),
                self@.wf(),
            decreases n - i,
        {
            self.advance_to_next_row(false);
            i += 1;
        }
    }

    fn record_placement(
        &mut self,
        image_id: u32,
        protocol: ImageProtocol,
        size: (u16, u16),
        z: i32,
    )
        requires
            old(self)@.wf(),
        ensures
            final(self)@ == old(self)@.recorded(image_id, protocol, size, z),
            final(self)@.wf(),
    {
        let anchor_line: u32 = (self.scrollback.len() as u32).wrapping_add(
            self.cursor.row.get() as u32,
        );
        self.placement_id_seq = self.placement_id_seq.wrapping_add(1);
        let seq: u64 = self.graphics_seq;
        self.graphics_seq = self.graphics_seq.wrapping_add(1);
        let ghost list = self.placements@;
        if self.placements.len() >= MAX_PLACEMENTS {
            let oldest: Placement = self.placements.remove(0);
            assert(self.placements@ =~= list.skip(1));
        }
        self.placements.push(
            Placement {
                image_id,
                placement_id: self.placement_id_seq,
                protocol,
                anchor_line,
                col: self.cursor.col.get(),
                rows: size.0,
                cols: size.1,
                z,
                seq,
            },
        );
    }

    #[verifier::spinoff_prover]
    fn add_placement(
        &mut self,
        image_id: u32,
        protocol: ImageProtocol,
        pixel_w: u32,
        pixel_h: u32,
        r: Option<u16>,
        c: Option<u16>,
        z: i32,
    )
        requires
            old(self)@.wf(),
        ensures
            final(self)@ == old(self)@.placed(image_id, protocol, pixel_w, pixel_h, r, c, z),
            final(self)@.wf(),
    {
        let (cell_w, cell_h) = self.cell_pixels();
        let rows: u16 = match r {
            Some(n) => n,
            None => cells_of(pixel_h, cell_h),
        };
        let cols: u16 = match c {
            Some(n) => n,
            None => cells_of(pixel_w, cell_w),
        };
        self.record_placement(image_id, protocol, (rows, cols), z);
        self.advance_rows(rows);
        self.cursor.col = Col::new(0);
    }

    fn add_virtual_placement(
        &mut self,
        image_id: u32,
        placement_id: Option<u32>,
        r: Option<u16>,
        c: Option<u16>,
    )
        requires
            old(self)@.wf(),
        ensures
            final(self)@ == old(self)@.virtually_placed(image_id, placement_id, r, c),
            final(self)@.wf(),
    {
        let pid: u32 = value_or_zero(placement_id);
        let seq: u64 = self.graphics_seq;
        self.graphics_seq = self.graphics_seq.wrapping_add(1);
        drop_same(&mut self.virtual_placements, image_id, pid);
        let ghost list = self.virtual_placements@;
        if self.virtual_placements.len() >= MAX_PLACEMENTS {
            let oldest: VirtualPlacement = self.virtual_placements.remove(0);
            assert(self.virtual_placements@ =~= list.skip(1));
        }
        self.virtual_placements.push(
            VirtualPlacement {
                image_id,
                placement_id: pid,
                rows: match r {
                    Some(n) => n,
                    None => 0,
                },
                cols: match c {
                    Some(n) => n,
                    None => 0,
                },
                seq,
            },
        );
    }

    fn take_chunk(&mut self, cmd: GraphicsCommand)
        requires
            old(self)@.wf(),
        ensures
            final(self)@ == old(self)@.chunk_taken(cmd@),
            final(self)@.wf(),
    {
        let continues: bool = self.pending_tx.is_some() && cmd.saw_m && cmd.format.is_none()
            && cmd.id.is_none() && cmd.width.is_none() && cmd.height.is_none()
            && cmd.rows.is_none() && cmd.cols.is_none();
        if continues {
            let mut pending: Option<PendingTx> = None;
            std::mem::swap(&mut pending, &mut self.pending_tx);
            if let Some(tx) = pending {
                let mut data: Vec<u8> = tx.data_b64;
                push_bytes(&mut data, cmd.payload.as_slice());
                self.pending_tx = Some(PendingTx { data_b64: data, ..tx });
            }
        } else {
            let id: u32 = match cmd.id {
                Some(id) => id,
                None => {
                    self.image_id_seq = self.image_id_seq.wrapping_add(1);
                    self.image_id_seq
                },
            };
            let format: ImageFormat = asked_format(cmd.format);
            self.pending_tx = Some(
                PendingTx {
                    id,
                    format,
                    width: cmd.width,
                    height: cmd.height,
                    data_b64: cmd.payload,
                    display: cmd.action == 0x54,
                    place_rows: cmd.rows,
                    place_cols: cmd.cols,
                    unicode: cmd.unicode,
                    placement_id: cmd.placement_id,
                    z: cmd.z,
                },
            );
        }
    }

    /// Completes the image whose chunks came in, where `head` is the decoded
    /// beginning of its data.
    pub fn complete_transmission(&mut self, head: Option<Vec<u8>>)
        requires
            old(self)@.wf(),
        ensures
            final(self)@ == old(self)@.completed(
                match head {
                    Some(bytes) => Some(bytes@),
                    None => None,
                },
            ),
            final(self)@.wf(),
    {
        let mut pending: Option<PendingTx> = None;
        std::mem::swap(&mut pending, &mut self.pending_tx);
        let tx: PendingTx = match pending {
            Some(tx) => tx,
            None => {
                return;
            },
        };
        let mut w: u32 = value_or_zero(tx.width);
        let mut h: u32 = value_or_zero(tx.height);
        if (w == 0 || h == 0) && tx.format == ImageFormat::Png {
            if let Some(bytes) = head {
                if let Some(size) = png_dimensions(bytes.as_slice()) {
                    w = size.0;
                    h = size.1;
                }
            }
        }
        if !self.images.has_room_for(tx.data_b64.len()) {
            return;
        }
        self.image_gen = self.image_gen.wrapping_add(1);
        let image = Image {
            id: tx.id,
            protocol: ImageProtocol::Kitty,
            format: tx.format,
            pixel_w: w,
            pixel_h: h,
            data_b64: shared_bytes(tx.data_b64.as_slice()),
            iterm_args: None,
            generation: self.image_gen,
            frames: Arc::new(Vec::new()),
            anim_control: None,
        };
        assert(image@.frames =~= Seq::empty());
        self.store_image(image);
        if tx.display {
            if tx.unicode {
                self.add_virtual_placement(
                    tx.id,
                    tx.placement_id,
                    tx.place_rows,
                    tx.place_cols,
                );
            } else {
                let z: i32 = match tx.z {
                    Some(z) => z,
                    None => 0,
                };
                self.add_placement(
                    tx.id,
                    ImageProtocol::Kitty,
                    w,
                    h,
                    tx.place_rows,
                    tx.place_cols,
                    z,
                );
            }
        }
    }

    fn finalize_transmission(&mut self)
        requires
            old(self)@.wf(),
        ensures
            final(self)@ == old(self)@.finalized(),
            final(self)@.wf(),
    {
        let mut head: Option<Vec<u8>> = None;
        if let Some(tx) = &self.pending_tx {
            let whole: usize = tx.data_b64.len() / 4 * 4;
            let take: usize = if whole < 64 {
                whole
            } else {
                64
            };
            let part = slice_subrange(tx.data_b64.as_slice(), 0, take);
            assert(part@ =~= header_part(tx.data_b64@));
            head = base64_decode(part);
        }
        self.complete_transmission(head);
    }

    fn accumulate_transmission(&mut self, cmd: GraphicsCommand)
        requires
            old(self)@.wf(),
        ensures
            final(self)@ == old(self)@.transmitted(cmd@),
            final(self)@.wf(),
    {
        let more: bool = cmd.more;
        self.take_chunk(cmd);
        if !more {
            self.finalize_transmission();
        }
    }

    fn delete_placements(&mut self, id: Option<u32>)
        requires
            old(self)@.wf(),
        ensures
            final(self)@ == old(self)@.placements_deleted(id),
            final(self)@.wf(),
    {
        match id {
            Some(id) => {
                let mut ids: Vec<u32> = Vec::new();
                ids.push(id);
                assert(ids@ =~= seq![id]);
                self.drop_images(&ids);
            },
            None => {
                self.placements = Vec::new();
                self.virtual_placements = Vec::new();
            },
        }
    }

    fn place_again(&mut self, cmd: GraphicsCommand)
        requires
            old(self)@.wf(),
        ensures
            final(self)@ == old(self)@.put_again(cmd@),
            final(self)@.wf(),
    {
        let id: u32 = match cmd.id {
            Some(id) => id,
            None => {
                return;
            },
        };
        let found: Option<(ImageProtocol, u32, u32)> = match self.images.get(id) {
            Some(img) => Some((img.protocol, img.pixel_w, img.pixel_h)),
            None => None,
        };
        if let Some((protocol, w, h)) = found {
            if cmd.unicode {
                self.add_virtual_placement(id, cmd.placement_id, cmd.rows, cmd.cols);
            } else {
                let z: i32 = match cmd.z {
                    Some(z) => z,
                    None => 0,
                };
                self.add_placement(id, protocol, w, h, cmd.rows, cmd.cols, z);
            }
        }
    }

    fn add_frame(&mut self, cmd: GraphicsCommand)
        requires
            old(self)@.wf(),
        ensures
            final(self)@ == old(self)@.frame_added(cmd@),
            final(self)@.wf(),
    {
        let id: u32 = match cmd.id {
            Some(id) => id,
            None => {
                return;
            },
        };
        if !self.images.takes_frame(id, cmd.payload.len()) {
            return;
        }
        let frame = Frame {
            frame_number: widen(cmd.rows),
            canvas_source: widen(cmd.cols),
            x: value_or_zero(cmd.frame_x),
            y: value_or_zero(cmd.frame_y),
            width: value_or_zero(cmd.width),
            height: value_or_zero(cmd.height),
            overwrite: cmd.compose_overwrite,
            bg_color: value_or_zero(cmd.bg_color),
            gap_ms: match cmd.z {
                Some(z) => z,
                None => 0,
            },
            format: asked_format(cmd.format),
            data_b64: shared_bytes(cmd.payload.as_slice()),
            seq: 0,
        };
        assert(frame@ == frame_of(cmd@));
        let evicted: Vec<u32> = self.images.push_frame(id, frame);
        self.drop_images(&evicted);
    }

    fn control_animation(&mut self, cmd: GraphicsCommand)
        requires
            old(self)@.wf(),
        ensures
            final(self)@ == old(self)@.animation_controlled(cmd@),
            final(self)@.wf(),
    {
        let id: u32 = match cmd.id {
            Some(id) => id,
            None => {
                return;
            },
        };
        let state: Option<u8> = match cmd.width {
            Some(n) => if 0 < n && n <= u8::MAX as u32 {
                Some(n as u8)
            } else {
                None
            },
            None => None,
        };
        let loop_count: Option<u32> = match cmd.height {
            Some(n) => if n > 0 {
                Some(n)
            } else {
                None
            },
            None => None,
        };
        let current_frame: Option<u32> = widen(cmd.cols);
        self.images.control(id, AnimControl { state, loop_count, current_frame });
    }

    /// Executes a framed graphics command.
    pub fn handle_graphics(&mut self, framed: &[u8])
        requires
            old(self)@.wf(),
        ensures
            final(self)@ == old(self)@.graphics(framed@),
            final(self)@.wf(),
    {
        reveal(ScreenView::graphics);
        if self.alt.is_some() {
            return;
        }
        let cmd: GraphicsCommand = match parse_command(framed) {
            Some(cmd) => cmd,
            None => {
                return;
            },
        };
        match cmd.action {
            0x64 => {
                self.delete_placements(cmd.id);
            },
            0x70 => {
                self.place_again(cmd);
            },
            0x74 | 0x54 => {
                self.accumulate_transmission(cmd);
            },
            0x66 => {
                self.add_frame(cmd);
            },
            0x61 => {
                self.control_animation(cmd);
            },
            _ => {},
        }
    }

    /// Stores an image under a new number and places it at the cursor.
    pub(crate) fn show_image(
        &mut self,
        protocol: ImageProtocol,
        format: ImageFormat,
        size: (u32, u32),
        data: &[u8],
        args: Option<&str>,
    )
        requires
            old(self)@.wf(),
        ensures
            final(self)@ == old(self)@.shown(
                protocol,
                format,
                size,
                data@,
                match args {
                    Some(text) => Some(text@),
                    None => None,
                },
            ),
            final(self)@.wf(),
    {
        if !self.images.has_room_for(data.len()) {
            return;
        }
        self.image_id_seq = self.image_id_seq.wrapping_add(1);
        let id: u32 = self.image_id_seq;
        self.image_gen = self.image_gen.wrapping_add(1);
        let image = Image {
            id,
            protocol,
            format,
            pixel_w: size.0,
            pixel_h: size.1,
            data_b64: shared_bytes(data),
            iterm_args: match args {
                Some(text) => Some(shared_text(text)),
                None => None,
            },
            generation: self.image_gen,
            frames: Arc::new(Vec::new()),
            anim_control: None,
        };
        assert(image@.frames =~= Seq::empty());
        self.store_image(image);
        self.add_placement(id, protocol, size.0, size.1, None, None, 0);
    }

    /// Shows a sixel image.
    pub fn handle_sixel(&mut self, params: &[Vec<u16>], payload: &[u8])
        requires
            old(self)@.wf(),
        ensures
            final(self)@ == old(self)@.sixel(super::sgr::groups(params@), payload@),
            final(self)@.wf(),
    {
        if self.alt.is_some() || payload.len() == 0 {
            return;
        }
        let size: (u32, u32) = match sixel_dimensions(payload) {
            Some(size) => size,
            None => (0, 0),
        };
        let ghost p = super::sgr::groups(params@);
        let mut inner: Vec<u8> = Vec::new();
        let mut i: usize = 0;
        assert(p.take(0).len() == 0);
        while i < params.len()
            invariant
                i <= params.len(),
                p == super::sgr::groups(params@),
                inner@ == sixel_params(p.take(i as int)),
            decreases params.len() - i,
        {
            assert(p.take(i + 1).drop_last() =~= p.take(i as int));
            if i > 0 {
                inner.push(0x3b);
            }
            if params[i].len() > 0 {
                push_number(&mut inner, params[i][0] as u64);
            }
            i += 1;
        }
        assert(p.take(i as int) =~= p);
        inner.push(0x71);
        push_bytes(&mut inner, payload);
        self.show_image(
            ImageProtocol::Sixel,
            ImageFormat::Rgba,
            size,
            inner.as_slice(),
            None,
        );
    }
}

} // verus!
