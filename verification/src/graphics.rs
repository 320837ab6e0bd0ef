//! Inline images: what a program transmitted, and where it was placed.
//!
//! The terminal only models images. Turning them back into the bytes of a graphics
//! protocol is left to whoever draws the screen.
pub use crate::command::{parse_command, GraphicsCommand};
pub use crate::image_size::{jpeg_dimensions, png_dimensions, sixel_dimensions};
pub use crate::image_store::ImageStore;
pub use crate::iterm::{iterm_dimensions, parse_iterm_file};
use std::sync::Arc;
use vstd::prelude::*;

verus! {

/// The encoding of transmitted pixels.
#[derive(Clone, Copy, Debug, PartialEq, Eq, Structural)]
pub enum ImageFormat {
    /// A PNG file, which states its own size.
    Png,
    /// Packed red, green and blue.
    Rgb,
    /// Packed red, green, blue and alpha.
    Rgba,
}

/// The protocol through which an image came.
#[derive(Clone, Copy, Debug, PartialEq, Eq, Structural)]
pub enum ImageProtocol {
    Kitty,
    Sixel,
    Iterm2,
}

impl Default for ImageProtocol {
    fn default() -> (p: ImageProtocol)
        ensures
            p == ImageProtocol::Kitty,
    {
        ImageProtocol::Kitty
    }
}

/// The format that the Kitty key `f` selects.
pub open spec fn format_of_f(f: u32) -> Option<ImageFormat> {
    if f == 100 {
        Some(ImageFormat::Png)
    } else if f == 24 {
        Some(ImageFormat::Rgb)
    } else if f == 32 {
        Some(ImageFormat::Rgba)
    } else {
        None
    }
}

impl ImageFormat {
    /// The format that the Kitty key `f` selects.
    pub fn from_kitty_f(f: u32) -> (r: Option<ImageFormat>)
        ensures
            r == format_of_f(f),
    {
        match f {
            100 => Some(ImageFormat::Png),
            24 => Some(ImageFormat::Rgb),
            32 => Some(ImageFormat::Rgba),
            _ => None,
        }
    }

    /// The value of the Kitty key `f` for this format: the one that selects it.
    pub fn kitty_f(self) -> (f: u32)
        ensures
            format_of_f(f) == Some(self),
    {
        match self {
            ImageFormat::Png => 100,
            ImageFormat::Rgb => 24,
            ImageFormat::Rgba => 32,
        }
    }
}

/// Each format is selected by exactly one value of the key.
pub proof fn formats_and_keys_correspond(f: u32, g: u32)
    requires
        format_of_f(f) is Some,
        format_of_f(f) == format_of_f(g),
    ensures
        f == g,
{
}

/// One animation frame, kept as it was received. Clients that get the frames of an
/// image in order compose them as the program meant.
#[derive(Debug, PartialEq, Eq)]
pub struct Frame {
    /// The number of the frame; absent if it is the next one.
    pub frame_number: Option<u32>,
    /// The frame that is the background of this one.
    pub canvas_source: Option<u32>,
    pub x: u32,
    pub y: u32,
    pub width: u32,
    pub height: u32,
    /// Replace the pixels below instead of blending.
    pub overwrite: bool,
    pub bg_color: u32,
    /// Milliseconds until the next frame; negative for none at all.
    pub gap_ms: i32,
    pub format: ImageFormat,
    pub data_b64: Arc<[u8]>,
    /// The number of this frame among all that the image ever had. It never
    /// changes, so a client can tell which frames it has seen.
    pub seq: u64,
}

/// The state of an animation: only the last command counts.
#[derive(Clone, Copy, Debug, PartialEq, Eq, Structural)]
pub struct AnimControl {
    /// 1 to stop, 2 to wait for more frames, 3 to loop.
    pub state: Option<u8>,
    /// 1 for ever, a larger number for one loop less.
    pub loop_count: Option<u32>,
    /// The frame to show now.
    pub current_frame: Option<u32>,
}

impl Default for AnimControl {
    fn default() -> (c: AnimControl)
        ensures
            c == (AnimControl { state: None, loop_count: None, current_frame: None }),
    {
        AnimControl { state: None, loop_count: None, current_frame: None }
    }
}

/// A transmitted image.
#[derive(Clone, Debug)]
pub struct Image {
    pub id: u32,
    pub protocol: ImageProtocol,
    pub format: ImageFormat,
    pub pixel_w: u32,
    pub pixel_h: u32,
    /// What to send to show the image again: base64 for Kitty and iTerm2, the inner
    /// data for sixel.
    pub data_b64: Arc<[u8]>,
    /// The arguments of an iTerm2 file.
    pub iterm_args: Option<Arc<str>>,
    /// Counts the transmissions under one number, so that a client sees that the
    /// pixels changed.
    pub generation: u64,
    /// The animation frames, in the order of their arrival.
    pub frames: Arc<Vec<Frame>>,
    pub anim_control: Option<AnimControl>,
}

/// The contents of a frame.
#[verifier::ext_equal]
pub ghost struct FrameView {
    pub frame_number: Option<u32>,
    pub canvas_source: Option<u32>,
    pub x: u32,
    pub y: u32,
    pub width: u32,
    pub height: u32,
    pub overwrite: bool,
    pub bg_color: u32,
    pub gap_ms: i32,
    pub format: ImageFormat,
    pub data_b64: Seq<u8>,
    pub seq: u64,
}

/// The contents of an image.
#[verifier::ext_equal]
pub ghost struct ImageView {
    pub id: u32,
    pub protocol: ImageProtocol,
    pub format: ImageFormat,
    pub pixel_w: u32,
    pub pixel_h: u32,
    pub data_b64: Seq<u8>,
    pub iterm_args: Option<Seq<char>>,
    pub generation: u64,
    pub frames: Seq<FrameView>,
    pub anim_control: Option<AnimControl>,
}

impl View for Frame {
    type V = FrameView;

    open spec fn view(&self) -> FrameView {
        FrameView {
            frame_number: self.frame_number,
            canvas_source: self.canvas_source,
            x: self.x,
            y: self.y,
            width: self.width,
            height: self.height,
            overwrite: self.overwrite,
            bg_color: self.bg_color,
            gap_ms: self.gap_ms,
            format: self.format,
            data_b64: (*self.data_b64)@,
            seq: self.seq,
        }
    }
}

impl Clone for Frame {
    fn clone(&self) -> (f: Frame)
        ensures
            f@ == self@,
    {
        Frame {
            frame_number: self.frame_number,
            canvas_source: self.canvas_source,
            x: self.x,
            y: self.y,
            width: self.width,
            height: self.height,
            overwrite: self.overwrite,
            bg_color: self.bg_color,
            gap_ms: self.gap_ms,
            format: self.format,
            data_b64: self.data_b64.clone(),
            seq: self.seq,
        }
    }
}

/// The contents of a list of frames.
pub open spec fn frames_view(v: Seq<Frame>) -> Seq<FrameView> {
    Seq::new(v.len(), |i: int| v[i]@)
}

/// The contents of a list of images.
pub open spec fn images_view(v: Seq<Image>) -> Seq<ImageView> {
    Seq::new(v.len(), |i: int| v[i]@)
}

impl View for Image {
    type V = ImageView;

    open spec fn view(&self) -> ImageView {
        ImageView {
            id: self.id,
            protocol: self.protocol,
            format: self.format,
            pixel_w: self.pixel_w,
            pixel_h: self.pixel_h,
            data_b64: (*self.data_b64)@,
            iterm_args: match self.iterm_args {
                Some(args) => Some((*args)@),
                None => None,
            },
            generation: self.generation,
            frames: frames_view((*self.frames)@),
            anim_control: self.anim_control,
        }
    }
}

/// The number of bytes in a list of frames.
pub open spec fn frame_bytes(frames: Seq<FrameView>) -> nat
    decreases frames.len(),
{
    if frames.len() == 0 {
        0
    } else {
        frame_bytes(frames.drop_last()) + frames.last().data_b64.len()
    }
}

impl ImageView {
    /// The number of bytes that the image takes: its own and those of its frames.
    pub open spec fn size(self) -> nat {
        self.data_b64.len() + frame_bytes(self.frames)
    }
}

proof fn frame_bytes_take(frames: Seq<FrameView>, k: int)
    requires
        0 <= k <= frames.len(),
    ensures
        frame_bytes(frames.take(k)) <= frame_bytes(frames),
    decreases frames.len(),
{
    if k == frames.len() {
        assert(frames.take(k) =~= frames);
    } else {
        frame_bytes_take(frames.drop_last(), k);
        assert(frames.drop_last().take(k) =~= frames.take(k));
    }
}

pub proof fn frame_bytes_skip_first(frames: Seq<FrameView>)
    requires
        frames.len() > 0,
    ensures
        frame_bytes(frames) == frames[0].data_b64.len() + frame_bytes(frames.skip(1)),
    decreases frames.len(),
{
    if frames.len() == 1 {
        assert(frames.skip(1) =~= Seq::empty());
        assert(frames.drop_last() =~= Seq::empty());
    } else {
        frame_bytes_skip_first(frames.drop_last());
        assert(frames.drop_last().skip(1) =~= frames.skip(1).drop_last());
    }
}

impl Image {
    /// The number of bytes that the image takes: its own and those of its frames.
    pub fn total_bytes(&self) -> (n: usize)
        requires
            self@.size() <= usize::MAX,
        ensures
            n == self@.size(),
    {
        let mut sum: usize = self.data_b64.len();
        let mut i: usize = 0;
        let ghost frames = self@.frames;
        assert(frames.take(0).len() == 0);
        while i < self.frames.len()
            invariant
                i <= self.frames@.len(),
                frames == frames_view(self.frames@),
                frames == self@.frames,
                self@.size() <= usize::MAX,
                sum == self@.data_b64.len() + frame_bytes(frames.take(i as int)),
            decreases self.frames.len() - i,
        {
            assert(frames.take(i + 1).drop_last() =~= frames.take(i as int));
            assert(frames[i as int].data_b64 == (*self.frames@[i as int].data_b64)@);
            proof {
                frame_bytes_take(frames, i + 1);
            }
            sum += self.frames[i].data_b64.len();
            i += 1;
        }
        assert(frames.take(i as int) =~= frames);
        sum
    }
}

/// An image on the screen.
#[derive(Clone, Copy, Debug, PartialEq, Eq, Structural)]
pub struct Placement {
    pub image_id: u32,
    pub placement_id: u32,
    pub protocol: ImageProtocol,
    /// The line of its top edge, counted through the scrollback and on into the
    /// screen.
    pub anchor_line: u32,
    pub col: u16,
    /// Its size in cells.
    pub rows: u16,
    pub cols: u16,
    /// Its height in the stack of images; negative is below the text.
    pub z: i32,
    /// The number of this placement among all of the screen.
    pub seq: u64,
}

/// An image that is drawn where placeholder characters stand in the text. It moves
/// with them, so it has no position of its own.
#[derive(Clone, Copy, Debug, PartialEq, Eq, Structural)]
pub struct VirtualPlacement {
    pub image_id: u32,
    pub placement_id: u32,
    pub rows: u16,
    pub cols: u16,
    /// The number of this placement among all of the screen.
    pub seq: u64,
}

} // verus!
