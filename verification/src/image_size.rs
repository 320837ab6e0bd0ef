//! Pixel sizes of images, read from the head of their data.
pub mod measures;

use crate::scan::{cut, digit_run, digit_run_is, nth_field, saturating_value};
use vstd::prelude::*;
use vstd::slice::slice_subrange;

verus! {

/// Whether the byte is part of a list of numbers: a digit or a semicolon.
pub open spec fn in_list(b: u8) -> bool {
    crate::scan::is_digit(b) || b == 0x3b
}

/// The length of the longest beginning of `s` that is a list of numbers.
pub open spec fn list_run(s: Seq<u8>) -> int
    decreases s.len(),
{
    if s.len() == 0 || !in_list(s[0]) {
        0
    } else {
        1 + list_run(s.skip(1))
    }
}

proof fn list_run_is(s: Seq<u8>, n: int)
    requires
        0 <= n <= s.len(),
        forall|k: int| 0 <= k < n ==> in_list(s[k]),
        n < s.len() ==> !in_list(s[n]),
    ensures
        list_run(s) == n,
    decreases s.len(),
{
    if n > 0 {
        assert(in_list(s[0]));
        assert forall|k: int| 0 <= k < n - 1 implies in_list(s.skip(1)[k]) by {
            assert(s.skip(1)[k] == s[k + 1]);
        }
        list_run_is(s.skip(1), n - 1);
    }
}

/// The size in the raster attributes that follow a quotation mark: the third and
/// fourth number of the list. The list must go on to a byte that ends its fourth
/// number, and both numbers must be positive.
pub open spec fn raster_size(s: Seq<u8>) -> Option<(u32, u32)> {
    let n = list_run(s);
    let list = s.take(n);
    let needed: nat = if n < s.len() {
        3
    } else {
        4
    };
    if crate::scan::field(list, 0x3b, needed) is Some {
        let w = crate::scan::clamped(
            crate::scan::value_of(crate::scan::field(list, 0x3b, 2)->0),
        );
        let h = crate::scan::clamped(
            crate::scan::value_of(crate::scan::field(list, 0x3b, 3)->0),
        );
        if w > 0 && h > 0 {
            Some((w, h))
        } else {
            None
        }
    } else {
        None
    }
}

/// Whether the byte draws a column of six pixels.
pub open spec fn is_sixel(b: u8) -> bool {
    0x3f <= b <= 0x7e
}

/// How far a sixel image extends: the current column, the widest line so far, the
/// number of bands, and whether anything was drawn.
pub ghost struct Extent {
    pub x: nat,
    pub widest: nat,
    pub bands: nat,
    pub drawn: bool,
}

impl Extent {
    /// Nothing drawn yet, in the first band.
    pub open spec fn start() -> Extent {
        Extent { x: 0, widest: 0, bands: 1, drawn: false }
    }

    /// `n` columns drawn.
    pub open spec fn draw(self, n: nat) -> Extent {
        Extent {
            x: self.x + n,
            widest: if self.x + n > self.widest {
                self.x + n
            } else {
                self.widest
            },
            drawn: true,
            ..self
        }
    }
}

/// The extent after the data `s`. An exclamation mark and a count repeat the next
/// column (at least once), a dollar sign goes back to the left edge, and a hyphen
/// begins a new band.
pub open spec fn extent(s: Seq<u8>, e: Extent) -> Extent
    decreases s.len(),
{
    if s.len() == 0 {
        e
    } else if s[0] == 0x21 {
        let n = digit_run(s.skip(1));
        let count = crate::scan::value_of(s.skip(1).take(n));
        let rest = s.skip(1 + n);
        if 0 <= n < s.len() - 1 && is_sixel(rest[0]) {
            extent(
                rest.skip(1),
                e.draw(
                    if count == 0 {
                        1
                    } else {
                        count
                    },
                ),
            )
        } else if 0 <= n < s.len() {
            extent(rest, e)
        } else {
            e
        }
    } else if s[0] == 0x24 {
        extent(s.skip(1), Extent { x: 0, ..e })
    } else if s[0] == 0x2d {
        extent(s.skip(1), Extent { x: 0, bands: e.bands + 1, ..e })
    } else if is_sixel(s[0]) {
        extent(s.skip(1), e.draw(1))
    } else {
        extent(s.skip(1), e)
    }
}

/// The size of a sixel image: that of its raster attributes, or else how far its
/// data extends, six pixels per band.
pub open spec fn sixel_size(s: Seq<u8>) -> Option<(u32, u32)> {
    let raster = match crate::scan::after(s, 0x22) {
        Some(rest) => raster_size(rest),
        None => None,
    };
    let e = extent(s, Extent::start());
    if raster is Some {
        raster
    } else if e.drawn {
        Some((crate::scan::clamped(e.widest), crate::scan::clamped(e.bands * 6)))
    } else {
        None
    }
}

/// Every field of a list of numbers consists of digits.
proof fn fields_of_lists(list: Seq<u8>, n: nat)
    requires
        forall|k: int| 0 <= k < list.len() ==> in_list(list[k]),
    ensures
        crate::scan::field(list, 0x3b, n) matches Some(f) ==> crate::scan::all_digits(f),
        n > 0 && crate::scan::field(list, 0x3b, n) is Some ==> crate::scan::field(
            list,
            0x3b,
            (n - 1) as nat,
        ) is Some,
    decreases n,
{
    crate::scan::first_bounds(list, 0x3b);
    let i = crate::scan::first(list, 0x3b);
    if n == 0 {
        assert(forall|k: int| 0 <= k < i ==> list.take(i)[k] == list[k]);
    } else if i < list.len() {
        let rest = list.skip(i + 1);
        assert forall|k: int| 0 <= k < rest.len() implies in_list(rest[k]) by {
            assert(rest[k] == list[k + i + 1]);
        }
        fields_of_lists(rest, (n - 1) as nat);
    }
}

fn raster_dimensions(s: &[u8]) -> (r: Option<(u32, u32)>)
    ensures
        r == raster_size(s@),
{
    let mut n: usize = 0;
    while n < s.len() && (s[n] >= 0x30 && s[n] <= 0x39 || s[n] == 0x3b)
        invariant
            n <= s.len(),
            forall|k: int| 0 <= k < n ==> in_list(s@[k]),
        decreases s.len() - n,
    {
        n += 1;
    }
    let list = slice_subrange(s, 0, n);
    proof {
        list_run_is(s@, n as int);
        assert(list@ =~= s@.take(n as int));
        assert(forall|k: int| 0 <= k < n ==> list@[k] == s@[k]);
        fields_of_lists(list@, 4);
        fields_of_lists(list@, 3);
        fields_of_lists(list@, 2);
    }
    if n == s.len() && nth_field(list, 0x3b, 4).is_none() {
        return None;
    }
    match nth_field(list, 0x3b, 3) {
        Some(height) => {
            match nth_field(list, 0x3b, 2) {
                Some(width) => {
                    let w: u32 = saturating_value(width);
                    let h: u32 = saturating_value(height);
                    if w > 0 && h > 0 {
                        Some((w, h))
                    } else {
                        None
                    }
                },
                None => None,
            }
        },
        None => None,
    }
}

fn add_up_to_max(a: u32, b: u32) -> (r: u32)
    ensures
        r == crate::scan::clamped((a + b) as nat),
{
    if a > u32::MAX - b {
        u32::MAX
    } else {
        a + b
    }
}

/// The size in pixels of a sixel image.
pub fn sixel_dimensions(payload: &[u8]) -> (r: Option<(u32, u32)>)
    ensures
        r == sixel_size(payload@),
{
    match cut(payload, 0x22).1 {
        Some(rest) => {
            let raster = raster_dimensions(rest);
            if raster.is_some() {
                return raster;
            }
        },
        None => {},
    }
    let mut x: u32 = 0;
    let mut widest: u32 = 0;
    let mut bands: u32 = 1;
    let mut drawn: bool = false;
    let mut i: usize = 0;
    let ghost mut e: Extent = Extent::start();
    assert(payload@.skip(0) =~= payload@);
    while i < payload.len()
        invariant
            i <= payload.len(),
            extent(payload@, Extent::start()) == extent(payload@.skip(i as int), e),
            x == crate::scan::clamped(e.x),
            widest == crate::scan::clamped(e.widest),
            bands == crate::scan::clamped(e.bands),
            drawn == e.drawn,
            e.x <= e.widest,
        decreases payload.len() - i,
    {
        let ghost s = payload@.skip(i as int);
        let b: u8 = payload[i];
        assert(s[0] == b);
        if b == 0x21 {
            let ghost tail = s.skip(1);
            let start: usize = i + 1;
            i = start;
            while i < payload.len() && payload[i] >= 0x30 && payload[i] <= 0x39
                invariant
                    start <= i <= payload.len(),
                    tail == payload@.skip(start as int),
                    crate::scan::all_digits(tail.take(i - start)),
                decreases payload.len() - i,
            {
                assert(tail[i - start] == payload@[i as int]);
                assert forall|k: int| 0 <= k < i + 1 - start implies crate::scan::is_digit(
                    #[trigger] tail.take(i + 1 - start)[k],
                ) by {
                    if k < i - start {
                        assert(tail.take(i - start)[k] == tail.take(i + 1 - start)[k]);
                    }
                }
                i += 1;
            }
            let digits = slice_subrange(payload, start, i);
            proof {
                assert(tail =~= payload@.skip(start as int));
                assert(digits@ =~= tail.take(i - start));
                if i < payload.len() {
                    assert(tail[i - start] == payload@[i as int]);
                }
                digit_run_is(tail, i - start);
                assert(s.skip(1 + (i - start)) =~= payload@.skip(i as int));
            }
            let n: u32 = saturating_value(digits);
            if i < payload.len() && payload[i] >= 0x3f && payload[i] <= 0x7e {
                let count: u32 = if n == 0 {
                    1
                } else {
                    n
                };
                x = add_up_to_max(x, count);
                drawn = true;
                i += 1;
                proof {
                    let v = crate::scan::value_of(digits@);
                    e = e.draw(if v == 0 {
                        1
                    } else {
                        v
                    });
                    assert(payload@.skip(i - 1).skip(1) =~= payload@.skip(i as int));
                }
            }
            if x > widest {
                widest = x;
            }
        } else {
            if b == 0x24 {
                x = 0;
                proof {
                    e = Extent { x: 0, ..e };
                }
            } else if b == 0x2d {
                bands = add_up_to_max(bands, 1);
                x = 0;
                proof {
                    e = Extent { x: 0, bands: e.bands + 1, ..e };
                }
            } else if b >= 0x3f && b <= 0x7e {
                x = add_up_to_max(x, 1);
                drawn = true;
                if x > widest {
                    widest = x;
                }
                proof {
                    e = e.draw(1);
                }
            }
            i += 1;
            assert(s.skip(1) =~= payload@.skip(i as int));
        }
    }
    if drawn {
        let wide: u64 = bands as u64 * 6;
        let height: u32 = if wide > u32::MAX as u64 {
            u32::MAX
        } else {
            wide as u32
        };
        Some((widest, height))
    } else {
        None
    }
}

/// The number that two bytes write, the high one first.
pub open spec fn be16(hi: u8, lo: u8) -> u32 {
    (hi * 256 + lo) as u32
}

fn from_be16(hi: u8, lo: u8) -> (v: u32)
    ensures
        v == be16(hi, lo),
{
    hi as u32 * 256 + lo as u32
}

/// Whether a JPEG marker begins a frame header, which holds the size.
pub open spec fn is_frame_marker(m: u8) -> bool {
    0xc0 <= m <= 0xcf && m != 0xc4 && m != 0xc8 && m != 0xcc
}

/// Whether a JPEG marker stands alone, without a length.
pub open spec fn is_bare_marker(m: u8) -> bool {
    0xd0 <= m <= 0xd9 || m == 0x01
}

/// The size in the first frame header of JPEG data, looking from position `i`.
pub open spec fn frame_size(s: Seq<u8>, i: int) -> Option<(u32, u32)>
    decreases
            if i < s.len() {
                s.len() - i
            } else {
                0
            },
{
    if i < 0 || i + 8 >= s.len() {
        None
    } else if s[i] != 0xff || s[i + 1] == 0xff || s[i + 1] == 0 {
        frame_size(s, i + 1)
    } else if is_frame_marker(s[i + 1]) {
        Some((be16(s[i + 7], s[i + 8]), be16(s[i + 5], s[i + 6])))
    } else if is_bare_marker(s[i + 1]) {
        frame_size(s, i + 2)
    } else {
        frame_size(s, i + 2 + be16(s[i + 2], s[i + 3]))
    }
}

/// The size of a JPEG image.
pub open spec fn jpeg_size(s: Seq<u8>) -> Option<(u32, u32)> {
    if s.len() >= 4 && s[0] == 0xff && s[1] == 0xd8 {
        frame_size(s, 2)
    } else {
        None
    }
}

/// The size in pixels of a JPEG image, from its first frame header.
pub fn jpeg_dimensions(bytes: &[u8]) -> (r: Option<(u32, u32)>)
    ensures
        r == jpeg_size(bytes@),
{
    if bytes.len() < 4 || bytes[0] != 0xff || bytes[1] != 0xd8 {
        return None;
    }
    let mut i: usize = 2;
    while bytes.len() > 8 && i < bytes.len() - 8
        invariant
            bytes@.len() >= 4,
            jpeg_size(bytes@) == frame_size(bytes@, i as int),
        decreases bytes.len() - i,
    {
        let marker: u8 = bytes[i + 1];
        if bytes[i] != 0xff || marker == 0xff || marker == 0 {
            i += 1;
        } else if marker >= 0xc0 && marker <= 0xcf && marker != 0xc4 && marker != 0xc8 && marker
            != 0xcc {
            let h: u32 = from_be16(bytes[i + 5], bytes[i + 6]);
            let w: u32 = from_be16(bytes[i + 7], bytes[i + 8]);
            return Some((w, h));
        } else if marker >= 0xd0 && marker <= 0xd9 || marker == 0x01 {
            i += 2;
        } else {
            let len: usize = from_be16(bytes[i + 2], bytes[i + 3]) as usize;
            if len + 2 >= bytes.len() - i {
                assert(frame_size(bytes@, i + 2 + len) is None);
                return None;
            }
            i += 2 + len;
        }
    }
    None
}

/// The eight bytes with which a PNG file begins.
pub open spec fn png_signature() -> Seq<u8> {
    seq![0x89, 0x50, 0x4e, 0x47, 0x0d, 0x0a, 0x1a, 0x0a]
}

/// The number that four bytes write, the highest first.
pub open spec fn be32(s: Seq<u8>, i: int) -> u32 {
    (s[i] * 0x100_0000 + s[i + 1] * 0x1_0000 + s[i + 2] * 0x100 + s[i + 3]) as u32
}

fn from_be32(s: &[u8], i: usize) -> (v: u32)
    requires
        i + 4 <= s@.len(),
    ensures
        v == be32(s@, i as int),
{
    s[i] as u32 * 0x100_0000 + s[i + 1] as u32 * 0x1_0000 + s[i + 2] as u32 * 0x100 + s[i
        + 3] as u32
}

/// The size of a PNG image.
pub open spec fn png_size(s: Seq<u8>) -> Option<(u32, u32)> {
    if s.len() >= 24 && s.take(8) == png_signature() {
        Some((be32(s, 16), be32(s, 20)))
    } else {
        None
    }
}

/// The size in pixels of a PNG image, from its header.
pub fn png_dimensions(bytes: &[u8]) -> (r: Option<(u32, u32)>)
    ensures
        r == png_size(bytes@),
{
    if bytes.len() < 24 {
        return None;
    }
    let signature: [u8; 8] = [0x89, 0x50, 0x4e, 0x47, 0x0d, 0x0a, 0x1a, 0x0a];
    assert(signature@ =~= png_signature());
    if !crate::text::same_bytes(slice_subrange(bytes, 0, 8), &signature) {
        return None;
    }
    Some((from_be32(bytes, 16), from_be32(bytes, 20)))
}

/// The size of an image file: PNG or JPEG.
pub open spec fn file_size(s: Seq<u8>) -> Option<(u32, u32)> {
    if png_size(s) is Some {
        png_size(s)
    } else {
        jpeg_size(s)
    }
}

/// The size in pixels of an image file, which may be PNG or JPEG.
pub fn file_dimensions(bytes: &[u8]) -> (r: Option<(u32, u32)>)
    ensures
        r == file_size(bytes@),
{
    let png = png_dimensions(bytes);
    if png.is_some() {
        png
    } else {
        jpeg_dimensions(bytes)
    }
}

} // verus!
