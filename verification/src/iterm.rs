//! Inline images in the form of iTerm2: a file with arguments (OSC 1337).
pub mod files;

use crate::image_size::file_dimensions;
use crate::scan::{cut, parse_u32, strip_prefix, strip_suffix};
use base64::Engine;
use vstd::prelude::*;
use vstd::string::StrSliceExecFns;
use vstd::utf8::encode_utf8;

verus! {

/// The position of the first `c` in a text, or its length if there is none.
pub open spec fn first_char(s: Seq<char>, c: char) -> int
    decreases s.len(),
{
    if s.len() == 0 || s[0] == c {
        0
    } else {
        1 + first_char(s.skip(1), c)
    }
}

proof fn first_char_is(s: Seq<char>, c: char, i: int)
    requires
        0 <= i <= s.len(),
        i < s.len() ==> s[i] == c,
        forall|k: int| 0 <= k < i ==> s[k] != c,
    ensures
        first_char(s, c) == i,
    decreases s.len(),
{
    if i > 0 {
        assert forall|k: int| 0 <= k < i - 1 implies s.skip(1)[k] != c by {
            assert(s.skip(1)[k] == s[k + 1]);
        }
        first_char_is(s.skip(1), c, i - 1);
    }
}

/// The arguments and the data of a file: what stands before and after the first
/// colon behind `File=`.
pub open spec fn iterm_file(body: Seq<char>) -> Option<(Seq<char>, Seq<char>)> {
    let tag = seq!['F', 'i', 'l', 'e', '='];
    let rest = body.skip(5);
    let i = first_char(rest, ':');
    if body.len() >= 5 && body.take(5) == tag && i < rest.len() {
        Some((rest.take(i), rest.skip(i + 1)))
    } else {
        None
    }
}

/// Splits the body of OSC 1337 into the arguments and the data of a file. `None` if
/// it has another form.
pub fn parse_iterm_file(rejoined: &str) -> (r: Option<(&str, &str)>)
    ensures
        match r {
            Some((args, data)) => iterm_file(rejoined@) == Some((args@, data@)),
            None => iterm_file(rejoined@) is None,
        },
{
    proof {
        reveal_strlit("File=");
        assert("File="@ =~= seq!['F', 'i', 'l', 'e', '=']);
    }
    let len: usize = rejoined.unicode_len();
    if len < 5 {
        return None;
    }
    let head = rejoined.substring_char(0, 5);
    assert(head@ =~= rejoined@.take(5));
    if !crate::text::same_text(head, "File=") {
        return None;
    }
    let rest = rejoined.substring_char(5, len);
    assert(rest@ =~= rejoined@.skip(5));
    let mut at: usize = 0;
    for c in it: rest.chars()
        invariant
            it.seq() == rest@,
            at == it.index(),
            rest@ == rejoined@.skip(5),
            rejoined@.len() == len,
            len >= 5,
            rejoined@.take(5) == seq!['F', 'i', 'l', 'e', '='],
            forall|k: int| 0 <= k < at ==> rest@[k] != ':',
    {
        if c == ':' {
            proof {
                first_char_is(rest@, ':', at as int);
            }
            let args = rest.substring_char(0, at);
            let data = rest.substring_char(at + 1, len - 5);
            assert(args@ =~= rest@.take(at as int));
            assert(data@ =~= rest@.skip(at + 1));
            return Some((args, data));
        }
        at += 1;
    }
    proof {
        first_char_is(rest@, ':', rest@.len() as int);
    }
    None
}

/// The number of pixels that the arguments give for `key`: the first argument that
/// begins with the key and ends with `px` decides.
pub open spec fn pixel_arg(args: Seq<u8>, key: Seq<u8>) -> Option<u32>
    decreases args.len(),
{
    let kv = crate::scan::before(args, 0x3b);
    let px = seq![0x70u8, 0x78u8];
    let v = kv.skip(key.len() as int);
    if crate::scan::starts_with(kv, key) && crate::scan::ends_with(v, px) {
        match crate::scan::unsigned(v.take(v.len() - 2), u32::MAX as nat) {
            Some(n) => Some(n as u32),
            None => None,
        }
    } else {
        match crate::scan::after(args, 0x3b) {
            Some(rest) => if rest.len() < args.len() {
                pixel_arg(rest, key)
            } else {
                None
            },
            None => None,
        }
    }
}

fn find_pixel_arg(args: &[u8], key: &[u8]) -> (r: Option<u32>)
    ensures
        r == pixel_arg(args@, key@),
{
    let px: [u8; 2] = [0x70, 0x78];
    assert(px@ =~= seq![0x70u8, 0x78u8]);
    let mut rest: &[u8] = args;
    loop
        invariant
            pixel_arg(args@, key@) == pixel_arg(rest@, key@),
            px@ == seq![0x70u8, 0x78u8],
        decreases rest@.len(),
    {
        let (kv, tail) = cut(rest, 0x3b);
        match strip_prefix(kv, key) {
            Some(v) => {
                match strip_suffix(v, &px) {
                    Some(digits) => {
                        return parse_u32(digits);
                    },
                    None => {},
                }
            },
            None => {},
        }
        match tail {
            Some(t) => {
                proof {
                    crate::scan::first_bounds(rest@, 0x3b);
                }
                rest = t;
            },
            None => {
                return None;
            },
        }
    }
}

/// Whether the character is white space in Unicode.
pub open spec fn is_space(c: char) -> bool {
    ||| '\u{9}' <= c <= '\u{d}'
    ||| c == ' '
    ||| c == '\u{85}'
    ||| c == '\u{a0}'
    ||| c == '\u{1680}'
    ||| '\u{2000}' <= c <= '\u{200a}'
    ||| c == '\u{2028}'
    ||| c == '\u{2029}'
    ||| c == '\u{202f}'
    ||| c == '\u{205f}'
    ||| c == '\u{3000}'
}

pub(crate) fn is_white_space(c: char) -> (r: bool)
    ensures
        r == is_space(c),
{
    '\u{9}' <= c && c <= '\u{d}' || c == ' ' || c == '\u{85}' || c == '\u{a0}' || c == '\u{1680}'
        || '\u{2000}' <= c && c <= '\u{200a}' || c == '\u{2028}' || c == '\u{2029}' || c
        == '\u{202f}' || c == '\u{205f}' || c == '\u{3000}'
}

/// The number of characters of the data that are decoded to find a size.
pub const HEADER_CHARS: usize = 16384;

/// A text without its white space.
pub open spec fn squeezed(s: Seq<char>) -> Seq<char>
    decreases s.len(),
{
    if s.len() == 0 {
        Seq::empty()
    } else if is_space(s.last()) {
        squeezed(s.drop_last())
    } else {
        squeezed(s.drop_last()).push(s.last())
    }
}

/// The head of the data: its first characters that are no white space.
pub open spec fn data_head(s: Seq<char>) -> Seq<char> {
    let all = squeezed(s);
    if all.len() <= HEADER_CHARS {
        all
    } else {
        all.take(HEADER_CHARS as int)
    }
}

proof fn squeezing_extends(s: Seq<char>, k: int)
    requires
        0 <= k <= s.len(),
    ensures
        squeezed(s.take(k)).len() <= squeezed(s).len(),
        squeezed(s).take(squeezed(s.take(k)).len() as int) == squeezed(s.take(k)),
    decreases s.len(),
{
    if k == s.len() {
        assert(s.take(k) =~= s);
        assert(squeezed(s).take(squeezed(s).len() as int) =~= squeezed(s));
    } else {
        squeezing_extends(s.drop_last(), k);
        assert(s.drop_last().take(k) =~= s.take(k));
        let n = squeezed(s.take(k)).len() as int;
        assert(squeezed(s).take(n) =~= squeezed(s.drop_last()).take(n));
    }
}

fn head_of_data(data: &str) -> (head: String)
    ensures
        head@ == data_head(data@),
{
    let mut head: String = String::new();
    let mut count: usize = 0;
    assert(data@.take(0).len() == 0);
    for c in it: data.chars()
        invariant
            it.seq() == data@,
            head@ == squeezed(data@.take(it.index() as int)),
            count == head@.len(),
            count <= HEADER_CHARS,
    {
        if count == HEADER_CHARS {
            proof {
                squeezing_extends(data@, it.index() as int);
                if squeezed(data@).len() == HEADER_CHARS {
                    assert(squeezed(data@).take(HEADER_CHARS as int) =~= squeezed(data@));
                }
            }
            return head;
        }
        assert(data@.take(it.index() + 1).drop_last() =~= data@.take(it.index() as int));
        if !is_white_space(c) {
            head.push(c);
            count += 1;
        }
    }
    assert(data@.take(data@.len() as int) =~= data@);
    head
}

/// What decoding base64 in its standard alphabet yields, if the text is valid.
pub uninterp spec fn base64_decoded(text: Seq<u8>) -> Option<Seq<u8>>;

/// `base64::Engine::decode` of the standard engine: the decoded bytes, or nothing
/// where the text is no valid base64 with canonical padding.
#[verifier::external_body]
pub(crate) fn base64_decode(text: &[u8]) -> (r: Option<Vec<u8>>)
    ensures
        match r {
            Some(bytes) => base64_decoded(text@) == Some(bytes@),
            None => base64_decoded(text@) is None,
        },
{
    base64::engine::general_purpose::STANDARD.decode(text).ok()
}

/// The size of a file image: that of its pixel arguments, or else that of the file
/// itself, of which the head was decoded.
pub open spec fn iterm_size(
    args: Seq<u8>,
    decoded: Option<Seq<u8>>,
) -> Option<(u32, u32)> {
    let width_key = seq![0x77u8, 0x69u8, 0x64u8, 0x74u8, 0x68u8, 0x3du8];
    let height_key = seq![0x68u8, 0x65u8, 0x69u8, 0x67u8, 0x68u8, 0x74u8, 0x3du8];
    match (pixel_arg(args, width_key), pixel_arg(args, height_key)) {
        (Some(w), Some(h)) => Some((w, h)),
        _ => match decoded {
            Some(bytes) => crate::image_size::file_size(bytes),
            None => None,
        },
    }
}

/// The pixel size that the arguments of a file give, if they give both sides.
pub fn argument_dimensions(args: &str) -> (r: Option<(u32, u32)>)
    ensures
        r == iterm_size(encode_utf8(args@), None),
{
    let width_key: [u8; 6] = [0x77, 0x69, 0x64, 0x74, 0x68, 0x3d];
    let height_key: [u8; 7] = [0x68, 0x65, 0x69, 0x67, 0x68, 0x74, 0x3d];
    assert(width_key@ =~= seq![0x77u8, 0x69u8, 0x64u8, 0x74u8, 0x68u8, 0x3du8]);
    assert(height_key@ =~= seq![0x68u8, 0x65u8, 0x69u8, 0x67u8, 0x68u8, 0x74u8, 0x3du8]);
    match find_pixel_arg(args.as_bytes(), &width_key) {
        Some(w) => match find_pixel_arg(args.as_bytes(), &height_key) {
            Some(h) => Some((w, h)),
            None => None,
        },
        None => None,
    }
}

/// The size in pixels of a file image. Sizes in cells or per cent are not
/// interpreted.
pub fn iterm_dimensions(args: &str, b64: &str) -> (r: Option<(u32, u32)>)
    ensures
        r == iterm_size(encode_utf8(args@), base64_decoded(encode_utf8(data_head(b64@)))),
{
    let given = argument_dimensions(args);
    if given.is_some() {
        return given;
    }
    let head: String = head_of_data(b64);
    match base64_decode(head.as_str().as_bytes()) {
        Some(bytes) => file_dimensions(bytes.as_slice()),
        None => None,
    }
}

} // verus!
