//! What holds of the files that are shown inline.
use super::{first_char, iterm_file, iterm_size, pixel_arg};
use crate::reply::{decimal, decimals_read_back};
use crate::scan::first_is;
use vstd::prelude::*;

verus! {

/// `width=` in bytes.
pub open spec fn width_is() -> Seq<u8> {
    seq![0x77u8, 0x69u8, 0x64u8, 0x74u8, 0x68u8, 0x3du8]
}

/// `height=` in bytes.
pub open spec fn height_is() -> Seq<u8> {
    seq![0x68u8, 0x65u8, 0x69u8, 0x67u8, 0x68u8, 0x74u8, 0x3du8]
}

/// A file has its arguments before the first colon and its data behind it.
pub proof fn a_file_is_taken_apart(args: Seq<char>, data: Seq<char>)
    requires
        !args.contains(':'),
    ensures
        iterm_file(seq!['F', 'i', 'l', 'e', '='] + args + seq![':'] + data) == Some((args, data)),
{
    let tag = seq!['F', 'i', 'l', 'e', '='];
    let body = tag + args + seq![':'] + data;
    let rest = body.skip(5);
    assert(body.take(5) =~= tag);
    assert(rest =~= args + seq![':'] + data);
    the_first_colon(args, seq![':'] + data);
    assert(rest =~= args + (seq![':'] + data));
    assert(rest.take(args.len() as int) =~= args);
    assert(rest.skip(args.len() as int + 1) =~= data);
}

proof fn the_first_colon(args: Seq<char>, rest: Seq<char>)
    requires
        !args.contains(':'),
        rest.len() > 0,
        rest[0] == ':',
    ensures
        first_char(args + rest, ':') == args.len(),
    decreases args.len(),
{
    if args.len() == 0 {
        assert(args + rest =~= rest);
    } else {
        assert(args.contains(args[0]));
        let fewer = args.skip(1);
        assert((args + rest).skip(1) =~= fewer + rest);
        assert(!fewer.contains(':')) by {
            if fewer.contains(':') {
                let i = choose|i: int| 0 <= i < fewer.len() && fewer[i] == ':';
                assert(args[i + 1] == ':');
            }
        }
        the_first_colon(fewer, rest);
    }
}

proof fn pixels_are_read(key: Seq<u8>, n: u32, rest: Seq<u8>)
    requires
        key.len() > 0,
        forall|i: int| 0 <= i < key.len() ==> #[trigger] key[i] != 0x3b,
        rest.len() > 0 ==> rest[0] == 0x3b,
    ensures
        pixel_arg(key + decimal(n as nat) + seq![0x70u8, 0x78u8] + rest, key) == Some(n),
{
    let digits = decimal(n as nat);
    let px = seq![0x70u8, 0x78u8];
    let kv = key + digits + px;
    let args = kv + rest;
    assert(args =~= key + digits + px + rest);
    decimals_read_back(n as nat);
    assert forall|k: int| 0 <= k < kv.len() implies args[k] != 0x3b by {
        if k < key.len() {
            assert(args[k] == key[k]);
        } else if k < key.len() + digits.len() {
            assert(args[k] == digits[k - key.len()]);
            assert(crate::scan::is_digit(digits[k - key.len()]));
        }
    }
    first_is(args, 0x3b, kv.len() as int);
    assert(args.take(kv.len() as int) =~= kv);
    assert(kv.take(key.len() as int) =~= key);
    let v = kv.skip(key.len() as int);
    assert(v =~= digits + px);
    assert(v.skip(v.len() - 2) =~= px);
    assert(v.take(v.len() - 2) =~= digits);
    assert(crate::scan::is_digit(digits[0]));
}

/// A file that states its width and its height in pixels has this size, whatever its
/// data says. The order of the two does not matter.
pub proof fn stated_sizes_count(w: u32, h: u32, decoded: Option<Seq<u8>>)
    ensures
        iterm_size(
            width_is() + decimal(w as nat) + seq![0x70u8, 0x78u8] + (seq![0x3bu8] + height_is()
                + decimal(h as nat) + seq![0x70u8, 0x78u8]),
            decoded,
        ) == Some((w, h)),
        iterm_size(
            height_is() + decimal(h as nat) + seq![0x70u8, 0x78u8] + (seq![0x3bu8] + width_is()
                + decimal(w as nat) + seq![0x70u8, 0x78u8]),
            decoded,
        ) == Some((w, h)),
{
    two_keys(width_is(), w, height_is(), h);
    two_keys(height_is(), h, width_is(), w);
}

proof fn two_keys(a: Seq<u8>, m: u32, b: Seq<u8>, n: u32)
    requires
        a == width_is() && b == height_is() || a == height_is() && b == width_is(),
    ensures
        ({
            let px = seq![0x70u8, 0x78u8];
            let args = a + decimal(m as nat) + px + (seq![0x3bu8] + b + decimal(n as nat) + px);
            pixel_arg(args, a) == Some(m) && pixel_arg(args, b) == Some(n)
        }),
{
    let px = seq![0x70u8, 0x78u8];
    let rest = seq![0x3bu8] + b + decimal(n as nat) + px;
    let kv = a + decimal(m as nat) + px;
    let args = kv + rest;
    pixels_are_read(a, m, rest);
    pixels_are_read(b, n, Seq::empty());
    let second = b + decimal(n as nat) + px + Seq::empty();
    assert(second =~= b + decimal(n as nat) + px);
    decimals_read_back(m as nat);
    assert forall|k: int| 0 <= k < kv.len() implies args[k] != 0x3b by {
        let digits = decimal(m as nat);
        if k < a.len() {
            assert(args[k] == a[k]);
        } else if k < a.len() + digits.len() {
            assert(args[k] == digits[k - a.len()]);
            assert(crate::scan::is_digit(digits[k - a.len()]));
        }
    }
    first_is(args, 0x3b, kv.len() as int);
    assert(args.take(kv.len() as int) =~= kv);
    assert(args.skip(kv.len() as int + 1) =~= second);
    assert(kv.take(b.len() as int)[0] == a[0]);
    assert(a[0] != b[0]);
    assert(!crate::scan::starts_with(kv, b));
}

} // verus!
