//! The terminal capabilities that a program can ask for (XTGETTCAP).
use vstd::prelude::*;

verus! {

/// The answer to a question for a capability.
#[derive(Debug, Clone, PartialEq, Eq)]
pub enum Capability {
    /// Present, without a value.
    Boolean,
    /// A number.
    Num(u32),
    /// A text.
    Str(String),
    /// Not known.
    Unsupported,
}

/// The contents of an answer.
pub ghost enum CapabilityView {
    Boolean,
    Num(u32),
    Str(Seq<char>),
    Unsupported,
}

impl View for Capability {
    type V = CapabilityView;

    open spec fn view(&self) -> CapabilityView {
        match self {
            Capability::Boolean => CapabilityView::Boolean,
            Capability::Num(n) => CapabilityView::Num(*n),
            Capability::Str(s) => CapabilityView::Str(s@),
            Capability::Unsupported => CapabilityView::Unsupported,
        }
    }
}

/// The capability with the given name, for a terminal that calls itself `term`.
pub open spec fn capability(name: Seq<char>, term: Seq<char>) -> CapabilityView {
    if name == "colors"@ {
        CapabilityView::Num(256)
    } else if name == "Su"@ {
        CapabilityView::Boolean
    } else if name == "TN"@ || name == "name"@ {
        CapabilityView::Str(term)
    } else if name == "Setulc"@ {
        CapabilityView::Str(
            "\\E[58:2:%p1%{65536}%/%d:%p1%{256}%/%{255}%&%d:%p1%{255}%&%d%;m"@,
        )
    } else {
        CapabilityView::Unsupported
    }
}

/// Looks a capability up.
pub fn lookup(name: &str, term: &str) -> (c: Capability)
    ensures
        c@ == capability(name@, term@),
{
    if crate::text::same_text(name, "colors") {
        Capability::Num(256)
    } else if crate::text::same_text(name, "Su") {
        Capability::Boolean
    } else if crate::text::same_text(name, "TN") || crate::text::same_text(name, "name") {
        Capability::Str(term.to_owned())
    } else if crate::text::same_text(name, "Setulc") {
        Capability::Str(
            "\\E[58:2:%p1%{65536}%/%d:%p1%{256}%/%{255}%&%d:%p1%{255}%&%d%;m".to_owned(),
        )
    } else {
        Capability::Unsupported
    }
}

/// The lower-case hexadecimal digit of a value below 16.
pub open spec fn hex_digit(v: int) -> char {
    if v < 10 {
        (0x30 + v) as char
    } else {
        (0x57 + v) as char
    }
}

/// The value of a hexadecimal digit.
pub open spec fn hex_value(b: u8) -> Option<u8> {
    if 0x30 <= b <= 0x39 {
        Some((b - 0x30) as u8)
    } else if 0x61 <= b <= 0x66 {
        Some((b - 0x57) as u8)
    } else if 0x41 <= b <= 0x46 {
        Some((b - 0x37) as u8)
    } else {
        None
    }
}

/// Two hexadecimal digits for each byte.
pub open spec fn hex_text(bytes: Seq<u8>) -> Seq<char>
    decreases bytes.len(),
{
    if bytes.len() == 0 {
        Seq::empty()
    } else {
        hex_text(bytes.drop_last()).push(hex_digit((bytes.last() / 16) as int)).push(
            hex_digit((bytes.last() % 16) as int),
        )
    }
}

/// The bytes that pairs of hexadecimal digits write.
pub open spec fn hex_bytes(s: Seq<u8>) -> Option<Seq<u8>>
    decreases s.len(),
{
    if s.len() == 0 {
        Some(Seq::empty())
    } else if s.len() == 1 {
        None
    } else {
        match (
            hex_bytes(s.take(s.len() - 2)),
            hex_value(s[s.len() - 2]),
            hex_value(s[s.len() - 1]),
        ) {
            (Some(v), Some(hi), Some(lo)) => Some(v.push((hi * 16 + lo) as u8)),
            _ => None,
        }
    }
}

fn digit(v: u8) -> (c: char)
    requires
        v < 16,
    ensures
        c == hex_digit(v as int),
{
    if v < 10 {
        (0x30 + v) as char
    } else {
        (0x57 + v) as char
    }
}

fn digit_value(b: u8) -> (v: Option<u8>)
    ensures
        v == hex_value(b),
        v matches Some(n) ==> n < 16,
{
    if b >= 0x30 && b <= 0x39 {
        Some(b - 0x30)
    } else if b >= 0x61 && b <= 0x66 {
        Some(b - 0x57)
    } else if b >= 0x41 && b <= 0x46 {
        Some(b - 0x37)
    } else {
        None
    }
}

/// Writes bytes as hexadecimal digits.
pub fn hex_encode(bytes: &[u8]) -> (s: String)
    ensures
        s@ == hex_text(bytes@),
{
    let mut s: String = String::new();
    let mut i: usize = 0;
    assert(bytes@.take(0).len() == 0);
    while i < bytes.len()
        invariant
            i <= bytes.len(),
            s@ == hex_text(bytes@.take(i as int)),
        decreases bytes.len() - i,
    {
        assert(bytes@.take(i + 1).drop_last() =~= bytes@.take(i as int));
        s.push(digit(bytes[i] / 16));
        s.push(digit(bytes[i] % 16));
        i += 1;
    }
    assert(bytes@.take(i as int) =~= bytes@);
    s
}

proof fn bad_digit_spoils(s: Seq<u8>, k: int)
    requires
        0 <= k < s.len(),
        hex_value(s[k]) is None || s.len() % 2 == 1,
    ensures
        hex_bytes(s) is None,
    decreases s.len(),
{
    if s.len() >= 2 {
        if k < s.len() - 2 {
            bad_digit_spoils(s.take(s.len() - 2), k);
        } else if s.len() % 2 == 1 {
            bad_digit_spoils(s.take(s.len() - 2), 0);
        }
    }
}

/// Reads hexadecimal digits. `None` if one of them is none, or if their number is
/// odd.
pub fn hex_decode(s: &[u8]) -> (r: Option<Vec<u8>>)
    ensures
        match r {
            Some(v) => hex_bytes(s@) == Some(v@),
            None => hex_bytes(s@) is None,
        },
{
    if s.len() % 2 == 1 {
        proof {
            bad_digit_spoils(s@, 0);
        }
        return None;
    }
    let mut out: Vec<u8> = Vec::new();
    let mut i: usize = 0;
    assert(s@.take(0).len() == 0);
    while i < s.len()
        invariant
            i <= s.len(),
            i % 2 == 0,
            s.len() % 2 == 0,
            hex_bytes(s@.take(i as int)) == Some(out@),
        decreases s.len() - i,
    {
        match (digit_value(s[i]), digit_value(s[i + 1])) {
            (Some(hi), Some(lo)) => {
                assert(s@.take(i + 2).take(i as int) =~= s@.take(i as int));
                out.push(hi * 16 + lo);
            },
            _ => {
                proof {
                    if hex_value(s@[i as int]) is None {
                        bad_digit_spoils(s@, i as int);
                    } else {
                        bad_digit_spoils(s@, i + 1);
                    }
                }
                return None;
            },
        }
        i += 2;
    }
    assert(s@.take(i as int) =~= s@);
    Some(out)
}

/// Writing bytes in hexadecimal and reading them back gives the same bytes.
pub proof fn hex_reads_back(bytes: Seq<u8>)
    ensures
        hex_text(bytes).len() == 2 * bytes.len(),
        hex_bytes(hex_text(bytes).map_values(|c: char| c as u8)) == Some(bytes),
    decreases bytes.len(),
{
    let f = |c: char| c as u8;
    if bytes.len() == 0 {
        assert(hex_text(bytes).map_values(f).len() == 0);
        assert(bytes =~= Seq::empty());
    } else {
        hex_reads_back(bytes.drop_last());
        let t = hex_text(bytes).map_values(f);
        assert(t.take(t.len() - 2) =~= hex_text(bytes.drop_last()).map_values(f));
        assert(bytes.drop_last().push(bytes.last()) =~= bytes);
    }
}

/// A capability is known by five names, and what the terminal is called by two of them.
pub proof fn known_capabilities(name: Seq<char>, term: Seq<char>)
    ensures
        name == "TN"@ || name == "name"@ ==> capability(name, term) == CapabilityView::Str(term),
        name == "colors"@ ==> capability(name, term) == CapabilityView::Num(256),
        name == "Su"@ ==> capability(name, term) == CapabilityView::Boolean,
        name == "Setulc"@ ==> capability(name, term) is Str,
        capability(name, term) is Unsupported <==> name != "TN"@ && name != "name"@ && name
            != "colors"@ && name != "Su"@ && name != "Setulc"@,
{
    reveal_strlit("TN");
    reveal_strlit("name");
    reveal_strlit("colors");
    reveal_strlit("Su");
    reveal_strlit("Setulc");
    assert("TN"@[0] == 'T' && "name"@[0] == 'n' && "colors"@[0] == 'c' && "Su"@[0] == 'S');
    assert("Setulc"@[0] == 'S' && "Setulc"@[1] == 'e' && "Su"@[1] == 'u');
}

} // verus!
