//! The texts of messages.
use vstd::prelude::*;
use vstd::string::StringExecFns;

verus! {

/// The digit of a number below ten.
pub open spec fn digit(n: int) -> char {
    (48 + n) as char
}

/// A number in decimal digits.
pub open spec fn number(n: nat) -> Seq<char>
    decreases n,
{
    if n < 10 {
        seq![digit(n as int)]
    } else {
        number(n / 10).push(digit((n % 10) as int))
    }
}

/// A number in decimal digits, with a sign if it is negative.
pub open spec fn signed_number(n: int) -> Seq<char> {
    if n < 0 {
        seq!['-'] + number((-n) as nat)
    } else {
        number(n as nat)
    }
}

/// Appends a number.
pub fn push_number(out: &mut String, n: u64)
    ensures
        final(out)@ == old(out)@ + number(n as nat),
    decreases n,
{
    if n >= 10 {
        push_number(out, n / 10);
    }
    let d: u8 = 48 + (n % 10) as u8;
    out.push(d as char);
    assert(out@ =~= old(out)@ + number(n as nat));
}

/// Appends a number that may be negative.
pub fn push_signed(out: &mut String, n: i32)
    ensures
        final(out)@ == old(out)@ + signed_number(n as int),
{
    if n < 0 {
        out.push('-');
        let m: i64 = -(n as i64);
        push_number(out, m as u64);
        assert(out@ =~= old(out)@ + signed_number(n as int));
    } else {
        push_number(out, n as u64);
    }
}

/// `before`, the number of the window counted from one, and its name in brackets.
pub open spec fn named_window(before: Seq<char>, i: int, name: Seq<char>) -> Seq<char> {
    before + number((i + 1) as nat) + " ("@ + name + ")"@
}

/// The text of [`named_window`].
pub fn name_window(before: &str, i: usize, name: &str) -> (r: String)
    requires
        i < usize::MAX,
    ensures
        r@ == named_window(before@, i as int, name@),
{
    let mut out: String = String::from_str(before);
    push_number(&mut out, i as u64 + 1);
    out.append(" (");
    out.append(name);
    out.append(")");
    out
}

} // verus!
