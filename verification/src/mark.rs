//! The annotations of shell integration on a row.
use vstd::prelude::*;

verus! {

/// The annotations that shell integration (OSC 133) leaves on a row.
///
/// A mark stands on its row, so it moves into the scrollback with it, goes away
/// with it, and survives reflow. The payloads have presence bits in `flags` and
/// are 0 while absent, so that equal marks have equal fields.
#[derive(Debug, Clone, Copy, PartialEq, Eq, Structural)]
pub struct RowMark {
    /// The flags of the associated constants.
    pub flags: u8,
    pub prompt_end_col: u16,
    pub exit_code: i32,
    pub duration_ms: u32,
}

impl RowMark {
    /// A prompt starts on this row (`A`).
    pub const PROMPT_START: u8 = 1;

    /// The output of a command starts on this row (`C`).
    pub const OUTPUT_START: u8 = 2;

    /// A block ended on this row (`D`), with or without an exit code.
    pub const BLOCK_END: u8 = 4;

    /// The prompt ends and input begins on this row (`B`), at a recorded column.
    pub const PROMPT_END: u8 = 8;

    /// The output of the block that starts here is folded away. This flag is set by
    /// the user, not by the shell.
    pub const FOLDED: u8 = 16;

    /// A duration is recorded.
    pub const HAS_DURATION: u8 = 32;

    /// An exit code is recorded.
    pub const HAS_EXIT: u8 = 128;

    /// The mark of a row without annotations.
    pub open spec fn none() -> RowMark {
        RowMark { flags: 0, prompt_end_col: 0, exit_code: 0, duration_ms: 0 }
    }

    /// Whether one of the flags of `flag` is set.
    pub open spec fn has(self, flag: u8) -> bool {
        self.flags & flag != 0
    }

    /// Absent payloads are 0.
    pub open spec fn wf(self) -> bool {
        &&& !self.has(RowMark::PROMPT_END) ==> self.prompt_end_col == 0
        &&& !self.has(RowMark::HAS_EXIT) ==> self.exit_code == 0
        &&& !self.has(RowMark::HAS_DURATION) ==> self.duration_ms == 0
    }

    pub open spec fn with_flag(self, flag: u8) -> RowMark {
        RowMark { flags: self.flags | flag, ..self }
    }

    pub open spec fn with_prompt_end(self, col: u16) -> RowMark {
        RowMark { flags: self.flags | RowMark::PROMPT_END, prompt_end_col: col, ..self }
    }

    pub open spec fn prompt_end_of(self) -> Option<u16> {
        if self.has(RowMark::PROMPT_END) {
            Some(self.prompt_end_col)
        } else {
            None
        }
    }

    pub open spec fn with_exit(self, exit: Option<i32>) -> RowMark {
        match exit {
            Some(code) => RowMark {
                flags: self.flags | RowMark::HAS_EXIT,
                exit_code: code,
                ..self
            },
            None => RowMark { flags: self.flags & !RowMark::HAS_EXIT, exit_code: 0, ..self },
        }
    }

    pub open spec fn exit_of(self) -> Option<i32> {
        if self.has(RowMark::HAS_EXIT) {
            Some(self.exit_code)
        } else {
            None
        }
    }

    pub open spec fn with_folded(self, folded: bool) -> RowMark {
        if folded {
            RowMark { flags: self.flags | RowMark::FOLDED, ..self }
        } else {
            RowMark { flags: self.flags & !RowMark::FOLDED, ..self }
        }
    }

    pub open spec fn with_duration(self, duration: Option<u32>) -> RowMark {
        match duration {
            Some(ms) => RowMark {
                flags: self.flags | RowMark::HAS_DURATION,
                duration_ms: ms,
                ..self
            },
            None => RowMark {
                flags: self.flags & !RowMark::HAS_DURATION,
                duration_ms: 0,
                ..self
            },
        }
    }

    pub open spec fn duration_of(self) -> Option<u32> {
        if self.has(RowMark::HAS_DURATION) {
            Some(self.duration_ms)
        } else {
            None
        }
    }

    /// The two marks joined: all flags, and of two payloads the one of `other`.
    pub open spec fn merged(self, other: RowMark) -> RowMark {
        RowMark {
            flags: self.flags | other.flags,
            prompt_end_col: if other.has(RowMark::PROMPT_END) {
                other.prompt_end_col
            } else {
                self.prompt_end_col
            },
            exit_code: if other.has(RowMark::HAS_EXIT) {
                other.exit_code
            } else {
                self.exit_code
            },
            duration_ms: if other.has(RowMark::HAS_DURATION) {
                other.duration_ms
            } else {
                self.duration_ms
            },
        }
    }

    /// Sets a flag. Setting it again changes nothing: shells redraw their prompts.
    pub fn set(&mut self, flag: u8)
        ensures
            *final(self) == old(self).with_flag(flag),
    {
        self.flags = self.flags | flag;
    }

    /// True if the flag is set.
    pub fn contains(self, flag: u8) -> (r: bool)
        ensures
            r == self.has(flag),
    {
        self.flags & flag != 0
    }

    /// Records the column at which the prompt ends.
    pub fn set_prompt_end(&mut self, col: u16)
        ensures
            *final(self) == old(self).with_prompt_end(col),
    {
        self.flags = self.flags | RowMark::PROMPT_END;
        self.prompt_end_col = col;
    }

    /// The column at which the prompt ends, if recorded.
    pub fn prompt_end_col(self) -> (col: Option<u16>)
        ensures
            col == self.prompt_end_of(),
    {
        if self.flags & RowMark::PROMPT_END != 0 {
            Some(self.prompt_end_col)
        } else {
            None
        }
    }

    /// Records an exit code, or removes it.
    pub fn set_exit(&mut self, exit: Option<i32>)
        ensures
            *final(self) == old(self).with_exit(exit),
    {
        match exit {
            Some(code) => {
                self.flags = self.flags | RowMark::HAS_EXIT;
                self.exit_code = code;
            },
            None => {
                self.flags = self.flags & !RowMark::HAS_EXIT;
                self.exit_code = 0;
            },
        }
    }

    /// The exit code, if recorded.
    pub fn exit(self) -> (exit: Option<i32>)
        ensures
            exit == self.exit_of(),
    {
        if self.flags & RowMark::HAS_EXIT != 0 {
            Some(self.exit_code)
        } else {
            None
        }
    }

    /// True if the row carries no annotation.
    pub fn is_empty(self) -> (r: bool)
        ensures
            r == (self.flags == 0),
            self.wf() ==> r == (self == RowMark::none()),
    {
        proof {
            assert(0u8 & 8u8 == 0 && 0u8 & 32u8 == 0 && 0u8 & 128u8 == 0) by (bit_vector);
        }
        self.flags == 0
    }

    /// Folds or unfolds the block that starts on this row.
    pub fn set_folded(&mut self, folded: bool)
        ensures
            *final(self) == old(self).with_folded(folded),
    {
        if folded {
            self.flags = self.flags | RowMark::FOLDED;
        } else {
            self.flags = self.flags & !RowMark::FOLDED;
        }
    }

    /// True if the block that starts on this row is folded.
    pub fn is_folded(self) -> (r: bool)
        ensures
            r == self.has(RowMark::FOLDED),
    {
        self.flags & RowMark::FOLDED != 0
    }

    /// Records the duration of a block in milliseconds, or removes it.
    pub fn set_duration(&mut self, dur: Option<u32>)
        ensures
            *final(self) == old(self).with_duration(dur),
    {
        match dur {
            Some(ms) => {
                self.flags = self.flags | RowMark::HAS_DURATION;
                self.duration_ms = ms;
            },
            None => {
                self.flags = self.flags & !RowMark::HAS_DURATION;
                self.duration_ms = 0;
            },
        }
    }

    /// The duration of the block in milliseconds, if recorded.
    pub fn duration_ms(self) -> (dur: Option<u32>)
        ensures
            dur == self.duration_of(),
    {
        if self.flags & RowMark::HAS_DURATION != 0 {
            Some(self.duration_ms)
        } else {
            None
        }
    }

    /// Joins the mark of another row into this one. Reflow calls this from the
    /// first row of a logical line to the last, so that a later mark wins.
    pub fn merge(&mut self, other: RowMark)
        ensures
            *final(self) == old(self).merged(other),
    {
        self.flags = self.flags | other.flags;
        if other.flags & RowMark::HAS_EXIT != 0 {
            self.exit_code = other.exit_code;
        }
        if other.flags & RowMark::PROMPT_END != 0 {
            self.prompt_end_col = other.prompt_end_col;
        }
        if other.flags & RowMark::HAS_DURATION != 0 {
            self.duration_ms = other.duration_ms;
        }
    }
}

impl Default for RowMark {
    fn default() -> (m: RowMark)
        ensures
            m == RowMark::none(),
    {
        RowMark { flags: 0, prompt_end_col: 0, exit_code: 0, duration_ms: 0 }
    }
}

/// Every operation on a mark keeps absent payloads at 0.
pub proof fn marks_stay_normal(
    m: RowMark,
    other: RowMark,
    flag: u8,
    col: u16,
    exit: Option<i32>,
    folded: bool,
    dur: Option<u32>,
)
    requires
        m.wf(),
        other.wf(),
    ensures
        RowMark::none().wf(),
        m.with_flag(flag).wf(),
        m.with_prompt_end(col).wf(),
        m.with_exit(exit).wf(),
        m.with_folded(folded).wf(),
        m.with_duration(dur).wf(),
        m.merged(other).wf(),
{
    let f: u8 = m.flags;
    let g: u8 = other.flags;
    assert(0u8 & 8u8 == 0 && 0u8 & 32u8 == 0 && 0u8 & 128u8 == 0) by (bit_vector);
    assert(forall|x: u8, y: u8, b: u8| #[trigger]
        ((x | y) & b) == 0 ==> x & b == 0 && y & b == 0) by (bit_vector);
    assert((f | 8) & 8 != 0 && (f | 128) & 128 != 0 && (f | 32) & 32 != 0) by (bit_vector);
    assert((f & !128u8) & 8 == f & 8 && (f & !128u8) & 32 == f & 32 && (f & !32u8) & 8 == f & 8
        && (f & !32u8) & 128 == f & 128 && (f & !16u8) & 8 == f & 8 && (f & !16u8) & 32 == f & 32
        && (f & !16u8) & 128 == f & 128) by (bit_vector);
}

/// What is recorded can be read back, and removing it restores an unmarked state:
/// the flags of a mark, its column, exit code, fold and duration.
pub proof fn marks_read_back(m: RowMark, flag: u8, col: u16, exit: Option<i32>, dur: Option<u32>)
    requires
        flag != 0,
    ensures
        m.with_flag(flag).has(flag),
        m.with_flag(flag).with_flag(flag) == m.with_flag(flag),
        m.with_prompt_end(col).prompt_end_of() == Some(col),
        m.with_exit(exit).exit_of() == exit,
        m.with_duration(dur).duration_of() == dur,
        m.with_folded(true).has(RowMark::FOLDED),
        !m.with_folded(false).has(RowMark::FOLDED),
        RowMark::none().with_exit(exit).with_exit(None) == RowMark::none(),
        RowMark::none().with_duration(dur).with_duration(None) == RowMark::none(),
        RowMark::none().with_folded(true).with_folded(false) == RowMark::none(),
{
    let f: u8 = m.flags;
    assert((f | flag) & flag != 0 && (f | flag) | flag == f | flag) by (bit_vector)
        requires
            flag != 0,
    ;
    assert((f | 8) & 8 != 0 && (f | 128) & 128 != 0 && (f & !128u8) & 128 == 0 && (f | 32) & 32
        != 0 && (f & !32u8) & 32 == 0 && (f | 16) & 16 != 0 && (f & !16u8) & 16 == 0)
        by (bit_vector);
    assert((0u8 | 128u8) & !128u8 == 0 && (0u8 & !128u8) & !128u8 == 0 && (0u8 | 32u8) & !32u8 == 0
        && (0u8 & !32u8) & !32u8 == 0 && (0u8 | 16u8) & !16u8 == 0) by (bit_vector);
}

proof fn flags_apart(x: u8, a: u8, b: u8)
    requires
        a & b == 0,
    ensures
        (x | a) & b == x & b,
        (x & !a) & b == x & b,
{
    assert((x | a) & b == x & b && (x & !a) & b == x & b) by (bit_vector)
        requires
            a & b == 0,
    ;
}

/// The parts of a mark do not disturb each other: recording or removing an exit
/// code, a duration or a fold keeps every flag of shell integration and the other
/// payloads.
pub proof fn marks_are_independent(
    m: RowMark,
    flag: u8,
    exit: Option<i32>,
    dur: Option<u32>,
    folded: bool,
)
    requires
        flag == RowMark::PROMPT_START || flag == RowMark::OUTPUT_START || flag == RowMark::BLOCK_END
            || flag == RowMark::PROMPT_END,
    ensures
        m.with_exit(exit).has(flag) == m.has(flag),
        m.with_duration(dur).has(flag) == m.has(flag),
        m.with_folded(folded).has(flag) == m.has(flag),
        m.with_exit(exit).duration_of() == m.duration_of(),
        m.with_exit(exit).prompt_end_of() == m.prompt_end_of(),
        m.with_exit(exit).has(RowMark::FOLDED) == m.has(RowMark::FOLDED),
        m.with_duration(dur).exit_of() == m.exit_of(),
        m.with_duration(dur).prompt_end_of() == m.prompt_end_of(),
        m.with_duration(dur).has(RowMark::FOLDED) == m.has(RowMark::FOLDED),
        m.with_folded(folded).exit_of() == m.exit_of(),
        m.with_folded(folded).prompt_end_of() == m.prompt_end_of(),
        m.with_folded(folded).duration_of() == m.duration_of(),
{
    let f: u8 = m.flags;
    assert((flag == 1 || flag == 2 || flag == 4 || flag == 8) ==> 128u8 & flag == 0 && 32u8 & flag
        == 0 && 16u8 & flag == 0) by (bit_vector);
    assert(128u8 & 8 == 0 && 128u8 & 16 == 0 && 128u8 & 32 == 0 && 32u8 & 8 == 0 && 32u8 & 16 == 0
        && 32u8 & 128 == 0 && 16u8 & 8 == 0 && 16u8 & 128 == 0 && 16u8 & 32 == 0) by (bit_vector);
    flags_apart(f, 128, flag);
    flags_apart(f, 32, flag);
    flags_apart(f, 16, flag);
    flags_apart(f, 128, 8);
    flags_apart(f, 128, 16);
    flags_apart(f, 128, 32);
    flags_apart(f, 32, 8);
    flags_apart(f, 32, 16);
    flags_apart(f, 32, 128);
    flags_apart(f, 16, 8);
    flags_apart(f, 16, 32);
    flags_apart(f, 16, 128);
}

/// Joining marks keeps the flags of both; the payload of the later mark wins, and
/// the earlier payload stays where the later mark has none.
pub proof fn merge_keeps_flags_and_prefers_the_later(a: RowMark, b: RowMark, flag: u8)
    ensures
        a.merged(b).has(flag) == (a.has(flag) || b.has(flag)),
        a.merged(b).exit_of() == (if b.exit_of() is Some {
            b.exit_of()
        } else {
            a.exit_of()
        }),
        a.merged(b).prompt_end_of() == (if b.prompt_end_of() is Some {
            b.prompt_end_of()
        } else {
            a.prompt_end_of()
        }),
        a.merged(b).duration_of() == (if b.duration_of() is Some {
            b.duration_of()
        } else {
            a.duration_of()
        }),
{
    assert(forall|x: u8, y: u8, m: u8| #[trigger] ((x | y) & m) == (x & m) | (y & m))
        by (bit_vector);
    assert(forall|x: u8, y: u8| #[trigger] (x | y) == 0 <==> x == 0 && y == 0) by (bit_vector);
}

/// Joining marks is associative, so the mark of a line does not depend on how its
/// rows are grouped.
pub proof fn merge_is_associative(a: RowMark, b: RowMark, c: RowMark)
    ensures
        a.merged(b).merged(c) == a.merged(b.merged(c)),
{
    let (x, y, z): (u8, u8, u8) = (a.flags, b.flags, c.flags);
    assert((x | y) | z == x | (y | z)) by (bit_vector);
    merge_keeps_flags_and_prefers_the_later(b, c, RowMark::HAS_EXIT);
    merge_keeps_flags_and_prefers_the_later(b, c, RowMark::PROMPT_END);
    merge_keeps_flags_and_prefers_the_later(b, c, RowMark::HAS_DURATION);
}

} // verus!
