//! Terminal modes: a flag set of the ANSI and DEC private modes.
use vstd::prelude::*;

verus! {

/// The modes that are on. The flags are the associated constants; each is a mask
/// of one bit, and masks combine with `|`.
#[derive(Debug, Clone, Copy, PartialEq, Eq, Structural)]
pub struct Modes {
    pub bits: u64,
}

/// The flag of the DEC private mode `ps`, if a query of that mode is answered.
pub open spec fn reported_flag(ps: u16) -> Option<u64> {
    if ps == 1 {
        Some(Modes::APP_CURSOR_KEYS)
    } else if ps == 7 {
        Some(Modes::AUTOWRAP)
    } else if ps == 9 {
        Some(Modes::MOUSE_X10)
    } else if ps == 25 {
        Some(Modes::CURSOR_VISIBLE)
    } else if ps == 1000 {
        Some(Modes::MOUSE_BTN)
    } else if ps == 1002 {
        Some(Modes::MOUSE_BTN_EVENT)
    } else if ps == 1003 {
        Some(Modes::MOUSE_ANY)
    } else if ps == 1004 {
        Some(Modes::FOCUS_EVENTS)
    } else if ps == 1006 {
        Some(Modes::MOUSE_SGR)
    } else if ps == 1049 {
        Some(Modes::ALT_SCREEN)
    } else if ps == 2004 {
        Some(Modes::BRACKETED_PASTE)
    } else if ps == 2031 {
        Some(Modes::COLOR_SCHEME_UPDATES)
    } else {
        None
    }
}

impl Modes {
    /// DECAWM (7).
    pub const AUTOWRAP: u64 = 0x1;

    /// DECOM (6).
    pub const ORIGIN: u64 = 0x2;

    /// The alternate screen (1049).
    pub const ALT_SCREEN: u64 = 0x8;

    /// DECTCEM (25).
    pub const CURSOR_VISIBLE: u64 = 0x10;

    /// Bracketed paste (2004).
    pub const BRACKETED_PASTE: u64 = 0x20;

    /// Mouse presses only (9).
    pub const MOUSE_X10: u64 = 0x40;

    /// Mouse presses and releases (1000).
    pub const MOUSE_BTN: u64 = 0x80;

    /// All mouse motion (1003).
    pub const MOUSE_ANY: u64 = 0x100;

    /// The SGR encoding of mouse events (1006).
    pub const MOUSE_SGR: u64 = 0x200;

    /// DECCKM (1).
    pub const APP_CURSOR_KEYS: u64 = 0x400;

    /// DECKPAM and DECKPNM.
    pub const APP_KEYPAD: u64 = 0x800;

    /// Mouse motion while a button is held (1002).
    pub const MOUSE_BTN_EVENT: u64 = 0x1000;

    /// Focus events (1004).
    pub const FOCUS_EVENTS: u64 = 0x2000;

    /// Reports of a changed color scheme (2031).
    pub const COLOR_SCHEME_UPDATES: u64 = 0x4000;

    /// All modes by which a program asks for mouse events.
    pub const MOUSE_REPORTING_BITS: u64 = 0x13c0;

    /// Whether every flag of `mask` is set.
    pub open spec fn has(self, mask: u64) -> bool {
        self.bits & mask == mask
    }

    /// The same modes with the flags of `mask` set.
    pub open spec fn with(self, mask: u64) -> Modes {
        Modes { bits: self.bits | mask }
    }

    /// The same modes with the flags of `mask` cleared.
    pub open spec fn without(self, mask: u64) -> Modes {
        Modes { bits: self.bits & !mask }
    }

    /// The same modes with the flags of `mask` set or cleared.
    pub open spec fn switched(self, mask: u64, on: bool) -> Modes {
        if on {
            self.with(mask)
        } else {
            self.without(mask)
        }
    }

    /// The modes at power-on: autowrap, and a visible cursor.
    pub open spec fn initial() -> Modes {
        Modes { bits: Modes::AUTOWRAP | Modes::CURSOR_VISIBLE }
    }

    /// Exactly the flags of `mask`.
    pub fn from_bits(mask: u64) -> (m: Modes)
        ensures
            m.bits == mask,
    {
        Modes { bits: mask }
    }

    /// True if every flag of `mask` is set.
    pub fn contains(self, mask: u64) -> (r: bool)
        ensures
            r == self.has(mask),
    {
        self.bits & mask == mask
    }

    /// Sets the flags of `mask`.
    pub fn insert(&mut self, mask: u64)
        ensures
            *final(self) == old(self).with(mask),
    {
        self.bits = self.bits | mask;
    }

    /// Clears the flags of `mask`.
    pub fn remove(&mut self, mask: u64)
        ensures
            *final(self) == old(self).without(mask),
    {
        self.bits = self.bits & !mask;
    }

    /// True if a program asks for mouse events in any form.
    pub fn any_mouse_mode_active(self) -> (r: bool)
        ensures
            r == (self.has(Modes::MOUSE_X10) || self.has(Modes::MOUSE_BTN) || self.has(
                Modes::MOUSE_BTN_EVENT,
            ) || self.has(Modes::MOUSE_ANY) || self.has(Modes::MOUSE_SGR)),
    {
        proof {
            let b: u64 = self.bits;
            assert((b & 0x13c0 != 0) == (b & 0x40 == 0x40 || b & 0x80 == 0x80 || b & 0x1000
                == 0x1000 || b & 0x100 == 0x100 || b & 0x200 == 0x200)) by (bit_vector);
        }
        self.bits & Modes::MOUSE_REPORTING_BITS != 0
    }

    /// The state that DECRQM reports of the private mode `ps`: 1 for set, 2 for
    /// reset, 0 for a mode that is not recognized.
    pub fn decrqm_state(self, ps: u16) -> (state: u8)
        ensures
            state == (match reported_flag(ps) {
                Some(flag) => if self.has(flag) {
                    1u8
                } else {
                    2u8
                },
                None => 0u8,
            }),
    {
        let flag: u64 = match ps {
            1 => Modes::APP_CURSOR_KEYS,
            7 => Modes::AUTOWRAP,
            25 => Modes::CURSOR_VISIBLE,
            9 => Modes::MOUSE_X10,
            1000 => Modes::MOUSE_BTN,
            1002 => Modes::MOUSE_BTN_EVENT,
            1003 => Modes::MOUSE_ANY,
            1006 => Modes::MOUSE_SGR,
            1004 => Modes::FOCUS_EVENTS,
            1049 => Modes::ALT_SCREEN,
            2004 => Modes::BRACKETED_PASTE,
            2031 => Modes::COLOR_SCHEME_UPDATES,
            _ => {
                return 0;
            },
        };
        if self.contains(flag) {
            1
        } else {
            2
        }
    }
}

impl Default for Modes {
    fn default() -> (m: Modes)
        ensures
            m == Modes::initial(),
    {
        Modes { bits: Modes::AUTOWRAP | Modes::CURSOR_VISIBLE }
    }
}

/// Switching a mode on or off is seen by every later query of it, and by a query of
/// no other mode.
pub proof fn switching_one_mode_keeps_the_others(m: Modes, flag: u64, other: u64, on: bool)
    requires
        flag != 0,
        flag & other == 0,
    ensures
        m.switched(flag, on).has(flag) == on,
        m.switched(flag, on).has(other) == m.has(other),
{
    let b: u64 = m.bits;
    assert((b | flag) & flag == flag && (b & !flag) & flag != flag && (b | flag) & other == b
        & other && (b & !flag) & other == b & other) by (bit_vector)
        requires
            flag != 0,
            flag & other == 0,
    ;
}

} // verus!
