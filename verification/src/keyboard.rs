//! What a program negotiated about the keyboard: the level of modifyOtherKeys, and
//! the flags of the Kitty protocol, with one stack per screen buffer.
use vstd::prelude::*;

verus! {

/// The depth of a flag stack. A push beyond it drops the oldest entry.
pub const KITTY_STACK_CAP: usize = 32;

/// The flags of one screen buffer, and the flags that they replaced.
#[derive(Debug, Clone, PartialEq, Eq)]
struct KittyStack {
    current: u8,
    stack: Vec<u8>,
}

/// The contents of a flag stack; the last entry is the most recent.
#[verifier::ext_equal]
pub ghost struct KittyView {
    pub current: u8,
    pub stack: Seq<u8>,
}

/// The negotiated keyboard state.
#[verifier::ext_equal]
pub ghost struct KeyboardView {
    pub modify_other_keys: u8,
    pub kitty_main: KittyView,
    pub kitty_alt: KittyView,
}

impl KittyView {
    /// No flags, and nothing to go back to.
    pub open spec fn cleared() -> KittyView {
        KittyView { current: 0, stack: Seq::empty() }
    }

    /// The flags changed in place: mode 2 adds `flags`, mode 3 removes them, and any
    /// other mode sets exactly these.
    pub open spec fn set(self, flags: u8, mode: u8) -> KittyView {
        KittyView {
            current: if mode == 2 {
                self.current | flags
            } else if mode == 3 {
                self.current & !flags
            } else {
                flags
            },
            ..self
        }
    }

    /// The current flags put on the stack and replaced; the oldest entry is dropped
    /// from a stack that grows too deep.
    pub open spec fn pushed(self, flags: u8) -> KittyView {
        let grown = self.stack.push(self.current);
        KittyView {
            current: flags,
            stack: if grown.len() > KITTY_STACK_CAP {
                grown.skip(1)
            } else {
                grown
            },
        }
    }

    /// The flags of `n` pushes ago (at least one), or none if the stack is not that
    /// deep.
    pub open spec fn popped(self, n: u16) -> KittyView {
        let k = if n == 0 {
            1
        } else {
            n as int
        };
        if k <= self.stack.len() {
            KittyView {
                current: self.stack[self.stack.len() - k],
                stack: self.stack.take(self.stack.len() - k),
            }
        } else {
            KittyView::cleared()
        }
    }
}

impl KeyboardView {
    /// Nothing negotiated.
    pub open spec fn initial() -> KeyboardView {
        KeyboardView {
            modify_other_keys: 0,
            kitty_main: KittyView::cleared(),
            kitty_alt: KittyView::cleared(),
        }
    }

    /// The flag stack of a screen buffer.
    pub open spec fn kitty(self, alt_screen: bool) -> KittyView {
        if alt_screen {
            self.kitty_alt
        } else {
            self.kitty_main
        }
    }

    /// The state with the flag stack of one screen buffer replaced.
    pub open spec fn with_kitty(self, alt_screen: bool, k: KittyView) -> KeyboardView {
        if alt_screen {
            KeyboardView { kitty_alt: k, ..self }
        } else {
            KeyboardView { kitty_main: k, ..self }
        }
    }

    /// The state with another level of modifyOtherKeys; a level above 2 is ignored.
    pub open spec fn with_level(self, level: u16) -> KeyboardView {
        if level <= 2 {
            KeyboardView { modify_other_keys: level as u8, ..self }
        } else {
            self
        }
    }

    /// The level of modifyOtherKeys is one that there is, and no stack is deeper than
    /// its cap.
    pub open spec fn wf(self) -> bool {
        &&& self.modify_other_keys <= 2
        &&& self.kitty_main.stack.len() <= KITTY_STACK_CAP
        &&& self.kitty_alt.stack.len() <= KITTY_STACK_CAP
    }
}

impl View for KittyStack {
    type V = KittyView;

    closed spec fn view(&self) -> KittyView {
        KittyView { current: self.current, stack: self.stack@ }
    }
}

impl KittyStack {
    fn new() -> (k: KittyStack)
        ensures
            k@ == KittyView::cleared(),
    {
        KittyStack { current: 0, stack: Vec::new() }
    }

    fn set(&mut self, flags: u8, mode: u8)
        ensures
            final(self)@ == old(self)@.set(flags, mode),
    {
        match mode {
            2 => {
                self.current = self.current | flags;
            },
            3 => {
                self.current = self.current & !flags;
            },
            _ => {
                self.current = flags;
            },
        }
    }

    fn push(&mut self, flags: u8)
        ensures
            final(self)@ == old(self)@.pushed(flags),
    {
        let ghost grown = self@.stack.push(self.current);
        self.stack.push(self.current);
        if self.stack.len() > KITTY_STACK_CAP {
            let oldest: u8 = self.stack.remove(0);
            assert(self.stack@ =~= grown.skip(1));
        }
        self.current = flags;
    }

    fn pop(&mut self, n: u16)
        ensures
            final(self)@ == old(self)@.popped(n),
    {
        let count: u16 = if n == 0 {
            1
        } else {
            n
        };
        let ghost before = self@;
        let mut i: u16 = 0;
        while i < count
            invariant
                i <= count,
                count == (if n == 0 {
                    1
                } else {
                    n as int
                }),
                i <= before.stack.len(),
                self@.stack =~= before.stack.take(before.stack.len() - i),
                self@.current == (if i == 0 {
                    before.current
                } else {
                    before.stack[before.stack.len() - i]
                }),
                before == old(self)@,
            decreases count - i,
        {
            match self.stack.pop() {
                Some(prev) => {
                    self.current = prev;
                },
                None => {
                    self.current = 0;
                    assert(self@ == before.popped(n));
                    return;
                },
            }
            i += 1;
        }
        assert(self@ =~= before.popped(n));
    }
}

/// The negotiated keyboard state of one terminal.
#[derive(Debug, Clone, PartialEq, Eq)]
pub struct KeyboardState {
    modify_other_keys: u8,
    kitty_main: KittyStack,
    kitty_alt: KittyStack,
}

impl View for KeyboardState {
    type V = KeyboardView;

    closed spec fn view(&self) -> KeyboardView {
        KeyboardView {
            modify_other_keys: self.modify_other_keys,
            kitty_main: self.kitty_main@,
            kitty_alt: self.kitty_alt@,
        }
    }
}

impl KeyboardState {
    /// Sets the level of modifyOtherKeys (0 to 2; others are ignored).
    pub fn set_modify_other_keys(&mut self, level: u16)
        ensures
            final(self)@ == old(self)@.with_level(level),
            old(self)@.wf() ==> final(self)@.wf(),
    {
        if level <= 2 {
            self.modify_other_keys = level as u8;
        }
    }

    /// Sets the level of modifyOtherKeys back to 0.
    pub fn reset_modify_other_keys(&mut self)
        ensures
            final(self)@ == old(self)@.with_level(0),
            old(self)@.wf() ==> final(self)@.wf(),
    {
        self.modify_other_keys = 0;
    }

    /// The level of modifyOtherKeys.
    pub fn modify_other_keys(&self) -> (level: u8)
        ensures
            level == self@.modify_other_keys,
            self@.wf() ==> level <= 2,
    {
        self.modify_other_keys
    }

    /// Changes the Kitty flags of a screen buffer in place.
    pub fn kitty_set(&mut self, alt_screen: bool, flags: u8, mode: u8)
        ensures
            final(self)@ == old(self)@.with_kitty(
                alt_screen,
                old(self)@.kitty(alt_screen).set(flags, mode),
            ),
            old(self)@.wf() ==> final(self)@.wf(),
    {
        if alt_screen {
            self.kitty_alt.set(flags, mode);
        } else {
            self.kitty_main.set(flags, mode);
        }
    }

    /// Saves the Kitty flags of a screen buffer and replaces them.
    pub fn kitty_push(&mut self, alt_screen: bool, flags: u8)
        ensures
            final(self)@ == old(self)@.with_kitty(
                alt_screen,
                old(self)@.kitty(alt_screen).pushed(flags),
            ),
            old(self)@.wf() ==> final(self)@.wf(),
    {
        if alt_screen {
            self.kitty_alt.push(flags);
        } else {
            self.kitty_main.push(flags);
        }
    }

    /// Goes back `n` saved flags of a screen buffer (at least one).
    pub fn kitty_pop(&mut self, alt_screen: bool, n: u16)
        ensures
            final(self)@ == old(self)@.with_kitty(
                alt_screen,
                old(self)@.kitty(alt_screen).popped(n),
            ),
            old(self)@.wf() ==> final(self)@.wf(),
    {
        if alt_screen {
            self.kitty_alt.pop(n);
        } else {
            self.kitty_main.pop(n);
        }
    }

    /// The Kitty flags of a screen buffer.
    pub fn kitty_flags(&self, alt_screen: bool) -> (flags: u8)
        ensures
            flags == self@.kitty(alt_screen).current,
    {
        if alt_screen {
            self.kitty_alt.current
        } else {
            self.kitty_main.current
        }
    }

    /// Forgets everything that was negotiated.
    pub fn reset(&mut self)
        ensures
            final(self)@ == KeyboardView::initial(),
            final(self)@.wf(),
    {
        self.modify_other_keys = 0;
        self.kitty_main = KittyStack::new();
        self.kitty_alt = KittyStack::new();
    }
}

impl Default for KeyboardState {
    fn default() -> (k: KeyboardState)
        ensures
            k@ == KeyboardView::initial(),
            k@.wf(),
    {
        KeyboardState {
            modify_other_keys: 0,
            kitty_main: KittyStack::new(),
            kitty_alt: KittyStack::new(),
        }
    }
}

/// A pop takes back the push before it. All saved flags are as they were, unless
/// the push dropped the oldest of a full stack.
pub proof fn pop_takes_back_a_push(k: KittyView, flags: u8)
    requires
        k.stack.len() <= KITTY_STACK_CAP,
    ensures
        k.pushed(flags).current == flags,
        k.pushed(flags).popped(1).current == k.current,
        k.stack.len() < KITTY_STACK_CAP ==> k.pushed(flags).popped(1) == k,
        k.stack.len() == KITTY_STACK_CAP ==> k.pushed(flags).popped(1).stack == k.stack.skip(1),
{
    if k.stack.len() < KITTY_STACK_CAP {
        assert(k.pushed(flags).popped(1).stack =~= k.stack);
    } else {
        assert(k.pushed(flags).popped(1).stack =~= k.stack.skip(1));
    }
}

/// The two screen buffers negotiate independently, and no stack grows beyond its
/// cap.
pub proof fn screen_buffers_are_independent(
    s: KeyboardView,
    alt_screen: bool,
    flags: u8,
    mode: u8,
    n: u16,
)
    requires
        s.wf(),
    ensures
        s.with_kitty(alt_screen, s.kitty(alt_screen).set(flags, mode)).kitty(!alt_screen) == s.kitty(
            !alt_screen,
        ),
        s.with_kitty(alt_screen, s.kitty(alt_screen).pushed(flags)).kitty(!alt_screen) == s.kitty(
            !alt_screen,
        ),
        s.with_kitty(alt_screen, s.kitty(alt_screen).popped(n)).kitty(!alt_screen) == s.kitty(
            !alt_screen,
        ),
        s.with_kitty(alt_screen, s.kitty(alt_screen).set(flags, mode)).wf(),
        s.with_kitty(alt_screen, s.kitty(alt_screen).pushed(flags)).wf(),
        s.with_kitty(alt_screen, s.kitty(alt_screen).popped(n)).wf(),
{
}

} // verus!
