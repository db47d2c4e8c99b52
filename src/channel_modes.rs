use vstd::prelude::*;

verus! {

/// Which of the eight channel mode flags are currently switched on.
#[derive(Debug, Clone, Copy, PartialEq, Eq, Structural)]
pub struct ChannelModes {
    pub p: bool,
    pub s: bool,
    pub i: bool,
    pub t: bool,
    pub n: bool,
    pub m: bool,
    pub l: bool,
    pub k: bool,
}

/// True for the eight letters that name a mode flag.
pub open spec fn is_flag_letter(c: char) -> bool {
    c == 'p' || c == 's' || c == 'i' || c == 't' || c == 'n' || c == 'm' || c == 'l' || c == 'k'
}

impl ChannelModes {
    /// All flags off.
    pub open spec fn none() -> ChannelModes {
        ChannelModes { p: false, s: false, i: false, t: false, n: false, m: false, l: false, k: false }
    }

    /// The value of the flag named by `c` (false for a letter that names no flag).
    pub open spec fn flag(self, c: char) -> bool {
        if c == 'p' { self.p }
        else if c == 's' { self.s }
        else if c == 'i' { self.i }
        else if c == 't' { self.t }
        else if c == 'n' { self.n }
        else if c == 'm' { self.m }
        else if c == 'l' { self.l }
        else if c == 'k' { self.k }
        else { false }
    }

    /// The same set with the flag named by `c` set to `v`, every other flag kept.
    pub open spec fn with_flag(self, c: char, v: bool) -> ChannelModes {
        ChannelModes {
            p: if c == 'p' { v } else { self.p },
            s: if c == 's' { v } else { self.s },
            i: if c == 'i' { v } else { self.i },
            t: if c == 't' { v } else { self.t },
            n: if c == 'n' { v } else { self.n },
            m: if c == 'm' { v } else { self.m },
            l: if c == 'l' { v } else { self.l },
            k: if c == 'k' { v } else { self.k },
        }
    }

    /// A fresh set with every flag off.
    pub fn new() -> (r: ChannelModes)
        ensures
            r == ChannelModes::none(),
    {
        ChannelModes { p: false, s: false, i: false, t: false, n: false, m: false, l: false, k: false }
    }

    /// Switches the private flag on.
    pub fn activate_p(&mut self)
        ensures
            *final(self) == old(self).with_flag('p', true),
    {
        self.p = true
    }

    /// Switches the private flag off.
    pub fn deactivate_p(&mut self)
        ensures
            *final(self) == old(self).with_flag('p', false),
    {
        self.p = false
    }

    /// Switches the secret flag on.
    pub fn activate_s(&mut self)
        ensures
            *final(self) == old(self).with_flag('s', true),
    {
        self.s = true
    }

    /// Switches the secret flag off.
    pub fn deactivate_s(&mut self)
        ensures
            *final(self) == old(self).with_flag('s', false),
    {
        self.s = false
    }

    /// Switches the invite-only flag on.
    pub fn activate_i(&mut self)
        ensures
            *final(self) == old(self).with_flag('i', true),
    {
        self.i = true
    }

    /// Switches the invite-only flag off.
    pub fn deactivate_i(&mut self)
        ensures
            *final(self) == old(self).with_flag('i', false),
    {
        self.i = false
    }

    /// Switches the operators-set-topic flag on.
    pub fn activate_t(&mut self)
        ensures
            *final(self) == old(self).with_flag('t', true),
    {
        self.t = true
    }

    /// Switches the operators-set-topic flag off.
    pub fn deactivate_t(&mut self)
        ensures
            *final(self) == old(self).with_flag('t', false),
    {
        self.t = false
    }

    /// Switches the no-outside-messages flag on.
    pub fn activate_n(&mut self)
        ensures
            *final(self) == old(self).with_flag('n', true),
    {
        self.n = true
    }

    /// Switches the no-outside-messages flag off.
    pub fn deactivate_n(&mut self)
        ensures
            *final(self) == old(self).with_flag('n', false),
    {
        self.n = false
    }

    /// Switches the moderated flag on.
    pub fn activate_m(&mut self)
        ensures
            *final(self) == old(self).with_flag('m', true),
    {
        self.m = true
    }

    /// Switches the moderated flag off.
    pub fn deactivate_m(&mut self)
        ensures
            *final(self) == old(self).with_flag('m', false),
    {
        self.m = false
    }

    /// Switches the member-limit flag on.
    pub fn activate_l(&mut self)
        ensures
            *final(self) == old(self).with_flag('l', true),
    {
        self.l = true
    }

    /// Switches the member-limit flag off.
    pub fn deactivate_l(&mut self)
        ensures
            *final(self) == old(self).with_flag('l', false),
    {
        self.l = false
    }

    /// Switches the key flag on.
    pub fn activate_k(&mut self)
        ensures
            *final(self) == old(self).with_flag('k', true),
    {
        self.k = true
    }

    /// Switches the key flag off.
    pub fn deactivate_k(&mut self)
        ensures
            *final(self) == old(self).with_flag('k', false),
    {
        self.k = false
    }
}

impl Default for ChannelModes {
    fn default() -> (r: ChannelModes)
        ensures
            r == ChannelModes::none(),
    {
        ChannelModes::new()
    }
}

/// Switching a flag on and then off again gives back the set it started from,
/// provided the flag was off to begin with.
pub proof fn lemma_activate_deactivate_restores(modes: ChannelModes, c: char)
    requires
        is_flag_letter(c),
        !modes.flag(c),
    ensures
        modes.with_flag(c, true).with_flag(c, false) == modes,
{
}

} // verus!
