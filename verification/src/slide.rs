//! Arrangement slots of the Slide (pitch glide) feature: roles, slots and
//! the trigger and curve settings.

use vstd::prelude::*;

verus! {

/// Number of slide roles.
pub const SLIDE_ROLE_COUNT: usize = 4;

/// Voices per role.
pub const SLIDE_VOICES_PER_ROLE: usize = 8;

/// Total number of slide voices (roles x voices per role).
pub const MAX_SLIDE_VOICES: usize = 32;

/// The role a sliding voice plays in the arrangement.
#[derive(Clone, Copy, Debug, PartialEq, Eq, Structural)]
pub enum SlideRole {
    Input,
    Harmony,
    Canon,
    Counterpoint,
}

impl Default for SlideRole {
    /// The input voice.
    fn default() -> (r: Self)
        ensures
            r == SlideRole::Input,
    {
        SlideRole::Input
    }
}

impl SlideRole {
    /// Position of the role: input 0, harmony 1, canon 2, counterpoint 3.
    pub open spec fn spec_index(self) -> usize {
        match self {
            SlideRole::Input => 0,
            SlideRole::Harmony => 1,
            SlideRole::Canon => 2,
            SlideRole::Counterpoint => 3,
        }
    }

    /// All roles in order.
    pub fn all() -> (r: [SlideRole; 4])
        ensures
            r@ == seq![SlideRole::Input, SlideRole::Harmony, SlideRole::Canon, SlideRole::Counterpoint],
    {
        let r = [SlideRole::Input, SlideRole::Harmony, SlideRole::Canon, SlideRole::Counterpoint];
        assert(r@ =~= seq![SlideRole::Input, SlideRole::Harmony, SlideRole::Canon, SlideRole::Counterpoint]);
        r
    }

    /// Position of the role (0-3).
    pub fn index(self) -> (r: usize)
        ensures
            r == self.spec_index(),
            r < SLIDE_ROLE_COUNT,
    {
        match self {
            SlideRole::Input => 0,
            SlideRole::Harmony => 1,
            SlideRole::Canon => 2,
            SlideRole::Counterpoint => 3,
        }
    }
}

/// A stable arrangement slot: a role and a voice within it.
#[derive(Clone, Copy, Debug, PartialEq, Eq, Structural)]
pub struct SlideSlot {
    pub role: SlideRole,
    pub voice: u8,
}

impl Default for SlideSlot {
    /// Input voice 0.
    fn default() -> (r: Self)
        ensures
            r == (SlideSlot { role: SlideRole::Input, voice: 0 }),
    {
        SlideSlot { role: SlideRole::Input, voice: 0 }
    }
}

impl SlideSlot {
    /// The slot of `voice` in `role`.
    pub fn new(role: SlideRole, voice: u8) -> (r: Self)
        ensures
            r == (SlideSlot { role, voice }),
    {
        SlideSlot { role, voice }
    }

    /// Flat index of the slot among all slide voices, or `None` when the
    /// voice is beyond the voices of a role.
    pub fn index(self) -> (r: Option<usize>)
        ensures
            r == if self.voice >= SLIDE_VOICES_PER_ROLE {
                None
            } else {
                Some((self.role.spec_index() * SLIDE_VOICES_PER_ROLE + self.voice) as usize)
            },
            r matches Some(i) ==> i < MAX_SLIDE_VOICES,
    {
        if self.voice as usize >= SLIDE_VOICES_PER_ROLE {
            None
        } else {
            Some(self.role.index() * SLIDE_VOICES_PER_ROLE + self.voice as usize)
        }
    }
}

/// When a slide happens.
#[derive(Clone, Copy, Debug, PartialEq, Eq, Structural)]
pub enum SlideTrigger {
    /// Only between overlapping notes.
    Legato,
    /// From the slot's previous pitch on every note.
    Always,
}

impl Default for SlideTrigger {
    /// Legato.
    fn default() -> (r: Self)
        ensures
            r == SlideTrigger::Legato,
    {
        SlideTrigger::Legato
    }
}

/// Shape of the pitch glide.
#[derive(Clone, Copy, Debug, PartialEq, Eq, Structural)]
pub enum SlideCurve {
    Linear,
    Exponential,
    InverseExponential,
}

impl Default for SlideCurve {
    /// Linear.
    fn default() -> (r: Self)
        ensures
            r == SlideCurve::Linear,
    {
        SlideCurve::Linear
    }
}

} // verus!
