use vstd::prelude::*;

verus! {

/// The brightest level a light value can take.
pub const MAX_LIGHT: u8 = 15;

/// A light level, from darkness (zero) up to `MAX_LIGHT`.
#[derive(Debug, Clone, Copy, PartialEq, Eq, Structural, Hash)]
pub struct Light {
    level: u8,
}

impl View for Light {
    type V = nat;

    open spec fn view(&self) -> nat {
        self.spec_level() as nat
    }
}

impl Light {
    /// The stored level.
    pub closed spec fn spec_level(&self) -> u8 {
        self.level
    }

    /// Every light value lies between darkness and `MAX_LIGHT`.
    pub closed spec fn wf(&self) -> bool {
        self.level <= MAX_LIGHT
    }

    /// A light of the given level.
    pub fn new(level: u8) -> (light: Light)
        requires
            level <= MAX_LIGHT,
        ensures
            light@ == level as nat,
            light.wf(),
    {
        Light { level }
    }

    /// The brightest light.
    pub fn max_light() -> (light: Light)
        ensures
            light@ == MAX_LIGHT as nat,
            light.wf(),
    {
        Light { level: MAX_LIGHT }
    }

    /// The level of this light.
    pub fn level(&self) -> (level: u8)
        ensures
            level as nat == self@,
    {
        self.level
    }

    /// A well-formed light never exceeds `MAX_LIGHT`.
    pub proof fn lemma_bounded(&self)
        requires
            self.wf(),
        ensures
            self@ <= MAX_LIGHT as nat,
    {
    }
}

} // verus!
