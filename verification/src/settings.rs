//! The two settings of the brightness output.

use vstd::prelude::*;

verus! {

/// Whether the brightness output is inverted.
pub const DEFAULT_INVERT: bool = false;

/// What is added to the brightness output.
pub const DEFAULT_SHIFT: u8 = 0;

/// How a brightness sample is changed before it is written. The settings may
/// change between frames; one frame is processed under one copy of them.
#[derive(Clone, Copy, Debug, PartialEq, Eq, Structural)]
pub struct Settings {
    /// Replace a sample `v` by `255 - v`.
    pub invert: bool,
    /// Added to the sample after inverting, wrapping round at 256.
    pub shift: u8,
}

impl Default for Settings {
    /// Samples are written as they are: not inverted, nothing added.
    fn default() -> (settings: Settings)
        ensures
            settings == (Settings { invert: DEFAULT_INVERT, shift: DEFAULT_SHIFT }),
    {
        Settings { invert: DEFAULT_INVERT, shift: DEFAULT_SHIFT }
    }
}

impl Settings {
    /// Settings with the given values.
    pub fn new(invert: bool, shift: u8) -> (settings: Settings)
        ensures
            settings == (Settings { invert, shift }),
    {
        Settings { invert, shift }
    }

    /// Whether samples are inverted.
    pub fn invert(&self) -> (invert: bool)
        ensures
            invert == self.invert,
    {
        self.invert
    }

    /// What is added to a sample.
    pub fn shift(&self) -> (shift: u8)
        ensures
            shift == self.shift,
    {
        self.shift
    }

    /// Sets whether samples are inverted, and leaves the shift as it is.
    pub fn set_invert(&mut self, invert: bool)
        ensures
            *final(self) == (Settings { invert, shift: old(self).shift }),
    {
        self.invert = invert;
    }

    /// Sets what is added to a sample, and leaves the inversion as it is.
    pub fn set_shift(&mut self, shift: u8)
        ensures
            *final(self) == (Settings { invert: old(self).invert, shift }),
    {
        self.shift = shift;
    }

    /// The sample that is written for brightness `value`: inverted where
    /// `invert` is set, then `shift` added modulo 256.
    pub open spec fn spec_apply(&self, value: u8) -> u8 {
        let inverted: int = if self.invert { 255 - value } else { value as int };
        ((inverted + self.shift) % 256) as u8
    }

    /// The sample that is written for brightness `value`.
    #[verifier::when_used_as_spec(spec_apply)]
    pub fn apply(&self, value: u8) -> (sample: u8)
        ensures
            sample == self.spec_apply(value),
    {
        let inverted: u8 = if self.invert { 255 - value } else { value };
        inverted.wrapping_add(self.shift)
    }
}

/// What each setting does by itself. With neither, a sample is written as it
/// is. Inverting alone gives `255 - value`, and inverting that gives `value`
/// back. Shifting alone gives `value + shift` modulo 256.
pub proof fn law_settings_act_one_by_one(value: u8, shift: u8)
    ensures
        (Settings { invert: false, shift: 0 }).spec_apply(value) == value,
        (Settings { invert: true, shift: 0 }).spec_apply(value) == 255 - value,
        (Settings { invert: true, shift: 0 }).spec_apply(
            (Settings { invert: true, shift: 0 }).spec_apply(value),
        ) == value,
        (Settings { invert: false, shift }).spec_apply(value) == (value + shift) % 256,
        (Settings { invert: true, shift }).spec_apply(value) == (255 - value + shift) % 256,
{
}

} // verus!
