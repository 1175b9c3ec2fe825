use vstd::prelude::*;

verus! {

/// Entry sits in the workshop folder.
pub const WORKSHOP: u32 = 1;
/// Addon is a campaign.
pub const CAMPAIGN: u32 = 2;
/// Changes a survivor.
pub const SURVIVOR: u32 = 4;
/// Changes or adds a script.
pub const SCRIPT: u32 = 8;
/// Includes a texture change.
pub const SKIN: u32 = 16;
/// Weapon change.
pub const WEAPON: u32 = 32;
/// Audio, music or sound.
pub const SOUND: u32 = 64;

/// Content categories that the package parser reports for an addon.
#[derive(Clone, Copy, Debug, PartialEq, Eq, Structural)]
pub struct AddonContent {
    pub is_campaign: bool,
    pub is_map: bool,
    pub is_skin: bool,
    pub is_weapon: bool,
    pub is_boss_infected: bool,
    pub is_common_infected: bool,
    pub is_survivor: bool,
    pub is_sound: bool,
    pub is_music: bool,
    pub is_script: bool,
    pub is_prop: bool,
}

/// A bit set of addon properties.
#[derive(Clone, Copy, Debug, PartialEq, Eq, Structural)]
pub struct AddonFlags(pub u32);

/// The bits that an addon's content categories set.
pub open spec fn content_bits(c: AddonContent) -> u32 {
    (if c.is_map { CAMPAIGN } else { 0u32 }) | (if c.is_survivor { SURVIVOR } else { 0u32 }) | (
    if c.is_script { SCRIPT } else { 0u32 }) | (if c.is_weapon { WEAPON } else { 0u32 }) | (if c.is_sound
        || c.is_music { SOUND } else { 0u32 })
}

pub open spec fn has_bit(bits: u32, bit: u32) -> bool {
    bits & bit == bit
}

impl AddonFlags {
    pub fn empty() -> (r: AddonFlags)
        ensures
            r.0 == 0,
    {
        AddonFlags(0)
    }

    pub fn bits(&self) -> (r: u32)
        ensures
            r == self.0,
    {
        self.0
    }

    /// Whether every bit of `other` is set.
    pub fn contains(&self, other: u32) -> (r: bool)
        ensures
            r == has_bit(self.0, other),
    {
        self.0 & other == other
    }

    /// The flags with the bits of `other` added.
    pub fn union(&self, other: u32) -> (r: AddonFlags)
        ensures
            r.0 == self.0 | other,
    {
        AddonFlags(self.0 | other)
    }

    /// The flags with the bits of `other` taken out.
    pub fn difference(&self, other: u32) -> (r: AddonFlags)
        ensures
            r.0 == self.0 & !other,
    {
        AddonFlags(self.0 & !other)
    }

    /// Flags for an addon from the content categories of its package.
    /// Maps and survivors, scripts, weapons, and sound or music set a bit each.
    pub fn from_content(c: &AddonContent) -> (r: AddonFlags)
        ensures
            r.0 == content_bits(*c),
    {
        let campaign: u32 = if c.is_map { CAMPAIGN } else { 0 };
        let survivor: u32 = if c.is_survivor { SURVIVOR } else { 0 };
        let script: u32 = if c.is_script { SCRIPT } else { 0 };
        let weapon: u32 = if c.is_weapon { WEAPON } else { 0 };
        let sound: u32 = if c.is_sound || c.is_music { SOUND } else { 0 };
        AddonFlags(campaign | survivor | script | weapon | sound)
    }
}

impl From<u32> for AddonFlags {
    fn from(bits: u32) -> (r: AddonFlags) {
        AddonFlags(bits)
    }
}

impl vstd::std_specs::convert::FromSpecImpl<u32> for AddonFlags {
    open spec fn obeys_from_spec() -> bool {
        true
    }

    open spec fn from_spec(v: u32) -> AddonFlags {
        AddonFlags(v)
    }
}

} // verus!
