//! How loud the bells are.

use vstd::prelude::*;

verus! {

/// One of the three volumes at which the bells can sound.
#[derive(Copy, Clone, Debug, PartialEq, Eq, Structural)]
pub enum VolumeLevel {
    Max,
    Moderate,
    Low,
}

impl Default for VolumeLevel {
    fn default() -> (level: VolumeLevel)
        ensures
            level == VolumeLevel::Max,
    {
        VolumeLevel::Max
    }
}

impl VolumeLevel {
    /// The number under which the level is stored: 2 for the loudest, 0 for
    /// the quietest.
    pub open spec fn stored_as(self) -> int {
        match self {
            VolumeLevel::Max => 2,
            VolumeLevel::Moderate => 1,
            VolumeLevel::Low => 0,
        }
    }

    /// The level that is stored under `value`, one of 0, 1 and 2.
    pub open spec fn of_stored(value: int) -> VolumeLevel {
        if value == 2 {
            VolumeLevel::Max
        } else if value == 1 {
            VolumeLevel::Moderate
        } else {
            VolumeLevel::Low
        }
    }

    /// The level that is stored under `value`.
    pub fn from_config_value(value: usize) -> (level: VolumeLevel)
        requires
            value <= 2,
        ensures
            level == Self::of_stored(value as int),
            level.stored_as() == value,
    {
        if value == 2 {
            VolumeLevel::Max
        } else if value == 1 {
            VolumeLevel::Moderate
        } else {
            VolumeLevel::Low
        }
    }

    /// The number under which the level is stored.
    pub fn config_value(&self) -> (value: usize)
        ensures
            value == self.stored_as(),
            value <= 2,
    {
        match self {
            VolumeLevel::Max => 2,
            VolumeLevel::Moderate => 1,
            VolumeLevel::Low => 0,
        }
    }

    /// The number that an earlier storage format, with five levels, maps to
    /// the number stored now: the loudest of the five to 2, the two below it
    /// to 1, the two quietest to 0.
    pub open spec fn legacy_as_stored(value: int) -> int {
        if value == 5 {
            2
        } else if value >= 3 {
            1
        } else {
            0
        }
    }

    /// The level that an earlier storage format stored under `value`, one of
    /// its five levels from 1 to 5.
    pub fn from_legacy_value(value: usize) -> (level: VolumeLevel)
        requires
            1 <= value <= 5,
        ensures
            level == Self::of_stored(Self::legacy_as_stored(value as int)),
    {
        let value: usize = if value == 5 {
            2
        } else if value >= 3 {
            1
        } else {
            0
        };
        VolumeLevel::from_config_value(value)
    }

    /// The position of the level on the volume slider: 3 for the loudest, 1
    /// for the quietest.
    pub open spec fn slider_position(self) -> int {
        self.stored_as() + 1
    }

    /// The level at position `value` of the volume slider.
    pub fn from_slider_value(value: usize) -> (level: VolumeLevel)
        requires
            1 <= value <= 3,
        ensures
            level == Self::of_stored(value - 1),
            level.slider_position() == value,
    {
        if value == 3 {
            VolumeLevel::Max
        } else if value == 2 {
            VolumeLevel::Moderate
        } else {
            VolumeLevel::Low
        }
    }

    /// The position of the level on the volume slider.
    pub fn slider_value(&self) -> (value: usize)
        ensures
            value == self.slider_position(),
            1 <= value <= 3,
    {
        match self {
            VolumeLevel::Max => 3,
            VolumeLevel::Moderate => 2,
            VolumeLevel::Low => 1,
        }
    }
}

/// A level is the one stored under its own number, and a number is the one
/// under which its level is stored.
pub proof fn lemma_stored_level_round_trip(level: VolumeLevel, other: VolumeLevel)
    ensures
        0 <= level.stored_as() <= 2,
        VolumeLevel::of_stored(level.stored_as()) == level,
        level.stored_as() == other.stored_as() ==> level == other,
        1 <= level.slider_position() <= 3,
        level.slider_position() == other.slider_position() ==> level == other,
{
}

} // verus!
