//! The configuration of a sticky key.

use vstd::prelude::*;

use crate::time::{deadline_fits, deadline_ticks, has_deadline, Duration, Instant};

verus! {

/// The kinds of sticky keys.
#[derive(Clone, Copy, Debug, PartialEq, Eq, Structural)]
pub enum StickyKeyShape {
    /// Holds modifiers.
    PureMod,
    /// Holds a layer.
    Layer,
    /// Taps a key and keeps its modifiers held.
    TapKey,
}

/// The events that release a sticky key, one bit each.
#[derive(Clone, Copy, Debug, PartialEq, Eq, Structural)]
pub struct StickyKeyReleaseMode {
    pub bits: u8,
}

impl StickyKeyReleaseMode {
    /// Bit of the press of another key.
    pub const OTHER_KEY_PRESS: u8 = 0x01;
    /// Bit of the release of another key.
    pub const OTHER_KEY_RELEASE: u8 = 0x02;
    /// Bit of a second tap of the sticky key itself.
    pub const DOUBLE_TAP: u8 = 0x04;
    /// Bit of the end of a layer.
    pub const LAYER_EXIT: u8 = 0x08;

    /// Whether the two modes have an event in common.
    pub open spec fn meets(self, other: StickyKeyReleaseMode) -> bool {
        self.bits & other.bits != 0
    }

    /// The mode of another key that goes down (`pressed`) or up.
    pub open spec fn of_other_key(pressed: bool) -> StickyKeyReleaseMode {
        if pressed {
            StickyKeyReleaseMode { bits: StickyKeyReleaseMode::OTHER_KEY_PRESS }
        } else {
            StickyKeyReleaseMode { bits: StickyKeyReleaseMode::OTHER_KEY_RELEASE }
        }
    }

    /// The mode of a second tap.
    pub open spec fn of_double_tap() -> StickyKeyReleaseMode {
        StickyKeyReleaseMode { bits: StickyKeyReleaseMode::DOUBLE_TAP }
    }

    /// The mode with the given bits.
    pub fn from_bits(bits: u8) -> (mode: StickyKeyReleaseMode)
        ensures
            mode.bits == bits,
    {
        StickyKeyReleaseMode { bits }
    }

    /// Whether the two modes have an event in common.
    pub fn intersects(self, other: StickyKeyReleaseMode) -> (common: bool)
        ensures
            common == self.meets(other),
    {
        self.bits & other.bits != 0
    }
}

/// How long a sticky key has to be held for its release to end the effect at once; `None` where
/// holding it makes no difference.
#[derive(Clone, Copy, Debug, PartialEq, Eq, Structural)]
pub struct StickyKeyHoldDuration {
    pub threshold: Option<Duration>,
}

impl StickyKeyHoldDuration {
    /// The setting under which holding makes no difference.
    pub fn disabled() -> (hold: StickyKeyHoldDuration)
        ensures
            hold.threshold is None,
    {
        StickyKeyHoldDuration { threshold: None }
    }

    /// The setting with the given threshold.
    pub fn from_duration(duration: Duration) -> (hold: StickyKeyHoldDuration)
        ensures
            hold.threshold == Some(duration),
    {
        StickyKeyHoldDuration { threshold: Some(duration) }
    }

    /// The threshold, if there is one.
    pub fn duration(self) -> (threshold: Option<Duration>)
        ensures
            threshold == self.threshold,
    {
        self.threshold
    }
}

/// How one sticky key behaves.
#[derive(Clone, Copy, Debug, PartialEq, Eq, Structural)]
pub struct StickyKeyPolicy {
    /// How long a latched effect waits for a use.
    pub timeout: Duration,
    /// Whether held modifiers are reported as soon as the key goes down.
    pub activate_on_keypress: bool,
    /// How long a press has to last for its release to end the effect.
    pub release_after_hold: StickyKeyHoldDuration,
    /// How often a tap key may be tapped in a row; 0 for any number of times.
    pub max_repeat: u16,
    /// The events that release the effect.
    pub release_mode: StickyKeyReleaseMode,
}

impl StickyKeyPolicy {
    /// The tick from which a press that began at tick `start` counts as held; `None` for never.
    pub open spec fn hold_deadline(self, start: int) -> Option<int> {
        match self.release_after_hold.threshold {
            Some(threshold) => deadline_ticks(start, threshold),
            None => None,
        }
    }

    /// Whether the clock can show `hold_deadline`.
    pub open spec fn hold_fits(self, start: int) -> bool {
        self.release_after_hold.threshold matches Some(threshold) ==> deadline_fits(start, threshold)
    }

    /// The tick at which an effect that latched at tick `start` times out; `None` for never.
    pub open spec fn latch_deadline(self, start: int) -> Option<int> {
        deadline_ticks(start, self.timeout)
    }

    /// Whether the clock can show `latch_deadline`.
    pub open spec fn latch_fits(self, start: int) -> bool {
        deadline_fits(start, self.timeout)
    }

    /// Whether the clock can show when a press that began at `start` counts as held.
    pub fn has_hold_deadline(self, start: Instant) -> (fits: bool)
        ensures
            fits == self.hold_fits(start@),
    {
        match self.release_after_hold.duration() {
            Some(threshold) => has_deadline(start, threshold),
            None => true,
        }
    }

    /// Whether the clock can show when an effect that latches at `start` times out.
    pub fn has_latch_deadline(self, start: Instant) -> (fits: bool)
        ensures
            fits == self.latch_fits(start@),
    {
        has_deadline(start, self.timeout)
    }
}

} // verus!
