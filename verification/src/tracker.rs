//! A quota tracker that tells a messenger when a value crosses the warning
//! thresholds of its maximum.

use vstd::prelude::*;

verus! {

/// The outgoing side of the tracker: whoever uses the library provides the
/// mechanism that actually delivers a message.
pub trait Messenger {
    fn send(&self, msg: &str);
}

/// How close a value stands to its maximum, by the warning thresholds.
#[derive(Debug, Clone, Copy, PartialEq, Eq, Structural)]
pub enum QuotaLevel {
    /// Below three quarters: nothing to say.
    Quiet,
    /// At or above three quarters of the maximum.
    Warning,
    /// At or above nine tenths of the maximum.
    Urgent,
    /// At or above the maximum.
    Over,
}

/// The threshold rule: over at the maximum, urgent at nine tenths, a
/// warning at three quarters. A zero maximum with a zero value compares
/// with nothing and stays quiet.
pub open spec fn spec_quota_level(value: nat, max: nat) -> QuotaLevel {
    if value == 0 && max == 0 {
        QuotaLevel::Quiet
    } else if value >= max {
        QuotaLevel::Over
    } else if 10 * value >= 9 * max {
        QuotaLevel::Urgent
    } else if 4 * value >= 3 * max {
        QuotaLevel::Warning
    } else {
        QuotaLevel::Quiet
    }
}

/// Computes the threshold rule on machine words.
pub fn quota_level(value: usize, max: usize) -> (r: QuotaLevel)
    ensures
        r == spec_quota_level(value as nat, max as nat),
{
    if value == 0 && max == 0 {
        QuotaLevel::Quiet
    } else if value >= max {
        QuotaLevel::Over
    } else if (value as u128) * 10 >= (max as u128) * 9 {
        QuotaLevel::Urgent
    } else if (value as u128) * 4 >= (max as u128) * 3 {
        QuotaLevel::Warning
    } else {
        QuotaLevel::Quiet
    }
}

/// Tracks a value against a maximum and reports threshold crossings to a
/// messenger it borrows.
pub struct LimitTracker<'a, T: Messenger> {
    messenger: &'a T,
    value: usize,
    max: usize,
}

impl<'a, T: Messenger> LimitTracker<'a, T> {
    /// The tracked value, for contracts.
    pub closed spec fn spec_value(&self) -> usize {
        self.value
    }

    /// The configured maximum, for contracts.
    pub closed spec fn spec_max(&self) -> usize {
        self.max
    }

    /// A tracker that starts at zero.
    pub fn new(messenger: &'a T, max: usize) -> (t: LimitTracker<'a, T>)
        ensures
            t.spec_value() == 0,
            t.spec_max() == max,
    {
        LimitTracker { messenger, value: 0, max }
    }

    /// Stores the new value and sends the message its quota level calls
    /// for: nothing below the warning threshold, and exactly one of the
    /// three notices above it.
    pub fn set_value(&mut self, value: usize)
        ensures
            final(self).spec_value() == value,
            final(self).spec_max() == old(self).spec_max(),
    {
        self.value = value;
        match quota_level(value, self.max) {
            QuotaLevel::Over => {
                self.messenger.send("Error: You are over your quota!");
            }
            QuotaLevel::Urgent => {
                self.messenger.send("Urgent warning: You've used up over 90% of your quota!");
            }
            QuotaLevel::Warning => {
                self.messenger.send("Warning: You've used up over 75% of your quota!");
            }
            QuotaLevel::Quiet => {}
        }
    }
}

} // verus!
