//! Selection of the input path and amplification of the next conversion.

use vstd::prelude::*;

verus! {

/// Number of data bits in one conversion code.
pub const CODE_BITS: u8 = 24;

/// The input path and gain that the sensor uses for its next conversion.
#[derive(Clone, Copy, Debug, PartialEq, Eq, Structural)]
pub enum GainChannel {
    /// Channel A, gain 128.
    ChannelAGain128,
    /// Channel A, gain 32.
    ChannelAGain32,
    /// Channel B, gain 32.
    ChannelBGain32,
}

impl GainChannel {
    /// Clock pulses that follow the data bits to select this path.
    pub open spec fn pulses(self) -> nat {
        match self {
            GainChannel::ChannelAGain128 => 1,
            GainChannel::ChannelBGain32 => 2,
            GainChannel::ChannelAGain32 => 3,
        }
    }

    /// Clock pulses that follow the 24 data bits of a conversion and program
    /// the next one: one, two or three.
    pub fn select_pulses(self) -> (n: u8)
        ensures
            n == self.pulses(),
            1 <= n <= 3,
    {
        match self {
            GainChannel::ChannelAGain128 => 1,
            GainChannel::ChannelBGain32 => 2,
            GainChannel::ChannelAGain32 => 3,
        }
    }

    /// Clock pulses of one whole conversion: the data bits and the selection.
    pub fn total_pulses(self) -> (n: u8)
        ensures
            n == 24 + self.pulses(),
    {
        CODE_BITS + self.select_pulses()
    }
}

} // verus!
