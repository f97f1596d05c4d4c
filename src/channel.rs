//! Parity rule that decides how the tilt bias acts on each channel.
use vstd::prelude::*;

verus! {

/// How the tilt bias acts on one channel.
#[derive(Clone, Copy, Debug, PartialEq, Eq, Structural)]
pub enum TiltDirection {
    /// A positive bias takes level away: `shaped = x - bias * x * depth`.
    Darken,
    /// A positive bias adds level: `shaped = x + bias * x * depth`.
    Brighten,
}

/// Channels of even index darken, channels of odd index brighten.
///
/// The rule goes by the parity of the index alone, not by any notion of left
/// and right, so with more than two channels it alternates across them.
pub open spec fn direction_of(channel: nat) -> TiltDirection {
    if channel % 2 == 0 {
        TiltDirection::Darken
    } else {
        TiltDirection::Brighten
    }
}

/// The direction in which the tilt bias acts on channel `channel`.
pub fn tilt_direction(channel: usize) -> (r: TiltDirection)
    ensures
        r == direction_of(channel as nat),
{
    if channel % 2 == 0 {
        TiltDirection::Darken
    } else {
        TiltDirection::Brighten
    }
}

/// The sign with which the tilt term `bias * x * depth` is added to a sample
/// of channel `channel`: -1 on a darkened channel, +1 on a brightened one.
pub fn tilt_sign(channel: usize) -> (r: i8)
    ensures
        r == (if direction_of(channel as nat) == TiltDirection::Darken { -1i8 } else { 1i8 }),
{
    match tilt_direction(channel) {
        TiltDirection::Darken => -1,
        TiltDirection::Brighten => 1,
    }
}

} // verus!
