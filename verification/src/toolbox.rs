//! Closed-form heading animation: a circular cruise with a gentle bank,
//! computed afresh from elapsed time alone, so it is deterministic and
//! restartable.

use crate::fixed::{fmul, Fx};
use crate::trig::{cos_s, sin_s, cos_fx, sin_fx};
use vstd::prelude::*;

verus! {

/// The path radius, in Q16.16 units.
pub const HEADING_RADIUS_B: i32 = 1048576;

/// The angular rate of the path, in Q16.16 radians per second.
pub const HEADING_RATE_B: i32 = 32768;

/// The bank amplitude, in Q16.16 radians.
pub const HEADING_BANK_B: i32 = 8192;

/// A heading: a position in the horizontal plane and an attitude.
#[derive(Clone, Copy, PartialEq, Eq, Structural, Debug)]
pub struct Heading {
    pub x: Fx,
    pub z: Fx,
    pub pitch: Fx,
    pub yaw: Fx,
    pub roll: Fx,
}

/// The heading at a moment: the phase is elapsed time times the rate; the
/// position circles at the radius, the yaw follows the phase, and pitch and
/// roll bank with it.
pub open spec fn heading_s(t: int) -> (int, int, int, int, int) {
    let phase = fmul(t, HEADING_RATE_B as int);
    (
        fmul(HEADING_RADIUS_B as int, sin_s(phase)),
        fmul(HEADING_RADIUS_B as int, cos_s(phase)),
        fmul(HEADING_BANK_B as int, cos_s(phase)),
        phase,
        fmul(HEADING_BANK_B as int, sin_s(phase)),
    )
}

/// The heading after `elapsed` seconds: a pure function of the elapsed
/// time, so equal times always yield equal headings.
pub fn simple_heading_animation(elapsed: Fx) -> (h: Heading)
    ensures
        (h.x.v(), h.z.v(), h.pitch.v(), h.yaw.v(), h.roll.v()) == heading_s(elapsed.v()),
{
    let phase = elapsed.mul(Fx { bits: HEADING_RATE_B });
    let s = sin_fx(phase);
    let c = cos_fx(phase);
    Heading {
        x: Fx { bits: HEADING_RADIUS_B }.mul(s),
        z: Fx { bits: HEADING_RADIUS_B }.mul(c),
        pitch: Fx { bits: HEADING_BANK_B }.mul(c),
        yaw: phase,
        roll: Fx { bits: HEADING_BANK_B }.mul(s),
    }
}

impl Heading {
    /// The heading at time zero.
    pub fn new() -> (h: Heading)
        ensures
            (h.x.v(), h.z.v(), h.pitch.v(), h.yaw.v(), h.roll.v()) == heading_s(0),
    {
        simple_heading_animation(Fx { bits: 0 })
    }

    /// Replaces this heading with the one at `elapsed` seconds.
    pub fn update(&mut self, elapsed: Fx)
        ensures
            (
                final(self).x.v(),
                final(self).z.v(),
                final(self).pitch.v(),
                final(self).yaw.v(),
                final(self).roll.v(),
            ) == heading_s(elapsed.v()),
    {
        *self = simple_heading_animation(elapsed);
    }
}

} // verus!
