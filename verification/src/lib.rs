//! A verified core for a smoothed, single-parameter gain effect.
//!
//! The library models the bridge between a sample-accurate audio context and
//! an asynchronous, message-driven UI context: a gain parameter with a
//! fixed-duration linear smoothing ramp, a single-slot change-notification
//! flag, and the inbound/outbound JSON action protocol that keeps the two
//! sides consistent.
//!
//! Amplitudes are held in fixed point, as millionths of unity gain, so that
//! the smoothing arithmetic and the wire encoding are exact.

use vstd::prelude::*;

pub mod codec;
pub mod dispatch;
pub mod flag;
pub mod json;
pub mod param;

verus! {

/// Whether the effect can serve a channel layout the host offers: the same
/// number of inputs and outputs, mono or stereo. Activation fails for any
/// other layout, for that instantiation only.
pub fn layout_supported(main_inputs: u32, main_outputs: u32) -> (r: bool)
    ensures
        r == (main_inputs == main_outputs && (main_inputs == 1 || main_inputs == 2)),
{
    main_inputs == main_outputs && (main_inputs == 1 || main_inputs == 2)
}

} // verus!
