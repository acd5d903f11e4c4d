//! Core of a multi-channel PWM dimmer controller: the framed command/response
//! protocol, the command dispatcher, the transmit/receive transfer state
//! machines, and the persistent-settings records that back them.

use vstd::prelude::*;

pub mod errors;
pub mod frame;
pub mod codec;
pub mod communication;
pub mod debug_led;
pub mod protocol;
pub mod pwm_service;
pub mod server;
pub mod storage;

verus! {

/// Number of addressable PWM output channels (wide-register channels first,
/// then narrow-register channels, as one flat index space).
pub const CHANNELS_COUNT: usize = 21;

/// Number of wide (32-bit duty register) channels; they occupy the lowest
/// channel indices.
pub const CHANNELS_32_COUNT: usize = 4;

/// Number of narrow (16-bit duty register) channels.
pub const CHANNELS_16_COUNT: usize = 17;

/// Number of PWM timer groups with an independently configurable frequency.
pub const GROUPS_COUNT: usize = 8;

/// Number of general-purpose pins driven by the pin bitset.
pub const PINS_COUNT: usize = 8;

/// Scale of fixed-point duty values: `DUTY_SCALE` represents a duty of 1.0
/// (always on); 0 represents 0.0 (always off).
pub const DUTY_SCALE: i32 = 1_000_000;

} // verus!
