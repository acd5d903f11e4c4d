//! Status/error LED state machine.
//!
//! The LED owns two flags: `busy` (a transfer is running; the pin is held
//! steady) and `on` (an error is latched; the pin blinks). The physical pin
//! level is part of the model, so the surrounding code can reflect it onto
//! hardware.

use vstd::prelude::*;

verus! {

/// The debug/error LED: latched flags, blink configuration and the modeled
/// pin level.
#[derive(Clone, Copy, PartialEq, Eq, Structural, Debug)]
pub struct DebugLed {
    /// Polarity flag combined (exclusive-or) with the blink phase to form
    /// the pin level while blinking; `on()` drives the pin high outright.
    pub on_is_high: bool,
    /// Modeled level of the physical pin.
    pub pin_high: bool,
    /// A transfer is in progress; blinking is suspended.
    pub busy: bool,
    /// Latched error indicator; while set (and not busy) the pin blinks.
    pub on: bool,
    /// Half of the blink period, in milliseconds.
    pub led_blink_half_period_ms: u64,
    /// Current phase of the blink.
    pub pin_is_on: bool,
    /// Time of the last blink toggle.
    pub last_pin_toggle_millis: u64,
}

/// The state after one timer tick at `curr_millis`: the pin toggles when the
/// error indicator is latched, no transfer is running, and more than half a
/// blink period has passed since the last toggle.
pub open spec fn spec_led_tick(d: DebugLed, curr_millis: u64) -> DebugLed {
    let elapsed: u64 = if curr_millis >= d.last_pin_toggle_millis {
        (curr_millis - d.last_pin_toggle_millis) as u64
    } else {
        0u64
    };
    if !d.busy && d.on && elapsed > d.led_blink_half_period_ms {
        DebugLed {
            pin_is_on: !d.pin_is_on,
            pin_high: (!d.pin_is_on) ^ d.on_is_high,
            last_pin_toggle_millis: curr_millis,
            ..d
        }
    } else {
        d
    }
}

impl DebugLed {
    /// A fresh LED: flags cleared, pin low.
    pub fn new(on_is_high: bool, led_blink_half_period_ms: u64) -> (r: DebugLed)
        ensures
            r == (DebugLed {
                on_is_high,
                pin_high: false,
                busy: false,
                on: false,
                led_blink_half_period_ms,
                pin_is_on: false,
                last_pin_toggle_millis: 0u64,
            }),
    {
        DebugLed {
            on_is_high,
            pin_high: false,
            busy: false,
            on: false,
            led_blink_half_period_ms,
            pin_is_on: false,
            last_pin_toggle_millis: 0,
        }
    }

    /// Whether an error is latched.
    pub fn is_on(&self) -> (r: bool)
        ensures
            r == self.on,
    {
        self.on
    }

    /// Mark a transfer as running: hold the pin high.
    pub fn on(&mut self)
        ensures
            *final(self) == (DebugLed { busy: true, pin_high: true, ..*old(self) }),
    {
        self.busy = true;
        self.pin_high = true;
    }

    /// Mark the transfer as over: release the pin.
    pub fn off(&mut self)
        ensures
            *final(self) == (DebugLed { busy: false, pin_high: false, ..*old(self) }),
    {
        self.pin_high = false;
        self.busy = false;
    }

    /// Latch the error indicator.
    pub fn set(&mut self)
        ensures
            *final(self) == (DebugLed { on: true, ..*old(self) }),
    {
        self.on = true;
    }

    /// Clear the error indicator.
    pub fn clear(&mut self)
        ensures
            *final(self) == (DebugLed { on: false, ..*old(self) }),
    {
        self.on = false;
    }

    /// Advance the blink state machine to `curr_millis`.
    pub fn tick(&mut self, curr_millis: u64)
        ensures
            *final(self) == spec_led_tick(*old(self), curr_millis),
    {
        if !self.busy {
            let is_on = self.on;
            if is_on {
                let elapsed = if curr_millis >= self.last_pin_toggle_millis {
                    curr_millis - self.last_pin_toggle_millis
                } else {
                    0
                };
                if elapsed > self.led_blink_half_period_ms {
                    self.pin_is_on = !self.pin_is_on;
                    self.pin_high = self.pin_is_on ^ self.on_is_high;
                    self.last_pin_toggle_millis = curr_millis;
                }
            }
        }
    }
}

} // verus!
