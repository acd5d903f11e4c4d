//! PWM state: the per-group frequency record and the channel collection.
//!
//! Channels come in two hardware classes — wide (32-bit) and narrow (16-bit)
//! duty registers — hidden behind one flat index space: the wide channels
//! occupy the lowest indices, the narrow ones follow. Duty cycles cross the
//! boundary as fixed-point values (`crate::DUTY_SCALE` is 1.0) and are held
//! per channel as a raw register value scaled to that channel's maximum.

use vstd::prelude::*;

use crate::errors::Error;
use crate::DUTY_SCALE;
use crate::GROUPS_COUNT;
use vstd::arithmetic::div_mod::lemma_div_by_multiple;
use vstd::arithmetic::div_mod::lemma_div_is_ordered;
use vstd::arithmetic::mul::lemma_mul_inequality;
use vstd::arithmetic::mul::lemma_mul_nonnegative;

verus! {

/// Frequency assigned to every group when no persisted record exists.
pub const DEFAULT_FREQUENCY_HZ: u32 = 1000;

/// The persisted per-group PWM frequencies, in Hz. Always fully populated.
#[derive(Clone, Copy, PartialEq, Eq, Structural, Debug)]
pub struct PwmSettings {
    pub group1_freq_hz: u32,
    pub group2_freq_hz: u32,
    pub group3_freq_hz: u32,
    pub group4_freq_hz: u32,
    pub group5_freq_hz: u32,
    pub group6_freq_hz: u32,
    pub group7_freq_hz: u32,
    pub group8_freq_hz: u32,
}

/// The eight group frequencies as a sequence, lowest group first.
pub open spec fn spec_groups(s: PwmSettings) -> Seq<u32> {
    seq![
        s.group1_freq_hz,
        s.group2_freq_hz,
        s.group3_freq_hz,
        s.group4_freq_hz,
        s.group5_freq_hz,
        s.group6_freq_hz,
        s.group7_freq_hz,
        s.group8_freq_hz,
    ]
}

/// The settings with one group's frequency replaced.
pub open spec fn spec_with_group(s: PwmSettings, group: int, freq: u32) -> PwmSettings {
    if group == 0 {
        PwmSettings { group1_freq_hz: freq, ..s }
    } else if group == 1 {
        PwmSettings { group2_freq_hz: freq, ..s }
    } else if group == 2 {
        PwmSettings { group3_freq_hz: freq, ..s }
    } else if group == 3 {
        PwmSettings { group4_freq_hz: freq, ..s }
    } else if group == 4 {
        PwmSettings { group5_freq_hz: freq, ..s }
    } else if group == 5 {
        PwmSettings { group6_freq_hz: freq, ..s }
    } else if group == 6 {
        PwmSettings { group7_freq_hz: freq, ..s }
    } else {
        PwmSettings { group8_freq_hz: freq, ..s }
    }
}

impl PwmSettings {
    /// A record with each group's frequency given explicitly.
    pub fn new(
        group1_freq: u32,
        group2_freq: u32,
        group3_freq: u32,
        group4_freq: u32,
        group5_freq: u32,
        group6_freq: u32,
        group7_freq: u32,
        group8_freq: u32,
    ) -> (r: PwmSettings)
        ensures
            r == (PwmSettings {
                group1_freq_hz: group1_freq,
                group2_freq_hz: group2_freq,
                group3_freq_hz: group3_freq,
                group4_freq_hz: group4_freq,
                group5_freq_hz: group5_freq,
                group6_freq_hz: group6_freq,
                group7_freq_hz: group7_freq,
                group8_freq_hz: group8_freq,
            }),
            spec_groups(r) == seq![
                group1_freq,
                group2_freq,
                group3_freq,
                group4_freq,
                group5_freq,
                group6_freq,
                group7_freq,
                group8_freq,
            ],
    {
        let r = PwmSettings {
            group1_freq_hz: group1_freq,
            group2_freq_hz: group2_freq,
            group3_freq_hz: group3_freq,
            group4_freq_hz: group4_freq,
            group5_freq_hz: group5_freq,
            group6_freq_hz: group6_freq,
            group7_freq_hz: group7_freq,
            group8_freq_hz: group8_freq,
        };
        proof {
            assert(spec_groups(r) =~= seq![
                group1_freq,
                group2_freq,
                group3_freq,
                group4_freq,
                group5_freq,
                group6_freq,
                group7_freq,
                group8_freq,
            ]);
        }
        r
    }

    /// The record used when nothing was ever persisted: every group at the
    /// default frequency.
    pub fn default() -> (r: PwmSettings)
        ensures
            forall|g: int| 0 <= g < GROUPS_COUNT ==> spec_groups(r)[g] == DEFAULT_FREQUENCY_HZ,
    {
        PwmSettings {
            group1_freq_hz: DEFAULT_FREQUENCY_HZ,
            group2_freq_hz: DEFAULT_FREQUENCY_HZ,
            group3_freq_hz: DEFAULT_FREQUENCY_HZ,
            group4_freq_hz: DEFAULT_FREQUENCY_HZ,
            group5_freq_hz: DEFAULT_FREQUENCY_HZ,
            group6_freq_hz: DEFAULT_FREQUENCY_HZ,
            group7_freq_hz: DEFAULT_FREQUENCY_HZ,
            group8_freq_hz: DEFAULT_FREQUENCY_HZ,
        }
    }

    /// The frequency of one group; an out-of-range group is rejected.
    pub fn get_group_freq(&self, group: u8) -> (r: Result<u32, Error>)
        ensures
            match r {
                Ok(freq) => group < GROUPS_COUNT && freq == spec_groups(*self)[group as int],
                Err(e) => e == Error::GroupNotFound(group) && group >= GROUPS_COUNT,
            },
    {
        match group {
            0 => Ok(self.group1_freq_hz),
            1 => Ok(self.group2_freq_hz),
            2 => Ok(self.group3_freq_hz),
            3 => Ok(self.group4_freq_hz),
            4 => Ok(self.group5_freq_hz),
            5 => Ok(self.group6_freq_hz),
            6 => Ok(self.group7_freq_hz),
            7 => Ok(self.group8_freq_hz),
            _ => Err(Error::GroupNotFound(group)),
        }
    }

    /// Replace the frequency of one group; an out-of-range group is
    /// rejected and the record is unchanged.
    pub fn set_group_freq(&mut self, group: u8, freq: u32) -> (r: Result<(), Error>)
        ensures
            match r {
                Ok(()) => group < GROUPS_COUNT && *final(self) == spec_with_group(
                    *old(self),
                    group as int,
                    freq,
                ),
                Err(e) => e == Error::GroupNotFound(group) && group >= GROUPS_COUNT && *final(self)
                    == *old(self),
            },
    {
        match group {
            0 => {
                self.group1_freq_hz = freq;
                Ok(())
            },
            1 => {
                self.group2_freq_hz = freq;
                Ok(())
            },
            2 => {
                self.group3_freq_hz = freq;
                Ok(())
            },
            3 => {
                self.group4_freq_hz = freq;
                Ok(())
            },
            4 => {
                self.group5_freq_hz = freq;
                Ok(())
            },
            5 => {
                self.group6_freq_hz = freq;
                Ok(())
            },
            6 => {
                self.group7_freq_hz = freq;
                Ok(())
            },
            7 => {
                self.group8_freq_hz = freq;
                Ok(())
            },
            _ => Err(Error::GroupNotFound(group)),
        }
    }

    /// Set every group to one frequency.
    pub fn set_all_groups_same_freq(&mut self, freq: u32)
        ensures
            forall|g: int| 0 <= g < GROUPS_COUNT ==> spec_groups(*final(self))[g] == freq,
    {
        self.group1_freq_hz = freq;
        self.group2_freq_hz = freq;
        self.group3_freq_hz = freq;
        self.group4_freq_hz = freq;
        self.group5_freq_hz = freq;
        self.group6_freq_hz = freq;
        self.group7_freq_hz = freq;
        self.group8_freq_hz = freq;
    }

    /// Replace all group frequencies at once, lowest group first.
    pub fn set_all_groups_freq(&mut self, freqs: &Vec<u32>)
        requires
            freqs@.len() == GROUPS_COUNT,
        ensures
            spec_groups(*final(self)) == freqs@,
    {
        self.group1_freq_hz = freqs[0];
        self.group2_freq_hz = freqs[1];
        self.group3_freq_hz = freqs[2];
        self.group4_freq_hz = freqs[3];
        self.group5_freq_hz = freqs[4];
        self.group6_freq_hz = freqs[5];
        self.group7_freq_hz = freqs[6];
        self.group8_freq_hz = freqs[7];
        proof {
            assert(spec_groups(*self) =~= freqs@);
        }
    }

    /// All group frequencies, lowest group first.
    pub fn get_all_groups_freq(&self) -> (r: Vec<u32>)
        ensures
            r@ == spec_groups(*self),
    {
        let mut out: Vec<u32> = Vec::new();
        out.push(self.group1_freq_hz);
        out.push(self.group2_freq_hz);
        out.push(self.group3_freq_hz);
        out.push(self.group4_freq_hz);
        out.push(self.group5_freq_hz);
        out.push(self.group6_freq_hz);
        out.push(self.group7_freq_hz);
        out.push(self.group8_freq_hz);
        proof {
            assert(out@ =~= spec_groups(*self));
        }
        out
    }
}

/// One PWM output channel: its hardware maximum, its current raw duty
/// register value, and whether its output is enabled.
#[derive(Clone, Copy, PartialEq, Eq, Structural, Debug)]
pub struct ChannelSlot {
    /// Largest raw duty value the channel's register accepts; at least 1.
    pub max_duty: u32,
    /// Current raw duty value, never above `max_duty`.
    pub duty: u32,
    /// Whether the channel output is enabled.
    pub enabled: bool,
}

/// The raw register value for a fixed-point duty on a channel with the
/// given maximum.
pub open spec fn duty_to_raw(duty: i32, max_duty: u32) -> u32 {
    ((duty * max_duty) / (DUTY_SCALE as int)) as u32
}

/// The fixed-point duty a raw register value stands for on a channel with
/// the given maximum.
pub open spec fn raw_to_duty(raw: u32, max_duty: u32) -> i32 {
    ((raw * (DUTY_SCALE as int)) / (max_duty as int)) as i32
}


/// A valid fixed-point duty maps to a raw value within the channel maximum.
proof fn lemma_raw_in_range(duty: int, max_duty: int)
    requires
        0 <= duty <= DUTY_SCALE,
        1 <= max_duty,
    ensures
        0 <= (duty * max_duty) / (DUTY_SCALE as int) <= max_duty,
{
    lemma_mul_nonnegative(duty, max_duty);
    lemma_div_is_ordered(0, duty * max_duty, DUTY_SCALE as int);
    lemma_mul_inequality(duty, DUTY_SCALE as int, max_duty);
    lemma_div_is_ordered(duty * max_duty, (DUTY_SCALE as int) * max_duty, DUTY_SCALE as int);
    lemma_div_by_multiple(max_duty, DUTY_SCALE as int);
    assert(max_duty * (DUTY_SCALE as int) == (DUTY_SCALE as int) * max_duty);
}

/// A raw value within the channel maximum maps back to a valid fixed-point
/// duty.
proof fn lemma_actual_in_range(raw: int, max_duty: int)
    requires
        0 <= raw <= max_duty,
        1 <= max_duty,
    ensures
        0 <= (raw * (DUTY_SCALE as int)) / max_duty <= DUTY_SCALE,
{
    lemma_mul_nonnegative(raw, DUTY_SCALE as int);
    lemma_div_is_ordered(0, raw * (DUTY_SCALE as int), max_duty);
    lemma_mul_inequality(raw, max_duty, DUTY_SCALE as int);
    lemma_div_is_ordered(raw * (DUTY_SCALE as int), max_duty * (DUTY_SCALE as int), max_duty);
    lemma_div_by_multiple(DUTY_SCALE as int, max_duty);
    assert(max_duty * (DUTY_SCALE as int) == (DUTY_SCALE as int) * max_duty);
}

/// The flat, ordered collection of PWM channels.
#[derive(Debug)]
pub struct PwmChannels {
    slots: Vec<ChannelSlot>,
}

impl PwmChannels {
    /// The channels in flat index order.
    pub closed spec fn spec_slots(self) -> Seq<ChannelSlot> {
        self.slots@
    }

    /// Every maximum is at least 1, every raw duty is within its maximum,
    /// and the count fits the count query's result type.
    pub open spec fn wf(self) -> bool {
        &&& self.spec_slots().len() <= 255
        &&& forall|i: int|
            0 <= i < self.spec_slots().len() ==> 1 <= #[trigger] self.spec_slots()[i].max_duty
        &&& forall|i: int|
            0 <= i < self.spec_slots().len() ==> #[trigger] self.spec_slots()[i].duty
                <= self.spec_slots()[i].max_duty
    }

    /// Assemble the flat channel collection from the two hardware classes:
    /// wide channels first, then narrow ones. All channels start disabled
    /// with duty 0.
    pub fn create(max_duties_32: &Vec<u32>, max_duties_16: &Vec<u16>) -> (r: PwmChannels)
        requires
            max_duties_32@.len() + max_duties_16@.len() <= 255,
            forall|i: int| 0 <= i < max_duties_32@.len() ==> #[trigger] max_duties_32@[i] >= 1,
            forall|i: int| 0 <= i < max_duties_16@.len() ==> #[trigger] max_duties_16@[i] >= 1,
        ensures
            r.wf(),
            r.spec_slots().len() == max_duties_32@.len() + max_duties_16@.len(),
            forall|i: int|
                0 <= i < max_duties_32@.len() ==> #[trigger] r.spec_slots()[i] == (ChannelSlot {
                    max_duty: max_duties_32@[i],
                    duty: 0u32,
                    enabled: false,
                }),
            forall|i: int|
                0 <= i < max_duties_16@.len() ==> #[trigger] r.spec_slots()[max_duties_32@.len()
                    + i] == (ChannelSlot {
                    max_duty: max_duties_16@[i] as u32,
                    duty: 0u32,
                    enabled: false,
                }),
    {
        let mut slots: Vec<ChannelSlot> = Vec::new();
        let mut i: usize = 0;
        while i < max_duties_32.len()
            invariant
                i <= max_duties_32@.len(),
                slots@.len() == i,
                forall|k: int|
                    0 <= k < i ==> #[trigger] slots@[k] == (ChannelSlot {
                        max_duty: max_duties_32@[k],
                        duty: 0u32,
                        enabled: false,
                    }),
            decreases max_duties_32@.len() - i,
        {
            slots.push(ChannelSlot { max_duty: max_duties_32[i], duty: 0, enabled: false });
            i = i + 1;
        }
        let mut j: usize = 0;
        while j < max_duties_16.len()
            invariant
                j <= max_duties_16@.len(),
                slots@.len() == max_duties_32@.len() + j,
                forall|k: int|
                    0 <= k < max_duties_32@.len() ==> #[trigger] slots@[k] == (ChannelSlot {
                        max_duty: max_duties_32@[k],
                        duty: 0u32,
                        enabled: false,
                    }),
                forall|k: int|
                    0 <= k < j ==> #[trigger] slots@[max_duties_32@.len() + k] == (ChannelSlot {
                        max_duty: max_duties_16@[k] as u32,
                        duty: 0u32,
                        enabled: false,
                    }),
            decreases max_duties_16@.len() - j,
        {
            slots.push(ChannelSlot { max_duty: max_duties_16[j] as u32, duty: 0, enabled: false });
            j = j + 1;
        }
        proof {
            assert forall|i: int| 0 <= i < slots@.len() implies 1 <= #[trigger] slots@[i].max_duty
                && slots@[i].duty <= slots@[i].max_duty by {
                if i < max_duties_32@.len() {
                    assert(slots@[i] == (ChannelSlot {
                        max_duty: max_duties_32@[i],
                        duty: 0u32,
                        enabled: false,
                    }));
                } else {
                    let k = i - max_duties_32@.len();
                    assert(slots@[max_duties_32@.len() + k] == (ChannelSlot {
                        max_duty: max_duties_16@[k] as u32,
                        duty: 0u32,
                        enabled: false,
                    }));
                    assert(max_duties_32@.len() + k == i);
                }
            }
        }
        PwmChannels { slots }
    }

    /// How many channels the device exposes.
    pub fn get_channels_count(&self) -> (r: u8)
        requires
            self.wf(),
        ensures
            r == self.spec_slots().len(),
    {
        self.slots.len() as u8
    }


    /// Set one channel's duty and enable its output. The duty must lie in
    /// [0, `DUTY_SCALE`], else it is rejected as an overflow with the value
    /// echoed exactly; an out-of-range channel is rejected as not found. The
    /// achieved duty — the requested one quantized to the channel's raw
    /// register — is returned.
    pub fn set_channel_duty(&mut self, channel: u8, duty: i32) -> (r: Result<i32, Error>)
        requires
            old(self).wf(),
        ensures
            final(self).wf(),
            match r {
                Ok(actual) => 0 <= duty <= DUTY_SCALE && channel < old(self).spec_slots().len()
                    && final(self).spec_slots() == old(self).spec_slots().update(
                    channel as int,
                    ChannelSlot {
                        max_duty: old(self).spec_slots()[channel as int].max_duty,
                        duty: duty_to_raw(duty, old(self).spec_slots()[channel as int].max_duty),
                        enabled: true,
                    },
                ) && actual == raw_to_duty(
                    duty_to_raw(duty, old(self).spec_slots()[channel as int].max_duty),
                    old(self).spec_slots()[channel as int].max_duty,
                ),
                Err(e) => final(self).spec_slots() == old(self).spec_slots() && match e {
                    Error::DutyOverflow(d) => d == duty && !(0 <= duty <= DUTY_SCALE),
                    Error::ChannelNotFound(c) => c == channel && 0 <= duty <= DUTY_SCALE && channel
                        >= old(self).spec_slots().len(),
                    _ => false,
                },
            },
    {
        if duty > DUTY_SCALE || duty < 0 {
            return Err(Error::DutyOverflow(duty));
        }
        if (channel as usize) >= self.slots.len() {
            return Err(Error::ChannelNotFound(channel));
        }
        let slot = self.slots[channel as usize];
        proof {
            lemma_raw_in_range(duty as int, slot.max_duty as int);
        }
        let raw: u32 = (((duty as u64) * (slot.max_duty as u64)) / (DUTY_SCALE as u64)) as u32;
        self.slots.set(
            channel as usize,
            ChannelSlot { max_duty: slot.max_duty, duty: raw, enabled: true },
        );
        proof {
            lemma_actual_in_range(raw as int, slot.max_duty as int);
        }
        let actual: i32 = (((raw as u64) * (DUTY_SCALE as u64)) / (slot.max_duty as u64)) as i32;
        Ok(actual)
    }

    /// The fixed-point duty one channel currently runs at; an out-of-range
    /// channel is rejected as not found.
    pub fn get_channel_duty(&self, channel: u8) -> (r: Result<i32, Error>)
        requires
            self.wf(),
        ensures
            match r {
                Ok(duty) => channel < self.spec_slots().len() && duty == raw_to_duty(
                    self.spec_slots()[channel as int].duty,
                    self.spec_slots()[channel as int].max_duty,
                ),
                Err(e) => e == Error::ChannelNotFound(channel) && channel
                    >= self.spec_slots().len(),
            },
    {
        if (channel as usize) >= self.slots.len() {
            return Err(Error::ChannelNotFound(channel));
        }
        let slot = self.slots[channel as usize];
        proof {
            lemma_actual_in_range(slot.duty as int, slot.max_duty as int);
        }
        Ok((((slot.duty as u64) * (DUTY_SCALE as u64)) / (slot.max_duty as u64)) as i32)
    }

    /// Set every channel to one duty and enable the outputs; an invalid duty
    /// is rejected as an overflow and nothing changes.
    pub fn set_all_duties_same(&mut self, duty: i32) -> (r: Result<(), Error>)
        requires
            old(self).wf(),
        ensures
            final(self).wf(),
            match r {
                Ok(()) => 0 <= duty <= DUTY_SCALE && final(self).spec_slots().len() == old(self).spec_slots().len() && forall|i: int|
                    0 <= i < old(self).spec_slots().len() ==> #[trigger] final(self).spec_slots()[i]
                        == (ChannelSlot {
                        max_duty: old(self).spec_slots()[i].max_duty,
                        duty: duty_to_raw(duty, old(self).spec_slots()[i].max_duty),
                        enabled: true,
                    }),
                Err(e) => e == Error::DutyOverflow(duty) && !(0 <= duty <= DUTY_SCALE) && final(self).spec_slots() == old(self).spec_slots(),
            },
    {
        if duty > DUTY_SCALE || duty < 0 {
            return Err(Error::DutyOverflow(duty));
        }
        let mut i: usize = 0;
        while i < self.slots.len()
            invariant
                0 <= duty <= DUTY_SCALE,
                i <= self.slots@.len(),
                self.slots@.len() == old(self).spec_slots().len(),
                old(self).wf(),
                forall|k: int|
                    0 <= k < i ==> #[trigger] self.slots@[k] == (ChannelSlot {
                        max_duty: old(self).spec_slots()[k].max_duty,
                        duty: duty_to_raw(duty, old(self).spec_slots()[k].max_duty),
                        enabled: true,
                    }),
                forall|k: int|
                    i <= k < self.slots@.len() ==> #[trigger] self.slots@[k] == old(self).spec_slots()[k],
            decreases self.slots@.len() - i,
        {
            let slot = self.slots[i];
            proof {
                lemma_raw_in_range(duty as int, slot.max_duty as int);
            }
            let raw: u32 = (((duty as u64) * (slot.max_duty as u64)) / (DUTY_SCALE as u64)) as u32;
            self.slots.set(i, ChannelSlot { max_duty: slot.max_duty, duty: raw, enabled: true });
            i = i + 1;
        }
        proof {
            assert forall|k: int| 0 <= k < self.slots@.len() implies 1 <= #[trigger] self.slots@[
                k
            ].max_duty && self.slots@[k].duty <= self.slots@[k].max_duty by {
                lemma_raw_in_range(duty as int, old(self).spec_slots()[k].max_duty as int);
            }
        }
        Ok(())
    }

    /// Set each channel's duty from a per-channel list and enable the
    /// outputs. The whole batch is rejected on the first invalid duty (in
    /// index order, over the whole list) with nothing changed; entries
    /// beyond the channel count (either way) are ignored.
    pub fn set_all_duties(&mut self, duties: &Vec<i32>) -> (r: Result<(), Error>)
        requires
            old(self).wf(),
        ensures
            final(self).wf(),
            match r {
                Ok(()) => (forall|i: int|
                    0 <= i < duties@.len() ==> 0 <= #[trigger] duties@[i] <= DUTY_SCALE) && final(self).spec_slots().len() == old(self).spec_slots().len() && (forall|i: int|
                    0 <= i < old(self).spec_slots().len() && i < duties@.len()
                        ==> #[trigger] final(self).spec_slots()[i] == (ChannelSlot {
                        max_duty: old(self).spec_slots()[i].max_duty,
                        duty: duty_to_raw(duties@[i], old(self).spec_slots()[i].max_duty),
                        enabled: true,
                    })) && (forall|i: int|
                    duties@.len() <= i < old(self).spec_slots().len() ==> #[trigger] final(self).spec_slots()[i] == old(self).spec_slots()[i]),
                Err(e) => final(self).spec_slots() == old(self).spec_slots() && exists|i: int|
                    0 <= i < duties@.len() && e == Error::DutyOverflow(#[trigger] duties@[i])
                        && !(0 <= duties@[i] <= DUTY_SCALE) && forall|k: int|
                        0 <= k < i ==> 0 <= #[trigger] duties@[k] <= DUTY_SCALE,
            },
    {
        let mut v: usize = 0;
        while v < duties.len()
            invariant
                v <= duties@.len(),
                forall|k: int| 0 <= k < v ==> 0 <= #[trigger] duties@[k] <= DUTY_SCALE,
                self.slots@ == old(self).spec_slots(),
                old(self).wf(),
            decreases duties@.len() - v,
        {
            let d = duties[v];
            if d > DUTY_SCALE || d < 0 {
                return Err(Error::DutyOverflow(d));
            }
            v = v + 1;
        }
        let limit: usize = if duties.len() < self.slots.len() {
            duties.len()
        } else {
            self.slots.len()
        };
        let mut i: usize = 0;
        while i < limit
            invariant
                i <= limit,
                limit <= self.slots@.len(),
                limit <= duties@.len(),
                limit == vstd::math::min(duties@.len() as int, self.slots@.len() as int),
                forall|k: int| 0 <= k < duties@.len() ==> 0 <= #[trigger] duties@[k] <= DUTY_SCALE,
                self.slots@.len() == old(self).spec_slots().len(),
                old(self).wf(),
                forall|k: int|
                    0 <= k < i ==> #[trigger] self.slots@[k] == (ChannelSlot {
                        max_duty: old(self).spec_slots()[k].max_duty,
                        duty: duty_to_raw(duties@[k], old(self).spec_slots()[k].max_duty),
                        enabled: true,
                    }),
                forall|k: int|
                    i <= k < self.slots@.len() ==> #[trigger] self.slots@[k] == old(self).spec_slots()[k],
            decreases limit - i,
        {
            let slot = self.slots[i];
            let d = duties[i];
            proof {
                lemma_raw_in_range(d as int, slot.max_duty as int);
            }
            let raw: u32 = (((d as u64) * (slot.max_duty as u64)) / (DUTY_SCALE as u64)) as u32;
            self.slots.set(i, ChannelSlot { max_duty: slot.max_duty, duty: raw, enabled: true });
            i = i + 1;
        }
        proof {
            assert forall|k: int| 0 <= k < self.slots@.len() implies 1 <= #[trigger] self.slots@[
                k
            ].max_duty && self.slots@[k].duty <= self.slots@[k].max_duty by {
                if k < limit {
                    lemma_raw_in_range(duties@[k] as int, old(self).spec_slots()[k].max_duty as int);
                }
            }
        }
        Ok(())
    }

    /// Enable or disable one channel's output; an out-of-range index is
    /// rejected and nothing changes.
    pub fn set_enabled_channel(&mut self, channel: u8, enabled: bool) -> (r: Result<(), Error>)
        requires
            old(self).wf(),
        ensures
            final(self).wf(),
            match r {
                Ok(()) => channel < old(self).spec_slots().len() && final(self).spec_slots() == old(self).spec_slots().update(
                    channel as int,
                    ChannelSlot { enabled, ..old(self).spec_slots()[channel as int] },
                ),
                Err(e) => e == Error::ChannelNotFound(channel) && channel >= old(self).spec_slots().len() && final(self).spec_slots() == old(self).spec_slots(),
            },
    {
        if (channel as usize) < self.slots.len() {
            let slot = self.slots[channel as usize];
            self.slots.set(channel as usize, ChannelSlot { enabled, ..slot });
            Ok(())
        } else {
            Err(Error::ChannelNotFound(channel))
        }
    }

    /// Enable or disable every channel's output.
    pub fn set_enabled_all_same(&mut self, enabled: bool)
        requires
            old(self).wf(),
        ensures
            final(self).wf(),
            final(self).spec_slots().len() == old(self).spec_slots().len(),
            forall|i: int|
                0 <= i < old(self).spec_slots().len() ==> #[trigger] final(self).spec_slots()[i]
                    == (ChannelSlot { enabled, ..old(self).spec_slots()[i] }),
    {
        let mut i: usize = 0;
        while i < self.slots.len()
            invariant
                i <= self.slots@.len(),
                self.slots@.len() == old(self).spec_slots().len(),
                forall|k: int|
                    0 <= k < i ==> #[trigger] self.slots@[k] == (ChannelSlot {
                        enabled,
                        ..old(self).spec_slots()[k]
                    }),
                forall|k: int|
                    i <= k < self.slots@.len() ==> #[trigger] self.slots@[k] == old(self).spec_slots()[k],
            decreases self.slots@.len() - i,
        {
            let slot = self.slots[i];
            self.slots.set(i, ChannelSlot { enabled, ..slot });
            i = i + 1;
        }
    }

    /// Enable or disable each channel's output from a per-channel list;
    /// entries beyond the channel count (either way) are ignored.
    pub fn set_enabled_all(&mut self, states: &Vec<bool>)
        requires
            old(self).wf(),
        ensures
            final(self).wf(),
            final(self).spec_slots().len() == old(self).spec_slots().len(),
            forall|i: int|
                0 <= i < old(self).spec_slots().len() && i < states@.len() ==> #[trigger] final(self).spec_slots()[i] == (ChannelSlot { enabled: states@[i], ..old(self).spec_slots()[i] }),
            forall|i: int|
                states@.len() <= i < old(self).spec_slots().len() ==> #[trigger] final(self).spec_slots()[i] == old(self).spec_slots()[i],
    {
        let limit: usize = if states.len() < self.slots.len() {
            states.len()
        } else {
            self.slots.len()
        };
        let mut i: usize = 0;
        while i < limit
            invariant
                i <= limit,
                limit <= self.slots@.len(),
                limit <= states@.len(),
                limit == vstd::math::min(states@.len() as int, self.slots@.len() as int),
                self.slots@.len() == old(self).spec_slots().len(),
                forall|k: int|
                    0 <= k < i ==> #[trigger] self.slots@[k] == (ChannelSlot {
                        enabled: states@[k],
                        ..old(self).spec_slots()[k]
                    }),
                forall|k: int|
                    i <= k < self.slots@.len() ==> #[trigger] self.slots@[k] == old(self).spec_slots()[k],
            decreases limit - i,
        {
            let slot = self.slots[i];
            self.slots.set(i, ChannelSlot { enabled: states[i], ..slot });
            i = i + 1;
        }
    }
}

} // verus!
