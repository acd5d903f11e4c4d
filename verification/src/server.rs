//! The command dispatcher: decode one received frame, check the device
//! addressing, mutate channel, storage and pin state through the
//! collaborator capabilities, and produce exactly one (or zero) response
//! frames.
//!
//! `spec_dispatch` and `spec_idle` are the mathematical description of the
//! dispatcher: what every command does to the channel slots, the storage
//! region and the pin bitset, which response (if any) it emits, and which
//! internal error it propagates. The executable dispatcher is proved equal
//! to them.

use vstd::prelude::*;

use crate::communication::led_bit;
use crate::communication::spec_set_bit;
use crate::communication::Buffer;
use crate::communication::RxTransfer;
use crate::communication::TxState;
use crate::communication::TxTransfer;
use crate::debug_led::DebugLed;
use crate::communication::LedState;
use crate::codec::enc_result;
use crate::errors::spec_to_command_error;
use crate::errors::CodecFault;
use crate::errors::CommandError;
use crate::errors::Error;
use crate::errors::FlashFault;
use crate::frame::frame_bytes;
use crate::frame::spec_decode_request_frame;
use crate::frame::spec_decode_result_frame;
use crate::protocol::Command;
use crate::protocol::CommandResult;
use crate::protocol::CommandResultView;
use crate::protocol::CommandType;
use crate::protocol::CommandTypeView;
use crate::protocol::CommandView;
use crate::protocol::DeviceId;
use crate::protocol::Request;
use crate::protocol::RequestView;
use crate::protocol::ResultPayloadView;
use crate::pwm_service::duty_to_raw;
use crate::pwm_service::raw_to_duty;
use crate::pwm_service::spec_groups;
use crate::pwm_service::spec_with_group;
use crate::pwm_service::ChannelSlot;
use crate::pwm_service::PwmChannels;
use crate::pwm_service::PwmSettings;
use crate::storage::sign_present_at;
use crate::storage::spec_pwm_record;
use crate::storage::spec_stored_pwm;
use crate::storage::Storage;
use crate::storage::PWM_RECORD_OFFSET;
use crate::storage::PWM_RECORD_SIZE;
use crate::CHANNELS_COUNT;
use crate::DUTY_SCALE;
use crate::PINS_COUNT;

verus! {

/// What one dispatched command does: the states afterwards, the response to
/// frame (if any), and the internal result.
pub struct DispatchOutcome {
    /// The storage region bytes afterwards.
    pub mem: Seq<u8>,
    /// The channel slots afterwards.
    pub slots: Seq<ChannelSlot>,
    /// The pin bitset afterwards.
    pub leds: u8,
    /// The response to encode and send, if the command defines one.
    pub response: Option<CommandResultView>,
    /// The dispatcher's own result, before any transmit-buffer concerns.
    pub result: Result<(), Error>,
}

/// An outcome that changes nothing and answers nothing.
pub open spec fn outcome_unchanged(mem: Seq<u8>, slots: Seq<ChannelSlot>, leds: u8) -> DispatchOutcome {
    DispatchOutcome { mem, slots, leds, response: None, result: Ok(()) }
}

/// The pin bitset after pins `0 .. n` are driven to the listed states, in
/// index order.
pub open spec fn spec_set_bits(leds: u8, states: Seq<bool>, n: nat) -> u8
    decreases n,
{
    if n == 0 {
        leds
    } else {
        spec_set_bit(spec_set_bits(leds, states, (n - 1) as nat), (n - 1) as u8, states[n - 1])
    }
}

/// The per-channel duties reported by the batch duty query.
pub open spec fn spec_all_duties(slots: Seq<ChannelSlot>) -> Seq<i32> {
    Seq::new(CHANNELS_COUNT as nat, |i: int| raw_to_duty(slots[i].duty, slots[i].max_duty))
}

/// The slots after every channel is set to one enabled state.
pub open spec fn spec_slots_all_enabled(slots: Seq<ChannelSlot>, enabled: bool) -> Seq<ChannelSlot> {
    Seq::new(slots.len(), |i: int| ChannelSlot { enabled, ..slots[i] })
}

/// The slots after per-channel enabled states are applied; entries beyond
/// either count are ignored.
pub open spec fn spec_slots_enabled_list(slots: Seq<ChannelSlot>, states: Seq<bool>) -> Seq<ChannelSlot> {
    Seq::new(
        slots.len(),
        |i: int|
            if i < states.len() {
                ChannelSlot { enabled: states[i], ..slots[i] }
            } else {
                slots[i]
            },
    )
}

/// The slots after every channel is set to one duty and enabled.
pub open spec fn spec_slots_all_duty(slots: Seq<ChannelSlot>, duty: i32) -> Seq<ChannelSlot> {
    Seq::new(
        slots.len(),
        |i: int|
            ChannelSlot {
                max_duty: slots[i].max_duty,
                duty: duty_to_raw(duty, slots[i].max_duty),
                enabled: true,
            },
    )
}

/// The slots after per-channel duties are applied and the channels enabled;
/// entries beyond either count are ignored.
pub open spec fn spec_slots_duty_list(slots: Seq<ChannelSlot>, duties: Seq<i32>) -> Seq<ChannelSlot> {
    Seq::new(
        slots.len(),
        |i: int|
            if i < duties.len() {
                ChannelSlot {
                    max_duty: slots[i].max_duty,
                    duty: duty_to_raw(duties[i], slots[i].max_duty),
                    enabled: true,
                }
            } else {
                slots[i]
            },
    )
}

/// Whether every duty in the list is within [0, `DUTY_SCALE`].
pub open spec fn all_duties_valid(duties: Seq<i32>) -> bool {
    forall|i: int| 0 <= i < duties.len() ==> 0 <= #[trigger] duties[i] <= DUTY_SCALE
}

/// The index of the first invalid duty in the list.
pub open spec fn first_invalid_duty(duties: Seq<i32>) -> int {
    choose|i: int|
        0 <= i < duties.len() && !(0 <= #[trigger] duties[i] <= DUTY_SCALE) && (forall|k: int|
            0 <= k < i ==> 0 <= #[trigger] duties[k] <= DUTY_SCALE)
}

/// The storage region after the PWM settings record is replaced.
pub open spec fn mem_with_pwm_record(mem: Seq<u8>, s: PwmSettings) -> Seq<u8> {
    mem.take(PWM_RECORD_OFFSET as int) + spec_pwm_record(s) + mem.skip(
        PWM_RECORD_OFFSET + PWM_RECORD_SIZE,
    )
}

/// What dispatching one validated, addressed command does to the channel
/// slots, the storage region and the pin bitset, which response it emits,
/// and which internal error it propagates.
pub open spec fn spec_dispatch(
    cmd: CommandView,
    device_id: DeviceId,
    fault: Option<FlashFault>,
    mem: Seq<u8>,
    slots: Seq<ChannelSlot>,
    leds: u8,
) -> DispatchOutcome {
    let id = cmd.id;
    match cmd.data {
        CommandTypeView::SetChannelEnabled(v) => {
            if v.channel < slots.len() {
                DispatchOutcome {
                    mem,
                    slots: slots.update(
                        v.channel as int,
                        ChannelSlot { enabled: v.enabled, ..slots[v.channel as int] },
                    ),
                    leds,
                    response: Some(CommandResultView {
                        id,
                        data: Ok(ResultPayloadView::ChannelEnabled(v)),
                    }),
                    result: Ok(()),
                }
            } else {
                DispatchOutcome {
                    mem,
                    slots,
                    leds,
                    response: Some(CommandResultView {
                        id,
                        data: Err(CommandError::ChannelNotFound(v.channel)),
                    }),
                    result: Ok(()),
                }
            }
        },
        CommandTypeView::SetAllChannelsSameEnabled(enabled) => DispatchOutcome {
            mem,
            slots: spec_slots_all_enabled(slots, enabled),
            leds,
            response: Some(CommandResultView {
                id,
                data: Ok(ResultPayloadView::AllChannelsSameEnabled(enabled)),
            }),
            result: Ok(()),
        },
        CommandTypeView::SetAllChannelsEnabled(states) => DispatchOutcome {
            mem,
            slots: spec_slots_enabled_list(slots, states),
            leds,
            response: Some(CommandResultView {
                id,
                data: Ok(ResultPayloadView::AllChannelsEnabled(states)),
            }),
            result: Ok(()),
        },
        CommandTypeView::SetChannelDuty(v) => {
            if !(0 <= v.duty <= DUTY_SCALE) {
                DispatchOutcome {
                    mem,
                    slots,
                    leds,
                    response: Some(CommandResultView {
                        id,
                        data: Err(CommandError::DutyOverflow(v.duty)),
                    }),
                    result: Ok(()),
                }
            } else if v.channel < slots.len() {
                let max = slots[v.channel as int].max_duty;
                DispatchOutcome {
                    mem,
                    slots: slots.update(
                        v.channel as int,
                        ChannelSlot { max_duty: max, duty: duty_to_raw(v.duty, max), enabled: true },
                    ),
                    leds,
                    response: Some(CommandResultView {
                        id,
                        data: Ok(ResultPayloadView::ChannelDuty(crate::protocol::ChannelDuty {
                            channel: v.channel,
                            duty: raw_to_duty(duty_to_raw(v.duty, max), max),
                        })),
                    }),
                    result: Ok(()),
                }
            } else {
                DispatchOutcome {
                    mem,
                    slots,
                    leds,
                    response: Some(CommandResultView {
                        id,
                        data: Err(CommandError::ChannelNotFound(v.channel)),
                    }),
                    result: Ok(()),
                }
            }
        },
        CommandTypeView::SetAllChannelsSameDuty(duty) => {
            if 0 <= duty <= DUTY_SCALE {
                DispatchOutcome {
                    mem,
                    slots: spec_slots_all_duty(slots, duty),
                    leds,
                    response: Some(CommandResultView {
                        id,
                        data: Ok(ResultPayloadView::AllChannelsSameDuty(duty)),
                    }),
                    result: Ok(()),
                }
            } else {
                DispatchOutcome {
                    mem,
                    slots,
                    leds,
                    response: Some(CommandResultView {
                        id,
                        data: Err(CommandError::DutyOverflow(duty)),
                    }),
                    result: Ok(()),
                }
            }
        },
        CommandTypeView::SetAllChannelsDuty(duties) => {
            if all_duties_valid(duties) {
                DispatchOutcome {
                    mem,
                    slots: spec_slots_duty_list(slots, duties),
                    leds,
                    response: Some(CommandResultView {
                        id,
                        data: Ok(ResultPayloadView::AllChannelsDuty(duties)),
                    }),
                    result: Ok(()),
                }
            } else {
                DispatchOutcome {
                    mem,
                    slots,
                    leds,
                    response: Some(CommandResultView {
                        id,
                        data: Err(CommandError::DutyOverflow(duties[first_invalid_duty(duties)])),
                    }),
                    result: Ok(()),
                }
            }
        },
        CommandTypeView::GetChannelDuty(channel) => {
            if channel < slots.len() {
                DispatchOutcome {
                    mem,
                    slots,
                    leds,
                    response: Some(CommandResultView {
                        id,
                        data: Ok(ResultPayloadView::ChannelDuty(crate::protocol::ChannelDuty {
                            channel,
                            duty: raw_to_duty(slots[channel as int].duty, slots[channel as int].max_duty),
                        })),
                    }),
                    result: Ok(()),
                }
            } else {
                DispatchOutcome {
                    mem,
                    slots,
                    leds,
                    response: Some(CommandResultView {
                        id,
                        data: Err(CommandError::ChannelNotFound(channel)),
                    }),
                    result: Ok(()),
                }
            }
        },
        CommandTypeView::GetAllChannelsDuty => {
            if slots.len() >= CHANNELS_COUNT {
                DispatchOutcome {
                    mem,
                    slots,
                    leds,
                    response: Some(CommandResultView {
                        id,
                        data: Ok(ResultPayloadView::AllChannelsDuty(spec_all_duties(slots))),
                    }),
                    result: Ok(()),
                }
            } else {
                // the batch aborts on the first out-of-range index with no
                // response and no state change
                DispatchOutcome {
                    mem,
                    slots,
                    leds,
                    response: None,
                    result: Err(Error::ChannelNotFound(slots.len() as u8)),
                }
            }
        },
        CommandTypeView::GetChannelCount => DispatchOutcome {
            mem,
            slots,
            leds,
            response: Some(CommandResultView {
                id,
                data: Ok(ResultPayloadView::ChannelCount(slots.len() as u8)),
            }),
            result: Ok(()),
        },
        CommandTypeView::SetGroupFrequency(v) => {
            match fault {
                Some(_) => DispatchOutcome {
                    mem,
                    slots,
                    leds,
                    response: Some(CommandResultView { id, data: Err(CommandError::FlashError) }),
                    result: Ok(()),
                },
                None => {
                    if !sign_present_at(mem, PWM_RECORD_OFFSET as int) {
                        DispatchOutcome {
                            mem,
                            slots,
                            leds,
                            response: Some(CommandResultView {
                                id,
                                data: Err(CommandError::StorageEmpty),
                            }),
                            result: Ok(()),
                        }
                    } else if v.group >= crate::GROUPS_COUNT {
                        DispatchOutcome {
                            mem,
                            slots,
                            leds,
                            response: Some(CommandResultView {
                                id,
                                data: Err(CommandError::GroupNotFound(v.group)),
                            }),
                            result: Ok(()),
                        }
                    } else {
                        let updated = spec_with_group(spec_stored_pwm(mem), v.group as int, v.frequency);
                        // saved for the next boot; no response, the change
                        // takes effect after a restart
                        DispatchOutcome {
                            mem: mem_with_pwm_record(mem, updated),
                            slots,
                            leds,
                            response: None,
                            result: Ok(()),
                        }
                    }
                },
            }
        },
        CommandTypeView::GetGroupFrequency(group) => {
            match fault {
                Some(_) => DispatchOutcome {
                    mem,
                    slots,
                    leds,
                    response: Some(CommandResultView { id, data: Err(CommandError::FlashError) }),
                    result: Ok(()),
                },
                None => {
                    if !sign_present_at(mem, PWM_RECORD_OFFSET as int) {
                        DispatchOutcome {
                            mem,
                            slots,
                            leds,
                            response: Some(CommandResultView {
                                id,
                                data: Err(CommandError::StorageEmpty),
                            }),
                            result: Ok(()),
                        }
                    } else if group >= crate::GROUPS_COUNT {
                        DispatchOutcome {
                            mem,
                            slots,
                            leds,
                            response: Some(CommandResultView {
                                id,
                                data: Err(CommandError::GroupNotFound(group)),
                            }),
                            result: Ok(()),
                        }
                    } else {
                        DispatchOutcome {
                            mem,
                            slots,
                            leds,
                            response: Some(CommandResultView {
                                id,
                                data: Ok(ResultPayloadView::GroupFrequency(
                                    crate::protocol::GroupFrequency {
                                        group,
                                        frequency: spec_groups(spec_stored_pwm(mem))[group as int],
                                    },
                                )),
                            }),
                            result: Ok(()),
                        }
                    }
                },
            }
        },
        CommandTypeView::SetAllGroupsSameFrequency(freq) => {
            match fault {
                Some(_) => DispatchOutcome {
                    mem,
                    slots,
                    leds,
                    response: Some(CommandResultView { id, data: Err(CommandError::FlashError) }),
                    result: Ok(()),
                },
                None => {
                    if !sign_present_at(mem, PWM_RECORD_OFFSET as int) {
                        DispatchOutcome {
                            mem,
                            slots,
                            leds,
                            response: Some(CommandResultView {
                                id,
                                data: Err(CommandError::StorageEmpty),
                            }),
                            result: Ok(()),
                        }
                    } else {
                        let updated = PwmSettings {
                            group1_freq_hz: freq,
                            group2_freq_hz: freq,
                            group3_freq_hz: freq,
                            group4_freq_hz: freq,
                            group5_freq_hz: freq,
                            group6_freq_hz: freq,
                            group7_freq_hz: freq,
                            group8_freq_hz: freq,
                        };
                        DispatchOutcome {
                            mem: mem_with_pwm_record(mem, updated),
                            slots,
                            leds,
                            response: None,
                            result: Ok(()),
                        }
                    }
                },
            }
        },
        CommandTypeView::SetAllGroupsFrequency(freqs) => {
            match fault {
                Some(_) => DispatchOutcome {
                    mem,
                    slots,
                    leds,
                    response: Some(CommandResultView { id, data: Err(CommandError::FlashError) }),
                    result: Ok(()),
                },
                None => {
                    if !sign_present_at(mem, PWM_RECORD_OFFSET as int) {
                        DispatchOutcome {
                            mem,
                            slots,
                            leds,
                            response: Some(CommandResultView {
                                id,
                                data: Err(CommandError::StorageEmpty),
                            }),
                            result: Ok(()),
                        }
                    } else {
                        let updated = PwmSettings {
                            group1_freq_hz: freqs[0],
                            group2_freq_hz: freqs[1],
                            group3_freq_hz: freqs[2],
                            group4_freq_hz: freqs[3],
                            group5_freq_hz: freqs[4],
                            group6_freq_hz: freqs[5],
                            group7_freq_hz: freqs[6],
                            group8_freq_hz: freqs[7],
                        };
                        DispatchOutcome {
                            mem: mem_with_pwm_record(mem, updated),
                            slots,
                            leds,
                            response: None,
                            result: Ok(()),
                        }
                    }
                },
            }
        },
        CommandTypeView::GetAllGroupsFrequency => {
            match fault {
                Some(_) => DispatchOutcome {
                    mem,
                    slots,
                    leds,
                    response: Some(CommandResultView { id, data: Err(CommandError::FlashError) }),
                    result: Ok(()),
                },
                None => {
                    if !sign_present_at(mem, PWM_RECORD_OFFSET as int) {
                        DispatchOutcome {
                            mem,
                            slots,
                            leds,
                            response: Some(CommandResultView {
                                id,
                                data: Err(CommandError::StorageEmpty),
                            }),
                            result: Ok(()),
                        }
                    } else {
                        DispatchOutcome {
                            mem,
                            slots,
                            leds,
                            response: Some(CommandResultView {
                                id,
                                data: Ok(ResultPayloadView::AllGroupsFrequency(
                                    spec_groups(spec_stored_pwm(mem)),
                                )),
                            }),
                            result: Ok(()),
                        }
                    }
                },
            }
        },
        CommandTypeView::GetDateTimestamp => outcome_unchanged(mem, slots, leds),
        CommandTypeView::SetDateTimestamp(_) => outcome_unchanged(mem, slots, leds),
        CommandTypeView::SetPinState(v) => {
            if v.pin < PINS_COUNT {
                DispatchOutcome {
                    mem,
                    slots,
                    leds: spec_set_bit(leds, v.pin, v.state),
                    response: Some(CommandResultView { id, data: Ok(ResultPayloadView::PinLevel(v)) }),
                    result: Ok(()),
                }
            } else {
                DispatchOutcome {
                    mem,
                    slots,
                    leds,
                    response: Some(CommandResultView {
                        id,
                        data: Err(CommandError::UnknownError),
                    }),
                    result: Ok(()),
                }
            }
        },
        CommandTypeView::GetPinState(pin) => {
            if pin < PINS_COUNT {
                DispatchOutcome {
                    mem,
                    slots,
                    leds,
                    response: Some(CommandResultView {
                        id,
                        data: Ok(ResultPayloadView::PinLevel(crate::protocol::PinLevel {
                            pin,
                            state: led_bit(leds, pin),
                        })),
                    }),
                    result: Ok(()),
                }
            } else {
                DispatchOutcome {
                    mem,
                    slots,
                    leds,
                    response: Some(CommandResultView {
                        id,
                        data: Err(CommandError::UnknownError),
                    }),
                    result: Ok(()),
                }
            }
        },
        CommandTypeView::SetAllPinsState(states) => DispatchOutcome {
            mem,
            slots,
            leds: spec_set_bits(leds, states, PINS_COUNT as nat),
            response: Some(CommandResultView { id, data: Ok(ResultPayloadView::AllPinsState(states)) }),
            result: Ok(()),
        },
        CommandTypeView::SetAllPinsSameState(state) => DispatchOutcome {
            mem,
            slots,
            leds: spec_set_bits(leds, Seq::new(PINS_COUNT as nat, |i: int| state), PINS_COUNT as nat),
            response: Some(CommandResultView {
                id,
                data: Ok(ResultPayloadView::AllPinsSameState(state)),
            }),
            result: Ok(()),
        },
        CommandTypeView::GetAllPinsState => DispatchOutcome {
            mem,
            slots,
            leds,
            response: Some(CommandResultView {
                id,
                data: Ok(ResultPayloadView::AllPinsState(
                    Seq::new(PINS_COUNT as nat, |i: int| led_bit(leds, i as u8)),
                )),
            }),
            result: Ok(()),
        },
        CommandTypeView::GetDeviceId => DispatchOutcome {
            mem,
            slots,
            leds,
            response: Some(CommandResultView { id, data: Ok(ResultPayloadView::DeviceId(device_id)) }),
            result: Ok(()),
        },
    }
}

/// The pin bitset after the legacy single-byte fast path: values below 8
/// bit-pack an index (low two bits) and a level (bit 2); values in [16, 32)
/// replace the low nibble of the bitset; everything else is ignored.
pub open spec fn spec_legacy_update(leds: u8, value: u8) -> u8 {
    if value < 8 {
        spec_set_bit(leds, value & 0x03, (value & 0x04) >> 2 == 1)
    } else if 15 < value < 32 {
        (value & 0x0F) as u8
    } else {
        leds
    }
}

/// What servicing one received byte batch does. The legacy single-byte path
/// runs first, before any decode; then the frame is decoded as a request —
/// only a matching by-device-number request is dispatched — or, failing
/// that, as a response from another device (ignored); a frame that is
/// neither is answered with an error result addressed to id 0.
pub open spec fn spec_idle(
    device_id: DeviceId,
    device_no: Option<u8>,
    input: Seq<u8>,
    fault: Option<FlashFault>,
    mem: Seq<u8>,
    slots: Seq<ChannelSlot>,
    leds0: u8,
) -> DispatchOutcome {
    let leds = if input.len() == 1 {
        spec_legacy_update(leds0, input[0])
    } else {
        leds0
    };
    match spec_decode_request_frame(input) {
        Some(request) => match request {
            RequestView::Broadcast(_) => outcome_unchanged(mem, slots, leds),
            RequestView::ByDeviceId(_, _) => outcome_unchanged(mem, slots, leds),
            RequestView::ByDeviceNumber(target) => {
                if device_no matches Some(no) && target.number == no {
                    spec_dispatch(target.command, device_id, fault, mem, slots, leds)
                } else {
                    outcome_unchanged(mem, slots, leds)
                }
            },
        },
        None => match spec_decode_result_frame(input) {
            Some(_) => outcome_unchanged(mem, slots, leds),
            None => DispatchOutcome {
                mem,
                slots,
                leds,
                response: Some(CommandResultView {
                    id: 0,
                    data: Err(spec_to_command_error(
                        Error::SerializedDataError(CodecFault::IntegrityFault),
                    )),
                }),
                result: Ok(()),
            },
        },
    }
}

/// How an outcome's response reaches the transmit buffer: an outcome that
/// propagates an error or answers nothing leaves the buffer alone; an
/// emitted response is framed and appended, unless it would not fit, which
/// is a buffer overflow with the buffer left unchanged.
pub open spec fn response_delivery(
    outcome: DispatchOutcome,
    out0: Seq<u8>,
    capacity: usize,
    out1: Seq<u8>,
    r: Result<(), Error>,
) -> bool {
    match outcome.result {
        Err(e) => r == Err::<(), Error>(e) && out1 == out0,
        Ok(()) => match outcome.response {
            None => r is Ok && out1 == out0,
            Some(resp) => {
                let bytes = frame_bytes(enc_result(resp));
                if out0.len() + bytes.len() <= capacity {
                    r is Ok && out1 == out0 + bytes
                } else {
                    r == Err::<(), Error>(Error::DmaBufferOverflow) && out1 == out0
                }
            },
        },
    }
}

/// Frame a response and append it to the outbound buffer; a response that
/// does not fit is rejected whole.
fn send_answer(value: &CommandResult, out_buffer: &mut Buffer) -> (r: Result<(), Error>)
    requires
        old(out_buffer).wf(),
    ensures
        final(out_buffer).wf(),
        final(out_buffer).spec_capacity() == old(out_buffer).spec_capacity(),
        ({
            let bytes = frame_bytes(enc_result(value@));
            if old(out_buffer)@.len() + bytes.len() <= old(out_buffer).spec_capacity() {
                r is Ok && final(out_buffer)@ == old(out_buffer)@ + bytes
            } else {
                r == Err::<(), Error>(Error::DmaBufferOverflow) && final(out_buffer)@ == old(out_buffer)@
            }
        }),
{
    let frame = crate::frame::encode_result_frame(value);
    out_buffer.add(frame.as_slice())
}

/// The command dispatcher: the device's fixed hardware identity and its
/// optionally configured device number, both immutable after construction.
#[derive(Clone, Copy, PartialEq, Eq, Structural, Debug)]
pub struct Server {
    pub device_id: DeviceId,
    pub device_no: Option<u8>,
}

impl Server {
    /// A dispatcher for the device with the given identity and configured
    /// number (a device may have no number yet).
    pub fn new(device_id: DeviceId, device_no: Option<u8>) -> (r: Server)
        ensures
            r == (Server { device_id, device_no }),
    {
        Server { device_id, device_no }
    }
}

/// The first invalid duty in a list is unique: any index that is invalid
/// with an all-valid prefix is the one `first_invalid_duty` names.
proof fn lemma_first_invalid_unique(duties: Seq<i32>, i: int)
    requires
        0 <= i < duties.len(),
        !(0 <= duties[i] <= DUTY_SCALE),
        forall|k: int| 0 <= k < i ==> 0 <= #[trigger] duties[k] <= DUTY_SCALE,
    ensures
        first_invalid_duty(duties) == i,
{
    let j = first_invalid_duty(duties);
    assert(0 <= j < duties.len() && !(0 <= duties[j] <= DUTY_SCALE) && (forall|k: int|
        0 <= k < j ==> 0 <= #[trigger] duties[k] <= DUTY_SCALE));
}

impl Server {
    /// Dispatch one validated, addressed command: mutate the collaborator
    /// state as `spec_dispatch` describes, and deliver its response (if
    /// any) through the outbound buffer.
    #[verifier::rlimit(100)]
    #[verifier::spinoff_prover]
    fn process_client_command(
        &mut self,
        command: Command,
        out_buffer: &mut Buffer,
        storage: &mut Storage,
        channels: &mut PwmChannels,
        leds_state: &mut LedState,
    ) -> (r: Result<(), Error>)
        requires
            command@.wf(),
            old(out_buffer).wf(),
            old(storage).wf(),
            old(channels).wf(),
        ensures
            *final(self) == *old(self),
            final(out_buffer).wf(),
            final(storage).wf(),
            final(channels).wf(),
            final(out_buffer).spec_capacity() == old(out_buffer).spec_capacity(),
            final(storage).spec_fault() == old(storage).spec_fault(),
            ({
                let outcome = spec_dispatch(
                    command@,
                    old(self).device_id,
                    old(storage).spec_fault(),
                    old(storage).spec_mem(),
                    old(channels).spec_slots(),
                    old(leds_state).0,
                );
                final(storage).spec_mem() == outcome.mem && final(channels).spec_slots()
                    == outcome.slots && final(leds_state).0 == outcome.leds && response_delivery(
                    outcome,
                    old(out_buffer)@,
                    old(out_buffer).spec_capacity(),
                    final(out_buffer)@,
                    r,
                )
            }),
    {
        let id = command.id;
        let ghost cmd_view = command@;
        match command.data {
            CommandType::SetChannelEnabled(v) => {
                match channels.set_enabled_channel(v.channel, v.enabled) {
                    Ok(()) => send_answer(
                        &CommandResult::channel_enabled(id, v.channel, v.enabled),
                        out_buffer,
                    ),
                    Err(e) => send_answer(&CommandResult::err(id, e.to_command_error()), out_buffer),
                }
            },
            CommandType::SetAllChannelsSameEnabled(enabled) => {
                channels.set_enabled_all_same(enabled);
                proof {
                    assert(channels.spec_slots() =~= spec_slots_all_enabled(
                        old(channels).spec_slots(),
                        enabled,
                    ));
                }
                send_answer(&CommandResult::all_channels_same_enabled(id, enabled), out_buffer)
            },
            CommandType::SetAllChannelsEnabled(states) => {
                channels.set_enabled_all(&states);
                proof {
                    assert(channels.spec_slots() =~= spec_slots_enabled_list(
                        old(channels).spec_slots(),
                        states@,
                    ));
                }
                send_answer(&CommandResult::all_channels_enabled(id, states), out_buffer)
            },
            CommandType::SetChannelDuty(v) => {
                match channels.set_channel_duty(v.channel, v.duty) {
                    Ok(actual) => send_answer(
                        &CommandResult::channel_duty(id, v.channel, actual),
                        out_buffer,
                    ),
                    Err(e) => send_answer(&CommandResult::err(id, e.to_command_error()), out_buffer),
                }
            },
            CommandType::SetAllChannelsSameDuty(duty) => {
                match channels.set_all_duties_same(duty) {
                    Ok(()) => {
                        proof {
                            assert(channels.spec_slots() =~= spec_slots_all_duty(
                                old(channels).spec_slots(),
                                duty,
                            ));
                        }
                        send_answer(&CommandResult::all_channels_same_duty(id, duty), out_buffer)
                    },
                    Err(e) => send_answer(&CommandResult::err(id, e.to_command_error()), out_buffer),
                }
            },
            CommandType::SetAllChannelsDuty(duties) => {
                match channels.set_all_duties(&duties) {
                    Ok(()) => {
                        proof {
                            assert(channels.spec_slots() =~= spec_slots_duty_list(
                                old(channels).spec_slots(),
                                duties@,
                            ));
                        }
                        send_answer(&CommandResult::all_channels_duty(id, duties), out_buffer)
                    },
                    Err(e) => {
                        proof {
                            let w = choose|i: int|
                                0 <= i < duties@.len() && e == Error::DutyOverflow(
                                    #[trigger] duties@[i],
                                ) && !(0 <= duties@[i] <= DUTY_SCALE) && (forall|k: int|
                                    0 <= k < i ==> 0 <= #[trigger] duties@[k] <= DUTY_SCALE);
                            lemma_first_invalid_unique(duties@, w);
                        }
                        send_answer(&CommandResult::err(id, e.to_command_error()), out_buffer)
                    },
                }
            },
            CommandType::GetChannelDuty(channel) => {
                match channels.get_channel_duty(channel) {
                    Ok(duty) => send_answer(&CommandResult::channel_duty(id, channel, duty), out_buffer),
                    Err(e) => send_answer(&CommandResult::err(id, e.to_command_error()), out_buffer),
                }
            },
            CommandType::GetAllChannelsDuty => {
                let mut data: Vec<i32> = Vec::new();
                let mut i: usize = 0;
                while i < CHANNELS_COUNT
                    invariant
                        cmd_view == command@,
                        cmd_view.data == CommandTypeView::GetAllChannelsDuty,
                        i <= CHANNELS_COUNT,
                        i <= channels.spec_slots().len(),
                        channels.wf(),
                        *channels == *old(channels),
                        *out_buffer == *old(out_buffer),
                        *storage == *old(storage),
                        *leds_state == *old(leds_state),
                        *self == *old(self),
                        old(out_buffer).wf(),
                        old(storage).wf(),
                        data@ == spec_all_duties(old(channels).spec_slots()).take(i as int),
                    decreases CHANNELS_COUNT - i,
                {
                    match channels.get_channel_duty(i as u8) {
                        Ok(d) => {
                            data.push(d);
                            proof {
                                assert(data@ =~= spec_all_duties(old(channels).spec_slots()).take(
                                    i + 1 as int,
                                ));
                            }
                        },
                        Err(e) => {
                            proof {
                                assert(i == old(channels).spec_slots().len());
                                assert(old(channels).spec_slots().len() < CHANNELS_COUNT);
                                assert(e == Error::ChannelNotFound(
                                    old(channels).spec_slots().len() as u8,
                                ));
                            }
                            return Err(e);
                        },
                    }
                    i = i + 1;
                }
                proof {
                    assert(data@ =~= spec_all_duties(old(channels).spec_slots()));
                }
                send_answer(&CommandResult::all_channels_duty(id, data), out_buffer)
            },
            CommandType::GetChannelCount => {
                let count = channels.get_channels_count();
                send_answer(&CommandResult::channel_count(id, count), out_buffer)
            },
            CommandType::SetGroupFrequency(v) => {
                match storage.read_pwm_settings() {
                    Ok(pwm_settings) => {
                        let mut pwm_settings = pwm_settings;
                        match pwm_settings.set_group_freq(v.group, v.frequency) {
                            Ok(()) => {
                                match storage.save_pwm_settings(&pwm_settings) {
                                    Ok(()) => Ok(()),
                                    Err(e) => {
                                        proof {
                                            assert(false);
                                        }
                                        Err(e)
                                    },
                                }
                            },
                            Err(e) => send_answer(
                                &CommandResult::err(id, e.to_command_error()),
                                out_buffer,
                            ),
                        }
                    },
                    Err(e) => send_answer(&CommandResult::err(id, e.to_command_error()), out_buffer),
                }
            },
            CommandType::GetGroupFrequency(group) => {
                match storage.read_pwm_settings() {
                    Ok(pwm_settings) => {
                        match pwm_settings.get_group_freq(group) {
                            Ok(freq) => send_answer(
                                &CommandResult::group_frequency(id, group, freq),
                                out_buffer,
                            ),
                            Err(e) => send_answer(
                                &CommandResult::err(id, e.to_command_error()),
                                out_buffer,
                            ),
                        }
                    },
                    Err(e) => send_answer(&CommandResult::err(id, e.to_command_error()), out_buffer),
                }
            },
            CommandType::SetAllGroupsSameFrequency(freq) => {
                match storage.read_pwm_settings() {
                    Ok(pwm_settings) => {
                        let mut pwm_settings = pwm_settings;
                        pwm_settings.set_all_groups_same_freq(freq);
                        match storage.save_pwm_settings(&pwm_settings) {
                            Ok(()) => Ok(()),
                            Err(e) => {
                                proof {
                                    assert(false);
                                }
                                Err(e)
                            },
                        }
                    },
                    Err(e) => send_answer(&CommandResult::err(id, e.to_command_error()), out_buffer),
                }
            },
            CommandType::SetAllGroupsFrequency(freqs) => {
                match storage.read_pwm_settings() {
                    Ok(pwm_settings) => {
                        let mut pwm_settings = pwm_settings;
                        pwm_settings.set_all_groups_freq(&freqs);
                        match storage.save_pwm_settings(&pwm_settings) {
                            Ok(()) => Ok(()),
                            Err(e) => {
                                proof {
                                    assert(false);
                                }
                                Err(e)
                            },
                        }
                    },
                    Err(e) => send_answer(&CommandResult::err(id, e.to_command_error()), out_buffer),
                }
            },
            CommandType::GetAllGroupsFrequency => {
                match storage.read_pwm_settings() {
                    Ok(pwm_settings) => {
                        let freq = pwm_settings.get_all_groups_freq();
                        send_answer(&CommandResult::all_groups_frequency(id, freq), out_buffer)
                    },
                    Err(e) => send_answer(&CommandResult::err(id, e.to_command_error()), out_buffer),
                }
            },
            CommandType::GetDateTimestamp => Ok(()),
            CommandType::SetDateTimestamp(_) => Ok(()),
            CommandType::SetPinState(v) => {
                if v.pin < PINS_COUNT as u8 {
                    leds_state.set_high(v.pin, v.state);
                    let state = leds_state.is_high(v.pin);
                    send_answer(&CommandResult::pin_state(id, v.pin, state), out_buffer)
                } else {
                    send_answer(&CommandResult::err(id, CommandError::UnknownError), out_buffer)
                }
            },
            CommandType::GetPinState(pin) => {
                if pin < PINS_COUNT as u8 {
                    let state = leds_state.is_high(pin);
                    send_answer(&CommandResult::pin_state(id, pin, state), out_buffer)
                } else {
                    send_answer(&CommandResult::err(id, CommandError::UnknownError), out_buffer)
                }
            },
            CommandType::SetAllPinsState(states) => {
                let mut i: usize = 0;
                while i < PINS_COUNT
                    invariant
                        i <= PINS_COUNT,
                        states@.len() == PINS_COUNT,
                        leds_state.0 == spec_set_bits(old(leds_state).0, states@, i as nat),
                    decreases PINS_COUNT - i,
                {
                    leds_state.set_high(i as u8, states[i]);
                    i = i + 1;
                }
                send_answer(&CommandResult::all_pins_state(id, states), out_buffer)
            },
            CommandType::SetAllPinsSameState(state) => {
                let ghost wanted = Seq::new(PINS_COUNT as nat, |i: int| state);
                let mut i: usize = 0;
                while i < PINS_COUNT
                    invariant
                        i <= PINS_COUNT,
                        leds_state.0 == spec_set_bits(old(leds_state).0, wanted, i as nat),
                        wanted == Seq::new(PINS_COUNT as nat, |k: int| state),
                    decreases PINS_COUNT - i,
                {
                    leds_state.set_high(i as u8, state);
                    i = i + 1;
                }
                send_answer(&CommandResult::all_pin_same_state(id, state), out_buffer)
            },
            CommandType::GetAllPinsState => {
                let ghost wanted = Seq::new(
                    PINS_COUNT as nat,
                    |i: int| led_bit(leds_state.0, i as u8),
                );
                let mut data: Vec<bool> = Vec::new();
                let mut i: usize = 0;
                while i < PINS_COUNT
                    invariant
                        i <= PINS_COUNT,
                        *leds_state == *old(leds_state),
                        data@ == wanted.take(i as int),
                        wanted == Seq::new(PINS_COUNT as nat, |k: int| led_bit(leds_state.0, k as u8)),
                    decreases PINS_COUNT - i,
                {
                    data.push(leds_state.is_high(i as u8));
                    proof {
                        assert(data@ =~= wanted.take(i + 1 as int));
                    }
                    i = i + 1;
                }
                proof {
                    assert(data@ =~= wanted);
                }
                send_answer(&CommandResult::all_pins_state(id, data), out_buffer)
            },
            CommandType::GetDeviceId => {
                send_answer(&CommandResult::device_id(id, self.device_id), out_buffer)
            },
        }
    }
}

impl Server {
    /// Service one received byte batch, as `spec_idle` describes: legacy
    /// single-byte fast path first, then frame decode and addressed
    /// dispatch; a frame that decodes as neither request nor response is
    /// answered with an error result addressed to id 0.
    pub fn idle(
        &mut self,
        input_data: &[u8],
        out_buffer: &mut Buffer,
        storage: &mut Storage,
        channels: &mut PwmChannels,
        leds_state: &mut LedState,
    ) -> (r: Result<(), Error>)
        requires
            old(out_buffer).wf(),
            old(storage).wf(),
            old(channels).wf(),
        ensures
            *final(self) == *old(self),
            final(out_buffer).wf(),
            final(storage).wf(),
            final(channels).wf(),
            final(out_buffer).spec_capacity() == old(out_buffer).spec_capacity(),
            final(storage).spec_fault() == old(storage).spec_fault(),
            ({
                let outcome = spec_idle(
                    old(self).device_id,
                    old(self).device_no,
                    input_data@,
                    old(storage).spec_fault(),
                    old(storage).spec_mem(),
                    old(channels).spec_slots(),
                    old(leds_state).0,
                );
                final(storage).spec_mem() == outcome.mem && final(channels).spec_slots()
                    == outcome.slots && final(leds_state).0 == outcome.leds && response_delivery(
                    outcome,
                    old(out_buffer)@,
                    old(out_buffer).spec_capacity(),
                    final(out_buffer)@,
                    r,
                )
            }),
    {
        if input_data.len() == 1 {
            let value = input_data[0];
            if value < 8 {
                let on = (value & 0x04) >> 2;
                let led = value & 0x03;
                proof {
                    assert(value & 0x03 < 8) by (bit_vector);
                }
                leds_state.set_high(led, on == 1);
            } else if value > 15 && value < 32 {
                leds_state.set_mask(value & 0x0F);
            }
        }
        match crate::frame::decode_request_frame(input_data) {
            Some(request) => match request {
                Request::Broadcast(_) => Ok(()),
                Request::ByDeviceId(_, _) => Ok(()),
                Request::ByDeviceNumber(target) => {
                    let matched = match self.device_no {
                        Some(no) => target.is_no(no),
                        None => false,
                    };
                    if matched {
                        self.process_client_command(
                            target.command,
                            out_buffer,
                            storage,
                            channels,
                            leds_state,
                        )
                    } else {
                        Ok(())
                    }
                },
            },
            None => match crate::frame::decode_result_frame(input_data) {
                Some(_) => Ok(()),
                None => send_answer(
                    &CommandResult::err(
                        0,
                        Error::SerializedDataError(CodecFault::IntegrityFault).to_command_error(),
                    ),
                    out_buffer,
                ),
            },
        }
    }
}


/// Addressing law: a by-device-number request whose target number is not
/// this device's configured number (or arriving when no number is
/// configured) is silently ignored — no response is emitted and no channel,
/// storage or pin state changes.
pub proof fn lemma_foreign_number_ignored(
    device_id: DeviceId,
    device_no: Option<u8>,
    input: Seq<u8>,
    fault: Option<FlashFault>,
    mem: Seq<u8>,
    slots: Seq<ChannelSlot>,
    leds: u8,
)
    requires
        spec_decode_request_frame(input) matches Some(r) && r matches RequestView::ByDeviceNumber(t)
            && !(device_no matches Some(no) && t.number == no),
    ensures
        ({
            let o = spec_idle(device_id, device_no, input, fault, mem, slots, leds);
            o.mem == mem && o.slots == slots && o.leds == leds && o.response is None
                && o.result is Ok
        }),
{
    // a one-byte input cannot carry a four-byte checksum, so the legacy
    // path cannot have fired for a decodable frame
    assert(input.len() >= 4);
}

/// Last-writer-wins on the shared pin bitset: the legacy byte 0b101 drives
/// pin 1 high; a structured command that then drives pin 1 low leaves pin 1
/// exactly low — the earlier write is not lost, it is overwritten.
pub proof fn lemma_pin_last_writer_wins(
    device_id: DeviceId,
    no: u8,
    input2: Seq<u8>,
    fault: Option<FlashFault>,
    mem: Seq<u8>,
    slots: Seq<ChannelSlot>,
    leds0: u8,
    id: u32,
)
    requires
        spec_decode_request_frame(input2) == Some(
            RequestView::ByDeviceNumber(
                crate::protocol::DeviceNoTargetView {
                    number: no,
                    command: CommandView {
                        id,
                        data: CommandTypeView::SetPinState(
                            crate::protocol::PinLevel { pin: 1u8, state: false },
                        ),
                    },
                },
            ),
        ),
    ensures
        ({
            let first = spec_idle(device_id, Some(no), seq![5u8], fault, mem, slots, leds0);
            &&& led_bit(first.leds, 1u8)
            &&& !led_bit(
                spec_idle(device_id, Some(no), input2, fault, mem, slots, first.leds).leds,
                1u8,
            )
        }),
{
    let first = spec_idle(device_id, Some(no), seq![5u8], fault, mem, slots, leds0);
    assert(seq![5u8].len() == 1);
    assert((5u8 & 0x03) == 1u8 && ((5u8 & 0x04) >> 2) == 1u8) by (bit_vector);
    assert(first.leds == spec_set_bit(leds0, 1u8, true));
    assert(forall|x: u8| #[trigger] led_bit(spec_set_bit(x, 1u8, true), 1u8)) by (bit_vector);
    let second = spec_idle(device_id, Some(no), input2, fault, mem, slots, first.leds);
    assert(second.leds == spec_set_bit(first.leds, 1u8, false));
    assert(forall|x: u8| !(#[trigger] led_bit(spec_set_bit(x, 1u8, false), 1u8))) by (bit_vector);
}

/// Batch-abort law: the batch duty query over channel indices
/// `0 .. CHANNELS_COUNT` aborts on the first index the device does not
/// expose, propagating that channel's not-found error, with no response
/// emitted and no state touched.
pub proof fn lemma_batch_duty_aborts(
    id: u32,
    device_id: DeviceId,
    fault: Option<FlashFault>,
    mem: Seq<u8>,
    slots: Seq<ChannelSlot>,
    leds: u8,
)
    requires
        slots.len() < CHANNELS_COUNT,
    ensures
        ({
            let o = spec_dispatch(
                CommandView { id, data: CommandTypeView::GetAllChannelsDuty },
                device_id,
                fault,
                mem,
                slots,
                leds,
            );
            o.result == Err::<(), Error>(Error::ChannelNotFound(slots.len() as u8)) && o.response
                is None && o.mem == mem && o.slots == slots && o.leds == leds
        }),
{
}

} // verus!
