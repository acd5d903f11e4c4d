//! Command/response domain model: the closed set of request and response
//! variants, their addressing wrapper, and the per-field value types.
//!
//! Each type that carries a vector has a mathematical view (`@`) in which the
//! vector is a `Seq`; contracts and the codec specification speak about the
//! views.
//!
//! Duty cycles are fixed-point values: `crate::DUTY_SCALE` stands for a duty
//! of 1.0, `0` for 0.0. Negative values and values above `DUTY_SCALE` are
//! representable so that out-of-range requests can be echoed back exactly in
//! a `DutyOverflow` error.

use vstd::prelude::*;

use crate::errors::CommandError;
use crate::CHANNELS_COUNT;
use crate::GROUPS_COUNT;
use crate::PINS_COUNT;

verus! {

/// A channel index together with a fixed-point duty value.
#[derive(Clone, Copy, PartialEq, Eq, Structural, Debug)]
pub struct ChannelDuty {
    pub channel: u8,
    pub duty: i32,
}

/// A channel index together with an enabled flag.
#[derive(Clone, Copy, PartialEq, Eq, Structural, Debug)]
pub struct ChannelEnabled {
    pub channel: u8,
    pub enabled: bool,
}

/// A group index together with a frequency in Hz.
#[derive(Clone, Copy, PartialEq, Eq, Structural, Debug)]
pub struct GroupFrequency {
    pub group: u8,
    pub frequency: u32,
}

/// A pin index together with its requested boolean state.
#[derive(Clone, Copy, PartialEq, Eq, Structural, Debug)]
pub struct PinLevel {
    pub pin: u8,
    pub state: bool,
}

/// The fixed hardware identity of a device: three 32-bit words read from the
/// device at boot.
#[derive(Clone, Copy, PartialEq, Eq, Structural, Debug)]
pub struct DeviceId {
    pub word0: u32,
    pub word1: u32,
    pub word2: u32,
}

/// The closed set of operations a client can request.
#[derive(Clone, PartialEq, Eq, Debug)]
pub enum CommandType {
    SetChannelEnabled(ChannelEnabled),
    SetAllChannelsSameEnabled(bool),
    SetAllChannelsEnabled(Vec<bool>),
    SetChannelDuty(ChannelDuty),
    SetAllChannelsSameDuty(i32),
    SetAllChannelsDuty(Vec<i32>),
    GetChannelDuty(u8),
    GetAllChannelsDuty,
    GetChannelCount,
    SetGroupFrequency(GroupFrequency),
    GetGroupFrequency(u8),
    SetAllGroupsSameFrequency(u32),
    SetAllGroupsFrequency(Vec<u32>),
    GetAllGroupsFrequency,
    GetDateTimestamp,
    SetDateTimestamp(u64),
    SetPinState(PinLevel),
    GetPinState(u8),
    SetAllPinsState(Vec<bool>),
    SetAllPinsSameState(bool),
    GetAllPinsState,
    GetDeviceId,
}

/// Mathematical view of `CommandType`: vectors become sequences.
pub enum CommandTypeView {
    SetChannelEnabled(ChannelEnabled),
    SetAllChannelsSameEnabled(bool),
    SetAllChannelsEnabled(Seq<bool>),
    SetChannelDuty(ChannelDuty),
    SetAllChannelsSameDuty(i32),
    SetAllChannelsDuty(Seq<i32>),
    GetChannelDuty(u8),
    GetAllChannelsDuty,
    GetChannelCount,
    SetGroupFrequency(GroupFrequency),
    GetGroupFrequency(u8),
    SetAllGroupsSameFrequency(u32),
    SetAllGroupsFrequency(Seq<u32>),
    GetAllGroupsFrequency,
    GetDateTimestamp,
    SetDateTimestamp(u64),
    SetPinState(PinLevel),
    GetPinState(u8),
    SetAllPinsState(Seq<bool>),
    SetAllPinsSameState(bool),
    GetAllPinsState,
    GetDeviceId,
}

impl View for CommandType {
    type V = CommandTypeView;

    open spec fn view(&self) -> CommandTypeView {
        match self {
            CommandType::SetChannelEnabled(v) => CommandTypeView::SetChannelEnabled(*v),
            CommandType::SetAllChannelsSameEnabled(v) => CommandTypeView::SetAllChannelsSameEnabled(*v),
            CommandType::SetAllChannelsEnabled(v) => CommandTypeView::SetAllChannelsEnabled(v@),
            CommandType::SetChannelDuty(v) => CommandTypeView::SetChannelDuty(*v),
            CommandType::SetAllChannelsSameDuty(v) => CommandTypeView::SetAllChannelsSameDuty(*v),
            CommandType::SetAllChannelsDuty(v) => CommandTypeView::SetAllChannelsDuty(v@),
            CommandType::GetChannelDuty(v) => CommandTypeView::GetChannelDuty(*v),
            CommandType::GetAllChannelsDuty => CommandTypeView::GetAllChannelsDuty,
            CommandType::GetChannelCount => CommandTypeView::GetChannelCount,
            CommandType::SetGroupFrequency(v) => CommandTypeView::SetGroupFrequency(*v),
            CommandType::GetGroupFrequency(v) => CommandTypeView::GetGroupFrequency(*v),
            CommandType::SetAllGroupsSameFrequency(v) => CommandTypeView::SetAllGroupsSameFrequency(*v),
            CommandType::SetAllGroupsFrequency(v) => CommandTypeView::SetAllGroupsFrequency(v@),
            CommandType::GetAllGroupsFrequency => CommandTypeView::GetAllGroupsFrequency,
            CommandType::GetDateTimestamp => CommandTypeView::GetDateTimestamp,
            CommandType::SetDateTimestamp(v) => CommandTypeView::SetDateTimestamp(*v),
            CommandType::SetPinState(v) => CommandTypeView::SetPinState(*v),
            CommandType::GetPinState(v) => CommandTypeView::GetPinState(*v),
            CommandType::SetAllPinsState(v) => CommandTypeView::SetAllPinsState(v@),
            CommandType::SetAllPinsSameState(v) => CommandTypeView::SetAllPinsSameState(*v),
            CommandType::GetAllPinsState => CommandTypeView::GetAllPinsState,
            CommandType::GetDeviceId => CommandTypeView::GetDeviceId,
        }
    }
}

/// A caller-assigned correlation id together with the requested operation.
/// The id is echoed back in the matching `CommandResult`.
#[derive(Clone, PartialEq, Eq, Debug)]
pub struct Command {
    pub id: u32,
    pub data: CommandType,
}

/// Mathematical view of `Command`.
pub struct CommandView {
    pub id: u32,
    pub data: CommandTypeView,
}

impl View for Command {
    type V = CommandView;

    open spec fn view(&self) -> CommandView {
        CommandView { id: self.id, data: self.data@ }
    }
}

/// A command addressed to one device by its configured device number.
#[derive(Clone, PartialEq, Eq, Debug)]
pub struct DeviceNoTarget {
    pub number: u8,
    pub command: Command,
}

/// Mathematical view of `DeviceNoTarget`.
pub struct DeviceNoTargetView {
    pub number: u8,
    pub command: CommandView,
}

impl View for DeviceNoTarget {
    type V = DeviceNoTargetView;

    open spec fn view(&self) -> DeviceNoTargetView {
        DeviceNoTargetView { number: self.number, command: self.command@ }
    }
}

/// The addressing wrapper of a command on the shared bus.
#[derive(Clone, PartialEq, Eq, Debug)]
pub enum Request {
    Broadcast(Command),
    ByDeviceId(DeviceId, Command),
    ByDeviceNumber(DeviceNoTarget),
}

/// Mathematical view of `Request`.
pub enum RequestView {
    Broadcast(CommandView),
    ByDeviceId(DeviceId, CommandView),
    ByDeviceNumber(DeviceNoTargetView),
}

impl View for Request {
    type V = RequestView;

    open spec fn view(&self) -> RequestView {
        match self {
            Request::Broadcast(c) => RequestView::Broadcast(c@),
            Request::ByDeviceId(d, c) => RequestView::ByDeviceId(*d, c@),
            Request::ByDeviceNumber(t) => RequestView::ByDeviceNumber(t@),
        }
    }
}

/// The success shape mirrored back for each `CommandType`, echoing the
/// mutated or queried value.
#[derive(PartialEq, Eq, Debug)]
pub enum ResultPayload {
    ChannelEnabled(ChannelEnabled),
    AllChannelsSameEnabled(bool),
    AllChannelsEnabled(Vec<bool>),
    ChannelDuty(ChannelDuty),
    AllChannelsSameDuty(i32),
    AllChannelsDuty(Vec<i32>),
    ChannelCount(u8),
    GroupFrequency(GroupFrequency),
    AllGroupsFrequency(Vec<u32>),
    PinLevel(PinLevel),
    AllPinsState(Vec<bool>),
    AllPinsSameState(bool),
    DeviceId(DeviceId),
}

/// Mathematical view of `ResultPayload`.
pub enum ResultPayloadView {
    ChannelEnabled(ChannelEnabled),
    AllChannelsSameEnabled(bool),
    AllChannelsEnabled(Seq<bool>),
    ChannelDuty(ChannelDuty),
    AllChannelsSameDuty(i32),
    AllChannelsDuty(Seq<i32>),
    ChannelCount(u8),
    GroupFrequency(GroupFrequency),
    AllGroupsFrequency(Seq<u32>),
    PinLevel(PinLevel),
    AllPinsState(Seq<bool>),
    AllPinsSameState(bool),
    DeviceId(DeviceId),
}

impl View for ResultPayload {
    type V = ResultPayloadView;

    open spec fn view(&self) -> ResultPayloadView {
        match self {
            ResultPayload::ChannelEnabled(v) => ResultPayloadView::ChannelEnabled(*v),
            ResultPayload::AllChannelsSameEnabled(v) => ResultPayloadView::AllChannelsSameEnabled(*v),
            ResultPayload::AllChannelsEnabled(v) => ResultPayloadView::AllChannelsEnabled(v@),
            ResultPayload::ChannelDuty(v) => ResultPayloadView::ChannelDuty(*v),
            ResultPayload::AllChannelsSameDuty(v) => ResultPayloadView::AllChannelsSameDuty(*v),
            ResultPayload::AllChannelsDuty(v) => ResultPayloadView::AllChannelsDuty(v@),
            ResultPayload::ChannelCount(v) => ResultPayloadView::ChannelCount(*v),
            ResultPayload::GroupFrequency(v) => ResultPayloadView::GroupFrequency(*v),
            ResultPayload::AllGroupsFrequency(v) => ResultPayloadView::AllGroupsFrequency(v@),
            ResultPayload::PinLevel(v) => ResultPayloadView::PinLevel(*v),
            ResultPayload::AllPinsState(v) => ResultPayloadView::AllPinsState(v@),
            ResultPayload::AllPinsSameState(v) => ResultPayloadView::AllPinsSameState(*v),
            ResultPayload::DeviceId(v) => ResultPayloadView::DeviceId(*v),
        }
    }
}

/// The response to one command: the echoed id and either a success payload
/// or a wire-safe error tag.
#[derive(PartialEq, Eq, Debug)]
pub struct CommandResult {
    pub id: u32,
    pub data: Result<ResultPayload, CommandError>,
}

/// Mathematical view of `CommandResult`.
pub struct CommandResultView {
    pub id: u32,
    pub data: Result<ResultPayloadView, CommandError>,
}

impl View for CommandResult {
    type V = CommandResultView;

    open spec fn view(&self) -> CommandResultView {
        CommandResultView {
            id: self.id,
            data: match self.data {
                Ok(payload) => Ok(payload@),
                Err(error) => Err(error),
            },
        }
    }
}

impl Clone for ResultPayload {
    fn clone(&self) -> (r: Self)
        ensures
            r@ == self@,
    {
        match self {
            ResultPayload::ChannelEnabled(v) => ResultPayload::ChannelEnabled(*v),
            ResultPayload::AllChannelsSameEnabled(v) => ResultPayload::AllChannelsSameEnabled(*v),
            ResultPayload::AllChannelsEnabled(v) => ResultPayload::AllChannelsEnabled(clone_bool_vec(v)),
            ResultPayload::ChannelDuty(v) => ResultPayload::ChannelDuty(*v),
            ResultPayload::AllChannelsSameDuty(v) => ResultPayload::AllChannelsSameDuty(*v),
            ResultPayload::AllChannelsDuty(v) => ResultPayload::AllChannelsDuty(clone_i32_vec(v)),
            ResultPayload::ChannelCount(v) => ResultPayload::ChannelCount(*v),
            ResultPayload::GroupFrequency(v) => ResultPayload::GroupFrequency(*v),
            ResultPayload::AllGroupsFrequency(v) => ResultPayload::AllGroupsFrequency(clone_u32_vec(v)),
            ResultPayload::PinLevel(v) => ResultPayload::PinLevel(*v),
            ResultPayload::AllPinsState(v) => ResultPayload::AllPinsState(clone_bool_vec(v)),
            ResultPayload::AllPinsSameState(v) => ResultPayload::AllPinsSameState(*v),
            ResultPayload::DeviceId(v) => ResultPayload::DeviceId(*v),
        }
    }
}

impl Clone for CommandResult {
    fn clone(&self) -> (r: Self)
        ensures
            r@ == self@,
    {
        CommandResult {
            id: self.id,
            data: match &self.data {
                Ok(payload) => Ok(payload.clone()),
                Err(error) => Err(*error),
            },
        }
    }
}

/// Element-wise copy of a boolean vector.
fn clone_bool_vec(v: &Vec<bool>) -> (r: Vec<bool>)
    ensures
        r@ == v@,
{
    let mut out: Vec<bool> = Vec::new();
    let mut i: usize = 0;
    while i < v.len()
        invariant
            i <= v.len(),
            out@ == v@.take(i as int),
        decreases v.len() - i,
    {
        out.push(v[i]);
        proof {
            assert(out@ =~= v@.take(i + 1 as int));
        }
        i = i + 1;
    }
    proof {
        assert(v@.take(v.len() as int) =~= v@);
    }
    out
}

/// Element-wise copy of a duty vector.
fn clone_i32_vec(v: &Vec<i32>) -> (r: Vec<i32>)
    ensures
        r@ == v@,
{
    let mut out: Vec<i32> = Vec::new();
    let mut i: usize = 0;
    while i < v.len()
        invariant
            i <= v.len(),
            out@ == v@.take(i as int),
        decreases v.len() - i,
    {
        out.push(v[i]);
        proof {
            assert(out@ =~= v@.take(i + 1 as int));
        }
        i = i + 1;
    }
    proof {
        assert(v@.take(v.len() as int) =~= v@);
    }
    out
}

/// Element-wise copy of a frequency vector.
fn clone_u32_vec(v: &Vec<u32>) -> (r: Vec<u32>)
    ensures
        r@ == v@,
{
    let mut out: Vec<u32> = Vec::new();
    let mut i: usize = 0;
    while i < v.len()
        invariant
            i <= v.len(),
            out@ == v@.take(i as int),
        decreases v.len() - i,
    {
        out.push(v[i]);
        proof {
            assert(out@ =~= v@.take(i + 1 as int));
        }
        i = i + 1;
    }
    proof {
        assert(v@.take(v.len() as int) =~= v@);
    }
    out
}

impl DeviceNoTarget {
    /// Whether this command is addressed to device number `no`.
    pub fn is_no(&self, no: u8) -> (r: bool)
        ensures
            r == (no == self.number),
    {
        self.number == no
    }
}

impl CommandTypeView {
    /// Batch variants must carry exactly one entry per channel, group or pin.
    pub open spec fn wf(self) -> bool {
        match self {
            CommandTypeView::SetAllChannelsEnabled(states) => states.len() == CHANNELS_COUNT,
            CommandTypeView::SetAllChannelsDuty(duties) => duties.len() == CHANNELS_COUNT,
            CommandTypeView::SetAllGroupsFrequency(freqs) => freqs.len() == GROUPS_COUNT,
            CommandTypeView::SetAllPinsState(states) => states.len() == PINS_COUNT,
            _ => true,
        }
    }
}

impl CommandView {
    pub open spec fn wf(self) -> bool {
        self.data.wf()
    }
}

impl RequestView {
    pub open spec fn wf(self) -> bool {
        match self {
            RequestView::Broadcast(command) => command.wf(),
            RequestView::ByDeviceId(_, command) => command.wf(),
            RequestView::ByDeviceNumber(target) => target.command.wf(),
        }
    }
}

impl ResultPayloadView {
    /// Batch variants must carry exactly one entry per channel, group or pin.
    pub open spec fn wf(self) -> bool {
        match self {
            ResultPayloadView::AllChannelsEnabled(states) => states.len() == CHANNELS_COUNT,
            ResultPayloadView::AllChannelsDuty(duties) => duties.len() == CHANNELS_COUNT,
            ResultPayloadView::AllGroupsFrequency(freqs) => freqs.len() == GROUPS_COUNT,
            ResultPayloadView::AllPinsState(states) => states.len() == PINS_COUNT,
            _ => true,
        }
    }
}

impl CommandResultView {
    pub open spec fn wf(self) -> bool {
        match self.data {
            Ok(payload) => payload.wf(),
            Err(_) => true,
        }
    }
}

impl CommandResult {
    /// A response reporting the enabled state of one channel.
    pub fn channel_enabled(id: u32, channel: u8, enabled: bool) -> (r: CommandResult)
        ensures
            r@ == (CommandResultView {
                id,
                data: Ok::<ResultPayloadView, CommandError>(
                    ResultPayloadView::ChannelEnabled(ChannelEnabled { channel, enabled }),
                ),
            }),
    {
        CommandResult { id, data: Ok(ResultPayload::ChannelEnabled(ChannelEnabled { channel, enabled })) }
    }

    /// A response confirming that every channel was set to one enabled state.
    pub fn all_channels_same_enabled(id: u32, enabled: bool) -> (r: CommandResult)
        ensures
            r@ == (CommandResultView {
                id,
                data: Ok::<ResultPayloadView, CommandError>(
                    ResultPayloadView::AllChannelsSameEnabled(enabled),
                ),
            }),
    {
        CommandResult { id, data: Ok(ResultPayload::AllChannelsSameEnabled(enabled)) }
    }

    /// A response echoing per-channel enabled states.
    pub fn all_channels_enabled(id: u32, states: Vec<bool>) -> (r: CommandResult)
        ensures
            r@ == (CommandResultView {
                id,
                data: Ok::<ResultPayloadView, CommandError>(
                    ResultPayloadView::AllChannelsEnabled(states@),
                ),
            }),
    {
        CommandResult { id, data: Ok(ResultPayload::AllChannelsEnabled(states)) }
    }

    /// A response reporting the duty of one channel.
    pub fn channel_duty(id: u32, channel: u8, duty: i32) -> (r: CommandResult)
        ensures
            r@ == (CommandResultView {
                id,
                data: Ok::<ResultPayloadView, CommandError>(
                    ResultPayloadView::ChannelDuty(ChannelDuty { channel, duty }),
                ),
            }),
    {
        CommandResult { id, data: Ok(ResultPayload::ChannelDuty(ChannelDuty { channel, duty })) }
    }

    /// A response confirming that every channel was set to one duty.
    pub fn all_channels_same_duty(id: u32, duty: i32) -> (r: CommandResult)
        ensures
            r@ == (CommandResultView {
                id,
                data: Ok::<ResultPayloadView, CommandError>(
                    ResultPayloadView::AllChannelsSameDuty(duty),
                ),
            }),
    {
        CommandResult { id, data: Ok(ResultPayload::AllChannelsSameDuty(duty)) }
    }

    /// A response echoing per-channel duties.
    pub fn all_channels_duty(id: u32, duties: Vec<i32>) -> (r: CommandResult)
        ensures
            r@ == (CommandResultView {
                id,
                data: Ok::<ResultPayloadView, CommandError>(
                    ResultPayloadView::AllChannelsDuty(duties@),
                ),
            }),
    {
        CommandResult { id, data: Ok(ResultPayload::AllChannelsDuty(duties)) }
    }

    /// A response reporting how many channels the device exposes.
    pub fn channel_count(id: u32, count: u8) -> (r: CommandResult)
        ensures
            r@ == (CommandResultView {
                id,
                data: Ok::<ResultPayloadView, CommandError>(ResultPayloadView::ChannelCount(count)),
            }),
    {
        CommandResult { id, data: Ok(ResultPayload::ChannelCount(count)) }
    }

    /// A response reporting the frequency of one group.
    pub fn group_frequency(id: u32, group: u8, frequency: u32) -> (r: CommandResult)
        ensures
            r@ == (CommandResultView {
                id,
                data: Ok::<ResultPayloadView, CommandError>(
                    ResultPayloadView::GroupFrequency(GroupFrequency { group, frequency }),
                ),
            }),
    {
        CommandResult { id, data: Ok(ResultPayload::GroupFrequency(GroupFrequency { group, frequency })) }
    }

    /// A response echoing per-group frequencies.
    pub fn all_groups_frequency(id: u32, frequencies: Vec<u32>) -> (r: CommandResult)
        ensures
            r@ == (CommandResultView {
                id,
                data: Ok::<ResultPayloadView, CommandError>(
                    ResultPayloadView::AllGroupsFrequency(frequencies@),
                ),
            }),
    {
        CommandResult { id, data: Ok(ResultPayload::AllGroupsFrequency(frequencies)) }
    }

    /// A response reporting the state of one pin.
    pub fn pin_state(id: u32, pin: u8, state: bool) -> (r: CommandResult)
        ensures
            r@ == (CommandResultView {
                id,
                data: Ok::<ResultPayloadView, CommandError>(
                    ResultPayloadView::PinLevel(PinLevel { pin, state }),
                ),
            }),
    {
        CommandResult { id, data: Ok(ResultPayload::PinLevel(PinLevel { pin, state })) }
    }

    /// A response echoing per-pin states.
    pub fn all_pins_state(id: u32, states: Vec<bool>) -> (r: CommandResult)
        ensures
            r@ == (CommandResultView {
                id,
                data: Ok::<ResultPayloadView, CommandError>(
                    ResultPayloadView::AllPinsState(states@),
                ),
            }),
    {
        CommandResult { id, data: Ok(ResultPayload::AllPinsState(states)) }
    }

    /// A response confirming that every pin was set to one state.
    pub fn all_pin_same_state(id: u32, state: bool) -> (r: CommandResult)
        ensures
            r@ == (CommandResultView {
                id,
                data: Ok::<ResultPayloadView, CommandError>(
                    ResultPayloadView::AllPinsSameState(state),
                ),
            }),
    {
        CommandResult { id, data: Ok(ResultPayload::AllPinsSameState(state)) }
    }

    /// A response reporting the device's hardware identity.
    pub fn device_id(id: u32, device: DeviceId) -> (r: CommandResult)
        ensures
            r@ == (CommandResultView {
                id,
                data: Ok::<ResultPayloadView, CommandError>(ResultPayloadView::DeviceId(device)),
            }),
    {
        CommandResult { id, data: Ok(ResultPayload::DeviceId(device)) }
    }

    /// An error response carrying a wire-safe error tag.
    pub fn err(id: u32, error: CommandError) -> (r: CommandResult)
        ensures
            r@ == (CommandResultView { id, data: Err::<ResultPayloadView, CommandError>(error) }),
    {
        CommandResult { id, data: Err(error) }
    }
}

} // verus!
