//! Dispatcher, storage and transfer-management tests: addressed dispatch,
//! busy rejection, batch abort, duty validation, storage fallback and the
//! legacy byte path.

use dimmer_core::communication::service_receive_timeout;
use dimmer_core::communication::Buffer;
use dimmer_core::communication::LedState;
use dimmer_core::communication::RxTransfer;
use dimmer_core::communication::TxTransfer;
use dimmer_core::debug_led::DebugLed;
use dimmer_core::errors::CommandError;
use dimmer_core::errors::Error;
use dimmer_core::errors::FlashFault;
use dimmer_core::frame::decode_result_frame;
use dimmer_core::frame::encode_request_frame;
use dimmer_core::protocol::ChannelDuty;
use dimmer_core::protocol::ChannelEnabled;
use dimmer_core::protocol::Command;
use dimmer_core::protocol::CommandType;
use dimmer_core::protocol::DeviceId;
use dimmer_core::protocol::DeviceNoTarget;
use dimmer_core::protocol::GroupFrequency;
use dimmer_core::protocol::PinLevel;
use dimmer_core::protocol::Request;
use dimmer_core::protocol::ResultPayload;
use dimmer_core::pwm_service::PwmChannels;
use dimmer_core::pwm_service::PwmSettings;
use dimmer_core::server::Server;
use dimmer_core::storage::DeviceSettings;
use dimmer_core::storage::Storage;
use dimmer_core::CHANNELS_COUNT;
use dimmer_core::CHANNELS_16_COUNT;
use dimmer_core::CHANNELS_32_COUNT;
use dimmer_core::DUTY_SCALE;

const DEVICE_NO: u8 = 5;

fn device_id() -> DeviceId {
    DeviceId { word0: 0x11111111, word1: 0x22222222, word2: 0x33333333 }
}

fn full_channels() -> PwmChannels {
    let wide: Vec<u32> = vec![1000; CHANNELS_32_COUNT];
    let narrow: Vec<u16> = vec![100; CHANNELS_16_COUNT];
    PwmChannels::create(&wide, &narrow)
}

fn frame_for(command: CommandType) -> Vec<u8> {
    encode_request_frame(&Request::ByDeviceNumber(DeviceNoTarget {
        number: DEVICE_NO,
        command: Command { id: 1, data: command },
    }))
}

struct Rig {
    server: Server,
    out: Buffer,
    storage: Storage,
    channels: PwmChannels,
    leds: LedState,
}

impl Rig {
    fn new() -> Rig {
        Rig {
            server: Server::new(device_id(), Some(DEVICE_NO)),
            out: Buffer::new(256),
            storage: Storage::new(),
            channels: full_channels(),
            leds: LedState::new(),
        }
    }

    fn run(&mut self, input: &[u8]) -> Result<(), Error> {
        self.server.idle(input, &mut self.out, &mut self.storage, &mut self.channels, &mut self.leds)
    }

    fn response(&self) -> dimmer_core::protocol::CommandResult {
        decode_result_frame(self.out.contents()).expect("expected one decodable response frame")
    }
}

#[test]
fn matching_number_is_dispatched() {
    let mut rig = Rig::new();
    rig.run(&frame_for(CommandType::GetChannelCount)).unwrap();
    let response = rig.response();
    assert_eq!(response.id, 1);
    assert_eq!(response.data, Ok(ResultPayload::ChannelCount(CHANNELS_COUNT as u8)));
}

#[test]
fn foreign_number_is_ignored_and_mutates_nothing() {
    let mut rig = Rig::new();
    let frame = encode_request_frame(&Request::ByDeviceNumber(DeviceNoTarget {
        number: DEVICE_NO + 1,
        command: Command {
            id: 9,
            data: CommandType::SetChannelDuty(ChannelDuty { channel: 0, duty: DUTY_SCALE }),
        },
    }));
    rig.run(&frame).unwrap();
    assert_eq!(rig.out.len(), 0);
    assert_eq!(rig.channels.get_channel_duty(0), Ok(0));
    assert!(!rig.leds.is_high(0));
}

#[test]
fn unnumbered_device_answers_nobody() {
    let mut rig = Rig::new();
    rig.server = Server::new(device_id(), None);
    rig.run(&frame_for(CommandType::GetChannelCount)).unwrap();
    assert_eq!(rig.out.len(), 0);
}

#[test]
fn broadcast_is_accepted_but_not_acted_upon() {
    let mut rig = Rig::new();
    let frame = encode_request_frame(&Request::Broadcast(Command {
        id: 2,
        data: CommandType::GetChannelCount,
    }));
    rig.run(&frame).unwrap();
    assert_eq!(rig.out.len(), 0);
}

#[test]
fn garbage_frame_answers_unknown_error_to_id_zero() {
    let mut rig = Rig::new();
    rig.run(&[0x55, 0xAA, 0x00, 0x11, 0x22, 0x33]).unwrap();
    let response = rig.response();
    assert_eq!(response.id, 0);
    assert_eq!(response.data, Err(CommandError::UnknownError));
}

#[test]
fn foreign_response_frame_is_ignored() {
    let mut rig = Rig::new();
    let foreign = dimmer_core::frame::encode_result_frame(
        &dimmer_core::protocol::CommandResult::channel_count(4, 21),
    );
    rig.run(&foreign).unwrap();
    assert_eq!(rig.out.len(), 0);
}

#[test]
fn set_channel_duty_full_and_zero_succeed() {
    let mut rig = Rig::new();
    rig.run(&frame_for(CommandType::SetChannelDuty(ChannelDuty { channel: 2, duty: 0 })))
        .unwrap();
    assert_eq!(
        rig.response().data,
        Ok(ResultPayload::ChannelDuty(ChannelDuty { channel: 2, duty: 0 }))
    );
    rig.out.clear();
    rig.run(&frame_for(CommandType::SetChannelDuty(ChannelDuty { channel: 2, duty: DUTY_SCALE })))
        .unwrap();
    assert_eq!(
        rig.response().data,
        Ok(ResultPayload::ChannelDuty(ChannelDuty { channel: 2, duty: DUTY_SCALE }))
    );
}

#[test]
fn out_of_range_duty_is_echoed_in_overflow_error() {
    let mut rig = Rig::new();
    for duty in [-100_000, DUTY_SCALE + 100_000] {
        rig.out.clear();
        rig.run(&frame_for(CommandType::SetChannelDuty(ChannelDuty { channel: 2, duty })))
            .unwrap();
        assert_eq!(rig.response().data, Err(CommandError::DutyOverflow(duty)));
        // the rejected write left the channel untouched
        assert_eq!(rig.channels.get_channel_duty(2), Ok(0));
    }
}

#[test]
fn duty_validation_at_the_channel_collection() {
    let mut channels = full_channels();
    assert_eq!(channels.set_channel_duty(3, -1), Err(Error::DutyOverflow(-1)));
    assert_eq!(channels.set_channel_duty(3, DUTY_SCALE + 1), Err(Error::DutyOverflow(DUTY_SCALE + 1)));
    assert_eq!(channels.set_channel_duty(3, 0), Ok(0));
    assert_eq!(channels.set_channel_duty(3, DUTY_SCALE), Ok(DUTY_SCALE));
    assert_eq!(channels.set_channel_duty(99, 0), Err(Error::ChannelNotFound(99)));
}

#[test]
fn duty_is_quantized_to_the_channel_register() {
    let wide: Vec<u32> = vec![3];
    let narrow: Vec<u16> = vec![];
    let mut channels = PwmChannels::create(&wide, &narrow);
    // duty 0.5 on a 3-step register: raw = 1, read back as 1/3
    assert_eq!(channels.set_channel_duty(0, 500_000), Ok(333_333));
    assert_eq!(channels.get_channel_duty(0), Ok(333_333));
}

#[test]
fn unknown_channel_answers_not_found() {
    let mut rig = Rig::new();
    rig.run(&frame_for(CommandType::SetChannelEnabled(ChannelEnabled {
        channel: 99,
        enabled: true,
    })))
    .unwrap();
    assert_eq!(rig.response().data, Err(CommandError::ChannelNotFound(99)));
}

#[test]
fn batch_duty_read_aborts_on_missing_channel() {
    let mut rig = Rig::new();
    // a device exposing fewer channels than the protocol's full range
    let wide: Vec<u32> = vec![1000, 1000];
    let narrow: Vec<u16> = vec![100];
    rig.channels = PwmChannels::create(&wide, &narrow);
    let result = rig.run(&frame_for(CommandType::GetAllChannelsDuty));
    assert_eq!(result, Err(Error::ChannelNotFound(3)));
    // the abort produced no partial response
    assert_eq!(rig.out.len(), 0);
}

#[test]
fn batch_duty_read_reports_every_channel() {
    let mut rig = Rig::new();
    rig.run(&frame_for(CommandType::SetChannelDuty(ChannelDuty { channel: 0, duty: DUTY_SCALE })))
        .unwrap();
    rig.out.clear();
    rig.run(&frame_for(CommandType::GetAllChannelsDuty)).unwrap();
    let mut wanted = vec![0i32; CHANNELS_COUNT];
    wanted[0] = DUTY_SCALE;
    assert_eq!(rig.response().data, Ok(ResultPayload::AllChannelsDuty(wanted)));
}

#[test]
fn storage_fallback_writes_and_returns_the_default() {
    let mut storage = Storage::new();
    assert_eq!(storage.read_pwm_settings(), Err(Error::StorageEmpty));
    let created = storage.read_or_create_pwm_settings().unwrap();
    assert_eq!(created, PwmSettings::default());
    assert_eq!(created.get_group_freq(0), Ok(1000));
    // the region now holds that record: a plain read returns the same values
    assert_eq!(storage.read_pwm_settings(), Ok(created));
}

#[test]
fn storage_round_trips_saved_settings() {
    let mut storage = Storage::new();
    let settings = PwmSettings::new(1, 2, 3, 4, 5, 6, 7, 8);
    storage.save_pwm_settings(&settings).unwrap();
    assert_eq!(storage.read_pwm_settings(), Ok(settings));
    assert_eq!(storage.read_or_create_pwm_settings(), Ok(settings));
}

#[test]
fn device_settings_round_trip() {
    let mut storage = Storage::new();
    assert_eq!(storage.read_device_settings(), Err(Error::StorageEmpty));
    storage.save_device_settings(&DeviceSettings::new(7)).unwrap();
    assert_eq!(storage.read_device_settings(), Ok(DeviceSettings::new(7)));
    // the two records do not clobber each other
    let settings = PwmSettings::new(9, 9, 9, 9, 9, 9, 9, 9);
    storage.save_pwm_settings(&settings).unwrap();
    assert_eq!(storage.read_device_settings(), Ok(DeviceSettings::new(7)));
    assert_eq!(storage.read_pwm_settings(), Ok(settings));
}

#[test]
fn flash_fault_is_surfaced_as_flash_error() {
    let mut rig = Rig::new();
    rig.storage.set_fault(Some(FlashFault::EraseError));
    rig.run(&frame_for(CommandType::GetAllGroupsFrequency)).unwrap();
    assert_eq!(rig.response().data, Err(CommandError::FlashError));
}

#[test]
fn blank_storage_answers_storage_empty() {
    let mut rig = Rig::new();
    rig.run(&frame_for(CommandType::GetGroupFrequency(0))).unwrap();
    assert_eq!(rig.response().data, Err(CommandError::StorageEmpty));
}

#[test]
fn group_frequency_read_modify_write() {
    let mut rig = Rig::new();
    rig.storage.read_or_create_pwm_settings().unwrap();
    // a frequency write answers nothing: the change waits for a restart
    rig.run(&frame_for(CommandType::SetGroupFrequency(GroupFrequency {
        group: 2,
        frequency: 2500,
    })))
    .unwrap();
    assert_eq!(rig.out.len(), 0);
    rig.run(&frame_for(CommandType::GetGroupFrequency(2))).unwrap();
    assert_eq!(
        rig.response().data,
        Ok(ResultPayload::GroupFrequency(GroupFrequency { group: 2, frequency: 2500 }))
    );
    // the other groups kept the default
    rig.out.clear();
    rig.run(&frame_for(CommandType::GetGroupFrequency(3))).unwrap();
    assert_eq!(
        rig.response().data,
        Ok(ResultPayload::GroupFrequency(GroupFrequency { group: 3, frequency: 1000 }))
    );
}

#[test]
fn unknown_group_is_answered_not_found() {
    let mut rig = Rig::new();
    rig.storage.read_or_create_pwm_settings().unwrap();
    rig.run(&frame_for(CommandType::GetGroupFrequency(8))).unwrap();
    assert_eq!(rig.response().id, 1);
    assert_eq!(rig.response().data, Err(CommandError::GroupNotFound(8)));
    rig.out.clear();
    rig.run(&frame_for(CommandType::SetGroupFrequency(GroupFrequency {
        group: 9,
        frequency: 2500,
    })))
    .unwrap();
    assert_eq!(rig.response().data, Err(CommandError::GroupNotFound(9)));
    // the rejected write left the persisted record untouched
    assert_eq!(rig.storage.read_pwm_settings(), Ok(PwmSettings::default()));
}

#[test]
fn group_settings_validation() {
    let mut settings = PwmSettings::default();
    assert_eq!(settings.set_group_freq(8, 1), Err(Error::GroupNotFound(8)));
    assert_eq!(settings.get_group_freq(9), Err(Error::GroupNotFound(9)));
    settings.set_group_freq(7, 123).unwrap();
    assert_eq!(settings.get_group_freq(7), Ok(123));
    assert_eq!(settings.get_all_groups_freq(), vec![1000, 1000, 1000, 1000, 1000, 1000, 1000, 123]);
}

#[test]
fn legacy_byte_sets_and_clears_single_pins() {
    let mut rig = Rig::new();
    // value 0b101: pin 1, level high — never checksummed
    rig.run(&[0b101]).unwrap();
    assert!(rig.leds.is_high(1));
    // value 0b001: pin 1, level low
    rig.out.clear();
    rig.run(&[0b001]).unwrap();
    assert!(!rig.leds.is_high(1));
}

#[test]
fn legacy_byte_mask_replace() {
    let mut rig = Rig::new();
    rig.run(&[16 + 0b1010]).unwrap();
    assert!(!rig.leds.is_high(0));
    assert!(rig.leds.is_high(1));
    assert!(!rig.leds.is_high(2));
    assert!(rig.leds.is_high(3));
}

#[test]
fn legacy_byte_then_structured_write_last_writer_wins() {
    let mut rig = Rig::new();
    rig.run(&[0b101]).unwrap();
    assert!(rig.leds.is_high(1));
    rig.out.clear();
    rig.run(&frame_for(CommandType::SetPinState(PinLevel { pin: 1, state: false })))
        .unwrap();
    assert!(!rig.leds.is_high(1));
    assert_eq!(
        rig.response().data,
        Ok(ResultPayload::PinLevel(PinLevel { pin: 1, state: false }))
    );
}

#[test]
fn pin_commands_round_trip_through_dispatch() {
    let mut rig = Rig::new();
    rig.run(&frame_for(CommandType::SetAllPinsState(vec![
        true, false, true, false, true, false, true, false,
    ])))
    .unwrap();
    assert!(rig.leds.is_high(0));
    assert!(!rig.leds.is_high(1));
    rig.out.clear();
    rig.run(&frame_for(CommandType::GetAllPinsState)).unwrap();
    assert_eq!(
        rig.response().data,
        Ok(ResultPayload::AllPinsState(vec![
            true, false, true, false, true, false, true, false,
        ]))
    );
}

#[test]
fn out_of_range_pin_answers_unknown_error() {
    let mut rig = Rig::new();
    rig.run(&frame_for(CommandType::SetPinState(PinLevel { pin: 8, state: true })))
        .unwrap();
    assert_eq!(rig.response().data, Err(CommandError::UnknownError));
}

#[test]
fn timestamp_commands_are_accepted_without_response() {
    let mut rig = Rig::new();
    rig.run(&frame_for(CommandType::GetDateTimestamp)).unwrap();
    rig.run(&frame_for(CommandType::SetDateTimestamp(123_456_789))).unwrap();
    assert_eq!(rig.out.len(), 0);
}

#[test]
fn device_identity_query() {
    let mut rig = Rig::new();
    rig.run(&frame_for(CommandType::GetDeviceId)).unwrap();
    assert_eq!(rig.response().data, Ok(ResultPayload::DeviceId(device_id())));
}

#[test]
fn transmit_start_while_in_flight_is_busy_and_preserves_buffer() {
    let mut tx = TxTransfer::new(Buffer::new(64), DebugLed::new(true, 100));
    tx.send_bytes(&[1, 2, 3]).unwrap();
    assert!(tx.is_busy());
    assert_eq!(tx.buffered_bytes(), &[1, 2, 3]);
    // a second write while in flight fails busy and must not touch the
    // buffer the hardware is reading
    assert_eq!(tx.send_bytes(&[9, 9, 9, 9]), Err(Error::SerialTxBusy));
    assert_eq!(tx.start(), Err(Error::SerialTxBusy));
    assert_eq!(tx.buffered_bytes(), &[1, 2, 3]);
}

#[test]
fn transfer_completion_is_exactly_once() {
    let mut tx = TxTransfer::new(Buffer::new(64), DebugLed::new(true, 100));
    // not started yet
    assert_eq!(tx.on_transfer_complete(true), Err(Error::SerialTxNotStarted));
    tx.send_bytes(&[7, 7]).unwrap();
    // hardware not actually done: fails busy, nothing changes
    assert_eq!(tx.on_transfer_complete(false), Err(Error::SerialTxBusy));
    assert!(tx.is_busy());
    assert_eq!(tx.buffered_bytes(), &[7, 7]);
    // truly complete: buffer reclaimed and cleared, exactly once
    assert_eq!(tx.on_transfer_complete(true), Ok(()));
    assert!(!tx.is_busy());
    assert_eq!(tx.buffered_bytes(), &[] as &[u8]);
    assert_eq!(tx.on_transfer_complete(true), Err(Error::SerialTxNotStarted));
}

#[test]
fn oversized_payload_does_not_start_a_transfer() {
    let mut tx = TxTransfer::new(Buffer::new(2), DebugLed::new(true, 100));
    assert_eq!(tx.send_bytes(&[1, 2, 3]), Err(Error::DmaBufferOverflow));
    assert!(!tx.is_busy());
    assert!(!tx.is_error());
    tx.send_bytes_silent(&[1, 2, 3]);
    assert!(tx.is_error());
    tx.clear_error();
    assert!(!tx.is_error());
    // a fire-and-forget write that fits starts the transfer and leaves the
    // error indicator untouched
    tx.send_bytes_silent(&[4]);
    assert!(tx.is_busy());
    assert!(!tx.is_error());
    assert_eq!(tx.buffered_bytes(), &[4]);
}

#[test]
fn receive_drain_happens_once_per_timeout() {
    let mut rx = RxTransfer::new(128);
    rx.on_bytes_received(&[1, 2, 3]);
    assert!(!rx.timeout_lapsed());
    rx.note_idle_timeout();
    assert!(rx.timeout_lapsed());
    rx.clear_timeout();
    let first = rx.read_available();
    assert_eq!(first, vec![1, 2, 3]);
    assert_eq!(rx.read_available(), Vec::<u8>::new());
}

#[test]
fn receive_overrun_drops_the_excess() {
    let mut rx = RxTransfer::new(4);
    rx.on_bytes_received(&[1, 2, 3, 4, 5, 6]);
    assert_eq!(rx.read_available(), vec![1, 2, 3, 4]);
}

#[test]
fn timeout_service_dispatches_one_accumulated_frame() {
    let mut rig = Rig::new();
    let mut rx = RxTransfer::new(256);
    let mut tx = TxTransfer::new(Buffer::new(256), DebugLed::new(true, 100));
    rx.on_bytes_received(&frame_for(CommandType::GetChannelCount));
    rx.note_idle_timeout();
    service_receive_timeout(
        &mut rx,
        &mut rig.server,
        &mut tx,
        &mut rig.storage,
        &mut rig.channels,
        &mut rig.leds,
    );
    assert!(tx.is_busy());
    let response = decode_result_frame(tx.buffered_bytes()).expect("one framed response");
    assert_eq!(response.data, Ok(ResultPayload::ChannelCount(CHANNELS_COUNT as u8)));
    // the completion interrupt reclaims the buffer
    tx.handle_transfer_complete_interrupt(true);
    assert!(!tx.is_busy());
    assert_eq!(tx.buffered_bytes(), &[] as &[u8]);
}

#[test]
fn timeout_service_drops_frame_while_transmitter_busy() {
    let mut rig = Rig::new();
    let mut rx = RxTransfer::new(256);
    let mut tx = TxTransfer::new(Buffer::new(256), DebugLed::new(true, 100));
    tx.send_bytes(&[1]).unwrap();
    rx.on_bytes_received(&frame_for(CommandType::SetChannelDuty(ChannelDuty {
        channel: 0,
        duty: DUTY_SCALE,
    })));
    rx.note_idle_timeout();
    service_receive_timeout(
        &mut rx,
        &mut rig.server,
        &mut tx,
        &mut rig.storage,
        &mut rig.channels,
        &mut rig.leds,
    );
    // the frame was dropped whole: no mutation, only the error indicator
    assert!(tx.is_error());
    assert_eq!(tx.buffered_bytes(), &[1]);
    assert_eq!(rig.channels.get_channel_duty(0), Ok(0));
    // and the accumulator was still drained
    assert_eq!(rx.read_available(), Vec::<u8>::new());
}

#[test]
fn enable_commands_flow_through_dispatch() {
    let mut rig = Rig::new();
    rig.run(&frame_for(CommandType::SetAllChannelsSameEnabled(true))).unwrap();
    assert_eq!(rig.response().data, Ok(ResultPayload::AllChannelsSameEnabled(true)));
    rig.out.clear();
    let mut states = vec![false; CHANNELS_COUNT];
    states[4] = true;
    rig.run(&frame_for(CommandType::SetAllChannelsEnabled(states.clone()))).unwrap();
    assert_eq!(rig.response().data, Ok(ResultPayload::AllChannelsEnabled(states)));
}

#[test]
fn group_batch_writes_persist() {
    let mut rig = Rig::new();
    rig.storage.read_or_create_pwm_settings().unwrap();
    rig.run(&frame_for(CommandType::SetAllGroupsSameFrequency(4000))).unwrap();
    assert_eq!(rig.out.len(), 0);
    rig.run(&frame_for(CommandType::GetAllGroupsFrequency)).unwrap();
    assert_eq!(
        rig.response().data,
        Ok(ResultPayload::AllGroupsFrequency(vec![4000; 8]))
    );
    rig.out.clear();
    let freqs: Vec<u32> = (1..=8).map(|g| g * 100).collect();
    rig.run(&frame_for(CommandType::SetAllGroupsFrequency(freqs.clone()))).unwrap();
    rig.run(&frame_for(CommandType::GetAllGroupsFrequency)).unwrap();
    assert_eq!(rig.response().data, Ok(ResultPayload::AllGroupsFrequency(freqs)));
}
