//! Wire-level tests: frame round trips, checksum behaviour, the buffered
//! writer and the small device-side state machines.

use dimmer_core::communication::Buffer;
use dimmer_core::communication::LedState;
use dimmer_core::debug_led::DebugLed;
use dimmer_core::errors::CommandError;
use dimmer_core::frame::decode_request_frame;
use dimmer_core::frame::decode_result_frame;
use dimmer_core::frame::encode_request_frame;
use dimmer_core::frame::encode_result_frame;
use dimmer_core::frame::seal_frame;
use dimmer_core::protocol::ChannelDuty;
use dimmer_core::protocol::Command;
use dimmer_core::protocol::CommandResult;
use dimmer_core::protocol::CommandType;
use dimmer_core::protocol::DeviceId;
use dimmer_core::protocol::DeviceNoTarget;
use dimmer_core::protocol::PinLevel;
use dimmer_core::protocol::Request;
use dimmer_core::protocol::ResultPayload;
use dimmer_core::DUTY_SCALE;

fn sample_request() -> Request {
    Request::ByDeviceNumber(DeviceNoTarget {
        number: 3,
        command: Command {
            id: 0xDEAD_BEEF,
            data: CommandType::SetChannelDuty(ChannelDuty { channel: 7, duty: 250_000 }),
        },
    })
}

#[test]
fn request_frame_round_trip() {
    let request = sample_request();
    let frame = encode_request_frame(&request);
    let decoded = decode_request_frame(frame.as_slice()).expect("own frame must decode");
    assert_eq!(decoded, request);
}

#[test]
fn result_frame_round_trip() {
    let result = CommandResult::channel_duty(42, 7, 250_000);
    let frame = encode_result_frame(&result);
    let decoded = decode_result_frame(frame.as_slice()).expect("own frame must decode");
    assert_eq!(decoded.id, 42);
    assert_eq!(
        decoded.data,
        Ok(ResultPayload::ChannelDuty(ChannelDuty { channel: 7, duty: 250_000 }))
    );
}

#[test]
fn batch_result_round_trip() {
    let duties: Vec<i32> = (0..dimmer_core::CHANNELS_COUNT as i32)
        .map(|i| i * 10_000 - 5)
        .collect();
    let result = CommandResult::all_channels_duty(9, duties.clone());
    let frame = encode_result_frame(&result);
    let decoded = decode_result_frame(frame.as_slice()).expect("own frame must decode");
    assert_eq!(decoded.data, Ok(ResultPayload::AllChannelsDuty(duties)));
}

#[test]
fn error_result_round_trip() {
    for error in [
        CommandError::ChannelNotFound(21),
        CommandError::GroupNotFound(8),
        CommandError::DutyOverflow(-100_000),
        CommandError::FlashError,
        CommandError::StorageEmpty,
        CommandError::UnknownError,
    ] {
        let result = CommandResult::err(1, error);
        let frame = encode_result_frame(&result);
        let decoded = decode_result_frame(frame.as_slice()).expect("own frame must decode");
        assert_eq!(decoded.data, Err(error));
    }
}

#[test]
fn single_bit_flip_in_trailer_rejected() {
    let request = sample_request();
    let frame = encode_request_frame(&request);
    let trailer_start = frame.len() - 4;
    for byte in trailer_start..frame.len() {
        for bit in 0..8 {
            let mut corrupted = frame.clone();
            corrupted[byte] ^= 1 << bit;
            assert!(decode_request_frame(corrupted.as_slice()).is_none());
        }
    }
}

#[test]
fn truncated_frame_rejected() {
    let frame = encode_request_frame(&sample_request());
    assert!(decode_request_frame(&frame[..frame.len() - 1]).is_none());
    assert!(decode_request_frame(&frame[..3]).is_none());
    assert!(decode_request_frame(&[]).is_none());
}

#[test]
fn result_frame_decodes_after_checksum() {
    let result = CommandResult::channel_count(3, 21);
    let frame = encode_result_frame(&result);
    assert!(decode_result_frame(frame.as_slice()).is_some());
}

#[test]
fn checksum_matches_iscsi_check_value() {
    // CRC-32/ISCSI has check value 0xE3069283 over the bytes "123456789"
    let mut frame = b"123456789".to_vec();
    seal_frame(&mut frame);
    assert_eq!(&frame[9..], &[0xE3, 0x06, 0x92, 0x83]);
}

#[test]
fn checksum_agrees_with_crc_crate() {
    let frame = encode_request_frame(&sample_request());
    let payload = &frame[..frame.len() - 4];
    let expected = crc::Crc::<u32>::new(&crc::CRC_32_ISCSI).checksum(payload);
    assert_eq!(&frame[frame.len() - 4..], expected.to_be_bytes().as_slice());
}

#[test]
fn request_payload_layout_is_big_endian() {
    // broadcast GetChannelCount with id 1: addressing tag, four id bytes,
    // operation tag
    let request = Request::Broadcast(Command { id: 1, data: CommandType::GetChannelCount });
    let frame = encode_request_frame(&request);
    assert_eq!(&frame[..frame.len() - 4], &[0u8, 0, 0, 0, 1, 8]);
}

#[test]
fn duty_wire_word_is_offset_binary() {
    let request = Request::Broadcast(Command {
        id: 0,
        data: CommandType::SetChannelDuty(ChannelDuty { channel: 0, duty: -1 }),
    });
    let frame = encode_request_frame(&request);
    // tag 0, id 0x00000000, op tag 3, channel 0, then the duty word:
    // -1 + 0x8000_0000 == 0x7FFF_FFFF
    assert_eq!(&frame[5..7], &[3u8, 0]);
    assert_eq!(&frame[7..11], &[0x7F, 0xFF, 0xFF, 0xFF]);
}

#[test]
fn pin_request_round_trip() {
    let request = Request::ByDeviceNumber(DeviceNoTarget {
        number: 0,
        command: Command {
            id: 77,
            data: CommandType::SetPinState(PinLevel { pin: 1, state: false }),
        },
    });
    let frame = encode_request_frame(&request);
    assert_eq!(decode_request_frame(frame.as_slice()), Some(request));
}

#[test]
fn device_id_round_trip() {
    let result = CommandResult::device_id(
        8,
        DeviceId { word0: 0x01020304, word1: 0xA5A5A5A5, word2: 0xFFFFFFFF },
    );
    let frame = encode_result_frame(&result);
    let decoded = decode_result_frame(frame.as_slice()).expect("own frame must decode");
    assert_eq!(
        decoded.data,
        Ok(ResultPayload::DeviceId(DeviceId {
            word0: 0x01020304,
            word1: 0xA5A5A5A5,
            word2: 0xFFFFFFFF,
        }))
    );
}

#[test]
fn extreme_duty_values_survive_the_wire() {
    for duty in [i32::MIN, -1, 0, 1, DUTY_SCALE, i32::MAX] {
        let result = CommandResult::all_channels_same_duty(5, duty);
        let frame = encode_result_frame(&result);
        let decoded = decode_result_frame(frame.as_slice()).expect("own frame must decode");
        assert_eq!(decoded.data, Ok(ResultPayload::AllChannelsSameDuty(duty)));
    }
}

#[test]
fn buffer_appends_big_endian() {
    let mut buffer = Buffer::new(32);
    buffer.add_u8(0xAB).unwrap();
    buffer.add_u16(0x0102).unwrap();
    buffer.add_u32(0x03040506).unwrap();
    buffer.add_u64(0x0708090A0B0C0D0E).unwrap();
    buffer.add_bool(true).unwrap();
    buffer.add_bool(false).unwrap();
    buffer.add_str("ok").unwrap();
    assert_eq!(
        buffer.contents(),
        &[
            0xAB, 0x01, 0x02, 0x03, 0x04, 0x05, 0x06, 0x07, 0x08, 0x09, 0x0A, 0x0B, 0x0C, 0x0D,
            0x0E, 1, 0, b'o', b'k'
        ]
    );
}

#[test]
fn buffer_rejects_overflow_whole() {
    let mut buffer = Buffer::new(4);
    buffer.add(&[1, 2, 3]).unwrap();
    let err = buffer.add(&[4, 5]).unwrap_err();
    assert_eq!(err, dimmer_core::errors::Error::DmaBufferOverflow);
    // the failed append left the contents untouched
    assert_eq!(buffer.contents(), &[1, 2, 3]);
    buffer.add(&[4]).unwrap();
    assert_eq!(buffer.contents(), &[1, 2, 3, 4]);
}

#[test]
fn buffer_clear_empties() {
    let mut buffer = Buffer::new(4);
    buffer.add(&[9, 9]).unwrap();
    buffer.clear();
    assert_eq!(buffer.len(), 0);
    assert_eq!(buffer.free(), Vec::<u8>::new());
}

#[test]
fn led_state_bit_operations() {
    let mut leds = LedState::new();
    leds.set_high(3, true);
    assert!(leds.is_high(3));
    assert!(!leds.is_high(2));
    leds.toggle(3);
    assert!(!leds.is_high(3));
    leds.toggle(0);
    assert!(leds.is_high(0));
    leds.set_mask(0b0000_0101);
    assert!(leds.is_high(0));
    assert!(!leds.is_high(1));
    assert!(leds.is_high(2));
    leds.set_high(0, false);
    assert!(!leds.is_high(0));
    assert!(leds.is_high(2));
}

#[test]
fn debug_led_blinks_only_when_error_latched_and_not_busy() {
    let mut led = DebugLed::new(true, 100);
    led.tick(500);
    assert!(!led.pin_high);

    led.set();
    assert!(led.is_on());
    led.tick(50);
    assert!(!led.pin_high); // half period not yet over
    led.tick(101);
    assert!(!led.pin_high); // first toggle: phase on, polarity inverts
    led.tick(202);
    assert!(led.pin_high); // second toggle

    led.on(); // busy: blinking suspended, pin held high
    assert!(led.pin_high);
    let before = led;
    led.tick(1000);
    assert_eq!(led, before);

    led.off();
    assert!(!led.pin_high);
    led.clear();
    assert!(!led.is_on());
}
