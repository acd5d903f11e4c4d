//! Binary codec for the wire protocol: a stable, versionless, big-endian
//! layout for `Request` and `CommandResult` payloads.
//!
//! The layout is specified by the `enc_*` spec functions (value to bytes) and
//! the `p_*` spec functions (bytes to value and unconsumed suffix). The
//! executable encoders and parsers are proved equal to these specifications,
//! and the `lemma_p_*` family proves that parsing inverts encoding.
//!
//! Signed duty values travel in offset-binary form: the wire word is the
//! value shifted up by `DUTY_OFFSET`, so the full `i32` range stays
//! representable without bit-level reinterpretation.

use vstd::prelude::*;

use crate::errors::CommandError;
use crate::protocol::ChannelDuty;
use crate::protocol::ChannelEnabled;
use crate::protocol::Command;
use crate::protocol::CommandResult;
use crate::protocol::CommandResultView;
use crate::protocol::CommandType;
use crate::protocol::CommandTypeView;
use crate::protocol::CommandView;
use crate::protocol::DeviceId;
use crate::protocol::DeviceNoTarget;
use crate::protocol::DeviceNoTargetView;
use crate::protocol::GroupFrequency;
use crate::protocol::PinLevel;
use crate::protocol::Request;
use crate::protocol::RequestView;
use crate::protocol::ResultPayload;
use crate::protocol::ResultPayloadView;
use crate::CHANNELS_COUNT;
use crate::GROUPS_COUNT;
use crate::PINS_COUNT;

verus! {

/// Offset added to a signed duty value to form its unsigned wire word.
pub const DUTY_OFFSET: i64 = 0x8000_0000;

// ---------------------------------------------------------------------------
// Primitive encodings
// ---------------------------------------------------------------------------

/// Big-endian bytes of a 16-bit word.
pub open spec fn enc_u16(v: u16) -> Seq<u8> {
    seq![(v / 0x100) as u8, (v % 0x100) as u8]
}

/// Big-endian bytes of a 32-bit word.
pub open spec fn enc_u32(v: u32) -> Seq<u8> {
    seq![
        (v / 0x100_0000) as u8,
        ((v / 0x1_0000) % 0x100) as u8,
        ((v / 0x100) % 0x100) as u8,
        (v % 0x100) as u8,
    ]
}

/// Big-endian bytes of a 64-bit word.
pub open spec fn enc_u64(v: u64) -> Seq<u8> {
    seq![
        (v / 0x100_0000_0000_0000) as u8,
        ((v / 0x1_0000_0000_0000) % 0x100) as u8,
        ((v / 0x100_0000_0000) % 0x100) as u8,
        ((v / 0x1_0000_0000) % 0x100) as u8,
        ((v / 0x100_0000) % 0x100) as u8,
        ((v / 0x1_0000) % 0x100) as u8,
        ((v / 0x100) % 0x100) as u8,
        (v % 0x100) as u8,
    ]
}

/// A boolean as one byte: 1 for true, 0 for false.
pub open spec fn enc_bool(b: bool) -> Seq<u8> {
    if b {
        seq![1u8]
    } else {
        seq![0u8]
    }
}

/// A signed duty value in offset-binary form.
pub open spec fn enc_duty(v: i32) -> Seq<u8> {
    enc_u32((v + DUTY_OFFSET) as u32)
}

// ---------------------------------------------------------------------------
// Primitive parsers: value plus unconsumed suffix
// ---------------------------------------------------------------------------

/// Parse one byte.
pub open spec fn p_u8(s: Seq<u8>) -> Option<(u8, Seq<u8>)> {
    if s.len() >= 1 {
        Some((s[0], s.skip(1)))
    } else {
        None
    }
}

/// Parse a big-endian 16-bit word.
pub open spec fn p_u16(s: Seq<u8>) -> Option<(u16, Seq<u8>)> {
    if s.len() >= 2 {
        Some(((s[0] * 0x100 + s[1]) as u16, s.skip(2)))
    } else {
        None
    }
}

/// Parse a big-endian 32-bit word.
pub open spec fn p_u32(s: Seq<u8>) -> Option<(u32, Seq<u8>)> {
    if s.len() >= 4 {
        Some(((s[0] * 0x100_0000 + s[1] * 0x1_0000 + s[2] * 0x100 + s[3]) as u32, s.skip(4)))
    } else {
        None
    }
}

/// Parse a big-endian 64-bit word.
pub open spec fn p_u64(s: Seq<u8>) -> Option<(u64, Seq<u8>)> {
    if s.len() >= 8 {
        Some((
            (s[0] * 0x100_0000_0000_0000 + s[1] * 0x1_0000_0000_0000 + s[2] * 0x100_0000_0000
                + s[3] * 0x1_0000_0000 + s[4] * 0x100_0000 + s[5] * 0x1_0000 + s[6] * 0x100
                + s[7]) as u64,
            s.skip(8),
        ))
    } else {
        None
    }
}

/// Parse a boolean byte; any byte other than 0 or 1 is malformed.
pub open spec fn p_bool(s: Seq<u8>) -> Option<(bool, Seq<u8>)> {
    if s.len() >= 1 {
        if s[0] == 0 {
            Some((false, s.skip(1)))
        } else if s[0] == 1 {
            Some((true, s.skip(1)))
        } else {
            None
        }
    } else {
        None
    }
}

/// Parse a signed duty value from its offset-binary wire word.
pub open spec fn p_duty(s: Seq<u8>) -> Option<(i32, Seq<u8>)> {
    match p_u32(s) {
        Some((w, rest)) => Some(((w - DUTY_OFFSET) as i32, rest)),
        None => None,
    }
}

// ---------------------------------------------------------------------------
// Primitive round-trip lemmas
// ---------------------------------------------------------------------------

/// Parsing one byte inverts a one-byte encoding.
pub proof fn lemma_p_u8(v: u8, rest: Seq<u8>)
    ensures
        p_u8(seq![v] + rest) == Some((v, rest)),
{
    let s = seq![v] + rest;
    assert(s[0] == v);
    assert(s.skip(1) =~= rest);
}

/// Parsing a 32-bit word inverts its encoding.
pub proof fn lemma_p_u32(v: u32, rest: Seq<u8>)
    ensures
        p_u32(enc_u32(v) + rest) == Some((v, rest)),
{
    let s = enc_u32(v) + rest;
    assert(s[0] == (v / 0x100_0000) as u8);
    assert(s[1] == ((v / 0x1_0000) % 0x100) as u8);
    assert(s[2] == ((v / 0x100) % 0x100) as u8);
    assert(s[3] == (v % 0x100) as u8);
    assert(((v / 0x100_0000) as u8) * 0x100_0000 + (((v / 0x1_0000) % 0x100) as u8) * 0x1_0000
        + (((v / 0x100) % 0x100) as u8) * 0x100 + ((v % 0x100) as u8) == v) by (bit_vector);
    assert(s.skip(4) =~= rest);
}

/// Parsing a 64-bit word inverts its encoding.
pub proof fn lemma_p_u64(v: u64, rest: Seq<u8>)
    ensures
        p_u64(enc_u64(v) + rest) == Some((v, rest)),
{
    let s = enc_u64(v) + rest;
    assert(s[0] == (v / 0x100_0000_0000_0000) as u8);
    assert(s[1] == ((v / 0x1_0000_0000_0000) % 0x100) as u8);
    assert(s[2] == ((v / 0x100_0000_0000) % 0x100) as u8);
    assert(s[3] == ((v / 0x1_0000_0000) % 0x100) as u8);
    assert(s[4] == ((v / 0x100_0000) % 0x100) as u8);
    assert(s[5] == ((v / 0x1_0000) % 0x100) as u8);
    assert(s[6] == ((v / 0x100) % 0x100) as u8);
    assert(s[7] == (v % 0x100) as u8);
    assert(((v / 0x100_0000_0000_0000) as u8) * 0x100_0000_0000_0000
        + (((v / 0x1_0000_0000_0000) % 0x100) as u8) * 0x1_0000_0000_0000
        + (((v / 0x100_0000_0000) % 0x100) as u8) * 0x100_0000_0000
        + (((v / 0x1_0000_0000) % 0x100) as u8) * 0x1_0000_0000
        + (((v / 0x100_0000) % 0x100) as u8) * 0x100_0000
        + (((v / 0x1_0000) % 0x100) as u8) * 0x1_0000
        + (((v / 0x100) % 0x100) as u8) * 0x100
        + ((v % 0x100) as u8) == v) by (bit_vector);
    assert(s.skip(8) =~= rest);
}

/// Parsing a boolean byte inverts its encoding.
pub proof fn lemma_p_bool(b: bool, rest: Seq<u8>)
    ensures
        p_bool(enc_bool(b) + rest) == Some((b, rest)),
{
    let s = enc_bool(b) + rest;
    assert(s.skip(1) =~= rest);
}

/// Parsing a duty word inverts its encoding.
pub proof fn lemma_p_duty(v: i32, rest: Seq<u8>)
    ensures
        p_duty(enc_duty(v) + rest) == Some((v, rest)),
{
    let w = (v + DUTY_OFFSET) as u32;
    lemma_p_u32(w, rest);
    assert((w - DUTY_OFFSET) as i32 == v);
}

// ---------------------------------------------------------------------------
// Repeated fields
// ---------------------------------------------------------------------------

/// Encoding of a run of boolean bytes.
pub open spec fn enc_bools(vs: Seq<bool>) -> Seq<u8>
    decreases vs.len(),
{
    if vs.len() == 0 {
        Seq::empty()
    } else {
        enc_bool(vs[0]) + enc_bools(vs.skip(1))
    }
}

/// Encoding of a run of duty words.
pub open spec fn enc_duties(vs: Seq<i32>) -> Seq<u8>
    decreases vs.len(),
{
    if vs.len() == 0 {
        Seq::empty()
    } else {
        enc_duty(vs[0]) + enc_duties(vs.skip(1))
    }
}

/// Encoding of a run of 32-bit words.
pub open spec fn enc_u32s(vs: Seq<u32>) -> Seq<u8>
    decreases vs.len(),
{
    if vs.len() == 0 {
        Seq::empty()
    } else {
        enc_u32(vs[0]) + enc_u32s(vs.skip(1))
    }
}

/// Parse exactly `n` boolean bytes.
pub open spec fn p_bools(s: Seq<u8>, n: nat) -> Option<(Seq<bool>, Seq<u8>)>
    decreases n,
{
    if n == 0 {
        Some((Seq::empty(), s))
    } else {
        match p_bool(s) {
            Some((b, r1)) => match p_bools(r1, (n - 1) as nat) {
                Some((bs, r2)) => Some((seq![b] + bs, r2)),
                None => None,
            },
            None => None,
        }
    }
}

/// Parse exactly `n` duty words.
pub open spec fn p_duties(s: Seq<u8>, n: nat) -> Option<(Seq<i32>, Seq<u8>)>
    decreases n,
{
    if n == 0 {
        Some((Seq::empty(), s))
    } else {
        match p_duty(s) {
            Some((d, r1)) => match p_duties(r1, (n - 1) as nat) {
                Some((ds, r2)) => Some((seq![d] + ds, r2)),
                None => None,
            },
            None => None,
        }
    }
}

/// Parse exactly `n` 32-bit words.
pub open spec fn p_u32s(s: Seq<u8>, n: nat) -> Option<(Seq<u32>, Seq<u8>)>
    decreases n,
{
    if n == 0 {
        Some((Seq::empty(), s))
    } else {
        match p_u32(s) {
            Some((w, r1)) => match p_u32s(r1, (n - 1) as nat) {
                Some((ws, r2)) => Some((seq![w] + ws, r2)),
                None => None,
            },
            None => None,
        }
    }
}

/// Parsing a run of boolean bytes inverts its encoding.
pub proof fn lemma_p_bools(vs: Seq<bool>, rest: Seq<u8>)
    ensures
        p_bools(enc_bools(vs) + rest, vs.len()) == Some((vs, rest)),
    decreases vs.len(),
{
    if vs.len() == 0 {
        assert(enc_bools(vs) + rest =~= rest);
        assert(vs =~= Seq::<bool>::empty());
    } else {
        assert(enc_bools(vs) + rest =~= enc_bool(vs[0]) + (enc_bools(vs.skip(1)) + rest));
        lemma_p_bool(vs[0], enc_bools(vs.skip(1)) + rest);
        lemma_p_bools(vs.skip(1), rest);
        assert(seq![vs[0]] + vs.skip(1) =~= vs);
    }
}

/// Parsing a run of duty words inverts its encoding.
pub proof fn lemma_p_duties(vs: Seq<i32>, rest: Seq<u8>)
    ensures
        p_duties(enc_duties(vs) + rest, vs.len()) == Some((vs, rest)),
    decreases vs.len(),
{
    if vs.len() == 0 {
        assert(enc_duties(vs) + rest =~= rest);
        assert(vs =~= Seq::<i32>::empty());
    } else {
        assert(enc_duties(vs) + rest =~= enc_duty(vs[0]) + (enc_duties(vs.skip(1)) + rest));
        lemma_p_duty(vs[0], enc_duties(vs.skip(1)) + rest);
        lemma_p_duties(vs.skip(1), rest);
        assert(seq![vs[0]] + vs.skip(1) =~= vs);
    }
}

/// Parsing a run of 32-bit words inverts its encoding.
pub proof fn lemma_p_u32s(vs: Seq<u32>, rest: Seq<u8>)
    ensures
        p_u32s(enc_u32s(vs) + rest, vs.len()) == Some((vs, rest)),
    decreases vs.len(),
{
    if vs.len() == 0 {
        assert(enc_u32s(vs) + rest =~= rest);
        assert(vs =~= Seq::<u32>::empty());
    } else {
        assert(enc_u32s(vs) + rest =~= enc_u32(vs[0]) + (enc_u32s(vs.skip(1)) + rest));
        lemma_p_u32(vs[0], enc_u32s(vs.skip(1)) + rest);
        lemma_p_u32s(vs.skip(1), rest);
        assert(seq![vs[0]] + vs.skip(1) =~= vs);
    }
}


/// A run of 32-bit words is four bytes per element.
pub proof fn lemma_enc_u32s_len(vs: Seq<u32>)
    ensures
        enc_u32s(vs).len() == 4 * vs.len(),
    decreases vs.len(),
{
    if vs.len() > 0 {
        lemma_enc_u32s_len(vs.skip(1));
    }
}

/// Parsing `n` 32-bit words cannot fail on at least `4 * n` bytes.
pub proof fn lemma_p_u32s_total(s: Seq<u8>, n: nat)
    requires
        s.len() >= 4 * n,
    ensures
        p_u32s(s, n) is Some,
    decreases n,
{
    if n > 0 {
        lemma_p_u32s_total(s.skip(4), (n - 1) as nat);
    }
}

// ---------------------------------------------------------------------------
// Commands
// ---------------------------------------------------------------------------

/// Encoding of an operation: one tag byte followed by its fields.
pub open spec fn enc_cmd_type(c: CommandTypeView) -> Seq<u8> {
    match c {
        CommandTypeView::SetChannelEnabled(v) => seq![0u8] + (seq![v.channel] + enc_bool(v.enabled)),
        CommandTypeView::SetAllChannelsSameEnabled(b) => seq![1u8] + enc_bool(b),
        CommandTypeView::SetAllChannelsEnabled(vs) => seq![2u8] + enc_bools(vs),
        CommandTypeView::SetChannelDuty(v) => seq![3u8] + (seq![v.channel] + enc_duty(v.duty)),
        CommandTypeView::SetAllChannelsSameDuty(d) => seq![4u8] + enc_duty(d),
        CommandTypeView::SetAllChannelsDuty(vs) => seq![5u8] + enc_duties(vs),
        CommandTypeView::GetChannelDuty(ch) => seq![6u8, ch],
        CommandTypeView::GetAllChannelsDuty => seq![7u8],
        CommandTypeView::GetChannelCount => seq![8u8],
        CommandTypeView::SetGroupFrequency(v) => seq![9u8] + (seq![v.group] + enc_u32(v.frequency)),
        CommandTypeView::GetGroupFrequency(g) => seq![10u8, g],
        CommandTypeView::SetAllGroupsSameFrequency(f) => seq![11u8] + enc_u32(f),
        CommandTypeView::SetAllGroupsFrequency(vs) => seq![12u8] + enc_u32s(vs),
        CommandTypeView::GetAllGroupsFrequency => seq![13u8],
        CommandTypeView::GetDateTimestamp => seq![14u8],
        CommandTypeView::SetDateTimestamp(t) => seq![15u8] + enc_u64(t),
        CommandTypeView::SetPinState(v) => seq![16u8] + (seq![v.pin] + enc_bool(v.state)),
        CommandTypeView::GetPinState(p) => seq![17u8, p],
        CommandTypeView::SetAllPinsState(vs) => seq![18u8] + enc_bools(vs),
        CommandTypeView::SetAllPinsSameState(b) => seq![19u8] + enc_bool(b),
        CommandTypeView::GetAllPinsState => seq![20u8],
        CommandTypeView::GetDeviceId => seq![21u8],
    }
}

/// Parse an operation.
pub open spec fn p_cmd_type(s: Seq<u8>) -> Option<(CommandTypeView, Seq<u8>)> {
    match p_u8(s) {
        Some((tag, r)) => {
            if tag == 0 {
                match p_u8(r) {
                    Some((channel, r1)) => match p_bool(r1) {
                        Some((enabled, r2)) => Some((
                            CommandTypeView::SetChannelEnabled(ChannelEnabled { channel, enabled }),
                            r2,
                        )),
                        None => None,
                    },
                    None => None,
                }
            } else if tag == 1 {
                match p_bool(r) {
                    Some((b, r1)) => Some((CommandTypeView::SetAllChannelsSameEnabled(b), r1)),
                    None => None,
                }
            } else if tag == 2 {
                match p_bools(r, CHANNELS_COUNT as nat) {
                    Some((vs, r1)) => Some((CommandTypeView::SetAllChannelsEnabled(vs), r1)),
                    None => None,
                }
            } else if tag == 3 {
                match p_u8(r) {
                    Some((channel, r1)) => match p_duty(r1) {
                        Some((duty, r2)) => Some((
                            CommandTypeView::SetChannelDuty(ChannelDuty { channel, duty }),
                            r2,
                        )),
                        None => None,
                    },
                    None => None,
                }
            } else if tag == 4 {
                match p_duty(r) {
                    Some((d, r1)) => Some((CommandTypeView::SetAllChannelsSameDuty(d), r1)),
                    None => None,
                }
            } else if tag == 5 {
                match p_duties(r, CHANNELS_COUNT as nat) {
                    Some((vs, r1)) => Some((CommandTypeView::SetAllChannelsDuty(vs), r1)),
                    None => None,
                }
            } else if tag == 6 {
                match p_u8(r) {
                    Some((ch, r1)) => Some((CommandTypeView::GetChannelDuty(ch), r1)),
                    None => None,
                }
            } else if tag == 7 {
                Some((CommandTypeView::GetAllChannelsDuty, r))
            } else if tag == 8 {
                Some((CommandTypeView::GetChannelCount, r))
            } else if tag == 9 {
                match p_u8(r) {
                    Some((group, r1)) => match p_u32(r1) {
                        Some((frequency, r2)) => Some((
                            CommandTypeView::SetGroupFrequency(GroupFrequency { group, frequency }),
                            r2,
                        )),
                        None => None,
                    },
                    None => None,
                }
            } else if tag == 10 {
                match p_u8(r) {
                    Some((g, r1)) => Some((CommandTypeView::GetGroupFrequency(g), r1)),
                    None => None,
                }
            } else if tag == 11 {
                match p_u32(r) {
                    Some((f, r1)) => Some((CommandTypeView::SetAllGroupsSameFrequency(f), r1)),
                    None => None,
                }
            } else if tag == 12 {
                match p_u32s(r, GROUPS_COUNT as nat) {
                    Some((vs, r1)) => Some((CommandTypeView::SetAllGroupsFrequency(vs), r1)),
                    None => None,
                }
            } else if tag == 13 {
                Some((CommandTypeView::GetAllGroupsFrequency, r))
            } else if tag == 14 {
                Some((CommandTypeView::GetDateTimestamp, r))
            } else if tag == 15 {
                match p_u64(r) {
                    Some((t, r1)) => Some((CommandTypeView::SetDateTimestamp(t), r1)),
                    None => None,
                }
            } else if tag == 16 {
                match p_u8(r) {
                    Some((pin, r1)) => match p_bool(r1) {
                        Some((state, r2)) => Some((
                            CommandTypeView::SetPinState(PinLevel { pin, state }),
                            r2,
                        )),
                        None => None,
                    },
                    None => None,
                }
            } else if tag == 17 {
                match p_u8(r) {
                    Some((p, r1)) => Some((CommandTypeView::GetPinState(p), r1)),
                    None => None,
                }
            } else if tag == 18 {
                match p_bools(r, PINS_COUNT as nat) {
                    Some((vs, r1)) => Some((CommandTypeView::SetAllPinsState(vs), r1)),
                    None => None,
                }
            } else if tag == 19 {
                match p_bool(r) {
                    Some((b, r1)) => Some((CommandTypeView::SetAllPinsSameState(b), r1)),
                    None => None,
                }
            } else if tag == 20 {
                Some((CommandTypeView::GetAllPinsState, r))
            } else if tag == 21 {
                Some((CommandTypeView::GetDeviceId, r))
            } else {
                None
            }
        },
        None => None,
    }
}

/// Encoding of a command: the correlation id, then the operation.
pub open spec fn enc_command(c: CommandView) -> Seq<u8> {
    enc_u32(c.id) + enc_cmd_type(c.data)
}

/// Parse a command.
pub open spec fn p_command(s: Seq<u8>) -> Option<(CommandView, Seq<u8>)> {
    match p_u32(s) {
        Some((id, r)) => match p_cmd_type(r) {
            Some((data, r1)) => Some((CommandView { id, data }, r1)),
            None => None,
        },
        None => None,
    }
}

/// Encoding of a request: an addressing tag, address fields, then the command.
pub open spec fn enc_request(r: RequestView) -> Seq<u8> {
    match r {
        RequestView::Broadcast(c) => seq![0u8] + enc_command(c),
        RequestView::ByDeviceId(d, c) => seq![1u8] + (enc_u32(d.word0) + (enc_u32(d.word1) + (enc_u32(
            d.word2,
        ) + enc_command(c)))),
        RequestView::ByDeviceNumber(t) => seq![2u8] + (seq![t.number] + enc_command(t.command)),
    }
}

/// Parse a request.
pub open spec fn p_request(s: Seq<u8>) -> Option<(RequestView, Seq<u8>)> {
    match p_u8(s) {
        Some((tag, r)) => {
            if tag == 0 {
                match p_command(r) {
                    Some((c, r1)) => Some((RequestView::Broadcast(c), r1)),
                    None => None,
                }
            } else if tag == 1 {
                match p_u32(r) {
                    Some((w0, r1)) => match p_u32(r1) {
                        Some((w1, r2)) => match p_u32(r2) {
                            Some((w2, r3)) => match p_command(r3) {
                                Some((c, r4)) => Some((
                                    RequestView::ByDeviceId(
                                        DeviceId { word0: w0, word1: w1, word2: w2 },
                                        c,
                                    ),
                                    r4,
                                )),
                                None => None,
                            },
                            None => None,
                        },
                        None => None,
                    },
                    None => None,
                }
            } else if tag == 2 {
                match p_u8(r) {
                    Some((number, r1)) => match p_command(r1) {
                        Some((command, r2)) => Some((
                            RequestView::ByDeviceNumber(DeviceNoTargetView { number, command }),
                            r2,
                        )),
                        None => None,
                    },
                    None => None,
                }
            } else {
                None
            }
        },
        None => None,
    }
}

// ---------------------------------------------------------------------------
// Results
// ---------------------------------------------------------------------------

/// Encoding of a success payload: one tag byte followed by its fields.
pub open spec fn enc_payload(p: ResultPayloadView) -> Seq<u8> {
    match p {
        ResultPayloadView::ChannelEnabled(v) => seq![0u8] + (seq![v.channel] + enc_bool(v.enabled)),
        ResultPayloadView::AllChannelsSameEnabled(b) => seq![1u8] + enc_bool(b),
        ResultPayloadView::AllChannelsEnabled(vs) => seq![2u8] + enc_bools(vs),
        ResultPayloadView::ChannelDuty(v) => seq![3u8] + (seq![v.channel] + enc_duty(v.duty)),
        ResultPayloadView::AllChannelsSameDuty(d) => seq![4u8] + enc_duty(d),
        ResultPayloadView::AllChannelsDuty(vs) => seq![5u8] + enc_duties(vs),
        ResultPayloadView::ChannelCount(n) => seq![6u8, n],
        ResultPayloadView::GroupFrequency(v) => seq![7u8] + (seq![v.group] + enc_u32(v.frequency)),
        ResultPayloadView::AllGroupsFrequency(vs) => seq![8u8] + enc_u32s(vs),
        ResultPayloadView::PinLevel(v) => seq![9u8] + (seq![v.pin] + enc_bool(v.state)),
        ResultPayloadView::AllPinsState(vs) => seq![10u8] + enc_bools(vs),
        ResultPayloadView::AllPinsSameState(b) => seq![11u8] + enc_bool(b),
        ResultPayloadView::DeviceId(d) => seq![12u8] + (enc_u32(d.word0) + (enc_u32(d.word1)
            + enc_u32(d.word2))),
    }
}

/// Parse a success payload.
pub open spec fn p_payload(s: Seq<u8>) -> Option<(ResultPayloadView, Seq<u8>)> {
    match p_u8(s) {
        Some((tag, r)) => {
            if tag == 0 {
                match p_u8(r) {
                    Some((channel, r1)) => match p_bool(r1) {
                        Some((enabled, r2)) => Some((
                            ResultPayloadView::ChannelEnabled(ChannelEnabled { channel, enabled }),
                            r2,
                        )),
                        None => None,
                    },
                    None => None,
                }
            } else if tag == 1 {
                match p_bool(r) {
                    Some((b, r1)) => Some((ResultPayloadView::AllChannelsSameEnabled(b), r1)),
                    None => None,
                }
            } else if tag == 2 {
                match p_bools(r, CHANNELS_COUNT as nat) {
                    Some((vs, r1)) => Some((ResultPayloadView::AllChannelsEnabled(vs), r1)),
                    None => None,
                }
            } else if tag == 3 {
                match p_u8(r) {
                    Some((channel, r1)) => match p_duty(r1) {
                        Some((duty, r2)) => Some((
                            ResultPayloadView::ChannelDuty(ChannelDuty { channel, duty }),
                            r2,
                        )),
                        None => None,
                    },
                    None => None,
                }
            } else if tag == 4 {
                match p_duty(r) {
                    Some((d, r1)) => Some((ResultPayloadView::AllChannelsSameDuty(d), r1)),
                    None => None,
                }
            } else if tag == 5 {
                match p_duties(r, CHANNELS_COUNT as nat) {
                    Some((vs, r1)) => Some((ResultPayloadView::AllChannelsDuty(vs), r1)),
                    None => None,
                }
            } else if tag == 6 {
                match p_u8(r) {
                    Some((n, r1)) => Some((ResultPayloadView::ChannelCount(n), r1)),
                    None => None,
                }
            } else if tag == 7 {
                match p_u8(r) {
                    Some((group, r1)) => match p_u32(r1) {
                        Some((frequency, r2)) => Some((
                            ResultPayloadView::GroupFrequency(GroupFrequency { group, frequency }),
                            r2,
                        )),
                        None => None,
                    },
                    None => None,
                }
            } else if tag == 8 {
                match p_u32s(r, GROUPS_COUNT as nat) {
                    Some((vs, r1)) => Some((ResultPayloadView::AllGroupsFrequency(vs), r1)),
                    None => None,
                }
            } else if tag == 9 {
                match p_u8(r) {
                    Some((pin, r1)) => match p_bool(r1) {
                        Some((state, r2)) => Some((
                            ResultPayloadView::PinLevel(PinLevel { pin, state }),
                            r2,
                        )),
                        None => None,
                    },
                    None => None,
                }
            } else if tag == 10 {
                match p_bools(r, PINS_COUNT as nat) {
                    Some((vs, r1)) => Some((ResultPayloadView::AllPinsState(vs), r1)),
                    None => None,
                }
            } else if tag == 11 {
                match p_bool(r) {
                    Some((b, r1)) => Some((ResultPayloadView::AllPinsSameState(b), r1)),
                    None => None,
                }
            } else if tag == 12 {
                match p_u32(r) {
                    Some((w0, r1)) => match p_u32(r1) {
                        Some((w1, r2)) => match p_u32(r2) {
                            Some((w2, r3)) => Some((
                                ResultPayloadView::DeviceId(
                                    DeviceId { word0: w0, word1: w1, word2: w2 },
                                ),
                                r3,
                            )),
                            None => None,
                        },
                        None => None,
                    },
                    None => None,
                }
            } else {
                None
            }
        },
        None => None,
    }
}

/// Encoding of a wire error tag and its fields.
pub open spec fn enc_cmd_error(e: CommandError) -> Seq<u8> {
    match e {
        CommandError::ChannelNotFound(c) => seq![0u8, c],
        CommandError::GroupNotFound(g) => seq![1u8, g],
        CommandError::DutyOverflow(d) => seq![2u8] + enc_duty(d),
        CommandError::FlashError => seq![3u8],
        CommandError::StorageEmpty => seq![4u8],
        CommandError::UnknownError => seq![5u8],
    }
}

/// Parse a wire error.
pub open spec fn p_cmd_error(s: Seq<u8>) -> Option<(CommandError, Seq<u8>)> {
    match p_u8(s) {
        Some((tag, r)) => {
            if tag == 0 {
                match p_u8(r) {
                    Some((c, r1)) => Some((CommandError::ChannelNotFound(c), r1)),
                    None => None,
                }
            } else if tag == 1 {
                match p_u8(r) {
                    Some((g, r1)) => Some((CommandError::GroupNotFound(g), r1)),
                    None => None,
                }
            } else if tag == 2 {
                match p_duty(r) {
                    Some((d, r1)) => Some((CommandError::DutyOverflow(d), r1)),
                    None => None,
                }
            } else if tag == 3 {
                Some((CommandError::FlashError, r))
            } else if tag == 4 {
                Some((CommandError::StorageEmpty, r))
            } else if tag == 5 {
                Some((CommandError::UnknownError, r))
            } else {
                None
            }
        },
        None => None,
    }
}

/// Encoding of a command result: the echoed id, a status byte (0 success,
/// 1 error), then the payload or the error.
pub open spec fn enc_result(r: CommandResultView) -> Seq<u8> {
    enc_u32(r.id) + match r.data {
        Ok(p) => seq![0u8] + enc_payload(p),
        Err(e) => seq![1u8] + enc_cmd_error(e),
    }
}

/// Parse a command result.
pub open spec fn p_result(s: Seq<u8>) -> Option<(CommandResultView, Seq<u8>)> {
    match p_u32(s) {
        Some((id, r)) => match p_u8(r) {
            Some((status, r1)) => {
                if status == 0 {
                    match p_payload(r1) {
                        Some((p, r2)) => Some((
                            CommandResultView { id, data: Ok(p) },
                            r2,
                        )),
                        None => None,
                    }
                } else if status == 1 {
                    match p_cmd_error(r1) {
                        Some((e, r2)) => Some((
                            CommandResultView { id, data: Err(e) },
                            r2,
                        )),
                        None => None,
                    }
                } else {
                    None
                }
            },
            None => None,
        },
        None => None,
    }
}

// ---------------------------------------------------------------------------
// Whole-payload parsing (exact consumption)
// ---------------------------------------------------------------------------

/// Parse a whole request payload; trailing bytes make it malformed.
pub open spec fn parse_request(s: Seq<u8>) -> Option<RequestView> {
    match p_request(s) {
        Some((r, left)) => if left.len() == 0 {
            Some(r)
        } else {
            None
        },
        None => None,
    }
}

/// Parse a whole command-result payload; trailing bytes make it malformed.
pub open spec fn parse_result(s: Seq<u8>) -> Option<CommandResultView> {
    match p_result(s) {
        Some((r, left)) => if left.len() == 0 {
            Some(r)
        } else {
            None
        },
        None => None,
    }
}

// ---------------------------------------------------------------------------
// Composite round-trip lemmas
// ---------------------------------------------------------------------------

/// Parsing an operation inverts its encoding.
#[verifier::rlimit(100)]
#[verifier::spinoff_prover]
pub proof fn lemma_p_cmd_type(c: CommandTypeView, rest: Seq<u8>)
    requires
        c.wf(),
    ensures
        p_cmd_type(enc_cmd_type(c) + rest) == Some((c, rest)),
{
    match c {
        CommandTypeView::SetChannelEnabled(v) => {
            let body = seq![v.channel] + enc_bool(v.enabled);
            assert(enc_cmd_type(c) + rest =~= seq![0u8] + (body + rest));
            lemma_p_u8(0u8, body + rest);
            assert(body + rest =~= seq![v.channel] + (enc_bool(v.enabled) + rest));
            lemma_p_u8(v.channel, enc_bool(v.enabled) + rest);
            lemma_p_bool(v.enabled, rest);
        },
        CommandTypeView::SetAllChannelsSameEnabled(b) => {
            assert(enc_cmd_type(c) + rest =~= seq![1u8] + (enc_bool(b) + rest));
            lemma_p_u8(1u8, enc_bool(b) + rest);
            lemma_p_bool(b, rest);
        },
        CommandTypeView::SetAllChannelsEnabled(vs) => {
            assert(enc_cmd_type(c) + rest =~= seq![2u8] + (enc_bools(vs) + rest));
            lemma_p_u8(2u8, enc_bools(vs) + rest);
            lemma_p_bools(vs, rest);
        },
        CommandTypeView::SetChannelDuty(v) => {
            let body = seq![v.channel] + enc_duty(v.duty);
            assert(enc_cmd_type(c) + rest =~= seq![3u8] + (body + rest));
            lemma_p_u8(3u8, body + rest);
            assert(body + rest =~= seq![v.channel] + (enc_duty(v.duty) + rest));
            lemma_p_u8(v.channel, enc_duty(v.duty) + rest);
            lemma_p_duty(v.duty, rest);
        },
        CommandTypeView::SetAllChannelsSameDuty(d) => {
            assert(enc_cmd_type(c) + rest =~= seq![4u8] + (enc_duty(d) + rest));
            lemma_p_u8(4u8, enc_duty(d) + rest);
            lemma_p_duty(d, rest);
        },
        CommandTypeView::SetAllChannelsDuty(vs) => {
            assert(enc_cmd_type(c) + rest =~= seq![5u8] + (enc_duties(vs) + rest));
            lemma_p_u8(5u8, enc_duties(vs) + rest);
            lemma_p_duties(vs, rest);
        },
        CommandTypeView::GetChannelDuty(ch) => {
            assert(enc_cmd_type(c) + rest =~= seq![6u8] + (seq![ch] + rest));
            lemma_p_u8(6u8, seq![ch] + rest);
            lemma_p_u8(ch, rest);
        },
        CommandTypeView::GetAllChannelsDuty => {
            assert(enc_cmd_type(c) + rest =~= seq![7u8] + rest);
            lemma_p_u8(7u8, rest);
        },
        CommandTypeView::GetChannelCount => {
            assert(enc_cmd_type(c) + rest =~= seq![8u8] + rest);
            lemma_p_u8(8u8, rest);
        },
        CommandTypeView::SetGroupFrequency(v) => {
            let body = seq![v.group] + enc_u32(v.frequency);
            assert(enc_cmd_type(c) + rest =~= seq![9u8] + (body + rest));
            lemma_p_u8(9u8, body + rest);
            assert(body + rest =~= seq![v.group] + (enc_u32(v.frequency) + rest));
            lemma_p_u8(v.group, enc_u32(v.frequency) + rest);
            lemma_p_u32(v.frequency, rest);
        },
        CommandTypeView::GetGroupFrequency(g) => {
            assert(enc_cmd_type(c) + rest =~= seq![10u8] + (seq![g] + rest));
            lemma_p_u8(10u8, seq![g] + rest);
            lemma_p_u8(g, rest);
        },
        CommandTypeView::SetAllGroupsSameFrequency(f) => {
            assert(enc_cmd_type(c) + rest =~= seq![11u8] + (enc_u32(f) + rest));
            lemma_p_u8(11u8, enc_u32(f) + rest);
            lemma_p_u32(f, rest);
        },
        CommandTypeView::SetAllGroupsFrequency(vs) => {
            assert(enc_cmd_type(c) + rest =~= seq![12u8] + (enc_u32s(vs) + rest));
            lemma_p_u8(12u8, enc_u32s(vs) + rest);
            lemma_p_u32s(vs, rest);
        },
        CommandTypeView::GetAllGroupsFrequency => {
            assert(enc_cmd_type(c) + rest =~= seq![13u8] + rest);
            lemma_p_u8(13u8, rest);
        },
        CommandTypeView::GetDateTimestamp => {
            assert(enc_cmd_type(c) + rest =~= seq![14u8] + rest);
            lemma_p_u8(14u8, rest);
        },
        CommandTypeView::SetDateTimestamp(t) => {
            assert(enc_cmd_type(c) + rest =~= seq![15u8] + (enc_u64(t) + rest));
            lemma_p_u8(15u8, enc_u64(t) + rest);
            lemma_p_u64(t, rest);
        },
        CommandTypeView::SetPinState(v) => {
            let body = seq![v.pin] + enc_bool(v.state);
            assert(enc_cmd_type(c) + rest =~= seq![16u8] + (body + rest));
            lemma_p_u8(16u8, body + rest);
            assert(body + rest =~= seq![v.pin] + (enc_bool(v.state) + rest));
            lemma_p_u8(v.pin, enc_bool(v.state) + rest);
            lemma_p_bool(v.state, rest);
        },
        CommandTypeView::GetPinState(p) => {
            assert(enc_cmd_type(c) + rest =~= seq![17u8] + (seq![p] + rest));
            lemma_p_u8(17u8, seq![p] + rest);
            lemma_p_u8(p, rest);
        },
        CommandTypeView::SetAllPinsState(vs) => {
            assert(enc_cmd_type(c) + rest =~= seq![18u8] + (enc_bools(vs) + rest));
            lemma_p_u8(18u8, enc_bools(vs) + rest);
            lemma_p_bools(vs, rest);
        },
        CommandTypeView::SetAllPinsSameState(b) => {
            assert(enc_cmd_type(c) + rest =~= seq![19u8] + (enc_bool(b) + rest));
            lemma_p_u8(19u8, enc_bool(b) + rest);
            lemma_p_bool(b, rest);
        },
        CommandTypeView::GetAllPinsState => {
            assert(enc_cmd_type(c) + rest =~= seq![20u8] + rest);
            lemma_p_u8(20u8, rest);
        },
        CommandTypeView::GetDeviceId => {
            assert(enc_cmd_type(c) + rest =~= seq![21u8] + rest);
            lemma_p_u8(21u8, rest);
        },
    }
}

/// Parsing a command inverts its encoding.
pub proof fn lemma_p_command(c: CommandView, rest: Seq<u8>)
    requires
        c.wf(),
    ensures
        p_command(enc_command(c) + rest) == Some((c, rest)),
{
    assert(enc_command(c) + rest =~= enc_u32(c.id) + (enc_cmd_type(c.data) + rest));
    lemma_p_u32(c.id, enc_cmd_type(c.data) + rest);
    lemma_p_cmd_type(c.data, rest);
}

/// Parsing a request inverts its encoding.
proof fn lemma_p_request_broadcast(c: CommandView, rest: Seq<u8>)
    requires
        c.wf(),
    ensures
        p_request(enc_request(RequestView::Broadcast(c)) + rest) == Some((
            RequestView::Broadcast(c),
            rest,
        )),
{
    let r = RequestView::Broadcast(c);
    assert(enc_request(r) + rest =~= seq![0u8] + (enc_command(c) + rest));
    lemma_p_u8(0u8, enc_command(c) + rest);
    lemma_p_command(c, rest);
}

#[verifier::rlimit(100)]
#[verifier::spinoff_prover]
proof fn lemma_p_request_by_device_id(d: DeviceId, c: CommandView, rest: Seq<u8>)
    requires
        c.wf(),
    ensures
        p_request(enc_request(RequestView::ByDeviceId(d, c)) + rest) == Some((
            RequestView::ByDeviceId(d, c),
            rest,
        )),
{
    let r = RequestView::ByDeviceId(d, c);
    let t2 = enc_u32(d.word2) + enc_command(c);
    let t1 = enc_u32(d.word1) + t2;
    let t0 = enc_u32(d.word0) + t1;
    assert(enc_request(r) + rest =~= seq![1u8] + (t0 + rest));
    lemma_p_u8(1u8, t0 + rest);
    assert(t0 + rest =~= enc_u32(d.word0) + (t1 + rest));
    lemma_p_u32(d.word0, t1 + rest);
    assert(t1 + rest =~= enc_u32(d.word1) + (t2 + rest));
    lemma_p_u32(d.word1, t2 + rest);
    assert(t2 + rest =~= enc_u32(d.word2) + (enc_command(c) + rest));
    lemma_p_u32(d.word2, enc_command(c) + rest);
    lemma_p_command(c, rest);
}

#[verifier::rlimit(100)]
#[verifier::spinoff_prover]
proof fn lemma_p_request_by_device_number(t: DeviceNoTargetView, rest: Seq<u8>)
    requires
        t.command.wf(),
    ensures
        p_request(enc_request(RequestView::ByDeviceNumber(t)) + rest) == Some((
            RequestView::ByDeviceNumber(t),
            rest,
        )),
{
    let r = RequestView::ByDeviceNumber(t);
    let body = seq![t.number] + enc_command(t.command);
    assert(enc_request(r) + rest =~= seq![2u8] + (body + rest));
    lemma_p_u8(2u8, body + rest);
    assert(body + rest =~= seq![t.number] + (enc_command(t.command) + rest));
    lemma_p_u8(t.number, enc_command(t.command) + rest);
    lemma_p_command(t.command, rest);
}

/// Parsing a request inverts its encoding.
pub proof fn lemma_p_request(r: RequestView, rest: Seq<u8>)
    requires
        r.wf(),
    ensures
        p_request(enc_request(r) + rest) == Some((r, rest)),
{
    match r {
        RequestView::Broadcast(c) => lemma_p_request_broadcast(c, rest),
        RequestView::ByDeviceId(d, c) => lemma_p_request_by_device_id(d, c, rest),
        RequestView::ByDeviceNumber(t) => lemma_p_request_by_device_number(t, rest),
    }
}

/// Parsing a success payload inverts its encoding.
#[verifier::rlimit(100)]
#[verifier::spinoff_prover]
pub proof fn lemma_p_payload(p: ResultPayloadView, rest: Seq<u8>)
    requires
        p.wf(),
    ensures
        p_payload(enc_payload(p) + rest) == Some((p, rest)),
{
    match p {
        ResultPayloadView::ChannelEnabled(v) => {
            let body = seq![v.channel] + enc_bool(v.enabled);
            assert(enc_payload(p) + rest =~= seq![0u8] + (body + rest));
            lemma_p_u8(0u8, body + rest);
            assert(body + rest =~= seq![v.channel] + (enc_bool(v.enabled) + rest));
            lemma_p_u8(v.channel, enc_bool(v.enabled) + rest);
            lemma_p_bool(v.enabled, rest);
        },
        ResultPayloadView::AllChannelsSameEnabled(b) => {
            assert(enc_payload(p) + rest =~= seq![1u8] + (enc_bool(b) + rest));
            lemma_p_u8(1u8, enc_bool(b) + rest);
            lemma_p_bool(b, rest);
        },
        ResultPayloadView::AllChannelsEnabled(vs) => {
            assert(enc_payload(p) + rest =~= seq![2u8] + (enc_bools(vs) + rest));
            lemma_p_u8(2u8, enc_bools(vs) + rest);
            lemma_p_bools(vs, rest);
        },
        ResultPayloadView::ChannelDuty(v) => {
            let body = seq![v.channel] + enc_duty(v.duty);
            assert(enc_payload(p) + rest =~= seq![3u8] + (body + rest));
            lemma_p_u8(3u8, body + rest);
            assert(body + rest =~= seq![v.channel] + (enc_duty(v.duty) + rest));
            lemma_p_u8(v.channel, enc_duty(v.duty) + rest);
            lemma_p_duty(v.duty, rest);
        },
        ResultPayloadView::AllChannelsSameDuty(d) => {
            assert(enc_payload(p) + rest =~= seq![4u8] + (enc_duty(d) + rest));
            lemma_p_u8(4u8, enc_duty(d) + rest);
            lemma_p_duty(d, rest);
        },
        ResultPayloadView::AllChannelsDuty(vs) => {
            assert(enc_payload(p) + rest =~= seq![5u8] + (enc_duties(vs) + rest));
            lemma_p_u8(5u8, enc_duties(vs) + rest);
            lemma_p_duties(vs, rest);
        },
        ResultPayloadView::ChannelCount(n) => {
            assert(enc_payload(p) + rest =~= seq![6u8] + (seq![n] + rest));
            lemma_p_u8(6u8, seq![n] + rest);
            lemma_p_u8(n, rest);
        },
        ResultPayloadView::GroupFrequency(v) => {
            let body = seq![v.group] + enc_u32(v.frequency);
            assert(enc_payload(p) + rest =~= seq![7u8] + (body + rest));
            lemma_p_u8(7u8, body + rest);
            assert(body + rest =~= seq![v.group] + (enc_u32(v.frequency) + rest));
            lemma_p_u8(v.group, enc_u32(v.frequency) + rest);
            lemma_p_u32(v.frequency, rest);
        },
        ResultPayloadView::AllGroupsFrequency(vs) => {
            assert(enc_payload(p) + rest =~= seq![8u8] + (enc_u32s(vs) + rest));
            lemma_p_u8(8u8, enc_u32s(vs) + rest);
            lemma_p_u32s(vs, rest);
        },
        ResultPayloadView::PinLevel(v) => {
            let body = seq![v.pin] + enc_bool(v.state);
            assert(enc_payload(p) + rest =~= seq![9u8] + (body + rest));
            lemma_p_u8(9u8, body + rest);
            assert(body + rest =~= seq![v.pin] + (enc_bool(v.state) + rest));
            lemma_p_u8(v.pin, enc_bool(v.state) + rest);
            lemma_p_bool(v.state, rest);
        },
        ResultPayloadView::AllPinsState(vs) => {
            assert(enc_payload(p) + rest =~= seq![10u8] + (enc_bools(vs) + rest));
            lemma_p_u8(10u8, enc_bools(vs) + rest);
            lemma_p_bools(vs, rest);
        },
        ResultPayloadView::AllPinsSameState(b) => {
            assert(enc_payload(p) + rest =~= seq![11u8] + (enc_bool(b) + rest));
            lemma_p_u8(11u8, enc_bool(b) + rest);
            lemma_p_bool(b, rest);
        },
        ResultPayloadView::DeviceId(d) => {
            let t2 = enc_u32(d.word1) + enc_u32(d.word2);
            let t1 = enc_u32(d.word0) + t2;
            assert(enc_payload(p) + rest =~= seq![12u8] + (t1 + rest));
            lemma_p_u8(12u8, t1 + rest);
            assert(t1 + rest =~= enc_u32(d.word0) + (t2 + rest));
            lemma_p_u32(d.word0, t2 + rest);
            assert(t2 + rest =~= enc_u32(d.word1) + (enc_u32(d.word2) + rest));
            lemma_p_u32(d.word1, enc_u32(d.word2) + rest);
            lemma_p_u32(d.word2, rest);
        },
    }
}

/// Parsing a wire error inverts its encoding.
pub proof fn lemma_p_cmd_error(e: CommandError, rest: Seq<u8>)
    ensures
        p_cmd_error(enc_cmd_error(e) + rest) == Some((e, rest)),
{
    match e {
        CommandError::ChannelNotFound(c) => {
            assert(enc_cmd_error(e) + rest =~= seq![0u8] + (seq![c] + rest));
            lemma_p_u8(0u8, seq![c] + rest);
            lemma_p_u8(c, rest);
        },
        CommandError::GroupNotFound(g) => {
            assert(enc_cmd_error(e) + rest =~= seq![1u8] + (seq![g] + rest));
            lemma_p_u8(1u8, seq![g] + rest);
            lemma_p_u8(g, rest);
        },
        CommandError::DutyOverflow(d) => {
            assert(enc_cmd_error(e) + rest =~= seq![2u8] + (enc_duty(d) + rest));
            lemma_p_u8(2u8, enc_duty(d) + rest);
            lemma_p_duty(d, rest);
        },
        CommandError::FlashError => {
            assert(enc_cmd_error(e) + rest =~= seq![3u8] + rest);
            lemma_p_u8(3u8, rest);
        },
        CommandError::StorageEmpty => {
            assert(enc_cmd_error(e) + rest =~= seq![4u8] + rest);
            lemma_p_u8(4u8, rest);
        },
        CommandError::UnknownError => {
            assert(enc_cmd_error(e) + rest =~= seq![5u8] + rest);
            lemma_p_u8(5u8, rest);
        },
    }
}

/// Parsing a command result inverts its encoding.
#[verifier::rlimit(100)]
#[verifier::spinoff_prover]
pub proof fn lemma_p_result(r: CommandResultView, rest: Seq<u8>)
    requires
        r.wf(),
    ensures
        p_result(enc_result(r) + rest) == Some((r, rest)),
{
    match r.data {
        Ok(p) => {
            let body = seq![0u8] + enc_payload(p);
            assert(enc_result(r) + rest =~= enc_u32(r.id) + (body + rest));
            lemma_p_u32(r.id, body + rest);
            assert(body + rest =~= seq![0u8] + (enc_payload(p) + rest));
            lemma_p_u8(0u8, enc_payload(p) + rest);
            lemma_p_payload(p, rest);
        },
        Err(e) => {
            let body = seq![1u8] + enc_cmd_error(e);
            assert(enc_result(r) + rest =~= enc_u32(r.id) + (body + rest));
            lemma_p_u32(r.id, body + rest);
            assert(body + rest =~= seq![1u8] + (enc_cmd_error(e) + rest));
            lemma_p_u8(1u8, enc_cmd_error(e) + rest);
            lemma_p_cmd_error(e, rest);
        },
    }
}

/// Whole-payload round trip: parsing a request encoding yields the request.
pub proof fn lemma_parse_request(r: RequestView)
    requires
        r.wf(),
    ensures
        parse_request(enc_request(r)) == Some(r),
{
    lemma_p_request(r, Seq::empty());
    assert(enc_request(r) + Seq::<u8>::empty() =~= enc_request(r));
}

/// Whole-payload round trip: parsing a result encoding yields the result.
pub proof fn lemma_parse_result(r: CommandResultView)
    requires
        r.wf(),
    ensures
        parse_result(enc_result(r)) == Some(r),
{
    lemma_p_result(r, Seq::empty());
    assert(enc_result(r) + Seq::<u8>::empty() =~= enc_result(r));
}

// ---------------------------------------------------------------------------
// Executable encoders
// ---------------------------------------------------------------------------


/// Append the big-endian bytes of a 16-bit word.
pub fn emit_u16(out: &mut Vec<u8>, v: u16)
    ensures
        final(out)@ == old(out)@ + enc_u16(v),
{
    out.push((v / 0x100) as u8);
    out.push((v % 0x100) as u8);
    proof {
        assert(out@ =~= old(out)@ + enc_u16(v));
    }
}

/// Append the big-endian bytes of a 32-bit word.
pub fn emit_u32(out: &mut Vec<u8>, v: u32)
    ensures
        final(out)@ == old(out)@ + enc_u32(v),
{
    out.push((v / 0x100_0000) as u8);
    out.push(((v / 0x1_0000) % 0x100) as u8);
    out.push(((v / 0x100) % 0x100) as u8);
    out.push((v % 0x100) as u8);
    proof {
        assert(out@ =~= old(out)@ + enc_u32(v));
    }
}

/// Append the big-endian bytes of a 64-bit word.
pub fn emit_u64(out: &mut Vec<u8>, v: u64)
    ensures
        final(out)@ == old(out)@ + enc_u64(v),
{
    out.push((v / 0x100_0000_0000_0000) as u8);
    out.push(((v / 0x1_0000_0000_0000) % 0x100) as u8);
    out.push(((v / 0x100_0000_0000) % 0x100) as u8);
    out.push(((v / 0x1_0000_0000) % 0x100) as u8);
    out.push(((v / 0x100_0000) % 0x100) as u8);
    out.push(((v / 0x1_0000) % 0x100) as u8);
    out.push(((v / 0x100) % 0x100) as u8);
    out.push((v % 0x100) as u8);
    proof {
        assert(out@ =~= old(out)@ + enc_u64(v));
    }
}

/// Append one boolean byte.
pub fn emit_bool(out: &mut Vec<u8>, b: bool)
    ensures
        final(out)@ == old(out)@ + enc_bool(b),
{
    out.push(if b { 1u8 } else { 0u8 });
    proof {
        assert(out@ =~= old(out)@ + enc_bool(b));
    }
}

/// Append a duty word in offset-binary form.
pub fn emit_duty(out: &mut Vec<u8>, v: i32)
    ensures
        final(out)@ == old(out)@ + enc_duty(v),
{
    let w: u32 = ((v as i64) + DUTY_OFFSET) as u32;
    proof {
        assert(w == (v + DUTY_OFFSET) as u32);
    }
    emit_u32(out, w);
}

/// Append a run of boolean bytes.
pub fn emit_bools(out: &mut Vec<u8>, vs: &Vec<bool>)
    ensures
        final(out)@ == old(out)@ + enc_bools(vs@),
{
    proof {
        assert(vs@.skip(0) =~= vs@);
    }
    let mut i: usize = 0;
    while i < vs.len()
        invariant
            i <= vs.len(),
            out@ + enc_bools(vs@.skip(i as int)) == old(out)@ + enc_bools(vs@),
        decreases vs.len() - i,
    {
        proof {
            assert(vs@.skip(i as int)[0] == vs@[i as int]);
            assert(vs@.skip(i as int).skip(1) =~= vs@.skip(i + 1));
            assert(out@ + (enc_bool(vs@[i as int]) + enc_bools(vs@.skip(i + 1))) =~= (out@
                + enc_bool(vs@[i as int])) + enc_bools(vs@.skip(i + 1)));
        }
        emit_bool(out, vs[i]);
        i = i + 1;
    }
    proof {
        assert(vs@.skip(vs@.len() as int) =~= Seq::<bool>::empty());
        assert(out@ + enc_bools(vs@.skip(vs@.len() as int)) =~= out@);
    }
}

/// Append a run of duty words.
pub fn emit_duties(out: &mut Vec<u8>, vs: &Vec<i32>)
    ensures
        final(out)@ == old(out)@ + enc_duties(vs@),
{
    proof {
        assert(vs@.skip(0) =~= vs@);
    }
    let mut i: usize = 0;
    while i < vs.len()
        invariant
            i <= vs.len(),
            out@ + enc_duties(vs@.skip(i as int)) == old(out)@ + enc_duties(vs@),
        decreases vs.len() - i,
    {
        proof {
            assert(vs@.skip(i as int)[0] == vs@[i as int]);
            assert(vs@.skip(i as int).skip(1) =~= vs@.skip(i + 1));
            assert(out@ + (enc_duty(vs@[i as int]) + enc_duties(vs@.skip(i + 1))) =~= (out@
                + enc_duty(vs@[i as int])) + enc_duties(vs@.skip(i + 1)));
        }
        emit_duty(out, vs[i]);
        i = i + 1;
    }
    proof {
        assert(vs@.skip(vs@.len() as int) =~= Seq::<i32>::empty());
        assert(out@ + enc_duties(vs@.skip(vs@.len() as int)) =~= out@);
    }
}

/// Append a run of 32-bit words.
pub fn emit_u32s(out: &mut Vec<u8>, vs: &Vec<u32>)
    ensures
        final(out)@ == old(out)@ + enc_u32s(vs@),
{
    proof {
        assert(vs@.skip(0) =~= vs@);
    }
    let mut i: usize = 0;
    while i < vs.len()
        invariant
            i <= vs.len(),
            out@ + enc_u32s(vs@.skip(i as int)) == old(out)@ + enc_u32s(vs@),
        decreases vs.len() - i,
    {
        proof {
            assert(vs@.skip(i as int)[0] == vs@[i as int]);
            assert(vs@.skip(i as int).skip(1) =~= vs@.skip(i + 1));
            assert(out@ + (enc_u32(vs@[i as int]) + enc_u32s(vs@.skip(i + 1))) =~= (out@
                + enc_u32(vs@[i as int])) + enc_u32s(vs@.skip(i + 1)));
        }
        emit_u32(out, vs[i]);
        i = i + 1;
    }
    proof {
        assert(vs@.skip(vs@.len() as int) =~= Seq::<u32>::empty());
        assert(out@ + enc_u32s(vs@.skip(vs@.len() as int)) =~= out@);
    }
}

/// Append the encoding of an operation.
#[verifier::rlimit(100)]
#[verifier::spinoff_prover]
pub fn encode_cmd_type(out: &mut Vec<u8>, c: &CommandType)
    ensures
        final(out)@ == old(out)@ + enc_cmd_type(c@),
{
    match c {
        CommandType::SetChannelEnabled(v) => {
            out.push(0u8);
            out.push(v.channel);
            emit_bool(out, v.enabled);
            proof {
                assert(out@ =~= old(out)@ + enc_cmd_type(c@));
            }
        },
        CommandType::SetAllChannelsSameEnabled(b) => {
            out.push(1u8);
            emit_bool(out, *b);
            proof {
                assert(out@ =~= old(out)@ + enc_cmd_type(c@));
            }
        },
        CommandType::SetAllChannelsEnabled(vs) => {
            out.push(2u8);
            emit_bools(out, vs);
            proof {
                assert(out@ =~= old(out)@ + enc_cmd_type(c@));
            }
        },
        CommandType::SetChannelDuty(v) => {
            out.push(3u8);
            out.push(v.channel);
            emit_duty(out, v.duty);
            proof {
                assert(out@ =~= old(out)@ + enc_cmd_type(c@));
            }
        },
        CommandType::SetAllChannelsSameDuty(d) => {
            out.push(4u8);
            emit_duty(out, *d);
            proof {
                assert(out@ =~= old(out)@ + enc_cmd_type(c@));
            }
        },
        CommandType::SetAllChannelsDuty(vs) => {
            out.push(5u8);
            emit_duties(out, vs);
            proof {
                assert(out@ =~= old(out)@ + enc_cmd_type(c@));
            }
        },
        CommandType::GetChannelDuty(ch) => {
            out.push(6u8);
            out.push(*ch);
            proof {
                assert(out@ =~= old(out)@ + enc_cmd_type(c@));
            }
        },
        CommandType::GetAllChannelsDuty => {
            out.push(7u8);
            proof {
                assert(out@ =~= old(out)@ + enc_cmd_type(c@));
            }
        },
        CommandType::GetChannelCount => {
            out.push(8u8);
            proof {
                assert(out@ =~= old(out)@ + enc_cmd_type(c@));
            }
        },
        CommandType::SetGroupFrequency(v) => {
            out.push(9u8);
            out.push(v.group);
            emit_u32(out, v.frequency);
            proof {
                assert(out@ =~= old(out)@ + enc_cmd_type(c@));
            }
        },
        CommandType::GetGroupFrequency(g) => {
            out.push(10u8);
            out.push(*g);
            proof {
                assert(out@ =~= old(out)@ + enc_cmd_type(c@));
            }
        },
        CommandType::SetAllGroupsSameFrequency(f) => {
            out.push(11u8);
            emit_u32(out, *f);
            proof {
                assert(out@ =~= old(out)@ + enc_cmd_type(c@));
            }
        },
        CommandType::SetAllGroupsFrequency(vs) => {
            out.push(12u8);
            emit_u32s(out, vs);
            proof {
                assert(out@ =~= old(out)@ + enc_cmd_type(c@));
            }
        },
        CommandType::GetAllGroupsFrequency => {
            out.push(13u8);
            proof {
                assert(out@ =~= old(out)@ + enc_cmd_type(c@));
            }
        },
        CommandType::GetDateTimestamp => {
            out.push(14u8);
            proof {
                assert(out@ =~= old(out)@ + enc_cmd_type(c@));
            }
        },
        CommandType::SetDateTimestamp(t) => {
            out.push(15u8);
            emit_u64(out, *t);
            proof {
                assert(out@ =~= old(out)@ + enc_cmd_type(c@));
            }
        },
        CommandType::SetPinState(v) => {
            out.push(16u8);
            out.push(v.pin);
            emit_bool(out, v.state);
            proof {
                assert(out@ =~= old(out)@ + enc_cmd_type(c@));
            }
        },
        CommandType::GetPinState(p) => {
            out.push(17u8);
            out.push(*p);
            proof {
                assert(out@ =~= old(out)@ + enc_cmd_type(c@));
            }
        },
        CommandType::SetAllPinsState(vs) => {
            out.push(18u8);
            emit_bools(out, vs);
            proof {
                assert(out@ =~= old(out)@ + enc_cmd_type(c@));
            }
        },
        CommandType::SetAllPinsSameState(b) => {
            out.push(19u8);
            emit_bool(out, *b);
            proof {
                assert(out@ =~= old(out)@ + enc_cmd_type(c@));
            }
        },
        CommandType::GetAllPinsState => {
            out.push(20u8);
            proof {
                assert(out@ =~= old(out)@ + enc_cmd_type(c@));
            }
        },
        CommandType::GetDeviceId => {
            out.push(21u8);
            proof {
                assert(out@ =~= old(out)@ + enc_cmd_type(c@));
            }
        },
    }
}

/// Append the encoding of a command.
pub fn encode_command(out: &mut Vec<u8>, c: &Command)
    ensures
        final(out)@ == old(out)@ + enc_command(c@),
{
    emit_u32(out, c.id);
    encode_cmd_type(out, &c.data);
    proof {
        assert(out@ =~= old(out)@ + enc_command(c@));
    }
}

/// The encoded payload of a request, before framing.
pub fn encode_request(r: &Request) -> (out: Vec<u8>)
    ensures
        out@ == enc_request(r@),
{
    let mut out: Vec<u8> = Vec::new();
    match r {
        Request::Broadcast(c) => {
            out.push(0u8);
            encode_command(&mut out, c);
        },
        Request::ByDeviceId(d, c) => {
            out.push(1u8);
            emit_u32(&mut out, d.word0);
            emit_u32(&mut out, d.word1);
            emit_u32(&mut out, d.word2);
            encode_command(&mut out, c);
        },
        Request::ByDeviceNumber(t) => {
            out.push(2u8);
            out.push(t.number);
            encode_command(&mut out, &t.command);
        },
    }
    proof {
        assert(out@ =~= enc_request(r@));
    }
    out
}

/// Append the encoding of a success payload.
#[verifier::rlimit(100)]
#[verifier::spinoff_prover]
pub fn encode_payload(out: &mut Vec<u8>, p: &ResultPayload)
    ensures
        final(out)@ == old(out)@ + enc_payload(p@),
{
    match p {
        ResultPayload::ChannelEnabled(v) => {
            out.push(0u8);
            out.push(v.channel);
            emit_bool(out, v.enabled);
            proof {
                assert(out@ =~= old(out)@ + enc_payload(p@));
            }
        },
        ResultPayload::AllChannelsSameEnabled(b) => {
            out.push(1u8);
            emit_bool(out, *b);
            proof {
                assert(out@ =~= old(out)@ + enc_payload(p@));
            }
        },
        ResultPayload::AllChannelsEnabled(vs) => {
            out.push(2u8);
            emit_bools(out, vs);
            proof {
                assert(out@ =~= old(out)@ + enc_payload(p@));
            }
        },
        ResultPayload::ChannelDuty(v) => {
            out.push(3u8);
            out.push(v.channel);
            emit_duty(out, v.duty);
            proof {
                assert(out@ =~= old(out)@ + enc_payload(p@));
            }
        },
        ResultPayload::AllChannelsSameDuty(d) => {
            out.push(4u8);
            emit_duty(out, *d);
            proof {
                assert(out@ =~= old(out)@ + enc_payload(p@));
            }
        },
        ResultPayload::AllChannelsDuty(vs) => {
            out.push(5u8);
            emit_duties(out, vs);
            proof {
                assert(out@ =~= old(out)@ + enc_payload(p@));
            }
        },
        ResultPayload::ChannelCount(n) => {
            out.push(6u8);
            out.push(*n);
            proof {
                assert(out@ =~= old(out)@ + enc_payload(p@));
            }
        },
        ResultPayload::GroupFrequency(v) => {
            out.push(7u8);
            out.push(v.group);
            emit_u32(out, v.frequency);
            proof {
                assert(out@ =~= old(out)@ + enc_payload(p@));
            }
        },
        ResultPayload::AllGroupsFrequency(vs) => {
            out.push(8u8);
            emit_u32s(out, vs);
            proof {
                assert(out@ =~= old(out)@ + enc_payload(p@));
            }
        },
        ResultPayload::PinLevel(v) => {
            out.push(9u8);
            out.push(v.pin);
            emit_bool(out, v.state);
            proof {
                assert(out@ =~= old(out)@ + enc_payload(p@));
            }
        },
        ResultPayload::AllPinsState(vs) => {
            out.push(10u8);
            emit_bools(out, vs);
            proof {
                assert(out@ =~= old(out)@ + enc_payload(p@));
            }
        },
        ResultPayload::AllPinsSameState(b) => {
            out.push(11u8);
            emit_bool(out, *b);
            proof {
                assert(out@ =~= old(out)@ + enc_payload(p@));
            }
        },
        ResultPayload::DeviceId(d) => {
            out.push(12u8);
            emit_u32(out, d.word0);
            emit_u32(out, d.word1);
            emit_u32(out, d.word2);
            proof {
                assert(out@ =~= old(out)@ + enc_payload(p@));
            }
        },
    }
}

/// Append the encoding of a wire error.
pub fn encode_cmd_error(out: &mut Vec<u8>, e: &CommandError)
    ensures
        final(out)@ == old(out)@ + enc_cmd_error(*e),
{
    match e {
        CommandError::ChannelNotFound(c) => {
            out.push(0u8);
            out.push(*c);
            proof {
                assert(out@ =~= old(out)@ + enc_cmd_error(*e));
            }
        },
        CommandError::GroupNotFound(g) => {
            out.push(1u8);
            out.push(*g);
            proof {
                assert(out@ =~= old(out)@ + enc_cmd_error(*e));
            }
        },
        CommandError::DutyOverflow(d) => {
            out.push(2u8);
            emit_duty(out, *d);
            proof {
                assert(out@ =~= old(out)@ + enc_cmd_error(*e));
            }
        },
        CommandError::FlashError => {
            out.push(3u8);
            proof {
                assert(out@ =~= old(out)@ + enc_cmd_error(*e));
            }
        },
        CommandError::StorageEmpty => {
            out.push(4u8);
            proof {
                assert(out@ =~= old(out)@ + enc_cmd_error(*e));
            }
        },
        CommandError::UnknownError => {
            out.push(5u8);
            proof {
                assert(out@ =~= old(out)@ + enc_cmd_error(*e));
            }
        },
    }
}

/// The encoded payload of a command result, before framing.
pub fn encode_result(r: &CommandResult) -> (out: Vec<u8>)
    ensures
        out@ == enc_result(r@),
{
    let mut out: Vec<u8> = Vec::new();
    emit_u32(&mut out, r.id);
    match &r.data {
        Ok(p) => {
            out.push(0u8);
            encode_payload(&mut out, p);
        },
        Err(e) => {
            out.push(1u8);
            encode_cmd_error(&mut out, e);
        },
    }
    proof {
        assert(out@ =~= enc_result(r@));
    }
    out
}

// ---------------------------------------------------------------------------
// Executable parsers
// ---------------------------------------------------------------------------

/// Read one byte at `pos`.
pub fn take_u8(s: &[u8], pos: usize) -> (r: Option<(u8, usize)>)
    requires
        pos <= s@.len(),
    ensures
        match r {
            Some(t) => pos < t.1 <= s@.len() && p_u8(s@.skip(pos as int)) == Some((
                t.0,
                s@.skip(t.1 as int),
            )),
            None => p_u8(s@.skip(pos as int)) is None,
        },
{
    if pos < s.len() {
        let b = s[pos];
        proof {
            assert(s@.skip(pos as int)[0] == s@[pos as int]);
            assert(s@.skip(pos as int).skip(1) =~= s@.skip(pos + 1));
        }
        Some((b, pos + 1))
    } else {
        None
    }
}


/// Read a big-endian 16-bit word at `pos`.
pub fn take_u16(s: &[u8], pos: usize) -> (r: Option<(u16, usize)>)
    requires
        pos <= s@.len(),
    ensures
        match r {
            Some(t) => pos < t.1 <= s@.len() && p_u16(s@.skip(pos as int)) == Some((
                t.0,
                s@.skip(t.1 as int),
            )),
            None => p_u16(s@.skip(pos as int)) is None,
        },
{
    if s.len() - pos >= 2 {
        let v: u16 = (s[pos] as u16) * 0x100 + (s[pos + 1] as u16);
        proof {
            let t = s@.skip(pos as int);
            assert(t[0] == s@[pos as int] && t[1] == s@[pos as int + 1]);
            assert(t.skip(2) =~= s@.skip(pos + 2));
        }
        Some((v, pos + 2))
    } else {
        None
    }
}

/// Read a big-endian 32-bit word at `pos`.
pub fn take_u32(s: &[u8], pos: usize) -> (r: Option<(u32, usize)>)
    requires
        pos <= s@.len(),
    ensures
        match r {
            Some(t) => pos < t.1 <= s@.len() && p_u32(s@.skip(pos as int)) == Some((
                t.0,
                s@.skip(t.1 as int),
            )),
            None => p_u32(s@.skip(pos as int)) is None,
        },
{
    if s.len() - pos >= 4 {
        let v: u32 = (s[pos] as u32) * 0x100_0000 + (s[pos + 1] as u32) * 0x1_0000 + (s[pos + 2]
            as u32) * 0x100 + (s[pos + 3] as u32);
        proof {
            let t = s@.skip(pos as int);
            assert(t[0] == s@[pos as int] && t[1] == s@[pos as int + 1] && t[2] == s@[pos as int
                + 2] && t[3] == s@[pos as int + 3]);
            assert(t.skip(4) =~= s@.skip(pos + 4));
        }
        Some((v, pos + 4))
    } else {
        None
    }
}

/// Read a big-endian 64-bit word at `pos`.
pub fn take_u64(s: &[u8], pos: usize) -> (r: Option<(u64, usize)>)
    requires
        pos <= s@.len(),
    ensures
        match r {
            Some(t) => pos < t.1 <= s@.len() && p_u64(s@.skip(pos as int)) == Some((
                t.0,
                s@.skip(t.1 as int),
            )),
            None => p_u64(s@.skip(pos as int)) is None,
        },
{
    if s.len() - pos >= 8 {
        let v: u64 = (s[pos] as u64) * 0x100_0000_0000_0000 + (s[pos + 1] as u64)
            * 0x1_0000_0000_0000 + (s[pos + 2] as u64) * 0x100_0000_0000 + (s[pos + 3] as u64)
            * 0x1_0000_0000 + (s[pos + 4] as u64) * 0x100_0000 + (s[pos + 5] as u64) * 0x1_0000 + (
        s[pos + 6] as u64) * 0x100 + (s[pos + 7] as u64);
        proof {
            let t = s@.skip(pos as int);
            assert(t[0] == s@[pos as int] && t[1] == s@[pos as int + 1] && t[2] == s@[pos as int
                + 2] && t[3] == s@[pos as int + 3] && t[4] == s@[pos as int + 4] && t[5] == s@[
            pos as int + 5] && t[6] == s@[pos as int + 6] && t[7] == s@[pos as int + 7]);
            assert(t.skip(8) =~= s@.skip(pos + 8));
        }
        Some((v, pos + 8))
    } else {
        None
    }
}

/// Read a boolean byte at `pos`.
pub fn take_bool(s: &[u8], pos: usize) -> (r: Option<(bool, usize)>)
    requires
        pos <= s@.len(),
    ensures
        match r {
            Some(t) => pos < t.1 <= s@.len() && p_bool(s@.skip(pos as int)) == Some((
                t.0,
                s@.skip(t.1 as int),
            )),
            None => p_bool(s@.skip(pos as int)) is None,
        },
{
    if pos < s.len() {
        let b = s[pos];
        proof {
            assert(s@.skip(pos as int)[0] == s@[pos as int]);
            assert(s@.skip(pos as int).skip(1) =~= s@.skip(pos + 1));
        }
        if b == 0 {
            Some((false, pos + 1))
        } else if b == 1 {
            Some((true, pos + 1))
        } else {
            None
        }
    } else {
        None
    }
}

/// Read an offset-binary duty word at `pos`.
pub fn take_duty(s: &[u8], pos: usize) -> (r: Option<(i32, usize)>)
    requires
        pos <= s@.len(),
    ensures
        match r {
            Some(t) => pos < t.1 <= s@.len() && p_duty(s@.skip(pos as int)) == Some((
                t.0,
                s@.skip(t.1 as int),
            )),
            None => p_duty(s@.skip(pos as int)) is None,
        },
{
    match take_u32(s, pos) {
        Some((w, end)) => {
            let d: i32 = ((w as i64) - DUTY_OFFSET) as i32;
            proof {
                assert(d == (w - DUTY_OFFSET) as i32);
            }
            Some((d, end))
        },
        None => None,
    }
}

/// Read exactly `n` boolean bytes at `pos`.
pub fn take_bools(s: &[u8], pos: usize, n: usize) -> (r: Option<(Vec<bool>, usize)>)
    requires
        pos <= s@.len(),
    ensures
        match r {
            Some(t) => pos <= t.1 <= s@.len() && t.0@.len() == n && p_bools(
                s@.skip(pos as int),
                n as nat,
            ) == Some((t.0@, s@.skip(t.1 as int))),
            None => p_bools(s@.skip(pos as int), n as nat) is None,
        },
    decreases n,
{
    if n == 0 {
        let out: Vec<bool> = Vec::new();
        proof {
            assert(out@ =~= Seq::<bool>::empty());
        }
        Some((out, pos))
    } else {
        match take_bool(s, pos) {
            Some((b, p1)) => match take_bools(s, p1, n - 1) {
                Some((tail, end)) => {
                    let mut out = tail;
                    out.insert(0, b);
                    proof {
                        assert(out@ =~= seq![b] + out@.skip(1));
                        assert(out@.skip(1) =~= out@.subrange(1, out@.len() as int));
                    }
                    Some((out, end))
                },
                None => None,
            },
            None => None,
        }
    }
}

/// Read exactly `n` duty words at `pos`.
pub fn take_duties(s: &[u8], pos: usize, n: usize) -> (r: Option<(Vec<i32>, usize)>)
    requires
        pos <= s@.len(),
    ensures
        match r {
            Some(t) => pos <= t.1 <= s@.len() && t.0@.len() == n && p_duties(
                s@.skip(pos as int),
                n as nat,
            ) == Some((t.0@, s@.skip(t.1 as int))),
            None => p_duties(s@.skip(pos as int), n as nat) is None,
        },
    decreases n,
{
    if n == 0 {
        let out: Vec<i32> = Vec::new();
        proof {
            assert(out@ =~= Seq::<i32>::empty());
        }
        Some((out, pos))
    } else {
        match take_duty(s, pos) {
            Some((d, p1)) => match take_duties(s, p1, n - 1) {
                Some((tail, end)) => {
                    let mut out = tail;
                    out.insert(0, d);
                    proof {
                        assert(out@ =~= seq![d] + out@.skip(1));
                        assert(out@.skip(1) =~= out@.subrange(1, out@.len() as int));
                    }
                    Some((out, end))
                },
                None => None,
            },
            None => None,
        }
    }
}

/// Read exactly `n` 32-bit words at `pos`.
pub fn take_u32s(s: &[u8], pos: usize, n: usize) -> (r: Option<(Vec<u32>, usize)>)
    requires
        pos <= s@.len(),
    ensures
        match r {
            Some(t) => pos <= t.1 <= s@.len() && t.0@.len() == n && p_u32s(
                s@.skip(pos as int),
                n as nat,
            ) == Some((t.0@, s@.skip(t.1 as int))),
            None => p_u32s(s@.skip(pos as int), n as nat) is None,
        },
    decreases n,
{
    if n == 0 {
        let out: Vec<u32> = Vec::new();
        proof {
            assert(out@ =~= Seq::<u32>::empty());
        }
        Some((out, pos))
    } else {
        match take_u32(s, pos) {
            Some((w, p1)) => match take_u32s(s, p1, n - 1) {
                Some((tail, end)) => {
                    let mut out = tail;
                    out.insert(0, w);
                    proof {
                        assert(out@ =~= seq![w] + out@.skip(1));
                        assert(out@.skip(1) =~= out@.subrange(1, out@.len() as int));
                    }
                    Some((out, end))
                },
                None => None,
            },
            None => None,
        }
    }
}

/// Parse an operation at `pos`.
#[verifier::rlimit(100)]
#[verifier::spinoff_prover]
pub fn parse_cmd_type(s: &[u8], pos: usize) -> (r: Option<(CommandType, usize)>)
    requires
        pos <= s@.len(),
    ensures
        match r {
            Some(t) => pos <= t.1 <= s@.len() && t.0@.wf() && p_cmd_type(s@.skip(pos as int))
                == Some((t.0@, s@.skip(t.1 as int))),
            None => p_cmd_type(s@.skip(pos as int)) is None,
        },
{
    match take_u8(s, pos) {
        Some((tag, p1)) => {
            if tag == 0 {
                match take_u8(s, p1) {
                    Some((channel, p2)) => match take_bool(s, p2) {
                        Some((enabled, p3)) => Some((
                            CommandType::SetChannelEnabled(ChannelEnabled { channel, enabled }),
                            p3,
                        )),
                        None => None,
                    },
                    None => None,
                }
            } else if tag == 1 {
                match take_bool(s, p1) {
                    Some((b, p2)) => Some((CommandType::SetAllChannelsSameEnabled(b), p2)),
                    None => None,
                }
            } else if tag == 2 {
                match take_bools(s, p1, CHANNELS_COUNT) {
                    Some((vs, p2)) => Some((CommandType::SetAllChannelsEnabled(vs), p2)),
                    None => None,
                }
            } else if tag == 3 {
                match take_u8(s, p1) {
                    Some((channel, p2)) => match take_duty(s, p2) {
                        Some((duty, p3)) => Some((
                            CommandType::SetChannelDuty(ChannelDuty { channel, duty }),
                            p3,
                        )),
                        None => None,
                    },
                    None => None,
                }
            } else if tag == 4 {
                match take_duty(s, p1) {
                    Some((d, p2)) => Some((CommandType::SetAllChannelsSameDuty(d), p2)),
                    None => None,
                }
            } else if tag == 5 {
                match take_duties(s, p1, CHANNELS_COUNT) {
                    Some((vs, p2)) => Some((CommandType::SetAllChannelsDuty(vs), p2)),
                    None => None,
                }
            } else if tag == 6 {
                match take_u8(s, p1) {
                    Some((ch, p2)) => Some((CommandType::GetChannelDuty(ch), p2)),
                    None => None,
                }
            } else if tag == 7 {
                Some((CommandType::GetAllChannelsDuty, p1))
            } else if tag == 8 {
                Some((CommandType::GetChannelCount, p1))
            } else if tag == 9 {
                match take_u8(s, p1) {
                    Some((group, p2)) => match take_u32(s, p2) {
                        Some((frequency, p3)) => Some((
                            CommandType::SetGroupFrequency(GroupFrequency { group, frequency }),
                            p3,
                        )),
                        None => None,
                    },
                    None => None,
                }
            } else if tag == 10 {
                match take_u8(s, p1) {
                    Some((g, p2)) => Some((CommandType::GetGroupFrequency(g), p2)),
                    None => None,
                }
            } else if tag == 11 {
                match take_u32(s, p1) {
                    Some((f, p2)) => Some((CommandType::SetAllGroupsSameFrequency(f), p2)),
                    None => None,
                }
            } else if tag == 12 {
                match take_u32s(s, p1, GROUPS_COUNT) {
                    Some((vs, p2)) => Some((CommandType::SetAllGroupsFrequency(vs), p2)),
                    None => None,
                }
            } else if tag == 13 {
                Some((CommandType::GetAllGroupsFrequency, p1))
            } else if tag == 14 {
                Some((CommandType::GetDateTimestamp, p1))
            } else if tag == 15 {
                match take_u64(s, p1) {
                    Some((t, p2)) => Some((CommandType::SetDateTimestamp(t), p2)),
                    None => None,
                }
            } else if tag == 16 {
                match take_u8(s, p1) {
                    Some((pin, p2)) => match take_bool(s, p2) {
                        Some((state, p3)) => Some((
                            CommandType::SetPinState(PinLevel { pin, state }),
                            p3,
                        )),
                        None => None,
                    },
                    None => None,
                }
            } else if tag == 17 {
                match take_u8(s, p1) {
                    Some((p, p2)) => Some((CommandType::GetPinState(p), p2)),
                    None => None,
                }
            } else if tag == 18 {
                match take_bools(s, p1, PINS_COUNT) {
                    Some((vs, p2)) => Some((CommandType::SetAllPinsState(vs), p2)),
                    None => None,
                }
            } else if tag == 19 {
                match take_bool(s, p1) {
                    Some((b, p2)) => Some((CommandType::SetAllPinsSameState(b), p2)),
                    None => None,
                }
            } else if tag == 20 {
                Some((CommandType::GetAllPinsState, p1))
            } else if tag == 21 {
                Some((CommandType::GetDeviceId, p1))
            } else {
                None
            }
        },
        None => None,
    }
}

/// Parse a command at `pos`.
pub fn parse_command(s: &[u8], pos: usize) -> (r: Option<(Command, usize)>)
    requires
        pos <= s@.len(),
    ensures
        match r {
            Some(t) => pos <= t.1 <= s@.len() && t.0@.wf() && p_command(s@.skip(pos as int))
                == Some((t.0@, s@.skip(t.1 as int))),
            None => p_command(s@.skip(pos as int)) is None,
        },
{
    match take_u32(s, pos) {
        Some((id, p1)) => match parse_cmd_type(s, p1) {
            Some((data, p2)) => Some((Command { id, data }, p2)),
            None => None,
        },
        None => None,
    }
}

/// Parse a request at `pos`.
pub fn parse_request_at(s: &[u8], pos: usize) -> (r: Option<(Request, usize)>)
    requires
        pos <= s@.len(),
    ensures
        match r {
            Some(t) => pos <= t.1 <= s@.len() && t.0@.wf() && p_request(s@.skip(pos as int))
                == Some((t.0@, s@.skip(t.1 as int))),
            None => p_request(s@.skip(pos as int)) is None,
        },
{
    match take_u8(s, pos) {
        Some((tag, p1)) => {
            if tag == 0 {
                match parse_command(s, p1) {
                    Some((c, p2)) => Some((Request::Broadcast(c), p2)),
                    None => None,
                }
            } else if tag == 1 {
                match take_u32(s, p1) {
                    Some((w0, p2)) => match take_u32(s, p2) {
                        Some((w1, p3)) => match take_u32(s, p3) {
                            Some((w2, p4)) => match parse_command(s, p4) {
                                Some((c, p5)) => Some((
                                    Request::ByDeviceId(
                                        DeviceId { word0: w0, word1: w1, word2: w2 },
                                        c,
                                    ),
                                    p5,
                                )),
                                None => None,
                            },
                            None => None,
                        },
                        None => None,
                    },
                    None => None,
                }
            } else if tag == 2 {
                match take_u8(s, p1) {
                    Some((number, p2)) => match parse_command(s, p2) {
                        Some((command, p3)) => Some((
                            Request::ByDeviceNumber(DeviceNoTarget { number, command }),
                            p3,
                        )),
                        None => None,
                    },
                    None => None,
                }
            } else {
                None
            }
        },
        None => None,
    }
}

/// Parse a success payload at `pos`.
#[verifier::rlimit(100)]
#[verifier::spinoff_prover]
pub fn parse_payload(s: &[u8], pos: usize) -> (r: Option<(ResultPayload, usize)>)
    requires
        pos <= s@.len(),
    ensures
        match r {
            Some(t) => pos <= t.1 <= s@.len() && t.0@.wf() && p_payload(s@.skip(pos as int))
                == Some((t.0@, s@.skip(t.1 as int))),
            None => p_payload(s@.skip(pos as int)) is None,
        },
{
    match take_u8(s, pos) {
        Some((tag, p1)) => {
            if tag == 0 {
                match take_u8(s, p1) {
                    Some((channel, p2)) => match take_bool(s, p2) {
                        Some((enabled, p3)) => Some((
                            ResultPayload::ChannelEnabled(ChannelEnabled { channel, enabled }),
                            p3,
                        )),
                        None => None,
                    },
                    None => None,
                }
            } else if tag == 1 {
                match take_bool(s, p1) {
                    Some((b, p2)) => Some((ResultPayload::AllChannelsSameEnabled(b), p2)),
                    None => None,
                }
            } else if tag == 2 {
                match take_bools(s, p1, CHANNELS_COUNT) {
                    Some((vs, p2)) => Some((ResultPayload::AllChannelsEnabled(vs), p2)),
                    None => None,
                }
            } else if tag == 3 {
                match take_u8(s, p1) {
                    Some((channel, p2)) => match take_duty(s, p2) {
                        Some((duty, p3)) => Some((
                            ResultPayload::ChannelDuty(ChannelDuty { channel, duty }),
                            p3,
                        )),
                        None => None,
                    },
                    None => None,
                }
            } else if tag == 4 {
                match take_duty(s, p1) {
                    Some((d, p2)) => Some((ResultPayload::AllChannelsSameDuty(d), p2)),
                    None => None,
                }
            } else if tag == 5 {
                match take_duties(s, p1, CHANNELS_COUNT) {
                    Some((vs, p2)) => Some((ResultPayload::AllChannelsDuty(vs), p2)),
                    None => None,
                }
            } else if tag == 6 {
                match take_u8(s, p1) {
                    Some((n, p2)) => Some((ResultPayload::ChannelCount(n), p2)),
                    None => None,
                }
            } else if tag == 7 {
                match take_u8(s, p1) {
                    Some((group, p2)) => match take_u32(s, p2) {
                        Some((frequency, p3)) => Some((
                            ResultPayload::GroupFrequency(GroupFrequency { group, frequency }),
                            p3,
                        )),
                        None => None,
                    },
                    None => None,
                }
            } else if tag == 8 {
                match take_u32s(s, p1, GROUPS_COUNT) {
                    Some((vs, p2)) => Some((ResultPayload::AllGroupsFrequency(vs), p2)),
                    None => None,
                }
            } else if tag == 9 {
                match take_u8(s, p1) {
                    Some((pin, p2)) => match take_bool(s, p2) {
                        Some((state, p3)) => Some((
                            ResultPayload::PinLevel(PinLevel { pin, state }),
                            p3,
                        )),
                        None => None,
                    },
                    None => None,
                }
            } else if tag == 10 {
                match take_bools(s, p1, PINS_COUNT) {
                    Some((vs, p2)) => Some((ResultPayload::AllPinsState(vs), p2)),
                    None => None,
                }
            } else if tag == 11 {
                match take_bool(s, p1) {
                    Some((b, p2)) => Some((ResultPayload::AllPinsSameState(b), p2)),
                    None => None,
                }
            } else if tag == 12 {
                match take_u32(s, p1) {
                    Some((w0, p2)) => match take_u32(s, p2) {
                        Some((w1, p3)) => match take_u32(s, p3) {
                            Some((w2, p4)) => Some((
                                ResultPayload::DeviceId(
                                    DeviceId { word0: w0, word1: w1, word2: w2 },
                                ),
                                p4,
                            )),
                            None => None,
                        },
                        None => None,
                    },
                    None => None,
                }
            } else {
                None
            }
        },
        None => None,
    }
}

/// Parse a wire error at `pos`.
pub fn parse_cmd_error(s: &[u8], pos: usize) -> (r: Option<(CommandError, usize)>)
    requires
        pos <= s@.len(),
    ensures
        match r {
            Some(t) => pos <= t.1 <= s@.len() && p_cmd_error(s@.skip(pos as int)) == Some((
                t.0,
                s@.skip(t.1 as int),
            )),
            None => p_cmd_error(s@.skip(pos as int)) is None,
        },
{
    match take_u8(s, pos) {
        Some((tag, p1)) => {
            if tag == 0 {
                match take_u8(s, p1) {
                    Some((c, p2)) => Some((CommandError::ChannelNotFound(c), p2)),
                    None => None,
                }
            } else if tag == 1 {
                match take_u8(s, p1) {
                    Some((g, p2)) => Some((CommandError::GroupNotFound(g), p2)),
                    None => None,
                }
            } else if tag == 2 {
                match take_duty(s, p1) {
                    Some((d, p2)) => Some((CommandError::DutyOverflow(d), p2)),
                    None => None,
                }
            } else if tag == 3 {
                Some((CommandError::FlashError, p1))
            } else if tag == 4 {
                Some((CommandError::StorageEmpty, p1))
            } else if tag == 5 {
                Some((CommandError::UnknownError, p1))
            } else {
                None
            }
        },
        None => None,
    }
}

/// Parse a command result at `pos`.
pub fn parse_result_at(s: &[u8], pos: usize) -> (r: Option<(CommandResult, usize)>)
    requires
        pos <= s@.len(),
    ensures
        match r {
            Some(t) => pos <= t.1 <= s@.len() && t.0@.wf() && p_result(s@.skip(pos as int))
                == Some((t.0@, s@.skip(t.1 as int))),
            None => p_result(s@.skip(pos as int)) is None,
        },
{
    match take_u32(s, pos) {
        Some((id, p1)) => match take_u8(s, p1) {
            Some((status, p2)) => {
                if status == 0 {
                    match parse_payload(s, p2) {
                        Some((p, p3)) => Some((CommandResult { id, data: Ok(p) }, p3)),
                        None => None,
                    }
                } else if status == 1 {
                    match parse_cmd_error(s, p2) {
                        Some((e, p3)) => Some((CommandResult { id, data: Err(e) }, p3)),
                        None => None,
                    }
                } else {
                    None
                }
            },
            None => None,
        },
        None => None,
    }
}

/// Parse a whole request payload; trailing bytes make it malformed.
pub fn decode_request_payload(s: &[u8]) -> (r: Option<Request>)
    ensures
        match r {
            Some(req) => req@.wf() && parse_request(s@) == Some(req@),
            None => parse_request(s@) is None,
        },
{
    proof {
        assert(s@.skip(0) =~= s@);
    }
    match parse_request_at(s, 0) {
        Some((req, end)) => {
            if end == s.len() {
                proof {
                    assert(s@.skip(end as int).len() == 0);
                }
                Some(req)
            } else {
                proof {
                    assert(s@.skip(end as int).len() != 0);
                }
                None
            }
        },
        None => None,
    }
}

/// Parse a whole command-result payload; trailing bytes make it malformed.
pub fn decode_result_payload(s: &[u8]) -> (r: Option<CommandResult>)
    ensures
        match r {
            Some(res) => res@.wf() && parse_result(s@) == Some(res@),
            None => parse_result(s@) is None,
        },
{
    proof {
        assert(s@.skip(0) =~= s@);
    }
    match parse_result_at(s, 0) {
        Some((res, end)) => {
            if end == s.len() {
                proof {
                    assert(s@.skip(end as int).len() == 0);
                }
                Some(res)
            } else {
                proof {
                    assert(s@.skip(end as int).len() != 0);
                }
                None
            }
        },
        None => None,
    }
}

} // verus!
