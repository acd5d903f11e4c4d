//! Frame envelope: `payload || CRC32(payload)`, with the checksum in
//! big-endian byte order and computed with the iSCSI (Castagnoli)
//! polynomial.
//!
//! A frame is accepted only if recomputing the checksum over the payload
//! matches the four trailing bytes; a mismatch marks the frame as foreign or
//! corrupted, never as a hard error.

use vstd::prelude::*;

use crate::codec::enc_u32;
use crate::codec::enc_request;
use crate::codec::enc_result;
use crate::codec::parse_request;
use crate::codec::parse_result;
use crate::codec::decode_request_payload;
use crate::codec::decode_result_payload;
use crate::codec::lemma_parse_request;
use crate::codec::lemma_parse_result;
use crate::protocol::CommandResult;
use crate::protocol::CommandResultView;
use crate::protocol::Request;
use crate::protocol::RequestView;

verus! {

/// The CRC32 checksum, iSCSI polynomial, of a byte sequence. Its value is
/// fixed by the bytes alone; the library states nothing else about it.
pub uninterp spec fn crc32_of(data: Seq<u8>) -> u32;

/// Relies on `crc::Crc::<u32>::checksum` with `CRC_32_ISCSI`: a table-driven
/// checksum that depends on the input bytes alone.
#[verifier::external_body]
fn crc32_iscsi(data: &[u8]) -> (r: u32)
    ensures
        r == crc32_of(data@),
{
    crc::Crc::<u32>::new(&crc::CRC_32_ISCSI).checksum(data)
}

/// The frame that carries `payload`: the payload followed by its checksum.
pub open spec fn frame_bytes(payload: Seq<u8>) -> Seq<u8> {
    payload + enc_u32(crc32_of(payload))
}

/// The payload of an accepted frame: the leading bytes, provided the four
/// trailing bytes equal their checksum; `None` for a rejected frame.
pub open spec fn frame_payload(s: Seq<u8>) -> Option<Seq<u8>> {
    if s.len() >= 4 {
        let payload = s.take(s.len() - 4);
        if s.skip(s.len() - 4) == enc_u32(crc32_of(payload)) {
            Some(payload)
        } else {
            None
        }
    } else {
        None
    }
}

/// What decoding a received frame as a request yields.
pub open spec fn spec_decode_request_frame(s: Seq<u8>) -> Option<RequestView> {
    match frame_payload(s) {
        Some(payload) => parse_request(payload),
        None => None,
    }
}

/// What decoding a received frame as a command result yields.
pub open spec fn spec_decode_result_frame(s: Seq<u8>) -> Option<CommandResultView> {
    match frame_payload(s) {
        Some(payload) => parse_result(payload),
        None => None,
    }
}

/// A frame always yields back the payload it was built from.
pub proof fn lemma_frame_round_trip(payload: Seq<u8>)
    ensures
        frame_payload(frame_bytes(payload)) == Some(payload),
{
    let s = frame_bytes(payload);
    assert(s.take(s.len() - 4) =~= payload);
    assert(s.skip(s.len() - 4) =~= enc_u32(crc32_of(payload)));
}

/// Any frame whose leading bytes equal `payload` but whose four-byte trailer
/// differs from the true checksum trailer is rejected. A single bit flipped
/// in the trailer is one such corruption.
pub proof fn lemma_corrupt_trailer_rejected(payload: Seq<u8>, s: Seq<u8>)
    requires
        s.len() == payload.len() + 4,
        s.take(payload.len() as int) == payload,
        s != frame_bytes(payload),
    ensures
        frame_payload(s) is None,
{
    let trailer = s.skip(payload.len() as int);
    assert(s =~= payload + trailer);
    if trailer == enc_u32(crc32_of(payload)) {
        assert(s =~= frame_bytes(payload));
    }
}

/// A single bit flipped anywhere in the four-byte checksum trailer makes
/// the frame undecodable.
pub proof fn lemma_trailer_bit_flip_rejected(payload: Seq<u8>, i: int, bit: u8)
    requires
        payload.len() <= i < payload.len() + 4,
        bit < 8,
    ensures
        frame_payload(
            frame_bytes(payload).update(i, frame_bytes(payload)[i] ^ (1u8 << bit)),
        ) is None,
{
    let s = frame_bytes(payload);
    let b = s[i];
    let s2 = s.update(i, b ^ (1u8 << bit));
    assert(b ^ (1u8 << bit) != b) by (bit_vector)
        requires
            bit < 8,
    ;
    assert(s2.take(payload.len() as int) =~= payload);
    assert(s2[i] != s[i]);
    lemma_corrupt_trailer_rejected(payload, s2);
}

/// Encode/decode round trip over the wire (request direction): a framed,
/// checksummed request decodes to a request with exactly the original
/// fields.
pub proof fn lemma_request_frame_round_trip(r: RequestView)
    requires
        r.wf(),
    ensures
        spec_decode_request_frame(frame_bytes(enc_request(r))) == Some(r),
{
    lemma_frame_round_trip(enc_request(r));
    lemma_parse_request(r);
}

/// Encode/decode round trip over the wire (response direction): a framed,
/// checksummed command result decodes to a result with exactly the original
/// id and payload.
pub proof fn lemma_result_frame_round_trip(r: CommandResultView)
    requires
        r.wf(),
    ensures
        spec_decode_result_frame(frame_bytes(enc_result(r))) == Some(r),
{
    lemma_frame_round_trip(enc_result(r));
    lemma_parse_result(r);
}

/// Append the checksum trailer to an encoded payload.
pub fn seal_frame(payload: &mut Vec<u8>)
    ensures
        final(payload)@ == frame_bytes(old(payload)@),
{
    let crc = crc32_iscsi(payload.as_slice());
    crate::codec::emit_u32(payload, crc);
}

/// Frame a request for transmission.
pub fn encode_request_frame(r: &Request) -> (out: Vec<u8>)
    ensures
        out@ == frame_bytes(enc_request(r@)),
{
    let mut out = crate::codec::encode_request(r);
    seal_frame(&mut out);
    out
}

/// Frame a command result for transmission.
pub fn encode_result_frame(r: &CommandResult) -> (out: Vec<u8>)
    ensures
        out@ == frame_bytes(enc_result(r@)),
{
    let mut out = crate::codec::encode_result(r);
    seal_frame(&mut out);
    out
}

/// Check the trailer of a received frame and return its payload bounds.
fn check_frame(s: &[u8]) -> (r: Option<usize>)
    ensures
        match r {
            Some(n) => n + 4 == s@.len() && frame_payload(s@) == Some(s@.take(n as int)),
            None => frame_payload(s@) is None,
        },
{
    if s.len() < 4 {
        return None;
    }
    let n = s.len() - 4;
    let payload = slice_prefix(s, n);
    let crc = crc32_iscsi(payload.as_slice());
    let b0 = (crc / 0x100_0000) as u8;
    let b1 = ((crc / 0x1_0000) % 0x100) as u8;
    let b2 = ((crc / 0x100) % 0x100) as u8;
    let b3 = (crc % 0x100) as u8;
    if s[n] == b0 && s[n + 1] == b1 && s[n + 2] == b2 && s[n + 3] == b3 {
        proof {
            assert(s@.skip(n as int) =~= enc_u32(crc32_of(s@.take(n as int))));
        }
        Some(n)
    } else {
        proof {
            assert(s@.skip(n as int) != enc_u32(crc32_of(s@.take(n as int)))) by {
                if s@.skip(n as int) == enc_u32(crc32_of(s@.take(n as int))) {
                    assert(s@.skip(n as int)[0] == s@[n as int]);
                    assert(s@.skip(n as int)[1] == s@[n as int + 1]);
                    assert(s@.skip(n as int)[2] == s@[n as int + 2]);
                    assert(s@.skip(n as int)[3] == s@[n as int + 3]);
                }
            }
        }
        None
    }
}

/// Decode a received frame as a request: checksum first, then the payload.
pub fn decode_request_frame(s: &[u8]) -> (r: Option<Request>)
    ensures
        match r {
            Some(req) => req@.wf() && spec_decode_request_frame(s@) == Some(req@),
            None => spec_decode_request_frame(s@) is None,
        },
{
    match check_frame(s) {
        Some(n) => {
            let payload = slice_prefix(s, n);
            decode_request_payload(payload.as_slice())
        },
        None => None,
    }
}

/// Decode a received frame as a command result: checksum first, then the
/// payload.
pub fn decode_result_frame(s: &[u8]) -> (r: Option<CommandResult>)
    ensures
        match r {
            Some(res) => res@.wf() && spec_decode_result_frame(s@) == Some(res@),
            None => spec_decode_result_frame(s@) is None,
        },
{
    match check_frame(s) {
        Some(n) => {
            let payload = slice_prefix(s, n);
            decode_result_payload(payload.as_slice())
        },
        None => None,
    }
}

/// Copy of the first `n` bytes of a slice.
fn slice_prefix(s: &[u8], n: usize) -> (r: Vec<u8>)
    requires
        n <= s@.len(),
    ensures
        r@ == s@.take(n as int),
{
    let mut out: Vec<u8> = Vec::new();
    let mut i: usize = 0;
    while i < n
        invariant
            i <= n <= s@.len(),
            out@ == s@.take(i as int),
        decreases n - i,
    {
        out.push(s[i]);
        proof {
            assert(out@ =~= s@.take(i + 1 as int));
        }
        i = i + 1;
    }
    out
}

} // verus!
