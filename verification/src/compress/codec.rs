//! The at-rest page envelope.

use vstd::prelude::*;

use crate::bytes;
use crate::checked_bytes::CheckedSliceReader;
use crate::compress::frames;
use crate::error::{self, DbError, ErrorView, Result, SqlState};
use crate::text;

verus! {

/// Codec ids shared by page/WAL compression and TOAST value payloads. `CODEC_NONE` is
/// valid only for value payloads; page-at-rest envelopes and compressed WAL page images
/// must use a real codec.
pub const CODEC_NONE: u8 = 0;

pub const CODEC_ZSTD: u8 = 1;

pub const CODEC_ZSTD_DICT: u8 = 2;

/// zstd levels: at-rest and TOAST value compression run off the hottest DML
/// path, while WAL page image compression runs inline on the DML path.
pub const LEVEL_AT_REST: i32 = 3;

pub const TOAST_ZSTD_LEVEL: i32 = LEVEL_AT_REST;

pub const LEVEL_WAL: i32 = 1;

/// First 6 bytes of a compressed page slot. Bytes 4 and 5 sit where a raw
/// page stores its type and its version; 0xFF is invalid for both, so no valid
/// raw page can collide with the marker.
pub const ENVELOPE_MARKER: [u8; 6] = [0x53, 0x47, 0x43, 0x50, 0xFF, 0xFF];

pub const ENVELOPE_VERSION: u8 = 1;

/// marker(6) + version(1) + codec(1) + dict_id(4) + payload_len(2) + crc32(4)
pub const ENVELOPE_HEADER_LEN: usize = 18;

/// The bytes of [`ENVELOPE_MARKER`].
pub open spec fn marker() -> Seq<u8> {
    seq![0x53u8, 0x47u8, 0x43u8, 0x50u8, 0xFFu8, 0xFFu8]
}

/// What a compressed page slot holds.
#[derive(Debug)]
pub struct Envelope<'a> {
    pub codec: u8,
    pub dict_id: u32,
    pub payload: &'a [u8],
}

/// A damaged or impossible envelope.
pub open spec fn corruption(message: Seq<char>) -> ErrorView {
    error::storage_error(SqlState::InternalError, message)
}

pub(crate) fn corrupt(message: &str) -> (error: DbError)
    ensures
        error@ == corruption(message@),
{
    DbError::storage(SqlState::InternalError, message)
}

pub(crate) fn corrupt_with(what: &str, detail: &str) -> (error: DbError)
    ensures
        error@ == corruption(what@ + detail@),
{
    let mut message: String = what.to_owned();
    message.append(detail);
    corrupt(&message)
}

/// An envelope uses a real codec.
pub open spec fn is_envelope_codec(codec: u8) -> bool {
    codec == CODEC_ZSTD || codec == CODEC_ZSTD_DICT
}

/// The slot starts with the marker.
pub open spec fn has_marker(slot: Seq<u8>) -> bool {
    slot.len() >= 6 && slot.subrange(0, 6) == marker()
}

pub fn is_envelope(slot: &[u8]) -> (envelope: bool)
    ensures
        envelope == has_marker(slot@),
{
    let marked: bool = slot.len() >= 6 && slot[0] == 0x53 && slot[1] == 0x47 && slot[2] == 0x43
        && slot[3] == 0x50 && slot[4] == 0xFF && slot[5] == 0xFF;
    proof {
        if slot@.len() >= 6 {
            let start = slot@.subrange(0, 6);
            assert(start[0] == slot@[0] && start[1] == slot@[1] && start[2] == slot@[2] && start[3]
                == slot@[3] && start[4] == slot@[4] && start[5] == slot@[5]);
            if marked {
                assert(start =~= marker());
            }
        }
    }
    marked
}

/// No slot with another byte than 0xFF where a raw page stores its type and its version
/// is an envelope.
pub proof fn raw_pages_are_not_envelopes(slot: Seq<u8>)
    requires
        slot.len() >= 6,
        slot[4] != 0xFF || slot[5] != 0xFF,
    ensures
        !has_marker(slot),
{
    assert(slot.subrange(0, 6)[4] == slot[4]);
    assert(slot.subrange(0, 6)[5] == slot[5]);
}

/// The bytes of an envelope.
pub open spec fn envelope_bytes(codec: u8, dict_id: u32, payload: Seq<u8>) -> Seq<u8> {
    marker() + seq![ENVELOPE_VERSION, codec] + bytes::le_bytes(dict_id as nat, 4)
        + bytes::le_bytes(payload.len(), 2) + bytes::le_bytes(frames::crc32(payload) as nat, 4)
        + payload
}

/// Frames a compressed payload.
pub fn encode_envelope(codec: u8, dict_id: u32, payload: &[u8]) -> (result: Result<Vec<u8>>)
    ensures
        match result {
            Ok(out) => is_envelope_codec(codec) && payload@.len() <= u16::MAX && out@
                == envelope_bytes(codec, dict_id, payload@),
            Err(error) => if !is_envelope_codec(codec) {
                error@ == corruption("unknown envelope codec "@ + text::decimal_text(codec as nat))
            } else {
                payload@.len() > u16::MAX && error@ == corruption(
                    "envelope payload too large: "@ + text::decimal_text(payload@.len()),
                )
            },
        },
{
    if codec != CODEC_ZSTD && codec != CODEC_ZSTD_DICT {
        return Err(corrupt(&text::numbered("unknown envelope codec ", codec as u128)));
    }
    if payload.len() > 0xFFFF {
        return Err(
            corrupt(&text::numbered("envelope payload too large: ", payload.len() as u128)),
        );
    }
    let mut out: Vec<u8> = Vec::new();
    out.push(0x53);
    out.push(0x47);
    out.push(0x43);
    out.push(0x50);
    out.push(0xFF);
    out.push(0xFF);
    out.push(ENVELOPE_VERSION);
    out.push(codec);
    assert(out@ =~= marker() + seq![ENVELOPE_VERSION, codec]);
    bytes::push_le(&mut out, dict_id as u64, 4);
    bytes::push_le(&mut out, payload.len() as u64, 2);
    bytes::push_le(&mut out, frames::checksum(payload) as u64, 4);
    out.extend_from_slice(payload);
    assert(out@ =~= envelope_bytes(codec, dict_id, payload@));
    Ok(out)
}

/// What an envelope at the start of a slot holds.
pub enum EnvelopeView {
    Holds { codec: u8, dict_id: u32, payload: Seq<u8> },
    Damaged(Seq<char>),
}

/// The length of the payload that a slot declares.
pub open spec fn declared_len(slot: Seq<u8>) -> nat {
    bytes::le_nat(slot.subrange(12, 14))
}

/// The envelope at the start of a slot, or what is wrong with it.
pub open spec fn envelope_in(slot: Seq<u8>) -> EnvelopeView {
    if !has_marker(slot) {
        EnvelopeView::Damaged("not a compressed page envelope"@)
    } else if slot.len() < ENVELOPE_HEADER_LEN {
        EnvelopeView::Damaged("compressed page envelope truncated"@)
    } else if slot[6] != ENVELOPE_VERSION {
        EnvelopeView::Damaged("unknown envelope version "@ + text::decimal_text(slot[6] as nat))
    } else if !is_envelope_codec(slot[7]) {
        EnvelopeView::Damaged("unknown envelope codec "@ + text::decimal_text(slot[7] as nat))
    } else if slot.len() < ENVELOPE_HEADER_LEN + declared_len(slot) {
        EnvelopeView::Damaged("envelope payload extends past the page slot"@)
    } else {
        let payload = slot.subrange(18, 18 + declared_len(slot) as int);
        if frames::crc32(payload) != bytes::le_nat(slot.subrange(14, 18)) {
            EnvelopeView::Damaged("compressed page envelope CRC mismatch"@)
        } else {
            EnvelopeView::Holds {
                codec: slot[7],
                dict_id: bytes::le_nat(slot.subrange(8, 12)) as u32,
                payload,
            }
        }
    }
}

/// Reads the envelope at the start of a slot.
pub fn decode_envelope<'a>(slot: &'a [u8]) -> (result: Result<Envelope<'a>>)
    ensures
        match result {
            Ok(envelope) => envelope_in(slot@) == (EnvelopeView::Holds {
                codec: envelope.codec,
                dict_id: envelope.dict_id,
                payload: envelope.payload@,
            }),
            Err(error) => envelope_in(slot@) matches EnvelopeView::Damaged(message) && error@
                == corruption(message),
        },
{
    if !is_envelope(slot) {
        return Err(corrupt("not a compressed page envelope"));
    }
    if slot.len() < ENVELOPE_HEADER_LEN {
        return Err(corrupt("compressed page envelope truncated"));
    }
    let version: u8 = slot[6];
    if version != ENVELOPE_VERSION {
        return Err(corrupt(&text::numbered("unknown envelope version ", version as u128)));
    }
    let codec: u8 = slot[7];
    if codec != CODEC_ZSTD && codec != CODEC_ZSTD_DICT {
        return Err(corrupt(&text::numbered("unknown envelope codec ", codec as u128)));
    }
    let mut reader = match CheckedSliceReader::at(slot, 8) {
        Ok(reader) => reader,
        Err(_) => return Err(corrupt("compressed page envelope truncated")),
    };
    let dict_id: u32 = match reader.read_u32_le() {
        Ok(dict_id) => dict_id,
        Err(_) => return Err(corrupt("compressed page dictionary id is truncated")),
    };
    let payload_len: u16 = match reader.read_u16_le() {
        Ok(payload_len) => payload_len,
        Err(_) => return Err(corrupt("compressed page payload length is truncated")),
    };
    let stored_crc: u32 = match reader.read_u32_le() {
        Ok(stored_crc) => stored_crc,
        Err(_) => return Err(corrupt("compressed page CRC is truncated")),
    };
    let payload: &'a [u8] = match reader.take(payload_len as usize) {
        Ok(payload) => payload,
        Err(_) => return Err(corrupt("envelope payload extends past the page slot")),
    };
    if frames::checksum(payload) != stored_crc {
        return Err(corrupt("compressed page envelope CRC mismatch"));
    }
    Ok(Envelope { codec, dict_id, payload })
}

/// What was framed is read back, whatever follows it in the slot.
pub proof fn envelopes_read_back(codec: u8, dict_id: u32, payload: Seq<u8>, rest: Seq<u8>)
    requires
        is_envelope_codec(codec),
        payload.len() <= u16::MAX,
    ensures
        envelope_bytes(codec, dict_id, payload).len() == ENVELOPE_HEADER_LEN + payload.len(),
        envelope_in(envelope_bytes(codec, dict_id, payload) + rest) == (EnvelopeView::Holds {
            codec,
            dict_id,
            payload,
        }),
{
    let slot = envelope_bytes(codec, dict_id, payload) + rest;
    bytes::lemma_pow256();
    bytes::le_bytes_round_trip(dict_id as nat, 4);
    bytes::le_bytes_round_trip(payload.len(), 2);
    bytes::le_bytes_round_trip(frames::crc32(payload) as nat, 4);
    assert(slot.subrange(0, 6) =~= marker());
    assert(slot[6] == ENVELOPE_VERSION);
    assert(slot[7] == codec);
    assert(slot.subrange(8, 12) =~= bytes::le_bytes(dict_id as nat, 4));
    assert(slot.subrange(12, 14) =~= bytes::le_bytes(payload.len(), 2));
    assert(slot.subrange(14, 18) =~= bytes::le_bytes(frames::crc32(payload) as nat, 4));
    assert(slot.subrange(18, 18 + payload.len() as int) =~= payload);
}

/// What is returned for the outcome of compressing or decompressing a value.
pub open spec fn is_value_outcome(
    outcome: core::result::Result<Seq<u8>, Seq<char>>,
    failure: Seq<char>,
    result: Result<Vec<u8>>,
) -> bool {
    match outcome {
        Ok(value) => result matches Ok(found) && found@ == value,
        Err(reason) => result matches Err(error) && error@ == corruption(failure + reason),
    }
}

/// Turns a failed zstd call into an error of the library.
pub fn value_or_corrupt(
    outcome: core::result::Result<Vec<u8>, String>,
    failure: &str,
) -> (result: Result<Vec<u8>>)
    ensures
        is_value_outcome(frames::outcome_view(outcome), failure@, result),
{
    match outcome {
        Ok(value) => Ok(value),
        Err(reason) => Err(corrupt_with(failure, &reason)),
    }
}

/// What compressing a value comes to: what zstd makes of it, or its failure.
pub open spec fn is_compressed_value(raw: Seq<u8>, result: Result<Vec<u8>>) -> bool {
    exists|outcome: core::result::Result<Vec<u8>, String>| #[trigger]
        frames::is_compressed(raw, TOAST_ZSTD_LEVEL, outcome) && is_value_outcome(
            frames::outcome_view(outcome),
            "zstd value compress failed: "@,
            result,
        )
}

/// Compress a single TOAST value payload with dict-less zstd.
///
/// The caller owns all policy decisions: this helper always returns the
/// compressed bytes if zstd succeeds, even when the output is larger than the
/// raw input.
pub fn compress_value_zstd(raw: &[u8]) -> (result: Result<Vec<u8>>)
    requires
        frames::fits_buffer(frames::frame_bound(raw@.len())),
    ensures
        is_compressed_value(raw@, result),
{
    let outcome = frames::compress(raw, TOAST_ZSTD_LEVEL);
    assert(frames::is_compressed(raw@, TOAST_ZSTD_LEVEL, outcome));
    value_or_corrupt(outcome, "zstd value compress failed: ")
}

/// What is wrong with a value of the wrong length.
pub open spec fn wrong_length(what: Seq<char>, found: nat, expected: nat) -> Seq<char> {
    what + text::decimal_text(found) + " bytes, expected "@ + text::decimal_text(expected)
}

pub(crate) fn ensure_len(what: &str, value: &[u8], expected: usize) -> (result: Result<()>)
    ensures
        match result {
            Ok(()) => value@.len() == expected,
            Err(error) => value@.len() != expected && error@ == corruption(
                wrong_length(what@, value@.len(), expected as nat),
            ),
        },
{
    if value.len() != expected {
        let mut message: String = text::numbered_text(
            what,
            value.len() as u128,
            " bytes, expected ",
        );
        text::push_decimal(&mut message, expected as u128);
        assert(message@ =~= wrong_length(what@, value@.len(), expected as nat));
        return Err(corrupt(&message));
    }
    Ok(())
}

} // verus!
