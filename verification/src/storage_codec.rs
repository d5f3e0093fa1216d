//! Values to bytes and back, and bytes to frames and back.
//!
//! The codec that wrote a payload is named in the header of its frame. Only
//! bincode is implemented; the other codecs are reserved.

use crate::storage_error::StorageError;
use crate::storage_packet::parse_packet;
use crate::storage_packet::spec_build_packet_header;
use crate::storage_packet::spec_parse_packet;
use crate::storage_packet::try_build_storage_packet;
use crate::storage_packet::StrorageCodecType;
use crate::storage_packet::StroragePacketType;
use crate::storage_packet::StroragePacketView;
use crate::storage_packet::STORAGE_PACKET_HEADER_SIZE;
use vstd::prelude::*;

verus! {

/// `bincode::error::EncodeError`: why bincode did not encode a value. The
/// engine hands it on and does not look into it.
#[verifier::external_type_specification]
#[verifier::external_body]
pub struct ExEncodeError(bincode::error::EncodeError);

/// `bincode::error::DecodeError`: why bincode did not decode a value. The
/// engine hands it on and does not look into it.
#[verifier::external_type_specification]
#[verifier::external_body]
pub struct ExDecodeError(bincode::error::DecodeError);

/// `bincode::encode_to_vec` under `bincode::config::standard()`. The bytes
/// depend on how `T` implements `bincode::Encode`, so nothing is claimed of
/// them.
#[verifier::external_body]
fn bincode_encode_to_vec<T: bincode::Encode>(obj: &T) -> (r: Result<
    Vec<u8>,
    bincode::error::EncodeError,
>) {
    bincode::encode_to_vec(obj, bincode::config::standard())
}

/// The most bytes that the values of one payload may take in memory: the
/// most that a collection can hold.
pub const DECODE_LIMIT: usize = isize::MAX as usize;

/// `bincode::decode_from_slice` under `bincode::config::standard()` with a
/// limit of `DECODE_LIMIT` bytes: the value and the number of bytes that
/// were read. The value depends on how `T` implements `bincode::Decode`,
/// so nothing is claimed of it. With the limit, bincode answers a payload
/// that announces a collection of more bytes than a collection can hold
/// with the error `LimitExceeded`, before it allocates; the bytes that
/// bincode reads and writes are the same with and without a limit. A
/// payload that announces less than the limit and more than the machine
/// has to give ends in the allocator, as any allocation of that size does.
#[verifier::external_body]
fn bincode_decode_from_slice<T: bincode::Decode>(encoded: &[u8]) -> (r: Result<
    (T, usize),
    bincode::error::DecodeError,
>) {
    bincode::decode_from_slice(
        encoded,
        bincode::config::standard().with_limit::<DECODE_LIMIT>(),
    )
}

/// Whether the engine can encode and decode with the codec.
pub open spec fn codec_supported(codec_type: StrorageCodecType) -> bool {
    codec_type == StrorageCodecType::Bincode
}

/// encode object into binary array `[u8]`
///
/// Returns `None` for a codec other than bincode, and where bincode
/// refuses the value. Under bincode the object is handed to
/// `bincode::encode_to_vec`; the bytes that it gives are the result.
pub fn encode_to_binary<T: bincode::Encode>(obj: &T, codec_type: StrorageCodecType) -> (r: Option<
    Vec<u8>,
>)
    ensures
        encodes_to(obj, codec_type, r),
        !codec_supported(codec_type) ==> r is None,
{
    match codec_type {
        StrorageCodecType::Bincode => {
            let outcome = bincode_encode_to_vec(obj);
            let ghost given = outcome;
            let r = encoded_bytes(outcome);
            assert(bincode_wrote(obj, given) && r == spec_encoded_bytes(given));
            r
        },
        _ => None,
    }
}

/// What `encode_to_binary` makes of bincode's answer: the bytes, if there are any.
pub fn encoded_bytes(outcome: Result<Vec<u8>, bincode::error::EncodeError>) -> (r: Option<Vec<u8>>)
    ensures
        r == spec_encoded_bytes(outcome),
{
    match outcome {
        Ok(bytes) => Some(bytes),
        Err(_) => None,
    }
}

/// decode object from binary array slice `[u8]``
///
/// Returns `None` for a codec other than bincode, and where bincode
/// cannot read a value of type `T` from the bytes. Under bincode the
/// bytes are handed to `bincode::decode_from_slice`; the value that it
/// gives is the result, and how many bytes it read is not looked at.
pub fn decode_from_binary<T: bincode::Decode>(encoded: &[u8], codec_type: StrorageCodecType) -> (r:
    Option<T>)
    ensures
        decodes_to(encoded@, codec_type, r),
        !codec_supported(codec_type) ==> r is None,
{
    match codec_type {
        StrorageCodecType::Bincode => {
            let outcome = bincode_decode_from_slice(encoded);
            let ghost given = outcome;
            let r = decoded_value(outcome);
            assert(bincode_read(encoded@, given) && r == spec_decoded_value(given));
            r
        },
        _ => None,
    }
}

/// What `decode_from_binary` makes of bincode's answer: the value, if there is one.
pub fn decoded_value<T>(outcome: Result<(T, usize), bincode::error::DecodeError>) -> (r: Option<T>)
    ensures
        r == spec_decoded_value(outcome),
{
    match outcome {
        Ok(pair) => Some(pair.0),
        Err(_) => None,
    }
}

/// The bytes of a payload that may be missing.
pub open spec fn payload_view(payload: Option<Vec<u8>>) -> Option<Seq<u8>> {
    match payload {
        Some(p) => Some(p@),
        None => None,
    }
}

/// What framing a payload gives: the bytes of the frame that announces it
/// with the default codec, or an error where there is no payload or the
/// frame would be too long.
pub open spec fn spec_frame_payload(payload: Option<Seq<u8>>, packet_type: StroragePacketType)
    -> Result<Seq<u8>, StorageError> {
    match payload {
        None => Err(StorageError::Encode),
        Some(data) => if data.len() + STORAGE_PACKET_HEADER_SIZE <= u64::MAX {
            Ok(
                StroragePacketView {
                    header: spec_build_packet_header(data, packet_type, StrorageCodecType::Bincode),
                    data,
                }.spec_bytes(),
            )
        } else {
            Err(StorageError::PayloadTooLarge)
        },
    }
}

/// Frames an encoded payload for a file: header, then payload.
pub fn frame_payload(payload: Option<Vec<u8>>, packet_type: StroragePacketType) -> (r: Result<
    Vec<u8>,
    StorageError,
>)
    ensures
        match r {
            Ok(bytes) => spec_frame_payload(payload_view(payload), packet_type) == Ok::<
                Seq<u8>,
                StorageError,
            >(bytes@),
            Err(e) => spec_frame_payload(payload_view(payload), packet_type) == Err::<
                Seq<u8>,
                StorageError,
            >(e),
        },
{
    match payload {
        None => Err(StorageError::Encode),
        Some(data) => {
            let codec_type = StrorageCodecType::default();
            match try_build_storage_packet(data, packet_type, codec_type) {
                Some(packet) => Ok(packet.to_vec()),
                None => Err(StorageError::PayloadTooLarge),
            }
        },
    }
}

/// Whether `framed` is what framing the payload gives: the bytes of the
/// frame, or the error.
pub open spec fn spec_framed(
    payload: Option<Seq<u8>>,
    packet_type: StroragePacketType,
    framed: Result<Vec<u8>, StorageError>,
) -> bool {
    match framed {
        Ok(bytes) => spec_frame_payload(payload, packet_type) == Ok::<Seq<u8>, StorageError>(
            bytes@,
        ),
        Err(e) => spec_frame_payload(payload, packet_type) == Err::<Seq<u8>, StorageError>(e),
    }
}

/// Encodes the object with the default codec and frames the bytes: what
/// the file of the object holds in the data directory.
///
/// The object is handed to `encode_to_binary` with the default codec.
/// The result is the frame of the bytes that it gave: the header that
/// announces them, then the bytes. Where it gave none, the result is
/// `Encode`.
pub fn encode_to_frame<T: bincode::Encode>(obj: &T, packet_type: StroragePacketType) -> (r: Result<
    Vec<u8>,
    StorageError,
>)
    ensures
        exists|encoded: Option<Vec<u8>>| #[trigger]
            encodes_to(obj, StrorageCodecType::Bincode, encoded) && spec_framed(
                payload_view(encoded),
                packet_type,
                r,
            ),
{
    let payload = encode_to_binary(obj, StrorageCodecType::default());
    let ghost given = payload;
    let r = frame_payload(payload, packet_type);
    assert(encodes_to(obj, StrorageCodecType::Bincode, given) && spec_framed(
        payload_view(given),
        packet_type,
        r,
    ));
    r
}

/// What becomes of a decoded value that may be missing: the value, or
/// the error `Decode`.
pub open spec fn spec_decoded_or_error<T>(decoded: Option<T>) -> Result<T, StorageError> {
    match decoded {
        Some(obj) => Ok(obj),
        None => Err(StorageError::Decode),
    }
}

/// Parses the frame that a file of the data directory holds and decodes
/// its payload with the codec that the header names. A buffer that is no
/// frame gives the framing error; a frame whose payload is no value of
/// type `T`, or was written with a reserved codec, gives `Decode`.
///
/// The payload of the frame is handed to `decode_from_binary` with the
/// codec of the header; the value that it gave is the result.
pub fn decode_from_frame<T: bincode::Decode>(buf: Vec<u8>) -> (r: Result<T, StorageError>)
    ensures
        match spec_parse_packet(buf@) {
            Err(e) => r matches Err(f) && f == StorageError::Framing(e),
            Ok(packet) => exists|decoded: Option<T>| #[trigger]
                decodes_to(packet.data, packet.header.codec_type, decoded) && r
                    == spec_decoded_or_error(decoded),
        },
{
    match parse_packet(buf) {
        Err(e) => Err(StorageError::Framing(e)),
        Ok(packet) => {
            let ghost parsed = spec_parse_packet(buf@)->Ok_0;
            assert(parsed == packet@);
            let decoded = decode_from_binary(packet.data.as_slice(), packet.header.codec_type);
            let ghost given = decoded;
            let r = match decoded {
                Some(obj) => Ok(obj),
                None => Err(StorageError::Decode),
            };
            assert(decodes_to(parsed.data, parsed.header.codec_type, given) && r
                == spec_decoded_or_error(given));
            r
        },
    }
}

/// Whether `outcome` is what bincode has given for the object: what a
/// call of `bincode::encode_to_vec` on it, under the standard
/// configuration, returned.
pub closed spec fn bincode_wrote<T: bincode::Encode>(
    obj: &T,
    outcome: Result<Vec<u8>, bincode::error::EncodeError>,
) -> bool {
    call_ensures(bincode_encode_to_vec::<T>, (obj,), outcome)
}

/// Whether `outcome` is what bincode has given for the bytes: what a call
/// of `bincode::decode_from_slice` on them, under the standard
/// configuration, returned.
pub closed spec fn bincode_read<T: bincode::Decode>(
    bytes: Seq<u8>,
    outcome: Result<(T, usize), bincode::error::DecodeError>,
) -> bool {
    exists|encoded: &[u8]|
        encoded@ == bytes && #[trigger] call_ensures(
            bincode_decode_from_slice::<T>,
            (encoded,),
            outcome,
        )
}

/// What `encode_to_binary` makes of bincode's answer: the bytes, if there
/// are any.
pub open spec fn spec_encoded_bytes(
    outcome: Result<Vec<u8>, bincode::error::EncodeError>,
) -> Option<Vec<u8>> {
    match outcome {
        Ok(bytes) => Some(bytes),
        Err(_) => None,
    }
}

/// What `decode_from_binary` makes of bincode's answer: the value, if
/// there is one.
pub open spec fn spec_decoded_value<T>(
    outcome: Result<(T, usize), bincode::error::DecodeError>,
) -> Option<T> {
    match outcome {
        Ok(pair) => Some(pair.0),
        Err(_) => None,
    }
}

/// Whether `encoded` is the encoding of the object under the codec: under
/// bincode, the bytes that bincode gave for the object, or `None` where
/// it gave an error; under a reserved codec, `None`.
pub open spec fn encodes_to<T: bincode::Encode>(
    obj: &T,
    codec_type: StrorageCodecType,
    encoded: Option<Vec<u8>>,
) -> bool {
    if codec_supported(codec_type) {
        exists|outcome: Result<Vec<u8>, bincode::error::EncodeError>| #[trigger]
            bincode_wrote(obj, outcome) && encoded == spec_encoded_bytes(outcome)
    } else {
        encoded is None
    }
}

/// Whether `decoded` is the decoding of the bytes under the codec: under
/// bincode, the value that bincode gave for the bytes, or `None` where it
/// gave an error; under a reserved codec, `None`.
pub open spec fn decodes_to<T: bincode::Decode>(
    bytes: Seq<u8>,
    codec_type: StrorageCodecType,
    decoded: Option<T>,
) -> bool {
    if codec_supported(codec_type) {
        exists|outcome: Result<(T, usize), bincode::error::DecodeError>| #[trigger]
            bincode_read(bytes, outcome) && decoded == spec_decoded_value(outcome)
    } else {
        decoded is None
    }
}

} // verus!
