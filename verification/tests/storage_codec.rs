use anor_storage::storage_codec::decode_from_binary;
use anor_storage::storage_codec::decode_from_frame;
use anor_storage::storage_codec::encode_to_binary;
use anor_storage::storage_codec::encode_to_frame;
use anor_storage::storage_codec::frame_payload;
use anor_storage::storage_error::FramingError;
use anor_storage::storage_error::StorageError;
use anor_storage::storage_packet::StrorageCodecType;
use anor_storage::storage_packet::StroragePacketType;
use std::cell::RefCell;
use std::collections::HashMap;

#[test]
fn bincode_writes_a_length_and_the_bytes_of_a_string() {
    let encoded = encode_to_binary(&String::from("abc"), StrorageCodecType::Bincode);
    assert_eq!(encoded, Some(vec![3, 97, 98, 99]));
    assert_eq!(encode_to_binary(&5u32, StrorageCodecType::Bincode), Some(vec![5]));
    assert_eq!(
        encode_to_binary(&(String::from("id"), 300u64), StrorageCodecType::Bincode),
        Some(vec![2, 105, 100, 251, 44, 1])
    );
}

#[test]
fn decoding_gives_back_what_was_encoded() {
    let text = String::from("Hello, Anor!");
    let bytes = encode_to_binary(&text, StrorageCodecType::Bincode).unwrap();
    assert_eq!(
        decode_from_binary::<String>(&bytes, StrorageCodecType::Bincode),
        Some(text)
    );

    let mut map = HashMap::<u8, String>::new();
    map.insert(1, "One".into());
    map.insert(2, "Two".into());
    map.insert(3, "Three".into());
    let bytes = encode_to_binary(&map, StrorageCodecType::Bincode).unwrap();
    assert_eq!(
        decode_from_binary::<HashMap<u8, String>>(&bytes, StrorageCodecType::Bincode),
        Some(map)
    );
}

#[test]
fn bytes_that_are_no_value_decode_to_none() {
    // a string of five bytes is announced, three follow
    assert_eq!(
        decode_from_binary::<String>(&[5, 97, 98, 99], StrorageCodecType::Bincode),
        None
    );
    assert_eq!(decode_from_binary::<u32>(&[], StrorageCodecType::Bincode), None);
    // bytes that are no UTF-8
    assert_eq!(
        decode_from_binary::<String>(&[2, 0xff, 0xff], StrorageCodecType::Bincode),
        None
    );
}

#[test]
fn reserved_codecs_encode_and_decode_nothing() {
    for codec in [
        StrorageCodecType::ProtocolBuffers,
        StrorageCodecType::FlatBuffers,
        StrorageCodecType::MessagePack,
        StrorageCodecType::CapnProto,
    ] {
        assert_eq!(encode_to_binary(&String::from("abc"), codec), None);
        assert_eq!(decode_from_binary::<String>(&[3, 97, 98, 99], codec), None);
    }
}

#[test]
fn frame_of_an_object_is_header_then_encoding() {
    let frame = encode_to_frame(&String::from("abc"), StroragePacketType::StrorageItem).unwrap();
    assert_eq!(frame, vec![0, 0, 0, 0, 0, 0, 0, 15, 2, 1, 1, 3, 97, 98, 99]);
    let info = encode_to_frame(&7u8, StroragePacketType::StrorageInfo).unwrap();
    assert_eq!(info, vec![0, 0, 0, 0, 0, 0, 0, 12, 1, 1, 1, 7]);
}

#[test]
fn frame_of_no_payload_is_an_encode_error() {
    assert_eq!(
        frame_payload(None, StroragePacketType::StrorageItem),
        Err(StorageError::Encode)
    );
    assert_eq!(
        frame_payload(Some(vec![]), StroragePacketType::StrorageItemObject),
        Ok(vec![0, 0, 0, 0, 0, 0, 0, 11, 3, 1, 1])
    );
}

#[test]
fn framed_object_decodes_to_itself() {
    let mut map = HashMap::<String, (String, u64)>::new();
    map.insert("k1".into(), ("id1".into(), 0));
    map.insert("k2".into(), ("id2".into(), 12));
    let frame = encode_to_frame(&map, StroragePacketType::StrorageInfo).unwrap();
    let back: HashMap<String, (String, u64)> = decode_from_frame(frame).unwrap();
    assert_eq!(back, map);
}

#[test]
fn frame_with_a_wrong_length_does_not_decode() {
    let mut frame = encode_to_frame(&String::from("abc"), StroragePacketType::StrorageItem).unwrap();
    frame.push(0);
    assert_eq!(
        decode_from_frame::<String>(frame),
        Err(StorageError::Framing(FramingError::LengthMismatch { expected: 15, found: 16 }))
    );
    assert_eq!(
        decode_from_frame::<String>(vec![1, 2]),
        Err(StorageError::Framing(FramingError::BufferTooShort { found: 2 }))
    );
    assert_eq!(
        decode_from_frame::<String>(vec![0, 0, 0, 0, 0, 0, 0, 12, 2, 1, 9, 0]),
        Err(StorageError::Framing(FramingError::UnknownCodecType { tag: 9 }))
    );
}

#[test]
fn frame_of_a_reserved_codec_does_not_decode() {
    // a well-formed frame whose payload was written with MessagePack
    let frame = vec![0, 0, 0, 0, 0, 0, 0, 15, 2, 1, 4, 3, 97, 98, 99];
    assert_eq!(decode_from_frame::<String>(frame), Err(StorageError::Decode));
    // the same payload under bincode decodes
    let frame = vec![0, 0, 0, 0, 0, 0, 0, 15, 2, 1, 1, 3, 97, 98, 99];
    assert_eq!(decode_from_frame::<String>(frame), Ok("abc".to_string()));
}

#[test]
fn frame_with_a_payload_of_another_type_does_not_decode() {
    let frame = encode_to_frame(&String::from("abc"), StroragePacketType::StrorageItem).unwrap();
    assert_eq!(
        decode_from_frame::<(u64, u64, u64, u64, u64)>(frame),
        Err(StorageError::Decode)
    );
}

#[test]
fn value_that_bincode_refuses_encodes_to_none() {
    // bincode does not encode a cell while it is borrowed for writing
    let cell = RefCell::new(7u8);
    assert_eq!(encode_to_binary(&cell, StrorageCodecType::Bincode), Some(vec![7]));
    let borrowed = cell.borrow_mut();
    assert_eq!(encode_to_binary(&cell, StrorageCodecType::Bincode), None);
    assert_eq!(
        encode_to_frame(&cell, StroragePacketType::StrorageItemObject),
        Err(StorageError::Encode)
    );
    drop(borrowed);
    assert_eq!(
        encode_to_frame(&cell, StroragePacketType::StrorageItemObject),
        Ok(vec![0, 0, 0, 0, 0, 0, 0, 12, 3, 1, 1, 7])
    );
}

#[test]
fn payload_that_announces_more_than_memory_holds_decodes_to_none() {
    // the length that is announced is the largest 64-bit number
    let huge = [253u8, 255, 255, 255, 255, 255, 255, 255, 255];
    assert_eq!(decode_from_binary::<String>(&huge, StrorageCodecType::Bincode), None);
    assert_eq!(decode_from_binary::<Vec<u8>>(&huge, StrorageCodecType::Bincode), None);
    assert_eq!(
        decode_from_binary::<Vec<u64>>(&huge, StrorageCodecType::Bincode),
        None
    );
    assert_eq!(
        decode_from_binary::<HashMap<String, String>>(&huge, StrorageCodecType::Bincode),
        None
    );
    // the same announcement inside a well-formed frame
    let mut frame = vec![0, 0, 0, 0, 0, 0, 0, 20, 2, 1, 1];
    frame.extend_from_slice(&huge);
    assert_eq!(decode_from_frame::<String>(frame), Err(StorageError::Decode));
}

#[test]
fn limit_leaves_the_bytes_as_they_are() {
    let text: String = "x".repeat(100_000);
    let bytes = encode_to_binary(&text, StrorageCodecType::Bincode).unwrap();
    assert_eq!(bytes.len(), 100_000 + 5);
    assert_eq!(&bytes[..5], &[252, 160, 134, 1, 0]);
    assert_eq!(
        decode_from_binary::<String>(&bytes, StrorageCodecType::Bincode),
        Some(text)
    );
}
