//! The frame that wraps every persisted artifact: a header of eleven bytes,
//! then the encoded payload.
//!
//! | offset | size | field                                         |
//! |--------|------|-----------------------------------------------|
//! | 0      | 8    | length of header and payload, big-endian      |
//! | 8      | 1    | packet type                                   |
//! | 9      | 1    | packet version                                |
//! | 10     | 1    | codec of the payload                          |

use crate::storage_error::FramingError;
use vstd::prelude::*;

verus! {

/// The size of a frame header in bytes.
pub const STORAGE_PACKET_HEADER_SIZE: usize = 11;

/// The packet version that `build_packet_header` writes.
pub const STORAGE_PACKET_VERSION: u8 = 1;

/// Names and types of the fields of a packet, for documentation.
pub type StoragePacketFields = Vec<(String, String)>;

/// The number that the first eight bytes of `b` spell, most significant byte first.
pub open spec fn be_u64(b: Seq<u8>) -> int
    recommends
        b.len() >= 8,
{
    b[0] as int * 0x100_0000_0000_0000 + b[1] as int * 0x1_0000_0000_0000 + b[2] as int
        * 0x100_0000_0000 + b[3] as int * 0x1_0000_0000 + b[4] as int * 0x100_0000 + b[5] as int
        * 0x1_0000 + b[6] as int * 0x100 + b[7] as int
}

/// The eight bytes that spell `x`, most significant byte first.
pub open spec fn u64_be_bytes(x: u64) -> Seq<u8> {
    seq![
        (x / 0x100_0000_0000_0000) as u8,
        (x / 0x1_0000_0000_0000 % 0x100) as u8,
        (x / 0x100_0000_0000 % 0x100) as u8,
        (x / 0x1_0000_0000 % 0x100) as u8,
        (x / 0x100_0000 % 0x100) as u8,
        (x / 0x1_0000 % 0x100) as u8,
        (x / 0x100 % 0x100) as u8,
        (x % 0x100) as u8,
    ]
}

/// Reading the eight bytes of a number gives the number back.
pub proof fn lemma_be_u64_of_bytes(x: u64)
    ensures
        u64_be_bytes(x).len() == 8,
        be_u64(u64_be_bytes(x)) == x,
{
    assert(x / 0x100_0000_0000_0000 < 0x100) by (bit_vector);
    assert((x / 0x100_0000_0000_0000) * 0x100_0000_0000_0000 + (x / 0x1_0000_0000_0000 % 0x100)
        * 0x1_0000_0000_0000 + (x / 0x100_0000_0000 % 0x100) * 0x100_0000_0000 + (x
        / 0x1_0000_0000 % 0x100) * 0x1_0000_0000 + (x / 0x100_0000 % 0x100) * 0x100_0000 + (x
        / 0x1_0000 % 0x100) * 0x1_0000 + (x / 0x100 % 0x100) * 0x100 + (x % 0x100) == x)
        by (bit_vector);
}

/// Eight bytes are the bytes of the number they spell.
pub proof fn lemma_bytes_of_be_u64(b: Seq<u8>)
    requires
        b.len() == 8,
    ensures
        0 <= be_u64(b) <= u64::MAX,
        u64_be_bytes(be_u64(b) as u64) == b,
{
    let (b0, b1, b2, b3, b4, b5, b6, b7) = (b[0], b[1], b[2], b[3], b[4], b[5], b[6], b[7]);
    let v: u64 = be_u64(b) as u64;
    assert(v == be_u64(b));
    assert(v / 0x100_0000_0000_0000 == b0 && v / 0x1_0000_0000_0000 % 0x100 == b1 && v
        / 0x100_0000_0000 % 0x100 == b2 && v / 0x1_0000_0000 % 0x100 == b3 && v / 0x100_0000
        % 0x100 == b4 && v / 0x1_0000 % 0x100 == b5 && v / 0x100 % 0x100 == b6 && v % 0x100 == b7)
        by (bit_vector)
        requires
            v == b0 * 0x100_0000_0000_0000 + b1 * 0x1_0000_0000_0000 + b2 * 0x100_0000_0000 + b3
                * 0x1_0000_0000 + b4 * 0x100_0000 + b5 * 0x1_0000 + b6 * 0x100 + b7,
    ;
    assert(u64_be_bytes(v) =~= b);
}

fn u64_to_be_bytes(x: u64) -> (r: Vec<u8>)
    ensures
        r@ == u64_be_bytes(x),
{
    let mut r: Vec<u8> = Vec::with_capacity(STORAGE_PACKET_HEADER_SIZE);
    r.push((x / 0x100_0000_0000_0000) as u8);
    r.push((x / 0x1_0000_0000_0000 % 0x100) as u8);
    r.push((x / 0x100_0000_0000 % 0x100) as u8);
    r.push((x / 0x1_0000_0000 % 0x100) as u8);
    r.push((x / 0x100_0000 % 0x100) as u8);
    r.push((x / 0x1_0000 % 0x100) as u8);
    r.push((x / 0x100 % 0x100) as u8);
    r.push((x % 0x100) as u8);
    assert(r@ =~= u64_be_bytes(x));
    r
}

fn u64_from_be_bytes(b: &[u8]) -> (r: u64)
    requires
        b@.len() >= 8,
    ensures
        r == be_u64(b@),
{
    b[0] as u64 * 0x100_0000_0000_0000 + b[1] as u64 * 0x1_0000_0000_0000 + b[2] as u64
        * 0x100_0000_0000 + b[3] as u64 * 0x1_0000_0000 + b[4] as u64 * 0x100_0000 + b[5] as u64
        * 0x1_0000 + b[6] as u64 * 0x100 + b[7] as u64
}

/// What a frame holds.
#[derive(Debug, Clone, Copy, PartialEq, Eq, Structural)]
pub enum StroragePacketType {
    /// The manifest: for each key, the id and version of its item.
    StrorageInfo,
    /// One item.
    StrorageItem,
    /// The object that an item carries.
    StrorageItemObject,
}

impl StroragePacketType {
    /// The byte that stands for the packet type in a header.
    pub open spec fn spec_tag(self) -> u8 {
        match self {
            StroragePacketType::StrorageInfo => 1,
            StroragePacketType::StrorageItem => 2,
            StroragePacketType::StrorageItemObject => 3,
        }
    }

    /// The packet type that a header byte stands for, if any.
    pub open spec fn spec_from_tag(v: u8) -> Option<StroragePacketType> {
        if v == 1 {
            Some(StroragePacketType::StrorageInfo)
        } else if v == 2 {
            Some(StroragePacketType::StrorageItem)
        } else if v == 3 {
            Some(StroragePacketType::StrorageItemObject)
        } else {
            None
        }
    }

    /// The byte that stands for the packet type in a header.
    pub fn tag(self) -> (r: u8)
        ensures
            r == self.spec_tag(),
    {
        match self {
            StroragePacketType::StrorageInfo => 1,
            StroragePacketType::StrorageItem => 2,
            StroragePacketType::StrorageItemObject => 3,
        }
    }

    /// The packet type that a header byte stands for, if any.
    pub fn from_tag(v: u8) -> (r: Option<StroragePacketType>)
        ensures
            r == Self::spec_from_tag(v),
    {
        if v == 1 {
            Some(StroragePacketType::StrorageInfo)
        } else if v == 2 {
            Some(StroragePacketType::StrorageItem)
        } else if v == 3 {
            Some(StroragePacketType::StrorageItemObject)
        } else {
            None
        }
    }
}

/// The codec that wrote a payload.
#[derive(Debug, Clone, Copy, PartialEq, Eq, Structural)]
pub enum StrorageCodecType {
    /// [Bincode](https://github.com/bincode-org/bincode)
    Bincode,
    /// [Protocol Buffers](https://protobuf.dev/)
    ProtocolBuffers,
    /// [FlatBuffers](https://github.com/google/flatbuffers)
    FlatBuffers,
    /// [MessagePack](https://msgpack.org/)
    MessagePack,
    /// [Cap'n Proto](https://capnproto.org/)
    CapnProto,
}

impl StrorageCodecType {
    /// The byte that stands for the codec in a header.
    pub open spec fn spec_tag(self) -> u8 {
        match self {
            StrorageCodecType::Bincode => 1,
            StrorageCodecType::ProtocolBuffers => 2,
            StrorageCodecType::FlatBuffers => 3,
            StrorageCodecType::MessagePack => 4,
            StrorageCodecType::CapnProto => 5,
        }
    }

    /// The codec that a header byte stands for, if any.
    pub open spec fn spec_from_tag(v: u8) -> Option<StrorageCodecType> {
        if v == 1 {
            Some(StrorageCodecType::Bincode)
        } else if v == 2 {
            Some(StrorageCodecType::ProtocolBuffers)
        } else if v == 3 {
            Some(StrorageCodecType::FlatBuffers)
        } else if v == 4 {
            Some(StrorageCodecType::MessagePack)
        } else if v == 5 {
            Some(StrorageCodecType::CapnProto)
        } else {
            None
        }
    }

    /// The byte that stands for the codec in a header.
    pub fn tag(self) -> (r: u8)
        ensures
            r == self.spec_tag(),
    {
        match self {
            StrorageCodecType::Bincode => 1,
            StrorageCodecType::ProtocolBuffers => 2,
            StrorageCodecType::FlatBuffers => 3,
            StrorageCodecType::MessagePack => 4,
            StrorageCodecType::CapnProto => 5,
        }
    }

    /// The codec that a header byte stands for, if any.
    pub fn from_tag(v: u8) -> (r: Option<StrorageCodecType>)
        ensures
            r == Self::spec_from_tag(v),
    {
        if v == 1 {
            Some(StrorageCodecType::Bincode)
        } else if v == 2 {
            Some(StrorageCodecType::ProtocolBuffers)
        } else if v == 3 {
            Some(StrorageCodecType::FlatBuffers)
        } else if v == 4 {
            Some(StrorageCodecType::MessagePack)
        } else if v == 5 {
            Some(StrorageCodecType::CapnProto)
        } else {
            None
        }
    }
}

impl Default for StrorageCodecType {
    /// The codec that the engine writes with.
    fn default() -> (r: Self)
        ensures
            r == StrorageCodecType::Bincode,
    {
        StrorageCodecType::Bincode
    }
}

/// The header of a frame.
#[derive(Debug, Clone, Copy, PartialEq, Eq, Structural)]
pub struct StroragePacketHeader {
    /// The length of the whole frame, header included.
    pub packet_length: u64,
    pub packet_type: StroragePacketType,
    pub packet_version: u8,
    pub codec_type: StrorageCodecType,
}

impl StroragePacketHeader {
    /// The eleven bytes of the header.
    pub open spec fn spec_bytes(self) -> Seq<u8> {
        u64_be_bytes(self.packet_length) + seq![
            self.packet_type.spec_tag(),
            self.packet_version,
            self.codec_type.spec_tag(),
        ]
    }

    /// The eleven bytes of the header.
    pub fn to_vec(&self) -> (r: Vec<u8>)
        ensures
            r@ == self.spec_bytes(),
            r@.len() == STORAGE_PACKET_HEADER_SIZE,
    {
        let mut header: Vec<u8> = u64_to_be_bytes(self.packet_length);
        header.push(self.packet_type.tag());
        header.push(self.packet_version);
        header.push(self.codec_type.tag());
        assert(header@ =~= self.spec_bytes());
        header
    }
}

/// A frame: the header and the payload it announces.
#[derive(Debug)]
pub struct StroragePacket {
    pub header: StroragePacketHeader,
    pub data: Vec<u8>,
}

/// A frame as a value: the header and the bytes of the payload.
pub struct StroragePacketView {
    pub header: StroragePacketHeader,
    pub data: Seq<u8>,
}

impl View for StroragePacket {
    type V = StroragePacketView;

    open spec fn view(&self) -> StroragePacketView {
        StroragePacketView { header: self.header, data: self.data@ }
    }
}

impl StroragePacketView {
    /// The bytes of the frame: the header, then the payload.
    pub open spec fn spec_bytes(self) -> Seq<u8> {
        self.header.spec_bytes() + self.data
    }
}

impl StroragePacket {
    /// The bytes of the frame: the header, then the payload.
    pub fn to_vec(&self) -> (r: Vec<u8>)
        ensures
            r@ == self@.spec_bytes(),
    {
        let mut bytes: Vec<u8> = self.header.to_vec();
        let mut i: usize = 0;
        while i < self.data.len()
            invariant
                i <= self.data@.len(),
                bytes@ == self.header.spec_bytes() + self.data@.subrange(0, i as int),
            decreases self.data@.len() - i,
        {
            bytes.push(self.data[i]);
            assert(self.data@.subrange(0, i as int).push(self.data@[i as int])
                =~= self.data@.subrange(0, i + 1));
            i = i + 1;
        }
        assert(self.data@.subrange(0, i as int) =~= self.data@);
        bytes
    }
}

/// The header that announces `payload` as a payload of the given type and codec.
pub open spec fn spec_build_packet_header(
    payload: Seq<u8>,
    packet_type: StroragePacketType,
    codec_type: StrorageCodecType,
) -> StroragePacketHeader {
    StroragePacketHeader {
        packet_length: (payload.len() + STORAGE_PACKET_HEADER_SIZE) as u64,
        packet_type,
        packet_version: STORAGE_PACKET_VERSION,
        codec_type,
    }
}

/// What parsing the header of `buf` gives: the header, or the first reason
/// why there is none.
pub open spec fn spec_parse_packet_header(buf: Seq<u8>) -> Result<
    StroragePacketHeader,
    FramingError,
> {
    if buf.len() < STORAGE_PACKET_HEADER_SIZE {
        Err(FramingError::BufferTooShort { found: buf.len() as usize })
    } else if be_u64(buf) != buf.len() {
        Err(FramingError::LengthMismatch { expected: be_u64(buf) as u64, found: buf.len() as usize })
    } else {
        match StroragePacketType::spec_from_tag(buf[8]) {
            None => Err(FramingError::UnknownPacketType { tag: buf[8] }),
            Some(packet_type) => match StrorageCodecType::spec_from_tag(buf[10]) {
                None => Err(FramingError::UnknownCodecType { tag: buf[10] }),
                Some(codec_type) => Ok(
                    StroragePacketHeader {
                        packet_length: be_u64(buf) as u64,
                        packet_type,
                        packet_version: buf[9],
                        codec_type,
                    },
                ),
            },
        }
    }
}

/// What parsing `buf` gives: the frame, or the first reason why it is none.
pub open spec fn spec_parse_packet(buf: Seq<u8>) -> Result<StroragePacketView, FramingError> {
    match spec_parse_packet_header(buf) {
        Err(e) => Err(e),
        Ok(header) => Ok(
            StroragePacketView {
                header,
                data: buf.subrange(STORAGE_PACKET_HEADER_SIZE as int, buf.len() as int),
            },
        ),
    }
}

/// Builds the frame that carries `buf` as its payload.
pub fn build_storage_packet(
    buf: Vec<u8>,
    packet_type: StroragePacketType,
    codec_type: StrorageCodecType,
) -> (r: StroragePacket)
    requires
        buf@.len() + STORAGE_PACKET_HEADER_SIZE <= u64::MAX,
    ensures
        r.header == spec_build_packet_header(buf@, packet_type, codec_type),
        r.data@ == buf@,
{
    let header = build_packet_header(buf.as_slice(), packet_type, codec_type);
    StroragePacket { header, data: buf }
}

/// Builds the frame that carries `buf` as its payload, or returns `None`
/// where the length of the frame is no 64-bit number.
pub fn try_build_storage_packet(
    buf: Vec<u8>,
    packet_type: StroragePacketType,
    codec_type: StrorageCodecType,
) -> (r: Option<StroragePacket>)
    ensures
        buf@.len() + STORAGE_PACKET_HEADER_SIZE <= u64::MAX <==> r is Some,
        r matches Some(p) ==> p.header == spec_build_packet_header(buf@, packet_type, codec_type)
            && p.data@ == buf@,
{
    if buf.len() as u64 > u64::MAX - STORAGE_PACKET_HEADER_SIZE as u64 {
        None
    } else {
        Some(build_storage_packet(buf, packet_type, codec_type))
    }
}

/// Parses a buffer into a frame.
pub fn parse_packet(buf: Vec<u8>) -> (r: Result<StroragePacket, FramingError>)
    ensures
        match r {
            Ok(p) => spec_parse_packet(buf@) == Ok::<StroragePacketView, FramingError>(p@),
            Err(e) => spec_parse_packet(buf@) == Err::<StroragePacketView, FramingError>(e),
        },
{
    let header = match parse_packet_header(buf.as_slice()) {
        Ok(header) => header,
        Err(e) => {
            return Err(e);
        },
    };
    let mut data = buf;
    let payload = data.split_off(STORAGE_PACKET_HEADER_SIZE);
    Ok(StroragePacket { header, data: payload })
}

/// Builds the header of the frame that carries `buf` as its payload.
pub fn build_packet_header(
    buf: &[u8],
    packet_type: StroragePacketType,
    codec_type: StrorageCodecType,
) -> (r: StroragePacketHeader)
    requires
        buf@.len() + STORAGE_PACKET_HEADER_SIZE <= u64::MAX,
    ensures
        r == spec_build_packet_header(buf@, packet_type, codec_type),
{
    StroragePacketHeader {
        packet_length: buf.len() as u64 + STORAGE_PACKET_HEADER_SIZE as u64,
        packet_type,
        packet_version: STORAGE_PACKET_VERSION,
        codec_type,
    }
}

/// Parses the header of a frame. The whole frame is handed in: the length
/// that the header declares has to be the length of `buf`.
pub fn parse_packet_header(buf: &[u8]) -> (r: Result<StroragePacketHeader, FramingError>)
    ensures
        r == spec_parse_packet_header(buf@),
{
    let buf_len = buf.len();
    if buf_len < STORAGE_PACKET_HEADER_SIZE {
        return Err(FramingError::BufferTooShort { found: buf_len });
    }
    let packet_length = u64_from_be_bytes(buf);
    if buf_len as u64 != packet_length {
        return Err(FramingError::LengthMismatch { expected: packet_length, found: buf_len });
    }
    let packet_type = match StroragePacketType::from_tag(buf[8]) {
        Some(t) => t,
        None => {
            return Err(FramingError::UnknownPacketType { tag: buf[8] });
        },
    };
    let codec_type = match StrorageCodecType::from_tag(buf[10]) {
        Some(c) => c,
        None => {
            return Err(FramingError::UnknownCodecType { tag: buf[10] });
        },
    };
    Ok(StroragePacketHeader { packet_length, packet_type, packet_version: buf[9], codec_type })
}

/// A buffer whose header declares another length than the buffer has is
/// no frame.
pub proof fn lemma_wrong_length_is_refused(buf: Seq<u8>)
    requires
        buf.len() >= STORAGE_PACKET_HEADER_SIZE,
        be_u64(buf) != buf.len(),
    ensures
        spec_parse_packet_header(buf) == Err::<StroragePacketHeader, FramingError>(
            FramingError::LengthMismatch { expected: be_u64(buf) as u64, found: buf.len() as usize },
        ),
        spec_parse_packet(buf) is Err,
{
}

/// A buffer that is a frame is as long as its header declares, and its
/// tags are known.
pub proof fn lemma_frame_is_well_formed(buf: Seq<u8>)
    requires
        spec_parse_packet_header(buf) is Ok,
    ensures
        buf.len() >= STORAGE_PACKET_HEADER_SIZE,
        spec_parse_packet_header(buf)->Ok_0.packet_length == buf.len(),
        StroragePacketType::spec_from_tag(buf[8]) == Some(
            spec_parse_packet_header(buf)->Ok_0.packet_type,
        ),
        StrorageCodecType::spec_from_tag(buf[10]) == Some(
            spec_parse_packet_header(buf)->Ok_0.codec_type,
        ),
{
}

/// Parsing the bytes of a frame that was built for a payload gives the
/// header that was built and the payload.
pub proof fn lemma_parse_of_built(
    payload: Seq<u8>,
    packet_type: StroragePacketType,
    codec_type: StrorageCodecType,
)
    requires
        payload.len() + STORAGE_PACKET_HEADER_SIZE <= u64::MAX,
    ensures
        ({
            let p = StroragePacketView {
                header: spec_build_packet_header(payload, packet_type, codec_type),
                data: payload,
            };
            spec_parse_packet(p.spec_bytes()) == Ok::<StroragePacketView, FramingError>(p)
        }),
{
    let header = spec_build_packet_header(payload, packet_type, codec_type);
    let p = StroragePacketView { header, data: payload };
    let bytes = p.spec_bytes();
    lemma_be_u64_of_bytes(header.packet_length);
    assert(bytes.len() == payload.len() + 11);
    assert(bytes.subrange(11, bytes.len() as int) =~= payload);
    let lb = u64_be_bytes(header.packet_length);
    assert(forall|i: int| 0 <= i < 8 ==> bytes[i] == lb[i]);
    assert(be_u64(bytes) == be_u64(lb));
}

/// A buffer that parses is the bytes of the frame it parses to.
pub proof fn lemma_bytes_of_parsed(buf: Seq<u8>)
    requires
        spec_parse_packet(buf) is Ok,
    ensures
        spec_parse_packet(buf)->Ok_0.spec_bytes() == buf,
{
    let p = spec_parse_packet(buf)->Ok_0;
    let head = buf.subrange(0, 8);
    lemma_bytes_of_be_u64(head);
    assert(be_u64(head) == be_u64(buf));
    assert(p.spec_bytes() =~= buf);
}

/// The names and types in a list of fields, as character sequences.
pub open spec fn field_views(fields: Seq<(String, String)>) -> Seq<(Seq<char>, Seq<char>)> {
    fields.map_values(|f: (String, String)| (f.0@, f.1@))
}

/// The fields of a frame header, in the order in which they are written.
pub open spec fn spec_header_fields() -> Seq<(Seq<char>, Seq<char>)> {
    seq![
        ("packet_length"@, "u64"@),
        (
            "packet_type"@,
            "StroragePacketType{StrorageInfo=1,StrorageItem=2,StrorageItemObject=3}"@,
        ),
        ("packet_version"@, "u8"@),
        (
            "codec_type"@,
            "StrorageCodecType{Bincode=1,ProtocolBuffers=2,FlatBuffers=3,MessagePack=4,CapnProto=5}"@,
        ),
    ]
}

/// The fields of the payload of a packet of the given type, in the order in
/// which they are encoded.
pub open spec fn spec_object_fields(packet_type: StroragePacketType) -> Seq<
    (Seq<char>, Seq<char>),
> {
    match packet_type {
        StroragePacketType::StrorageInfo => seq![
            ("StrorageInfo"@, "HashMap<String, (String, u64)>"@),
        ],
        StroragePacketType::StrorageItem => seq![
            ("id"@, "String"@),
            ("key"@, "String"@),
            ("version"@, "u64"@),
            ("data"@, "Vec<u8>"@),
            ("item_type"@, "ItemType"@),
            ("description"@, "Option<String>"@),
            ("tags"@, "Option<Vec<String>>"@),
            ("metafields"@, "Option<HashMap<String,String>>"@),
            ("expires_on"@, "Option<u64>"@),
            ("storage_locations"@, "Vec<StorageLocation>"@),
            ("redundancy"@, "u8"@),
        ],
        StroragePacketType::StrorageItemObject => seq![("StrorageItemObject"@, "Vec[u8]"@)],
    }
}

fn push_field(fields: &mut StoragePacketFields, name: &str, field_type: &str)
    ensures
        field_views(final(fields)@) == field_views(old(fields)@).push((name@, field_type@)),
{
    fields.push((name.to_owned(), field_type.to_owned()));
    assert(field_views(fields@) =~= field_views(old(fields)@).push((name@, field_type@)));
}

/// Describes a packet: the fields of its header, and the fields of its
/// payload, each with the name of its type.
pub fn packet_metafields(packet_type: StroragePacketType, _packet_version: u8) -> (r: (
    StoragePacketFields,
    StoragePacketFields,
))
    ensures
        field_views(r.0@) == spec_header_fields(),
        field_views(r.1@) == spec_object_fields(packet_type),
{
    let mut header: StoragePacketFields = Vec::new();
    assert(field_views(header@) =~= Seq::empty());
    push_field(&mut header, "packet_length", "u64");
    push_field(
        &mut header,
        "packet_type",
        "StroragePacketType{StrorageInfo=1,StrorageItem=2,StrorageItemObject=3}",
    );
    push_field(&mut header, "packet_version", "u8");
    push_field(
        &mut header,
        "codec_type",
        "StrorageCodecType{Bincode=1,ProtocolBuffers=2,FlatBuffers=3,MessagePack=4,CapnProto=5}",
    );
    assert(field_views(header@) =~= spec_header_fields());

    let mut object: StoragePacketFields = Vec::new();
    assert(field_views(object@) =~= Seq::empty());
    match packet_type {
        StroragePacketType::StrorageInfo => {
            push_field(&mut object, "StrorageInfo", "HashMap<String, (String, u64)>");
        },
        StroragePacketType::StrorageItem => {
            push_field(&mut object, "id", "String");
            push_field(&mut object, "key", "String");
            push_field(&mut object, "version", "u64");
            push_field(&mut object, "data", "Vec<u8>");
            push_field(&mut object, "item_type", "ItemType");
            push_field(&mut object, "description", "Option<String>");
            push_field(&mut object, "tags", "Option<Vec<String>>");
            push_field(&mut object, "metafields", "Option<HashMap<String,String>>");
            push_field(&mut object, "expires_on", "Option<u64>");
            push_field(&mut object, "storage_locations", "Vec<StorageLocation>");
            push_field(&mut object, "redundancy", "u8");
        },
        StroragePacketType::StrorageItemObject => {
            push_field(&mut object, "StrorageItemObject", "Vec[u8]");
        },
    }
    assert(field_views(object@) =~= spec_object_fields(packet_type));
    (header, object)
}

} // verus!
