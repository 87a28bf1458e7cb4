//! Fixed 64-byte packet header codec and the packet codec built on it.

use vstd::prelude::*;

verus! {

/// Errors reported by the packet and header codecs.
#[derive(Debug, PartialEq, Eq, Structural, Clone, Copy)]
pub enum MsgError {
    InvalidHeader,
    InvalidPayload,
    ChecksumMismatch,
    UnsupportedVersion,
    InvalidMagic,
}

/// Kind of message carried by a packet.
#[derive(Debug, PartialEq, Eq, Structural, Clone, Copy)]
pub enum MsgType {
    Call,
    Reply,
    Error,
    Auth,
}

/// The wire byte for each message type.
pub open spec fn spec_msg_type_u8(t: MsgType) -> u8 {
    match t {
        MsgType::Call => 0,
        MsgType::Reply => 1,
        MsgType::Error => 2,
        MsgType::Auth => 3,
    }
}

impl MsgType {
    /// The wire byte of this message type.
    pub fn to_u8(&self) -> (r: u8)
        ensures
            r == spec_msg_type_u8(*self),
    {
        match self {
            MsgType::Call => 0,
            MsgType::Reply => 1,
            MsgType::Error => 2,
            MsgType::Auth => 3,
        }
    }

    /// The message type a wire byte stands for, if any.
    pub fn from_u8(value: u8) -> (r: Option<MsgType>)
        ensures
            r == spec_msg_type_of_u8(value),
    {
        match value {
            0 => Some(MsgType::Call),
            1 => Some(MsgType::Reply),
            2 => Some(MsgType::Error),
            3 => Some(MsgType::Auth),
            _ => None,
        }
    }
}

/// Decoding of the message-type wire byte.
pub open spec fn spec_msg_type_of_u8(value: u8) -> Option<MsgType> {
    if value == 0 {
        Some(MsgType::Call)
    } else if value == 1 {
        Some(MsgType::Reply)
    } else if value == 2 {
        Some(MsgType::Error)
    } else if value == 3 {
        Some(MsgType::Auth)
    } else {
        None
    }
}

/// Message-type wire bytes and their decoding invert each other.
pub proof fn lemma_msg_type_u8_round_trip(t: MsgType, value: u8)
    ensures
        spec_msg_type_of_u8(spec_msg_type_u8(t)) == Some(t),
        spec_msg_type_of_u8(value) matches Some(u) ==> spec_msg_type_u8(u) == value,
{
}

/// Little-endian bytes of a 32-bit integer, least significant first.
pub open spec fn spec_u32_le(x: u32) -> Seq<u8> {
    seq![
        (x & 0xff) as u8,
        ((x >> 8) & 0xff) as u8,
        ((x >> 16) & 0xff) as u8,
        ((x >> 24) & 0xff) as u8,
    ]
}

/// The 32-bit integer read from four little-endian bytes.
pub open spec fn spec_le_u32(b0: u8, b1: u8, b2: u8, b3: u8) -> u32 {
    (b0 as u32) | ((b1 as u32) << 8) | ((b2 as u32) << 16) | ((b3 as u32) << 24)
}

/// Little-endian bytes of a 64-bit integer, least significant first.
pub open spec fn spec_u64_le(x: u64) -> Seq<u8> {
    seq![
        (x & 0xff) as u8,
        ((x >> 8) & 0xff) as u8,
        ((x >> 16) & 0xff) as u8,
        ((x >> 24) & 0xff) as u8,
        ((x >> 32) & 0xff) as u8,
        ((x >> 40) & 0xff) as u8,
        ((x >> 48) & 0xff) as u8,
        ((x >> 56) & 0xff) as u8,
    ]
}

/// The 64-bit integer read from eight little-endian bytes.
pub open spec fn spec_le_u64(b0: u8, b1: u8, b2: u8, b3: u8, b4: u8, b5: u8, b6: u8, b7: u8) -> u64 {
    (b0 as u64) | ((b1 as u64) << 8) | ((b2 as u64) << 16) | ((b3 as u64) << 24)
        | ((b4 as u64) << 32) | ((b5 as u64) << 40) | ((b6 as u64) << 48) | ((b7 as u64) << 56)
}

/// Reading back the little-endian bytes of a 32-bit integer gives the integer.
pub proof fn lemma_u32_le_round_trip(x: u32)
    ensures
        spec_le_u32(spec_u32_le(x)[0], spec_u32_le(x)[1], spec_u32_le(x)[2], spec_u32_le(x)[3])
            == x,
{
    assert(((x & 0xff) as u8 as u32) | ((((x >> 8) & 0xff) as u8 as u32) << 8)
        | ((((x >> 16) & 0xff) as u8 as u32) << 16) | ((((x >> 24) & 0xff) as u8 as u32) << 24)
        == x) by (bit_vector);
}

/// Reading back the little-endian bytes of a 64-bit integer gives the integer.
pub proof fn lemma_u64_le_round_trip(x: u64)
    ensures
        spec_le_u64(
            spec_u64_le(x)[0],
            spec_u64_le(x)[1],
            spec_u64_le(x)[2],
            spec_u64_le(x)[3],
            spec_u64_le(x)[4],
            spec_u64_le(x)[5],
            spec_u64_le(x)[6],
            spec_u64_le(x)[7],
        ) == x,
{
    assert(((x & 0xff) as u8 as u64) | ((((x >> 8) & 0xff) as u8 as u64) << 8)
        | ((((x >> 16) & 0xff) as u8 as u64) << 16) | ((((x >> 24) & 0xff) as u8 as u64) << 24)
        | ((((x >> 32) & 0xff) as u8 as u64) << 32) | ((((x >> 40) & 0xff) as u8 as u64) << 40)
        | ((((x >> 48) & 0xff) as u8 as u64) << 48) | ((((x >> 56) & 0xff) as u8 as u64) << 56)
        == x) by (bit_vector);
}

/// The little-endian bytes of a 32-bit integer, as an array.
fn u32_to_le(x: u32) -> (r: [u8; 4])
    ensures
        r@ == spec_u32_le(x),
{
    let r = [(x & 0xff) as u8, ((x >> 8) & 0xff) as u8, ((x >> 16) & 0xff) as u8, (
    (x >> 24) & 0xff) as u8];
    proof {
        assert(r@ =~= spec_u32_le(x));
    }
    r
}

/// The little-endian bytes of a 64-bit integer, as an array.
fn u64_to_le(x: u64) -> (r: [u8; 8])
    ensures
        r@ == spec_u64_le(x),
{
    let r = [
        (x & 0xff) as u8,
        ((x >> 8) & 0xff) as u8,
        ((x >> 16) & 0xff) as u8,
        ((x >> 24) & 0xff) as u8,
        ((x >> 32) & 0xff) as u8,
        ((x >> 40) & 0xff) as u8,
        ((x >> 48) & 0xff) as u8,
        ((x >> 56) & 0xff) as u8,
    ];
    proof {
        assert(r@ =~= spec_u64_le(x));
    }
    r
}

/// The 32-bit integer carried little-endian at offset `at` of `buf`.
fn read_le_u32(buf: &[u8], at: usize) -> (r: u32)
    requires
        at + 4 <= buf@.len(),
    ensures
        r == spec_le_u32(buf@[at as int], buf@[at + 1], buf@[at + 2], buf@[at + 3]),
{
    (buf[at] as u32) | ((buf[at + 1] as u32) << 8) | ((buf[at + 2] as u32) << 16) | ((buf[at
        + 3] as u32) << 24)
}

/// The 64-bit integer carried little-endian at offset `at` of `buf`.
fn read_le_u64(buf: &[u8], at: usize) -> (r: u64)
    requires
        at + 8 <= buf@.len(),
    ensures
        r == spec_le_u64(
            buf@[at as int],
            buf@[at + 1],
            buf@[at + 2],
            buf@[at + 3],
            buf@[at + 4],
            buf@[at + 5],
            buf@[at + 6],
            buf@[at + 7],
        ),
{
    (buf[at] as u64) | ((buf[at + 1] as u64) << 8) | ((buf[at + 2] as u64) << 16) | ((buf[at
        + 3] as u64) << 24) | ((buf[at + 4] as u64) << 32) | ((buf[at + 5] as u64) << 40) | ((
    buf[at + 6] as u64) << 48) | ((buf[at + 7] as u64) << 56)
}

/// Number of bytes in an encoded header. The header size is invariant
/// across the protocol's lifetime and is never negotiated.
pub const HEADER_SIZE: usize = 64;

/// The four magic bytes identifying the protocol, the literal `rum3`.
pub open spec fn spec_magic() -> Seq<u8> {
    seq![114u8, 117u8, 109u8, 51u8]
}

/// The single supported protocol version.
pub const VERSION: u8 = 1;

/// CRC32 of a byte sequence, as crc32fast computes it: a function of the
/// bytes alone.
pub uninterp spec fn crc32_of(bytes: Seq<u8>) -> u32;

/// Relies on crc32fast::hash: the CRC32 checksum of the slice, a
/// deterministic function of the bytes alone.
#[verifier::external_body]
fn crc32(buf: &[u8]) -> (r: u32)
    ensures
        r == crc32_of(buf@),
{
    crc32fast::hash(buf)
}

/// Relies on chrono::Utc::now and DateTime::timestamp_millis: the current
/// wall-clock time in milliseconds since the epoch. Nothing is assumed of
/// the value.
#[verifier::external_body]
fn now_millis() -> u64 {
    chrono::Utc::now().timestamp_millis() as u64
}

/// Fixed-layout 64-byte packet header.
#[derive(Debug, Copy, Clone)]
pub struct PacketHeader {
    pub magic: [u8; 4],
    pub version: u8,
    pub msg_type: MsgType,
    pub reserved: [u8; 10],
    pub payload_len: u32,
    pub session_id: u64,
    pub timestamp: u64,
    pub checksum: u32,
    pub _padding: [u8; 24],
}

/// The 64 wire bytes of a header: fields in layout order, multi-byte
/// integers little-endian.
pub open spec fn spec_header_bytes(h: PacketHeader) -> Seq<u8> {
    h.magic@ + seq![h.version, spec_msg_type_u8(h.msg_type)] + h.reserved@ + spec_u32_le(
        h.payload_len,
    ) + spec_u64_le(h.session_id) + spec_u64_le(h.timestamp) + spec_u32_le(h.checksum)
        + h._padding@
}

/// The header `h` is the one carried by the first 64 bytes of `b`: every
/// field of `h` equals what the layout reads out of `b`.
pub open spec fn header_matches(h: PacketHeader, b: Seq<u8>) -> bool {
    &&& b.len() >= 64
    &&& h.magic@ == b.subrange(0, 4)
    &&& h.version == b[4]
    &&& Some(h.msg_type) == spec_msg_type_of_u8(b[5])
    &&& h.reserved@ == b.subrange(6, 16)
    &&& h.payload_len == spec_le_u32(b[16], b[17], b[18], b[19])
    &&& h.session_id == spec_le_u64(b[20], b[21], b[22], b[23], b[24], b[25], b[26], b[27])
    &&& h.timestamp == spec_le_u64(b[28], b[29], b[30], b[31], b[32], b[33], b[34], b[35])
    &&& h.checksum == spec_le_u32(b[36], b[37], b[38], b[39])
    &&& h._padding@ == b.subrange(40, 64)
}

/// The header a fresh packet carries for a given payload and session tag:
/// protocol magic, version 1, message type Call, sizes and checksum computed
/// from the payload, reserved bytes and padding zeroed. The timestamp is
/// not constrained: it is read from the clock at encode time.
pub open spec fn header_built_from(h: PacketHeader, p: Seq<u8>, session_id: u64) -> bool {
    &&& h.magic@ == spec_magic()
    &&& h.version == VERSION
    &&& h.msg_type == MsgType::Call
    &&& h.reserved@ == Seq::new(10, |i: int| 0u8)
    &&& h.payload_len == p.len()
    &&& h.session_id == session_id
    &&& h.checksum == crc32_of(p)
    &&& h._padding@ == Seq::new(24, |i: int| 0u8)
}

/// Appends every byte of `a` to `v`, in order.
fn extend_from_array<const N: usize>(v: &mut Vec<u8>, a: &[u8; N])
    ensures
        final(v)@ == old(v)@ + a@,
{
    let mut i: usize = 0;
    while i < N
        invariant
            i <= N,
            v@ == old(v)@ + a@.take(i as int),
        decreases N - i,
    {
        v.push(a[i]);
        i = i + 1;
        proof {
            assert(v@ =~= old(v)@ + a@.take(i as int));
        }
    }
    proof {
        assert(v@ =~= old(v)@ + a@);
    }
}

impl PacketHeader {
    /// Builds the header for a fresh outbound packet: magic, version and
    /// message type fixed by the protocol, length and CRC32 checksum
    /// computed from the payload, timestamp read from the clock.
    pub fn from_payload(payload: &[u8], session_id: u64) -> (r: Self)
        requires
            payload@.len() <= u32::MAX,
        ensures
            header_built_from(r, payload@, session_id),
    {
        let payload_len = payload.len() as u32;
        let checksum = crc32(payload);
        let h = PacketHeader {
            magic: [114, 117, 109, 51],
            version: VERSION,
            msg_type: MsgType::Call,
            reserved: [0; 10],
            payload_len,
            session_id,
            timestamp: now_millis(),
            checksum,
            _padding: [0; 24],
        };
        proof {
            assert(h.magic@ =~= spec_magic());
            assert(h.reserved@ =~= Seq::new(10, |i: int| 0u8));
            assert(h._padding@ =~= Seq::new(24, |i: int| 0u8));
        }
        h
    }

    /// Encodes the header into its 64 wire bytes.
    pub fn to_bytes(&self) -> (r: Vec<u8>)
        ensures
            r@ == spec_header_bytes(*self),
            r@.len() == 64,
    {
        let mut bytes: Vec<u8> = Vec::new();
        extend_from_array(&mut bytes, &self.magic);
        bytes.push(self.version);
        bytes.push(self.msg_type.to_u8());
        extend_from_array(&mut bytes, &self.reserved);
        extend_from_array(&mut bytes, &u32_to_le(self.payload_len));
        extend_from_array(&mut bytes, &u64_to_le(self.session_id));
        extend_from_array(&mut bytes, &u64_to_le(self.timestamp));
        extend_from_array(&mut bytes, &u32_to_le(self.checksum));
        extend_from_array(&mut bytes, &self._padding);
        proof {
            assert(bytes@ =~= spec_header_bytes(*self));
        }
        bytes
    }

    /// Decodes the first 64 bytes of `buf` into a header. Fails with
    /// `InvalidHeader` exactly when fewer than 64 bytes are supplied or the
    /// message-type byte is not one of the four known values. Magic and
    /// version are not checked here: that is the packet codec's task.
    pub fn from_bytes(buf: &[u8]) -> (r: Result<PacketHeader, MsgError>)
        ensures
            buf@.len() < 64 ==> r == Err::<PacketHeader, MsgError>(MsgError::InvalidHeader),
            buf@.len() >= 64 && spec_msg_type_of_u8(buf@[5]) is None ==> r == Err::<
                PacketHeader,
                MsgError,
            >(MsgError::InvalidHeader),
            buf@.len() >= 64 && spec_msg_type_of_u8(buf@[5]) is Some ==> (r matches Ok(h)
                && header_matches(h, buf@)),
    {
        if buf.len() < 64 {
            return Err(MsgError::InvalidHeader);
        }
        let magic = [buf[0], buf[1], buf[2], buf[3]];
        let version = buf[4];
        let msg_type = match MsgType::from_u8(buf[5]) {
            Some(t) => t,
            None => {
                return Err(MsgError::InvalidHeader);
            },
        };
        let reserved = [
            buf[6],
            buf[7],
            buf[8],
            buf[9],
            buf[10],
            buf[11],
            buf[12],
            buf[13],
            buf[14],
            buf[15],
        ];
        let payload_len = read_le_u32(buf, 16);
        let session_id = read_le_u64(buf, 20);
        let timestamp = read_le_u64(buf, 28);
        let checksum = read_le_u32(buf, 36);
        let _padding = [
            buf[40],
            buf[41],
            buf[42],
            buf[43],
            buf[44],
            buf[45],
            buf[46],
            buf[47],
            buf[48],
            buf[49],
            buf[50],
            buf[51],
            buf[52],
            buf[53],
            buf[54],
            buf[55],
            buf[56],
            buf[57],
            buf[58],
            buf[59],
            buf[60],
            buf[61],
            buf[62],
            buf[63],
        ];
        let h = PacketHeader {
            magic,
            version,
            msg_type,
            reserved,
            payload_len,
            session_id,
            timestamp,
            checksum,
            _padding,
        };
        proof {
            assert(h.magic@ =~= buf@.subrange(0, 4));
            assert(h.reserved@ =~= buf@.subrange(6, 16));
            assert(h._padding@ =~= buf@.subrange(40, 64));
        }
        Ok(h)
    }
}

/// The payload length a buffer's header declares.
pub open spec fn spec_b_payload_len(b: Seq<u8>) -> u32 {
    spec_le_u32(b[16], b[17], b[18], b[19])
}

/// The checksum a buffer's header declares.
pub open spec fn spec_b_checksum(b: Seq<u8>) -> u32 {
    spec_le_u32(b[36], b[37], b[38], b[39])
}

/// The payload bytes a buffer carries after its header.
pub open spec fn spec_b_payload(b: Seq<u8>) -> Seq<u8> {
    b.subrange(64, 64 + spec_b_payload_len(b) as int)
}

/// What decoding a buffer as a packet yields: the payload on success, or
/// the first error in the canonical validation order, which checks the
/// header's shape, then magic, version, declared length, and checksum.
pub open spec fn spec_packet_decode(b: Seq<u8>) -> Result<Seq<u8>, MsgError> {
    if b.len() < 64 || spec_msg_type_of_u8(b[5]) is None {
        Err(MsgError::InvalidHeader)
    } else if b.subrange(0, 4) != spec_magic() {
        Err(MsgError::InvalidMagic)
    } else if b[4] != VERSION {
        Err(MsgError::UnsupportedVersion)
    } else if b.len() < 64 + spec_b_payload_len(b) {
        Err(MsgError::InvalidPayload)
    } else if crc32_of(spec_b_payload(b)) != spec_b_checksum(b) {
        Err(MsgError::ChecksumMismatch)
    } else {
        Ok(spec_b_payload(b))
    }
}

/// A packet: one header and the payload it describes.
#[derive(Debug)]
pub struct Packet {
    pub header: PacketHeader,
    pub payload: Vec<u8>,
}

impl Packet {
    /// Packs a header and a payload, as given, into a packet.
    pub fn new(header: PacketHeader, payload: Vec<u8>) -> (r: Self)
        ensures
            r.header == header,
            r.payload == payload,
    {
        Packet { header, payload }
    }

    /// Encodes the packet: the header's 64 bytes followed immediately by
    /// the payload bytes.
    pub fn to_bytes(&self) -> (r: Vec<u8>)
        ensures
            r@ == spec_header_bytes(self.header) + self.payload@,
            r@.len() == 64 + self.payload@.len(),
    {
        let mut bytes = self.header.to_bytes();
        let mut i: usize = 0;
        let ghost header_seq = bytes@;
        while i < self.payload.len()
            invariant
                i <= self.payload@.len(),
                bytes@ == header_seq + self.payload@.take(i as int),
            decreases self.payload@.len() - i,
        {
            bytes.push(self.payload[i]);
            i = i + 1;
            proof {
                assert(bytes@ =~= header_seq + self.payload@.take(i as int));
            }
        }
        proof {
            assert(bytes@ =~= spec_header_bytes(self.header) + self.payload@);
        }
        bytes
    }

    /// Decodes a contiguous buffer into a packet, validating in order the
    /// header's shape, the magic bytes, the version, the declared payload
    /// length against the buffer, and the CRC32 checksum. Succeeds exactly
    /// when `spec_packet_decode` does, with the payload it names and the
    /// header the leading 64 bytes carry.
    pub fn from_bytes(buf: &[u8]) -> (r: Result<Self, MsgError>)
        ensures
            match r {
                Ok(p) => {
                    &&& spec_packet_decode(buf@) == Ok::<Seq<u8>, MsgError>(p.payload@)
                    &&& header_matches(p.header, buf@)
                    &&& p.payload@ == spec_b_payload(buf@)
                },
                Err(e) => spec_packet_decode(buf@) == Err::<Seq<u8>, MsgError>(e),
            },
    {
        let header = match PacketHeader::from_bytes(buf) {
            Ok(h) => h,
            Err(e) => {
                return Err(e);
            },
        };
        if !(header.magic[0] == 114 && header.magic[1] == 117 && header.magic[2] == 109
            && header.magic[3] == 51) {
            proof {
                assert(header.magic@ != spec_magic());
                assert(buf@.subrange(0, 4) != spec_magic());
            }
            return Err(MsgError::InvalidMagic);
        }
        proof {
            assert(header.magic@ =~= spec_magic());
            assert(buf@.subrange(0, 4) == spec_magic());
        }
        if header.version != VERSION {
            return Err(MsgError::UnsupportedVersion);
        }
        let payload_len = header.payload_len as usize;
        if buf.len() - 64 < payload_len {
            return Err(MsgError::InvalidPayload);
        }
        let payload_slice = vstd::slice::slice_subrange(buf, 64, 64 + payload_len);
        let payload = vstd::slice::slice_to_vec(payload_slice);
        if crc32(payload.as_slice()) != header.checksum {
            return Err(MsgError::ChecksumMismatch);
        }
        Ok(Packet { header, payload })
    }
}

/// Encoding a header and reading the bytes back yields the same header: the
/// 64 encoded bytes carry every field, and only this header matches them.
pub proof fn lemma_header_round_trip(h: PacketHeader)
    ensures
        spec_header_bytes(h).len() == 64,
        header_matches(h, spec_header_bytes(h)),
{
    let b = spec_header_bytes(h);
    assert(b.len() == 64);
    assert(b.subrange(0, 4) =~= h.magic@);
    assert(b[4] == h.version);
    assert(b[5] == spec_msg_type_u8(h.msg_type));
    lemma_msg_type_u8_round_trip(h.msg_type, 0);
    assert(b.subrange(6, 16) =~= h.reserved@);
    assert(b[16] == spec_u32_le(h.payload_len)[0]);
    assert(b[17] == spec_u32_le(h.payload_len)[1]);
    assert(b[18] == spec_u32_le(h.payload_len)[2]);
    assert(b[19] == spec_u32_le(h.payload_len)[3]);
    lemma_u32_le_round_trip(h.payload_len);
    assert(b[20] == spec_u64_le(h.session_id)[0]);
    assert(b[21] == spec_u64_le(h.session_id)[1]);
    assert(b[22] == spec_u64_le(h.session_id)[2]);
    assert(b[23] == spec_u64_le(h.session_id)[3]);
    assert(b[24] == spec_u64_le(h.session_id)[4]);
    assert(b[25] == spec_u64_le(h.session_id)[5]);
    assert(b[26] == spec_u64_le(h.session_id)[6]);
    assert(b[27] == spec_u64_le(h.session_id)[7]);
    lemma_u64_le_round_trip(h.session_id);
    assert(b[28] == spec_u64_le(h.timestamp)[0]);
    assert(b[29] == spec_u64_le(h.timestamp)[1]);
    assert(b[30] == spec_u64_le(h.timestamp)[2]);
    assert(b[31] == spec_u64_le(h.timestamp)[3]);
    assert(b[32] == spec_u64_le(h.timestamp)[4]);
    assert(b[33] == spec_u64_le(h.timestamp)[5]);
    assert(b[34] == spec_u64_le(h.timestamp)[6]);
    assert(b[35] == spec_u64_le(h.timestamp)[7]);
    lemma_u64_le_round_trip(h.timestamp);
    assert(b[36] == spec_u32_le(h.checksum)[0]);
    assert(b[37] == spec_u32_le(h.checksum)[1]);
    assert(b[38] == spec_u32_le(h.checksum)[2]);
    assert(b[39] == spec_u32_le(h.checksum)[3]);
    lemma_u32_le_round_trip(h.checksum);
    assert(b.subrange(40, 64) =~= h._padding@);
}

/// At most one header matches a given byte buffer: `header_matches` pins
/// every field down.
pub proof fn lemma_header_matches_unique(h1: PacketHeader, h2: PacketHeader, b: Seq<u8>)
    requires
        header_matches(h1, b),
        header_matches(h2, b),
    ensures
        h1 == h2,
{
    broadcast use vstd::array::group_array_axioms;

    assert(forall|i: int| 0 <= i < 4 ==> h1.magic[i] == h2.magic[i]) by {
        assert(forall|i: int| 0 <= i < 4 ==> h1.magic@[i] == h2.magic@[i]);
    }
    assert(h1.magic =~= h2.magic);
    assert(forall|i: int| 0 <= i < 10 ==> h1.reserved[i] == h2.reserved[i]) by {
        assert(forall|i: int| 0 <= i < 10 ==> h1.reserved@[i] == h2.reserved@[i]);
    }
    assert(h1.reserved =~= h2.reserved);
    assert(forall|i: int| 0 <= i < 24 ==> h1._padding[i] == h2._padding[i]) by {
        assert(forall|i: int| 0 <= i < 24 ==> h1._padding@[i] == h2._padding@[i]);
    }
    assert(h1._padding =~= h2._padding);
}

/// Round trip: a packet built from a payload and a session tag decodes,
/// from its own encoding, back to exactly that payload; the header that the
/// bytes carry has the payload's length, its CRC32 checksum, and the
/// session tag.
pub proof fn lemma_packet_round_trip(h: PacketHeader, p: Seq<u8>, session_id: u64)
    requires
        header_built_from(h, p, session_id),
        p.len() <= u32::MAX,
    ensures
        spec_packet_decode(spec_header_bytes(h) + p) == Ok::<Seq<u8>, MsgError>(p),
        header_matches(h, spec_header_bytes(h) + p),
{
    lemma_header_round_trip(h);
    let hb = spec_header_bytes(h);
    let b = hb + p;
    assert(b.len() == 64 + p.len());
    assert forall|i: int| 0 <= i < 64 implies b[i] == hb[i] by {}
    assert(b.subrange(0, 4) =~= hb.subrange(0, 4));
    assert(b.subrange(6, 16) =~= hb.subrange(6, 16));
    assert(b.subrange(40, 64) =~= hb.subrange(40, 64));
    assert(header_matches(h, b));
    assert(spec_b_payload_len(b) == h.payload_len);
    assert(spec_b_payload(b) =~= p);
    assert(spec_b_checksum(b) == h.checksum);
    assert(b.subrange(0, 4) == spec_magic());
}

/// Corruption detection: replacing the payload of an encoded packet by any
/// same-length bytes whose CRC32 differs makes decoding fail with
/// `ChecksumMismatch`, and with nothing else.
pub proof fn lemma_corruption_detected(h: PacketHeader, p: Seq<u8>, session_id: u64, q: Seq<u8>)
    requires
        header_built_from(h, p, session_id),
        p.len() <= u32::MAX,
        q.len() == p.len(),
        crc32_of(q) != crc32_of(p),
    ensures
        spec_packet_decode(spec_header_bytes(h) + q) == Err::<Seq<u8>, MsgError>(
            MsgError::ChecksumMismatch,
        ),
{
    lemma_header_round_trip(h);
    let hb = spec_header_bytes(h);
    let b = hb + q;
    assert forall|i: int| 0 <= i < 64 implies b[i] == hb[i] by {}
    assert(b.subrange(0, 4) =~= hb.subrange(0, 4));
    assert(b.subrange(0, 4) == spec_magic());
    assert(spec_b_payload_len(b) == h.payload_len);
    assert(spec_b_payload(b) =~= q);
    assert(spec_b_checksum(b) == h.checksum);
}

/// Truncation: fewer than 64 bytes fail with `InvalidHeader`; a buffer of
/// exactly 64 bytes that passes the header, magic and version checks but
/// declares a non-empty payload fails with `InvalidPayload`.
pub proof fn lemma_truncation(b: Seq<u8>)
    ensures
        b.len() < 64 ==> spec_packet_decode(b) == Err::<Seq<u8>, MsgError>(MsgError::InvalidHeader),
        (b.len() == 64 && spec_msg_type_of_u8(b[5]) is Some && b.subrange(0, 4) == spec_magic()
            && b[4] == VERSION && spec_b_payload_len(b) > 0) ==> spec_packet_decode(b) == Err::<
            Seq<u8>,
            MsgError,
        >(MsgError::InvalidPayload),
{
}

/// Magic and version gating: a buffer whose header decodes but whose magic
/// bytes are wrong fails with `InvalidMagic`, whatever else it holds; one
/// with the right magic but an unsupported version fails with
/// `UnsupportedVersion`.
pub proof fn lemma_magic_version_gating(b: Seq<u8>)
    requires
        b.len() >= 64,
        spec_msg_type_of_u8(b[5]) is Some,
    ensures
        b.subrange(0, 4) != spec_magic() ==> spec_packet_decode(b) == Err::<Seq<u8>, MsgError>(
            MsgError::InvalidMagic,
        ),
        b.subrange(0, 4) == spec_magic() && b[4] != VERSION ==> spec_packet_decode(b) == Err::<
            Seq<u8>,
            MsgError,
        >(MsgError::UnsupportedVersion),
{
}

} // verus!
