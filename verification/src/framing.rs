//! The frame: a 44-byte header, a payload, and a tag on secured connections.

use crate::error::{ErrorView, VynkorError};
use vstd::prelude::*;
use vstd::slice::slice_to_vec;
use vstd::string::*;

verus! {

/// The largest payload of a frame, and of a message sent in fragments.
pub const MAX_PAYLOAD_SIZE: usize = 1_048_576;

/// The number that every frame starts with.
pub const MAGIC: u16 = 0x5652;

/// Byte length of the frame header.
pub const HEADER_SIZE: usize = 44;

/// Byte length of the target field in the header.
pub const TARGET_SIZE: usize = 32;

/// A 32-byte tag follows the payload.
pub const FLAG_MAC_PRESENT: u16 = 0x0001;

/// The payload is compressed on the wire.
pub const FLAG_COMPRESSED: u16 = 0x0002;

/// The frame is one fragment of a larger message; the payload starts with a
/// fragment header.
pub const FLAG_FRAGMENTED: u16 = 0x0004;

/// The payload is raw binary, such as audio, and not an envelope.
pub const FLAG_RAW_BINARY: u16 = 0x0010;

/// Byte length of the fragment header at the start of a fragment's payload.
pub const FRAG_HEADER_SIZE: usize = 10;

/// One frame, with its payload in plain (not compressed) form.
#[derive(Debug)]
pub struct Frame {
    pub magic: u16,
    pub flags: u16,
    pub length: u32,
    pub target: [u8; 32],
    pub crc32: u32,
    pub payload: Vec<u8>,
    /// The tag, on frames that carry one.
    pub mac: Option<[u8; 32]>,
}

/// The model of a [`Frame`].
#[verifier::ext_equal]
pub struct FrameView {
    pub magic: u16,
    pub flags: u16,
    pub length: u32,
    pub target: Seq<u8>,
    pub crc32: u32,
    pub payload: Seq<u8>,
    pub mac: Option<Seq<u8>>,
}

impl View for Frame {
    type V = FrameView;

    open spec fn view(&self) -> FrameView {
        FrameView {
            magic: self.magic,
            flags: self.flags,
            length: self.length,
            target: self.target@,
            crc32: self.crc32,
            payload: self.payload@,
            mac: match self.mac {
                Some(tag) => Some(tag@),
                None => None,
            },
        }
    }
}

/// The fragment header: which message a fragment belongs to, and where.
#[derive(Clone, Copy, Debug, PartialEq, Eq, Structural)]
pub struct FragmentHeader {
    /// Identifies the message within its stream; carried, not interpreted.
    pub fragment_id: u16,
    /// Position of the fragment, from zero.
    pub sequence: u16,
    /// Number of fragments that make up the message.
    pub total: u16,
    /// The stream that the fragments are collected by.
    pub stream_id: u32,
}

/// A 16-bit number in big-endian order.
pub open spec fn be16(n: u16) -> Seq<u8> {
    seq![(n / 256) as u8, (n % 256) as u8]
}

/// A 32-bit number in big-endian order.
pub open spec fn be32(n: u32) -> Seq<u8> {
    seq![
        (n / 0x100_0000) as u8,
        (n / 0x1_0000 % 256) as u8,
        (n / 0x100 % 256) as u8,
        (n % 256) as u8,
    ]
}

/// The 16-bit big-endian number at position `i`.
pub open spec fn u16_at(bytes: Seq<u8>, i: int) -> u16 {
    (bytes[i] * 256 + bytes[i + 1]) as u16
}

/// The 32-bit big-endian number at position `i`.
pub open spec fn u32_at(bytes: Seq<u8>, i: int) -> u32 {
    (bytes[i] * 0x100_0000 + bytes[i + 1] * 0x1_0000 + bytes[i + 2] * 0x100 + bytes[i + 3]) as u32
}

/// The header of a frame as it goes on the wire.
pub open spec fn header_bytes(frame: FrameView) -> Seq<u8> {
    be16(frame.magic) + be16(frame.flags) + be32(frame.length) + frame.target + be32(frame.crc32)
}

/// The fragment header as it goes on the wire.
pub open spec fn frag_header_bytes(header: FragmentHeader) -> Seq<u8> {
    be16(header.fragment_id) + be16(header.sequence) + be16(header.total) + be32(header.stream_id)
}

/// The fragment header that a payload starts with, if it is long enough.
pub open spec fn frag_header_of(payload: Seq<u8>) -> Option<FragmentHeader> {
    if payload.len() < FRAG_HEADER_SIZE {
        None
    } else {
        Some(
            FragmentHeader {
                fragment_id: u16_at(payload, 0),
                sequence: u16_at(payload, 2),
                total: u16_at(payload, 4),
                stream_id: u32_at(payload, 6),
            },
        )
    }
}

/// The target field for a target id: its bytes, cut off or padded with
/// zeros to the width of the field.
pub open spec fn target_field(id: Seq<u8>) -> Seq<u8> {
    Seq::new(
        TARGET_SIZE as nat,
        |i: int|
            if i < id.len() {
                id[i]
            } else {
                0u8
            },
    )
}

/// The frame without a tag that carries a payload to a target.
pub open spec fn plain_frame(target: Seq<u8>, flags: u16, payload: Seq<u8>) -> FrameView {
    FrameView {
        magic: MAGIC,
        flags,
        length: payload.len() as u32,
        target: target_field(target),
        crc32: crc32(payload),
        payload,
        mac: None,
    }
}

/// A frame as one run of bytes: header, payload, and the tag if there is one.
pub open spec fn frame_bytes(frame: FrameView) -> Seq<u8> {
    header_bytes(frame) + frame.payload + match frame.mac {
        Some(tag) => tag,
        None => seq![],
    }
}

/// One bit of a division by the polynomial of CRC-32, least significant bit
/// first.
pub open spec fn crc32_bit(state: u32) -> u32 {
    if state & 1 == 1 {
        (state >> 1u32) ^ 0xEDB8_8320
    } else {
        state >> 1u32
    }
}

/// `n` bits of the division.
pub open spec fn crc32_bits(state: u32, n: nat) -> u32
    decreases n,
{
    if n == 0 {
        state
    } else {
        crc32_bit(crc32_bits(state, (n - 1) as nat))
    }
}

/// The state of the division after a run of bytes.
pub open spec fn crc32_state(data: Seq<u8>) -> u32
    decreases data.len(),
{
    if data.len() == 0 {
        0xFFFF_FFFF
    } else {
        crc32_bits(crc32_state(data.drop_last()) ^ (data.last() as u32), 8)
    }
}

/// The CRC-32 checksum (IEEE 802.3) of a run of bytes.
pub open spec fn crc32(data: Seq<u8>) -> u32 {
    !crc32_state(data)
}

/// Calls `crc32fast::hash`. Claimed of it: the result is the CRC-32 checksum
/// of the bytes, as [`crc32`] defines it.
#[verifier::external_body]
fn checksum(data: &[u8]) -> (sum: u32)
    ensures
        sum == crc32(data@),
{
    crc32fast::hash(data)
}

fn push_be16(out: &mut Vec<u8>, n: u16)
    ensures
        final(out)@ == old(out)@ + be16(n),
{
    out.push((n / 256) as u8);
    out.push((n % 256) as u8);
    assert(out@ =~= old(out)@ + be16(n));
}

fn push_be32(out: &mut Vec<u8>, n: u32)
    ensures
        final(out)@ == old(out)@ + be32(n),
{
    out.push((n / 0x100_0000) as u8);
    out.push((n / 0x1_0000 % 256) as u8);
    out.push((n / 0x100 % 256) as u8);
    out.push((n % 256) as u8);
    assert(out@ =~= old(out)@ + be32(n));
}

/// Appends a run of bytes.
pub fn push_bytes(out: &mut Vec<u8>, bytes: &[u8])
    ensures
        final(out)@ == old(out)@ + bytes@,
{
    out.extend_from_slice(bytes);
    assert(out@ =~= old(out)@ + bytes@);
}

/// Writes out the header of a frame.
pub fn serialize_header(frame: &Frame) -> (header: [u8; 44])
    ensures
        header@ == header_bytes(frame@),
{
    let mut bytes: Vec<u8> = Vec::with_capacity(HEADER_SIZE);
    push_be16(&mut bytes, frame.magic);
    push_be16(&mut bytes, frame.flags);
    push_be32(&mut bytes, frame.length);
    push_bytes(&mut bytes, &frame.target);
    push_be32(&mut bytes, frame.crc32);
    let mut header: [u8; 44] = [0u8; 44];
    let mut i: usize = 0;
    while i < HEADER_SIZE
        invariant
            i <= HEADER_SIZE,
            bytes@.len() == HEADER_SIZE,
            header@.len() == HEADER_SIZE,
            forall|j: int| 0 <= j < i ==> header@[j] == bytes@[j],
        decreases HEADER_SIZE - i,
    {
        header[i] = bytes[i];
        i = i + 1;
    }
    assert(header@ =~= bytes@);
    header
}

/// Reads the fragment header at the start of a payload.
pub fn parse_frag_header(payload: &[u8]) -> (header: Option<FragmentHeader>)
    ensures
        header == frag_header_of(payload@),
{
    if payload.len() < FRAG_HEADER_SIZE {
        return None;
    }
    Some(
        FragmentHeader {
            fragment_id: payload[0] as u16 * 256 + payload[1] as u16,
            sequence: payload[2] as u16 * 256 + payload[3] as u16,
            total: payload[4] as u16 * 256 + payload[5] as u16,
            stream_id: payload[6] as u32 * 0x100_0000 + payload[7] as u32 * 0x1_0000
                + payload[8] as u32 * 0x100 + payload[9] as u32,
        },
    )
}

/// The payload of one fragment: its header, then the chunk.
pub fn fragment_payload(header: FragmentHeader, chunk: &[u8]) -> (payload: Vec<u8>)
    ensures
        payload@ == frag_header_bytes(header) + chunk@,
{
    let mut payload: Vec<u8> = Vec::new();
    push_be16(&mut payload, header.fragment_id);
    push_be16(&mut payload, header.sequence);
    push_be16(&mut payload, header.total);
    push_be32(&mut payload, header.stream_id);
    push_bytes(&mut payload, chunk);
    assert(payload@ =~= frag_header_bytes(header) + chunk@);
    payload
}

/// The frame without a tag that carries `payload` to `target`. A target id
/// over 32 bytes is cut off.
pub fn build_frame(target: &str, flags: u16, payload: Vec<u8>) -> (frame: Frame)
    ensures
        frame@ == plain_frame(target.spec_bytes(), flags, payload@),
{
    let id: &[u8] = target.as_bytes();
    frame_to(id, flags, payload)
}

fn frame_to(id: &[u8], flags: u16, payload: Vec<u8>) -> (frame: Frame)
    ensures
        frame@ == plain_frame(id@, flags, payload@),
{
    let mut field: [u8; 32] = [0u8; 32];
    let mut i: usize = 0;
    while i < TARGET_SIZE && i < id.len()
        invariant
            i <= TARGET_SIZE,
            i <= id@.len(),
            field@.len() == TARGET_SIZE,
            forall|j: int| 0 <= j < i ==> field@[j] == id@[j],
            forall|j: int| i <= j < TARGET_SIZE ==> field@[j] == 0,
        decreases TARGET_SIZE - i,
    {
        field[i] = id[i];
        i = i + 1;
    }
    assert(field@ =~= target_field(id@));
    restored_frame(field, flags, payload)
}

/// The frame without a tag that carries `payload`, given the target field.
pub fn restored_frame(target: [u8; 32], flags: u16, payload: Vec<u8>) -> (frame: Frame)
    ensures
        frame@ == (FrameView {
            magic: MAGIC,
            flags,
            length: payload@.len() as u32,
            target: target@,
            crc32: crc32(payload@),
            payload: payload@,
            mac: None,
        }),
{
    let crc32 = checksum(&payload);
    Frame { magic: MAGIC, flags, length: payload.len() as u32, target, crc32, payload, mac: None }
}

/// The WebSocket message that carries a frame: one binary message per frame,
/// never compressed, never split.
pub fn ws_message(frame: &Frame) -> (message: Result<Vec<u8>, VynkorError>)
    ensures
        frame.payload@.len() <= MAX_PAYLOAD_SIZE ==> (message matches Ok(bytes) && bytes@
            == frame_bytes(frame@)),
        frame.payload@.len() > MAX_PAYLOAD_SIZE ==> (message matches Err(error) && error@
            == ErrorView::PayloadTooLarge(frame.payload@.len())),
{
    if frame.payload.len() > MAX_PAYLOAD_SIZE {
        return Err(VynkorError::PayloadTooLarge(frame.payload.len()));
    }
    let header = serialize_header(frame);
    let mut out: Vec<u8> = slice_to_vec(&header);
    push_bytes(&mut out, &frame.payload);
    match &frame.mac {
        Some(tag) => push_bytes(&mut out, tag),
        None => {},
    }
    assert(out@ =~= frame_bytes(frame@));
    Ok(out)
}

/// The header determines everything it describes: two frames with a full
/// target field and equal header bytes agree in magic, flags, length, target
/// and checksum.
pub proof fn header_is_faithful(a: FrameView, b: FrameView)
    requires
        a.target.len() == TARGET_SIZE,
        b.target.len() == TARGET_SIZE,
        header_bytes(a) == header_bytes(b),
    ensures
        a.magic == b.magic,
        a.flags == b.flags,
        a.length == b.length,
        a.target == b.target,
        a.crc32 == b.crc32,
{
    let x = header_bytes(a);
    let y = header_bytes(b);
    assert(x.subrange(0, 2) =~= be16(a.magic) && y.subrange(0, 2) =~= be16(b.magic));
    assert(x.subrange(2, 4) =~= be16(a.flags) && y.subrange(2, 4) =~= be16(b.flags));
    assert(x.subrange(4, 8) =~= be32(a.length) && y.subrange(4, 8) =~= be32(b.length));
    assert(x.subrange(8, 40) =~= a.target && y.subrange(8, 40) =~= b.target);
    assert(x.subrange(40, 44) =~= be32(a.crc32) && y.subrange(40, 44) =~= be32(b.crc32));
    be16_is_faithful(a.magic, b.magic);
    be16_is_faithful(a.flags, b.flags);
    be32_is_faithful(a.length, b.length);
    be32_is_faithful(a.crc32, b.crc32);
}

proof fn be16_is_faithful(a: u16, b: u16)
    requires
        be16(a) == be16(b),
    ensures
        a == b,
{
    assert(be16(a)[0] == be16(b)[0] && be16(a)[1] == be16(b)[1]);
}

proof fn be32_is_faithful(a: u32, b: u32)
    requires
        be32(a) == be32(b),
    ensures
        a == b,
{
    assert(be32(a)[0] == be32(b)[0] && be32(a)[1] == be32(b)[1]);
    assert(be32(a)[2] == be32(b)[2] && be32(a)[3] == be32(b)[3]);
    assert(a == a / 0x100_0000 * 0x100_0000 + a / 0x1_0000 % 256 * 0x1_0000 + a / 0x100 % 256
        * 0x100 + a % 256);
    assert(b == b / 0x100_0000 * 0x100_0000 + b / 0x1_0000 % 256 * 0x1_0000 + b / 0x100 % 256
        * 0x100 + b % 256);
}

/// A header comes out 44 bytes long.
pub proof fn header_is_44_bytes(frame: FrameView)
    requires
        frame.target.len() == TARGET_SIZE,
    ensures
        header_bytes(frame).len() == HEADER_SIZE,
{
}

/// What is written as a fragment header is read back from the payload, and
/// the chunk follows it.
pub proof fn frag_header_round_trip(header: FragmentHeader, chunk: Seq<u8>)
    ensures
        frag_header_of(frag_header_bytes(header) + chunk) == Some(header),
        (frag_header_bytes(header) + chunk).skip(FRAG_HEADER_SIZE as int) == chunk,
{
    let bytes = frag_header_bytes(header) + chunk;
    assert(bytes.skip(FRAG_HEADER_SIZE as int) =~= chunk);
    let s = header.stream_id;
    assert(s == s / 0x100_0000 * 0x100_0000 + s / 0x1_0000 % 256 * 0x1_0000 + s / 0x100 % 256
        * 0x100 + s % 256);
}

} // verus!
