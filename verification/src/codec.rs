//! The byte-framing codec used to ship serialized payloads over a
//! transport: two magic bytes, a little-endian payload length, the payload,
//! and a little-endian 16-bit checksum of everything before it.
use vstd::prelude::*;

use vstd::bytes::{spec_u16_from_le_bytes, spec_u16_to_le_bytes};
use vstd::bytes::{u16_from_le_bytes, u16_to_le_bytes};
use vstd::bytes::lemma_auto_spec_u16_to_from_le_bytes;
use vstd::slice::{slice_subrange, slice_to_vec};

verus! {

/// The USB CRC-16 checksum of a byte string; a pure function of the bytes.
pub uninterp spec fn crc16_usb(data: Seq<u8>) -> u16;

/// Relies on `crc::Crc::<u16>::new(&crc::CRC_16_USB).checksum`: the USB
/// CRC-16 of the bytes, a pure function of the input bytes alone.
#[verifier::external_body]
fn crc16(data: &[u8]) -> (r: u16)
    ensures
        r == crc16_usb(data@),
{
    crc::Crc::<u16>::new(&crc::CRC_16_USB).checksum(data)
}

/// A framed packet: magic bytes, little-endian payload length, payload, and
/// the little-endian checksum of everything before it.
pub open spec fn spec_packet(payload: Seq<u8>) -> Seq<u8> {
    let body = seq![0xAAu8, 0x55u8] + spec_u16_to_le_bytes(payload.len() as u16) + payload;
    body + spec_u16_to_le_bytes(crc16_usb(body))
}

/// Frames a payload: magic, length, payload, checksum.
pub fn build_packet(payload: &[u8]) -> (r: Vec<u8>)
    requires
        payload@.len() <= u16::MAX,
    ensures
        r@ == spec_packet(payload@),
{
    proof {
        lemma_auto_spec_u16_to_from_le_bytes();
    }
    let mut packet: Vec<u8> = Vec::new();
    packet.push(0xAA);
    packet.push(0x55);
    let len = payload.len() as u16;
    let mut len_bytes = u16_to_le_bytes(len);
    packet.append(&mut len_bytes);
    let mut body = slice_to_vec(payload);
    packet.append(&mut body);
    proof {
        assert(packet@ =~= seq![0xAAu8, 0x55u8] + spec_u16_to_le_bytes(payload@.len() as u16)
            + payload@);
    }
    let crc = crc16(packet.as_slice());
    let mut crc_bytes = u16_to_le_bytes(crc);
    packet.append(&mut crc_bytes);
    proof {
        assert(packet@ =~= spec_packet(payload@));
    }
    packet
}

/// Whether a buffer frames a packet: long enough for the fixed parts, the
/// magic bytes in place, long enough for the declared payload, and the
/// stored checksum equal to the checksum of everything before it.
pub open spec fn spec_packet_ok(buf: Seq<u8>) -> bool {
    let len = spec_u16_from_le_bytes(buf.subrange(2, 4)) as int;
    &&& buf.len() >= 6
    &&& buf[0] == 0xAA
    &&& buf[1] == 0x55
    &&& buf.len() >= 4 + len + 2
    &&& spec_u16_from_le_bytes(buf.subrange(4 + len, 6 + len)) == crc16_usb(
        buf.subrange(0, buf.len() - 2),
    )
}

/// Unframes a packet: the bytes between the length field and the checksum,
/// or the empty result when the buffer does not frame a packet. A too-short
/// buffer, wrong magic, truncated payload or checksum mismatch all yield the
/// empty result, exactly.
pub fn parse_packet<'a>(buf: &'a [u8]) -> (r: Option<&'a [u8]>)
    ensures
        r is Some <==> spec_packet_ok(buf@),
        r matches Some(p) ==> p@ == buf@.subrange(4, buf@.len() - 2),
{
    if buf.len() < 6 {
        return None;
    }
    if buf[0] != 0xAA || buf[1] != 0x55 {
        return None;
    }
    let len = u16_from_le_bytes(slice_subrange(buf, 2, 4)) as usize;
    if buf.len() < 4 + len + 2 {
        return None;
    }
    let stored = u16_from_le_bytes(slice_subrange(buf, 4 + len, 6 + len));
    let computed = crc16(slice_subrange(buf, 0, buf.len() - 2));
    if stored != computed {
        return None;
    }
    Some(slice_subrange(buf, 4, buf.len() - 2))
}

/// Round trip: every packet that `build_packet` frames, `spec_packet_ok`
/// accepts, and the bytes between the header and the checksum are exactly
/// the payload.
pub proof fn lemma_packet_round_trip(payload: Seq<u8>)
    requires
        payload.len() <= u16::MAX,
    ensures
        spec_packet_ok(spec_packet(payload)),
        spec_packet(payload).subrange(4, spec_packet(payload).len() - 2) == payload,
{
    lemma_auto_spec_u16_to_from_le_bytes();
    let body = seq![0xAAu8, 0x55u8] + spec_u16_to_le_bytes(payload.len() as u16) + payload;
    let p = spec_packet(payload);
    assert(spec_u16_to_le_bytes(payload.len() as u16).len() == 2);
    assert(p.subrange(2, 4) =~= spec_u16_to_le_bytes(payload.len() as u16));
    assert(p.len() == payload.len() + 6);
    assert(p.subrange(0, p.len() - 2) =~= body);
    assert(p.subrange(4 + payload.len() as int, 6 + payload.len() as int) =~= spec_u16_to_le_bytes(
        crc16_usb(body),
    ));
    assert(p.subrange(4, p.len() - 2) =~= payload);
}

} // verus!
