//! The MSP wire format as mathematics: what the bytes of a frame are, and
//! what a receiver makes of one more byte.

use vstd::prelude::*;
use crate::packet::MspPacketDirection;
use crate::packet::MspPacketParseError;
use crate::packet::MspVersion;

verus! {

/// First byte of every frame, `'$'`.
pub const PREAMBLE: u8 = 0x24;

/// Second byte of a version 1 frame, `'M'`.
pub const MARK_V1: u8 = 0x4D;

/// Second byte of a version 2 frame, `'X'`.
pub const MARK_V2: u8 = 0x58;

/// A frame as a mathematical value.
pub struct MspPacketView {
    pub cmd: u16,
    pub direction: MspPacketDirection,
    pub data: Seq<u8>,
}

/// XOR of all bytes of `s`; 0 for the empty sequence.
pub open spec fn xor_sum(s: Seq<u8>) -> u8
    decreases s.len(),
{
    if s.len() == 0 {
        0
    } else {
        xor_sum(s.drop_last()) ^ s.last()
    }
}

/// One bit of CRC-8 division by the polynomial 0xD5, most significant bit
/// first: shift left, and subtract the polynomial when a one fell out.
pub open spec fn crc8_dvb_s2_bit(v: u8) -> u8 {
    let doubled = ((2 * (v as int)) % 256) as u8;
    if v >= 0x80 {
        doubled ^ 0xD5
    } else {
        doubled
    }
}

/// `n` bits of division, one after another.
pub open spec fn crc8_dvb_s2_bits(v: u8, n: nat) -> u8
    decreases n,
{
    if n == 0 {
        v
    } else {
        crc8_dvb_s2_bit(crc8_dvb_s2_bits(v, (n - 1) as nat))
    }
}

/// CRC-8/DVB-S2 of `s`: polynomial 0xD5, initial value 0, no reflection, no
/// final XOR.
pub open spec fn crc8_dvb_s2(s: Seq<u8>) -> u8
    decreases s.len(),
{
    if s.len() == 0 {
        0
    } else {
        crc8_dvb_s2_bits(crc8_dvb_s2(s.drop_last()) ^ s.last(), 8)
    }
}

/// The byte that stands for a direction on the wire.
pub open spec fn direction_byte(d: MspPacketDirection) -> u8 {
    match d {
        MspPacketDirection::ToFlightController => 0x3C,
        MspPacketDirection::FromFlightController => 0x3E,
        MspPacketDirection::Unsupported => 0x21,
    }
}

/// The direction that a wire byte stands for, if any.
pub open spec fn direction_of_byte(b: u8) -> Option<MspPacketDirection> {
    if b == 0x3C {
        Some(MspPacketDirection::ToFlightController)
    } else if b == 0x3E {
        Some(MspPacketDirection::FromFlightController)
    } else if b == 0x21 {
        Some(MspPacketDirection::Unsupported)
    } else {
        None
    }
}

/// The byte that marks a version on the wire.
pub open spec fn version_byte(v: MspVersion) -> u8 {
    match v {
        MspVersion::V1 => MARK_V1,
        MspVersion::V2 => MARK_V2,
    }
}

/// Low byte of a 16-bit value.
pub open spec fn low_byte(x: int) -> u8 {
    (x % 256) as u8
}

/// Second byte of a 16-bit value.
pub open spec fn high_byte(x: int) -> u8 {
    ((x / 256) % 256) as u8
}

/// The 16-bit value whose little-endian bytes are `lo`, `hi`.
pub open spec fn le16(lo: u8, hi: u8) -> int {
    lo as int + 256 * (hi as int)
}

/// What a version 1 checksum covers: length byte, command byte, payload.
pub open spec fn covered_v1(p: MspPacketView) -> Seq<u8> {
    seq![low_byte(p.data.len() as int), low_byte(p.cmd as int)] + p.data
}

/// What a version 2 checksum covers: flag (zero), command and length, both
/// little-endian, payload.
pub open spec fn covered_v2(p: MspPacketView) -> Seq<u8> {
    seq![
        0u8,
        low_byte(p.cmd as int),
        high_byte(p.cmd as int),
        low_byte(p.data.len() as int),
        high_byte(p.data.len() as int),
    ] + p.data
}

/// The bytes of `p` as a version 1 frame. It stands for `p` only where the
/// payload has at most 255 bytes and the command is at most 255.
pub open spec fn wire_v1(p: MspPacketView) -> Seq<u8> {
    seq![PREAMBLE, MARK_V1, direction_byte(p.direction)] + covered_v1(p) + seq![
        xor_sum(covered_v1(p)),
    ]
}

/// The bytes of `p` as a version 2 frame. The length field holds the low 16
/// bits of the payload's length.
pub open spec fn wire_v2(p: MspPacketView) -> Seq<u8> {
    seq![PREAMBLE, MARK_V2, direction_byte(p.direction)] + covered_v2(p) + seq![
        crc8_dvb_s2(covered_v2(p)),
    ]
}

/// Number of bytes between the direction byte and the payload.
pub open spec fn header_len(mark: u8) -> int {
    if mark == MARK_V1 {
        2
    } else {
        5
    }
}

/// `s` is the start of a frame up to, but not including, its checksum byte:
/// the length field has come, and all the payload it announces.
pub open spec fn awaits_checksum(s: Seq<u8>) -> bool {
    if s.len() < 3 {
        false
    } else if s[1] == MARK_V1 {
        s.len() >= 5 && s.len() == 5 + s[3] as int
    } else {
        s.len() >= 8 && s.len() == 8 + le16(s[6], s[7])
    }
}

/// `s` is what a receiver may hold of a frame in progress: the bytes it
/// accepted since the last frame boundary.
pub open spec fn in_frame(s: Seq<u8>) -> bool {
    &&& s.len() >= 1 ==> s[0] == PREAMBLE
    &&& s.len() >= 2 ==> (s[1] == MARK_V1 || s[1] == MARK_V2)
    &&& s.len() >= 3 ==> direction_of_byte(s[2]) is Some
    &&& s.len() >= 5 && s[1] == MARK_V1 ==> s.len() <= 5 + s[3] as int
    &&& s.len() >= 8 && s[1] == MARK_V2 ==> s.len() <= 8 + le16(s[6], s[7])
}

/// The checksum that the frame starting with `s` must end in, where
/// `awaits_checksum(s)`.
pub open spec fn checksum(s: Seq<u8>) -> u8 {
    let covered = s.subrange(3, s.len() as int);
    if s[1] == MARK_V1 {
        xor_sum(covered)
    } else {
        crc8_dvb_s2(covered)
    }
}

/// The frame that `s` holds, where `awaits_checksum(s)`.
pub open spec fn decoded(s: Seq<u8>) -> MspPacketView {
    MspPacketView {
        cmd: if s[1] == MARK_V1 {
            s[4] as u16
        } else {
            le16(s[4], s[5]) as u16
        },
        direction: direction_of_byte(s[2]).unwrap(),
        data: s.subrange(3 + header_len(s[1]), s.len() as int),
    }
}

/// What a receiver that holds `partial` makes of the byte `b`: the bytes it
/// holds afterwards, and what it reports. Junk before a preamble is dropped
/// in silence; every other byte that cannot continue a frame is an error,
/// after which nothing is held.
pub open spec fn accept(partial: Seq<u8>, b: u8) -> (
    Seq<u8>,
    Result<Option<MspPacketView>, MspPacketParseError>,
) {
    if partial.len() == 0 {
        if b == PREAMBLE {
            (partial.push(b), Ok(None))
        } else {
            (Seq::empty(), Ok(None))
        }
    } else if partial.len() == 1 {
        if b == MARK_V1 || b == MARK_V2 {
            (partial.push(b), Ok(None))
        } else {
            (Seq::empty(), Err(MspPacketParseError::InvalidHeader2))
        }
    } else if partial.len() == 2 {
        if direction_of_byte(b) is Some {
            (partial.push(b), Ok(None))
        } else {
            (Seq::empty(), Err(MspPacketParseError::InvalidDirection))
        }
    } else if !awaits_checksum(partial) {
        (partial.push(b), Ok(None))
    } else if b == checksum(partial) {
        (Seq::empty(), Ok(Some(decoded(partial))))
    } else {
        (
            Seq::empty(),
            Err(MspPacketParseError::CrcMismatch { expected: b, calculated: checksum(partial) }),
        )
    }
}

/// What a receiver reports on one byte.
pub type Report = Result<Option<MspPacketView>, MspPacketParseError>;

/// What a receiver that holds `partial` holds after the bytes of `input`,
/// taken one by one.
pub open spec fn held_after(partial: Seq<u8>, input: Seq<u8>) -> Seq<u8>
    decreases input.len(),
{
    if input.len() == 0 {
        partial
    } else {
        accept(held_after(partial, input.drop_last()), input.last()).0
    }
}

/// What a receiver that holds `partial` reports on each byte of `input`.
pub open spec fn reports(partial: Seq<u8>, input: Seq<u8>) -> Seq<Report>
    decreases input.len(),
{
    if input.len() == 0 {
        Seq::empty()
    } else {
        reports(partial, input.drop_last()).push(
            accept(held_after(partial, input.drop_last()), input.last()).1,
        )
    }
}

/// `n` reports of nothing.
pub open spec fn silence(n: nat) -> Seq<Report> {
    Seq::new(n, |i: int| Ok(None))
}

} // verus!
