//! Frames, their directions and errors, and the serializer.

use vstd::prelude::*;
use crate::checksum::dvb_s2_checksum;
use crate::checksum::xor_checksum;
use crate::wire::MARK_V1;
use crate::wire::MARK_V2;
use crate::wire::MspPacketView;
use crate::wire::PREAMBLE;
use crate::wire::covered_v1;
use crate::wire::covered_v2;
use crate::wire::direction_byte;
use crate::wire::wire_v1;
use crate::wire::wire_v2;

verus! {

/// Why a frame could not be parsed, written or answered.
#[derive(Copy, Clone, Debug, PartialEq, Eq, Structural)]
pub enum MspPacketParseError {
    /// The output buffer does not have exactly the frame's size.
    OutputBufferSizeMismatch,
    /// The frame's last byte, `expected`, is not the checksum of what came
    /// before it, `calculated`.
    CrcMismatch { expected: u8, calculated: u8 },
    /// The payload is not what the command calls for. The frame layer never
    /// reports this: it takes any payload.
    InvalidData,
    /// A byte at a frame boundary is not the preamble. The parser never
    /// reports this: it drops such bytes in silence.
    InvalidHeader1,
    /// The byte after the preamble names no protocol version.
    InvalidHeader2,
    /// The third byte names no direction.
    InvalidDirection,
    /// The length field is not what the command calls for. The frame layer
    /// never reports this: it takes any length.
    InvalidDataLength,
    /// A version 1 frame cannot hold this payload or this command.
    PayloadTooLarge,
    /// No response came before the request's deadline.
    TimedOut,
    /// The dispatcher shut down while the request was waiting.
    Cancelled,
    /// Reading from or writing to the transport failed.
    Transport,
    /// A payload's bytes do not spell a value of the type asked for.
    PayloadDecode,
}

/// Where a frame is headed.
#[derive(Copy, Clone, Debug, PartialEq, Eq, Structural)]
pub enum MspPacketDirection {
    /// Wire byte `'<'`
    ToFlightController,
    /// Wire byte `'>'`
    FromFlightController,
    /// Wire byte `'!'`
    Unsupported,
}

/// Revision of the wire format.
#[derive(Copy, Clone, Debug, PartialEq, Eq, Structural)]
pub enum MspVersion {
    /// 8-bit command, 8-bit length, XOR checksum; marked `'M'`.
    V1,
    /// 16-bit command, 16-bit length, CRC-8/DVB-S2; marked `'X'`.
    V2,
}

impl MspPacketDirection {
    /// The byte that stands for this direction on the wire.
    pub fn to_byte(&self) -> (b: u8)
        ensures
            b == direction_byte(*self),
    {
        match *self {
            MspPacketDirection::ToFlightController => 0x3C,
            MspPacketDirection::FromFlightController => 0x3E,
            MspPacketDirection::Unsupported => 0x21,
        }
    }
}

/// A decoded MSP frame: command code, direction and payload.
#[derive(Debug, Clone, PartialEq)]
pub struct MspPacket {
    pub cmd: u16,
    pub direction: MspPacketDirection,
    pub data: Vec<u8>,
}

impl View for MspPacket {
    type V = MspPacketView;

    open spec fn view(&self) -> MspPacketView {
        MspPacketView { cmd: self.cmd, direction: self.direction, data: self.data@ }
    }
}

impl MspPacket {
    /// Number of bytes of this frame on the wire, version 1.
    pub fn packet_size_bytes(&self) -> (n: usize)
        requires
            self.data.len() + 6 <= usize::MAX,
        ensures
            n == 6 + self.data.len(),
    {
        6 + self.data.len()
    }

    /// Number of bytes of this frame on the wire, version 2.
    pub fn packet_size_bytes_v2(&self) -> (n: usize)
        requires
            self.data.len() + 9 <= usize::MAX,
        ensures
            n == 9 + self.data.len(),
    {
        9 + self.data.len()
    }

    /// Writes this frame into `output` as version 1. A frame that version 1
    /// cannot hold is refused first, then a buffer of the wrong size; on
    /// either error `output` is left as it was.
    pub fn serialize(&self, output: &mut [u8]) -> (r: Result<(), MspPacketParseError>)
        ensures
            self.data.len() > 255 || self.cmd > 255 ==> r == Err::<(), _>(
                MspPacketParseError::PayloadTooLarge,
            ),
            self.data.len() <= 255 && self.cmd <= 255 && old(output)@.len() != self.data.len() + 6
                ==> r == Err::<(), _>(MspPacketParseError::OutputBufferSizeMismatch),
            self.data.len() <= 255 && self.cmd <= 255 && old(output)@.len() == self.data.len() + 6
                ==> r is Ok,
            r is Ok ==> final(output)@ == wire_v1(self@),
            r is Err ==> final(output)@ == old(output)@,
    {
        let n: usize = self.data.len();
        if n > 255 || self.cmd > 255 {
            return Err(MspPacketParseError::PayloadTooLarge);
        }
        let l: usize = output.len();
        if l != n + 6 {
            return Err(MspPacketParseError::OutputBufferSizeMismatch);
        }
        output[0] = PREAMBLE;
        output[1] = MARK_V1;
        output[2] = self.direction.to_byte();
        output[3] = n as u8;
        output[4] = self.cmd as u8;
        let mut i: usize = 0;
        while i < n
            invariant
                n == self.data.len(),
                n <= 255,
                output@.len() == n + 6,
                i <= n,
                forall|k: int| 0 <= k < 5 + i ==> output@[k] == wire_v1(self@)[k],
            decreases n - i,
        {
            output[5 + i] = self.data[i];
            i += 1;
        }
        proof {
            assert(output@.subrange(3, l - 1) =~= covered_v1(self@));
        }
        let sum: u8 = xor_checksum(vstd::slice::slice_subrange(output, 3, l - 1));
        output[l - 1] = sum;
        proof {
            assert(output@ =~= wire_v1(self@));
        }
        Ok(())
    }

    /// Writes this frame into `output` as version 2, with a zero flag byte. A
    /// buffer of the wrong size is refused and left as it was.
    pub fn serialize_v2(&self, output: &mut [u8]) -> (r: Result<(), MspPacketParseError>)
        ensures
            old(output)@.len() != self.data.len() + 9 ==> r == Err::<(), _>(
                MspPacketParseError::OutputBufferSizeMismatch,
            ),
            old(output)@.len() == self.data.len() + 9 ==> r is Ok,
            r is Ok ==> final(output)@ == wire_v2(self@),
            r is Err ==> final(output)@ == old(output)@,
    {
        let n: usize = self.data.len();
        let l: usize = output.len();
        if l < 9 || l - 9 != n {
            return Err(MspPacketParseError::OutputBufferSizeMismatch);
        }
        output[0] = PREAMBLE;
        output[1] = MARK_V2;
        output[2] = self.direction.to_byte();
        output[3] = 0;
        output[4] = (self.cmd % 256) as u8;
        output[5] = (self.cmd / 256) as u8;
        output[6] = (n % 256) as u8;
        output[7] = ((n / 256) % 256) as u8;
        let mut i: usize = 0;
        while i < n
            invariant
                n == self.data.len(),
                output@.len() == n + 9,
                l == n + 9,
                i <= n,
                forall|k: int| 0 <= k < 8 + i ==> output@[k] == wire_v2(self@)[k],
            decreases n - i,
        {
            output[8 + i] = self.data[i];
            i += 1;
        }
        proof {
            assert(output@.subrange(3, l - 1) =~= covered_v2(self@));
        }
        let sum: u8 = dvb_s2_checksum(vstd::slice::slice_subrange(output, 3, l - 1));
        output[l - 1] = sum;
        proof {
            assert(output@ =~= wire_v2(self@));
        }
        Ok(())
    }
}

/// The bytes of `p` in version `v`, or why it has none.
pub open spec fn encoded(p: MspPacketView, v: MspVersion) -> Result<
    Seq<u8>,
    MspPacketParseError,
> {
    match v {
        MspVersion::V1 => if p.data.len() > 255 || p.cmd > 255 {
            Err(MspPacketParseError::PayloadTooLarge)
        } else {
            Ok(wire_v1(p))
        },
        MspVersion::V2 => Ok(wire_v2(p)),
    }
}

/// Serializes `message` in version `version` into a buffer of its own.
pub fn encode(message: &MspPacket, version: MspVersion) -> (r: Result<
    Vec<u8>,
    MspPacketParseError,
>)
    requires
        message.data.len() + 9 <= usize::MAX,
    ensures
        match r {
            Ok(bytes) => encoded(message@, version) == Ok::<Seq<u8>, MspPacketParseError>(
                bytes@,
            ),
            Err(e) => encoded(message@, version) == Err::<Seq<u8>, MspPacketParseError>(e),
        },
{
    let size: usize = match version {
        MspVersion::V1 => {
            if message.data.len() > 255 || message.cmd > 255 {
                return Err(MspPacketParseError::PayloadTooLarge);
            }
            message.packet_size_bytes()
        },
        MspVersion::V2 => message.packet_size_bytes_v2(),
    };
    let mut buffer: Vec<u8> = vec![0u8; size];
    let written = match version {
        MspVersion::V1 => message.serialize(buffer.as_mut_slice()),
        MspVersion::V2 => message.serialize_v2(buffer.as_mut_slice()),
    };
    match written {
        Ok(()) => Ok(buffer),
        Err(e) => Err(e),
    }
}

} // verus!
