//! The byte-fed frame parser.

use vstd::prelude::*;
use crate::checksum::dvb_s2_checksum;
use crate::checksum::xor_checksum;
use crate::packet::MspPacket;
use crate::packet::MspPacketDirection;
use crate::packet::MspPacketParseError;
use crate::packet::MspVersion;
use crate::wire::MARK_V1;
use crate::wire::MARK_V2;
use crate::wire::MspPacketView;
use crate::wire::PREAMBLE;
use crate::wire::accept;
use crate::wire::decoded;
use crate::wire::direction_byte;
use crate::wire::in_frame;
use crate::wire::le16;
use crate::wire::version_byte;

verus! {

#[derive(Copy, Clone, Debug, PartialEq, Eq, Structural)]
enum MspParserState {
    Header1,
    Header2,
    Direction,
    LenV1,
    CmdV1,
    DataV1,
    FlagV2,
    CmdV2Lo,
    CmdV2Hi,
    LenV2Lo,
    LenV2Hi,
    DataV2,
    Crc,
}

/// Finds frames in a raw byte stream, one byte at a time. It holds at most
/// one frame's worth of bytes.
#[derive(Debug)]
pub struct MspParser {
    state: MspParserState,
    packet_version: MspVersion,
    packet_direction: MspPacketDirection,
    packet_cmd: u16,
    packet_data_length_remaining: usize,
    /// Every byte that came after the direction byte.
    packet_body: Vec<u8>,
}

/// What `parse` returned, with the frame as a mathematical value.
pub open spec fn result_view(r: Result<Option<MspPacket>, MspPacketParseError>) -> Result<
    Option<MspPacketView>,
    MspPacketParseError,
> {
    match r {
        Ok(None) => Ok(None),
        Ok(Some(p)) => Ok(Some(p@)),
        Err(e) => Err(e),
    }
}

impl View for MspParser {
    type V = Seq<u8>;

    /// The bytes accepted since the last frame boundary.
    closed spec fn view(&self) -> Seq<u8> {
        match self.state {
            MspParserState::Header1 => Seq::empty(),
            MspParserState::Header2 => seq![PREAMBLE],
            MspParserState::Direction => seq![PREAMBLE, version_byte(self.packet_version)],
            _ => seq![
                PREAMBLE,
                version_byte(self.packet_version),
                direction_byte(self.packet_direction),
            ] + self.packet_body@,
        }
    }
}

impl MspParser {
    /// The fields agree with one another about how far the frame in progress
    /// has come.
    pub closed spec fn wf(&self) -> bool {
        let body = self.packet_body@;
        let v1 = self.packet_version == MspVersion::V1;
        let cmd = self.packet_cmd as int;
        let remaining = self.packet_data_length_remaining as int;
        match self.state {
            MspParserState::Header1 | MspParserState::Header2 | MspParserState::Direction => {
                body.len() == 0
            },
            MspParserState::LenV1 => v1 && body.len() == 0,
            MspParserState::CmdV1 => v1 && body.len() == 1 && remaining == body[0],
            MspParserState::DataV1 => {
                &&& v1
                &&& body.len() >= 2
                &&& cmd == body[1]
                &&& remaining > 0
                &&& body.len() + remaining == 2 + body[0]
            },
            MspParserState::FlagV2 => !v1 && body.len() == 0,
            MspParserState::CmdV2Lo => !v1 && body.len() == 1,
            MspParserState::CmdV2Hi => !v1 && body.len() == 2 && cmd == body[1],
            MspParserState::LenV2Lo => !v1 && body.len() == 3 && cmd == le16(body[1], body[2]),
            MspParserState::LenV2Hi => {
                &&& !v1
                &&& body.len() == 4
                &&& cmd == le16(body[1], body[2])
                &&& remaining == body[3]
            },
            MspParserState::DataV2 => {
                &&& !v1
                &&& body.len() >= 5
                &&& cmd == le16(body[1], body[2])
                &&& remaining > 0
                &&& body.len() + remaining == 5 + le16(body[3], body[4])
            },
            MspParserState::Crc => if v1 {
                body.len() >= 2 && cmd == body[1] && body.len() == 2 + body[0]
            } else {
                &&& body.len() >= 5
                &&& cmd == le16(body[1], body[2])
                &&& body.len() == 5 + le16(body[3], body[4])
            },
        }
    }

    /// A parser that waits for the start of a frame.
    pub fn new() -> (p: MspParser)
        ensures
            p.wf(),
            p@ == Seq::<u8>::empty(),
    {
        MspParser {
            state: MspParserState::Header1,
            packet_version: MspVersion::V1,
            packet_direction: MspPacketDirection::ToFlightController,
            packet_cmd: 0,
            packet_data_length_remaining: 0,
            packet_body: Vec::new(),
        }
    }

    /// Is the parser at a frame boundary, waiting for the preamble of a new
    /// frame?
    pub fn state_is_between_packets(&self) -> (b: bool)
        ensures
            b == (self@.len() == 0),
    {
        match self.state {
            MspParserState::Header1 => true,
            _ => false,
        }
    }

    /// Forgets the frame in progress, whatever state the parser is in.
    pub fn reset(&mut self)
        ensures
            final(self).wf(),
            final(self)@ == Seq::<u8>::empty(),
    {
        self.state = MspParserState::Header1;
        self.packet_direction = MspPacketDirection::ToFlightController;
        self.packet_data_length_remaining = 0;
        self.packet_cmd = 0;
        self.packet_body.clear();
    }

    /// Whatever a well-formed parser holds is the start of a frame.
    pub proof fn lemma_holds_frame_start(&self)
        requires
            self.wf(),
        ensures
            in_frame(self@),
    {
    }

    /// Takes the next byte of the stream. Returns a frame when `input`
    /// completes one with a matching checksum, an error when `input` cannot
    /// continue the frame in progress, and nothing otherwise; after a frame
    /// or an error the parser is at a frame boundary again.
    pub fn parse(&mut self, input: u8) -> (r: Result<Option<MspPacket>, MspPacketParseError>)
        requires
            old(self).wf(),
        ensures
            final(self).wf(),
            (final(self)@, result_view(r)) == accept(old(self)@, input),
    {
        let ghost partial = self@;
        match self.state {
            MspParserState::Header1 => {
                if input == PREAMBLE {
                    self.state = MspParserState::Header2;
                    proof {
                        assert(self@ =~= partial.push(input));
                    }
                } else {
                    self.reset();
                }
            },
            MspParserState::Header2 => {
                if input == MARK_V1 {
                    self.packet_version = MspVersion::V1;
                } else if input == MARK_V2 {
                    self.packet_version = MspVersion::V2;
                } else {
                    self.reset();
                    return Err(MspPacketParseError::InvalidHeader2);
                }
                self.state = MspParserState::Direction;
                proof {
                    assert(self@ =~= partial.push(input));
                }
            },
            MspParserState::Direction => {
                if input == 0x3C {
                    self.packet_direction = MspPacketDirection::ToFlightController;
                } else if input == 0x3E {
                    self.packet_direction = MspPacketDirection::FromFlightController;
                } else if input == 0x21 {
                    self.packet_direction = MspPacketDirection::Unsupported;
                } else {
                    self.reset();
                    return Err(MspPacketParseError::InvalidDirection);
                }
                self.state = match self.packet_version {
                    MspVersion::V1 => MspParserState::LenV1,
                    MspVersion::V2 => MspParserState::FlagV2,
                };
                proof {
                    assert(self@ =~= partial.push(input));
                }
            },
            MspParserState::LenV1 => {
                self.packet_data_length_remaining = input as usize;
                self.packet_body.push(input);
                self.state = MspParserState::CmdV1;
                proof {
                    assert(self@ =~= partial.push(input));
                }
            },
            MspParserState::CmdV1 => {
                self.packet_cmd = input as u16;
                self.packet_body.push(input);
                if self.packet_data_length_remaining == 0 {
                    self.state = MspParserState::Crc;
                } else {
                    self.state = MspParserState::DataV1;
                }
                proof {
                    assert(self@ =~= partial.push(input));
                }
            },
            MspParserState::DataV1 | MspParserState::DataV2 => {
                self.packet_body.push(input);
                self.packet_data_length_remaining -= 1;
                if self.packet_data_length_remaining == 0 {
                    self.state = MspParserState::Crc;
                }
                proof {
                    assert(self@ =~= partial.push(input));
                }
            },
            MspParserState::FlagV2 => {
                self.packet_body.push(input);
                self.state = MspParserState::CmdV2Lo;
                proof {
                    assert(self@ =~= partial.push(input));
                }
            },
            MspParserState::CmdV2Lo => {
                self.packet_cmd = input as u16;
                self.packet_body.push(input);
                self.state = MspParserState::CmdV2Hi;
                proof {
                    assert(self@ =~= partial.push(input));
                }
            },
            MspParserState::CmdV2Hi => {
                self.packet_cmd = self.packet_cmd + 256 * (input as u16);
                self.packet_body.push(input);
                self.state = MspParserState::LenV2Lo;
                proof {
                    assert(self@ =~= partial.push(input));
                }
            },
            MspParserState::LenV2Lo => {
                self.packet_data_length_remaining = input as usize;
                self.packet_body.push(input);
                self.state = MspParserState::LenV2Hi;
                proof {
                    assert(self@ =~= partial.push(input));
                }
            },
            MspParserState::LenV2Hi => {
                self.packet_data_length_remaining = self.packet_data_length_remaining + 256 * (
                input as usize);
                self.packet_body.push(input);
                if self.packet_data_length_remaining == 0 {
                    self.state = MspParserState::Crc;
                } else {
                    self.state = MspParserState::DataV2;
                }
                proof {
                    assert(self@ =~= partial.push(input));
                }
            },
            MspParserState::Crc => {
                proof {
                    assert(partial.subrange(3, partial.len() as int) =~= self.packet_body@);
                }
                let calculated: u8 = match self.packet_version {
                    MspVersion::V1 => xor_checksum(self.packet_body.as_slice()),
                    MspVersion::V2 => dvb_s2_checksum(self.packet_body.as_slice()),
                };
                if input != calculated {
                    self.reset();
                    return Err(
                        MspPacketParseError::CrcMismatch { expected: input, calculated },
                    );
                }
                let header: usize = match self.packet_version {
                    MspVersion::V1 => 2,
                    MspVersion::V2 => 5,
                };
                let data = self.packet_body.split_off(header);
                let packet = MspPacket {
                    cmd: self.packet_cmd,
                    direction: self.packet_direction,
                    data,
                };
                proof {
                    assert(packet@.data =~= decoded(partial).data);
                }
                self.reset();
                return Ok(Some(packet));
            },
        }
        Ok(None)
    }
}

impl Default for MspParser {
    fn default() -> (p: MspParser)
        ensures
            p.wf(),
            p@ == Seq::<u8>::empty(),
    {
        MspParser::new()
    }
}

} // verus!
