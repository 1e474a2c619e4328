use multiwii_serial_protocol::payload::decoded_or_error;
use multiwii_serial_protocol::MspPacket;
use multiwii_serial_protocol::MspPacketDirection;
use multiwii_serial_protocol::MspPacketParseError;
use multiwii_serial_protocol::MspPayload;
use multiwii_serial_protocol::RawPayload;

/// A payload of exactly two bytes, to see a decode fail.
#[derive(Debug, PartialEq)]
struct Pair(u8, u8);

impl MspPayload for Pair {
    fn encoded_len(&self) -> usize {
        2
    }

    fn encode(&self) -> Vec<u8> {
        vec![self.0, self.1]
    }

    fn decode(bytes: &[u8]) -> Option<Self> {
        if bytes.len() == 2 {
            Some(Pair(bytes[0], bytes[1]))
        } else {
            None
        }
    }
}

#[test]
fn raw_payload_is_the_identity() {
    let raw = RawPayload(vec![1, 2, 3]);
    assert_eq!(3, raw.encoded_len());
    assert_eq!(vec![1, 2, 3], raw.encode());
    assert_eq!(Some(RawPayload(vec![1, 2, 3])), RawPayload::decode(&[1, 2, 3]));
    assert_eq!(Some(RawPayload(vec![])), RawPayload::decode(&[]));
}

#[test]
fn frame_carries_payload() {
    let frame = MspPacket::with_payload(
        42,
        MspPacketDirection::FromFlightController,
        &RawPayload(vec![0x01]),
    );
    assert_eq!(
        MspPacket { cmd: 42, direction: MspPacketDirection::FromFlightController, data: vec![0x01] },
        frame
    );
    assert_eq!(Ok(RawPayload(vec![0x01])), frame.payload::<RawPayload>());
}

#[test]
fn typed_payload_decode_can_fail() {
    let frame = MspPacket::with_payload(7, MspPacketDirection::ToFlightController, &Pair(3, 4));
    assert_eq!(vec![3, 4], frame.data);
    assert_eq!(Ok(Pair(3, 4)), frame.payload::<Pair>());
    let short = MspPacket { cmd: 7, direction: MspPacketDirection::ToFlightController, data: vec![3] };
    assert_eq!(Err(MspPacketParseError::PayloadDecode), short.payload::<Pair>());
}

#[test]
fn raw_payload_in_and_out_of_a_frame() {
    let frame = MspPacket::with_raw_payload(
        9,
        MspPacketDirection::ToFlightController,
        &RawPayload(vec![5, 6]),
    );
    assert_eq!(
        MspPacket { cmd: 9, direction: MspPacketDirection::ToFlightController, data: vec![5, 6] },
        frame
    );
    assert_eq!(RawPayload(vec![5, 6]), frame.raw_payload());
}

#[test]
fn decode_outcome_maps_to_result() {
    assert_eq!(Ok(3u8), decoded_or_error(Some(3u8)));
    assert_eq!(Err(MspPacketParseError::PayloadDecode), decoded_or_error::<u8>(None));
}
