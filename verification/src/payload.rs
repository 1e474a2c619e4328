//! The boundary between frames and the typed payloads that commands carry.
//!
//! The frame layer needs only a payload's bytes. What a payload type makes of
//! them is its own affair: nothing here is proved of an implementation but
//! the identity payload's. The functions that are generic over the payload
//! type are stated over whatever its `encode` and `decode` promise.

use vstd::prelude::*;
use crate::packet::MspPacket;
use crate::packet::MspPacketDirection;
use crate::packet::MspPacketParseError;

verus! {

/// A value that travels as the payload of a frame.
pub trait MspPayload: Sized {
    /// Number of bytes of the encoding.
    fn encoded_len(&self) -> usize;

    /// The bytes that stand for this value.
    fn encode(&self) -> Vec<u8>;

    /// The value that `bytes` stand for, if they stand for one.
    fn decode(bytes: &[u8]) -> Option<Self>;
}

/// The identity payload: bytes that stand for themselves.
#[derive(Debug, Clone, PartialEq)]
pub struct RawPayload(pub Vec<u8>);

impl MspPayload for RawPayload {
    fn encoded_len(&self) -> (n: usize)
        ensures
            n == self.0@.len(),
    {
        self.0.len()
    }

    fn encode(&self) -> (bytes: Vec<u8>)
        ensures
            bytes@ == self.0@,
    {
        copy_bytes(self.0.as_slice())
    }

    fn decode(bytes: &[u8]) -> (r: Option<Self>)
        ensures
            r is Some,
            r.unwrap().0@ == bytes@,
    {
        Some(RawPayload(copy_bytes(bytes)))
    }
}

/// The bytes of `bytes` in a buffer of their own.
pub fn copy_bytes(bytes: &[u8]) -> (copy: Vec<u8>)
    ensures
        copy@ == bytes@,
{
    let mut copy: Vec<u8> = Vec::with_capacity(bytes.len());
    let mut i: usize = 0;
    while i < bytes.len()
        invariant
            i <= bytes.len(),
            copy@ == bytes@.take(i as int),
        decreases bytes.len() - i,
    {
        copy.push(bytes[i]);
        proof {
            assert(bytes@.take(i as int).push(bytes@[i as int]) =~= bytes@.take(i + 1));
        }
        i += 1;
    }
    proof {
        assert(bytes@.take(bytes.len() as int) =~= bytes@);
    }
    copy
}

/// What a caller that asked for a typed payload gets, given what the
/// payload type made of the bytes: the value, or `PayloadDecode`.
pub open spec fn typed<P>(decoded: Option<P>) -> Result<P, MspPacketParseError> {
    match decoded {
        Some(value) => Ok(value),
        None => Err(MspPacketParseError::PayloadDecode),
    }
}

/// Computes `typed`.
pub fn decoded_or_error<P>(decoded: Option<P>) -> (r: Result<P, MspPacketParseError>)
    ensures
        r == typed(decoded),
{
    match decoded {
        Some(value) => Ok(value),
        None => Err(MspPacketParseError::PayloadDecode),
    }
}

impl MspPacket {
    /// The frame that carries `payload` under command `cmd`: its data is
    /// what `payload` encodes to.
    pub fn with_payload<P: MspPayload>(
        cmd: u16,
        direction: MspPacketDirection,
        payload: &P,
    ) -> (p: MspPacket)
        ensures
            p.cmd == cmd,
            p.direction == direction,
            call_ensures(P::encode, (payload,), p.data),
    {
        MspPacket { cmd, direction, data: payload.encode() }
    }

    /// The frame that carries `payload` as it is.
    pub fn with_raw_payload(cmd: u16, direction: MspPacketDirection, payload: &RawPayload) -> (p:
        MspPacket)
        ensures
            p.cmd == cmd,
            p.direction == direction,
            p.data@ == payload.0@,
    {
        MspPacket { cmd, direction, data: payload.encode() }
    }

    /// Hands this frame's data to `P` for decoding, and returns what `P`
    /// made of it: the value, or `PayloadDecode` where `P` made nothing of
    /// the bytes.
    pub fn payload<P: MspPayload>(&self) -> (r: Result<P, MspPacketParseError>)
        ensures
            exists|bytes: &[u8], decoded: Option<P>|
                {
                    &&& bytes@ == self.data@
                    &&& #[trigger] call_ensures(P::decode, (bytes,), decoded)
                    &&& r == typed(decoded)
                },
    {
        let bytes = self.data.as_slice();
        let decoded = P::decode(bytes);
        decoded_or_error(decoded)
    }

    /// This frame's data as the identity payload.
    pub fn raw_payload(&self) -> (r: RawPayload)
        ensures
            r.0@ == self.data@,
    {
        RawPayload(copy_bytes(self.data.as_slice()))
    }
}

} // verus!
