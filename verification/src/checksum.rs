//! The two checksums of MSP, computed.

use vstd::prelude::*;
use crate::wire::crc8_dvb_s2;
use crate::wire::xor_sum;

verus! {

/// XOR of all bytes of `data`, the checksum of a version 1 frame.
pub fn xor_checksum(data: &[u8]) -> (sum: u8)
    ensures
        sum == xor_sum(data@),
{
    let mut sum: u8 = 0;
    let mut i: usize = 0;
    while i < data.len()
        invariant
            i <= data.len(),
            sum == xor_sum(data@.take(i as int)),
        decreases data.len() - i,
    {
        proof {
            assert(data@.take(i + 1).drop_last() =~= data@.take(i as int));
        }
        sum = sum ^ data[i];
        i += 1;
    }
    proof {
        assert(data@.take(data.len() as int) =~= data@);
    }
    sum
}

/// Runs `crc_any`'s CRC-8/DVB-S2 engine over `data`: `CRCu8::crc8dvb_s2` makes
/// the engine, `digest` feeds it, `get_crc` reads the sum. Trusted: that the
/// engine computes the CRC with polynomial 0xD5, initial value 0, no
/// reflection and no final XOR, as the crate documents of it.
#[verifier::external_body]
pub(crate) fn dvb_s2_checksum(data: &[u8]) -> (sum: u8)
    ensures
        sum == crc8_dvb_s2(data@),
{
    let mut engine = crc_any::CRCu8::crc8dvb_s2();
    engine.digest(data);
    engine.get_crc()
}

} // verus!
