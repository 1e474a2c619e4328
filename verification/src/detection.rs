//! What the checksums catch: a frame of which one byte was changed on the
//! way, in the command, the flag, the payload or the checksum itself, is
//! never taken for a frame.
//!
//! The direction byte is covered by neither checksum, and a changed length
//! moves the place where the checksum is looked for: of those bytes nothing
//! of the kind holds.

use vstd::prelude::*;
use crate::packet::MspPacketParseError;
use crate::wire::MARK_V1;
use crate::wire::MARK_V2;
use crate::wire::MspPacketView;
use crate::wire::PREAMBLE;
use crate::wire::Report;
use crate::wire::awaits_checksum;
use crate::wire::checksum;
use crate::wire::covered_v1;
use crate::wire::covered_v2;
use crate::wire::crc8_dvb_s2;
use crate::wire::crc8_dvb_s2_bit;
use crate::wire::crc8_dvb_s2_bits;
use crate::wire::direction_of_byte;
use crate::wire::held_after;
use crate::wire::le16;
use crate::wire::reports;
use crate::wire::silence;
use crate::wire::wire_v1;
use crate::wire::wire_v2;
use crate::wire::xor_sum;
use crate::wire_lemmas::lemma_frame_start_is_held;
use crate::wire_lemmas::lemma_wire_v1_shape;
use crate::wire_lemmas::lemma_wire_v2_shape;

verus! {

/// `s` and `t` are equal but for the byte at `i`.
pub open spec fn differ_at(s: Seq<u8>, t: Seq<u8>, i: int) -> bool {
    &&& s.len() == t.len()
    &&& 0 <= i < s.len()
    &&& s[i] != t[i]
    &&& forall|j: int| 0 <= j < s.len() && j != i ==> s[j] == t[j]
}

proof fn lemma_xor_is_injective(a: u8, b: u8, c: u8)
    ensures
        a ^ c == b ^ c ==> a == b,
        c ^ a == c ^ b ==> a == b,
{
    assert(a ^ c == b ^ c ==> a == b) by (bit_vector);
    assert(c ^ a == c ^ b ==> a == b) by (bit_vector);
}

/// One bit of division loses nothing: the bit that fell out shows in the
/// lowest bit of what is left.
proof fn lemma_crc_bit_is_injective(a: u8, b: u8)
    requires
        crc8_dvb_s2_bit(a) == crc8_dvb_s2_bit(b),
    ensures
        a == b,
{
    let da = ((2 * (a as int)) % 256) as u8;
    let db = ((2 * (b as int)) % 256) as u8;
    assert(da % 2 == 0);
    assert(db % 2 == 0);
    assert(da % 2 == 0 ==> (da ^ 0xD5) % 2 == 1) by (bit_vector);
    assert(db % 2 == 0 ==> (db ^ 0xD5) % 2 == 1) by (bit_vector);
    assert(da ^ 0xD5 == db ^ 0xD5 ==> da == db) by (bit_vector);
}

proof fn lemma_crc_bits_are_injective(a: u8, b: u8, n: nat)
    requires
        crc8_dvb_s2_bits(a, n) == crc8_dvb_s2_bits(b, n),
    ensures
        a == b,
    decreases n,
{
    if n > 0 {
        lemma_crc_bit_is_injective(
            crc8_dvb_s2_bits(a, (n - 1) as nat),
            crc8_dvb_s2_bits(b, (n - 1) as nat),
        );
        lemma_crc_bits_are_injective(a, b, (n - 1) as nat);
    }
}

/// Two byte sequences that differ in one byte have different XOR sums.
pub proof fn lemma_xor_sum_tells_one_byte(s: Seq<u8>, t: Seq<u8>, i: int)
    requires
        differ_at(s, t, i),
    ensures
        xor_sum(s) != xor_sum(t),
    decreases s.len(),
{
    let sp = s.drop_last();
    let tp = t.drop_last();
    if i == s.len() - 1 {
        assert(sp =~= tp);
        lemma_xor_is_injective(s.last(), t.last(), xor_sum(sp));
    } else {
        assert(differ_at(sp, tp, i));
        lemma_xor_sum_tells_one_byte(sp, tp, i);
        lemma_xor_is_injective(xor_sum(sp), xor_sum(tp), s.last());
    }
}

/// Two byte sequences that differ in one byte have different CRC-8/DVB-S2
/// sums.
pub proof fn lemma_crc_tells_one_byte(s: Seq<u8>, t: Seq<u8>, i: int)
    requires
        differ_at(s, t, i),
    ensures
        crc8_dvb_s2(s) != crc8_dvb_s2(t),
    decreases s.len(),
{
    let sp = s.drop_last();
    let tp = t.drop_last();
    if i == s.len() - 1 {
        assert(sp =~= tp);
        lemma_xor_is_injective(s.last(), t.last(), crc8_dvb_s2(sp));
    } else {
        assert(differ_at(sp, tp, i));
        lemma_crc_tells_one_byte(sp, tp, i);
        lemma_xor_is_injective(crc8_dvb_s2(sp), crc8_dvb_s2(tp), s.last());
    }
    if crc8_dvb_s2(s) == crc8_dvb_s2(t) {
        lemma_crc_bits_are_injective(
            crc8_dvb_s2(sp) ^ s.last(),
            crc8_dvb_s2(tp) ^ t.last(),
            8,
        );
    }
}

/// What a receiver reports on a frame whose checksum does not fit: nothing
/// up to the last byte, then the mismatch.
pub open spec fn refusal(w: Seq<u8>) -> Seq<Report> {
    silence((w.len() - 1) as nat).push(
        Err(
            MspPacketParseError::CrcMismatch {
                expected: w.last(),
                calculated: checksum(w.drop_last()),
            },
        ),
    )
}

/// A well-shaped frame whose last byte is not its checksum is refused on
/// that byte.
proof fn lemma_wrong_checksum_is_refused(w: Seq<u8>)
    requires
        w.len() >= 6,
        w[0] == PREAMBLE,
        direction_of_byte(w[2]) is Some,
        w[1] == MARK_V1 && w.len() == 6 + w[3] || w[1] == MARK_V2 && w.len() >= 9 && w.len() == 9
            + le16(w[6], w[7]),
        w.last() != checksum(w.drop_last()),
    ensures
        held_after(Seq::<u8>::empty(), w) == Seq::<u8>::empty(),
        reports(Seq::<u8>::empty(), w) == refusal(w),
{
    lemma_frame_start_is_held(w, w.len() - 1);
    assert(w.take(w.len() - 1) =~= w.drop_last());
    let held = w.drop_last();
    assert(held[1] == w[1]);
    assert(held[3] == w[3]);
    if w[1] == MARK_V2 {
        assert(held[6] == w[6]);
        assert(held[7] == w[7]);
    }
    assert(awaits_checksum(held));
}

/// A version 1 frame of which one byte was changed, in the command, the
/// payload or the checksum, is refused with `CrcMismatch` on its last byte:
/// the receiver reports no frame and ends at a frame boundary. A flipped bit
/// is such a change.
pub proof fn lemma_changed_byte_is_caught_v1(p: MspPacketView, i: int, x: u8)
    requires
        p.data.len() <= 255,
        p.cmd <= 255,
        4 <= i < wire_v1(p).len(),
        x != wire_v1(p)[i],
    ensures
        held_after(Seq::<u8>::empty(), wire_v1(p).update(i, x)) == Seq::<u8>::empty(),
        reports(Seq::<u8>::empty(), wire_v1(p).update(i, x)) == refusal(wire_v1(p).update(i, x)),
{
    let w = wire_v1(p);
    let c = w.update(i, x);
    let n = w.len() as int;
    lemma_wire_v1_shape(p);
    let sent = w.drop_last().subrange(3, n - 1);
    let seen = c.drop_last().subrange(3, n - 1);
    assert(sent =~= covered_v1(p));
    if i == n - 1 {
        assert(seen =~= sent);
    } else {
        assert(differ_at(sent, seen, i - 3));
        lemma_xor_sum_tells_one_byte(sent, seen, i - 3);
    }
    assert(c.drop_last()[1] == MARK_V1);
    lemma_wrong_checksum_is_refused(c);
}

/// A version 2 frame of which one byte was changed, in the flag, the
/// command, the payload or the checksum, is refused with `CrcMismatch` on
/// its last byte: the receiver reports no frame and ends at a frame
/// boundary. A flipped bit is such a change.
pub proof fn lemma_changed_byte_is_caught_v2(p: MspPacketView, i: int, x: u8)
    requires
        p.data.len() <= 65535,
        3 <= i < wire_v2(p).len(),
        i != 6,
        i != 7,
        x != wire_v2(p)[i],
    ensures
        held_after(Seq::<u8>::empty(), wire_v2(p).update(i, x)) == Seq::<u8>::empty(),
        reports(Seq::<u8>::empty(), wire_v2(p).update(i, x)) == refusal(wire_v2(p).update(i, x)),
{
    let w = wire_v2(p);
    let c = w.update(i, x);
    let n = w.len() as int;
    lemma_wire_v2_shape(p);
    let sent = w.drop_last().subrange(3, n - 1);
    let seen = c.drop_last().subrange(3, n - 1);
    assert(sent =~= covered_v2(p));
    if i == n - 1 {
        assert(seen =~= sent);
    } else {
        assert(differ_at(sent, seen, i - 3));
        lemma_crc_tells_one_byte(sent, seen, i - 3);
    }
    assert(c.drop_last()[1] == MARK_V2);
    lemma_wrong_checksum_is_refused(c);
}

} // verus!
