//! What the wire format guarantees: a receiver gets back what a sender
//! wrote, drops junk between frames, and reports no frame but the one its
//! bytes spell.

use vstd::prelude::*;
use crate::packet::MspPacketParseError;
use crate::wire::MARK_V1;
use crate::wire::MARK_V2;
use crate::wire::MspPacketView;
use crate::wire::PREAMBLE;
use crate::wire::accept;
use crate::wire::awaits_checksum;
use crate::wire::checksum;
use crate::wire::covered_v1;
use crate::wire::covered_v2;
use crate::wire::crc8_dvb_s2;
use crate::wire::direction_byte;
use crate::wire::direction_of_byte;
use crate::wire::held_after;
use crate::wire::high_byte;
use crate::wire::le16;
use crate::wire::low_byte;
use crate::wire::reports;
use crate::wire::silence;
use crate::wire::xor_sum;
use crate::wire::decoded;
use crate::wire::in_frame;
use crate::wire::wire_v1;
use crate::wire::wire_v2;

verus! {

/// The shape of a version 1 frame, byte by byte.
pub proof fn lemma_wire_v1_shape(p: MspPacketView)
    ensures
        wire_v1(p).len() == 6 + p.data.len(),
        wire_v1(p)[0] == PREAMBLE,
        wire_v1(p)[1] == MARK_V1,
        wire_v1(p)[2] == direction_byte(p.direction),
        wire_v1(p)[3] == low_byte(p.data.len() as int),
        wire_v1(p)[4] == low_byte(p.cmd as int),
        wire_v1(p).subrange(5, 5 + p.data.len() as int) == p.data,
        wire_v1(p).subrange(3, 5 + p.data.len() as int) == covered_v1(p),
        wire_v1(p).last() == xor_sum(covered_v1(p)),
{
    assert(wire_v1(p).subrange(5, 5 + p.data.len() as int) =~= p.data);
    assert(wire_v1(p).subrange(3, 5 + p.data.len() as int) =~= covered_v1(p));
}

/// The shape of a version 2 frame, byte by byte.
pub proof fn lemma_wire_v2_shape(p: MspPacketView)
    ensures
        wire_v2(p).len() == 9 + p.data.len(),
        wire_v2(p)[0] == PREAMBLE,
        wire_v2(p)[1] == MARK_V2,
        wire_v2(p)[2] == direction_byte(p.direction),
        wire_v2(p)[3] == 0,
        wire_v2(p)[4] == low_byte(p.cmd as int),
        wire_v2(p)[5] == high_byte(p.cmd as int),
        wire_v2(p)[6] == low_byte(p.data.len() as int),
        wire_v2(p)[7] == high_byte(p.data.len() as int),
        wire_v2(p).subrange(8, 8 + p.data.len() as int) == p.data,
        wire_v2(p).subrange(3, 8 + p.data.len() as int) == covered_v2(p),
        wire_v2(p).last() == crc8_dvb_s2(covered_v2(p)),
{
    assert(wire_v2(p).subrange(8, 8 + p.data.len() as int) =~= p.data);
    assert(wire_v2(p).subrange(3, 8 + p.data.len() as int) =~= covered_v2(p));
}

/// Every byte of a well-shaped frame but the last is held without a report.
proof fn lemma_frame_byte_is_held(w: Seq<u8>, i: int)
    requires
        w.len() >= 6,
        w[0] == PREAMBLE,
        direction_of_byte(w[2]) is Some,
        w[1] == MARK_V1 && w.len() == 6 + w[3] || w[1] == MARK_V2 && w.len() >= 9 && w.len() == 9
            + le16(w[6], w[7]),
        0 <= i < w.len() - 1,
    ensures
        accept(w.take(i), w[i]) == (
            w.take(i + 1),
            Ok::<Option<MspPacketView>, MspPacketParseError>(None),
        ),
{
    assert(w.take(i).push(w[i]) =~= w.take(i + 1));
    if i >= 3 {
        assert(w.take(i)[1] == w[1]);
        if i >= 5 {
            assert(w.take(i)[3] == w[3]);
        }
        if i >= 8 {
            assert(w.take(i)[6] == w[6]);
            assert(w.take(i)[7] == w[7]);
        }
        assert(!awaits_checksum(w.take(i)));
    }
}

/// The last byte of a well-shaped frame with the right checksum completes
/// it.
proof fn lemma_frame_is_reported(w: Seq<u8>)
    requires
        w.len() >= 6,
        w[1] == MARK_V1 && w.len() == 6 + w[3] || w[1] == MARK_V2 && w.len() >= 9 && w.len() == 9
            + le16(w[6], w[7]),
        w.last() == checksum(w.drop_last()),
    ensures
        accept(w.drop_last(), w.last()) == (
            Seq::<u8>::empty(),
            Ok::<Option<MspPacketView>, MspPacketParseError>(Some(decoded(w.drop_last()))),
        ),
{
    let held = w.drop_last();
    assert(held[1] == w[1]);
    assert(held[3] == w[3]);
    if w[1] == MARK_V2 {
        assert(held[6] == w[6]);
        assert(held[7] == w[7]);
    }
    assert(awaits_checksum(held));
}

/// A receiver at a frame boundary that is fed the version 1 bytes of a frame,
/// one by one, holds each byte without a report until the last, then reports
/// exactly that frame and is at a frame boundary again. This holds of every
/// frame that version 1 can carry: at most 255 bytes of payload, a command of
/// at most 255.
pub proof fn lemma_roundtrip_v1(p: MspPacketView)
    requires
        p.data.len() <= 255,
        p.cmd <= 255,
    ensures
        wire_v1(p).len() == 6 + p.data.len(),
        forall|i: int|
            0 <= i < wire_v1(p).len() - 1 ==> #[trigger] accept(
                wire_v1(p).take(i),
                wire_v1(p)[i],
            ) == (wire_v1(p).take(i + 1), Ok::<Option<MspPacketView>, MspPacketParseError>(None)),
        accept(wire_v1(p).drop_last(), wire_v1(p).last()) == (
            Seq::<u8>::empty(),
            Ok::<Option<MspPacketView>, MspPacketParseError>(Some(p)),
        ),
{
    let w = wire_v1(p);
    lemma_wire_v1_shape(p);
    assert forall|i: int| 0 <= i < w.len() - 1 implies #[trigger] accept(w.take(i), w[i]) == (
        w.take(i + 1),
        Ok::<Option<MspPacketView>, MspPacketParseError>(None),
    ) by {
        lemma_frame_byte_is_held(w, i);
    }
    let held = w.drop_last();
    assert(held.subrange(3, held.len() as int) =~= w.subrange(3, 5 + p.data.len() as int));
    assert(held.subrange(5, held.len() as int) =~= w.subrange(5, 5 + p.data.len() as int));
    assert(held[1] == w[1] && held[2] == w[2] && held[4] == w[4]);
    lemma_frame_is_reported(w);
    assert(decoded(held) == p);
}

/// The same of version 2, for every frame whose payload has at most 65535
/// bytes.
pub proof fn lemma_roundtrip_v2(p: MspPacketView)
    requires
        p.data.len() <= 65535,
    ensures
        wire_v2(p).len() == 9 + p.data.len(),
        forall|i: int|
            0 <= i < wire_v2(p).len() - 1 ==> #[trigger] accept(
                wire_v2(p).take(i),
                wire_v2(p)[i],
            ) == (wire_v2(p).take(i + 1), Ok::<Option<MspPacketView>, MspPacketParseError>(None)),
        accept(wire_v2(p).drop_last(), wire_v2(p).last()) == (
            Seq::<u8>::empty(),
            Ok::<Option<MspPacketView>, MspPacketParseError>(Some(p)),
        ),
{
    let w = wire_v2(p);
    lemma_wire_v2_shape(p);
    assert forall|i: int| 0 <= i < w.len() - 1 implies #[trigger] accept(w.take(i), w[i]) == (
        w.take(i + 1),
        Ok::<Option<MspPacketView>, MspPacketParseError>(None),
    ) by {
        lemma_frame_byte_is_held(w, i);
    }
    let held = w.drop_last();
    assert(held.subrange(3, held.len() as int) =~= w.subrange(3, 8 + p.data.len() as int));
    assert(held.subrange(8, held.len() as int) =~= w.subrange(8, 8 + p.data.len() as int));
    assert(held[1] == w[1] && held[2] == w[2] && held[4] == w[4] && held[5] == w[5]);
    lemma_frame_is_reported(w);
    assert(decoded(held) == p);
}

/// At a frame boundary every byte but the preamble is dropped without a
/// report, and the receiver stays at the boundary.
pub proof fn lemma_junk_is_dropped(b: u8)
    requires
        b != PREAMBLE,
    ensures
        accept(Seq::<u8>::empty(), b) == (
            Seq::<u8>::empty(),
            Ok::<Option<MspPacketView>, MspPacketParseError>(None),
        ),
{
}

/// A frame is reported only for bytes that spell it: the last byte is the
/// checksum of the bytes held, and together they are the frame's own
/// serialization in the version that their mark names. In version 2 this is
/// so up to the flag byte, which a sender writes as zero and a receiver
/// ignores, and so with it the checksum.
pub proof fn lemma_reported_frame_is_spelled(partial: Seq<u8>, b: u8, p: MspPacketView)
    requires
        in_frame(partial),
        accept(partial, b).1 == Ok::<Option<MspPacketView>, MspPacketParseError>(Some(p)),
    ensures
        accept(partial, b).0 == Seq::<u8>::empty(),
        partial.len() >= 5,
        b == checksum(partial),
        partial[1] == MARK_V1 ==> p.data.len() <= 255 && p.cmd <= 255 && partial.push(b)
            == wire_v1(p),
        partial[1] == MARK_V2 ==> p.data.len() <= 65535 && partial.update(3, 0u8) == wire_v2(
            p,
        ).drop_last(),
        partial[1] == MARK_V2 && partial[3] == 0 ==> partial.push(b) == wire_v2(p),
{
    assert(awaits_checksum(partial));
    assert(p == decoded(partial));
    if partial[1] == MARK_V1 {
        assert(partial.subrange(3, partial.len() as int) =~= covered_v1(p));
        assert(partial.push(b) =~= wire_v1(p));
    } else {
        assert(partial.update(3, 0u8) =~= wire_v2(p).drop_last());
        if partial[3] == 0 {
            assert(partial.subrange(3, partial.len() as int) =~= covered_v2(p));
            assert(partial.push(b) =~= wire_v2(p));
        }
    }
}

/// A stream in two parts is taken as the first part, then the second.
pub proof fn lemma_stream_in_parts(partial: Seq<u8>, a: Seq<u8>, b: Seq<u8>)
    ensures
        held_after(partial, a + b) == held_after(held_after(partial, a), b),
        reports(partial, a + b) == reports(partial, a) + reports(held_after(partial, a), b),
    decreases b.len(),
{
    if b.len() == 0 {
        assert(a + b =~= a);
        assert(reports(partial, a) + reports(held_after(partial, a), b) =~= reports(partial, a));
    } else {
        lemma_stream_in_parts(partial, a, b.drop_last());
        assert((a + b).drop_last() =~= a + b.drop_last());
        assert((a + b).last() == b.last());
        assert(reports(partial, a + b) =~= reports(partial, a) + reports(
            held_after(partial, a),
            b,
        ));
    }
}

/// Junk between frames leaves no trace: a receiver at a frame boundary that
/// is fed bytes none of which is a preamble stays at the boundary and reports
/// nothing, least of all an error.
pub proof fn lemma_junk_stream_is_dropped(junk: Seq<u8>)
    requires
        forall|i: int| 0 <= i < junk.len() ==> junk[i] != PREAMBLE,
    ensures
        held_after(Seq::<u8>::empty(), junk) == Seq::<u8>::empty(),
        reports(Seq::<u8>::empty(), junk) == silence(junk.len()),
    decreases junk.len(),
{
    if junk.len() == 0 {
        assert(reports(Seq::<u8>::empty(), junk) =~= silence(junk.len()));
    } else {
        lemma_junk_stream_is_dropped(junk.drop_last());
        assert(reports(Seq::<u8>::empty(), junk) =~= silence(junk.len()));
    }
}

/// The first `k` bytes of a well-shaped frame, short of its last, are held
/// in silence.
pub proof fn lemma_frame_start_is_held(w: Seq<u8>, k: int)
    requires
        w.len() >= 6,
        w[0] == PREAMBLE,
        direction_of_byte(w[2]) is Some,
        w[1] == MARK_V1 && w.len() == 6 + w[3] || w[1] == MARK_V2 && w.len() >= 9 && w.len() == 9
            + le16(w[6], w[7]),
        0 <= k < w.len(),
    ensures
        held_after(Seq::<u8>::empty(), w.take(k)) == w.take(k),
        reports(Seq::<u8>::empty(), w.take(k)) == silence(k as nat),
    decreases k,
{
    if k == 0 {
        assert(w.take(0) =~= Seq::<u8>::empty());
        assert(reports(Seq::<u8>::empty(), w.take(k)) =~= silence(k as nat));
    } else {
        lemma_frame_start_is_held(w, k - 1);
        lemma_frame_byte_is_held(w, k - 1);
        assert(w.take(k).drop_last() =~= w.take(k - 1));
        assert(w.take(k).last() == w[k - 1]);
        assert(reports(Seq::<u8>::empty(), w.take(k)) =~= silence(k as nat));
    }
}

/// A whole well-shaped frame with the right checksum is held in silence up
/// to its last byte, which reports it.
proof fn lemma_frame_stream_is_reported(w: Seq<u8>)
    requires
        w.len() >= 6,
        w[0] == PREAMBLE,
        direction_of_byte(w[2]) is Some,
        w[1] == MARK_V1 && w.len() == 6 + w[3] || w[1] == MARK_V2 && w.len() >= 9 && w.len() == 9
            + le16(w[6], w[7]),
        w.last() == checksum(w.drop_last()),
    ensures
        held_after(Seq::<u8>::empty(), w) == Seq::<u8>::empty(),
        reports(Seq::<u8>::empty(), w) == silence((w.len() - 1) as nat).push(
            Ok(Some(decoded(w.drop_last()))),
        ),
{
    lemma_frame_start_is_held(w, w.len() - 1);
    lemma_frame_is_reported(w);
    assert(w.take(w.len() - 1) =~= w.drop_last());
}

/// Out of a stream of junk followed by the version 1 bytes of a frame, a
/// receiver that starts at a frame boundary reports that frame, once, on the
/// stream's last byte, and nothing else; it ends at a frame boundary. This
/// holds of every frame with at most 255 bytes of payload and a command of
/// at most 255, and of all junk that holds no preamble.
pub proof fn lemma_stream_roundtrip_v1(junk: Seq<u8>, p: MspPacketView)
    requires
        forall|i: int| 0 <= i < junk.len() ==> junk[i] != PREAMBLE,
        p.data.len() <= 255,
        p.cmd <= 255,
    ensures
        held_after(Seq::<u8>::empty(), junk + wire_v1(p)) == Seq::<u8>::empty(),
        reports(Seq::<u8>::empty(), junk + wire_v1(p)) == silence(
            junk.len() + 5 + p.data.len(),
        ).push(Ok(Some(p))),
{
    let w = wire_v1(p);
    lemma_wire_v1_shape(p);
    lemma_roundtrip_v1(p);
    lemma_frame_stream_is_reported(w);
    lemma_junk_stream_is_dropped(junk);
    lemma_stream_in_parts(Seq::<u8>::empty(), junk, w);
    assert(silence(junk.len()) + silence((w.len() - 1) as nat).push(Ok(Some(p))) =~= silence(
        junk.len() + 5 + p.data.len(),
    ).push(Ok(Some(p))));
}

/// The same of version 2, for every frame whose payload has at most 65535
/// bytes.
pub proof fn lemma_stream_roundtrip_v2(junk: Seq<u8>, p: MspPacketView)
    requires
        forall|i: int| 0 <= i < junk.len() ==> junk[i] != PREAMBLE,
        p.data.len() <= 65535,
    ensures
        held_after(Seq::<u8>::empty(), junk + wire_v2(p)) == Seq::<u8>::empty(),
        reports(Seq::<u8>::empty(), junk + wire_v2(p)) == silence(
            junk.len() + 8 + p.data.len(),
        ).push(Ok(Some(p))),
{
    let w = wire_v2(p);
    lemma_wire_v2_shape(p);
    lemma_roundtrip_v2(p);
    lemma_frame_stream_is_reported(w);
    lemma_junk_stream_is_dropped(junk);
    lemma_stream_in_parts(Seq::<u8>::empty(), junk, w);
    assert(silence(junk.len()) + silence((w.len() - 1) as nat).push(Ok(Some(p))) =~= silence(
        junk.len() + 8 + p.data.len(),
    ).push(Ok(Some(p))));
}

} // verus!
