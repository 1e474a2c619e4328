//! What the correlation rules guarantee: the sweep takes exactly the timed-out
//! heads, a response goes to the earliest request that waits for its
//! command, and a request times out after its deadline and not before.

use vstd::prelude::*;
use crate::dispatcher::DeliveryView;
use crate::dispatcher::Pending;
use crate::dispatcher::correlate;
use crate::dispatcher::deadline_after;
use crate::dispatcher::expired_heads;
use crate::dispatcher::failed;
use crate::dispatcher::first_match;
use crate::packet::MspPacketParseError;
use crate::wire::MspPacketView;

verus! {

/// The sweep takes the longest run of timed-out requests at the head of the
/// queue: each of them has timed out, and the request after them, if there
/// is one, has not.
pub proof fn lemma_sweep_takes_expired_heads(q: Seq<Pending>, now: u64)
    ensures
        expired_heads(q, now) <= q.len(),
        forall|i: int| 0 <= i < expired_heads(q, now) ==> (#[trigger] q[i]).deadline < now,
        expired_heads(q, now) < q.len() ==> q[expired_heads(q, now) as int].deadline >= now,
    decreases q.len(),
{
    if q.len() > 0 && q[0].deadline < now {
        let tail = q.skip(1);
        lemma_sweep_takes_expired_heads(tail, now);
        assert forall|i: int| 0 <= i < expired_heads(q, now) implies (#[trigger] q[i]).deadline
            < now by {
            if i > 0 {
                assert(q[i] == tail[i - 1]);
            }
        }
        if expired_heads(q, now) < q.len() {
            assert(q[expired_heads(q, now) as int] == tail[expired_heads(tail, now) as int]);
        }
    }
}

/// `first_match` finds the earliest request that waits for `cmd`: none before
/// it waits for `cmd`, and where it finds nothing, none does.
pub proof fn lemma_first_match_is_earliest(q: Seq<Pending>, cmd: u16)
    ensures
        match first_match(q, cmd) {
            Some(m) => {
                &&& 0 <= m < q.len()
                &&& q[m].cmd == cmd
                &&& forall|j: int| 0 <= j < m ==> (#[trigger] q[j]).cmd != cmd
            },
            None => forall|j: int| 0 <= j < q.len() ==> (#[trigger] q[j]).cmd != cmd,
        },
    decreases q.len(),
{
    if q.len() > 0 && q[0].cmd != cmd {
        let tail = q.skip(1);
        lemma_first_match_is_earliest(tail, cmd);
        match first_match(tail, cmd) {
            Some(m) => {
                assert(q[m + 1] == tail[m]);
                assert forall|j: int| 0 <= j < m + 1 implies (#[trigger] q[j]).cmd != cmd by {
                    if j > 0 {
                        assert(q[j] == tail[j - 1]);
                    }
                }
            },
            None => {
                assert forall|j: int| 0 <= j < q.len() implies (#[trigger] q[j]).cmd != cmd by {
                    if j > 0 {
                        assert(q[j] == tail[j - 1]);
                    }
                }
            },
        }
    }
}

/// First in, first out within a command: of two requests for one command
/// that wait, neither timed out, the first response goes to the first and
/// the second response to the second.
pub proof fn lemma_fifo_within_command(
    first: Pending,
    second: Pending,
    a: MspPacketView,
    b: MspPacketView,
    now_a: u64,
    now_b: u64,
)
    requires
        first.cmd == second.cmd,
        a.cmd == first.cmd,
        b.cmd == first.cmd,
        first.deadline >= now_a,
        second.deadline >= now_b,
    ensures
        correlate(seq![first, second], a, now_a) == (
            seq![second],
            seq![DeliveryView { ticket: first.ticket, outcome: Ok(a) }],
        ),
        correlate(seq![second], b, now_b) == (
            Seq::<Pending>::empty(),
            seq![DeliveryView { ticket: second.ticket, outcome: Ok(b) }],
        ),
{
    let both = seq![first, second];
    let one = seq![second];
    assert(expired_heads(both, now_a) == 0);
    assert(expired_heads(one, now_b) == 0);
    assert(both.skip(0) =~= both);
    assert(one.skip(0) =~= one);
    assert(first_match(both, a.cmd) == Some(0int));
    assert(first_match(one, b.cmd) == Some(0int));
    assert(both.remove(0) =~= one);
    assert(one.remove(0) =~= Seq::<Pending>::empty());
    assert(failed(both.take(0), MspPacketParseError::TimedOut).push(
        DeliveryView { ticket: first.ticket, outcome: Ok(a) },
    ) =~= seq![DeliveryView { ticket: first.ticket, outcome: Ok(a) }]);
    assert(failed(one.take(0), MspPacketParseError::TimedOut).push(
        DeliveryView { ticket: second.ticket, outcome: Ok(b) },
    ) =~= seq![DeliveryView { ticket: second.ticket, outcome: Ok(b) }]);
}

/// A request that is alone in the queue, submitted at `submitted` with
/// `timeout` to wait, is swept at `now` exactly when `now` lies more than
/// `timeout` after `submitted`: at its deadline it still waits.
pub proof fn lemma_times_out_after_deadline(
    cmd: u16,
    ticket: u64,
    submitted: u64,
    timeout: u64,
    now: u64,
)
    requires
        submitted + timeout <= u64::MAX,
    ensures
        expired_heads(
            seq![Pending { cmd, ticket, deadline: deadline_after(submitted, timeout) }],
            now,
        ) == if now > submitted + timeout {
            1nat
        } else {
            0nat
        },
{
    let q = seq![Pending { cmd, ticket, deadline: deadline_after(submitted, timeout) }];
    assert(q.skip(1) =~= Seq::<Pending>::empty());
    assert(expired_heads(q.skip(1), now) == 0);
}

} // verus!
