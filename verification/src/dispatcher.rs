//! Correlating responses with the requests that wait for them.
//!
//! The dispatcher here decides; it neither reads nor writes nor waits. Its
//! owner hands it each event (a request to send, a byte that arrived, a tick
//! of the clock, shutdown) with the current time, writes the bytes it hands
//! back and resolves the tickets it names.

use vstd::prelude::*;
use crate::packet::MspPacket;
use crate::packet::MspPacketParseError;
use crate::packet::MspVersion;
use crate::packet::encode;
use crate::packet::encoded;
use crate::parser::MspParser;
use crate::wire::MspPacketView;
use crate::wire::accept;

verus! {

/// A request that was written and waits for its response.
#[derive(Copy, Clone, Debug, PartialEq, Eq, Structural)]
pub struct Pending {
    /// Command code that its response will carry.
    pub cmd: u16,
    /// The caller's name for the request.
    pub ticket: u64,
    /// Time after which the request has timed out.
    pub deadline: u64,
}

/// How one request ended.
#[derive(Debug, PartialEq)]
pub struct Delivery {
    pub ticket: u64,
    pub outcome: Result<MspPacket, MspPacketParseError>,
}

/// A delivery as a mathematical value.
pub struct DeliveryView {
    pub ticket: u64,
    pub outcome: Result<MspPacketView, MspPacketParseError>,
}

impl View for Delivery {
    type V = DeliveryView;

    open spec fn view(&self) -> DeliveryView {
        DeliveryView {
            ticket: self.ticket,
            outcome: match self.outcome {
                Ok(p) => Ok(p@),
                Err(e) => Err(e),
            },
        }
    }
}

/// The deliveries of `ds` as mathematical values.
pub open spec fn views(ds: Seq<Delivery>) -> Seq<DeliveryView> {
    ds.map_values(|d: Delivery| d@)
}

/// One delivery of `error` for each request of `q`, in order.
pub open spec fn failed(q: Seq<Pending>, error: MspPacketParseError) -> Seq<DeliveryView> {
    q.map_values(|p: Pending| DeliveryView { ticket: p.ticket, outcome: Err(error) })
}

/// The deadline of a request submitted at `now`: `timeout` later, or the end
/// of time where that lies beyond it.
pub open spec fn deadline_after(now: u64, timeout: u64) -> u64 {
    if now + timeout > u64::MAX {
        u64::MAX
    } else {
        (now + timeout) as u64
    }
}

/// How many requests at the head of `q` have timed out at `now`: the sweep
/// stops at the first that has not.
pub open spec fn expired_heads(q: Seq<Pending>, now: u64) -> nat
    decreases q.len(),
{
    if q.len() > 0 && q[0].deadline < now {
        1 + expired_heads(q.skip(1), now)
    } else {
        0
    }
}

/// Index of the first request of `q` that waits for command `cmd`.
pub open spec fn first_match(q: Seq<Pending>, cmd: u16) -> Option<int>
    decreases q.len(),
{
    if q.len() == 0 {
        None
    } else if q[0].cmd == cmd {
        Some(0)
    } else {
        match first_match(q.skip(1), cmd) {
            Some(j) => Some(j + 1),
            None => None,
        }
    }
}

/// Index of the first request of `q` that goes by the name `ticket`.
pub open spec fn first_with_ticket(q: Seq<Pending>, ticket: u64) -> Option<int>
    decreases q.len(),
{
    if q.len() == 0 {
        None
    } else if q[0].ticket == ticket {
        Some(0)
    } else {
        match first_with_ticket(q.skip(1), ticket) {
            Some(j) => Some(j + 1),
            None => None,
        }
    }
}

/// What a response does to the queue `q` at `now`: the heads that have timed
/// out leave with `TimedOut`; of the rest, the first that waits for the
/// response's command gets it and leaves; with no such request the response
/// is dropped.
pub open spec fn correlate(q: Seq<Pending>, response: MspPacketView, now: u64) -> (
    Seq<Pending>,
    Seq<DeliveryView>,
) {
    let k = expired_heads(q, now) as int;
    let rest = q.skip(k);
    let reaped = failed(q.take(k), MspPacketParseError::TimedOut);
    match first_match(rest, response.cmd) {
        Some(m) => (
            rest.remove(m),
            reaped.push(DeliveryView { ticket: rest[m].ticket, outcome: Ok(response) }),
        ),
        None => (rest, reaped),
    }
}

/// One more request fails as the others did.
proof fn lemma_failed_push(
    ds: Seq<Delivery>,
    d: Delivery,
    q: Seq<Pending>,
    error: MspPacketParseError,
    k: int,
)
    requires
        0 <= k < q.len(),
        views(ds) == failed(q.take(k), error),
        d.ticket == q[k].ticket,
        d.outcome == Err::<MspPacket, MspPacketParseError>(error),
    ensures
        views(ds.push(d)) == failed(q.take(k + 1), error),
{
    assert(ds.len() == views(ds).len());
    assert forall|i: int| 0 <= i < k + 1 implies views(ds.push(d))[i] == failed(
        q.take(k + 1),
        error,
    )[i] by {
        if i < k {
            assert(views(ds)[i] == ds[i]@);
            assert(failed(q.take(k), error)[i].ticket == q.take(k)[i].ticket);
        }
    }
    assert(views(ds.push(d)) =~= failed(q.take(k + 1), error));
}

/// The requests in flight on one connection, and the parser of what comes
/// back on it.
pub struct MspDispatcher {
    parser: MspParser,
    pending: Vec<Pending>,
    version: MspVersion,
    timeout: u64,
}

impl MspDispatcher {
    /// The parser inside is well-formed.
    pub closed spec fn wf(&self) -> bool {
        self.parser.wf()
    }

    /// The requests that wait, oldest first.
    pub closed spec fn pending(&self) -> Seq<Pending> {
        self.pending@
    }

    /// The bytes that the parser holds of a frame in progress.
    pub closed spec fn partial(&self) -> Seq<u8> {
        self.parser@
    }

    /// The version in which requests are written.
    pub closed spec fn version(&self) -> MspVersion {
        self.version
    }

    /// How long a request waits before it times out.
    pub closed spec fn timeout(&self) -> u64 {
        self.timeout
    }

    /// Everything about the dispatcher but its queue and parser is as in
    /// `before`.
    pub open spec fn configured_as(&self, before: &MspDispatcher) -> bool {
        self.version() == before.version() && self.timeout() == before.timeout()
    }

    /// A dispatcher with nothing in flight that writes requests in `version`
    /// and lets each wait for `timeout`.
    pub fn new(version: MspVersion, timeout: u64) -> (d: MspDispatcher)
        ensures
            d.wf(),
            d.pending() == Seq::<Pending>::empty(),
            d.partial() == Seq::<u8>::empty(),
            d.version() == version,
            d.timeout() == timeout,
    {
        MspDispatcher { parser: MspParser::new(), pending: Vec::new(), version, timeout }
    }

    /// Number of requests that wait.
    pub fn pending_len(&self) -> (n: usize)
        ensures
            n == self.pending().len(),
    {
        self.pending.len()
    }

    /// A caller submits `message` at `now` under the name `ticket`. Returns
    /// the bytes to write, and queues the request behind those that wait;
    /// where the message cannot be serialized, returns why and queues
    /// nothing.
    pub fn submit(&mut self, message: &MspPacket, ticket: u64, now: u64) -> (r: Result<
        Vec<u8>,
        MspPacketParseError,
    >)
        requires
            old(self).wf(),
            message.data.len() + 9 <= usize::MAX,
        ensures
            final(self).wf(),
            final(self).configured_as(old(self)),
            final(self).partial() == old(self).partial(),
            match r {
                Ok(bytes) => {
                    &&& encoded(message@, old(self).version()) == Ok::<
                        Seq<u8>,
                        MspPacketParseError,
                    >(bytes@)
                    &&& final(self).pending() == old(self).pending().push(
                        Pending {
                            cmd: message.cmd,
                            ticket,
                            deadline: deadline_after(now, old(self).timeout()),
                        },
                    )
                },
                Err(e) => {
                    &&& encoded(message@, old(self).version()) == Err::<
                        Seq<u8>,
                        MspPacketParseError,
                    >(e)
                    &&& final(self).pending() == old(self).pending()
                },
            },
    {
        match encode(message, self.version) {
            Ok(bytes) => {
                let deadline: u64 = now.saturating_add(self.timeout);
                self.pending.push(Pending { cmd: message.cmd, ticket, deadline });
                Ok(bytes)
            },
            Err(e) => Err(e),
        }
    }

    /// The clock ticked: the requests at the head of the queue that have
    /// timed out at `now` leave it, each with `TimedOut`.
    pub fn reap(&mut self, now: u64) -> (out: Vec<Delivery>)
        requires
            old(self).wf(),
        ensures
            final(self).wf(),
            final(self).configured_as(old(self)),
            final(self).partial() == old(self).partial(),
            expired_heads(old(self).pending(), now) <= old(self).pending().len(),
            final(self).pending() == old(self).pending().skip(
                expired_heads(old(self).pending(), now) as int,
            ),
            views(out@) == failed(
                old(self).pending().take(expired_heads(old(self).pending(), now) as int),
                MspPacketParseError::TimedOut,
            ),
    {
        let ghost before = self.pending@;
        let mut out: Vec<Delivery> = Vec::new();
        let mut k: usize = 0;
        proof {
            assert(before.skip(0) =~= before);
            assert(views(out@) =~= failed(before.take(0), MspPacketParseError::TimedOut));
        }
        while k < self.pending.len() && self.pending[k].deadline < now
            invariant
                self.pending@ == before,
                k <= before.len(),
                expired_heads(before, now) == k + expired_heads(before.skip(k as int), now),
                views(out@) == failed(before.take(k as int), MspPacketParseError::TimedOut),
            decreases before.len() - k,
        {
            proof {
                assert(before.skip(k as int).skip(1) =~= before.skip(k + 1));
            }
            let d = Delivery {
                ticket: self.pending[k].ticket,
                outcome: Err(MspPacketParseError::TimedOut),
            };
            proof {
                lemma_failed_push(out@, d, before, MspPacketParseError::TimedOut, k as int);
            }
            out.push(d);
            k += 1;
        }
        let rest = self.pending.split_off(k);
        self.pending = rest;
        out
    }

    /// A response arrived at `now`: after the sweep of `reap`, the first
    /// request that waits for its command gets it and leaves the queue.
    pub fn on_frame(&mut self, response: MspPacket, now: u64) -> (out: Vec<Delivery>)
        requires
            old(self).wf(),
        ensures
            final(self).wf(),
            final(self).configured_as(old(self)),
            final(self).partial() == old(self).partial(),
            (final(self).pending(), views(out@)) == correlate(
                old(self).pending(),
                response@,
                now,
            ),
    {
        let mut out = self.reap(now);
        let ghost rest = self.pending@;
        let ghost reaped = views(out@);
        let mut i: usize = 0;
        proof {
            assert(rest.skip(0) =~= rest);
        }
        while i < self.pending.len() && self.pending[i].cmd != response.cmd
            invariant
                self.pending@ == rest,
                i <= rest.len(),
                first_match(rest, response.cmd) == match first_match(
                    rest.skip(i as int),
                    response.cmd,
                ) {
                    Some(j) => Some(j + i),
                    None => None,
                },
            decreases rest.len() - i,
        {
            proof {
                assert(rest.skip(i as int).skip(1) =~= rest.skip(i + 1));
            }
            i += 1;
        }
        if i < self.pending.len() {
            let p = self.pending.remove(i);
            out.push(Delivery { ticket: p.ticket, outcome: Ok(response) });
            proof {
                assert(views(out@) =~= reaped.push(
                    DeliveryView { ticket: p.ticket, outcome: Ok(response@) },
                ));
            }
        }
        out
    }

    /// A byte arrived at `now`. It goes to the parser; where it completes a
    /// frame, the frame is a response and is correlated as in `on_frame`.
    /// Bytes that complete none resolve nothing, and neither do those that
    /// the parser refuses: a request whose response was garbled times out.
    /// The parser's complaint is handed back beside the deliveries, for the
    /// owner to log.
    pub fn on_byte(&mut self, input: u8, now: u64) -> (out: (
        Vec<Delivery>,
        Option<MspPacketParseError>,
    ))
        requires
            old(self).wf(),
        ensures
            final(self).wf(),
            final(self).configured_as(old(self)),
            final(self).partial() == accept(old(self).partial(), input).0,
            match accept(old(self).partial(), input).1 {
                Ok(Some(response)) => {
                    &&& (final(self).pending(), views(out.0@)) == correlate(
                        old(self).pending(),
                        response,
                        now,
                    )
                    &&& out.1 is None
                },
                Ok(None) => {
                    &&& final(self).pending() == old(self).pending()
                    &&& out.0@.len() == 0
                    &&& out.1 is None
                },
                Err(e) => {
                    &&& final(self).pending() == old(self).pending()
                    &&& out.0@.len() == 0
                    &&& out.1 == Some(e)
                },
            },
    {
        match self.parser.parse(input) {
            Ok(Some(response)) => (self.on_frame(response, now), None),
            Ok(None) => (Vec::new(), None),
            Err(e) => (Vec::new(), Some(e)),
        }
    }

    /// Writing the request `ticket` failed: it leaves the queue with
    /// `Transport`. Where no request goes by that name nothing changes.
    pub fn write_failed(&mut self, ticket: u64) -> (out: Option<Delivery>)
        requires
            old(self).wf(),
        ensures
            final(self).wf(),
            final(self).configured_as(old(self)),
            final(self).partial() == old(self).partial(),
            match first_with_ticket(old(self).pending(), ticket) {
                Some(m) => {
                    &&& final(self).pending() == old(self).pending().remove(m)
                    &&& out == Some(
                        Delivery { ticket, outcome: Err(MspPacketParseError::Transport) },
                    )
                },
                None => final(self).pending() == old(self).pending() && out is None,
            },
    {
        let ghost before = self.pending@;
        let mut i: usize = 0;
        proof {
            assert(before.skip(0) =~= before);
        }
        while i < self.pending.len() && self.pending[i].ticket != ticket
            invariant
                self.pending@ == before,
                i <= before.len(),
                first_with_ticket(before, ticket) == match first_with_ticket(
                    before.skip(i as int),
                    ticket,
                ) {
                    Some(j) => Some(j + i),
                    None => None,
                },
            decreases before.len() - i,
        {
            proof {
                assert(before.skip(i as int).skip(1) =~= before.skip(i + 1));
            }
            i += 1;
        }
        if i < self.pending.len() {
            let p = self.pending.remove(i);
            Some(Delivery { ticket: p.ticket, outcome: Err(MspPacketParseError::Transport) })
        } else {
            None
        }
    }

    /// The connection is lost for the reason `error`: every request that
    /// waits leaves the queue with it, oldest first.
    pub fn fail_all(&mut self, error: MspPacketParseError) -> (out: Vec<Delivery>)
        requires
            old(self).wf(),
        ensures
            final(self).wf(),
            final(self).configured_as(old(self)),
            final(self).partial() == old(self).partial(),
            final(self).pending() == Seq::<Pending>::empty(),
            views(out@) == failed(old(self).pending(), error),
    {
        let ghost before = self.pending@;
        let mut out: Vec<Delivery> = Vec::new();
        let mut k: usize = 0;
        proof {
            assert(views(out@) =~= failed(before.take(0), error));
        }
        while k < self.pending.len()
            invariant
                self.pending@ == before,
                k <= before.len(),
                views(out@) == failed(before.take(k as int), error),
            decreases before.len() - k,
        {
            let d = Delivery { ticket: self.pending[k].ticket, outcome: Err(error) };
            proof {
                lemma_failed_push(out@, d, before, error, k as int);
            }
            out.push(d);
            k += 1;
        }
        proof {
            assert(before.take(k as int) =~= before);
        }
        self.pending.clear();
        out
    }

    /// The dispatcher shuts down: every request that waits leaves the queue
    /// with `Cancelled`, oldest first.
    pub fn shutdown(&mut self) -> (out: Vec<Delivery>)
        requires
            old(self).wf(),
        ensures
            final(self).wf(),
            final(self).configured_as(old(self)),
            final(self).partial() == old(self).partial(),
            final(self).pending() == Seq::<Pending>::empty(),
            views(out@) == failed(old(self).pending(), MspPacketParseError::Cancelled),
    {
        self.fail_all(MspPacketParseError::Cancelled)
    }
}

} // verus!
