//! The map from stream identifiers to per-stream lifecycle state for one
//! circuit hop, together with the identifier allocator.
//!
//! Identifier 0 is reserved and never denotes a stream.  Absence of a key
//! means the identifier denotes no live stream, whether never allocated or
//! already fully closed.

use crate::halfstream::HalfStream;
use crate::sendme::{StreamRecvWindow, StreamSendWindow};
use crate::Error;
use futures::channel::mpsc::{Receiver, UnboundedSender};
use rand::Rng;
use std::collections::hash_map::Entry;
use std::collections::HashMap;
use tor_cell::relaycell::msg::AnyRelayMsg;
use vstd::prelude::*;

verus! {

broadcast use vstd::std_specs::hash::group_hash_axioms;

/// A 16-bit stream identifier, scoped to one circuit hop; 0 is reserved.
pub type StreamId = u16;

/// The sending half of an unbounded channel, as `futures` defines it.
/// Carried through this map as an opaque value: cells bound for a stream's
/// application-facing consumer go into it, but nothing here sends on it.
#[verifier::external_type_specification]
#[verifier::external_body]
#[verifier::reject_recursive_types(T)]
pub struct ExUnboundedSender<T>(UnboundedSender<T>);

/// The receiving half of a bounded channel, as `futures` defines it.
/// Carried through this map as an opaque value: outbound application data
/// is pulled from it, but nothing here receives on it.
#[verifier::external_type_specification]
#[verifier::external_body]
#[verifier::reject_recursive_types(T)]
pub struct ExReceiver<T>(Receiver<T>);

/// A decoded relay message, as `tor_cell` defines it.  This map only
/// routes such messages; it never looks inside one.
#[verifier::external_type_specification]
#[verifier::external_body]
pub struct ExAnyRelayMsg(AnyRelayMsg);

/// The entry for one stream.
pub enum StreamEnt {
    /// An open stream.
    Open {
        /// Sink through which relay cells tagged for this stream reach the
        /// stream's application-facing consumer.
        sink: UnboundedSender<AnyRelayMsg>,
        /// Source of cells that should be sent down this stream.
        rx: Receiver<AnyRelayMsg>,
        /// Send window, for congestion control purposes.
        send_window: StreamSendWindow,
        /// Receive window, for congestion control purposes.
        recv_window: StreamRecvWindow,
        /// Number of cells dropped because the stream's consumer
        /// disappeared before this entry could become `EndSent`.
        dropped: u16,
    },
    /// A stream for which the peer's END cell has arrived, while the local
    /// side has not yet decided to close.
    EndReceived,
    /// A stream for which we have sent an END cell but not yet received
    /// one; its residual window state lives on for validating late cells.
    EndSent(HalfStream),
}

/// Whether terminating a stream obliges the caller to transmit an END
/// cell.
#[derive(Debug, Copy, Clone, Eq, PartialEq, Structural)]
pub enum ShouldSendEnd {
    /// An END cell should be sent.
    Send,
    /// An END cell should not be sent.
    DontSend,
}

/// A map from stream identifiers to stream entries.  Each circuit has one
/// for each hop.
pub struct StreamMap {
    /// Map from identifier to entry.  Absence of a key means that
    /// identifier denotes no live stream.
    m: HashMap<u16, StreamEnt>,
    /// Rotating counter: the candidate identifier the next allocation
    /// probes first.  (0 is not a valid identifier.)
    next_stream_id: u16,
}

impl View for StreamMap {
    type V = Map<u16, StreamEnt>;

    closed spec fn view(&self) -> Map<u16, StreamEnt> {
        self.m@
    }
}

impl StreamMap {
    /// The current value of the rotating allocation counter.
    pub closed spec fn next_id(&self) -> u16 {
        self.next_stream_id
    }

    /// Identifier 0 never denotes a stream.
    pub open spec fn wf(&self) -> bool {
        !self@.contains_key(0)
    }

    /// Make a new empty map.  The counter starts at a uniformly random
    /// nonzero value so that identifier sequences are not predictable
    /// across circuits: an anti-fingerprinting measure.
    pub fn new() -> (r: StreamMap)
        ensures
            r@ == Map::<u16, StreamEnt>::empty(),
            r.next_id() != 0,
            r.wf(),
    {
        StreamMap { m: HashMap::new(), next_stream_id: random_stream_id() }
    }

    /// The candidate identifier the next allocation will probe first.
    pub fn next_stream_id(&self) -> (r: u16)
        ensures
            r == self.next_id(),
    {
        self.next_stream_id
    }

    /// Direct mutable access to the entry collection, for callers that
    /// walk or adjust the tracked streams themselves.  Whatever the
    /// caller does through the returned reference becomes the map's
    /// contents; the allocation counter is untouched.
    pub fn inner(&mut self) -> (r: &mut HashMap<u16, StreamEnt>)
        ensures
            r@ == old(self)@,
            final(self)@ == final(r)@,
            final(self).next_id() == old(self).next_id(),
    {
        &mut self.m
    }
}

/// Relies on `rand::Rng::gen_range`: it returns a uniformly distributed
/// value within the given range.  The range here is `1..=u16::MAX`, so the
/// result is never zero; nothing more is promised of a random value.
#[verifier::external_body]
fn random_stream_id() -> (r: u16)
    ensures
        r != 0,
{
    rand::thread_rng().gen_range(1..=u16::MAX)
}

/// One step of the rotating counter: the successor of `c` modulo 2^16.
pub open spec fn succ_id(c: u16) -> u16 {
    if c == 0xffff {
        0
    } else {
        (c + 1) as u16
    }
}

/// What the allocator does with `probes` probes left: starting at
/// candidate `c`, it skips 0 and taken identifiers, advancing the counter
/// on every probe whether or not the probe succeeds.  Yields the allocated
/// identifier, if any, and the counter value the allocator leaves behind.
pub open spec fn alloc_from(m: Map<u16, StreamEnt>, c: u16, probes: nat) -> (Option<u16>, u16)
    decreases probes,
{
    if probes == 0 {
        (None, c)
    } else if c != 0 && !m.contains_key(c) {
        (Some(c), succ_id(c))
    } else {
        alloc_from(m, succ_id(c), (probes - 1) as nat)
    }
}

/// What one allocation does to a map `m` whose counter stands at `c`: the
/// allocator probes the identifier space at most once around.
pub open spec fn alloc_result(m: Map<u16, StreamEnt>, c: u16) -> (Option<u16>, u16) {
    alloc_from(m, c, 65536)
}

/// The transition an END cell from the peer makes on a map: what
/// `end_received` returns, and the map it leaves behind.
pub open spec fn end_received_spec(m: Map<u16, StreamEnt>, id: u16) -> (
    Result<(), Error>,
    Map<u16, StreamEnt>,
) {
    if !m.contains_key(id) {
        (Err(Error::CircProto), m)
    } else {
        match m[id] {
            StreamEnt::EndReceived => (Err(Error::CircProto), m),
            StreamEnt::EndSent(_) => (Ok(()), m.remove(id)),
            StreamEnt::Open { .. } => (Ok(()), m.insert(id, StreamEnt::EndReceived)),
        }
    }
}

/// The transition a local close makes on a map: what `terminate` returns,
/// and the map it leaves behind.  The `EndSent` arm never describes a
/// real call: `terminate` refuses that state outright.
pub open spec fn terminate_spec(m: Map<u16, StreamEnt>, id: u16) -> (
    Result<ShouldSendEnd, Error>,
    Map<u16, StreamEnt>,
) {
    if !m.contains_key(id) {
        (Err(Error::InternalError), m)
    } else {
        match m[id] {
            StreamEnt::EndReceived => (Ok(ShouldSendEnd::DontSend), m.remove(id)),
            StreamEnt::Open { send_window, recv_window, dropped, .. } => if dropped
                <= recv_window.window {
                (
                    Ok(ShouldSendEnd::Send),
                    m.insert(
                        id,
                        StreamEnt::EndSent(
                            (HalfStream {
                                send_window,
                                recv_window: StreamRecvWindow {
                                    window: (recv_window.window - dropped) as u16,
                                },
                                connected_ok: true,
                            }),
                        ),
                    ),
                )
            } else {
                (Err(Error::WindowUnderflow), m.remove(id))
            },
            StreamEnt::EndSent(_) => (Err(Error::InternalError), m),
        }
    }
}

impl StreamMap {
    /// Allocate the next usable identifier and insert a new `Open` entry
    /// for it, holding the given channel endpoints and windows and a
    /// dropped-cell count of zero.  Candidates are probed in increasing
    /// order from the current counter, wrapping at the 16-bit boundary and
    /// skipping the reserved value 0, for at most one turn around the full
    /// space; the counter advances on every probe, successful or not.  If
    /// every identifier is taken the allocation fails and other streams
    /// are unaffected.
    #[verifier::loop_isolation(false)]
    pub fn add_ent(
        &mut self,
        sink: UnboundedSender<AnyRelayMsg>,
        rx: Receiver<AnyRelayMsg>,
        send_window: StreamSendWindow,
        recv_window: StreamRecvWindow,
    ) -> (r: Result<StreamId, Error>)
        ensures
            final(self).next_id() == alloc_result(old(self)@, old(self).next_id()).1,
            match alloc_result(old(self)@, old(self).next_id()).0 {
                Some(id) => r == Ok::<StreamId, Error>(id) && id != 0 && !old(self)@.contains_key(id) && final(self)@ == old(self)@.insert(
                    id,
                    (StreamEnt::Open { sink, rx, send_window, recv_window, dropped: 0 }),
                ),
                None => r == Err::<StreamId, Error>(Error::IdRangeFull) && final(self)@ == old(self)@,
            },
    {
        let stream_ent = StreamEnt::Open { sink, rx, send_window, recv_window, dropped: 0 };
        let ghost m0 = self.m@;
        let ghost c0 = self.next_stream_id;
        let mut probes: u32 = 0;
        while probes < 65536
            invariant
                probes <= 65536,
                self.m@ == m0,
                alloc_from(m0, c0, 65536) == alloc_from(
                    m0,
                    self.next_stream_id,
                    (65536 - probes) as nat,
                ),
            decreases 65536 - probes,
        {
            let id: u16 = self.next_stream_id;
            self.next_stream_id = if id == u16::MAX {
                0
            } else {
                id + 1
            };
            probes = probes + 1;
            if id != 0 && !self.m.contains_key(&id) {
                proof {
                    assert(alloc_from(m0, id, (65536 - (probes - 1)) as nat) == (
                        Some(id),
                        succ_id(id),
                    ));
                }
                self.m.insert(id, stream_ent);
                return Ok(id);
            }
            proof {
                assert(alloc_from(m0, id, (65536 - (probes - 1)) as nat) == alloc_from(
                    m0,
                    succ_id(id),
                    (65536 - probes) as nat,
                ));
            }
        }
        Err(Error::IdRangeFull)
    }

    /// Look up the entry for `id`, if any.  `None` means the identifier
    /// denotes no live stream, whether never allocated or already fully
    /// closed; callers decide what that means in their context.  Whatever
    /// the caller does through the returned reference replaces the entry
    /// under `id`; nothing else changes.
    pub fn get_mut(&mut self, id: StreamId) -> (r: Option<&mut StreamEnt>)
        ensures
            r is Some <==> old(self)@.contains_key(id),
            r is Some ==> *r.unwrap() == old(self)@[id] && final(self)@ == old(self)@.insert(
                id,
                *final(r.unwrap()),
            ),
            r is None ==> final(self)@ == old(self)@,
            final(self).next_id() == old(self).next_id(),
    {
        match self.m.entry(id) {
            Entry::Occupied(o) => Some(o.into_mut()),
            Entry::Vacant(_) => {
                proof {
                    assert(old(self)@.remove(id) =~= old(self)@);
                }
                None
            },
        }
    }

    /// Note that an END cell arrived from the peer for the stream `id`.
    ///
    /// An END for an untracked identifier, or a second END for a stream
    /// already in `EndReceived`, is a protocol violation and fails without
    /// changing anything.  An END for a stream we had already closed
    /// locally (`EndSent`) completes the handshake and removes the entry.
    /// An END for an `Open` stream moves it to `EndReceived`, dropping its
    /// windows and channel endpoints; the drop itself signals the stream's
    /// consumer that no further data will flow.
    pub fn end_received(&mut self, id: StreamId) -> (r: Result<(), Error>)
        ensures
            final(self).next_id() == old(self).next_id(),
            r == end_received_spec(old(self)@, id).0,
            final(self)@ == end_received_spec(old(self)@, id).1,
    {
        match self.m.remove(&id) {
            None => Err(Error::CircProto),
            Some(StreamEnt::EndReceived) => {
                self.m.insert(id, StreamEnt::EndReceived);
                proof {
                    assert(old(self)@.remove(id).insert(id, StreamEnt::EndReceived) =~= old(self)@);
                }
                Err(Error::CircProto)
            },
            Some(StreamEnt::EndSent(_)) => Ok(()),
            Some(StreamEnt::Open { .. }) => {
                self.m.insert(id, StreamEnt::EndReceived);
                proof {
                    assert(old(self)@.remove(id).insert(id, StreamEnt::EndReceived) =~= old(self)@.insert(id, StreamEnt::EndReceived));
                }
                Ok(())
            },
        }
    }

    /// Note that the local side is closing the stream `id`, and say
    /// whether the caller must now transmit an END cell to the peer.
    ///
    /// Terminating an untracked identifier is a caller bug and fails.  On
    /// an `EndReceived` stream the peer already signaled closure, so the
    /// entry is removed and no END need be sent.  On an `Open` stream the
    /// cells dropped toward the vanished consumer are folded into the
    /// receive window first, so the residual budget stays consistent with
    /// what the peer believes it has sent; if that underflows the window,
    /// the accounting is broken and the close fails (the entry is gone
    /// either way).  Otherwise the entry becomes `EndSent`, holding the
    /// remaining windows, and the caller must send an END cell.
    ///
    /// Terminating a stream already in `EndSent` would mean local
    /// bookkeeping has diverged from reality; callers must never do it.
    pub fn terminate(&mut self, id: StreamId) -> (r: Result<ShouldSendEnd, Error>)
        requires
            old(self)@.contains_key(id) ==> !(old(self)@[id] is EndSent),
        ensures
            final(self).next_id() == old(self).next_id(),
            r == terminate_spec(old(self)@, id).0,
            final(self)@ == terminate_spec(old(self)@, id).1,
    {
        match self.m.remove(&id) {
            None => Err(Error::InternalError),
            Some(StreamEnt::EndReceived) => Ok(ShouldSendEnd::DontSend),
            Some(StreamEnt::Open { send_window, mut recv_window, dropped, .. }) => {
                match recv_window.decrement_n(dropped) {
                    Ok(()) => {
                        let connected_ok = true;
                        let halfstream = HalfStream::new(send_window, recv_window, connected_ok);
                        self.m.insert(id, StreamEnt::EndSent(halfstream));
                        proof {
                            assert(old(self)@.remove(id).insert(
                                id,
                                StreamEnt::EndSent(halfstream),
                            ) =~= old(self)@.insert(id, StreamEnt::EndSent(halfstream)));
                        }
                        Ok(ShouldSendEnd::Send)
                    },
                    Err(e) => Err(e),
                }
            },
            // Excluded by this function's precondition: local bookkeeping
            // would already have diverged from reality.
            Some(StreamEnt::EndSent(_)) => vstd::pervasive::unreached(),
        }
    }
}

/// Law: an identifier that allocation yields is never the reserved value
/// 0 and never one the map already tracks.  Because `add_ent` inserts the
/// identifier it returns, identifiers returned by any sequence of
/// successful allocations are therefore pairwise distinct.
pub proof fn lemma_alloc_fresh(m: Map<u16, StreamEnt>, c: u16, probes: nat)
    ensures
        alloc_from(m, c, probes).0 matches Some(id) ==> id != 0 && !m.contains_key(id),
    decreases probes,
{
    if probes > 0 && !(c != 0 && !m.contains_key(c)) {
        lemma_alloc_fresh(m, succ_id(c), (probes - 1) as nat);
    }
}

/// A run of successive allocations: starting from map `m` and counter
/// `c`, allocate once per entry of `ents`, inserting that entry under the
/// identifier handed out, as `add_ent` does.  Yields the identifiers
/// handed out together with the map and counter the run leaves behind,
/// or `None` if any allocation in the run fails.
pub open spec fn alloc_run(m: Map<u16, StreamEnt>, c: u16, ents: Seq<StreamEnt>) -> Option<
    (Seq<u16>, Map<u16, StreamEnt>, u16),
>
    decreases ents.len(),
{
    if ents.len() == 0 {
        Some((Seq::empty(), m, c))
    } else {
        match alloc_result(m, c).0 {
            Some(id) => match alloc_run(
                m.insert(id, ents[0]),
                alloc_result(m, c).1,
                ents.skip(1),
            ) {
                Some((ids, m2, c2)) => Some((seq![id] + ids, m2, c2)),
                None => None,
            },
            None => None,
        }
    }
}

/// Law: the identifiers that any run of successful allocations hands out
/// are pairwise distinct, never the reserved value 0, and never
/// identifiers the map tracked before the run began.
pub proof fn lemma_alloc_run_distinct(m: Map<u16, StreamEnt>, c: u16, ents: Seq<StreamEnt>)
    ensures
        alloc_run(m, c, ents) matches Some((ids, m2, c2)) ==> {
            &&& ids.len() == ents.len()
            &&& (forall|i: int, j: int| 0 <= i < j < ids.len() ==> ids[i] != ids[j])
            &&& (forall|i: int| 0 <= i < ids.len() ==> ids[i] != 0)
            &&& (forall|i: int| 0 <= i < ids.len() ==> !m.contains_key(ids[i]))
        },
    decreases ents.len(),
{
    if ents.len() > 0 {
        lemma_alloc_fresh(m, c, 65536);
        if let Some(id) = alloc_result(m, c).0 {
            let m1 = m.insert(id, ents[0]);
            lemma_alloc_run_distinct(m1, alloc_result(m, c).1, ents.skip(1));
            if let Some((tail, m2, c2)) = alloc_run(m1, alloc_result(m, c).1, ents.skip(1)) {
                let ids = seq![id] + tail;
                assert forall|i: int| 0 < i < ids.len() implies ids[i] == tail[i - 1] by {}
                assert forall|i: int| 0 <= i < ids.len() implies ids[i] != 0
                    && !m.contains_key(ids[i]) by {
                    if i > 0 {
                        assert(!m1.contains_key(tail[i - 1]));
                    }
                }
                assert forall|i: int, j: int| 0 <= i < j < ids.len() implies ids[i] != ids[j] by {
                    if i == 0 {
                        assert(m1.contains_key(id));
                        assert(!m1.contains_key(tail[j - 1]));
                    }
                }
            }
        }
    }
}

/// Law: two successive successful allocations yield distinct, nonzero
/// identifiers, whatever entry the first one inserted.
pub proof fn lemma_alloc_distinct(m: Map<u16, StreamEnt>, c: u16, ent: StreamEnt)
    ensures
        alloc_result(m, c).0 matches Some(id1) ==> {
            let m1 = m.insert(id1, ent);
            let c1 = alloc_result(m, c).1;
            alloc_result(m1, c1).0 matches Some(id2) ==> id1 != id2 && id1 != 0 && id2 != 0
        },
{
    lemma_alloc_fresh(m, c, 65536);
    if let Some(id1) = alloc_result(m, c).0 {
        lemma_alloc_fresh(m.insert(id1, ent), alloc_result(m, c).1, 65536);
    }
}

/// Law: allocation probes sequentially with wraparound.  When the
/// counter's own value is a usable free identifier, allocation returns
/// exactly it and leaves the counter just past it; when the counter
/// stands at the reserved value 0, allocation skips to 1.  Applied once
/// per allocation, this makes the k-th successful allocation from counter
/// `c` return the k-th value of the wrapping sequence c, c+1, ... with 0
/// left out, as long as those identifiers are free.
pub proof fn lemma_alloc_sequential(m: Map<u16, StreamEnt>, c: u16)
    ensures
        c != 0 && !m.contains_key(c) ==> alloc_result(m, c) == (Some(c), succ_id(c)),
        c == 0 && !m.contains_key(1) ==> alloc_result(m, c) == (Some(1u16), 2u16),
{
    if c == 0 && !m.contains_key(1) {
        assert(alloc_from(m, 0, 65536) == alloc_from(m, 1, 65535));
        assert(alloc_from(m, 1, 65535) == (Some(1u16), 2u16));
    }
}

/// A counter value with the reserved value 0 stepped over.
pub open spec fn skip_zero(c: u16) -> u16 {
    if c == 0 {
        1
    } else {
        c
    }
}

/// The k-th candidate of the wrapping probe sequence that starts at
/// counter value `c`: c, c+1, c+2, ... modulo 2^16, with 0 left out.
pub open spec fn nth_candidate(c: u16, k: nat) -> u16
    decreases k,
{
    if k == 0 {
        skip_zero(c)
    } else {
        skip_zero(succ_id(nth_candidate(c, (k - 1) as nat)))
    }
}

/// The probe sequence from the counter an allocation leaves behind is
/// the tail of the probe sequence the allocation itself followed.
pub proof fn lemma_nth_candidate_shift(c: u16, k: nat)
    ensures
        nth_candidate(succ_id(skip_zero(c)), k) == nth_candidate(c, k + 1),
    decreases k,
{
    assert(nth_candidate(c, k + 1) == skip_zero(succ_id(nth_candidate(c, k))));
    if k == 0 {
        assert(nth_candidate(succ_id(skip_zero(c)), 0) == skip_zero(succ_id(skip_zero(c))));
    } else {
        lemma_nth_candidate_shift(c, (k - 1) as nat);
        assert(nth_candidate(succ_id(skip_zero(c)), k) == skip_zero(
            succ_id(nth_candidate(succ_id(skip_zero(c)), (k - 1) as nat)),
        ));
    }
}

/// Closed form of the probe sequence for a nonzero starting counter:
/// candidates count up from `c` and, once they pass the top of the
/// 16-bit range, continue from 1.
pub proof fn lemma_nth_candidate_closed(c: u16, k: nat)
    requires
        c != 0,
        k <= 65534,
    ensures
        nth_candidate(c, k) == if c + k < 65536 {
            (c + k) as u16
        } else {
            (c + k - 65535) as u16
        },
    decreases k,
{
    if k > 0 {
        lemma_nth_candidate_closed(c, (k - 1) as nat);
    }
}

/// Law (sequential allocation): a run of allocations whose probe
/// sequence is free takes exactly that sequence: the k-th allocation
/// returns `nth_candidate(c, k)` and the run never fails.
pub proof fn lemma_alloc_run_follows_candidates(m: Map<u16, StreamEnt>, c: u16, ents: Seq<StreamEnt>)
    requires
        forall|k: nat| k < ents.len() ==> !m.contains_key(#[trigger] nth_candidate(c, k)),
        forall|i: nat, j: nat|
            i < j < ents.len() ==> #[trigger] nth_candidate(c, i) != #[trigger] nth_candidate(
                c,
                j,
            ),
    ensures
        alloc_run(m, c, ents) matches Some((ids, m2, c2)) && ids.len() == ents.len() && (forall|
            k: int,
        |
            0 <= k < ids.len() ==> #[trigger] ids[k] == nth_candidate(c, k as nat)),
    decreases ents.len(),
{
    if ents.len() > 0 {
        let id0 = nth_candidate(c, 0);
        assert(nth_candidate(c, 0) == skip_zero(c));
        assert(!m.contains_key(nth_candidate(c, 0)));
        lemma_alloc_sequential(m, c);
        assert(alloc_result(m, c) == (Some(id0), succ_id(id0)));
        let m1 = m.insert(id0, ents[0]);
        let c1 = succ_id(id0);
        assert(c1 == succ_id(skip_zero(c)));
        let rest = ents.skip(1);
        assert(rest.len() == ents.len() - 1);
        assert forall|k: nat| k < rest.len() implies !m1.contains_key(
            #[trigger] nth_candidate(c1, k),
        ) by {
            lemma_nth_candidate_shift(c, k);
            assert(nth_candidate(c1, k) == nth_candidate(c, k + 1));
            assert(nth_candidate(c, 0) != nth_candidate(c, k + 1));
            assert(!m.contains_key(nth_candidate(c, k + 1)));
        }
        assert forall|i: nat, j: nat| i < j < rest.len() implies #[trigger] nth_candidate(c1, i)
            != #[trigger] nth_candidate(c1, j) by {
            lemma_nth_candidate_shift(c, i);
            lemma_nth_candidate_shift(c, j);
            assert(nth_candidate(c, i + 1) != nth_candidate(c, j + 1));
        }
        lemma_alloc_run_follows_candidates(m1, c1, rest);
        if let Some((tail, m2, c2)) = alloc_run(m1, c1, rest) {
            let ids = seq![id0] + tail;
            assert(alloc_run(m, c, ents) == Some((ids, m2, c2)));
            assert forall|k: int| 0 <= k < ids.len() implies #[trigger] ids[k] == nth_candidate(
                c,
                k as nat,
            ) by {
                if k > 0 {
                    assert(tail[k - 1] == nth_candidate(c1, (k - 1) as nat));
                    lemma_nth_candidate_shift(c, (k - 1) as nat);
                }
            }
        }
    }
}

/// Law (sequential allocation with wraparound, from a fresh map):
/// starting from an empty map whose counter stands at the nonzero value
/// `c`, every allocation of a run of at most 65535 succeeds, and the
/// k-th (counting from 0) returns `c + k` as long as that stays within
/// the 16-bit range, then continues from 1 — the wrapping sequence from
/// `c` with the reserved value 0 skipped.
pub proof fn lemma_alloc_run_sequential(c: u16, ents: Seq<StreamEnt>)
    requires
        c != 0,
        ents.len() <= 65535,
    ensures
        alloc_run(Map::<u16, StreamEnt>::empty(), c, ents) matches Some((ids, m2, c2))
            && ids.len() == ents.len() && (forall|k: int|
            0 <= k < ids.len() ==> #[trigger] ids[k] == if c + k < 65536 {
                (c + k) as u16
            } else {
                (c + k - 65535) as u16
            }),
{
    let m0 = Map::<u16, StreamEnt>::empty();
    assert forall|k: nat| k < ents.len() implies !m0.contains_key(
        #[trigger] nth_candidate(c, k),
    ) by {}
    assert forall|i: nat, j: nat| i < j < ents.len() implies #[trigger] nth_candidate(c, i)
        != #[trigger] nth_candidate(c, j) by {
        lemma_nth_candidate_closed(c, i);
        lemma_nth_candidate_closed(c, j);
    }
    lemma_alloc_run_follows_candidates(m0, c, ents);
    if let Some((ids, m2, c2)) = alloc_run(m0, c, ents) {
        assert forall|k: int| 0 <= k < ids.len() implies #[trigger] ids[k] == (if c + k < 65536 {
            (c + k) as u16
        } else {
            (c + k - 65535) as u16
        }) by {
            lemma_nth_candidate_closed(c, k as nat);
        }
    }
}

/// Law: the reserved identifier 0 never comes to denote a stream: a map
/// that does not track it still does not track it after an allocation
/// (whatever entry was inserted) or after either closing transition.
pub proof fn lemma_wf_preserved(m: Map<u16, StreamEnt>, c: u16, id: u16, ent: StreamEnt)
    requires
        !m.contains_key(0),
    ensures
        alloc_result(m, c).0 matches Some(id2) ==> !m.insert(id2, ent).contains_key(0),
        !end_received_spec(m, id).1.contains_key(0),
        !terminate_spec(m, id).1.contains_key(0),
{
    lemma_alloc_fresh(m, c, 65536);
}

/// Law: an END cell for an open stream succeeds and parks the stream in
/// `EndReceived`; a second END cell for the same stream then fails as a
/// protocol violation and changes nothing.
pub proof fn lemma_duplicate_end_detected(m: Map<u16, StreamEnt>, id: u16)
    requires
        m.contains_key(id),
        m[id] is Open,
    ensures
        ({
            let (r1, m1) = end_received_spec(m, id);
            let (r2, m2) = end_received_spec(m1, id);
            r1 == Ok::<(), Error>(()) && m1[id] is EndReceived && r2 == Err::<(), Error>(
                Error::CircProto,
            ) && m2 == m1
        }),
{
}

/// Law: terminating an open stream (whose dropped-cell count its receive
/// window can absorb) asks the caller to send an END cell and parks the
/// stream in `EndSent`; when the peer's END cell then arrives, the stream
/// is gone in both directions and its identifier is free again.
pub proof fn lemma_terminate_then_end_received(m: Map<u16, StreamEnt>, id: u16)
    requires
        m.contains_key(id),
        m[id] matches StreamEnt::Open { recv_window, dropped, .. } && dropped <= recv_window.window,
    ensures
        ({
            let (r1, m1) = terminate_spec(m, id);
            let (r2, m2) = end_received_spec(m1, id);
            r1 == Ok::<ShouldSendEnd, Error>(ShouldSendEnd::Send) && m1[id] is EndSent && r2
                == Ok::<(), Error>(()) && !m2.contains_key(id) && m2 == m.remove(id)
        }),
{
    let (r1, m1) = terminate_spec(m, id);
    assert(m1.remove(id) =~= m.remove(id));
}

/// Law: terminating a stream whose peer already sent its END cell removes
/// the entry outright, and no outgoing END cell is owed.
pub proof fn lemma_terminate_after_end_received(m: Map<u16, StreamEnt>, id: u16)
    requires
        m.contains_key(id),
        m[id] is EndReceived,
    ensures
        ({
            let (r, m1) = terminate_spec(m, id);
            r == Ok::<ShouldSendEnd, Error>(ShouldSendEnd::DontSend) && !m1.contains_key(id) && m1
                == m.remove(id)
        }),
{
}

/// Law: an identifier the map does not track makes both closing
/// transitions fail without changing anything: `end_received` reports a
/// protocol violation, `terminate` a local bug.
pub proof fn lemma_unknown_id_fails(m: Map<u16, StreamEnt>, id: u16)
    requires
        !m.contains_key(id),
    ensures
        end_received_spec(m, id) == (Err::<(), Error>(Error::CircProto), m),
        terminate_spec(m, id) == (Err::<ShouldSendEnd, Error>(Error::InternalError), m),
{
}

} // verus!
