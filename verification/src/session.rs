//! Session state machines: heartbeat pacing, the single-value shared
//! slot, and the event-polling priority order.
//!
//! The text family's display switches itself off without periodic
//! keep-alives, so each poll first checks whether more than the
//! heartbeat interval has passed. Motion samples arrive through a
//! single-value slot with overwrite semantics — a slow consumer loses
//! intermediate samples instead of building a backlog — and that slot
//! has strict priority over every other event source, so sustained
//! motion data can starve discrete events indefinitely; that is a
//! documented trade-off of the protocol, restated as a law below.

use std::collections::VecDeque;
use vstd::prelude::*;
use crate::text_codec::Packet;

verus! {

/// Milliseconds after which a new keep-alive is owed.
pub const HEARTBEAT_INTERVAL_MS: u64 = 250;

/// Whether a poll at `now` owes a keep-alive, given the time of the last.
pub open spec fn spec_heartbeat_due(last: u64, now: u64) -> bool {
    now > last + HEARTBEAT_INTERVAL_MS
}

/// Tracks when the last keep-alive frame went out.
pub struct HeartbeatTimer {
    /// Time of the last emission, in milliseconds.
    pub last: u64,
}

impl HeartbeatTimer {
    pub fn new(now: u64) -> (r: Self)
        ensures
            r.last == now,
    {
        HeartbeatTimer { last: now }
    }

    /// Whether to emit a keep-alive at `now`; emitting restarts the
    /// interval whether or not the device acknowledges.
    pub fn poll(&mut self, now: u64) -> (emit: bool)
        ensures
            emit == spec_heartbeat_due(old(self).last, now),
            final(self).last == (if emit {
                now
            } else {
                old(self).last
            }),
    {
        if now > HEARTBEAT_INTERVAL_MS && now - HEARTBEAT_INTERVAL_MS > self.last {
            self.last = now;
            true
        } else {
            false
        }
    }
}

/// Heartbeat pacing: two polls at most the interval apart emit at most
/// one keep-alive; a poll more than the interval after an emitting poll
/// emits again.
pub proof fn lemma_heartbeat_rate(last: u64, t1: u64, t2: u64)
    requires
        last <= t1 <= t2,
    ensures
        ({
            let e1 = spec_heartbeat_due(last, t1);
            let mid = if e1 {
                t1
            } else {
                last
            };
            let e2 = spec_heartbeat_due(mid, t2);
            &&& t2 <= t1 + HEARTBEAT_INTERVAL_MS ==> !(e1 && e2)
            &&& t2 > t1 + HEARTBEAT_INTERVAL_MS ==> e2
        }),
{
}

/// A single-value hand-off slot with overwrite semantics.
pub struct SharedSlot<T> {
    /// The undelivered value, if any.
    pub value: Option<T>,
}

/// A store always leaves exactly the stored value, whatever was there.
pub open spec fn spec_slot_store<T>(s: SharedSlot<T>, v: T) -> SharedSlot<T> {
    SharedSlot { value: Some(v) }
}

/// A take empties the slot and delivers what it held.
pub open spec fn spec_slot_take<T>(s: SharedSlot<T>) -> (SharedSlot<T>, Option<T>) {
    (SharedSlot { value: None }, s.value)
}

impl<T> SharedSlot<T> {
    pub fn new() -> (r: Self)
        ensures
            r.value is None,
    {
        SharedSlot { value: None }
    }

    /// Overwrite the slot: an undelivered previous value is discarded.
    pub fn store(&mut self, v: T)
        ensures
            *final(self) == spec_slot_store(*old(self), v),
            final(self).value == Some(v),
    {
        self.value = Some(v);
    }

    /// Empty the slot, delivering its value if one was waiting.
    pub fn take(&mut self) -> (r: Option<T>)
        ensures
            (*final(self), r) == spec_slot_take(*old(self)),
            r == old(self).value,
            final(self).value is None,
    {
        self.value.take()
    }
}

/// Shared-slot overwrite: two stores before a single take leave only the
/// second value observable; the first is lost, not queued.
pub proof fn lemma_slot_overwrite<T>(s: SharedSlot<T>, a: T, b: T)
    ensures
        spec_slot_take(spec_slot_store(spec_slot_store(s, a), b)).1 == Some(b),
        spec_slot_take(spec_slot_store(spec_slot_store(s, a), b)).0.value is None,
{
}

/// What the poll loop should do next, once the heartbeat is settled.
pub enum PollDirective<T> {
    /// The slot held a sample: deliver it as a motion event now.
    Motion(T),
    /// The background reader is gone: the session is unusable.
    Disconnected,
    /// A queued frame to classify.
    Pending(Packet),
    /// Nothing queued: make one short raw read.
    NeedRead,
}

/// The poll priority order: the shared slot first, then the liveness
/// check, then the pending queue, then a raw read; with the queue
/// consumed from the front.
pub open spec fn spec_poll_directive<T>(
    pending: Seq<Packet>,
    slot: Option<T>,
    thread_alive: bool,
) -> (PollDirective<T>, Seq<Packet>) {
    match slot {
        Some(p) => (PollDirective::Motion(p), pending),
        None => {
            if !thread_alive {
                (PollDirective::Disconnected, pending)
            } else if pending.len() > 0 {
                (PollDirective::Pending(pending[0]), pending.drop_first())
            } else {
                (PollDirective::NeedRead, pending)
            }
        },
    }
}

/// The per-poll state of a text-family session: the keep-alive timer and
/// the queue of frames set aside during command correlation.
pub struct LightPoll {
    pub heartbeat: HeartbeatTimer,
    pub pending: VecDeque<Packet>,
}

impl LightPoll {
    pub fn new(now: u64) -> (r: Self)
        ensures
            r.heartbeat.last == now,
            r.pending@ =~= Seq::<Packet>::empty(),
    {
        LightPoll { heartbeat: HeartbeatTimer::new(now), pending: VecDeque::new() }
    }

    /// One poll step: settle the heartbeat, then pick the next event
    /// source in priority order. The caller performs the keep-alive
    /// write, the raw read, or the classification the directive asks
    /// for.
    pub fn poll_begin<T>(&mut self, now: u64, slot: Option<T>, thread_alive: bool) -> (r: (
        bool,
        PollDirective<T>,
    ))
        ensures
            r.0 == spec_heartbeat_due(old(self).heartbeat.last, now),
            final(self).heartbeat.last == (if r.0 {
                now
            } else {
                old(self).heartbeat.last
            }),
            ({
                let d = spec_poll_directive(old(self).pending@, slot, thread_alive);
                &&& r.1 == d.0
                &&& final(self).pending@ == d.1
            }),
    {
        let emit = self.heartbeat.poll(now);
        match slot {
            Some(p) => (emit, PollDirective::Motion(p)),
            None => {
                if !thread_alive {
                    (emit, PollDirective::Disconnected)
                } else {
                    match self.pending.pop_front() {
                        Some(p) => {
                            proof {
                                assert(self.pending@ =~= old(self).pending@.drop_first());
                            }
                            (emit, PollDirective::Pending(p))
                        },
                        None => (emit, PollDirective::NeedRead),
                    }
                }
            },
        }
    }
}

/// Starvation of discrete events: whenever the shared slot holds a
/// sample, the poll delivers it and consumes nothing from the pending
/// queue — whatever discrete events wait there, and however often this
/// repeats.
pub proof fn lemma_motion_priority<T>(pending: Seq<Packet>, v: T, thread_alive: bool)
    ensures
        spec_poll_directive(pending, Some(v), thread_alive).0 == PollDirective::Motion(v),
        spec_poll_directive(pending, Some(v), thread_alive).1 == pending,
{
}

} // verus!
