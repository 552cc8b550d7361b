use vstd::prelude::*;

verus! {

/// How often the liveness of a connection is checked, in milliseconds.
pub const HEARTBEAT_INTERVAL_MS: u64 = 5000;

/// How long a connection may stay silent before a liveness check closes
/// it, in milliseconds.
pub const CLIENT_TIMEOUT_MS: u64 = 100000;

/// Liveness state of one connection: when the client was last heard from,
/// as milliseconds on a monotone clock.
#[derive(Debug, Clone, Copy, PartialEq, Eq, Structural)]
pub struct HeartbeatState {
    pub last_contact: u64,
}

impl HeartbeatState {
    /// A connection is stale when more than the client timeout has passed
    /// since its last contact.
    pub open spec fn spec_timed_out(&self, now: u64) -> bool {
        now - self.last_contact > CLIENT_TIMEOUT_MS
    }

    pub fn new(now: u64) -> (r: HeartbeatState)
        ensures
            r.last_contact == now,
    {
        HeartbeatState { last_contact: now }
    }

    /// Records a sign of life from the client.
    pub fn refresh(&mut self, now: u64)
        ensures
            final(self).last_contact == now,
    {
        self.last_contact = now;
    }

    /// One tick of the recurring liveness check: reports whether the
    /// connection must be closed. Closing is the check's only effect; the
    /// check itself sends no traffic.
    pub fn timed_out(&self, now: u64) -> (r: bool)
        requires
            self.last_contact <= now,
        ensures
            r == self.spec_timed_out(now),
    {
        now - self.last_contact > CLIENT_TIMEOUT_MS
    }
}

/// One liveness-relevant occurrence on a connection: a sign of life from
/// the client, or a tick of the liveness check, each at a time in
/// milliseconds.
pub enum LivenessEvent {
    Contact(u64),
    Check(u64),
}

/// When the client was last heard from after a sequence of events, starting
/// from a connection opened at `start`.
pub open spec fn spec_last_contact(start: u64, events: Seq<LivenessEvent>) -> u64
    decreases events.len(),
{
    if events.len() == 0 {
        start
    } else {
        match events.last() {
            LivenessEvent::Contact(t) => t,
            LivenessEvent::Check(_) => spec_last_contact(start, events.drop_last()),
        }
    }
}

/// Whether a connection opened at `start` is still open after the given
/// events: no liveness check found the connection stale.
pub open spec fn spec_stays_open(start: u64, events: Seq<LivenessEvent>) -> bool
    decreases events.len(),
{
    if events.len() == 0 {
        true
    } else {
        spec_stays_open(start, events.drop_last()) && match events.last() {
            LivenessEvent::Contact(_) => true,
            LivenessEvent::Check(t) => !(t - spec_last_contact(start, events.drop_last())
                > CLIENT_TIMEOUT_MS),
        }
    }
}

/// A liveness check that comes more than the client timeout after the last
/// sign of life closes the connection.
pub proof fn lemma_stale_check_closes(start: u64, events: Seq<LivenessEvent>, t: u64)
    requires
        t > spec_last_contact(start, events) + CLIENT_TIMEOUT_MS,
    ensures
        !spec_stays_open(start, events.push(LivenessEvent::Check(t))),
{
    assert(events.push(LivenessEvent::Check(t)).drop_last() =~= events);
}

/// A connection stays open indefinitely as long as every liveness check
/// falls within the client timeout of the latest sign of life before it.
pub proof fn lemma_fresh_contact_stays_open(start: u64, events: Seq<LivenessEvent>)
    requires
        forall|i: int| 0 <= i < events.len()
            ==> (#[trigger] events[i] matches LivenessEvent::Check(t)
                ==> t <= spec_last_contact(start, events.take(i)) + CLIENT_TIMEOUT_MS),
    ensures
        spec_stays_open(start, events),
    decreases events.len(),
{
    if events.len() > 0 {
        assert(events.take(events.len() - 1) =~= events.drop_last());
        assert(forall|i: int| 0 <= i < events.drop_last().len()
            ==> #[trigger] events.drop_last().take(i) =~= events.take(i));
        lemma_fresh_contact_stays_open(start, events.drop_last());
        assert(events[events.len() - 1] == events.last());
    }
}

} // verus!
