//! Liveness of one remote endpoint connection: when to probe it, and when to give
//! up on it. Instants are milliseconds of one monotonic clock.
use vstd::prelude::*;

use crate::receipt::TransmitReceipt;

verus! {

/// How long an endpoint may stay quiet before it is probed.
pub const HEARTBEAT_INTERVAL_MS: u64 = 5000;
/// How long a probe, or the initial snapshot, may go unanswered.
pub const HEARTBEAT_TIMEOUT_MS: u64 = 10000;

/// What a health tick asks of the connection.
#[derive(Clone, Copy, Debug, PartialEq, Eq, Structural)]
pub enum HealthAction {
    Nothing,
    Ping,
    Expired,
}

/// The state of the liveness probe.
pub enum ProbeState {
    /// No probe is outstanding: the endpoint is inside its heartbeat interval, or it
    /// answered.
    Idle,
    /// The ping is in the writer queue, behind frames the peer is still taking. The
    /// endpoint is provably alive while its own bytes are being accepted, so no reply
    /// is owed yet and no timer runs.
    Draining(TransmitReceipt),
    /// The writer accepted the ping's last byte at this instant. The reply window
    /// runs from here.
    Sent(u64),
}

/// The abstract probe state. A draining probe carries the instant its receipt was
/// made with, when it was made for a frame already written (see
/// [`TransmitReceipt::known_at`]); a queued frame's instant is decided by its writer.
pub ghost enum ProbeView {
    Idle,
    Draining(Option<u64>),
    Sent(u64),
}

/// The abstract state of an [`EndpointHealth`].
pub ghost struct HealthView {
    pub connected_at: u64,
    pub last_received: u64,
    pub probe: ProbeView,
    pub ready: bool,
}

/// `now - since`, or zero when `since` lies after `now`.
pub open spec fn elapsed_since(now: u64, since: u64) -> int {
    if now >= since { now - since } else { 0 }
}

/// The action the health state `h` asks for at `now`.
///
/// The connection expires when it has not delivered its initial snapshot within the
/// timeout of connecting, or when a sent probe has gone unanswered for the timeout.
/// Otherwise an idle probe is sent once the endpoint has been quiet for the interval.
pub open spec fn health_action(h: HealthView, now: u64) -> HealthAction {
    let initial_snapshot_expired = !h.ready
        && elapsed_since(now, h.connected_at) >= HEARTBEAT_TIMEOUT_MS;
    let probe_expired = match h.probe {
        ProbeView::Sent(sent_at) => elapsed_since(now, sent_at) >= HEARTBEAT_TIMEOUT_MS,
        _ => false,
    };
    if initial_snapshot_expired || probe_expired {
        HealthAction::Expired
    } else if h.probe == ProbeView::Idle
        && elapsed_since(now, h.last_received) >= HEARTBEAT_INTERVAL_MS {
        HealthAction::Ping
    } else {
        HealthAction::Nothing
    }
}

/// The state of a connection that was opened at `now`.
pub open spec fn fresh_health(now: u64) -> HealthView {
    HealthView { connected_at: now, last_received: now, probe: ProbeView::Idle, ready: false }
}

/// The state `h` after a message arrived at `now`.
pub open spec fn health_received(h: HealthView, now: u64) -> HealthView {
    HealthView { last_received: now, probe: ProbeView::Idle, ..h }
}

/// The state `h` once the initial snapshot arrived.
pub open spec fn health_ready(h: HealthView) -> HealthView {
    HealthView { ready: true, ..h }
}

/// The state `h` after a probe left the writer at `at`.
pub open spec fn health_sent(h: HealthView, at: u64) -> HealthView {
    HealthView { probe: ProbeView::Sent(at), ..h }
}

/// The state `h` after a probe was queued behind other frames, with a receipt
/// that knew the instant `known`.
pub open spec fn health_queued(h: HealthView, known: Option<u64>) -> HealthView {
    HealthView { probe: ProbeView::Draining(known), ..h }
}

/// The state `h` after a health tick read the probe's receipt, which reported
/// `transmitted_at`: a draining probe whose frame has left becomes a sent one.
pub open spec fn health_settled(h: HealthView, transmitted_at: Option<u64>) -> HealthView {
    match (h.probe, transmitted_at) {
        (ProbeView::Draining(_), Some(at)) => health_sent(h, at),
        _ => h,
    }
}

/// Liveness bookkeeping of one connection.
pub struct EndpointHealth {
    connected_at: u64,
    last_received: u64,
    probe: ProbeState,
    ready: bool,
}

impl View for EndpointHealth {
    type V = HealthView;

    closed spec fn view(&self) -> HealthView {
        HealthView {
            connected_at: self.connected_at,
            last_received: self.last_received,
            probe: match self.probe {
                ProbeState::Idle => ProbeView::Idle,
                ProbeState::Draining(r) => ProbeView::Draining(r.known_at()),
                ProbeState::Sent(at) => ProbeView::Sent(at),
            },
            ready: self.ready,
        }
    }
}

impl EndpointHealth {
    /// A connection opened at `now`: nothing received yet but the connection itself,
    /// no probe outstanding, initial snapshot not yet delivered.
    pub fn new(now: u64) -> (h: Self)
        ensures
            h@ == fresh_health(now),
    {
        EndpointHealth { connected_at: now, last_received: now, probe: ProbeState::Idle, ready: false }
    }

    /// Any incoming message proves the endpoint alive and satisfies an outstanding
    /// probe, queued or sent.
    pub fn received(&mut self, now: u64)
        ensures
            final(self)@ == health_received(old(self)@, now),
    {
        self.last_received = now;
        self.probe = ProbeState::Idle;
    }

    /// The initial snapshot arrived.
    pub fn ready(&mut self)
        ensures
            final(self)@ == health_ready(old(self)@),
    {
        self.ready = true;
    }

    /// What the connection needs at `now`.
    pub fn action(&self, now: u64) -> (a: HealthAction)
        ensures
            a == health_action(self@, now),
    {
        let initial_snapshot_expired = !self.ready
            && now.saturating_sub(self.connected_at) >= HEARTBEAT_TIMEOUT_MS;
        let probe_expired = match &self.probe {
            ProbeState::Sent(sent_at) => now.saturating_sub(*sent_at) >= HEARTBEAT_TIMEOUT_MS,
            ProbeState::Idle => false,
            ProbeState::Draining(_) => false,
        };
        let idle = match &self.probe {
            ProbeState::Idle => true,
            _ => false,
        };
        if initial_snapshot_expired || probe_expired {
            HealthAction::Expired
        } else if idle && now.saturating_sub(self.last_received) >= HEARTBEAT_INTERVAL_MS {
            HealthAction::Ping
        } else {
            HealthAction::Nothing
        }
    }

    /// The ping has been handed to the transport. `receipt` reports the instant the
    /// writer accepts its last byte, which is when the reply window opens.
    pub fn ping_queued(&mut self, receipt: TransmitReceipt)
        ensures
            final(self)@ == health_queued(old(self)@, receipt.known_at()),
    {
        self.probe = ProbeState::Draining(receipt);
    }

    /// Promotes a queued ping to a sent one once its receipt reports a transmission
    /// instant. Called on every health tick, before the action is read.
    ///
    /// A receipt made for a frame already written reports the instant it was made
    /// with, so such a probe is promoted at that instant. A queued frame's receipt
    /// is shared with its writer, so which instant it reports is decided outside;
    /// whatever it reports, the result is [`Self::settle_with`] of it.
    pub fn settle(&mut self)
        ensures
            exists|transmitted_at: Option<u64>|
                final(self)@ == #[trigger] health_settled(old(self)@, transmitted_at),
            old(self)@.probe matches ProbeView::Draining(Some(t)) ==> final(self)@ == health_settled(
                old(self)@,
                Some(t),
            ),
    {
        let transmitted_at = match &self.probe {
            ProbeState::Draining(receipt) => receipt.transmitted_at(),
            _ => None,
        };
        self.settle_with(transmitted_at);
    }

    /// [`Self::settle`] for a receipt that reported `transmitted_at`.
    pub fn settle_with(&mut self, transmitted_at: Option<u64>)
        ensures
            final(self)@ == health_settled(old(self)@, transmitted_at),
    {
        let draining = match &self.probe {
            ProbeState::Draining(_) => true,
            _ => false,
        };
        if draining {
            if let Some(at) = transmitted_at {
                self.ping_sent(at);
            }
        }
    }

    /// The writer accepted the ping's last byte at `now`.
    pub fn ping_sent(&mut self, now: u64)
        ensures
            final(self)@ == health_sent(old(self)@, now),
    {
        self.probe = ProbeState::Sent(now);
    }

    /// The probe is still queued behind bytes the peer is taking.
    pub fn is_draining(&self) -> (r: bool)
        ensures
            r == (self@.probe is Draining),
    {
        match &self.probe {
            ProbeState::Draining(_) => true,
            _ => false,
        }
    }
}

/// A probe queued behind frames the peer is still taking never expires a
/// connection that delivered its initial snapshot, however long it drains.
pub proof fn lemma_draining_probe_never_expires(h: HealthView, now: u64)
    requires
        h.ready,
        h.probe is Draining,
    ensures
        health_action(h, now) == HealthAction::Nothing,
{
}

/// Any incoming message satisfies an outstanding probe, queued or sent: a ready
/// connection that just heard from its endpoint does not expire, and stays quiet for
/// the heartbeat interval.
pub proof fn lemma_received_satisfies_probe(h: HealthView, received_at: u64, now: u64)
    requires
        h.ready,
    ensures
        health_action(health_received(h, received_at), now) != HealthAction::Expired,
        elapsed_since(now, received_at) < HEARTBEAT_INTERVAL_MS ==> health_action(
            health_received(h, received_at),
            now,
        ) == HealthAction::Nothing,
{
}

/// The reply window runs from the instant the writer accepted the ping: a ready
/// connection with a sent probe expires exactly when the timeout has passed since
/// then.
pub proof fn lemma_probe_timer_starts_at_send(h: HealthView, sent_at: u64, now: u64)
    requires
        h.ready,
    ensures
        (health_action(health_sent(h, sent_at), now) == HealthAction::Expired) == (elapsed_since(now, sent_at)
            >= HEARTBEAT_TIMEOUT_MS),
{
}

/// Heartbeats do not hide a missing initial snapshot: once the timeout has passed
/// since connecting without it, the connection expires, whatever arrived meanwhile.
pub proof fn lemma_missing_snapshot_expires(h: HealthView, received_at: u64, now: u64)
    requires
        !h.ready,
        elapsed_since(now, h.connected_at) >= HEARTBEAT_TIMEOUT_MS,
    ensures
        health_action(h, now) == HealthAction::Expired,
        health_action(health_received(h, received_at), now) == HealthAction::Expired,
{
}

/// A quiet connection is probed: with no probe outstanding and the endpoint silent
/// for the interval, a ready connection asks for a ping.
pub proof fn lemma_quiet_connection_is_probed(h: HealthView, now: u64)
    requires
        h.ready,
        h.probe == ProbeView::Idle,
        elapsed_since(now, h.last_received) >= HEARTBEAT_INTERVAL_MS,
    ensures
        health_action(h, now) == HealthAction::Ping,
{
}

/// Settling only ever promotes a draining probe: any other probe state is kept.
pub proof fn lemma_settle_keeps_other_probes(h: HealthView, transmitted_at: Option<u64>)
    requires
        !(h.probe is Draining),
    ensures
        health_settled(h, transmitted_at) == h,
{
}

} // verus!
