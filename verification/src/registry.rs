//! The connections a client holds to its endpoints, and the failures they met.
use vstd::prelude::*;

use crate::endpoint::{ClientEndpointId, ClientMessage, EndpointTransport, TransportError, TransportErrorKind};
use crate::health::{fresh_health, health_action, health_queued, health_ready, health_received,
    health_settled, EndpointHealth, HealthAction, HealthView, ProbeView};
use crate::keyed::{key_index, keyed_map, lemma_key_index, lemma_key_index_unique, lemma_keyed_map,
    lemma_keyed_map_push, lemma_keyed_map_remove, lemma_keyed_map_update, opt_get, unique_keys};
use crate::negotiation::{view_supports_health_check, EndpointNegotiation, NegotiationView};
use crate::receipt::TransmitReceipt;

verus! {

/// The control kind of a health probe.
pub const HEALTH_PING_KIND: &'static str = "health.ping";
/// The message of the failure a connection gets when its health check expires.
pub const HEALTH_TIMEOUT_MESSAGE: &'static str = "endpoint health check timed out";
/// The message of the failure a call to a missing connection meets.
pub const UNAVAILABLE_MESSAGE: &'static str = "endpoint is unavailable";

/// The abstract state of one connection.
pub ghost struct ConnectionView {
    pub generation: u64,
    pub surface_active: bool,
    pub negotiation: NegotiationView,
    pub health: Option<HealthView>,
}

/// The abstract health of a connection, if it is probed at all.
pub open spec fn health_view(h: Option<EndpointHealth>) -> Option<HealthView> {
    match h {
        Some(h) => Some(h@),
        None => None,
    }
}

/// One live connection to an endpoint.
pub struct EndpointConnection<T> {
    transport: T,
    /// Which connection attempt this is; messages of older attempts are stale.
    pub generation: u64,
    /// Whether the endpoint currently offers a surface the client can show.
    pub surface_active: bool,
    /// What the endpoint announced.
    pub negotiation: EndpointNegotiation,
    /// Liveness bookkeeping, for remote endpoints that answer health probes.
    pub health: Option<EndpointHealth>,
}

impl<T> View for EndpointConnection<T> {
    type V = ConnectionView;

    closed spec fn view(&self) -> ConnectionView {
        ConnectionView {
            generation: self.generation,
            surface_active: self.surface_active,
            negotiation: self.negotiation@,
            health: health_view(self.health),
        }
    }
}

/// A connection that was revoked, and why.
#[derive(Clone, Debug)]
pub struct EndpointTransportFailure {
    pub endpoint_id: ClientEndpointId,
    pub generation: u64,
    pub kind: TransportErrorKind,
    pub message: String,
}

/// The abstract form of an [`EndpointTransportFailure`].
pub ghost struct FailureView {
    pub endpoint_id: ClientEndpointId,
    pub generation: u64,
    pub kind: TransportErrorKind,
    pub message: Seq<char>,
}

impl View for EndpointTransportFailure {
    type V = FailureView;

    open spec fn view(&self) -> FailureView {
        FailureView {
            endpoint_id: self.endpoint_id,
            generation: self.generation,
            kind: self.kind,
            message: self.message@,
        }
    }
}

/// Whether a message reached a transport.
#[derive(Clone, Copy, Debug, PartialEq, Eq, Structural)]
pub enum EndpointSendOutcome {
    Sent,
    NotSent,
}

/// One call that [`EndpointRegistry::dispatch`] makes on a transport.
pub enum TransportCall<'a> {
    /// [`EndpointTransport::send`].
    Send(&'a ClientMessage),
    /// [`EndpointTransport::send_tracked`], at the given instant.
    SendTracked(&'a ClientMessage, u64),
}

/// What a transport call that succeeded returned.
pub enum TransportReply {
    Sent,
    Receipt(TransmitReceipt),
}

/// The abstract state of an [`EndpointRegistry`].
pub ghost struct RegistryView {
    /// The endpoint whose surface the client shows.
    pub active: ClientEndpointId,
    /// Whether input may reach the active endpoint.
    pub input_enabled: bool,
    /// The live connections.
    pub connections: Map<ClientEndpointId, ConnectionView>,
    /// The failures not yet taken, at most one per endpoint, oldest first.
    pub failures: Seq<FailureView>,
}

/// The endpoints of `fs`, in order.
pub open spec fn failure_keys(fs: Seq<FailureView>) -> Seq<ClientEndpointId> {
    fs.map_values(|f: FailureView| f.endpoint_id)
}

/// The failure recorded for `id` in `fs`, if any.
pub open spec fn failure_of(fs: Seq<FailureView>, id: ClientEndpointId) -> Option<FailureView> {
    opt_get(keyed_map(failure_keys(fs), fs), id)
}

/// `fs` with `f` recorded: it replaces the failure of the same endpoint in place,
/// or is appended when that endpoint had none.
pub open spec fn upsert_failure(fs: Seq<FailureView>, f: FailureView) -> Seq<FailureView> {
    let i = key_index(failure_keys(fs), f.endpoint_id);
    if i >= 0 {
        fs.update(i, f)
    } else {
        fs.push(f)
    }
}

/// `v` after the connection to `id` failed with `kind` and `message`: the connection
/// is revoked and its failure recorded with its generation. Without a connection to
/// `id` nothing changes.
pub open spec fn recorded(
    v: RegistryView,
    id: ClientEndpointId,
    kind: TransportErrorKind,
    message: Seq<char>,
) -> RegistryView {
    if v.connections.dom().contains(id) {
        RegistryView {
            connections: v.connections.remove(id),
            failures: upsert_failure(
                v.failures,
                FailureView { endpoint_id: id, generation: v.connections[id].generation, kind, message },
            ),
            ..v
        }
    } else {
        v
    }
}

/// The state of a connection to `id` opened at `now`: a remote endpoint that
/// negotiated health checks is probed from `now` on; the local endpoint never is, it
/// fails through its transport.
pub open spec fn new_connection(
    id: ClientEndpointId,
    generation: u64,
    negotiation: NegotiationView,
    surface_active: bool,
    now: u64,
) -> ConnectionView {
    ConnectionView {
        generation,
        surface_active,
        negotiation,
        health: if id != ClientEndpointId::Local && view_supports_health_check(negotiation) {
            Some(fresh_health(now))
        } else {
            None
        },
    }
}

/// `v` with the health of the connection to `id` of `generation` changed by `f`,
/// when that connection exists, is of that generation, and is probed.
pub open spec fn with_health(
    v: RegistryView,
    id: ClientEndpointId,
    generation: u64,
    f: spec_fn(HealthView) -> HealthView,
) -> RegistryView {
    if v.connections.dom().contains(id) && v.connections[id].generation == generation
        && v.connections[id].health is Some {
        let c = v.connections[id];
        RegistryView {
            connections: v.connections.insert(id, ConnectionView { health: Some(f(c.health->0)), ..c }),
            ..v
        }
    } else {
        v
    }
}


/// The draining probe of `c` may have been promoted to a sent one at the instant
/// its receipt reported, and is promoted at the instant the receipt was made
/// with when it was made for a written frame; nothing else changes.
pub open spec fn settled_connection(c: ConnectionView, d: ConnectionView) -> bool {
    match c.health {
        None => d == c,
        Some(h) => exists|at: Option<u64>|
            d == (ConnectionView { health: Some(#[trigger] health_settled(h, at)), ..c }) && (
            h.probe matches ProbeView::Draining(Some(t)) ==> at == Some(t)),
    }
}

/// `mid` holds the connections of `m`, each settled.
pub open spec fn settled_connections(
    m: Map<ClientEndpointId, ConnectionView>,
    mid: Map<ClientEndpointId, ConnectionView>,
) -> bool {
    &&& mid.dom() == m.dom()
    &&& forall|id: ClientEndpointId| #[trigger] m.dom().contains(id) ==> settled_connection(m[id], mid[id])
}

/// The failures `fs` grew into `gs`: every earlier entry keeps its position and
/// endpoint, new entries come after them.
pub open spec fn failures_extended(fs: Seq<FailureView>, gs: Seq<FailureView>) -> bool {
    &&& fs.len() <= gs.len()
    &&& forall|i: int| 0 <= i < fs.len() ==> (#[trigger] gs[i]).endpoint_id == fs[i].endpoint_id
}

/// What a health tick at `now` does to the endpoint `id`, whose settled connection
/// was `mid` and whose failure entry was `old_failure`, leaving the connection `fin`
/// and the failure entry `fin_failure`; `handed` and `fin_handed` are the messages
/// the endpoint's transports accepted before and after.
///
/// A connection that is not probed, or whose probe needs nothing, is left alone. An
/// expired one is revoked with a time-out failure. A quiet one is pinged: when the
/// transport takes the health ping, it is the one message added and the probe is
/// queued; when the transport refuses it, the connection is revoked with the
/// transport's failure. Either way the health ping is the one message handed over.
pub open spec fn tick_outcome(
    mid: Option<ConnectionView>,
    fin: Option<ConnectionView>,
    old_failure: Option<FailureView>,
    fin_failure: Option<FailureView>,
    handed: Seq<ClientMessage>,
    fin_handed: Seq<ClientMessage>,
    id: ClientEndpointId,
    now: u64,
) -> bool {
    match mid {
        None => fin is None && fin_failure == old_failure && fin_handed == handed,
        Some(c) => match c.health {
            None => fin == mid && fin_failure == old_failure && fin_handed == handed,
            Some(h) => match health_action(h, now) {
                HealthAction::Nothing => fin == mid && fin_failure == old_failure && fin_handed == handed,
                HealthAction::Expired => fin is None && fin_handed == handed && fin_failure == Some(
                    FailureView {
                        endpoint_id: id,
                        generation: c.generation,
                        kind: TransportErrorKind::TimedOut,
                        message: HEALTH_TIMEOUT_MESSAGE@,
                    },
                ),
                HealthAction::Ping => {
                    &&& fin_handed.len() == handed.len() + 1
                    &&& fin_handed.drop_last() == handed
                    &&& is_health_ping(fin_handed.last())
                    &&& {
                        ||| (exists|known: Option<u64>|
                            fin == Some(ConnectionView { health: Some(#[trigger] health_queued(h, known)), ..c }))
                            && fin_failure == old_failure
                        ||| fin is None && fin_failure is Some && fin_failure->0.endpoint_id == id
                            && fin_failure->0.generation == c.generation
                    }
                },
            },
        },
    }
}

/// What taking the failures does to the endpoint `id`: a connection whose transport
/// reported an error is revoked with a failure of its generation; any other endpoint
/// keeps its connection and its failure entry.
pub open spec fn take_outcome(
    old: Option<ConnectionView>,
    fin: Option<ConnectionView>,
    old_failure: Option<FailureView>,
    fin_failure: Option<FailureView>,
    id: ClientEndpointId,
) -> bool {
    match old {
        None => fin is None && fin_failure == old_failure,
        Some(c) => {
            ||| fin == old && fin_failure == old_failure
            ||| fin is None && fin_failure is Some && fin_failure->0.endpoint_id == id
                && fin_failure->0.generation == c.generation
        },
    }
}

proof fn lemma_upsert_failure(fs: Seq<FailureView>, f: FailureView)
    requires
        unique_keys(failure_keys(fs)),
    ensures
        unique_keys(failure_keys(upsert_failure(fs, f))),
        failure_of(upsert_failure(fs, f), f.endpoint_id) == Some(f),
        forall|k: ClientEndpointId| k != f.endpoint_id ==> #[trigger] failure_of(upsert_failure(fs, f), k)
            == failure_of(fs, k),
        failures_extended(fs, upsert_failure(fs, f)),
{
    let keys = failure_keys(fs);
    let i = key_index(keys, f.endpoint_id);
    lemma_key_index(keys, f.endpoint_id);
    if i >= 0 {
        lemma_failure_keys_update(fs, i, f);
        lemma_keyed_map_update(keys, fs, i, f);
    } else {
        lemma_failure_keys_push(fs, f);
        lemma_keyed_map_push(keys, fs, f.endpoint_id, f);
    }
    let m = keyed_map(keys, fs).insert(f.endpoint_id, f);
    assert(keyed_map(failure_keys(upsert_failure(fs, f)), upsert_failure(fs, f)) == m);
}

/// The client's connections to its endpoints.
pub struct EndpointRegistry<T> {
    active: ClientEndpointId,
    input_enabled: bool,
    ids: Vec<ClientEndpointId>,
    connections: Vec<EndpointConnection<T>>,
    failures: Vec<EndpointTransportFailure>,
    /// The instant the registry's clock counts from.
    origin: std::time::Instant,
    /// Per endpoint, the messages its transports accepted from this registry, in
    /// order.
    handed: Ghost<Map<ClientEndpointId, Seq<ClientMessage>>>,
}

/// The message a transport call hands over.
pub open spec fn call_message(call: TransportCall) -> ClientMessage {
    match call {
        TransportCall::Send(m) => *m,
        TransportCall::SendTracked(m, _) => *m,
    }
}

/// Whether `m` is the health probe: an endpoint-control message of kind
/// [`HEALTH_PING_KIND`] with no data.
pub open spec fn is_health_ping(m: ClientMessage) -> bool {
    m matches ClientMessage::EndpointControl { kind, data } && kind@ == HEALTH_PING_KIND@ && data@
        == Seq::<char>::empty()
}

/// The abstract states of `cs`, in order.
pub open spec fn connection_views<T>(cs: Seq<EndpointConnection<T>>) -> Seq<ConnectionView> {
    cs.map_values(|c: EndpointConnection<T>| c@)
}

/// The abstract states of `fs`, in order.
pub open spec fn failure_views(fs: Seq<EndpointTransportFailure>) -> Seq<FailureView> {
    fs.map_values(|f: EndpointTransportFailure| f@)
}

impl<T> View for EndpointRegistry<T> {
    type V = RegistryView;

    closed spec fn view(&self) -> RegistryView {
        RegistryView {
            active: self.active,
            input_enabled: self.input_enabled,
            connections: keyed_map(self.ids@, connection_views(self.connections@)),
            failures: failure_views(self.failures@),
        }
    }
}

proof fn lemma_failure_keys_update(fs: Seq<FailureView>, i: int, f: FailureView)
    requires
        0 <= i < fs.len(),
        fs[i].endpoint_id == f.endpoint_id,
    ensures
        failure_keys(fs.update(i, f)) == failure_keys(fs),
{
    assert(failure_keys(fs.update(i, f)) =~= failure_keys(fs));
}

proof fn lemma_failure_keys_push(fs: Seq<FailureView>, f: FailureView)
    ensures
        failure_keys(fs.push(f)) == failure_keys(fs).push(f.endpoint_id),
{
    assert(failure_keys(fs.push(f)) =~= failure_keys(fs).push(f.endpoint_id));
}

proof fn lemma_failure_keys_remove(fs: Seq<FailureView>, i: int)
    requires
        0 <= i < fs.len(),
    ensures
        failure_keys(fs.remove(i)) == failure_keys(fs).remove(i),
{
    assert(failure_keys(fs.remove(i)) =~= failure_keys(fs).remove(i));
}

/// What sending `message` to `id` did, from registry `a` to registry `b`: without
/// a connection nothing changed; otherwise the message was handed to the
/// connection's transport, which either took it (`Sent`, the state unchanged) or
/// failed, revoking the connection with the transport's error (`NotSent`).
pub open spec fn send_outcome<T: EndpointTransport>(
    a: EndpointRegistry<T>,
    b: EndpointRegistry<T>,
    id: ClientEndpointId,
    message: ClientMessage,
    r: EndpointSendOutcome,
) -> bool {
    if a@.connections.dom().contains(id) {
        &&& b.handed_log() == a.handed_log().insert(id, a.handed(id).push(message))
        &&& match r {
            EndpointSendOutcome::Sent => b@ == a@,
            EndpointSendOutcome::NotSent => exists|kind: TransportErrorKind, text: Seq<char>|
                b@ == #[trigger] recorded(a@, id, kind, text),
        }
    } else {
        r == EndpointSendOutcome::NotSent && b@ == a@ && b.handed_log() == a.handed_log()
    }
}

impl<T: EndpointTransport> EndpointRegistry<T> {
    /// The registry's own consistency: one connection per endpoint, and at most one
    /// pending failure per endpoint.
    pub closed spec fn wf(&self) -> bool {
        &&& self.ids@.len() == self.connections@.len()
        &&& unique_keys(self.ids@)
        &&& unique_keys(failure_keys(self@.failures))
    }

    /// The messages the transports of connections to `id` accepted from this
    /// registry, in order.
    pub closed spec fn handed(&self, id: ClientEndpointId) -> Seq<ClientMessage> {
        if self.handed@.dom().contains(id) {
            self.handed@[id]
        } else {
            Seq::empty()
        }
    }

    /// What [`Self::handed`] says of every endpoint.
    pub closed spec fn handed_log(&self) -> Map<ClientEndpointId, Seq<ClientMessage>> {
        self.handed@
    }

    /// A registry with no connections, showing the local endpoint with input frozen.
    pub fn empty() -> (r: Self)
        ensures
            r.wf(),
            forall|id: ClientEndpointId| #[trigger] r.handed(id) == Seq::<ClientMessage>::empty(),
            r@ == (RegistryView {
                active: ClientEndpointId::Local,
                input_enabled: false,
                connections: Map::empty(),
                failures: Seq::empty(),
            }),
    {
        let r = EndpointRegistry {
            active: ClientEndpointId::Local,
            input_enabled: false,
            ids: Vec::new(),
            connections: Vec::new(),
            failures: Vec::new(),
            origin: crate::clock::instant_now(),
            handed: Ghost(Map::empty()),
        };
        proof {
            assert(r@.connections =~= Map::empty());
            assert(r@.failures =~= Seq::empty());
            assert(failure_keys(r@.failures) =~= Seq::empty());
        }
        r
    }

    /// A registry connected to the local endpoint through `local`, with input
    /// enabled. The local endpoint is never health-probed, so its connection is stamped 0.
    pub fn new(local: T, generation: u64, negotiation: EndpointNegotiation) -> (r: Self)
        ensures
            r.wf(),
            r@.active == ClientEndpointId::Local,
            r@.input_enabled,
            r@.connections == Map::<ClientEndpointId, ConnectionView>::empty().insert(
                ClientEndpointId::Local,
                new_connection(ClientEndpointId::Local, generation, negotiation@, true, 0),
            ),
            r@.failures == Seq::<FailureView>::empty(),
            forall|id: ClientEndpointId| #[trigger] r.handed(id) == Seq::<ClientMessage>::empty(),
    {
        let mut registry = Self::empty();
        let ghost fresh = registry;
        registry.input_enabled = true;
        registry.insert_at(ClientEndpointId::Local, local, generation, negotiation, true, 0);
        proof {
            assert forall|id: ClientEndpointId| #[trigger] registry.handed(id) == Seq::<ClientMessage>::empty() by {
                assert(fresh.handed(id) == Seq::<ClientMessage>::empty());
                assert(registry.handed@ == fresh.handed@);
            }
        }
        registry
    }

    /// The registry's clock: whole milliseconds on the machine's monotonic clock
    /// since the registry was made. Health instants, send stamps and deadlines
    /// are all read from it. Nothing is stated of the value: it is what the
    /// clock reads.
    pub fn now_ms(&self) -> (ms: u64) {
        crate::clock::ms_since(&self.origin)
    }

    /// The endpoint whose surface the client shows.
    pub fn active_id(&self) -> (r: &ClientEndpointId)
        ensures
            *r == self@.active,
    {
        &self.active
    }

    /// Where the connection to `id` stands in the registry's lists.
    fn index_of(&self, id: &ClientEndpointId) -> (r: Option<usize>)
        requires
            self.wf(),
        ensures
            match r {
                Some(i) => i < self.ids@.len() && key_index(self.ids@, *id) == i,
                None => key_index(self.ids@, *id) == -1,
            },
    {
        let mut i: usize = 0;
        while i < self.ids.len()
            invariant
                i <= self.ids@.len(),
                unique_keys(self.ids@),
                forall|k: int| 0 <= k < i ==> self.ids@[k] != *id,
            decreases self.ids@.len() - i,
        {
            if self.ids[i] == *id {
                proof {
                    lemma_key_index_unique(self.ids@, *id, i as int);
                }
                return Some(i);
            }
            i = i + 1;
        }
        proof {
            lemma_key_index(self.ids@, *id);
        }
        None
    }

    /// Where the failure of `id` stands in the failure list.
    fn failure_index(&self, id: &ClientEndpointId) -> (r: Option<usize>)
        requires
            self.wf(),
        ensures
            match r {
                Some(i) => i < self.failures@.len() && key_index(failure_keys(self@.failures), *id) == i,
                None => key_index(failure_keys(self@.failures), *id) == -1,
            },
    {
        let ghost keys = failure_keys(self@.failures);
        let mut i: usize = 0;
        while i < self.failures.len()
            invariant
                i <= self.failures@.len(),
                keys == failure_keys(self@.failures),
                keys.len() == self.failures@.len(),
                unique_keys(keys),
                forall|k: int| 0 <= k < i ==> keys[k] != *id,
            decreases self.failures@.len() - i,
        {
            if self.failures[i].endpoint_id == *id {
                proof {
                    assert(keys[i as int] == self.failures@[i as int].endpoint_id);
                    lemma_key_index_unique(keys, *id, i as int);
                }
                return Some(i);
            }
            proof {
                assert(keys[i as int] == self.failures@[i as int].endpoint_id);
            }
            i = i + 1;
        }
        proof {
            lemma_key_index(keys, *id);
        }
        None
    }

    /// Whether the client can show and drive the active endpoint: input is enabled
    /// and the active endpoint is connected with an active surface.
    pub fn active_surface_available(&self) -> (r: bool)
        requires
            self.wf(),
        ensures
            r == (self@.input_enabled && self@.connections.dom().contains(self@.active)
                && self@.connections[self@.active].surface_active),
    {
        if !self.input_enabled {
            return false;
        }
        proof {
            lemma_keyed_map(self.ids@, connection_views(self.connections@));
        }
        match self.index_of(&self.active) {
            Some(i) => self.connections[i].surface_active,
            None => false,
        }
    }

    /// Falls back to the local endpoint while it is unavailable: it becomes active
    /// and input is frozen.
    pub fn select_unavailable_local(&mut self)
        requires
            old(self).wf(),
        ensures
            final(self).wf(),
            final(self).handed_log() == old(self).handed_log(),
            final(self)@ == (RegistryView { active: ClientEndpointId::Local, input_enabled: false, ..old(self)@ }),
    {
        self.active = ClientEndpointId::Local;
        self.freeze_input();
    }

    /// Stops input from reaching the active endpoint.
    pub fn freeze_input(&mut self)
        requires
            old(self).wf(),
        ensures
            final(self).wf(),
            final(self).handed_log() == old(self).handed_log(),
            final(self)@ == (RegistryView { input_enabled: false, ..old(self)@ }),
    {
        self.input_enabled = false;
    }

    /// Lets input reach the active endpoint again.
    pub fn unfreeze_input(&mut self)
        requires
            old(self).wf(),
        ensures
            final(self).wf(),
            final(self).handed_log() == old(self).handed_log(),
            final(self)@ == (RegistryView { input_enabled: true, ..old(self)@ }),
    {
        self.input_enabled = true;
    }

    /// The connection to `id`, if one is live.
    pub fn connection(&self, id: &ClientEndpointId) -> (r: Option<&EndpointConnection<T>>)
        requires
            self.wf(),
        ensures
            match r {
                Some(c) => self@.connections.dom().contains(*id) && c@ == self@.connections[*id],
                None => !self@.connections.dom().contains(*id),
            },
    {
        proof {
            lemma_keyed_map(self.ids@, connection_views(self.connections@));
        }
        match self.index_of(id) {
            Some(i) => Some(&self.connections[i]),
            None => None,
        }
    }

    /// Opens a connection to `id` over `transport`, replacing (and disconnecting)
    /// any previous connection to it. A probed endpoint's health clock starts at the
    /// current time.
    pub fn insert(
        &mut self,
        id: ClientEndpointId,
        transport: T,
        generation: u64,
        negotiation: EndpointNegotiation,
        surface_active: bool,
    )
        requires
            old(self).wf(),
        ensures
            final(self).wf(),
            final(self).handed_log() == old(self).handed_log(),
            exists|now: u64|
                final(self)@ == (RegistryView {
                    connections: old(self)@.connections.insert(
                        id,
                        #[trigger] new_connection(id, generation, negotiation@, surface_active, now),
                    ),
                    ..old(self)@
                }),
    {
        let now = self.now_ms();
        self.insert_at(id, transport, generation, negotiation, surface_active, now);
    }

    /// [`Self::insert`] with the current time given as `now`.
    pub fn insert_at(
        &mut self,
        id: ClientEndpointId,
        transport: T,
        generation: u64,
        negotiation: EndpointNegotiation,
        surface_active: bool,
        now: u64,
    )
        requires
            old(self).wf(),
        ensures
            final(self).wf(),
            final(self).handed_log() == old(self).handed_log(),
            final(self)@ == (RegistryView {
                connections: old(self)@.connections.insert(
                    id,
                    new_connection(id, generation, negotiation@, surface_active, now),
                ),
                ..old(self)@
            }),
    {
        let health = if !id.is_local() && negotiation.supports_health_check() {
            Some(EndpointHealth::new(now))
        } else {
            None
        };
        let connection = EndpointConnection { transport, generation, surface_active, negotiation, health };
        let ghost cv = connection@;
        let ghost old_views = connection_views(self.connections@);
        assert(cv == new_connection(id, generation, connection.negotiation@, surface_active, now));
        match self.index_of(&id) {
            Some(i) => {
                let mut previous = self.connections.remove(i);
                self.connections.insert(i, connection);
                previous.transport.disconnect();
                proof {
                    lemma_key_index(self.ids@, id);
                    assert(connection_views(self.connections@) =~= old_views.update(i as int, cv));
                    lemma_keyed_map_update(self.ids@, old_views, i as int, cv);
                }
            },
            None => {
                self.ids.push(id);
                self.connections.push(connection);
                proof {
                    assert(connection_views(self.connections@) =~= old_views.push(cv));
                    lemma_keyed_map_push(old(self).ids@, old_views, id, cv);
                }
            },
        }
    }

    /// Whether a message of `generation` from `id` belongs to its live connection.
    pub fn accepts(&self, id: &ClientEndpointId, generation: u64) -> (r: bool)
        requires
            self.wf(),
        ensures
            r == (self@.connections.dom().contains(*id) && self@.connections[*id].generation == generation),
    {
        proof {
            lemma_keyed_map(self.ids@, connection_views(self.connections@));
        }
        match self.index_of(id) {
            Some(i) => self.connections[i].generation == generation,
            None => false,
        }
    }

    /// A message of `generation` from `id` arrived at `now`: it satisfies the
    /// connection's probe. Messages of other generations are ignored.
    pub fn received(&mut self, id: &ClientEndpointId, generation: u64, now: u64)
        requires
            old(self).wf(),
        ensures
            final(self).wf(),
            final(self).handed_log() == old(self).handed_log(),
            final(self)@ == with_health(old(self)@, *id, generation, |h: HealthView| health_received(h, now)),
    {
        proof {
            lemma_keyed_map(self.ids@, connection_views(self.connections@));
        }
        if let Some(i) = self.index_of(id) {
            if self.connections[i].generation == generation && self.connections[i].health.is_some() {
                let ghost old_views = connection_views(self.connections@);
                let mut connection = self.connections.remove(i);
                let mut health = connection.health.take().unwrap();
                health.received(now);
                connection.health = Some(health);
                let ghost cv = connection@;
                self.connections.insert(i, connection);
                proof {
                    lemma_key_index(self.ids@, *id);
                    assert(connection_views(self.connections@) =~= old_views.update(i as int, cv));
                    lemma_keyed_map_update(self.ids@, old_views, i as int, cv);
                    assert(self@.connections =~= with_health(old(self)@, *id, generation, |h: HealthView| health_received(h, now)).connections);
                }
            }
        }
    }

    /// The connection of `generation` to `id` delivered its initial snapshot.
    pub fn mark_ready(&mut self, id: &ClientEndpointId, generation: u64)
        requires
            old(self).wf(),
        ensures
            final(self).wf(),
            final(self).handed_log() == old(self).handed_log(),
            final(self)@ == with_health(old(self)@, *id, generation, |h: HealthView| health_ready(h)),
    {
        proof {
            lemma_keyed_map(self.ids@, connection_views(self.connections@));
        }
        if let Some(i) = self.index_of(id) {
            if self.connections[i].generation == generation && self.connections[i].health.is_some() {
                let ghost old_views = connection_views(self.connections@);
                let mut connection = self.connections.remove(i);
                let mut health = connection.health.take().unwrap();
                health.ready();
                connection.health = Some(health);
                let ghost cv = connection@;
                self.connections.insert(i, connection);
                proof {
                    lemma_key_index(self.ids@, *id);
                    assert(connection_views(self.connections@) =~= old_views.update(i as int, cv));
                    lemma_keyed_map_update(self.ids@, old_views, i as int, cv);
                    assert(self@.connections =~= with_health(old(self)@, *id, generation, |h: HealthView| health_ready(h)).connections);
                }
            }
        }
    }

    /// Shows `id` when it is connected with an active surface; reports whether it
    /// became active.
    pub fn set_active(&mut self, id: &ClientEndpointId) -> (r: bool)
        requires
            old(self).wf(),
        ensures
            final(self).wf(),
            final(self).handed_log() == old(self).handed_log(),
            r == (old(self)@.connections.dom().contains(*id) && old(self)@.connections[*id].surface_active),
            final(self)@ == if r { RegistryView { active: *id, ..old(self)@ } } else { old(self)@ },
    {
        proof {
            lemma_keyed_map(self.ids@, connection_views(self.connections@));
        }
        let available = match self.index_of(id) {
            Some(i) => self.connections[i].surface_active,
            None => false,
        };
        if !available {
            return false;
        }
        self.active = *id;
        true
    }

    /// Records whether `id` offers an active surface; reports whether that changed.
    /// Without a connection to `id` nothing changes.
    pub fn set_surface_active(&mut self, id: &ClientEndpointId, active: bool) -> (r: bool)
        requires
            old(self).wf(),
        ensures
            final(self).wf(),
            final(self).handed_log() == old(self).handed_log(),
            r == (old(self)@.connections.dom().contains(*id) && old(self)@.connections[*id].surface_active
                != active),
            final(self)@ == if old(self)@.connections.dom().contains(*id) {
                RegistryView {
                    connections: old(self)@.connections.insert(
                        *id,
                        ConnectionView { surface_active: active, ..old(self)@.connections[*id] },
                    ),
                    ..old(self)@
                }
            } else {
                old(self)@
            },
    {
        proof {
            lemma_keyed_map(self.ids@, connection_views(self.connections@));
        }
        match self.index_of(id) {
            None => false,
            Some(i) => {
                let ghost old_views = connection_views(self.connections@);
                let mut connection = self.connections.remove(i);
                let changed = connection.surface_active != active;
                connection.surface_active = active;
                let ghost cv = connection@;
                self.connections.insert(i, connection);
                proof {
                    lemma_key_index(self.ids@, *id);
                    assert(connection_views(self.connections@) =~= old_views.update(i as int, cv));
                    lemma_keyed_map_update(self.ids@, old_views, i as int, cv);
                }
                changed
            },
        }
    }


    /// Runs one transport call against the connection to `id`, revoking it on
    /// failure. Every path that writes to an endpoint goes through here, so a health
    /// ping fails a connection exactly like input does.
    ///
    /// Without a connection to `id` nothing is called and nothing changes: the
    /// error is "endpoint is unavailable" (not connected). Otherwise the call's
    /// message is handed to the connection's transport; when the transport accepts
    /// it the reply comes back and the state is unchanged, and when it fails the
    /// connection is revoked with exactly the error the transport returned, which
    /// comes back too.
    pub fn dispatch(&mut self, id: &ClientEndpointId, call: TransportCall) -> (r: Result<
        TransportReply,
        TransportError,
    >)
        requires
            old(self).wf(),
        ensures
            final(self).wf(),
            old(self)@.connections.dom().contains(*id) ==> final(self).handed_log() == old(
                self,
            ).handed_log().insert(*id, old(self).handed(*id).push(call_message(call))),
            match r {
                Ok(reply) => old(self)@.connections.dom().contains(*id) && final(self)@ == old(self)@ && (call is Send
                    <==> reply is Sent),
                Err(e) => if old(self)@.connections.dom().contains(*id) {
                    final(self)@ == recorded(old(self)@, *id, e.kind, e.message@)
                } else {
                    &&& final(self)@ == old(self)@
                    &&& final(self).handed_log() == old(self).handed_log()
                    &&& e.kind == TransportErrorKind::NotConnected
                    &&& e.message@ == UNAVAILABLE_MESSAGE@
                },
            },
    {
        let ghost handed_message = call_message(call);
        proof {
            lemma_keyed_map(self.ids@, connection_views(self.connections@));
        }
        let i = match self.index_of(id) {
            None => {
                return Err(TransportError { kind: TransportErrorKind::NotConnected, message: UNAVAILABLE_MESSAGE.to_owned() });
            },
            Some(i) => i,
        };
        proof {
            lemma_key_index(self.ids@, *id);
        }
        let ghost old_views = connection_views(self.connections@);
        let result = match call {
            TransportCall::Send(message) => match self.connections[i].transport.send(message) {
                Ok(()) => Ok(TransportReply::Sent),
                Err(error) => Err(error),
            },
            TransportCall::SendTracked(message, at) => match self.connections[i].transport.send_tracked(
                message,
                at,
            ) {
                Ok(receipt) => Ok(TransportReply::Receipt(receipt)),
                Err(error) => Err(error),
            },
        };
        self.handed = Ghost(self.handed@.insert(*id, self.handed(*id).push(handed_message)));
        proof {
            assert(connection_views(self.connections@) =~= old_views);
            lemma_keyed_map(self.ids@, old_views);
        }
        match result {
            Ok(reply) => Ok(reply),
            Err(error) => {
                let reported = TransportError { kind: error.kind, message: error.message.clone() };
                self.record_failure(*id, error);
                Err(reported)
            },
        }
    }

    /// Sends `message` to the active endpoint, as [`Self::send_to`] does.
    pub fn send(&mut self, message: &ClientMessage) -> (r: EndpointSendOutcome)
        requires
            old(self).wf(),
        ensures
            final(self).wf(),
            send_outcome(*old(self), *final(self), old(self)@.active, *message, r),
    {
        let id = self.active;
        self.send_to(&id, message)
    }

    /// Sends `message` to `id`. A transport failure revokes the connection.
    pub fn send_to(&mut self, id: &ClientEndpointId, message: &ClientMessage) -> (r: EndpointSendOutcome)
        requires
            old(self).wf(),
        ensures
            final(self).wf(),
            send_outcome(*old(self), *final(self), *id, *message, r),
    {
        match self.dispatch(id, TransportCall::Send(message)) {
            Ok(_) => EndpointSendOutcome::Sent,
            Err(_) => EndpointSendOutcome::NotSent,
        }
    }

    /// Promotes every draining probe whose ping has left its writer.
    fn settle_all(&mut self)
        requires
            old(self).wf(),
        ensures
            final(self).wf(),
            settled_connections(old(self)@.connections, final(self)@.connections),
            final(self).handed_log() == old(self).handed_log(),
            final(self)@.active == old(self)@.active,
            final(self)@.input_enabled == old(self)@.input_enabled,
            final(self)@.failures == old(self)@.failures,
    {
        let ghost old_views = connection_views(self.connections@);
        let mut k: usize = 0;
        while k < self.connections.len()
            invariant
                self.wf(),
                self.ids@ == old(self).ids@,
                self.failures@ == old(self).failures@,
                self.handed@ == old(self).handed@,
                self.active == old(self).active,
                self.input_enabled == old(self).input_enabled,
                self.connections@.len() == old_views.len(),
                k <= self.connections@.len(),
                forall|a: int| 0 <= a < k ==> settled_connection(old_views[a], #[trigger] connection_views(self.connections@)[a]),
                forall|a: int| k <= a < old_views.len() ==> #[trigger] connection_views(self.connections@)[a] == old_views[a],
            decreases self.connections@.len() - k,
        {
            let ghost before = connection_views(self.connections@);
            if self.connections[k].health.is_some() {
                assert(before[k as int] == self.connections@[k as int]@);
                assert(connection_views(self.connections@)[k as int] == old_views[k as int]);
                let mut connection = self.connections.remove(k);
                let ghost c0 = connection@;
                let mut health = connection.health.take().unwrap();
                let ghost h0 = health@;
                health.settle();
                let ghost at = choose|at: Option<u64>| health@ == #[trigger] health_settled(h0, at);
                connection.health = Some(health);
                assert(connection@ == (ConnectionView { health: Some(health_settled(h0, at)), ..c0 }));
                self.connections.insert(k, connection);
                assert(connection_views(self.connections@) =~= before.update(k as int, connection@));
                assert(old_views[k as int] == c0);
                assert(c0.health == Some(h0));
                assert(settled_connection(old_views[k as int], connection_views(self.connections@)[k as int]));
            }
            k = k + 1;
        }
        proof {
            let views = connection_views(self.connections@);
            lemma_keyed_map(self.ids@, views);
            lemma_keyed_map(self.ids@, old_views);
            assert(self@.connections.dom() =~= old(self)@.connections.dom());
            assert forall|id: ClientEndpointId| #[trigger] old(self)@.connections.dom().contains(id) implies settled_connection(
                old(self)@.connections[id],
                self@.connections[id],
            ) by {
                lemma_key_index(self.ids@, id);
                let a = key_index(self.ids@, id);
                assert(views[a] == self@.connections[id]);
            }
        }
    }

    /// Runs the health check of the connection to `id` at `now`, leaving every other
    /// endpoint alone.
    fn apply_health(&mut self, id: &ClientEndpointId, now: u64)
        requires
            old(self).wf(),
        ensures
            final(self).wf(),
            tick_outcome(
                opt_get(old(self)@.connections, *id),
                opt_get(final(self)@.connections, *id),
                failure_of(old(self)@.failures, *id),
                failure_of(final(self)@.failures, *id),
                old(self).handed(*id),
                final(self).handed(*id),
                *id,
                now,
            ),
            forall|k: ClientEndpointId| k != *id ==> #[trigger] final(self).handed(k) == old(self).handed(k),
            forall|k: ClientEndpointId| k != *id ==> #[trigger] opt_get(final(self)@.connections, k) == opt_get(
                old(self)@.connections,
                k,
            ),
            forall|k: ClientEndpointId| k != *id ==> #[trigger] failure_of(final(self)@.failures, k) == failure_of(
                old(self)@.failures,
                k,
            ),
            failures_extended(old(self)@.failures, final(self)@.failures),
            final(self)@.active == old(self)@.active,
            final(self)@.input_enabled == old(self)@.input_enabled,
    {
        proof {
            lemma_keyed_map(self.ids@, connection_views(self.connections@));
        }
        let i = match self.index_of(id) {
            None => {
                return;
            },
            Some(i) => i,
        };
        proof {
            lemma_key_index(self.ids@, *id);
        }
        let action = match &self.connections[i].health {
            Some(health) => health.action(now),
            None => {
                return;
            },
        };
        match action {
            HealthAction::Nothing => {},
            HealthAction::Expired => {
                let ghost before = self@;
                self.record_failure(
                    *id,
                    TransportError {
                        kind: TransportErrorKind::TimedOut,
                        message: HEALTH_TIMEOUT_MESSAGE.to_owned(),
                    },
                );
                proof {
                    let f = FailureView {
                        endpoint_id: *id,
                        generation: before.connections[*id].generation,
                        kind: TransportErrorKind::TimedOut,
                        message: HEALTH_TIMEOUT_MESSAGE@,
                    };
                    lemma_upsert_failure(before.failures, f);
                }
            },
            HealthAction::Ping => {
                let ping = ClientMessage::EndpointControl { kind: HEALTH_PING_KIND.to_owned(), data: String::new() };
                let ghost before = self@;
                let ghost before_reg = *self;
                assert(is_health_ping(ping));
                match self.dispatch(id, TransportCall::SendTracked(&ping, now)) {
                    Ok(TransportReply::Receipt(receipt)) => {
                        proof {
                            lemma_keyed_map(self.ids@, connection_views(self.connections@));
                            assert(self.handed(*id) == before_reg.handed(*id).push(ping));
                            assert(self.handed(*id).drop_last() =~= before_reg.handed(*id));
                            assert forall|k: ClientEndpointId| k != *id implies #[trigger] self.handed(k)
                                == before_reg.handed(k) by {}
                        }
                        if let Some(j) = self.index_of(id) {
                            proof {
                                lemma_key_index(self.ids@, *id);
                            }
                            if self.connections[j].health.is_some() {
                                let ghost old_views = connection_views(self.connections@);
                                let mut connection = self.connections.remove(j);
                                let mut health = connection.health.take().unwrap();
                                health.ping_queued(receipt);
                                connection.health = Some(health);
                                let ghost cv = connection@;
                                self.connections.insert(j, connection);
                                proof {
                                    assert(connection_views(self.connections@) =~= old_views.update(j as int, cv));
                                    lemma_keyed_map_update(self.ids@, old_views, j as int, cv);
                                }
                            }
                        }
                    },
                    Ok(TransportReply::Sent) => {},
                    Err(error) => {
                        proof {
                            assert(self.handed(*id) == before_reg.handed(*id).push(ping));
                            assert(self.handed(*id).drop_last() =~= before_reg.handed(*id));
                            assert forall|k: ClientEndpointId| k != *id implies #[trigger] self.handed(k)
                                == before_reg.handed(k) by {}
                            let f = FailureView {
                                endpoint_id: *id,
                                generation: before.connections[*id].generation,
                                kind: error.kind,
                                message: error.message@,
                            };
                            lemma_upsert_failure(before.failures, f);
                        }
                    },
                }
            },
        }
    }

    /// One health tick at `now`: every probe whose ping has left its writer starts
    /// its reply window, then each probed connection is pinged when it has been
    /// quiet for the heartbeat interval, and revoked with a time-out failure when its
    /// initial snapshot or its sent probe went unanswered for the timeout.
    ///
    /// Which probes left their writers is reported by the transports; whatever they
    /// report, the result is the tick of the connections settled by it.
    pub fn tick_health(&mut self, now: u64)
        requires
            old(self).wf(),
        ensures
            final(self).wf(),
            exists|mid: Map<ClientEndpointId, ConnectionView>|
                #[trigger] settled_connections(old(self)@.connections, mid) && forall|id: ClientEndpointId|
                    #[trigger] tick_outcome(
                        opt_get(mid, id),
                        opt_get(final(self)@.connections, id),
                        failure_of(old(self)@.failures, id),
                        failure_of(final(self)@.failures, id),
                        old(self).handed(id),
                        final(self).handed(id),
                        id,
                        now,
                    ),
            failures_extended(old(self)@.failures, final(self)@.failures),
            final(self)@.active == old(self)@.active,
            final(self)@.input_enabled == old(self)@.input_enabled,
    {
        self.settle_all();
        let ghost mid = self@.connections;
        let ghost old_failures = self@.failures;
        let ghost old_handed = *old(self);
        let snapshot = self.ids.clone();
        proof {
            lemma_keyed_map(self.ids@, connection_views(self.connections@));
        }
        let mut j: usize = 0;
        while j < snapshot.len()
            invariant
                self.wf(),
                j <= snapshot@.len(),
                unique_keys(snapshot@),
                forall|id: ClientEndpointId| #[trigger] mid.dom().contains(id) <==> key_index(snapshot@, id) >= 0,
                forall|id: ClientEndpointId|
                    0 <= #[trigger] key_index(snapshot@, id) < j ==> tick_outcome(
                        opt_get(mid, id),
                        opt_get(self@.connections, id),
                        failure_of(old_failures, id),
                        failure_of(self@.failures, id),
                        old_handed.handed(id),
                        self.handed(id),
                        id,
                        now,
                    ),
                forall|id: ClientEndpointId|
                    !(0 <= #[trigger] key_index(snapshot@, id) < j) ==> opt_get(self@.connections, id) == opt_get(mid, id)
                        && failure_of(self@.failures, id) == failure_of(old_failures, id)
                        && self.handed(id) == old_handed.handed(id),
                failures_extended(old_failures, self@.failures),
                self@.active == old(self)@.active,
                self@.input_enabled == old(self)@.input_enabled,
            decreases snapshot@.len() - j,
        {
            let ghost before = self@;
            let ghost before_reg = *self;
            let id = snapshot[j];
            self.apply_health(&id, now);
            proof {
                lemma_key_index_unique(snapshot@, id, j as int);
                assert forall|k: ClientEndpointId| 0 <= #[trigger] key_index(snapshot@, k) < j + 1 implies tick_outcome(
                    opt_get(mid, k),
                    opt_get(self@.connections, k),
                    failure_of(old_failures, k),
                    failure_of(self@.failures, k),
                    old_handed.handed(k),
                    self.handed(k),
                    k,
                    now,
                ) by {
                    lemma_key_index(snapshot@, k);
                    if k != id {
                        assert(key_index(snapshot@, k) < j);
                        assert(opt_get(self@.connections, k) == opt_get(before.connections, k));
                        assert(failure_of(self@.failures, k) == failure_of(before.failures, k));
                        assert(self.handed(k) == before_reg.handed(k));
                    } else {
                        assert(!(0 <= key_index(snapshot@, id) < j));
                        assert(opt_get(before.connections, id) == opt_get(mid, id));
                        assert(failure_of(before.failures, id) == failure_of(old_failures, id));
                    }
                }
                assert forall|k: ClientEndpointId| !(0 <= #[trigger] key_index(snapshot@, k) < j + 1) implies opt_get(
                    self@.connections,
                    k,
                ) == opt_get(mid, k) && failure_of(self@.failures, k) == failure_of(old_failures, k)
                    && self.handed(k) == old_handed.handed(k) by {
                    assert(k != id);
                    assert(self.handed(k) == before_reg.handed(k));
                    assert(opt_get(self@.connections, k) == opt_get(before.connections, k));
                    assert(failure_of(self@.failures, k) == failure_of(before.failures, k));
                }
            }
            j = j + 1;
        }
        proof {
            assert forall|id: ClientEndpointId| #[trigger] tick_outcome(
                opt_get(mid, id),
                opt_get(self@.connections, id),
                failure_of(old_failures, id),
                failure_of(self@.failures, id),
                old_handed.handed(id),
                self.handed(id),
                id,
                now,
            ) by {
                lemma_key_index(snapshot@, id);
                if !(0 <= key_index(snapshot@, id) < j) {
                    assert(!mid.dom().contains(id));
                }
            }
            assert(settled_connections(old(self)@.connections, mid));
        }
    }


    /// Collects the failures that transports met on their own, revoking those
    /// connections, and hands over every pending failure, oldest first.
    ///
    /// Which transports report a failure, and what it says, is theirs to decide;
    /// whatever they report, every other connection stays as it was.
    pub fn take_failures(&mut self) -> (r: Vec<EndpointTransportFailure>)
        requires
            old(self).wf(),
        ensures
            final(self).wf(),
            final(self).handed_log() == old(self).handed_log(),
            final(self)@.failures == Seq::<FailureView>::empty(),
            final(self)@.active == old(self)@.active,
            final(self)@.input_enabled == old(self)@.input_enabled,
            forall|id: ClientEndpointId| #[trigger] take_outcome(
                opt_get(old(self)@.connections, id),
                opt_get(final(self)@.connections, id),
                failure_of(old(self)@.failures, id),
                failure_of(failure_views(r@), id),
                id,
            ),
            unique_keys(failure_keys(failure_views(r@))),
            failures_extended(old(self)@.failures, failure_views(r@)),
    {
        let ghost start = self@;
        let snapshot = self.ids.clone();
        let ghost views = connection_views(self.connections@);
        let mut errors: Vec<Option<TransportError>> = Vec::new();
        let mut k: usize = 0;
        while k < self.connections.len()
            invariant
                self.handed@ == old(self).handed@,
                self.wf(),
                self.ids@ == snapshot@,
                self.failures@ == old(self).failures@,
                self.active == old(self).active,
                self.input_enabled == old(self).input_enabled,
                connection_views(self.connections@) == views,
                k <= self.connections@.len(),
                errors@.len() == k,
            decreases self.connections@.len() - k,
        {
            let error = self.connections[k].transport.take_error();
            assert(connection_views(self.connections@) =~= views);
            errors.push(error);
            k = k + 1;
        }
        assert(self@ == start);
        proof {
            lemma_keyed_map(self.ids@, views);
        }
        let mut j: usize = 0;
        while j < snapshot.len()
            invariant
                self.handed@ == old(self).handed@,
                self.wf(),
                j <= snapshot@.len(),
                errors@.len() == snapshot@.len(),
                unique_keys(snapshot@),
                forall|id: ClientEndpointId| #[trigger] start.connections.dom().contains(id) <==> key_index(snapshot@, id) >= 0,
                forall|id: ClientEndpointId|
                    0 <= #[trigger] key_index(snapshot@, id) < j ==> take_outcome(
                        opt_get(start.connections, id),
                        opt_get(self@.connections, id),
                        failure_of(start.failures, id),
                        failure_of(self@.failures, id),
                        id,
                    ),
                forall|id: ClientEndpointId|
                    !(0 <= #[trigger] key_index(snapshot@, id) < j) ==> opt_get(self@.connections, id) == opt_get(
                        start.connections,
                        id,
                    ) && failure_of(self@.failures, id) == failure_of(start.failures, id),
                failures_extended(start.failures, self@.failures),
                self@.active == start.active,
                self@.input_enabled == start.input_enabled,
            decreases snapshot@.len() - j,
        {
            let ghost before = self@;
            let id = snapshot[j];
            proof {
                lemma_key_index_unique(snapshot@, id, j as int);
                assert(!(0 <= key_index(snapshot@, id) < j));
                assert(opt_get(before.connections, id) == opt_get(start.connections, id));
                assert(failure_of(before.failures, id) == failure_of(start.failures, id));
            }
            if let Some(error) = errors[j].clone() {
                proof {
                    assert(start.connections.dom().contains(id));
                }
                let ghost kind = error.kind;
                let ghost message = error.message@;
                self.record_failure(id, error);
                proof {
                    let f = FailureView {
                        endpoint_id: id,
                        generation: before.connections[id].generation,
                        kind,
                        message,
                    };
                    lemma_upsert_failure(before.failures, f);
                }
            }
            proof {
                assert forall|k: ClientEndpointId| 0 <= #[trigger] key_index(snapshot@, k) < j + 1 implies take_outcome(
                    opt_get(start.connections, k),
                    opt_get(self@.connections, k),
                    failure_of(start.failures, k),
                    failure_of(self@.failures, k),
                    k,
                ) by {
                    lemma_key_index(snapshot@, k);
                    if k != id {
                        assert(key_index(snapshot@, k) < j);
                        assert(opt_get(self@.connections, k) == opt_get(before.connections, k));
                        assert(failure_of(self@.failures, k) == failure_of(before.failures, k));
                    }
                }
                assert forall|k: ClientEndpointId| !(0 <= #[trigger] key_index(snapshot@, k) < j + 1) implies opt_get(
                    self@.connections,
                    k,
                ) == opt_get(start.connections, k) && failure_of(self@.failures, k) == failure_of(start.failures, k) by {
                    assert(k != id);
                    assert(opt_get(self@.connections, k) == opt_get(before.connections, k));
                    assert(failure_of(self@.failures, k) == failure_of(before.failures, k));
                }
            }
            j = j + 1;
        }
        let ghost taken = self@.failures;
        proof {
            assert forall|id: ClientEndpointId| #[trigger] take_outcome(
                opt_get(start.connections, id),
                opt_get(self@.connections, id),
                failure_of(start.failures, id),
                failure_of(taken, id),
                id,
            ) by {
                lemma_key_index(snapshot@, id);
                if !(0 <= key_index(snapshot@, id) < j) {
                    assert(!start.connections.dom().contains(id));
                }
            }
        }
        let mut out: Vec<EndpointTransportFailure> = Vec::new();
        std::mem::swap(&mut out, &mut self.failures);
        proof {
            assert(self@.failures =~= Seq::<FailureView>::empty());
            assert(failure_keys(self@.failures) =~= Seq::<ClientEndpointId>::empty());
            assert(failure_views(out@) == taken);
        }
        out
    }

    /// Detaches from every endpoint and closes every connection, as dropping the
    /// client's registry does: each connected transport is handed one detach
    /// message, then each is given until a quarter of a second after the start to
    /// drain and is disconnected, and the connections are gone. Whether a
    /// transport took the detach or drained in time is its own affair; pending
    /// failures, the active endpoint and input stay as they were.
    pub fn close(&mut self)
        requires
            old(self).wf(),
        ensures
            final(self).wf(),
            final(self)@ == (RegistryView { connections: Map::empty(), ..old(self)@ }),
            forall|id: ClientEndpointId| #[trigger] final(self).handed(id) == if old(self)@.connections.dom().contains(id) {
                old(self).handed(id).push(ClientMessage::Detach)
            } else {
                old(self).handed(id)
            },
    {
        let deadline = self.now_ms().saturating_add(250);
        let ghost start = *self;
        let ghost keys = self.ids@;
        let mut k: usize = 0;
        while k < self.connections.len()
            invariant
                self.wf(),
                k <= self.connections@.len(),
                self.ids@ == keys,
                self@ == start@,
                forall|id: ClientEndpointId| #[trigger] self.handed(id) == if 0 <= key_index(keys, id) < k {
                    start.handed(id).push(ClientMessage::Detach)
                } else {
                    start.handed(id)
                },
            decreases self.connections@.len() - k,
        {
            let ghost views = connection_views(self.connections@);
            let ghost before = *self;
            let id = self.ids[k];
            let _ = self.connections[k].transport.send(&ClientMessage::Detach);
            proof {
                assert(connection_views(self.connections@) =~= views);
                assert(self.handed@ == before.handed@);
            }
            self.handed = Ghost(self.handed@.insert(id, self.handed(id).push(ClientMessage::Detach)));
            proof {
                lemma_key_index_unique(keys, id, k as int);
                assert forall|j: ClientEndpointId| #[trigger] self.handed(j) == if 0 <= key_index(keys, j) < k + 1 {
                    start.handed(j).push(ClientMessage::Detach)
                } else {
                    start.handed(j)
                } by {
                    assert(before.handed(j) == if 0 <= key_index(keys, j) < k {
                        start.handed(j).push(ClientMessage::Detach)
                    } else {
                        start.handed(j)
                    });
                    if j != id {
                        assert(self.handed(j) == before.handed(j));
                        lemma_key_index(keys, j);
                        if key_index(keys, j) == k as int {
                            assert(keys[k as int] == j);
                        }
                    } else {
                        assert(self.handed(j) == before.handed(j).push(ClientMessage::Detach));
                    }
                }
            }
            k = k + 1;
        }
        proof {
            assert forall|id: ClientEndpointId| #[trigger] self.handed(id) == if key_index(keys, id) >= 0 {
                start.handed(id).push(ClientMessage::Detach)
            } else {
                start.handed(id)
            } by {
                lemma_key_index(keys, id);
            }
        }
        let ghost sent_log = self.handed@;
        let ghost after_send = *self;
        let mut k: usize = 0;
        while k < self.connections.len()
            invariant
                self.wf(),
                k <= self.connections@.len(),
                self.ids@ == keys,
                self@ == start@,
                self.handed@ == sent_log,
            decreases self.connections@.len() - k,
        {
            let ghost views = connection_views(self.connections@);
            let _ = self.connections[k].transport.flush(deadline);
            self.connections[k].transport.disconnect();
            proof {
                assert(connection_views(self.connections@) =~= views);
            }
            k = k + 1;
        }
        self.ids = Vec::new();
        self.connections = Vec::new();
        proof {
            assert(self.handed@ == after_send.handed@);
            assert forall|id: ClientEndpointId| #[trigger] self.handed(id) == after_send.handed(id) by {}
            assert(connection_views(self.connections@) =~= Seq::<ConnectionView>::empty());
            assert(self@.connections =~= Map::<ClientEndpointId, ConnectionView>::empty());
            lemma_keyed_map(keys, connection_views(start.connections@));
            assert forall|id: ClientEndpointId| #[trigger] self.handed(id) == if start@.connections.dom().contains(id) {
                start.handed(id).push(ClientMessage::Detach)
            } else {
                start.handed(id)
            } by {
                lemma_key_index(keys, id);
                assert(after_send.handed(id) == if key_index(keys, id) >= 0 {
                    start.handed(id).push(ClientMessage::Detach)
                } else {
                    start.handed(id)
                });
                assert(start@.connections.dom().contains(id) <==> key_index(keys, id) >= 0);
            }
        }
    }

    /// Revokes the connection to `id` after `error`, recording the failure with the
    /// connection's generation. Without a connection to `id` nothing changes.
    pub fn record_failure(&mut self, id: ClientEndpointId, error: TransportError)
        requires
            old(self).wf(),
        ensures
            final(self).wf(),
            final(self)@ == recorded(old(self)@, id, error.kind, error.message@),
            final(self).handed_log() == old(self).handed_log(),
    {
        proof {
            lemma_keyed_map(self.ids@, connection_views(self.connections@));
        }
        let i = match self.index_of(&id) {
            None => {
                return;
            },
            Some(i) => i,
        };
        proof {
            lemma_key_index(self.ids@, id);
        }
        let generation = self.connections[i].generation;
        let failure = EndpointTransportFailure { endpoint_id: id, generation, kind: error.kind, message: error.message };
        let ghost fv = failure@;
        let ghost old_views = connection_views(self.connections@);
        let ghost old_ids = self.ids@;
        let ghost old_failures = self@.failures;
        self.ids.remove(i);
        let mut previous = self.connections.remove(i);
        previous.transport.disconnect();
        proof {
            assert(connection_views(self.connections@) =~= old_views.remove(i as int));
            lemma_keyed_map_remove(old_ids, old_views, i as int);
        }
        match self.failure_index(&id) {
            Some(j) => {
                self.failures.set(j, failure);
                proof {
                    lemma_key_index(failure_keys(old_failures), id);
                    assert(failure_views(self.failures@) =~= old_failures.update(j as int, fv));
                    lemma_failure_keys_update(old_failures, j as int, fv);
                }
            },
            None => {
                self.failures.push(failure);
                proof {
                    assert(failure_views(self.failures@) =~= old_failures.push(fv));
                    lemma_failure_keys_push(old_failures, fv);
                    lemma_keyed_map_push(failure_keys(old_failures), old_failures, id, fv);
                }
            },
        }
    }

    /// Revokes the connection to `id` after `error`.
    pub fn fail(&mut self, id: &ClientEndpointId, error: TransportError)
        requires
            old(self).wf(),
        ensures
            final(self).wf(),
            final(self).handed_log() == old(self).handed_log(),
            final(self)@ == recorded(old(self)@, *id, error.kind, error.message@),
    {
        self.record_failure(*id, error);
    }

    /// Closes the connection to `id` and forgets its pending failure.
    pub fn disconnect(&mut self, id: &ClientEndpointId)
        requires
            old(self).wf(),
        ensures
            final(self).wf(),
            final(self).handed_log() == old(self).handed_log(),
            final(self)@ == (RegistryView {
                connections: old(self)@.connections.remove(*id),
                failures: if key_index(failure_keys(old(self)@.failures), *id) >= 0 {
                    old(self)@.failures.remove(key_index(failure_keys(old(self)@.failures), *id))
                } else {
                    old(self)@.failures
                },
                ..old(self)@
            }),
    {
        let ghost old_failures = self@.failures;
        if let Some(j) = self.failure_index(id) {
            self.failures.remove(j);
            proof {
                assert(failure_views(self.failures@) =~= old_failures.remove(j as int));
                lemma_failure_keys_remove(old_failures, j as int);
                lemma_keyed_map_remove(failure_keys(old_failures), old_failures, j as int);
            }
        }
        let ghost old_views = connection_views(self.connections@);
        let ghost old_ids = self.ids@;
        match self.index_of(id) {
            Some(i) => {
                self.ids.remove(i);
                let mut previous = self.connections.remove(i);
                previous.transport.disconnect();
                proof {
                    lemma_key_index(old_ids, *id);
                    assert(connection_views(self.connections@) =~= old_views.remove(i as int));
                    lemma_keyed_map_remove(old_ids, old_views, i as int);
                }
            },
            None => {
                proof {
                    lemma_keyed_map(old_ids, old_views);
                    assert(self@.connections =~= old(self)@.connections.remove(*id));
                }
            },
        }
    }
}

/// The registry `v` with the connection to `id` replaced by a fresh one.
pub open spec fn inserted(
    v: RegistryView,
    id: ClientEndpointId,
    generation: u64,
    negotiation: NegotiationView,
    surface_active: bool,
    now: u64,
) -> RegistryView {
    RegistryView {
        connections: v.connections.insert(id, new_connection(id, generation, negotiation, surface_active, now)),
        ..v
    }
}

/// A connection accepts messages of its own generation only: once `id` is
/// connected at `generation`, messages stamped with any other generation are stale.
pub proof fn lemma_insert_accepts_only_its_generation(
    v: RegistryView,
    id: ClientEndpointId,
    generation: u64,
    negotiation: NegotiationView,
    surface_active: bool,
    now: u64,
    stamped: u64,
)
    ensures
        ({
            let w = inserted(v, id, generation, negotiation, surface_active, now);
            (w.connections.dom().contains(id) && w.connections[id].generation == stamped) == (stamped
                == generation)
        }),
{
}

/// A message of a generation the registry does not hold changes nothing.
pub proof fn lemma_stale_generation_ignored(
    v: RegistryView,
    id: ClientEndpointId,
    generation: u64,
    f: spec_fn(HealthView) -> HealthView,
)
    requires
        !(v.connections.dom().contains(id) && v.connections[id].generation == generation),
    ensures
        with_health(v, id, generation, f) == v,
{
}

/// A failing endpoint is revoked alone: every other connection, and the failure
/// recorded for every other endpoint, are left as they were, and so are the active
/// endpoint and the input gate.
pub proof fn lemma_failure_isolated(
    v: RegistryView,
    id: ClientEndpointId,
    kind: TransportErrorKind,
    message: Seq<char>,
    other: ClientEndpointId,
)
    requires
        unique_keys(failure_keys(v.failures)),
        other != id,
    ensures
        ({
            let w = recorded(v, id, kind, message);
            &&& w.active == v.active
            &&& w.input_enabled == v.input_enabled
            &&& w.connections.dom().contains(other) == v.connections.dom().contains(other)
            &&& v.connections.dom().contains(other) ==> w.connections[other] == v.connections[other]
            &&& failure_of(w.failures, other) == failure_of(v.failures, other)
            &&& !w.connections.dom().contains(id)
        }),
{
    if v.connections.dom().contains(id) {
        lemma_upsert_failure(
            v.failures,
            FailureView { endpoint_id: id, generation: v.connections[id].generation, kind, message },
        );
    }
}

/// The local endpoint is never health-probed, whatever it negotiated: it fails
/// through its transport instead.
pub proof fn lemma_local_never_probed(
    generation: u64,
    negotiation: NegotiationView,
    surface_active: bool,
    now: u64,
)
    ensures
        new_connection(ClientEndpointId::Local, generation, negotiation, surface_active, now).health is None,
{
}

/// A remote endpoint that negotiated health checks is probed from the moment it
/// connected.
pub proof fn lemma_remote_probed_from_connect(
    id: ClientEndpointId,
    generation: u64,
    negotiation: NegotiationView,
    surface_active: bool,
    now: u64,
)
    requires
        id != ClientEndpointId::Local,
        view_supports_health_check(negotiation),
    ensures
        new_connection(id, generation, negotiation, surface_active, now).health == Some(fresh_health(now)),
{
}

/// Reconnecting the active endpoint without a surface does not count as an active
/// surface: until the endpoint offers one again, none is available.
pub proof fn lemma_reconnect_without_surface_unavailable(
    v: RegistryView,
    generation: u64,
    negotiation: NegotiationView,
    now: u64,
)
    ensures
        ({
            let w = inserted(v, v.active, generation, negotiation, false, now);
            !(w.input_enabled && w.connections.dom().contains(w.active) && w.connections[w.active].surface_active)
        }),
{
}

} // verus!
