use std::collections::VecDeque;
use std::sync::{Arc, Mutex};

use herdr::endpoint::{
    ClientEndpointId, ClientMessage, EndpointTransport, ProfileId, TransportError, TransportErrorKind,
};
use herdr::health::{HEARTBEAT_INTERVAL_MS, HEARTBEAT_TIMEOUT_MS};
use herdr::negotiation::{
    EndpointNegotiation, HEALTH_CHECK_CAPABILITY, PRESENTATION_EFFECTS_FENCE_CAPABILITY,
    SURFACE_INTEREST_CAPABILITY,
};
use herdr::receipt::TransmitReceipt;
use herdr::registry::{EndpointRegistry, EndpointSendOutcome, HEALTH_PING_KIND};

type Registry = EndpointRegistry<Box<dyn EndpointTransport>>;

struct FakeTransport {
    sent: Arc<Mutex<Vec<ClientMessage>>>,
    error: Option<TransportErrorKind>,
}

impl EndpointTransport for FakeTransport {
    fn send(&mut self, message: &ClientMessage) -> Result<(), TransportError> {
        if let Some(kind) = self.error {
            return Err(TransportError {
                kind,
                message: "fake transport failure".into(),
            });
        }
        self.sent.lock().unwrap().push(message.clone());
        Ok(())
    }
}

fn fake(sent: Arc<Mutex<Vec<ClientMessage>>>, error: Option<TransportErrorKind>) -> Box<dyn EndpointTransport> {
    Box::new(FakeTransport { sent, error })
}

fn quiet() -> Box<dyn EndpointTransport> {
    fake(Arc::new(Mutex::new(Vec::new())), None)
}

fn negotiation() -> EndpointNegotiation {
    EndpointNegotiation::new(
        vec!["client_shell.surface.set".into()],
        vec![
            SURFACE_INTEREST_CAPABILITY.into(),
            PRESENTATION_EFFECTS_FENCE_CAPABILITY.into(),
            HEALTH_CHECK_CAPABILITY.into(),
        ],
    )
}

fn profile() -> ProfileId {
    ProfileId::parse("0123456789abcdef0123456789abcdef").unwrap()
}

#[test]
fn endpoint_failures_do_not_remove_other_connections() {
    let local_sent = Arc::new(Mutex::new(Vec::new()));
    let mut registry = Registry::new(fake(local_sent.clone(), None), 1, negotiation());
    let ssh_id = ClientEndpointId::Ssh(profile());
    registry.insert(
        ssh_id,
        fake(Arc::new(Mutex::new(Vec::new())), Some(TransportErrorKind::BrokenPipe)),
        2,
        negotiation(),
        true,
    );
    assert!(registry.set_active(&ssh_id));

    assert_eq!(
        registry.send(&ClientMessage::ClientShellFocus { focused: true }),
        EndpointSendOutcome::NotSent
    );
    assert!(registry.connection(&ssh_id).is_none());
    assert!(registry.connection(&ClientEndpointId::Local).is_some());
    assert_eq!(registry.take_failures()[0].endpoint_id, ssh_id);

    assert!(registry.set_active(&ClientEndpointId::Local));
    assert_eq!(
        registry.send(&ClientMessage::ClientShellFocus { focused: true }),
        EndpointSendOutcome::Sent
    );
    assert_eq!(local_sent.lock().unwrap().len(), 1);
}

#[test]
fn reconnecting_active_identity_does_not_count_as_an_active_surface() {
    let mut registry = Registry::new(quiet(), 1, negotiation());
    let ssh_id = ClientEndpointId::Ssh(profile());
    registry.insert(ssh_id, quiet(), 2, negotiation(), true);
    assert!(registry.set_active(&ssh_id));
    assert!(registry.active_surface_available());
    registry.disconnect(&ssh_id);
    registry.insert(ssh_id, quiet(), 3, negotiation(), false);
    assert!(!registry.active_surface_available());
}

#[test]
fn recovered_local_uses_transport_failure_not_remote_health_probes() {
    let mut registry = Registry::empty();
    let sent = Arc::new(Mutex::new(Vec::new()));
    registry.insert(ClientEndpointId::Local, fake(sent.clone(), None), 2, negotiation(), false);
    let now = registry.now_ms();
    registry.tick_health(now + 300_000);
    assert!(registry.connection(&ClientEndpointId::Local).is_some());
    assert!(sent.lock().unwrap().is_empty());
    assert!(registry.take_failures().is_empty());
}

#[test]
fn negotiated_remote_health_probe_expires_the_connection() {
    let mut registry = Registry::new(quiet(), 1, negotiation());
    let ssh_id = ClientEndpointId::Ssh(profile());
    let sent = Arc::new(Mutex::new(Vec::new()));
    registry.insert(ssh_id, fake(sent.clone(), None), 2, negotiation(), false);
    let now = registry.now_ms();
    registry.tick_health(now + HEARTBEAT_INTERVAL_MS);
    assert!(matches!(
        sent.lock().unwrap().as_slice(),
        [ClientMessage::EndpointControl { kind, .. }] if kind == HEALTH_PING_KIND
    ));

    registry.tick_health(now + HEARTBEAT_INTERVAL_MS + HEARTBEAT_TIMEOUT_MS);
    assert!(registry.connection(&ssh_id).is_none());
    assert_eq!(registry.take_failures()[0].kind, TransportErrorKind::TimedOut);
}

/// A writer that offers a large frame in 512-byte pieces, one piece per 10 ms of
/// the test's own clock: a 1 MiB paste takes about 20 s to drain.
const DRAIN_PIECE: usize = 512;
const DRAIN_PIECE_INTERVAL: u64 = 10;

struct DrainingWriter {
    queued: VecDeque<(usize, Option<TransmitReceipt>)>,
    accepted_through: u64,
    stalled: bool,
    transmitted: Vec<u64>,
    error: Option<TransportError>,
}

impl DrainingWriter {
    fn new(now: u64, stalled: bool) -> Arc<Mutex<Self>> {
        Arc::new(Mutex::new(Self {
            queued: VecDeque::new(),
            accepted_through: now,
            stalled,
            transmitted: Vec::new(),
            error: None,
        }))
    }

    fn accept_until(&mut self, now: u64) {
        while self.accepted_through + DRAIN_PIECE_INTERVAL <= now {
            if self.stalled {
                return;
            }
            self.accepted_through += DRAIN_PIECE_INTERVAL;
            let Some(frame) = self.queued.front_mut() else {
                continue;
            };
            frame.0 = frame.0.saturating_sub(DRAIN_PIECE);
            if frame.0 > 0 {
                continue;
            }
            let accepted_at = self.accepted_through;
            if let Some((_, Some(receipt))) = self.queued.pop_front() {
                receipt.complete(accepted_at);
                self.transmitted.push(accepted_at);
            }
        }
    }
}

/// The encoded size of a message: its payload and a small frame header.
fn frame_len(message: &ClientMessage) -> usize {
    match message {
        ClientMessage::Input { data } => data.len() + 16,
        _ => 64,
    }
}

struct DrainingTransport(Arc<Mutex<DrainingWriter>>);

impl DrainingTransport {
    fn queue(&self, message: &ClientMessage, receipt: Option<TransmitReceipt>) {
        self.0
            .lock()
            .unwrap()
            .queued
            .push_back((frame_len(message), receipt));
    }
}

impl EndpointTransport for DrainingTransport {
    fn send(&mut self, message: &ClientMessage) -> Result<(), TransportError> {
        self.queue(message, None);
        Ok(())
    }

    fn send_tracked(&mut self, message: &ClientMessage, _sent_at: u64) -> Result<TransmitReceipt, TransportError> {
        let receipt = TransmitReceipt::pending();
        self.queue(message, Some(receipt.clone()));
        Ok(receipt)
    }

    fn take_error(&mut self) -> Option<TransportError> {
        self.0.lock().unwrap().error.take()
    }
}

fn draining_registry(now: u64, stalled: bool) -> (Registry, ClientEndpointId, Arc<Mutex<DrainingWriter>>) {
    let mut registry = Registry::new(quiet(), 1, negotiation());
    let ssh_id = ClientEndpointId::Ssh(profile());
    let writer = DrainingWriter::new(now, stalled);
    registry.insert_at(
        ssh_id,
        Box::new(DrainingTransport(writer.clone())),
        2,
        negotiation(),
        true,
        now,
    );
    registry.mark_ready(&ssh_id, 2);
    registry.received(&ssh_id, 2, now);
    (registry, ssh_id, writer)
}

#[test]
fn a_paste_that_is_still_draining_does_not_expire_a_quiet_endpoint() {
    let now = 1_000_000;
    let (mut registry, ssh_id, writer) = draining_registry(now, false);
    assert_eq!(
        registry.send_to(&ssh_id, &ClientMessage::Input { data: vec![b'p'; 1024 * 1024] }),
        EndpointSendOutcome::Sent
    );

    let mut at = now;
    while at < now + 25_000 {
        at += 250;
        writer.lock().unwrap().accept_until(at);
        registry.tick_health(at);
        assert!(
            registry.connection(&ssh_id).is_some(),
            "the health check cut the endpoint {} ms into a paste that was still draining",
            at - now
        );
        assert!(registry.take_failures().is_empty());
    }

    let transmitted = writer.lock().unwrap().transmitted.clone();
    assert_eq!(
        transmitted.len(),
        1,
        "the ping is the one frame whose transmission the registry tracks"
    );
    let ping_at = transmitted[0];
    assert!(
        ping_at > now + HEARTBEAT_INTERVAL_MS + HEARTBEAT_TIMEOUT_MS,
        "the ping left the writer inside the old 15 s window, so this test does not cover the bug"
    );
    assert!(!registry
        .connection(&ssh_id)
        .unwrap()
        .health
        .as_ref()
        .unwrap()
        .is_draining());

    registry.tick_health(ping_at + HEARTBEAT_TIMEOUT_MS - 1);
    assert!(
        registry.connection(&ssh_id).is_some(),
        "the reply window must run from the instant the writer took the ping"
    );
    registry.tick_health(ping_at + HEARTBEAT_TIMEOUT_MS);
    assert!(registry.connection(&ssh_id).is_none());
    assert_eq!(registry.take_failures()[0].kind, TransportErrorKind::TimedOut);
}

#[test]
fn a_stalled_writer_is_still_cut_by_its_own_stall_timeout() {
    let now = 1_000_000;
    let (mut registry, ssh_id, writer) = draining_registry(now, true);
    assert_eq!(
        registry.send_to(&ssh_id, &ClientMessage::Input { data: vec![b'p'; 1024 * 1024] }),
        EndpointSendOutcome::Sent
    );

    let mut at = now;
    while at < now + 30_000 {
        at += 250;
        writer.lock().unwrap().accept_until(at);
        registry.tick_health(at);
    }
    assert!(
        registry.connection(&ssh_id).is_some(),
        "the health check must not double-cut a stall the writer owns"
    );
    assert!(registry
        .connection(&ssh_id)
        .unwrap()
        .health
        .as_ref()
        .unwrap()
        .is_draining());
    assert!(writer.lock().unwrap().transmitted.is_empty());

    writer.lock().unwrap().error = Some(TransportError {
        kind: TransportErrorKind::TimedOut,
        message: "endpoint write timed out".into(),
    });
    let failures = registry.take_failures();
    assert_eq!(failures.len(), 1);
    assert_eq!(failures[0].kind, TransportErrorKind::TimedOut);
    assert!(registry.connection(&ssh_id).is_none());
}

#[test]
fn a_ready_endpoint_can_stay_connected_after_the_initial_deadline() {
    let mut registry = Registry::new(quiet(), 1, negotiation());
    let ssh_id = ClientEndpointId::Ssh(profile());
    registry.insert(ssh_id, quiet(), 2, negotiation(), false);
    let now = registry.now_ms();
    registry.mark_ready(&ssh_id, 2);
    registry.received(&ssh_id, 2, now + HEARTBEAT_INTERVAL_MS);
    registry.tick_health(now + HEARTBEAT_TIMEOUT_MS);
    assert!(registry.connection(&ssh_id).is_some());
}

#[test]
fn negotiated_surface_interest_requires_capability_and_method() {
    assert!(negotiation().supports_surface_interest());
    assert!(negotiation().supports_health_check());
    assert!(
        !EndpointNegotiation::new(vec!["client_shell.surface.set".into()], Vec::new())
            .supports_surface_interest()
    );
    assert!(!EndpointNegotiation::new(Vec::new(), vec![SURFACE_INTEREST_CAPABILITY.into()])
        .supports_surface_interest());
    assert!(!EndpointNegotiation::new(
        vec!["client_shell.surface.set".into()],
        vec![SURFACE_INTEREST_CAPABILITY.into()]
    )
    .supports_surface_interest());
}

#[test]
fn dropping_registry_detaches_every_connected_endpoint() {
    let local_sent = Arc::new(Mutex::new(Vec::new()));
    let remote_sent = Arc::new(Mutex::new(Vec::new()));
    let mut registry = Registry::new(fake(local_sent.clone(), None), 1, negotiation());
    registry.insert(
        ClientEndpointId::Ssh(profile()),
        fake(remote_sent.clone(), None),
        2,
        negotiation(),
        false,
    );

    registry.close();

    assert!(matches!(local_sent.lock().unwrap().as_slice(), [ClientMessage::Detach]));
    assert!(matches!(remote_sent.lock().unwrap().as_slice(), [ClientMessage::Detach]));
}

#[test]
fn a_closed_registry_has_no_connections_left_to_write_to() {
    let sent = Arc::new(Mutex::new(Vec::new()));
    let mut registry = Registry::new(fake(sent.clone(), None), 1, negotiation());
    registry.close();
    assert!(registry.connection(&ClientEndpointId::Local).is_none());
    assert_eq!(registry.send(&ClientMessage::ClientShellFocus { focused: true }), EndpointSendOutcome::NotSent);
    assert!(matches!(sent.lock().unwrap().as_slice(), [ClientMessage::Detach]));
    assert!(registry.take_failures().is_empty());
}

#[test]
fn stale_generations_are_rejected() {
    let registry = Registry::new(quiet(), 7, negotiation());
    assert!(registry.accepts(&ClientEndpointId::Local, 7));
    assert!(!registry.accepts(&ClientEndpointId::Local, 6));
}

#[test]
fn the_registry_clock_counts_from_its_making_and_never_runs_backwards() {
    let registry = Registry::new(quiet(), 1, negotiation());
    let first = registry.now_ms();
    let second = registry.now_ms();
    assert!(second >= first);
    assert!(first < 60_000);
}

use herdr::registry::{TransportCall, TransportReply};

#[test]
fn a_failed_call_revokes_the_connection_with_the_transports_error() {
    let mut registry = Registry::new(fake(Arc::new(Mutex::new(Vec::new())), Some(TransportErrorKind::BrokenPipe)), 3, negotiation());
    let message = ClientMessage::ClientShellFocus { focused: true };
    let error = match registry.dispatch(&ClientEndpointId::Local, TransportCall::Send(&message)) {
        Err(error) => error,
        Ok(_) => panic!("the transport refuses every message"),
    };
    assert_eq!(error.kind, TransportErrorKind::BrokenPipe);
    assert_eq!(error.message, "fake transport failure");
    assert!(registry.connection(&ClientEndpointId::Local).is_none());
    let failures = registry.take_failures();
    assert_eq!(failures.len(), 1);
    assert_eq!(failures[0].kind, TransportErrorKind::BrokenPipe);
    assert_eq!(failures[0].generation, 3);
    let error = match registry.dispatch(&ClientEndpointId::Local, TransportCall::Send(&message)) {
        Err(error) => error,
        Ok(_) => panic!("no connection is left"),
    };
    assert_eq!(error.kind, TransportErrorKind::NotConnected);
    assert_eq!(error.message, "endpoint is unavailable");
    assert!(registry.take_failures().is_empty());
}

#[test]
fn an_accepted_call_replies_in_kind() {
    let mut registry = Registry::new(quiet(), 1, negotiation());
    let message = ClientMessage::ClientShellFocus { focused: true };
    assert!(matches!(
        registry.dispatch(&ClientEndpointId::Local, TransportCall::Send(&message)),
        Ok(TransportReply::Sent)
    ));
}
