use herdr::health::{EndpointHealth, HealthAction, HEARTBEAT_INTERVAL_MS, HEARTBEAT_TIMEOUT_MS};
use herdr::receipt::TransmitReceipt;

const START: u64 = 1_000_000;

#[test]
fn quiet_connection_is_probed_then_expires_without_a_reply() {
    let now = START;
    let mut health = EndpointHealth::new(now);
    assert_eq!(health.action(now), HealthAction::Nothing);
    assert_eq!(health.action(now + HEARTBEAT_INTERVAL_MS), HealthAction::Ping);
    health.ping_sent(now + HEARTBEAT_INTERVAL_MS);
    assert_eq!(
        health.action(now + HEARTBEAT_INTERVAL_MS + HEARTBEAT_TIMEOUT_MS),
        HealthAction::Expired
    );
}

#[test]
fn any_incoming_message_satisfies_an_outstanding_probe() {
    let now = START;
    let mut health = EndpointHealth::new(now);
    health.ready();
    health.ping_sent(now);
    health.received(now + HEARTBEAT_TIMEOUT_MS - 1);
    assert_eq!(health.action(now + HEARTBEAT_TIMEOUT_MS), HealthAction::Nothing);
}

#[test]
fn a_probe_queued_behind_a_draining_frame_never_expires_the_connection() {
    let now = START;
    let mut health = EndpointHealth::new(now);
    health.ready();
    let receipt = TransmitReceipt::pending();
    health.ping_queued(receipt.clone());
    health.settle();
    assert!(health.is_draining());
    assert_eq!(health.action(now + HEARTBEAT_INTERVAL_MS), HealthAction::Nothing);
    assert_eq!(
        health.action(now + HEARTBEAT_INTERVAL_MS + HEARTBEAT_TIMEOUT_MS),
        HealthAction::Nothing,
        "a queued ping expired the connection while its frame was still draining"
    );
    assert_eq!(health.action(now + 300_000), HealthAction::Nothing);
}

#[test]
fn the_probe_timer_starts_when_the_writer_accepted_the_ping() {
    let now = START;
    let mut health = EndpointHealth::new(now);
    health.ready();
    let receipt = TransmitReceipt::pending();
    health.ping_queued(receipt.clone());
    let transmitted = now + 20_000;
    receipt.complete(transmitted);
    health.settle();
    assert!(!health.is_draining());
    assert_eq!(
        health.action(transmitted + HEARTBEAT_TIMEOUT_MS - 1),
        HealthAction::Nothing
    );
    assert_eq!(
        health.action(transmitted + HEARTBEAT_TIMEOUT_MS),
        HealthAction::Expired
    );
}

#[test]
fn a_reply_satisfies_a_ping_that_is_still_queued() {
    let now = START;
    let mut health = EndpointHealth::new(now);
    health.ready();
    health.ping_queued(TransmitReceipt::pending());
    health.received(now + 1_000);
    assert!(!health.is_draining());
    assert_eq!(health.action(now + 1_000), HealthAction::Nothing);
    assert_eq!(
        health.action(now + 1_000 + HEARTBEAT_INTERVAL_MS),
        HealthAction::Ping,
        "a satisfied probe must leave the endpoint pingable again"
    );
}

#[test]
fn heartbeats_do_not_hide_a_missing_initial_snapshot() {
    let now = START;
    let mut health = EndpointHealth::new(now);
    health.ping_sent(now + HEARTBEAT_INTERVAL_MS);
    health.received(now + HEARTBEAT_INTERVAL_MS + 1_000);
    assert_eq!(health.action(now + HEARTBEAT_TIMEOUT_MS), HealthAction::Expired);
}

#[test]
fn a_receipt_keeps_the_first_transmission_instant() {
    let receipt = TransmitReceipt::pending();
    assert_eq!(receipt.transmitted_at(), None);
    let shared = receipt.clone();
    shared.complete(42);
    shared.complete(99);
    assert_eq!(receipt.transmitted_at(), Some(42));
    assert_eq!(TransmitReceipt::transmitted(7).transmitted_at(), Some(7));
}

#[test]
fn settle_with_promotes_only_a_draining_probe() {
    let mut health = EndpointHealth::new(START);
    health.settle_with(Some(START + 5));
    assert!(!health.is_draining());
    assert_eq!(health.action(START + HEARTBEAT_INTERVAL_MS), HealthAction::Ping);

    let mut health = EndpointHealth::new(START);
    health.ready();
    health.ping_queued(TransmitReceipt::pending());
    health.settle_with(None);
    assert!(health.is_draining());
    health.settle_with(Some(START + 100));
    assert!(!health.is_draining());
    assert_eq!(health.action(START + 100 + HEARTBEAT_TIMEOUT_MS - 1), HealthAction::Nothing);
    assert_eq!(health.action(START + 100 + HEARTBEAT_TIMEOUT_MS), HealthAction::Expired);
}

#[test]
fn an_earlier_clock_reading_counts_as_no_time_elapsed() {
    let health = EndpointHealth::new(START);
    assert_eq!(health.action(START - 60_000), HealthAction::Nothing);
}

#[test]
fn a_receipt_for_a_written_frame_reports_its_instant() {
    let receipt = TransmitReceipt::transmitted(42);
    assert_eq!(receipt.transmitted_at(), Some(42));
    receipt.complete(99);
    assert_eq!(receipt.clone().transmitted_at(), Some(42));
}
