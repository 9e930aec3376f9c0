use herdr::keyboard_mode::{
    stream_direct_terminal_keyboard_mode, KeyboardClient, KeyboardModeUpdate, KeyboardReporting,
};
use herdr::render_targets::ClientConnectionMode;

fn client(client_id: u64, mode: ClientConnectionMode) -> KeyboardClient {
    KeyboardClient {
        client_id,
        mode,
        has_writer: true,
        host_keyboard_report_all_active: None,
        host_keyboard_protocol_active: None,
        terminal_keyboard: None,
    }
}

fn attach(id: &str) -> ClientConnectionMode {
    ClientConnectionMode::TerminalAttach { terminal_id: id.to_owned() }
}

fn kitty(flags: u8, all: bool, events: bool, level: u8) -> KeyboardReporting {
    KeyboardReporting { flags, reports_all_keys: all, reports_event_types: events, modify_other_keys_level: level }
}

#[test]
fn shell_clients_report_all_keys_when_the_focused_terminal_asks() {
    let clients = vec![client(1, ClientConnectionMode::ClientShell)];
    let shell = |k| stream_direct_terminal_keyboard_mode(&clients, k);
    assert_eq!(shell(Some(kitty(8, true, false, 0))), vec![KeyboardModeUpdate::ShellReportAll { client_id: 1, enabled: true }]);
    assert_eq!(shell(Some(kitty(2, false, true, 2))), vec![KeyboardModeUpdate::ShellReportAll { client_id: 1, enabled: true }]);
    assert_eq!(shell(Some(kitty(2, false, true, 0))), vec![KeyboardModeUpdate::ShellReportAll { client_id: 1, enabled: false }]);
    assert_eq!(shell(None), vec![KeyboardModeUpdate::ShellReportAll { client_id: 1, enabled: false }]);
}

#[test]
fn attached_clients_follow_their_terminal_after_the_shell_clients() {
    let mut a = client(3, attach("t1"));
    a.terminal_keyboard = Some(kitty(5, false, true, 1));
    let gone = client(4, attach("t2"));
    let s = client(5, ClientConnectionMode::ClientShell);
    assert_eq!(
        stream_direct_terminal_keyboard_mode(&[a, gone, s], None),
        vec![
            KeyboardModeUpdate::ShellReportAll { client_id: 5, enabled: false },
            KeyboardModeUpdate::DirectProtocol { client_id: 3, flags: 5, modify_other_keys_level: 1 },
            KeyboardModeUpdate::DirectProtocol { client_id: 4, flags: 0, modify_other_keys_level: 0 },
        ]
    );
}

#[test]
fn settled_writerless_and_other_clients_are_not_told() {
    let mut settled_shell = client(1, ClientConnectionMode::ClientShell);
    settled_shell.host_keyboard_report_all_active = Some(false);
    let mut settled_attach = client(2, attach("t1"));
    settled_attach.host_keyboard_protocol_active = Some((0, 0));
    let mut gone = client(3, ClientConnectionMode::ClientShell);
    gone.has_writer = false;
    let observer = client(4, ClientConnectionMode::TerminalObserve { terminal_id: "t1".into() });
    let pending = client(5, ClientConnectionMode::TerminalPending);
    assert!(stream_direct_terminal_keyboard_mode(&[settled_shell, settled_attach, gone, observer, pending], None)
        .is_empty());
}
