use herdr::mouse_capture::{
    record_host_mouse_capture, stream_host_mouse_capture_mode, MouseCaptureClient, MouseCaptureUpdate, ShellMouseState,
};
use herdr::render_targets::ClientConnectionMode;

fn client(client_id: u64, mode: ClientConnectionMode) -> MouseCaptureClient {
    MouseCaptureClient {
        client_id,
        mode,
        has_writer: true,
        shell_mouse_capture: false,
        pixel_mouse: false,
        host_mouse_capture_active: None,
        host_sgr_pixels_active: None,
        terminal_mouse_reporting: false,
        terminal_sgr_pixel_mouse: false,
    }
}

fn update(client_id: u64, enabled: bool, sgr_pixels: bool) -> MouseCaptureUpdate {
    MouseCaptureUpdate { client_id, enabled, sgr_pixels }
}

fn attach(id: &str) -> ClientConnectionMode {
    ClientConnectionMode::TerminalAttach { terminal_id: id.to_owned() }
}

const QUIET: ShellMouseState = ShellMouseState {
    endpoint_shell_mouse: false,
    focused_pane_graphics_demand: false,
    focused_pane_sgr_pixel_mouse: false,
};

#[test]
fn shell_clients_follow_the_shell_and_get_pixels_with_graphics() {
    let mut pixel = client(1, ClientConnectionMode::ClientShell);
    pixel.pixel_mouse = true;
    let plain = client(2, ClientConnectionMode::ClientShell);
    let shell = ShellMouseState {
        endpoint_shell_mouse: true,
        focused_pane_graphics_demand: true,
        focused_pane_sgr_pixel_mouse: true,
    };
    assert_eq!(
        stream_host_mouse_capture_mode(&[pixel, plain], shell),
        vec![update(1, true, true), update(2, true, false)]
    );
}

#[test]
fn shell_pixels_need_graphics_in_the_focused_pane() {
    let mut pixel = client(1, ClientConnectionMode::ClientShell);
    pixel.pixel_mouse = true;
    pixel.shell_mouse_capture = true;
    let shell = ShellMouseState {
        endpoint_shell_mouse: false,
        focused_pane_graphics_demand: false,
        focused_pane_sgr_pixel_mouse: true,
    };
    assert_eq!(stream_host_mouse_capture_mode(&[pixel], shell), vec![update(1, true, false)]);
}

#[test]
fn attached_clients_follow_their_terminal() {
    let mut reporting = client(3, attach("t1"));
    reporting.terminal_mouse_reporting = true;
    reporting.terminal_sgr_pixel_mouse = true;
    reporting.pixel_mouse = true;
    let mut no_pixels = client(4, attach("t2"));
    no_pixels.terminal_mouse_reporting = true;
    no_pixels.terminal_sgr_pixel_mouse = true;
    let silent = client(5, attach("t3"));
    assert_eq!(
        stream_host_mouse_capture_mode(&[reporting, no_pixels, silent], QUIET),
        vec![update(3, true, true), update(4, true, false), update(5, false, false)]
    );
}

#[test]
fn observers_pending_and_writerless_clients_are_not_told() {
    let observer = client(6, ClientConnectionMode::TerminalObserve { terminal_id: "t1".to_owned() });
    let pending = client(7, ClientConnectionMode::TerminalPending);
    let mut gone = client(8, ClientConnectionMode::ClientShell);
    gone.has_writer = false;
    assert!(stream_host_mouse_capture_mode(&[observer, pending, gone], QUIET).is_empty());
}

#[test]
fn clients_already_in_the_requested_mode_are_not_told_again() {
    let mut settled = client(9, ClientConnectionMode::ClientShell);
    settled.host_mouse_capture_active = Some(false);
    settled.host_sgr_pixels_active = Some(false);
    let mut half = client(10, ClientConnectionMode::ClientShell);
    half.host_mouse_capture_active = Some(false);
    assert_eq!(stream_host_mouse_capture_mode(&[settled, half], QUIET), vec![update(10, false, false)]);
}

#[test]
fn a_recorded_round_is_not_sent_again_and_closed_clients_leave() {
    let mut shell_client = client(1, ClientConnectionMode::ClientShell);
    shell_client.shell_mouse_capture = true;
    let mut attached = client(2, attach("t1"));
    attached.terminal_mouse_reporting = true;
    let mut other = client(3, attach("t2"));
    other.terminal_mouse_reporting = true;
    let mut clients = vec![shell_client, attached, other];
    assert_eq!(stream_host_mouse_capture_mode(&clients, QUIET).len(), 3);
    record_host_mouse_capture(&mut clients, QUIET, &[2], &[3]);
    let ids: Vec<u64> = clients.iter().map(|c| c.client_id).collect();
    assert_eq!(ids, vec![1, 3]);
    assert_eq!((clients[0].host_mouse_capture_active, clients[0].host_sgr_pixels_active), (Some(true), Some(false)));
    assert_eq!((clients[1].host_mouse_capture_active, clients[1].host_sgr_pixels_active), (None, None));
    assert_eq!(stream_host_mouse_capture_mode(&clients, QUIET), vec![update(3, true, false)]);
    record_host_mouse_capture(&mut clients, QUIET, &[], &[]);
    assert!(stream_host_mouse_capture_mode(&clients, QUIET).is_empty());
}
