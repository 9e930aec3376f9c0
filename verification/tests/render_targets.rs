use herdr::render_targets::{
    has_pending_presentation_work, pty_render_targets, pty_source_visible_to_render_targets,
    pty_sources_visible_to_any_render_target, sync_immediate_pty_sources, ClientConnectionMode,
    PaneTerminal, PtySource, RenderClient,
};

fn shell(has_writer: bool) -> RenderClient {
    RenderClient { mode: ClientConnectionMode::ClientShell, has_writer }
}

fn attach(id: &str, has_writer: bool) -> RenderClient {
    RenderClient {
        mode: ClientConnectionMode::TerminalAttach { terminal_id: id.to_owned() },
        has_writer,
    }
}

fn observe(id: &str, has_writer: bool) -> RenderClient {
    RenderClient {
        mode: ClientConnectionMode::TerminalObserve { terminal_id: id.to_owned() },
        has_writer,
    }
}

fn pending() -> RenderClient {
    RenderClient { mode: ClientConnectionMode::TerminalPending, has_writer: true }
}

fn source(terminal_id: Option<&str>, on_app_surface: bool) -> PtySource {
    PtySource { terminal_id: terminal_id.map(str::to_owned), on_app_surface }
}

fn pane(pane_id: u64, terminal_id: &str) -> PaneTerminal {
    PaneTerminal { pane_id, terminal_id: terminal_id.to_owned() }
}

fn sorted(mut ids: Vec<u64>) -> Vec<u64> {
    ids.sort_unstable();
    ids
}

#[test]
fn render_targets_skip_clients_without_writer_and_list_each_terminal_once() {
    let clients = vec![
        shell(false),
        attach("t1", true),
        observe("t1", true),
        observe("t2", true),
        attach("t3", false),
        pending(),
    ];
    let targets = pty_render_targets(&clients);
    assert!(!targets.has_app_target);
    assert_eq!(targets.direct_terminal_targets, vec!["t1".to_owned(), "t2".to_owned()]);
}

#[test]
fn render_targets_see_a_shell_client_with_writer() {
    let targets = pty_render_targets(&[pending(), shell(true)]);
    assert!(targets.has_app_target);
    assert!(targets.direct_terminal_targets.is_empty());
}

#[test]
fn no_writer_means_no_pty_source_is_visible() {
    let clients = vec![shell(false), attach("t1", false)];
    let sources = vec![source(None, true), source(Some("t1"), true)];
    assert!(!pty_sources_visible_to_any_render_target(&clients, &sources));
    assert!(!pty_sources_visible_to_any_render_target(&[], &sources));
}

#[test]
fn unknown_pane_is_visible_to_any_target() {
    let clients = vec![observe("t7", true)];
    assert!(pty_sources_visible_to_any_render_target(&clients, &[source(None, false)]));
}

#[test]
fn shell_target_sees_only_panes_on_the_app_surface() {
    let clients = vec![shell(true)];
    assert!(!pty_sources_visible_to_any_render_target(&clients, &[source(Some("t3"), false)]));
    assert!(pty_sources_visible_to_any_render_target(
        &clients,
        &[source(Some("t3"), false), source(Some("t4"), true)]
    ));
}

#[test]
fn attached_client_sees_its_terminal_wherever_the_pane_is() {
    let targets = pty_render_targets(&[attach("t3", true)]);
    assert!(pty_source_visible_to_render_targets(&source(Some("t3"), false), &targets));
    assert!(!pty_source_visible_to_render_targets(&source(Some("t4"), true), &targets));
    assert!(pty_source_visible_to_render_targets(&source(None, false), &targets));
}

#[test]
fn no_sources_are_never_visible() {
    assert!(!pty_sources_visible_to_any_render_target(&[shell(true)], &[]));
}

#[test]
fn immediate_sources_cover_app_surface_and_directly_shown_terminals() {
    let clients = vec![shell(true), attach("t1", true)];
    let mut immediate = vec![42];
    sync_immediate_pty_sources(
        &clients,
        &[1, 2, 2],
        &[pane(3, "t1"), pane(4, "t9"), pane(6, "t1")],
        &Some(pane(5, "t1")),
        &mut immediate,
    );
    assert_eq!(sorted(immediate), vec![1, 2, 3, 5, 6]);
}

#[test]
fn immediate_sources_without_shell_client_skip_the_app_surface() {
    let clients = vec![shell(false), observe("t9", true)];
    let mut immediate = Vec::new();
    sync_immediate_pty_sources(
        &clients,
        &[1, 2],
        &[pane(3, "t1"), pane(4, "t9")],
        &Some(pane(5, "t1")),
        &mut immediate,
    );
    assert_eq!(immediate, vec![4]);
}

#[test]
fn immediate_sources_are_empty_without_writers() {
    let mut immediate = vec![7, 8];
    sync_immediate_pty_sources(
        &[shell(false)],
        &[1, 2],
        &[pane(3, "t1")],
        &None,
        &mut immediate,
    );
    assert!(immediate.is_empty());
}

#[test]
fn presentation_work_is_pending_when_any_kind_is_owed() {
    assert!(!has_pending_presentation_work(false, false, false));
    assert!(has_pending_presentation_work(true, false, false));
    assert!(has_pending_presentation_work(false, true, false));
    assert!(has_pending_presentation_work(false, false, true));
}
