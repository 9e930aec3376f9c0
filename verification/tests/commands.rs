use herdr::commands::{
    supports_client_shell_method, ClientShellCommandAction, CustomCommandAction, CustomCommandKeybind,
    EndpointCommandRegistry, Method,
};
use herdr::config_edit::{AgentPanelSortConfig, ConfigEdit, ToastDelivery};
use herdr::status::StatusIndicatorStyle;
use herdr::worktree::{should_shutdown_workspace_terminal_runtimes_for_worktree_remove, shutdown_before_remove};

fn binding(action: CustomCommandAction) -> CustomCommandKeybind {
    CustomCommandKeybind {
        label: "prefix+z".into(),
        command: "secret-command --token hidden".into(),
        action,
        description: Some("safe description".into()),
    }
}

#[test]
fn client_shell_lane_excludes_api_front_door_and_lifecycle_methods() {
    assert!(supports_client_shell_method(&Method::ServerReloadConfig));
    assert!(supports_client_shell_method(&Method::PaneLinkActivate));
    assert!(!supports_client_shell_method(&Method::Ping));
    assert!(!supports_client_shell_method(&Method::ServerStop));
}

#[test]
fn manifest_exposes_opaque_ids_without_command_text() {
    let registry = EndpointCommandRegistry::new("4242-17-1", &[binding(CustomCommandAction::Shell)]);
    let manifest = registry.client_shell_command_manifest();
    assert_eq!(manifest.len(), 1);
    assert_eq!(manifest[0].binding_label, "prefix+z");
    assert!(!format!("{:?}", manifest).contains("secret-command"));
    assert_eq!(
        registry
            .resolve_client_shell_command(&manifest[0].command_id)
            .map(|binding| binding.command),
        Some("secret-command --token hidden".to_string())
    );
}

#[test]
fn stale_command_id_is_rejected_after_definition_changes() {
    let registry = EndpointCommandRegistry::new("4242-17-1", &[binding(CustomCommandAction::Shell)]);
    let old_id = registry.client_shell_command_manifest()[0].command_id.clone();
    let mut replacement = binding(CustomCommandAction::Shell);
    replacement.command = "replacement-command".into();
    let registry = EndpointCommandRegistry::new("4242-18-2", &[replacement]);
    assert!(registry.resolve_client_shell_command(&old_id).is_none());
}

#[test]
fn foreground_keybinding_projection_cannot_remap_command_ids() {
    let mut bindings = vec![binding(CustomCommandAction::Shell)];
    let registry = EndpointCommandRegistry::new("4242-17-1", &bindings);
    let command_id = registry.client_shell_command_manifest()[0].command_id.clone();
    let mut foreground_binding = binding(CustomCommandAction::Shell);
    foreground_binding.command = "different-foreground-command".into();
    bindings[0] = foreground_binding;
    assert_eq!(
        registry
            .resolve_client_shell_command(&command_id)
            .map(|binding| binding.command),
        Some("secret-command --token hidden".to_string())
    );
}

#[test]
fn command_ids_do_not_alias_across_endpoint_restarts() {
    let old = EndpointCommandRegistry::new("4242-17-1", &[binding(CustomCommandAction::Shell)]);
    let old_id = old.client_shell_command_manifest()[0].command_id.clone();
    let mut replacement = binding(CustomCommandAction::Shell);
    replacement.command = "replacement-command".into();
    let restarted = EndpointCommandRegistry::new("5151-90-1", &[replacement]);
    assert_ne!(restarted.client_shell_command_manifest()[0].command_id, old_id);
    assert!(restarted.resolve_client_shell_command(&old_id).is_none());
}

#[test]
fn popup_commands_are_absent_until_the_client_owns_their_surface() {
    let registry = EndpointCommandRegistry::new("4242-17-1", &[binding(CustomCommandAction::Popup)]);
    assert!(registry.client_shell_command_manifest().is_empty());
    assert!(registry.resolve_client_shell_command("cmd_4242-17-1_0").is_none());
}

#[test]
fn command_ids_number_the_offered_commands_in_order() {
    let bindings = [
        binding(CustomCommandAction::Shell),
        binding(CustomCommandAction::Popup),
        binding(CustomCommandAction::Shell),
    ];
    let registry = EndpointCommandRegistry::new("ns", &bindings);
    let manifest = registry.client_shell_command_manifest();
    let ids: Vec<&str> = manifest.iter().map(|c| c.command_id.as_str()).collect();
    assert_eq!(ids, vec!["cmd_ns_0", "cmd_ns_1"]);
    assert!(manifest.iter().all(|c| c.action == ClientShellCommandAction::Shell));
    assert!(registry.resolve_client_shell_command("cmd_ns_1").is_some());
    assert!(registry.resolve_client_shell_command("cmd_ns_2").is_none());
}

#[test]
fn command_ids_past_nine_keep_all_their_digits() {
    let bindings: Vec<CustomCommandKeybind> = (0..12).map(|_| binding(CustomCommandAction::Shell)).collect();
    let registry = EndpointCommandRegistry::new("x", &bindings);
    let manifest = registry.client_shell_command_manifest();
    assert_eq!(manifest[11].command_id, "cmd_x_11");
    assert_ne!(manifest[1].command_id, manifest[11].command_id);
}

#[test]
fn worktree_remove_runtime_shutdown_policy_preserves_windows_safe_remove() {
    let windows = std::path::MAIN_SEPARATOR == '\\';
    assert_eq!(
        should_shutdown_workspace_terminal_runtimes_for_worktree_remove(false),
        windows
    );
    assert!(should_shutdown_workspace_terminal_runtimes_for_worktree_remove(true));
}

#[test]
fn shutdown_policy_follows_force_and_platform() {
    assert!(!shutdown_before_remove(false, false));
    assert!(shutdown_before_remove(false, true));
    assert!(shutdown_before_remove(true, false));
}

#[test]
fn config_edits_name_what_they_change() {
    assert_eq!(ConfigEdit::Theme("mocha").description(), "theme");
    assert_eq!(ConfigEdit::StatusIndicators(StatusIndicatorStyle::Dots).description(), "status indicators");
    assert_eq!(ConfigEdit::Sound(true).description(), "sound setting");
    assert_eq!(ConfigEdit::ToastDelivery(ToastDelivery::System).description(), "toast setting");
    assert_eq!(ConfigEdit::AgentBorderLabels(false).description(), "agent border labels");
    assert_eq!(ConfigEdit::AgentPanelSort(AgentPanelSortConfig::Priority).description(), "agent panel sort");
}

use herdr::commands::{
    validate_client_shell_command_parent_ids, validate_client_shell_command_workspace_id, CommandInvokeParams,
};

fn params(workspace: Option<&str>, tab: Option<&str>) -> CommandInvokeParams {
    CommandInvokeParams {
        command_id: "cmd_ns_0".into(),
        workspace_id: workspace.map(Into::into),
        tab_id: tab.map(Into::into),
        pane_id: Some("w1:p1".into()),
    }
}

#[test]
fn command_targets_must_lie_in_the_requested_workspace() {
    assert!(validate_client_shell_command_workspace_id(&params(None, None), "w1").is_ok());
    assert!(validate_client_shell_command_workspace_id(&params(Some("w1"), None), "w1").is_ok());
    let error = validate_client_shell_command_workspace_id(&params(Some("w2"), None), "w1").unwrap_err();
    assert_eq!(error.code, "command_target_mismatch");
    assert_eq!(error.message, "command target does not belong to the requested workspace");
}

#[test]
fn command_panes_must_lie_in_the_requested_tab() {
    assert!(validate_client_shell_command_parent_ids(&params(Some("w1"), Some("w1:t2")), "w1", Some("w1:t2")).is_ok());
    let error =
        validate_client_shell_command_parent_ids(&params(Some("w1"), Some("w1:t1")), "w1", Some("w1:t2")).unwrap_err();
    assert_eq!(error.message, "command pane does not belong to the requested tab");
    let error =
        validate_client_shell_command_parent_ids(&params(Some("w9"), Some("w1:t1")), "w1", Some("w1:t2")).unwrap_err();
    assert_eq!(error.message, "command target does not belong to the requested workspace");
    assert!(validate_client_shell_command_parent_ids(&params(None, Some("")), "w1", None).is_ok());
    assert!(validate_client_shell_command_parent_ids(&params(None, Some("t")), "w1", None).is_err());
}

use herdr::response::{endpoint_response_chunks, ENDPOINT_RESPONSE_CHUNK_BYTES};

#[test]
fn endpoint_responses_are_chunked_without_truncation() {
    let response = "x".repeat(ENDPOINT_RESPONSE_CHUNK_BYTES + 17);
    let chunks = endpoint_response_chunks(response.as_bytes());
    assert_eq!(chunks.len(), 2);
    assert_eq!(chunks[0].data.len(), ENDPOINT_RESPONSE_CHUNK_BYTES);
    assert!(!chunks[0].final_chunk);
    assert!(chunks[1].final_chunk);
    let mut received = Vec::new();
    for chunk in &chunks {
        received.extend_from_slice(&chunk.data);
    }
    assert_eq!(received, response.as_bytes());
}

#[test]
fn an_empty_response_is_one_empty_final_chunk() {
    let chunks = endpoint_response_chunks(&[]);
    assert_eq!(chunks.len(), 1);
    assert!(chunks[0].data.is_empty());
    assert!(chunks[0].final_chunk);
    let exact = vec![7u8; ENDPOINT_RESPONSE_CHUNK_BYTES * 2];
    let chunks = endpoint_response_chunks(&exact);
    assert_eq!(chunks.len(), 2);
    assert!(chunks[1].final_chunk && !chunks[0].final_chunk);
}

use herdr::commands::{
    focus_client_shell_command_target, handle_command_invoke, CommandFocus, CommandInvokePlan, CommandTargetLookup,
};

fn invoke(command_id: &str, workspace: Option<&str>, tab: Option<&str>, pane: Option<&str>) -> CommandInvokeParams {
    CommandInvokeParams {
        command_id: command_id.into(),
        workspace_id: workspace.map(Into::into),
        tab_id: tab.map(Into::into),
        pane_id: pane.map(Into::into),
    }
}

fn lookup(pane: Option<(&str, Option<&str>)>, tab: Option<&str>, workspace_found: bool) -> CommandTargetLookup {
    CommandTargetLookup {
        pane: pane.map(|(w, t)| (w.to_string(), t.map(Into::into))),
        tab: tab.map(Into::into),
        workspace_found,
    }
}

#[test]
fn command_focus_prefers_the_pane_then_the_tab_then_the_workspace() {
    let found = lookup(Some(("w1", Some("w1:t1"))), Some("w1"), true);
    let pane = focus_client_shell_command_target(&invoke("c", Some("w1"), Some("w1:t1"), Some("p1")), &found);
    assert_eq!(pane.unwrap(), CommandFocus::Pane);
    let tab = focus_client_shell_command_target(&invoke("c", Some("w1"), Some("w1:t1"), None), &found);
    assert_eq!(tab.unwrap(), CommandFocus::Tab);
    let workspace = focus_client_shell_command_target(&invoke("c", Some("w1"), None, None), &found);
    assert_eq!(workspace.unwrap(), CommandFocus::Workspace);
    let nothing = focus_client_shell_command_target(&invoke("c", None, None, None), &lookup(None, None, false));
    assert_eq!(nothing.unwrap(), CommandFocus::Nothing);
}

#[test]
fn command_focus_names_the_target_that_was_not_found() {
    let missing = lookup(None, None, false);
    let error = focus_client_shell_command_target(&invoke("c", None, None, Some("p9")), &missing).unwrap_err();
    assert_eq!(error.code, "pane_not_found");
    assert_eq!(error.message, "pane not found: p9");
    let error = focus_client_shell_command_target(&invoke("c", None, Some("w1:t9"), None), &missing).unwrap_err();
    assert_eq!(error.code, "tab_not_found");
    assert_eq!(error.message, "tab not found: w1:t9");
    let error = focus_client_shell_command_target(&invoke("c", Some("w9"), None, None), &missing).unwrap_err();
    assert_eq!(error.code, "workspace_not_found");
    assert_eq!(error.message, "workspace not found: w9");
}

#[test]
fn command_focus_refuses_a_target_outside_the_requested_parents() {
    let found = lookup(Some(("w1", Some("w1:t2"))), Some("w2"), true);
    let error =
        focus_client_shell_command_target(&invoke("c", Some("w1"), Some("w1:t1"), Some("p1")), &found).unwrap_err();
    assert_eq!(error.code, "command_target_mismatch");
    assert_eq!(error.message, "command pane does not belong to the requested tab");
    let error = focus_client_shell_command_target(&invoke("c", Some("w1"), Some("w2:t1"), None), &found).unwrap_err();
    assert_eq!(error.message, "command target does not belong to the requested workspace");
}

#[test]
fn command_invoke_refuses_a_stale_id_and_runs_an_issued_one() {
    let registry = EndpointCommandRegistry::new("4242-17-1", &[binding(CustomCommandAction::Shell)]);
    let id = registry.client_shell_command_manifest()[0].command_id.clone();
    let found = lookup(None, None, true);
    match handle_command_invoke(&registry, &invoke("cmd_other_0", None, None, None), &found) {
        CommandInvokePlan::Refused(error) => {
            assert_eq!(error.code, "command_not_found");
            assert_eq!(error.message, "custom command manifest is stale; reload configuration");
        }
        CommandInvokePlan::Run { .. } => panic!("a stale id must be refused"),
    }
    match handle_command_invoke(&registry, &invoke(&id, Some("w1"), None, None), &found) {
        CommandInvokePlan::Run { binding, focus } => {
            assert_eq!(binding.command, "secret-command --token hidden");
            assert_eq!(focus, CommandFocus::Workspace);
        }
        CommandInvokePlan::Refused(error) => panic!("refused: {}", error.message),
    }
    match handle_command_invoke(&registry, &invoke(&id, None, None, Some("p4")), &found) {
        CommandInvokePlan::Refused(error) => assert_eq!(error.message, "pane not found: p4"),
        CommandInvokePlan::Run { .. } => panic!("a missing pane must be refused"),
    }
}

use herdr::commands::command_namespace;

#[test]
fn namespaces_join_the_process_time_and_counter() {
    assert_eq!(command_namespace(4242, 17, 1), "4242-17-1");
    assert_eq!(command_namespace(0, 1_700_000_000_123_456_789, 18_446_744_073_709_551_615), "0-1700000000123456789-18446744073709551615");
    let first = EndpointCommandRegistry::new(&command_namespace(4242, 17, 1), &[binding(CustomCommandAction::Shell)]);
    let second = EndpointCommandRegistry::new(&command_namespace(4242, 17, 2), &[binding(CustomCommandAction::Shell)]);
    let id = first.client_shell_command_manifest()[0].command_id.clone();
    assert_eq!(id, "cmd_4242-17-1_0");
    assert!(second.resolve_client_shell_command(&id).is_none());
}
