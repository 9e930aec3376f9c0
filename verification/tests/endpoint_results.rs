use herdr::endpoint_results::{
    handle_endpoint_result, EndpointReply, PendingKind, PendingRequest, ReplyBody, ResultState,
};

fn request(id: &str, kind: PendingKind, confirm: Option<&str>) -> PendingRequest {
    PendingRequest {
        request_id: id.into(),
        boot_id: "boot".into(),
        kind,
        confirmation_workspace_id: confirm.map(Into::into),
    }
}

fn state(pending: Vec<PendingRequest>) -> ResultState {
    ResultState { pending, endpoint_error: None, popup_pending: true }
}

fn failed(code: Option<&str>, message: &str) -> EndpointReply {
    EndpointReply::Failed { code: code.map(Into::into), message: message.into() }
}

fn answer(s: &mut ResultState, id: &str, reply: EndpointReply) -> String {
    format!("{:?}", handle_endpoint_result(s, &Some("boot".into()), "boot", id, reply, true, true))
}

#[test]
fn answers_to_unknown_requests_or_other_sessions_are_ignored() {
    let mut s = state(vec![request("r1", PendingKind::Generic, None)]);
    assert_eq!(answer(&mut s, "r9", failed(None, "boom")), "Ignored");
    assert_eq!(s.pending.len(), 1);
    let effect = handle_endpoint_result(&mut s, &Some("other".into()), "boot", "r1", failed(None, "boom"), true, true);
    assert_eq!(format!("{effect:?}"), "Ignored");
    assert!(s.pending.is_empty());
    assert!(s.endpoint_error.is_none());
}

#[test]
fn a_generic_error_is_shown_unless_it_asks_for_confirmation() {
    let mut s = state(vec![
        request("r1", PendingKind::Generic, Some("w1")),
        request("r2", PendingKind::Generic, None),
        request("r3", PendingKind::Generic, None),
    ]);
    assert_eq!(answer(&mut s, "r1", failed(Some("confirmation_required"), "confirm")), "ConfirmClose(\"w1\")");
    assert!(s.endpoint_error.is_none());
    assert_eq!(answer(&mut s, "r2", failed(Some("confirmation_required"), "confirm")), "Repaint");
    assert_eq!(s.endpoint_error.as_deref(), Some("confirm"));
    assert_eq!(answer(&mut s, "r3", EndpointReply::Answer(ReplyBody::Other)), "Ignored");
    assert!(s.pending.is_empty());
}

#[test]
fn a_popup_command_error_clears_the_pending_popup() {
    let mut s = state(vec![request("p1", PendingKind::PopupCommand, None), request("p2", PendingKind::PopupCommand, None)]);
    assert_eq!(answer(&mut s, "p1", EndpointReply::Answer(ReplyBody::Other)), "PopupStarted");
    assert!(s.popup_pending);
    assert_eq!(answer(&mut s, "p2", failed(None, "no popup")), "Repaint");
    assert!(!s.popup_pending);
    assert_eq!(s.endpoint_error.as_deref(), Some("no popup"));
}

#[test]
fn a_selection_copy_writes_nonempty_text_to_the_clipboard() {
    let mut s = state(vec![
        request("c1", PendingKind::SelectionCopy, None),
        request("c2", PendingKind::SelectionCopy, None),
        request("c3", PendingKind::SelectionCopy, None),
    ]);
    let selection = |text: &str| EndpointReply::Answer(ReplyBody::PaneSelection { pane_id: "p1".into(), text: text.into() });
    assert_eq!(answer(&mut s, "c1", selection("hello")), "Clipboard { text: \"hello\", toast: true }");
    assert_eq!(answer(&mut s, "c2", selection("")), "Ignored");
    assert_eq!(answer(&mut s, "c3", EndpointReply::Answer(ReplyBody::ConfigReload)), "Repaint");
    assert_eq!(s.endpoint_error.as_deref(), Some("endpoint returned an unexpected selection result"));
}

#[test]
fn a_config_reload_answer_is_checked_and_other_kinds_are_handed_back() {
    let mut s = state(vec![request("g1", PendingKind::ReloadConfig, None), request("g2", PendingKind::Other(7), None)]);
    assert_eq!(answer(&mut s, "g1", EndpointReply::Answer(ReplyBody::Other)), "Repaint");
    assert_eq!(s.endpoint_error.as_deref(), Some("endpoint returned an unexpected config reload result"));
    assert_eq!(answer(&mut s, "g2", EndpointReply::Answer(ReplyBody::ConfigReload)), "Delegate(7, Answer(ConfigReload))");
}

#[test]
fn a_second_answer_to_the_same_request_is_ignored_and_others_stay_pending() {
    let mut s = state(vec![request("r1", PendingKind::Generic, None), request("r2", PendingKind::ReloadConfig, None)]);
    assert_eq!(answer(&mut s, "r1", failed(None, "first")), "Repaint");
    assert_eq!(answer(&mut s, "r1", failed(None, "second")), "Ignored");
    assert_eq!(s.endpoint_error.as_deref(), Some("first"));
    assert_eq!(s.pending.len(), 1);
    assert_eq!(s.pending[0].request_id, "r2");
}
