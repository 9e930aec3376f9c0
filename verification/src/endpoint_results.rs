//! What the client shell does when the endpoint answers one of its requests:
//! the request is taken off the pending list, answers from another endpoint
//! session are dropped, and the answer is read as the request's kind asks.
use vstd::prelude::*;

use crate::snapshot::opt_view;
use crate::text::str_equal;

verus! {

/// What a pending request was sent for. `Other` covers the kinds whose answer
/// the caller completes itself (pane scrolls, word selections, copy-mode motions
/// and searches, settings and worktree requests), under the caller's tag.
#[derive(Clone, Copy, Debug, PartialEq, Eq, Structural)]
pub enum PendingKind {
    Generic,
    PopupCommand,
    SelectionCopy,
    ReloadConfig,
    Other(u64),
}

/// A request sent to the endpoint and not answered yet.
#[derive(Debug)]
pub struct PendingRequest {
    pub request_id: String,
    /// The endpoint session the request was sent to.
    pub boot_id: String,
    pub kind: PendingKind,
    /// The workspace a close request may need confirmed.
    pub confirmation_workspace_id: Option<String>,
}

/// What a successful answer holds, as far as the shell reads it here.
#[derive(Debug)]
pub enum ReplyBody {
    PaneSelection { pane_id: String, text: String },
    ConfigReload,
    Other,
}

/// The endpoint's answer: a result, or an error with an optional code.
#[derive(Debug)]
pub enum EndpointReply {
    Answer(ReplyBody),
    Failed { code: Option<String>, message: String },
}

/// The part of the shell's state an answer changes.
#[derive(Debug)]
pub struct ResultState {
    /// The requests awaiting an answer; no two share a request id.
    pub pending: Vec<PendingRequest>,
    pub endpoint_error: Option<String>,
    /// Whether a popup command is waiting for its popup.
    pub popup_pending: bool,
}

/// What the caller does after an answer: `Ignored` nothing; `PopupStarted`
/// gives the popup a second to appear; `Repaint` repaints; `Clipboard` writes
/// the text to the clipboard, and shows the "copied to clipboard" toast and
/// repaints when `toast` holds; `ConfirmClose` opens the close confirmation for
/// the workspace and repaints; `Delegate` hands the answer to the caller's
/// handling of the request kind tagged so.
#[derive(Debug)]
pub enum ResultEffect {
    Ignored,
    PopupStarted,
    Repaint,
    Clipboard { text: String, toast: bool },
    ConfirmClose(String),
    Delegate(u64, EndpointReply),
}

/// A pending request as plain values.
pub ghost struct PendingView {
    pub request_id: Seq<char>,
    pub boot_id: Seq<char>,
    pub kind: PendingKind,
    pub confirmation_workspace_id: Option<Seq<char>>,
}

/// An answer as plain values.
pub ghost enum ReplyView {
    PaneSelection { pane_id: Seq<char>, text: Seq<char> },
    ConfigReload,
    Other,
    Failed { code: Option<Seq<char>>, message: Seq<char> },
}

/// The state as plain values.
pub ghost struct ResultStateView {
    pub pending: Seq<PendingView>,
    pub endpoint_error: Option<Seq<char>>,
    pub popup_pending: bool,
}

/// The effect as plain values.
pub ghost enum ResultEffectView {
    Ignored,
    PopupStarted,
    Repaint,
    Clipboard { text: Seq<char>, toast: bool },
    ConfirmClose(Seq<char>),
    Delegate(u64, ReplyView),
}

impl PendingRequest {
    pub open spec fn view(&self) -> PendingView {
        PendingView {
            request_id: self.request_id@,
            boot_id: self.boot_id@,
            kind: self.kind,
            confirmation_workspace_id: opt_view(self.confirmation_workspace_id),
        }
    }
}

impl EndpointReply {
    pub open spec fn view(&self) -> ReplyView {
        match self {
            EndpointReply::Answer(ReplyBody::PaneSelection { pane_id, text }) => ReplyView::PaneSelection {
                pane_id: pane_id@,
                text: text@,
            },
            EndpointReply::Answer(ReplyBody::ConfigReload) => ReplyView::ConfigReload,
            EndpointReply::Answer(ReplyBody::Other) => ReplyView::Other,
            EndpointReply::Failed { code, message } => ReplyView::Failed { code: opt_view(*code), message: message@ },
        }
    }
}

/// The pending requests as plain values, in order.
pub open spec fn pending_views(ps: Seq<PendingRequest>) -> Seq<PendingView> {
    ps.map_values(|p: PendingRequest| p@)
}

impl ResultState {
    pub open spec fn view(&self) -> ResultStateView {
        ResultStateView {
            pending: pending_views(self.pending@),
            endpoint_error: opt_view(self.endpoint_error),
            popup_pending: self.popup_pending,
        }
    }
}

impl ResultEffect {
    pub open spec fn view(&self) -> ResultEffectView {
        match self {
            ResultEffect::Ignored => ResultEffectView::Ignored,
            ResultEffect::PopupStarted => ResultEffectView::PopupStarted,
            ResultEffect::Repaint => ResultEffectView::Repaint,
            ResultEffect::Clipboard { text, toast } => ResultEffectView::Clipboard { text: text@, toast: *toast },
            ResultEffect::ConfirmClose(w) => ResultEffectView::ConfirmClose(w@),
            ResultEffect::Delegate(tag, reply) => ResultEffectView::Delegate(*tag, reply@),
        }
    }
}

/// No two pending requests share a request id.
pub open spec fn unique_requests(ps: Seq<PendingView>) -> bool {
    forall|a: int, b: int| 0 <= a < b < ps.len() ==> ps[a].request_id != ps[b].request_id
}

/// Where the request `id` stands among `ps`, if it is pending.
pub open spec fn pending_index(ps: Seq<PendingView>, id: Seq<char>) -> Option<int> {
    if exists|k: int| 0 <= k < ps.len() && ps[k].request_id == id {
        Some(choose|k: int| 0 <= k < ps.len() && ps[k].request_id == id)
    } else {
        None
    }
}

/// The code of an error that asks for the close to be confirmed first.
pub open spec fn confirmation_required() -> Seq<char> {
    "confirmation_required"@
}

/// The state after an error with `message` was shown.
pub open spec fn with_error(s: ResultStateView, message: Seq<char>) -> ResultStateView {
    ResultStateView { endpoint_error: Some(message), ..s }
}

/// What the answer `reply` to request `p` does to `s` (with `p` already off the
/// pending list): the state after it and the effect asked of the caller.
pub open spec fn spec_read_reply(
    s: ResultStateView,
    p: PendingView,
    reply: ReplyView,
    confirm_close: bool,
    clipboard_toast: bool,
) -> (ResultStateView, ResultEffectView) {
    match p.kind {
        PendingKind::Other(tag) => (s, ResultEffectView::Delegate(tag, reply)),
        PendingKind::PopupCommand => match reply {
            ReplyView::Failed { message, .. } => (
                ResultStateView { popup_pending: false, ..with_error(s, message) },
                ResultEffectView::Repaint,
            ),
            _ => (s, ResultEffectView::PopupStarted),
        },
        PendingKind::SelectionCopy => match reply {
            ReplyView::PaneSelection { text, .. } => if text.len() > 0 {
                (s, ResultEffectView::Clipboard { text, toast: clipboard_toast })
            } else {
                (s, ResultEffectView::Ignored)
            },
            ReplyView::Failed { message, .. } => (with_error(s, message), ResultEffectView::Repaint),
            _ => (
                with_error(s, "endpoint returned an unexpected selection result"@),
                ResultEffectView::Repaint,
            ),
        },
        PendingKind::ReloadConfig => match reply {
            ReplyView::ConfigReload => (s, ResultEffectView::Ignored),
            ReplyView::Failed { message, .. } => (with_error(s, message), ResultEffectView::Repaint),
            _ => (
                with_error(s, "endpoint returned an unexpected config reload result"@),
                ResultEffectView::Repaint,
            ),
        },
        PendingKind::Generic => match reply {
            ReplyView::Failed { code, message } => if confirm_close && code == Some(confirmation_required())
                && p.confirmation_workspace_id is Some {
                (s, ResultEffectView::ConfirmClose(p.confirmation_workspace_id->0))
            } else {
                (with_error(s, message), ResultEffectView::Repaint)
            },
            _ => (s, ResultEffectView::Ignored),
        },
    }
}

/// What the answer to request `request_id` from endpoint session `boot_id` does:
/// ignored when the request is not pending; otherwise the request leaves the
/// pending list, and the answer is ignored when it comes from another session
/// than the request went to or than the shell's snapshot belongs to (or there
/// is no snapshot), and read as `spec_read_reply` says when not.
pub open spec fn spec_handle_endpoint_result(
    s: ResultStateView,
    snapshot_boot_id: Option<Seq<char>>,
    boot_id: Seq<char>,
    request_id: Seq<char>,
    reply: ReplyView,
    confirm_close: bool,
    clipboard_toast: bool,
) -> (ResultStateView, ResultEffectView) {
    match pending_index(s.pending, request_id) {
        None => (s, ResultEffectView::Ignored),
        Some(k) => {
            let p = s.pending[k];
            let s1 = ResultStateView { pending: s.pending.remove(k), ..s };
            if p.boot_id != boot_id || snapshot_boot_id != Some(boot_id) {
                (s1, ResultEffectView::Ignored)
            } else {
                spec_read_reply(s1, p, reply, confirm_close, clipboard_toast)
            }
        },
    }
}

fn error_message(message: &str) -> (r: Option<String>)
    ensures
        opt_view(r) == Some(message@),
{
    Some(message.to_owned())
}

fn read_reply(
    state: &mut ResultState,
    p: PendingRequest,
    reply: EndpointReply,
    confirm_close: bool,
    clipboard_toast: bool,
) -> (effect: ResultEffect)
    ensures
        (final(state)@, effect@) == spec_read_reply(old(state)@, p@, reply@, confirm_close, clipboard_toast),
{
    proof {
        reveal_strlit("confirmation_required");
    }
    match p.kind {
        PendingKind::Other(tag) => ResultEffect::Delegate(tag, reply),
        PendingKind::PopupCommand => match reply {
            EndpointReply::Failed { message, .. } => {
                state.popup_pending = false;
                state.endpoint_error = Some(message);
                ResultEffect::Repaint
            },
            _ => ResultEffect::PopupStarted,
        },
        PendingKind::SelectionCopy => match reply {
            EndpointReply::Answer(ReplyBody::PaneSelection { text, .. }) => {
                if text.unicode_len() > 0 {
                    ResultEffect::Clipboard { text, toast: clipboard_toast }
                } else {
                    ResultEffect::Ignored
                }
            },
            EndpointReply::Failed { message, .. } => {
                state.endpoint_error = Some(message);
                ResultEffect::Repaint
            },
            _ => {
                state.endpoint_error = error_message("endpoint returned an unexpected selection result");
                ResultEffect::Repaint
            },
        },
        PendingKind::ReloadConfig => match reply {
            EndpointReply::Answer(ReplyBody::ConfigReload) => ResultEffect::Ignored,
            EndpointReply::Failed { message, .. } => {
                state.endpoint_error = Some(message);
                ResultEffect::Repaint
            },
            _ => {
                state.endpoint_error = error_message("endpoint returned an unexpected config reload result");
                ResultEffect::Repaint
            },
        },
        PendingKind::Generic => match reply {
            EndpointReply::Failed { code, message } => {
                let asks = match &code {
                    Some(c) => str_equal(c.as_str(), "confirmation_required"),
                    None => false,
                };
                if confirm_close && asks {
                    if let Some(w) = p.confirmation_workspace_id {
                        return ResultEffect::ConfirmClose(w);
                    }
                }
                state.endpoint_error = Some(message);
                ResultEffect::Repaint
            },
            _ => ResultEffect::Ignored,
        },
    }
}

/// Handles the answer `reply` to request `request_id` from endpoint session
/// `boot_id`, as `spec_handle_endpoint_result` says. `snapshot_boot_id` is the
/// session of the shell's snapshot, if it has one; `confirm_close` and
/// `clipboard_toast` are the configuration's.
pub fn handle_endpoint_result(
    state: &mut ResultState,
    snapshot_boot_id: &Option<String>,
    boot_id: &str,
    request_id: &str,
    reply: EndpointReply,
    confirm_close: bool,
    clipboard_toast: bool,
) -> (effect: ResultEffect)
    requires
        unique_requests(old(state)@.pending),
    ensures
        unique_requests(final(state)@.pending),
        (final(state)@, effect@) == spec_handle_endpoint_result(
            old(state)@,
            opt_view(*snapshot_boot_id),
            boot_id@,
            request_id@,
            reply@,
            confirm_close,
            clipboard_toast,
        ),
{
    let ghost ps = old(state)@.pending;
    let mut k: usize = 0;
    while k < state.pending.len()
        invariant
            k <= state.pending@.len(),
            state@ == old(state)@,
            ps == pending_views(state.pending@),
            forall|j: int| 0 <= j < k ==> ps[j].request_id != request_id@,
        ensures
            k <= state.pending@.len(),
            state@ == old(state)@,
            ps == pending_views(state.pending@),
            forall|j: int| 0 <= j < k ==> ps[j].request_id != request_id@,
            k < state.pending@.len() ==> ps[k as int].request_id == request_id@,
        decreases state.pending@.len() - k,
    {
        assert(ps[k as int] == state.pending@[k as int]@);
        if str_equal(state.pending[k].request_id.as_str(), request_id) {
            break;
        }
        k = k + 1;
    }
    if k == state.pending.len() {
        assert(pending_index(ps, request_id@) is None);
        return ResultEffect::Ignored;
    }
    assert(ps[k as int].request_id == request_id@);
    assert(pending_index(ps, request_id@) == Some(k as int)) by {
        let c = choose|c: int| 0 <= c < ps.len() && ps[c].request_id == request_id@;
        if c != k as int {
            assert(ps[c].request_id != ps[k as int].request_id);
        }
    }
    let p = state.pending.remove(k);
    proof {
        assert(pending_views(state.pending@) =~= ps.remove(k as int));
        assert forall|a: int, b: int| 0 <= a < b < ps.remove(k as int).len() implies ps.remove(k as int)[a].request_id
            != ps.remove(k as int)[b].request_id by {
            if b < k {
            } else if a < k {
                assert(ps.remove(k as int)[b] == ps[b + 1]);
            } else {
                assert(ps.remove(k as int)[a] == ps[a + 1]);
                assert(ps.remove(k as int)[b] == ps[b + 1]);
            }
        }
    }
    let same_session = str_equal(p.boot_id.as_str(), boot_id) && match snapshot_boot_id {
        Some(b) => str_equal(b.as_str(), boot_id),
        None => false,
    };
    if !same_session {
        return ResultEffect::Ignored;
    }
    read_reply(state, p, reply, confirm_close, clipboard_toast)
}


/// An answer is read at most once: after the answer to `request_id` was
/// handled, another answer to it (from any session) is ignored and changes
/// nothing.
pub proof fn lemma_answers_are_read_once(
    s: ResultStateView,
    snapshot_boot_id: Option<Seq<char>>,
    boot_id: Seq<char>,
    later_boot_id: Seq<char>,
    request_id: Seq<char>,
    reply: ReplyView,
    later_reply: ReplyView,
    confirm_close: bool,
    clipboard_toast: bool,
)
    requires
        unique_requests(s.pending),
    ensures
        ({
            let (s1, _) = spec_handle_endpoint_result(
                s,
                snapshot_boot_id,
                boot_id,
                request_id,
                reply,
                confirm_close,
                clipboard_toast,
            );
            spec_handle_endpoint_result(
                s1,
                snapshot_boot_id,
                later_boot_id,
                request_id,
                later_reply,
                confirm_close,
                clipboard_toast,
            ) == (s1, ResultEffectView::Ignored)
        }),
{
    let (s1, _) = spec_handle_endpoint_result(
        s,
        snapshot_boot_id,
        boot_id,
        request_id,
        reply,
        confirm_close,
        clipboard_toast,
    );
    match pending_index(s.pending, request_id) {
        None => {},
        Some(k) => {
            let rest = s.pending.remove(k);
            assert(s1.pending == rest);
            assert forall|j: int| 0 <= j < rest.len() implies rest[j].request_id != request_id by {
                if j < k {
                    assert(rest[j] == s.pending[j]);
                } else {
                    assert(rest[j] == s.pending[j + 1]);
                }
            }
            assert(pending_index(s1.pending, request_id) is None);
        },
    }
}

/// Answers to different requests leave each other's requests pending: handling
/// the answer to `request_id` keeps every other pending request, in order.
pub proof fn lemma_other_requests_stay_pending(
    s: ResultStateView,
    snapshot_boot_id: Option<Seq<char>>,
    boot_id: Seq<char>,
    request_id: Seq<char>,
    reply: ReplyView,
    confirm_close: bool,
    clipboard_toast: bool,
    other: Seq<char>,
)
    requires
        unique_requests(s.pending),
        other != request_id,
    ensures
        ({
            let (s1, _) = spec_handle_endpoint_result(
                s,
                snapshot_boot_id,
                boot_id,
                request_id,
                reply,
                confirm_close,
                clipboard_toast,
            );
            &&& pending_index(s.pending, other) is Some <==> pending_index(s1.pending, other) is Some
            &&& pending_index(s.pending, other) matches Some(a) ==> s1.pending[pending_index(s1.pending, other)->0]
                == s.pending[a]
        }),
{
    let (s1, _) = spec_handle_endpoint_result(
        s,
        snapshot_boot_id,
        boot_id,
        request_id,
        reply,
        confirm_close,
        clipboard_toast,
    );
    match pending_index(s.pending, request_id) {
        None => {},
        Some(k) => {
            let rest = s.pending.remove(k);
            assert(s1.pending == rest);
            if let Some(a) = pending_index(s.pending, other) {
                assert(a != k);
                let b = if a < k { a } else { a - 1 };
                assert(rest[b] == s.pending[a]);
                assert(pending_index(rest, other) is Some);
                let c = pending_index(rest, other)->0;
                let c0 = if c < k { c } else { c + 1 };
                assert(rest[c] == s.pending[c0]);
                if c0 != a {
                    if c0 < a {
                        assert(s.pending[c0].request_id != s.pending[a].request_id);
                    } else {
                        assert(s.pending[a].request_id != s.pending[c0].request_id);
                    }
                }
            } else {
                if pending_index(rest, other) is Some {
                    let c = pending_index(rest, other)->0;
                    let c0 = if c < k { c } else { c + 1 };
                    assert(rest[c] == s.pending[c0]);
                    assert(false);
                }
            }
        },
    }
}

} // verus!
