//! Input routing of the client shell: batching pane events into requests, and
//! editing the text of a rename prompt.
use vstd::prelude::*;

use crate::endpoint::{ClientMessage, ClientPaneInputEvent};
use crate::text::{char_is_alphanumeric, char_is_whitespace, is_alphanumeric, is_whitespace};

verus! {

/// Where an input event goes: a pane, or a popup terminal.
#[derive(Clone, Debug, PartialEq, Eq)]
pub enum ClientInputTarget {
    Pane(String),
    Popup(String),
}

/// What handling one batch of input asks of the client.
#[derive(Debug)]
pub struct ClientShellInput {
    pub detach: bool,
    pub repaint: bool,
    pub resize: bool,
    pub query_host_appearance: bool,
    /// The messages to send to the endpoint, in order.
    pub requests: Vec<ClientMessage>,
}

impl ClientShellInput {
    /// An outcome that asks for nothing.
    pub fn new() -> (r: Self)
        ensures
            !r.detach && !r.repaint && !r.resize && !r.query_host_appearance,
            r.requests@ == Seq::<ClientMessage>::empty(),
    {
        ClientShellInput { detach: false, repaint: false, resize: false, query_host_appearance: false, requests: Vec::new() }
    }
}

/// A message as the rest of the input logic sees it.
pub ghost enum MessageView {
    PaneInput { pane_id: Seq<char>, events: Seq<ClientPaneInputEvent> },
    PopupInput { terminal_id: Seq<char>, events: Seq<ClientPaneInputEvent> },
    Other,
}

/// The abstract form of `m`: pane and popup input by target and events, anything
/// else opaque.
pub open spec fn message_view(m: ClientMessage) -> MessageView {
    match m {
        ClientMessage::ClientShellPaneInput { pane_id, events } => MessageView::PaneInput {
            pane_id: pane_id@,
            events: events@,
        },
        ClientMessage::ClientShellPopupInput { terminal_id, events } => MessageView::PopupInput {
            terminal_id: terminal_id@,
            events: events@,
        },
        _ => MessageView::Other,
    }
}

/// The abstract forms of `ms`, in order.
pub open spec fn message_views(ms: Seq<ClientMessage>) -> Seq<MessageView> {
    ms.map_values(|m: ClientMessage| message_view(m))
}

/// The request that carries `event` alone to `target`.
pub open spec fn target_message_view(target: ClientInputTarget, event: ClientPaneInputEvent) -> MessageView {
    match target {
        ClientInputTarget::Pane(id) => MessageView::PaneInput { pane_id: id@, events: seq![event] },
        ClientInputTarget::Popup(id) => MessageView::PopupInput { terminal_id: id@, events: seq![event] },
    }
}

/// `requests` with `event` for `target` added: it joins the last request when that
/// one already carries input for the same target, and starts a new request
/// otherwise.
pub open spec fn pushed_requests(
    requests: Seq<MessageView>,
    target: ClientInputTarget,
    event: ClientPaneInputEvent,
) -> Seq<MessageView> {
    let last = requests.len() - 1;
    let fresh = requests.push(target_message_view(target, event));
    if requests.len() == 0 {
        fresh
    } else {
        match (target, requests[last]) {
            (ClientInputTarget::Pane(id), MessageView::PaneInput { pane_id, events }) => if pane_id == id@ {
                requests.update(last, MessageView::PaneInput { pane_id, events: events.push(event) })
            } else {
                fresh
            },
            (ClientInputTarget::Popup(id), MessageView::PopupInput { terminal_id, events }) => if terminal_id
                == id@ {
                requests.update(last, MessageView::PopupInput { terminal_id, events: events.push(event) })
            } else {
                fresh
            },
            _ => fresh,
        }
    }
}

/// The request that carries `event` alone to `target`.
pub fn target_event_message(target: ClientInputTarget, event: ClientPaneInputEvent) -> (r: ClientMessage)
    ensures
        message_view(r) == target_message_view(target, event),
{
    match target {
        ClientInputTarget::Pane(pane_id) => {
            let mut events = Vec::new();
            events.push(event);
            assert(events@ =~= seq![event]);
            ClientMessage::ClientShellPaneInput { pane_id, events }
        },
        ClientInputTarget::Popup(terminal_id) => {
            let mut events = Vec::new();
            events.push(event);
            assert(events@ =~= seq![event]);
            ClientMessage::ClientShellPopupInput { terminal_id, events }
        },
    }
}

/// Adds `event` for `target` to the outcome's requests, batching it into the last
/// request when that one goes to the same target.
pub fn push_target_event(target: ClientInputTarget, event: ClientPaneInputEvent, outcome: &mut ClientShellInput)
    ensures
        message_views(final(outcome).requests@) == pushed_requests(
            message_views(old(outcome).requests@),
            target,
            event,
        ),
        old(outcome).requests@.len() > 0 ==> final(outcome).requests@.subrange(
            0,
            old(outcome).requests@.len() - 1,
        ) == old(outcome).requests@.subrange(0, old(outcome).requests@.len() - 1),
        old(outcome).requests@.len() > 0 && final(outcome).requests@.len() == old(outcome).requests@.len() + 1
            ==> final(outcome).requests@[old(outcome).requests@.len() - 1] == old(outcome).requests@.last(),
        final(outcome).detach == old(outcome).detach,
        final(outcome).repaint == old(outcome).repaint,
        final(outcome).resize == old(outcome).resize,
        final(outcome).query_host_appearance == old(outcome).query_host_appearance,
{
    let ghost before = message_views(outcome.requests@);
    let ghost before_requests = outcome.requests@;
    let ghost t = target;
    let last = outcome.requests.pop();
    let ghost rest = outcome.requests@;
    proof {
        if before.len() > 0 {
            assert(message_views(rest) =~= before.subrange(0, before.len() - 1));
        }
    }
    match last {
        None => {
            proof {
                assert(before.len() == 0);
            }
            let message = target_event_message(target, event);
            outcome.requests.push(message);
            assert(message_views(outcome.requests@) =~= before.push(target_message_view(t, event)));
        },
        Some(previous) => {
            let ghost pv = message_view(previous);
            proof {
                assert(before.len() > 0);
                assert(before[before.len() - 1] == pv);
            }
            match (target, previous) {
                (ClientInputTarget::Pane(id), ClientMessage::ClientShellPaneInput { pane_id, mut events }) => {
                    if pane_id == id {
                        events.push(event);
                        let merged = ClientMessage::ClientShellPaneInput { pane_id, events };
                        let ghost mv = message_view(merged);
                        outcome.requests.push(merged);
                        assert(message_views(outcome.requests@) =~= before.update(before.len() - 1, mv));
                    } else {
                        outcome.requests.push(ClientMessage::ClientShellPaneInput { pane_id, events });
                        let message = target_event_message(ClientInputTarget::Pane(id), event);
                        outcome.requests.push(message);
                        assert(message_views(outcome.requests@) =~= before.push(target_message_view(t, event)));
                    }
                },
                (ClientInputTarget::Popup(id), ClientMessage::ClientShellPopupInput { terminal_id, mut events }) => {
                    if terminal_id == id {
                        events.push(event);
                        let merged = ClientMessage::ClientShellPopupInput { terminal_id, events };
                        let ghost mv = message_view(merged);
                        outcome.requests.push(merged);
                        assert(message_views(outcome.requests@) =~= before.update(before.len() - 1, mv));
                    } else {
                        outcome.requests.push(ClientMessage::ClientShellPopupInput { terminal_id, events });
                        let message = target_event_message(ClientInputTarget::Popup(id), event);
                        outcome.requests.push(message);
                        assert(message_views(outcome.requests@) =~= before.push(target_message_view(t, event)));
                    }
                },
                (target, previous) => {
                    outcome.requests.push(previous);
                    let message = target_event_message(target, event);
                    outcome.requests.push(message);
                    assert(message_views(outcome.requests@) =~= before.push(target_message_view(t, event)));
                },
            }
        },
    }
}

/// What a rename prompt renames.
#[derive(Debug)]
pub enum ClientRenameTarget {
    NewWorkspace { cwd: Option<String>, suggested_name: String },
    Workspace { workspace_id: String },
    NewTab { workspace_id: String, default_name: String },
    Tab { tab_id: String, auto_name: bool, original_name: String },
    Pane { pane_id: String },
}

/// A rename prompt.
#[derive(Debug)]
pub struct ClientRenameOverlay {
    pub title: &'static str,
    /// The text typed so far.
    pub input: String,
    /// Whether the next keystroke replaces the whole suggested text.
    pub replace_on_type: bool,
    pub target: ClientRenameTarget,
}

/// Whether `c` counts as part of a word: alphanumeric or an underscore.
pub open spec fn word_char(c: char) -> bool {
    char_is_alphanumeric(c) || c == '_'
}

/// `s` without its trailing whitespace.
pub open spec fn strip_trailing_whitespace(s: Seq<char>) -> Seq<char>
    decreases s.len(),
{
    if s.len() > 0 && char_is_whitespace(s.last()) {
        strip_trailing_whitespace(s.drop_last())
    } else {
        s
    }
}

/// `s` without its trailing run of non-whitespace characters whose word class is
/// `word`.
pub open spec fn strip_trailing_class(s: Seq<char>, word: bool) -> Seq<char>
    decreases s.len(),
{
    if s.len() > 0 && !char_is_whitespace(s.last()) && word_char(s.last()) == word {
        strip_trailing_class(s.drop_last(), word)
    } else {
        s
    }
}

/// `s` with its last word deleted: trailing whitespace goes, then the run of
/// characters of the same class as the last one left (word characters, or
/// punctuation).
pub open spec fn delete_word_spec(s: Seq<char>) -> Seq<char> {
    let t = strip_trailing_whitespace(s);
    if t.len() == 0 {
        t
    } else {
        strip_trailing_class(t, word_char(t.last()))
    }
}

/// Whether `c` continues a run of class `word` when deleting backwards.
fn continues_word(c: char, word: bool) -> (r: bool)
    ensures
        r == (!char_is_whitespace(c) && word_char(c) == word),
{
    !is_whitespace(c) && (is_alphanumeric(c) || c == '_') == word
}

/// Deletes the last word of the prompt's text; when the prompt still shows its
/// suggested text, clears it instead.
pub fn delete_overlay_word(rename: &mut ClientRenameOverlay)
    ensures
        final(rename).input@ == if old(rename).replace_on_type {
            Seq::<char>::empty()
        } else {
            delete_word_spec(old(rename).input@)
        },
        !final(rename).replace_on_type,
        final(rename).title == old(rename).title,
        final(rename).target == old(rename).target,
{
    if rename.replace_on_type {
        rename.input = String::new();
        rename.replace_on_type = false;
        return;
    }
    let n = rename.input.as_str().unicode_len();
    let ghost s = rename.input@;
    let mut end: usize = n;
    assert(s.subrange(0, n as int) =~= s);
    while end > 0 && is_whitespace(rename.input.as_str().get_char(end - 1))
        invariant
            n == s.len(),
            s == rename.input@,
            end <= n,
            strip_trailing_whitespace(s) == strip_trailing_whitespace(s.subrange(0, end as int)),
        decreases end,
    {
        proof {
            let part = s.subrange(0, end as int);
            assert(part.last() == s[end - 1]);
            assert(part.drop_last() =~= s.subrange(0, end - 1));
        }
        end = end - 1;
    }
    proof {
        assert(s.subrange(0, n as int) =~= s);
        let part = s.subrange(0, end as int);
        if end > 0 {
            assert(part.last() == s[end - 1]);
        }
        assert(strip_trailing_whitespace(part) == part);
    }
    let ghost t = s.subrange(0, end as int);
    if end > 0 {
        let last = rename.input.as_str().get_char(end - 1);
        let word = is_alphanumeric(last) || last == '_';
        assert(t.last() == last);
        while end > 0 && continues_word(rename.input.as_str().get_char(end - 1), word)
            invariant
                n == s.len(),
                s == rename.input@,
                end <= t.len(),
                t.len() <= n,
                t == s.subrange(0, t.len() as int),
                strip_trailing_class(t, word) == strip_trailing_class(s.subrange(0, end as int), word),
            decreases end,
        {
            proof {
                let part = s.subrange(0, end as int);
                assert(part.last() == s[end - 1]);
                assert(part.drop_last() =~= s.subrange(0, end - 1));
            }
            end = end - 1;
        }
        proof {
            let part = s.subrange(0, end as int);
            if end > 0 {
                assert(part.last() == s[end - 1]);
            }
            assert(strip_trailing_class(part, word) == part);
        }
    }
    let kept = rename.input.as_str().substring_char(0, end).to_owned();
    rename.input = kept;
}

} // verus!
