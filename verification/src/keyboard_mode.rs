//! Which clients must be told to change how their host terminal reports keys.
use vstd::prelude::*;

use crate::render_targets::ClientConnectionMode;

verus! {

/// How a terminal asked for keys to be reported.
#[derive(Clone, Copy, Debug, PartialEq, Eq, Structural)]
pub struct KeyboardReporting {
    /// The progressive-enhancement flags it pushed (0 for the legacy protocol).
    pub flags: u8,
    /// The flags ask for every key to be reported as an escape code.
    pub reports_all_keys: bool,
    /// The flags ask for press, repeat and release events.
    pub reports_event_types: bool,
    /// Its `modifyOtherKeys` level.
    pub modify_other_keys_level: u8,
}

/// What the keyboard decision needs to know of one connected client.
#[derive(Clone, Debug)]
pub struct KeyboardClient {
    pub client_id: u64,
    pub mode: ClientConnectionMode,
    /// Whether the client still has a writer.
    pub has_writer: bool,
    /// The report-all mode last sent to a shell client, if any.
    pub host_keyboard_report_all_active: Option<bool>,
    /// The protocol last sent to an attached client, if any.
    pub host_keyboard_protocol_active: Option<(u8, u8)>,
    /// For an attached client: how the terminal it shows reports keys (none when
    /// the terminal is gone).
    pub terminal_keyboard: Option<KeyboardReporting>,
}

/// One change to send.
#[derive(Clone, Copy, Debug, PartialEq, Eq, Structural)]
pub enum KeyboardModeUpdate {
    /// Tell a shell client whether to report every key.
    ShellReportAll { client_id: u64, enabled: bool },
    /// Tell an attached client the key protocol of its terminal.
    DirectProtocol { client_id: u64, flags: u8, modify_other_keys_level: u8 },
}

/// Whether shell clients report every key: the focused terminal (the popup's
/// when one is open) reports all keys, or reports event types with
/// `modifyOtherKeys` on. False without a focused terminal.
pub open spec fn shell_report_all(focused: Option<KeyboardReporting>) -> bool {
    match focused {
        Some(k) => k.reports_all_keys || (k.reports_event_types && k.modify_other_keys_level > 0),
        None => false,
    }
}

/// The update owed to shell client `c`.
pub open spec fn shell_update_for(c: KeyboardClient, report_all: bool) -> Option<KeyboardModeUpdate> {
    if c.mode is ClientShell && c.host_keyboard_report_all_active != Some(report_all) && c.has_writer {
        Some(KeyboardModeUpdate::ShellReportAll { client_id: c.client_id, enabled: report_all })
    } else {
        None
    }
}

/// The protocol attached client `c` should have: its terminal's flags and
/// level, or none at all when the terminal is gone.
pub open spec fn direct_protocol(c: KeyboardClient) -> (u8, u8) {
    match c.terminal_keyboard {
        Some(k) => (k.flags, k.modify_other_keys_level),
        None => (0, 0),
    }
}

/// The update owed to attached client `c`.
pub open spec fn direct_update_for(c: KeyboardClient) -> Option<KeyboardModeUpdate> {
    let (flags, level) = direct_protocol(c);
    if c.mode is TerminalAttach && c.host_keyboard_protocol_active != Some((flags, level)) && c.has_writer {
        Some(KeyboardModeUpdate::DirectProtocol { client_id: c.client_id, flags, modify_other_keys_level: level })
    } else {
        None
    }
}

/// The shell updates owed to `clients`, in their order.
pub open spec fn shell_updates(clients: Seq<KeyboardClient>, report_all: bool) -> Seq<KeyboardModeUpdate>
    decreases clients.len(),
{
    if clients.len() == 0 {
        Seq::empty()
    } else {
        let rest = shell_updates(clients.drop_last(), report_all);
        match shell_update_for(clients.last(), report_all) {
            Some(u) => rest.push(u),
            None => rest,
        }
    }
}

/// The attached-client updates owed to `clients`, in their order.
pub open spec fn direct_updates(clients: Seq<KeyboardClient>) -> Seq<KeyboardModeUpdate>
    decreases clients.len(),
{
    if clients.len() == 0 {
        Seq::empty()
    } else {
        let rest = direct_updates(clients.drop_last());
        match direct_update_for(clients.last()) {
            Some(u) => rest.push(u),
            None => rest,
        }
    }
}

/// The keyboard mode changes to send: first, to every shell client whose
/// report-all mode differs from what the focused terminal asks
/// (`shell_report_all`), then to every attached client whose protocol differs
/// from its terminal's; each only when the client has a writer.
pub fn stream_direct_terminal_keyboard_mode(
    clients: &[KeyboardClient],
    focused_terminal: Option<KeyboardReporting>,
) -> (r: Vec<KeyboardModeUpdate>)
    ensures
        r@ == shell_updates(clients@, shell_report_all(focused_terminal)) + direct_updates(clients@),
{
    let report_all = match focused_terminal {
        Some(k) => k.reports_all_keys || (k.reports_event_types && k.modify_other_keys_level > 0),
        None => false,
    };
    let mut updates: Vec<KeyboardModeUpdate> = Vec::new();
    let mut i: usize = 0;
    while i < clients.len()
        invariant
            i <= clients@.len(),
            report_all == shell_report_all(focused_terminal),
            updates@ == shell_updates(clients@.take(i as int), report_all),
        decreases clients@.len() - i,
    {
        assert(clients@.take(i + 1).drop_last() =~= clients@.take(i as int));
        assert(clients@.take(i + 1).last() == clients@[i as int]);
        let c = &clients[i];
        let is_shell = match &c.mode {
            ClientConnectionMode::ClientShell => true,
            _ => false,
        };
        let unchanged = match c.host_keyboard_report_all_active {
            Some(b) => b == report_all,
            None => false,
        };
        if is_shell && !unchanged && c.has_writer {
            updates.push(KeyboardModeUpdate::ShellReportAll { client_id: c.client_id, enabled: report_all });
        }
        i = i + 1;
    }
    assert(clients@.take(clients@.len() as int) =~= clients@);
    let ghost shell_part = updates@;
    let mut j: usize = 0;
    while j < clients.len()
        invariant
            j <= clients@.len(),
            updates@ == shell_part + direct_updates(clients@.take(j as int)),
        decreases clients@.len() - j,
    {
        assert(clients@.take(j + 1).drop_last() =~= clients@.take(j as int));
        assert(clients@.take(j + 1).last() == clients@[j as int]);
        let c = &clients[j];
        let is_attach = match &c.mode {
            ClientConnectionMode::TerminalAttach { .. } => true,
            _ => false,
        };
        let (flags, level) = match c.terminal_keyboard {
            Some(k) => (k.flags, k.modify_other_keys_level),
            None => (0u8, 0u8),
        };
        let unchanged = match c.host_keyboard_protocol_active {
            Some((f, l)) => f == flags && l == level,
            None => false,
        };
        let ghost before = updates@;
        if is_attach && !unchanged && c.has_writer {
            updates.push(KeyboardModeUpdate::DirectProtocol { client_id: c.client_id, flags, modify_other_keys_level: level });
            assert(updates@ =~= before.push(
                KeyboardModeUpdate::DirectProtocol { client_id: c.client_id, flags, modify_other_keys_level: level },
            ));
        }
        assert(shell_part + direct_updates(clients@.take(j + 1)) =~= if is_attach && !unchanged && c.has_writer {
            (shell_part + direct_updates(clients@.take(j as int))).push(
                KeyboardModeUpdate::DirectProtocol { client_id: c.client_id, flags, modify_other_keys_level: level },
            )
        } else {
            shell_part + direct_updates(clients@.take(j as int))
        });
        j = j + 1;
    }
    assert(clients@.take(clients@.len() as int) =~= clients@);
    updates
}

/// Whether client `c` already has the mode it should have.
pub open spec fn keyboard_settled(c: KeyboardClient, report_all: bool) -> bool {
    &&& c.mode is ClientShell ==> c.host_keyboard_report_all_active == Some(report_all)
    &&& c.mode is TerminalAttach ==> c.host_keyboard_protocol_active == Some(direct_protocol(c))
}

/// Once every client has been told the mode it should have, nothing more is
/// sent until something changes.
pub proof fn lemma_settled_clients_get_no_update(clients: Seq<KeyboardClient>, report_all: bool)
    requires
        forall|i: int| 0 <= i < clients.len() ==> keyboard_settled(#[trigger] clients[i], report_all),
    ensures
        shell_updates(clients, report_all).len() == 0,
        direct_updates(clients).len() == 0,
    decreases clients.len(),
{
    if clients.len() > 0 {
        let front = clients.drop_last();
        assert forall|i: int| 0 <= i < front.len() implies keyboard_settled(#[trigger] front[i], report_all) by {
            assert(front[i] == clients[i]);
        }
        lemma_settled_clients_get_no_update(front, report_all);
        assert(keyboard_settled(clients[clients.len() - 1], report_all));
        assert(clients.last() == clients[clients.len() - 1]);
    }
}

} // verus!
