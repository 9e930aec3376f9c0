//! Which clients must be told to change how their host terminal captures the
//! mouse.
use vstd::prelude::*;

use crate::render_targets::ClientConnectionMode;

verus! {

/// What the mouse capture decision needs to know of one connected client.
#[derive(Clone, Debug)]
pub struct MouseCaptureClient {
    pub client_id: u64,
    pub mode: ClientConnectionMode,
    /// Whether the client still has a writer.
    pub has_writer: bool,
    /// A shell client asked for mouse capture itself.
    pub shell_mouse_capture: bool,
    /// The client's terminal can report pixel mouse positions.
    pub pixel_mouse: bool,
    /// The capture mode last sent to the client, if any.
    pub host_mouse_capture_active: Option<bool>,
    /// The pixel reporting mode last sent to the client, if any.
    pub host_sgr_pixels_active: Option<bool>,
    /// For an attached client: the terminal it shows asked for mouse reports
    /// (false when the terminal is gone).
    pub terminal_mouse_reporting: bool,
    /// For an attached client: the terminal it shows asked for pixel mouse
    /// reports (false when the terminal is gone).
    pub terminal_sgr_pixel_mouse: bool,
}

/// What the application shell as a whole asks of the mouse.
#[derive(Clone, Copy, Debug)]
pub struct ShellMouseState {
    /// A popup is open, or the focused pane asked for mouse capture.
    pub endpoint_shell_mouse: bool,
    /// The focused pane shows graphics.
    pub focused_pane_graphics_demand: bool,
    /// The focused pane's terminal asked for pixel mouse reports.
    pub focused_pane_sgr_pixel_mouse: bool,
}

/// One mode change to send: capture on or off, and pixel reports on or off.
#[derive(Clone, Copy, Debug, PartialEq, Eq, Structural)]
pub struct MouseCaptureUpdate {
    pub client_id: u64,
    pub enabled: bool,
    pub sgr_pixels: bool,
}

/// Whether some shell client can report pixel mouse positions.
pub open spec fn pixel_mouse_requested(clients: Seq<MouseCaptureClient>) -> bool {
    exists|i: int|
        0 <= i < clients.len() && (#[trigger] clients[i]).mode is ClientShell
            && clients[i].pixel_mouse
}

/// Whether shell clients get pixel reports: one of them can give them, and the
/// focused pane shows graphics and asked for them.
pub open spec fn shell_sgr_pixels(clients: Seq<MouseCaptureClient>, shell: ShellMouseState) -> bool {
    pixel_mouse_requested(clients) && shell.focused_pane_graphics_demand
        && shell.focused_pane_sgr_pixel_mouse
}

/// The modes `c` should have, if it is a shell or attached client.
pub open spec fn requested_mode(c: MouseCaptureClient, shell_sgr: bool, shell: ShellMouseState) -> Option<(bool, bool)> {
    match c.mode {
        ClientConnectionMode::ClientShell => Some(
            (c.shell_mouse_capture || shell.endpoint_shell_mouse, shell_sgr && c.pixel_mouse),
        ),
        ClientConnectionMode::TerminalAttach { .. } => Some(
            (
                c.terminal_mouse_reporting,
                c.terminal_mouse_reporting && c.pixel_mouse && c.terminal_sgr_pixel_mouse,
            ),
        ),
        _ => None,
    }
}

/// The update owed to `c`: its requested modes, when they differ from those
/// last sent and the client has a writer.
pub open spec fn update_for(c: MouseCaptureClient, shell_sgr: bool, shell: ShellMouseState) -> Option<MouseCaptureUpdate> {
    match requested_mode(c, shell_sgr, shell) {
        Some((enabled, sgr)) => if (c.host_mouse_capture_active == Some(enabled)
            && c.host_sgr_pixels_active == Some(sgr)) || !c.has_writer {
            None
        } else {
            Some(MouseCaptureUpdate { client_id: c.client_id, enabled, sgr_pixels: sgr })
        },
        None => None,
    }
}

/// The updates owed to the clients of `clients`, in their order.
pub open spec fn updates_for(clients: Seq<MouseCaptureClient>, shell_sgr: bool, shell: ShellMouseState) -> Seq<MouseCaptureUpdate>
    decreases clients.len(),
{
    if clients.len() == 0 {
        Seq::empty()
    } else {
        let rest = updates_for(clients.drop_last(), shell_sgr, shell);
        match update_for(clients.last(), shell_sgr, shell) {
            Some(u) => rest.push(u),
            None => rest,
        }
    }
}

/// The mouse capture changes to send: each shell client captures the mouse when
/// it asked to or the shell needs it, each attached client when its terminal
/// asked for mouse reports; pixel reports follow the same rule. A client is
/// told only when that differs from what it was last told, and only if it has
/// a writer.
pub fn stream_host_mouse_capture_mode(
    clients: &[MouseCaptureClient],
    shell: ShellMouseState,
) -> (r: Vec<MouseCaptureUpdate>)
    ensures
        r@ == updates_for(clients@, shell_sgr_pixels(clients@, shell), shell),
{
    let mut pixel_requested: bool = false;
    let mut i: usize = 0;
    while i < clients.len()
        invariant
            i <= clients@.len(),
            pixel_requested == exists|k: int|
                0 <= k < i && (#[trigger] clients@[k]).mode is ClientShell && clients@[k].pixel_mouse,
        decreases clients@.len() - i,
    {
        if clients[i].pixel_mouse {
            if let ClientConnectionMode::ClientShell = clients[i].mode {
                pixel_requested = true;
            }
        }
        i = i + 1;
    }
    let shell_sgr = pixel_requested && shell.focused_pane_graphics_demand
        && shell.focused_pane_sgr_pixel_mouse;
    assert(shell_sgr == shell_sgr_pixels(clients@, shell));
    let mut updates: Vec<MouseCaptureUpdate> = Vec::new();
    let mut j: usize = 0;
    while j < clients.len()
        invariant
            j <= clients@.len(),
            updates@ == updates_for(clients@.take(j as int), shell_sgr, shell),
        decreases clients@.len() - j,
    {
        let c = &clients[j];
        let requested: Option<(bool, bool)> = match &c.mode {
            ClientConnectionMode::ClientShell => Some(
                (c.shell_mouse_capture || shell.endpoint_shell_mouse, shell_sgr && c.pixel_mouse),
            ),
            ClientConnectionMode::TerminalAttach { .. } => Some(
                (
                    c.terminal_mouse_reporting,
                    c.terminal_mouse_reporting && c.pixel_mouse && c.terminal_sgr_pixel_mouse,
                ),
            ),
            _ => None,
        };
        assert(requested == requested_mode(clients@[j as int], shell_sgr, shell));
        if let Some((enabled, sgr)) = requested {
            let unchanged = match (c.host_mouse_capture_active, c.host_sgr_pixels_active) {
                (Some(a), Some(b)) => a == enabled && b == sgr,
                _ => false,
            };
            if !unchanged && c.has_writer {
                updates.push(MouseCaptureUpdate { client_id: c.client_id, enabled, sgr_pixels: sgr });
            }
        }
        proof {
            let next = clients@.take(j + 1);
            assert(next.drop_last() =~= clients@.take(j as int));
            assert(next.last() == clients@[j as int]);
        }
        j = j + 1;
    }
    assert(clients@.take(clients@.len() as int) =~= clients@);
    updates
}

/// Whether `c` is a client that may be told a mouse mode: it has a writer and
/// is a shell or attached client.
pub open spec fn may_be_told(c: MouseCaptureClient) -> bool {
    c.has_writer && (c.mode is ClientShell || c.mode is TerminalAttach)
}

/// Whether `id` is the id of a client of `clients` that may be told a mouse
/// mode.
pub open spec fn names_toldable(clients: Seq<MouseCaptureClient>, id: u64) -> bool {
    exists|i: int| 0 <= i < clients.len() && #[trigger] may_be_told(clients[i]) && clients[i].client_id == id
}

/// Only clients with a writer that show the shell or an attached terminal are
/// ever told a mouse mode: every update names such a client.
pub proof fn lemma_updates_only_for_writers(
    clients: Seq<MouseCaptureClient>,
    shell_sgr: bool,
    shell: ShellMouseState,
)
    ensures
        forall|k: int|
            0 <= k < updates_for(clients, shell_sgr, shell).len() ==> names_toldable(
                clients,
                (#[trigger] updates_for(clients, shell_sgr, shell)[k]).client_id,
            ),
    decreases clients.len(),
{
    if clients.len() > 0 {
        let front = clients.drop_last();
        lemma_updates_only_for_writers(front, shell_sgr, shell);
        let rest = updates_for(front, shell_sgr, shell);
        let all = updates_for(clients, shell_sgr, shell);
        assert forall|k: int| 0 <= k < all.len() implies names_toldable(
            clients,
            (#[trigger] all[k]).client_id,
        ) by {
            if k < rest.len() {
                assert(all[k] == rest[k]);
                assert(names_toldable(front, rest[k].client_id));
                let i = choose|i: int|
                    0 <= i < front.len() && #[trigger] may_be_told(front[i]) && front[i].client_id
                        == rest[k].client_id;
                assert(clients[i] == front[i]);
                assert(may_be_told(clients[i]));
            } else {
                let i = clients.len() - 1;
                assert(clients[i] == clients.last());
                assert(may_be_told(clients[i]));
            }
        }
    }
}

/// Whether client `c` already has the modes it should have.
pub open spec fn mouse_settled(c: MouseCaptureClient, shell_sgr: bool, shell: ShellMouseState) -> bool {
    c.has_writer ==> match requested_mode(c, shell_sgr, shell) {
        Some((enabled, sgr)) => c.host_mouse_capture_active == Some(enabled) && c.host_sgr_pixels_active == Some(sgr),
        None => true,
    }
}

/// Once every client has been told the modes it should have, nothing more is
/// sent until something changes.
pub proof fn lemma_settled_clients_get_no_update(
    clients: Seq<MouseCaptureClient>,
    shell_sgr: bool,
    shell: ShellMouseState,
)
    requires
        forall|i: int| 0 <= i < clients.len() ==> mouse_settled(#[trigger] clients[i], shell_sgr, shell),
    ensures
        updates_for(clients, shell_sgr, shell).len() == 0,
    decreases clients.len(),
{
    if clients.len() > 0 {
        let front = clients.drop_last();
        assert forall|i: int| 0 <= i < front.len() implies mouse_settled(#[trigger] front[i], shell_sgr, shell) by {
            assert(front[i] == clients[i]);
        }
        lemma_settled_clients_get_no_update(front, shell_sgr, shell);
        assert(mouse_settled(clients[clients.len() - 1], shell_sgr, shell));
        assert(clients.last() == clients[clients.len() - 1]);
    }
}

/// `c` once the update owed to it was sent: it now holds the modes it was told.
/// A client owed nothing, or whose update could not be framed (`unframed`), is
/// left as it was.
pub open spec fn recorded_client(
    c: MouseCaptureClient,
    shell_sgr: bool,
    shell: ShellMouseState,
    unframed: Seq<u64>,
) -> MouseCaptureClient {
    match update_for(c, shell_sgr, shell) {
        Some(u) => if unframed.contains(c.client_id) {
            c
        } else {
            MouseCaptureClient {
                host_mouse_capture_active: Some(u.enabled),
                host_sgr_pixels_active: Some(u.sgr_pixels),
                ..c
            }
        },
        None => c,
    }
}

/// `clients` after a round of updates: those whose channel closed (`closed`)
/// are dropped, every other one holds what it was sent.
pub open spec fn recorded_clients(
    clients: Seq<MouseCaptureClient>,
    shell_sgr: bool,
    shell: ShellMouseState,
    closed: Seq<u64>,
    unframed: Seq<u64>,
) -> Seq<MouseCaptureClient>
    decreases clients.len(),
{
    if clients.len() == 0 {
        Seq::empty()
    } else {
        let rest = recorded_clients(clients.drop_last(), shell_sgr, shell, closed, unframed);
        if closed.contains(clients.last().client_id) {
            rest
        } else {
            rest.push(recorded_client(clients.last(), shell_sgr, shell, unframed))
        }
    }
}

/// A copy of `m`.
fn copy_mode(m: &ClientConnectionMode) -> (r: ClientConnectionMode)
    ensures
        r == *m,
{
    match m {
        ClientConnectionMode::ClientShell => ClientConnectionMode::ClientShell,
        ClientConnectionMode::TerminalAttach { terminal_id } => ClientConnectionMode::TerminalAttach {
            terminal_id: terminal_id.clone(),
        },
        ClientConnectionMode::TerminalObserve { terminal_id } => ClientConnectionMode::TerminalObserve {
            terminal_id: terminal_id.clone(),
        },
        ClientConnectionMode::TerminalPending => ClientConnectionMode::TerminalPending,
    }
}

/// A copy of `c`.
fn copy_client(c: &MouseCaptureClient) -> (r: MouseCaptureClient)
    ensures
        r == *c,
{
    MouseCaptureClient {
        client_id: c.client_id,
        mode: copy_mode(&c.mode),
        has_writer: c.has_writer,
        shell_mouse_capture: c.shell_mouse_capture,
        pixel_mouse: c.pixel_mouse,
        host_mouse_capture_active: c.host_mouse_capture_active,
        host_sgr_pixels_active: c.host_sgr_pixels_active,
        terminal_mouse_reporting: c.terminal_mouse_reporting,
        terminal_sgr_pixel_mouse: c.terminal_sgr_pixel_mouse,
    }
}

/// Whether `ids` holds `id`.
fn holds_id(ids: &[u64], id: u64) -> (r: bool)
    ensures
        r == ids@.contains(id),
{
    let mut k: usize = 0;
    while k < ids.len()
        invariant
            k <= ids@.len(),
            forall|j: int| 0 <= j < k ==> ids@[j] != id,
        decreases ids@.len() - k,
    {
        if ids[k] == id {
            assert(ids@[k as int] == id);
            return true;
        }
        k = k + 1;
    }
    false
}

/// Records a round of mouse capture updates, as the server does after sending
/// them: each client sent its update now holds the modes it was told, and the
/// clients whose channel closed while sending (`closed`) are dropped. Updates
/// that could not be framed (`unframed`) were not sent, so those clients keep
/// what they held.
pub fn record_host_mouse_capture(
    clients: &mut Vec<MouseCaptureClient>,
    shell: ShellMouseState,
    closed: &[u64],
    unframed: &[u64],
)
    ensures
        final(clients)@ == recorded_clients(
            old(clients)@,
            shell_sgr_pixels(old(clients)@, shell),
            shell,
            closed@,
            unframed@,
        ),
{
    let ghost sgr_spec = shell_sgr_pixels(clients@, shell);
    let mut pixel_requested: bool = false;
    let mut i: usize = 0;
    while i < clients.len()
        invariant
            i <= clients@.len(),
            pixel_requested == exists|k: int|
                0 <= k < i && (#[trigger] clients@[k]).mode is ClientShell && clients@[k].pixel_mouse,
        decreases clients@.len() - i,
    {
        if clients[i].pixel_mouse {
            if let ClientConnectionMode::ClientShell = clients[i].mode {
                pixel_requested = true;
            }
        }
        i = i + 1;
    }
    let shell_sgr = pixel_requested && shell.focused_pane_graphics_demand && shell.focused_pane_sgr_pixel_mouse;
    assert(shell_sgr == sgr_spec);
    let ghost old_clients = clients@;
    let mut out: Vec<MouseCaptureClient> = Vec::new();
    let mut j: usize = 0;
    while j < clients.len()
        invariant
            j <= clients@.len(),
            clients@ == old_clients,
            out@ == recorded_clients(old_clients.take(j as int), shell_sgr, shell, closed@, unframed@),
        decreases clients@.len() - j,
    {
        assert(old_clients.take(j + 1).drop_last() =~= old_clients.take(j as int));
        assert(old_clients.take(j + 1).last() == old_clients[j as int]);
        let c = &clients[j];
        if !holds_id(closed, c.client_id) {
            let requested: Option<(bool, bool)> = match &c.mode {
                ClientConnectionMode::ClientShell => Some(
                    (c.shell_mouse_capture || shell.endpoint_shell_mouse, shell_sgr && c.pixel_mouse),
                ),
                ClientConnectionMode::TerminalAttach { .. } => Some(
                    (
                        c.terminal_mouse_reporting,
                        c.terminal_mouse_reporting && c.pixel_mouse && c.terminal_sgr_pixel_mouse,
                    ),
                ),
                _ => None,
            };
            assert(requested == requested_mode(old_clients[j as int], shell_sgr, shell));
            let mut next = copy_client(c);
            if let Some((enabled, sgr)) = requested {
                let unchanged = match (c.host_mouse_capture_active, c.host_sgr_pixels_active) {
                    (Some(a), Some(b)) => a == enabled && b == sgr,
                    _ => false,
                };
                if !unchanged && c.has_writer && !holds_id(unframed, c.client_id) {
                    next.host_mouse_capture_active = Some(enabled);
                    next.host_sgr_pixels_active = Some(sgr);
                }
            }
            out.push(next);
        }
        j = j + 1;
    }
    assert(old_clients.take(old_clients.len() as int) =~= old_clients);
    *clients = out;
}

/// A recorded round keeps each client in place with what decides its modes, and
/// leaves each one holding the modes it should have.
proof fn lemma_recorded_round(clients: Seq<MouseCaptureClient>, shell_sgr: bool, shell: ShellMouseState)
    ensures
        recorded_clients(clients, shell_sgr, shell, Seq::empty(), Seq::empty()).len() == clients.len(),
        forall|i: int|
            0 <= i < clients.len() ==> {
                let r = #[trigger] recorded_clients(clients, shell_sgr, shell, Seq::empty(), Seq::empty())[i];
                &&& r.mode == clients[i].mode
                &&& r.pixel_mouse == clients[i].pixel_mouse
                &&& r.has_writer == clients[i].has_writer
                &&& r.shell_mouse_capture == clients[i].shell_mouse_capture
                &&& r.terminal_mouse_reporting == clients[i].terminal_mouse_reporting
                &&& r.terminal_sgr_pixel_mouse == clients[i].terminal_sgr_pixel_mouse
                &&& mouse_settled(r, shell_sgr, shell)
            },
    decreases clients.len(),
{
    if clients.len() > 0 {
        let front = clients.drop_last();
        lemma_recorded_round(front, shell_sgr, shell);
        let all = recorded_clients(clients, shell_sgr, shell, Seq::empty(), Seq::empty());
        let rest = recorded_clients(front, shell_sgr, shell, Seq::empty(), Seq::empty());
        assert(!Seq::<u64>::empty().contains(clients.last().client_id));
        assert(all == rest.push(recorded_client(clients.last(), shell_sgr, shell, Seq::empty())));
        assert forall|i: int| 0 <= i < clients.len() implies {
            let r = #[trigger] all[i];
            &&& r.mode == clients[i].mode
            &&& r.pixel_mouse == clients[i].pixel_mouse
            &&& r.has_writer == clients[i].has_writer
            &&& r.shell_mouse_capture == clients[i].shell_mouse_capture
            &&& r.terminal_mouse_reporting == clients[i].terminal_mouse_reporting
            &&& r.terminal_sgr_pixel_mouse == clients[i].terminal_sgr_pixel_mouse
            &&& mouse_settled(r, shell_sgr, shell)
        } by {
            if i < front.len() {
                assert(all[i] == rest[i]);
                assert(front[i] == clients[i]);
            } else {
                assert(clients[i] == clients.last());
            }
        }
    }
}

/// Once a round of updates has been sent and recorded with no channel closing,
/// the next round sends nothing until something changes.
pub proof fn lemma_recorded_round_sends_nothing_again(clients: Seq<MouseCaptureClient>, shell: ShellMouseState)
    ensures
        ({
            let after = recorded_clients(
                clients,
                shell_sgr_pixels(clients, shell),
                shell,
                Seq::empty(),
                Seq::empty(),
            );
            updates_for(after, shell_sgr_pixels(after, shell), shell).len() == 0
        }),
{
    let sgr = shell_sgr_pixels(clients, shell);
    let after = recorded_clients(clients, sgr, shell, Seq::empty(), Seq::empty());
    lemma_recorded_round(clients, sgr, shell);
    if pixel_mouse_requested(clients) {
        let i = choose|i: int|
            0 <= i < clients.len() && (#[trigger] clients[i]).mode is ClientShell && clients[i].pixel_mouse;
        assert(after[i].mode is ClientShell && after[i].pixel_mouse);
    }
    if pixel_mouse_requested(after) {
        let i = choose|i: int|
            0 <= i < after.len() && (#[trigger] after[i]).mode is ClientShell && after[i].pixel_mouse;
        assert(clients[i].mode is ClientShell && clients[i].pixel_mouse);
    }
    assert(shell_sgr_pixels(after, shell) == sgr);
    assert forall|i: int| 0 <= i < after.len() implies mouse_settled(#[trigger] after[i], sgr, shell) by {}
    lemma_settled_clients_get_no_update(after, sgr, shell);
}


/// A client recorded after a round (with every update framed) holds the modes
/// it should have.
proof fn lemma_recorded_client_settled(c: MouseCaptureClient, shell_sgr: bool, shell: ShellMouseState)
    ensures
        mouse_settled(recorded_client(c, shell_sgr, shell, Seq::empty()), shell_sgr, shell),
        recorded_client(c, shell_sgr, shell, Seq::empty()).client_id == c.client_id,
        recorded_client(c, shell_sgr, shell, Seq::empty()).mode == c.mode,
        recorded_client(c, shell_sgr, shell, Seq::empty()).pixel_mouse == c.pixel_mouse,
{
    assert(!Seq::<u64>::empty().contains(c.client_id));
}

/// What a round keeps, with every update framed: exactly the clients whose
/// channel stayed open, in order, each recorded.
proof fn lemma_recorded_keeps_open_clients(
    clients: Seq<MouseCaptureClient>,
    shell_sgr: bool,
    shell: ShellMouseState,
    closed: Seq<u64>,
)
    ensures
        ({
            let after = recorded_clients(clients, shell_sgr, shell, closed, Seq::empty());
            &&& forall|i: int| 0 <= i < after.len() ==> exists|j: int|
                0 <= j < clients.len() && !closed.contains(clients[j].client_id) && #[trigger] after[i]
                    == recorded_client(clients[j], shell_sgr, shell, Seq::empty())
            &&& forall|j: int| 0 <= j < clients.len() && !closed.contains(#[trigger] clients[j].client_id) ==> exists|i: int|
                0 <= i < after.len() && after[i] == recorded_client(clients[j], shell_sgr, shell, Seq::empty())
        }),
    decreases clients.len(),
{
    if clients.len() > 0 {
        let front = clients.drop_last();
        lemma_recorded_keeps_open_clients(front, shell_sgr, shell, closed);
        let rest = recorded_clients(front, shell_sgr, shell, closed, Seq::empty());
        let after = recorded_clients(clients, shell_sgr, shell, closed, Seq::empty());
        let n = clients.len() - 1;
        assert(clients.last() == clients[n]);
        assert forall|i: int| 0 <= i < after.len() implies exists|j: int|
            0 <= j < clients.len() && !closed.contains(clients[j].client_id) && #[trigger] after[i]
                == recorded_client(clients[j], shell_sgr, shell, Seq::empty()) by {
            if i < rest.len() {
                assert(after[i] == rest[i]);
                let j = choose|j: int| 0 <= j < front.len() && !closed.contains(front[j].client_id) && rest[i]
                    == recorded_client(front[j], shell_sgr, shell, Seq::empty());
                assert(front[j] == clients[j]);
            } else {
                assert(after[i] == recorded_client(clients[n], shell_sgr, shell, Seq::empty()));
            }
        }
        assert forall|j: int| 0 <= j < clients.len() && !closed.contains(#[trigger] clients[j].client_id) implies exists|i: int|
            0 <= i < after.len() && after[i] == recorded_client(clients[j], shell_sgr, shell, Seq::empty()) by {
            if j < n {
                assert(front[j] == clients[j]);
                assert(!closed.contains(front[j].client_id));
                let i = choose|i: int| 0 <= i < rest.len() && rest[i] == recorded_client(front[j], shell_sgr, shell, Seq::empty());
                assert(after[i] == rest[i]);
            } else {
                assert(after[rest.len() as int] == recorded_client(clients[n], shell_sgr, shell, Seq::empty()));
            }
        }
    }
}

/// Clients that are each a recorded open client are settled and none is closed.
proof fn lemma_open_recorded_settled(
    after: Seq<MouseCaptureClient>,
    clients: Seq<MouseCaptureClient>,
    sgr: bool,
    shell: ShellMouseState,
    closed: Seq<u64>,
)
    requires
        forall|i: int| 0 <= i < after.len() ==> exists|j: int|
            0 <= j < clients.len() && !closed.contains(clients[j].client_id) && #[trigger] after[i]
                == recorded_client(clients[j], sgr, shell, Seq::empty()),
    ensures
        forall|i: int| 0 <= i < after.len() ==> !closed.contains(after[i].client_id) && mouse_settled(
            #[trigger] after[i],
            sgr,
            shell,
        ),
{
    assert forall|i: int| 0 <= i < after.len() implies !closed.contains(after[i].client_id) && mouse_settled(
        #[trigger] after[i],
        sgr,
        shell,
    ) by {
        let j = choose|j: int| 0 <= j < clients.len() && !closed.contains(clients[j].client_id) && #[trigger] after[i]
            == recorded_client(clients[j], sgr, shell, Seq::empty());
        lemma_recorded_client_settled(clients[j], sgr, shell);
    }
}

/// Every open client of `clients` is, recorded, among `after`.
proof fn lemma_open_clients_kept(
    after: Seq<MouseCaptureClient>,
    clients: Seq<MouseCaptureClient>,
    sgr: bool,
    shell: ShellMouseState,
    closed: Seq<u64>,
)
    requires
        forall|j: int| 0 <= j < clients.len() && !closed.contains(#[trigger] clients[j].client_id) ==> exists|i: int|
            0 <= i < after.len() && after[i] == recorded_client(clients[j], sgr, shell, Seq::empty()),
    ensures
        forall|j: int| 0 <= j < clients.len() && !closed.contains(#[trigger] clients[j].client_id) ==> exists|i: int|
            0 <= i < after.len() && after[i].client_id == clients[j].client_id,
{
    assert forall|j: int| 0 <= j < clients.len() && !closed.contains(#[trigger] clients[j].client_id) implies exists|i: int|
        0 <= i < after.len() && after[i].client_id == clients[j].client_id by {
        let i = choose|i: int| 0 <= i < after.len() && after[i] == recorded_client(clients[j], sgr, shell, Seq::empty());
        lemma_recorded_client_settled(clients[j], sgr, shell);
    }
}

/// A round drops exactly the clients whose channel closed and records every
/// other one; once it has been recorded (every update framed), the next round
/// sends nothing until something changes, unless the closed clients took with
/// them the only pixel-mouse request and so changed the shell's SGR pixel mode.
pub proof fn lemma_round_drops_closed_and_settles(
    clients: Seq<MouseCaptureClient>,
    shell: ShellMouseState,
    closed: Seq<u64>,
)
    requires
        shell_sgr_pixels(
            recorded_clients(clients, shell_sgr_pixels(clients, shell), shell, closed, Seq::empty()),
            shell,
        ) == shell_sgr_pixels(clients, shell),
    ensures
        ({
            let after = recorded_clients(clients, shell_sgr_pixels(clients, shell), shell, closed, Seq::empty());
            &&& forall|i: int| 0 <= i < after.len() ==> !closed.contains(#[trigger] after[i].client_id)
            &&& forall|j: int| 0 <= j < clients.len() && !closed.contains(#[trigger] clients[j].client_id) ==> exists|i: int|
                0 <= i < after.len() && after[i].client_id == clients[j].client_id
            &&& updates_for(after, shell_sgr_pixels(after, shell), shell).len() == 0
        }),
{
    let sgr = shell_sgr_pixels(clients, shell);
    let after = recorded_clients(clients, sgr, shell, closed, Seq::empty());
    assert(forall|i: int| 0 <= i < after.len() ==> !closed.contains(after[i].client_id) && mouse_settled(
        #[trigger] after[i],
        sgr,
        shell,
    )) by {
        lemma_recorded_keeps_open_clients(clients, sgr, shell, closed);
        lemma_open_recorded_settled(after, clients, sgr, shell, closed);
    }
    assert(forall|j: int| 0 <= j < clients.len() && !closed.contains(#[trigger] clients[j].client_id) ==> exists|i: int|
        0 <= i < after.len() && after[i].client_id == clients[j].client_id) by {
        lemma_recorded_keeps_open_clients(clients, sgr, shell, closed);
        lemma_open_clients_kept(after, clients, sgr, shell, closed);
    }
    assert(updates_for(after, sgr, shell).len() == 0) by {
        lemma_settled_clients_get_no_update(after, sgr, shell);
    }
}

} // verus!
