//! Which connected clients a pane's output must be rendered for: the shell
//! clients draw the application surface, attached and observing clients draw
//! one terminal each.
use vstd::prelude::*;

use crate::text::{names_contain, names_view};

verus! {

/// What a connection to the server is used for.
#[derive(Clone, Debug)]
pub enum ClientConnectionMode {
    /// The full application shell.
    ClientShell,
    /// Attached to one terminal, with input.
    TerminalAttach { terminal_id: String },
    /// Watching one terminal, without input.
    TerminalObserve { terminal_id: String },
    /// Not yet told what it is for.
    TerminalPending,
}

/// What rendering needs to know of one connected client.
#[derive(Clone, Debug)]
pub struct RenderClient {
    pub mode: ClientConnectionMode,
    /// Whether the client still has a writer, so that frames can reach it.
    pub has_writer: bool,
}

/// Whether `c` draws the application surface.
pub open spec fn targets_app(c: RenderClient) -> bool {
    c.has_writer && c.mode is ClientShell
}

/// The terminal that `c` draws directly, if any.
pub open spec fn direct_target_of(c: RenderClient) -> Option<Seq<char>> {
    if !c.has_writer {
        None
    } else {
        match c.mode {
            ClientConnectionMode::TerminalAttach { terminal_id } => Some(terminal_id@),
            ClientConnectionMode::TerminalObserve { terminal_id } => Some(terminal_id@),
            _ => None,
        }
    }
}

/// Whether some client of `clients` draws the application surface.
pub open spec fn has_app_target(clients: Seq<RenderClient>) -> bool {
    exists|i: int| 0 <= i < clients.len() && #[trigger] targets_app(clients[i])
}

/// Whether some client of `clients` draws terminal `id` directly.
pub open spec fn is_direct_target(clients: Seq<RenderClient>, id: Seq<char>) -> bool {
    exists|i: int| 0 <= i < clients.len() && #[trigger] direct_target_of(clients[i]) == Some(id)
}

/// The render targets of the connected clients.
#[derive(Clone, Debug)]
pub struct PtyRenderTargets {
    /// Some client draws the application surface.
    pub has_app_target: bool,
    /// The terminals that clients draw directly, each once.
    pub direct_terminal_targets: Vec<String>,
}

impl PtyRenderTargets {
    /// Whether terminal `id` is drawn directly by some client.
    pub open spec fn targets(&self, id: Seq<char>) -> bool {
        names_view(self.direct_terminal_targets@).contains(id)
    }

    /// No terminal is listed twice.
    pub open spec fn wf(&self) -> bool {
        names_view(self.direct_terminal_targets@).no_duplicates()
    }

    /// The targets that `clients` give.
    pub open spec fn of_clients(&self, clients: Seq<RenderClient>) -> bool {
        &&& self.wf()
        &&& self.has_app_target == has_app_target(clients)
        &&& forall|id: Seq<char>| #[trigger] self.targets(id) <==> is_direct_target(clients, id)
    }
}

/// The render targets of the clients that still have a writer: whether one of
/// them is a shell client, and the terminals that attached or observing
/// clients show.
pub fn pty_render_targets(clients: &[RenderClient]) -> (r: PtyRenderTargets)
    ensures
        r.of_clients(clients@),
{
    let mut has_app: bool = false;
    let mut direct: Vec<String> = Vec::new();
    let mut i: usize = 0;
    while i < clients.len()
        invariant
            i <= clients@.len(),
            has_app == has_app_target(clients@.take(i as int)),
            names_view(direct@).no_duplicates(),
            forall|id: Seq<char>|
                #[trigger] names_view(direct@).contains(id) <==> is_direct_target(
                    clients@.take(i as int),
                    id,
                ),
        decreases clients@.len() - i,
    {
        let ghost before = clients@.take(i as int);
        let ghost after = clients@.take(i + 1);
        assert(after =~= before.push(clients@[i as int]));
        let ghost old_direct = names_view(direct@);
        let client = &clients[i];
        if client.has_writer {
            match &client.mode {
                ClientConnectionMode::ClientShell => {
                    has_app = true;
                },
                ClientConnectionMode::TerminalAttach { terminal_id }
                | ClientConnectionMode::TerminalObserve { terminal_id } => {
                    if !names_contain(direct.as_slice(), terminal_id.as_str()) {
                        direct.push(terminal_id.clone());
                        assert(names_view(direct@) =~= old_direct.push(terminal_id@));
                    }
                    assert forall|id: Seq<char>|
                        #[trigger] names_view(direct@).contains(id) <==> (old_direct.contains(id)
                            || id == terminal_id@) by {
                        if old_direct.contains(id) {
                            let k = choose|k: int| 0 <= k < old_direct.len() && old_direct[k] == id;
                            assert(names_view(direct@)[k] == id);
                        }
                        if id == terminal_id@ && !old_direct.contains(id) {
                            assert(names_view(direct@)[old_direct.len() as int] == id);
                        }
                    }
                },
                ClientConnectionMode::TerminalPending => {},
            }
        }
        assert(forall|id: Seq<char>|
            #[trigger] names_view(direct@).contains(id) <==> (old_direct.contains(id)
                || direct_target_of(clients@[i as int]) == Some(id)));
        proof {
            assert(targets_app(after[i as int]) == targets_app(clients@[i as int]));
            assert forall|j: int| 0 <= j < i implies after[j] == before[j] by {}
            if has_app_target(before) {
                let j = choose|j: int| 0 <= j < before.len() && #[trigger] targets_app(before[j]);
                assert(targets_app(after[j]));
            }
            if has_app_target(after) {
                let j = choose|j: int| 0 <= j < after.len() && #[trigger] targets_app(after[j]);
                if j < i {
                    assert(targets_app(before[j]));
                }
            }
            assert forall|id: Seq<char>|
                #[trigger] names_view(direct@).contains(id) <==> is_direct_target(after, id) by {
                if is_direct_target(before, id) {
                    let j = choose|j: int|
                        0 <= j < before.len() && #[trigger] direct_target_of(before[j]) == Some(id);
                    assert(direct_target_of(after[j]) == Some(id));
                }
                if is_direct_target(after, id) {
                    let j = choose|j: int|
                        0 <= j < after.len() && #[trigger] direct_target_of(after[j]) == Some(id);
                    if j < i {
                        assert(direct_target_of(before[j]) == Some(id));
                    }
                }
                if direct_target_of(clients@[i as int]) == Some(id) {
                    assert(direct_target_of(after[i as int]) == Some(id));
                }
            }
        }
        i = i + 1;
    }
    assert(clients@.take(clients@.len() as int) =~= clients@);
    PtyRenderTargets { has_app_target: has_app, direct_terminal_targets: direct }
}

/// What rendering needs to know of a pane whose terminal produced output.
#[derive(Clone, Debug)]
pub struct PtySource {
    /// The terminal the pane shows, if the pane is known.
    pub terminal_id: Option<String>,
    /// Whether the pane is drawn on the application surface (the focused tab of
    /// the active workspace, or the popup).
    pub on_app_surface: bool,
}

/// Whether some client of `clients` draws a terminal directly.
pub open spec fn has_direct_target(clients: Seq<RenderClient>) -> bool {
    exists|i: int| 0 <= i < clients.len() && #[trigger] direct_target_of(clients[i]) is Some
}

/// Whether output of `source` reaches a render target of `targets`: a shell
/// client sees it when the pane is on the application surface (or unknown), an
/// attached or observing client when it shows the pane's terminal (or the pane
/// is unknown).
pub open spec fn source_visible(targets: PtyRenderTargets, source: PtySource) -> bool {
    (targets.has_app_target && (source.terminal_id is None || source.on_app_surface))
        || match source.terminal_id {
        None => true,
        Some(t) => targets.targets(t@),
    }
}

/// Whether output of `source` reaches a client of `clients`, by the same rule.
pub open spec fn source_seen_by(clients: Seq<RenderClient>, source: PtySource) -> bool {
    (has_app_target(clients) && (source.terminal_id is None || source.on_app_surface))
        || match source.terminal_id {
        None => true,
        Some(t) => is_direct_target(clients, t@),
    }
}

/// Whether the output of `source` reaches one of `targets`.
pub fn pty_source_visible_to_render_targets(source: &PtySource, targets: &PtyRenderTargets) -> (r:
    bool)
    ensures
        r == source_visible(*targets, *source),
{
    match &source.terminal_id {
        None => true,
        Some(t) => {
            (targets.has_app_target && source.on_app_surface) || names_contain(
                targets.direct_terminal_targets.as_slice(),
                t.as_str(),
            )
        },
    }
}

/// Whether any of `sources` is seen by a client of `clients`: never when no
/// client has a writer and a render target.
pub open spec fn sources_visible(clients: Seq<RenderClient>, sources: Seq<PtySource>) -> bool {
    &&& (has_app_target(clients) || has_direct_target(clients))
    &&& exists|j: int|
        0 <= j < sources.len() && #[trigger] source_seen_by(clients, sources[j])
}

/// Whether the output of any of `sources` must be rendered for some client.
pub fn pty_sources_visible_to_any_render_target(
    clients: &[RenderClient],
    sources: &[PtySource],
) -> (r: bool)
    ensures
        r == sources_visible(clients@, sources@),
{
    let targets = pty_render_targets(clients);
    if !targets.has_app_target && targets.direct_terminal_targets.len() == 0 {
        proof {
            if has_direct_target(clients@) {
                let i = choose|i: int|
                    0 <= i < clients@.len() && #[trigger] direct_target_of(clients@[i]) is Some;
                let id = direct_target_of(clients@[i])->0;
                assert(is_direct_target(clients@, id));
                assert(targets.targets(id));
            }
        }
        return false;
    }
    proof {
        if targets.direct_terminal_targets.len() > 0 {
            let id = names_view(targets.direct_terminal_targets@)[0];
            assert(targets.targets(id));
            assert(is_direct_target(clients@, id));
            let i = choose|i: int|
                0 <= i < clients@.len() && #[trigger] direct_target_of(clients@[i]) == Some(id);
            assert(direct_target_of(clients@[i]) is Some);
        }
    }
    let mut j: usize = 0;
    while j < sources.len()
        invariant
            j <= sources@.len(),
            targets.of_clients(clients@),
            has_app_target(clients@) || has_direct_target(clients@),
            forall|k: int| 0 <= k < j ==> !#[trigger] source_seen_by(clients@, sources@[k]),
        decreases sources@.len() - j,
    {
        let seen = pty_source_visible_to_render_targets(&sources[j], &targets);
        proof {
            match sources@[j as int].terminal_id {
                Some(t) => {
                    assert(targets.targets(t@) == is_direct_target(clients@, t@));
                },
                None => {},
            }
        }
        if seen {
            assert(source_seen_by(clients@, sources@[j as int]));
            return true;
        }
        j = j + 1;
    }
    false
}

/// Whether a frame is owed: a full render, a graphics render, or output that
/// must be shown at once.
pub fn has_pending_presentation_work(
    needs_full_render: bool,
    needs_graphics_render: bool,
    has_immediate_work: bool,
) -> (r: bool)
    ensures
        r == (needs_full_render || needs_graphics_render || has_immediate_work),
{
    needs_full_render || needs_graphics_render || has_immediate_work
}

/// A pane and the terminal it shows.
#[derive(Clone, Debug)]
pub struct PaneTerminal {
    pub pane_id: u64,
    pub terminal_id: String,
}

/// Whether output of pane `p` must be shown at once: it is on the application
/// surface and a shell client draws that surface, or it shows a terminal that a
/// client draws directly (a pane of any tab, or the popup).
pub open spec fn immediate_source(
    clients: Seq<RenderClient>,
    app_surface_pane_ids: Seq<u64>,
    panes: Seq<PaneTerminal>,
    popup: Option<PaneTerminal>,
    p: u64,
) -> bool {
    ||| has_app_target(clients) && app_surface_pane_ids.contains(p)
    ||| exists|j: int|
        0 <= j < panes.len() && #[trigger] panes[j].pane_id == p && is_direct_target(
            clients,
            panes[j].terminal_id@,
        )
    ||| popup matches Some(pp) && pp.pane_id == p && is_direct_target(clients, pp.terminal_id@)
}

/// Adds `p` to the set held in `set`, unless it is there.
fn insert_pane(set: &mut Vec<u64>, p: u64)
    requires
        old(set)@.no_duplicates(),
    ensures
        final(set)@.no_duplicates(),
        forall|q: u64| #[trigger] final(set)@.contains(q) <==> (old(set)@.contains(q) || q == p),
{
    let mut k: usize = 0;
    while k < set.len()
        invariant
            k <= set@.len(),
            set@ == old(set)@,
            set@.no_duplicates(),
            forall|j: int| 0 <= j < k ==> set@[j] != p,
        decreases set@.len() - k,
    {
        if set[k] == p {
            assert(set@[k as int] == p);
            return;
        }
        k = k + 1;
    }
    let ghost before = set@;
    set.push(p);
    proof {
        assert forall|q: u64| #[trigger] set@.contains(q) <==> (before.contains(q) || q == p) by {
            if before.contains(q) {
                let j = choose|j: int| 0 <= j < before.len() && before[j] == q;
                assert(set@[j] == q);
            }
            if q == p {
                assert(set@[before.len() as int] == q);
            }
            if set@.contains(q) {
                let j = choose|j: int| 0 <= j < set@.len() && set@[j] == q;
                if j < before.len() {
                    assert(before[j] == q);
                }
            }
        }
    }
}

/// Replaces `immediate` with the panes whose output must be shown at once, for
/// the render targets of `clients`. `app_surface_pane_ids` are the panes on the
/// application surface, `panes` every pane of every tab with its terminal, and
/// `popup` the popup pane, if one is open.
pub fn sync_immediate_pty_sources(
    clients: &[RenderClient],
    app_surface_pane_ids: &[u64],
    panes: &[PaneTerminal],
    popup: &Option<PaneTerminal>,
    immediate: &mut Vec<u64>,
)
    ensures
        final(immediate)@.no_duplicates(),
        forall|p: u64| #[trigger]
            final(immediate)@.contains(p) <==> immediate_source(
                clients@,
                app_surface_pane_ids@,
                panes@,
                *popup,
                p,
            ),
{
    let targets = pty_render_targets(clients);
    let mut ids: Vec<u64> = Vec::new();
    if targets.has_app_target {
        let mut k: usize = 0;
        while k < app_surface_pane_ids.len()
            invariant
                k <= app_surface_pane_ids@.len(),
                ids@.no_duplicates(),
                forall|q: u64| #[trigger]
                    ids@.contains(q) <==> app_surface_pane_ids@.take(k as int).contains(q),
            decreases app_surface_pane_ids@.len() - k,
        {
            let ghost taken = app_surface_pane_ids@.take(k as int);
            insert_pane(&mut ids, app_surface_pane_ids[k]);
            proof {
                let next = app_surface_pane_ids@.take(k + 1);
                assert(next =~= taken.push(app_surface_pane_ids@[k as int]));
                assert forall|q: u64| #[trigger] ids@.contains(q) <==> next.contains(q) by {
                    if taken.contains(q) {
                        let j = choose|j: int| 0 <= j < taken.len() && taken[j] == q;
                        assert(next[j] == q);
                    }
                    if q == app_surface_pane_ids@[k as int] {
                        assert(next[k as int] == q);
                    }
                    if next.contains(q) {
                        let j = choose|j: int| 0 <= j < next.len() && next[j] == q;
                        if j < k {
                            assert(taken[j] == q);
                        }
                    }
                }
            }
            k = k + 1;
        }
        assert(app_surface_pane_ids@.take(app_surface_pane_ids@.len() as int)
            =~= app_surface_pane_ids@);
    }
    let ghost base = ids@;
    assert(forall|q: u64| #[trigger]
        base.contains(q) <==> (has_app_target(clients@) && app_surface_pane_ids@.contains(q)));
    if targets.direct_terminal_targets.len() > 0 {
        let mut k: usize = 0;
        while k < panes.len()
            invariant
                k <= panes@.len(),
                targets.of_clients(clients@),
                ids@.no_duplicates(),
                forall|q: u64| #[trigger]
                    ids@.contains(q) <==> (base.contains(q) || exists|j: int|
                        0 <= j < k && #[trigger] panes@[j].pane_id == q && is_direct_target(
                            clients@,
                            panes@[j].terminal_id@,
                        )),
            decreases panes@.len() - k,
        {
            let pane = &panes[k];
            if names_contain(targets.direct_terminal_targets.as_slice(), pane.terminal_id.as_str()) {
                insert_pane(&mut ids, pane.pane_id);
            }
            proof {
                assert(targets.targets(pane.terminal_id@) == is_direct_target(
                    clients@,
                    panes@[k as int].terminal_id@,
                ));
                assert forall|q: u64| #[trigger]
                    ids@.contains(q) <==> (base.contains(q) || exists|j: int|
                        0 <= j < k + 1 && #[trigger] panes@[j].pane_id == q && is_direct_target(
                            clients@,
                            panes@[j].terminal_id@,
                        )) by {
                    if q == panes@[k as int].pane_id && is_direct_target(
                        clients@,
                        panes@[k as int].terminal_id@,
                    ) {
                        assert(panes@[k as int].pane_id == q);
                    }
                }
            }
            k = k + 1;
        }
        match popup {
            Some(pp) => {
                if names_contain(
                    targets.direct_terminal_targets.as_slice(),
                    pp.terminal_id.as_str(),
                ) {
                    insert_pane(&mut ids, pp.pane_id);
                }
                assert(targets.targets(pp.terminal_id@) == is_direct_target(
                    clients@,
                    pp.terminal_id@,
                ));
            },
            None => {},
        }
    } else {
        proof {
            assert forall|q: u64| !(#[trigger] immediate_source(
                clients@,
                app_surface_pane_ids@,
                panes@,
                *popup,
                q,
            )) || base.contains(q) by {
                if exists|j: int|
                    0 <= j < panes@.len() && #[trigger] panes@[j].pane_id == q && is_direct_target(
                        clients@,
                        panes@[j].terminal_id@,
                    ) {
                    let j = choose|j: int|
                        0 <= j < panes@.len() && #[trigger] panes@[j].pane_id == q
                            && is_direct_target(clients@, panes@[j].terminal_id@);
                    assert(targets.targets(panes@[j].terminal_id@));
                }
                if let Some(pp) = *popup {
                    if pp.pane_id == q && is_direct_target(clients@, pp.terminal_id@) {
                        assert(targets.targets(pp.terminal_id@));
                    }
                }
            }
        }
    }
    *immediate = ids;
}

/// Output is rendered only for clients that can receive it: when no client has a
/// writer, no pane's output is seen and none must be shown at once.
pub proof fn lemma_no_writer_nothing_rendered(
    clients: Seq<RenderClient>,
    sources: Seq<PtySource>,
    app_surface_pane_ids: Seq<u64>,
    panes: Seq<PaneTerminal>,
    popup: Option<PaneTerminal>,
)
    requires
        forall|i: int| 0 <= i < clients.len() ==> !(#[trigger] clients[i]).has_writer,
    ensures
        !sources_visible(clients, sources),
        forall|p: u64| !#[trigger] immediate_source(clients, app_surface_pane_ids, panes, popup, p),
{
    assert(!has_app_target(clients));
    assert(!has_direct_target(clients));
    assert forall|id: Seq<char>| !#[trigger] is_direct_target(clients, id) by {}
}

} // verus!
