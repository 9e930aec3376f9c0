//! The overlays the client shell can show over its panes, and the worktree picker's
//! filtering.
use vstd::prelude::*;

use crate::input::ClientRenameOverlay;
use crate::status::AgentStatus;
use crate::text::{ascii_lower, contains_seq, contains_text, is_ascii_text, lowercased, to_lowercase, trim, trim_spec};

verus! {

/// The sections of the settings overlay.
#[derive(Clone, Copy, Debug, PartialEq, Eq, Structural)]
pub enum ClientSettingsSection {
    Theme,
    Indicators,
    Sound,
    Toast,
    Integrations,
}

/// The tab label of a settings section.
pub open spec fn spec_section_label(section: ClientSettingsSection) -> Seq<char> {
    match section {
        ClientSettingsSection::Theme => "theme"@,
        ClientSettingsSection::Indicators => "indicators"@,
        ClientSettingsSection::Sound => "sound"@,
        ClientSettingsSection::Toast => "toasts"@,
        ClientSettingsSection::Integrations => "integrations"@,
    }
}

impl ClientSettingsSection {
    /// The tab label of this section.
    pub fn label(self) -> (r: &'static str)
        ensures
            r@ == spec_section_label(self),
    {
        match self {
            ClientSettingsSection::Theme => "theme",
            ClientSettingsSection::Indicators => "indicators",
            ClientSettingsSection::Sound => "sound",
            ClientSettingsSection::Toast => "toasts",
            ClientSettingsSection::Integrations => "integrations",
        }
    }
}

/// Which kind of overlay is open.
#[derive(Clone, Copy, Debug, PartialEq, Eq, Structural)]
pub enum ClientShellOverlayKind {
    Rename,
    ConfirmClose,
    Help,
    Navigator,
    WorktreeCreate,
    WorktreeOpen,
    WorktreeRemove,
    ContextMenu,
    GlobalMenu,
    Settings,
}

/// A status filter of the navigator.
#[derive(Clone, Copy, Debug, PartialEq, Eq, Structural)]
pub enum ClientNavigatorFilter {
    Blocked,
    Working,
    Idle,
    Done,
}

/// The workspace / tab / pane navigator.
#[derive(Debug)]
pub struct ClientNavigatorOverlay {
    pub query: String,
    pub search_focused: bool,
    pub selected: usize,
    pub scroll: usize,
    pub filter: Option<ClientNavigatorFilter>,
    /// The workspaces whose tabs and panes are listed.
    pub expanded_workspaces: Vec<String>,
}

/// The keybinding help.
#[derive(Debug)]
pub struct ClientHelpOverlay {
    pub query: String,
    pub search_focused: bool,
    pub scroll: usize,
}

/// The launcher menu.
#[derive(Debug)]
pub struct ClientGlobalMenuOverlay {
    pub highlighted: usize,
}

/// The settings overlay.
#[derive(Debug)]
pub struct ClientSettingsOverlay {
    pub section: ClientSettingsSection,
    pub selected: usize,
    pub original_theme_name: String,
    pub integration_messages: Vec<String>,
    pub loading_integrations: bool,
    pub installing_integrations: bool,
}

/// The prompt that creates a linked worktree.
#[derive(Debug)]
pub struct ClientWorktreeCreateOverlay {
    pub source_workspace_id: String,
    pub repo_name: String,
    pub branch: String,
    pub checkout_path: String,
    pub replace_on_type: bool,
    pub error: Option<String>,
    pub creating: bool,
}

/// One worktree the worktree picker offers.
#[derive(Debug, Clone)]
pub struct ClientWorktreeOpenEntry {
    pub path: String,
    pub branch: Option<String>,
    pub is_linked_worktree: bool,
    pub is_detached: bool,
    /// The workspace that already shows this worktree, if any.
    pub open_workspace_id: Option<String>,
    pub label: String,
}

/// The status word of a worktree entry: "open" when a workspace shows it, nothing
/// for a branch checkout, "detached" for a detached linked worktree, "root"
/// otherwise.
pub open spec fn spec_status_label(entry: ClientWorktreeOpenEntry) -> Seq<char> {
    if entry.open_workspace_id is Some {
        "open"@
    } else if entry.branch is Some {
        ""@
    } else if entry.is_detached && entry.is_linked_worktree {
        "detached"@
    } else {
        "root"@
    }
}

/// The text a worktree entry is searched in: its label, branch, path and status
/// word, separated by spaces.
pub open spec fn entry_search_text(entry: ClientWorktreeOpenEntry) -> Seq<char> {
    entry.label@ + " "@ + match entry.branch {
        Some(b) => b@,
        None => ""@,
    } + " "@ + entry.path@ + " "@ + spec_status_label(entry)
}

/// Whether `entry` matches the picker query `query`: the trimmed, lowercased query
/// is empty, or occurs in the lowercased search text.
pub open spec fn spec_matches_query(entry: ClientWorktreeOpenEntry, query: Seq<char>) -> bool {
    let q = lowercased(trim_spec(query));
    q.len() == 0 || contains_seq(lowercased(entry_search_text(entry)), q)
}

impl ClientWorktreeOpenEntry {
    /// The status word of this entry.
    pub fn status_label(&self) -> (r: &'static str)
        ensures
            r@ == spec_status_label(*self),
    {
        if self.open_workspace_id.is_some() {
            "open"
        } else if self.branch.is_some() {
            ""
        } else if self.is_detached && self.is_linked_worktree {
            "detached"
        } else {
            "root"
        }
    }

    /// Whether this entry matches the picker query.
    pub fn matches_query(&self, query: &str) -> (r: bool)
        ensures
            r == spec_matches_query(*self, query@),
    {
        let trimmed = trim(query);
        let query = to_lowercase(trimmed.as_str());
        if query.as_str().unicode_len() == 0 {
            return true;
        }
        let mut text = self.label.clone();
        text.append(" ");
        match &self.branch {
            Some(branch) => text.append(branch.as_str()),
            None => text.append(""),
        }
        text.append(" ");
        text.append(self.path.as_str());
        text.append(" ");
        text.append(self.status_label());
        assert(text@ == entry_search_text(*self));
        let lowered = to_lowercase(text.as_str());
        contains_text(lowered.as_str(), query.as_str())
    }
}

/// `s` lowercased character by character, ASCII capitals to small letters.
pub open spec fn ascii_lowered(s: Seq<char>) -> Seq<char> {
    s.map_values(|c: char| ascii_lower(c))
}

proof fn lemma_ascii_lowered_parts(a: Seq<char>, b: Seq<char>)
    ensures
        ascii_lowered(a + b) == ascii_lowered(a) + ascii_lowered(b),
        is_ascii_text(a) && is_ascii_text(b) ==> is_ascii_text(a + b),
        is_ascii_text(a) ==> is_ascii_text(ascii_lowered(a)),
        ascii_lowered(ascii_lowered(a)) == ascii_lowered(a),
{
    assert(ascii_lowered(a + b) =~= ascii_lowered(a) + ascii_lowered(b));
    if is_ascii_text(a) && is_ascii_text(b) {
        assert forall|i: int| 0 <= i < (a + b).len() implies (#[trigger] (a + b)[i] as u32) < 128 by {
            if i < a.len() {
                assert((a + b)[i] == a[i]);
            } else {
                assert((a + b)[i] == b[i - a.len()]);
            }
        }
    }
    if is_ascii_text(a) {
        assert forall|i: int| 0 <= i < ascii_lowered(a).len() implies (#[trigger] ascii_lowered(a)[i] as u32) < 128 by {
            assert(ascii_lowered(a)[i] == ascii_lower(a[i]));
            assert((a[i] as u32) < 128);
        }
    }
    assert(ascii_lowered(ascii_lowered(a)) =~= ascii_lowered(a));
}

/// An ASCII word is its own lowercase.
proof fn lemma_lowercase_word(s: Seq<char>)
    requires
        forall|i: int| 0 <= i < s.len() ==> ('a' <= #[trigger] s[i] <= 'z') || s[i] == ' ',
    ensures
        is_ascii_text(s),
        ascii_lowered(s) == s,
{
    assert forall|i: int| 0 <= i < s.len() implies (#[trigger] s[i] as u32) < 128 by {}
    assert(ascii_lowered(s) =~= s);
}

/// Matching a worktree entry ignores case: for an entry whose label, branch and
/// path are ASCII, the entry with its label, branch and path in small letters
/// matches exactly the queries the entry matches.
pub proof fn lemma_worktree_matching_ignores_case(
    entry: ClientWorktreeOpenEntry,
    lower: ClientWorktreeOpenEntry,
    query: Seq<char>,
)
    requires
        is_ascii_text(entry.label@),
        is_ascii_text(entry.path@),
        entry.branch matches Some(b) ==> is_ascii_text(b@),
        lower.label@ == ascii_lowered(entry.label@),
        lower.path@ == ascii_lowered(entry.path@),
        match (entry.branch, lower.branch) {
            (Some(b), Some(c)) => c@ == ascii_lowered(b@),
            (None, None) => true,
            _ => false,
        },
        lower.open_workspace_id is Some == entry.open_workspace_id is Some,
        lower.is_detached == entry.is_detached,
        lower.is_linked_worktree == entry.is_linked_worktree,
    ensures
        spec_matches_query(entry, query) == spec_matches_query(lower, query),
{
    reveal_strlit(" ");
    reveal_strlit("open");
    reveal_strlit("");
    reveal_strlit("detached");
    reveal_strlit("root");
    let sp = " "@;
    let st = spec_status_label(entry);
    assert(spec_status_label(lower) == st);
    lemma_lowercase_word(sp);
    lemma_lowercase_word(st);
    let be = match entry.branch {
        Some(b) => b@,
        None => ""@,
    };
    let bl = match lower.branch {
        Some(b) => b@,
        None => ""@,
    };
    lemma_lowercase_word(""@);
    assert(is_ascii_text(be));
    assert(bl == ascii_lowered(be));
    let te = entry.label@ + sp + be + sp + entry.path@ + sp + st;
    let tl = lower.label@ + sp + bl + sp + lower.path@ + sp + st;
    assert(entry_search_text(entry) == te);
    assert(entry_search_text(lower) == tl);
    lemma_ascii_lowered_parts(entry.label@, sp);
    lemma_ascii_lowered_parts(entry.label@ + sp, be);
    lemma_ascii_lowered_parts(entry.label@ + sp + be, sp);
    lemma_ascii_lowered_parts(entry.label@ + sp + be + sp, entry.path@);
    lemma_ascii_lowered_parts(entry.label@ + sp + be + sp + entry.path@, sp);
    lemma_ascii_lowered_parts(entry.label@ + sp + be + sp + entry.path@ + sp, st);
    lemma_ascii_lowered_parts(entry.label@, entry.label@);
    lemma_ascii_lowered_parts(be, be);
    lemma_ascii_lowered_parts(entry.path@, entry.path@);
    lemma_ascii_lowered_parts(lower.label@, sp);
    lemma_ascii_lowered_parts(lower.label@ + sp, bl);
    lemma_ascii_lowered_parts(lower.label@ + sp + bl, sp);
    lemma_ascii_lowered_parts(lower.label@ + sp + bl + sp, lower.path@);
    lemma_ascii_lowered_parts(lower.label@ + sp + bl + sp + lower.path@, sp);
    lemma_ascii_lowered_parts(lower.label@ + sp + bl + sp + lower.path@ + sp, st);
    assert(is_ascii_text(te));
    assert(is_ascii_text(tl));
    assert(ascii_lowered(tl) == ascii_lowered(te));
    reveal(lowercased);
    assert(lowercased(te) == ascii_lowered(te));
    assert(lowercased(tl) == ascii_lowered(tl));
}

/// An empty query matches every worktree entry.
pub proof fn lemma_empty_query_matches_every_entry(entry: ClientWorktreeOpenEntry, query: Seq<char>)
    requires
        query.len() == 0,
    ensures
        spec_matches_query(entry, query),
{
    reveal(lowercased);
    assert(crate::text::trim_start_spec(query) == query);
    assert(trim_spec(query) == query);
    assert(is_ascii_text(query));
    assert(lowercased(query).len() == 0);
}

/// The worktree picker.
#[derive(Debug)]
pub struct ClientWorktreeOpenOverlay {
    pub source_workspace_id: String,
    pub entries: Vec<ClientWorktreeOpenEntry>,
    pub selected: usize,
    pub query: String,
    pub search_focused: bool,
    pub error: Option<String>,
    pub opening: bool,
}

/// The positions of the entries of `entries` that match `query`, in order.
pub open spec fn matching_positions(entries: Seq<ClientWorktreeOpenEntry>, query: Seq<char>) -> Seq<usize>
    decreases entries.len(),
{
    if entries.len() == 0 {
        Seq::empty()
    } else {
        let rest = matching_positions(entries.drop_last(), query);
        if spec_matches_query(entries.last(), query) {
            rest.push((entries.len() - 1) as usize)
        } else {
            rest
        }
    }
}

/// The entry the picker acts on: the selected entry when it matches the query,
/// else the first matching entry, else none.
pub open spec fn spec_selected_entry(overlay: ClientWorktreeOpenOverlay) -> Option<usize> {
    let filtered = matching_positions(overlay.entries@, overlay.query@);
    if filtered.contains(overlay.selected) {
        Some(overlay.selected)
    } else if filtered.len() > 0 {
        Some(filtered[0])
    } else {
        None
    }
}

impl ClientWorktreeOpenOverlay {
    /// The positions of the entries that match the query, in order.
    pub fn filtered_indices(&self) -> (r: Vec<usize>)
        ensures
            r@ == matching_positions(self.entries@, self.query@),
    {
        let mut out: Vec<usize> = Vec::new();
        let mut i: usize = 0;
        while i < self.entries.len()
            invariant
                i <= self.entries@.len(),
                out@ == matching_positions(self.entries@.subrange(0, i as int), self.query@),
            decreases self.entries@.len() - i,
        {
            proof {
                let next = self.entries@.subrange(0, i + 1);
                assert(next.drop_last() =~= self.entries@.subrange(0, i as int));
                assert(next.last() == self.entries@[i as int]);
            }
            if self.entries[i].matches_query(self.query.as_str()) {
                out.push(i);
            }
            i = i + 1;
        }
        assert(self.entries@.subrange(0, self.entries@.len() as int) =~= self.entries@);
        out
    }

    /// The entry the picker acts on.
    pub fn selected_entry_index(&self) -> (r: Option<usize>)
        ensures
            r == spec_selected_entry(*self),
    {
        let filtered = self.filtered_indices();
        let mut i: usize = 0;
        while i < filtered.len()
            invariant
                i <= filtered@.len(),
                filtered@ == matching_positions(self.entries@, self.query@),
                forall|k: int| 0 <= k < i ==> filtered@[k] != self.selected,
            decreases filtered@.len() - i,
        {
            if filtered[i] == self.selected {
                assert(filtered@[i as int] == self.selected);
                assert(filtered@.contains(self.selected));
                return Some(self.selected);
            }
            i = i + 1;
        }
        assert(!filtered@.contains(self.selected));
        if filtered.len() > 0 {
            Some(filtered[0])
        } else {
            None
        }
    }
}

/// The prompt that removes a linked worktree.
#[derive(Debug)]
pub struct ClientWorktreeRemoveOverlay {
    pub workspace_id: String,
    pub path: String,
    pub error: Option<String>,
    pub removing: bool,
    pub force_confirmation: bool,
}

/// What a context menu was opened on.
#[derive(Debug)]
pub enum ClientContextMenuTarget {
    Workspace {
        workspace_id: String,
        is_git: bool,
        is_linked_worktree: bool,
        has_worktree_children: bool,
        collapsed: bool,
    },
    Tab { tab_id: String, workspace_id: String },
    Pane {
        pane_id: String,
        workspace_id: String,
        source_pane_id: Option<String>,
        has_manual_label: bool,
        right_click_passthrough: bool,
    },
}

/// A context menu at a screen cell.
#[derive(Debug)]
pub struct ClientContextMenuOverlay {
    pub target: ClientContextMenuTarget,
    pub x: u16,
    pub y: u16,
    pub highlighted: usize,
}

/// The confirmation before closing a workspace.
#[derive(Debug)]
pub struct ClientConfirmCloseOverlay {
    pub workspace_id: String,
    pub title: String,
    pub detail: String,
}

/// An overlay of the client shell.
#[derive(Debug)]
pub enum ClientShellOverlay {
    Rename(ClientRenameOverlay),
    ConfirmClose(ClientConfirmCloseOverlay),
    Help(ClientHelpOverlay),
    Navigator(ClientNavigatorOverlay),
    WorktreeCreate(ClientWorktreeCreateOverlay),
    WorktreeOpen(ClientWorktreeOpenOverlay),
    WorktreeRemove(ClientWorktreeRemoveOverlay),
    ContextMenu(ClientContextMenuOverlay),
    GlobalMenu(ClientGlobalMenuOverlay),
    Settings(ClientSettingsOverlay),
}

/// The kind of the overlay `o`.
pub open spec fn spec_overlay_kind(o: ClientShellOverlay) -> ClientShellOverlayKind {
    match o {
        ClientShellOverlay::Rename(_) => ClientShellOverlayKind::Rename,
        ClientShellOverlay::ConfirmClose(_) => ClientShellOverlayKind::ConfirmClose,
        ClientShellOverlay::Help(_) => ClientShellOverlayKind::Help,
        ClientShellOverlay::Navigator(_) => ClientShellOverlayKind::Navigator,
        ClientShellOverlay::WorktreeCreate(_) => ClientShellOverlayKind::WorktreeCreate,
        ClientShellOverlay::WorktreeOpen(_) => ClientShellOverlayKind::WorktreeOpen,
        ClientShellOverlay::WorktreeRemove(_) => ClientShellOverlayKind::WorktreeRemove,
        ClientShellOverlay::ContextMenu(_) => ClientShellOverlayKind::ContextMenu,
        ClientShellOverlay::GlobalMenu(_) => ClientShellOverlayKind::GlobalMenu,
        ClientShellOverlay::Settings(_) => ClientShellOverlayKind::Settings,
    }
}

impl ClientShellOverlay {
    /// Which kind of overlay this is.
    pub fn kind(&self) -> (r: ClientShellOverlayKind)
        ensures
            r == spec_overlay_kind(*self),
    {
        match self {
            ClientShellOverlay::Rename(_) => ClientShellOverlayKind::Rename,
            ClientShellOverlay::ConfirmClose(_) => ClientShellOverlayKind::ConfirmClose,
            ClientShellOverlay::Help(_) => ClientShellOverlayKind::Help,
            ClientShellOverlay::Navigator(_) => ClientShellOverlayKind::Navigator,
            ClientShellOverlay::WorktreeCreate(_) => ClientShellOverlayKind::WorktreeCreate,
            ClientShellOverlay::WorktreeOpen(_) => ClientShellOverlayKind::WorktreeOpen,
            ClientShellOverlay::WorktreeRemove(_) => ClientShellOverlayKind::WorktreeRemove,
            ClientShellOverlay::ContextMenu(_) => ClientShellOverlayKind::ContextMenu,
            ClientShellOverlay::GlobalMenu(_) => ClientShellOverlayKind::GlobalMenu,
            ClientShellOverlay::Settings(_) => ClientShellOverlayKind::Settings,
        }
    }

    /// Whether the screen behind the overlay is dimmed: it is, except behind the
    /// navigator and a context menu.
    pub fn dims_background(&self) -> (r: bool)
        ensures
            r == !(spec_overlay_kind(*self) == ClientShellOverlayKind::Navigator || spec_overlay_kind(*self)
                == ClientShellOverlayKind::ContextMenu),
    {
        match self {
            ClientShellOverlay::Navigator(_) | ClientShellOverlay::ContextMenu(_) => false,
            _ => true,
        }
    }
}

} // verus!
