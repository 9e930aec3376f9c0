//! Opening the rename and naming prompts on the focused workspace, tab or pane,
//! and the request a submitted prompt sends.
use vstd::prelude::*;

use crate::input::{ClientRenameOverlay, ClientRenameTarget};
use crate::snapshot::{opt_view, ClientShellPane, ClientShellSnapshot, ClientShellTab};
use crate::tab_drop::{count_tabs, tab_count};
use crate::text::{decimal, decimal_string, str_equal, trim, trim_spec};
use crate::workspace_move::{first_with_id, is_first_id};

verus! {

/// The request a submitted prompt sends to the endpoint.
#[derive(Debug)]
pub enum RenameRequest {
    /// Create a workspace (focused) in `cwd`, with `label` unless the name was
    /// left as suggested.
    WorkspaceCreate { cwd: Option<String>, label: Option<String> },
    WorkspaceRename { workspace_id: String, label: String },
    /// Create a tab (focused) in `workspace_id`, with `label` unless the name
    /// was left as the default.
    TabCreate { workspace_id: String, label: Option<String> },
    TabRename { tab_id: String, label: String },
    PaneRename { pane_id: String, label: String },
}

/// A request as plain values.
pub ghost enum RenameRequestView {
    WorkspaceCreate { cwd: Option<Seq<char>>, label: Option<Seq<char>> },
    WorkspaceRename { workspace_id: Seq<char>, label: Seq<char> },
    TabCreate { workspace_id: Seq<char>, label: Option<Seq<char>> },
    TabRename { tab_id: Seq<char>, label: Seq<char> },
    PaneRename { pane_id: Seq<char>, label: Seq<char> },
}

impl RenameRequest {
    pub open spec fn view(self) -> RenameRequestView {
        match self {
            RenameRequest::WorkspaceCreate { cwd, label } => RenameRequestView::WorkspaceCreate {
                cwd: opt_view(cwd),
                label: opt_view(label),
            },
            RenameRequest::WorkspaceRename { workspace_id, label } => RenameRequestView::WorkspaceRename {
                workspace_id: workspace_id@,
                label: label@,
            },
            RenameRequest::TabCreate { workspace_id, label } => RenameRequestView::TabCreate {
                workspace_id: workspace_id@,
                label: opt_view(label),
            },
            RenameRequest::TabRename { tab_id, label } => RenameRequestView::TabRename { tab_id: tab_id@, label: label@ },
            RenameRequest::PaneRename { pane_id, label } => RenameRequestView::PaneRename {
                pane_id: pane_id@,
                label: label@,
            },
        }
    }
}

/// The typed name, unless it is empty or the suggestion.
pub open spec fn chosen_label(t: Seq<char>, suggested: Seq<char>) -> Option<Seq<char>> {
    if t.len() != 0 && t != suggested {
        Some(t)
    } else {
        None
    }
}

/// The request a prompt for `target` sends with `input` typed: a create always
/// (named only when a name other than the suggestion was typed); a workspace
/// rename when the trimmed name is not empty; a tab rename when it is not empty
/// and, for a tab still named automatically, differs from its name; a pane
/// rename always.
pub open spec fn rename_request(target: ClientRenameTarget, input: Seq<char>) -> Option<RenameRequestView> {
    let t = trim_spec(input);
    match target {
        ClientRenameTarget::NewWorkspace { cwd, suggested_name } => Some(
            RenameRequestView::WorkspaceCreate { cwd: opt_view(cwd), label: chosen_label(t, suggested_name@) },
        ),
        ClientRenameTarget::Workspace { workspace_id } => if t.len() != 0 {
            Some(RenameRequestView::WorkspaceRename { workspace_id: workspace_id@, label: t })
        } else {
            None
        },
        ClientRenameTarget::NewTab { workspace_id, default_name } => Some(
            RenameRequestView::TabCreate { workspace_id: workspace_id@, label: chosen_label(t, default_name@) },
        ),
        ClientRenameTarget::Tab { tab_id, auto_name, original_name } => if t.len() == 0 || (auto_name
            && t == original_name@) {
            None
        } else {
            Some(RenameRequestView::TabRename { tab_id: tab_id@, label: t })
        },
        ClientRenameTarget::Pane { pane_id } => Some(RenameRequestView::PaneRename { pane_id: pane_id@, label: t }),
    }
}

/// The typed name as a label, unless it is empty or `suggested`.
fn label_unless(trimmed: &String, suggested: &String) -> (r: Option<String>)
    ensures
        opt_view(r) == chosen_label(trimmed@, suggested@),
{
    if trimmed.unicode_len() != 0 && !str_equal(trimmed.as_str(), suggested.as_str()) {
        Some(trimmed.clone())
    } else {
        None
    }
}

/// The request a submitted prompt sends, as `rename_request` says.
pub fn save_rename_overlay(rename: ClientRenameOverlay) -> (r: Option<RenameRequest>)
    ensures
        match r {
            Some(q) => rename_request(rename.target, rename.input@) == Some(q.view()),
            None => rename_request(rename.target, rename.input@) is None,
        },
{
    let trimmed = trim(rename.input.as_str());
    let empty = trimmed.unicode_len() == 0;
    match rename.target {
        ClientRenameTarget::NewWorkspace { cwd, suggested_name } => {
            let label = label_unless(&trimmed, &suggested_name);
            Some(RenameRequest::WorkspaceCreate { cwd, label })
        },
        ClientRenameTarget::Workspace { workspace_id } => if empty {
            None
        } else {
            Some(RenameRequest::WorkspaceRename { workspace_id, label: trimmed })
        },
        ClientRenameTarget::NewTab { workspace_id, default_name } => {
            let label = label_unless(&trimmed, &default_name);
            Some(RenameRequest::TabCreate { workspace_id, label })
        },
        ClientRenameTarget::Tab { tab_id, auto_name, original_name } => if empty || (auto_name && str_equal(
            trimmed.as_str(),
            original_name.as_str(),
        )) {
            None
        } else {
            Some(RenameRequest::TabRename { tab_id, label: trimmed })
        },
        ClientRenameTarget::Pane { pane_id } => Some(RenameRequest::PaneRename { pane_id, label: trimmed }),
    }
}

/// A submitted prompt never names anything with an empty name.
pub proof fn lemma_no_empty_names(target: ClientRenameTarget, input: Seq<char>)
    ensures
        match rename_request(target, input) {
            Some(RenameRequestView::WorkspaceRename { label, .. }) => label.len() > 0,
            Some(RenameRequestView::TabRename { label, .. }) => label.len() > 0,
            Some(RenameRequestView::WorkspaceCreate { label: Some(l), .. }) => l.len() > 0,
            Some(RenameRequestView::TabCreate { label: Some(l), .. }) => l.len() > 0,
            _ => true,
        },
{
}

/// What a prompt renames, as plain values.
pub ghost enum RenameTargetView {
    NewWorkspace { cwd: Option<Seq<char>>, suggested_name: Seq<char> },
    Workspace { workspace_id: Seq<char> },
    NewTab { workspace_id: Seq<char>, default_name: Seq<char> },
    Tab { tab_id: Seq<char>, auto_name: bool, original_name: Seq<char> },
    Pane { pane_id: Seq<char> },
}

/// A prompt as plain values: title, text, whether typing replaces it, target.
pub open spec fn prompt_view(o: ClientRenameOverlay) -> (Seq<char>, Seq<char>, bool, RenameTargetView) {
    (
        o.title@,
        o.input@,
        o.replace_on_type,
        match o.target {
            ClientRenameTarget::NewWorkspace { cwd, suggested_name } => RenameTargetView::NewWorkspace {
                cwd: opt_view(cwd),
                suggested_name: suggested_name@,
            },
            ClientRenameTarget::Workspace { workspace_id } => RenameTargetView::Workspace {
                workspace_id: workspace_id@,
            },
            ClientRenameTarget::NewTab { workspace_id, default_name } => RenameTargetView::NewTab {
                workspace_id: workspace_id@,
                default_name: default_name@,
            },
            ClientRenameTarget::Tab { tab_id, auto_name, original_name } => RenameTargetView::Tab {
                tab_id: tab_id@,
                auto_name,
                original_name: original_name@,
            },
            ClientRenameTarget::Pane { pane_id } => RenameTargetView::Pane { pane_id: pane_id@ },
        },
    )
}

/// Whether some workspace of `ws` has id `id`.
pub open spec fn has_workspace_id(ws: Seq<crate::snapshot::ClientShellWorkspace>, id: Seq<char>) -> bool {
    exists|i: int| #[trigger] is_first_id(ws, id, i)
}

/// The first workspace of `ws` with id `id`, when `has_workspace_id` holds.
pub open spec fn first_workspace_id(ws: Seq<crate::snapshot::ClientShellWorkspace>, id: Seq<char>) -> int {
    choose|i: int| #[trigger] is_first_id(ws, id, i)
}

/// The prompt for renaming the workspace that workspace actions act on (the
/// navigated one, else the focused one): it starts from the workspace's label.
pub open spec fn rename_workspace_prompt(snapshot: ClientShellSnapshot, navigate_workspace_id: Option<Seq<char>>) -> Option<(Seq<char>, Seq<char>, bool, RenameTargetView)> {
    let target = match navigate_workspace_id {
        Some(id) => Some(id),
        None => opt_view(snapshot.focused_workspace_id),
    };
    match target {
        None => None,
        Some(id) => if has_workspace_id(snapshot.workspaces@, id) {
            let i = first_workspace_id(snapshot.workspaces@, id);
            Some(("rename workspace"@, snapshot.workspaces@[i].label@, false, RenameTargetView::Workspace { workspace_id: id }))
        } else {
            None
        },
    }
}

/// Opens the prompt that renames the workspace workspace actions act on, as
/// `rename_workspace_prompt` says.
pub fn open_rename_workspace_overlay(snapshot: &ClientShellSnapshot, navigate_workspace_id: &Option<String>) -> (r:
    Option<ClientRenameOverlay>)
    ensures
        match r {
            Some(o) => rename_workspace_prompt(*snapshot, opt_view(*navigate_workspace_id)) == Some(prompt_view(o)),
            None => rename_workspace_prompt(*snapshot, opt_view(*navigate_workspace_id)) is None,
        },
{
    let workspace_id = match crate::navigator_ops::workspace_action_id(navigate_workspace_id, Some(snapshot)) {
        Some(id) => id,
        None => return None,
    };
    let ws = &snapshot.workspaces;
    let i = match first_with_id(ws, workspace_id.as_str()) {
        Some(i) => i,
        None => return None,
    };
    proof {
        let c = choose|k: int| #[trigger] is_first_id(ws@, workspace_id@, k);
        if c < i {
            assert(ws@[c].workspace_id@ != workspace_id@);
        }
        if i < c {
            assert(ws@[i as int].workspace_id@ != workspace_id@);
        }
    }
    Some(ClientRenameOverlay {
        title: "rename workspace",
        input: ws[i].label.clone(),
        replace_on_type: false,
        target: ClientRenameTarget::Workspace { workspace_id },
    })
}

/// The prompt for a new tab in the focused workspace: its default name is the
/// number the tab will have, and typing replaces it.
pub open spec fn new_tab_prompt(snapshot: ClientShellSnapshot) -> Option<(Seq<char>, Seq<char>, bool, RenameTargetView)> {
    match snapshot.focused_workspace_id {
        None => None,
        Some(w) => {
            let name = decimal(tab_count(snapshot.tabs@, w@) + 1);
            Some(("new tab"@, name, true, RenameTargetView::NewTab { workspace_id: w@, default_name: name }))
        },
    }
}

/// Opens the prompt for a new tab, as `new_tab_prompt` says.
pub fn open_new_tab_overlay(snapshot: &ClientShellSnapshot) -> (r: Option<ClientRenameOverlay>)
    requires
        snapshot.tabs@.len() < usize::MAX,
    ensures
        match r {
            Some(o) => new_tab_prompt(*snapshot) == Some(prompt_view(o)),
            None => new_tab_prompt(*snapshot) is None,
        },
{
    let workspace_id = match &snapshot.focused_workspace_id {
        Some(w) => w.clone(),
        None => return None,
    };
    let count = count_tabs(&snapshot.tabs, workspace_id.as_str());
    let default_name = decimal_string(count + 1);
    let input = default_name.clone();
    Some(ClientRenameOverlay {
        title: "new tab",
        input,
        replace_on_type: true,
        target: ClientRenameTarget::NewTab { workspace_id, default_name },
    })
}

/// Whether `i` is the first tab of `tabs` with id `id`.
pub open spec fn is_first_tab_id(tabs: Seq<ClientShellTab>, id: Seq<char>, i: int) -> bool {
    &&& 0 <= i < tabs.len()
    &&& tabs[i].tab_id@ == id
    &&& forall|j: int| 0 <= j < i ==> tabs[j].tab_id@ != id
}

/// Whether some tab of `tabs` has id `id`.
pub open spec fn has_tab_id(tabs: Seq<ClientShellTab>, id: Seq<char>) -> bool {
    exists|i: int| #[trigger] is_first_tab_id(tabs, id, i)
}

/// The first tab of `tabs` with id `id`, when `has_tab_id` holds.
pub open spec fn first_tab_id(tabs: Seq<ClientShellTab>, id: Seq<char>) -> int {
    choose|i: int| #[trigger] is_first_tab_id(tabs, id, i)
}

/// The prompt for renaming the focused tab: it starts from the tab's label, and
/// remembers whether the tab is still named automatically.
pub open spec fn rename_tab_prompt(snapshot: ClientShellSnapshot) -> Option<(Seq<char>, Seq<char>, bool, RenameTargetView)> {
    match snapshot.focused_tab_id {
        None => None,
        Some(id) => if has_tab_id(snapshot.tabs@, id@) {
            let t = snapshot.tabs@[first_tab_id(snapshot.tabs@, id@)];
            Some(
                (
                    "rename tab"@,
                    t.label@,
                    false,
                    RenameTargetView::Tab { tab_id: t.tab_id@, auto_name: !t.custom_label, original_name: t.label@ },
                ),
            )
        } else {
            None
        },
    }
}

/// Opens the prompt that renames the focused tab, as `rename_tab_prompt` says.
pub fn open_rename_tab_overlay(snapshot: &ClientShellSnapshot) -> (r: Option<ClientRenameOverlay>)
    ensures
        match r {
            Some(o) => rename_tab_prompt(*snapshot) == Some(prompt_view(o)),
            None => rename_tab_prompt(*snapshot) is None,
        },
{
    let id = match &snapshot.focused_tab_id {
        Some(id) => id,
        None => return None,
    };
    let tabs = &snapshot.tabs;
    let mut k: usize = 0;
    while k < tabs.len()
        invariant
            k <= tabs@.len(),
            tabs@ == snapshot.tabs@,
            snapshot.focused_tab_id == Some(*id),
            forall|j: int| 0 <= j < k ==> tabs@[j].tab_id@ != id@,
        decreases tabs@.len() - k,
    {
        if str_equal(tabs[k].tab_id.as_str(), id.as_str()) {
            proof {
                assert(is_first_tab_id(tabs@, id@, k as int));
                let c = choose|i: int| #[trigger] is_first_tab_id(tabs@, id@, i);
                if c < k {
                    assert(tabs@[c].tab_id@ != id@);
                }
                if k < c {
                    assert(tabs@[k as int].tab_id@ != id@);
                }
            }
            let tab = &tabs[k];
            let o = ClientRenameOverlay {
                title: "rename tab",
                input: tab.label.clone(),
                replace_on_type: false,
                target: ClientRenameTarget::Tab {
                    tab_id: tab.tab_id.clone(),
                    auto_name: !tab.custom_label,
                    original_name: tab.label.clone(),
                },
            };
            return Some(o);
        }
        k = k + 1;
    }
    proof {
        if exists|i: int| #[trigger] is_first_tab_id(tabs@, id@, i) {
            let c = choose|i: int| #[trigger] is_first_tab_id(tabs@, id@, i);
            assert(tabs@[c].tab_id@ != id@);
        }
    }
    None
}

/// Whether `i` is the first pane of `panes` with id `id`.
pub open spec fn is_first_pane_id(panes: Seq<ClientShellPane>, id: Seq<char>, i: int) -> bool {
    &&& 0 <= i < panes.len()
    &&& panes[i].pane_id@ == id
    &&& forall|j: int| 0 <= j < i ==> panes[j].pane_id@ != id
}

/// Whether some pane of `panes` has id `id`.
pub open spec fn has_pane_id(panes: Seq<ClientShellPane>, id: Seq<char>) -> bool {
    exists|i: int| #[trigger] is_first_pane_id(panes, id, i)
}

/// The first pane of `panes` with id `id`, when `has_pane_id` holds.
pub open spec fn first_pane_id(panes: Seq<ClientShellPane>, id: Seq<char>) -> int {
    choose|i: int| #[trigger] is_first_pane_id(panes, id, i)
}

/// The prompt for renaming the focused pane: it starts from the pane's label,
/// or empty when the pane has none (and then typing replaces nothing).
pub open spec fn rename_pane_prompt(snapshot: ClientShellSnapshot) -> Option<(Seq<char>, Seq<char>, bool, RenameTargetView)> {
    match snapshot.focused_pane_id {
        None => None,
        Some(id) => if has_pane_id(snapshot.panes@, id@) {
            let p = snapshot.panes@[first_pane_id(snapshot.panes@, id@)];
            Some(
                (
                    "rename pane"@,
                    match p.label {
                        Some(l) => l@,
                        None => Seq::empty(),
                    },
                    p.label is None,
                    RenameTargetView::Pane { pane_id: p.pane_id@ },
                ),
            )
        } else {
            None
        },
    }
}

/// Opens the prompt that renames the focused pane, as `rename_pane_prompt` says.
pub fn open_rename_pane_overlay(snapshot: &ClientShellSnapshot) -> (r: Option<ClientRenameOverlay>)
    ensures
        match r {
            Some(o) => rename_pane_prompt(*snapshot) == Some(prompt_view(o)),
            None => rename_pane_prompt(*snapshot) is None,
        },
{
    let id = match &snapshot.focused_pane_id {
        Some(id) => id,
        None => return None,
    };
    let panes = &snapshot.panes;
    let mut k: usize = 0;
    while k < panes.len()
        invariant
            k <= panes@.len(),
            panes@ == snapshot.panes@,
            snapshot.focused_pane_id == Some(*id),
            forall|j: int| 0 <= j < k ==> panes@[j].pane_id@ != id@,
        decreases panes@.len() - k,
    {
        if str_equal(panes[k].pane_id.as_str(), id.as_str()) {
            proof {
                assert(is_first_pane_id(panes@, id@, k as int));
                let c = choose|i: int| #[trigger] is_first_pane_id(panes@, id@, i);
                if c < k {
                    assert(panes@[c].pane_id@ != id@);
                }
                if k < c {
                    assert(panes@[k as int].pane_id@ != id@);
                }
            }
            let pane = &panes[k];
            let (input, replace_on_type) = match &pane.label {
                Some(l) => (l.clone(), false),
                None => (String::new(), true),
            };
            return Some(ClientRenameOverlay {
                title: "rename pane",
                input,
                replace_on_type,
                target: ClientRenameTarget::Pane { pane_id: pane.pane_id.clone() },
            });
        }
        k = k + 1;
    }
    proof {
        if exists|i: int| #[trigger] is_first_pane_id(panes@, id@, i) {
            let c = choose|i: int| #[trigger] is_first_pane_id(panes@, id@, i);
            assert(panes@[c].pane_id@ != id@);
        }
    }
    None
}

} // verus!
