//! The endpoint's command surface toward the client shell: which API methods the
//! shell's request lane carries, and the opaque ids under which the endpoint
//! offers its custom commands.
use vstd::prelude::*;

use crate::text::{concat, decimal, decimal_string, decimal_text, lemma_decimal_injective, lemma_decimal_is_digits, str_equal};

verus! {

/// The methods of the endpoint API.
#[derive(Clone, Copy, Debug, PartialEq, Eq, Structural)]
pub enum Method {
    CommandInvoke,
    IntegrationInstall,
    IntegrationList,
    LayoutSetSplitRatio,
    PaneClose,
    PaneCopyMotion,
    PaneCopySearch,
    PaneEditScrollback,
    PaneFocus,
    PaneFocusDirection,
    PaneInputSet,
    PaneLinkActivate,
    PaneRename,
    PaneResize,
    PaneScroll,
    PaneSelectionRead,
    PaneSplit,
    PaneSwap,
    PaneZoom,
    Ping,
    ProductAnnouncementDismiss,
    ReleaseNotesDismiss,
    ServerReloadConfig,
    ServerStop,
    TabClose,
    TabCreate,
    TabFocus,
    TabMove,
    TabRename,
    WorkspaceClose,
    WorkspaceCreate,
    WorkspaceFocus,
    WorkspaceMove,
    WorkspaceMoveBlock,
    WorkspaceRename,
    WorktreeCreate,
    WorktreeList,
    WorktreeOpen,
    WorktreeRemove,
}

/// Whether the client shell's request lane carries `method`: every method but the
/// API's front door (`Ping`) and the server's lifecycle (`ServerStop`).
pub open spec fn spec_supports_client_shell_method(method: Method) -> bool {
    !(method is Ping || method is ServerStop)
}

/// Whether the client shell's request lane carries `method`.
pub fn supports_client_shell_method(method: &Method) -> (r: bool)
    ensures
        r == spec_supports_client_shell_method(*method),
{
    match method {
        Method::CommandInvoke | Method::IntegrationInstall | Method::IntegrationList
        | Method::LayoutSetSplitRatio | Method::PaneClose | Method::PaneCopyMotion
        | Method::PaneCopySearch | Method::PaneEditScrollback | Method::PaneFocus
        | Method::PaneFocusDirection | Method::PaneInputSet | Method::PaneLinkActivate
        | Method::PaneRename | Method::PaneResize | Method::PaneScroll | Method::PaneSelectionRead
        | Method::PaneSplit | Method::PaneSwap | Method::PaneZoom
        | Method::ProductAnnouncementDismiss | Method::ReleaseNotesDismiss
        | Method::ServerReloadConfig | Method::TabClose | Method::TabCreate | Method::TabFocus
        | Method::TabMove | Method::TabRename | Method::WorkspaceClose | Method::WorkspaceCreate
        | Method::WorkspaceFocus | Method::WorkspaceMove | Method::WorkspaceMoveBlock
        | Method::WorkspaceRename | Method::WorktreeCreate | Method::WorktreeList
        | Method::WorktreeOpen | Method::WorktreeRemove => true,
        Method::Ping | Method::ServerStop => false,
    }
}

/// Where a custom command runs.
#[derive(Clone, Copy, Debug, PartialEq, Eq, Structural)]
pub enum CustomCommandAction {
    /// In a shell of the endpoint.
    Shell,
    /// In a popup terminal on the client.
    Popup,
}

/// The custom-command actions the client shell can trigger.
#[derive(Clone, Copy, Debug, PartialEq, Eq, Structural)]
pub enum ClientShellCommandAction {
    Shell,
}

/// The client-shell action of `action`: popup commands have none, as the client
/// does not own their surface.
pub open spec fn spec_client_shell_action(action: CustomCommandAction) -> Option<ClientShellCommandAction> {
    match action {
        CustomCommandAction::Shell => Some(ClientShellCommandAction::Shell),
        CustomCommandAction::Popup => None,
    }
}

/// The client-shell action of `action`, if the client shell can trigger it.
pub fn client_shell_action(action: CustomCommandAction) -> (r: Option<ClientShellCommandAction>)
    ensures
        r == spec_client_shell_action(action),
{
    match action {
        CustomCommandAction::Shell => Some(ClientShellCommandAction::Shell),
        CustomCommandAction::Popup => None,
    }
}

/// A custom command bound to keys in the configuration.
#[derive(Debug)]
pub struct CustomCommandKeybind {
    /// How the key binding is shown.
    pub label: String,
    /// The command line; it never leaves the endpoint.
    pub command: String,
    pub action: CustomCommandAction,
    pub description: Option<String>,
}

/// The abstract custom command.
pub ghost struct KeybindView {
    pub label: Seq<char>,
    pub command: Seq<char>,
    pub action: CustomCommandAction,
    pub description: Option<Seq<char>>,
}

impl View for CustomCommandKeybind {
    type V = KeybindView;

    open spec fn view(&self) -> KeybindView {
        KeybindView {
            label: self.label@,
            command: self.command@,
            action: self.action,
            description: match self.description {
                Some(d) => Some(d@),
                None => None,
            },
        }
    }
}

impl CustomCommandKeybind {
    /// A copy of the binding.
    pub fn duplicate(&self) -> (r: Self)
        ensures
            r@ == self@,
    {
        CustomCommandKeybind {
            label: self.label.clone(),
            command: self.command.clone(),
            action: self.action,
            description: match &self.description {
                Some(d) => Some(d.clone()),
                None => None,
            },
        }
    }
}

/// One entry of the manifest the client shell receives: an opaque id and the key
/// binding's label, never the command text.
#[derive(Debug)]
pub struct ClientShellCommand {
    pub command_id: String,
    pub binding_label: String,
    pub action: ClientShellCommandAction,
}

/// A command the endpoint offers, under its opaque id.
#[derive(Debug)]
struct EndpointCommand {
    id: String,
    binding: CustomCommandKeybind,
    action: ClientShellCommandAction,
}

/// The abstract offered command.
pub ghost struct CommandEntryView {
    pub id: Seq<char>,
    pub binding: KeybindView,
    pub action: ClientShellCommandAction,
}

/// The custom commands the endpoint offers the client shell, each under an id
/// unique to this registry.
#[derive(Debug)]
pub struct EndpointCommandRegistry {
    entries: Vec<EndpointCommand>,
}

/// The id of the `index`-th offered command of registry namespace `namespace`.
pub open spec fn command_id(namespace: Seq<char>, index: nat) -> Seq<char> {
    "cmd_"@ + namespace + "_"@ + decimal(index)
}

/// The bindings among `bs` that the client shell can trigger, in order.
pub open spec fn offered(bs: Seq<KeybindView>) -> Seq<KeybindView>
    decreases bs.len(),
{
    if bs.len() == 0 {
        Seq::empty()
    } else if spec_client_shell_action(bs.last().action) is Some {
        offered(bs.drop_last()).push(bs.last())
    } else {
        offered(bs.drop_last())
    }
}

/// The entries a registry of namespace `namespace` holds for the bindings `bs`.
pub open spec fn registry_entries(namespace: Seq<char>, bs: Seq<KeybindView>) -> Seq<CommandEntryView> {
    Seq::new(
        offered(bs).len(),
        |k: int|
            CommandEntryView {
                id: command_id(namespace, k as nat),
                binding: offered(bs)[k],
                action: spec_client_shell_action(offered(bs)[k].action).unwrap(),
            },
    )
}

/// The first binding offered under `id`.
pub open spec fn resolve_entry(entries: Seq<CommandEntryView>, id: Seq<char>) -> Option<KeybindView>
    decreases entries.len(),
{
    if entries.len() == 0 {
        None
    } else if entries[0].id == id {
        Some(entries[0].binding)
    } else {
        resolve_entry(entries.drop_first(), id)
    }
}

/// The manifest entry of an offered command.
pub ghost struct ManifestView {
    pub command_id: Seq<char>,
    pub binding_label: Seq<char>,
    pub action: ClientShellCommandAction,
}

pub open spec fn manifest_view(m: Seq<ClientShellCommand>) -> Seq<ManifestView> {
    m.map_values(
        |c: ClientShellCommand|
            ManifestView { command_id: c.command_id@, binding_label: c.binding_label@, action: c.action },
    )
}

pub open spec fn bindings_view(bs: Seq<CustomCommandKeybind>) -> Seq<KeybindView> {
    bs.map_values(|b: CustomCommandKeybind| b@)
}

impl View for EndpointCommandRegistry {
    type V = Seq<CommandEntryView>;

    closed spec fn view(&self) -> Seq<CommandEntryView> {
        self.entries@.map_values(|e: EndpointCommand| CommandEntryView { id: e.id@, binding: e.binding@, action: e.action })
    }
}

proof fn lemma_offered_take(bs: Seq<KeybindView>, i: int)
    requires
        0 <= i < bs.len(),
    ensures
        offered(bs.take(i + 1)) == (if spec_client_shell_action(bs[i].action) is Some {
            offered(bs.take(i)).push(bs[i])
        } else {
            offered(bs.take(i))
        }),
{
    assert(bs.take(i + 1).drop_last() =~= bs.take(i));
}

proof fn lemma_offered_len(bs: Seq<KeybindView>)
    ensures
        offered(bs).len() <= bs.len(),
    decreases bs.len(),
{
    if bs.len() > 0 {
        lemma_offered_len(bs.drop_last());
    }
}

proof fn lemma_offered_actions(bs: Seq<KeybindView>)
    ensures
        forall|k: int| 0 <= k < offered(bs).len() ==> spec_client_shell_action(#[trigger] offered(bs)[k].action) is Some,
    decreases bs.len(),
{
    if bs.len() > 0 {
        lemma_offered_actions(bs.drop_last());
    }
}

impl EndpointCommandRegistry {
    /// The registry of the bindings `bindings` that the client shell can trigger,
    /// in order, the `k`-th of them under the id `cmd_{namespace}_{k}`.
    pub fn new(namespace: &str, bindings: &[CustomCommandKeybind]) -> (r: Self)
        ensures
            r@ == registry_entries(namespace@, bindings_view(bindings@)),
    {
        let ghost bv = bindings_view(bindings@);
        let prefix = concat(concat("cmd_", namespace).as_str(), "_");
        let mut entries: Vec<EndpointCommand> = Vec::new();
        let mut i: usize = 0;
        while i < bindings.len()
            invariant
                i <= bindings@.len(),
                bv == bindings_view(bindings@),
                prefix@ == "cmd_"@ + namespace@ + "_"@,
                entries@.len() == offered(bv.take(i as int)).len(),
                entries@.len() <= i,
                forall|k: int|
                    0 <= k < entries@.len() ==> {
                        let e = #[trigger] entries@[k];
                        &&& e.id@ == command_id(namespace@, k as nat)
                        &&& e.binding@ == offered(bv.take(i as int))[k]
                        &&& Some(e.action) == spec_client_shell_action(e.binding.action)
                    },
            decreases bindings@.len() - i,
        {
            proof {
                lemma_offered_take(bv, i as int);
                assert(bv[i as int] == bindings@[i as int]@);
            }
            let b = &bindings[i];
            match client_shell_action(b.action) {
                Some(action) => {
                    let index = entries.len();
                    let id = concat(prefix.as_str(), decimal_string(index).as_str());
                    entries.push(EndpointCommand { id, binding: b.duplicate(), action });
                },
                None => {},
            }
            i = i + 1;
        }
        proof {
            assert(bv.take(bindings@.len() as int) =~= bv);
            lemma_offered_actions(bv);
        }
        let r = EndpointCommandRegistry { entries };
        assert(r@ =~= registry_entries(namespace@, bv));
        r
    }

    /// The manifest the client shell receives: each offered command's id, key
    /// binding label and action, in order.
    pub fn client_shell_command_manifest(&self) -> (r: Vec<ClientShellCommand>)
        ensures
            manifest_view(r@) == self@.map_values(
                |e: CommandEntryView| ManifestView { command_id: e.id, binding_label: e.binding.label, action: e.action },
            ),
    {
        let mut out: Vec<ClientShellCommand> = Vec::new();
        let mut i: usize = 0;
        while i < self.entries.len()
            invariant
                i <= self.entries@.len(),
                out@.len() == i,
                forall|k: int|
                    0 <= k < i ==> {
                        let c = #[trigger] out@[k];
                        &&& c.command_id@ == self.entries@[k].id@
                        &&& c.binding_label@ == self.entries@[k].binding.label@
                        &&& c.action == self.entries@[k].action
                    },
            decreases self.entries@.len() - i,
        {
            let e = &self.entries[i];
            out.push(
                ClientShellCommand {
                    command_id: e.id.clone(),
                    binding_label: e.binding.label.clone(),
                    action: e.action,
                },
            );
            i = i + 1;
        }
        assert(manifest_view(out@) =~= self@.map_values(
            |e: CommandEntryView| ManifestView { command_id: e.id, binding_label: e.binding.label, action: e.action },
        ));
        out
    }

    /// The binding offered under `id`, or `None` for an id this registry never
    /// issued (a stale manifest).
    pub fn resolve_client_shell_command(&self, id: &str) -> (r: Option<CustomCommandKeybind>)
        ensures
            match r {
                Some(b) => resolve_entry(self@, id@) == Some(b@),
                None => resolve_entry(self@, id@) is None,
            },
    {
        let ghost v = self@;
        let mut k: usize = 0;
        assert(v.subrange(0, v.len() as int) =~= v);
        while k < self.entries.len()
            invariant
                k <= self.entries@.len(),
                v == self@,
                v.len() == self.entries@.len(),
                resolve_entry(v, id@) == resolve_entry(v.subrange(k as int, v.len() as int), id@),
            decreases self.entries@.len() - k,
        {
            assert(v.subrange(k as int, v.len() as int).drop_first() =~= v.subrange(k as int + 1, v.len() as int));
            assert(v[k as int].id == self.entries@[k as int].id@);
            if str_equal(self.entries[k].id.as_str(), id) {
                return Some(self.entries[k].binding.duplicate());
            }
            k = k + 1;
        }
        None
    }
}

/// What a client shell asks to run: a command id from the manifest and,
/// optionally, the workspace, tab and pane it was invoked for.
#[derive(Debug)]
pub struct CommandInvokeParams {
    pub command_id: String,
    pub workspace_id: Option<String>,
    pub tab_id: Option<String>,
    pub pane_id: Option<String>,
}

/// Why a command invocation was refused: an API error code and a message.
#[derive(Debug)]
pub struct CommandTargetError {
    pub code: &'static str,
    pub message: String,
}

/// The abstract refusal.
pub ghost struct CommandErrorView {
    pub code: Seq<char>,
    pub message: Seq<char>,
}

pub open spec fn error_view(e: CommandTargetError) -> CommandErrorView {
    CommandErrorView { code: e.code@, message: e.message@ }
}

pub open spec fn result_view(r: Result<(), CommandTargetError>) -> Result<(), CommandErrorView> {
    match r {
        Ok(()) => Ok(()),
        Err(e) => Err(error_view(e)),
    }
}

/// The refusal of a target that lies outside the requested workspace.
pub open spec fn workspace_mismatch() -> CommandErrorView {
    CommandErrorView {
        code: "command_target_mismatch"@,
        message: "command target does not belong to the requested workspace"@,
    }
}

/// The refusal of a pane that lies outside the requested tab.
pub open spec fn tab_mismatch() -> CommandErrorView {
    CommandErrorView { code: "command_target_mismatch"@, message: "command pane does not belong to the requested tab"@ }
}

/// Whether the target found in the workspace with public id `actual_workspace_id`
/// agrees with the workspace the client requested: refused when a workspace was
/// requested and it is another one.
pub open spec fn spec_validate_workspace(requested: Option<Seq<char>>, actual_workspace_id: Seq<char>) -> Result<
    (),
    CommandErrorView,
> {
    match requested {
        Some(w) => if w != actual_workspace_id {
            Err(workspace_mismatch())
        } else {
            Ok(())
        },
        None => Ok(()),
    }
}

/// Whether a pane found in workspace `actual_workspace_id` and tab `actual_tab_id`
/// (no id when the tab has none, compared as the empty id) agrees with the
/// workspace and tab the client requested; the workspace is checked first.
pub open spec fn spec_validate_parent_ids(
    requested_workspace: Option<Seq<char>>,
    requested_tab: Option<Seq<char>>,
    actual_workspace_id: Seq<char>,
    actual_tab_id: Option<Seq<char>>,
) -> Result<(), CommandErrorView> {
    let actual_tab = match actual_tab_id {
        Some(t) => t,
        None => Seq::empty(),
    };
    match spec_validate_workspace(requested_workspace, actual_workspace_id) {
        Err(e) => Err(e),
        Ok(()) => match requested_tab {
            Some(t) => if t != actual_tab {
                Err(tab_mismatch())
            } else {
                Ok(())
            },
            None => Ok(()),
        },
    }
}

fn mismatch(message: &str) -> (r: CommandTargetError)
    ensures
        r.code@ == "command_target_mismatch"@,
        r.message@ == message@,
{
    CommandTargetError { code: "command_target_mismatch", message: message.to_owned() }
}

/// Refuses a target outside the workspace the client requested, whose public id
/// is `actual_workspace_id`.
pub fn validate_client_shell_command_workspace_id(params: &CommandInvokeParams, actual_workspace_id: &str) -> (r: Result<
    (),
    CommandTargetError,
>)
    ensures
        result_view(r) == spec_validate_workspace(crate::snapshot::opt_view(params.workspace_id), actual_workspace_id@),
{
    match &params.workspace_id {
        Some(w) => {
            if !str_equal(w.as_str(), actual_workspace_id) {
                let e = mismatch("command target does not belong to the requested workspace");
                proof {
                    reveal_strlit("command target does not belong to the requested workspace");
                }
                return Err(e);
            }
            Ok(())
        },
        None => Ok(()),
    }
}

/// Refuses a pane outside the workspace or the tab the client requested; the pane
/// lies in the workspace with public id `actual_workspace_id` and the tab with
/// public id `actual_tab_id`.
pub fn validate_client_shell_command_parent_ids(
    params: &CommandInvokeParams,
    actual_workspace_id: &str,
    actual_tab_id: Option<&str>,
) -> (r: Result<(), CommandTargetError>)
    ensures
        result_view(r) == spec_validate_parent_ids(
            crate::snapshot::opt_view(params.workspace_id),
            crate::snapshot::opt_view(params.tab_id),
            actual_workspace_id@,
            match actual_tab_id {
                Some(t) => Some(t@),
                None => None,
            },
        ),
{
    let ghost actual_view = match actual_tab_id {
        Some(t) => Some(t@),
        None => None,
    };
    let ghost spec = spec_validate_parent_ids(
        crate::snapshot::opt_view(params.workspace_id),
        crate::snapshot::opt_view(params.tab_id),
        actual_workspace_id@,
        actual_view,
    );
    match validate_client_shell_command_workspace_id(params, actual_workspace_id) {
        Err(e) => {
            assert(result_view(Err(e)) == spec);
            return Err(e);
        },
        Ok(()) => {},
    }
    match &params.tab_id {
        Some(t) => {
            let actual = match actual_tab_id {
                Some(a) => a,
                None => "",
            };
            proof {
                reveal_strlit("");
            }
            assert(actual@ == match actual_view { Some(a) => a, None => Seq::<char>::empty() });
            if !str_equal(t.as_str(), actual) {
                let e = mismatch("command pane does not belong to the requested tab");
                assert(error_view(e) == tab_mismatch());
                assert(result_view(Err(e)) == spec);
                return Err(e);
            }
            Ok(())
        },
        None => Ok(()),
    }
}

proof fn lemma_command_id_injective(namespace: Seq<char>, a: nat, b: nat)
    requires
        command_id(namespace, a) == command_id(namespace, b),
    ensures
        a == b,
{
    let p = "cmd_"@ + namespace + "_"@;
    assert(command_id(namespace, a) == p + decimal(a));
    assert(command_id(namespace, b) == p + decimal(b));
    assert((p + decimal(a)).subrange(p.len() as int, (p + decimal(a)).len() as int) =~= decimal(a));
    assert((p + decimal(b)).subrange(p.len() as int, (p + decimal(b)).len() as int) =~= decimal(b));
    lemma_decimal_injective(a, b);
}

/// A command id names its namespace and its index: equal ids come from the same
/// namespace and index.
proof fn lemma_command_id_parts(n1: Seq<char>, n2: Seq<char>, a: nat, b: nat)
    requires
        command_id(n1, a) == command_id(n2, b),
    ensures
        n1 == n2,
        a == b,
{
    let s = command_id(n1, a);
    let p1 = "cmd_"@ + n1 + "_"@;
    let p2 = "cmd_"@ + n2 + "_"@;
    let da = decimal(a);
    let db = decimal(b);
    assert(s == p1 + da);
    assert(s == p2 + db);
    crate::text::lemma_decimal_no_underscore(a);
    crate::text::lemma_decimal_no_underscore(b);
    reveal_strlit("cmd_");
    reveal_strlit("_");
    assert(p1[p1.len() - 1] == '_');
    assert(p2[p2.len() - 1] == '_');
    if da.len() < db.len() {
        let q = s.len() - da.len() - 1;
        assert(s[q] == p1[p1.len() - 1]);
        assert(s[q] == db[q - p2.len()]);
        assert(false);
    }
    if db.len() < da.len() {
        let q = s.len() - db.len() - 1;
        assert(s[q] == p2[p2.len() - 1]);
        assert(s[q] == da[q - p1.len()]);
        assert(false);
    }
    assert(p1.len() == p2.len());
    assert(da =~= s.subrange(p1.len() as int, s.len() as int));
    assert(db =~= s.subrange(p2.len() as int, s.len() as int));
    crate::text::lemma_decimal_injective(a, b);
    assert(n1 =~= s.subrange(4, p1.len() - 1));
    assert(n2 =~= s.subrange(4, p2.len() - 1));
}

proof fn lemma_resolve_distinct(entries: Seq<CommandEntryView>, k: int)
    requires
        0 <= k < entries.len(),
        forall|i: int, j: int| 0 <= i < j < entries.len() ==> entries[i].id != entries[j].id,
    ensures
        resolve_entry(entries, entries[k].id) == Some(entries[k].binding),
    decreases k,
{
    if k > 0 {
        let rest = entries.drop_first();
        assert(entries[0].id != entries[k].id);
        assert(rest[k - 1] == entries[k]);
        lemma_resolve_distinct(rest, k - 1);
    }
}

/// Every command of a registry resolves by the id the manifest shows for it to
/// the very binding it was offered for: ids never alias inside one registry.
pub proof fn lemma_offered_ids_resolve(namespace: Seq<char>, bindings: Seq<KeybindView>, k: int)
    requires
        0 <= k < registry_entries(namespace, bindings).len(),
    ensures
        resolve_entry(registry_entries(namespace, bindings), command_id(namespace, k as nat)) == Some(
            offered(bindings)[k],
        ),
{
    let entries = registry_entries(namespace, bindings);
    assert forall|i: int, j: int| 0 <= i < j < entries.len() implies entries[i].id != entries[j].id by {
        if entries[i].id == entries[j].id {
            lemma_command_id_injective(namespace, i as nat, j as nat);
        }
    }
    lemma_resolve_distinct(entries, k);
}

/// An id that a registry did not issue resolves to nothing: a stale manifest
/// cannot trigger a command.
pub proof fn lemma_unissued_id_unresolved(entries: Seq<CommandEntryView>, id: Seq<char>)
    requires
        forall|k: int| 0 <= k < entries.len() ==> entries[k].id != id,
    ensures
        resolve_entry(entries, id) is None,
    decreases entries.len(),
{
    if entries.len() > 0 {
        let rest = entries.drop_first();
        assert forall|k: int| 0 <= k < rest.len() implies rest[k].id != id by {
            assert(rest[k] == entries[k + 1]);
        }
        lemma_unissued_id_unresolved(rest, id);
    }
}

/// Only commands the client shell can trigger are offered: a popup command never
/// reaches the manifest.
pub proof fn lemma_offered_are_shell_actions(namespace: Seq<char>, bindings: Seq<KeybindView>, k: int)
    requires
        0 <= k < registry_entries(namespace, bindings).len(),
    ensures
        registry_entries(namespace, bindings)[k].binding.action == CustomCommandAction::Shell,
{
    lemma_offered_actions(bindings);
    assert(spec_client_shell_action(offered(bindings)[k].action) is Some);
}

/// Registries under distinct namespaces never share a command id, so an id that
/// one registry issued resolves to nothing in the other: a command id from before
/// an endpoint restart cannot trigger a command of the restarted endpoint.
pub proof fn lemma_namespaces_never_share_ids(
    n1: Seq<char>,
    n2: Seq<char>,
    b1: Seq<KeybindView>,
    b2: Seq<KeybindView>,
    k: int,
)
    requires
        n1 != n2,
        0 <= k < registry_entries(n1, b1).len(),
    ensures
        forall|j: int|
            0 <= j < registry_entries(n2, b2).len() ==> #[trigger] registry_entries(n2, b2)[j].id
                != registry_entries(n1, b1)[k].id,
        resolve_entry(registry_entries(n2, b2), registry_entries(n1, b1)[k].id) is None,
{
    let e1 = registry_entries(n1, b1);
    let e2 = registry_entries(n2, b2);
    assert forall|j: int| 0 <= j < e2.len() implies #[trigger] e2[j].id != e1[k].id by {
        if e2[j].id == e1[k].id {
            lemma_command_id_parts(n2, n1, j as nat, k as nat);
        }
    }
    lemma_unissued_id_unresolved(e2, e1[k].id);
}

/// What the endpoint found for the targets a command invocation names: for a
/// requested pane, the public ids of its workspace and tab (none when the pane
/// or its tab is unknown); for a requested tab, the public id of its workspace;
/// for a requested workspace, whether it exists.
#[derive(Debug)]
pub struct CommandTargetLookup {
    pub pane: Option<(String, Option<String>)>,
    pub tab: Option<String>,
    pub workspace_found: bool,
}

/// What an invocation focuses before its command runs.
#[derive(Clone, Copy, Debug, PartialEq, Eq, Structural)]
pub enum CommandFocus {
    Pane,
    Tab,
    Workspace,
    Nothing,
}

/// The refusal with `code` and a message naming what was not found.
pub open spec fn not_found(code: Seq<char>, what: Seq<char>, id: Seq<char>) -> CommandErrorView {
    CommandErrorView { code, message: what + " not found: "@ + id }
}

/// What focusing the target of `params` does: the pane when one is named (it
/// must exist and agree with the requested workspace and tab), else the tab
/// (it must exist and agree with the requested workspace), else the workspace
/// (it must exist), else nothing.
pub open spec fn spec_focus_target(
    pane_id: Option<Seq<char>>,
    tab_id: Option<Seq<char>>,
    workspace_id: Option<Seq<char>>,
    lookup_pane: Option<(Seq<char>, Option<Seq<char>>)>,
    lookup_tab: Option<Seq<char>>,
    workspace_found: bool,
) -> Result<CommandFocus, CommandErrorView> {
    match pane_id {
        Some(p) => match lookup_pane {
            None => Err(not_found("pane_not_found"@, "pane"@, p)),
            Some((w, t)) => match spec_validate_parent_ids(workspace_id, tab_id, w, t) {
                Err(e) => Err(e),
                Ok(()) => Ok(CommandFocus::Pane),
            },
        },
        None => match tab_id {
            Some(t) => match lookup_tab {
                None => Err(not_found("tab_not_found"@, "tab"@, t)),
                Some(w) => match spec_validate_workspace(workspace_id, w) {
                    Err(e) => Err(e),
                    Ok(()) => Ok(CommandFocus::Tab),
                },
            },
            None => match workspace_id {
                Some(w) => if workspace_found {
                    Ok(CommandFocus::Workspace)
                } else {
                    Err(not_found("workspace_not_found"@, "workspace"@, w))
                },
                None => Ok(CommandFocus::Nothing),
            },
        },
    }
}

/// The lookup of a pane as plain values.
pub open spec fn pane_lookup_view(p: Option<(String, Option<String>)>) -> Option<(Seq<char>, Option<Seq<char>>)> {
    match p {
        Some((w, t)) => Some((w@, crate::snapshot::opt_view(t))),
        None => None,
    }
}

fn target_not_found(code: &'static str, what: &str, id: &str) -> (r: CommandTargetError)
    ensures
        r.code == code,
        r.message@ == what@ + " not found: "@ + id@,
{
    let lead = crate::text::concat(what, " not found: ");
    CommandTargetError { code, message: crate::text::concat(lead.as_str(), id) }
}

/// Which target an invocation focuses, as `spec_focus_target` says; `lookup`
/// holds what the endpoint found for the ids `params` names.
pub fn focus_client_shell_command_target(params: &CommandInvokeParams, lookup: &CommandTargetLookup) -> (r: Result<
    CommandFocus,
    CommandTargetError,
>)
    ensures
        match r {
            Ok(f) => spec_focus_target(
                crate::snapshot::opt_view(params.pane_id),
                crate::snapshot::opt_view(params.tab_id),
                crate::snapshot::opt_view(params.workspace_id),
                pane_lookup_view(lookup.pane),
                crate::snapshot::opt_view(lookup.tab),
                lookup.workspace_found,
            ) == Ok::<CommandFocus, CommandErrorView>(f),
            Err(e) => spec_focus_target(
                crate::snapshot::opt_view(params.pane_id),
                crate::snapshot::opt_view(params.tab_id),
                crate::snapshot::opt_view(params.workspace_id),
                pane_lookup_view(lookup.pane),
                crate::snapshot::opt_view(lookup.tab),
                lookup.workspace_found,
            ) == Err::<CommandFocus, CommandErrorView>(error_view(e)),
        },
{
    proof {
        reveal_strlit("pane_not_found");
        reveal_strlit("tab_not_found");
        reveal_strlit("workspace_not_found");
        reveal_strlit("pane");
        reveal_strlit("tab");
        reveal_strlit("workspace");
    }
    if let Some(p) = &params.pane_id {
        return match &lookup.pane {
            None => Err(target_not_found("pane_not_found", "pane", p.as_str())),
            Some((w, t)) => {
                let tab: Option<&str> = match t {
                    Some(t) => Some(t.as_str()),
                    None => None,
                };
                match validate_client_shell_command_parent_ids(params, w.as_str(), tab) {
                    Err(e) => Err(e),
                    Ok(()) => Ok(CommandFocus::Pane),
                }
            },
        };
    }
    if let Some(t) = &params.tab_id {
        return match &lookup.tab {
            None => Err(target_not_found("tab_not_found", "tab", t.as_str())),
            Some(w) => match validate_client_shell_command_workspace_id(params, w.as_str()) {
                Err(e) => Err(e),
                Ok(()) => Ok(CommandFocus::Tab),
            },
        };
    }
    match &params.workspace_id {
        Some(w) => if lookup.workspace_found {
            Ok(CommandFocus::Workspace)
        } else {
            Err(target_not_found("workspace_not_found", "workspace", w.as_str()))
        },
        None => Ok(CommandFocus::Nothing),
    }
}

/// What a command invocation does before anything runs: refused with
/// `command_not_found` for an id the registry never issued, refused as
/// focusing the target says, or run after focusing the target.
pub enum CommandInvokePlan {
    Refused(CommandTargetError),
    Run { binding: CustomCommandKeybind, focus: CommandFocus },
}

/// Plans the invocation `params` against `registry`: the command must be one the
/// registry issued (else `command_not_found`, the manifest is stale), then its
/// target is focused as [`focus_client_shell_command_target`] says; the
/// endpoint runs the binding and answers with the outcome.
pub fn handle_command_invoke(
    registry: &EndpointCommandRegistry,
    params: &CommandInvokeParams,
    lookup: &CommandTargetLookup,
) -> (r: CommandInvokePlan)
    ensures
        match r {
            CommandInvokePlan::Refused(e) => match resolve_entry(registry@, params.command_id@) {
                None => error_view(e) == (CommandErrorView {
                    code: "command_not_found"@,
                    message: "custom command manifest is stale; reload configuration"@,
                }),
                Some(_) => spec_focus_target(
                    crate::snapshot::opt_view(params.pane_id),
                    crate::snapshot::opt_view(params.tab_id),
                    crate::snapshot::opt_view(params.workspace_id),
                    pane_lookup_view(lookup.pane),
                    crate::snapshot::opt_view(lookup.tab),
                    lookup.workspace_found,
                ) == Err::<CommandFocus, CommandErrorView>(error_view(e)),
            },
            CommandInvokePlan::Run { binding, focus } => resolve_entry(registry@, params.command_id@) == Some(
                binding@,
            ) && spec_focus_target(
                crate::snapshot::opt_view(params.pane_id),
                crate::snapshot::opt_view(params.tab_id),
                crate::snapshot::opt_view(params.workspace_id),
                pane_lookup_view(lookup.pane),
                crate::snapshot::opt_view(lookup.tab),
                lookup.workspace_found,
            ) == Ok::<CommandFocus, CommandErrorView>(focus),
        },
{
    let binding = match registry.resolve_client_shell_command(params.command_id.as_str()) {
        Some(b) => b,
        None => {
            return CommandInvokePlan::Refused(
                CommandTargetError {
                    code: "command_not_found",
                    message: "custom command manifest is stale; reload configuration".to_owned(),
                },
            );
        },
    };
    match focus_client_shell_command_target(params, lookup) {
        Err(e) => CommandInvokePlan::Refused(e),
        Ok(focus) => CommandInvokePlan::Run { binding, focus },
    }
}


/// The namespace an endpoint process gives a command registry: its process id,
/// the time in nanoseconds and a per-process counter, in decimal, joined by `-`.
pub open spec fn namespace_text(pid: nat, nanos: nat, counter: nat) -> Seq<char> {
    decimal(pid) + "-"@ + decimal(nanos) + "-"@ + decimal(counter)
}

/// The namespace of process `pid` at `nanos` for its `counter`-th registry, as
/// `namespace_text` says. The process id, the time and the counter are read by
/// the caller.
pub fn command_namespace(pid: u32, nanos: u128, counter: u64) -> (r: String)
    ensures
        r@ == namespace_text(pid as nat, nanos as nat, counter as nat),
{
    proof {
        reveal_strlit("-");
    }
    let mut r = decimal_text(pid as u128);
    r.append("-");
    let n = decimal_text(nanos);
    r.append(n.as_str());
    r.append("-");
    let c = decimal_text(counter as u128);
    r.append(c.as_str());
    r
}

/// Text joined at a dash, of parts that hold only digits before it, splits back
/// into its parts.
proof fn lemma_dash_split(a: Seq<char>, b: Seq<char>, c: Seq<char>, d: Seq<char>)
    requires
        a + seq!['-'] + b == c + seq!['-'] + d,
        forall|i: int| 0 <= i < a.len() ==> '0' <= #[trigger] a[i] <= '9',
        forall|i: int| 0 <= i < c.len() ==> '0' <= #[trigger] c[i] <= '9',
    ensures
        a == c,
        b == d,
{
    let s = a + seq!['-'] + b;
    let t = c + seq!['-'] + d;
    if a.len() < c.len() {
        assert(s[a.len() as int] == '-');
        assert(t[a.len() as int] == c[a.len() as int]);
        assert(false);
    }
    if c.len() < a.len() {
        assert(t[c.len() as int] == '-');
        assert(s[c.len() as int] == a[c.len() as int]);
        assert(false);
    }
    assert(a =~= s.subrange(0, a.len() as int));
    assert(c =~= t.subrange(0, c.len() as int));
    assert(b =~= s.subrange(a.len() as int + 1, s.len() as int));
    assert(d =~= t.subrange(c.len() as int + 1, t.len() as int));
}

/// A namespace names its process id, time and counter: equal namespaces come
/// from equal ones.
proof fn lemma_namespace_parts(p1: nat, n1: nat, c1: nat, p2: nat, n2: nat, c2: nat)
    requires
        namespace_text(p1, n1, c1) == namespace_text(p2, n2, c2),
    ensures
        p1 == p2,
        n1 == n2,
        c1 == c2,
{
    reveal_strlit("-");
    lemma_decimal_is_digits(p1);
    lemma_decimal_is_digits(p2);
    lemma_decimal_is_digits(n1);
    lemma_decimal_is_digits(n2);
    let r1 = decimal(n1) + seq!['-'] + decimal(c1);
    let r2 = decimal(n2) + seq!['-'] + decimal(c2);
    assert(namespace_text(p1, n1, c1) =~= decimal(p1) + seq!['-'] + r1);
    assert(namespace_text(p2, n2, c2) =~= decimal(p2) + seq!['-'] + r2);
    lemma_dash_split(decimal(p1), r1, decimal(p2), r2);
    lemma_dash_split(decimal(n1), decimal(c1), decimal(n2), decimal(c2));
    lemma_decimal_injective(p1, p2);
    lemma_decimal_injective(n1, n2);
    lemma_decimal_injective(c1, c2);
}

/// Registries whose namespaces one process minted with distinct counters (as
/// it does for each registry it makes, an endpoint restart included) never
/// share a command id, whatever their bindings and times: an id from one
/// resolves to nothing in the other.
pub proof fn lemma_minted_registries_never_share_ids(
    pid: nat,
    nanos1: nat,
    counter1: nat,
    nanos2: nat,
    counter2: nat,
    b1: Seq<KeybindView>,
    b2: Seq<KeybindView>,
    k: int,
)
    requires
        counter1 != counter2,
        0 <= k < registry_entries(namespace_text(pid, nanos1, counter1), b1).len(),
    ensures
        ({
            let e1 = registry_entries(namespace_text(pid, nanos1, counter1), b1);
            let e2 = registry_entries(namespace_text(pid, nanos2, counter2), b2);
            &&& forall|j: int| 0 <= j < e2.len() ==> #[trigger] e2[j].id != e1[k].id
            &&& resolve_entry(e2, e1[k].id) is None
        }),
{
    if namespace_text(pid, nanos1, counter1) == namespace_text(pid, nanos2, counter2) {
        lemma_namespace_parts(pid, nanos1, counter1, pid, nanos2, counter2);
    }
    lemma_namespaces_never_share_ids(
        namespace_text(pid, nanos1, counter1),
        namespace_text(pid, nanos2, counter2),
        b1,
        b2,
        k,
    );
}

} // verus!
