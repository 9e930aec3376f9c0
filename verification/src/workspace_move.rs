//! Moving a workspace in the sidebar by dragging it: which request, if any, a
//! drop asks the endpoint for.
use vstd::prelude::*;

use crate::snapshot::{opt_view, ClientShellSnapshot, ClientShellWorkspace};
use crate::text::{names_view, str_equal};

verus! {

/// The request a workspace drop asks for.
#[derive(Clone, Debug)]
pub enum WorkspaceMoveMethod {
    /// Move a main checkout together with the linked worktrees of its
    /// repository, before `before_workspace_id` (or to the end).
    WorkspaceMoveBlock { workspace_ids: Vec<String>, before_workspace_id: Option<String> },
    /// Move one workspace to `insert_index` of the workspace list.
    WorkspaceMove { workspace_id: String, insert_index: usize },
}

/// A drop request as plain values.
pub enum WorkspaceMoveView {
    Block { workspace_ids: Seq<Seq<char>>, before_workspace_id: Option<Seq<char>> },
    Single { workspace_id: Seq<char>, insert_index: int },
}

impl WorkspaceMoveMethod {
    pub open spec fn view(self) -> WorkspaceMoveView {
        match self {
            WorkspaceMoveMethod::WorkspaceMoveBlock { workspace_ids, before_workspace_id } =>
                WorkspaceMoveView::Block {
                workspace_ids: names_view(workspace_ids@),
                before_workspace_id: opt_view(before_workspace_id),
            },
            WorkspaceMoveMethod::WorkspaceMove { workspace_id, insert_index } =>
                WorkspaceMoveView::Single { workspace_id: workspace_id@, insert_index: insert_index as int },
        }
    }
}

/// Whether `w` is a linked worktree, which moves only with its main checkout.
pub open spec fn linked(w: ClientShellWorkspace) -> bool {
    w.worktree matches Some(wt) && wt.is_linked_worktree
}

/// Whether `i` is the first index of `ws` whose workspace has id `id`.
pub open spec fn is_first_id(ws: Seq<ClientShellWorkspace>, id: Seq<char>, i: int) -> bool {
    &&& 0 <= i < ws.len()
    &&& ws[i].workspace_id@ == id
    &&& forall|j: int| 0 <= j < i ==> ws[j].workspace_id@ != id
}

/// Whether `i` is the first index of `ws` whose workspace has id `id` and is not
/// a linked worktree.
pub open spec fn is_first_root_id(ws: Seq<ClientShellWorkspace>, id: Seq<char>, i: int) -> bool {
    &&& 0 <= i < ws.len()
    &&& !linked(ws[i])
    &&& ws[i].workspace_id@ == id
    &&& forall|j: int| 0 <= j < i ==> linked(ws[j]) || ws[j].workspace_id@ != id
}

/// The number of workspaces of `ws` that are not linked worktrees.
pub open spec fn root_count(ws: Seq<ClientShellWorkspace>) -> nat
    decreases ws.len(),
{
    if ws.len() == 0 {
        0
    } else {
        root_count(ws.drop_last()) + if linked(ws.last()) {
            0nat
        } else {
            1nat
        }
    }
}

/// The number of workspaces of `ws` that are not linked worktrees and not
/// `source`.
pub open spec fn movable_count(ws: Seq<ClientShellWorkspace>, source: Seq<char>) -> nat
    decreases ws.len(),
{
    if ws.len() == 0 {
        0
    } else {
        movable_count(ws.drop_last(), source) + if linked(ws.last()) || ws.last().workspace_id@
            == source {
            0nat
        } else {
            1nat
        }
    }
}

/// The ids, in order, of the workspaces of `ws` other than `source` that belong
/// to the repository with worktree key `key`.
pub open spec fn block_members(ws: Seq<ClientShellWorkspace>, source: Seq<char>, key: Seq<char>) -> Seq<Seq<char>>
    decreases ws.len(),
{
    if ws.len() == 0 {
        Seq::empty()
    } else {
        let rest = block_members(ws.drop_last(), source, key);
        let w = ws.last();
        if w.workspace_id@ != source && (w.worktree matches Some(wt) && wt.key@ == key) {
            rest.push(w.workspace_id@)
        } else {
            rest
        }
    }
}

/// Whether some workspace of `ws` with id `id` is not a linked worktree.
pub open spec fn has_root_id(ws: Seq<ClientShellWorkspace>, id: Seq<char>) -> bool {
    exists|p: int| #[trigger] is_first_root_id(ws, id, p)
}

/// The first index of `ws` whose workspace has id `id` and is not a linked
/// worktree, when `has_root_id` holds.
pub open spec fn first_root_id(ws: Seq<ClientShellWorkspace>, id: Seq<char>) -> int {
    choose|p: int| #[trigger] is_first_root_id(ws, id, p)
}

/// The position at which the source lands among the other movable workspaces:
/// before the first movable workspace with id `before`, or at the end.
pub open spec fn insert_position(ws: Seq<ClientShellWorkspace>, source: Seq<char>, before: Option<Seq<char>>) -> Option<int> {
    match before {
        Some(t) => if has_root_id(ws, t) {
            Some(movable_count(ws.take(first_root_id(ws, t)), source) as int)
        } else {
            None
        },
        None => Some(movable_count(ws, source) as int),
    }
}

/// The request that dropping workspace `source` before `before` (or at the end)
/// asks for. None when the source is unknown or a linked worktree, when it is
/// dropped before itself or before a workspace that cannot be moved past, or
/// when it would not move. A workspace of a repository moves together with the
/// linked worktrees of that repository; any other moves alone, to the index of
/// the target in the full list.
pub open spec fn workspace_move(ws: Seq<ClientShellWorkspace>, source: Seq<char>, before: Option<Seq<char>>) -> Option<WorkspaceMoveView> {
    if !(exists|i: int| #[trigger] is_first_id(ws, source, i)) {
        None
    } else {
        let s = choose|i: int| #[trigger] is_first_id(ws, source, i);
        let w = ws[s];
        if linked(w) || before == Some(source) {
            None
        } else {
            match insert_position(ws, source, before) {
                None => None,
                Some(ip) => if ip == root_count(ws.take(s)) {
                    None
                } else {
                    match w.worktree {
                        Some(wt) => Some(
                            WorkspaceMoveView::Block {
                                workspace_ids: seq![source] + block_members(ws, source, wt.key@),
                                before_workspace_id: before,
                            },
                        ),
                        None => Some(
                            WorkspaceMoveView::Single {
                                workspace_id: source,
                                insert_index: match before {
                                    Some(t) => if exists|i: int| #[trigger] is_first_id(ws, t, i) {
                                        choose|i: int| #[trigger] is_first_id(ws, t, i)
                                    } else {
                                        ws.len() as int
                                    },
                                    None => ws.len() as int,
                                },
                            },
                        ),
                    }
                },
            }
        }
    }
}

/// A first index is unique.
proof fn lemma_first_id_unique(ws: Seq<ClientShellWorkspace>, id: Seq<char>, i: int, j: int)
    requires
        is_first_id(ws, id, i),
        is_first_id(ws, id, j),
    ensures
        i == j,
{
    if i < j {
        assert(ws[i].workspace_id@ != id);
    }
    if j < i {
        assert(ws[j].workspace_id@ != id);
    }
}

/// A first root index is unique.
proof fn lemma_first_root_id_unique(ws: Seq<ClientShellWorkspace>, id: Seq<char>, i: int, j: int)
    requires
        is_first_root_id(ws, id, i),
        is_first_root_id(ws, id, j),
    ensures
        i == j,
{
    if i < j {
        assert(linked(ws[i]) || ws[i].workspace_id@ != id);
    }
    if j < i {
        assert(linked(ws[j]) || ws[j].workspace_id@ != id);
    }
}

/// Whether `w` is a linked worktree.
pub(crate) fn is_linked(w: &ClientShellWorkspace) -> (r: bool)
    ensures
        r == linked(*w),
{
    match &w.worktree {
        Some(wt) => wt.is_linked_worktree,
        None => false,
    }
}

/// The first index of `ws` whose workspace has id `id`.
pub(crate) fn first_with_id(ws: &Vec<ClientShellWorkspace>, id: &str) -> (r: Option<usize>)
    ensures
        match r {
            Some(i) => is_first_id(ws@, id@, i as int),
            None => !(exists|i: int| is_first_id(ws@, id@, i)),
        },
{
    let mut j: usize = 0;
    while j < ws.len()
        invariant
            j <= ws@.len(),
            forall|k: int| 0 <= k < j ==> ws@[k].workspace_id@ != id@,
        decreases ws@.len() - j,
    {
        if str_equal(ws[j].workspace_id.as_str(), id) {
            return Some(j);
        }
        j = j + 1;
    }
    proof {
        if exists|i: int| is_first_id(ws@, id@, i) {
            let i = choose|i: int| is_first_id(ws@, id@, i);
            assert(ws@[i].workspace_id@ == id@);
        }
    }
    None
}

/// The number of workspaces before index `n` that are not linked worktrees.
fn count_roots(ws: &Vec<ClientShellWorkspace>, n: usize) -> (r: usize)
    requires
        n <= ws@.len(),
    ensures
        r == root_count(ws@.take(n as int)),
{
    let mut cnt: usize = 0;
    let mut j: usize = 0;
    while j < n
        invariant
            j <= n <= ws@.len(),
            cnt <= j,
            cnt == root_count(ws@.take(j as int)),
        decreases n - j,
    {
        assert(ws@.take(j + 1).drop_last() =~= ws@.take(j as int));
        if !is_linked(&ws[j]) {
            cnt = cnt + 1;
        }
        j = j + 1;
    }
    cnt
}

/// Where the source lands among the other movable workspaces, as
/// `insert_position` says.
fn find_insert_position(ws: &Vec<ClientShellWorkspace>, source: &str, before: Option<&str>) -> (r: Option<usize>)
    ensures
        match r {
            Some(p) => insert_position(ws@, source@, opt_str(before)) == Some(p as int),
            None => insert_position(ws@, source@, opt_str(before)) is None,
        },
{
    let mut cnt: usize = 0;
    let mut j: usize = 0;
    while j < ws.len()
        invariant
            j <= ws@.len(),
            cnt <= j,
            cnt == movable_count(ws@.take(j as int), source@),
            before matches Some(t) ==> forall|k: int|
                0 <= k < j ==> linked(ws@[k]) || ws@[k].workspace_id@ != t@,
        decreases ws@.len() - j,
    {
        assert(ws@.take(j + 1).drop_last() =~= ws@.take(j as int));
        let w = &ws[j];
        let lk = is_linked(w);
        if let Some(t) = before {
            if !lk && str_equal(w.workspace_id.as_str(), t) {
                proof {
                    assert(is_first_root_id(ws@, t@, j as int));
                    let p = choose|p: int| is_first_root_id(ws@, t@, p);
                    lemma_first_root_id_unique(ws@, t@, p, j as int);
                }
                return Some(cnt);
            }
        }
        if !lk && !str_equal(w.workspace_id.as_str(), source) {
            cnt = cnt + 1;
        }
        j = j + 1;
    }
    assert(ws@.take(ws@.len() as int) =~= ws@);
    match before {
        Some(t) => {
            proof {
                if exists|p: int| is_first_root_id(ws@, t@, p) {
                    let p = choose|p: int| is_first_root_id(ws@, t@, p);
                    assert(linked(ws@[p]) || ws@[p].workspace_id@ != t@);
                }
            }
            None
        },
        None => Some(cnt),
    }
}

/// The characters of an optional string slice.
pub open spec fn opt_str(s: Option<&str>) -> Option<Seq<char>> {
    match s {
        Some(t) => Some(t@),
        None => None,
    }
}

/// The ids of the workspaces of `ws` other than `source` whose repository has
/// key `key`, after `source` itself.
fn block_ids(ws: &Vec<ClientShellWorkspace>, source: &str, key: &str) -> (r: Vec<String>)
    ensures
        names_view(r@) == seq![source@] + block_members(ws@, source@, key@),
{
    let mut out: Vec<String> = Vec::new();
    out.push(source.to_owned());
    let mut j: usize = 0;
    while j < ws.len()
        invariant
            j <= ws@.len(),
            names_view(out@) == seq![source@] + block_members(ws@.take(j as int), source@, key@),
        decreases ws@.len() - j,
    {
        assert(ws@.take(j + 1).drop_last() =~= ws@.take(j as int));
        let w = &ws[j];
        let same_repo = match &w.worktree {
            Some(wt) => str_equal(wt.key.as_str(), key),
            None => false,
        };
        if same_repo && !str_equal(w.workspace_id.as_str(), source) {
            let ghost before_push = names_view(out@);
            out.push(w.workspace_id.clone());
            assert(names_view(out@) =~= before_push.push(w.workspace_id@));
        }
        j = j + 1;
    }
    assert(ws@.take(ws@.len() as int) =~= ws@);
    out
}

/// The request that dropping workspace `source_workspace_id` before
/// `before_workspace_id` (or at the end of the list) asks for, as
/// `workspace_move` says.
pub fn workspace_move_method(
    snapshot: &ClientShellSnapshot,
    source_workspace_id: &str,
    before_workspace_id: Option<&str>,
) -> (r: Option<WorkspaceMoveMethod>)
    ensures
        match r {
            Some(m) => workspace_move(
                snapshot.workspaces@,
                source_workspace_id@,
                opt_str(before_workspace_id),
            ) == Some(m.view()),
            None => workspace_move(
                snapshot.workspaces@,
                source_workspace_id@,
                opt_str(before_workspace_id),
            ) is None,
        },
{
    let ws = &snapshot.workspaces;
    let ghost src = source_workspace_id@;
    let ghost before = opt_str(before_workspace_id);
    let s = match first_with_id(ws, source_workspace_id) {
        Some(s) => s,
        None => return None,
    };
    proof {
        let c = choose|i: int| is_first_id(ws@, src, i);
        lemma_first_id_unique(ws@, src, c, s as int);
    }
    let source = &ws[s];
    if is_linked(source) {
        return None;
    }
    if let Some(b) = before_workspace_id {
        if str_equal(b, source_workspace_id) {
            return None;
        }
    }
    let source_position = count_roots(ws, s);
    let insert_position = match find_insert_position(ws, source_workspace_id, before_workspace_id) {
        Some(p) => p,
        None => return None,
    };
    if insert_position == source_position {
        return None;
    }
    match &source.worktree {
        Some(wt) => {
            let workspace_ids = block_ids(ws, source_workspace_id, wt.key.as_str());
            let before_owned: Option<String> = match before_workspace_id {
                Some(b) => Some(b.to_owned()),
                None => None,
            };
            Some(WorkspaceMoveMethod::WorkspaceMoveBlock { workspace_ids, before_workspace_id: before_owned })
        },
        None => {
            let insert_index = match before_workspace_id {
                Some(t) => match first_with_id(ws, t) {
                    Some(i) => {
                        proof {
                            let c = choose|k: int| is_first_id(ws@, t@, k);
                            lemma_first_id_unique(ws@, t@, c, i as int);
                        }
                        i
                    },
                    None => ws.len(),
                },
                None => ws.len(),
            };
            Some(WorkspaceMoveMethod::WorkspaceMove { workspace_id: source_workspace_id.to_owned(), insert_index })
        },
    }
}

/// Whether some workspace of `ws` has id `id`.
pub open spec fn names_workspace(ws: Seq<ClientShellWorkspace>, id: Seq<char>) -> bool {
    exists|i: int| 0 <= i < ws.len() && #[trigger] ws[i].workspace_id@ == id
}

/// Every id `block_members` lists is the id of a workspace of `ws`.
proof fn lemma_block_members_known(ws: Seq<ClientShellWorkspace>, source: Seq<char>, key: Seq<char>)
    ensures
        forall|k: int|
            0 <= k < block_members(ws, source, key).len() ==> names_workspace(
                ws,
                #[trigger] block_members(ws, source, key)[k],
            ),
    decreases ws.len(),
{
    if ws.len() > 0 {
        let front = ws.drop_last();
        lemma_block_members_known(front, source, key);
        let rest = block_members(front, source, key);
        let all = block_members(ws, source, key);
        assert forall|k: int| 0 <= k < all.len() implies names_workspace(ws, #[trigger] all[k]) by {
            if k < rest.len() {
                assert(all[k] == rest[k]);
                assert(names_workspace(front, rest[k]));
                let i = choose|i: int| 0 <= i < front.len() && #[trigger] front[i].workspace_id@ == rest[k];
                assert(ws[i] == front[i]);
            } else {
                assert(ws[ws.len() - 1] == ws.last());
            }
        }
    }
}

/// A drop asks only about workspaces the snapshot holds: every id a request
/// names is a workspace of the snapshot, and a single move lands inside the
/// list or at its end.
pub proof fn lemma_move_names_known_workspaces(
    ws: Seq<ClientShellWorkspace>,
    source: Seq<char>,
    before: Option<Seq<char>>,
)
    ensures
        match workspace_move(ws, source, before) {
            Some(WorkspaceMoveView::Block { workspace_ids, .. }) => forall|k: int|
                0 <= k < workspace_ids.len() ==> names_workspace(ws, #[trigger] workspace_ids[k]),
            Some(WorkspaceMoveView::Single { workspace_id, insert_index }) => names_workspace(
                ws,
                workspace_id,
            ) && 0 <= insert_index <= ws.len(),
            None => true,
        },
{
    if exists|i: int| #[trigger] is_first_id(ws, source, i) {
        let s = choose|i: int| #[trigger] is_first_id(ws, source, i);
        assert(ws[s].workspace_id@ == source);
        assert(names_workspace(ws, source));
        match ws[s].worktree {
            Some(wt) => {
                lemma_block_members_known(ws, source, wt.key@);
                let ids = seq![source] + block_members(ws, source, wt.key@);
                assert forall|k: int| 0 <= k < ids.len() implies names_workspace(
                    ws,
                    #[trigger] ids[k],
                ) by {
                    if k > 0 {
                        assert(ids[k] == block_members(ws, source, wt.key@)[k - 1]);
                    }
                }
            },
            None => {},
        }
    }
}

} // verus!
