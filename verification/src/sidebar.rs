//! Which rows the sidebar's workspace list shows: workspaces of one repository
//! are drawn as a group under the main checkout, linked worktrees indented below
//! it, and a collapsed group keeps only its focused linked worktree in view.
use vstd::prelude::*;

use crate::snapshot::{ClientShellSnapshot, ClientShellWorkspace};
use crate::text::{names_contain, names_view, str_equal};

verus! {

/// One row of the workspace list: which workspace, and how it hangs in its group.
#[derive(Clone, Copy, Debug, PartialEq, Eq, Structural)]
pub struct WorkspaceEntry {
    /// The workspace's position in the snapshot.
    pub index: usize,
    /// Drawn as a linked worktree under its main checkout.
    pub indented: bool,
    /// The last indented row of its group.
    pub last_child: bool,
}

/// Whether workspace `w` is a checkout of repository `key`.
pub open spec fn has_key(w: ClientShellWorkspace, key: Seq<char>) -> bool {
    match w.worktree {
        Some(t) => t.key@ == key,
        None => false,
    }
}

/// Whether workspace `w` is the main checkout of its repository.
pub open spec fn is_main_checkout(w: ClientShellWorkspace) -> bool {
    match w.worktree {
        Some(t) => !t.is_linked_worktree,
        None => false,
    }
}

/// The positions of the checkouts of repository `key`, in order.
pub open spec fn members(ws: Seq<ClientShellWorkspace>, key: Seq<char>) -> Seq<usize>
    decreases ws.len(),
{
    if ws.len() == 0 {
        Seq::empty()
    } else {
        let rest = members(ws.drop_last(), key);
        if has_key(ws.last(), key) {
            rest.push((ws.len() - 1) as usize)
        } else {
            rest
        }
    }
}

/// The first of the positions `ms` that holds a main checkout.
pub open spec fn first_main(ws: Seq<ClientShellWorkspace>, ms: Seq<usize>) -> Option<usize>
    decreases ms.len(),
{
    if ms.len() == 0 {
        None
    } else if is_main_checkout(ws[ms[0] as int]) {
        Some(ms[0])
    } else {
        first_main(ws, ms.drop_first())
    }
}

/// The first of the positions `ms`, other than `parent`, whose workspace has focus.
pub open spec fn first_focused_other(ws: Seq<ClientShellWorkspace>, ms: Seq<usize>, parent: usize) -> Option<usize>
    decreases ms.len(),
{
    if ms.len() == 0 {
        None
    } else if ms[0] != parent && ws[ms[0] as int].focused {
        Some(ms[0])
    } else {
        first_focused_other(ws, ms.drop_first(), parent)
    }
}

/// `ms` without `p`, in order.
pub open spec fn without(ms: Seq<usize>, p: usize) -> Seq<usize>
    decreases ms.len(),
{
    if ms.len() == 0 {
        Seq::empty()
    } else {
        let rest = without(ms.drop_last(), p);
        if ms.last() != p {
            rest.push(ms.last())
        } else {
            rest
        }
    }
}

/// Whether repository `key` is drawn as a group: it has two checkouts or more,
/// one of them the main checkout.
pub open spec fn grouped(ws: Seq<ClientShellWorkspace>, key: Seq<char>) -> bool {
    members(ws, key).len() >= 2 && first_main(ws, members(ws, key)) is Some
}

pub open spec fn plain_entry(i: usize) -> WorkspaceEntry {
    WorkspaceEntry { index: i, indented: false, last_child: false }
}

/// The indented rows of the checkouts `cs`.
pub open spec fn child_entries(cs: Seq<usize>) -> Seq<WorkspaceEntry> {
    Seq::new(cs.len(), |k: int| WorkspaceEntry { index: cs[k], indented: true, last_child: k + 1 == cs.len() })
}

/// The rows of the group of repository `key`: its main checkout, then either all
/// other checkouts or, when the group is collapsed, the focused one among them.
pub open spec fn group_entries(
    ws: Seq<ClientShellWorkspace>,
    collapsed: Seq<Seq<char>>,
    key: Seq<char>,
    i: usize,
) -> Seq<WorkspaceEntry> {
    let ms = members(ws, key);
    let parent = match first_main(ws, ms) {
        Some(p) => p,
        None => i,
    };
    let head = seq![plain_entry(parent)];
    if collapsed.contains(key) {
        match first_focused_other(ws, ms, parent) {
            Some(a) => head.push(WorkspaceEntry { index: a, indented: true, last_child: true }),
            None => head,
        }
    } else {
        head + child_entries(without(ms, parent))
    }
}

/// The rows workspace `i` brings: its own row, its group's rows where it is the
/// group's first checkout, or none where its group was drawn already.
pub open spec fn entries_at(ws: Seq<ClientShellWorkspace>, collapsed: Seq<Seq<char>>, i: int) -> Seq<WorkspaceEntry> {
    match ws[i].worktree {
        Some(t) => if grouped(ws, t.key@) {
            if members(ws, t.key@)[0] == i {
                group_entries(ws, collapsed, t.key@, i as usize)
            } else {
                Seq::empty()
            }
        } else {
            seq![plain_entry(i as usize)]
        },
        None => seq![plain_entry(i as usize)],
    }
}

/// The rows of the first `n` workspaces.
pub open spec fn entries_upto(ws: Seq<ClientShellWorkspace>, collapsed: Seq<Seq<char>>, n: int) -> Seq<WorkspaceEntry>
    decreases n,
{
    if n <= 0 {
        Seq::empty()
    } else {
        entries_upto(ws, collapsed, n - 1) + entries_at(ws, collapsed, n - 1)
    }
}

/// The rows of the workspace list.
pub open spec fn spec_workspace_entries(ws: Seq<ClientShellWorkspace>, collapsed: Seq<Seq<char>>) -> Seq<WorkspaceEntry> {
    entries_upto(ws, collapsed, ws.len() as int)
}

proof fn lemma_members_take(ws: Seq<ClientShellWorkspace>, key: Seq<char>, i: int)
    requires
        0 <= i < ws.len(),
    ensures
        members(ws.take(i + 1), key) == (if has_key(ws[i], key) {
            members(ws.take(i), key).push(i as usize)
        } else {
            members(ws.take(i), key)
        }),
{
    assert(ws.take(i + 1).drop_last() =~= ws.take(i));
}

/// Every member is a checkout of `key` inside `ws`, and the members ascend.
pub(crate) proof fn lemma_members_facts(ws: Seq<ClientShellWorkspace>, key: Seq<char>)
    requires
        ws.len() <= usize::MAX,
    ensures
        forall|k: int| 0 <= k < members(ws, key).len() ==> (#[trigger] members(ws, key)[k]) < ws.len()
            && has_key(ws[members(ws, key)[k] as int], key),
        forall|a: int, b: int| 0 <= a < b < members(ws, key).len() ==> members(ws, key)[a] < members(ws, key)[b],
        forall|j: int| 0 <= j < ws.len() && has_key(ws[j], key) ==> members(ws, key).contains(j as usize),
    decreases ws.len(),
{
    if ws.len() > 0 {
        let rest = ws.drop_last();
        let mr = members(rest, key);
        let m = members(ws, key);
        lemma_members_facts(rest, key);
        assert forall|k: int| 0 <= k < m.len() implies (#[trigger] m[k]) < ws.len() && has_key(ws[m[k] as int], key) by {
            if k < mr.len() {
                assert(m[k] == mr[k]);
                assert(rest[mr[k] as int] == ws[mr[k] as int]);
            }
        }
        assert forall|a: int, b: int| 0 <= a < b < m.len() implies m[a] < m[b] by {
            if b < mr.len() {
                assert(m[a] == mr[a] && m[b] == mr[b]);
            } else {
                assert(m[a] == mr[a]);
            }
        }
        assert forall|j: int| 0 <= j < ws.len() && has_key(ws[j], key) implies m.contains(j as usize) by {
            if j < ws.len() - 1 {
                assert(rest[j] == ws[j]);
                let k = choose|k: int| 0 <= k < mr.len() && mr[k] == j as usize;
                assert(m[k] == j as usize);
            } else {
                assert(m.last() == j as usize);
            }
        }
    }
}

proof fn lemma_first_main_step(ws: Seq<ClientShellWorkspace>, ms: Seq<usize>, k: int)
    requires
        0 <= k < ms.len(),
    ensures
        first_main(ws, ms.subrange(k, ms.len() as int)) == (if is_main_checkout(ws[ms[k] as int]) {
            Some(ms[k])
        } else {
            first_main(ws, ms.subrange(k + 1, ms.len() as int))
        }),
{
    assert(ms.subrange(k, ms.len() as int).drop_first() =~= ms.subrange(k + 1, ms.len() as int));
}

proof fn lemma_first_focused_step(ws: Seq<ClientShellWorkspace>, ms: Seq<usize>, p: usize, k: int)
    requires
        0 <= k < ms.len(),
    ensures
        first_focused_other(ws, ms.subrange(k, ms.len() as int), p) == (if ms[k] != p && ws[ms[k] as int].focused {
            Some(ms[k])
        } else {
            first_focused_other(ws, ms.subrange(k + 1, ms.len() as int), p)
        }),
{
    assert(ms.subrange(k, ms.len() as int).drop_first() =~= ms.subrange(k + 1, ms.len() as int));
}

proof fn lemma_first_main_in(ws: Seq<ClientShellWorkspace>, ms: Seq<usize>)
    ensures
        first_main(ws, ms) matches Some(p) ==> ms.contains(p),
    decreases ms.len(),
{
    if ms.len() > 0 && !is_main_checkout(ws[ms[0] as int]) {
        lemma_first_main_in(ws, ms.drop_first());
        if let Some(p) = first_main(ws, ms.drop_first()) {
            let k = choose|k: int| 0 <= k < ms.drop_first().len() && ms.drop_first()[k] == p;
            assert(ms[k + 1] == p);
        }
    } else if ms.len() > 0 {
        assert(ms[0] == ms[0]);
    }
}

proof fn lemma_first_focused_in(ws: Seq<ClientShellWorkspace>, ms: Seq<usize>, p: usize)
    ensures
        first_focused_other(ws, ms, p) matches Some(a) ==> ms.contains(a),
    decreases ms.len(),
{
    if ms.len() > 0 && !(ms[0] != p && ws[ms[0] as int].focused) {
        lemma_first_focused_in(ws, ms.drop_first(), p);
        if let Some(a) = first_focused_other(ws, ms.drop_first(), p) {
            let k = choose|k: int| 0 <= k < ms.drop_first().len() && ms.drop_first()[k] == a;
            assert(ms[k + 1] == a);
        }
    }
}

proof fn lemma_without_take(ms: Seq<usize>, p: usize, k: int)
    requires
        0 <= k < ms.len(),
    ensures
        without(ms.take(k + 1), p) == (if ms[k] != p {
            without(ms.take(k), p).push(ms[k])
        } else {
            without(ms.take(k), p)
        }),
{
    assert(ms.take(k + 1).drop_last() =~= ms.take(k));
}

proof fn lemma_without_in(ms: Seq<usize>, p: usize)
    ensures
        forall|k: int| 0 <= k < without(ms, p).len() ==> ms.contains(#[trigger] without(ms, p)[k]),
    decreases ms.len(),
{
    if ms.len() > 0 {
        lemma_without_in(ms.drop_last(), p);
        assert forall|k: int| 0 <= k < without(ms, p).len() implies ms.contains(#[trigger] without(ms, p)[k]) by {
            let rest = without(ms.drop_last(), p);
            if k < rest.len() {
                let j = choose|j: int| 0 <= j < ms.drop_last().len() && ms.drop_last()[j] == rest[k];
                assert(ms[j] == rest[k]);
            } else {
                assert(ms[ms.len() - 1] == ms.last());
            }
        }
    }
}

/// The positions of the checkouts of repository `key`.
pub(crate) fn key_members(ws: &Vec<ClientShellWorkspace>, key: &str) -> (r: Vec<usize>)
    ensures
        r@ == members(ws@, key@),
{
    let mut out: Vec<usize> = Vec::new();
    let mut i: usize = 0;
    while i < ws.len()
        invariant
            i <= ws@.len(),
            out@ == members(ws@.take(i as int), key@),
        decreases ws@.len() - i,
    {
        proof {
            lemma_members_take(ws@, key@, i as int);
        }
        let hit = match &ws[i].worktree {
            Some(t) => str_equal(t.key.as_str(), key),
            None => false,
        };
        if hit {
            out.push(i);
        }
        i = i + 1;
    }
    assert(ws@.take(ws@.len() as int) =~= ws@);
    out
}

/// The first of `ms` that holds a main checkout.
fn find_main(ws: &Vec<ClientShellWorkspace>, ms: &Vec<usize>) -> (r: Option<usize>)
    requires
        forall|k: int| 0 <= k < ms@.len() ==> ms@[k] < ws@.len(),
    ensures
        r == first_main(ws@, ms@),
{
    let mut k: usize = 0;
    assert(ms@.subrange(0, ms@.len() as int) =~= ms@);
    while k < ms.len()
        invariant
            k <= ms@.len(),
            forall|j: int| 0 <= j < ms@.len() ==> ms@[j] < ws@.len(),
            first_main(ws@, ms@) == first_main(ws@, ms@.subrange(k as int, ms@.len() as int)),
        decreases ms@.len() - k,
    {
        proof {
            lemma_first_main_step(ws@, ms@, k as int);
        }
        let main = match &ws[ms[k]].worktree {
            Some(t) => !t.is_linked_worktree,
            None => false,
        };
        if main {
            return Some(ms[k]);
        }
        k = k + 1;
    }
    None
}

/// The first of `ms`, other than `parent`, whose workspace has focus.
fn find_focused_other(ws: &Vec<ClientShellWorkspace>, ms: &Vec<usize>, parent: usize) -> (r: Option<usize>)
    requires
        forall|k: int| 0 <= k < ms@.len() ==> ms@[k] < ws@.len(),
    ensures
        r == first_focused_other(ws@, ms@, parent),
{
    let mut k: usize = 0;
    assert(ms@.subrange(0, ms@.len() as int) =~= ms@);
    while k < ms.len()
        invariant
            k <= ms@.len(),
            forall|j: int| 0 <= j < ms@.len() ==> ms@[j] < ws@.len(),
            first_focused_other(ws@, ms@, parent) == first_focused_other(
                ws@,
                ms@.subrange(k as int, ms@.len() as int),
                parent,
            ),
        decreases ms@.len() - k,
    {
        proof {
            lemma_first_focused_step(ws@, ms@, parent, k as int);
        }
        if ms[k] != parent && ws[ms[k]].focused {
            return Some(ms[k]);
        }
        k = k + 1;
    }
    None
}

/// Appends the rows of the group of repository `key` to `out`.
fn push_group(
    ws: &Vec<ClientShellWorkspace>,
    collapsed: &[String],
    key: &str,
    i: usize,
    ms: &Vec<usize>,
    out: &mut Vec<WorkspaceEntry>,
)
    requires
        ms@ == members(ws@, key@),
        forall|k: int| 0 <= k < ms@.len() ==> ms@[k] < ws@.len(),
    ensures
        final(out)@ == old(out)@ + group_entries(ws@, names_view(collapsed@), key@, i),
{
    let parent = match find_main(ws, ms) {
        Some(p) => p,
        None => i,
    };
    let ghost head = seq![plain_entry(parent)];
    let ghost start = out@;
    out.push(WorkspaceEntry { index: parent, indented: false, last_child: false });
    assert(out@ == start + head);
    if names_contain(collapsed, key) {
        match find_focused_other(ws, ms, parent) {
            Some(a) => {
                out.push(WorkspaceEntry { index: a, indented: true, last_child: true });
                assert(out@ == start + head.push(WorkspaceEntry { index: a, indented: true, last_child: true }));
            },
            None => {},
        }
    } else {
        let mut children: Vec<usize> = Vec::new();
        let mut k: usize = 0;
        while k < ms.len()
            invariant
                k <= ms@.len(),
                children@ == without(ms@.take(k as int), parent),
            decreases ms@.len() - k,
        {
            proof {
                lemma_without_take(ms@, parent, k as int);
            }
            if ms[k] != parent {
                children.push(ms[k]);
            }
            k = k + 1;
        }
        assert(ms@.take(ms@.len() as int) =~= ms@);
        let ghost cs = children@;
        let n = children.len();
        let mut c: usize = 0;
        while c < n
            invariant
                n == cs.len(),
                children@ == cs,
                c <= n,
                out@ == start + head + child_entries(cs).take(c as int),
            decreases n - c,
        {
            out.push(WorkspaceEntry { index: children[c], indented: true, last_child: c + 1 == n });
            assert(child_entries(cs).take(c as int + 1) =~= child_entries(cs).take(c as int).push(
                child_entries(cs)[c as int],
            ));
            c = c + 1;
        }
        assert(child_entries(cs).take(n as int) =~= child_entries(cs));
    }
}

/// The rows of the sidebar's workspace list. Workspaces outside any group keep
/// their own row in order; a repository with two checkouts or more, one of them
/// the main checkout, is drawn where its first checkout stands: the main checkout,
/// then the other checkouts indented (the last marked), or, when its key is in
/// `collapsed_groups`, only the first focused one of them.
pub fn workspace_entries(snapshot: &ClientShellSnapshot, collapsed_groups: &[String]) -> (r: Vec<WorkspaceEntry>)
    ensures
        r@ == spec_workspace_entries(snapshot.workspaces@, names_view(collapsed_groups@)),
{
    let ws = &snapshot.workspaces;
    let ghost cv = names_view(collapsed_groups@);
    let mut out: Vec<WorkspaceEntry> = Vec::new();
    let mut i: usize = 0;
    while i < ws.len()
        invariant
            i <= ws@.len(),
            ws@ == snapshot.workspaces@,
            cv == names_view(collapsed_groups@),
            out@ == entries_upto(ws@, cv, i as int),
        decreases ws@.len() - i,
    {
        match &ws[i].worktree {
            None => {
                out.push(WorkspaceEntry { index: i, indented: false, last_child: false });
            },
            Some(t) => {
                let key = t.key.as_str();
                let ms = key_members(ws, key);
                proof {
                    lemma_members_facts(ws@, key@);
                }
                let main = find_main(ws, &ms);
                if ms.len() >= 2 && main.is_some() {
                    if ms[0] == i {
                        push_group(ws, collapsed_groups, key, i, &ms, &mut out);
                    } else {
                        assert(entries_at(ws@, cv, i as int) =~= Seq::<WorkspaceEntry>::empty());
                    }
                } else {
                    out.push(WorkspaceEntry { index: i, indented: false, last_child: false });
                }
            },
        }
        i = i + 1;
    }
    out
}

/// The key of the group whose main checkout is workspace `index`.
pub open spec fn spec_parent_group_key(ws: Seq<ClientShellWorkspace>, index: int) -> Option<Seq<char>> {
    if 0 <= index < ws.len() {
        match ws[index].worktree {
            Some(t) => if !t.is_linked_worktree && members(ws, t.key@).len() >= 2 {
                Some(t.key@)
            } else {
                None
            },
            None => None,
        }
    } else {
        None
    }
}

/// The repository key whose group toggle workspace `index` carries: present when
/// the workspace is a main checkout and its repository has two checkouts or more.
pub fn parent_group_key(snapshot: &ClientShellSnapshot, index: usize) -> (r: Option<String>)
    ensures
        match r {
            Some(k) => spec_parent_group_key(snapshot.workspaces@, index as int) == Some(k@),
            None => spec_parent_group_key(snapshot.workspaces@, index as int) is None,
        },
{
    if index >= snapshot.workspaces.len() {
        return None;
    }
    match &snapshot.workspaces[index].worktree {
        None => None,
        Some(t) => {
            if t.is_linked_worktree {
                return None;
            }
            let ms = key_members(&snapshot.workspaces, t.key.as_str());
            if ms.len() >= 2 {
                Some(t.key.clone())
            } else {
                None
            }
        },
    }
}

/// Every row of the workspace list names a workspace of the snapshot.
pub proof fn lemma_entries_name_known_workspaces(ws: Seq<ClientShellWorkspace>, collapsed: Seq<Seq<char>>)
    requires
        ws.len() <= usize::MAX,
    ensures
        forall|k: int|
            0 <= k < spec_workspace_entries(ws, collapsed).len() ==> (#[trigger] spec_workspace_entries(
                ws,
                collapsed,
            )[k]).index < ws.len(),
{
    lemma_entries_upto_in_range(ws, collapsed, ws.len() as int);
}

proof fn lemma_entries_upto_in_range(ws: Seq<ClientShellWorkspace>, collapsed: Seq<Seq<char>>, n: int)
    requires
        ws.len() <= usize::MAX,
        n <= ws.len(),
    ensures
        forall|k: int|
            0 <= k < entries_upto(ws, collapsed, n).len() ==> (#[trigger] entries_upto(ws, collapsed, n)[k]).index
                < ws.len(),
    decreases n,
{
    if n > 0 {
        lemma_entries_upto_in_range(ws, collapsed, n - 1);
        let prev = entries_upto(ws, collapsed, n - 1);
        let here = entries_at(ws, collapsed, n - 1);
        assert forall|k: int| 0 <= k < here.len() implies (#[trigger] here[k]).index < ws.len() by {
            if let Some(t) = ws[n - 1].worktree {
                let key = t.key@;
                let ms = members(ws, key);
                lemma_members_facts(ws, key);
                if grouped(ws, key) && ms[0] == n - 1 {
                    lemma_first_main_in(ws, ms);
                    let parent = first_main(ws, ms)->0;
                    let pk = choose|j: int| 0 <= j < ms.len() && ms[j] == parent;
                    assert(ms[pk] < ws.len());
                    if k > 0 {
                        if collapsed.contains(key) {
                            lemma_first_focused_in(ws, ms, parent);
                            let a = first_focused_other(ws, ms, parent)->0;
                            let ak = choose|j: int| 0 <= j < ms.len() && ms[j] == a;
                            assert(ms[ak] < ws.len());
                        } else {
                            lemma_without_in(ms, parent);
                            let cs = without(ms, parent);
                            assert(here[k] == child_entries(cs)[k - 1]);
                            let ck = choose|j: int| 0 <= j < ms.len() && ms[j] == cs[k - 1];
                            assert(ms[ck] < ws.len());
                        }
                    }
                }
            }
        }
        assert forall|k: int| 0 <= k < entries_upto(ws, collapsed, n).len() implies (#[trigger] entries_upto(
            ws,
            collapsed,
            n,
        )[k]).index < ws.len() by {
            if k >= prev.len() {
                assert(entries_upto(ws, collapsed, n)[k] == here[k - prev.len()]);
            } else {
                assert(entries_upto(ws, collapsed, n)[k] == prev[k]);
            }
        }
    }
}

} // verus!
