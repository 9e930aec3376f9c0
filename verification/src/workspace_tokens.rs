//! What each configured row of a workspace's sidebar entry shows: its state glyph
//! and text, its name, branch, ahead/behind counts and custom tokens.
use vstd::prelude::*;

use crate::snapshot::ClientShellWorkspace;
use crate::status::{spec_status_icon, spec_status_text, status_dot, status_text, StatusIndicatorStyle};
use crate::text::{concat, decimal, decimal_string, str_equal};

verus! {

/// The configured rows of a workspace's sidebar entry.
#[derive(Debug)]
pub struct SpacesSidebarConfig {
    pub rows: Vec<Vec<SpaceSidebarToken>>,
    /// Blank rows between two entries.
    pub row_gap: u16,
}

/// How a configured token is styled on top of its kind's style.
#[derive(Clone, Copy, Debug, PartialEq, Eq, Structural)]
pub struct SidebarTokenStyle {
    /// A 24-bit RGB foreground colour.
    pub fg: Option<u32>,
    pub bold: Option<bool>,
    pub dim: Option<bool>,
}

/// A token a sidebar row of a workspace can show.
#[derive(Debug)]
pub enum SpaceSidebarToken {
    StateIcon,
    StateText,
    Workspace,
    Branch,
    GitStatus,
    /// The value of a metadata token reported for the workspace.
    Custom(String),
    /// A token with a style of its own.
    Styled { token: Box<SpaceSidebarToken>, style: SidebarTokenStyle },
}

/// The unstyled look.
pub open spec fn plain_style() -> SidebarTokenStyle {
    SidebarTokenStyle { fg: None, bold: None, dim: None }
}

/// A configured token and its style: a styled token unwrapped once.
pub open spec fn token_parts(t: SpaceSidebarToken) -> (SpaceSidebarToken, SidebarTokenStyle) {
    match t {
        SpaceSidebarToken::Styled { token, style } => (*token, style),
        _ => (t, plain_style()),
    }
}

/// What a shown token is, for styling and spacing.
#[derive(Clone, Copy, Debug, PartialEq, Eq, Structural)]
pub enum WorkspaceTokenKind {
    StateIcon,
    StateText,
    Workspace,
    Branch,
    GitStatus,
    Custom,
}

/// One shown token of a workspace row.
#[derive(Clone, Debug)]
pub struct WorkspaceToken {
    pub text: String,
    pub kind: WorkspaceTokenKind,
    pub style: SidebarTokenStyle,
}

/// The abstract shown token.
pub ghost struct WorkspaceTokenView {
    pub text: Seq<char>,
    pub kind: WorkspaceTokenKind,
    pub style: SidebarTokenStyle,
}

impl View for WorkspaceToken {
    type V = WorkspaceTokenView;

    open spec fn view(&self) -> WorkspaceTokenView {
        WorkspaceTokenView { text: self.text@, kind: self.kind, style: self.style }
    }
}

/// `b` without its `worktree/` prefix, if it has one.
pub open spec fn strip_worktree_prefix(b: Seq<char>) -> Seq<char> {
    if b.len() >= 9 && b.take(9) == "worktree/"@ {
        b.skip(9)
    } else {
        b
    }
}

/// The name a workspace row shows: an indented linked worktree without a name of
/// its own shows its branch, without the `worktree/` prefix.
pub open spec fn row_label(w: ClientShellWorkspace, indented: bool) -> Seq<char> {
    if indented && !w.custom_label {
        match w.branch {
            Some(b) => strip_worktree_prefix(b@),
            None => w.label@,
        }
    } else {
        w.label@
    }
}

/// The last value reported under `name`: later reports replace earlier ones.
pub open spec fn token_value(tokens: Seq<(String, String)>, name: Seq<char>) -> Option<Seq<char>>
    decreases tokens.len(),
{
    if tokens.len() == 0 {
        None
    } else if tokens.last().0@ == name {
        Some(tokens.last().1@)
    } else {
        token_value(tokens.drop_last(), name)
    }
}

/// The ahead/behind text.
pub open spec fn ahead_behind_text(ahead: usize, behind: usize) -> Seq<char> {
    "\u{2191}"@ + decimal(ahead as nat) + " \u{2193}"@ + decimal(behind as nat)
}

pub open spec fn shown(text: Seq<char>, kind: WorkspaceTokenKind, style: SidebarTokenStyle) -> Option<WorkspaceTokenView> {
    Some(WorkspaceTokenView { text, kind, style })
}

/// What configured token `configured` shows for workspace `w`, if anything: the
/// branch and the ahead/behind counts only on rows that are not indented, the
/// counts only when one of them is not zero, a custom token only when reported.
pub open spec fn token_shown(w: ClientShellWorkspace, indented: bool, configured: SpaceSidebarToken) -> Option<
    WorkspaceTokenView,
> {
    let (token, style) = token_parts(configured);
    match token {
        SpaceSidebarToken::StateIcon => shown(
            spec_status_icon(w.agent_status, StatusIndicatorStyle::Dots, None),
            WorkspaceTokenKind::StateIcon,
            style,
        ),
        SpaceSidebarToken::StateText => shown(spec_status_text(w.agent_status), WorkspaceTokenKind::StateText, style),
        SpaceSidebarToken::Workspace => shown(row_label(w, indented), WorkspaceTokenKind::Workspace, style),
        SpaceSidebarToken::Branch => if indented {
            None
        } else {
            match w.branch {
                Some(b) => shown(b@, WorkspaceTokenKind::Branch, style),
                None => None,
            }
        },
        SpaceSidebarToken::GitStatus => if indented {
            None
        } else {
            match w.git_ahead_behind {
                Some((a, b)) => if a == 0 && b == 0 {
                    None
                } else {
                    shown(ahead_behind_text(a, b), WorkspaceTokenKind::GitStatus, style)
                },
                None => None,
            }
        },
        SpaceSidebarToken::Custom(name) => match token_value(w.tokens@, name@) {
            Some(v) => shown(v, WorkspaceTokenKind::Custom, style),
            None => None,
        },
        SpaceSidebarToken::Styled { .. } => None,
    }
}

/// The tokens one configured row shows, in order.
pub open spec fn row_tokens(w: ClientShellWorkspace, indented: bool, row: Seq<SpaceSidebarToken>) -> Seq<
    WorkspaceTokenView,
>
    decreases row.len(),
{
    if row.len() == 0 {
        Seq::empty()
    } else {
        let prev = row_tokens(w, indented, row.drop_last());
        match token_shown(w, indented, row.last()) {
            Some(t) => prev.push(t),
            None => prev,
        }
    }
}

/// The rows of workspace `w` for the configured rows `rows`: a row that shows no
/// token is left out.
pub open spec fn spec_workspace_rows(w: ClientShellWorkspace, indented: bool, rows: Seq<Seq<SpaceSidebarToken>>) -> Seq<
    Seq<WorkspaceTokenView>,
>
    decreases rows.len(),
{
    if rows.len() == 0 {
        Seq::empty()
    } else {
        let prev = spec_workspace_rows(w, indented, rows.drop_last());
        let r = row_tokens(w, indented, rows.last());
        if r.len() > 0 {
            prev.push(r)
        } else {
            prev
        }
    }
}

pub open spec fn tokens_view(ts: Seq<WorkspaceToken>) -> Seq<WorkspaceTokenView> {
    ts.map_values(|t: WorkspaceToken| t@)
}

pub open spec fn rows_view(rows: Seq<Vec<WorkspaceToken>>) -> Seq<Seq<WorkspaceTokenView>> {
    rows.map_values(|r: Vec<WorkspaceToken>| tokens_view(r@))
}

pub open spec fn config_view(rows: Seq<Vec<SpaceSidebarToken>>) -> Seq<Seq<SpaceSidebarToken>> {
    rows.map_values(|r: Vec<SpaceSidebarToken>| r@)
}

/// `b` without its `worktree/` prefix, if it has one.
fn strip_worktree(b: &str) -> (r: String)
    ensures
        r@ == strip_worktree_prefix(b@),
{
    let prefix = "worktree/";
    proof {
        reveal_strlit("worktree/");
    }
    let n = b.unicode_len();
    if n < 9 {
        return b.to_owned();
    }
    let head = b.substring_char(0, 9);
    if str_equal(head, prefix) {
        assert(b@.take(9) =~= head@);
        b.substring_char(9, n).to_owned()
    } else {
        assert(b@.take(9) =~= head@);
        b.to_owned()
    }
}

/// The last value reported under `name`.
fn find_token_value(tokens: &Vec<(String, String)>, name: &str) -> (r: Option<String>)
    ensures
        match r {
            Some(v) => token_value(tokens@, name@) == Some(v@),
            None => token_value(tokens@, name@) is None,
        },
{
    let mut i: usize = tokens.len();
    assert(tokens@.take(i as int) =~= tokens@);
    while i > 0
        invariant
            i <= tokens@.len(),
            token_value(tokens@, name@) == token_value(tokens@.take(i as int), name@),
        decreases i,
    {
        assert(tokens@.take(i as int).drop_last() =~= tokens@.take(i - 1));
        if str_equal(tokens[i - 1].0.as_str(), name) {
            return Some(tokens[i - 1].1.clone());
        }
        i = i - 1;
    }
    None
}

/// What configured token `configured` shows for workspace `w`.
fn show_token(w: &ClientShellWorkspace, indented: bool, configured: &SpaceSidebarToken) -> (r: Option<WorkspaceToken>)
    ensures
        match r {
            Some(t) => token_shown(*w, indented, *configured) == Some(t@),
            None => token_shown(*w, indented, *configured) is None,
        },
{
    let (token, style): (&SpaceSidebarToken, SidebarTokenStyle) = match configured {
        SpaceSidebarToken::Styled { token, style } => (&**token, *style),
        _ => (configured, SidebarTokenStyle { fg: None, bold: None, dim: None }),
    };
    match token {
        SpaceSidebarToken::StateIcon => Some(
            WorkspaceToken { text: status_dot(w.agent_status).to_owned(), kind: WorkspaceTokenKind::StateIcon, style },
        ),
        SpaceSidebarToken::StateText => Some(
            WorkspaceToken {
                text: status_text(w.agent_status).to_owned(),
                kind: WorkspaceTokenKind::StateText,
                style,
            },
        ),
        SpaceSidebarToken::Workspace => {
            let text = if indented && !w.custom_label {
                match &w.branch {
                    Some(b) => strip_worktree(b.as_str()),
                    None => w.label.clone(),
                }
            } else {
                w.label.clone()
            };
            Some(WorkspaceToken { text, kind: WorkspaceTokenKind::Workspace, style })
        },
        SpaceSidebarToken::Branch => {
            if indented {
                return None;
            }
            match &w.branch {
                Some(b) => Some(WorkspaceToken { text: b.clone(), kind: WorkspaceTokenKind::Branch, style }),
                None => None,
            }
        },
        SpaceSidebarToken::GitStatus => {
            if indented {
                return None;
            }
            match w.git_ahead_behind {
                Some((ahead, behind)) => {
                    if ahead == 0 && behind == 0 {
                        return None;
                    }
                    let up = concat("\u{2191}", decimal_string(ahead).as_str());
                    let down = concat(" \u{2193}", decimal_string(behind).as_str());
                    let text = concat(up.as_str(), down.as_str());
                    assert(text@ =~= ahead_behind_text(ahead, behind));
                    Some(WorkspaceToken { text, kind: WorkspaceTokenKind::GitStatus, style })
                },
                None => None,
            }
        },
        SpaceSidebarToken::Custom(name) => match find_token_value(&w.tokens, name.as_str()) {
            Some(v) => Some(WorkspaceToken { text: v, kind: WorkspaceTokenKind::Custom, style }),
            None => None,
        },
        SpaceSidebarToken::Styled { .. } => None,
    }
}

/// The rows a workspace's sidebar entry shows for the configured `rows`: each
/// configured token that has something to show, in order; a row with nothing to
/// show is left out. An indented entry (a linked worktree under its main checkout)
/// shows no branch and no ahead/behind counts, and names itself by its branch
/// unless the user named it.
pub fn workspace_rows(w: &ClientShellWorkspace, indented: bool, rows: &Vec<Vec<SpaceSidebarToken>>) -> (r: Vec<
    Vec<WorkspaceToken>,
>)
    ensures
        rows_view(r@) == spec_workspace_rows(*w, indented, config_view(rows@)),
{
    let ghost cv = config_view(rows@);
    let mut out: Vec<Vec<WorkspaceToken>> = Vec::new();
    let mut i: usize = 0;
    assert(rows_view(out@) =~= spec_workspace_rows(*w, indented, cv.take(0)));
    while i < rows.len()
        invariant
            i <= rows@.len(),
            cv == config_view(rows@),
            rows_view(out@) == spec_workspace_rows(*w, indented, cv.take(i as int)),
        decreases rows@.len() - i,
    {
        let row = &rows[i];
        let mut shown_tokens: Vec<WorkspaceToken> = Vec::new();
        let mut k: usize = 0;
        assert(tokens_view(shown_tokens@) =~= row_tokens(*w, indented, row@.take(0)));
        while k < row.len()
            invariant
                k <= row@.len(),
                tokens_view(shown_tokens@) == row_tokens(*w, indented, row@.take(k as int)),
            decreases row@.len() - k,
        {
            assert(row@.take(k as int + 1).drop_last() =~= row@.take(k as int));
            match show_token(w, indented, &row[k]) {
                Some(t) => {
                    let ghost before = shown_tokens@;
                    shown_tokens.push(t);
                    assert(tokens_view(shown_tokens@) =~= tokens_view(before).push(t@));
                },
                None => {},
            }
            k = k + 1;
        }
        assert(row@.take(row@.len() as int) =~= row@);
        assert(cv.take(i as int + 1).drop_last() =~= cv.take(i as int));
        assert(cv[i as int] == row@);
        if shown_tokens.len() > 0 {
            let ghost before = out@;
            let ghost tv = tokens_view(shown_tokens@);
            out.push(shown_tokens);
            assert(rows_view(out@) =~= rows_view(before).push(tv));
        }
        i = i + 1;
    }
    assert(cv.take(rows@.len() as int) =~= cv);
    out
}

/// One run of text in a drawn workspace row: a tree prefix, a separator, or the
/// text of token `token` of the row.
#[derive(Clone, Debug)]
pub struct RowSegment {
    pub text: String,
    pub token: Option<usize>,
}

/// The abstract run.
pub ghost struct RowSegmentView {
    pub text: Seq<char>,
    pub token: Option<usize>,
}

pub open spec fn segments_view(s: Seq<RowSegment>) -> Seq<RowSegmentView> {
    s.map_values(|r: RowSegment| RowSegmentView { text: r.text@, token: r.token })
}

/// The tree prefix of row `row_index` of an indented entry: a branch on its first
/// row (a corner for the group's last entry), the trunk continuing below it.
pub open spec fn tree_prefix(last_child: bool, row_index: usize) -> Seq<char> {
    if row_index == 0 {
        if last_child {
            "   \u{2514}\u{2500} "@
        } else {
            "   \u{251c}\u{2500} "@
        }
    } else if last_child {
        "        "@
    } else {
        "   \u{2502}    "@
    }
}

/// What goes between two tokens: a space after a state glyph or before the
/// ahead/behind counts, a dot otherwise.
pub open spec fn token_separator(previous: WorkspaceTokenKind, kind: WorkspaceTokenKind) -> Seq<char> {
    if previous == WorkspaceTokenKind::StateIcon || kind == WorkspaceTokenKind::GitStatus {
        " "@
    } else {
        " \u{00b7} "@
    }
}

/// The runs of the first `k` tokens of a row, separators included.
pub open spec fn token_runs(tokens: Seq<WorkspaceTokenView>, k: int) -> Seq<RowSegmentView>
    decreases k,
{
    if k <= 0 {
        Seq::empty()
    } else if k == 1 {
        seq![RowSegmentView { text: tokens[0].text, token: Some(0) }]
    } else {
        token_runs(tokens, k - 1).push(
            RowSegmentView { text: token_separator(tokens[k - 2].kind, tokens[k - 1].kind), token: None },
        ).push(RowSegmentView { text: tokens[k - 1].text, token: Some((k - 1) as usize) })
    }
}

/// Where the text of row `row_index` of an entry starts, and its runs: an
/// indented entry's rows start at the entry's left edge with the tree prefix; any
/// other entry's first row is indented one column, its further rows three.
pub open spec fn spec_row_segments(indented: bool, last_child: bool, row_index: usize, tokens: Seq<WorkspaceTokenView>) -> (
    u16,
    Seq<RowSegmentView>,
) {
    if indented {
        (0, seq![RowSegmentView { text: tree_prefix(last_child, row_index), token: None }] + token_runs(
            tokens,
            tokens.len() as int,
        ))
    } else {
        (if row_index == 0 { 1 } else { 3 }, token_runs(tokens, tokens.len() as int))
    }
}

/// Where the text of row `row_index` of a sidebar entry starts (columns from its
/// left edge), and the runs it is drawn in: the tree prefix of an indented entry,
/// then the tokens with their separators.
pub fn workspace_row_segments(indented: bool, last_child: bool, row_index: usize, tokens: &[WorkspaceToken]) -> (r: (
    u16,
    Vec<RowSegment>,
))
    ensures
        (r.0, segments_view(r.1@)) == spec_row_segments(indented, last_child, row_index, tokens_view(tokens@)),
{
    let ghost tv = tokens_view(tokens@);
    let mut out: Vec<RowSegment> = Vec::new();
    let lead: u16 = if indented {
        let prefix = if row_index == 0 {
            if last_child {
                "   \u{2514}\u{2500} "
            } else {
                "   \u{251c}\u{2500} "
            }
        } else if last_child {
            "        "
        } else {
            "   \u{2502}    "
        };
        out.push(RowSegment { text: prefix.to_owned(), token: None });
        0
    } else if row_index == 0 {
        1
    } else {
        3
    };
    let ghost base = segments_view(out@);
    let mut k: usize = 0;
    assert(segments_view(out@) =~= base + token_runs(tv, 0));
    while k < tokens.len()
        invariant
            k <= tokens@.len(),
            tv == tokens_view(tokens@),
            segments_view(out@) == base + token_runs(tv, k as int),
        decreases tokens@.len() - k,
    {
        let ghost before = out@;
        if k > 0 {
            let previous = tokens[k - 1].kind;
            let kind = tokens[k].kind;
            let separator = if previous == WorkspaceTokenKind::StateIcon || kind == WorkspaceTokenKind::GitStatus {
                " "
            } else {
                " \u{00b7} "
            };
            out.push(RowSegment { text: separator.to_owned(), token: None });
        }
        out.push(RowSegment { text: tokens[k].text.clone(), token: Some(k) });
        proof {
            if k == 0 {
                assert(segments_view(out@) =~= base + token_runs(tv, 1));
            } else {
                assert(segments_view(out@) =~= segments_view(before).push(
                    RowSegmentView { text: token_separator(tv[k - 1].kind, tv[k as int].kind), token: None },
                ).push(RowSegmentView { text: tv[k as int].text, token: Some(k) }));
            }
        }
        k = k + 1;
    }
    (lead, out)
}

} // verus!
