//! What a key or the mouse does to the open help overlay or the open navigator.
use vstd::prelude::*;

use crate::geometry::{contains, sat_add, spec_contains, Rect};
use crate::navigator::{client_navigator_rows, spec_navigator_rows, ClientNavigatorTarget};
use crate::navigator_ops::{
    move_navigator_selection, moved_selection, selected_workspace, toggle_name, toggle_selected_navigator_workspace,
};
use crate::overlay::{ClientHelpOverlay, ClientNavigatorFilter, ClientNavigatorOverlay, ClientShellOverlay};
use crate::rename_keys::char_string;
use crate::snapshot::ClientShellSnapshot;
use crate::text::names_view;

verus! {

/// The keys the overlays tell apart.
#[derive(Clone, Copy, Debug, PartialEq, Eq, Structural)]
pub enum OverlayKeyCode {
    Enter,
    Esc,
    Backspace,
    Up,
    Down,
    Home,
    End,
    PageUp,
    PageDown,
    Char(char),
    /// Any other key.
    Other,
}

/// A key press after the configuration's normalisation: the key, its
/// modifiers, and the text the terminal says it produced.
#[derive(Clone, Debug)]
pub struct OverlayKey {
    pub code: OverlayKeyCode,
    pub control: bool,
    pub alt: bool,
    pub super_key: bool,
    pub shift: bool,
    /// Any modifier other than these four.
    pub other_modifiers: bool,
    pub generated_text: Option<String>,
}

/// Whether no modifier is held.
pub open spec fn bare(k: OverlayKey) -> bool {
    !k.control && !k.alt && !k.super_key && !k.shift && !k.other_modifiers
}

/// Whether no modifier but shift is held.
pub open spec fn typed(k: OverlayKey) -> bool {
    !k.control && !k.alt && !k.super_key && !k.other_modifiers
}

/// Whether the key is the character `c`.
pub open spec fn is_char(k: OverlayKey, c: char) -> bool {
    k.code == OverlayKeyCode::Char(c)
}

/// The text a typed character adds: what the terminal produced, else the character.
pub open spec fn typed_text(k: OverlayKey, c: char) -> Seq<char> {
    match k.generated_text {
        Some(t) => t@,
        None => seq![c],
    }
}

/// What the shell does after a key reached an overlay.
#[derive(Clone, Copy, Debug, PartialEq, Eq, Structural)]
pub enum OverlayKeyOutcome {
    /// Close the overlay.
    Close,
    /// Choose the navigator's selected row (see `accept_navigator_selection`).
    Accept,
    /// Draw again.
    Repaint,
    /// The key does nothing here.
    Ignored,
}

/// How far a key scrolls the help: up or `k` one line back, down or `j` one line
/// on, page up and page down ten lines.
pub open spec fn help_scroll(k: OverlayKey) -> Option<int> {
    match k.code {
        OverlayKeyCode::Up | OverlayKeyCode::Char('k') => Some(-1),
        OverlayKeyCode::Down | OverlayKeyCode::Char('j') => Some(1),
        OverlayKeyCode::PageUp => Some(-10),
        OverlayKeyCode::PageDown => Some(10),
        _ => None,
    }
}

/// `scroll + delta`, kept within `usize`.
pub open spec fn scrolled(scroll: usize, delta: int) -> usize {
    if scroll + delta < 0 {
        0
    } else if scroll + delta > usize::MAX {
        usize::MAX
    } else {
        (scroll + delta) as usize
    }
}

/// What key `k` does to the help overlay holding `query`, `search` (whether the
/// search field has the focus) and `scroll`: the outcome and the new three.
/// Esc leaves the search field, or closes the help; Enter closes it and `/`
/// focuses the search field when it is not focused; in the search field ctrl-u
/// clears the query, backspace deletes a character and a character typed with
/// no modifier but shift is added, each scrolling back to the top; otherwise
/// the arrows, `j`, `k` and the page keys scroll.
pub open spec fn help_key_effect(query: Seq<char>, search: bool, scroll: usize, k: OverlayKey) -> (
    OverlayKeyOutcome,
    Seq<char>,
    bool,
    usize,
) {
    if k.code == OverlayKeyCode::Esc {
        if search {
            (OverlayKeyOutcome::Repaint, query, false, scroll)
        } else {
            (OverlayKeyOutcome::Close, query, search, scroll)
        }
    } else if !search && k.code == OverlayKeyCode::Enter {
        (OverlayKeyOutcome::Close, query, search, scroll)
    } else if !search && bare(k) && is_char(k, '/') {
        (OverlayKeyOutcome::Repaint, query, true, scroll)
    } else if search && is_char(k, 'u') && k.control {
        (OverlayKeyOutcome::Repaint, Seq::empty(), search, 0)
    } else if search && k.code == OverlayKeyCode::Backspace {
        (OverlayKeyOutcome::Repaint, if query.len() == 0 { query } else { query.drop_last() }, search, 0)
    } else if search && k.code is Char && typed(k) {
        (OverlayKeyOutcome::Repaint, query + typed_text(k, k.code->Char_0), search, 0)
    } else {
        match help_scroll(k) {
            Some(d) => (OverlayKeyOutcome::Repaint, query, search, scrolled(scroll, d)),
            None => (OverlayKeyOutcome::Ignored, query, search, scroll),
        }
    }
}

/// `query` with the text key `k` types (character `c`) added.
fn push_typed(query: &mut String, k: &OverlayKey, c: char)
    ensures
        final(query)@ == old(query)@ + typed_text(*k, c),
{
    match &k.generated_text {
        Some(text) => query.append(text.as_str()),
        None => {
            let one = char_string(c);
            query.append(one.as_str());
        },
    }
}

/// `query` without its last character, if it has one.
fn pop_char(query: &mut String)
    ensures
        final(query)@ == (if old(query)@.len() == 0 { old(query)@ } else { old(query)@.drop_last() }),
{
    let n = query.as_str().unicode_len();
    if n > 0 {
        let kept = query.as_str().substring_char(0, n - 1).to_owned();
        *query = kept;
    }
}

/// Applies key `key` to the help overlay, as `help_key_effect` says.
pub fn route_help_key(help: &mut ClientHelpOverlay, key: &OverlayKey) -> (r: OverlayKeyOutcome)
    ensures
        (r, final(help).query@, final(help).search_focused, final(help).scroll) == help_key_effect(
            old(help).query@,
            old(help).search_focused,
            old(help).scroll,
            *key,
        ),
{
    let code = key.code;
    let bare_key = !key.control && !key.alt && !key.super_key && !key.shift && !key.other_modifiers;
    if code == OverlayKeyCode::Esc {
        if help.search_focused {
            help.search_focused = false;
            return OverlayKeyOutcome::Repaint;
        }
        return OverlayKeyOutcome::Close;
    }
    if !help.search_focused && code == OverlayKeyCode::Enter {
        return OverlayKeyOutcome::Close;
    }
    if !help.search_focused && bare_key && code == OverlayKeyCode::Char('/') {
        help.search_focused = true;
        return OverlayKeyOutcome::Repaint;
    }
    if help.search_focused {
        if code == OverlayKeyCode::Char('u') && key.control {
            help.query = String::new();
            help.scroll = 0;
            return OverlayKeyOutcome::Repaint;
        }
        if code == OverlayKeyCode::Backspace {
            pop_char(&mut help.query);
            help.scroll = 0;
            return OverlayKeyOutcome::Repaint;
        }
        if let OverlayKeyCode::Char(c) = code {
            if !key.control && !key.alt && !key.super_key && !key.other_modifiers {
                push_typed(&mut help.query, key, c);
                help.scroll = 0;
                return OverlayKeyOutcome::Repaint;
            }
        }
    }
    let delta: Option<isize> = match code {
        OverlayKeyCode::Up | OverlayKeyCode::Char('k') => Some(-1),
        OverlayKeyCode::Down | OverlayKeyCode::Char('j') => Some(1),
        OverlayKeyCode::PageUp => Some(-10),
        OverlayKeyCode::PageDown => Some(10),
        _ => None,
    };
    match delta {
        Some(d) => {
            help.scroll = if d < 0 {
                help.scroll.saturating_sub((0 - d) as usize)
            } else {
                help.scroll.saturating_add(d as usize)
            };
            OverlayKeyOutcome::Repaint
        },
        None => OverlayKeyOutcome::Ignored,
    }
}

/// `n` and `m` agree but for the query, the filter and the selection.
pub open spec fn same_listing(n: ClientNavigatorOverlay, m: ClientNavigatorOverlay) -> bool {
    &&& m.search_focused == n.search_focused
    &&& m.scroll == n.scroll
    &&& m.expanded_workspaces@ == n.expanded_workspaces@
}

/// The status filter a bare key picks: `b` blocked, `w` working, `i` idle, `d` done.
pub open spec fn filter_key(k: OverlayKey) -> Option<ClientNavigatorFilter> {
    if !bare(k) {
        None
    } else {
        match k.code {
            OverlayKeyCode::Char('b') => Some(ClientNavigatorFilter::Blocked),
            OverlayKeyCode::Char('w') => Some(ClientNavigatorFilter::Working),
            OverlayKeyCode::Char('i') => Some(ClientNavigatorFilter::Idle),
            OverlayKeyCode::Char('d') => Some(ClientNavigatorFilter::Done),
            _ => None,
        }
    }
}

/// How many rows a key moves the selection: in the search field up or ctrl-p
/// one back and down or ctrl-n one on; outside it bare up or `k` one back, bare
/// down or `j` one on, ctrl-u eight back and ctrl-d eight on.
pub open spec fn selection_move(search: bool, k: OverlayKey) -> Option<int> {
    if search {
        if k.code == OverlayKeyCode::Up || (is_char(k, 'p') && k.control) {
            Some(-1)
        } else if k.code == OverlayKeyCode::Down || (is_char(k, 'n') && k.control) {
            Some(1)
        } else {
            None
        }
    } else if bare(k) && (k.code == OverlayKeyCode::Down || is_char(k, 'j')) {
        Some(1)
    } else if bare(k) && (k.code == OverlayKeyCode::Up || is_char(k, 'k')) {
        Some(-1)
    } else if is_char(k, 'd') && k.control {
        Some(8)
    } else if is_char(k, 'u') && k.control {
        Some(-8)
    } else {
        None
    }
}

/// The navigator with the selection moved `d` rows (nothing moves without a snapshot).
pub open spec fn moved_navigator(snapshot: Option<ClientShellSnapshot>, n: ClientNavigatorOverlay, d: int) -> ClientNavigatorOverlay {
    match snapshot {
        Some(s) => ClientNavigatorOverlay {
            selected: moved_selection(n.selected, d as isize, spec_navigator_rows(s, n).len()),
            ..n
        },
        None => n,
    }
}

/// Whether `m` is navigator `n` after the workspace of its selected row was
/// folded or unfolded (nothing changes without a snapshot or off a workspace row).
pub open spec fn toggled_navigator(
    snapshot: Option<ClientShellSnapshot>,
    n: ClientNavigatorOverlay,
    m: ClientNavigatorOverlay,
) -> bool {
    match snapshot {
        Some(s) => match selected_workspace(spec_navigator_rows(s, n), n.selected) {
            Some(id) => {
                &&& names_view(m.expanded_workspaces@) == toggle_name(names_view(n.expanded_workspaces@), id)
                &&& m.selected == 0
                &&& m.scroll == 0
                &&& m.query == n.query
                &&& m.search_focused == n.search_focused
                &&& m.filter == n.filter
            },
            None => m == n,
        },
        None => m == n,
    }
}

/// Whether key `k` takes navigator `n` to `m` with outcome `r`. Esc leaves the
/// search field, or closes the navigator; Enter accepts the selection. In the
/// search field the selection moves, ctrl-u clears the query, backspace deletes
/// a character and a character typed with no modifier but shift is added (each
/// edit dropping the filter and selecting the first row), and any other key only
/// repaints. Outside it, bare keys: backspace drops the filter (selecting the
/// first row when there was one), Home selects the first row and scrolls to the
/// top, End or `G` selects the last, `/` focuses the search field and drops the
/// filter, `b`, `w`, `i`, `d` filter by status and `a` shows all (clearing the
/// query and selecting the first row), space folds or unfolds the selected
/// workspace; the selection moves as `selection_move` says; other keys do nothing.
pub open spec fn navigator_key_effect(
    snapshot: Option<ClientShellSnapshot>,
    n: ClientNavigatorOverlay,
    m: ClientNavigatorOverlay,
    k: OverlayKey,
    r: OverlayKeyOutcome,
) -> bool {
    let edited = |q: Seq<char>, f: Option<ClientNavigatorFilter>|
        r == OverlayKeyOutcome::Repaint && m.query@ == q && m.filter == f && m.selected == 0 && same_listing(n, m);
    if k.code == OverlayKeyCode::Esc {
        if n.search_focused {
            r == OverlayKeyOutcome::Repaint && m == (ClientNavigatorOverlay { search_focused: false, ..n })
        } else {
            r == OverlayKeyOutcome::Close && m == n
        }
    } else if k.code == OverlayKeyCode::Enter {
        r == OverlayKeyOutcome::Accept && m == n
    } else if selection_move(n.search_focused, k) is Some {
        r == OverlayKeyOutcome::Repaint && m == moved_navigator(snapshot, n, selection_move(n.search_focused, k)->0)
    } else if n.search_focused {
        if is_char(k, 'u') && k.control {
            edited(Seq::empty(), None)
        } else if k.code == OverlayKeyCode::Backspace {
            edited(if n.query@.len() == 0 { n.query@ } else { n.query@.drop_last() }, None)
        } else if k.code is Char && typed(k) {
            edited(n.query@ + typed_text(k, k.code->Char_0), None)
        } else {
            r == OverlayKeyOutcome::Repaint && m == n
        }
    } else if k.code == OverlayKeyCode::Backspace && bare(k) {
        r == OverlayKeyOutcome::Repaint && m == (if n.filter is Some {
            ClientNavigatorOverlay { filter: None, selected: 0, ..n }
        } else {
            n
        })
    } else if k.code == OverlayKeyCode::Home && bare(k) {
        r == OverlayKeyOutcome::Repaint && m == (ClientNavigatorOverlay { selected: 0, scroll: 0, ..n })
    } else if (k.code == OverlayKeyCode::End || is_char(k, 'G')) && bare(k) {
        let len = match snapshot {
            Some(s) => spec_navigator_rows(s, n).len() as int,
            None => 0,
        };
        r == OverlayKeyOutcome::Repaint && m == (ClientNavigatorOverlay {
            selected: if len == 0 { 0 } else { (len - 1) as usize },
            ..n
        })
    } else if is_char(k, '/') && bare(k) {
        r == OverlayKeyOutcome::Repaint && m == (ClientNavigatorOverlay { search_focused: true, filter: None, ..n })
    } else if filter_key(k) is Some {
        edited(Seq::empty(), filter_key(k))
    } else if is_char(k, 'a') && bare(k) {
        edited(Seq::empty(), None)
    } else if is_char(k, ' ') && bare(k) {
        r == OverlayKeyOutcome::Repaint && toggled_navigator(snapshot, n, m)
    } else {
        r == OverlayKeyOutcome::Ignored && m == n
    }
}

fn move_selection(snapshot: &Option<ClientShellSnapshot>, navigator: &mut ClientNavigatorOverlay, delta: isize)
    requires
        old(navigator).selected <= isize::MAX - 8,
        -8 <= delta <= 8,
    ensures
        *final(navigator) == moved_navigator(*snapshot, *old(navigator), delta as int),
{
    if let Some(s) = snapshot {
        move_navigator_selection(s, navigator, delta);
    }
}

/// Applies key `key` to the navigator, as `navigator_key_effect` says;
/// `snapshot` is the shell's last snapshot. The selection is a row index, so
/// below `isize::MAX - 8`.
pub fn route_navigator_key(
    snapshot: &Option<ClientShellSnapshot>,
    navigator: &mut ClientNavigatorOverlay,
    key: &OverlayKey,
) -> (r: OverlayKeyOutcome)
    requires
        old(navigator).selected <= isize::MAX - 8,
    ensures
        navigator_key_effect(*snapshot, *old(navigator), *final(navigator), *key, r),
{
    let code = key.code;
    let bare_key = !key.control && !key.alt && !key.super_key && !key.shift && !key.other_modifiers;
    if code == OverlayKeyCode::Esc {
        if navigator.search_focused {
            navigator.search_focused = false;
            return OverlayKeyOutcome::Repaint;
        }
        return OverlayKeyOutcome::Close;
    }
    if code == OverlayKeyCode::Enter {
        return OverlayKeyOutcome::Accept;
    }
    let step: Option<isize> = if navigator.search_focused {
        if code == OverlayKeyCode::Up || (code == OverlayKeyCode::Char('p') && key.control) {
            Some(-1)
        } else if code == OverlayKeyCode::Down || (code == OverlayKeyCode::Char('n') && key.control) {
            Some(1)
        } else {
            None
        }
    } else if bare_key && (code == OverlayKeyCode::Down || code == OverlayKeyCode::Char('j')) {
        Some(1)
    } else if bare_key && (code == OverlayKeyCode::Up || code == OverlayKeyCode::Char('k')) {
        Some(-1)
    } else if code == OverlayKeyCode::Char('d') && key.control {
        Some(8)
    } else if code == OverlayKeyCode::Char('u') && key.control {
        Some(-8)
    } else {
        None
    };
    if let Some(d) = step {
        move_selection(snapshot, navigator, d);
        return OverlayKeyOutcome::Repaint;
    }
    if navigator.search_focused {
        if code == OverlayKeyCode::Char('u') && key.control {
            navigator.query = String::new();
            navigator.filter = None;
            navigator.selected = 0;
        } else if code == OverlayKeyCode::Backspace {
            pop_char(&mut navigator.query);
            navigator.filter = None;
            navigator.selected = 0;
        } else if let OverlayKeyCode::Char(c) = code {
            if !key.control && !key.alt && !key.super_key && !key.other_modifiers {
                navigator.filter = None;
                push_typed(&mut navigator.query, key, c);
                navigator.selected = 0;
            }
        }
        return OverlayKeyOutcome::Repaint;
    }
    if code == OverlayKeyCode::Backspace && bare_key {
        if navigator.filter.is_some() {
            navigator.filter = None;
            navigator.selected = 0;
        }
        return OverlayKeyOutcome::Repaint;
    }
    if code == OverlayKeyCode::Home && bare_key {
        navigator.selected = 0;
        navigator.scroll = 0;
        return OverlayKeyOutcome::Repaint;
    }
    if (code == OverlayKeyCode::End || code == OverlayKeyCode::Char('G')) && bare_key {
        let len: usize = match snapshot {
            Some(s) => client_navigator_rows(s, navigator).len(),
            None => 0,
        };
        navigator.selected = len.saturating_sub(1);
        return OverlayKeyOutcome::Repaint;
    }
    if code == OverlayKeyCode::Char('/') && bare_key {
        navigator.search_focused = true;
        navigator.filter = None;
        return OverlayKeyOutcome::Repaint;
    }
    let filter: Option<ClientNavigatorFilter> = if !bare_key {
        None
    } else {
        match code {
            OverlayKeyCode::Char('b') => Some(ClientNavigatorFilter::Blocked),
            OverlayKeyCode::Char('w') => Some(ClientNavigatorFilter::Working),
            OverlayKeyCode::Char('i') => Some(ClientNavigatorFilter::Idle),
            OverlayKeyCode::Char('d') => Some(ClientNavigatorFilter::Done),
            _ => None,
        }
    };
    if filter.is_some() || (code == OverlayKeyCode::Char('a') && bare_key) {
        navigator.query = String::new();
        navigator.filter = filter;
        navigator.selected = 0;
        return OverlayKeyOutcome::Repaint;
    }
    if code == OverlayKeyCode::Char(' ') && bare_key {
        if let Some(s) = snapshot {
            toggle_selected_navigator_workspace(s, navigator);
        }
        return OverlayKeyOutcome::Repaint;
    }
    OverlayKeyOutcome::Ignored
}


/// The mouse events the overlays tell apart.
#[derive(Clone, Copy, Debug, PartialEq, Eq, Structural)]
pub enum OverlayMouse {
    Moved,
    LeftDown,
    ScrollUp,
    ScrollDown,
    /// Any other event.
    Other,
}

/// What the mouse does to the help overlay: the wheel scrolls a line, a left
/// click on its close or cancel button closes it.
pub open spec fn help_mouse_effect(scroll: usize, event: OverlayMouse, on_button: bool) -> (OverlayKeyOutcome, usize) {
    match event {
        OverlayMouse::ScrollUp => (OverlayKeyOutcome::Repaint, scrolled(scroll, -1)),
        OverlayMouse::ScrollDown => (OverlayKeyOutcome::Repaint, scrolled(scroll, 1)),
        OverlayMouse::LeftDown => if on_button {
            (OverlayKeyOutcome::Close, scroll)
        } else {
            (OverlayKeyOutcome::Ignored, scroll)
        },
        _ => (OverlayKeyOutcome::Ignored, scroll),
    }
}

/// Applies a mouse event at `point` to the help overlay, whose buttons lie at
/// `primary` and `cancel`, as `help_mouse_effect` says.
pub fn route_help_mouse(help: &mut ClientHelpOverlay, event: OverlayMouse, point: (u16, u16), primary: Rect, cancel: Rect) -> (r:
    OverlayKeyOutcome)
    ensures
        (r, final(help).scroll) == help_mouse_effect(
            old(help).scroll,
            event,
            spec_contains(primary, point) || spec_contains(cancel, point),
        ),
        final(help).query == old(help).query,
        final(help).search_focused == old(help).search_focused,
{
    match event {
        OverlayMouse::ScrollUp => {
            help.scroll = help.scroll.saturating_sub(1);
            OverlayKeyOutcome::Repaint
        },
        OverlayMouse::ScrollDown => {
            help.scroll = help.scroll.saturating_add(1);
            OverlayKeyOutcome::Repaint
        },
        OverlayMouse::LeftDown => if contains(primary, point) || contains(cancel, point) {
            OverlayKeyOutcome::Close
        } else {
            OverlayKeyOutcome::Ignored
        },
        _ => OverlayKeyOutcome::Ignored,
    }
}

/// The first drawn navigator row holding `point`: its cells and its index.
pub open spec fn row_hit(rows: Seq<(Rect, usize)>, point: (u16, u16)) -> Option<(Rect, usize)>
    decreases rows.len(),
{
    if rows.len() == 0 {
        None
    } else if spec_contains(rows[0].0, point) {
        Some(rows[0])
    } else {
        row_hit(rows.drop_first(), point)
    }
}

/// Whether row `i` of the navigator `n` lists a workspace.
pub open spec fn workspace_row(snapshot: Option<ClientShellSnapshot>, n: ClientNavigatorOverlay, i: usize) -> bool {
    match snapshot {
        Some(s) => i < spec_navigator_rows(s, n).len() && spec_navigator_rows(s, n)[i as int].target is Workspace,
        None => false,
    }
}

/// Whether a mouse event at `point` takes navigator `n` to `m` with outcome
/// `r`. Moving over a row selects it. A left click on the search field focuses
/// it (dropping the filter); on a row, selects it and then folds or unfolds a
/// workspace row when the click is on its first four columns, or accepts the
/// selection otherwise; outside the popup, closes the navigator. The wheel
/// moves the selection three rows. `rows` are the drawn rows with their
/// indices, `search` the search field and `popup` the navigator's popup.
pub open spec fn navigator_mouse_effect(
    snapshot: Option<ClientShellSnapshot>,
    n: ClientNavigatorOverlay,
    m: ClientNavigatorOverlay,
    event: OverlayMouse,
    point: (u16, u16),
    rows: Seq<(Rect, usize)>,
    search: Rect,
    popup: Rect,
    r: OverlayKeyOutcome,
) -> bool {
    match event {
        OverlayMouse::Moved => match row_hit(rows, point) {
            Some((_, i)) => r == OverlayKeyOutcome::Repaint && m == (ClientNavigatorOverlay { selected: i, ..n }),
            None => r == OverlayKeyOutcome::Ignored && m == n,
        },
        OverlayMouse::LeftDown => if spec_contains(search, point) {
            r == OverlayKeyOutcome::Repaint && m == (ClientNavigatorOverlay { search_focused: true, filter: None, ..n })
        } else {
            match row_hit(rows, point) {
                Some((rect, i)) => {
                    let picked = ClientNavigatorOverlay { selected: i, ..n };
                    if workspace_row(snapshot, picked, i) && point.0 <= sat_add(rect.x, 3) {
                        r == OverlayKeyOutcome::Repaint && toggled_navigator(snapshot, picked, m)
                    } else {
                        r == OverlayKeyOutcome::Accept && m == picked
                    }
                },
                None => if !spec_contains(popup, point) {
                    r == OverlayKeyOutcome::Close && m == n
                } else {
                    r == OverlayKeyOutcome::Ignored && m == n
                },
            }
        },
        OverlayMouse::ScrollUp => r == OverlayKeyOutcome::Repaint && m == moved_navigator(snapshot, n, -3),
        OverlayMouse::ScrollDown => r == OverlayKeyOutcome::Repaint && m == moved_navigator(snapshot, n, 3),
        OverlayMouse::Other => r == OverlayKeyOutcome::Ignored && m == n,
    }
}

fn find_row_hit(rows: &[(Rect, usize)], point: (u16, u16)) -> (r: Option<(Rect, usize)>)
    ensures
        r == row_hit(rows@, point),
{
    let mut k: usize = 0;
    assert(rows@.subrange(0, rows@.len() as int) =~= rows@);
    while k < rows.len()
        invariant
            k <= rows@.len(),
            row_hit(rows@, point) == row_hit(rows@.subrange(k as int, rows@.len() as int), point),
        decreases rows@.len() - k,
    {
        let ghost rest = rows@.subrange(k as int, rows@.len() as int);
        assert(rest.drop_first() =~= rows@.subrange(k + 1, rows@.len() as int));
        assert(rest[0] == rows@[k as int]);
        if contains(rows[k].0, point) {
            return Some(rows[k]);
        }
        k = k + 1;
    }
    None
}

fn is_workspace_row(snapshot: &Option<ClientShellSnapshot>, navigator: &ClientNavigatorOverlay, i: usize) -> (r: bool)
    ensures
        r == workspace_row(*snapshot, *navigator, i),
{
    match snapshot {
        Some(s) => {
            let rows = client_navigator_rows(s, navigator);
            if i < rows.len() {
                proof {
                    assert(crate::navigator::rows_view(rows@)[i as int] == rows@[i as int]@);
                }
                match rows[i].target {
                    ClientNavigatorTarget::Workspace(_) => true,
                    _ => false,
                }
            } else {
                false
            }
        },
        None => false,
    }
}

/// Applies a mouse event at `point` to the navigator, as
/// `navigator_mouse_effect` says. The selection is a row index, so below
/// `isize::MAX - 8`.
pub fn route_navigator_mouse(
    snapshot: &Option<ClientShellSnapshot>,
    navigator: &mut ClientNavigatorOverlay,
    event: OverlayMouse,
    point: (u16, u16),
    rows: &[(Rect, usize)],
    search: Rect,
    popup: Rect,
) -> (r: OverlayKeyOutcome)
    requires
        old(navigator).selected <= isize::MAX - 8,
    ensures
        navigator_mouse_effect(*snapshot, *old(navigator), *final(navigator), event, point, rows@, search, popup, r),
{
    match event {
        OverlayMouse::Moved => match find_row_hit(rows, point) {
            Some((_, i)) => {
                navigator.selected = i;
                OverlayKeyOutcome::Repaint
            },
            None => OverlayKeyOutcome::Ignored,
        },
        OverlayMouse::LeftDown => {
            if contains(search, point) {
                navigator.search_focused = true;
                navigator.filter = None;
                return OverlayKeyOutcome::Repaint;
            }
            match find_row_hit(rows, point) {
                Some((rect, i)) => {
                    navigator.selected = i;
                    if is_workspace_row(snapshot, navigator, i) && point.0 <= rect.x.saturating_add(3) {
                        if let Some(s) = snapshot {
                            toggle_selected_navigator_workspace(s, navigator);
                        }
                        OverlayKeyOutcome::Repaint
                    } else {
                        OverlayKeyOutcome::Accept
                    }
                },
                None => if !contains(popup, point) {
                    OverlayKeyOutcome::Close
                } else {
                    OverlayKeyOutcome::Ignored
                },
            }
        },
        OverlayMouse::ScrollUp => {
            move_selection(snapshot, navigator, -3);
            OverlayKeyOutcome::Repaint
        },
        OverlayMouse::ScrollDown => {
            move_selection(snapshot, navigator, 3);
            OverlayKeyOutcome::Repaint
        },
        OverlayMouse::Other => OverlayKeyOutcome::Ignored,
    }
}


/// What a click does to a dialog: `Save` submits the rename prompt (see
/// `save_rename_overlay`); `CloseWorkspace` closes the confirmation and asks
/// to close the workspace with its group; `Cleared` emptied the prompt's text;
/// `Close` closes the dialog; `Ignored` does nothing.
#[derive(Debug)]
pub enum DialogClick {
    Save,
    CloseWorkspace(String),
    Cleared,
    Close,
    Ignored,
}

/// What a mouse event at `point` does to an open dialog (an overlay other than
/// the help, the navigator, the context menu and the worktree dialogs): only a
/// left click counts. On the primary button it saves a rename prompt or
/// confirms a close (other dialogs ignore it); on the clear button it empties a
/// rename prompt (other dialogs ignore it); anywhere else it closes the dialog.
pub open spec fn dialog_click_effect(
    o: ClientShellOverlay,
    m: ClientShellOverlay,
    event: OverlayMouse,
    on_primary: bool,
    on_clear: bool,
    r: DialogClick,
) -> bool {
    if event != OverlayMouse::LeftDown {
        r is Ignored && m == o
    } else if on_primary {
        match o {
            ClientShellOverlay::Rename(_) => r is Save && m == o,
            ClientShellOverlay::ConfirmClose(c) => r matches DialogClick::CloseWorkspace(w) && w@ == c.workspace_id@
                && m == o,
            _ => r is Ignored && m == o,
        }
    } else if on_clear {
        match o {
            ClientShellOverlay::Rename(p) => {
                &&& r is Cleared
                &&& m matches ClientShellOverlay::Rename(q) && q.input@ == Seq::<char>::empty() && !q.replace_on_type
                    && q.title == p.title && q.target == p.target
            },
            _ => r is Ignored && m == o,
        }
    } else {
        r is Close && m == o
    }
}

/// Applies a mouse event at `point` to an open dialog whose primary and clear
/// buttons lie at `primary` and `clear`, as `dialog_click_effect` says.
pub fn route_dialog_click(
    overlay: &mut ClientShellOverlay,
    event: OverlayMouse,
    point: (u16, u16),
    primary: Rect,
    clear: Rect,
) -> (r: DialogClick)
    ensures
        dialog_click_effect(
            *old(overlay),
            *final(overlay),
            event,
            spec_contains(primary, point),
            spec_contains(clear, point),
            r,
        ),
{
    if event != OverlayMouse::LeftDown {
        return DialogClick::Ignored;
    }
    if contains(primary, point) {
        return match overlay {
            ClientShellOverlay::Rename(_) => DialogClick::Save,
            ClientShellOverlay::ConfirmClose(c) => DialogClick::CloseWorkspace(c.workspace_id.clone()),
            _ => DialogClick::Ignored,
        };
    }
    if contains(clear, point) {
        return match overlay {
            ClientShellOverlay::Rename(p) => {
                p.input = String::new();
                p.replace_on_type = false;
                DialogClick::Cleared
            },
            _ => DialogClick::Ignored,
        };
    }
    DialogClick::Close
}

} // verus!
