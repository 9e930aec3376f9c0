//! Where the navigator overlay draws: its panel, the search line, the scrolled
//! window of rows with their tree glyphs, the detail of the selected row and the
//! key hints.
use vstd::prelude::*;

use crate::geometry::{min_u16, panel_inner, sat_add, sat_sub, spec_rect, Rect};
use crate::navigator::{client_navigator_rows, rows_view, spec_navigator_rows, ClientNavigatorRow, ClientNavigatorTarget, NavigatorRowView, NavigatorTargetView};
use crate::overlay::{ClientNavigatorFilter, ClientNavigatorOverlay};
use crate::snapshot::ClientShellSnapshot;
use crate::status::{spec_status_icon, status_dot, StatusIndicatorStyle};
use crate::text::{concat, decimal, decimal_string, names_contain, names_view};
use crate::width::{display_width, spec_display_width};

verus! {

/// One visible row of the navigator.
#[derive(Clone, Debug)]
pub struct NavigatorRowLayout {
    pub rect: Rect,
    /// The row's position among all rows.
    pub index: usize,
    pub selected: bool,
    pub current: bool,
    /// The marker, tree glyph, status dot and label.
    pub text: String,
    /// Where the meta text goes, flush right after the label, when there is any.
    pub meta: Option<Rect>,
}

/// Where the navigator overlay's parts go.
#[derive(Clone, Debug)]
pub struct NavigatorOverlayLayout {
    pub popup: Rect,
    /// Inside the border.
    pub inner: Rect,
    pub search_text: String,
    pub panes_text: String,
    pub body: Rect,
    pub scroll: usize,
    pub rows: Vec<NavigatorRowLayout>,
    /// The selected row's label and meta, on the second row from the bottom.
    pub detail: Option<String>,
    pub hint: String,
    /// The column of the search cursor, while the search line has focus.
    pub cursor_x: Option<u32>,
}

/// The abstract visible row.
pub ghost struct NavigatorRowLayoutView {
    pub rect: Rect,
    pub index: usize,
    pub selected: bool,
    pub current: bool,
    pub text: Seq<char>,
    pub meta: Option<Rect>,
}

pub open spec fn layout_rows_view(rows: Seq<NavigatorRowLayout>) -> Seq<NavigatorRowLayoutView> {
    rows.map_values(
        |r: NavigatorRowLayout|
            NavigatorRowLayoutView {
                rect: r.rect,
                index: r.index,
                selected: r.selected,
                current: r.current,
                text: r.text@,
                meta: r.meta,
            },
    )
}

/// The popup of the navigator in `area`: a sixteenth of the width (two columns at
/// least) and a tenth of the height (one row at least) of margin, four by four
/// cells at least.
pub open spec fn navigator_popup(area: Rect) -> Rect {
    let mx: u16 = if area.width / 16 > 2 { (area.width / 16) as u16 } else { 2 };
    let my: u16 = if area.height / 10 > 1 { (area.height / 10) as u16 } else { 1 };
    let w = sat_sub(area.width, (mx * 2) as u16);
    let h = sat_sub(area.height, (my * 2) as u16);
    spec_rect((area.x + mx) as u16, (area.y + my) as u16, if w > 4 { w } else { 4 }, if h > 4 { h } else { 4 })
}

/// The search line: the query while it is being typed, else the status filter,
/// else the query, else a prompt.
pub open spec fn search_text(n: ClientNavigatorOverlay) -> Seq<char> {
    if n.search_focused {
        " / "@ + n.query@
    } else {
        match n.filter {
            Some(ClientNavigatorFilter::Blocked) => " / blocked"@,
            Some(ClientNavigatorFilter::Working) => " / working"@,
            Some(ClientNavigatorFilter::Idle) => " / idle"@,
            Some(ClientNavigatorFilter::Done) => " / done"@,
            None => if n.query@.len() == 0 {
                " / search panes"@
            } else {
                " / "@ + n.query@
            },
        }
    }
}

/// The first row shown: the requested scroll, moved so the selected row is in view
/// and no space is left below the last row.
pub open spec fn navigator_scroll(requested: usize, selected: usize, rows: nat, height: u16) -> usize {
    let reach = if selected > sat_sub(height, 1) { selected - sat_sub(height, 1) } else { 0 };
    let a: int = if requested > reach { requested as int } else { reach };
    let b: int = if a < selected { a } else { selected as int };
    let max: int = if rows > height { rows - height } else { 0 };
    (if b < max { b } else { max }) as usize
}

/// The tree glyph of a row: a workspace shows whether it is expanded.
pub open spec fn tree_glyph(n: ClientNavigatorOverlay, r: NavigatorRowView) -> Seq<char> {
    if r.depth == 0 {
        match r.target {
            NavigatorTargetView::Workspace(id) => if names_view(n.expanded_workspaces@).contains(id) {
                "\u{25be}"@
            } else {
                "\u{25b8}"@
            },
            _ => "\u{25b8}"@,
        }
    } else if r.depth == 1 {
        "\u{2514}\u{2500}\u{2500}"@
    } else {
        "   \u{2514}\u{2500}\u{2500}"@
    }
}

/// The text of a row: the current-row marker, the tree glyph, the status dot and
/// the label.
pub open spec fn row_text(n: ClientNavigatorOverlay, r: NavigatorRowView) -> Seq<char> {
    " "@ + (if r.current { "\u{25c6}"@ } else { " "@ }) + " "@ + tree_glyph(n, r) + " "@ + spec_status_icon(
        r.status,
        StatusIndicatorStyle::Dots,
        None,
    ) + " "@ + r.label
}

/// Visible row `vis` of the window starting at `scroll`.
pub open spec fn visible_row(
    n: ClientNavigatorOverlay,
    rows: Seq<NavigatorRowView>,
    body: Rect,
    scroll: usize,
    vis: int,
) -> NavigatorRowLayoutView {
    let ix = scroll + vis;
    let r = rows[ix];
    let rect = spec_rect(body.x, (body.y + vis) as u16, body.width, 1);
    let text = row_text(n, r);
    let lw = min_u16(spec_display_width(text), rect.width);
    NavigatorRowLayoutView {
        rect,
        index: ix as usize,
        selected: ix == n.selected,
        current: r.current,
        text,
        meta: if r.meta.len() == 0 {
            None
        } else {
            Some(spec_rect(sat_add(rect.x, sat_add(lw, 1)), rect.y, sat_sub(rect.width, sat_add(lw, 1)), 1))
        },
    }
}

/// How many rows are visible.
pub open spec fn visible_count(rows: nat, scroll: usize, height: u16) -> nat {
    let left: int = rows - scroll;
    if left <= 0 {
        0
    } else if left < height {
        left as nat
    } else {
        height as nat
    }
}

/// The key hints of the navigator.
pub open spec fn hint_text(search_focused: bool) -> Seq<char> {
    if search_focused {
        " search type \u{00b7} move \u{2191}\u{2193}/ctrl+n/p \u{00b7} open enter \u{00b7} back esc"@
    } else {
        " move j/k \u{00b7} expand space \u{00b7} filter a/b/w/i/d \u{00b7} search / \u{00b7} open enter \u{00b7} close esc"@
    }
}

/// Whether the navigator's layout stays inside `u16` in `area`.
pub open spec fn navigator_fits(area: Rect) -> bool {
    let mx: u16 = if area.width / 16 > 2 { (area.width / 16) as u16 } else { 2 };
    let my: u16 = if area.height / 10 > 1 { (area.height / 10) as u16 } else { 1 };
    &&& area.x + mx <= u16::MAX
    &&& area.y + my <= u16::MAX
    &&& (panel_inner(navigator_popup(area)) matches Some(i) ==> i.y + 2 <= u16::MAX)
}

/// What the navigator overlay's layout holds, for `area`, `n` and `s`, when the
/// panel has an inside `inner`.
pub open spec fn navigator_layout_holds(
    l: NavigatorOverlayLayout,
    area: Rect,
    n: ClientNavigatorOverlay,
    s: ClientShellSnapshot,
    inner: Rect,
) -> bool {
    let rows = spec_navigator_rows(s, n);
    let body = spec_rect(inner.x, (inner.y + 2) as u16, inner.width, sat_sub(inner.height, 4));
    let scroll = navigator_scroll(n.scroll, n.selected, rows.len(), body.height);
    &&& l.popup == navigator_popup(area)
    &&& l.inner == inner
    &&& l.search_text@ == search_text(n)
    &&& l.panes_text@ == decimal(s.panes@.len()) + " panes"@
    &&& l.body == body
    &&& l.scroll == scroll
    &&& l.rows@.len() == visible_count(rows.len(), scroll, body.height)
    &&& forall|v: int| 0 <= v < l.rows@.len() ==> layout_rows_view(l.rows@)[v] == visible_row(n, rows, body, scroll, v)
    &&& l.detail.is_some() == (n.selected < rows.len())
    &&& (n.selected < rows.len() ==> l.detail.unwrap()@ == " "@ + rows[n.selected as int].label + " \u{00b7} "@
        + rows[n.selected as int].meta)
    &&& l.hint@ == hint_text(n.search_focused)
    &&& l.cursor_x == if n.search_focused {
        Some((inner.x + 3 + spec_display_width(n.query@)) as u32)
    } else {
        None
    }
}

fn tree_glyph_of(n: &ClientNavigatorOverlay, r: &ClientNavigatorRow) -> (g: &'static str)
    ensures
        g@ == tree_glyph(*n, r@),
{
    if r.depth == 0 {
        match &r.target {
            ClientNavigatorTarget::Workspace(id) => {
                if names_contain(n.expanded_workspaces.as_slice(), id.as_str()) {
                    "\u{25be}"
                } else {
                    "\u{25b8}"
                }
            },
            _ => "\u{25b8}",
        }
    } else if r.depth == 1 {
        "\u{2514}\u{2500}\u{2500}"
    } else {
        "   \u{2514}\u{2500}\u{2500}"
    }
}

fn make_search_text(n: &ClientNavigatorOverlay) -> (t: String)
    ensures
        t@ == search_text(*n),
{
    if n.search_focused {
        concat(" / ", n.query.as_str())
    } else {
        match n.filter {
            Some(ClientNavigatorFilter::Blocked) => " / blocked".to_owned(),
            Some(ClientNavigatorFilter::Working) => " / working".to_owned(),
            Some(ClientNavigatorFilter::Idle) => " / idle".to_owned(),
            Some(ClientNavigatorFilter::Done) => " / done".to_owned(),
            None => {
                if n.query.as_str().unicode_len() == 0 {
                    " / search panes".to_owned()
                } else {
                    concat(" / ", n.query.as_str())
                }
            },
        }
    }
}

fn make_row_text(n: &ClientNavigatorOverlay, r: &ClientNavigatorRow) -> (t: String)
    ensures
        t@ == row_text(*n, r@),
{
    let marker = if r.current { "\u{25c6}" } else { " " };
    let t1 = concat(" ", marker);
    let t2 = concat(t1.as_str(), " ");
    let t3 = concat(t2.as_str(), tree_glyph_of(n, r));
    let t4 = concat(t3.as_str(), " ");
    let t5 = concat(t4.as_str(), status_dot(r.status));
    let t6 = concat(t5.as_str(), " ");
    concat(t6.as_str(), r.label.as_str())
}

fn make_visible_row(
    n: &ClientNavigatorOverlay,
    rows: &Vec<ClientNavigatorRow>,
    body: Rect,
    scroll: usize,
    v: usize,
) -> (row: NavigatorRowLayout)
    requires
        scroll + v < rows@.len(),
        v < body.height,
        body.y + body.height <= u16::MAX,
    ensures
        (NavigatorRowLayoutView {
            rect: row.rect,
            index: row.index,
            selected: row.selected,
            current: row.current,
            text: row.text@,
            meta: row.meta,
        }) == visible_row(*n, rows_view(rows@), body, scroll, v as int),
{
    let len = rows.len();
    let ix = scroll + v;
    assert(ix < len);
    let r = &rows[ix];
    assert(rows_view(rows@)[ix as int] == r@);
    let rect = Rect::new(body.x, body.y + v as u16, body.width, 1);
    let text = make_row_text(n, r);
    let tw = display_width(text.as_str());
    let lw = if tw < rect.width { tw } else { rect.width };
    let meta = if r.meta.as_str().unicode_len() == 0 {
        None
    } else {
        Some(Rect::new(rect.x.saturating_add(lw.saturating_add(1)), rect.y, rect.width.saturating_sub(lw.saturating_add(1)), 1))
    };
    NavigatorRowLayout { rect, index: ix, selected: ix == n.selected, current: r.current, text, meta }
}

fn make_visible_rows(
    n: &ClientNavigatorOverlay,
    rows: &Vec<ClientNavigatorRow>,
    body: Rect,
    scroll: usize,
    count: usize,
) -> (r: Vec<NavigatorRowLayout>)
    requires
        scroll + count <= rows@.len(),
        count <= body.height,
        body.y + body.height <= u16::MAX,
    ensures
        r@.len() == count,
        forall|q: int| 0 <= q < count ==> layout_rows_view(r@)[q] == visible_row(*n, rows_view(rows@), body, scroll, q),
{
    let mut visible: Vec<NavigatorRowLayout> = Vec::new();
    let mut v: usize = 0;
    while v < count
        invariant
            scroll + count <= rows@.len(),
            count <= body.height,
            body.y + body.height <= u16::MAX,
            v <= count,
            visible@.len() == v,
            forall|q: int| 0 <= q < v ==> layout_rows_view(visible@)[q] == visible_row(*n, rows_view(rows@), body, scroll, q),
        decreases count - v,
    {
        let row = make_visible_row(n, rows, body, scroll, v);
        let ghost before = visible@;
        visible.push(row);
        assert forall|q: int| 0 <= q < v + 1 implies layout_rows_view(visible@)[q] == visible_row(
            *n,
            rows_view(rows@),
            body,
            scroll,
            q,
        ) by {
            if q < v {
                assert(visible@[q] == before[q]);
                assert(layout_rows_view(before)[q] == visible_row(*n, rows_view(rows@), body, scroll, q));
            }
        }
        v = v + 1;
    }
    visible
}

fn make_detail(n: &ClientNavigatorOverlay, rows: &Vec<ClientNavigatorRow>) -> (d: Option<String>)
    ensures
        d.is_some() == (n.selected < rows@.len()),
        n.selected < rows@.len() ==> d.unwrap()@ == " "@ + rows_view(rows@)[n.selected as int].label + " \u{00b7} "@
            + rows_view(rows@)[n.selected as int].meta,
{
    if n.selected < rows.len() {
        let r = &rows[n.selected];
        assert(rows_view(rows@)[n.selected as int] == r@);
        let d1 = concat(" ", r.label.as_str());
        let d2 = concat(d1.as_str(), " \u{00b7} ");
        Some(concat(d2.as_str(), r.meta.as_str()))
    } else {
        None
    }
}

/// The navigator overlay in `area`: `None` when the panel has no inside. The
/// panel keeps a margin of a sixteenth of the width and a tenth of the height; its
/// first row holds the search line and the pane count, its second a rule, then the
/// window of rows (scrolled so the selected row is in view), the selected row's
/// detail on the second row from the bottom and the key hints on the last.
pub fn navigator_overlay_layout(area: Rect, navigator: &ClientNavigatorOverlay, snapshot: &ClientShellSnapshot) -> (r: Option<
    NavigatorOverlayLayout,
>)
    requires
        navigator_fits(area),
    ensures
        match panel_inner(navigator_popup(area)) {
            None => r is None,
            Some(inner) => r matches Some(l) && navigator_layout_holds(l, area, *navigator, *snapshot, inner),
        },
{
    let mx = if area.width / 16 > 2 { area.width / 16 } else { 2 };
    let my = if area.height / 10 > 1 { area.height / 10 } else { 1 };
    let w = area.width.saturating_sub(mx * 2);
    let h = area.height.saturating_sub(my * 2);
    let popup = Rect::new(area.x + mx, area.y + my, if w > 4 { w } else { 4 }, if h > 4 { h } else { 4 });
    if popup.width < 2 || popup.height < 2 {
        return None;
    }
    let inner = Rect::new(popup.x + 1, popup.y + 1, popup.width - 2, popup.height - 2);
    let rows = client_navigator_rows(snapshot, navigator);
    let search = make_search_text(navigator);
    let panes_text = concat(decimal_string(snapshot.panes.len()).as_str(), " panes");
    let body = Rect::new(inner.x, inner.y + 2, inner.width, inner.height.saturating_sub(4));
    let height = body.height as usize;
    let max = rows.len().saturating_sub(height);
    let reach = navigator.selected.saturating_sub(body.height.saturating_sub(1) as usize);
    let a = if navigator.scroll > reach { navigator.scroll } else { reach };
    let b = if a < navigator.selected { a } else { navigator.selected };
    let scroll = if b < max { b } else { max };
    let left = rows.len() - scroll;
    let count = if left < height { left } else { height };
    let visible = make_visible_rows(navigator, &rows, body, scroll, count);
    let detail = make_detail(navigator, &rows);
    let hint = if navigator.search_focused {
        " search type \u{00b7} move \u{2191}\u{2193}/ctrl+n/p \u{00b7} open enter \u{00b7} back esc".to_owned()
    } else {
        " move j/k \u{00b7} expand space \u{00b7} filter a/b/w/i/d \u{00b7} search / \u{00b7} open enter \u{00b7} close esc".to_owned()
    };
    let cursor_x = if navigator.search_focused {
        Some(inner.x as u32 + 3 + display_width(navigator.query.as_str()) as u32)
    } else {
        None
    };
    Some(
        NavigatorOverlayLayout {
            popup,
            inner,
            search_text: search,
            panes_text,
            body,
            scroll,
            rows: visible,
            detail,
            hint,
            cursor_x,
        },
    )
}

} // verus!
