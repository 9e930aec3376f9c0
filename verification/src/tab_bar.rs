//! Where the tab bar puts the focused workspace's tabs: each tab as wide as its
//! name plus padding (at least eight columns), the name centred, and room kept at
//! the right for the new-tab button.
use vstd::prelude::*;

use crate::geometry::{min_u16, sat_add, sat_sub, spec_rect, Rect};
use crate::snapshot::{opt_view, ClientShellSnapshot, ClientShellTab};
use crate::text::{concat, space_run, spaces, str_equal};
use crate::width::{display_width, spec_display_width};

verus! {

/// The narrowest a tab is drawn.
pub const MIN_TAB_WIDTH: u16 = 8;
/// The width of the new-tab button.
pub const NEW_TAB_WIDTH: u16 = 3;

/// One tab in the bar.
#[derive(Clone, Debug)]
pub struct TabSlot {
    pub rect: Rect,
    pub tab_id: String,
    /// The name, padded with spaces to the slot's width and centred.
    pub text: String,
}

/// Where the bar's parts go.
#[derive(Clone, Debug)]
pub struct TabBarLayout {
    /// The first tab shown, kept inside the list.
    pub scroll: usize,
    pub tabs: Vec<TabSlot>,
    /// Where the new-tab button goes, when a column is left for it.
    pub new_tab: Option<Rect>,
}

/// The abstract tab slot.
pub ghost struct TabSlotView {
    pub rect: Rect,
    pub tab_id: Seq<char>,
    pub text: Seq<char>,
}

pub open spec fn slot_view(s: TabSlot) -> TabSlotView {
    TabSlotView { rect: s.rect, tab_id: s.tab_id@, text: s.text@ }
}

pub open spec fn slots_view(s: Seq<TabSlot>) -> Seq<TabSlotView> {
    s.map_values(|t: TabSlot| slot_view(t))
}

/// The tabs of the focused workspace among the first `k` tabs, in order.
pub open spec fn focused_tabs_upto(s: ClientShellSnapshot, k: int) -> Seq<ClientShellTab>
    decreases k,
{
    if k <= 0 {
        Seq::empty()
    } else {
        let prev = focused_tabs_upto(s, k - 1);
        if opt_view(s.focused_workspace_id) == Some(s.tabs@[k - 1].workspace_id@) {
            prev.push(s.tabs@[k - 1])
        } else {
            prev
        }
    }
}

pub open spec fn focused_tab_list(s: ClientShellSnapshot) -> Seq<ClientShellTab> {
    focused_tabs_upto(s, s.tabs@.len() as int)
}

/// The name a tab shows: its label, marked when the tab is zoomed.
pub open spec fn tab_name(t: ClientShellTab) -> Seq<char> {
    if t.zoomed {
        t.label@ + " Z"@
    } else {
        t.label@
    }
}

/// The width of tab `t` when its slot starts at column `x` of a bar ending at
/// `right`: its name and four columns of padding, at least [`MIN_TAB_WIDTH`], cut so
/// the new-tab button still fits.
pub open spec fn tab_width(t: ClientShellTab, x: u16, right: u16) -> u16 {
    let desired = {
        let w = sat_add(spec_display_width(tab_name(t)), 4);
        if w > 8 {
            w
        } else {
            8u16
        }
    };
    let remaining = sat_sub(right, x);
    let reserved = min_u16(3, remaining);
    min_u16(desired, sat_sub(remaining, reserved))
}

/// The name of `t` centred in `width` columns.
pub open spec fn tab_text(t: ClientShellTab, width: u16) -> Seq<char> {
    let padding = sat_sub(width, spec_display_width(tab_name(t)));
    let left = padding / 2;
    spaces(left as nat) + tab_name(t) + spaces((padding - left) as nat)
}

/// The slots of `tabs[i..]` starting at column `x`, and the column after the last.
pub open spec fn tab_slots(tabs: Seq<ClientShellTab>, i: int, x: u16, y: u16, right: u16) -> (Seq<TabSlotView>, u16)
    decreases tabs.len() - i,
{
    if i < 0 || i >= tabs.len() {
        (Seq::empty(), x)
    } else {
        let t = tabs[i];
        let w = tab_width(t, x, right);
        if w == 0 {
            (Seq::empty(), x)
        } else {
            let rest = tab_slots(tabs, i + 1, sat_add(x, (w + 1) as u16), y, right);
            (seq![TabSlotView { rect: spec_rect(x, y, w, 1), tab_id: t.tab_id@, text: tab_text(t, w) }] + rest.0, rest.1)
        }
    }
}

/// The first tab shown: the requested one, kept inside the list.
pub open spec fn clamped_scroll(scroll: usize, count: nat) -> usize {
    let last = if count == 0 {
        0
    } else {
        (count - 1) as usize
    };
    if scroll < last {
        scroll
    } else {
        last
    }
}

/// The tab bar in `area` for the focused workspace of `snapshot`, from the tab at
/// `scroll` on.
pub open spec fn spec_tab_bar_layout(area: Rect, snapshot: ClientShellSnapshot, scroll: usize) -> (usize, Seq<
    TabSlotView,
>, Option<Rect>) {
    let tabs = focused_tab_list(snapshot);
    let first = clamped_scroll(scroll, tabs.len());
    let right = area.spec_right();
    let (slots, end) = tab_slots(tabs, first as int, area.x, area.y, right);
    (first, slots, if end < right {
        Some(spec_rect(end, area.y, min_u16(sat_sub(right, end), 3), 1))
    } else {
        None
    })
}

/// The tabs of the focused workspace, in order.
fn focused_tab_refs(s: &ClientShellSnapshot) -> (r: Vec<&ClientShellTab>)
    ensures
        r@.map_values(|t: &ClientShellTab| *t) == focused_tab_list(*s),
{
    let mut out: Vec<&ClientShellTab> = Vec::new();
    let mut i: usize = 0;
    while i < s.tabs.len()
        invariant
            i <= s.tabs@.len(),
            out@.map_values(|t: &ClientShellTab| *t) == focused_tabs_upto(*s, i as int),
        decreases s.tabs@.len() - i,
    {
        let hit = match &s.focused_workspace_id {
            Some(f) => str_equal(f.as_str(), s.tabs[i].workspace_id.as_str()),
            None => false,
        };
        if hit {
            let ghost before = out@;
            out.push(&s.tabs[i]);
            assert(out@.map_values(|t: &ClientShellTab| *t) =~= before.map_values(|t: &ClientShellTab| *t).push(
                s.tabs@[i as int],
            ));
        }
        i = i + 1;
    }
    out
}

proof fn lemma_tab_slots_step(tabs: Seq<ClientShellTab>, i: int, x: u16, y: u16, right: u16)
    requires
        0 <= i < tabs.len(),
        tab_width(tabs[i], x, right) > 0,
    ensures
        ({
            let w = tab_width(tabs[i], x, right);
            let rest = tab_slots(tabs, i + 1, sat_add(x, (w + 1) as u16), y, right);
            tab_slots(tabs, i, x, y, right) == (
                seq![TabSlotView { rect: spec_rect(x, y, w, 1), tab_id: tabs[i].tab_id@, text: tab_text(tabs[i], w) }]
                    + rest.0,
                rest.1,
            )
        }),
{
}

/// Where the tab bar in `area` puts the focused workspace's tabs, from the tab at
/// `tab_scroll` (kept inside the list) on. Each tab gets its name and four columns
/// of padding, at least eight columns, with one column between tabs; the tabs stop
/// where no column is left once three are kept for the new-tab button, which goes
/// after the last tab when a column is left for it.
pub fn tab_bar_layout(area: Rect, snapshot: &ClientShellSnapshot, tab_scroll: usize) -> (r: TabBarLayout)
    ensures
        (r.scroll, slots_view(r.tabs@), r.new_tab) == spec_tab_bar_layout(area, *snapshot, tab_scroll),
{
    let tabs = focused_tab_refs(snapshot);
    let ghost tv = tabs@.map_values(|t: &ClientShellTab| *t);
    let last = if tabs.len() == 0 {
        0
    } else {
        tabs.len() - 1
    };
    let first = if tab_scroll < last {
        tab_scroll
    } else {
        last
    };
    let right = area.right();
    let mut x = area.x;
    let mut i = first;
    let mut slots: Vec<TabSlot> = Vec::new();
    while i < tabs.len()
        invariant
            tv == tabs@.map_values(|t: &ClientShellTab| *t),
            tv == focused_tab_list(*snapshot),
            right == area.spec_right(),
            first <= i || tabs@.len() == 0,
            i <= tabs@.len() || tabs@.len() == 0,
            ({
                let whole = tab_slots(tv, first as int, area.x, area.y, right);
                let rest = tab_slots(tv, i as int, x, area.y, right);
                whole == (slots_view(slots@) + rest.0, rest.1)
            }),
        ensures
            tab_slots(tv, first as int, area.x, area.y, right) == (slots_view(slots@), x),
        decreases tabs@.len() - i,
    {
        let t: &ClientShellTab = tabs[i];
        let name = if t.zoomed {
            concat(t.label.as_str(), " Z")
        } else {
            t.label.clone()
        };
        let name_width = display_width(name.as_str());
        let padded = name_width.saturating_add(4);
        let desired = if padded > MIN_TAB_WIDTH {
            padded
        } else {
            MIN_TAB_WIDTH
        };
        let remaining = right.saturating_sub(x);
        let reserved = if NEW_TAB_WIDTH < remaining {
            NEW_TAB_WIDTH
        } else {
            remaining
        };
        let room = remaining.saturating_sub(reserved);
        let width = if desired < room {
            desired
        } else {
            room
        };
        assert(width == tab_width(tv[i as int], x, right));
        if width == 0 {
            assert(slots_view(slots@) + Seq::<TabSlotView>::empty() =~= slots_view(slots@));
            break;
        }
        proof {
            lemma_tab_slots_step(tv, i as int, x, area.y, right);
        }
        let padding = width.saturating_sub(name_width);
        let left = padding / 2;
        let text = concat(concat(space_run(left as usize).as_str(), name.as_str()).as_str(), space_run((padding - left) as usize).as_str());
        let slot = TabSlot { rect: Rect::new(x, area.y, width, 1), tab_id: t.tab_id.clone(), text };
        assert(slot_view(slot) == TabSlotView {
            rect: spec_rect(x, area.y, width, 1),
            tab_id: tv[i as int].tab_id@,
            text: tab_text(tv[i as int], width),
        });
        let ghost before = slots@;
        slots.push(slot);
        assert(slots_view(slots@) =~= slots_view(before).push(slot_view(slot)));
        x = x.saturating_add(width + 1);
        i = i + 1;
    }
    let new_tab = if x < right {
        let w = right.saturating_sub(x);
        Some(Rect::new(x, area.y, if w < NEW_TAB_WIDTH {
            w
        } else {
            NEW_TAB_WIDTH
        }, 1))
    } else {
        None
    };
    TabBarLayout { scroll: first, tabs: slots, new_tab }
}

/// The tab slots stay in the bar and leave the new-tab button its room: each
/// lies between its start column and the bar's right edge less the button, and
/// each next slot starts past the end of the one before.
pub proof fn lemma_tab_slots_in_bar(tabs: Seq<ClientShellTab>, i: int, x: u16, y: u16, right: u16)
    requires
        x <= right,
    ensures
        ({
            let (slots, end) = tab_slots(tabs, i, x, y, right);
            &&& forall|k: int|
                0 <= k < slots.len() ==> {
                    &&& (#[trigger] slots[k]).rect.x >= x
                    &&& slots[k].rect.x + slots[k].rect.width + min_u16(3, sat_sub(right, slots[k].rect.x)) <= right
                    &&& slots[k].rect.width > 0
                }
            &&& forall|k: int|
                0 <= k < slots.len() - 1 ==> (#[trigger] slots[k]).rect.x + slots[k].rect.width < slots[k + 1].rect.x
            &&& end >= x
        }),
    decreases tabs.len() - i,
{
    if 0 <= i < tabs.len() {
        let w = tab_width(tabs[i], x, right);
        if w > 0 {
            let nx = sat_add(x, (w + 1) as u16);
            if nx <= right {
                lemma_tab_slots_in_bar(tabs, i + 1, nx, y, right);
            } else {
                lemma_tab_slots_past_right(tabs, i + 1, nx, y, right);
            }
            let (rest, _) = tab_slots(tabs, i + 1, nx, y, right);
            let (slots, _) = tab_slots(tabs, i, x, y, right);
            assert forall|k: int| 0 < k < slots.len() implies slots[k] == rest[k - 1] by {}
        }
    }
}

proof fn lemma_tab_slots_past_right(tabs: Seq<ClientShellTab>, i: int, x: u16, y: u16, right: u16)
    requires
        x > right,
    ensures
        tab_slots(tabs, i, x, y, right).0.len() == 0,
        tab_slots(tabs, i, x, y, right).1 == x,
{
}

} // verus!
