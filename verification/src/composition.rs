//! Where the panes of the endpoint's pane surface land on the client's screen:
//! the hit map the shell builds when it composes a frame.
use vstd::prelude::*;

use crate::copy_mode::PaneHit;
use crate::geometry::{sat_add, spec_rect, Rect};
use crate::topology::{PaneSurfaceFrame, PaneSurfacePane};

verus! {

/// `r` moved by the origin of `area`, each coordinate saturating, its extent
/// kept on the screen.
pub open spec fn placed(area: Rect, r: Rect) -> Rect {
    spec_rect(sat_add(area.x, r.x), sat_add(area.y, r.y), r.width, r.height)
}

/// Whether `h` is the hit of surface pane `p` drawn in `area`: its rectangles
/// placed in `area`, its id and mouse modes those of `p`, no scroll known.
pub open spec fn hit_of(area: Rect, p: PaneSurfacePane, h: PaneHit) -> bool {
    &&& h.rect == placed(area, p.rect)
    &&& h.inner_rect == placed(area, p.inner_rect)
    &&& h.pane_id@ == p.pane_id@
    &&& h.mouse_reporting == p.mouse_reporting
    &&& h.sgr_pixel_mouse == p.sgr_pixel_mouse
    &&& h.pixel_width == p.pixel_width
    &&& h.pixel_height == p.pixel_height
    &&& h.scroll is None
}

fn place(area: Rect, r: Rect) -> (p: Rect)
    ensures
        p == placed(area, r),
{
    Rect::new(area.x.saturating_add(r.x), area.y.saturating_add(r.y), r.width, r.height)
}

/// The hit map of `surface` drawn in `area`, one hit per surface pane in order;
/// `None` when the surface belongs to another snapshot revision than
/// `snapshot_revision`, as the shell then composes no frame.
pub fn pane_hits(snapshot_revision: u64, surface: &PaneSurfaceFrame, area: Rect) -> (r: Option<Vec<PaneHit>>)
    ensures
        match r {
            None => snapshot_revision != surface.projection_revision,
            Some(hits) => snapshot_revision == surface.projection_revision && hits@.len() == surface.panes@.len()
                && forall|k: int| 0 <= k < hits@.len() ==> hit_of(area, surface.panes@[k], #[trigger] hits@[k]),
        },
{
    if snapshot_revision != surface.projection_revision {
        return None;
    }
    let mut hits: Vec<PaneHit> = Vec::new();
    let mut k: usize = 0;
    while k < surface.panes.len()
        invariant
            k <= surface.panes@.len(),
            hits@.len() == k,
            forall|j: int| 0 <= j < k ==> hit_of(area, surface.panes@[j], #[trigger] hits@[j]),
        decreases surface.panes@.len() - k,
    {
        let p = &surface.panes[k];
        hits.push(
            PaneHit {
                rect: place(area, p.rect),
                inner_rect: place(area, p.inner_rect),
                pane_id: p.pane_id.clone(),
                mouse_reporting: p.mouse_reporting,
                sgr_pixel_mouse: p.sgr_pixel_mouse,
                pixel_width: p.pixel_width,
                pixel_height: p.pixel_height,
                scroll: None,
            },
        );
        k = k + 1;
    }
    Some(hits)
}

} // verus!
