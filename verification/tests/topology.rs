use herdr::geometry::Rect;
use herdr::topology::{
    pane_surface_topology_signature, PaneSurfaceFrame, PaneSurfacePane, PaneSurfaceSplit,
    PaneSurfaceSplitDirection, FNV_OFFSET, FNV_PRIME,
};

fn pane(id: &str) -> PaneSurfacePane {
    PaneSurfacePane {
        pane_id: id.into(),
        rect: Rect::new(0, 0, 10, 10),
        inner_rect: Rect::new(1, 1, 8, 8),
        scrollbar_rect: None,
        focused: false,
        mouse_reporting: false,
        sgr_pixel_mouse: false,
        pixel_width: 0,
        pixel_height: 0,
    }
}

fn split(direction: PaneSurfaceSplitDirection, path: &[bool]) -> PaneSurfaceSplit {
    PaneSurfaceSplit { direction, path: path.to_vec() }
}

fn frame(panes: &[&str], splits: Vec<PaneSurfaceSplit>) -> PaneSurfaceFrame {
    PaneSurfaceFrame {
        projection_revision: 3,
        panes: panes.iter().map(|id| pane(id)).collect(),
        splits,
    }
}

fn write(hash: &mut u64, bytes: &[u8]) {
    for byte in bytes {
        *hash ^= u64::from(*byte);
        *hash = hash.wrapping_mul(FNV_PRIME);
    }
    *hash ^= 0xff;
    *hash = hash.wrapping_mul(FNV_PRIME);
}

#[test]
fn an_empty_surface_signs_with_the_offset_basis() {
    assert_eq!(pane_surface_topology_signature(&frame(&[], Vec::new())), FNV_OFFSET);
    assert_eq!(FNV_OFFSET, 0xcbf2_9ce4_8422_2325);
}

#[test]
fn signature_hashes_sorted_ids_then_splits_by_path() {
    let f = frame(
        &["w1:p2", "w1:p1"],
        vec![
            split(PaneSurfaceSplitDirection::Vertical, &[true]),
            split(PaneSurfaceSplitDirection::Horizontal, &[]),
        ],
    );
    let mut expected = FNV_OFFSET;
    write(&mut expected, b"w1:p1");
    write(&mut expected, b"w1:p2");
    write(&mut expected, &[0]);
    write(&mut expected, &[]);
    write(&mut expected, &[1]);
    write(&mut expected, &[1]);
    assert_eq!(pane_surface_topology_signature(&f), expected);
}

#[test]
fn listing_order_does_not_change_the_signature() {
    let a = frame(
        &["b", "a", "ab"],
        vec![
            split(PaneSurfaceSplitDirection::Horizontal, &[false, true]),
            split(PaneSurfaceSplitDirection::Vertical, &[false]),
        ],
    );
    let b = frame(
        &["ab", "b", "a"],
        vec![
            split(PaneSurfaceSplitDirection::Vertical, &[false]),
            split(PaneSurfaceSplitDirection::Horizontal, &[false, true]),
        ],
    );
    assert_eq!(pane_surface_topology_signature(&a), pane_surface_topology_signature(&b));
}

#[test]
fn a_different_topology_changes_the_signature() {
    let a = frame(&["a", "b"], vec![split(PaneSurfaceSplitDirection::Vertical, &[])]);
    let b = frame(&["a", "b"], vec![split(PaneSurfaceSplitDirection::Horizontal, &[])]);
    let c = frame(&["a", "c"], vec![split(PaneSurfaceSplitDirection::Vertical, &[])]);
    assert_ne!(pane_surface_topology_signature(&a), pane_surface_topology_signature(&b));
    assert_ne!(pane_surface_topology_signature(&a), pane_surface_topology_signature(&c));
}

use herdr::composition::pane_hits;

#[test]
fn pane_hits_place_the_surface_in_its_area_for_the_current_revision() {
    let surface = frame(&["w1:p1", "w1:p2"], Vec::new());
    assert!(pane_hits(4, &surface, Rect::new(20, 1, 60, 20)).is_none());
    let hits = pane_hits(3, &surface, Rect::new(20, 1, 60, 20)).unwrap();
    assert_eq!(hits.len(), 2);
    assert_eq!(hits[1].pane_id, "w1:p2");
    assert_eq!(hits[0].rect, Rect::new(20, 1, 10, 10));
    assert_eq!(hits[0].inner_rect, Rect::new(21, 2, 8, 8));
    let edge = pane_hits(3, &surface, Rect::new(65_530, 0, 5, 5)).unwrap();
    assert_eq!(edge[0].rect, Rect::new(65_530, 0, 5, 10));
    assert_eq!(edge[0].inner_rect.x, 65_531);
}
