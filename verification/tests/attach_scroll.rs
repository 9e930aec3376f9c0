use herdr::attach_scroll::{apply_scroll, AttachScrollDirection, ScrollAction, WheelRouting};

#[test]
fn page_keys_scroll_the_scrollback_only_when_the_terminal_says_so() {
    assert_eq!(
        apply_scroll(true, AttachScrollDirection::Up, 5, Some(true), None),
        ScrollAction::HostScroll { direction: AttachScrollDirection::Up, lines: 5 }
    );
    assert_eq!(
        apply_scroll(true, AttachScrollDirection::Up, 5, Some(false), Some(WheelRouting::HostScroll)),
        ScrollAction::ForwardInput
    );
    assert_eq!(apply_scroll(true, AttachScrollDirection::Down, 5, None, None), ScrollAction::ForwardInput);
}

#[test]
fn wheel_follows_the_terminal_routing() {
    let d = AttachScrollDirection::Down;
    assert_eq!(apply_scroll(false, d, 3, Some(true), Some(WheelRouting::MouseReport)), ScrollAction::ReportWheel);
    assert_eq!(apply_scroll(false, d, 3, None, Some(WheelRouting::AlternateScroll)), ScrollAction::AlternateScroll);
    assert_eq!(
        apply_scroll(false, d, 3, None, Some(WheelRouting::HostScroll)),
        ScrollAction::HostScroll { direction: d, lines: 3 }
    );
    assert_eq!(apply_scroll(false, d, 3, None, None), ScrollAction::HostScroll { direction: d, lines: 3 });
}

#[test]
fn scrollback_scroll_moves_at_least_one_line() {
    assert_eq!(
        apply_scroll(false, AttachScrollDirection::Up, 0, None, None),
        ScrollAction::HostScroll { direction: AttachScrollDirection::Up, lines: 1 }
    );
}
