//! What a scroll from an attached client does to the terminal it shows.
use vstd::prelude::*;

verus! {

/// Which way a scroll goes.
#[derive(Clone, Copy, Debug, PartialEq, Eq, Structural)]
pub enum AttachScrollDirection {
    Up,
    Down,
}

/// Where the terminal's program wants wheel events to go.
#[derive(Clone, Copy, Debug, PartialEq, Eq, Structural)]
pub enum WheelRouting {
    /// Reported to the program as mouse events.
    MouseReport,
    /// Sent to the program as cursor keys (alternate scroll mode).
    AlternateScroll,
    /// Scroll the terminal's own scrollback.
    HostScroll,
}

/// What the terminal does with one scroll.
#[derive(Clone, Copy, Debug, PartialEq, Eq, Structural)]
pub enum ScrollAction {
    /// Scroll the terminal's scrollback by `lines`.
    HostScroll { direction: AttachScrollDirection, lines: usize },
    /// Forward the page key's own input to the program.
    ForwardInput,
    /// Leave the scrollback and report the wheel as a mouse event.
    ReportWheel,
    /// Leave the scrollback and send the wheel as alternate-scroll keys.
    AlternateScroll,
}

/// At least one line.
pub open spec fn at_least_one(lines: u16) -> usize {
    if lines == 0 {
        1
    } else {
        lines as usize
    }
}

/// What a scroll does. A page key scrolls the scrollback when the terminal says
/// plain page keys use it, and is otherwise forwarded as input. A wheel follows
/// the terminal's wheel routing, and scrolls the scrollback when there is none.
/// A scrollback scroll moves at least one line.
pub open spec fn spec_apply_scroll(
    page_key: bool,
    direction: AttachScrollDirection,
    lines: u16,
    page_keys_use_host_scrollback: Option<bool>,
    wheel_routing: Option<WheelRouting>,
) -> ScrollAction {
    let host = ScrollAction::HostScroll { direction, lines: at_least_one(lines) };
    if page_key {
        if page_keys_use_host_scrollback == Some(true) {
            host
        } else {
            ScrollAction::ForwardInput
        }
    } else {
        match wheel_routing {
            Some(WheelRouting::MouseReport) => ScrollAction::ReportWheel,
            Some(WheelRouting::AlternateScroll) => ScrollAction::AlternateScroll,
            _ => host,
        }
    }
}

/// What a scroll of `lines` lines in `direction` does: `page_key` tells a page
/// key from a wheel, `page_keys_use_host_scrollback` and `wheel_routing` are
/// what the terminal reports (none when it does not say).
pub fn apply_scroll(
    page_key: bool,
    direction: AttachScrollDirection,
    lines: u16,
    page_keys_use_host_scrollback: Option<bool>,
    wheel_routing: Option<WheelRouting>,
) -> (r: ScrollAction)
    ensures
        r == spec_apply_scroll(
            page_key,
            direction,
            lines,
            page_keys_use_host_scrollback,
            wheel_routing,
        ),
{
    let host = ScrollAction::HostScroll {
        direction,
        lines: if lines == 0 {
            1
        } else {
            lines as usize
        },
    };
    if page_key {
        let host_scroll = match page_keys_use_host_scrollback {
            Some(b) => b,
            None => false,
        };
        if host_scroll {
            return host;
        }
        return ScrollAction::ForwardInput;
    }
    match wheel_routing {
        Some(WheelRouting::MouseReport) => ScrollAction::ReportWheel,
        Some(WheelRouting::AlternateScroll) => ScrollAction::AlternateScroll,
        Some(WheelRouting::HostScroll) | None => host,
    }
}

/// A scroll never moves the scrollback by zero lines.
pub proof fn lemma_host_scroll_moves(
    page_key: bool,
    direction: AttachScrollDirection,
    lines: u16,
    page_keys_use_host_scrollback: Option<bool>,
    wheel_routing: Option<WheelRouting>,
)
    ensures
        spec_apply_scroll(
            page_key,
            direction,
            lines,
            page_keys_use_host_scrollback,
            wheel_routing,
        ) matches ScrollAction::HostScroll { lines: n, .. } ==> n >= 1 && n >= lines,
{
}

/// A scroll of the scrollback goes the way it was asked to go, and the same
/// scroll asked the other way goes the other way: flipping the direction of a
/// request flips the direction of the scrollback scroll it makes, and changes
/// nothing else.
pub proof fn lemma_host_scroll_follows_direction(
    page_key: bool,
    direction: AttachScrollDirection,
    lines: u16,
    page_keys_use_host_scrollback: Option<bool>,
    wheel_routing: Option<WheelRouting>,
)
    ensures
        spec_apply_scroll(
            page_key,
            direction,
            lines,
            page_keys_use_host_scrollback,
            wheel_routing,
        ) matches ScrollAction::HostScroll { direction: d, .. } ==> d == direction,
        ({
            let other = match direction {
                AttachScrollDirection::Up => AttachScrollDirection::Down,
                AttachScrollDirection::Down => AttachScrollDirection::Up,
            };
            let a = spec_apply_scroll(page_key, direction, lines, page_keys_use_host_scrollback, wheel_routing);
            let b = spec_apply_scroll(page_key, other, lines, page_keys_use_host_scrollback, wheel_routing);
            match a {
                ScrollAction::HostScroll { lines: n, .. } => b == ScrollAction::HostScroll { direction: other, lines: n },
                _ => b == a,
            }
        }),
{
}

} // verus!
