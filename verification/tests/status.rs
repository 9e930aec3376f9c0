use herdr::status::{
    display_state, display_state_icon, display_state_of, display_state_overridable, dots_working_frame,
    icon_reached_frame, spinner_frame_at, status_dot, status_icon, status_priority, status_text,
    symbols_working_frame, token_pairs, token_row_icon_reached_frame, waiting_frame_at, AgentStatus,
    DisplayState, StatusIndicatorStyle, DOTS_WORKING_FRAME_COUNT, SYMBOLS_WORKING_FRAME_COUNT,
    WAITING_SPINNER_FRAME_PERIOD_MS, WORKING_SPINNER_FRAME_PERIOD_MS,
};

fn pairs(tokens: &[(&str, &str)]) -> Vec<(String, String)> {
    tokens
        .iter()
        .map(|(key, value)| ((*key).to_owned(), (*value).to_owned()))
        .collect()
}

fn dots_frames() -> Vec<&'static str> {
    (0..DOTS_WORKING_FRAME_COUNT).map(dots_working_frame).collect()
}

fn symbols_frames() -> Vec<&'static str> {
    (0..SYMBOLS_WORKING_FRAME_COUNT).map(symbols_working_frame).collect()
}

#[test]
fn display_state_follows_the_tokens_only_for_idle_and_done() {
    let wait = [("wait", "\u{29d7} mon 1 8m")];
    let stale = [("stale", "STALE: monitor expired")];
    let both = [("wait", "\u{29d7} sh 2"), ("stale", "STALE 45m: shell ended, no wake")];

    for status in [AgentStatus::Idle, AgentStatus::Done] {
        assert_eq!(display_state(status, &pairs(&wait), true), DisplayState::Waiting);
        assert_eq!(display_state(status, &pairs(&stale), true), DisplayState::Stale);
        assert_eq!(display_state(status, &pairs(&both), true), DisplayState::Stale);
        assert_eq!(
            display_state(status, &pairs(&[("wait", "")]), true),
            DisplayState::Status(status)
        );
        assert_eq!(
            display_state(status, &pairs(&[("stale", "")]), true),
            DisplayState::Status(status)
        );
        assert_eq!(display_state(status, &[], true), DisplayState::Status(status));
        assert_eq!(
            display_state(status, &pairs(&wait), false),
            DisplayState::Status(status)
        );
    }

    for status in [AgentStatus::Working, AgentStatus::Blocked, AgentStatus::Unknown] {
        assert_eq!(
            display_state(status, &pairs(&wait), true),
            DisplayState::Status(status)
        );
        assert_eq!(
            display_state(status, &pairs(&stale), true),
            DisplayState::Status(status)
        );
    }
}

#[test]
fn status_icon_animates_only_working() {
    for style in [StatusIndicatorStyle::Dots, StatusIndicatorStyle::Symbols] {
        assert_ne!(
            status_icon(AgentStatus::Working, style, Some(0)),
            status_icon(AgentStatus::Working, style, Some(1)),
        );
        for status in [AgentStatus::Blocked, AgentStatus::Done, AgentStatus::Idle, AgentStatus::Unknown] {
            assert_eq!(status_icon(status, style, Some(0)), status_icon(status, style, Some(1)));
            assert_eq!(status_icon(status, style, Some(3)), status_icon(status, style, None));
        }
    }
}

#[test]
fn status_icon_frames_match_the_configured_sets_and_wrap() {
    let dots = dots_frames();
    let symbols = symbols_frames();
    for (frame, glyph) in dots.iter().enumerate() {
        assert_eq!(
            status_icon(AgentStatus::Working, StatusIndicatorStyle::Dots, Some(frame)),
            *glyph
        );
    }
    for (frame, glyph) in symbols.iter().enumerate() {
        assert_eq!(
            status_icon(AgentStatus::Working, StatusIndicatorStyle::Symbols, Some(frame)),
            *glyph
        );
    }
    assert_eq!(
        status_icon(AgentStatus::Working, StatusIndicatorStyle::Dots, Some(dots.len())),
        dots[0]
    );
    assert_eq!(
        status_icon(AgentStatus::Working, StatusIndicatorStyle::Symbols, Some(symbols.len() + 1)),
        symbols[1]
    );
}

#[test]
fn static_working_glyphs_are_unchanged_without_a_frame() {
    assert_eq!(
        status_icon(AgentStatus::Working, StatusIndicatorStyle::Dots, None),
        "\u{25cf}"
    );
    assert_eq!(
        status_icon(AgentStatus::Working, StatusIndicatorStyle::Symbols, None),
        "\u{25d0}"
    );
    assert_eq!(status_dot(AgentStatus::Working), "\u{25cf}");
}

#[test]
fn spinner_frame_advances_once_per_period() {
    assert_eq!(spinner_frame_at(0), 0);
    assert_eq!(spinner_frame_at(WORKING_SPINNER_FRAME_PERIOD_MS - 1), 0);
    assert_eq!(spinner_frame_at(WORKING_SPINNER_FRAME_PERIOD_MS), 1);
    assert_eq!(spinner_frame_at(WORKING_SPINNER_FRAME_PERIOD_MS * 7), 7);
}

#[test]
fn the_waiting_frame_turns_over_once_a_second() {
    assert_eq!(waiting_frame_at(0), 0);
    assert_eq!(waiting_frame_at(WAITING_SPINNER_FRAME_PERIOD_MS - 1), 0);
    assert_eq!(waiting_frame_at(WAITING_SPINNER_FRAME_PERIOD_MS), 1);
    assert_eq!(waiting_frame_at(999_999), 999);
}

#[test]
fn waiting_and_stale_show_the_hourglass() {
    for style in [StatusIndicatorStyle::Dots, StatusIndicatorStyle::Symbols] {
        assert_eq!(display_state_icon(DisplayState::Waiting, style, None), "\u{29d7}");
        assert_eq!(display_state_icon(DisplayState::Waiting, style, Some(1)), "\u{29d6}");
        assert_eq!(display_state_icon(DisplayState::Waiting, style, Some(2)), "\u{29d7}");
        assert_eq!(display_state_icon(DisplayState::Stale, style, Some(1)), "\u{29d7}");
        assert_eq!(
            display_state_icon(DisplayState::Status(AgentStatus::Idle), style, Some(1)),
            "\u{25cb}"
        );
    }
}

#[test]
fn the_symbols_glyphs_are_distinct_per_status() {
    assert_eq!(status_icon(AgentStatus::Blocked, StatusIndicatorStyle::Symbols, None), "\u{00d7}");
    assert_eq!(status_icon(AgentStatus::Done, StatusIndicatorStyle::Symbols, None), "\u{2713}");
    assert_eq!(status_icon(AgentStatus::Idle, StatusIndicatorStyle::Dots, None), "\u{25cb}");
    assert_eq!(status_icon(AgentStatus::Unknown, StatusIndicatorStyle::Dots, None), "\u{00b7}");
}

#[test]
fn status_priority_orders_attention() {
    assert_eq!(status_priority(AgentStatus::Blocked), 4);
    assert_eq!(status_priority(AgentStatus::Done), 3);
    assert_eq!(status_priority(AgentStatus::Working), 2);
    assert_eq!(status_priority(AgentStatus::Idle), 1);
    assert_eq!(status_priority(AgentStatus::Unknown), 0);
    assert_eq!(status_text(AgentStatus::Blocked), "blocked");
    assert_eq!(status_text(AgentStatus::Unknown), "unknown");
}

#[test]
fn overridable_statuses_are_idle_and_done() {
    assert!(display_state_overridable(AgentStatus::Idle));
    assert!(display_state_overridable(AgentStatus::Done));
    assert!(!display_state_overridable(AgentStatus::Working));
    assert!(!display_state_overridable(AgentStatus::Blocked));
    assert!(!display_state_overridable(AgentStatus::Unknown));
}

#[test]
fn display_state_of_reads_borrowed_pairs() {
    let tokens = pairs(&[("other", "x"), ("wait", "1")]);
    let borrowed = token_pairs(&tokens);
    assert_eq!(borrowed, vec![("other", "x"), ("wait", "1")]);
    assert_eq!(
        display_state_of(AgentStatus::Idle, &borrowed, true),
        DisplayState::Waiting
    );
}

#[test]
fn an_icon_counts_as_drawn_only_when_its_columns_were_written() {
    assert!(icon_reached_frame(3, 2, "\u{25cf}"));
    assert!(!icon_reached_frame(2, 2, "\u{25cf}"));
    assert!(icon_reached_frame(4, 2, "\u{4e2d}"));
    assert!(!icon_reached_frame(3, 2, "\u{4e2d}"));
    assert!(token_row_icon_reached_frame(&[40, 1], "\u{25cf}", 5));
    assert!(!token_row_icon_reached_frame(&[40, 70_000], "\u{25cf}", 5));
    assert!(!token_row_icon_reached_frame(&[], "\u{25cf}", 5));
}
