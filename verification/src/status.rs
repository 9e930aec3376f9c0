//! How an agent's state is shown: its status glyph, the WAITING and STALE states
//! that pane tokens report, the spinner frames, and the status order.
use vstd::prelude::*;

use crate::text::str_equal;
use crate::width::{display_width, spec_display_width};

verus! {

/// What a coding agent in a pane is doing.
#[derive(Clone, Copy, Debug, PartialEq, Eq, Hash, Structural)]
pub enum AgentStatus {
    Idle,
    Working,
    Blocked,
    Done,
    Unknown,
}

/// The glyph set the status indicators use.
#[derive(Clone, Copy, Debug, PartialEq, Eq, Structural)]
pub enum StatusIndicatorStyle {
    Dots,
    Symbols,
}

/// What one row shows: an agent status, or the WAITING / STALE state that pane
/// tokens report while the agent itself only shows an idle prompt.
#[derive(Clone, Copy, Debug, PartialEq, Eq, Structural)]
pub enum DisplayState {
    Status(AgentStatus),
    Waiting,
    Stale,
}

/// The clock an animated glyph advances on.
#[derive(Clone, Copy, Debug, PartialEq, Eq, Structural)]
pub enum SpinnerClock {
    Working,
    Waiting,
}

/// The milliseconds one Working spinner frame lasts.
pub const WORKING_SPINNER_FRAME_PERIOD_MS: u128 = 200;
/// The milliseconds one Waiting frame lasts: the hourglass turns over five times
/// slower than the Working spinner.
pub const WAITING_SPINNER_FRAME_PERIOD_MS: u128 = 1000;
/// The token that reports background work pending behind an idle prompt.
pub const WAIT_TOKEN: &'static str = "wait";
/// The token that reports that the pending background work was lost.
pub const STALE_TOKEN: &'static str = "stale";
/// The number of frames of the dots Working spinner.
pub const DOTS_WORKING_FRAME_COUNT: usize = 10;
/// The number of frames of the symbols Working spinner.
pub const SYMBOLS_WORKING_FRAME_COUNT: usize = 4;
/// The number of frames of the Waiting hourglass.
pub const WAITING_FRAME_COUNT: usize = 2;

/// Frame `i` of the dots Working spinner: the braille block.
pub open spec fn dots_working_frame_text(i: int) -> Seq<char> {
    if i == 0 { "\u{280b}"@ }
    else if i == 1 { "\u{2819}"@ }
    else if i == 2 { "\u{2839}"@ }
    else if i == 3 { "\u{2838}"@ }
    else if i == 4 { "\u{283c}"@ }
    else if i == 5 { "\u{2834}"@ }
    else if i == 6 { "\u{2826}"@ }
    else if i == 7 { "\u{2827}"@ }
    else if i == 8 { "\u{2807}"@ }
    else { "\u{280f}"@ }
}

/// Frame `i` of the symbols Working spinner: the quarter-circle rotation, whose
/// first frame is the static symbols Working glyph.
pub open spec fn symbols_working_frame_text(i: int) -> Seq<char> {
    if i == 0 { "\u{25d0}"@ }
    else if i == 1 { "\u{25d3}"@ }
    else if i == 2 { "\u{25d1}"@ }
    else { "\u{25d2}"@ }
}

/// Frame `i` of the Waiting hourglass: black, then white. Frame 0 is the static
/// Waiting glyph and the only Stale glyph.
pub open spec fn waiting_frame_text(i: int) -> Seq<char> {
    if i == 0 { "\u{29d7}"@ } else { "\u{29d6}"@ }
}

/// Frame `i` of the dots Working spinner, for `i` below its frame count.
pub fn dots_working_frame(i: usize) -> (r: &'static str)
    requires
        i < DOTS_WORKING_FRAME_COUNT,
    ensures
        r@ == dots_working_frame_text(i as int),
{
    if i == 0 { "\u{280b}" }
    else if i == 1 { "\u{2819}" }
    else if i == 2 { "\u{2839}" }
    else if i == 3 { "\u{2838}" }
    else if i == 4 { "\u{283c}" }
    else if i == 5 { "\u{2834}" }
    else if i == 6 { "\u{2826}" }
    else if i == 7 { "\u{2827}" }
    else if i == 8 { "\u{2807}" }
    else { "\u{280f}" }
}

/// Frame `i` of the symbols Working spinner, for `i` below its frame count.
pub fn symbols_working_frame(i: usize) -> (r: &'static str)
    requires
        i < SYMBOLS_WORKING_FRAME_COUNT,
    ensures
        r@ == symbols_working_frame_text(i as int),
{
    if i == 0 { "\u{25d0}" }
    else if i == 1 { "\u{25d3}" }
    else if i == 2 { "\u{25d1}" }
    else { "\u{25d2}" }
}

/// Frame `i` of the Waiting hourglass, for `i` below its frame count.
pub fn waiting_frame(i: usize) -> (r: &'static str)
    requires
        i < WAITING_FRAME_COUNT,
    ensures
        r@ == waiting_frame_text(i as int),
{
    if i == 0 { "\u{29d7}" } else { "\u{29d6}" }
}

/// The Working spinner frame shown `elapsed_ms` milliseconds after the epoch: it
/// advances once per period.
pub fn spinner_frame_at(elapsed_ms: u128) -> (r: usize)
    ensures
        r == (elapsed_ms / WORKING_SPINNER_FRAME_PERIOD_MS) as usize,
{
    (elapsed_ms / WORKING_SPINNER_FRAME_PERIOD_MS) as usize
}

/// The Waiting frame shown `elapsed_ms` milliseconds after the epoch.
pub fn waiting_frame_at(elapsed_ms: u128) -> (r: usize)
    ensures
        r == (elapsed_ms / WAITING_SPINNER_FRAME_PERIOD_MS) as usize,
{
    (elapsed_ms / WAITING_SPINNER_FRAME_PERIOD_MS) as usize
}

/// Which statuses the WAITING / STALE tokens may override: a pane that already
/// reads as busy keeps its own glyph.
pub open spec fn overridable(status: AgentStatus) -> bool {
    status == AgentStatus::Idle || status == AgentStatus::Done
}

/// Whether `tokens` hold a non-empty value under `key`.
pub open spec fn has_token(tokens: Seq<(Seq<char>, Seq<char>)>, key: Seq<char>) -> bool {
    exists|i: int| 0 <= i < tokens.len() && (#[trigger] tokens[i]).0 == key && tokens[i].1.len() > 0
}

/// The display state of a row whose agent has `status` and whose pane reported
/// `tokens`: only Idle and Done are overridden, a cleared (empty) token counts as
/// absent, and `stale` beats `wait`.
pub open spec fn spec_display_state(
    status: AgentStatus,
    tokens: Seq<(Seq<char>, Seq<char>)>,
    waiting_indicator: bool,
) -> DisplayState {
    if !waiting_indicator || !overridable(status) {
        DisplayState::Status(status)
    } else if has_token(tokens, STALE_TOKEN@) {
        DisplayState::Stale
    } else if has_token(tokens, WAIT_TOKEN@) {
        DisplayState::Waiting
    } else {
        DisplayState::Status(status)
    }
}

/// The characters of the key-value pairs `pairs`.
pub open spec fn pair_views(pairs: Seq<(&str, &str)>) -> Seq<(Seq<char>, Seq<char>)> {
    pairs.map_values(|p: (&str, &str)| (p.0@, p.1@))
}

/// The characters of the key-value tokens `tokens`.
pub open spec fn token_views(tokens: Seq<(String, String)>) -> Seq<(Seq<char>, Seq<char>)> {
    tokens.map_values(|p: (String, String)| (p.0@, p.1@))
}

/// Whether the tokens may override `status`.
pub fn display_state_overridable(status: AgentStatus) -> (r: bool)
    ensures
        r == overridable(status),
{
    match status {
        AgentStatus::Idle | AgentStatus::Done => true,
        _ => false,
    }
}

/// The display state of a row that speaks for `tokens`: one pane's own tokens, or
/// the tokens of every agent a rollup row aggregates.
pub fn display_state_of(status: AgentStatus, tokens: &[(&str, &str)], waiting_indicator: bool) -> (r: DisplayState)
    ensures
        r == spec_display_state(status, pair_views(tokens@), waiting_indicator),
{
    let ghost views = pair_views(tokens@);
    if !waiting_indicator || !display_state_overridable(status) {
        return DisplayState::Status(status);
    }
    let mut waiting = false;
    let mut i: usize = 0;
    while i < tokens.len()
        invariant
            i <= tokens@.len(),
            views == pair_views(tokens@),
            views.len() == tokens@.len(),
            waiting_indicator && overridable(status),
            forall|k: int| 0 <= k < i ==> !((#[trigger] views[k]).0 == STALE_TOKEN@ && views[k].1.len() > 0),
            waiting == exists|k: int| 0 <= k < i && (#[trigger] views[k]).0 == WAIT_TOKEN@ && views[k].1.len() > 0,
        decreases tokens@.len() - i,
    {
        let (key, value) = tokens[i];
        assert(views[i as int] == (key@, value@));
        if value.is_empty() {
            i = i + 1;
            continue;
        }
        if str_equal(key, STALE_TOKEN) {
            assert(views[i as int].0 == STALE_TOKEN@ && views[i as int].1.len() > 0);
            return DisplayState::Stale;
        }
        if str_equal(key, WAIT_TOKEN) {
            waiting = true;
        }
        i = i + 1;
    }
    if waiting {
        DisplayState::Waiting
    } else {
        DisplayState::Status(status)
    }
}

/// The key-value pairs of `tokens`, borrowed.
pub fn token_pairs(tokens: &[(String, String)]) -> (r: Vec<(&str, &str)>)
    ensures
        pair_views(r@) == token_views(tokens@),
{
    let mut out: Vec<(&str, &str)> = Vec::new();
    let mut i: usize = 0;
    while i < tokens.len()
        invariant
            i <= tokens@.len(),
            out@.len() == i,
            forall|k: int| 0 <= k < i ==> (#[trigger] out@[k]).0@ == tokens@[k].0@ && out@[k].1@ == tokens@[k].1@,
        decreases tokens@.len() - i,
    {
        out.push((tokens[i].0.as_str(), tokens[i].1.as_str()));
        i = i + 1;
    }
    assert(pair_views(out@) =~= token_views(tokens@));
    out
}

/// [`display_state_of`] for the reported tokens of one pane or workspace.
pub fn display_state(status: AgentStatus, tokens: &[(String, String)], waiting_indicator: bool) -> (r: DisplayState)
    ensures
        r == spec_display_state(status, token_views(tokens@), waiting_indicator),
{
    let pairs = token_pairs(tokens);
    display_state_of(status, pairs.as_slice(), waiting_indicator)
}

/// The glyph of `status` in `style`. `frame` animates the Working glyph, wrapping
/// around its frame set; `None` keeps the static glyph, and every other status is
/// static regardless.
pub open spec fn spec_status_icon(
    status: AgentStatus,
    style: StatusIndicatorStyle,
    frame: Option<usize>,
) -> Seq<char> {
    if status == AgentStatus::Working && frame is Some {
        match style {
            StatusIndicatorStyle::Dots => dots_working_frame_text((frame->0 % DOTS_WORKING_FRAME_COUNT) as int),
            StatusIndicatorStyle::Symbols => symbols_working_frame_text(
                (frame->0 % SYMBOLS_WORKING_FRAME_COUNT) as int,
            ),
        }
    } else {
        match (style, status) {
            (StatusIndicatorStyle::Dots, AgentStatus::Working) => "\u{25cf}"@,
            (StatusIndicatorStyle::Dots, AgentStatus::Blocked) => "\u{25cf}"@,
            (StatusIndicatorStyle::Dots, AgentStatus::Done) => "\u{25cf}"@,
            (StatusIndicatorStyle::Dots, AgentStatus::Idle) => "\u{25cb}"@,
            (StatusIndicatorStyle::Dots, AgentStatus::Unknown) => "\u{00b7}"@,
            (StatusIndicatorStyle::Symbols, AgentStatus::Blocked) => "\u{00d7}"@,
            (StatusIndicatorStyle::Symbols, AgentStatus::Working) => "\u{25d0}"@,
            (StatusIndicatorStyle::Symbols, AgentStatus::Done) => "\u{2713}"@,
            (StatusIndicatorStyle::Symbols, AgentStatus::Idle) => "\u{25cb}"@,
            (StatusIndicatorStyle::Symbols, AgentStatus::Unknown) => "\u{00b7}"@,
        }
    }
}

/// The glyph of `status` in `style`; `frame` animates only the Working glyph.
pub fn status_icon(status: AgentStatus, style: StatusIndicatorStyle, frame: Option<usize>) -> (r: &'static str)
    ensures
        r@ == spec_status_icon(status, style, frame),
{
    if let AgentStatus::Working = status {
        if let Some(frame) = frame {
            return match style {
                StatusIndicatorStyle::Dots => dots_working_frame(frame % DOTS_WORKING_FRAME_COUNT),
                StatusIndicatorStyle::Symbols => symbols_working_frame(frame % SYMBOLS_WORKING_FRAME_COUNT),
            };
        }
    }
    match (style, status) {
        (StatusIndicatorStyle::Dots, AgentStatus::Working) => "\u{25cf}",
        (StatusIndicatorStyle::Dots, AgentStatus::Blocked) => "\u{25cf}",
        (StatusIndicatorStyle::Dots, AgentStatus::Done) => "\u{25cf}",
        (StatusIndicatorStyle::Dots, AgentStatus::Idle) => "\u{25cb}",
        (StatusIndicatorStyle::Dots, AgentStatus::Unknown) => "\u{00b7}",
        (StatusIndicatorStyle::Symbols, AgentStatus::Blocked) => "\u{00d7}",
        (StatusIndicatorStyle::Symbols, AgentStatus::Working) => "\u{25d0}",
        (StatusIndicatorStyle::Symbols, AgentStatus::Done) => "\u{2713}",
        (StatusIndicatorStyle::Symbols, AgentStatus::Idle) => "\u{25cb}",
        (StatusIndicatorStyle::Symbols, AgentStatus::Unknown) => "\u{00b7}",
    }
}

/// The glyph for a display state. `frame` animates the Working and Waiting glyphs;
/// `None` keeps their static frame, and Stale is static regardless.
pub open spec fn spec_display_state_icon(
    display: DisplayState,
    style: StatusIndicatorStyle,
    frame: Option<usize>,
) -> Seq<char> {
    match display {
        DisplayState::Status(status) => spec_status_icon(status, style, frame),
        DisplayState::Waiting => waiting_frame_text(
            match frame {
                Some(f) => (f % WAITING_FRAME_COUNT) as int,
                None => 0,
            },
        ),
        DisplayState::Stale => waiting_frame_text(0),
    }
}

/// The glyph for a display state.
pub fn display_state_icon(display: DisplayState, style: StatusIndicatorStyle, frame: Option<usize>) -> (r: &'static str)
    ensures
        r@ == spec_display_state_icon(display, style, frame),
{
    match display {
        DisplayState::Status(status) => status_icon(status, style, frame),
        DisplayState::Waiting => waiting_frame(
            match frame {
                Some(f) => f % WAITING_FRAME_COUNT,
                None => 0,
            },
        ),
        DisplayState::Stale => waiting_frame(0),
    }
}

/// Whether text that reached `written` columns covered a glyph `icon` that sits
/// `lead` columns into it.
pub open spec fn spec_icon_reached_frame(written: u16, lead: u16, icon: Seq<char>) -> bool {
    written >= if lead + spec_display_width(icon) > u16::MAX { u16::MAX as int } else {
        lead + spec_display_width(icon)
    }
}

/// Whether a `put_text` that wrote `written` columns reached the state icon, which
/// sits `lead` columns into the text that call was given: a row too narrow for the
/// glyph animates nothing.
pub fn icon_reached_frame(written: u16, lead: u16, icon: &str) -> (r: bool)
    ensures
        r == spec_icon_reached_frame(written, lead, icon@),
{
    written >= lead.saturating_add(display_width(icon))
}

/// Whether any state icon of a laid-out token row survives the clip: `columns` are
/// where the glyphs were placed, `max_width` the width the row renders into. A
/// column past `u16::MAX` counts as `u16::MAX`.
pub fn token_row_icon_reached_frame(columns: &[usize], icon: &str, max_width: u16) -> (r: bool)
    ensures
        r == exists|i: int|
            0 <= i < columns@.len() && spec_icon_reached_frame(
                max_width,
                if columns@[i] > u16::MAX { u16::MAX } else { columns@[i] as u16 },
                icon@,
            ),
{
    let mut i: usize = 0;
    while i < columns.len()
        invariant
            i <= columns@.len(),
            forall|k: int|
                0 <= k < i ==> !spec_icon_reached_frame(
                    max_width,
                    if #[trigger] columns@[k] > u16::MAX { u16::MAX } else { columns@[k] as u16 },
                    icon@,
                ),
        decreases columns@.len() - i,
    {
        let column = columns[i];
        let lead: u16 = if column > u16::MAX as usize { u16::MAX } else { column as u16 };
        if icon_reached_frame(max_width, lead, icon) {
            return true;
        }
        i = i + 1;
    }
    false
}

/// The dots glyph of `status`, never animated.
pub fn status_dot(status: AgentStatus) -> (r: &'static str)
    ensures
        r@ == spec_status_icon(status, StatusIndicatorStyle::Dots, None),
{
    status_icon(status, StatusIndicatorStyle::Dots, None)
}

/// How urgently `status` asks for attention: Blocked over Done over Working over
/// Idle over Unknown.
pub open spec fn spec_status_priority(status: AgentStatus) -> u8 {
    match status {
        AgentStatus::Blocked => 4,
        AgentStatus::Done => 3,
        AgentStatus::Working => 2,
        AgentStatus::Idle => 1,
        AgentStatus::Unknown => 0,
    }
}

/// The attention rank of `status`.
pub fn status_priority(status: AgentStatus) -> (r: u8)
    ensures
        r == spec_status_priority(status),
{
    match status {
        AgentStatus::Blocked => 4,
        AgentStatus::Done => 3,
        AgentStatus::Working => 2,
        AgentStatus::Idle => 1,
        AgentStatus::Unknown => 0,
    }
}

/// The word for `status`.
pub open spec fn spec_status_text(status: AgentStatus) -> Seq<char> {
    match status {
        AgentStatus::Working => "working"@,
        AgentStatus::Blocked => "blocked"@,
        AgentStatus::Done => "done"@,
        AgentStatus::Idle => "idle"@,
        AgentStatus::Unknown => "unknown"@,
    }
}

/// The word for `status`.
pub fn status_text(status: AgentStatus) -> (r: &'static str)
    ensures
        r@ == spec_status_text(status),
{
    match status {
        AgentStatus::Working => "working",
        AgentStatus::Blocked => "blocked",
        AgentStatus::Done => "done",
        AgentStatus::Idle => "idle",
        AgentStatus::Unknown => "unknown",
    }
}

/// Only the Working glyph animates: every other status shows its static glyph
/// whatever frame is asked for.
pub proof fn lemma_only_working_animates(status: AgentStatus, style: StatusIndicatorStyle, frame: usize)
    requires
        status != AgentStatus::Working,
    ensures
        spec_status_icon(status, style, Some(frame)) == spec_status_icon(status, style, None),
{
}

/// The Working spinners wrap around: frame `f` and frame `f` plus the spinner's
/// frame count show the same glyph.
pub proof fn lemma_working_spinner_wraps(frame: usize)
    requires
        frame + DOTS_WORKING_FRAME_COUNT <= usize::MAX,
    ensures
        spec_status_icon(AgentStatus::Working, StatusIndicatorStyle::Dots, Some(frame)) == spec_status_icon(
            AgentStatus::Working,
            StatusIndicatorStyle::Dots,
            Some((frame + DOTS_WORKING_FRAME_COUNT) as usize),
        ),
        spec_status_icon(AgentStatus::Working, StatusIndicatorStyle::Symbols, Some(frame)) == spec_status_icon(
            AgentStatus::Working,
            StatusIndicatorStyle::Symbols,
            Some((frame + SYMBOLS_WORKING_FRAME_COUNT) as usize),
        ),
{
    let f = frame as int;
    assert((f + 10) % 10 == f % 10);
    assert((f + 4) % 4 == f % 4);
}

/// The first frame of the symbols Working spinner is the static symbols Working
/// glyph, so starting the animation does not change what is shown.
pub proof fn lemma_symbols_spinner_starts_static()
    ensures
        spec_status_icon(AgentStatus::Working, StatusIndicatorStyle::Symbols, Some(0)) == spec_status_icon(
            AgentStatus::Working,
            StatusIndicatorStyle::Symbols,
            None,
        ),
{
}

/// Stale never animates: it always shows the static Waiting glyph.
pub proof fn lemma_stale_is_static(style: StatusIndicatorStyle, frame: Option<usize>)
    ensures
        spec_display_state_icon(DisplayState::Stale, style, frame) == spec_display_state_icon(
            DisplayState::Waiting,
            style,
            None,
        ),
{
}

/// A row whose agent reads as busy (Working, Blocked, Unknown) keeps its own
/// status whatever its tokens report.
pub proof fn lemma_busy_status_kept(
    status: AgentStatus,
    tokens: Seq<(Seq<char>, Seq<char>)>,
    waiting_indicator: bool,
)
    requires
        !overridable(status),
    ensures
        spec_display_state(status, tokens, waiting_indicator) == DisplayState::Status(status),
{
}

/// The STALE token beats the WAIT token on a row the tokens may override.
pub proof fn lemma_stale_beats_wait(status: AgentStatus, tokens: Seq<(Seq<char>, Seq<char>)>)
    requires
        overridable(status),
        has_token(tokens, STALE_TOKEN@),
    ensures
        spec_display_state(status, tokens, true) == DisplayState::Stale,
{
}

/// With the waiting indicator off, the tokens change nothing.
pub proof fn lemma_indicator_off_ignores_tokens(status: AgentStatus, tokens: Seq<(Seq<char>, Seq<char>)>)
    ensures
        spec_display_state(status, tokens, false) == DisplayState::Status(status),
{
}

} // verus!
