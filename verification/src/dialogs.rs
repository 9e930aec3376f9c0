//! Where the small dialogs draw: the close confirmation and the rename prompt,
//! each a bordered popup with a row of buttons.
use vstd::prelude::*;

use crate::geometry::{panel_inner, popup, popup_shown, popup_width, popup_height, row, row_button, row_fits, spec_popup, spec_rect, Rect};
use crate::input::ClientRenameOverlay;
use crate::overlay::ClientConfirmCloseOverlay;
use crate::text::concat;
use crate::width::{display_width, spec_display_width};

verus! {

/// Whether a popup of `w` by `h` in `area` stays inside `u16`.
pub open spec fn popup_fits(area: Rect, w: u16, h: u16) -> bool {
    popup_shown(area, w, h) ==> area.x + (area.width - popup_width(area, w)) / 2 <= u16::MAX && area.y + (
    area.height - popup_height(area, h)) / 2 <= u16::MAX
}

/// The inside of the popup of `w` by `h` in `area`, when it is shown and has one.
pub open spec fn dialog_inner(area: Rect, w: u16, h: u16) -> Option<Rect> {
    match spec_popup(area, w, h) {
        Some(q) => panel_inner(q),
        None => None,
    }
}

/// The inside of a bordered panel `q`.
fn inner_of(q: Rect) -> (r: Option<Rect>)
    requires
        q.x + q.width <= u16::MAX,
        q.y + q.height <= u16::MAX,
    ensures
        r == panel_inner(q),
{
    if q.width < 2 || q.height < 2 {
        return None;
    }
    Some(Rect::new(q.x + 1, q.y + 1, q.width - 2, q.height - 2))
}

/// Where the close confirmation draws.
#[derive(Clone, Debug)]
pub struct ConfirmCloseLayout {
    pub popup: Rect,
    pub inner: Rect,
    /// The title line, on the first row.
    pub title: String,
    /// The detail line, on the second row.
    pub detail: String,
    pub confirm: Rect,
    pub cancel: Rect,
}

/// Whether the close confirmation's layout stays inside `u16` in `area`.
pub open spec fn confirm_close_fits(area: Rect) -> bool {
    &&& popup_fits(area, 64, 6)
    &&& (dialog_inner(area, 64, 6) matches Some(i) ==> row_fits(i, seq![13u16, 12u16], 2, 3))
}

/// The close confirmation in `area`: a popup of up to 64 by 6 cells with the title
/// and the detail on its first two rows and the confirm and cancel buttons, 13 and
/// 12 columns wide, centred on its fourth row; `None` when there is no room.
pub fn confirm_close_layout(area: Rect, dialog: &ClientConfirmCloseOverlay) -> (r: Option<ConfirmCloseLayout>)
    requires
        confirm_close_fits(area),
    ensures
        match dialog_inner(area, 64, 6) {
            None => r is None,
            Some(i) => r matches Some(l) && {
                &&& Some(l.popup) == spec_popup(area, 64, 6)
                &&& l.inner == i
                &&& l.title@ == " "@ + dialog.title@
                &&& l.detail@ == " "@ + dialog.detail@
                &&& l.confirm == row_button(i, seq![13u16, 12u16], 2, 3, 0)
                &&& l.cancel == row_button(i, seq![13u16, 12u16], 2, 3, 1)
            },
        },
{
    let q = match popup(area, 64, 6) {
        Some(q) => q,
        None => return None,
    };
    let inner = match inner_of(q) {
        Some(i) => i,
        None => return None,
    };
    let widths: Vec<u16> = vec![13, 12];
    assert(widths@ =~= seq![13u16, 12u16]);
    let buttons = row(inner, widths.as_slice(), 2, 3);
    Some(
        ConfirmCloseLayout {
            popup: q,
            inner,
            title: concat(" ", dialog.title.as_str()),
            detail: concat(" ", dialog.detail.as_str()),
            confirm: buttons[0],
            cancel: buttons[1],
        },
    )
}

/// Where the rename prompt draws.
#[derive(Clone, Debug)]
pub struct RenameLayout {
    pub popup: Rect,
    pub inner: Rect,
    /// The input line, on the third row.
    pub input: Rect,
    pub input_text: String,
    pub save: Rect,
    pub clear: Rect,
    pub cancel: Rect,
    /// The column of the text cursor: after the typed text, kept inside the input.
    pub cursor_x: u16,
}

/// The input line of the rename prompt whose inside is `i`.
pub open spec fn rename_input(i: Rect) -> Rect {
    spec_rect(i.x, (i.y + 2) as u16, i.width, 1)
}

/// Whether the rename prompt's layout stays inside `u16` in `area` with `text`
/// typed.
pub open spec fn rename_fits(area: Rect, text: Seq<char>) -> bool {
    &&& popup_fits(area, 56, 7)
    &&& (dialog_inner(area, 56, 7) matches Some(i) ==> {
        &&& i.y + 2 <= u16::MAX
        &&& row_fits(i, seq![8u16, 10u16, 12u16], 2, 3)
        &&& rename_input(i).x + 1 + spec_display_width(text) <= u16::MAX
    })
}

/// What the rename prompt's layout holds for `area`, `dialog` and inside `i`.
pub open spec fn rename_layout_holds(l: RenameLayout, area: Rect, dialog: ClientRenameOverlay, i: Rect) -> bool {
    let input = rename_input(i);
    let after = input.x + 1 + spec_display_width(dialog.input@);
    &&& Some(l.popup) == spec_popup(area, 56, 7)
    &&& l.inner == i
    &&& l.input == input
    &&& l.input_text@ == " "@ + dialog.input@
    &&& l.save == row_button(i, seq![8u16, 10u16, 12u16], 2, 3, 0)
    &&& l.clear == row_button(i, seq![8u16, 10u16, 12u16], 2, 3, 1)
    &&& l.cancel == row_button(i, seq![8u16, 10u16, 12u16], 2, 3, 2)
    &&& l.cursor_x == (if after < input.spec_right() - 1 { after } else { input.spec_right() - 1 }) as u16
}

/// The rename prompt in `area`: a popup of up to 56 by 7 cells with the title on
/// its first row, the typed text on its third and the save, clear and cancel
/// buttons (8, 10 and 12 columns) centred on its fourth; `None` when there is no
/// room.
pub fn rename_overlay_layout(area: Rect, dialog: &ClientRenameOverlay) -> (r: Option<RenameLayout>)
    requires
        rename_fits(area, dialog.input@),
    ensures
        match dialog_inner(area, 56, 7) {
            None => r is None,
            Some(i) => r matches Some(l) && rename_layout_holds(l, area, *dialog, i),
        },
{
    let q = match popup(area, 56, 7) {
        Some(q) => q,
        None => return None,
    };
    let inner = match inner_of(q) {
        Some(i) => i,
        None => return None,
    };
    let input = Rect::new(inner.x, inner.y + 2, inner.width, 1);
    let widths: Vec<u16> = vec![8, 10, 12];
    assert(widths@ =~= seq![8u16, 10u16, 12u16]);
    let buttons = row(inner, widths.as_slice(), 2, 3);
    let after = input.x + 1 + display_width(dialog.input.as_str());
    let last = input.right() - 1;
    Some(
        RenameLayout {
            popup: q,
            inner,
            input,
            input_text: concat(" ", dialog.input.as_str()),
            save: buttons[0],
            clear: buttons[1],
            cancel: buttons[2],
            cursor_x: if after < last { after } else { last },
        },
    )
}

/// The rename prompt in `area`, or `None` when there is no room for it or the
/// typed text would put the cursor past the last column of the terminal.
pub fn rename_overlay_layout_checked(area: Rect, dialog: &ClientRenameOverlay) -> (r: Option<RenameLayout>)
    requires
        popup_fits(area, 56, 7),
        dialog_inner(area, 56, 7) matches Some(i) ==> i.y + 2 <= u16::MAX && row_fits(
            i,
            seq![8u16, 10u16, 12u16],
            2,
            3,
        ),
    ensures
        match r {
            Some(l) => dialog_inner(area, 56, 7) matches Some(i) && rename_layout_holds(l, area, *dialog, i),
            None => dialog_inner(area, 56, 7) is None || dialog_inner(area, 56, 7)->0.x + 1
                + spec_display_width(dialog.input@) > u16::MAX,
        },
{
    let w = display_width(dialog.input.as_str());
    match popup(area, 56, 7) {
        Some(q) => match inner_of(q) {
            Some(i) => {
                if i.x as u32 + 1 + w as u32 > u16::MAX as u32 {
                    return None;
                }
            },
            None => return None,
        },
        None => return None,
    }
    rename_overlay_layout(area, dialog)
}

} // verus!
