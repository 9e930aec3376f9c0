//! Display widths of text in terminal columns.
use unicode_width::UnicodeWidthStr;
use vstd::prelude::*;

verus! {

/// How many terminal columns the characters `s` take, as `unicode-width` counts
/// them (ambiguous characters one column wide).
pub uninterp spec fn unicode_width_of(s: Seq<char>) -> usize;

/// `UnicodeWidthStr::width`: the result is [`unicode_width_of`] the text.
#[verifier::external_body]
fn unicode_width(text: &str) -> (w: usize)
    ensures
        w == unicode_width_of(text@),
{
    UnicodeWidthStr::width(text)
}

/// The width of `text` in columns, saturated at `u16::MAX`.
pub open spec fn spec_display_width(text: Seq<char>) -> u16 {
    if unicode_width_of(text) > u16::MAX {
        u16::MAX
    } else {
        unicode_width_of(text) as u16
    }
}

/// The width of `text` in terminal columns, saturated at `u16::MAX`.
pub fn display_width(text: &str) -> (w: u16)
    ensures
        w == spec_display_width(text@),
{
    let w = unicode_width(text);
    if w > u16::MAX as usize {
        u16::MAX
    } else {
        w as u16
    }
}

} // verus!
