//! What a key does to an open rename prompt.
use vstd::prelude::*;

use crate::input::{delete_overlay_word, delete_word_spec, ClientRenameOverlay};

verus! {

/// The keys a rename prompt tells apart.
#[derive(Clone, Copy, Debug, PartialEq, Eq, Structural)]
pub enum PromptKeyCode {
    Enter,
    Esc,
    Backspace,
    Char(char),
    /// Any other key.
    Other,
}

/// A key press as the prompt sees it: the key, its modifiers, and the text the
/// terminal says it produced.
#[derive(Clone, Debug)]
pub struct PromptKey {
    pub code: PromptKeyCode,
    pub control: bool,
    pub alt: bool,
    pub super_key: bool,
    pub shift: bool,
    /// Any modifier other than these four (hyper, meta).
    pub other_modifiers: bool,
    pub generated_text: Option<String>,
}

/// What the shell does after a key reached the prompt.
#[derive(Clone, Copy, Debug, PartialEq, Eq, Structural)]
pub enum RenameKeyOutcome {
    /// Submit the prompt (see `save_rename_overlay`).
    Save,
    /// Close the prompt.
    Close,
    /// The text changed: draw again.
    Edited,
    /// The key does nothing here.
    Ignored,
}

/// Whether the key clears the whole text.
pub open spec fn clears(k: PromptKey) -> bool {
    (k.code == PromptKeyCode::Char('c') && k.control) || (k.code == PromptKeyCode::Char('u') && k.control) || (
    k.code == PromptKeyCode::Backspace && k.super_key)
}

/// Whether the key deletes the last word.
pub open spec fn deletes_word(k: PromptKey) -> bool {
    (k.code == PromptKeyCode::Backspace && (k.control || k.alt)) || ((k.code == PromptKeyCode::Char('h')
        || k.code == PromptKeyCode::Char('w')) && k.control)
}

/// Whether no modifier but shift is held.
pub open spec fn plain(k: PromptKey) -> bool {
    !k.control && !k.alt && !k.super_key && !k.other_modifiers
}

/// What key `k` does to a prompt holding `input` (with `replace` telling
/// whether typing replaces it): the outcome, the new text and the new
/// `replace`. Enter submits and Esc closes; ctrl-c, ctrl-u and super-backspace
/// clear; ctrl- or alt-backspace, ctrl-h and ctrl-w delete a word; backspace
/// deletes a character (or the suggested text); a character typed with no
/// modifier but shift replaces the suggested text or is added, as the text the
/// terminal produced when it says so.
pub open spec fn rename_key_effect(input: Seq<char>, replace: bool, k: PromptKey) -> (RenameKeyOutcome, Seq<char>, bool) {
    if k.code == PromptKeyCode::Enter {
        (RenameKeyOutcome::Save, input, replace)
    } else if k.code == PromptKeyCode::Esc {
        (RenameKeyOutcome::Close, input, replace)
    } else if clears(k) {
        (RenameKeyOutcome::Edited, Seq::empty(), false)
    } else if deletes_word(k) {
        (RenameKeyOutcome::Edited, if replace {
            Seq::empty()
        } else {
            delete_word_spec(input)
        }, false)
    } else if k.code == PromptKeyCode::Backspace {
        if replace {
            (RenameKeyOutcome::Edited, Seq::empty(), false)
        } else if input.len() == 0 {
            (RenameKeyOutcome::Edited, input, false)
        } else {
            (RenameKeyOutcome::Edited, input.drop_last(), false)
        }
    } else {
        match k.code {
            PromptKeyCode::Char(c) => if plain(k) {
                let base = if replace {
                    Seq::empty()
                } else {
                    input
                };
                let typed = match k.generated_text {
                    Some(t) => t@,
                    None => seq![c],
                };
                (RenameKeyOutcome::Edited, base + typed, false)
            } else {
                (RenameKeyOutcome::Ignored, input, replace)
            },
            _ => (RenameKeyOutcome::Ignored, input, replace),
        }
    }
}

/// `char::to_string`: the one character `c`.
#[verifier::external_body]
pub(crate) fn char_string(c: char) -> (r: String)
    ensures
        r@ == seq![c],
{
    c.to_string()
}

/// Applies key `key` to the prompt, as `rename_key_effect` says; the title and
/// target never change.
pub fn route_rename_key(rename: &mut ClientRenameOverlay, key: &PromptKey) -> (r: RenameKeyOutcome)
    ensures
        (r, final(rename).input@, final(rename).replace_on_type) == rename_key_effect(
            old(rename).input@,
            old(rename).replace_on_type,
            *key,
        ),
        final(rename).title == old(rename).title,
        final(rename).target == old(rename).target,
{
    let code = key.code;
    if code == PromptKeyCode::Enter {
        return RenameKeyOutcome::Save;
    }
    if code == PromptKeyCode::Esc {
        return RenameKeyOutcome::Close;
    }
    let is_char_c = match code {
        PromptKeyCode::Char(ch) => ch == 'c',
        _ => false,
    };
    let is_char_u = match code {
        PromptKeyCode::Char(ch) => ch == 'u',
        _ => false,
    };
    let is_char_hw = match code {
        PromptKeyCode::Char(ch) => ch == 'h' || ch == 'w',
        _ => false,
    };
    let is_backspace = match code {
        PromptKeyCode::Backspace => true,
        _ => false,
    };
    if (is_char_c && key.control) || (is_char_u && key.control) || (is_backspace && key.super_key) {
        rename.input = String::new();
        rename.replace_on_type = false;
        return RenameKeyOutcome::Edited;
    }
    if (is_backspace && (key.control || key.alt)) || (is_char_hw && key.control) {
        delete_overlay_word(rename);
        return RenameKeyOutcome::Edited;
    }
    if is_backspace {
        if rename.replace_on_type {
            rename.input = String::new();
            rename.replace_on_type = false;
        } else {
            let n = rename.input.as_str().unicode_len();
            if n > 0 {
                let kept = rename.input.as_str().substring_char(0, n - 1).to_owned();
                rename.input = kept;
            }
        }
        rename.replace_on_type = false;
        return RenameKeyOutcome::Edited;
    }
    match code {
        PromptKeyCode::Char(ch) => {
            if !key.control && !key.alt && !key.super_key && !key.other_modifiers {
                if rename.replace_on_type {
                    rename.input = String::new();
                    rename.replace_on_type = false;
                }
                match &key.generated_text {
                    Some(text) => rename.input.append(text.as_str()),
                    None => {
                        let one = char_string(ch);
                        rename.input.append(one.as_str());
                    },
                }
                RenameKeyOutcome::Edited
            } else {
                RenameKeyOutcome::Ignored
            }
        },
        _ => RenameKeyOutcome::Ignored,
    }
}

/// Once a key edits the text, typing no longer replaces it; keys that do not
/// edit leave the text as it was.
pub proof fn lemma_edits_end_replacement(input: Seq<char>, replace: bool, k: PromptKey)
    ensures
        rename_key_effect(input, replace, k).0 == RenameKeyOutcome::Edited ==> !rename_key_effect(
            input,
            replace,
            k,
        ).2,
        rename_key_effect(input, replace, k).0 != RenameKeyOutcome::Edited ==> rename_key_effect(
            input,
            replace,
            k,
        ).1 == input && rename_key_effect(input, replace, k).2 == replace,
{
}

} // verus!
