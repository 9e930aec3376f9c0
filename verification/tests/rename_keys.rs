use herdr::input::{ClientRenameOverlay, ClientRenameTarget};
use herdr::rename_keys::{route_rename_key, PromptKey, PromptKeyCode, RenameKeyOutcome};

fn prompt(input: &str, replace_on_type: bool) -> ClientRenameOverlay {
    ClientRenameOverlay {
        title: "rename tab",
        input: input.into(),
        replace_on_type,
        target: ClientRenameTarget::Pane { pane_id: "p1".into() },
    }
}

fn key(code: PromptKeyCode) -> PromptKey {
    PromptKey {
        code,
        control: false,
        alt: false,
        super_key: false,
        shift: false,
        other_modifiers: false,
        generated_text: None,
    }
}

fn ctrl(c: char) -> PromptKey {
    PromptKey { control: true, ..key(PromptKeyCode::Char(c)) }
}

fn run(input: &str, replace: bool, k: &PromptKey) -> (RenameKeyOutcome, String, bool) {
    let mut p = prompt(input, replace);
    let outcome = route_rename_key(&mut p, k);
    assert_eq!(p.title, "rename tab");
    (outcome, p.input, p.replace_on_type)
}

#[test]
fn enter_submits_and_esc_closes() {
    assert_eq!(run("api", true, &key(PromptKeyCode::Enter)), (RenameKeyOutcome::Save, "api".into(), true));
    assert_eq!(run("api", false, &key(PromptKeyCode::Esc)), (RenameKeyOutcome::Close, "api".into(), false));
}

#[test]
fn typing_replaces_the_suggestion_then_appends() {
    assert_eq!(run("3", true, &key(PromptKeyCode::Char('l'))), (RenameKeyOutcome::Edited, "l".into(), false));
    assert_eq!(run("lo", false, &key(PromptKeyCode::Char('g'))), (RenameKeyOutcome::Edited, "log".into(), false));
    let shifted = PromptKey { shift: true, generated_text: Some("É".into()), ..key(PromptKeyCode::Char('e')) };
    assert_eq!(run("caf", false, &shifted), (RenameKeyOutcome::Edited, "cafÉ".into(), false));
    let alt = PromptKey { alt: true, ..key(PromptKeyCode::Char('x')) };
    assert_eq!(run("caf", false, &alt), (RenameKeyOutcome::Ignored, "caf".into(), false));
    assert_eq!(run("caf", false, &key(PromptKeyCode::Other)), (RenameKeyOutcome::Ignored, "caf".into(), false));
}

#[test]
fn backspace_deletes_a_character_or_the_suggestion() {
    assert_eq!(run("logs", false, &key(PromptKeyCode::Backspace)), (RenameKeyOutcome::Edited, "log".into(), false));
    assert_eq!(run("3", true, &key(PromptKeyCode::Backspace)), (RenameKeyOutcome::Edited, String::new(), false));
    assert_eq!(run("", false, &key(PromptKeyCode::Backspace)), (RenameKeyOutcome::Edited, String::new(), false));
}

#[test]
fn control_keys_clear_or_delete_words() {
    assert_eq!(run("my logs", false, &ctrl('c')), (RenameKeyOutcome::Edited, String::new(), false));
    assert_eq!(run("my logs", false, &ctrl('u')), (RenameKeyOutcome::Edited, String::new(), false));
    let super_back = PromptKey { super_key: true, ..key(PromptKeyCode::Backspace) };
    assert_eq!(run("my logs", false, &super_back), (RenameKeyOutcome::Edited, String::new(), false));
    assert_eq!(run("my logs", false, &ctrl('w')), (RenameKeyOutcome::Edited, "my ".into(), false));
    let alt_back = PromptKey { alt: true, ..key(PromptKeyCode::Backspace) };
    assert_eq!(run("my logs  ", false, &alt_back), (RenameKeyOutcome::Edited, "my ".into(), false));
    assert_eq!(run("suggested", true, &ctrl('h')), (RenameKeyOutcome::Edited, String::new(), false));
}
