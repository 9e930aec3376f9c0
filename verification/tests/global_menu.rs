use herdr::global_menu::{
    activate_global_menu_item, global_menu_label, move_global_menu_selection, toggle_global_menu, GlobalMenuAction,
    GLOBAL_MENU_ITEM_COUNT,
};
use herdr::overlay::{ClientGlobalMenuOverlay, ClientHelpOverlay, ClientShellOverlay};

fn highlighted(overlay: &Option<ClientShellOverlay>) -> Option<usize> {
    match overlay {
        Some(ClientShellOverlay::GlobalMenu(menu)) => Some(menu.highlighted),
        _ => None,
    }
}

#[test]
fn the_menu_lists_four_items() {
    let labels: Vec<&str> = (0..GLOBAL_MENU_ITEM_COUNT).filter_map(global_menu_label).collect();
    assert_eq!(labels, vec!["settings", "keybinds", "reload config", "detach"]);
    assert_eq!(global_menu_label(4), None);
}

#[test]
fn toggling_opens_and_closes_the_menu() {
    let mut overlay = None;
    toggle_global_menu(&mut overlay);
    assert_eq!(highlighted(&overlay), Some(0));
    toggle_global_menu(&mut overlay);
    assert!(overlay.is_none());
    let mut help = Some(ClientShellOverlay::Help(ClientHelpOverlay {
        query: String::new(),
        search_focused: false,
        scroll: 0,
    }));
    toggle_global_menu(&mut help);
    assert_eq!(highlighted(&help), Some(0));
}

#[test]
fn the_highlight_stays_on_the_items() {
    let mut overlay = Some(ClientShellOverlay::GlobalMenu(ClientGlobalMenuOverlay { highlighted: 1 }));
    move_global_menu_selection(&mut overlay, 1);
    assert_eq!(highlighted(&overlay), Some(2));
    move_global_menu_selection(&mut overlay, 5);
    assert_eq!(highlighted(&overlay), Some(3));
    move_global_menu_selection(&mut overlay, -9);
    assert_eq!(highlighted(&overlay), Some(0));
    let mut none: Option<ClientShellOverlay> = None;
    move_global_menu_selection(&mut none, 1);
    assert!(none.is_none());
}

#[test]
fn choosing_an_item_closes_the_menu_and_runs_it() {
    let mut overlay = Some(ClientShellOverlay::GlobalMenu(ClientGlobalMenuOverlay { highlighted: 2 }));
    assert_eq!(activate_global_menu_item(&mut overlay, 2), Some(GlobalMenuAction::ReloadConfig));
    assert!(overlay.is_none());
    let mut open = Some(ClientShellOverlay::GlobalMenu(ClientGlobalMenuOverlay { highlighted: 0 }));
    assert_eq!(activate_global_menu_item(&mut open, 7), None);
    assert_eq!(highlighted(&open), Some(0));
    assert_eq!(activate_global_menu_item(&mut open, 0), Some(GlobalMenuAction::Settings));
    let mut again = None;
    assert_eq!(activate_global_menu_item(&mut again, 3), Some(GlobalMenuAction::Detach));
}
