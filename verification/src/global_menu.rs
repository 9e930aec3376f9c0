//! The launcher menu: opening and closing it, moving its highlight, and what
//! its items do.
use vstd::prelude::*;

use crate::overlay::{ClientGlobalMenuOverlay, ClientShellOverlay};

verus! {

/// The number of items of the launcher menu.
pub const GLOBAL_MENU_ITEM_COUNT: usize = 4;

/// What an item of the launcher menu does.
#[derive(Clone, Copy, Debug, PartialEq, Eq, Structural)]
pub enum GlobalMenuAction {
    Settings,
    Help,
    ReloadConfig,
    Detach,
}

/// The label of item `index`.
pub open spec fn spec_global_menu_label(index: int) -> Seq<char> {
    if index == 0 {
        "settings"@
    } else if index == 1 {
        "keybinds"@
    } else if index == 2 {
        "reload config"@
    } else {
        "detach"@
    }
}

/// The action of item `index`, if there is such an item.
pub open spec fn spec_global_menu_action(index: int) -> Option<GlobalMenuAction> {
    if index == 0 {
        Some(GlobalMenuAction::Settings)
    } else if index == 1 {
        Some(GlobalMenuAction::Help)
    } else if index == 2 {
        Some(GlobalMenuAction::ReloadConfig)
    } else if index == 3 {
        Some(GlobalMenuAction::Detach)
    } else {
        None
    }
}

/// The label of item `index`, if there is such an item.
pub fn global_menu_label(index: usize) -> (r: Option<&'static str>)
    ensures
        match r {
            Some(l) => index < GLOBAL_MENU_ITEM_COUNT && l@ == spec_global_menu_label(index as int),
            None => index >= GLOBAL_MENU_ITEM_COUNT,
        },
{
    if index == 0 {
        Some("settings")
    } else if index == 1 {
        Some("keybinds")
    } else if index == 2 {
        Some("reload config")
    } else if index == 3 {
        Some("detach")
    } else {
        None
    }
}

/// Opens the launcher menu with its first item highlighted, or closes it when
/// it is open; any other overlay is replaced.
pub fn toggle_global_menu(overlay: &mut Option<ClientShellOverlay>)
    ensures
        match *old(overlay) {
            Some(ClientShellOverlay::GlobalMenu(_)) => *final(overlay) is None,
            _ => *final(overlay) matches Some(ClientShellOverlay::GlobalMenu(m)) && m.highlighted == 0,
        },
{
    let open = match overlay {
        Some(ClientShellOverlay::GlobalMenu(_)) => true,
        _ => false,
    };
    if open {
        *overlay = None;
    } else {
        *overlay = Some(ClientShellOverlay::GlobalMenu(ClientGlobalMenuOverlay { highlighted: 0 }));
    }
}

/// `highlighted + delta`, kept on the menu's items.
pub open spec fn moved_highlight(highlighted: usize, delta: isize) -> usize {
    if highlighted + delta < 0 {
        0
    } else if highlighted + delta > GLOBAL_MENU_ITEM_COUNT - 1 {
        (GLOBAL_MENU_ITEM_COUNT - 1) as usize
    } else {
        (highlighted + delta) as usize
    }
}

/// Moves the launcher menu's highlight by `delta` items, kept on the items;
/// nothing happens when the menu is not open.
pub fn move_global_menu_selection(overlay: &mut Option<ClientShellOverlay>, delta: isize)
    requires
        *old(overlay) matches Some(ClientShellOverlay::GlobalMenu(m)) ==> m.highlighted <= isize::MAX
            && isize::MIN <= m.highlighted + delta <= isize::MAX,
    ensures
        match *old(overlay) {
            Some(ClientShellOverlay::GlobalMenu(m)) => *final(overlay) matches Some(
                ClientShellOverlay::GlobalMenu(n),
            ) && n.highlighted == moved_highlight(m.highlighted, delta),
            _ => *final(overlay) == *old(overlay),
        },
{
    match overlay {
        Some(ClientShellOverlay::GlobalMenu(menu)) => {
            let moved = menu.highlighted as isize + delta;
            if moved < 0 {
                menu.highlighted = 0;
            } else if moved as usize > GLOBAL_MENU_ITEM_COUNT - 1 {
                menu.highlighted = GLOBAL_MENU_ITEM_COUNT - 1;
            } else {
                menu.highlighted = moved as usize;
            }
        },
        _ => {},
    }
}

/// Chooses item `index`: when there is such an item, the menu closes and its
/// action is returned for the shell to run; otherwise nothing changes.
pub fn activate_global_menu_item(overlay: &mut Option<ClientShellOverlay>, index: usize) -> (r: Option<
    GlobalMenuAction,
>)
    ensures
        r == spec_global_menu_action(index as int),
        r is Some ==> *final(overlay) is None,
        r is None ==> *final(overlay) == *old(overlay),
{
    let action = if index == 0 {
        GlobalMenuAction::Settings
    } else if index == 1 {
        GlobalMenuAction::Help
    } else if index == 2 {
        GlobalMenuAction::ReloadConfig
    } else if index == 3 {
        GlobalMenuAction::Detach
    } else {
        return None;
    };
    *overlay = None;
    Some(action)
}

/// The highlight never leaves the menu's items.
pub proof fn lemma_highlight_stays_on_an_item(highlighted: usize, delta: isize)
    ensures
        moved_highlight(highlighted, delta) < GLOBAL_MENU_ITEM_COUNT,
        spec_global_menu_action(moved_highlight(highlighted, delta) as int) is Some,
{
}

} // verus!
