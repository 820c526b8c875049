use vstd::prelude::*;
use crate::event::{Event, KeyCode, KeyEvent};
use crate::route::{Page, Transition};
use super::settings_typing::SettingsMenu;

verus! {

/// The sub-menu after `e`.
pub open spec fn submenu_after(submenu: SettingsMenu, e: Event) -> SettingsMenu {
    match e {
        Event::Key(KeyEvent { code: KeyCode::Char(c), .. }) => {
            if c == 'g' {
                SettingsMenu::General
            } else if c == 'a' {
                SettingsMenu::Advanced
            } else {
                submenu
            }
        },
        _ => submenu,
    }
}

/// Where `e` leads from the settings page, if anywhere.
pub open spec fn settings_transition(e: Event) -> Option<Transition> {
    match e {
        Event::Key(KeyEvent { code: KeyCode::Char(c), .. }) => {
            if c == 'q' {
                Some(Transition::Quit)
            } else if c == 'h' {
                Some(Transition::To(Page::Home))
            } else {
                None
            }
        },
        _ => None,
    }
}

/// Applies one input event to the settings page: `q` quits, `h` goes home,
/// `g` and `a` pick the general or the advanced sub-menu.
pub fn handle_settings_event(submenu: &mut SettingsMenu, event: Event) -> (t: Option<Transition>)
    ensures
        *final(submenu) == submenu_after(*old(submenu), event),
        t == settings_transition(event),
{
    if let Event::Key(KeyEvent { code: KeyCode::Char(c), .. }) = event {
        if c == 'q' {
            return Some(Transition::Quit);
        } else if c == 'h' {
            return Some(Transition::To(Page::Home));
        } else if c == 'g' {
            *submenu = SettingsMenu::General;
        } else if c == 'a' {
            *submenu = SettingsMenu::Advanced;
        }
    }
    None
}

} // verus!
