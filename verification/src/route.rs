use vstd::prelude::*;
use crate::pages::settings_typing::SettingsMenu;

verus! {

/// The pages of the application.
#[derive(Debug, Clone, Copy, PartialEq, Eq, Structural)]
pub enum Page {
    Home,
    Settings(SettingsMenu),
    GeoIP,
}

/// How a page hands control back to the router.
#[derive(Debug, Clone, Copy, PartialEq, Eq, Structural)]
pub enum Transition {
    To(Page),
    Quit,
    Refresh,
}

/// What the router does after a page returned a transition.
#[derive(Debug, Clone, Copy, PartialEq, Eq, Structural)]
pub enum RouteStep {
    /// Run the given page next.
    Show(Page),
    /// Redraw the current page and run it again.
    Redraw(Page),
    /// Leave the application.
    Exit,
}

/// The router's decision for a transition out of `current`.
pub fn route_transition(current: Page, transition: Transition) -> (step: RouteStep)
    ensures
        step == match transition {
            Transition::To(page) => RouteStep::Show(page),
            Transition::Quit => RouteStep::Exit,
            Transition::Refresh => RouteStep::Redraw(current),
        },
{
    match transition {
        Transition::To(page) => RouteStep::Show(page),
        Transition::Quit => RouteStep::Exit,
        Transition::Refresh => RouteStep::Redraw(current),
    }
}

/// The interface needs a terminal of at least 80 columns and 43 rows.
pub fn check_terminal_size(width: u16, height: u16) -> (ok: bool)
    ensures
        ok == (width >= 80 && height >= 43),
{
    width >= 80 && height >= 43
}

} // verus!
