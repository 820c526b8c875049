use vstd::prelude::*;

verus! {

/// The sub-menus of the settings page.
#[derive(Debug, Clone, Copy, PartialEq, Eq, Structural)]
pub enum SettingsMenu {
    General,
    Advanced,
}

} // verus!
