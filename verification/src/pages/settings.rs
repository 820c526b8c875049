use vstd::prelude::*;
use crate::draw::{emit, ops, print_str, DrawCommand, DrawOp};
use super::settings_typing::SettingsMenu;

verus! {

pub const SETTINGS_TITLE: &'static str = "Settings Page";
pub const SETTINGS_HELP: &'static str = "Press 'g' for General, 'a' for Advanced, 'h' to go to Home, 'q' to quit.";

/// The name of a sub-menu.
pub open spec fn submenu_text(submenu: SettingsMenu) -> Seq<char> {
    match submenu {
        SettingsMenu::General => "General Settings"@,
        SettingsMenu::Advanced => "Advanced Settings"@,
    }
}

pub open spec fn settings_ops(submenu: SettingsMenu) -> Seq<DrawOp> {
    seq![
        DrawOp::MoveTo(0, 0),
        DrawOp::Print(SETTINGS_TITLE@),
        DrawOp::MoveTo(0, 1),
        DrawOp::Print(SETTINGS_HELP@),
        DrawOp::MoveTo(0, 2),
        DrawOp::Print("Current submenu: "@ + submenu_text(submenu)),
    ]
}

/// The settings page: title, help line and the current sub-menu.
pub fn draw_settings(submenu: &SettingsMenu) -> (cmds: Vec<DrawCommand>)
    ensures
        ops(cmds@) == settings_ops(*submenu),
{
    let submenu_text: &str = match submenu {
        SettingsMenu::General => "General Settings",
        SettingsMenu::Advanced => "Advanced Settings",
    };
    let mut cmds: Vec<DrawCommand> = Vec::new();
    emit(&mut cmds, DrawCommand::MoveTo(0, 0));
    emit(&mut cmds, print_str(SETTINGS_TITLE));
    emit(&mut cmds, DrawCommand::MoveTo(0, 1));
    emit(&mut cmds, print_str(SETTINGS_HELP));
    emit(&mut cmds, DrawCommand::MoveTo(0, 2));
    let mut line = "Current submenu: ".to_owned();
    line.append(submenu_text);
    emit(&mut cmds, DrawCommand::Print(line));
    assert(ops(cmds@) =~= settings_ops(*submenu));
    cmds
}

} // verus!
