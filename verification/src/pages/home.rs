use vstd::prelude::*;
use crate::draw::{emit, emit_all, ops, print_str, Attribute, Color, DrawCommand, DrawOp};

verus! {

pub const BANNER_1: &'static str = "       .  :  :  :   :  :  :: .:   @@   ::   @@   .:  :  :  .   :  .  :   .     ";
pub const BANNER_2: &'static str = "                                 @@@@      @@@@                                ";
pub const BANNER_3: &'static str = "                                @@@ @@    @@@@@@                               ";
pub const BANNER_4: &'static str = "                                @@@ @@@@@@@@ @@@                               ";
pub const BANNER_5: &'static str = "     :  .   :  :  .      .  .   @@  CERBERUS  @@   .  :      .  .  .   .  .    ";
pub const BANNER_6: &'static str = "       .  :  :  :.  :  :  :: .: @@@@@@@@@@@@@@@@  :  :  :  .   .  :  :   .     ";
/// Horizontal rule of the frame.
pub const SEPARATOR: &'static str = "#------------------------------------------------------------------------------#";
pub const HOME_FOOTER: &'static str = "#    [q] Quit [s] Settings || use your mouse, or arrow to select the tools     #";

/// The entries of the home menu.
pub const HOME_MENU: [&'static str; 4] = ["Web Scanner", "Framework Scanner", "Geo IP", "Network Tools"];

/// Banner and top rule, rows 1 to 7.
pub open spec fn home_header_ops() -> Seq<DrawOp> {
    seq![
        DrawOp::MoveTo(0, 1), DrawOp::Print(BANNER_1@),
        DrawOp::MoveTo(0, 2), DrawOp::Print(BANNER_2@),
        DrawOp::MoveTo(0, 3), DrawOp::Print(BANNER_3@),
        DrawOp::MoveTo(0, 4), DrawOp::Print(BANNER_4@),
        DrawOp::MoveTo(0, 5), DrawOp::Print(BANNER_5@),
        DrawOp::MoveTo(0, 6), DrawOp::Print(BANNER_6@),
        DrawOp::Foreground(Color::White),
        DrawOp::MoveTo(0, 7), DrawOp::Print(SEPARATOR@),
    ]
}

/// A footer: a rule, the given line and a rule on rows 40 to 42, then plain text.
pub open spec fn footer_ops(line: Seq<char>) -> Seq<DrawOp> {
    seq![
        DrawOp::MoveTo(0, 40), DrawOp::Print(SEPARATOR@),
        DrawOp::MoveTo(0, 41), DrawOp::Print(line),
        DrawOp::MoveTo(0, 42), DrawOp::Print(SEPARATOR@),
        DrawOp::Attribute(Attribute::Reset),
    ]
}

pub fn draw_home_header() -> (cmds: Vec<DrawCommand>)
    ensures
        ops(cmds@) == home_header_ops(),
{
    let mut cmds: Vec<DrawCommand> = Vec::new();
    emit(&mut cmds, DrawCommand::MoveTo(0, 1));
    emit(&mut cmds, print_str(BANNER_1));
    emit(&mut cmds, DrawCommand::MoveTo(0, 2));
    emit(&mut cmds, print_str(BANNER_2));
    emit(&mut cmds, DrawCommand::MoveTo(0, 3));
    emit(&mut cmds, print_str(BANNER_3));
    emit(&mut cmds, DrawCommand::MoveTo(0, 4));
    emit(&mut cmds, print_str(BANNER_4));
    emit(&mut cmds, DrawCommand::MoveTo(0, 5));
    emit(&mut cmds, print_str(BANNER_5));
    emit(&mut cmds, DrawCommand::MoveTo(0, 6));
    emit(&mut cmds, print_str(BANNER_6));
    emit(&mut cmds, DrawCommand::SetForegroundColor(Color::White));
    emit(&mut cmds, DrawCommand::MoveTo(0, 7));
    emit(&mut cmds, print_str(SEPARATOR));
    assert(ops(cmds@) =~= home_header_ops());
    cmds
}

/// A footer with the given middle line.
pub fn draw_footer(line: &str) -> (cmds: Vec<DrawCommand>)
    ensures
        ops(cmds@) == footer_ops(line@),
{
    let mut cmds: Vec<DrawCommand> = Vec::new();
    emit(&mut cmds, DrawCommand::MoveTo(0, 40));
    emit(&mut cmds, print_str(SEPARATOR));
    emit(&mut cmds, DrawCommand::MoveTo(0, 41));
    emit(&mut cmds, print_str(line));
    emit(&mut cmds, DrawCommand::MoveTo(0, 42));
    emit(&mut cmds, print_str(SEPARATOR));
    emit(&mut cmds, DrawCommand::SetAttribute(Attribute::Reset));
    assert(ops(cmds@) =~= footer_ops(line@));
    cmds
}

pub fn draw_home_footer() -> (cmds: Vec<DrawCommand>)
    ensures
        ops(cmds@) == footer_ops(HOME_FOOTER@),
{
    draw_footer(HOME_FOOTER)
}

pub fn draw_home() -> (cmds: Vec<DrawCommand>)
    ensures
        ops(cmds@) == home_header_ops() + footer_ops(HOME_FOOTER@),
{
    let mut cmds = draw_home_header();
    emit_all(&mut cmds, draw_home_footer());
    cmds
}

} // verus!
