use vstd::prelude::*;

verus! {

/// Terminal colours the pages use.
#[derive(Debug, Clone, Copy, PartialEq, Eq, Structural)]
pub enum Color {
    White,
    Cyan,
    Yellow,
    Red,
    DarkCyan,
    /// The terminal's default colour.
    Reset,
}

/// Text attributes the pages use.
#[derive(Debug, Clone, Copy, PartialEq, Eq, Structural)]
pub enum Attribute {
    Bold,
    /// Back to plain text.
    Reset,
}

/// One instruction to the terminal; a page is drawn by a sequence of them.
#[derive(Debug)]
pub enum DrawCommand {
    /// Move the cursor to column, row.
    MoveTo(u16, u16),
    Print(String),
    SetForegroundColor(Color),
    SetBackgroundColor(Color),
    SetAttribute(Attribute),
}

/// Model of a [`DrawCommand`], the printed text as characters.
pub ghost enum DrawOp {
    MoveTo(u16, u16),
    Print(Seq<char>),
    Foreground(Color),
    Background(Color),
    Attribute(Attribute),
}

impl View for DrawCommand {
    type V = DrawOp;

    open spec fn view(&self) -> DrawOp {
        match self {
            DrawCommand::MoveTo(c, r) => DrawOp::MoveTo(*c, *r),
            DrawCommand::Print(s) => DrawOp::Print(s@),
            DrawCommand::SetForegroundColor(c) => DrawOp::Foreground(*c),
            DrawCommand::SetBackgroundColor(c) => DrawOp::Background(*c),
            DrawCommand::SetAttribute(a) => DrawOp::Attribute(*a),
        }
    }
}

/// The model of a sequence of commands.
pub open spec fn ops(cmds: Seq<DrawCommand>) -> Seq<DrawOp> {
    cmds.map_values(|c: DrawCommand| c@)
}

/// `Print` of a copy of `s`.
pub fn print_str(s: &str) -> (c: DrawCommand)
    ensures
        c@ == DrawOp::Print(s@),
{
    DrawCommand::Print(s.to_owned())
}

/// Appends `c` to `cmds`.
pub fn emit(cmds: &mut Vec<DrawCommand>, c: DrawCommand)
    ensures
        ops(final(cmds)@) == ops(old(cmds)@).push(c@),
{
    cmds.push(c);
    proof {
        assert(ops(cmds@) =~= ops(old(cmds)@).push(c@));
    }
}

/// Appends all of `more` to `cmds`.
pub fn emit_all(cmds: &mut Vec<DrawCommand>, more: Vec<DrawCommand>)
    ensures
        ops(final(cmds)@) == ops(old(cmds)@) + ops(more@),
{
    let mut more = more;
    let ghost m = more@;
    cmds.append(&mut more);
    proof {
        assert(ops(cmds@) =~= ops(old(cmds)@) + ops(m));
    }
}

} // verus!
