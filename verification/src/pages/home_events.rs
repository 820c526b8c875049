use vstd::prelude::*;
use crate::draw::{emit, emit_all, ops, print_str, Attribute, Color, DrawCommand, DrawOp};
use crate::event::{Event, KeyCode, KeyEvent, MouseEvent, MouseEventKind};
use crate::route::{Page, Transition};
use super::home::{draw_home_footer, draw_home_header, footer_ops, home_header_ops, HOME_FOOTER, HOME_MENU};
use super::settings_typing::SettingsMenu;

verus! {

/// Number of menu rows shown at once.
pub const VISIBLE_ROWS: usize = 13;
/// Terminal row of the first menu row.
pub const MENU_OFFSET: usize = 12;

/// Selection state of the home menu: the first shown entry and the highlighted row.
#[derive(Debug, Clone, Copy, PartialEq, Eq, Structural)]
pub struct HomeMenu {
    pub start_index: usize,
    pub active_index: usize,
}

/// The page an entry of the home menu leads to: the Geo IP entry to its page,
/// every other entry (not built yet) back home.
pub open spec fn entry_page(entry: Seq<char>) -> Page {
    if entry == "Geo IP"@ {
        Page::GeoIP
    } else {
        Page::Home
    }
}

impl HomeMenu {
    pub fn new() -> (m: Self)
        ensures
            m == (HomeMenu { start_index: 0, active_index: 0 }),
    {
        HomeMenu { start_index: 0, active_index: 0 }
    }

    /// The highlighted row is a menu entry, and the last visible row has an index.
    pub open spec fn wf(self) -> bool {
        self.active_index < HOME_MENU@.len() && self.start_index + VISIBLE_ROWS <= usize::MAX
    }

    /// `e` can be applied without a panic: Enter needs the highlighted row to
    /// be a menu entry, and scrolling down past the highlighted rows needs the
    /// index of the last visible row.
    pub open spec fn can_handle(self, e: Event) -> bool {
        match e {
            Event::Key(KeyEvent { code: KeyCode::Enter, .. }) => self.active_index < HOME_MENU@.len(),
            Event::Key(KeyEvent { code: KeyCode::Down, .. }) | Event::Mouse(
                MouseEvent { kind: MouseEventKind::ScrollDown, .. },
            ) => (self.active_index < VISIBLE_ROWS - 1 && self.active_index < HOME_MENU@.len() - 1)
                || self.start_index + VISIBLE_ROWS <= usize::MAX,
            _ => true,
        }
    }

    /// Whether `handle_event` can apply `e`.
    pub fn event_applicable(&self, e: &Event) -> (r: bool)
        ensures
            r == self.can_handle(*e),
    {
        match e {
            Event::Key(KeyEvent { code: KeyCode::Enter, .. }) => self.active_index < HOME_MENU.len(),
            Event::Key(KeyEvent { code: KeyCode::Down, .. }) | Event::Mouse(
                MouseEvent { kind: MouseEventKind::ScrollDown, .. },
            ) => (self.active_index < VISIBLE_ROWS - 1 && self.active_index < HOME_MENU.len() - 1)
                || self.start_index <= usize::MAX - VISIBLE_ROWS,
            _ => true,
        }
    }

    pub open spec fn scrolled_up(self) -> HomeMenu {
        if self.active_index > 0 {
            HomeMenu { active_index: (self.active_index - 1) as usize, ..self }
        } else if self.start_index > 0 {
            HomeMenu { start_index: (self.start_index - 1) as usize, ..self }
        } else {
            self
        }
    }

    pub open spec fn scrolled_down(self) -> HomeMenu {
        if self.active_index < VISIBLE_ROWS - 1 && self.active_index < HOME_MENU@.len() - 1 {
            HomeMenu { active_index: (self.active_index + 1) as usize, ..self }
        } else if self.start_index + VISIBLE_ROWS < HOME_MENU@.len() {
            HomeMenu { start_index: (self.start_index + 1) as usize, ..self }
        } else {
            self
        }
    }

    /// The menu after `e`.
    pub open spec fn after_event(self, e: Event) -> HomeMenu {
        match e {
            Event::Key(KeyEvent { code: KeyCode::Up, .. }) => self.scrolled_up(),
            Event::Key(KeyEvent { code: KeyCode::Down, .. }) => self.scrolled_down(),
            Event::Mouse(MouseEvent { kind: MouseEventKind::LeftDown, row, .. }) => {
                if MENU_OFFSET <= row < MENU_OFFSET + VISIBLE_ROWS && row - MENU_OFFSET
                    < HOME_MENU@.len() {
                    HomeMenu { active_index: (row - MENU_OFFSET) as usize, ..self }
                } else {
                    self
                }
            },
            Event::Mouse(MouseEvent { kind: MouseEventKind::ScrollUp, .. }) => self.scrolled_up(),
            Event::Mouse(MouseEvent { kind: MouseEventKind::ScrollDown, .. }) => self.scrolled_down(),
            _ => self,
        }
    }

    /// Where `e` leads: away from the home page, or nowhere (`None`).
    pub open spec fn event_transition(self, e: Event) -> Option<Transition> {
        match e {
            Event::Key(KeyEvent { code: KeyCode::Char(c), .. }) => {
                if c == 'q' {
                    Some(Transition::Quit)
                } else if c == 's' {
                    Some(Transition::To(Page::Settings(SettingsMenu::General)))
                } else {
                    None
                }
            },
            Event::Key(KeyEvent { code: KeyCode::Enter, .. }) => Some(
                Transition::To(entry_page(HOME_MENU@[self.active_index as int]@)),
            ),
            _ => None,
        }
    }

    fn scroll_up(&mut self)
        ensures
            *final(self) == old(self).scrolled_up(),
    {
        if self.active_index > 0 {
            self.active_index -= 1;
        } else if self.start_index > 0 {
            self.start_index -= 1;
        }
    }

    fn scroll_down(&mut self)
        requires
            (old(self).active_index < VISIBLE_ROWS - 1 && old(self).active_index < HOME_MENU@.len() - 1)
                || old(self).start_index + VISIBLE_ROWS <= usize::MAX,
        ensures
            *final(self) == old(self).scrolled_down(),
    {
        if self.active_index < VISIBLE_ROWS - 1 && self.active_index < HOME_MENU.len() - 1 {
            self.active_index += 1;
        } else if self.start_index + VISIBLE_ROWS < HOME_MENU.len() {
            self.start_index += 1;
        }
    }

    /// Applies one input event to the home menu; returns the transition the
    /// event asks for, if any.
    pub fn handle_event(&mut self, event: Event) -> (t: Option<Transition>)
        requires
            old(self).can_handle(event),
        ensures
            *final(self) == old(self).after_event(event),
            t == old(self).event_transition(event),
    {
        match event {
            Event::Key(KeyEvent { code, .. }) => match code {
                KeyCode::Char(c) => {
                    if c == 'q' {
                        Some(Transition::Quit)
                    } else if c == 's' {
                        Some(Transition::To(Page::Settings(SettingsMenu::General)))
                    } else {
                        None
                    }
                },
                KeyCode::Up => {
                    self.scroll_up();
                    None
                },
                KeyCode::Down => {
                    self.scroll_down();
                    None
                },
                KeyCode::Enter => {
                    proof {
                        reveal_strlit("Web Scanner");
                        reveal_strlit("Framework Scanner");
                        reveal_strlit("Geo IP");
                        reveal_strlit("Network Tools");
                        assert(HOME_MENU@[0] == "Web Scanner");
                        assert(HOME_MENU@[0]@.len() != "Geo IP"@.len());
                        assert(HOME_MENU@[1] == "Framework Scanner");
                        assert(HOME_MENU@[1]@.len() != "Geo IP"@.len());
                        assert(HOME_MENU@[0]@ != "Geo IP"@);
                        assert(HOME_MENU@[1]@ != "Geo IP"@);
                        assert(HOME_MENU@[3]@ != "Geo IP"@);
                    }
                    let page = if self.active_index == 2 {
                        Page::GeoIP
                    } else {
                        Page::Home
                    };
                    Some(Transition::To(page))
                },
                _ => None,
            },
            Event::Mouse(MouseEvent { kind, row, .. }) => match kind {
                MouseEventKind::LeftDown => {
                    // The row of the click decides the entry.
                    let row = row as usize;
                    if row >= MENU_OFFSET && row < MENU_OFFSET + VISIBLE_ROWS {
                        let relative_row = row - MENU_OFFSET;
                        if relative_row < HOME_MENU.len() {
                            self.active_index = relative_row;
                        }
                    }
                    None
                },
                MouseEventKind::ScrollUp => {
                    self.scroll_up();
                    None
                },
                MouseEventKind::ScrollDown => {
                    self.scroll_down();
                    None
                },
                _ => None,
            },
            _ => None,
        }
    }
}

/// Whatever the input, the highlighted row stays a menu entry: a well-formed
/// menu can take every event and stays well formed.
pub proof fn lemma_home_menu_stays_wf(m: HomeMenu, e: Event)
    requires
        m.wf(),
    ensures
        m.can_handle(e),
        m.after_event(e).wf(),
{
}

/// A left click on the screen row of menu entry `i` (counted from the top of
/// the list) highlights that entry and scrolls nothing, wherever on the row it
/// lands.
pub proof fn lemma_click_highlights_row(m: HomeMenu, column: u16, i: u16)
    requires
        (i as int) < HOME_MENU@.len(),
        (i as int) < VISIBLE_ROWS,
    ensures
        m.after_event(
            Event::Mouse(
                MouseEvent { kind: MouseEventKind::LeftDown, column, row: (MENU_OFFSET + i) as u16 },
            ),
        ) == (HomeMenu { active_index: i as usize, ..m }),
{
}

/// A left click above the list, or below its last entry, changes nothing.
pub proof fn lemma_click_off_the_list_is_ignored(m: HomeMenu, column: u16, row: u16)
    requires
        (row as int) < MENU_OFFSET || (row as int) >= MENU_OFFSET + HOME_MENU@.len(),
    ensures
        m.after_event(Event::Mouse(MouseEvent { kind: MouseEventKind::LeftDown, column, row })) == m,
{
}

/// The commands of one row of the menu list.
pub open spec fn menu_row_ops(m: HomeMenu, i: int) -> Seq<DrawOp> {
    if m.start_index + i < HOME_MENU@.len() {
        let line = HOME_MENU@[m.start_index + i]@;
        seq![DrawOp::MoveTo(0, (i + MENU_OFFSET) as u16)] + if i == m.active_index {
            seq![
                DrawOp::Attribute(Attribute::Bold),
                DrawOp::Foreground(Color::Cyan),
                DrawOp::Print("> "@),
                DrawOp::Print(line),
                DrawOp::Print("  "@),
                DrawOp::Attribute(Attribute::Reset),
                DrawOp::Foreground(Color::White),
            ]
        } else {
            seq![DrawOp::Print("  "@ + line + "\n"@)]
        }
    } else {
        Seq::empty()
    }
}

/// The commands of the first `n` rows of the menu list.
pub open spec fn menu_list_ops(m: HomeMenu, n: int) -> Seq<DrawOp>
    decreases n,
{
    if n <= 0 {
        Seq::empty()
    } else {
        menu_list_ops(m, n - 1) + menu_row_ops(m, n - 1)
    }
}

/// The visible rows of the home menu, the highlighted one in bold cyan.
pub fn draw_home_menu(menu: &HomeMenu) -> (cmds: Vec<DrawCommand>)
    requires
        menu.start_index + VISIBLE_ROWS <= usize::MAX,
    ensures
        ops(cmds@) == menu_list_ops(*menu, VISIBLE_ROWS as int),
{
    let mut cmds: Vec<DrawCommand> = Vec::new();
    let mut i: usize = 0;
    while i < VISIBLE_ROWS
        invariant
            i <= VISIBLE_ROWS,
            menu.start_index + VISIBLE_ROWS <= usize::MAX,
            ops(cmds@) == menu_list_ops(*menu, i as int),
        decreases VISIBLE_ROWS - i,
    {
        let ghost before = ops(cmds@);
        if menu.start_index + i < HOME_MENU.len() {
            let line: &str = HOME_MENU[menu.start_index + i];
            emit(&mut cmds, DrawCommand::MoveTo(0, (i + MENU_OFFSET) as u16));
            if i == menu.active_index {
                emit(&mut cmds, DrawCommand::SetAttribute(Attribute::Bold));
                emit(&mut cmds, DrawCommand::SetForegroundColor(Color::Cyan));
                emit(&mut cmds, print_str("> "));
                emit(&mut cmds, print_str(line));
                emit(&mut cmds, print_str("  "));
                emit(&mut cmds, DrawCommand::SetAttribute(Attribute::Reset));
                emit(&mut cmds, DrawCommand::SetForegroundColor(Color::White));
            } else {
                let mut text = "  ".to_owned();
                text.append(line);
                text.append("\n");
                emit(&mut cmds, DrawCommand::Print(text));
            }
            assert(ops(cmds@) =~= before + menu_row_ops(*menu, i as int));
        } else {
            assert(menu_row_ops(*menu, i as int) =~= Seq::<DrawOp>::empty());
            assert(before + menu_row_ops(*menu, i as int) =~= before);
        }
        i = i + 1;
    }
    cmds
}

/// The whole home screen: header, menu list and footer.
pub fn draw_home_screen(menu: &HomeMenu) -> (cmds: Vec<DrawCommand>)
    requires
        menu.start_index + VISIBLE_ROWS <= usize::MAX,
    ensures
        ops(cmds@) == home_header_ops() + menu_list_ops(*menu, VISIBLE_ROWS as int) + footer_ops(
            HOME_FOOTER@,
        ),
{
    let mut cmds = draw_home_header();
    emit_all(&mut cmds, draw_home_menu(menu));
    emit_all(&mut cmds, draw_home_footer());
    cmds
}

} // verus!
