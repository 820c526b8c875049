use vstd::prelude::*;
use crate::event::{Event, KeyCode, KeyEvent, MouseEvent, MouseEventKind, NO_MODIFIERS};
use crate::text::{string_byte_len, trim_spec, trim_to_string, utf8_len};
use super::typing::{GeoIPResponse, InputModel, InputState};

verus! {

/// Row of the terminal on which the input field is drawn.
pub const INPUT_ROW: u16 = 38;
/// Column at which the text of the input field starts.
pub const INPUT_COLUMN: u16 = 19;

/// What the page has to do after an input event.
pub enum ActionResult {
    NoAction,
    /// Look up the given query (the trimmed input line).
    StartLoading(String),
    NewSearch(Result<GeoIPResponse, String>),
}

/// The input line after `e`.
pub open spec fn after_input_event(m: InputModel, e: Event) -> InputModel {
    if m.loading {
        match e {
            Event::Key(KeyEvent { code: KeyCode::Esc, .. }) => InputModel { loading: false, ..m },
            _ => m,
        }
    } else {
        match e {
            Event::Key(KeyEvent { code: KeyCode::Char(c), modifiers }) if modifiers == NO_MODIFIERS => {
                if m.active {
                    m.after_insert(c)
                } else {
                    m
                }
            },
            Event::Key(KeyEvent { code: KeyCode::Backspace, .. }) => {
                if m.active {
                    m.after_backspace()
                } else {
                    m
                }
            },
            Event::Key(KeyEvent { code: KeyCode::Delete, .. }) => {
                if m.active {
                    m.after_delete()
                } else {
                    m
                }
            },
            Event::Key(KeyEvent { code: KeyCode::Left, .. }) => {
                if m.active {
                    m.after_move_left()
                } else {
                    m
                }
            },
            Event::Key(KeyEvent { code: KeyCode::Right, .. }) => {
                if m.active {
                    m.after_move_right()
                } else {
                    m
                }
            },
            Event::Key(KeyEvent { code: KeyCode::Enter, .. }) => {
                if m.active {
                    InputModel { loading: true, ..m }
                } else {
                    m
                }
            },
            Event::Mouse(MouseEvent { kind: MouseEventKind::LeftDown, column, row }) => {
                if row == INPUT_ROW && column >= INPUT_COLUMN {
                    let pos = column - INPUT_COLUMN;
                    let len = utf8_len(m.text);
                    InputModel { active: true, cursor: if pos < len { pos } else { len }, ..m }
                } else {
                    m
                }
            },
            _ => m,
        }
    }
}

/// The query that `e` submits, if it submits one.
pub open spec fn submitted_query(m: InputModel, e: Event) -> Option<Seq<char>> {
    match e {
        Event::Key(KeyEvent { code: KeyCode::Enter, .. }) => {
            if !m.loading && m.active {
                Some(trim_spec(m.text))
            } else {
                None
            }
        },
        _ => None,
    }
}

/// `e` can be applied to `m` without breaking a character apart.
pub open spec fn event_is_applicable(m: InputModel, e: Event) -> bool {
    !m.loading && m.active ==> match e {
        Event::Key(KeyEvent { code: KeyCode::Char(_), modifiers }) if modifiers == NO_MODIFIERS => m.can_insert(),
        Event::Key(KeyEvent { code: KeyCode::Backspace, .. }) => m.can_backspace(),
        Event::Key(KeyEvent { code: KeyCode::Delete, .. }) => m.can_delete(),
        _ => true,
    }
}

/// Whether `handle_input_event` can apply `event` to `input_state`.
pub fn input_event_applicable(input_state: &InputState, event: &Event) -> (r: bool)
    ensures
        r == event_is_applicable(input_state@, *event),
{
    if input_state.is_loading || !input_state.is_input_active {
        return true;
    }
    let cursor = input_state.cursor_position;
    match event {
        Event::Key(KeyEvent { code: KeyCode::Char(_), modifiers }) if *modifiers == NO_MODIFIERS => {
            crate::text::string_is_char_boundary(&input_state.input_text, cursor)
        },
        Event::Key(KeyEvent { code: KeyCode::Backspace, .. }) => {
            cursor == 0 || (crate::text::string_is_char_boundary(&input_state.input_text, cursor - 1)
                && cursor - 1 < string_byte_len(&input_state.input_text))
        },
        Event::Key(KeyEvent { code: KeyCode::Delete, .. }) => {
            cursor >= string_byte_len(&input_state.input_text)
                || crate::text::string_is_char_boundary(&input_state.input_text, cursor)
        },
        _ => true,
    }
}

/// Applies one input event to the input line of the GeoIP page.
pub fn handle_input_event(input_state: &mut InputState, event: Event) -> (r: ActionResult)
    requires
        event_is_applicable(old(input_state)@, event),
    ensures
        final(input_state)@ == after_input_event(old(input_state)@, event),
        match r {
            ActionResult::NoAction => submitted_query(old(input_state)@, event) is None,
            ActionResult::StartLoading(q) => submitted_query(old(input_state)@, event) == Some(q@),
            ActionResult::NewSearch(_) => false,
        },
{
    // While a lookup is running only Escape is heard: it cancels the lookup.
    if input_state.is_loading {
        if let Event::Key(KeyEvent { code: KeyCode::Esc, .. }) = event {
            input_state.is_loading = false;
            return ActionResult::NoAction;
        }
        return ActionResult::NoAction;
    }
    match event {
        Event::Key(KeyEvent { code: KeyCode::Char(c), modifiers }) if modifiers == NO_MODIFIERS => {
            if input_state.is_input_active {
                input_state.insert(c);
            }
            ActionResult::NoAction
        },
        Event::Key(KeyEvent { code: KeyCode::Backspace, .. }) => {
            if input_state.is_input_active {
                input_state.backspace();
            }
            ActionResult::NoAction
        },
        Event::Key(KeyEvent { code: KeyCode::Delete, .. }) => {
            if input_state.is_input_active {
                input_state.delete();
            }
            ActionResult::NoAction
        },
        Event::Key(KeyEvent { code: KeyCode::Left, .. }) => {
            if input_state.is_input_active {
                input_state.move_cursor_left();
            }
            ActionResult::NoAction
        },
        Event::Key(KeyEvent { code: KeyCode::Right, .. }) => {
            if input_state.is_input_active {
                input_state.move_cursor_right();
            }
            ActionResult::NoAction
        },
        Event::Key(KeyEvent { code: KeyCode::Enter, .. }) => {
            if input_state.is_input_active {
                // Show the loading state first; the lookup itself is started by the page.
                input_state.is_loading = true;
                let input = trim_to_string(input_state.input_text.as_str());
                return ActionResult::StartLoading(input);
            }
            ActionResult::NoAction
        },
        Event::Mouse(MouseEvent { kind: MouseEventKind::LeftDown, column, row }) => {
            // The input field is at row 38 and its text starts at column 19.
            if row == INPUT_ROW && column >= INPUT_COLUMN {
                input_state.is_input_active = true;
                let new_pos = (column - INPUT_COLUMN) as usize;
                let len = string_byte_len(&input_state.input_text);
                input_state.cursor_position = if new_pos < len { new_pos } else { len };
            }
            ActionResult::NoAction
        },
        _ => ActionResult::NoAction,
    }
}

/// Enter on an active line that is not loading always starts a lookup of the
/// trimmed text, whatever the text holds: an empty or blank line submits the
/// empty query, which looks up the user's own address. The line keeps its text
/// and cursor and shows the loading state.
pub proof fn lemma_enter_always_submits(m: InputModel, modifiers: u8)
    requires
        m.active,
        !m.loading,
    ensures
        ({
            let e = Event::Key(KeyEvent { code: KeyCode::Enter, modifiers });
            let after = after_input_event(m, e);
            &&& submitted_query(m, e) == Some(trim_spec(m.text))
            &&& after.loading
            &&& after.text == m.text
            &&& after.cursor == m.cursor
            &&& after.active
        }),
{
}

/// Only Enter submits a query, and only from an active line that is not
/// loading; a submitted query is never submitted again until the lookup ends,
/// because the line is then loading.
pub proof fn lemma_only_enter_submits(m: InputModel, e: Event)
    ensures
        submitted_query(m, e) is Some ==> {
            &&& e matches Event::Key(KeyEvent { code: KeyCode::Enter, .. })
            &&& m.active && !m.loading
            &&& after_input_event(m, e).loading
            &&& submitted_query(after_input_event(m, e), e) is None
        },
{
}

} // verus!
