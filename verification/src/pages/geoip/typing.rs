use vstd::prelude::*;
use crate::text::{
    char_index_at, lemma_ascii_offsets, lemma_byte_offset_split, lemma_byte_offset_step, lemma_char_index_at,
    lemma_offset_is_boundary, on_char_boundary, string_byte_len, string_insert, string_remove, utf8_len,
};

verus! {

/// Answer of the GeoIP service for one address.
#[derive(Debug)]
pub struct GeoIPResponse {
    pub accuracy: Option<i32>,
    pub area_code: Option<String>,
    pub asn: Option<i32>,
    pub continent_code: Option<String>,
    pub country: Option<String>,
    pub country_code: Option<String>,
    pub country_code3: Option<String>,
    pub ip: String,
    pub latitude: Option<String>,
    pub longitude: Option<String>,
    pub organization: Option<String>,
    pub organization_name: Option<String>,
    pub region: Option<String>,
    pub city: Option<String>,
    pub timezone: Option<String>,
}

/// The editable input line of the GeoIP page. `cursor_position` is a byte
/// position in `input_text`.
pub struct InputState {
    pub input_text: String,
    pub cursor_position: usize,
    pub is_input_active: bool,
    pub is_loading: bool,
}

/// Mathematical model of an [`InputState`].
pub ghost struct InputModel {
    pub text: Seq<char>,
    pub cursor: int,
    pub active: bool,
    pub loading: bool,
}

impl View for InputState {
    type V = InputModel;

    open spec fn view(&self) -> InputModel {
        InputModel {
            text: self.input_text@,
            cursor: self.cursor_position as int,
            active: self.is_input_active,
            loading: self.is_loading,
        }
    }
}

impl InputModel {
    /// The cursor sits at the start of a character or at the end of the text.
    pub open spec fn wf(self) -> bool {
        on_char_boundary(self.text, self.cursor)
    }

    /// Every character is ASCII, so byte positions and character positions agree.
    pub open spec fn is_ascii(self) -> bool {
        forall|i: int| 0 <= i < self.text.len() ==> (self.text[i] as u32) < 0x80
    }

    /// Index of the character at the cursor.
    pub open spec fn cursor_char(self) -> int {
        char_index_at(self.text, self.cursor)
    }

    pub open spec fn can_insert(self) -> bool {
        !self.loading ==> on_char_boundary(self.text, self.cursor)
    }

    pub open spec fn after_insert(self, c: char) -> InputModel {
        if self.loading {
            self
        } else {
            let k = self.cursor_char();
            InputModel {
                text: self.text.take(k) + seq![c] + self.text.skip(k),
                cursor: self.cursor + 1,
                ..self
            }
        }
    }

    pub open spec fn can_backspace(self) -> bool {
        (!self.loading && self.cursor > 0) ==> (on_char_boundary(self.text, self.cursor - 1)
            && self.cursor - 1 < utf8_len(self.text))
    }

    pub open spec fn after_backspace(self) -> InputModel {
        if !self.loading && self.cursor > 0 {
            InputModel {
                text: self.text.remove(char_index_at(self.text, self.cursor - 1)),
                cursor: self.cursor - 1,
                ..self
            }
        } else {
            self
        }
    }

    pub open spec fn can_delete(self) -> bool {
        (!self.loading && self.cursor < utf8_len(self.text)) ==> on_char_boundary(
            self.text,
            self.cursor,
        )
    }

    pub open spec fn after_delete(self) -> InputModel {
        if !self.loading && self.cursor < utf8_len(self.text) {
            InputModel { text: self.text.remove(self.cursor_char()), ..self }
        } else {
            self
        }
    }

    pub open spec fn after_move_left(self) -> InputModel {
        if !self.loading && self.cursor > 0 {
            InputModel { cursor: self.cursor - 1, ..self }
        } else {
            self
        }
    }

    pub open spec fn after_move_right(self) -> InputModel {
        if !self.loading && self.cursor < utf8_len(self.text) {
            InputModel { cursor: self.cursor + 1, ..self }
        } else {
            self
        }
    }

    pub open spec fn after_clear(self) -> InputModel {
        InputModel { text: Seq::empty(), cursor: 0, loading: false, ..self }
    }
}

impl InputState {
    pub fn new() -> (r: Self)
        ensures
            r@ == (InputModel { text: Seq::empty(), cursor: 0, active: true, loading: false }),
    {
        Self {
            input_text: String::new(),
            cursor_position: 0,
            is_input_active: true,
            is_loading: false,
        }
    }

    pub fn insert(&mut self, c: char)
        requires
            old(self)@.can_insert(),
        ensures
            final(self)@ == old(self)@.after_insert(c),
    {
        if !self.is_loading {
            let ghost k = self@.cursor_char();
            let ghost before = self.input_text@;
            proof {
                lemma_char_index_at(before, self.cursor_position as int);
            }
            string_insert(&mut self.input_text, self.cursor_position, c);
            // The new length fits in a usize, so the cursor can move past the new character.
            let _len = string_byte_len(&self.input_text);
            proof {
                let after = self.input_text@;
                assert(after.take(k) =~= before.take(k));
                lemma_byte_offset_step(after, k);
                lemma_byte_offset_split(after, k + 1);
            }
            self.cursor_position += 1;
        }
    }

    pub fn backspace(&mut self)
        requires
            old(self)@.can_backspace(),
        ensures
            final(self)@ == old(self)@.after_backspace(),
    {
        if !self.is_loading && self.cursor_position > 0 {
            self.cursor_position -= 1;
            string_remove(&mut self.input_text, self.cursor_position);
        }
    }

    pub fn delete(&mut self)
        requires
            old(self)@.can_delete(),
        ensures
            final(self)@ == old(self)@.after_delete(),
    {
        if !self.is_loading && self.cursor_position < string_byte_len(&self.input_text) {
            string_remove(&mut self.input_text, self.cursor_position);
        }
    }

    pub fn move_cursor_left(&mut self)
        ensures
            final(self)@ == old(self)@.after_move_left(),
    {
        if !self.is_loading && self.cursor_position > 0 {
            self.cursor_position -= 1;
        }
    }

    pub fn move_cursor_right(&mut self)
        ensures
            final(self)@ == old(self)@.after_move_right(),
    {
        if !self.is_loading && self.cursor_position < string_byte_len(&self.input_text) {
            self.cursor_position += 1;
        }
    }

    pub fn clear(&mut self)
        ensures
            final(self)@ == old(self)@.after_clear(),
    {
        self.input_text = String::new();
        self.cursor_position = 0;
        self.is_loading = false;
    }
}


/// Backspace right after typing a character takes the character out again and
/// puts the cursor back: the line is as it was.
pub proof fn lemma_backspace_undoes_insert(m: InputModel, c: char)
    requires
        m.wf(),
        !m.loading,
    ensures
        m.after_insert(c).can_backspace(),
        m.after_insert(c).after_backspace() == m,
{
    let k = m.cursor_char();
    lemma_char_index_at(m.text, m.cursor);
    let t = m.text.take(k) + seq![c] + m.text.skip(k);
    assert(t.take(k) =~= m.text.take(k));
    lemma_offset_is_boundary(t, k);
    lemma_byte_offset_step(t, k);
    lemma_byte_offset_split(t, k + 1);
    assert(t.remove(k) =~= m.text);
}

/// Backspace is the same as moving one position left and deleting there.
pub proof fn lemma_backspace_is_left_then_delete(m: InputModel)
    requires
        m.can_backspace(),
        m.cursor > 0,
    ensures
        m.after_move_left().can_delete(),
        m.after_move_left().after_delete() == m.after_backspace(),
{
}

/// Moving right and then left gives back the same line with the same cursor,
/// whenever moving right moves at all (the line is not loading and the cursor
/// is before the end).
pub proof fn lemma_right_then_left_restores(m: InputModel)
    requires
        !m.loading,
        0 <= m.cursor < utf8_len(m.text),
    ensures
        m.after_move_right() != m,
        m.after_move_right().text == m.text,
        m.after_move_right().after_move_left() == m,
{
}

/// Moving left and then right gives back the same line with the same cursor,
/// whenever moving left moves at all (the line is not loading and the cursor
/// is past the start of the text).
pub proof fn lemma_left_then_right_restores(m: InputModel)
    requires
        !m.loading,
        0 < m.cursor <= utf8_len(m.text),
    ensures
        m.after_move_left() != m,
        m.after_move_left().after_move_right() == m,
{
}

/// On an all-ASCII line, moving right puts the cursor on the next character,
/// and moving left on the previous one.
pub proof fn lemma_ascii_moves_by_one_character(m: InputModel)
    requires
        m.is_ascii(),
        !m.loading,
        0 <= m.cursor <= m.text.len(),
    ensures
        m.cursor < m.text.len() ==> m.after_move_right().cursor_char() == m.cursor_char() + 1,
        m.cursor > 0 ==> m.after_move_left().cursor_char() == m.cursor_char() - 1,
{
    let s = m.text;
    lemma_ascii_offsets(s, m.cursor);
    lemma_ascii_offsets(s, s.len() as int);
    assert(s.take(s.len() as int) =~= s);
    assert(utf8_len(s) == s.len());
    lemma_offset_is_boundary(s, m.cursor);
    if m.cursor < s.len() {
        lemma_ascii_offsets(s, m.cursor + 1);
        lemma_offset_is_boundary(s, m.cursor + 1);
    }
    if m.cursor > 0 {
        lemma_ascii_offsets(s, m.cursor - 1);
        lemma_offset_is_boundary(s, m.cursor - 1);
    }
}

/// On an all-ASCII line with the cursor in range, every editing operation can
/// be applied without a panic, and typing an ASCII character or any other
/// operation leaves an all-ASCII line with the cursor in range.
pub proof fn lemma_ascii_editing_is_closed(m: InputModel, c: char)
    requires
        m.is_ascii(),
        0 <= m.cursor <= m.text.len(),
        (c as u32) < 0x80,
    ensures
        m.wf(),
        m.can_insert(),
        m.can_backspace(),
        m.can_delete(),
        utf8_len(m.text) == m.text.len(),
        m.after_insert(c).is_ascii(),
        0 <= m.after_insert(c).cursor <= m.after_insert(c).text.len(),
        m.after_backspace().is_ascii(),
        0 <= m.after_backspace().cursor <= m.after_backspace().text.len(),
        m.after_delete().is_ascii(),
        0 <= m.after_delete().cursor <= m.after_delete().text.len(),
        m.after_move_left().is_ascii(),
        0 <= m.after_move_left().cursor <= m.after_move_left().text.len(),
        m.after_move_right().is_ascii(),
        0 <= m.after_move_right().cursor <= m.after_move_right().text.len(),
        m.after_clear().is_ascii(),
        m.after_clear().cursor == 0,
{
    let s = m.text;
    lemma_ascii_offsets(s, m.cursor);
    lemma_ascii_offsets(s, s.len() as int);
    lemma_byte_offset_split(s, 0);
    assert(on_char_boundary(s, m.cursor));
    lemma_char_index_at(s, m.cursor);
    if m.cursor > 0 {
        lemma_ascii_offsets(s, m.cursor - 1);
        assert(on_char_boundary(s, m.cursor - 1));
        lemma_char_index_at(s, m.cursor - 1);
    }
    if !m.loading {
        let k = m.cursor_char();
        let t = s.take(k) + seq![c] + s.skip(k);
        assert(m.after_insert(c).text == t);
        assert forall|i: int| 0 <= i < t.len() implies (t[i] as u32) < 0x80 by {
            if i < k {
                assert(t[i] == s[i]);
            } else if i > k {
                assert(t[i] == s[i - 1]);
            }
        }
        if m.cursor > 0 {
            let j = char_index_at(s, m.cursor - 1);
            let r = s.remove(j);
            assert forall|i: int| 0 <= i < r.len() implies (r[i] as u32) < 0x80 by {
                if i < j {
                    assert(r[i] == s[i]);
                } else {
                    assert(r[i] == s[i + 1]);
                }
            }
        }
        if m.cursor < s.len() {
            let r = s.remove(k);
            assert forall|i: int| 0 <= i < r.len() implies (r[i] as u32) < 0x80 by {
                if i < k {
                    assert(r[i] == s[i]);
                } else {
                    assert(r[i] == s[i + 1]);
                }
            }
        }
    }
}

} // verus!
