//! A one-line text field with a cursor, used to filter accounts.
use crate::screen::Key;
use crate::text::{chars_of, slice_of, string_of};
use vstd::prelude::*;
use vstd::utf8::encode_utf8;

verus! {

/// A query being typed and the cursor in it, counted in characters.
#[derive(Debug)]
pub struct Search {
    pub query: String,
    cursor: usize,
}

/// What the field is after a key: still being edited, dismissed, or confirmed.
#[derive(Clone, Copy, Debug, PartialEq, Eq, Structural)]
pub enum SearchState {
    Active,
    Dismiss,
    Confirm,
}

pub struct SearchView {
    pub query: Seq<char>,
    pub cursor: nat,
}

impl View for Search {
    type V = SearchView;

    closed spec fn view(&self) -> SearchView {
        SearchView { query: self.query@, cursor: self.cursor as nat }
    }
}

/// The cursor is inside the query or just after it.
pub open spec fn search_wf(s: SearchView) -> bool {
    s.cursor <= s.query.len()
}

/// Typing `c`: it goes in at the cursor, which moves past it.
pub open spec fn spec_insert(s: SearchView, c: char) -> SearchView {
    SearchView { query: s.query.insert(s.cursor as int, c), cursor: s.cursor + 1 }
}

/// Backspace: the character before the cursor goes, and the cursor with it.
pub open spec fn spec_delete_before(s: SearchView) -> SearchView {
    if s.cursor > 0 {
        SearchView { query: s.query.remove(s.cursor - 1), cursor: (s.cursor - 1) as nat }
    } else {
        s
    }
}

/// Delete: the character under the cursor goes.
pub open spec fn spec_delete_after(s: SearchView) -> SearchView {
    if s.cursor < s.query.len() {
        SearchView { query: s.query.remove(s.cursor as int), cursor: s.cursor }
    } else {
        s
    }
}

pub open spec fn spec_move_left(s: SearchView) -> SearchView {
    SearchView {
        query: s.query,
        cursor: if s.cursor > 0 {
            (s.cursor - 1) as nat
        } else {
            0
        },
    }
}

pub open spec fn spec_move_right(s: SearchView) -> SearchView {
    SearchView {
        query: s.query,
        cursor: if s.cursor + 1 <= s.query.len() {
            s.cursor + 1
        } else {
            s.query.len()
        },
    }
}

/// The effect of a key on the field: Esc dismisses, Enter confirms, the arrows
/// move the cursor, a character is typed, Backspace and Delete erase; any
/// other key changes nothing.
pub open spec fn spec_search_key(s: SearchView, key: Key) -> (SearchView, SearchState) {
    match key {
        Key::Esc => (s, SearchState::Dismiss),
        Key::Left => (spec_move_left(s), SearchState::Active),
        Key::Right => (spec_move_right(s), SearchState::Active),
        Key::Char(c) => (spec_insert(s, c), SearchState::Active),
        Key::Backspace => (spec_delete_before(s), SearchState::Active),
        Key::Delete => (spec_delete_after(s), SearchState::Active),
        Key::Enter => (s, SearchState::Confirm),
        _ => (s, SearchState::Active),
    }
}

/// The byte offset in the UTF-8 query of the character at `char_idx`, or the
/// query's byte length where there is no such character.
pub open spec fn byte_offset(q: Seq<char>, char_idx: int) -> int {
    if 0 <= char_idx < q.len() {
        encode_utf8(q.take(char_idx)).len() as int
    } else {
        encode_utf8(q).len() as int
    }
}

/// How the field is drawn: the text before the cursor, the character under it
/// (a space at the end), and the text after it.
pub open spec fn spec_draw_parts(s: SearchView) -> (Seq<char>, Seq<char>, Seq<char>) {
    (
        s.query.take(s.cursor as int),
        if s.cursor < s.query.len() {
            seq![s.query[s.cursor as int]]
        } else {
            " "@
        },
        if s.cursor + 1 <= s.query.len() {
            s.query.skip((s.cursor + 1) as int)
        } else {
            Seq::empty()
        },
    )
}

impl Search {
    pub fn new() -> (r: Self)
        ensures
            r@.query == Seq::<char>::empty(),
            r@.cursor == 0,
    {
        Search { query: String::new(), cursor: 0 }
    }

    pub fn char_count(&self) -> (r: usize)
        ensures
            r == self@.query.len(),
    {
        chars_of(self.query.as_str()).len()
    }

    /// Where the character at `char_idx` starts in the query's bytes (see
    /// `byte_offset`).
    pub fn char_to_byte(&self, char_idx: usize) -> (r: usize)
        ensures
            r == byte_offset(self@.query, char_idx as int) as usize,
    {
        let cs = chars_of(self.query.as_str());
        if char_idx < cs.len() {
            let before = string_of(&slice_of(&cs, 0, char_idx));
            before.as_str().len()
        } else {
            self.query.as_str().len()
        }
    }

    pub fn insert(&mut self, c: char)
        requires
            search_wf(old(self)@),
            old(self)@.query.len() < usize::MAX,
        ensures
            final(self)@ == spec_insert(old(self)@, c),
    {
        let cs = chars_of(self.query.as_str());
        let mut v = slice_of(&cs, 0, self.cursor);
        v.push(c);
        let rest = slice_of(&cs, self.cursor, cs.len());
        crate::text::append_chars(&mut v, &rest);
        assert(v@ =~= cs@.insert(self.cursor as int, c));
        self.query = string_of(&v);
        self.cursor = self.cursor + 1;
    }

    pub fn delete_before(&mut self)
        requires
            search_wf(old(self)@),
        ensures
            final(self)@ == spec_delete_before(old(self)@),
    {
        if self.cursor > 0 {
            let cs = chars_of(self.query.as_str());
            let mut v = slice_of(&cs, 0, self.cursor - 1);
            let rest = slice_of(&cs, self.cursor, cs.len());
            crate::text::append_chars(&mut v, &rest);
            assert(v@ =~= cs@.remove(self.cursor - 1));
            self.query = string_of(&v);
            self.cursor = self.cursor - 1;
        }
    }

    pub fn delete_after(&mut self)
        requires
            search_wf(old(self)@),
        ensures
            final(self)@ == spec_delete_after(old(self)@),
    {
        let cs = chars_of(self.query.as_str());
        if self.cursor < cs.len() {
            let mut v = slice_of(&cs, 0, self.cursor);
            let rest = slice_of(&cs, self.cursor + 1, cs.len());
            crate::text::append_chars(&mut v, &rest);
            assert(v@ =~= cs@.remove(self.cursor as int));
            self.query = string_of(&v);
        }
    }

    pub fn move_left(&mut self)
        ensures
            final(self)@ == spec_move_left(old(self)@),
    {
        if self.cursor > 0 {
            self.cursor = self.cursor - 1;
        }
    }

    pub fn move_right(&mut self)
        requires
            search_wf(old(self)@),
        ensures
            final(self)@ == spec_move_right(old(self)@),
    {
        let n = self.char_count();
        if self.cursor < n {
            self.cursor = self.cursor + 1;
        }
    }

    /// Applies a key (see `spec_search_key`).
    pub fn handle_key(&mut self, key: Key) -> (r: SearchState)
        requires
            search_wf(old(self)@),
            old(self)@.query.len() < usize::MAX,
        ensures
            (final(self)@, r) == spec_search_key(old(self)@, key),
    {
        match key {
            Key::Esc => SearchState::Dismiss,
            Key::Left => {
                self.move_left();
                SearchState::Active
            },
            Key::Right => {
                self.move_right();
                SearchState::Active
            },
            Key::Char(c) => {
                self.insert(c);
                SearchState::Active
            },
            Key::Backspace => {
                self.delete_before();
                SearchState::Active
            },
            Key::Delete => {
                self.delete_after();
                SearchState::Active
            },
            Key::Enter => SearchState::Confirm,
            _ => SearchState::Active,
        }
    }

    /// The three pieces the field is drawn from (see `spec_draw_parts`).
    pub fn draw_parts(&self) -> (r: (String, String, String))
        requires
            search_wf(self@),
        ensures
            (r.0@, r.1@, r.2@) == spec_draw_parts(self@),
    {
        let cs = chars_of(self.query.as_str());
        let before = string_of(&slice_of(&cs, 0, self.cursor));
        let under = if self.cursor < cs.len() {
            let mut u = String::new();
            crate::text::push_char(&mut u, cs[self.cursor]);
            assert(u@ =~= seq![cs@[self.cursor as int]]);
            u
        } else {
            String::from_str(" ")
        };
        let after = if self.cursor < cs.len() {
            string_of(&slice_of(&cs, self.cursor + 1, cs.len()))
        } else {
            String::new()
        };
        (before, under, after)
    }
}

/// The outcome of a key: Esc dismisses and Enter confirms, leaving the field
/// as it was; every other key leaves it active. Keys the field does not handle
/// change nothing, and the arrows only move the cursor (stopping at the start
/// and at the end).
pub proof fn lemma_search_key_outcome(s: SearchView, key: Key)
    requires
        search_wf(s),
    ensures
        (spec_search_key(s, key).1 == SearchState::Dismiss) <==> key == Key::Esc,
        (spec_search_key(s, key).1 == SearchState::Confirm) <==> key == Key::Enter,
        (spec_search_key(s, key).1 == SearchState::Active) <==> !(key == Key::Esc || key
            == Key::Enter),
        (key == Key::Esc || key == Key::Enter) ==> spec_search_key(s, key).0 == s,
        !(key is Left || key is Right || key is Char || key is Backspace || key is Delete)
            ==> spec_search_key(s, key).0 == s,
        key == Key::Left ==> spec_search_key(s, key).0.query == s.query
            && spec_search_key(s, key).0.cursor == if s.cursor > 0 {
            (s.cursor - 1) as nat
        } else {
            0
        },
        key == Key::Right ==> spec_search_key(s, key).0.query == s.query
            && spec_search_key(s, key).0.cursor == if s.cursor < s.query.len() {
            s.cursor + 1
        } else {
            s.query.len()
        },
        search_wf(spec_search_key(s, key).0),
{
    lemma_search_key_wf(s, key);
}

/// Every key keeps the cursor inside the query.
pub proof fn lemma_search_key_wf(s: SearchView, key: Key)
    requires
        search_wf(s),
    ensures
        search_wf(spec_search_key(s, key).0),
{
}

/// Typing a character and then pressing Backspace gives back the field as it
/// was.
pub proof fn lemma_insert_then_backspace(s: SearchView, c: char)
    requires
        search_wf(s),
    ensures
        spec_delete_before(spec_insert(s, c)) == s,
{
    assert(s.query.insert(s.cursor as int, c).remove(s.cursor as int) =~= s.query);
}

/// Typing a character, moving left and pressing Delete gives back the field as
/// it was.
pub proof fn lemma_insert_left_delete(s: SearchView, c: char)
    requires
        search_wf(s),
    ensures
        spec_delete_after(spec_move_left(spec_insert(s, c))) == s,
{
    assert(s.query.insert(s.cursor as int, c).remove(s.cursor as int) =~= s.query);
}

/// Moving left and then right from inside the query returns to the same place;
/// so does moving right and then left from before its end.
pub proof fn lemma_left_right(s: SearchView)
    requires
        search_wf(s),
    ensures
        s.cursor > 0 ==> spec_move_right(spec_move_left(s)) == s,
        s.cursor < s.query.len() ==> spec_move_left(spec_move_right(s)) == s,
{
}

/// The three drawn pieces put together are the query, with a space added
/// where the cursor is at the end.
pub proof fn lemma_draw_parts_concat(s: SearchView)
    requires
        search_wf(s),
    ensures
        s.cursor < s.query.len() ==> spec_draw_parts(s).0 + spec_draw_parts(s).1
            + spec_draw_parts(s).2 == s.query,
        s.cursor == s.query.len() ==> spec_draw_parts(s).0 + spec_draw_parts(s).1 + spec_draw_parts(
            s,
        ).2 == s.query + " "@,
{
    if s.cursor < s.query.len() {
        assert(s.query.take(s.cursor as int) + seq![s.query[s.cursor as int]] + s.query.skip(
            (s.cursor + 1) as int,
        ) =~= s.query);
    } else {
        assert(s.query.take(s.cursor as int) =~= s.query);
        assert(s.query.take(s.cursor as int) + " "@ + Seq::<char>::empty() =~= s.query + " "@);
    }
}

} // verus!
