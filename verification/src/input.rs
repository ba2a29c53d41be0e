//! A field of one line: its text and the place of the cursor.
use crate::keys::{KeyCode, KeyEvent};
use crate::text::{chars_of, is_white, text_between, white};
use vstd::prelude::*;
use vstd::string::*;

verus! {

/// A field of one line. The cursor is counted in characters.
#[derive(Debug)]
pub struct Input {
    pub text: String,
    pub cursor: usize,
}

#[verifier::ext_equal]
pub struct InputView {
    pub text: Seq<char>,
    pub cursor: int,
}

impl DeepView for Input {
    type V = InputView;

    open spec fn deep_view(&self) -> InputView {
        InputView { text: self.text@, cursor: self.cursor as int }
    }
}

impl Clone for Input {
    fn clone(&self) -> (r: Self)
        ensures
            r.deep_view() == self.deep_view(),
    {
        Input { text: self.text.clone(), cursor: self.cursor }
    }
}

/// Back over the white space in front of a position.
pub open spec fn back_over_white(s: Seq<char>, at: int) -> int
    decreases at,
{
    if 0 < at <= s.len() && is_white(s[at - 1]) {
        back_over_white(s, at - 1)
    } else {
        at
    }
}

/// Back over the word in front of a position.
pub open spec fn back_over_word(s: Seq<char>, at: int) -> int
    decreases at,
{
    if 0 < at <= s.len() && !is_white(s[at - 1]) {
        back_over_word(s, at - 1)
    } else {
        at
    }
}

/// Going back stops between the beginning and where it started.
pub proof fn lemma_back(s: Seq<char>, at: int)
    requires
        0 <= at <= s.len(),
    ensures
        0 <= back_over_white(s, at) <= at,
        0 <= back_over_word(s, at) <= at,
    decreases at,
{
    if at > 0 {
        lemma_back(s, at - 1);
    }
}

impl InputView {
    /// The cursor stands inside the text or right behind it.
    pub open spec fn wf(self) -> bool {
        0 <= self.cursor <= self.text.len()
    }

    /// A field with the cursor behind its text.
    pub open spec fn of(text: Seq<char>) -> InputView {
        InputView { text, cursor: text.len() as int }
    }

    /// How many of the given characters still fit.
    pub open spec fn fitting(self, more: nat, limit: int) -> int {
        if self.text.len() >= limit {
            0
        } else if more <= limit - self.text.len() {
            more as int
        } else {
            limit - self.text.len()
        }
    }

    /// As much of a text put in at the cursor as still fits.
    pub open spec fn inserted(self, more: Seq<char>, limit: int) -> InputView {
        let n = self.fitting(more.len(), limit);
        InputView {
            text: self.text.take(self.cursor) + more.take(n) + self.text.skip(self.cursor),
            cursor: self.cursor + n,
        }
    }

    /// Without what stands between two positions, the cursor at the first of them.
    pub open spec fn cut(self, from: int, to: int) -> InputView {
        InputView { text: self.text.take(from) + self.text.skip(to), cursor: from }
    }

    pub open spec fn after_backspace(self) -> InputView {
        if self.cursor > 0 {
            self.cut(self.cursor - 1, self.cursor)
        } else {
            self
        }
    }

    pub open spec fn after_delete(self) -> InputView {
        if self.cursor < self.text.len() {
            self.cut(self.cursor, self.cursor + 1)
        } else {
            self
        }
    }

    /// Without the word in front of the cursor and the white space that clings to
    /// it.
    pub open spec fn without_word(self) -> InputView {
        self.cut(back_over_word(self.text, back_over_white(self.text, self.cursor)), self.cursor)
    }

    /// What a key makes of a field; nothing where the key is not for editing.
    pub open spec fn edited(self, key: KeyEvent, limit: int) -> Option<InputView> {
        match key.code {
            KeyCode::Char(ch) => if !key.ctrl {
                Some(self.inserted(seq![ch], limit))
            } else if ch == 'a' {
                Some(InputView { cursor: 0, ..self })
            } else if ch == 'e' {
                Some(InputView { cursor: self.text.len() as int, ..self })
            } else if ch == 'u' {
                Some(self.cut(0, self.cursor))
            } else if ch == 'k' {
                Some(self.cut(self.cursor, self.text.len() as int))
            } else if ch == 'w' {
                Some(self.without_word())
            } else {
                None
            },
            KeyCode::Backspace => Some(self.after_backspace()),
            KeyCode::Delete => Some(self.after_delete()),
            KeyCode::Left => Some(
                InputView {
                    cursor: if self.cursor > 0 {
                        self.cursor - 1
                    } else {
                        0
                    },
                    ..self
                },
            ),
            KeyCode::Right => Some(
                InputView {
                    cursor: if self.cursor < self.text.len() {
                        self.cursor + 1
                    } else {
                        self.text.len() as int
                    },
                    ..self
                },
            ),
            KeyCode::Home => Some(InputView { cursor: 0, ..self }),
            KeyCode::End => Some(InputView { cursor: self.text.len() as int, ..self }),
            _ => None,
        }
    }
}

impl Input {
    /// A field with the cursor behind its text.
    pub fn new(text: &str) -> (r: Self)
        ensures
            r.deep_view() == InputView::of(text@),
    {
        Input { text: text.to_owned(), cursor: text.unicode_len() }
    }

    /// How many characters there are.
    pub fn len(&self) -> (n: usize)
        ensures
            n == self.text@.len(),
    {
        self.text.as_str().unicode_len()
    }

    pub fn is_empty(&self) -> (r: bool)
        ensures
            r == (self.text@.len() == 0),
    {
        self.text.as_str().is_empty()
    }

    /// Puts a text in at the cursor, as much of it as the limit allows.
    #[verifier::loop_isolation(false)]
    pub fn insert(&mut self, text: &str, limit: usize)
        requires
            old(self).deep_view().wf(),
        ensures
            final(self).deep_view() == old(self).deep_view().inserted(text@, limit as int),
            final(self).deep_view().wf(),
    {
        let ghost before = self.deep_view();
        let have = chars_of(self.text.as_str());
        let more = chars_of(text);
        let n: usize = if have.len() >= limit {
            0
        } else if more.len() <= limit - have.len() {
            more.len()
        } else {
            limit - have.len()
        };
        let mut s = text_between(&have, 0, self.cursor);
        s.append(text_between(&more, 0, n).as_str());
        s.append(text_between(&have, self.cursor, have.len()).as_str());
        assert(s@ =~= before.inserted(text@, limit as int).text);
        self.cursor = self.cursor + n;
        self.text = s;
    }

    /// Cuts out what stands between two positions and leaves the cursor there.
    fn cut(&mut self, from: usize, to: usize)
        requires
            old(self).deep_view().wf(),
            from <= to <= old(self).text@.len(),
        ensures
            final(self).deep_view() == old(self).deep_view().cut(from as int, to as int),
            final(self).deep_view().wf(),
    {
        let ghost before = self.deep_view();
        let have = chars_of(self.text.as_str());
        let mut s = text_between(&have, 0, from);
        s.append(text_between(&have, to, have.len()).as_str());
        assert(s@ =~= before.cut(from as int, to as int).text);
        self.text = s;
        self.cursor = from;
    }

    /// Removes the character in front of the cursor.
    pub fn backspace(&mut self)
        requires
            old(self).deep_view().wf(),
        ensures
            final(self).deep_view() == old(self).deep_view().after_backspace(),
            final(self).deep_view().wf(),
    {
        if self.cursor > 0 {
            self.cut(self.cursor - 1, self.cursor);
        }
    }

    /// Removes the character behind the cursor.
    pub fn delete(&mut self)
        requires
            old(self).deep_view().wf(),
        ensures
            final(self).deep_view() == old(self).deep_view().after_delete(),
            final(self).deep_view().wf(),
    {
        if self.cursor < self.len() {
            self.cut(self.cursor, self.cursor + 1);
        }
    }

    /// Removes the word in front of the cursor along with the white space that
    /// clings to it.
    #[verifier::loop_isolation(false)]
    pub fn kill_word(&mut self)
        requires
            old(self).deep_view().wf(),
        ensures
            final(self).deep_view() == old(self).deep_view().without_word(),
            final(self).deep_view().wf(),
    {
        let chars = chars_of(self.text.as_str());
        let ghost s = chars@;
        let mut end: usize = self.cursor;
        while end > 0 && white(chars[end - 1])
            invariant
                end <= self.cursor,
                back_over_white(s, self.cursor as int) == back_over_white(s, end as int),
            decreases end,
        {
            end = end - 1;
        }
        let ghost middle = end as int;
        while end > 0 && !white(chars[end - 1])
            invariant
                end <= middle <= self.cursor,
                back_over_word(s, middle) == back_over_word(s, end as int),
            decreases end,
        {
            end = end - 1;
        }
        self.cut(end, self.cursor);
    }

    /// Removes everything in front of the cursor.
    pub fn kill_to_start(&mut self)
        requires
            old(self).deep_view().wf(),
        ensures
            final(self).deep_view() == old(self).deep_view().cut(0, old(self).cursor as int),
            final(self).deep_view().wf(),
    {
        self.cut(0, self.cursor);
    }

    /// Removes everything behind the cursor.
    pub fn kill_to_end(&mut self)
        requires
            old(self).deep_view().wf(),
        ensures
            final(self).deep_view() == old(self).deep_view().cut(
                old(self).cursor as int,
                old(self).text@.len() as int,
            ),
            final(self).deep_view().wf(),
    {
        self.cut(self.cursor, self.len());
    }

    /// Replaces the text and puts the cursor behind it.
    pub fn set(&mut self, text: &str)
        ensures
            final(self).deep_view() == InputView::of(text@),
    {
        *self = Input::new(text);
    }

    /// Removes everything.
    pub fn clear(&mut self)
        ensures
            final(self).deep_view() == InputView::of(Seq::empty()),
    {
        self.text = String::new();
        self.cursor = 0;
    }
}

impl Default for Input {
    fn default() -> (r: Self)
        ensures
            r.deep_view() == InputView::of(Seq::empty()),
    {
        Input { text: String::new(), cursor: 0 }
    }
}

/// Edits a field by a key, the same for all fields. The result says whether the
/// key was for editing.
pub fn edit_key(input: &mut Input, key: KeyEvent, limit: usize) -> (r: bool)
    requires
        old(input).deep_view().wf(),
    ensures
        match old(input).deep_view().edited(key, limit as int) {
            Some(after) => r && final(input).deep_view() == after,
            None => !r && final(input).deep_view() == old(input).deep_view(),
        },
        final(input).deep_view().wf(),
{
    match key.code {
        KeyCode::Char(ch) => {
            if !key.ctrl {
                let mut one = String::new();
                one.push(ch);
                assert(one@ =~= seq![ch]);
                input.insert(one.as_str(), limit);
            } else if ch == 'a' {
                input.cursor = 0;
            } else if ch == 'e' {
                input.cursor = input.len();
            } else if ch == 'u' {
                input.kill_to_start();
            } else if ch == 'k' {
                input.kill_to_end();
            } else if ch == 'w' {
                input.kill_word();
            } else {
                return false;
            }
        },
        KeyCode::Backspace => input.backspace(),
        KeyCode::Delete => input.delete(),
        KeyCode::Left => {
            if input.cursor > 0 {
                input.cursor = input.cursor - 1;
            }
        },
        KeyCode::Right => {
            if input.cursor < input.len() {
                input.cursor = input.cursor + 1;
            }
        },
        KeyCode::Home => {
            input.cursor = 0;
        },
        KeyCode::End => {
            input.cursor = input.len();
        },
        _ => {
            return false;
        },
    }
    true
}

/// No key leads the cursor out of the text, and none makes the text longer than
/// the limit and than it was.
pub proof fn law_editing_keeps_bounds(input: InputView, key: KeyEvent, limit: int)
    requires
        input.wf(),
        limit >= 0,
    ensures
        input.edited(key, limit) matches Some(after) ==> after.wf() && (after.text.len() <= limit
            || after.text.len() <= input.text.len()),
{
    lemma_back(input.text, input.cursor);
    lemma_back(input.text, back_over_white(input.text, input.cursor));
}

/// A character that was typed in is taken back by one backspace.
pub proof fn law_backspace_takes_back(input: InputView, ch: char, limit: int)
    requires
        input.wf(),
        input.text.len() < limit,
    ensures
        input.inserted(seq![ch], limit).after_backspace() == input,
{
    let typed = input.inserted(seq![ch], limit);
    assert(seq![ch].take(1) =~= seq![ch]);
    assert(typed.after_backspace().text =~= input.text);
}

/// Cutting to the start and then to the end leaves nothing.
pub proof fn law_both_cuts_leave_nothing(input: InputView)
    requires
        input.wf(),
    ensures
        ({
            let half = input.cut(0, input.cursor);
            half.cut(half.cursor, half.text.len() as int) == InputView::of(Seq::empty())
        }),
{
    let half = input.cut(0, input.cursor);
    assert(half.cut(half.cursor, half.text.len() as int).text =~= Seq::<char>::empty());
}

} // verus!
