//! What keys do to a line of text, and how sent lines are found again.
use crate::client_laws::pressed;
use crate::input::{back_over_white, back_over_word, InputView};
use crate::keys::{normalized, same_key, KeyCode, KeyEvent};
use crate::protocol::{ClientMessageView, UserInfoView};
use crate::seqs::lemma_filter_from;
use crate::state::{ActionView, CommandView, StateView, StatusView, WorldView};
use crate::text::{begins, is_white, lemma_place_is, lower, lower_char};
use crate::word_laws::{blank, stands_in, unbroken};
use vstd::prelude::*;

verus! {

/// A key without Ctrl.
pub open spec fn plain(code: KeyCode) -> KeyEvent {
    KeyEvent { code, ctrl: false, press: true }
}

/// A letter with Ctrl.
pub open spec fn with_ctrl(ch: char) -> KeyEvent {
    KeyEvent { code: KeyCode::Char(ch), ctrl: true, press: true }
}

/// A character that is typed stands where the cursor stood, with the cursor behind it; all
/// others stay, in their order. A full field takes no more.
pub proof fn law_typing_adds_a_character(input: InputView, ch: char, limit: int)
    requires
        input.wf(),
    ensures
        input.edited(plain(KeyCode::Char(ch)), limit) is Some,
        ({
            let after = input.edited(plain(KeyCode::Char(ch)), limit)->0;
            if input.text.len() < limit {
                &&& after.text.len() == input.text.len() + 1
                &&& after.text[input.cursor] == ch
                &&& forall|i: int| 0 <= i < input.cursor ==> #[trigger] after.text[i] == input.text[i]
                &&& forall|i: int|
                    input.cursor <= i < input.text.len() ==> after.text[i + 1]
                        == #[trigger] input.text[i]
                &&& after.cursor == input.cursor + 1
            } else {
                after == input
            }
        }),
{
    let after = input.edited(plain(KeyCode::Char(ch)), limit)->0;
    if input.text.len() < limit {
        assert(seq![ch].take(1) =~= seq![ch]);
    } else {
        assert(after.text =~= input.text);
    }
}

/// What is pasted stands where the cursor stood, as much of it as fits from its beginning,
/// with the cursor behind it.
pub proof fn law_pasting_adds_a_text(input: InputView, more: Seq<char>, limit: int)
    requires
        input.wf(),
    ensures
        ({
            let after = input.inserted(more, limit);
            let n = after.text.len() - input.text.len();
            &&& 0 <= n <= more.len()
            &&& n < more.len() ==> after.text.len() >= limit
            &&& n > 0 ==> after.text.len() <= limit
            &&& after.text.subrange(input.cursor, input.cursor + n) == more.take(n)
            &&& after.text.take(input.cursor) == input.text.take(input.cursor)
            &&& after.text.skip(input.cursor + n) == input.text.skip(input.cursor)
            &&& after.cursor == input.cursor + n
        }),
{
    let after = input.inserted(more, limit);
    let n = after.text.len() - input.text.len();
    assert(after.text.subrange(input.cursor, input.cursor + n) =~= more.take(n));
    assert(after.text.take(input.cursor) =~= input.text.take(input.cursor));
    assert(after.text.skip(input.cursor + n) =~= input.text.skip(input.cursor));
}

/// Left and Right keep the text and move the cursor by one character, but not out of the
/// text; each takes back the other.
pub proof fn law_arrows_move_by_one(input: InputView, limit: int)
    requires
        input.wf(),
    ensures
        ({
            let left = input.edited(plain(KeyCode::Left), limit);
            let right = input.edited(plain(KeyCode::Right), limit);
            &&& left is Some && right is Some
            &&& left->0.text == input.text && right->0.text == input.text
            &&& input.cursor > 0 ==> left->0.cursor == input.cursor - 1
            &&& input.cursor == 0 ==> left->0.cursor == 0
            &&& input.cursor < input.text.len() ==> right->0.cursor == input.cursor + 1
            &&& input.cursor == input.text.len() ==> right->0.cursor == input.cursor
            &&& input.cursor > 0 ==> left->0.edited(plain(KeyCode::Right), limit) == Some(input)
            &&& input.cursor < input.text.len() ==> right->0.edited(plain(KeyCode::Left), limit)
                == Some(input)
        }),
{
}

/// Home and Ctrl+A lead to the beginning, End and Ctrl+E to the end; the text stays.
pub proof fn law_ends_are_reached(input: InputView, limit: int)
    ensures
        ({
            let first = InputView { text: input.text, cursor: 0 };
            let last = InputView { text: input.text, cursor: input.text.len() as int };
            &&& input.edited(plain(KeyCode::Home), limit) == Some(first)
            &&& input.edited(with_ctrl('a'), limit) == Some(first)
            &&& input.edited(plain(KeyCode::End), limit) == Some(last)
            &&& input.edited(with_ctrl('e'), limit) == Some(last)
        }),
{
}

/// Backspace takes the character before the cursor, Delete the one behind it, and nothing
/// else; at the ends there is nothing to take.
pub proof fn law_one_character_is_taken(input: InputView, limit: int)
    requires
        input.wf(),
    ensures
        ({
            let back = input.edited(plain(KeyCode::Backspace), limit);
            let gone = input.edited(plain(KeyCode::Delete), limit);
            &&& back is Some && gone is Some
            &&& input.cursor > 0 ==> back->0.text == input.text.remove(input.cursor - 1)
                && back->0.cursor == input.cursor - 1
            &&& input.cursor == 0 ==> back->0 == input
            &&& input.cursor < input.text.len() ==> gone->0.text == input.text.remove(input.cursor)
                && gone->0.cursor == input.cursor
            &&& input.cursor == input.text.len() ==> gone->0 == input
        }),
{
    if input.cursor > 0 {
        assert(input.after_backspace().text =~= input.text.remove(input.cursor - 1));
    }
    if input.cursor < input.text.len() {
        assert(input.after_delete().text =~= input.text.remove(input.cursor));
    }
}

/// Ctrl+U takes all before the cursor, Ctrl+K all behind it.
pub proof fn law_halves_are_taken(input: InputView, limit: int)
    requires
        input.wf(),
    ensures
        input.edited(with_ctrl('u'), limit) == Some(
            InputView { text: input.text.skip(input.cursor), cursor: 0 },
        ),
        input.edited(with_ctrl('k'), limit) == Some(
            InputView { text: input.text.take(input.cursor), cursor: input.cursor },
        ),
{
    assert(input.cut(0, input.cursor).text =~= input.text.skip(input.cursor));
    assert(input.cut(input.cursor, input.text.len() as int).text =~= input.text.take(
        input.cursor,
    ));
}

/// Where going back over white space, and over a word, comes to.
proof fn lemma_back_runs(s: Seq<char>, at: int)
    requires
        0 <= at <= s.len(),
    ensures
        ({
            let a = back_over_white(s, at);
            let b = back_over_word(s, at);
            &&& 0 <= a <= at && 0 <= b <= at
            &&& forall|i: int| a <= i < at ==> is_white(#[trigger] s[i])
            &&& a > 0 ==> !is_white(s[a - 1])
            &&& forall|i: int| b <= i < at ==> !is_white(#[trigger] s[i])
            &&& b > 0 ==> is_white(s[b - 1])
        }),
    decreases at,
{
    if at > 0 {
        lemma_back_runs(s, at - 1);
    }
}

/// Ctrl+W takes the word before the cursor and the white space behind that word: what goes
/// is a run without white space, then a run of it; before them there is white space or
/// nothing.
pub proof fn law_a_word_is_taken(input: InputView, limit: int)
    requires
        input.wf(),
    ensures
        input.edited(with_ctrl('w'), limit) is Some,
        ({
            let after = input.edited(with_ctrl('w'), limit)->0;
            let from = after.cursor;
            &&& 0 <= from <= input.cursor
            &&& after.text == input.text.take(from) + input.text.skip(input.cursor)
            &&& from > 0 ==> is_white(input.text[from - 1])
            &&& exists|mid: int|
                from <= mid <= input.cursor && #[trigger] unbroken(input.text.subrange(from, mid))
                    && blank(input.text.subrange(mid, input.cursor)) && (from < mid || from == 0)
        }),
{
    let s = input.text;
    lemma_back_runs(s, input.cursor);
    let mid = back_over_white(s, input.cursor);
    lemma_back_runs(s, mid);
    let from = back_over_word(s, mid);
    let word = s.subrange(from, mid);
    let gap = s.subrange(mid, input.cursor);
    assert forall|i: int| 0 <= i < word.len() implies !is_white(#[trigger] word[i]) by {
        assert(word[i] == s[from + i]);
    }
    assert forall|i: int| 0 <= i < gap.len() implies is_white(#[trigger] gap[i]) by {
        assert(gap[i] == s[mid + i]);
    }
    assert(unbroken(word) && blank(gap));
    if from == mid && from > 0 {
        assert(!is_white(s[mid - 1]));
        assert(is_white(s[from - 1]));
    }
    let after = input.edited(with_ctrl('w'), limit)->0;
    assert(after.cursor == from);
    assert(after.text == s.take(from) + s.skip(input.cursor));
    assert(unbroken(s.subrange(after.cursor, mid)));
}

/// Other keys are not for editing.
pub proof fn law_other_keys_edit_nothing(input: InputView, ch: char, n: u8, limit: int)
    ensures
        input.edited(plain(KeyCode::Enter), limit) is None,
        input.edited(plain(KeyCode::Esc), limit) is None,
        input.edited(plain(KeyCode::Up), limit) is None,
        input.edited(plain(KeyCode::Down), limit) is None,
        input.edited(plain(KeyCode::PageUp), limit) is None,
        input.edited(plain(KeyCode::PageDown), limit) is None,
        input.edited(plain(KeyCode::Tab), limit) is None,
        input.edited(plain(KeyCode::BackTab), limit) is None,
        input.edited(plain(KeyCode::F(n)), limit) is None,
        ch != 'a' && ch != 'e' && ch != 'u' && ch != 'k' && ch != 'w' ==> input.edited(
            with_ctrl(ch),
            limit,
        ) is None,
{
}

/// A Russian letter stands for the Latin one on the same key.
pub proof fn law_letters_share_their_keys(c: char)
    ensures
        c == 'й' ==> same_key(c) == Some('q'),
        c == 'ц' ==> same_key(c) == Some('w'),
        c == 'у' ==> same_key(c) == Some('e'),
        c == 'к' ==> same_key(c) == Some('r'),
        c == 'е' ==> same_key(c) == Some('t'),
        c == 'н' ==> same_key(c) == Some('y'),
        c == 'г' ==> same_key(c) == Some('u'),
        c == 'ш' ==> same_key(c) == Some('i'),
        c == 'щ' ==> same_key(c) == Some('o'),
        c == 'з' ==> same_key(c) == Some('p'),
        c == 'ф' ==> same_key(c) == Some('a'),
        c == 'ы' ==> same_key(c) == Some('s'),
        c == 'в' ==> same_key(c) == Some('d'),
        c == 'а' ==> same_key(c) == Some('f'),
        c == 'п' ==> same_key(c) == Some('g'),
        c == 'р' ==> same_key(c) == Some('h'),
        c == 'о' ==> same_key(c) == Some('j'),
        c == 'л' ==> same_key(c) == Some('k'),
        c == 'д' ==> same_key(c) == Some('l'),
        c == 'я' ==> same_key(c) == Some('z'),
        c == 'ч' ==> same_key(c) == Some('x'),
        c == 'с' ==> same_key(c) == Some('c'),
        c == 'м' ==> same_key(c) == Some('v'),
        c == 'и' ==> same_key(c) == Some('b'),
        c == 'т' ==> same_key(c) == Some('n'),
        c == 'ь' ==> same_key(c) == Some('m'),
{
    reveal_strlit("йцукенгшщзфывапролдячсмить");
    reveal_strlit("qwertyuiopasdfghjklzxcvbnm");
    let russian = "йцукенгшщзфывапролдячсмить"@;
    if stands_in(c, russian) {
        let at = choose|at: int| 0 <= at < russian.len() && #[trigger] russian[at] == c;
        assert forall|i: int| 0 <= i < at implies russian[i] != c by {}
        lemma_place_is(russian, c, at);
    }
    assert(russian[0] == 'й');
    assert(russian[1] == 'ц');
    assert(russian[2] == 'у');
    assert(russian[3] == 'к');
    assert(russian[4] == 'е');
    assert(russian[5] == 'н');
    assert(russian[6] == 'г');
    assert(russian[7] == 'ш');
    assert(russian[8] == 'щ');
    assert(russian[9] == 'з');
    assert(russian[10] == 'ф');
    assert(russian[11] == 'ы');
    assert(russian[12] == 'в');
    assert(russian[13] == 'а');
    assert(russian[14] == 'п');
    assert(russian[15] == 'р');
    assert(russian[16] == 'о');
    assert(russian[17] == 'л');
    assert(russian[18] == 'д');
    assert(russian[19] == 'я');
    assert(russian[20] == 'ч');
    assert(russian[21] == 'с');
    assert(russian[22] == 'м');
    assert(russian[23] == 'и');
    assert(russian[24] == 'т');
    assert(russian[25] == 'ь');
}

/// A shortcut in Russian letters does what the one in Latin letters does; without Ctrl a
/// letter stays itself.
pub proof fn law_shortcuts_in_russian(key: KeyEvent, c: char)
    requires
        key.code == KeyCode::Char(c),
    ensures
        !key.ctrl ==> normalized(key) == key,
        key.ctrl && same_key(lower_char(c)) is Some ==> normalized(key) == (KeyEvent {
            code: KeyCode::Char(same_key(lower_char(c))->0),
            ctrl: true,
            press: key.press,
        }),
        key.ctrl && same_key(lower_char(c)) is None ==> normalized(key) == key,
{
}

/// Whether a room is on the screen and nothing stands above its feed.
pub open spec fn at_the_line(state: StateView) -> bool {
    &&& state.screen is Chat
    &&& state.viewer is None
    &&& state.browser is None
    &&& !state.help
    &&& state.search is None
    &&& state.picking is None
}

/// Whether two clients are the same but for what is typed and what is said about typing.
pub open spec fn same_but_line(a: StateView, b: StateView) -> bool {
    b == StateView {
        input: b.input,
        completion: b.completion,
        typing_sent: b.typing_sent,
        sent: b.sent,
        sent_cursor: b.sent_cursor,
        draft: b.draft,
        ..a
    }
}

/// Whether a key edits a line and means nothing else in a room.
pub open spec fn is_edit(key: KeyEvent) -> bool {
    &&& key.press
    &&& match key.code {
        KeyCode::Char(ch) => !key.ctrl,
        KeyCode::Backspace | KeyCode::Delete | KeyCode::Left | KeyCode::Right | KeyCode::Home
        | KeyCode::End => true,
        _ => false,
    }
}

/// A key that edits does so to the line of the room and to nothing else. While something
/// stands in the line the others are told that one is typing, not more than once in two
/// seconds, and only where there is a connection.
pub proof fn law_line_is_edited(state: StateView, key: KeyEvent, world: WorldView)
    requires
        at_the_line(state),
        is_edit(key),
    ensures
        ({
            let step = state.updated(ActionView::Key(key), world);
            let after = state.input.edited(key, 1000);
            let due = state.status == StatusView::Online && (state.typing_sent is None || world.now
                >= state.typing_sent->0 + 2000);
            &&& after is Some
            &&& step.state.input == after->0
            &&& same_but_line(state, step.state)
            &&& step.state.sent == state.sent
            &&& if after->0.text.len() > 0 && due {
                &&& step.commands == seq![CommandView::Send(ClientMessageView::Typing)]
                &&& step.state.typing_sent == Some(world.now)
            } else {
                &&& step.commands.len() == 0
                &&& step.state.typing_sent == state.typing_sent
            }
        }),
{
    reveal(StateView::key_pressed);
    reveal(StateView::chat_key);
    reveal(StateView::line_key);
    reveal(StateView::editing_key);
    reveal(StateView::typing_announced);
}

/// The shortcuts of a line work in a room as anywhere.
pub proof fn law_line_is_cut(state: StateView, ch: char, world: WorldView)
    requires
        at_the_line(state),
        ch == 'a' || ch == 'e' || ch == 'u' || ch == 'k' || ch == 'w',
        crate::text::lower_char(ch) == ch,
    ensures
        ({
            let step = state.updated(ActionView::Key(with_ctrl(ch)), world);
            let after = state.input.edited(with_ctrl(ch), 1000);
            &&& after is Some
            &&& step.state.input == after->0
            &&& same_but_line(state, step.state)
        }),
{
    reveal(StateView::key_pressed);
    reveal(StateView::chat_key);
    reveal(StateView::line_key);
    reveal(StateView::control_key);
    reveal(StateView::editing_key);
    reveal(StateView::typing_announced);
    crate::keys::lemma_latin_stays(ch);
}

/// Up brings back the line that was sent last, then the ones before it, and stays at the
/// oldest; what was typed meanwhile is kept.
pub proof fn law_up_brings_older_lines(state: StateView, world: WorldView)
    requires
        at_the_line(state),
        state.sent.len() > 0,
        state.sent_cursor matches Some(i) ==> i < state.sent.len(),
    ensures
        ({
            let step = state.updated(pressed(KeyCode::Up), world);
            let at: int = match state.sent_cursor {
                None => state.sent.len() - 1,
                Some(i) => if i == 0 {
                    0
                } else {
                    i - 1
                },
            };
            &&& step.commands.len() == 0
            &&& same_but_line(state, step.state)
            &&& step.state.sent == state.sent
            &&& step.state.sent_cursor == Some(at as usize)
            &&& step.state.input.text == state.sent[at]
            &&& step.state.input.cursor == state.sent[at].len()
            &&& state.sent_cursor is None ==> step.state.draft == state.input.text
            &&& state.sent_cursor is Some ==> step.state.draft == state.draft
        }),
{
    reveal(StateView::key_pressed);
    reveal(StateView::chat_key);
    reveal(StateView::line_key);
    reveal(StateView::recalled);
}

/// Down brings back the newer lines, and behind the newest what was typed before; where no
/// line was brought back it does nothing.
pub proof fn law_down_brings_newer_lines(state: StateView, world: WorldView)
    requires
        at_the_line(state),
        state.sent_cursor matches Some(i) ==> i < state.sent.len(),
        state.sent.len() <= 100,
    ensures
        ({
            let step = state.updated(pressed(KeyCode::Down), world);
            &&& step.commands.len() == 0
            &&& same_but_line(state, step.state)
            &&& step.state.sent == state.sent
            &&& match state.sent_cursor {
                None => step.state.input == state.input && step.state.sent_cursor is None,
                Some(i) => if i + 1 < state.sent.len() {
                    &&& step.state.input.text == state.sent[i + 1]
                    &&& step.state.sent_cursor == Some((i + 1) as usize)
                } else {
                    &&& step.state.input.text == state.draft
                    &&& step.state.sent_cursor is None
                },
            }
        }),
{
    reveal(StateView::key_pressed);
    reveal(StateView::chat_key);
    reveal(StateView::line_key);
    reveal(StateView::recalled);
}

/// A sent line is kept behind the others, once where it was the last one already; of more
/// than a hundred the oldest is forgotten.
pub proof fn law_sent_lines_are_kept(state: StateView, line: Seq<char>)
    ensures
        ({
            let after = state.sent_line(line);
            let again = state.sent.len() > 0 && state.sent.last() == line;
            &&& after.sent.last() == line
            &&& again ==> after.sent == state.sent
            &&& !again && state.sent.len() < 100 ==> after.sent == state.sent.push(line)
            &&& !again && state.sent.len() >= 100 ==> after.sent == state.sent.push(line).skip(1)
            &&& after.sent_cursor is None
        }),
{
    if state.sent.len() >= 100 {
        assert(state.sent.push(line).drop_first() =~= state.sent.push(line).skip(1));
    }
}

/// Whether a word is what completes a beginning: it begins with it, letter case aside.
pub open spec fn completes(word: Seq<char>, prefix: Seq<char>) -> bool {
    lower(prefix).len() <= lower(word).len() && lower(word).subrange(0, lower(prefix).len() as int)
        == lower(prefix)
}

/// Whether somebody in the room has this name.
pub open spec fn is_present(users: Seq<UserInfoView>, name: Seq<char>) -> bool {
    exists|i: int| 0 <= i < users.len() && (#[trigger] users[i]).nickname == name
}

/// Tab behind the beginning of a name writes out the name of somebody in the room, with a
/// comma at the beginning of the line and a space elsewhere; what stands before that word
/// and behind the cursor stays. Where nobody has such a name nothing changes.
pub proof fn law_tab_completes_names(state: StateView, world: WorldView)
    requires
        at_the_line(state),
        state.wf(),
        state.completion is None,
        state.input.cursor > 0,
        !is_white(state.input.text[state.input.cursor - 1]),
        !state.completes_command(),
    ensures
        ({
            let step = state.updated(pressed(KeyCode::Tab), world);
            let text = state.input.text;
            let after = step.state.input;
            &&& step.commands.len() == 0
            &&& same_but_line(state, step.state)
            &&& exists|at: int| #[trigger] begins_a_word(text, at, state.input.cursor) && {
                let prefix = text.subrange(at, state.input.cursor);
                if exists|i: int|
                    0 <= i < state.users.len() && #[trigger] completes(
                        state.users[i].nickname,
                        prefix,
                    ) {
                    exists|name: Seq<char>| #[trigger]
                        is_present(state.users, name) && completes(name, prefix) && after.text
                            == text.take(at) + name + (if at == 0 {
                            seq![',', ' ']
                        } else {
                            seq![' ']
                        }) + text.skip(state.input.cursor)
                } else {
                    after == state.input
                }
            }
        }),
{
    reveal(StateView::key_pressed);
    reveal(StateView::chat_key);
    reveal(StateView::line_key);
    reveal(StateView::completed);
    reveal_strlit(", ");
    reveal_strlit(" ");
    assert(", "@ =~= seq![',', ' ']);
    assert(" "@ =~= seq![' ']);
    let text = state.input.text;
    let cursor = state.input.cursor;
    lemma_back_runs(text, cursor);
    let at = back_over_word(text, cursor);
    assert(at < cursor) by {
        if at == cursor {
            assert(is_white(text[cursor - 1]));
        }
    }
    assert(begins_a_word(text, at, cursor));
    let prefix = text.subrange(at, cursor);
    let test = crate::chat::named_like(lower(prefix));
    let kept = state.users.filter(test);
    lemma_filter_from(state.users, test);
    let found = state.candidates();
    assert(found.len() == kept.len());
    if found.len() > 0 {
        let name = found[0];
        assert(name == kept[0].nickname);
        assert(state.users.contains(kept[0]) && test(kept[0]));
        let i = choose|i: int| 0 <= i < state.users.len() && state.users[i] == kept[0];
        assert(state.users[i].nickname == name);
        assert(completes(state.users[i].nickname, prefix));
        assert(is_present(state.users, name));
        let after = state.completed().input;
        assert(after.text =~= text.take(at) + name + (if at == 0 {
            seq![',', ' ']
        } else {
            seq![' ']
        }) + text.skip(cursor));
    } else {
        assert forall|i: int| 0 <= i < state.users.len() implies !#[trigger] completes(
            state.users[i].nickname,
            prefix,
        ) by {
            if completes(state.users[i].nickname, prefix) {
                assert(test(state.users[i]));
                assert(kept.contains(state.users[i]));
            }
        }
    }
}

/// Tab again goes on to the next way to complete the same word, and from the last one back
/// to the first.
pub proof fn law_tab_goes_round(state: StateView)
    requires
        state.completion is Some,
        state.completion->0.prefix.len() > 0,
        state.completion->0.index < state.candidates().len() <= 1000,
    ensures
        ({
            let before = state.completion->0;
            let after = state.completed().completion;
            &&& after is Some
            &&& after->0.prefix == before.prefix
            &&& after->0.at == before.at
            &&& before.index + 1 < state.candidates().len() ==> after->0.index == before.index + 1
            &&& before.index + 1 == state.candidates().len() ==> after->0.index == 0
        }),
{
    reveal(StateView::completed);
    let n = state.candidates().len() as int;
    let i = state.completion->0.index as int;
    if i + 1 < n {
        vstd::arithmetic::div_mod::lemma_small_mod((i + 1) as nat, n as nat);
    } else {
        vstd::arithmetic::div_mod::lemma_mod_self_0(n);
    }
}

/// Whether a word begins at a position and goes on to another one.
pub open spec fn begins_a_word(s: Seq<char>, at: int, to: int) -> bool {
    &&& 0 <= at < to <= s.len()
    &&& at > 0 ==> is_white(s[at - 1])
    &&& forall|i: int| at <= i < to ==> !is_white(#[trigger] s[i])
}

/// Every command can be completed from its beginning at the beginning of the line, and what
/// Tab writes there is a command with a space behind it.
pub proof fn law_tab_completes_commands(state: StateView, world: WorldView)
    requires
        at_the_line(state),
        state.completion is None,
        state.input.cursor == state.input.text.len(),
        state.input.text.len() > 0,
        unbroken(state.input.text),
        state.input.text[0] == '/',
    ensures
        ({
            let step = state.updated(pressed(KeyCode::Tab), world);
            let typed = lower(state.input.text);
            let after = step.state.input;
            &&& step.commands.len() == 0
            &&& same_but_line(state, step.state)
            &&& if exists|k: int| 0 <= k < 16 && begins(#[trigger] known_command(k), typed) {
                exists|k: int|
                    0 <= k < 16 && begins(#[trigger] known_command(k), typed) && after.text
                        == known_command(k) + seq![' ']
            } else {
                after == state.input
            }
        }),
{
    reveal(StateView::key_pressed);
    reveal(StateView::chat_key);
    reveal(StateView::line_key);
    reveal(StateView::completed);
    reveal_strlit(" ");
    reveal_strlit("/");
    assert(" "@ =~= seq![' ']);
    let text = state.input.text;
    lemma_back_runs(text, state.input.cursor);
    let at = back_over_word(text, state.input.cursor);
    assert(at == 0) by {
        if at > 0 {
            assert(!is_white(text[at - 1]));
        }
    }
    let prefix = text.subrange(0, state.input.cursor);
    assert(prefix =~= text);
    assert(prefix.subrange(0, 1) =~= "/"@);
    let names = crate::chat::command_names();
    let test = crate::chat::begins_like(lower(prefix));
    lemma_filter_from(names, test);
    let kept = names.filter(test);
    assert forall|k: int| 0 <= k < 16 implies names[k] == #[trigger] known_command(k) by {}
    if kept.len() > 0 {
        assert(names.contains(kept[0]) && test(kept[0]));
        let k = choose|k: int| 0 <= k < names.len() && names[k] == kept[0];
        assert(names[k] == known_command(k));
        let after = state.completed().input;
        assert(after.text =~= known_command(k) + seq![' ']);
        assert(begins(known_command(k), lower(text)));
    } else {
        assert forall|k: int| 0 <= k < 16 implies !begins(#[trigger] known_command(k), lower(text)) by {
            if begins(known_command(k), lower(text)) {
                assert(names[k] == known_command(k));
                assert(test(names[k]));
                assert(kept.contains(names[k]));
            }
        }
    }
}

/// The commands, in the order in which Tab offers them.
pub open spec fn known_command(k: int) -> Seq<char> {
    if k == 0 {
        "/help"@
    } else if k == 1 {
        "/join"@
    } else if k == 2 {
        "/rooms"@
    } else if k == 3 {
        "/nick"@
    } else if k == 4 {
        "/send"@
    } else if k == 5 {
        "/view"@
    } else if k == 6 {
        "/play"@
    } else if k == 7 {
        "/stop"@
    } else if k == 8 {
        "/save"@
    } else if k == 9 {
        "/open"@
    } else if k == 10 {
        "/color"@
    } else if k == 11 {
        "/clear"@
    } else if k == 12 {
        "/host"@
    } else if k == 13 {
        "/menu"@
    } else if k == 14 {
        "/rec"@
    } else {
        "/quit"@
    }
}

} // verus!
