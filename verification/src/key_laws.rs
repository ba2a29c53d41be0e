//! What the keys do in a room: what stands above the feed, the search, the walk through
//! the feed, and the keys that do a thing at once.
use crate::answer_laws::{is_done_with, is_kept, law_attachment_is_used};
use crate::client_laws::law_search_finds_all;
use crate::command_laws::{
    address_of_file, attached, is_played, last_of_all, last_of_kind, law_entry_is_added,
    talk_goes_on,
};
use crate::keys::{KeyCode, KeyEvent};
use crate::line_laws::{at_the_line, plain, with_ctrl};
use crate::protocol::{AttachmentKind, AttachmentView};
use crate::seqs::{
    first_where, last_where, lemma_first_where, lemma_last_where, lemma_last_where_is,
};
use crate::state::{
    ActionView, CommandView, EntryView, Pick, PickMode, SearchView, StateView, Step, SystemKind,
    WorldView,
};
use crate::text::{lower, lower_char, occurs, occurs_at};
use crate::walk::{is_stop, matching, words_of};
use vstd::prelude::*;

verus! {

/// What a key does.
pub open spec fn after_key(state: StateView, key: KeyEvent, world: WorldView) -> Step {
    state.updated(ActionView::Key(key), world)
}

/// Escape, Enter and `q` close the picture above the feed; no other key does anything
/// there.
pub proof fn law_picture_is_closed(state: StateView, key: KeyEvent, world: WorldView)
    requires
        state.screen is Chat,
        state.viewer is Some,
        key.press && !key.ctrl,
    ensures
        ({
            let step = after_key(state, key, world);
            let closes = key.code == KeyCode::Esc || key.code == KeyCode::Enter || key.code
                == KeyCode::Char('q');
            &&& step.commands.len() == 0
            &&& closes ==> step.state == (StateView { viewer: None, ..state })
            &&& !closes ==> step.state == state
        }),
{
    reveal(StateView::key_pressed);
    reveal(StateView::chat_key);
}

/// The arrows turn the help by a line, PageUp and PageDown by ten, neither above its
/// beginning nor below its end; any other key closes it. Nothing else changes.
pub proof fn law_help_is_turned(state: StateView, code: KeyCode, world: WorldView)
    requires
        state.screen is Chat,
        state.viewer is None,
        state.browser is None,
        state.help,
        state.help_scroll <= 28,
    ensures
        ({
            let step = after_key(state, plain(code), world);
            let at = state.help_scroll as int;
            &&& step.commands.len() == 0
            &&& step.state == (StateView {
                help: step.state.help,
                help_scroll: step.state.help_scroll,
                ..state
            })
            &&& code == KeyCode::Down ==> step.state.help && step.state.help_scroll == if at < 28 {
                at + 1
            } else {
                28
            }
            &&& code == KeyCode::Up ==> step.state.help && step.state.help_scroll == if at > 0 {
                at - 1
            } else {
                0
            }
            &&& code == KeyCode::PageDown ==> step.state.help && step.state.help_scroll == if at
                < 18 {
                at + 10
            } else {
                28
            }
            &&& code == KeyCode::PageUp ==> step.state.help && step.state.help_scroll == if at
                > 10 {
                at - 10
            } else {
                0
            }
            &&& code != KeyCode::Down && code != KeyCode::Up && code != KeyCode::PageDown && code
                != KeyCode::PageUp ==> !step.state.help
        }),
{
    reveal(StateView::key_pressed);
    reveal(StateView::chat_key);
    reveal(StateView::help_key);
}

/// PageUp and PageDown scroll the feed by ten lines, up to its beginning and down to its
/// end.
pub proof fn law_pages_are_turned(state: StateView, world: WorldView)
    requires
        at_the_line(state),
    ensures
        ({
            let top = if state.viewport.total_lines > state.viewport.height {
                state.viewport.total_lines - state.viewport.height
            } else {
                0
            };
            let at = state.scrollback as int;
            let up = after_key(state, plain(KeyCode::PageUp), world);
            let down = after_key(state, plain(KeyCode::PageDown), world);
            &&& up.commands.len() == 0 && down.commands.len() == 0
            &&& up.state == (StateView {
                scrollback: up.state.scrollback,
                completion: None,
                ..state
            })
            &&& down.state == (StateView {
                scrollback: down.state.scrollback,
                completion: None,
                ..state
            })
            &&& at <= top ==> up.state.scrollback == if at + 10 <= top {
                at + 10
            } else {
                top as int
            }
            &&& at <= top ==> down.state.scrollback == if at >= 10 {
                at - 10
            } else {
                0
            }
        }),
{
    reveal(StateView::key_pressed);
    reveal(StateView::chat_key);
    reveal(StateView::line_key);
}

/// F1 opens the help, F2 begins or ends a recording, F3 stops what plays; they change
/// nothing else.
pub proof fn law_upper_row(state: StateView, world: WorldView)
    requires
        at_the_line(state),
    ensures
        ({
            let calm = StateView { completion: None, ..state };
            let one = after_key(state, plain(KeyCode::F(1)), world);
            let two = after_key(state, plain(KeyCode::F(2)), world);
            let three = after_key(state, plain(KeyCode::F(3)), world);
            &&& one.commands.len() == 0
            &&& one.state == (StateView { help: true, help_scroll: 0, ..calm })
            &&& two.commands == seq![CommandView::ToggleRecording]
            &&& two.state == calm
            &&& state.playing ==> three.commands == seq![CommandView::StopVoice] && three.state
                == calm
        }),
{
    reveal(StateView::key_pressed);
    reveal(StateView::chat_key);
    reveal(StateView::line_key);
    reveal(StateView::function_key);
}

/// F3 plays the last voice where nothing plays; F5 keeps the last attachment and F6 opens
/// it.
pub proof fn law_upper_row_uses_the_last(
    state: StateView,
    world: WorldView,
    k: int,
    a: AttachmentView,
)
    requires
        at_the_line(state),
        state.media_base.len() > 0,
        state.entries.len() <= 2000,
    ensures
        last_of_kind(state, k, a) && a.kind == AttachmentKind::Audio && !state.playing
            ==> is_played(
            StateView { completion: None, ..state },
            after_key(state, plain(KeyCode::F(3)), world),
            a,
        ),
        last_of_all(state, k, a) ==> is_kept(
            StateView { completion: None, ..state },
            after_key(state, plain(KeyCode::F(5)), world),
            a,
        ),
        last_of_all(state, k, a) ==> {
            let step = after_key(state, plain(KeyCode::F(6)), world);
            &&& step.commands == seq![CommandView::Open(address_of_file(state, a))]
            &&& talk_goes_on(state, step.state)
        },
{
    reveal(StateView::key_pressed);
    reveal(StateView::chat_key);
    reveal(StateView::line_key);
    reveal(StateView::function_key);
    reveal(StateView::play_newest);
    reveal(StateView::save_newest);
    reveal(StateView::open_newest);
    reveal(StateView::played);
    reveal(StateView::saved);
    reveal(StateView::opened);
    let calm = StateView { completion: None, ..state };
    crate::answer_laws::lemma_no_path();
    if last_of_kind(state, k, a) {
        assert(last_of_kind(calm, k, a));
        crate::command_laws::lemma_last_of_kind(calm, k, a);
    }
    if last_of_all(state, k, a) {
        assert(last_of_all(calm, k, a));
        crate::command_laws::lemma_last_of_all(calm, k, a);
        law_entry_is_added(
            calm,
            EntryView::System { text: "открываю "@ + a.name, kind: SystemKind::Info },
        );
    }
}

/// F4 and Ctrl+O open the list of files where there is a connection.
pub proof fn law_files_are_opened(state: StateView, key: KeyEvent, world: WorldView)
    requires
        at_the_line(state),
        state.status is Online,
        state.media_base.len() > 0,
        key == plain(KeyCode::F(4)) || (key == with_ctrl('o') && lower_char('o') == 'o'),
    ensures
        ({
            let step = after_key(state, key, world);
            &&& step.commands == seq![CommandView::ReadDir(world.start_dir)]
            &&& step.state.browser is Some
            &&& step.state.browser->0.dir == world.start_dir
            &&& step.state.browser->0.loading
            &&& step.state == (StateView {
                completion: None,
                browser: step.state.browser,
                ..state
            })
        }),
{
    reveal(StateView::key_pressed);
    reveal(StateView::chat_key);
    reveal(StateView::line_key);
    reveal(StateView::control_key);
    reveal(StateView::function_key);
    reveal(StateView::sending);
    crate::answer_laws::lemma_no_path();
    crate::keys::lemma_latin_stays('o');
}

/// Ctrl+C, Ctrl+D and Ctrl+Q close the program from the line; Ctrl+P shows and hides the
/// list of people, and that is kept; Ctrl+F begins a search for nothing yet.
pub proof fn law_shortcuts(state: StateView, ch: char, world: WorldView)
    requires
        at_the_line(state),
        lower_char(ch) == ch,
        ch == 'c' || ch == 'd' || ch == 'q' || ch == 'p' || ch == 'f',
    ensures
        ({
            let step = after_key(state, with_ctrl(ch), world);
            let calm = StateView { completion: None, ..state };
            &&& ch == 'c' || ch == 'd' || ch == 'q' ==> step.commands == seq![CommandView::Quit]
                && step.state == (StateView { should_quit: true, ..calm })
            &&& ch == 'p' ==> step.commands == seq![CommandView::SaveConfig] && step.state
                == (StateView { sidebar: !state.sidebar, ..calm })
            &&& ch == 'f' ==> {
                &&& step.commands.len() == 0
                &&& step.state == (StateView { search: step.state.search, ..calm })
                &&& step.state.search matches Some(search)
                &&& search.query.text.len() == 0 && search.matches.len() == 0
            }
        }),
{
    reveal(StateView::key_pressed);
    reveal(StateView::chat_key);
    reveal(StateView::line_key);
    reveal(StateView::control_key);
    crate::keys::lemma_latin_stays(ch);
}

/// What an entry says.
pub open spec fn said(entry: EntryView) -> Seq<char> {
    match entry {
        EntryView::Chat { text, .. } => text,
        EntryView::System { text, .. } => text,
    }
}

/// Whether a word is in an entry, whatever the case of the letters.
pub open spec fn has_word(entry: EntryView, word: Seq<char>) -> bool {
    let text = lower(said(entry));
    exists|i: int|
        0 <= i <= text.len() - lower(word).len() && #[trigger] text.subrange(
            i,
            i + lower(word).len(),
        ) == lower(word)
}

proof fn lemma_has_word(entry: EntryView, word: Seq<char>)
    ensures
        has_word(entry, word) == occurs(lower(words_of(entry)), lower(word)),
{
    let text = lower(words_of(entry));
    assert(said(entry) == words_of(entry));
    if has_word(entry, word) {
        let i = choose|i: int|
            0 <= i <= text.len() - lower(word).len() && #[trigger] text.subrange(
                i,
                i + lower(word).len(),
            ) == lower(word);
        assert(occurs_at(text, lower(word), i));
    }
    if occurs(text, lower(word)) {
        let i = choose|i: int| occurs_at(text, lower(word), i);
        assert(text.subrange(i, i + lower(word).len()) == lower(word));
    }
}

/// Whether a search stands at the newest of all entries with its word, and knows every one
/// of them, the oldest first.
pub open spec fn has_found(entries: Seq<EntryView>, search: SearchView) -> bool {
    &&& forall|k: int|
        0 <= k < search.matches.len() ==> (#[trigger] search.matches[k]) < entries.len()
            && has_word(entries[search.matches[k] as int], search.query.text)
    &&& forall|i: int|
        0 <= i < entries.len() && has_word(#[trigger] entries[i], search.query.text)
            ==> search.matches.contains(i as usize)
    &&& forall|j: int, k: int|
        0 <= j < k < search.matches.len() ==> (#[trigger] search.matches[j]) < (
        #[trigger] search.matches[k])
    &&& search.matches.len() > 0 ==> search.current == search.matches.len() - 1
}

/// Whether the feed is being searched with nothing above it.
pub open spec fn searching(state: StateView) -> bool {
    &&& state.screen is Chat
    &&& state.viewer is None
    &&& state.browser is None
    &&& !state.help
    &&& state.search is Some
}

/// What is led to stands in the middle of the pane, as far as the feed goes: half of the
/// pane is above it and half below.
pub proof fn law_match_stands_in_the_middle(state: StateView, entry: int)
    requires
        0 <= entry < state.entry_lines.len(),
        state.viewport.height >= 1,
    ensures
        ({
            let at = state.entry_lines[entry] as int;
            let half = state.viewport.height as int / 2;
            let total = state.viewport.total_lines as int;
            let (start, end) = state.centred_on(entry).window();
            state.viewport.height <= at + half + 1 <= total ==> {
                &&& end == at + half + 1
                &&& end - start == state.viewport.height
                &&& at - start == state.viewport.height - half - 1
            }
        }),
        state.centred_on(entry) == (StateView {
            scrollback: state.centred_on(entry).scrollback,
            ..state
        }),
{
    reveal(StateView::centred_on);
}

/// Every key that edits the word looks through the whole feed anew and stands at the newest
/// entry with it; nothing in the feed changes.
pub proof fn law_search_follows_the_word(state: StateView, key: KeyEvent, world: WorldView)
    requires
        searching(state),
        key.press && !key.ctrl,
        key.code is Char || key.code == KeyCode::Backspace || key.code == KeyCode::Delete,
        state.entries.len() <= 2000,
    ensures
        ({
            let step = after_key(state, key, world);
            let query = state.search->0.query.edited(key, 1000);
            &&& step.commands.len() == 0
            &&& query is Some
            &&& step.state.search matches Some(search)
            &&& search.query == query->0
            &&& step.state == (StateView {
                search: step.state.search,
                scrollback: step.state.scrollback,
                ..state
            })
            &&& lower(search.query.text).len() > 0 ==> has_found(state.entries, search)
            &&& lower(search.query.text).len() == 0 ==> search.matches.len() == 0
            &&& search.matches.len() > 0 ==> step.state.scrollback == state.centred_on(
                search.matches.last() as int,
            ).scrollback
        }),
{
    reveal(StateView::key_pressed);
    reveal(StateView::chat_key);
    reveal(StateView::search_key);
    reveal(StateView::matches_refreshed);
    reveal(StateView::centred_on);
    let query = state.search->0.query.edited(key, 1000)->0;
    let needle = lower(query.text);
    let found = matching(state.entries, needle);
    let step = after_key(state, key, world);
    assert(step.state.search->0.matches == found);
    if needle.len() > 0 {
        lemma_matching_len(state.entries, needle);
        law_search_finds_all(state.entries, needle);
        assert forall|k: int| 0 <= k < found.len() implies (#[trigger] found[k])
            < state.entries.len() && has_word(state.entries[found[k] as int], query.text) by {
            let i = found[k] as int;
            assert(found.contains(i as usize));
            assert(occurs(lower(words_of(state.entries[i])), needle));
            lemma_has_word(state.entries[i], query.text);
        }
        assert forall|i: int|
            0 <= i < state.entries.len() && has_word(
                #[trigger] state.entries[i],
                query.text,
            ) implies found.contains(i as usize) by {
            lemma_has_word(state.entries[i], query.text);
        }
    }
}

proof fn lemma_matching_len(entries: Seq<EntryView>, needle: Seq<char>)
    ensures
        matching(entries, needle).len() <= entries.len(),
    decreases entries.len(),
{
    if entries.len() > 0 && needle.len() > 0 {
        lemma_matching_len(entries.drop_last(), needle);
    }
}

/// Enter and Down go on to the next match and from the last one to the first; Up goes back
/// the same way. Escape ends the search. The matches stay.
pub proof fn law_search_goes_round(state: StateView, code: KeyCode, world: WorldView)
    requires
        searching(state),
        state.search->0.current < state.search->0.matches.len(),
        state.search->0.matches.len() <= 2000,
        code == KeyCode::Enter || code == KeyCode::Down || code == KeyCode::Up || code
            == KeyCode::Esc,
    ensures
        ({
            let step = after_key(state, plain(code), world);
            let search = state.search->0;
            let n = search.matches.len();
            &&& step.commands.len() == 0
            &&& code == KeyCode::Esc ==> step.state == (StateView { search: None, ..state })
            &&& code != KeyCode::Esc ==> {
                &&& step.state.search matches Some(after)
                &&& after.matches == search.matches && after.query == search.query
                &&& step.state == (StateView {
                    search: step.state.search,
                    scrollback: step.state.scrollback,
                    ..state
                })
                &&& code != KeyCode::Up ==> after.current == if search.current + 1 < n {
                    search.current + 1
                } else {
                    0
                }
                &&& code == KeyCode::Up ==> after.current == if search.current > 0 {
                    search.current - 1
                } else {
                    n - 1
                }
                &&& step.state.scrollback == state.centred_on(
                    after.matches[after.current as int] as int,
                ).scrollback
            }
        }),
{
    reveal(StateView::key_pressed);
    reveal(StateView::chat_key);
    reveal(StateView::search_key);
    reveal(StateView::match_stepped);
    reveal(StateView::centred_on);
    let search = state.search->0;
    let n = search.matches.len() as int;
    let at = search.current as int;
    if at + 1 < n {
        vstd::arithmetic::div_mod::lemma_small_mod((at + 1) as nat, n as nat);
    } else {
        vstd::arithmetic::div_mod::lemma_mod_self_0(n);
    }
    if at > 0 {
        vstd::arithmetic::div_mod::lemma_small_mod((at - 1) as nat, n as nat);
    } else {
        vstd::arithmetic::div_mod::lemma_mod_add_multiples_vanish(-1, n);
        vstd::arithmetic::div_mod::lemma_small_mod((n - 1) as nat, n as nat);
        assert(-1 + n == n - 1);
    }
}

/// Whether the walk through the feed stops at an entry: at any message where one is to be
/// answered, at any attachment where one is to be used.
pub open spec fn stops_at(entry: EntryView, mode: PickMode) -> bool {
    match mode {
        PickMode::Reply => entry is Chat,
        PickMode::Attachment => attached(entry) is Some,
    }
}

/// Whether nothing changed but what is lit and how far the feed is scrolled.
pub open spec fn only_light_moves(a: StateView, b: StateView) -> bool {
    b == StateView { picking: b.picking, scrollback: b.scrollback, ..a }
}

proof fn lemma_lit(state: StateView, index: int, mode: PickMode)
    requires
        0 <= index <= usize::MAX,
    ensures
        state.lit(index, mode).picking == Some(Pick { index: index as usize, mode }),
        only_light_moves(state, state.lit(index, mode)),
{
    reveal(StateView::revealed);
    reveal(StateView::centred_on);
}

/// Ctrl+R begins the walk at the newest message, F7 at the newest attachment; where there
/// is none, that is told.
pub proof fn law_walk_begins(state: StateView, mode: PickMode, world: WorldView, k: int)
    requires
        at_the_line(state),
        lower_char('r') == 'r',
        state.entries.len() <= 2000,
        -1 <= k < state.entries.len(),
        k >= 0 ==> stops_at(state.entries[k], mode),
        forall|j: int| k < j < state.entries.len() ==> !stops_at(#[trigger] state.entries[j], mode),
    ensures
        ({
            let key = if mode == PickMode::Reply {
                with_ctrl('r')
            } else {
                plain(KeyCode::F(7))
            };
            let step = after_key(state, key, world);
            &&& step.commands.len() == 0
            &&& k >= 0 ==> {
                &&& step.state.picking == Some(Pick { index: k as usize, mode })
                &&& only_light_moves(StateView { completion: None, ..state }, step.state)
            }
            &&& k < 0 ==> {
                &&& step.state.picking is None
                &&& talk_goes_on(state, step.state)
                &&& step.state.entries.len() > 0
                &&& step.state.entries.last() matches EntryView::System { kind, .. } && kind
                    == SystemKind::Error
            }
        }),
{
    reveal(StateView::key_pressed);
    reveal(StateView::chat_key);
    reveal(StateView::line_key);
    reveal(StateView::control_key);
    reveal(StateView::function_key);
    reveal(StateView::picking_toggled);
    reveal(StateView::walk_started);
    crate::keys::lemma_latin_stays('r');
    let calm = StateView { completion: None, ..state };
    let stop = is_stop(mode);
    assert forall|j: int| k < j < state.entries.len() implies !stop(#[trigger] state.entries[j]) by {
        assert(!stops_at(state.entries[j], mode));
    }
    if k >= 0 {
        assert(stop(state.entries[k]));
        lemma_last_where_is(calm.entries, stop, k);
        lemma_lit(calm, k, mode);
    } else {
        lemma_last_where(calm.entries, stop);
        let i = last_where(calm.entries, stop);
        if i >= 0 {
            assert(stop(state.entries[i]));
        }
        law_entry_is_added(
            calm,
            EntryView::System { text: crate::walk::no_stop(mode), kind: SystemKind::Error },
        );
    }
}

/// Whether one walks through the feed with nothing above it.
pub open spec fn walking(state: StateView, pick: Pick) -> bool {
    &&& state.screen is Chat
    &&& state.viewer is None
    &&& state.browser is None
    &&& !state.help
    &&& state.search is None
    &&& state.picking == Some(pick)
    &&& pick.index < state.entries.len() <= 2000
}

/// Up leads to the nearest stop before what is lit, Down to the nearest one behind it;
/// where there is none, the light stays. Escape puts it out.
pub proof fn law_walk_goes_on(state: StateView, pick: Pick, world: WorldView, k: int)
    requires
        walking(state, pick),
        0 <= k < state.entries.len(),
        k != pick.index,
        stops_at(state.entries[k], pick.mode),
        forall|j: int|
            (k < j < pick.index || pick.index < j < k) ==> !stops_at(
                #[trigger] state.entries[j],
                pick.mode,
            ),
    ensures
        ({
            let key = if k < pick.index {
                plain(KeyCode::Up)
            } else {
                plain(KeyCode::Down)
            };
            let step = after_key(state, key, world);
            let out = after_key(state, plain(KeyCode::Esc), world);
            &&& step.commands.len() == 0
            &&& step.state.picking == Some(Pick { index: k as usize, mode: pick.mode })
            &&& only_light_moves(state, step.state)
            &&& out.commands.len() == 0
            &&& out.state == (StateView { picking: None, ..state })
        }),
{
    reveal(StateView::key_pressed);
    reveal(StateView::chat_key);
    reveal(StateView::picking_key);
    reveal(StateView::walked);
    let stop = is_stop(pick.mode);
    let from = pick.index as int;
    assert(stop(state.entries[k]));
    if k < from {
        let s = state.entries.take(from);
        assert forall|j: int| k < j < s.len() implies !stop(#[trigger] s[j]) by {
            assert(s[j] == state.entries[j]);
            assert(!stops_at(state.entries[j], pick.mode));
        }
        assert(s[k] == state.entries[k]);
        lemma_last_where_is(s, stop, k);
    } else {
        let s = state.entries.skip(from + 1);
        assert forall|j: int| 0 <= j < k - from - 1 implies !stop(#[trigger] s[j]) by {
            assert(s[j] == state.entries[j + from + 1]);
            assert(!stops_at(state.entries[j + from + 1], pick.mode));
        }
        assert(s[k - from - 1] == state.entries[k]);
        crate::seqs::lemma_first_where_is(s, stop, k - from - 1);
    }
    lemma_lit(state, k, pick.mode);
}

/// Where there is no other stop, the light stays where it is.
pub proof fn law_walk_ends(state: StateView, pick: Pick, world: WorldView)
    requires
        walking(state, pick),
    ensures
        (forall|j: int| 0 <= j < pick.index ==> !stops_at(#[trigger] state.entries[j], pick.mode))
            ==> after_key(state, plain(KeyCode::Up), world) == (Step {
            state,
            commands: Seq::empty(),
        }),
        (forall|j: int|
            pick.index < j < state.entries.len() ==> !stops_at(
                #[trigger] state.entries[j],
                pick.mode,
            )) ==> after_key(state, plain(KeyCode::Down), world) == (Step {
            state,
            commands: Seq::empty(),
        }),
{
    reveal(StateView::key_pressed);
    reveal(StateView::chat_key);
    reveal(StateView::picking_key);
    reveal(StateView::walked);
    let stop = is_stop(pick.mode);
    let from = pick.index as int;
    let before = state.entries.take(from);
    let behind = state.entries.skip(from + 1);
    lemma_last_where(before, stop);
    lemma_first_where(behind, stop);
    if forall|j: int| 0 <= j < pick.index ==> !stops_at(#[trigger] state.entries[j], pick.mode) {
        let i = last_where(before, stop);
        if i >= 0 {
            assert(stop(before[i]));
            assert(stops_at(state.entries[i], pick.mode));
        }
    }
    if forall|j: int|
        pick.index < j < state.entries.len() ==> !stops_at(#[trigger] state.entries[j], pick.mode) {
        let i = first_where(behind, stop);
        if i < behind.len() {
            assert(stop(behind[i]));
            assert(stops_at(state.entries[i + from + 1], pick.mode));
        }
    }
}

/// Whether a message is about to be answered: it is known by its number, and shown by its
/// author and the first sixty characters of its text, or by the name of its attachment
/// where it has no text.
pub open spec fn is_answered(state: StateView, entry: EntryView) -> bool {
    &&& entry matches EntryView::Chat { id, from, text, attachment, .. }
    &&& state.replying matches Some(target)
    &&& target.id == id
    &&& target.nickname == from
    &&& text.len() == 0 ==> target.excerpt == if attachment is Some {
        attachment->0.name
    } else {
        Seq::empty()
    }
    &&& 0 < text.len() <= 60 ==> target.excerpt == text
    &&& text.len() > 60 ==> target.excerpt == text.take(60)
}

/// Enter and Ctrl+R on a message that is lit begin an answer to it and put out the light.
pub proof fn law_lit_message_is_answered(
    state: StateView,
    pick: Pick,
    key: KeyEvent,
    world: WorldView,
)
    requires
        walking(state, pick),
        pick.mode == PickMode::Reply,
        state.entries[pick.index as int] is Chat,
        key == plain(KeyCode::Enter) || (key == with_ctrl('r') && lower_char('r') == 'r'),
    ensures
        ({
            let step = after_key(state, key, world);
            &&& step.commands.len() == 0
            &&& is_answered(step.state, state.entries[pick.index as int])
            &&& step.state == (StateView {
                picking: None,
                replying: step.state.replying,
                ..state
            })
        }),
{
    reveal(StateView::key_pressed);
    reveal(StateView::chat_key);
    reveal(StateView::picking_key);
    reveal(StateView::pick_taken);
    reveal(StateView::answering);
    crate::keys::lemma_latin_stays('r');
    if let EntryView::Chat { text, .. } = state.entries[pick.index as int] {
        assert(text.take(text.len() as int) =~= text);
    }
}

/// Enter on an attachment that is lit does with it what is expected; F3 plays it, F5 keeps
/// it, F6 opens it.
pub proof fn law_lit_attachment_is_used(
    state: StateView,
    pick: Pick,
    a: AttachmentView,
    world: WorldView,
)
    requires
        walking(state, pick),
        pick.mode == PickMode::Attachment,
        attached(state.entries[pick.index as int]) == Some(a),
        state.media_base.len() > 0,
        state.entries.len() <= 2000,
    ensures
        ({
            let free = StateView { picking: None, ..state };
            let open = after_key(state, plain(KeyCode::F(6)), world);
            &&& is_done_with(free, after_key(state, plain(KeyCode::Enter), world), a)
            &&& a.kind == AttachmentKind::Audio ==> is_played(
                free,
                after_key(state, plain(KeyCode::F(3)), world),
                a,
            )
            &&& is_kept(free, after_key(state, plain(KeyCode::F(5)), world), a)
            &&& open.commands == seq![CommandView::Open(address_of_file(state, a))]
            &&& talk_goes_on(free, open.state)
        }),
{
    reveal(StateView::key_pressed);
    reveal(StateView::chat_key);
    reveal(StateView::picking_key);
    reveal(StateView::pick_taken);
    reveal(StateView::pick_named);
    reveal(StateView::played);
    reveal(StateView::saved);
    reveal(StateView::opened);
    let free = StateView { picking: None, ..state };
    law_attachment_is_used(free, pick.index as int, world);
    crate::answer_laws::lemma_no_path();
    law_entry_is_added(
        free,
        EntryView::System { text: "открываю "@ + a.name, kind: SystemKind::Info },
    );
}

} // verus!
