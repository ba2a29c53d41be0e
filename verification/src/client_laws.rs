//! What holds of a client whatever is typed.
use crate::address::{endpoint_of, law_socket_leads_to_itself, lemma_socket_is_solid};
use crate::attach::{bared, holds, is_quote, meant_path};
use crate::console::{
    color_of, is_command, is_order, is_painted, other_painted, parted, path_like, repainted,
};
use crate::entrance::address_of;
use crate::home::{HomeTab, LoginView, Setting, SoundSetting, VOLUME_STEPS};
use crate::journal::{by_name, media_url, on_the_way, picture_of, still_typing, wanted};
use crate::keys::{KeyCode, KeyEvent};
use crate::protocol::{AttachmentKind, AttachmentView, UserInfo, UserInfoView};
use crate::seqs::{
    first_where, in_order, last_where, law_sorted_is_in_order, law_sorted_keeps_items,
    law_text_order, law_text_order_carries, lemma_first_where, lemma_first_where_is,
    lemma_last_where, Ranked,
};
use crate::state::{
    ActionView, BrowserView, CommandView, EndpointView, EntryView, PaintedView, PickMode, ScreenView,
    StateView, ThumbnailView, TypistView, WorldView, MAX_SENT, TYPING_EVERY,
};
use crate::text::{is_white, lower, occurs, trim_left, trim_right, trimmed};
use crate::theme::{law_themes_go_round, ColorView};
use crate::update::OutsideView;
use crate::validate::{cleaned_nickname, cleaned_room, lemma_trimmed_same, Problem};
use crate::walk::{is_stop, matching, words_of};
use vstd::prelude::*;

verus! {

/// Letting go of a key does nothing.
pub proof fn law_release_does_nothing(state: StateView, key: KeyEvent, world: WorldView)
    requires
        !key.press,
    ensures
        state.key_pressed(key, world) == crate::state::quiet(state),
{
    reveal(StateView::key_pressed);
}

/// Esc leads back and never closes the program.
pub proof fn law_escape_never_quits(state: StateView, ctrl: bool, world: WorldView)
    ensures
        ({
            let step = state.key_pressed(
                KeyEvent { code: KeyCode::Esc, ctrl, press: true },
                world,
            );
            &&& step.state.should_quit == state.should_quit
            &&& !step.commands.contains(CommandView::Quit)
        }),
{
    reveal(StateView::key_pressed);
    reveal(StateView::chat_key);
    reveal(StateView::browser_key);
    reveal(StateView::help_key);
    reveal(StateView::search_key);
    reveal(StateView::picking_key);
    reveal(StateView::line_key);
    reveal(StateView::at_home);
    reveal(StateView::home_key);
    reveal(StateView::own_key);
}

/// What was typed is not lost where there is no connection: the line stays, and nothing
/// is sent.
pub proof fn law_line_stays_offline(state: StateView, world: WorldView)
    requires
        !state.online(),
        !is_command(trimmed(state.input.text)),
        !StateView::drops_file(trimmed(state.input.text), world),
    ensures
        state.submitted(world).state.input == state.input,
        state.submitted(world).commands.len() == 0,
{
    reveal(StateView::submitted);
    reveal(StateView::saying);
    reveal(StateView::pushed);
}

/// Whether nothing among some commands is said to the server.
pub open spec fn says_nothing(commands: Seq<CommandView>) -> bool {
    forall|i: int| 0 <= i < commands.len() ==> !(#[trigger] commands[i] is Send)
}

proof fn lemma_attachments_say_nothing(
    state: StateView,
    a: crate::protocol::AttachmentView,
    arg: Seq<char>,
    world: WorldView,
)
    ensures
        says_nothing(state.viewed(a).commands),
        says_nothing(state.opened(a).commands),
        says_nothing(state.played(a).commands),
        says_nothing(state.saved(a, arg, world).commands),
        says_nothing(state.sending(arg, world).commands),
{
    reveal(StateView::viewed);
    reveal(StateView::opened);
    reveal(StateView::played);
    reveal(StateView::saved);
    reveal(StateView::sending);
}

proof fn lemma_orders_say_nothing(state: StateView, line: Seq<char>, world: WorldView)
    ensures
        says_nothing(state.ordered(line, world).commands),
{
    reveal(StateView::ordered);
    reveal(StateView::at_home);
    reveal(StateView::view_newest);
    reveal(StateView::open_newest);
    reveal(StateView::play_newest);
    reveal(StateView::save_newest);
    reveal(StateView::coloring);
    reveal(StateView::painted);
    reveal(StateView::unpainted);
    reveal(StateView::hosting);
    reveal(StateView::joining);
    reveal(StateView::listing_rooms);
    reveal(StateView::renaming);
    reveal(StateView::sending);
    let (name, arg) = parted(line);
    if let Some(a) = state.newest() {
        lemma_attachments_say_nothing(state, a, arg, world);
    }
    if let Some(a) = state.newest_of(AttachmentKind::Image) {
        lemma_attachments_say_nothing(state, a, arg, world);
    }
    if let Some(a) = state.newest_of(AttachmentKind::Audio) {
        lemma_attachments_say_nothing(state, a, arg, world);
    }
}

/// A command is never said to the room.
pub proof fn law_commands_are_not_said(state: StateView, world: WorldView)
    requires
        is_command(trimmed(state.input.text)),
    ensures
        says_nothing(state.submitted(world).commands),
{
    reveal(StateView::submitted);
    reveal(StateView::sending);
    let line = trimmed(state.input.text);
    lemma_orders_say_nothing(state.line_taken_off(line), line, world);
}

proof fn lemma_left_bare(s: Seq<char>)
    ensures
        trim_left(s).len() > 0 ==> !is_white(trim_left(s)[0]),
    decreases s.len(),
{
    if s.len() > 0 && is_white(s[0]) {
        lemma_left_bare(s.drop_first());
    }
}

proof fn lemma_right_keeps_first(s: Seq<char>)
    requires
        s.len() > 0,
        !is_white(s[0]),
    ensures
        trim_right(s).len() > 0,
        trim_right(s)[0] == s[0],
        !is_white(trim_right(s).last()),
    decreases s.len(),
{
    if is_white(s.last()) {
        lemma_right_keeps_first(s.drop_last());
    }
}

proof fn lemma_bared_keeps_first(s: Seq<char>)
    requires
        s.len() > 0,
        !is_quote(s[0]),
    ensures
        bared(s).len() > 0,
        bared(s)[0] == s[0],
    decreases s.len(),
{
    if is_quote(s.last()) {
        lemma_bared_keeps_first(s.drop_last());
    }
}

/// A path stays one, however often the marks around it are taken away.
proof fn lemma_path_is_kept(line: Seq<char>)
    requires
        meant_path(line).len() > 0,
        path_like(meant_path(line)),
    ensures
        meant_path(meant_path(line)).len() > 0,
{
    let inner = bared(trimmed(line));
    let path = trimmed(inner);
    lemma_left_bare(inner);
    if trim_left(inner).len() > 0 {
        lemma_right_keeps_first(trim_left(inner));
    }
    assert(trimmed(path) == path);
    lemma_bared_keeps_first(path);
    lemma_right_keeps_first(bared(path));
}

/// The path of a file on the disk is not said to the room: the file is sent.
pub proof fn law_dropped_file_is_sent(state: StateView, world: WorldView)
    requires
        StateView::drops_file(trimmed(state.input.text), world),
        !is_order(trimmed(state.input.text)),
    ensures
        says_nothing(state.submitted(world).commands),
        state.online() && state.media_base.len() > 0 ==> state.submitted(world).commands == seq![
            CommandView::Upload(meant_path(meant_path(trimmed(state.input.text)))),
        ],
{
    reveal(StateView::submitted);
    reveal(StateView::sending);
    let line = trimmed(state.input.text);
    lemma_path_is_kept(line);
    if line.len() == 0 {
        assert(trimmed(line) == line);
        assert(bared(line) == line);
    }
}

/// The last voice is played and the last picture is shown, whatever was attached after
/// them, and nothing is said about it.
pub proof fn law_last_of_its_kind_is_taken(state: StateView, a: AttachmentView)
    requires
        state.media_base.len() > 0,
    ensures
        state.newest_of(AttachmentKind::Audio) == Some(a) ==> {
            &&& state.play_newest().commands == seq![
                CommandView::PlayVoice(a.id, media_url(state.media_base, a.id)),
            ]
            &&& state.play_newest().state.entries == state.entries
        },
        state.newest_of(AttachmentKind::Image) == Some(a) ==> {
            &&& state.view_newest().commands == seq![
                CommandView::Fetch(a.id, media_url(state.media_base, a.id)),
            ]
            &&& state.view_newest().state.entries == state.entries
        },
{
    reveal(StateView::play_newest);
    reveal(StateView::view_newest);
    reveal(StateView::played);
    reveal(StateView::viewed);
    lemma_last_where(state.entries, holds(AttachmentKind::Audio));
    lemma_last_where(state.entries, holds(AttachmentKind::Image));
}

/// Looking at the last sent line and back gives back what was typed.
pub proof fn law_recall_gives_back(state: StateView)
    requires
        state.sent_cursor is None,
        state.sent.len() > 0,
        state.sent.len() <= usize::MAX,
        state.input.wf(),
    ensures
        state.recalled(true).recalled(false).input.text == state.input.text,
        state.recalled(true).recalled(false).sent_cursor is None,
        state.recalled(true).input.text == state.sent.last(),
{
    reveal(StateView::recalled);
}

/// No more than so many sent lines are kept, and the newest is among them.
pub proof fn law_sent_lines_are_bounded(state: StateView, line: Seq<char>)
    requires
        state.sent.len() <= MAX_SENT,
    ensures
        state.sent_line(line).sent.len() <= MAX_SENT,
        state.sent_line(line).sent.len() > 0,
        state.sent_line(line).sent.last() == line,
{
}

/// Scrolling does not lead out of the feed, and neither does showing an entry.
pub proof fn law_scroll_stays_inside(state: StateView, delta: int, entry: int)
    requires
        state.scrollback <= state.viewport.top_scroll(),
    ensures
        state.scrolled(delta).scrollback <= state.viewport.top_scroll(),
        state.revealed(entry).scrollback <= state.viewport.top_scroll(),
        state.centred_on(entry).scrollback <= state.viewport.top_scroll(),
{
    reveal(StateView::revealed);
    reveal(StateView::centred_on);
}

/// An entry of the feed that is led to is seen; one that was seen before is not moved,
/// unless it is put into the middle.
pub proof fn law_what_is_led_to_is_seen(state: StateView, entry: int)
    requires
        0 <= entry < state.entry_lines.len(),
        state.entry_lines[entry] < state.viewport.total_lines,
        state.viewport.height >= 1,
    ensures
        state.centred_on(entry).in_window(entry),
        state.revealed(entry).in_window(entry),
        state.in_window(entry) ==> state.revealed(entry) == state,
{
    reveal(StateView::revealed);
    reveal(StateView::centred_on);
}

/// The search finds every entry with the word in it and no other one, from the oldest
/// to the newest.
pub proof fn law_search_finds_all(entries: Seq<EntryView>, needle: Seq<char>)
    requires
        needle.len() > 0,
        entries.len() <= usize::MAX,
    ensures
        forall|i: int|
            0 <= i < entries.len() ==> (matching(entries, needle).contains(i as usize) <==> occurs(
                lower(words_of(#[trigger] entries[i])),
                needle,
            )),
        forall|k: int|
            0 <= k < matching(entries, needle).len() ==> (#[trigger] matching(entries, needle)[k])
                < entries.len(),
        forall|j: int, k: int|
            0 <= j < k < matching(entries, needle).len() ==> (#[trigger] matching(
                entries,
                needle,
            )[j]) < (#[trigger] matching(entries, needle)[k]),
    decreases entries.len(),
{
    let all = matching(entries, needle);
    if entries.len() > 0 {
        let less = entries.drop_last();
        let before = matching(less, needle);
        let last = (entries.len() - 1) as usize;
        law_search_finds_all(less, needle);
        let hit = occurs(lower(words_of(entries.last())), needle);
        assert forall|i: int| 0 <= i < entries.len() implies (all.contains(i as usize) <==> occurs(
            lower(words_of(#[trigger] entries[i])),
            needle,
        )) by {
            if i < less.len() {
                assert(less[i] == entries[i]);
                if before.contains(i as usize) {
                    let k = choose|k: int| 0 <= k < before.len() && before[k] == i as usize;
                    assert(all[k] == i as usize);
                }
                if all.contains(i as usize) {
                    let k = choose|k: int| 0 <= k < all.len() && all[k] == i as usize;
                    assert(before[k] == i as usize);
                }
            } else {
                if hit {
                    assert(all[all.len() - 1] == last);
                } else if all.contains(last) {
                    let k = choose|k: int| 0 <= k < all.len() && all[k] == last;
                    assert(before[k] == last);
                }
            }
        }
        assert forall|k: int| 0 <= k < all.len() implies (#[trigger] all[k]) < entries.len() by {
            if k < before.len() {
                assert(all[k] == before[k]);
            }
        }
        assert forall|j: int, k: int| 0 <= j < k < all.len() implies (#[trigger] all[j]) < (
        #[trigger] all[k]) by {
            assert(all[j] == before[j]);
            if k < before.len() {
                assert(all[k] == before[k]);
            }
        }
    }
}

/// A walk stops at the nearest entry that suits it, before the last stop or behind it.
pub proof fn law_walk_stops_at_the_nearest(
    state: StateView,
    from: int,
    down: bool,
    mode: PickMode,
)
    requires
        0 <= from,
    ensures
        state.next_stop(from, down, mode) matches Some(k) ==> {
            &&& 0 <= k < state.entries.len()
            &&& is_stop(mode)(state.entries[k])
            &&& if down {
                k > from && forall|i: int|
                    from < i < k ==> !is_stop(mode)(#[trigger] state.entries[i])
            } else {
                k < from && forall|i: int|
                    k < i < from ==> !is_stop(mode)(#[trigger] state.entries[i])
            }
        },
{
    if down {
        if from + 1 <= state.entries.len() {
            let rest = state.entries.skip(from + 1);
            lemma_first_where(rest, is_stop(mode));
            assert forall|i: int|
                from < i < from + 1 + first_where(rest, is_stop(mode)) implies !is_stop(mode)(
                #[trigger] state.entries[i],
            ) by {
                assert(rest[i - from - 1] == state.entries[i]);
            }
        }
    } else if from <= state.entries.len() {
        let rest = state.entries.take(from);
        lemma_last_where(rest, is_stop(mode));
        assert forall|i: int|
            last_where(rest, is_stop(mode)) < i < from implies !is_stop(mode)(
            #[trigger] state.entries[i],
        ) by {
            assert(rest[i] == state.entries[i]);
        }
    }
}

/// A colour that was given to a name is the colour of that name, and of no other one.
pub proof fn law_color_is_kept(
    colors: Seq<PaintedView>,
    key: Seq<char>,
    color: ColorView,
    other: Seq<char>,
)
    ensures
        color_of(repainted(colors, key, color), key) == Some(color),
        other != key ==> color_of(repainted(colors, key, color), other) == color_of(colors, other),
{
    let k = first_where(colors, is_painted(key));
    let after = repainted(colors, key, color);
    lemma_first_where(colors, is_painted(key));
    assert forall|i: int| 0 <= i < k implies !is_painted(key)(#[trigger] after[i]) by {
        assert(after[i] == colors[i]);
        assert(!is_painted(key)(colors[i]));
    }
    lemma_first_where_is(after, is_painted(key), k);
    if other != key {
        let m = first_where(colors, is_painted(other));
        lemma_first_where(colors, is_painted(other));
        if m < colors.len() {
            assert(after[m] == colors[m]);
            assert forall|i: int| 0 <= i < m implies !is_painted(other)(#[trigger] after[i]) by {
                if i != k {
                    assert(after[i] == colors[i]);
                    assert(!is_painted(other)(colors[i]));
                }
            }
            lemma_first_where_is(after, is_painted(other), m);
        } else {
            assert forall|i: int| 0 <= i < after.len() implies !is_painted(other)(
                #[trigger] after[i],
            ) by {
                if i != k {
                    assert(after[i] == colors[i]);
                    assert(!is_painted(other)(colors[i]));
                }
            }
            lemma_first_where_is(after, is_painted(other), after.len() as int);
        }
    }
}

/// A name whose colour was taken has none.
pub proof fn law_color_is_taken(colors: Seq<PaintedView>, key: Seq<char>)
    ensures
        color_of(colors.filter(other_painted(key)), key) is None,
{
    let after = colors.filter(other_painted(key));
    crate::seqs::lemma_filter_from(colors, other_painted(key));
    assert forall|i: int| 0 <= i < after.len() implies !is_painted(key)(#[trigger] after[i]) by {
        assert(other_painted(key)(after[i]));
    }
    lemma_first_where_is(after, is_painted(key), after.len() as int);
}

/// A setting turned forth and back is where it was.
pub proof fn law_settings_go_back(state: StateView, setting: Setting, back: bool)
    requires
        state.images_applied() == state,
    ensures
        state.setting_shifted(setting, back).setting_shifted(setting, !back) == state,
{
    law_themes_go_round(state.theme, back);
}

/// The loudness and the bell turned forth and back are where they were.
pub proof fn law_loudness_goes_back(state: StateView, back: bool)
    requires
        state.audio.volume < VOLUME_STEPS,
    ensures
        state.sound_shifted(SoundSetting::Volume, back).sound_shifted(SoundSetting::Volume, !back)
            == state,
        state.sound_shifted(SoundSetting::Chime, back).sound_shifted(SoundSetting::Chime, !back)
            == state,
{
}

/// All ids in `ids` are keys of the map once they are on the way.
proof fn lemma_on_the_way(known: Map<u128, ThumbnailView>, ids: Seq<u128>)
    ensures
        forall|id: u128| known.contains_key(id) ==> #[trigger] on_the_way(known, ids).contains_key(id),
        forall|i: int|
            0 <= i < ids.len() ==> on_the_way(known, ids).contains_key(#[trigger] ids[i]),
    decreases ids.len(),
{
    if ids.len() > 0 {
        let less = ids.drop_last();
        lemma_on_the_way(known, less);
        assert forall|id: u128| known.contains_key(id) implies #[trigger] on_the_way(
            known,
            ids,
        ).contains_key(id) by {
            assert(on_the_way(known, less).contains_key(id));
        }
        assert forall|i: int| 0 <= i < ids.len() implies on_the_way(known, ids).contains_key(
            #[trigger] ids[i],
        ) by {
            if i < less.len() {
                assert(less[i] == ids[i]);
                assert(on_the_way(known, less).contains_key(less[i]));
            }
        }
    }
}

proof fn lemma_nothing_wanted(
    entries: Seq<EntryView>,
    left: nat,
    known: Map<u128, ThumbnailView>,
    more: Map<u128, ThumbnailView>,
)
    requires
        forall|id: u128| known.contains_key(id) ==> #[trigger] more.contains_key(id),
        forall|i: int|
            0 <= i < wanted(entries, left, known).len() ==> more.contains_key(
                #[trigger] wanted(entries, left, known)[i],
            ),
    ensures
        wanted(entries, left, more).len() == 0,
    decreases left,
{
    if left > 0 && entries.len() > 0 {
        let all = wanted(entries, left, known);
        let rest = wanted(entries.drop_last(), (left - 1) as nat, known);
        assert forall|i: int| 0 <= i < rest.len() implies more.contains_key(
            #[trigger] rest[i],
        ) by {
            if all.len() == rest.len() {
                assert(all[i] == rest[i]);
            } else {
                assert(all[i + 1] == rest[i]);
            }
        }
        lemma_nothing_wanted(entries.drop_last(), (left - 1) as nat, known, more);
        if let Some(id) = picture_of(entries.last()) {
            if !known.contains_key(id) {
                assert(all[0] == id);
            }
        }
    }
}

/// Once the pictures of the feed were sent for, none is lacking: a second look sends for
/// nothing.
pub proof fn law_pictures_are_not_sent_for_again(state: StateView)
    requires
        state.inline_images,
        state.media_base.len() > 0,
    ensures
        state.thumbnails_queued().state.lacking().len() == 0,
        state.thumbnails_queued().state.thumbnails_queued().commands.len() == 0,
{
    reveal(StateView::thumbnails_queued);
    let ids = state.lacking();
    lemma_on_the_way(state.thumbnails, ids);
    lemma_nothing_wanted(
        state.entries,
        crate::state::THUMBNAIL_LOOKBACK as nat,
        state.thumbnails,
        on_the_way(state.thumbnails, ids),
    );
}

/// The arrows do not lead out of the list of files.
pub proof fn law_list_stays_inside(browser: BrowserView, delta: int)
    requires
        browser.shown().len() <= usize::MAX,
    ensures
        browser.shown().len() > 0 ==> browser.moved(delta).chosen() is Some,
        browser.shown().len() == 0 ==> browser.moved(delta).selected == 0,
{
    assert(browser.moved(delta).shown() == browser.shown());
}

/// Completing a word changes nothing in front of it and nothing behind the cursor.
pub proof fn law_completion_keeps_the_rest(state: StateView)
    requires
        state.wf(),
        state.completed() != state,
    ensures
        ({
            let (prefix, at) = state.completing();
            let after = state.completed().input;
            &&& after.text.take(at) == state.input.text.take(at)
            &&& after.text.skip(after.cursor) == state.input.text.skip(state.input.cursor)
        }),
{
    reveal(StateView::completed);
    crate::chat::lemma_completing_inside(state);
    let (prefix, at) = state.completing();
    let after = state.completed().input;
    assert(after.text.take(at) =~= state.input.text.take(at));
    assert(after.text.skip(after.cursor) =~= state.input.text.skip(state.input.cursor));
}

/// Another room begins with an empty feed: there is one line in it, about the room.
pub proof fn law_another_room_begins_anew(state: StateView, arg: Seq<char>)
    requires
        crate::validate::cleaned_room(arg) matches Ok(room) && (room != state.room
            || !state.online()),
    ensures
        state.joining(arg).state.entries.len() == 1,
        state.joining(arg).state.users.len() == 0,
        state.joining(arg).state.scrollback == 0,
{
    reveal(StateView::joining);
    reveal(StateView::pushed);
}

/// Whoever goes to the first screen and comes back into the same room sees the talk where
/// it stopped.
pub proof fn law_same_room_goes_on(
    state: StateView,
    leaving: WorldView,
    entering: WorldView,
    endpoint: EndpointView,
)
    requires
        crate::validate::cleaned_nickname(state.nickname) == Ok::<Seq<char>, Problem>(
            state.nickname,
        ),
        crate::validate::cleaned_room(state.room) == Ok::<Seq<char>, Problem>(state.room),
        entering.endpoint == Ok::<EndpointView, Seq<char>>(endpoint),
        endpoint.socket == state.server,
    ensures
        ({
            let home = state.at_home(leaving).state;
            let back = home.entering(home.screen->Login_0, entering);
            &&& home.screen is Login
            &&& back.commands == seq![
                CommandView::Connect {
                    nickname: state.nickname,
                    room: state.room,
                    server: state.server,
                },
            ]
            &&& back.state.screen is Chat
            &&& back.state.entries == state.entries
            &&& back.state.seen == state.seen
            &&& back.state.thumbnails == state.thumbnails
            &&& back.state.scrollback == state.scrollback
        }),
{
    reveal(StateView::at_home);
    reveal(StateView::entering);
}

/// Enter and Esc, as they are pressed.
pub open spec fn pressed(code: KeyCode) -> ActionView {
    ActionView::Key(KeyEvent { code, ctrl: false, press: true })
}

/// Enter in a filled form leads to the server that was typed; where none was, to the one
/// that is known, and where none is, to the usual one.
pub proof fn law_typed_server_is_dialled(state: StateView, login: LoginView, outside: OutsideView)
    requires
        state.screen == ScreenView::Login(login),
        login.tab == HomeTab::Join,
        login.busy is None,
        login.chosen_room() is None,
        cleaned_nickname(login.nickname.text) is Ok,
        cleaned_room(login.room.text) is Ok,
        endpoint_of(address_of(login.server.text, state.server, outside.usual)) is Ok,
    ensures
        ({
            let endpoint = endpoint_of(
                address_of(login.server.text, state.server, outside.usual),
            )->Ok_0;
            let enter = pressed(KeyCode::Enter);
            let step = state.updated(enter, outside.around(state, enter));
            &&& step.commands == seq![
                CommandView::Connect {
                    nickname: cleaned_nickname(login.nickname.text)->Ok_0,
                    room: cleaned_room(login.room.text)->Ok_0,
                    server: endpoint.socket,
                },
            ]
            &&& step.state.screen is Chat
            &&& step.state.server == endpoint.socket
            &&& step.state.turned_to(step.state.server).media_base == endpoint.base
        }),
{
    reveal(StateView::key_pressed);
    reveal(StateView::home_key);
    reveal(StateView::home_entered);
    reveal(StateView::entering);
    law_socket_leads_to_itself(address_of(login.server.text, state.server, outside.usual));
}

/// Whoever leaves a room with Esc and comes back with Enter, the form untouched, connects
/// as before and sees the talk where it stopped.
pub proof fn law_back_where_one_was(
    state: StateView,
    address: Seq<char>,
    leaving: WorldView,
    outside: OutsideView,
)
    requires
        state.screen is Chat,
        state.viewer is None && state.browser is None && !state.help && state.search is None,
        state.picking is None && state.replying is None,
        cleaned_nickname(state.nickname) == Ok::<Seq<char>, Problem>(state.nickname),
        cleaned_room(state.room) == Ok::<Seq<char>, Problem>(state.room),
        endpoint_of(address) matches Ok(endpoint) && endpoint.socket == state.server,
    ensures
        ({
            let home = state.updated(pressed(KeyCode::Esc), leaving).state;
            let enter = pressed(KeyCode::Enter);
            let back = home.updated(enter, outside.around(home, enter));
            &&& home.screen is Login
            &&& back.commands == seq![
                CommandView::Connect {
                    nickname: state.nickname,
                    room: state.room,
                    server: state.server,
                },
            ]
            &&& back.state.screen is Chat
            &&& back.state.entries == state.entries
            &&& back.state.seen == state.seen
            &&& back.state.thumbnails == state.thumbnails
            &&& back.state.scrollback == state.scrollback
        }),
{
    reveal(StateView::key_pressed);
    reveal(StateView::chat_key);
    reveal(StateView::line_key);
    reveal(StateView::at_home);
    reveal(StateView::home_key);
    reveal(StateView::home_entered);
    reveal(StateView::entering);
    let home = state.updated(pressed(KeyCode::Esc), leaving).state;
    let login = home.screen->Login_0;
    assert(home.screen == ScreenView::Login(login));
    lemma_socket_is_solid(address);
    law_socket_leads_to_itself(address);
    assert(!is_white(state.server[0]) && !is_white(state.server.last()));
    lemma_trimmed_same(state.server);
    assert(address_of(login.server.text, home.server, outside.usual) == state.server);
}

/// Right after the others were told that one is typing they are not told again.
pub proof fn law_typing_is_told_rarely(state: StateView, now: u64, later: u64)
    requires
        state.typing_announced(now).commands.len() > 0,
        now <= later < now + TYPING_EVERY,
    ensures
        state.typing_announced(now).state.typing_announced(later).commands.len() == 0,
{
    reveal(StateView::typing_announced);
}

/// The people of a room stand in the order of their names, and nobody is lost.
pub proof fn law_people_are_in_order(users: Seq<UserInfoView>)
    ensures
        in_order(by_name(users), |a: UserInfoView, b: UserInfoView| UserInfo::ranks(a, b)),
        by_name(users).to_multiset() == users.to_multiset(),
{
    let le = |a: UserInfoView, b: UserInfoView| UserInfo::ranks(a, b);
    assert forall|a: UserInfoView, b: UserInfoView| #[trigger] le(a, b) || le(b, a) by {
        law_text_order(lower(a.nickname), lower(b.nickname));
    }
    assert forall|a: UserInfoView, b: UserInfoView, c: UserInfoView| #[trigger]
        le(a, b) && #[trigger] le(b, c) implies le(a, c) by {
        law_text_order_carries(lower(a.nickname), lower(b.nickname), lower(c.nickname));
    }
    law_sorted_is_in_order(users, le);
    law_sorted_keeps_items(users, le);
}

/// Nobody is shown as typing whose sign is older than it may be.
pub proof fn law_typing_goes_out(state: StateView, now: u64)
    requires
        forall|i: int|
            0 <= i < state.typing.len() ==> now - (#[trigger] state.typing[i]).at
                >= crate::state::TYPING_TTL,
    ensures
        state.typing_names(now).len() == 0,
{
    let test = still_typing(now);
    let left = state.typing.filter(test);
    crate::seqs::lemma_filter_from(state.typing, test);
    if left.len() > 0 {
        assert(state.typing.contains(left[0]));
        let i = choose|i: int| 0 <= i < state.typing.len() && state.typing[i] == left[0];
        assert(test(left[0]));
    }
    law_sorted_keeps_items(
        left.map_values(|t: TypistView| t.nickname),
        |a: Seq<char>, b: Seq<char>| String::ranks(a, b),
    );
}

} // verus!
