//! What a line does once it is entered: each command by its name, and everything else that
//! is said.
use crate::attach::{holds, meant_path};
use crate::client_laws::pressed;
use crate::console::{
    color_of, is_command, is_painted, order_named, other_painted, parted, port_of, Order,
};
use crate::ids::id_text;
use crate::keys::KeyCode;
use crate::line_laws::at_the_line;
use crate::protocol::{AttachmentKind, AttachmentView, ClientMessageView};
use crate::seqs::{last_where, lemma_last_where, lemma_last_where_is};
use crate::state::{
    CommandView, DestinationView, EntryView, PathKind, PickMode, ScreenView, StateView, Step,
    SystemKind, WorldView,
};
use crate::text::{begins, lemma_place_is, lower, trimmed, words};
use crate::theme::parsed_color;
use crate::validate::{cleaned_nickname, cleaned_room, cleaned_text};
use crate::walk::is_stop;
use vstd::prelude::*;

verus! {

/// A line with a command: its name behind a slash and, where there is something to add, a
/// space and that.
pub open spec fn order_line(typed: Seq<char>, arg: Seq<char>) -> Seq<char> {
    if arg.len() == 0 {
        seq!['/'] + typed
    } else {
        seq!['/'] + typed + seq![' '] + arg
    }
}

/// Whether a command stands in the line of a room, with white space around it or without.
pub open spec fn ready(state: StateView, typed: Seq<char>, arg: Seq<char>) -> bool {
    &&& at_the_line(state)
    &&& trimmed(state.input.text) == order_line(typed, arg)
    &&& typed.len() > 0 && typed[0] != '/'
    &&& forall|i: int| 0 <= i < typed.len() ==> #[trigger] typed[i] != ' '
    &&& trimmed(arg) == arg
}

/// What Enter does.
pub open spec fn entered(state: StateView, world: WorldView) -> Step {
    state.updated(pressed(KeyCode::Enter), world)
}

/// Whether a client is what it was, but for the line, the feed, what it is busy with and
/// what stands above the feed.
pub open spec fn talk_goes_on(a: StateView, b: StateView) -> bool {
    b == StateView {
        input: b.input,
        completion: b.completion,
        sent: b.sent,
        sent_cursor: b.sent_cursor,
        draft: b.draft,
        busy: b.busy,
        entries: b.entries,
        seen: b.seen,
        viewer: b.viewer,
        browser: b.browser,
        help: b.help,
        help_scroll: b.help_scroll,
        ..a
    }
}

/// Whether the line is empty and was kept among the sent ones.
pub open spec fn line_is_gone(b: StateView, line: Seq<char>) -> bool {
    &&& b.input.text.len() == 0
    &&& b.input.cursor == 0
    &&& b.sent.len() > 0 && b.sent.last() == line
    &&& b.sent_cursor is None
}

/// Whether the feed is the same with one more entry; the oldest one goes where there were
/// two thousand.
pub open spec fn feed_has_more(a: StateView, b: StateView, entry: EntryView) -> bool {
    &&& a.entries.len() < 2000 ==> b.entries == a.entries.push(entry)
    &&& a.entries.len() == 2000 ==> b.entries == a.entries.skip(1).push(entry)
}

/// Whether all that came of it is a complaint in the feed.
pub open spec fn only_complains(a: StateView, step: Step) -> bool {
    &&& step.commands.len() == 0
    &&& talk_goes_on(a, step.state)
    &&& step.state.viewer == a.viewer && step.state.browser == a.browser && step.state.help
        == a.help && step.state.busy == a.busy
    &&& exists|text: Seq<char>| #[trigger]
        feed_has_more(a, step.state, EntryView::System { text, kind: SystemKind::Error })
}

/// One more entry stands at the end of the feed.
pub proof fn law_entry_is_added(state: StateView, entry: EntryView)
    requires
        state.entries.len() <= 2000,
    ensures
        feed_has_more(state, state.pushed(entry), entry),
        state.pushed(entry) == (StateView {
            entries: state.pushed(entry).entries,
            seen: state.pushed(entry).seen,
            ..state
        }),
        state.entries.len() < 2000 ==> state.pushed(entry).seen == state.seen,
{
    reveal(StateView::pushed);
    let all = state.entries.push(entry);
    if state.entries.len() < 2000 {
        assert(all.skip(0) =~= all);
        assert(all.take(0) =~= Seq::<EntryView>::empty());
        assert(state.pushed(entry).seen =~= state.seen);
    } else {
        assert(all.skip(1) =~= state.entries.skip(1).push(entry));
    }
}

proof fn lemma_complaint(state: StateView, words: Seq<char>)
    requires
        state.entries.len() <= 2000,
    ensures
        only_complains(state, state.refused(words)),
{
    law_entry_is_added(state, EntryView::System { text: words, kind: SystemKind::Error });
    assert(feed_has_more(
        state,
        state.refused(words).state,
        EntryView::System { text: words, kind: SystemKind::Error },
    ));
}

/// Every command has its name.
pub proof fn lemma_orders()
    ensures
        order_named("help"@) == Order::Help,
        order_named("?"@) == Order::Help,
        order_named("quit"@) == Order::Quit,
        order_named("exit"@) == Order::Quit,
        order_named("menu"@) == Order::Menu,
        order_named("clear"@) == Order::Clear,
        order_named("view"@) == Order::View,
        order_named("open"@) == Order::Open,
        order_named("send"@) == Order::Send,
        order_named("rec"@) == Order::Record,
        order_named("play"@) == Order::Play,
        order_named("stop"@) == Order::Stop,
        order_named("save"@) == Order::Save,
        order_named("color"@) == Order::Color,
        order_named("host"@) == Order::Host,
        order_named("join"@) == Order::Join,
        order_named("rooms"@) == Order::Rooms,
        order_named("nick"@) == Order::Nick,
{
    reveal_strlit("help");
    reveal_strlit("?");
    reveal_strlit("quit");
    reveal_strlit("exit");
    reveal_strlit("menu");
    reveal_strlit("clear");
    reveal_strlit("view");
    reveal_strlit("open");
    reveal_strlit("send");
    reveal_strlit("rec");
    reveal_strlit("play");
    reveal_strlit("stop");
    reveal_strlit("save");
    reveal_strlit("color");
    reveal_strlit("host");
    reveal_strlit("join");
    reveal_strlit("rooms");
    reveal_strlit("nick");
    assert("rec"@.len() == 3);
    assert("rooms"@.len() == 5 && "clear"@.len() == 5 && "color"@.len() == 5);
    assert("help"@.len() == 4 && "quit"@.len() == 4 && "exit"@.len() == 4 && "menu"@.len() == 4);
    assert("view"@.len() == 4 && "open"@.len() == 4 && "send"@.len() == 4 && "play"@.len() == 4);
    assert("stop"@.len() == 4 && "save"@.len() == 4 && "host"@.len() == 4 && "join"@.len() == 4);
    assert("?"@.len() == 1 && "nick"@.len() == 4);
    assert("help"@[0] == 'h' && "help"@[1] == 'e');
    assert("quit"@[0] == 'q');
    assert("exit"@[0] == 'e');
    assert("menu"@[0] == 'm');
    assert("view"@[0] == 'v');
    assert("open"@[0] == 'o');
    assert("send"@[0] == 's' && "send"@[1] == 'e');
    assert("play"@[0] == 'p');
    assert("stop"@[0] == 's' && "stop"@[1] == 't');
    assert("save"@[0] == 's' && "save"@[1] == 'a');
    assert("host"@[0] == 'h' && "host"@[1] == 'o');
    assert("join"@[0] == 'j');
    assert("nick"@[0] == 'n');
    assert("clear"@[0] == 'c' && "clear"@[1] == 'l');
    assert("color"@[0] == 'c' && "color"@[1] == 'o');
    assert("rooms"@[0] == 'r');
}

/// The line once its command is taken off.
spec fn taken(state: StateView, typed: Seq<char>, arg: Seq<char>) -> StateView {
    StateView { completion: None, ..state }.line_taken_off(order_line(typed, arg))
}

/// A line with a command is one, and is parted into its name and what is added.
pub proof fn lemma_line(typed: Seq<char>, arg: Seq<char>)
    requires
        typed.len() > 0,
        typed[0] != '/',
        forall|i: int| 0 <= i < typed.len() ==> #[trigger] typed[i] != ' ',
        trimmed(arg) == arg,
    ensures
        is_command(order_line(typed, arg)),
        parted(order_line(typed, arg)) == (lower(typed), arg),
{
    reveal_strlit("/");
    reveal_strlit("//");
    let line = order_line(typed, arg);
    assert(line[0] == '/' && line[1] == typed[0]);
    assert(line.subrange(0, 1) =~= "/"@);
    if begins(line, "//"@) {
        assert(line.subrange(0, 2)[1] == line[1]);
        assert("//"@[1] == '/');
    }
    let rest = line.drop_first();
    if arg.len() == 0 {
        assert(rest =~= typed);
        lemma_place_is(rest, ' ', typed.len() as int);
        assert(rest.take(typed.len() as int) =~= typed);
        assert(arg =~= Seq::<char>::empty());
    } else {
        assert(rest =~= typed + seq![' '] + arg);
        assert(rest[typed.len() as int] == ' ');
        assert forall|i: int| 0 <= i < typed.len() implies rest[i] != ' ' by {
            assert(rest[i] == typed[i]);
        }
        lemma_place_is(rest, ' ', typed.len() as int);
        assert(rest.take(typed.len() as int) =~= typed);
        assert(rest.skip(typed.len() as int + 1) =~= arg);
    }
}

/// A command that is entered is carried out.
proof fn lemma_entered(state: StateView, typed: Seq<char>, arg: Seq<char>, world: WorldView)
    requires
        ready(state, typed, arg),
        order_named(lower(typed)) != Order::Unknown,
    ensures
        entered(state, world) == taken(state, typed, arg).ordered(order_line(typed, arg), world),
        parted(order_line(typed, arg)) == (lower(typed), arg),
        line_is_gone(taken(state, typed, arg), order_line(typed, arg)),
        talk_goes_on(state, taken(state, typed, arg)),
        taken(state, typed, arg).entries == state.entries,
        taken(state, typed, arg).seen == state.seen,
        taken(state, typed, arg).busy == state.busy,
        at_the_line(taken(state, typed, arg)),
{
    reveal(StateView::key_pressed);
    reveal(StateView::chat_key);
    reveal(StateView::line_key);
    reveal(StateView::submitted);
    let line = order_line(typed, arg);
    lemma_line(typed, arg);
    crate::line_laws::law_sent_lines_are_kept(StateView { completion: None, ..state }, line);
}

/// `/rooms` asks the server for its rooms and changes nothing else; where the server is not
/// known it says so.
pub proof fn law_rooms_are_asked_for(state: StateView, typed: Seq<char>, world: WorldView)
    requires
        ready(state, typed, Seq::empty()),
        lower(typed) == "rooms"@,
        state.entries.len() <= 2000,
    ensures
        ({
            let step = entered(state, world);
            let line = order_line(typed, Seq::empty());
            &&& line_is_gone(step.state, line)
            &&& if state.media_base.len() > 0 {
                &&& step.commands == seq![CommandView::FetchRooms(state.media_base)]
                &&& talk_goes_on(state, step.state)
                &&& at_the_line(step.state)
                &&& step.state.entries == state.entries
                &&& step.state.busy is Some
            } else {
                &&& step.commands.len() == 0
                &&& talk_goes_on(state, step.state)
                &&& at_the_line(step.state)
                &&& step.state.entries.len() > 0
                &&& step.state.entries.last() matches EntryView::System { kind, .. } && kind
                    == SystemKind::Error
            }
        }),
{
    lemma_orders();
    lemma_entered(state, typed, Seq::empty(), world);
    reveal(StateView::ordered);
    reveal(StateView::listing_rooms);
    let base = taken(state, typed, Seq::empty());
    if state.media_base.len() == 0 {
        law_entry_is_added(
            base,
            EntryView::System { text: "неизвестен адрес сервера"@, kind: SystemKind::Error },
        );
    }
}

/// `/help` and `/?` open the help at its beginning.
pub proof fn law_help_opens(state: StateView, typed: Seq<char>, arg: Seq<char>, world: WorldView)
    requires
        ready(state, typed, arg),
        lower(typed) == "help"@ || lower(typed) == "?"@,
    ensures
        ({
            let step = entered(state, world);
            &&& step.commands.len() == 0
            &&& talk_goes_on(state, step.state)
            &&& line_is_gone(step.state, order_line(typed, arg))
            &&& step.state.help
            &&& step.state.help_scroll == 0
            &&& step.state.entries == state.entries
        }),
{
    lemma_orders();
    lemma_entered(state, typed, arg, world);
    reveal(StateView::ordered);
}

/// `/quit` and `/exit` close the program.
pub proof fn law_quit_closes(state: StateView, typed: Seq<char>, arg: Seq<char>, world: WorldView)
    requires
        ready(state, typed, arg),
        lower(typed) == "quit"@ || lower(typed) == "exit"@,
    ensures
        entered(state, world).state.should_quit,
        entered(state, world).commands == seq![CommandView::Quit],
{
    lemma_orders();
    lemma_entered(state, typed, arg, world);
    reveal(StateView::ordered);
}

/// Whether a client stands on its first screen with its own names in the form, cut off
/// from the room; its feed stays.
pub open spec fn is_home(a: StateView, step: Step, world: WorldView) -> bool {
    let b = step.state;
    &&& b.screen matches ScreenView::Login(login)
    &&& login.nickname.text == a.nickname
    &&& login.room.text == a.room
    &&& login.server.text == a.server
    &&& login.error is None
    &&& b.nickname == a.nickname && b.room == a.room && b.server == a.server
    &&& b.entries == a.entries && b.seen == a.seen
    &&& b.users.len() == 0 && b.typing.len() == 0
    &&& !(b.status is Online)
    &&& b.viewer is None && b.browser is None && b.search is None && b.picking is None
    &&& b.replying is None && !b.help
    &&& b.should_quit == a.should_quit
    &&& match world.endpoint {
        Ok(endpoint) => step.commands == seq![
            CommandView::Disconnect,
            CommandView::SaveConfig,
            CommandView::FetchRooms(endpoint.base),
        ],
        Err(_) => step.commands == seq![CommandView::Disconnect, CommandView::SaveConfig],
    }
}

proof fn lemma_home(state: StateView, world: WorldView)
    ensures
        is_home(state, state.at_home(world), world),
{
    reveal(StateView::at_home);
    if let Ok(endpoint) = world.endpoint {
        assert(state.at_home(world).commands =~= seq![
            CommandView::Disconnect,
            CommandView::SaveConfig,
            CommandView::FetchRooms(endpoint.base),
        ]);
    } else {
        assert(state.at_home(world).commands =~= seq![
            CommandView::Disconnect,
            CommandView::SaveConfig,
        ]);
    }
}

/// `/menu` leads to the first screen and cuts the connection.
pub proof fn law_menu_leads_home(state: StateView, typed: Seq<char>, arg: Seq<char>, world: WorldView)
    requires
        ready(state, typed, arg),
        lower(typed) == "menu"@,
    ensures
        is_home(state, entered(state, world), world),
{
    lemma_orders();
    lemma_entered(state, typed, arg, world);
    reveal(StateView::ordered);
    lemma_home(taken(state, typed, arg), world);
}

/// Esc leads to the first screen as well, unless an answer is being written: then it only
/// takes that back.
pub proof fn law_esc_leads_home(state: StateView, world: WorldView)
    requires
        at_the_line(state),
    ensures
        ({
            let step = state.updated(pressed(KeyCode::Esc), world);
            if state.replying is Some {
                &&& step.commands.len() == 0
                &&& step.state == (StateView { replying: None, completion: None, ..state })
            } else {
                is_home(state, step, world)
            }
        }),
{
    reveal(StateView::key_pressed);
    reveal(StateView::chat_key);
    reveal(StateView::line_key);
    lemma_home(StateView { completion: None, ..state }, world);
}

/// `/clear` empties the feed and nothing else.
pub proof fn law_clear_empties(state: StateView, typed: Seq<char>, arg: Seq<char>, world: WorldView)
    requires
        ready(state, typed, arg),
        lower(typed) == "clear"@,
    ensures
        ({
            let step = entered(state, world);
            &&& step.commands.len() == 0
            &&& line_is_gone(step.state, order_line(typed, arg))
            &&& step.state.entries.len() == 0
            &&& forall|id: u128| !step.state.seen.contains(id)
            &&& forall|id: u128| !step.state.thumbnails.contains_key(id)
            &&& step.state.scrollback == 0
            &&& step.state.users == state.users && step.state.status == state.status
            &&& step.state.screen == state.screen && step.state.room == state.room
            &&& step.state.nickname == state.nickname
        }),
{
    lemma_orders();
    lemma_entered(state, typed, arg, world);
    reveal(StateView::ordered);
    reveal(StateView::cleared);
}

/// `/rec` begins or ends a recording, `/stop` stops what plays.
pub proof fn law_recording_and_stopping(
    state: StateView,
    typed: Seq<char>,
    arg: Seq<char>,
    world: WorldView,
)
    requires
        ready(state, typed, arg),
        lower(typed) == "rec"@ || lower(typed) == "stop"@,
    ensures
        ({
            let step = entered(state, world);
            &&& lower(typed) == "rec"@ ==> step.commands == seq![CommandView::ToggleRecording]
            &&& lower(typed) == "stop"@ ==> step.commands == seq![CommandView::StopVoice]
            &&& talk_goes_on(state, step.state)
            &&& line_is_gone(step.state, order_line(typed, arg))
            &&& step.state.entries == state.entries
            &&& at_the_line(step.state)
        }),
{
    lemma_orders();
    lemma_entered(state, typed, arg, world);
    reveal(StateView::ordered);
    reveal_strlit("rec");
    reveal_strlit("stop");
}

/// What is attached to an entry.
pub open spec fn attached(entry: EntryView) -> Option<AttachmentView> {
    match entry {
        EntryView::Chat { attachment, .. } => attachment,
        EntryView::System { .. } => None,
    }
}

/// Whether an attachment is the last one of its kind in the feed.
pub open spec fn last_of_kind(state: StateView, k: int, a: AttachmentView) -> bool {
    &&& 0 <= k < state.entries.len()
    &&& attached(state.entries[k]) == Some(a)
    &&& forall|j: int|
        k < j < state.entries.len() ==> !(attached(#[trigger] state.entries[j]) matches Some(b)
            && b.kind == a.kind)
}

/// Whether an attachment is the last one in the feed.
pub open spec fn last_of_all(state: StateView, k: int, a: AttachmentView) -> bool {
    &&& 0 <= k < state.entries.len()
    &&& attached(state.entries[k]) == Some(a)
    &&& forall|j: int| k < j < state.entries.len() ==> attached(#[trigger] state.entries[j]) is None
}

/// Where an attachment is downloaded from.
pub open spec fn address_of_file(state: StateView, a: AttachmentView) -> Seq<char> {
    state.media_base + "/media/"@ + id_text(a.id)
}

pub proof fn lemma_last_of_kind(state: StateView, k: int, a: AttachmentView)
    requires
        last_of_kind(state, k, a),
    ensures
        state.newest_like(a.kind) == Some(a),
{
    assert forall|j: int| k < j < state.entries.len() implies !holds(a.kind)(
        #[trigger] state.entries[j],
    ) by {
        assert(!(attached(state.entries[j]) matches Some(b) && b.kind == a.kind));
    }
    lemma_last_where_is(state.entries, holds(a.kind), k);
}

pub proof fn lemma_last_of_all(state: StateView, k: int, a: AttachmentView)
    requires
        last_of_all(state, k, a),
    ensures
        state.newest() == Some(a),
{
    let stop = is_stop(PickMode::Attachment);
    assert forall|j: int| k < j < state.entries.len() implies !stop(#[trigger] state.entries[j]) by {
        assert(attached(state.entries[j]) is None);
    }
    lemma_last_where_is(state.entries, stop, k);
}

proof fn lemma_nothing_attached(state: StateView)
    requires
        forall|j: int|
            0 <= j < state.entries.len() ==> attached(#[trigger] state.entries[j]) is None,
    ensures
        state.newest() is None,
        state.newest_like(AttachmentKind::Image) is None,
        state.newest_like(AttachmentKind::Audio) is None,
{
    let stop = is_stop(PickMode::Attachment);
    lemma_last_where(state.entries, stop);
    lemma_last_where(state.entries, holds(AttachmentKind::Image));
    lemma_last_where(state.entries, holds(AttachmentKind::Audio));
    let a = last_where(state.entries, stop);
    if a >= 0 {
        assert(stop(state.entries[a]));
        assert(attached(state.entries[a]) is None);
    }
    let b = last_where(state.entries, holds(AttachmentKind::Image));
    if b >= 0 {
        assert(holds(AttachmentKind::Image)(state.entries[b]));
        assert(attached(state.entries[b]) is None);
    }
    let c = last_where(state.entries, holds(AttachmentKind::Audio));
    if c >= 0 {
        assert(holds(AttachmentKind::Audio)(state.entries[c]));
        assert(attached(state.entries[c]) is None);
    }
}

/// Whether a picture is sent for and its window is open.
pub open spec fn is_shown(a: StateView, step: Step, picture: AttachmentView) -> bool {
    &&& step.commands == seq![CommandView::Fetch(picture.id, address_of_file(a, picture))]
    &&& talk_goes_on(a, step.state)
    &&& step.state.entries == a.entries
    &&& step.state.viewer is Some
    &&& step.state.viewer->0.id == picture.id
    &&& step.state.viewer->0.name == picture.name
    &&& step.state.viewer->0.state is Loading
}

/// Whether a voice is sent for, to be played.
pub open spec fn is_played(a: StateView, step: Step, voice: AttachmentView) -> bool {
    &&& step.commands == seq![CommandView::PlayVoice(voice.id, address_of_file(a, voice))]
    &&& talk_goes_on(a, step.state)
    &&& step.state.entries == a.entries
    &&& step.state.viewer == a.viewer
}

/// `/view` shows the last picture, `/play` plays the last voice, whatever came after them.
pub proof fn law_last_is_shown_and_played(
    state: StateView,
    typed: Seq<char>,
    world: WorldView,
    k: int,
    a: AttachmentView,
)
    requires
        ready(state, typed, Seq::empty()),
        last_of_kind(state, k, a),
        state.media_base.len() > 0,
        (lower(typed) == "view"@ && a.kind == AttachmentKind::Image) || (lower(typed) == "play"@
            && a.kind == AttachmentKind::Audio),
    ensures
        line_is_gone(entered(state, world).state, order_line(typed, Seq::empty())),
        lower(typed) == "view"@ ==> is_shown(state, entered(state, world), a),
        lower(typed) == "play"@ ==> is_played(state, entered(state, world), a),
{
    lemma_orders();
    lemma_entered(state, typed, Seq::empty(), world);
    let base = taken(state, typed, Seq::empty());
    assert(last_of_kind(base, k, a));
    lemma_last_of_kind(base, k, a);
    reveal(StateView::ordered);
    reveal(StateView::view_newest);
    reveal(StateView::play_newest);
    reveal(StateView::viewed);
    reveal(StateView::played);
    reveal_strlit("view");
    reveal_strlit("play");
    assert("view"@[0] != "play"@[0]);
}

/// `/open` hands the last attachment to another program.
pub proof fn law_last_is_opened(
    state: StateView,
    typed: Seq<char>,
    world: WorldView,
    k: int,
    a: AttachmentView,
)
    requires
        ready(state, typed, Seq::empty()),
        last_of_all(state, k, a),
        state.media_base.len() > 0,
        lower(typed) == "open"@,
        state.entries.len() <= 2000,
    ensures
        ({
            let step = entered(state, world);
            &&& step.commands == seq![CommandView::Open(address_of_file(state, a))]
            &&& talk_goes_on(state, step.state)
            &&& line_is_gone(step.state, order_line(typed, Seq::empty()))
        }),
{
    lemma_orders();
    lemma_entered(state, typed, Seq::empty(), world);
    let base = taken(state, typed, Seq::empty());
    assert(last_of_all(base, k, a));
    lemma_last_of_all(base, k, a);
    reveal(StateView::ordered);
    reveal(StateView::open_newest);
    reveal(StateView::opened);
    law_entry_is_added(
        base,
        EntryView::System { text: "открываю "@ + a.name, kind: SystemKind::Info },
    );
}

/// `/save` writes the last attachment to the disk: among the downloads under its own name,
/// into the folder that was named, or to the path that was named.
pub proof fn law_last_is_saved(
    state: StateView,
    typed: Seq<char>,
    arg: Seq<char>,
    world: WorldView,
    k: int,
    a: AttachmentView,
)
    requires
        ready(state, typed, arg),
        last_of_all(state, k, a),
        state.media_base.len() > 0,
        lower(typed) == "save"@,
    ensures
        ({
            let step = entered(state, world);
            let path = meant_path(arg);
            &&& step.commands.len() == 1
            &&& step.commands[0] matches CommandView::Save { url, destination }
            &&& url == address_of_file(state, a)
            &&& path.len() == 0 ==> destination == DestinationView::Downloads(a.name)
            &&& path.len() > 0 && world.disk == PathKind::Folder ==> destination
                == DestinationView::Inside(path, a.name)
            &&& path.len() > 0 && world.disk != PathKind::Folder ==> destination
                == DestinationView::At(path)
            &&& talk_goes_on(state, step.state)
            &&& step.state.entries == state.entries
        }),
{
    lemma_orders();
    lemma_entered(state, typed, arg, world);
    let base = taken(state, typed, arg);
    assert(last_of_all(base, k, a));
    lemma_last_of_all(base, k, a);
    reveal(StateView::ordered);
    reveal(StateView::save_newest);
    reveal(StateView::saved);
}

/// Where nothing is attached to anything, `/view`, `/play`, `/open` and `/save` say so and do
/// nothing.
pub proof fn law_nothing_to_show(state: StateView, typed: Seq<char>, arg: Seq<char>, world: WorldView)
    requires
        ready(state, typed, arg),
        forall|j: int|
            0 <= j < state.entries.len() ==> attached(#[trigger] state.entries[j]) is None,
        lower(typed) == "view"@ || lower(typed) == "play"@ || lower(typed) == "open"@ || lower(
            typed,
        ) == "save"@,
        state.entries.len() <= 2000,
    ensures
        ({
            let step = entered(state, world);
            &&& step.commands.len() == 0
            &&& talk_goes_on(state, step.state)
            &&& step.state.entries.len() > 0
            &&& step.state.entries.last() matches EntryView::System { kind, .. } && kind
                == SystemKind::Error
        }),
{
    lemma_orders();
    lemma_entered(state, typed, arg, world);
    let base = taken(state, typed, arg);
    assert forall|j: int| 0 <= j < base.entries.len() implies attached(#[trigger] base.entries[j])
        is None by {
        assert(attached(state.entries[j]) is None);
    }
    lemma_nothing_attached(base);
    reveal(StateView::ordered);
    reveal(StateView::view_newest);
    reveal(StateView::play_newest);
    reveal(StateView::open_newest);
    reveal(StateView::save_newest);
    law_entry_is_added(
        base,
        EntryView::System { text: "в этой комнате пока нет вложений"@, kind: SystemKind::Error },
    );
}

/// `/send` with a path sends that file, without one it opens the list of files; without a
/// connection it complains.
pub proof fn law_send_sends(state: StateView, typed: Seq<char>, arg: Seq<char>, world: WorldView)
    requires
        ready(state, typed, arg),
        lower(typed) == "send"@,
        state.entries.len() <= 2000,
    ensures
        ({
            let step = entered(state, world);
            let path = meant_path(arg);
            &&& talk_goes_on(state, step.state)
            &&& if !(state.status is Online) || state.media_base.len() == 0 {
                &&& step.commands.len() == 0
                &&& step.state.browser is None
                &&& step.state.entries.len() > 0
                &&& step.state.entries.last() matches EntryView::System { kind, .. } && kind
                    == SystemKind::Error
            } else if path.len() > 0 {
                &&& step.commands == seq![CommandView::Upload(path)]
                &&& step.state.browser is None
                &&& step.state.entries == state.entries
            } else {
                &&& step.commands == seq![CommandView::ReadDir(world.start_dir)]
                &&& step.state.browser is Some
                &&& step.state.browser->0.dir == world.start_dir
                &&& step.state.browser->0.loading
                &&& step.state.entries == state.entries
            }
        }),
{
    lemma_orders();
    lemma_entered(state, typed, arg, world);
    reveal(StateView::ordered);
    reveal(StateView::sending);
    let base = taken(state, typed, arg);
    law_entry_is_added(
        base,
        EntryView::System { text: "нет соединения, файл не отправлен"@, kind: SystemKind::Error },
    );
    law_entry_is_added(
        base,
        EntryView::System { text: "неизвестен адрес сервера"@, kind: SystemKind::Error },
    );
}

/// `/host` starts a server on the port that was named, or on 8080; what is no port is
/// refused.
pub proof fn law_host_starts_a_server(
    state: StateView,
    typed: Seq<char>,
    arg: Seq<char>,
    world: WorldView,
)
    requires
        ready(state, typed, arg),
        lower(typed) == "host"@,
        state.entries.len() <= 2000,
    ensures
        ({
            let step = entered(state, world);
            &&& talk_goes_on(state, step.state)
            &&& arg.len() == 0 ==> step.commands == seq![CommandView::Host(8080)]
            &&& arg.len() > 0 && port_of(arg) is Some ==> step.commands == seq![
                CommandView::Host(port_of(arg)->0 as u16),
            ]
            &&& arg.len() > 0 && port_of(arg) is None ==> {
                &&& step.commands.len() == 0
                &&& step.state.entries.len() > 0
                &&& step.state.entries.last() matches EntryView::System { kind, .. } && kind
                    == SystemKind::Error
            }
        }),
{
    lemma_orders();
    lemma_entered(state, typed, arg, world);
    reveal(StateView::ordered);
    reveal(StateView::hosting);
    law_entry_is_added(
        taken(state, typed, arg),
        EntryView::System {
            text: "порт — это число, например /host 9000"@,
            kind: SystemKind::Error,
        },
    );
}

/// `/join` leads to the room that was named, under the same name and on the same server,
/// with an empty feed; into the room where one is it does not lead again, and a bad name is
/// refused.
pub proof fn law_join_leads_to_the_room(
    state: StateView,
    typed: Seq<char>,
    arg: Seq<char>,
    world: WorldView,
)
    requires
        ready(state, typed, arg),
        lower(typed) == "join"@,
        state.entries.len() <= 2000,
    ensures
        ({
            let step = entered(state, world);
            &&& step.state.screen is Chat
            &&& step.state.nickname == state.nickname
            &&& step.state.server == state.server
            &&& match cleaned_room(arg) {
                Err(_) => {
                    &&& step.commands.len() == 0
                    &&& step.state.room == state.room
                    &&& step.state.entries.len() > 0
                    &&& step.state.entries.last() matches EntryView::System { kind, .. } && kind
                        == SystemKind::Error
                },
                Ok(room) => if room == state.room && state.status is Online {
                    &&& step.commands.len() == 0
                    &&& step.state.room == state.room
                    &&& step.state.users == state.users
                } else {
                    &&& step.commands == seq![
                        CommandView::Connect {
                            nickname: state.nickname,
                            room,
                            server: state.server,
                        },
                    ]
                    &&& step.state.room == room
                    &&& step.state.entries.len() == 1
                    &&& step.state.users.len() == 0
                },
            }
        }),
{
    lemma_orders();
    lemma_entered(state, typed, arg, world);
    reveal(StateView::ordered);
    reveal(StateView::joining);
    reveal(StateView::pushed);
    let base = taken(state, typed, arg);
    if let Err(problem) = cleaned_room(arg) {
        law_entry_is_added(
            base,
            EntryView::System { text: problem.sentence(), kind: SystemKind::Error },
        );
    }
}

/// `/nick` enters the same room anew under the name that was given; the same name changes
/// nothing, and a bad one is refused.
pub proof fn law_nick_renames(state: StateView, typed: Seq<char>, arg: Seq<char>, world: WorldView)
    requires
        ready(state, typed, arg),
        lower(typed) == "nick"@,
        state.entries.len() <= 2000,
    ensures
        ({
            let step = entered(state, world);
            &&& step.state.screen is Chat
            &&& step.state.room == state.room
            &&& step.state.server == state.server
            &&& match cleaned_nickname(arg) {
                Err(_) => {
                    &&& step.commands.len() == 0
                    &&& step.state.nickname == state.nickname
                    &&& step.state.entries.len() > 0
                    &&& step.state.entries.last() matches EntryView::System { kind, .. } && kind
                        == SystemKind::Error
                },
                Ok(name) => {
                    &&& step.state.nickname == name
                    &&& name == state.nickname ==> step.commands.len() == 0
                    &&& name != state.nickname ==> step.commands == seq![
                        CommandView::Connect {
                            nickname: name,
                            room: state.room,
                            server: state.server,
                        },
                    ]
                },
            }
        }),
{
    lemma_orders();
    lemma_entered(state, typed, arg, world);
    reveal(StateView::ordered);
    reveal(StateView::renaming);
    reveal(StateView::pushed);
    let base = taken(state, typed, arg);
    if let Err(problem) = cleaned_nickname(arg) {
        law_entry_is_added(
            base,
            EntryView::System { text: problem.sentence(), kind: SystemKind::Error },
        );
    }
}

/// `/color` with one word gives oneself that colour, with two the name that stands first;
/// a minus takes it away. The choice is kept on the disk. What is no colour is refused.
pub proof fn law_color_paints(
    state: StateView,
    typed: Seq<char>,
    arg: Seq<char>,
    world: WorldView,
)
    requires
        ready(state, typed, arg),
        lower(typed) == "color"@,
        state.entries.len() <= 2000,
        words(arg).len() > 0,
    ensures
        ({
            let step = entered(state, world);
            let parts = words(arg);
            let name = if parts.len() == 1 {
                state.nickname
            } else {
                parts[0]
            };
            let value = if parts.len() == 1 {
                parts[0]
            } else {
                parts[1]
            };
            let now = color_of(step.state.colors, lower(name));
            &&& step.state.nickname == state.nickname && step.state.screen is Chat
            &&& forall|key: Seq<char>|
                key != lower(name) ==> #[trigger] color_of(step.state.colors, key) == color_of(
                    state.colors,
                    key,
                )
            &&& if value == seq!['-'] {
                &&& step.commands == seq![CommandView::SaveConfig]
                &&& now is None
            } else {
                match parsed_color(value) {
                    Some(color) => {
                        &&& step.commands == seq![CommandView::SaveConfig]
                        &&& now == Some(color)
                    },
                    None => {
                        &&& step.commands.len() == 0
                        &&& step.state.colors == state.colors
                    },
                }
            }
        }),
{
    lemma_orders();
    lemma_entered(state, typed, arg, world);
    reveal(StateView::ordered);
    reveal(StateView::coloring);
    reveal(StateView::painted);
    reveal(StateView::unpainted);
    reveal(StateView::pushed);
    reveal_strlit("-");
    assert("-"@ =~= seq!['-']);
    let parts = words(arg);
    let name = if parts.len() == 1 {
        state.nickname
    } else {
        parts[0]
    };
    let value = if parts.len() == 1 {
        parts[0]
    } else {
        parts[1]
    };
    let step = entered(state, world);
    assert forall|key: Seq<char>| key != lower(name) implies #[trigger] color_of(
        step.state.colors,
        key,
    ) == color_of(state.colors, key) by {
        if value == seq!['-'] {
            lemma_color_left(state.colors, lower(name), key);
        } else if let Some(color) = parsed_color(value) {
            crate::client_laws::law_color_is_kept(state.colors, lower(name), color, key);
        }
    }
    if value == seq!['-'] {
        crate::client_laws::law_color_is_taken(state.colors, lower(name));
    } else if let Some(color) = parsed_color(value) {
        crate::client_laws::law_color_is_kept(state.colors, lower(name), color, lower(name));
    }
}

/// Taking a colour from one name leaves the one of another.
proof fn lemma_color_left(
    colors: Seq<crate::state::PaintedView>,
    key: Seq<char>,
    other: Seq<char>,
)
    requires
        key != other,
    ensures
        color_of(colors.filter(other_painted(key)), other) == color_of(colors, other),
    decreases colors.len(),
{
    let test = other_painted(key);
    if colors.len() > 0 {
        let rest = colors.drop_first();
        lemma_color_left(colors.drop_first(), key, other);
        lemma_filter_first(colors, test);
        let kept = colors.filter(test);
        if test(colors[0]) {
            assert(kept.drop_first() =~= rest.filter(test));
            assert(kept[0] == colors[0]);
            if !is_painted(other)(colors[0]) {
                crate::seqs::lemma_first_where(rest, is_painted(other));
                crate::seqs::lemma_first_where(rest.filter(test), is_painted(other));
            }
        } else {
            assert(!is_painted(other)(colors[0]));
            crate::seqs::lemma_first_where(rest, is_painted(other));
        }
    } else {
        reveal(Seq::filter);
        assert(colors.filter(test) =~= colors);
    }
}

proof fn lemma_filter_first<T>(s: Seq<T>, test: spec_fn(T) -> bool)
    requires
        s.len() > 0,
    ensures
        s.filter(test) == if test(s[0]) {
            seq![s[0]] + s.drop_first().filter(test)
        } else {
            s.drop_first().filter(test)
        },
{
    let one = seq![s[0]];
    assert(s =~= one + s.drop_first());
    Seq::filter_distributes_over_add(one, s.drop_first(), test);
    reveal(Seq::filter);
    assert(one.drop_last() =~= Seq::<T>::empty());
    assert(one.drop_last().filter(test) =~= Seq::<T>::empty());
    assert(one.filter(test) =~= if test(s[0]) {
        one
    } else {
        Seq::empty()
    });
    assert(Seq::<T>::empty() + s.drop_first().filter(test) =~= s.drop_first().filter(test));
}

/// Whether a command goes by this name.
pub open spec fn is_command_name(name: Seq<char>) -> bool {
    ||| name == "help"@
    ||| name == "?"@
    ||| name == "quit"@
    ||| name == "exit"@
    ||| name == "menu"@
    ||| name == "clear"@
    ||| name == "view"@
    ||| name == "open"@
    ||| name == "send"@
    ||| name == "rec"@
    ||| name == "play"@
    ||| name == "stop"@
    ||| name == "save"@
    ||| name == "color"@
    ||| name == "host"@
    ||| name == "join"@
    ||| name == "rooms"@
    ||| name == "nick"@
}

/// A command that is not known is not said in the room: it is only complained about.
pub proof fn law_unknown_command(state: StateView, typed: Seq<char>, arg: Seq<char>, world: WorldView)
    requires
        ready(state, typed, arg),
        !is_command_name(lower(typed)),
        world.disk == PathKind::Nothing,
        state.entries.len() <= 2000,
    ensures
        ({
            let step = entered(state, world);
            &&& step.commands.len() == 0
            &&& talk_goes_on(state, step.state)
            &&& step.state.entries.len() > 0
            &&& step.state.entries.last() matches EntryView::System { kind, .. } && kind
                == SystemKind::Error
        }),
{
    reveal(StateView::key_pressed);
    reveal(StateView::chat_key);
    reveal(StateView::line_key);
    reveal(StateView::submitted);
    reveal(StateView::ordered);
    let line = order_line(typed, arg);
    lemma_line(typed, arg);
    let base = taken(state, typed, arg);
    let words = "неизвестная команда /"@ + parted(line).0 + ", список — /help"@;
    assert(order_named(parted(line).0) == Order::Unknown);
    law_entry_is_added(base, EntryView::System { text: words, kind: SystemKind::Error });
}

/// Anything else that is entered is said in the room as it was cleaned, as an answer to
/// what was being answered; a second slash at the beginning is not said. The line is then
/// empty, and nothing is being answered any more.
pub proof fn law_line_is_said(state: StateView, line: Seq<char>, world: WorldView)
    requires
        at_the_line(state),
        trimmed(state.input.text) == line,
        line.len() > 0,
        line[0] != '/' || (line.len() > 1 && line[1] == '/'),
        world.disk == PathKind::Nothing,
        state.status is Online,
    ensures
        ({
            let step = entered(state, world);
            let body = if line[0] == '/' {
                line.skip(1)
            } else {
                line
            };
            cleaned_text(body) is Ok ==> {
                &&& step.commands == seq![
                    CommandView::Send(
                        ClientMessageView::Chat {
                            text: cleaned_text(body)->Ok_0,
                            attachment: None,
                            reply_to: if state.replying is Some {
                                Some(state.replying->0.id)
                            } else {
                                None
                            },
                        },
                    ),
                ]
                &&& line_is_gone(step.state, line)
                &&& step.state.replying is None
                &&& step.state.entries == state.entries
                &&& step.state.screen is Chat
            }
        }),
{
    reveal(StateView::key_pressed);
    reveal(StateView::chat_key);
    reveal(StateView::line_key);
    reveal(StateView::submitted);
    reveal(StateView::saying);
    reveal_strlit("/");
    reveal_strlit("//");
    if line[0] == '/' {
        assert(line.subrange(0, 1) =~= "/"@);
        assert(line.subrange(0, 2) =~= "//"@);
        assert(line.drop_first() =~= line.skip(1));
    } else if begins(line, "/"@) {
        assert(line.subrange(0, 1)[0] == "/"@[0]);
    }
    crate::line_laws::law_sent_lines_are_kept(StateView { completion: None, ..state }, line);
}

/// Where there is no connection, or the text cannot be said, the line stays as it is and a
/// complaint stands in the feed.
pub proof fn law_line_stays(state: StateView, line: Seq<char>, world: WorldView)
    requires
        at_the_line(state),
        trimmed(state.input.text) == line,
        line.len() > 0,
        line[0] != '/',
        world.disk == PathKind::Nothing,
        !(state.status is Online) || cleaned_text(line) is Err,
        state.entries.len() <= 2000,
    ensures
        ({
            let step = entered(state, world);
            &&& only_complains(StateView { completion: None, ..state }, step)
            &&& step.state.input == state.input
            &&& step.state.sent == state.sent
            &&& step.state.replying == state.replying
        }),
{
    reveal(StateView::key_pressed);
    reveal(StateView::chat_key);
    reveal(StateView::line_key);
    reveal(StateView::submitted);
    reveal(StateView::saying);
    reveal_strlit("/");
    if begins(line, "/"@) {
        assert(line.subrange(0, 1)[0] == "/"@[0]);
    }
    let base = StateView { completion: None, ..state };
    lemma_complaint(base, "нет соединения, сообщение не отправлено"@);
    law_entry_is_added(
        base,
        EntryView::System {
            text: "нет соединения, сообщение не отправлено"@,
            kind: SystemKind::Error,
        },
    );
    if let Err(problem) = cleaned_text(line) {
        lemma_complaint(base, problem.sentence());
        law_entry_is_added(
            base,
            EntryView::System { text: problem.sentence(), kind: SystemKind::Error },
        );
    }
}

/// An empty line does nothing.
pub proof fn law_nothing_is_said(state: StateView, world: WorldView)
    requires
        at_the_line(state),
        trimmed(state.input.text).len() == 0,
    ensures
        entered(state, world).commands.len() == 0,
        entered(state, world).state == (StateView { completion: None, ..state }),
{
    reveal(StateView::key_pressed);
    reveal(StateView::chat_key);
    reveal(StateView::line_key);
    reveal(StateView::submitted);
}

} // verus!
