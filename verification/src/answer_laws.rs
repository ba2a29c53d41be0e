//! What a client does with the answers to what it has asked for, and with everything that
//! comes from neither the network nor the keys.
use crate::command_laws::{
    address_of_file, attached, feed_has_more, is_played, is_shown, law_entry_is_added, talk_goes_on,
};
use crate::files::FileEntryView;
use crate::home::LoginView;
use crate::picture::PictureView;
use crate::protocol::{AttachmentKind, AttachmentView, ClientMessageView, RoomSummaryView};
use crate::state::{
    ActionView, CommandView, DestinationView, EntryView, ScreenView, StateView, Step, SystemKind,
    ThumbnailView, ViewerStateView, WorldView,
};
use crate::text::{decimal, joined, words};
use crate::wave::WaveformView;
use vstd::prelude::*;

verus! {

/// A tick is counted, and nothing else happens; what was at work is no longer, once it is
/// done.
pub proof fn law_ticks_and_rest(state: StateView, world: WorldView)
    ensures
        ({
            let step = state.updated(ActionView::Tick, world);
            &&& step.commands.len() == 0
            &&& step.state == (StateView { tick: step.state.tick, ..state })
            &&& state.tick < u64::MAX ==> step.state.tick == state.tick + 1
        }),
        state.updated(ActionView::Idle, world).commands.len() == 0,
        state.updated(ActionView::Idle, world).state == (StateView { busy: None, ..state }),
{
    reveal(StateView::changed);
}

/// The wheel scrolls the feed by so many lines, up to its beginning and down to its end.
pub proof fn law_wheel_scrolls(state: StateView, delta: i32, world: WorldView)
    ensures
        ({
            let step = state.updated(ActionView::Scroll(delta), world);
            let top = if state.viewport.total_lines > state.viewport.height {
                state.viewport.total_lines - state.viewport.height
            } else {
                0
            };
            &&& step.commands.len() == 0
            &&& step.state == (StateView { scrollback: step.state.scrollback, ..state })
            &&& 0 <= state.scrollback + delta <= top ==> step.state.scrollback == state.scrollback
                + delta
            &&& state.scrollback + delta > top ==> step.state.scrollback == top
            &&& state.scrollback + delta < 0 ==> step.state.scrollback == 0
        }),
{
    reveal(StateView::changed);
}

/// What is told stands in the feed as a note; what went wrong stands where the person is:
/// in the feed of a room as a complaint, on the first screen as the reason under the form.
pub proof fn law_notes_are_told(state: StateView, text: Seq<char>, world: WorldView)
    requires
        state.entries.len() <= 2000,
    ensures
        ({
            let step = state.updated(ActionView::Info(text), world);
            &&& step.commands.len() == 0
            &&& feed_has_more(state, step.state, EntryView::System { text, kind: SystemKind::Info })
            &&& talk_goes_on(state, step.state)
            &&& step.state.busy == state.busy
        }),
        ({
            let step = state.updated(ActionView::Notice(text), world);
            &&& step.commands.len() == 0
            &&& step.state.busy is None
            &&& match state.screen {
                ScreenView::Chat => {
                    &&& feed_has_more(
                        state,
                        step.state,
                        EntryView::System { text, kind: SystemKind::Error },
                    )
                    &&& talk_goes_on(state, step.state)
                },
                ScreenView::Login(login) => {
                    &&& step.state.entries == state.entries
                    &&& step.state.screen == ScreenView::Login(
                        LoginView { busy: None, error: Some(text), ..login },
                    )
                },
            }
        }),
{
    reveal(StateView::changed);
    reveal(StateView::noticed);
    law_entry_is_added(state, EntryView::System { text, kind: SystemKind::Info });
    law_entry_is_added(
        StateView { busy: None, ..state },
        EntryView::System { text, kind: SystemKind::Error },
    );
}

/// The shape of a voice is kept under its number, and from now on the voice plays.
pub proof fn law_voice_begins(state: StateView, id: u128, wave: WaveformView, world: WorldView)
    ensures
        ({
            let step = state.updated(ActionView::Waveform(id, wave), world);
            &&& step.commands.len() == 0
            &&& step.state.waveforms.contains_key(id) && step.state.waveforms[id] == wave
            &&& forall|other: u128|
                other != id ==> (#[trigger] step.state.waveforms.contains_key(other)
                    <==> state.waveforms.contains_key(other))
            &&& step.state.playing_voice == Some((id, world.now))
            &&& step.state.entries == state.entries
        }),
{
    reveal(StateView::changed);
    reveal(StateView::answered);
}

/// The line that tells of a room: how to get there, how many people are there, and whether
/// one is there oneself.
pub open spec fn tells_of(room: RoomSummaryView, here: bool, line: Seq<char>) -> bool {
    line == "  /join "@ + room.name + " — "@ + decimal(room.users as nat) + " чел."@ + (if here {
        " · вы здесь"@
    } else {
        Seq::empty()
    })
}

/// Whether an entry is the line of a room.
pub open spec fn is_line_of(room: RoomSummaryView, here: bool, entry: EntryView) -> bool {
    &&& entry matches EntryView::System { text, kind }
    &&& kind == SystemKind::Info
    &&& tells_of(room, here, text)
}

/// Some lines stand in the feed one after another.
proof fn lemma_told_all(state: StateView, kind: SystemKind, lines: Seq<Seq<char>>)
    requires
        state.entries.len() + lines.len() <= 2000,
    ensures
        ({
            let b = state.told_all(kind, lines);
            &&& b == (StateView { entries: b.entries, seen: b.seen, ..state })
            &&& b.entries.len() == state.entries.len() + lines.len()
            &&& b.entries.take(state.entries.len() as int) == state.entries
            &&& forall|i: int|
                0 <= i < lines.len() ==> b.entries[state.entries.len() + i] == (EntryView::System {
                    text: #[trigger] lines[i],
                    kind,
                })
        }),
    decreases lines.len(),
{
    reveal_with_fuel(StateView::told_all, 2);
    let n = state.entries.len() as int;
    if lines.len() == 0 {
        assert(state.entries.take(n) =~= state.entries);
    } else {
        let less = lines.drop_last();
        lemma_told_all(state, kind, less);
        let a = state.told_all(kind, less);
        let b = state.told_all(kind, lines);
        law_entry_is_added(a, EntryView::System { text: lines.last(), kind });
        assert forall|i: int| 0 <= i < lines.len() implies b.entries[n + i] == (EntryView::System {
            text: #[trigger] lines[i],
            kind,
        }) by {
            if i < less.len() {
                assert(less[i] == lines[i]);
            }
        }
        assert(b.entries.take(n) =~= state.entries) by {
            assert forall|i: int| 0 <= i < n implies b.entries.take(n)[i] == state.entries[i] by {
                assert(a.entries.take(n)[i] == a.entries[i]);
            }
        }
    }
}

/// In a room the list of rooms stands in the feed, a line for each room in the order of
/// the list, behind a heading.
pub proof fn law_rooms_are_told(state: StateView, rooms: Seq<RoomSummaryView>, world: WorldView)
    requires
        state.screen is Chat,
        state.entries.len() + rooms.len() + 1 <= 2000,
    ensures
        ({
            let step = state.updated(ActionView::Rooms(Ok(rooms)), world);
            let n = state.entries.len() as int;
            &&& step.commands.len() == 0
            &&& talk_goes_on(state, step.state)
            &&& step.state.busy is None
            &&& step.state.entries.len() == n + 1 + rooms.len()
            &&& step.state.entries.take(n) == state.entries
            &&& forall|i: int|
                0 <= i < rooms.len() ==> is_line_of(
                    #[trigger] rooms[i],
                    rooms[i].name == state.room,
                    step.state.entries[n + 1 + i],
                )
        }),
{
    reveal(StateView::changed);
    reveal(StateView::answered);
    reveal(StateView::rooms_came);
    reveal(StateView::rooms_told);
    let n = state.entries.len() as int;
    let rest = StateView { busy: None, ..state };
    let step = state.updated(ActionView::Rooms(Ok(rooms)), world);
    if rooms.len() == 0 {
        let entry = EntryView::System { text: "других комнат сейчас нет"@, kind: SystemKind::Info };
        law_entry_is_added(rest, entry);
        assert(step.state.entries.take(n) =~= state.entries);
    } else {
        let entry = EntryView::System { text: "комнаты на сервере:"@, kind: SystemKind::Info };
        law_entry_is_added(rest, entry);
        let told = rest.pushed(entry);
        let lines = rooms.map_values(
            |room: RoomSummaryView| crate::update::room_line(room, rest.room),
        );
        lemma_told_all(told, SystemKind::Info, lines);
        let b = told.told_all(SystemKind::Info, lines);
        assert(step.state == b);
        assert(talk_goes_on(state, step.state));
        assert(step.state.entries.len() == n + 1 + rooms.len());
        assert forall|i: int| 0 <= i < rooms.len() implies is_line_of(
            #[trigger] rooms[i],
            rooms[i].name == state.room,
            step.state.entries[n + 1 + i],
        ) by {
            assert(lines[i] == crate::update::room_line(rooms[i], rest.room));
            assert(b.entries[told.entries.len() + i] == (EntryView::System {
                text: lines[i],
                kind: SystemKind::Info,
            }));
        }
        assert(step.state.entries.take(n) =~= state.entries) by {
            assert forall|i: int| 0 <= i < n implies step.state.entries.take(n)[i]
                == state.entries[i] by {
                assert(b.entries.take(n + 1)[i] == b.entries[i]);
            }
        }
    }
}

/// On the first screen the rooms stand under the form, in the order of the list; the chosen
/// one stays chosen as long as there is one in its place. Where the list does not come, the
/// reason is shown, and in a room it stands in the feed.
pub proof fn law_rooms_are_shown(
    state: StateView,
    login: LoginView,
    rooms: Seq<RoomSummaryView>,
    reason: Seq<char>,
    world: WorldView,
)
    requires
        state.screen == ScreenView::Login(login),
    ensures
        ({
            let step = state.updated(ActionView::Rooms(Ok(rooms)), world);
            &&& step.commands.len() == 0
            &&& step.state.screen matches ScreenView::Login(after)
            &&& after.rooms == rooms
            &&& after.rooms_selected == (if login.rooms_selected matches Some(i) && i < rooms.len() {
                login.rooms_selected
            } else {
                None
            })
            &&& after.rooms_note is None <==> rooms.len() > 0
            &&& after.nickname == login.nickname && after.room == login.room && after.server
                == login.server && after.tab == login.tab && after.field == login.field
            &&& step.state == state.with_login(after)
        }),
        ({
            let step = state.updated(ActionView::Rooms(Err(reason)), world);
            &&& step.commands.len() == 0
            &&& step.state.screen == ScreenView::Login(
                LoginView {
                    rooms: Seq::empty(),
                    rooms_selected: None,
                    rooms_note: Some(reason),
                    ..login
                },
            )
            &&& step.state.entries == state.entries
        }),
{
    reveal(StateView::changed);
    reveal(StateView::answered);
    reveal(StateView::rooms_came);
}

/// What was uploaded goes into the room, as an answer to what was being answered; where it
/// failed, only the reason is told.
pub proof fn law_uploaded_goes_into_the_room(
    state: StateView,
    a: AttachmentView,
    reason: Seq<char>,
    world: WorldView,
)
    requires
        state.entries.len() <= 2000,
    ensures
        ({
            let step = state.updated(ActionView::Uploaded(Ok(a)), world);
            &&& step.commands == seq![
                CommandView::Send(
                    ClientMessageView::Chat {
                        text: Seq::empty(),
                        attachment: Some(a.id),
                        reply_to: if state.replying is Some {
                            Some(state.replying->0.id)
                        } else {
                            None
                        },
                    },
                ),
            ]
            &&& step.state.busy is None
            &&& step.state.replying is None
            &&& talk_goes_on(StateView { replying: None, ..state }, step.state)
            &&& feed_has_more(
                state,
                step.state,
                EntryView::System { text: "отправляю "@ + a.name, kind: SystemKind::Info },
            )
        }),
        ({
            let step = state.updated(ActionView::Uploaded(Err(reason)), world);
            &&& step.commands.len() == 0
            &&& step.state.busy is None
            &&& talk_goes_on(state, step.state)
            &&& feed_has_more(
                state,
                step.state,
                EntryView::System { text: reason, kind: SystemKind::Error },
            )
        }),
{
    reveal(StateView::uploaded);
    let rest = StateView { busy: None, ..state };
    law_entry_is_added(
        rest,
        EntryView::System { text: "отправляю "@ + a.name, kind: SystemKind::Info },
    );
    law_entry_is_added(rest, EntryView::System { text: reason, kind: SystemKind::Error });
}

/// A directory that was read is shown whole, from its beginning, with nothing typed into
/// the filter; where it could not be read, the reason is shown. Once the list is closed it
/// does not open again.
pub proof fn law_directory_is_shown(
    state: StateView,
    dir: Seq<char>,
    entries: Seq<FileEntryView>,
    reason: Seq<char>,
    world: WorldView,
)
    ensures
        ({
            let step = state.updated(ActionView::Directory { dir, result: Ok(entries) }, world);
            &&& step.commands.len() == 0
            &&& state.browser is None ==> step.state == state
            &&& state.browser is Some ==> {
                &&& step.state == (StateView { browser: step.state.browser, ..state })
                &&& step.state.browser matches Some(b)
                &&& b.dir == dir && b.entries == entries && b.selected == 0 && !b.loading
                &&& b.error is None && b.filter.text.len() == 0
            }
        }),
        ({
            let step = state.updated(ActionView::Directory { dir, result: Err(reason) }, world);
            &&& step.commands.len() == 0
            &&& state.browser is None ==> step.state == state
            &&& state.browser is Some ==> {
                &&& step.state.browser matches Some(b)
                &&& b.dir == dir && b.entries.len() == 0 && !b.loading
                &&& b.error == Some(reason)
            }
        }),
{
    reveal(StateView::changed);
    reveal(StateView::answered);
    reveal(StateView::directory_read);
}

/// Where a file was written is told; where it was not, why.
pub proof fn law_saving_is_told(
    state: StateView,
    path: Seq<char>,
    reason: Seq<char>,
    world: WorldView,
)
    requires
        state.entries.len() <= 2000,
    ensures
        ({
            let step = state.updated(ActionView::Saved(Ok(path)), world);
            &&& step.commands.len() == 0
            &&& step.state.busy is None
            &&& talk_goes_on(state, step.state)
            &&& feed_has_more(
                state,
                step.state,
                EntryView::System { text: "сохранено: "@ + path, kind: SystemKind::Info },
            )
        }),
        ({
            let step = state.updated(ActionView::Saved(Err(reason)), world);
            &&& step.commands.len() == 0
            &&& step.state.busy is None
            &&& talk_goes_on(state, step.state)
            &&& feed_has_more(
                state,
                step.state,
                EntryView::System { text: reason, kind: SystemKind::Error },
            )
        }),
{
    reveal(StateView::changed);
    reveal(StateView::answered);
    reveal(StateView::file_saved);
    let rest = StateView { busy: None, ..state };
    law_entry_is_added(
        rest,
        EntryView::System { text: "сохранено: "@ + path, kind: SystemKind::Info },
    );
    law_entry_is_added(rest, EntryView::System { text: reason, kind: SystemKind::Error });
}

/// A picture that came is shown in the window that waits for it and in the feed that waits
/// for it, and nowhere else; one that did not come is shown as failed.
pub proof fn law_picture_is_shown(
    state: StateView,
    id: u128,
    picture: PictureView,
    reason: Seq<char>,
    world: WorldView,
)
    ensures
        ({
            let step = state.updated(ActionView::Image(id, Ok(picture)), world);
            &&& step.commands.len() == 0
            &&& waits_for(state, id) ==> step.state.viewer->0.state == ViewerStateView::Ready(
                picture,
            ) && step.state.viewer->0.name == state.viewer->0.name && step.state.busy is None
            &&& !waits_for(state, id) ==> step.state.viewer == state.viewer && step.state.busy
                == state.busy
            &&& state.thumbnails.contains_key(id) ==> step.state.thumbnails[id]
                == ThumbnailView::Ready(picture)
            &&& others_stay(state, step.state, id)
        }),
        ({
            let step = state.updated(ActionView::Image(id, Err(reason)), world);
            &&& step.commands.len() == 0
            &&& waits_for(state, id) ==> step.state.viewer->0.state == ViewerStateView::Failed(
                reason,
            )
            &&& !waits_for(state, id) ==> step.state.viewer == state.viewer && step.state.busy
                == state.busy
            &&& state.thumbnails.contains_key(id) ==> step.state.thumbnails[id]
                == ThumbnailView::Failed
            &&& others_stay(state, step.state, id)
        }),
{
    reveal(StateView::changed);
    reveal(StateView::answered);
    reveal(StateView::picture_came);
}

/// Whether the window above the feed is there for a picture.
pub open spec fn waits_for(state: StateView, id: u128) -> bool {
    state.viewer is Some && state.viewer->0.id == id
}

/// Whether nothing changed but what is known of one picture.
pub open spec fn others_stay(a: StateView, b: StateView, id: u128) -> bool {
    &&& b == StateView { viewer: b.viewer, thumbnails: b.thumbnails, busy: b.busy, ..a }
    &&& b.viewer is Some <==> a.viewer is Some
    &&& b.thumbnails.contains_key(id) <==> a.thumbnails.contains_key(id)
    &&& forall|other: u128|
        other != id ==> {
            &&& #[trigger] b.thumbnails.contains_key(other) <==> a.thumbnails.contains_key(other)
            &&& a.thumbnails.contains_key(other) ==> b.thumbnails[other] == a.thumbnails[other]
        }
}

/// A server that was started here is entered at once, under the same name and in the same
/// room; how others get there stands in the feed line by line.
pub proof fn law_own_server_is_entered(
    state: StateView,
    url: Seq<char>,
    lines: Seq<Seq<char>>,
    world: WorldView,
)
    requires
        state.entries.len() + lines.len() <= 2000,
    ensures
        ({
            let step = state.updated(ActionView::Hosted { url, lines }, world);
            let n = state.entries.len() as int;
            &&& step.commands == seq![
                CommandView::Connect {
                    nickname: state.nickname,
                    room: state.room,
                    server: url,
                },
            ]
            &&& step.state.screen is Chat
            &&& step.state.server == url
            &&& step.state.nickname == state.nickname && step.state.room == state.room
            &&& step.state.busy is None
            &&& step.state.entries.len() == n + lines.len()
            &&& step.state.entries.take(n) == state.entries
            &&& forall|i: int|
                0 <= i < lines.len() ==> step.state.entries[n + i] == (EntryView::System {
                    text: #[trigger] lines[i],
                    kind: SystemKind::Info,
                })
        }),
{
    reveal(StateView::hosted);
    lemma_told_all(
        StateView { screen: ScreenView::Chat, busy: None, ..state },
        SystemKind::Info,
        lines,
    );
}

/// What is pasted stands in the line as one line: its words with single spaces between
/// them, where the cursor stood. On the first screen it goes into the field that is being
/// filled.
pub proof fn law_pasted_in_one_line(state: StateView, text: Seq<char>, world: WorldView)
    requires
        state.screen is Chat,
        state.input.wf(),
        state.input.text.len() + joined(words(text), " "@).len() <= 1000,
    ensures
        ({
            let step = state.updated(ActionView::Paste(text), world);
            let flat = joined(words(text), " "@);
            &&& step.commands.len() == 0
            &&& step.state == (StateView { input: step.state.input, ..state })
            &&& step.state.input.text == state.input.text.take(state.input.cursor) + flat
                + state.input.text.skip(state.input.cursor)
            &&& step.state.input.cursor == state.input.cursor + flat.len()
        }),
{
    reveal(StateView::changed);
    reveal(StateView::pasted);
    let flat = joined(words(text), " "@);
    assert(flat.take(flat.len() as int) =~= flat);
}

/// Whether a file is written among the downloads under its own name.
pub open spec fn is_kept(a: StateView, step: Step, file: AttachmentView) -> bool {
    &&& step.commands == seq![
        CommandView::Save {
            url: address_of_file(a, file),
            destination: DestinationView::Downloads(file.name),
        },
    ]
    &&& talk_goes_on(a, step.state)
    &&& step.state.entries == a.entries
    &&& step.state.viewer == a.viewer
}

/// Whether what is expected of an attachment is done: a picture is shown, a voice is
/// played, a file is kept.
pub open spec fn is_done_with(a: StateView, step: Step, what: AttachmentView) -> bool {
    match what.kind {
        AttachmentKind::Image => is_shown(a, step, what),
        AttachmentKind::Audio => is_played(a, step, what),
        AttachmentKind::File => is_kept(a, step, what),
    }
}

/// What is done with an entry that was taken.
pub proof fn law_attachment_is_used(state: StateView, k: int, world: WorldView)
    requires
        0 <= k < state.entries.len(),
        state.media_base.len() > 0,
    ensures
        ({
            let step = state.acted_on(k, world);
            match attached(state.entries[k]) {
                Some(a) => is_done_with(state, step, a),
                None => step.commands.len() == 0 && step.state == state,
            }
        }),
{
    reveal(StateView::acted_on);
    reveal(StateView::viewed);
    reveal(StateView::played);
    reveal(StateView::saved);
    assert(Seq::<char>::empty().len() == 0);
    lemma_no_path();
}

/// Nothing typed is no path.
pub proof fn lemma_no_path()
    ensures
        crate::attach::meant_path(Seq::empty()).len() == 0,
{
    let none = Seq::<char>::empty();
    crate::word_laws::law_trim_takes_the_ends(none, none, none);
    assert(none + none + none =~= none);
}

/// A click on the row of an entry does with its attachment what is expected; a click on
/// anything else does nothing.
pub proof fn law_click_uses_the_attachment(
    state: StateView,
    column: u16,
    row: u16,
    world: WorldView,
)
    requires
        state.media_base.len() > 0,
    ensures
        ({
            let step = state.updated(ActionView::Click(column, row), world);
            match state.entry_at(row) {
                Some(k) => match attached(state.entries[k]) {
                    Some(a) => is_done_with(state, step, a),
                    None => step.commands.len() == 0 && step.state == state,
                },
                None => step.commands.len() == 0 && step.state == state,
            }
        }),
{
    reveal(StateView::clicked);
    if let Some(k) = state.entry_at(row) {
        law_attachment_is_used(state, k, world);
    }
}

} // verus!
