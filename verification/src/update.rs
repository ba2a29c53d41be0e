//! The one rule by which a client changes: something happens, and there is a new state
//! and a list of things to do outside.
use crate::address::{endpoint, endpoint_of};
use crate::entrance::asking_note;
use crate::files::{FileEntry, FileEntryView};
use crate::home::LoginView;
use crate::input::InputView;
use crate::journal::{
    by_name, is_user, knows_user, other_user, typing_said, typing_without,
};
use crate::keys::{normalize_shortcut, normalized, KeyEvent};
use crate::picture::{Picture, PictureView};
use crate::protocol::{
    Attachment, AttachmentView, ChatMessage, ChatMessageView, ClientMessage, ClientMessageView,
    RoomSummary, RoomSummaryView, ServerMessage, ServerMessageView, UserInfo, UserInfoView,
};
use crate::seqs::any_where;
use crate::state::{
    map_view, nothing, only, quiet, result_view, step_of, with, Action, ActionView, BrowserView,
    Command, CommandView, NetEvent, NetEventView, PathKind, Screen, ScreenView, State, StateView,
    Status, StatusView, Step, SystemKind, Thumbnail, ThumbnailView, ViewerState, ViewerStateView,
    ViewerView, World, WorldView,
};
use crate::text::{decimal, glue, glue3, join, joined, number, same, split_words, words};
use crate::validate::MAX_TEXT_CHARS;
use crate::wave::{Waveform, WaveformView};
use vstd::prelude::*;
use vstd::string::*;

verus! {

broadcast use vstd::std_specs::hash::group_hash_axioms;

/// A room as a line of the feed.
pub open spec fn room_line(room: RoomSummaryView, here: Seq<char>) -> Seq<char> {
    "  /join "@ + room.name + " — "@ + decimal(room.users as nat) + " чел."@ + if room.name == here {
        " · вы здесь"@
    } else {
        Seq::empty()
    }
}

/// A room as a line of the feed.
fn line_of_room(room: &RoomSummary, here: &str) -> (r: String)
    ensures
        r@ == room_line(room.deep_view(), here@),
{
    let mut r = glue3("  /join ", room.name.as_str(), " — ");
    r.append(number(room.users as u64).as_str());
    r.append(" чел.");
    if same(room.name.as_str(), here) {
        r.append(" · вы здесь");
    }
    assert(r@ =~= room_line(room.deep_view(), here@));
    r
}

impl StateView {
    /// With some messages, one after another.
    #[verifier::opaque]
    pub open spec fn heard_all(self, messages: Seq<ChatMessageView>, now: u64) -> StateView
        decreases messages.len(),
    {
        if messages.len() == 0 {
            self
        } else {
            self.heard_all(messages.drop_last(), now).heard(messages.last(), now)
        }
    }

    /// Whether one of some messages calls one by name.
    #[verifier::opaque]
    pub open spec fn rings_in(self, messages: Seq<ChatMessageView>, now: u64) -> bool
        decreases messages.len(),
    {
        messages.len() > 0 && (self.rings_in(messages.drop_last(), now) || self.heard_all(
            messages.drop_last(),
            now,
        ).rings(messages.last()))
    }

    /// With some lines of the client itself.
    #[verifier::opaque]
    pub open spec fn told_all(self, kind: SystemKind, lines: Seq<Seq<char>>) -> StateView
        decreases lines.len(),
    {
        if lines.len() == 0 {
            self
        } else {
            self.told_all(kind, lines.drop_last()).told(kind, lines.last())
        }
    }

    /// The pictures of the feed are sent for after whatever else there is to do.
    pub open spec fn then_thumbnails(step: Step) -> Step {
        let queued = step.state.thumbnails_queued();
        Step { state: queued.state, commands: step.commands + queued.commands }
    }

    /// The bell, where it is on and there is a reason.
    pub open spec fn bell(self, reason: bool) -> Seq<CommandView> {
        if reason && self.audio.chime {
            seq![CommandView::Bell]
        } else {
            Seq::empty()
        }
    }

    /// In a room: who one is and who else is there.
    pub open spec fn placed(
        self,
        id: u128,
        room: Seq<char>,
        nickname: Seq<char>,
        users: Seq<UserInfoView>,
        upload_limit: u64,
    ) -> StateView {
        StateView {
            upload_limit: upload_limit as usize,
            me: Some(id),
            room,
            nickname,
            users: by_name(users.push(UserInfoView { id, nickname })),
            status: StatusView::Online,
            ..self
        }
    }

    /// What is said on entering a room, or on entering it anew.
    #[verifier::opaque]
    pub open spec fn greeted(self, again: bool) -> StateView {
        if again {
            self.told(SystemKind::Info, "соединение восстановлено"@)
        } else {
            self.told(
                SystemKind::Info,
                "вы вошли в комнату "@ + self.room + " как "@ + self.nickname,
            ).told(SystemKind::Info, "/help — список команд"@)
        }
    }

    /// The server lets one in. The history of the room fills the feed; what is known
    /// already is passed over.
    #[verifier::opaque]
    pub open spec fn welcomed(
        self,
        id: u128,
        room: Seq<char>,
        nickname: Seq<char>,
        users: Seq<UserInfoView>,
        history: Seq<ChatMessageView>,
        upload_limit: u64,
        now: u64,
    ) -> Step {
        let placed = self.placed(id, room, nickname, users, upload_limit);
        Step {
            state: placed.heard_all(history, now).greeted(self.me is Some),
            commands: self.bell(placed.rings_in(history, now)).push(CommandView::SaveConfig),
        }
    }

    /// Somebody has come.
    #[verifier::opaque]
    pub open spec fn joined_by(self, user: UserInfoView) -> StateView {
        let told = self.told(SystemKind::Join, user.nickname + " вошёл в комнату"@);
        if any_where(told.users, is_user(user.id)) {
            told
        } else {
            StateView { users: by_name(told.users.push(user)), ..told }
        }
    }

    /// Somebody has gone.
    #[verifier::opaque]
    pub open spec fn left_by(self, user: UserInfoView) -> StateView {
        let told = self.told(SystemKind::Leave, user.nickname + " вышел"@);
        StateView {
            users: told.users.filter(other_user(user.id)),
            typing: typing_without(told.typing, user.id),
            ..told
        }
    }

    /// What a message of the server does.
    #[verifier::opaque]
    pub open spec fn served(self, message: ServerMessageView, now: u64) -> Step {
        match message {
            ServerMessageView::Welcome {
                your_id,
                room,
                nickname,
                users,
                history,
                upload_limit,
            } => self.welcomed(your_id, room, nickname, users, history, upload_limit, now),
            ServerMessageView::UserJoined { user } => quiet(self.joined_by(user)),
            ServerMessageView::UserLeft { user } => quiet(self.left_by(user)),
            ServerMessageView::Typing { user } => quiet(
                StateView {
                    typing: typing_said(self.typing, user.id, user.nickname, now),
                    ..self
                },
            ),
            ServerMessageView::Chat(message) => Step {
                state: self.heard(message, now),
                commands: self.bell(self.rings(message)),
            },
            ServerMessageView::Error { message, .. } => quiet(
                self.told(SystemKind::Error, message),
            ),
            ServerMessageView::Pong => quiet(self),
        }
    }

    /// A hopeless connection: back on the first screen with the reason.
    #[verifier::opaque]
    pub open spec fn turned_away(self, reason: Seq<char>, world: WorldView) -> Step {
        Step {
            state: StateView {
                screen: ScreenView::Login(
                    LoginView {
                        error: Some(reason),
                        rooms_note: Some(asking_note()),
                        ..self.home_screen(world)
                    },
                ),
                users: Seq::empty(),
                ..self
            },
            commands: StateView::asking_rooms(world),
        }
    }

    /// What the network does. A list of people that is out of date is worse than none.
    #[verifier::opaque]
    pub open spec fn networked(self, event: NetEventView, world: WorldView) -> Step {
        match event {
            NetEventView::Connecting { attempt } => quiet(
                StateView { status: StatusView::Connecting { attempt }, ..self },
            ),
            NetEventView::Disconnected { reason, retry_at } => quiet(
                StateView {
                    status: StatusView::Reconnecting { reason, retry_at },
                    users: Seq::empty(),
                    ..self.told(SystemKind::Error, "соединение потеряно: "@ + reason)
                },
            ),
            NetEventView::Fatal { reason } => self.turned_away(reason, world),
            NetEventView::Message(message) => StateView::then_thumbnails(
                self.served(message, world.now),
            ),
        }
    }

    /// No longer at work.
    pub open spec fn idle(self) -> StateView {
        StateView { busy: None, ..self }
    }

    /// What was pasted, in one line.
    #[verifier::opaque]
    pub open spec fn pasted(self, text: Seq<char>) -> StateView {
        let flat = joined(words(text), " "@);
        match self.screen {
            ScreenView::Login(login) => self.with_login(
                login.with_active(login.active().inserted(flat, login.limit() as int)),
            ),
            ScreenView::Chat => StateView {
                input: self.input.inserted(flat, MAX_TEXT_CHARS as int),
                ..self
            },
        }
    }

    /// A click on an attachment does with it what is expected; a click on anything else
    /// does nothing.
    #[verifier::opaque]
    pub open spec fn clicked(self, row: u16, world: WorldView) -> Step {
        match self.entry_at(row) {
            Some(index) => self.acted_on(index, world),
            None => quiet(self),
        }
    }

    /// Something went wrong: it is told where the person is.
    #[verifier::opaque]
    pub open spec fn noticed(self, text: Seq<char>) -> StateView {
        match self.screen {
            ScreenView::Login(login) => self.idle().with_login(
                LoginView { busy: None, error: Some(text), ..login },
            ),
            ScreenView::Chat => self.idle().told(SystemKind::Error, text),
        }
    }

    /// A server was started here: one connects to oneself.
    #[verifier::opaque]
    pub open spec fn hosted(self, url: Seq<char>, lines: Seq<Seq<char>>) -> Step {
        let here = StateView {
            server: url,
            ..StateView { screen: ScreenView::Chat, ..self.idle() }.told_all(
                SystemKind::Info,
                lines,
            )
        };
        with(here, here.connecting())
    }

    /// The rooms of the server under the form for entering.
    pub open spec fn rooms_shown(
        login: LoginView,
        rooms: Result<Seq<RoomSummaryView>, Seq<char>>,
    ) -> LoginView {
        match rooms {
            Ok(rooms) => LoginView {
                rooms_note: if rooms.len() == 0 {
                    Some("комнат пока нет — впишите имя, и она заведётся"@)
                } else {
                    None
                },
                rooms_selected: match login.rooms_selected {
                    Some(i) => if i < rooms.len() {
                        Some(i)
                    } else {
                        None
                    },
                    None => None,
                },
                rooms,
                ..login
            },
            Err(reason) => LoginView {
                rooms: Seq::empty(),
                rooms_selected: None,
                rooms_note: Some(reason),
                ..login
            },
        }
    }

    /// The rooms of the server as lines of the feed.
    #[verifier::opaque]
    pub open spec fn rooms_told(self, rooms: Result<Seq<RoomSummaryView>, Seq<char>>) -> StateView {
        match rooms {
            Ok(rooms) => if rooms.len() == 0 {
                self.told(SystemKind::Info, "других комнат сейчас нет"@)
            } else {
                self.told(SystemKind::Info, "комнаты на сервере:"@).told_all(
                    SystemKind::Info,
                    rooms.map_values(|room: RoomSummaryView| room_line(room, self.room)),
                )
            },
            Err(reason) => self.told(SystemKind::Error, reason),
        }
    }

    /// The rooms of the server have come.
    #[verifier::opaque]
    pub open spec fn rooms_came(self, rooms: Result<Seq<RoomSummaryView>, Seq<char>>) -> StateView {
        match self.screen {
            ScreenView::Login(login) => self.with_login(StateView::rooms_shown(login, rooms)),
            ScreenView::Chat => self.idle().rooms_told(rooms),
        }
    }

    /// A file was uploaded: it goes into the room.
    #[verifier::opaque]
    pub open spec fn uploaded(self, result: Result<AttachmentView, Seq<char>>) -> Step {
        match result {
            Ok(attachment) => with(
                StateView {
                    replying: None,
                    ..self.idle().told(SystemKind::Info, "отправляю "@ + attachment.name)
                },
                CommandView::Send(
                    ClientMessageView::Chat {
                        text: Seq::empty(),
                        attachment: Some(attachment.id),
                        reply_to: match self.replying {
                            Some(target) => Some(target.id),
                            None => None,
                        },
                    },
                ),
            ),
            Err(reason) => self.idle().refused(reason),
        }
    }

    /// A directory was read.
    #[verifier::opaque]
    pub open spec fn directory_read(
        self,
        dir: Seq<char>,
        result: Result<Seq<FileEntryView>, Seq<char>>,
    ) -> StateView {
        match self.browser {
            Some(browser) => self.with_browser(
                BrowserView {
                    dir,
                    loading: false,
                    selected: 0,
                    filter: InputView::of(Seq::empty()),
                    entries: match result {
                        Ok(entries) => entries,
                        Err(_) => Seq::empty(),
                    },
                    error: match result {
                        Ok(_) => None,
                        Err(reason) => Some(reason),
                    },
                },
            ),
            None => self,
        }
    }

    /// An attachment was written to the disk.
    #[verifier::opaque]
    pub open spec fn file_saved(self, result: Result<Seq<char>, Seq<char>>) -> StateView {
        match result {
            Ok(path) => self.idle().told(SystemKind::Info, "сохранено: "@ + path),
            Err(reason) => self.idle().told(SystemKind::Error, reason),
        }
    }

    /// Whether the viewer waits for this picture.
    pub open spec fn views(self, id: u128) -> bool {
        self.viewer matches Some(viewer) && viewer.id == id
    }

    /// A picture has come: the viewer may wait for it, and the feed.
    #[verifier::opaque]
    pub open spec fn picture_came(
        self,
        id: u128,
        result: Result<PictureView, Seq<char>>,
    ) -> StateView {
        let seen = if self.views(id) {
            StateView {
                busy: None,
                viewer: Some(
                    ViewerView {
                        state: match result {
                            Ok(picture) => ViewerStateView::Ready(picture),
                            Err(reason) => ViewerStateView::Failed(reason),
                        },
                        ..self.viewer->0
                    },
                ),
                ..self
            }
        } else {
            self
        };
        if self.thumbnails.contains_key(id) {
            StateView {
                thumbnails: self.thumbnails.insert(
                    id,
                    match result {
                        Ok(picture) => ThumbnailView::Ready(picture),
                        Err(_) => ThumbnailView::Failed,
                    },
                ),
                ..seen
            }
        } else {
            seen
        }
    }

    /// One more tick; after the last one the count begins anew.
    pub open spec fn ticked(self) -> StateView {
        StateView {
            tick: if self.tick == u64::MAX {
                0
            } else {
                (self.tick + 1) as u64
            },
            ..self
        }
    }

    /// The shape of a voice has come: it begins to play now.
    pub open spec fn shape_came(self, id: u128, wave: WaveformView, now: u64) -> StateView {
        StateView {
            waveforms: self.waveforms.insert(id, wave),
            playing_voice: Some((id, now)),
            ..self
        }
    }

    /// What a key does. Letting go of a key does nothing: otherwise every letter would
    /// be typed twice.
    #[verifier::opaque]
    pub open spec fn key_pressed(self, key: KeyEvent, world: WorldView) -> Step {
        if !key.press {
            quiet(self)
        } else {
            match self.screen {
                ScreenView::Login(login) => self.home_key(login, normalized(key), world),
                ScreenView::Chat => self.chat_key(normalized(key), world),
            }
        }
    }

    /// What the client comes to by something that asks for nothing to be done outside.
    #[verifier::opaque]
    pub open spec fn changed(self, action: ActionView, now: u64) -> StateView {
        match action {
            ActionView::Tick => self.ticked(),
            ActionView::Paste(text) => self.pasted(text),
            ActionView::Scroll(delta) => self.scrolled(delta as int),
            ActionView::Notice(text) => self.noticed(text),
            ActionView::Info(text) => self.told(SystemKind::Info, text),
            ActionView::Idle => self.idle(),
            _ => self.answered(action, now),
        }
    }

    /// What the client comes to by an answer to something that it has asked for.
    #[verifier::opaque]
    pub open spec fn answered(self, action: ActionView, now: u64) -> StateView {
        match action {
            ActionView::Waveform(id, wave) => self.shape_came(id, wave, now),
            ActionView::Rooms(rooms) => self.rooms_came(rooms),
            ActionView::Directory { dir, result } => self.directory_read(dir, result),
            ActionView::Saved(result) => self.file_saved(result),
            ActionView::Image(id, result) => self.picture_came(id, result),
            _ => self,
        }
    }

    /// What comes of anything that happens.
    pub open spec fn updated(self, action: ActionView, world: WorldView) -> Step {
        match action {
            ActionView::Key(key) => self.key_pressed(key, world),
            ActionView::Click(_, row) => self.clicked(row, world),
            ActionView::Hosted { url, lines } => self.hosted(url, lines),
            ActionView::Uploaded(result) => self.uploaded(result),
            ActionView::Net(event) => self.networked(event, world),
            _ => quiet(self.changed(action, world.now)),
        }
    }
}

impl State {
    /// Adds some messages, one after another. The result says whether one of them calls
    /// one by name.
    fn hear_all(&mut self, messages: Vec<ChatMessage>, now: u64) -> (r: bool)
        requires
            old(self).deep_view().wf(),
        ensures
            final(self).deep_view() == old(self).deep_view().heard_all(messages.deep_view(), now),
            r == old(self).deep_view().rings_in(messages.deep_view(), now),
            final(self).deep_view().wf(),
    {
        proof {
            reveal(StateView::heard_all);
            reveal(StateView::rings_in);
        }
        let ghost before = self.deep_view();
        let ghost all = messages.deep_view();
        let mut rang = false;
        let mut i: usize = 0;
        assert(all.len() == messages@.len());
        assert(all.take(0) =~= Seq::<ChatMessageView>::empty());
        assert(before.heard_all(all.take(0), now) == before);
        assert(!before.rings_in(all.take(0), now));
        while i < messages.len()
            invariant
                i <= messages@.len(),
                all == messages.deep_view(),
                self.deep_view() == before.heard_all(all.take(i as int), now),
                rang == before.rings_in(all.take(i as int), now),
                self.deep_view().wf(),
            decreases messages@.len() - i,
        {
            proof {
                assert(all.take(i + 1).drop_last() =~= all.take(i as int));
                assert(all.take(i + 1).last() == all[i as int]);
                assert(all[i as int] == messages@[i as int].deep_view());
            }
            proof {
                reveal(StateView::heard_all);
                reveal(StateView::rings_in);
            }
            if self.push_chat(messages[i].clone(), now) {
                rang = true;
            }
            i = i + 1;
        }
        assert(all.take(all.len() as int) =~= all);
        rang
    }

    /// Adds some lines of the client itself.
    fn tell_all(&mut self, kind: SystemKind, lines: &Vec<String>)
        requires
            old(self).deep_view().wf(),
        ensures
            final(self).deep_view() == old(self).deep_view().told_all(kind, lines.deep_view()),
            final(self).deep_view().wf(),
    {
        proof {
            reveal(StateView::told_all);
        }
        let ghost before = self.deep_view();
        let ghost all = lines.deep_view();
        let mut i: usize = 0;
        assert(all.len() == lines@.len());
        assert(all.take(0) =~= Seq::<Seq<char>>::empty());
        assert(before.told_all(kind, all.take(0)) == before);
        while i < lines.len()
            invariant
                i <= lines@.len(),
                all == lines.deep_view(),
                self.deep_view() == before.told_all(kind, all.take(i as int)),
                self.deep_view().wf(),
            decreases lines@.len() - i,
        {
            proof {
                assert(all.take(i + 1).drop_last() =~= all.take(i as int));
                assert(all.take(i + 1).last() == all[i as int]);
                assert(all[i as int] == lines@[i as int].deep_view());
            }
            proof {
                reveal(StateView::told_all);
            }
            self.system(kind, lines[i].as_str());
            i = i + 1;
        }
        assert(all.take(all.len() as int) =~= all);
    }

    /// The bell, where it is on and there is a reason.
    fn ring(&self, reason: bool) -> (commands: Vec<Command>)
        ensures
            commands.deep_view() == self.deep_view().bell(reason),
    {
        if reason && self.audio.chime {
            only(Command::Bell)
        } else {
            nothing()
        }
    }

    /// Takes a place in a room.
    fn take_place(
        &mut self,
        id: u128,
        room: String,
        nickname: String,
        users: Vec<UserInfo>,
        upload_limit: u64,
    )
        requires
            old(self).deep_view().wf(),
        ensures
            final(self).deep_view() == old(self).deep_view().placed(
                id,
                room@,
                nickname@,
                users.deep_view(),
                upload_limit,
            ),
            final(self).deep_view().wf(),
    {
        let ghost others = users.deep_view();
        self.upload_limit = upload_limit as usize;
        self.me = Some(id);
        self.room = room;
        self.nickname = nickname.clone();
        self.users = users;
        self.users.push(UserInfo { id, nickname });
        assert(self.users.deep_view() =~= others.push(
            UserInfoView { id, nickname: nickname@ },
        ));
        self.sort_users();
        self.status = Status::Online;
    }

    /// Says what is said on entering a room.
    fn greet(&mut self, again: bool)
        requires
            old(self).deep_view().wf(),
        ensures
            final(self).deep_view() == old(self).deep_view().greeted(again),
            final(self).deep_view().wf(),
    {
        proof {
            reveal(StateView::greeted);
        }
        if again {
            self.system(SystemKind::Info, "соединение восстановлено");
        } else {
            let mut words = glue3("вы вошли в комнату ", self.room.as_str(), " как ");
            words.append(self.nickname.as_str());
            self.system(SystemKind::Info, words.as_str());
            self.system(SystemKind::Info, "/help — список команд");
        }
    }

    /// Somebody has come.
    fn on_joined(&mut self, user: UserInfo)
        requires
            old(self).deep_view().wf(),
        ensures
            final(self).deep_view() == old(self).deep_view().joined_by(user.deep_view()),
            final(self).deep_view().wf(),
    {
        proof {
            reveal(StateView::joined_by);
        }
        self.system(
            SystemKind::Join,
            glue(user.nickname.as_str(), " вошёл в комнату").as_str(),
        );
        if !knows_user(&self.users, user.id) {
            let ghost others = self.users.deep_view();
            let ghost view = user.deep_view();
            self.users.push(user);
            assert(self.users.deep_view() =~= others.push(view));
            self.sort_users();
        }
    }

    /// Somebody has gone.
    fn on_left(&mut self, user: UserInfo)
        requires
            old(self).deep_view().wf(),
        ensures
            final(self).deep_view() == old(self).deep_view().left_by(user.deep_view()),
            final(self).deep_view().wf(),
    {
        proof {
            reveal(StateView::left_by);
        }
        self.system(SystemKind::Leave, glue(user.nickname.as_str(), " вышел").as_str());
        self.drop_person(user.id);
    }

    /// What a message of the server does.
    fn serve(&mut self, message: ServerMessage, now: u64) -> (commands: Vec<Command>)
        requires
            old(self).deep_view().wf(),
        ensures
            step_of(*final(self), commands) == old(self).deep_view().served(
                message.deep_view(),
                now,
            ),
            final(self).deep_view().wf(),
    {
        proof {
            reveal(StateView::served);
            reveal(StateView::welcomed);
        }
        match message {
            ServerMessage::Welcome { your_id, room, nickname, users, history, upload_limit } => {
                let again = self.me.is_some();
                self.take_place(your_id, room, nickname, users, upload_limit);
                let rang = self.hear_all(history, now);
                let mut commands = State::rings_and_saves(self.audio.chime, rang);
                proof {
                    lemma_hearing_keeps_audio(
                        old(self).deep_view().placed(
                            your_id,
                            room@,
                            nickname@,
                            users.deep_view(),
                            upload_limit,
                        ),
                        history.deep_view(),
                        now,
                    );
                }
                self.greet(again);
                commands
            },
            ServerMessage::UserJoined { user } => {
                self.on_joined(user);
                nothing()
            },
            ServerMessage::UserLeft { user } => {
                self.on_left(user);
                nothing()
            },
            ServerMessage::Typing { user } => {
                self.note_typing(user, now);
                nothing()
            },
            ServerMessage::Chat(message) => {
                let rang = self.push_chat(message, now);
                self.ring(rang)
            },
            ServerMessage::Error { code: _, message } => {
                self.system(SystemKind::Error, message.as_str());
                nothing()
            },
            ServerMessage::Pong => nothing(),
        }
    }

    /// The bell, where it is on and there is a reason, and then the settings.
    fn rings_and_saves(chime: bool, reason: bool) -> (commands: Vec<Command>)
        ensures
            commands.deep_view() == (if reason && chime {
                seq![CommandView::Bell]
            } else {
                Seq::empty()
            }).push(CommandView::SaveConfig),
    {
        let mut commands: Vec<Command> = Vec::new();
        if reason && chime {
            commands.push(Command::Bell);
        }
        commands.push(Command::SaveConfig);
        assert(commands.deep_view() =~= (if reason && chime {
            seq![CommandView::Bell]
        } else {
            Seq::empty()
        }).push(CommandView::SaveConfig));
        commands
    }

    /// What a message of the server does, with the pictures of the feed sent for.
    pub fn on_server(&mut self, message: ServerMessage, now: u64) -> (commands: Vec<Command>)
        requires
            old(self).deep_view().wf(),
        ensures
            step_of(*final(self), commands) == StateView::then_thumbnails(
                old(self).deep_view().served(message.deep_view(), now),
            ),
            final(self).deep_view().wf(),
    {
        let mut commands = self.serve(message, now);
        let ghost first = commands.deep_view();
        let mut more = self.queue_thumbnails();
        let ghost rest = more.deep_view();
        commands.append(&mut more);
        assert(commands.deep_view() =~= first + rest);
        commands
    }

    /// Back to the first screen with the reason.
    fn turn_away(&mut self, reason: String, world: &World) -> (commands: Vec<Command>)
        requires
            old(self).deep_view().wf(),
        ensures
            step_of(*final(self), commands) == old(self).deep_view().turned_away(
                reason@,
                world.deep_view(),
            ),
            final(self).deep_view().wf(),
    {
        proof {
            reveal(StateView::turned_away);
        }
        let mut login = self.home_login(world);
        login.error = Some(reason);
        login.rooms_note = Some("спрашиваю сервер о комнатах…".to_owned());
        self.screen = Screen::Login(login);
        self.users.clear();
        assert(self.users.deep_view() =~= Seq::<UserInfoView>::empty());
        State::rooms_fetch(world)
    }

    /// What the network does.
    pub fn on_net(&mut self, event: NetEvent, world: &World) -> (commands: Vec<Command>)
        requires
            old(self).deep_view().wf(),
        ensures
            step_of(*final(self), commands) == old(self).deep_view().networked(
                event.deep_view(),
                world.deep_view(),
            ),
            final(self).deep_view().wf(),
    {
        proof {
            reveal(StateView::networked);
        }
        match event {
            NetEvent::Connecting { attempt } => {
                self.status = Status::Connecting { attempt };
                nothing()
            },
            NetEvent::Disconnected { reason, retry_at } => {
                self.system(
                    SystemKind::Error,
                    glue("соединение потеряно: ", reason.as_str()).as_str(),
                );
                self.status = Status::Reconnecting { reason, retry_at };
                self.users.clear();
                assert(self.users.deep_view() =~= Seq::<UserInfoView>::empty());
                nothing()
            },
            NetEvent::Fatal { reason } => self.turn_away(reason, world),
            NetEvent::Message(message) => self.on_server(message, world.now),
        }
    }

    /// What was pasted goes in as one line: so it is seen as it will be sent.
    fn on_paste(&mut self, text: String)
        requires
            old(self).deep_view().wf(),
        ensures
            final(self).deep_view() == old(self).deep_view().pasted(text@),
            final(self).deep_view().wf(),
    {
        proof {
            reveal(StateView::pasted);
        }
        let flat = join(&split_words(text.as_str()), " ");
        match &mut self.screen {
            Screen::Login(login) => {
                let limit: usize = login.limit();
                let active = login.active();
                active.insert(flat.as_str(), limit);
            },
            Screen::Chat => {
                self.input.insert(flat.as_str(), MAX_TEXT_CHARS);
            },
        }
    }

    /// Something went wrong.
    fn on_notice(&mut self, text: String)
        requires
            old(self).deep_view().wf(),
        ensures
            final(self).deep_view() == old(self).deep_view().noticed(text@),
            final(self).deep_view().wf(),
    {
        proof {
            reveal(StateView::noticed);
        }
        self.busy = None;
        let here = match &mut self.screen {
            Screen::Login(login) => {
                login.busy = None;
                login.error = Some(text.clone());
                false
            },
            Screen::Chat => true,
        };
        if here {
            self.system(SystemKind::Error, text.as_str());
        }
    }

    /// A server was started here.
    fn on_hosted(&mut self, url: String, lines: Vec<String>) -> (commands: Vec<Command>)
        requires
            old(self).deep_view().wf(),
        ensures
            step_of(*final(self), commands) == old(self).deep_view().hosted(
                url@,
                lines.deep_view(),
            ),
            final(self).deep_view().wf(),
    {
        proof {
            reveal(StateView::hosted);
        }
        let ghost before = self.deep_view();
        self.busy = None;
        self.screen = Screen::Chat;
        let ghost ready = StateView { screen: ScreenView::Chat, ..before.idle() };
        assert(self.deep_view() == ready);
        self.tell_all(SystemKind::Info, &lines);
        let ghost told = ready.told_all(SystemKind::Info, lines.deep_view());
        assert(self.deep_view() == told);
        self.server = url;
        assert(self.deep_view() == StateView { server: url@, ..told });
        only(self.connect())
    }

    /// Shows the rooms of the server as lines of the feed.
    #[verifier::loop_isolation(false)]
    fn tell_rooms(&mut self, result: Result<Vec<RoomSummary>, String>)
        requires
            old(self).deep_view().wf(),
        ensures
            final(self).deep_view() == old(self).deep_view().rooms_told(result_view(result)),
            final(self).deep_view().wf(),
    {
        proof {
            reveal(StateView::rooms_told);
        }
        let rooms = match result {
            Ok(rooms) => rooms,
            Err(reason) => {
                self.system(SystemKind::Error, reason.as_str());
                return;
            },
        };
        let ghost all = rooms.deep_view();
        assert(all.len() == rooms@.len());
        if rooms.len() == 0 {
            self.system(SystemKind::Info, "других комнат сейчас нет");
            return;
        }
        let ghost here = self.room@;
        let ghost f = |room: RoomSummaryView| room_line(room, here);
        let mut lines: Vec<String> = Vec::new();
        let mut i: usize = 0;
        assert(lines.deep_view() =~= all.take(0).map_values(f));
        while i < rooms.len()
            invariant
                i <= rooms@.len(),
                lines.deep_view() == all.take(i as int).map_values(f),
            decreases rooms@.len() - i,
        {
            let ghost before = lines.deep_view();
            assert(all[i as int] == rooms@[i as int].deep_view());
            lines.push(line_of_room(&rooms[i], self.room.as_str()));
            assert(lines.deep_view() =~= before.push(f(all[i as int])));
            i = i + 1;
            assert(lines.deep_view() =~= all.take(i as int).map_values(f));
        }
        assert(all.take(all.len() as int) =~= all);
        self.system(SystemKind::Info, "комнаты на сервере:");
        self.tell_all(SystemKind::Info, &lines);
    }

    /// The rooms of the server have come.
    fn on_rooms(&mut self, result: Result<Vec<RoomSummary>, String>)
        requires
            old(self).deep_view().wf(),
        ensures
            final(self).deep_view() == old(self).deep_view().rooms_came(result_view(result)),
            final(self).deep_view().wf(),
    {
        proof {
            reveal(StateView::rooms_came);
        }
        match &mut self.screen {
            Screen::Login(login) => login.show_rooms(result),
            Screen::Chat => {
                self.busy = None;
                self.tell_rooms(result);
            },
        }
    }

    /// A file was uploaded.
    fn on_uploaded(&mut self, result: Result<Attachment, String>) -> (commands: Vec<Command>)
        requires
            old(self).deep_view().wf(),
        ensures
            step_of(*final(self), commands) == old(self).deep_view().uploaded(
                result_view(result),
            ),
            final(self).deep_view().wf(),
    {
        proof {
            reveal(StateView::uploaded);
        }
        self.busy = None;
        match result {
            Ok(attachment) => {
                self.system(
                    SystemKind::Info,
                    glue("отправляю ", attachment.name.as_str()).as_str(),
                );
                let reply_to = match &self.replying {
                    Some(target) => Some(target.id),
                    None => None,
                };
                self.replying = None;
                let text = String::new();
                assert(text@ =~= Seq::<char>::empty());
                only(
                    Command::Send(
                        ClientMessage::Chat { text, attachment: Some(attachment.id), reply_to },
                    ),
                )
            },
            Err(reason) => self.refuse(reason.as_str()),
        }
    }

    /// A directory was read.
    fn on_directory(&mut self, dir: String, result: Result<Vec<FileEntry>, String>)
        requires
            old(self).deep_view().wf(),
        ensures
            final(self).deep_view() == old(self).deep_view().directory_read(
                dir@,
                result_view(result),
            ),
            final(self).deep_view().wf(),
    {
        proof {
            reveal(StateView::directory_read);
        }
        match &mut self.browser {
            Some(browser) => {
                browser.loading = false;
                browser.dir = dir;
                browser.selected = 0;
                browser.filter.clear();
                match result {
                    Ok(entries) => {
                        browser.entries = entries;
                        browser.error = None;
                    },
                    Err(reason) => {
                        browser.entries.clear();
                        assert(browser.entries.deep_view() =~= Seq::<FileEntryView>::empty());
                        browser.error = Some(reason);
                    },
                }
            },
            None => {},
        }
    }

    /// An attachment was written to the disk.
    fn on_saved(&mut self, result: Result<String, String>)
        requires
            old(self).deep_view().wf(),
        ensures
            final(self).deep_view() == old(self).deep_view().file_saved(result_view(result)),
            final(self).deep_view().wf(),
    {
        proof {
            reveal(StateView::file_saved);
        }
        self.busy = None;
        match result {
            Ok(path) => self.system(SystemKind::Info, glue("сохранено: ", path.as_str()).as_str()),
            Err(reason) => self.system(SystemKind::Error, reason.as_str()),
        }
    }

    /// A picture has come.
    fn on_image(&mut self, id: u128, result: Result<Picture, String>)
        requires
            old(self).deep_view().wf(),
        ensures
            final(self).deep_view() == old(self).deep_view().picture_came(
                id,
                result_view(result),
            ),
            final(self).deep_view().wf(),
    {
        proof {
            reveal(StateView::picture_came);
        }
        match &mut self.viewer {
            Some(viewer) => {
                if viewer.id == id {
                    self.busy = None;
                    viewer.state = match &result {
                        Ok(picture) => ViewerState::Ready(picture.clone()),
                        Err(reason) => ViewerState::Failed(reason.clone()),
                    };
                }
            },
            None => {},
        }
        if self.thumbnails.contains_key(&id) {
            let ghost before = map_view(self.thumbnails);
            let thumbnail = match result {
                Ok(picture) => Thumbnail::Ready(picture),
                Err(_) => Thumbnail::Failed,
            };
            let ghost view = thumbnail.deep_view();
            self.thumbnails.insert(id, thumbnail);
            assert(map_view(self.thumbnails) =~= before.insert(id, view));
        }
    }

    /// One more tick.
    fn on_tick(&mut self)
        requires
            old(self).deep_view().wf(),
        ensures
            final(self).deep_view() == old(self).deep_view().ticked(),
            final(self).deep_view().wf(),
    {
        self.tick = if self.tick == u64::MAX {
            0
        } else {
            self.tick + 1
        };
    }

    /// The shape of a voice has come.
    fn on_waveform(&mut self, id: u128, wave: Waveform, now: u64)
        requires
            old(self).deep_view().wf(),
        ensures
            final(self).deep_view() == old(self).deep_view().shape_came(
                id,
                wave.deep_view(),
                now,
            ),
            final(self).deep_view().wf(),
    {
        let ghost before = map_view(self.waveforms);
        let ghost view = wave.deep_view();
        self.waveforms.insert(id, wave);
        assert(map_view(self.waveforms) =~= before.insert(id, view));
        self.playing_voice = Some((id, now));
    }

    /// An answer to something that was asked for.
    fn on_answer(&mut self, action: Action, now: u64)
        requires
            old(self).deep_view().wf(),
        ensures
            final(self).deep_view() == old(self).deep_view().answered(action.deep_view(), now),
            final(self).deep_view().wf(),
    {
        proof {
            reveal(StateView::answered);
        }
        match action {
            Action::Waveform(id, wave) => self.on_waveform(id, wave, now),
            Action::Rooms(result) => self.on_rooms(result),
            Action::Directory { dir, result } => self.on_directory(dir, result),
            Action::Saved(result) => self.on_saved(result),
            Action::Image(id, result) => self.on_image(id, result),
            _ => {},
        }
    }

    /// Something that asks for nothing to be done outside.
    fn on_change(&mut self, action: Action, now: u64)
        requires
            old(self).deep_view().wf(),
        ensures
            final(self).deep_view() == old(self).deep_view().changed(action.deep_view(), now),
            final(self).deep_view().wf(),
    {
        proof {
            reveal(StateView::changed);
        }
        match action {
            Action::Tick => self.on_tick(),
            Action::Paste(text) => self.on_paste(text),
            Action::Scroll(delta) => self.scroll_by(delta),
            Action::Notice(text) => self.on_notice(text),
            Action::Info(text) => self.system(SystemKind::Info, text.as_str()),
            Action::Idle => {
                self.busy = None;
            },
            _ => self.on_answer(action, now),
        }
    }

    /// A click.
    fn on_click(&mut self, row: u16, world: &World) -> (commands: Vec<Command>)
        requires
            old(self).deep_view().wf(),
        ensures
            step_of(*final(self), commands) == old(self).deep_view().clicked(
                row,
                world.deep_view(),
            ),
            final(self).deep_view().wf(),
    {
        proof {
            reveal(StateView::clicked);
        }
        match self.entry_at_row(row) {
            Some(index) => self.act_on_picked(index, world),
            None => nothing(),
        }
    }

    /// What a key does.
    fn on_key(&mut self, key: KeyEvent, world: &World) -> (commands: Vec<Command>)
        requires
            old(self).deep_view().wf(),
        ensures
            step_of(*final(self), commands) == old(self).deep_view().key_pressed(
                key,
                world.deep_view(),
            ),
            final(self).deep_view().wf(),
    {
        proof {
            reveal(StateView::key_pressed);
        }
        if !key.press {
            return nothing();
        }
        let key = normalize_shortcut(key);
        let home = match &self.screen {
            Screen::Login(_) => true,
            Screen::Chat => false,
        };
        if home {
            self.on_login_key(key, world)
        } else {
            self.on_chat_key(key, world)
        }
    }
}

impl crate::home::Login {
    /// Shows the rooms of the server under the form.
    fn show_rooms(&mut self, result: Result<Vec<RoomSummary>, String>)
        requires
            old(self).deep_view().wf(),
        ensures
            final(self).deep_view() == StateView::rooms_shown(
                old(self).deep_view(),
                result_view(result),
            ),
            final(self).deep_view().wf(),
    {
        match result {
            Ok(rooms) => {
                assert(rooms.deep_view().len() == rooms@.len());
                self.rooms_note = if rooms.len() == 0 {
                    Some("комнат пока нет — впишите имя, и она заведётся".to_owned())
                } else {
                    None
                };
                self.rooms_selected = match self.rooms_selected {
                    Some(i) => if i < rooms.len() {
                        Some(i)
                    } else {
                        None
                    },
                    None => None,
                };
                self.rooms = rooms;
            },
            Err(reason) => {
                self.rooms.clear();
                assert(self.rooms.deep_view() =~= Seq::<RoomSummaryView>::empty());
                self.rooms_selected = None;
                self.rooms_note = Some(reason);
            },
        }
    }
}

/// Messages do not touch the settings of the sound.
proof fn lemma_hearing_keeps_audio(state: StateView, messages: Seq<ChatMessageView>, now: u64)
    ensures
        state.heard_all(messages, now).audio == state.audio,
    decreases messages.len(),
{
    reveal(StateView::heard_all);
    reveal(StateView::pushed);
    if messages.len() > 0 {
        lemma_hearing_keeps_audio(state, messages.drop_last(), now);
    }
}

/// Changes a client by something that happened. The result is what has to be done
/// outside.
pub fn update(state: &mut State, action: Action, world: &World) -> (commands: Vec<Command>)
    requires
        old(state).deep_view().wf(),
    ensures
        step_of(*final(state), commands) == old(state).deep_view().updated(
            action.deep_view(),
            world.deep_view(),
        ),
        final(state).deep_view().wf(),
{
    match action {
        Action::Key(key) => state.on_key(key, world),
        Action::Click(_, row) => state.on_click(row, world),
        Action::Hosted { url, lines } => state.on_hosted(url, lines),
        Action::Uploaded(result) => state.on_uploaded(result),
        Action::Net(event) => state.on_net(event, world),
        _ => {
            state.on_change(action, world.now);
            nothing()
        },
    }
}

/// What is looked up outside before something is taken in.
pub struct Outside {
    /// The time, in milliseconds.
    pub now: u64,
    /// The address of a server where neither one was typed nor one is known.
    pub usual: String,
    /// The directory with which the list of files opens.
    pub start_dir: String,
    /// The directory above the one in the list of files.
    pub parent: Option<String>,
    /// What the path in play leads to.
    pub disk: PathKind,
}

pub struct OutsideView {
    pub now: u64,
    pub usual: Seq<char>,
    pub start_dir: Seq<char>,
    pub parent: Option<Seq<char>>,
    pub disk: PathKind,
}

impl DeepView for Outside {
    type V = OutsideView;

    open spec fn deep_view(&self) -> OutsideView {
        OutsideView {
            now: self.now,
            usual: self.usual@,
            start_dir: self.start_dir@,
            parent: self.parent.deep_view(),
            disk: self.disk,
        }
    }
}

impl OutsideView {
    /// The world in which something happens to a client: the address in play is read as
    /// one is typed.
    pub open spec fn around(self, state: StateView, action: ActionView) -> WorldView {
        WorldView {
            now: self.now,
            endpoint: endpoint_of(state.address_in_play(action, self.usual)),
            start_dir: self.start_dir,
            parent: self.parent,
            disk: self.disk,
        }
    }
}

/// Changes a client by something that happened, wherever the address in play leads. The
/// result is what has to be done outside.
pub fn take_in(state: &mut State, action: Action, outside: Outside) -> (commands: Vec<Command>)
    requires
        old(state).deep_view().wf(),
    ensures
        step_of(*final(state), commands) == old(state).deep_view().updated(
            action.deep_view(),
            outside.deep_view().around(old(state).deep_view(), action.deep_view()),
        ),
        final(state).deep_view().wf(),
{
    let address = state.address_to_check(&action, outside.usual.as_str());
    let world = World {
        now: outside.now,
        endpoint: endpoint(address.as_str()),
        start_dir: outside.start_dir,
        parent: outside.parent,
        disk: outside.disk,
    };
    update(state, action, &world)
}

} // verus!
