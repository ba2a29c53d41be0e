//! The keys on the first screen, the settings, and how a client begins.
use crate::console::{parse_port, port_of};
use crate::home::{
    cycle_device, next_device, plain_audio, Audio, AudioView, Field, HomeTab, Login, LoginView,
    Setting, SoundSetting, VOLUME_STEPS,
};
use crate::input::{edit_key, Input, InputView};
use crate::keys::{KeyCode, KeyEvent};
use crate::state::{
    both, nothing, only, quiet, step_of, with, Action, ActionView, Command, CommandView, EntryView,
    Mode, NetEvent, NetEventView, PaintedView, Screen, ScreenView, State, StateView, Status,
    StatusView, Step, ThumbnailView, TypistView, Viewport, World, WorldView,
};
use crate::protocol::UserInfoView;
use crate::text::{decimal, glue, number, same, trim, trimmed};
use crate::theme::Theme;
use crate::validate::{
    clean_nickname, clean_room, cleaned_nickname, cleaned_room, MAX_UPLOAD_BYTES,
};
use crate::wave::WaveformView;
use std::collections::{HashMap, HashSet};
use vstd::prelude::*;
use vstd::string::*;

verus! {

broadcast use vstd::std_specs::hash::group_hash_axioms;

/// The next choice about pictures in the feed, or the one before.
pub open spec fn next_images(choice: Option<bool>, back: bool) -> Option<bool> {
    match (choice, back) {
        (None, false) => Some(true),
        (Some(true), false) => Some(false),
        (Some(false), false) => None,
        (None, true) => Some(false),
        (Some(false), true) => Some(true),
        (Some(true), true) => None,
    }
}

/// The next choice about the terminal, or the one before.
pub open spec fn next_mode(mode: Mode, back: bool) -> Mode {
    match (mode, back) {
        (Mode::Auto, false) => Mode::Always,
        (Mode::Always, false) => Mode::Never,
        (Mode::Never, false) => Mode::Auto,
        (Mode::Auto, true) => Mode::Never,
        (Mode::Never, true) => Mode::Always,
        (Mode::Always, true) => Mode::Auto,
    }
}

/// The next step of loudness, or the one before.
pub open spec fn next_volume(volume: usize, back: bool) -> usize {
    let at = if volume < VOLUME_STEPS {
        volume as int
    } else {
        VOLUME_STEPS - 1
    };
    (if back {
        if at == 0 {
            VOLUME_STEPS - 1
        } else {
            at - 1
        }
    } else if at == VOLUME_STEPS - 1 {
        0
    } else {
        at + 1
    }) as usize
}

/// What is said while the server is asked for its rooms.
pub open spec fn asking_note() -> Seq<char> {
    "спрашиваю сервер о комнатах…"@
}

/// The address in play: what was typed, else the server that is known, else the one on
/// this machine.
pub open spec fn address_of(typed: Seq<char>, known: Seq<char>, usual: Seq<char>) -> Seq<char> {
    if trimmed(typed).len() > 0 {
        trimmed(typed)
    } else if known.len() > 0 {
        known
    } else {
        usual
    }
}

impl StateView {
    /// What was chosen about pictures outweighs what was found out.
    pub open spec fn images_applied(self) -> StateView {
        StateView {
            inline_images: match self.images_choice {
                Some(choice) => choice,
                None => self.images_auto,
            },
            ..self
        }
    }

    /// With the next value of a setting, or the one before.
    pub open spec fn setting_shifted(self, setting: Setting, back: bool) -> StateView {
        match setting {
            Setting::Theme => StateView { theme: self.theme.shifted(back), ..self },
            Setting::Images => StateView {
                images_choice: next_images(self.images_choice, back),
                ..self
            }.images_applied(),
            Setting::Sidebar => StateView { sidebar: !self.sidebar, ..self },
            Setting::Terminal => StateView {
                terminal_mode: next_mode(self.terminal_mode, back),
                ..self
            },
        }
    }

    /// With the next value of a setting of the sound, or the one before.
    pub open spec fn sound_shifted(self, setting: SoundSetting, back: bool) -> StateView {
        let audio = self.audio;
        StateView {
            audio: match setting {
                SoundSetting::Output => AudioView {
                    output: next_device(audio.outputs, audio.output, back),
                    ..audio
                },
                SoundSetting::Input => AudioView {
                    input: next_device(audio.inputs, audio.input, back),
                    ..audio
                },
                SoundSetting::Chime => AudioView { chime: !audio.chime, ..audio },
                SoundSetting::Volume => AudioView {
                    volume: next_volume(audio.volume, back),
                    ..audio
                },
            },
            ..self
        }
    }

    /// The value of a setting, in words.
    pub open spec fn setting_words(self, setting: Setting) -> Seq<char> {
        match setting {
            Setting::Theme => self.theme.title_text(),
            Setting::Images => match self.images_choice {
                None => "авто"@,
                Some(true) => "показывать"@,
                Some(false) => "не надо"@,
            },
            Setting::Sidebar => if self.sidebar {
                "показывать"@
            } else {
                "спрятана"@
            },
            Setting::Terminal => match self.terminal_mode {
                Mode::Auto => "авто"@,
                Mode::Always => "всегда"@,
                Mode::Never => "никогда"@,
            },
        }
    }

    /// The value of a setting of the sound, in words.
    pub open spec fn sound_words(self, setting: SoundSetting) -> Seq<char> {
        match setting {
            SoundSetting::Output => match self.audio.output {
                Some(name) => name,
                None => "как в системе"@,
            },
            SoundSetting::Input => match self.audio.input {
                Some(name) => name,
                None => "как в системе"@,
            },
            SoundSetting::Chime => if self.audio.chime {
                "включён"@
            } else {
                "выключен"@
            },
            SoundSetting::Volume => if self.audio.volume == 0 {
                "тихо"@
            } else if self.audio.volume == 2 {
                "громко"@
            } else {
                "средне"@
            },
        }
    }

    /// With a remembered name put into its field, where the field is shown.
    pub open spec fn prefilled(self, nickname: Option<Seq<char>>) -> StateView {
        match (nickname, self.screen) {
            (Some(nickname), ScreenView::Login(login)) => StateView {
                nickname,
                screen: ScreenView::Login(
                    LoginView { nickname: InputView::of(nickname), ..login },
                ),
                ..self
            },
            _ => self,
        }
    }

    /// With another first screen.
    pub open spec fn with_login(self, login: LoginView) -> StateView {
        StateView { screen: ScreenView::Login(login), ..self }
    }

    /// A field is wrong: it gets the focus and the reason is shown.
    pub open spec fn field_refused(self, login: LoginView, field: Field, words: Seq<char>) -> Step {
        quiet(self.with_login(LoginView { field, error: Some(words), ..login }))
    }

    /// With what is left of the talk: in the same room of the same server it goes on where
    /// it stopped, in any other one it begins anew.
    pub open spec fn arriving(
        self,
        nickname: Seq<char>,
        room: Seq<char>,
        server: Seq<char>,
    ) -> StateView {
        let there = StateView { nickname, room, server, screen: ScreenView::Chat, ..self };
        if room == self.room && server == self.server {
            StateView { users: Seq::empty(), ..there }
        } else {
            there.forgotten()
        }
    }

    /// Entering a room. The chosen one of the list outweighs the one that was typed.
    #[verifier::opaque]
    pub open spec fn entering(self, login: LoginView, world: WorldView) -> Step {
        let raw = match login.chosen_room() {
            Some(room) => room,
            None => login.room.text,
        };
        match cleaned_nickname(login.nickname.text) {
            Err(problem) => self.field_refused(login, Field::Nickname, problem.sentence()),
            Ok(nickname) => match cleaned_room(raw) {
                Err(problem) => self.field_refused(
                    LoginView { rooms_selected: None, ..login },
                    Field::Room,
                    problem.sentence(),
                ),
                Ok(room) => match world.endpoint {
                    Err(reason) => self.field_refused(login, Field::Server, reason),
                    Ok(endpoint) => with(
                        self.arriving(nickname, room, endpoint.socket),
                        CommandView::Connect { nickname, room, server: endpoint.socket },
                    ),
                },
            },
        }
    }

    /// Starting a server. The screen stays: a port may be taken, and that is told where
    /// it was typed.
    #[verifier::opaque]
    pub open spec fn starting(self, login: LoginView) -> Step {
        match cleaned_nickname(login.nickname.text) {
            Err(problem) => self.field_refused(login, Field::Nickname, problem.sentence()),
            Ok(nickname) => match cleaned_room(login.room.text) {
                Err(problem) => self.field_refused(login, Field::Room, problem.sentence()),
                Ok(room) => match port_of(trimmed(login.port.text)) {
                    None => self.field_refused(
                        login,
                        Field::Port,
                        "порт — число от 1 до 65535"@,
                    ),
                    Some(port) => with(
                        StateView { nickname, room, ..self }.forgotten().with_login(
                            LoginView {
                                error: None,
                                busy: Some(
                                    "поднимаю сервер на порту "@ + decimal(port as nat),
                                ),
                                ..login
                            },
                        ),
                        CommandView::Host(port as u16),
                    ),
                },
            },
        }
    }

    /// Enter on the first screen does what the tab says.
    #[verifier::opaque]
    pub open spec fn home_entered(self, login: LoginView, world: WorldView) -> Step {
        if login.busy is Some {
            quiet(self)
        } else {
            match login.tab {
                HomeTab::Join => self.entering(login, world),
                HomeTab::Host => self.starting(login),
                HomeTab::Look => self.look_key(login, false),
                HomeTab::Sound => self.sound_key(login, false),
                HomeTab::Help => quiet(self),
            }
        }
    }

    /// The chosen setting is shifted and written down.
    #[verifier::opaque]
    pub open spec fn look_key(self, login: LoginView, back: bool) -> Step {
        with(self.setting_shifted(login.current_setting(), back), CommandView::SaveConfig)
    }

    /// The chosen setting of the sound is shifted, heard and written down.
    #[verifier::opaque]
    pub open spec fn sound_key(self, login: LoginView, back: bool) -> Step {
        Step {
            state: self.sound_shifted(login.current_sound(), back),
            commands: seq![CommandView::Audio, CommandView::SaveConfig],
        }
    }

    /// Back on the first tab.
    pub open spec fn tab_left(login: LoginView, now: u64) -> LoginView {
        if login.tab == HomeTab::Join {
            login
        } else {
            LoginView {
                tab: HomeTab::Join,
                switched: now,
                field: Field::Nickname,
                error: None,
                ..login
            }
        }
    }

    /// A key that edits a field. Whoever types no longer means the chosen room, and a
    /// port takes digits only.
    #[verifier::opaque]
    pub open spec fn field_key(login: LoginView, key: KeyEvent) -> LoginView {
        let free = LoginView { rooms_selected: None, ..login };
        let letter = key.code matches KeyCode::Char(ch) && !('0' <= ch <= '9');
        if login.tab.field_list().len() == 0 {
            login
        } else if login.field == Field::Port && !key.ctrl && letter {
            free
        } else {
            match free.active().edited(key, free.limit() as int) {
                Some(input) => free.with_active(input),
                None => free,
            }
        }
    }

    /// A key that changes nothing but the first screen. Tab turns the tabs, arrows walk
    /// inside one.
    #[verifier::opaque]
    pub open spec fn own_key(login: LoginView, key: KeyEvent, now: u64) -> LoginView {
        match key.code {
            KeyCode::Esc => StateView::tab_left(login, now),
            KeyCode::Tab => login.tab_switched(false, now),
            KeyCode::BackTab => login.tab_switched(true, now),
            KeyCode::Down => login.down(),
            KeyCode::Up => login.up(),
            _ => StateView::field_key(login, key),
        }
    }

    /// A key on the first screen.
    #[verifier::opaque]
    pub open spec fn home_key(self, login: LoginView, key: KeyEvent, world: WorldView) -> Step {
        let back = key.code == KeyCode::Left;
        let sideways = key.code == KeyCode::Left || key.code == KeyCode::Right;
        if StateView::closing(key) {
            self.quitting()
        } else if key.code == KeyCode::Enter {
            self.home_entered(login, world)
        } else if sideways && login.tab == HomeTab::Look {
            self.look_key(login, back)
        } else if sideways && login.tab == HomeTab::Sound {
            self.sound_key(login, back)
        } else if key.ctrl && key.code == KeyCode::Char('r') {
            Step {
                state: self.with_login(LoginView { rooms_note: Some(asking_note()), ..login }),
                commands: StateView::asking_rooms(world),
            }
        } else {
            quiet(self.with_login(StateView::own_key(login, key, world.now)))
        }
    }

    /// A key for the first screen: with a room on the screen only a shortcut that closes
    /// the program does anything.
    pub open spec fn login_key(self, key: KeyEvent, world: WorldView) -> Step {
        match self.screen {
            ScreenView::Login(login) => self.home_key(login, key, world),
            ScreenView::Chat => if StateView::closing(key) {
                self.quitting()
            } else {
                quiet(self)
            },
        }
    }

    /// The address in play: a hopeless connection and a room are about the server that
    /// is known, the first screen is about what was typed there.
    pub open spec fn address_in_play(self, action: ActionView, usual: Seq<char>) -> Seq<char> {
        match (self.screen, action) {
            (_, ActionView::Net(NetEventView::Fatal { .. })) => address_of(
                self.server,
                self.server,
                usual,
            ),
            (ScreenView::Login(login), _) => address_of(login.server.text, self.server, usual),
            (ScreenView::Chat, _) => address_of(self.server, self.server, usual),
        }
    }

    /// A client that knows nothing yet.
    pub open spec fn blank(room: Seq<char>, now: u64) -> StateView {
        StateView {
            screen: ScreenView::Login(
                LoginView { room: InputView::of(room), ..LoginView::fresh(now) },
            ),
            nickname: Seq::empty(),
            room,
            server: Seq::empty(),
            media_base: Seq::empty(),
            colors: Seq::empty(),
            last_dir: None,
            thumbnails: Map::empty(),
            busy: None,
            playing: false,
            waveforms: Map::empty(),
            playing_voice: None,
            inline_images: false,
            images_choice: None,
            images_auto: false,
            theme: Theme::Charple,
            sidebar: false,
            terminal_mode: Mode::Auto,
            audio: plain_audio(),
            upload_limit: MAX_UPLOAD_BYTES,
            typing: Seq::empty(),
            typing_sent: None,
            status: StatusView::Connecting { attempt: 0 },
            me: None,
            users: Seq::empty(),
            entries: Seq::empty(),
            seen: Set::empty(),
            input: InputView::of(Seq::empty()),
            search: None,
            picking: None,
            replying: None,
            entry_lines: Seq::empty(),
            completion: None,
            sent: Seq::empty(),
            sent_cursor: None,
            draft: Seq::empty(),
            scrollback: 0,
            viewport: Viewport { height: 0, total_lines: 0, top: 0 },
            tick: 0,
            viewer: None,
            browser: None,
            help: false,
            help_scroll: 0,
            should_quit: false,
        }
    }

    /// How a client begins. A name given at the start means: enter at once.
    pub open spec fn beginning(nickname: Option<Seq<char>>, room: Seq<char>, now: u64) -> Step {
        let blank = StateView::blank(room, now);
        match nickname {
            Some(nickname) => with(
                StateView { nickname, screen: ScreenView::Chat, ..blank },
                CommandView::Connect { nickname, room, server: Seq::empty() },
            ),
            None => quiet(blank),
        }
    }
}

impl State {
    /// Begins. The screen for entering is passed over only where a name was given at
    /// the start; a remembered name does not mean that.
    pub fn new(nickname: Option<String>, room: String, now: u64) -> (r: (State, Vec<Command>))
        ensures
            step_of(r.0, r.1) == StateView::beginning(nickname.deep_view(), room@, now),
            r.0.deep_view().wf(),
    {
        let mut login = Login::new(now);
        login.room = Input::new(room.as_str());
        let mut state = State {
            screen: Screen::Login(login),
            nickname: String::new(),
            room: room.clone(),
            server: String::new(),
            media_base: String::new(),
            colors: Vec::new(),
            last_dir: None,
            thumbnails: HashMap::new(),
            busy: None,
            playing: false,
            waveforms: HashMap::new(),
            playing_voice: None,
            inline_images: false,
            images_choice: None,
            images_auto: false,
            theme: Theme::Charple,
            sidebar: false,
            terminal_mode: Mode::Auto,
            audio: Audio::default(),
            upload_limit: MAX_UPLOAD_BYTES,
            typing: Vec::new(),
            typing_sent: None,
            status: Status::Connecting { attempt: 0 },
            me: None,
            users: Vec::new(),
            entries: Vec::new(),
            seen: HashSet::new(),
            input: Input::default(),
            search: None,
            picking: None,
            replying: None,
            entry_lines: Vec::new(),
            completion: None,
            sent: Vec::new(),
            sent_cursor: None,
            draft: String::new(),
            scrollback: 0,
            viewport: Viewport { height: 0, total_lines: 0, top: 0 },
            tick: 0,
            viewer: None,
            browser: None,
            help: false,
            help_scroll: 0,
            should_quit: false,
        };
        proof {
            let view = state.deep_view();
            let blank = StateView::blank(room@, now);
            assert(view.nickname =~= blank.nickname);
            assert(view.server =~= blank.server);
            assert(view.media_base =~= blank.media_base);
            assert(view.draft =~= blank.draft);
            assert(view.colors =~= Seq::<PaintedView>::empty());
            assert(view.thumbnails =~= Map::<u128, ThumbnailView>::empty());
            assert(view.waveforms =~= Map::<u128, WaveformView>::empty());
            assert(view.typing =~= Seq::<TypistView>::empty());
            assert(view.users =~= Seq::<UserInfoView>::empty());
            assert(view.entries =~= Seq::<EntryView>::empty());
            assert(view.entry_lines =~= Seq::<usize>::empty());
            assert(view.sent =~= Seq::<Seq<char>>::empty());
            assert(view.seen =~= Set::<u128>::empty());
            assert(view == blank);
        }
        match nickname {
            Some(nickname) => {
                state.nickname = nickname.clone();
                state.screen = Screen::Chat;
                let server = String::new();
                assert(server@ =~= Seq::<char>::empty());
                (state, only(Command::Connect { nickname, room, server }))
            },
            None => (state, nothing()),
        }
    }

    /// Puts a remembered name into its field. It is put there, no more: a name in the
    /// settings saves typing and is no consent to enter.
    pub fn prefill_nickname(&mut self, nickname: &str)
        requires
            old(self).deep_view().wf(),
        ensures
            final(self).deep_view() == old(self).deep_view().prefilled(Some(nickname@)),
            final(self).deep_view().wf(),
    {
        match &mut self.screen {
            Screen::Login(login) => {
                login.nickname = Input::new(nickname);
                self.nickname = nickname.to_owned();
            },
            Screen::Chat => {},
        }
    }

    /// Sets the address of the server, here and in its field.
    pub fn set_server(&mut self, url: String)
        requires
            old(self).deep_view().wf(),
        ensures
            final(self).deep_view() == (StateView {
                server: url@,
                screen: match old(self).deep_view().screen {
                    ScreenView::Login(login) => ScreenView::Login(
                        LoginView { server: InputView::of(url@), ..login },
                    ),
                    ScreenView::Chat => ScreenView::Chat,
                },
                ..old(self).deep_view()
            }),
            final(self).deep_view().wf(),
    {
        match &mut self.screen {
            Screen::Login(login) => {
                login.server = Input::new(url.as_str());
            },
            Screen::Chat => {},
        }
        self.server = url;
    }

    /// Finds out anew whether pictures are shown in the feed.
    pub fn apply_images(&mut self)
        ensures
            final(self).deep_view() == old(self).deep_view().images_applied(),
    {
        self.inline_images = match self.images_choice {
            Some(choice) => choice,
            None => self.images_auto,
        };
    }

    /// The value of a setting, in words.
    pub fn setting_value(&self, setting: Setting) -> (r: &'static str)
        ensures
            r@ == self.deep_view().setting_words(setting),
    {
        match setting {
            Setting::Theme => self.theme.title(),
            Setting::Images => match self.images_choice {
                None => "авто",
                Some(true) => "показывать",
                Some(false) => "не надо",
            },
            Setting::Sidebar => if self.sidebar {
                "показывать"
            } else {
                "спрятана"
            },
            Setting::Terminal => match self.terminal_mode {
                Mode::Auto => "авто",
                Mode::Always => "всегда",
                Mode::Never => "никогда",
            },
        }
    }

    /// The value of a setting of the sound, in words.
    pub fn sound_value(&self, setting: SoundSetting) -> (r: String)
        ensures
            r@ == self.deep_view().sound_words(setting),
    {
        match setting {
            SoundSetting::Output => match &self.audio.output {
                Some(name) => name.clone(),
                None => "как в системе".to_owned(),
            },
            SoundSetting::Input => match &self.audio.input {
                Some(name) => name.clone(),
                None => "как в системе".to_owned(),
            },
            SoundSetting::Chime => if self.audio.chime {
                "включён".to_owned()
            } else {
                "выключен".to_owned()
            },
            SoundSetting::Volume => if self.audio.volume == 0 {
                "тихо".to_owned()
            } else if self.audio.volume == 2 {
                "громко".to_owned()
            } else {
                "средне".to_owned()
            },
        }
    }

    /// Turns a setting to its next value, or to the one before.
    pub fn shift_setting(&mut self, setting: Setting, back: bool)
        ensures
            final(self).deep_view() == old(self).deep_view().setting_shifted(setting, back),
    {
        match setting {
            Setting::Theme => {
                self.theme = self.theme.shift(back);
            },
            Setting::Images => {
                self.images_choice = match (self.images_choice, back) {
                    (None, false) => Some(true),
                    (Some(true), false) => Some(false),
                    (Some(false), false) => None,
                    (None, true) => Some(false),
                    (Some(false), true) => Some(true),
                    (Some(true), true) => None,
                };
                self.apply_images();
            },
            Setting::Sidebar => {
                self.sidebar = !self.sidebar;
            },
            Setting::Terminal => {
                self.terminal_mode = match (self.terminal_mode, back) {
                    (Mode::Auto, false) => Mode::Always,
                    (Mode::Always, false) => Mode::Never,
                    (Mode::Never, false) => Mode::Auto,
                    (Mode::Auto, true) => Mode::Never,
                    (Mode::Never, true) => Mode::Always,
                    (Mode::Always, true) => Mode::Auto,
                };
            },
        }
    }

    /// Turns a setting of the sound to its next value, or to the one before.
    pub fn shift_sound(&mut self, setting: SoundSetting, back: bool)
        ensures
            final(self).deep_view() == old(self).deep_view().sound_shifted(setting, back),
    {
        match setting {
            SoundSetting::Output => {
                self.audio.output = cycle_device(&self.audio.outputs, &self.audio.output, back);
            },
            SoundSetting::Input => {
                self.audio.input = cycle_device(&self.audio.inputs, &self.audio.input, back);
            },
            SoundSetting::Chime => {
                self.audio.chime = !self.audio.chime;
            },
            SoundSetting::Volume => {
                let at: usize = if self.audio.volume < VOLUME_STEPS {
                    self.audio.volume
                } else {
                    VOLUME_STEPS - 1
                };
                self.audio.volume = if back {
                    if at == 0 {
                        VOLUME_STEPS - 1
                    } else {
                        at - 1
                    }
                } else if at == VOLUME_STEPS - 1 {
                    0
                } else {
                    at + 1
                };
            },
        }
    }

    /// Gives a wrong field the focus and shows the reason.
    fn refuse_field(&mut self, field: Field, words: String) -> (commands: Vec<Command>)
        requires
            old(self).deep_view().wf(),
            old(self).screen is Login,
        ensures
            old(self).deep_view().screen matches ScreenView::Login(login) && step_of(
                *final(self),
                commands,
            ) == old(self).deep_view().field_refused(login, field, words@),
            final(self).deep_view().wf(),
    {
        match &mut self.screen {
            Screen::Login(login) => {
                login.field = field;
                login.error = Some(words);
            },
            Screen::Chat => {},
        }
        nothing()
    }

    /// Turns to a room. In the same one the talk goes on where it stopped.
    fn arrive(&mut self, nickname: String, room: String, server: String)
        requires
            old(self).deep_view().wf(),
        ensures
            final(self).deep_view() == old(self).deep_view().arriving(nickname@, room@, server@),
            final(self).deep_view().wf(),
    {
        let again = same(room.as_str(), self.room.as_str()) && same(
            server.as_str(),
            self.server.as_str(),
        );
        self.nickname = nickname;
        self.room = room;
        self.server = server;
        self.screen = Screen::Chat;
        if again {
            self.users.clear();
            assert(self.users.deep_view() =~= Seq::empty());
        } else {
            self.forget_room();
        }
    }

    /// Enters a room from the first screen. The rules are those of the server: what is
    /// wrong is seen at once.
    pub fn login_submit(&mut self, world: &World) -> (commands: Vec<Command>)
        requires
            old(self).deep_view().wf(),
        ensures
            step_of(*final(self), commands) == match old(self).deep_view().screen {
                ScreenView::Login(login) => old(self).deep_view().entering(
                    login,
                    world.deep_view(),
                ),
                ScreenView::Chat => quiet(old(self).deep_view()),
            },
            final(self).deep_view().wf(),
    {
        proof {
            reveal(StateView::entering);
        }
        let (typed, raw) = match &self.screen {
            Screen::Login(login) => {
                let raw = match login.chosen_room() {
                    Some(room) => room,
                    None => login.room.text.clone(),
                };
                (login.nickname.text.clone(), raw)
            },
            Screen::Chat => {
                return nothing();
            },
        };
        let nickname = match clean_nickname(typed.as_str()) {
            Ok(nickname) => nickname,
            Err(err) => {
                return self.refuse_field(Field::Nickname, err.sentence());
            },
        };
        let room = match clean_room(raw.as_str()) {
            Ok(room) => room,
            Err(err) => {
                match &mut self.screen {
                    Screen::Login(login) => {
                        login.rooms_selected = None;
                    },
                    Screen::Chat => {},
                }
                return self.refuse_field(Field::Room, err.sentence());
            },
        };
        let server = match &world.endpoint {
            Ok(endpoint) => endpoint.socket.clone(),
            Err(reason) => {
                return self.refuse_field(Field::Server, reason.clone());
            },
        };
        self.arrive(nickname.clone(), room.clone(), server.clone());
        only(Command::Connect { nickname, room, server })
    }

    /// Starts a server right here. The name and the room are held to the same rules as
    /// when one enters.
    fn host_submit(&mut self) -> (commands: Vec<Command>)
        requires
            old(self).deep_view().wf(),
            old(self).screen is Login,
        ensures
            old(self).deep_view().screen matches ScreenView::Login(login) && step_of(
                *final(self),
                commands,
            ) == old(self).deep_view().starting(login),
            final(self).deep_view().wf(),
    {
        proof {
            reveal(StateView::starting);
        }
        let (typed, raw, port_text) = match &self.screen {
            Screen::Login(login) => (
                login.nickname.text.clone(),
                login.room.text.clone(),
                trim(login.port.text.as_str()),
            ),
            Screen::Chat => {
                return nothing();
            },
        };
        let nickname = match clean_nickname(typed.as_str()) {
            Ok(nickname) => nickname,
            Err(err) => {
                return self.refuse_field(Field::Nickname, err.sentence());
            },
        };
        let room = match clean_room(raw.as_str()) {
            Ok(room) => room,
            Err(err) => {
                return self.refuse_field(Field::Room, err.sentence());
            },
        };
        let port: u16 = match parse_port(port_text.as_str()) {
            Some(port) => port,
            None => {
                return self.refuse_field(Field::Port, "порт — число от 1 до 65535".to_owned());
            },
        };
        self.nickname = nickname;
        self.room = room;
        self.forget_room();
        match &mut self.screen {
            Screen::Login(login) => {
                login.error = None;
                login.busy = Some(
                    glue("поднимаю сервер на порту ", number(port as u64).as_str()),
                );
            },
            Screen::Chat => {},
        }
        only(Command::Host(port))
    }

    /// Shifts the chosen setting.
    fn on_look_key(&mut self, setting: Setting, back: bool) -> (commands: Vec<Command>)
        requires
            old(self).deep_view().wf(),
        ensures
            step_of(*final(self), commands) == with(
                old(self).deep_view().setting_shifted(setting, back),
                CommandView::SaveConfig,
            ),
            final(self).deep_view().wf(),
    {
        self.shift_setting(setting, back);
        only(Command::SaveConfig)
    }

    /// Shifts the chosen setting of the sound. To hear where the sound has gone is the
    /// only way to test the choice.
    fn on_sound_key(&mut self, setting: SoundSetting, back: bool) -> (commands: Vec<Command>)
        requires
            old(self).deep_view().wf(),
        ensures
            step_of(*final(self), commands) == (Step {
                state: old(self).deep_view().sound_shifted(setting, back),
                commands: seq![CommandView::Audio, CommandView::SaveConfig],
            }),
            final(self).deep_view().wf(),
    {
        self.shift_sound(setting, back);
        both(Command::Audio, Command::SaveConfig)
    }

    /// Enter on the first screen.
    fn home_submit(&mut self, world: &World) -> (commands: Vec<Command>)
        requires
            old(self).deep_view().wf(),
            old(self).screen is Login,
        ensures
            old(self).deep_view().screen matches ScreenView::Login(login) && step_of(
                *final(self),
                commands,
            ) == old(self).deep_view().home_entered(login, world.deep_view()),
            final(self).deep_view().wf(),
    {
        proof {
            reveal(StateView::home_entered);
            reveal(StateView::look_key);
            reveal(StateView::sound_key);
        }
        let (busy, tab, setting, sound) = match &self.screen {
            Screen::Login(login) => (
                login.busy.is_some(),
                login.tab,
                login.current_setting(),
                login.current_sound(),
            ),
            Screen::Chat => {
                return nothing();
            },
        };
        if busy {
            return nothing();
        }
        match tab {
            HomeTab::Join => self.login_submit(world),
            HomeTab::Host => self.host_submit(),
            HomeTab::Look => self.on_look_key(setting, false),
            HomeTab::Sound => self.on_sound_key(sound, false),
            HomeTab::Help => nothing(),
        }
    }
}

impl Login {
    /// Back to the first tab.
    fn leave_tab(&mut self, now: u64)
        requires
            old(self).deep_view().wf(),
        ensures
            final(self).deep_view() == StateView::tab_left(old(self).deep_view(), now),
            final(self).deep_view().wf(),
    {
        if self.tab != HomeTab::Join {
            self.tab = HomeTab::Join;
            self.switched = now;
            self.field = Field::Nickname;
            self.error = None;
        }
    }

    /// A key that edits a field.
    fn on_field_key(&mut self, key: KeyEvent)
        requires
            old(self).deep_view().wf(),
        ensures
            final(self).deep_view() == StateView::field_key(old(self).deep_view(), key),
            final(self).deep_view().wf(),
    {
        proof {
            reveal(StateView::field_key);
        }
        if self.tab.fields().len() == 0 {
            return;
        }
        self.rooms_selected = None;
        let limit: usize = self.limit();
        let letter = match key.code {
            KeyCode::Char(ch) => !('0' <= ch && ch <= '9'),
            _ => false,
        };
        if self.field == Field::Port && !key.ctrl && letter {
            return;
        }
        let active = self.active();
        edit_key(active, key, limit);
    }

    /// A key that changes nothing but the first screen.
    fn on_own_key(&mut self, key: KeyEvent, now: u64)
        requires
            old(self).deep_view().wf(),
        ensures
            final(self).deep_view().wf(),
            final(self).deep_view() == StateView::own_key(old(self).deep_view(), key, now),
    {
        proof {
            reveal(StateView::own_key);
        }
        match key.code {
            KeyCode::Esc => self.leave_tab(now),
            KeyCode::Tab => self.switch_tab(false, now),
            KeyCode::BackTab => self.switch_tab(true, now),
            KeyCode::Down => self.select_down(),
            KeyCode::Up => self.select_up(),
            _ => self.on_field_key(key),
        }
    }
}

impl State {
    /// Asks the server for its rooms.
    fn refresh_rooms(&mut self, world: &World) -> (commands: Vec<Command>)
        requires
            old(self).deep_view().wf(),
            old(self).screen is Login,
        ensures
            old(self).deep_view().screen matches ScreenView::Login(login) && step_of(
                *final(self),
                commands,
            ) == (Step {
                state: old(self).deep_view().with_login(
                    LoginView { rooms_note: Some(asking_note()), ..login },
                ),
                commands: StateView::asking_rooms(world.deep_view()),
            }),
            final(self).deep_view().wf(),
    {
        match &mut self.screen {
            Screen::Login(login) => {
                login.rooms_note = Some("спрашиваю сервер о комнатах…".to_owned());
            },
            Screen::Chat => {},
        }
        State::rooms_fetch(world)
    }

    /// A key that changes nothing but the first screen.
    fn turn_screen(&mut self, key: KeyEvent, now: u64)
        requires
            old(self).deep_view().wf(),
            old(self).screen is Login,
        ensures
            old(self).deep_view().screen matches ScreenView::Login(login) && (final(self).deep_view()
                == old(self).deep_view().with_login(StateView::own_key(login, key, now))),
            final(self).deep_view().wf(),
    {
        match &mut self.screen {
            Screen::Login(login) => login.on_own_key(key, now),
            Screen::Chat => {},
        }
    }

    /// A key on the first screen. Only a shortcut closes the program: Esc has become
    /// the key for going back, and a slip must not cost a talk.
    pub fn on_login_key(&mut self, key: KeyEvent, world: &World) -> (commands: Vec<Command>)
        requires
            old(self).deep_view().wf(),
        ensures
            step_of(*final(self), commands) == old(self).deep_view().login_key(
                key,
                world.deep_view(),
            ),
            final(self).deep_view().wf(),
    {
        proof {
            reveal(StateView::home_key);
            reveal(StateView::look_key);
            reveal(StateView::sound_key);
        }
        if key.ctrl && (key.code == KeyCode::Char('c') || key.code == KeyCode::Char('d') || key.code
            == KeyCode::Char('q')) {
            return self.quit();
        }
        let (tab, setting, sound) = match &self.screen {
            Screen::Login(login) => (login.tab, login.current_setting(), login.current_sound()),
            Screen::Chat => {
                return nothing();
            },
        };
        if key.code == KeyCode::Enter {
            return self.home_submit(world);
        }
        let back = key.code == KeyCode::Left;
        let sideways = back || key.code == KeyCode::Right;
        if sideways && tab == HomeTab::Look {
            return self.on_look_key(setting, back);
        }
        if sideways && tab == HomeTab::Sound {
            return self.on_sound_key(sound, back);
        }
        if key.ctrl && key.code == KeyCode::Char('r') {
            return self.refresh_rooms(world);
        }
        self.turn_screen(key, world.now);
        nothing()
    }

    /// The address in play, before it is known whether it is one.
    pub fn address_to_check(&self, action: &Action, usual: &str) -> (r: String)
        ensures
            r@ == self.deep_view().address_in_play(action.deep_view(), usual@),
    {
        let fatal = match action {
            Action::Net(NetEvent::Fatal { .. }) => true,
            _ => false,
        };
        let typed = match &self.screen {
            Screen::Login(login) => if fatal {
                trim(self.server.as_str())
            } else {
                trim(login.server.text.as_str())
            },
            Screen::Chat => trim(self.server.as_str()),
        };
        if !typed.as_str().is_empty() {
            typed
        } else if !self.server.as_str().is_empty() {
            self.server.clone()
        } else {
            usual.to_owned()
        }
    }
}

} // verus!
