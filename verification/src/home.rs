//! The first screen: tabs, fields and settings.
use crate::input::{Input, InputView};
use crate::protocol::{RoomSummary, RoomSummaryView};
use crate::seqs::{first_where, lemma_first_where, lemma_first_where_is};
use crate::text::{decimal, number, same};
use crate::validate::{MAX_NICKNAME_CHARS, MAX_ROOM_CHARS, MAX_TEXT_CHARS};
use vstd::prelude::*;
use vstd::string::*;

verus! {

/// The port that is suggested for a server of one's own.
pub const DEFAULT_PORT: u16 = 8080;

/// A field of a form.
#[derive(Debug, Clone, Copy, PartialEq, Eq, Structural)]
pub enum Field {
    Nickname,
    Room,
    /// The address of a server.
    Server,
    /// The port of a server of one's own.
    Port,
}

/// The tabs of the first screen: all ways into the chat at one glance.
#[derive(Debug, Clone, Copy, PartialEq, Eq, Structural)]
pub enum HomeTab {
    Join,
    Host,
    Look,
    Sound,
    Help,
}

/// The fields of the tab on which one enters a room.
pub open spec fn join_fields() -> Seq<Field> {
    seq![Field::Nickname, Field::Room, Field::Server]
}

/// The fields of the tab on which one starts a server.
pub open spec fn host_fields() -> Seq<Field> {
    seq![Field::Nickname, Field::Room, Field::Port]
}

/// Whether a field is the given one.
pub open spec fn is_field(field: Field) -> spec_fn(Field) -> bool {
    |f: Field| f == field
}

impl HomeTab {
    pub const ALL: [HomeTab; 5] = [
        HomeTab::Join,
        HomeTab::Host,
        HomeTab::Look,
        HomeTab::Sound,
        HomeTab::Help,
    ];

    pub open spec fn title_text(self) -> Seq<char> {
        match self {
            HomeTab::Join => "войти"@,
            HomeTab::Host => "поднять"@,
            HomeTab::Look => "вид"@,
            HomeTab::Sound => "звук"@,
            HomeTab::Help => "справка"@,
        }
    }

    pub fn title(self) -> (r: &'static str)
        ensures
            r@ == self.title_text(),
    {
        match self {
            HomeTab::Join => "войти",
            HomeTab::Host => "поднять",
            HomeTab::Look => "вид",
            HomeTab::Sound => "звук",
            HomeTab::Help => "справка",
        }
    }

    pub open spec fn icon_text(self) -> Seq<char> {
        match self {
            HomeTab::Join => "◆"@,
            HomeTab::Host => "✦"@,
            HomeTab::Look => "◐"@,
            HomeTab::Sound => "♪"@,
            HomeTab::Help => "?"@,
        }
    }

    /// The sign of a tab: the eye finds it faster than the word.
    pub fn icon(self) -> (r: &'static str)
        ensures
            r@ == self.icon_text(),
    {
        match self {
            HomeTab::Join => "◆",
            HomeTab::Host => "✦",
            HomeTab::Look => "◐",
            HomeTab::Sound => "♪",
            HomeTab::Help => "?",
        }
    }

    pub open spec fn place(self) -> int {
        match self {
            HomeTab::Join => 0,
            HomeTab::Host => 1,
            HomeTab::Look => 2,
            HomeTab::Sound => 3,
            HomeTab::Help => 4,
        }
    }

    /// Where a tab stands in the row.
    pub fn index(self) -> (r: usize)
        ensures
            r == self.place(),
    {
        match self {
            HomeTab::Join => 0,
            HomeTab::Host => 1,
            HomeTab::Look => 2,
            HomeTab::Sound => 3,
            HomeTab::Help => 4,
        }
    }

    /// The next tab of the row, or the one before; the row is a circle.
    pub open spec fn shifted(self, back: bool) -> HomeTab {
        match (self, back) {
            (HomeTab::Join, false) => HomeTab::Host,
            (HomeTab::Host, false) => HomeTab::Look,
            (HomeTab::Look, false) => HomeTab::Sound,
            (HomeTab::Sound, false) => HomeTab::Help,
            (HomeTab::Help, false) => HomeTab::Join,
            (HomeTab::Join, true) => HomeTab::Help,
            (HomeTab::Host, true) => HomeTab::Join,
            (HomeTab::Look, true) => HomeTab::Host,
            (HomeTab::Sound, true) => HomeTab::Look,
            (HomeTab::Help, true) => HomeTab::Sound,
        }
    }

    /// The next tab of the row, or the one before; the row is a circle.
    pub fn shift(self, back: bool) -> (r: Self)
        ensures
            r == self.shifted(back),
    {
        match (self, back) {
            (HomeTab::Join, false) => HomeTab::Host,
            (HomeTab::Host, false) => HomeTab::Look,
            (HomeTab::Look, false) => HomeTab::Sound,
            (HomeTab::Sound, false) => HomeTab::Help,
            (HomeTab::Help, false) => HomeTab::Join,
            (HomeTab::Join, true) => HomeTab::Help,
            (HomeTab::Host, true) => HomeTab::Join,
            (HomeTab::Look, true) => HomeTab::Host,
            (HomeTab::Sound, true) => HomeTab::Look,
            (HomeTab::Help, true) => HomeTab::Sound,
        }
    }

    pub open spec fn field_list(self) -> Seq<Field> {
        match self {
            HomeTab::Join => join_fields(),
            HomeTab::Host => host_fields(),
            _ => Seq::empty(),
        }
    }

    /// The fields that the arrows walk through on a tab.
    pub fn fields(self) -> (r: Vec<Field>)
        ensures
            r@ == self.field_list(),
    {
        match self {
            HomeTab::Join => {
                let r: Vec<Field> = vec![Field::Nickname, Field::Room, Field::Server];
                assert(r@ =~= join_fields());
                r
            },
            HomeTab::Host => {
                let r: Vec<Field> = vec![Field::Nickname, Field::Room, Field::Port];
                assert(r@ =~= host_fields());
                r
            },
            _ => Vec::new(),
        }
    }
}

/// One step forward and one back, or the other way round, leads to the same tab;
/// five steps in one direction lead round the circle; and a step forward from a
/// tab leads to the next place of the row.
pub proof fn law_tabs_go_round(tab: HomeTab, back: bool)
    ensures
        tab.shifted(back).shifted(!back) == tab,
        tab.shifted(back).shifted(back).shifted(back).shifted(back).shifted(back) == tab,
        tab.shifted(false).place() == (tab.place() + 1) % 5,
{
}

/// A line of the tab for looks.
#[derive(Debug, Clone, Copy, PartialEq, Eq, Structural)]
pub enum Setting {
    Theme,
    Images,
    Sidebar,
    Terminal,
}

impl Setting {
    pub const ALL: [Setting; 4] = [
        Setting::Theme,
        Setting::Images,
        Setting::Sidebar,
        Setting::Terminal,
    ];

    pub open spec fn title_text(self) -> Seq<char> {
        match self {
            Setting::Theme => "тема"@,
            Setting::Images => "картинки в ленте"@,
            Setting::Sidebar => "панель людей"@,
            Setting::Terminal => "свой терминал"@,
        }
    }

    pub fn title(self) -> (r: &'static str)
        ensures
            r@ == self.title_text(),
    {
        match self {
            Setting::Theme => "тема",
            Setting::Images => "картинки в ленте",
            Setting::Sidebar => "панель людей",
            Setting::Terminal => "свой терминал",
        }
    }

    pub open spec fn hint_text(self) -> Seq<char> {
        match self {
            Setting::Theme => "цвет рамок, вкладок и своих сообщений"@,
            Setting::Images => "показывать присланное прямо в переписке"@,
            Setting::Sidebar => "кто в комнате — колонкой справа, ctrl+p"@,
            Setting::Terminal => "открываться заново там, где есть цвет и графика"@,
        }
    }

    /// What a choice comes to.
    pub fn hint(self) -> (r: &'static str)
        ensures
            r@ == self.hint_text(),
    {
        match self {
            Setting::Theme => "цвет рамок, вкладок и своих сообщений",
            Setting::Images => "показывать присланное прямо в переписке",
            Setting::Sidebar => "кто в комнате — колонкой справа, ctrl+p",
            Setting::Terminal => "открываться заново там, где есть цвет и графика",
        }
    }

    pub open spec fn at(place: usize) -> Setting {
        if place == 0 {
            Setting::Theme
        } else if place == 1 {
            Setting::Images
        } else if place == 2 {
            Setting::Sidebar
        } else {
            Setting::Terminal
        }
    }
}

/// A line of the tab for sound.
#[derive(Debug, Clone, Copy, PartialEq, Eq, Structural)]
pub enum SoundSetting {
    Output,
    Input,
    Chime,
    Volume,
}

impl SoundSetting {
    pub const ALL: [SoundSetting; 4] = [
        SoundSetting::Output,
        SoundSetting::Input,
        SoundSetting::Chime,
        SoundSetting::Volume,
    ];

    pub open spec fn title_text(self) -> Seq<char> {
        match self {
            SoundSetting::Output => "динамики"@,
            SoundSetting::Input => "микрофон"@,
            SoundSetting::Chime => "звоночек"@,
            SoundSetting::Volume => "громкость"@,
        }
    }

    pub fn title(self) -> (r: &'static str)
        ensures
            r@ == self.title_text(),
    {
        match self {
            SoundSetting::Output => "динамики",
            SoundSetting::Input => "микрофон",
            SoundSetting::Chime => "звоночек",
            SoundSetting::Volume => "громкость",
        }
    }

    pub open spec fn hint_text(self) -> Seq<char> {
        match self {
            SoundSetting::Output => "куда играют голосовые и звоночек"@,
            SoundSetting::Input => "с чего пишется голосовое по F2"@,
            SoundSetting::Chime => "сигнал, когда в комнате назвали ваш ник"@,
            SoundSetting::Volume => "громкость сигнала, голосовых не касается"@,
        }
    }

    /// What a choice comes to.
    pub fn hint(self) -> (r: &'static str)
        ensures
            r@ == self.hint_text(),
    {
        match self {
            SoundSetting::Output => "куда играют голосовые и звоночек",
            SoundSetting::Input => "с чего пишется голосовое по F2",
            SoundSetting::Chime => "сигнал, когда в комнате назвали ваш ник",
            SoundSetting::Volume => "громкость сигнала, голосовых не касается",
        }
    }

    pub open spec fn at(place: usize) -> SoundSetting {
        if place == 0 {
            SoundSetting::Output
        } else if place == 1 {
            SoundSetting::Input
        } else if place == 2 {
            SoundSetting::Chime
        } else {
            SoundSetting::Volume
        }
    }
}

/// How many steps of loudness there are.
pub const VOLUME_STEPS: usize = 3;

/// Sound: what was found in the system, and what of it is chosen.
#[derive(Debug)]
pub struct Audio {
    /// The devices that were found at the start.
    pub outputs: Vec<String>,
    pub inputs: Vec<String>,
    /// What is chosen. Nothing means whatever the system uses: this choice
    /// survives a change of headphones.
    pub output: Option<String>,
    pub input: Option<String>,
    /// Whether a mention rings.
    pub chime: bool,
    /// The step of loudness.
    pub volume: usize,
}

#[verifier::ext_equal]
pub struct AudioView {
    pub outputs: Seq<Seq<char>>,
    pub inputs: Seq<Seq<char>>,
    pub output: Option<Seq<char>>,
    pub input: Option<Seq<char>>,
    pub chime: bool,
    pub volume: usize,
}

impl DeepView for Audio {
    type V = AudioView;

    open spec fn deep_view(&self) -> AudioView {
        AudioView {
            outputs: self.outputs.deep_view(),
            inputs: self.inputs.deep_view(),
            output: self.output.deep_view(),
            input: self.input.deep_view(),
            chime: self.chime,
            volume: self.volume,
        }
    }
}

/// Sound as it is before anything was found or chosen.
pub open spec fn plain_audio() -> AudioView {
    AudioView {
        outputs: Seq::empty(),
        inputs: Seq::empty(),
        output: None,
        input: None,
        chime: true,
        volume: 1,
    }
}

impl Default for Audio {
    fn default() -> (r: Self)
        ensures
            r.deep_view() == plain_audio(),
    {
        let outputs: Vec<String> = Vec::new();
        let inputs: Vec<String> = Vec::new();
        assert(outputs.deep_view() =~= Seq::empty());
        assert(inputs.deep_view() =~= Seq::empty());
        Audio { outputs, inputs, output: None, input: None, chime: true, volume: 1 }
    }
}

/// Whether a device has the given name.
pub open spec fn is_device(name: Seq<char>) -> spec_fn(Seq<char>) -> bool {
    |found: Seq<char>| found == name
}

/// The place of a choice in the circle: nothing chosen stands first.
pub open spec fn device_place(list: Seq<Seq<char>>, current: Option<Seq<char>>) -> int {
    match current {
        None => 0,
        Some(name) => {
            let at = first_where(list, is_device(name));
            if at < list.len() {
                at + 1
            } else {
                0
            }
        },
    }
}

/// The choice at a place of the circle.
pub open spec fn device_at(list: Seq<Seq<char>>, place: int) -> Option<Seq<char>> {
    if place == 0 {
        None
    } else {
        Some(list[place - 1])
    }
}

/// The next choice of the circle, or the one before.
pub open spec fn next_device(
    list: Seq<Seq<char>>,
    current: Option<Seq<char>>,
    back: bool,
) -> Option<Seq<char>> {
    if list.len() == 0 {
        None
    } else {
        let at = device_place(list, current);
        let last = list.len() as int;
        device_at(
            list,
            if back {
                if at == 0 {
                    last
                } else {
                    at - 1
                }
            } else {
                if at == last {
                    0
                } else {
                    at + 1
                }
            },
        )
    }
}

/// Where a name stands in a list; its length where it does not.
#[verifier::loop_isolation(false)]
fn find_name(list: &Vec<String>, name: &str) -> (at: usize)
    ensures
        at == first_where(list.deep_view(), is_device(name@)),
        at <= list@.len(),
{
    let ghost all = list.deep_view();
    let mut i: usize = 0;
    while i < list.len() && !same(list[i].as_str(), name)
        invariant
            i <= list@.len(),
            forall|j: int| 0 <= j < i ==> !is_device(name@)(#[trigger] all[j]),
        decreases list@.len() - i,
    {
        i = i + 1;
    }
    proof {
        lemma_first_where_is(all, is_device(name@), i as int);
    }
    i
}

/// Leafs through the devices in a circle that begins with the system's own.
pub fn cycle_device(list: &Vec<String>, current: &Option<String>, back: bool) -> (r: Option<
    String,
>)
    ensures
        r.deep_view() == next_device(list.deep_view(), current.deep_view(), back),
{
    if list.len() == 0 {
        return None;
    }
    // The place of the choice is at or, where the choice stands in the list, one
    // behind at.
    let found: Option<usize> = match current {
        None => None,
        Some(name) => {
            let at = find_name(list, name.as_str());
            if at < list.len() {
                Some(at)
            } else {
                None
            }
        },
    };
    match found {
        None => {
            if back {
                Some(list[list.len() - 1].clone())
            } else {
                Some(list[0].clone())
            }
        },
        Some(at) => {
            if back {
                if at == 0 {
                    None
                } else {
                    Some(list[at - 1].clone())
                }
            } else {
                if at + 1 < list.len() {
                    Some(list[at + 1].clone())
                } else {
                    None
                }
            }
        },
    }
}

/// Keeps a remembered device only as long as it is there: to show the name of
/// something that is gone would be a lie.
pub open spec fn kept_device(list: Seq<Seq<char>>, name: Seq<char>) -> Option<Seq<char>> {
    let name = crate::text::trimmed(name);
    if name.len() > 0 && first_where(list, is_device(name)) < list.len() {
        Some(name)
    } else {
        None
    }
}

/// Keeps a remembered device only as long as it is there.
pub fn keep_device(list: &Vec<String>, name: &str) -> (r: Option<String>)
    ensures
        r.deep_view() == kept_device(list.deep_view(), name@),
{
    let name = crate::text::trim(name);
    if !name.as_str().is_empty() && find_name(list, name.as_str()) < list.len() {
        Some(name)
    } else {
        None
    }
}

/// Puts the state of sound together: what was found, and what of it was chosen
/// before.
pub fn audio_from(
    outputs: Vec<String>,
    inputs: Vec<String>,
    output: &str,
    input: &str,
    chime: bool,
    volume: u8,
) -> (r: Audio)
    ensures
        r.deep_view() == (AudioView {
            outputs: outputs.deep_view(),
            inputs: inputs.deep_view(),
            output: kept_device(outputs.deep_view(), output@),
            input: kept_device(inputs.deep_view(), input@),
            chime,
            volume: if (volume as usize) < VOLUME_STEPS {
                volume as usize
            } else {
                (VOLUME_STEPS - 1) as usize
            },
        }),
{
    let output = keep_device(&outputs, output);
    let input = keep_device(&inputs, input);
    let volume: usize = if (volume as usize) < VOLUME_STEPS {
        volume as usize
    } else {
        VOLUME_STEPS - 1
    };
    Audio { outputs, inputs, output, input, chime, volume }
}

/// Leafing forward and then back leads to the same choice, and so does the other
/// way round, as long as the choice is one of those that there are and no two
/// devices share a name.
pub proof fn law_devices_go_round(list: Seq<Seq<char>>, current: Option<Seq<char>>, back: bool)
    requires
        list.no_duplicates(),
        current matches Some(name) ==> list.contains(name),
        list.len() > 0,
    ensures
        next_device(list, next_device(list, current, back), !back) == current,
{
    let at = device_place(list, current);
    if let Some(name) = current {
        lemma_first_where(list, is_device(name));
        let k = list.index_of(name);
        assert(list[k] == name);
        if first_where(list, is_device(name)) >= list.len() {
            assert(!is_device(name)(list[k]));
        }
        assert(is_device(name)(list[at - 1]));
    }
    let next = next_device(list, current, back);
    if let Some(name) = next {
        let place = if back {
            if at == 0 {
                list.len() as int
            } else {
                at - 1
            }
        } else {
            at + 1
        };
        assert(list[place - 1] == name);
        assert forall|i: int| 0 <= i < place - 1 implies !is_device(name)(#[trigger] list[i]) by {
            assert(list[i] != list[place - 1]);
        }
        lemma_first_where_is(list, is_device(name), place - 1);
    }
}

/// The first screen. A client also comes back to it where a name is taken: one
/// field is changed and the next attempt made.
#[derive(Debug)]
pub struct Login {
    pub tab: HomeTab,
    pub nickname: Input,
    pub room: Input,
    pub server: Input,
    pub port: Input,
    pub field: Field,
    pub error: Option<String>,
    /// The rooms that are alive on the server.
    pub rooms: Vec<RoomSummary>,
    /// The chosen line of the list. Nothing means that the fields have the focus.
    pub rooms_selected: Option<usize>,
    /// What is shown above the list, or why it is empty.
    pub rooms_note: Option<String>,
    /// The chosen line of the settings.
    pub setting: usize,
    /// What the screen is busy with. Until it is done, Enter does nothing:
    /// otherwise an impatient press would start a second server.
    pub busy: Option<String>,
    /// When the screen was opened.
    pub opened: u64,
    /// When the tab was last switched.
    pub switched: u64,
}

#[verifier::ext_equal]
pub struct LoginView {
    pub tab: HomeTab,
    pub nickname: InputView,
    pub room: InputView,
    pub server: InputView,
    pub port: InputView,
    pub field: Field,
    pub error: Option<Seq<char>>,
    pub rooms: Seq<RoomSummaryView>,
    pub rooms_selected: Option<usize>,
    pub rooms_note: Option<Seq<char>>,
    pub setting: usize,
    pub busy: Option<Seq<char>>,
    pub opened: u64,
    pub switched: u64,
}

impl DeepView for Login {
    type V = LoginView;

    open spec fn deep_view(&self) -> LoginView {
        LoginView {
            tab: self.tab,
            nickname: self.nickname.deep_view(),
            room: self.room.deep_view(),
            server: self.server.deep_view(),
            port: self.port.deep_view(),
            field: self.field,
            error: self.error.deep_view(),
            rooms: self.rooms.deep_view(),
            rooms_selected: self.rooms_selected,
            rooms_note: self.rooms_note.deep_view(),
            setting: self.setting,
            busy: self.busy.deep_view(),
            opened: self.opened,
            switched: self.switched,
        }
    }
}

impl LoginView {
    /// The cursors stand in their fields and the chosen room is in the list.
    pub open spec fn wf(self) -> bool {
        &&& self.nickname.wf()
        &&& self.room.wf()
        &&& self.server.wf()
        &&& self.port.wf()
        &&& self.rooms_selected matches Some(i) ==> i < self.rooms.len()
    }

    /// The screen as it is first shown.
    pub open spec fn fresh(now: u64) -> LoginView {
        LoginView {
            tab: HomeTab::Join,
            nickname: InputView::of(Seq::empty()),
            room: InputView::of(Seq::empty()),
            server: InputView::of(Seq::empty()),
            port: InputView::of(decimal(DEFAULT_PORT as nat)),
            field: Field::Nickname,
            error: None,
            rooms: Seq::empty(),
            rooms_selected: None,
            rooms_note: None,
            setting: 0,
            busy: None,
            opened: now,
            switched: now,
        }
    }

    /// The field that has the focus.
    pub open spec fn active(self) -> InputView {
        match self.field {
            Field::Nickname => self.nickname,
            Field::Room => self.room,
            Field::Server => self.server,
            Field::Port => self.port,
        }
    }

    /// The screen with another text in the field that has the focus.
    pub open spec fn with_active(self, input: InputView) -> LoginView {
        match self.field {
            Field::Nickname => LoginView { nickname: input, ..self },
            Field::Room => LoginView { room: input, ..self },
            Field::Server => LoginView { server: input, ..self },
            Field::Port => LoginView { port: input, ..self },
        }
    }

    /// How much the field with the focus may hold.
    pub open spec fn limit(self) -> usize {
        match self.field {
            Field::Nickname => MAX_NICKNAME_CHARS,
            Field::Room => MAX_ROOM_CHARS,
            Field::Server => MAX_TEXT_CHARS,
            Field::Port => 5,
        }
    }

    /// The screen after its tab was switched. A field that the new tab does not
    /// have loses the focus to the first one that it has.
    pub open spec fn tab_switched(self, back: bool, now: u64) -> LoginView {
        let tab = self.tab.shifted(back);
        LoginView {
            tab,
            switched: now,
            error: None,
            rooms_selected: None,
            setting: 0,
            field: if tab.field_list().len() > 0 && !tab.field_list().contains(self.field) {
                tab.field_list()[0]
            } else {
                self.field
            },
            ..self
        }
    }

    /// The next field of the tab, or the one before.
    pub open spec fn next_field(self, back: bool) -> Field {
        let fields = self.tab.field_list();
        if fields.len() == 0 {
            self.field
        } else {
            let found = first_where(fields, is_field(self.field));
            let at = if found < fields.len() {
                found
            } else {
                0
            };
            if back {
                if at == 0 {
                    fields.last()
                } else {
                    fields[at - 1]
                }
            } else {
                if at + 1 == fields.len() {
                    fields[0]
                } else {
                    fields[at + 1]
                }
            }
        }
    }

    /// One line down: through the fields and on into the list of rooms.
    pub open spec fn down(self) -> LoginView {
        match self.tab {
            HomeTab::Look | HomeTab::Sound => LoginView {
                setting: if self.setting >= 3 {
                    3
                } else {
                    (self.setting + 1) as usize
                },
                ..self
            },
            HomeTab::Join => match self.rooms_selected {
                Some(i) => LoginView {
                    rooms_selected: Some(
                        if i + 1 < self.rooms.len() {
                            (i + 1) as usize
                        } else {
                            (self.rooms.len() - 1) as usize
                        },
                    ),
                    ..self
                },
                None => if self.field == Field::Server && self.rooms.len() > 0 {
                    LoginView { rooms_selected: Some(0), ..self }
                } else {
                    LoginView { field: self.next_field(false), ..self }
                },
            },
            HomeTab::Host => LoginView { field: self.next_field(false), ..self },
            HomeTab::Help => self,
        }
    }

    /// One line up; from the first room of the list back to the fields.
    pub open spec fn up(self) -> LoginView {
        match self.tab {
            HomeTab::Look | HomeTab::Sound => LoginView {
                setting: if self.setting == 0 {
                    0
                } else {
                    (self.setting - 1) as usize
                },
                ..self
            },
            HomeTab::Join => match self.rooms_selected {
                Some(i) => LoginView {
                    rooms_selected: if i == 0 {
                        None
                    } else {
                        Some((i - 1) as usize)
                    },
                    ..self
                },
                None => LoginView { field: self.next_field(true), ..self },
            },
            HomeTab::Host => LoginView { field: self.next_field(true), ..self },
            HomeTab::Help => self,
        }
    }

    /// The room that was pointed at in the list, if any.
    pub open spec fn chosen_room(self) -> Option<Seq<char>> {
        match self.rooms_selected {
            Some(i) => if i < self.rooms.len() {
                Some(self.rooms[i as int].name)
            } else {
                None
            },
            None => None,
        }
    }

    pub open spec fn current_setting(self) -> Setting {
        Setting::at(self.setting)
    }

    pub open spec fn current_sound(self) -> SoundSetting {
        SoundSetting::at(self.setting)
    }
}

impl Login {
    /// The screen as it is first shown.
    pub fn new(now: u64) -> (r: Self)
        ensures
            r.deep_view() == LoginView::fresh(now),
    {
        let rooms: Vec<RoomSummary> = Vec::new();
        assert(rooms.deep_view() =~= Seq::empty());
        Login {
            tab: HomeTab::Join,
            nickname: Input::default(),
            room: Input::default(),
            server: Input::default(),
            port: Input::new(number(DEFAULT_PORT as u64).as_str()),
            field: Field::Nickname,
            error: None,
            rooms,
            rooms_selected: None,
            rooms_note: None,
            setting: 0,
            busy: None,
            opened: now,
            switched: now,
        }
    }

    /// The field that has the focus.
    pub fn active(&mut self) -> (r: &mut Input)
        ensures
            r.deep_view() == old(self).deep_view().active(),
            final(self).deep_view() == old(self).deep_view().with_active(final(r).deep_view()),
    {
        match self.field {
            Field::Nickname => &mut self.nickname,
            Field::Room => &mut self.room,
            Field::Server => &mut self.server,
            Field::Port => &mut self.port,
        }
    }

    /// How much the field with the focus may hold.
    pub fn limit(&self) -> (r: usize)
        ensures
            r == self.deep_view().limit(),
    {
        match self.field {
            Field::Nickname => MAX_NICKNAME_CHARS,
            Field::Room => MAX_ROOM_CHARS,
            Field::Server => MAX_TEXT_CHARS,
            // Five digits are all ports that there are.
            Field::Port => 5,
        }
    }

    /// Switches the tab and mends the focus.
    pub fn switch_tab(&mut self, back: bool, now: u64)
        ensures
            final(self).deep_view() == old(self).deep_view().tab_switched(back, now),
    {
        self.tab = self.tab.shift(back);
        self.switched = now;
        self.error = None;
        self.rooms_selected = None;
        self.setting = 0;
        let fields = self.tab.fields();
        if fields.len() > 0 {
            let there = fields[0] == self.field || fields[1] == self.field || fields[2]
                == self.field;
            proof {
                if there {
                    assert(fields@.contains(self.field)) by {
                        if fields@[0] == self.field {
                        } else if fields@[1] == self.field {
                        } else {
                            assert(fields@[2] == self.field);
                        }
                    }
                }
            }
            if !there {
                self.field = fields[0];
            }
        }
    }

    /// Moves the focus to the next field, or to the one before.
    #[verifier::loop_isolation(false)]
    pub fn next_field(&mut self, back: bool)
        ensures
            final(self).deep_view() == (LoginView {
                field: old(self).deep_view().next_field(back),
                ..old(self).deep_view()
            }),
    {
        let fields = self.tab.fields();
        if fields.len() == 0 {
            return ;
        }
        let ghost test = is_field(self.field);
        let mut at: usize = 0;
        while at < fields.len() && fields[at] != self.field
            invariant
                at <= fields@.len(),
                forall|j: int| 0 <= j < at ==> !test(#[trigger] fields@[j]),
            decreases fields@.len() - at,
        {
            at = at + 1;
        }
        proof {
            lemma_first_where_is(fields@, test, at as int);
        }
        if at == fields.len() {
            at = 0;
        }
        let next: usize = if back {
            if at == 0 {
                fields.len() - 1
            } else {
                at - 1
            }
        } else {
            if at + 1 == fields.len() {
                0
            } else {
                at + 1
            }
        };
        self.field = fields[next];
    }

    /// Down through everything that the tab holds: one path instead of two.
    pub fn select_down(&mut self)
        requires
            old(self).deep_view().wf(),
        ensures
            final(self).deep_view() == old(self).deep_view().down(),
            final(self).deep_view().wf(),
    {
        match self.tab {
            HomeTab::Look | HomeTab::Sound => {
                self.setting = if self.setting >= 3 {
                    3
                } else {
                    self.setting + 1
                };
            },
            HomeTab::Join => {
                match self.rooms_selected {
                    Some(i) => {
                        self.rooms_selected = Some(
                            if i < self.rooms.len() - 1 {
                                i + 1
                            } else {
                                self.rooms.len() - 1
                            },
                        );
                    },
                    None => {
                        if self.field == Field::Server && self.rooms.len() > 0 {
                            self.rooms_selected = Some(0);
                        } else {
                            self.next_field(false);
                        }
                    },
                }
            },
            HomeTab::Host => self.next_field(false),
            HomeTab::Help => {},
        }
    }

    /// Up again.
    pub fn select_up(&mut self)
        requires
            old(self).deep_view().wf(),
        ensures
            final(self).deep_view() == old(self).deep_view().up(),
            final(self).deep_view().wf(),
    {
        match self.tab {
            HomeTab::Look | HomeTab::Sound => {
                if self.setting > 0 {
                    self.setting = self.setting - 1;
                }
            },
            HomeTab::Join => {
                match self.rooms_selected {
                    Some(i) => {
                        self.rooms_selected = if i == 0 {
                            None
                        } else {
                            Some(i - 1)
                        };
                    },
                    None => self.next_field(true),
                }
            },
            HomeTab::Host => self.next_field(true),
            HomeTab::Help => {},
        }
    }

    /// The room that was pointed at in the list. It outweighs the field.
    pub fn chosen_room(&self) -> (r: Option<String>)
        ensures
            r.deep_view() == self.deep_view().chosen_room(),
    {
        match self.rooms_selected {
            Some(i) => if i < self.rooms.len() {
                Some(self.rooms[i].name.clone())
            } else {
                None
            },
            None => None,
        }
    }

    pub fn current_setting(&self) -> (r: Setting)
        ensures
            r == self.deep_view().current_setting(),
    {
        if self.setting == 0 {
            Setting::Theme
        } else if self.setting == 1 {
            Setting::Images
        } else if self.setting == 2 {
            Setting::Sidebar
        } else {
            Setting::Terminal
        }
    }

    pub fn current_sound(&self) -> (r: SoundSetting)
        ensures
            r == self.deep_view().current_sound(),
    {
        if self.setting == 0 {
            SoundSetting::Output
        } else if self.setting == 1 {
            SoundSetting::Input
        } else if self.setting == 2 {
            SoundSetting::Chime
        } else {
            SoundSetting::Volume
        }
    }
}

/// On the tab for joining, a step down and a step up lead back, unless the list of
/// rooms came to its end.
pub proof fn law_down_and_up(login: LoginView)
    requires
        login.wf(),
        login.tab == HomeTab::Join,
        login.field != Field::Port,
        login.rooms_selected matches Some(i) ==> i + 1 < login.rooms.len(),
        login.rooms.len() <= usize::MAX,
    ensures
        login.down().up() == login,
{
    let fields = join_fields();
    let before = login.field;
    let after = login.down().field;
    lemma_first_where_is(
        fields,
        is_field(before),
        match before {
            Field::Nickname => 0,
            Field::Room => 1,
            _ => 2,
        },
    );
    lemma_first_where_is(
        fields,
        is_field(after),
        match after {
            Field::Nickname => 0,
            Field::Room => 1,
            _ => 2,
        },
    );
}

} // verus!
