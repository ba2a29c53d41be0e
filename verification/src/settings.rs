//! What is remembered from one run to the next, and how a run begins.
use crate::address::{base_for, base_of};
use crate::console::{paint, repainted};
use crate::home::{audio_from, is_device, kept_device, AudioView, LoginView, VOLUME_STEPS};
use crate::input::InputView;
use crate::seqs::lemma_first_where;
use crate::state::{
    step_of, Command, CommandView, Mode, Painted, PaintedView, Screen, ScreenView, State, StateView,
    Step,
};
use crate::text::{chars_of, glue3, lower, same, to_lower, trimmed};
use crate::theme::{
    hex_pair, hex_value, is_hex_color, parse_color, parsed_color, Color, ColorView, Theme,
};
use vstd::prelude::*;
use vstd::string::*;

verus! {

/// What is remembered.
#[derive(Debug, PartialEq, Eq)]
pub struct Settings {
    pub nickname: Option<String>,
    pub room: String,
    pub server: String,
    /// The directory in which a file was last chosen.
    pub last_dir: Option<String>,
    pub theme: String,
    /// The devices by their names; an empty name leaves the choice to the system.
    pub sound_output: String,
    pub sound_input: String,
    pub chime: bool,
    pub volume: u8,
    pub sidebar: bool,
    pub inline_images: Option<bool>,
    pub terminal: String,
    /// Names in small letters, and their colours.
    pub colors: Vec<(String, String)>,
}

pub struct SettingsView {
    pub nickname: Option<Seq<char>>,
    pub room: Seq<char>,
    pub server: Seq<char>,
    pub last_dir: Option<Seq<char>>,
    pub theme: Seq<char>,
    pub sound_output: Seq<char>,
    pub sound_input: Seq<char>,
    pub chime: bool,
    pub volume: u8,
    pub sidebar: bool,
    pub inline_images: Option<bool>,
    pub terminal: Seq<char>,
    pub colors: Seq<(Seq<char>, Seq<char>)>,
}

impl DeepView for Settings {
    type V = SettingsView;

    open spec fn deep_view(&self) -> SettingsView {
        SettingsView {
            nickname: self.nickname.deep_view(),
            room: self.room@,
            server: self.server@,
            last_dir: self.last_dir.deep_view(),
            theme: self.theme@,
            sound_output: self.sound_output@,
            sound_input: self.sound_input@,
            chime: self.chime,
            volume: self.volume,
            sidebar: self.sidebar,
            inline_images: self.inline_images,
            terminal: self.terminal@,
            colors: self.colors.deep_view(),
        }
    }
}

/// A hexadecimal digit in small letters.
pub open spec fn hex_digit(n: int) -> char {
    if n < 10 {
        (48 + n) as char
    } else {
        (87 + n) as char
    }
}

/// A colour by its parts, as it can be edited by hand.
pub open spec fn hex_text(r: u8, g: u8, b: u8) -> Seq<char> {
    seq![
        '#',
        hex_digit(r as int / 16),
        hex_digit(r as int % 16),
        hex_digit(g as int / 16),
        hex_digit(g as int % 16),
        hex_digit(b as int / 16),
        hex_digit(b as int % 16),
    ]
}

/// A colour as it is written down: by its parts, else by its name in small letters or by
/// its number in the palette of the terminal.
pub open spec fn color_text(color: ColorView) -> Seq<char> {
    match color {
        ColorView::Rgb(r, g, b) => hex_text(r, g, b),
        ColorView::Named(name) => if name.len() > 0 && '0' <= name[0] <= '9' {
            "indexed("@ + name + ")"@
        } else {
            lower(name)
        },
    }
}

fn make_digit(n: u8) -> (r: char)
    requires
        n < 16,
    ensures
        r == hex_digit(n as int),
{
    if n < 10 {
        (48 + n) as char
    } else {
        (87 + n) as char
    }
}

/// A colour as it is written down.
pub fn color_to_hex(color: &Color) -> (r: String)
    ensures
        r@ == color_text(color.deep_view()),
{
    match color {
        Color::Rgb(red, green, blue) => {
            let mut s = String::new();
            s.push('#');
            s.push(make_digit(*red / 16));
            s.push(make_digit(*red % 16));
            s.push(make_digit(*green / 16));
            s.push(make_digit(*green % 16));
            s.push(make_digit(*blue / 16));
            s.push(make_digit(*blue % 16));
            assert(s@ =~= hex_text(*red, *green, *blue));
            s
        },
        Color::Named(name) => {
            let v = chars_of(name.as_str());
            if v.len() > 0 && '0' <= v[0] && v[0] <= '9' {
                glue3("indexed(", name.as_str(), ")")
            } else {
                to_lower(name.as_str())
            }
        },
    }
}

/// A colour that was written down by its parts is read back as it was.
pub proof fn law_color_is_read_back(r: u8, g: u8, b: u8)
    ensures
        is_hex_color(hex_text(r, g, b)),
        hex_pair(hex_text(r, g, b), 1) == r,
        hex_pair(hex_text(r, g, b), 3) == g,
        hex_pair(hex_text(r, g, b), 5) == b,
{
    let text = hex_text(r, g, b);
    assert forall|i: int| 1 <= i < 7 implies hex_value(#[trigger] text[i]) is Some by {
        assert(i == 1 || i == 2 || i == 3 || i == 4 || i == 5 || i == 6);
    }
}

/// The name of a mode.
pub open spec fn mode_name(mode: Mode) -> Seq<char> {
    match mode {
        Mode::Auto => "auto"@,
        Mode::Always => "always"@,
        Mode::Never => "never"@,
    }
}

/// The colours of names as they are written down.
pub open spec fn colors_text(colors: Seq<PaintedView>) -> Seq<(Seq<char>, Seq<char>)> {
    colors.map_values(|painted: PaintedView| (painted.key, color_text(painted.color)))
}

/// The mode with a name; what is no name of one stands for the usual mode.
pub open spec fn mode_named(name: Seq<char>) -> Mode {
    if name == "always"@ {
        Mode::Always
    } else if name == "never"@ {
        Mode::Never
    } else {
        Mode::Auto
    }
}

/// The mode with a name.
pub fn read_mode(name: &str) -> (r: Mode)
    ensures
        r == mode_named(name@),
{
    if same(name, "always") {
        Mode::Always
    } else if same(name, "never") {
        Mode::Never
    } else {
        Mode::Auto
    }
}

/// A device, or an empty name for the one that the system chooses.
pub open spec fn device_text(device: Option<Seq<char>>) -> Seq<char> {
    match device {
        Some(name) => name,
        None => Seq::empty(),
    }
}

impl SettingsView {
    /// What is remembered of a client. What it does not know stays as it was.
    pub open spec fn keeping(self, state: StateView) -> SettingsView {
        SettingsView {
            nickname: if state.nickname.len() > 0 {
                Some(state.nickname)
            } else {
                self.nickname
            },
            room: if state.room.len() > 0 {
                state.room
            } else {
                self.room
            },
            last_dir: if state.last_dir is Some {
                state.last_dir
            } else {
                self.last_dir
            },
            theme: state.theme.name_text(),
            sound_output: device_text(state.audio.output),
            sound_input: device_text(state.audio.input),
            chime: state.audio.chime,
            volume: state.audio.volume as u8,
            sidebar: state.sidebar,
            inline_images: state.images_choice,
            terminal: mode_name(state.terminal_mode),
            colors: colors_text(state.colors),
            ..self
        }
    }
}

fn make_device(device: &Option<String>) -> (r: String)
    ensures
        r@ == device_text(device.deep_view()),
{
    match device {
        Some(name) => name.clone(),
        None => {
            let r = String::new();
            assert(r@ =~= Seq::<char>::empty());
            r
        },
    }
}

/// The colours of names as they are written down.
#[verifier::loop_isolation(false)]
fn make_colors(colors: &Vec<Painted>) -> (r: Vec<(String, String)>)
    ensures
        r.deep_view() == colors_text(colors.deep_view()),
{
    let ghost all = colors.deep_view();
    let ghost goal = colors_text(all);
    let mut r: Vec<(String, String)> = Vec::new();
    let mut i: usize = 0;
    assert(all.len() == colors@.len());
    assert(r.deep_view() =~= goal.take(0));
    while i < colors.len()
        invariant
            i <= colors@.len(),
            r.deep_view() == goal.take(i as int),
        decreases colors@.len() - i,
    {
        let ghost before = r.deep_view();
        assert(all[i as int] == colors@[i as int].deep_view());
        r.push((colors[i].key.clone(), color_to_hex(&colors[i].color)));
        assert(r.deep_view() =~= before.push(goal[i as int]));
        i = i + 1;
        assert(r.deep_view() =~= goal.take(i as int));
    }
    assert(goal.take(goal.len() as int) =~= goal);
    r
}

impl Settings {
    /// Remembers what a client knows.
    pub fn keep(&mut self, state: &State)
        ensures
            final(self).deep_view() == old(self).deep_view().keeping(state.deep_view()),
    {
        if !state.nickname.as_str().is_empty() {
            self.nickname = Some(state.nickname.clone());
        }
        if !state.room.as_str().is_empty() {
            self.room = state.room.clone();
        }
        if let Some(dir) = &state.last_dir {
            self.last_dir = Some(dir.clone());
        }
        self.theme = state.theme.name().to_owned();
        self.sound_output = make_device(&state.audio.output);
        self.sound_input = make_device(&state.audio.input);
        self.chime = state.audio.chime;
        self.volume = #[verifier::truncate]
        (state.audio.volume as u8);
        self.sidebar = state.sidebar;
        self.inline_images = state.images_choice;
        self.terminal = match state.terminal_mode {
            Mode::Auto => "auto".to_owned(),
            Mode::Always => "always".to_owned(),
            Mode::Never => "never".to_owned(),
        };
        self.colors = make_colors(&state.colors);
    }
}

/// The colours that were written down, without those that cannot be read.
pub open spec fn read_colors(pairs: Seq<(Seq<char>, Seq<char>)>) -> Seq<PaintedView>
    decreases pairs.len(),
{
    if pairs.len() == 0 {
        Seq::empty()
    } else {
        let before = read_colors(pairs.drop_last());
        match parsed_color(pairs.last().1) {
            Some(color) => repainted(before, pairs.last().0, color),
            None => before,
        }
    }
}

/// The colours that were written down.
#[verifier::loop_isolation(false)]
fn make_painted(pairs: &Vec<(String, String)>) -> (r: Vec<Painted>)
    ensures
        r.deep_view() == read_colors(pairs.deep_view()),
{
    let ghost all = pairs.deep_view();
    let mut r: Vec<Painted> = Vec::new();
    let mut i: usize = 0;
    assert(all.len() == pairs@.len());
    assert(r.deep_view() =~= read_colors(all.take(0)));
    while i < pairs.len()
        invariant
            i <= pairs@.len(),
            r.deep_view() == read_colors(all.take(i as int)),
        decreases pairs@.len() - i,
    {
        proof {
            assert(all[i as int] == pairs@[i as int].deep_view());
            assert(all.take(i + 1).drop_last() =~= all.take(i as int));
            assert(all.take(i + 1).last() == all[i as int]);
        }
        if let Some(color) = parse_color(pairs[i].1.as_str()) {
            paint(&mut r, pairs[i].0.clone(), color);
        }
        i = i + 1;
    }
    assert(all.take(all.len() as int) =~= all);
    r
}

/// What a run finds around it.
pub struct Surroundings {
    /// The address of the server.
    pub url: String,
    /// Whether the terminal shows pictures well.
    pub images: bool,
    pub outputs: Vec<String>,
    pub inputs: Vec<String>,
    pub now: u64,
}

pub struct SurroundingsView {
    pub url: Seq<char>,
    pub images: bool,
    pub outputs: Seq<Seq<char>>,
    pub inputs: Seq<Seq<char>>,
    pub now: u64,
}

impl DeepView for Surroundings {
    type V = SurroundingsView;

    open spec fn deep_view(&self) -> SurroundingsView {
        SurroundingsView {
            url: self.url@,
            images: self.images,
            outputs: self.outputs.deep_view(),
            inputs: self.inputs.deep_view(),
            now: self.now,
        }
    }
}

impl StateView {
    /// With the address of a server, and the one from which its files are downloaded.
    pub open spec fn addressed(self, url: Seq<char>) -> StateView {
        StateView {
            server: url,
            media_base: base_for(url),
            screen: match self.screen {
                ScreenView::Login(login) => ScreenView::Login(
                    LoginView { server: InputView::of(url), ..login },
                ),
                ScreenView::Chat => ScreenView::Chat,
            },
            ..self
        }
    }

    /// With what was remembered.
    pub open spec fn remembering(
        self,
        settings: SettingsView,
        around: SurroundingsView,
    ) -> StateView {
        StateView {
            last_dir: settings.last_dir,
            colors: read_colors(settings.colors),
            images_auto: around.images,
            images_choice: settings.inline_images,
            theme: match Theme::parsed(settings.theme) {
                Some(theme) => theme,
                None => Theme::Charple,
            },
            sidebar: settings.sidebar,
            audio: AudioView {
                outputs: around.outputs,
                inputs: around.inputs,
                output: kept_device(around.outputs, settings.sound_output),
                input: kept_device(around.inputs, settings.sound_input),
                chime: settings.chime,
                volume: if (settings.volume as usize) < VOLUME_STEPS {
                    settings.volume as usize
                } else {
                    (VOLUME_STEPS - 1) as usize
                },
            },
            terminal_mode: mode_named(settings.terminal),
            ..self
        }.images_applied()
    }
}

/// How a run begins. On the first screen the rooms are asked for at once: one sees where
/// one can go before anything was typed.
pub open spec fn started(
    settings: SettingsView,
    nickname: Option<Seq<char>>,
    remembered: Option<Seq<char>>,
    room: Seq<char>,
    around: SurroundingsView,
) -> Step {
    let first = StateView::beginning(nickname, room, around.now);
    let state = first.state.prefilled(remembered).addressed(around.url).remembering(
        settings,
        around,
    );
    Step {
        state,
        commands: if state.screen is Login {
            first.commands.push(CommandView::FetchRooms(base_for(around.url)))
        } else {
            first.commands
        },
    }
}

impl State {
    /// Takes what was remembered.
    fn remember(&mut self, settings: Settings, around: Surroundings)
        ensures
            final(self).deep_view() == old(self).deep_view().remembering(
                settings.deep_view(),
                around.deep_view(),
            ),
            forall|theme: Theme|
                settings.theme@ == #[trigger] theme.name_text() ==> final(self).theme == theme,
    {
        self.colors = make_painted(&settings.colors);
        self.last_dir = settings.last_dir;
        self.images_auto = around.images;
        self.images_choice = settings.inline_images;
        self.theme = match Theme::parse(settings.theme.as_str()) {
            Some(theme) => theme,
            None => Theme::Charple,
        };
        self.sidebar = settings.sidebar;
        self.audio = audio_from(
            around.outputs,
            around.inputs,
            settings.sound_output.as_str(),
            settings.sound_input.as_str(),
            settings.chime,
            settings.volume,
        );
        self.terminal_mode = read_mode(settings.terminal.as_str());
        self.apply_images();
    }
}

/// Begins a run. A theme is known again by its name.
pub fn start(
    settings: Settings,
    nickname: Option<String>,
    remembered: Option<String>,
    room: String,
    around: Surroundings,
) -> (r: (State, Vec<Command>))
    ensures
        step_of(r.0, r.1) == started(
            settings.deep_view(),
            nickname.deep_view(),
            remembered.deep_view(),
            room@,
            around.deep_view(),
        ),
        r.0.deep_view().wf(),
        forall|theme: Theme|
            settings.theme@ == #[trigger] theme.name_text() ==> r.0.theme == theme,
{
    let ghost first = StateView::beginning(nickname.deep_view(), room@, around.now);
    let (mut state, mut commands) = State::new(nickname, room, around.now);
    assert(commands.deep_view() == first.commands);
    if let Some(remembered) = &remembered {
        state.prefill_nickname(remembered.as_str());
    }
    assert(state.deep_view() == first.state.prefilled(remembered.deep_view()));
    let ghost before = state.deep_view();
    let base = base_of(around.url.as_str());
    state.set_server(around.url.clone());
    state.media_base = base.clone();
    assert(state.deep_view() == before.addressed(around.url@));
    assert(state.deep_view().wf());
    state.remember(settings, around);
    let asks = match &state.screen {
        Screen::Login(_) => true,
        Screen::Chat => false,
    };
    if asks {
        commands.push(Command::FetchRooms(base));
        assert(commands.deep_view() =~= first.commands.push(CommandView::FetchRooms(base@)));
    }
    (state, commands)
}

/// Whether a device is found again: it is there, and its name is no wider than it looks.
pub open spec fn found_again(devices: Seq<Seq<char>>, device: Option<Seq<char>>) -> bool {
    device matches Some(name) ==> devices.contains(name) && name.len() > 0 && trimmed(name) == name
}

proof fn lemma_device_comes_back(devices: Seq<Seq<char>>, device: Option<Seq<char>>)
    requires
        found_again(devices, device),
    ensures
        kept_device(devices, device_text(device)) == device,
{
    match device {
        Some(name) => {
            lemma_first_where(devices, is_device(name));
            let k = choose|k: int| 0 <= k < devices.len() && devices[k] == name;
            assert(is_device(name)(devices[k]));
        },
        None => {
            assert(trimmed(Seq::<char>::empty()).len() == 0);
        },
    }
}

/// What a client knows is remembered as it was: a run that begins with it has the same
/// name in its field and the same choices, and the same devices as long as they are there.
pub proof fn law_settings_come_back(
    settings: SettingsView,
    state: StateView,
    room: Seq<char>,
    around: SurroundingsView,
)
    requires
        state.audio.volume < VOLUME_STEPS,
    ensures
        ({
            let kept = settings.keeping(state);
            let next = started(kept, None, kept.nickname, room, around).state;
            &&& next.sidebar == state.sidebar
            &&& next.images_choice == state.images_choice
            &&& next.audio.chime == state.audio.chime
            &&& next.audio.volume == state.audio.volume
            &&& next.terminal_mode == state.terminal_mode
            &&& found_again(around.outputs, state.audio.output) ==> next.audio.output
                == state.audio.output
            &&& found_again(around.inputs, state.audio.input) ==> next.audio.input
                == state.audio.input
            &&& state.last_dir is Some ==> next.last_dir == state.last_dir
            &&& next.screen is Login
            &&& state.nickname.len() > 0 ==> {
                &&& next.nickname == state.nickname
                &&& next.screen->Login_0.nickname.text == state.nickname
            }
        }),
{
    if found_again(around.outputs, state.audio.output) {
        lemma_device_comes_back(around.outputs, state.audio.output);
    }
    if found_again(around.inputs, state.audio.input) {
        lemma_device_comes_back(around.inputs, state.audio.input);
    }
    reveal_strlit("auto");
    reveal_strlit("always");
    reveal_strlit("never");
    assert("always"@.len() != "never"@.len());
    assert("auto"@.len() != "never"@.len());
    assert("auto"@.len() != "always"@.len());
}

} // verus!
