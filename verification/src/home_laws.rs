//! What the keys do on the first screen and in the list of files.
use crate::command_laws::talk_goes_on;
use crate::console::port_of;
use crate::files::{
    bare, ending, last_place, line_for, listing, names_media, not_hidden, FileEntry, FileEntryView,
    FoundView,
};
use crate::home::{Field, HomeTab, LoginView};
use crate::input::InputView;
use crate::key_laws::after_key;
use crate::keys::KeyCode;
use crate::line_laws::{plain, with_ctrl};
use crate::seqs::{law_sorted_keeps_items, lemma_filter_from, lemma_first_where_is, Ranked};
use crate::state::{
    ActionView, BrowserView, CommandView, Mode, ScreenView, StateView, Step, WorldView,
};
use crate::text::{decimal, joined, lower, lower_char, occurs, occurs_at, trimmed, words};
use crate::theme::Theme;
use crate::validate::{cleaned_nickname, cleaned_room};
use vstd::prelude::*;

verus! {

/// Whether a key changed nothing but the first screen, and nothing is to be done outside.
pub open spec fn only_screen_differs(state: StateView, step: Step, after: LoginView) -> bool {
    &&& step.commands.len() == 0
    &&& step.state == StateView { screen: ScreenView::Login(after), ..state }
}

/// The room in which Enter is to lead: the one that is pointed at in the list, else the one
/// that was typed.
pub open spec fn meant_room(login: LoginView) -> Seq<char> {
    match login.rooms_selected {
        Some(i) => if i < login.rooms.len() {
            login.rooms[i as int].name
        } else {
            login.room.text
        },
        None => login.room.text,
    }
}

/// Enter in a filled form leads into the room, under the name and on the server that the
/// form gives.
pub proof fn law_form_leads_into_the_room(state: StateView, login: LoginView, world: WorldView)
    requires
        state.screen == ScreenView::Login(login),
        login.tab == HomeTab::Join,
        login.busy is None,
        cleaned_nickname(login.nickname.text) is Ok,
        cleaned_room(meant_room(login)) is Ok,
        world.endpoint is Ok,
    ensures
        ({
            let step = after_key(state, plain(KeyCode::Enter), world);
            let nickname = cleaned_nickname(login.nickname.text)->Ok_0;
            let room = cleaned_room(meant_room(login))->Ok_0;
            let server = world.endpoint->Ok_0.socket;
            &&& step.commands == seq![CommandView::Connect { nickname, room, server }]
            &&& step.state.screen is Chat
            &&& step.state.nickname == nickname
            &&& step.state.room == room
            &&& step.state.server == server
            &&& step.state.users.len() == 0
            &&& room == state.room && server == state.server ==> step.state.entries == state.entries
            &&& room != state.room || server != state.server ==> step.state.entries.len() == 0
        }),
{
    reveal(StateView::key_pressed);
    reveal(StateView::home_key);
    reveal(StateView::home_entered);
    reveal(StateView::entering);
}

/// What is wrong in the form is pointed at: its field gets the focus, a reason is shown,
/// and nothing is done. The name is looked at first, then the room, then the server.
pub proof fn law_form_is_refused(state: StateView, login: LoginView, world: WorldView)
    requires
        state.screen == ScreenView::Login(login),
        login.tab == HomeTab::Join,
        login.busy is None,
        cleaned_nickname(login.nickname.text) is Err || cleaned_room(meant_room(login)) is Err
            || world.endpoint is Err,
    ensures
        ({
            let step = after_key(state, plain(KeyCode::Enter), world);
            &&& step.state.screen matches ScreenView::Login(after)
            &&& only_screen_differs(state, step, after)
            &&& after.error is Some
            &&& cleaned_nickname(login.nickname.text) is Err ==> after.field == Field::Nickname
            &&& cleaned_nickname(login.nickname.text) is Ok && cleaned_room(meant_room(login))
                is Err ==> after.field == Field::Room && after.rooms_selected is None
            &&& cleaned_nickname(login.nickname.text) is Ok && cleaned_room(meant_room(login))
                is Ok ==> after.field == Field::Server && after.error == Some(
                world.endpoint->Err_0,
            )
            &&& after.nickname == login.nickname && after.room == login.room && after.server
                == login.server && after.tab == login.tab
        }),
{
    reveal(StateView::key_pressed);
    reveal(StateView::home_key);
    reveal(StateView::home_entered);
    reveal(StateView::entering);
}

/// Enter on the tab for a server of one's own starts one on the port that was typed, for
/// the room and under the name of the form, with an empty feed. The screen stays until the
/// server has started, and until then Enter does nothing more.
pub proof fn law_own_server_is_started(state: StateView, login: LoginView, world: WorldView)
    requires
        state.screen == ScreenView::Login(login),
        login.tab == HomeTab::Host,
    ensures
        ({
            let step = after_key(state, plain(KeyCode::Enter), world);
            let port = port_of(trimmed(login.port.text));
            let good = cleaned_nickname(login.nickname.text) is Ok && cleaned_room(login.room.text)
                is Ok && port is Some;
            &&& login.busy is Some ==> step.commands.len() == 0 && step.state == state
            &&& login.busy is None && good ==> {
                &&& step.commands == seq![CommandView::Host(port->0 as u16)]
                &&& step.state.nickname == cleaned_nickname(login.nickname.text)->Ok_0
                &&& step.state.room == cleaned_room(login.room.text)->Ok_0
                &&& step.state.entries.len() == 0
                &&& step.state.screen matches ScreenView::Login(after)
                &&& after.busy is Some && after.error is None && after.tab == HomeTab::Host
            }
            &&& login.busy is None && !good ==> {
                &&& step.state.screen matches ScreenView::Login(after)
                &&& only_screen_differs(state, step, after)
                &&& after.error is Some
                &&& after.field == if cleaned_nickname(login.nickname.text) is Err {
                    Field::Nickname
                } else if cleaned_room(login.room.text) is Err {
                    Field::Room
                } else {
                    Field::Port
                }
            }
        }),
{
    reveal(StateView::key_pressed);
    reveal(StateView::home_key);
    reveal(StateView::home_entered);
    reveal(StateView::starting);
}

/// Enter on the tab with the help does nothing.
pub proof fn law_help_tab_is_quiet(state: StateView, login: LoginView, world: WorldView)
    requires
        state.screen == ScreenView::Login(login),
        login.tab == HomeTab::Help,
    ensures
        after_key(state, plain(KeyCode::Enter), world).commands.len() == 0,
        after_key(state, plain(KeyCode::Enter), world).state == state,
{
    reveal(StateView::key_pressed);
    reveal(StateView::home_key);
    reveal(StateView::home_entered);
}

/// Right and Enter turn the chosen look to its next value, Left to the one before; the
/// other settings stay, and the choice is kept on the disk. Themes, pictures, the list of
/// people and the terminal stand one below another.
pub proof fn law_looks_are_turned(state: StateView, login: LoginView, code: KeyCode, world: WorldView)
    requires
        state.screen == ScreenView::Login(login),
        login.tab == HomeTab::Look,
        login.busy is None,
        login.setting <= 3,
        code == KeyCode::Enter || code == KeyCode::Right || code == KeyCode::Left,
    ensures
        ({
            let step = after_key(state, plain(code), world);
            let b = step.state;
            let on = code != KeyCode::Left;
            &&& step.commands == seq![CommandView::SaveConfig]
            &&& login.setting == 0 ==> b == (StateView { theme: b.theme, ..state }) && turned(
                themes(),
                state.theme,
                b.theme,
                on,
            )
            &&& login.setting == 1 ==> {
                &&& b == (StateView {
                    images_choice: b.images_choice,
                    inline_images: b.inline_images,
                    ..state
                })
                &&& turned(seq![None, Some(true), Some(false)], state.images_choice, b.images_choice, on)
                &&& b.inline_images == match b.images_choice {
                    Some(choice) => choice,
                    None => state.images_auto,
                }
            }
            &&& login.setting == 2 ==> b == (StateView { sidebar: !state.sidebar, ..state })
            &&& login.setting == 3 ==> b == (StateView { terminal_mode: b.terminal_mode, ..state })
                && turned(
                seq![Mode::Auto, Mode::Always, Mode::Never],
                state.terminal_mode,
                b.terminal_mode,
                on,
            )
        }),
{
    reveal(StateView::key_pressed);
    reveal(StateView::home_key);
    reveal(StateView::home_entered);
    reveal(StateView::look_key);
    let step = after_key(state, plain(code), world);
    let b = step.state;
    let on = code != KeyCode::Left;
    if login.setting == 0 {
        let at: int = match state.theme {
            Theme::Charple => 0,
            Theme::Dolly => 1,
            Theme::Mint => 2,
            Theme::Ember => 3,
        };
        assert(is_turned_at(themes(), state.theme, b.theme, on, at));
    } else if login.setting == 1 {
        let at: int = match state.images_choice {
            None => 0,
            Some(true) => 1,
            Some(false) => 2,
        };
        assert(is_turned_at(
            seq![None, Some(true), Some(false)],
            state.images_choice,
            b.images_choice,
            on,
            at,
        ));
    } else if login.setting == 3 {
        let at: int = match state.terminal_mode {
            Mode::Auto => 0,
            Mode::Always => 1,
            Mode::Never => 2,
        };
        assert(is_turned_at(
            seq![Mode::Auto, Mode::Always, Mode::Never],
            state.terminal_mode,
            b.terminal_mode,
            on,
            at,
        ));
    }
}

/// The themes in their order.
pub open spec fn themes() -> Seq<Theme> {
    seq![Theme::Charple, Theme::Dolly, Theme::Mint, Theme::Ember]
}

/// Whether a value stands at a place of a circle and another one next to it: behind it, or
/// before it.
pub open spec fn is_turned_at<T>(circle: Seq<T>, from: T, to: T, on: bool, at: int) -> bool {
    let n = circle.len();
    &&& 0 <= at < n
    &&& circle[at] == from
    &&& on && at + 1 < n ==> to == circle[at + 1]
    &&& on && at + 1 == n ==> to == circle[0]
    &&& !on && at > 0 ==> to == circle[at - 1]
    &&& !on && at == 0 ==> to == circle[n - 1]
}

/// Whether a value of a circle was turned to the next one, or to the one before.
pub open spec fn turned<T>(circle: Seq<T>, from: T, to: T, on: bool) -> bool {
    exists|at: int| is_turned_at(circle, from, to, on, at)
}

/// The keys turn the settings of the sound in the same way; a change is heard at once and
/// kept.
pub proof fn law_sounds_are_turned(
    state: StateView,
    login: LoginView,
    code: KeyCode,
    world: WorldView,
)
    requires
        state.screen == ScreenView::Login(login),
        login.tab == HomeTab::Sound,
        login.busy is None,
        login.setting <= 3,
        state.audio.volume <= 2,
        code == KeyCode::Enter || code == KeyCode::Right || code == KeyCode::Left,
    ensures
        ({
            let step = after_key(state, plain(code), world);
            let a = state.audio;
            let b = step.state.audio;
            let on = code != KeyCode::Left;
            &&& step.commands == seq![CommandView::Audio, CommandView::SaveConfig]
            &&& step.state == (StateView { audio: b, ..state })
            &&& b.outputs == a.outputs && b.inputs == a.inputs
            &&& login.setting != 0 ==> b.output == a.output
            &&& login.setting != 1 ==> b.input == a.input
            &&& b.chime == if login.setting == 2 {
                !a.chime
            } else {
                a.chime
            }
            &&& login.setting != 3 ==> b.volume == a.volume
            &&& login.setting == 3 && on ==> b.volume == if a.volume == 2 {
                0
            } else {
                a.volume + 1
            }
            &&& login.setting == 3 && !on ==> b.volume == if a.volume == 0 {
                2
            } else {
                a.volume - 1
            }
            &&& login.setting == 0 && a.outputs.len() > 0 && a.output is None ==> b.output == Some(
                if on {
                    a.outputs[0]
                } else {
                    a.outputs.last()
                },
            )
            &&& login.setting == 1 && a.inputs.len() > 0 && a.input is None ==> b.input == Some(
                if on {
                    a.inputs[0]
                } else {
                    a.inputs.last()
                },
            )
        }),
{
    reveal(StateView::key_pressed);
    reveal(StateView::home_key);
    reveal(StateView::home_entered);
    reveal(StateView::sound_key);
}

/// The tabs in their order.
pub open spec fn tabs() -> Seq<HomeTab> {
    seq![HomeTab::Join, HomeTab::Host, HomeTab::Look, HomeTab::Sound, HomeTab::Help]
}

/// Tab leads to the next tab, Shift+Tab to the one before; what was typed stays, and what
/// was complained of is gone. Escape leads to the first tab.
pub proof fn law_tabs_are_turned(state: StateView, login: LoginView, world: WorldView)
    requires
        state.screen == ScreenView::Login(login),
    ensures
        ({
            let on = after_key(state, plain(KeyCode::Tab), world);
            let back = after_key(state, plain(KeyCode::BackTab), world);
            let out = after_key(state, plain(KeyCode::Esc), world);
            &&& on.state.screen matches ScreenView::Login(a)
            &&& back.state.screen matches ScreenView::Login(b)
            &&& out.state.screen matches ScreenView::Login(c)
            &&& only_screen_differs(state, on, a)
            &&& only_screen_differs(state, back, b)
            &&& only_screen_differs(state, out, c)
            &&& turned(tabs(), login.tab, a.tab, true)
            &&& turned(tabs(), login.tab, b.tab, false)
            &&& same_fields(login, a) && same_fields(login, b) && same_fields(login, c)
            &&& a.error is None && b.error is None
            &&& a.rooms_selected is None && b.rooms_selected is None
            &&& c.tab == HomeTab::Join
            &&& login.tab == HomeTab::Join ==> c == login
        }),
{
    reveal(StateView::key_pressed);
    reveal(StateView::home_key);
    reveal(StateView::own_key);
    let at: int = match login.tab {
        HomeTab::Join => 0,
        HomeTab::Host => 1,
        HomeTab::Look => 2,
        HomeTab::Sound => 3,
        HomeTab::Help => 4,
    };
    assert(is_turned_at(tabs(), login.tab, login.tab_switched(false, world.now).tab, true, at));
    assert(is_turned_at(tabs(), login.tab, login.tab_switched(true, world.now).tab, false, at));
}

/// Whether the fields of two forms hold the same.
pub open spec fn same_fields(a: LoginView, b: LoginView) -> bool {
    &&& b.nickname == a.nickname
    &&& b.room == a.room
    &&& b.server == a.server
    &&& b.port == a.port
    &&& b.rooms == a.rooms
}

/// Down walks from the name to the room, from there to the server and on into the list of
/// rooms, line by line to its end; Up walks back. Where there are no rooms, the fields go
/// round.
pub proof fn law_form_is_walked(state: StateView, login: LoginView, world: WorldView)
    requires
        state.screen == ScreenView::Login(login),
        login.tab == HomeTab::Join,
        login.field != Field::Port,
        login.rooms.len() <= usize::MAX,
        login.rooms_selected matches Some(i) ==> i < login.rooms.len(),
    ensures
        ({
            let down = after_key(state, plain(KeyCode::Down), world);
            let up = after_key(state, plain(KeyCode::Up), world);
            &&& down.state.screen matches ScreenView::Login(a)
            &&& up.state.screen matches ScreenView::Login(b)
            &&& only_screen_differs(state, down, a)
            &&& only_screen_differs(state, up, b)
            &&& a == (LoginView { field: a.field, rooms_selected: a.rooms_selected, ..login })
            &&& b == (LoginView { field: b.field, rooms_selected: b.rooms_selected, ..login })
            &&& match login.rooms_selected {
                Some(i) => {
                    &&& a.field == login.field && b.field == login.field
                    &&& i + 1 < login.rooms.len() ==> a.rooms_selected == Some((i + 1) as usize)
                    &&& i + 1 == login.rooms.len() ==> a.rooms_selected == Some(i)
                    &&& i > 0 ==> b.rooms_selected == Some((i - 1) as usize)
                    &&& i == 0 ==> b.rooms_selected is None
                },
                None => {
                    &&& login.field == Field::Nickname ==> a.field == Field::Room && b.field
                        == Field::Server
                    &&& login.field == Field::Room ==> a.field == Field::Server && b.field
                        == Field::Nickname
                    &&& login.field == Field::Server ==> b.field == Field::Room
                    &&& login.field == Field::Server && login.rooms.len() == 0 ==> a.field
                        == Field::Nickname && a.rooms_selected is None
                    &&& login.field == Field::Server && login.rooms.len() > 0
                        ==> a.rooms_selected == Some(0usize) && a.field == Field::Server
                    &&& login.field != Field::Server ==> a.rooms_selected is None
                    &&& b.rooms_selected is None
                },
            }
        }),
{
    reveal(StateView::key_pressed);
    reveal(StateView::home_key);
    reveal(StateView::own_key);
    let fields = crate::home::join_fields();
    lemma_first_where_is(
        fields,
        crate::home::is_field(login.field),
        match login.field {
            Field::Nickname => 0,
            Field::Room => 1,
            _ => 2,
        },
    );
}

/// How many characters a field takes.
pub open spec fn room_in(field: Field) -> int {
    match field {
        Field::Nickname => 20,
        Field::Room => 32,
        Field::Server => 1000,
        Field::Port => 5,
    }
}

/// What a field holds.
pub open spec fn held(login: LoginView, field: Field) -> InputView {
    match field {
        Field::Nickname => login.nickname,
        Field::Room => login.room,
        Field::Server => login.server,
        Field::Port => login.port,
    }
}

/// A character goes into the field with the focus and into no other one, as far as there is
/// room in it; a port takes digits only. Whoever types no longer means the room that was
/// pointed at.
pub proof fn law_field_is_typed(state: StateView, login: LoginView, ch: char, world: WorldView)
    requires
        state.screen == ScreenView::Login(login),
        login.tab == HomeTab::Join || login.tab == HomeTab::Host,
    ensures
        ({
            let step = after_key(state, plain(KeyCode::Char(ch)), world);
            let typed = held(login, login.field).edited(
                plain(KeyCode::Char(ch)),
                room_in(login.field),
            );
            let taken = login.field != Field::Port || '0' <= ch <= '9';
            &&& step.state.screen matches ScreenView::Login(after)
            &&& only_screen_differs(state, step, after)
            &&& after.rooms_selected is None
            &&& after.field == login.field && after.tab == login.tab && after.rooms == login.rooms
            &&& taken ==> typed is Some && held(after, login.field) == typed->0
            &&& !taken ==> held(after, login.field) == held(login, login.field)
            &&& forall|other: Field|
                other != login.field ==> #[trigger] held(after, other) == held(login, other)
        }),
{
    reveal(StateView::key_pressed);
    reveal(StateView::home_key);
    reveal(StateView::own_key);
    reveal(StateView::field_key);
}

/// Ctrl+R asks the server for its rooms anew; Ctrl+C, Ctrl+D and Ctrl+Q close the program.
pub proof fn law_first_screen_shortcuts(
    state: StateView,
    login: LoginView,
    ch: char,
    world: WorldView,
)
    requires
        state.screen == ScreenView::Login(login),
        lower_char(ch) == ch,
        ch == 'r' || ch == 'c' || ch == 'd' || ch == 'q',
    ensures
        ({
            let step = after_key(state, with_ctrl(ch), world);
            &&& ch == 'r' ==> {
                &&& match world.endpoint {
                    Ok(endpoint) => step.commands == seq![CommandView::FetchRooms(endpoint.base)],
                    Err(_) => step.commands.len() == 0,
                }
                &&& step.state.screen matches ScreenView::Login(after)
                &&& step.state == state.with_login(after)
                &&& same_fields(login, after) && after.tab == login.tab
            }
            &&& ch != 'r' ==> step.commands == seq![CommandView::Quit] && step.state == (StateView {
                should_quit: true,
                ..state
            })
        }),
{
    reveal(StateView::key_pressed);
    reveal(StateView::home_key);
    crate::keys::lemma_latin_stays(ch);
}

/// What is pasted on the first screen goes into the field with the focus, as one line.
pub proof fn law_field_is_pasted(
    state: StateView,
    login: LoginView,
    text: Seq<char>,
    world: WorldView,
)
    requires
        state.screen == ScreenView::Login(login),
    ensures
        ({
            let step = state.updated(ActionView::Paste(text), world);
            let flat = joined(words(text), " "@);
            &&& step.state.screen matches ScreenView::Login(after)
            &&& only_screen_differs(state, step, after)
            &&& held(after, login.field) == held(login, login.field).inserted(
                flat,
                room_in(login.field),
            )
            &&& forall|other: Field|
                other != login.field ==> #[trigger] held(after, other) == held(login, other)
        }),
{
    reveal(StateView::changed);
    reveal(StateView::pasted);
}

/// A client begins on the first screen, with the port 8080 and the room that was given in
/// the form and nothing else; where a name was given it goes straight into the room.
pub proof fn law_beginning(nickname: Seq<char>, room: Seq<char>, now: u64)
    ensures
        ({
            let step = StateView::beginning(None, room, now);
            &&& step.commands.len() == 0
            &&& step.state.screen matches ScreenView::Login(login)
            &&& login.room.text == room && login.nickname.text.len() == 0
            &&& login.port.text == decimal(8080)
            &&& login.tab == HomeTab::Join && login.field == Field::Nickname
            &&& step.state.entries.len() == 0 && !step.state.should_quit
        }),
        ({
            let step = StateView::beginning(Some(nickname), room, now);
            &&& step.commands == seq![
                CommandView::Connect { nickname, room, server: Seq::empty() },
            ]
            &&& step.state.screen is Chat
            &&& step.state.nickname == nickname && step.state.room == room
        }),
{
}

/// Whether the list of files is open with nothing above it.
pub open spec fn browsing(state: StateView, browser: BrowserView) -> bool {
    &&& state.screen is Chat
    &&& state.viewer is None
    &&& state.browser == Some(browser)
}

/// Whether a line of the list of files is shown: the way up always, the others where their
/// names hold what is typed, whatever the case of the letters.
pub open spec fn passes_filter(browser: BrowserView, line: FileEntryView) -> bool {
    let needle = lower(browser.filter.text);
    let name = lower(line.name);
    ||| line.name == seq!['.', '.']
    ||| needle.len() == 0
    ||| exists|i: int|
        0 <= i <= name.len() - needle.len() && #[trigger] name.subrange(i, i + needle.len())
            == needle
}

/// The list shows the lines that hold what is typed, all of them and no others.
pub proof fn law_filter_shows(browser: BrowserView)
    ensures
        forall|line: FileEntryView| #[trigger]
            browser.shown().contains(line) <==> browser.entries.contains(line) && passes_filter(
                browser,
                line,
            ),
{
    let needle = lower(browser.filter.text);
    let test = crate::browse::passes(needle);
    reveal_strlit("..");
    assert(".."@ =~= seq!['.', '.']);
    lemma_filter_from(browser.entries, test);
    assert forall|line: FileEntryView| test(line) == passes_filter(browser, line) by {
        let name = lower(line.name);
        if occurs(name, needle) {
            let i = choose|i: int| occurs_at(name, needle, i);
            assert(name.subrange(i, i + needle.len()) == needle);
        }
        if exists|i: int|
            0 <= i <= name.len() - needle.len() && #[trigger] name.subrange(i, i + needle.len())
                == needle {
            let i = choose|i: int|
                0 <= i <= name.len() - needle.len() && #[trigger] name.subrange(
                    i,
                    i + needle.len(),
                ) == needle;
            assert(occurs_at(name, needle, i));
        }
    }
    let shown = browser.shown();
    assert forall|line: FileEntryView| #[trigger] shown.contains(line) <==> browser.entries.contains(
        line,
    ) && passes_filter(browser, line) by {
        assert(test(line) == passes_filter(browser, line));
        if shown.contains(line) {
            let i = choose|i: int| 0 <= i < shown.len() && shown[i] == line;
            assert(browser.entries.contains(shown[i]) && test(shown[i]));
        }
        if browser.entries.contains(line) && test(line) {
            let i = choose|i: int|
                0 <= i < browser.entries.len() && browser.entries[i] == line;
            assert(test(browser.entries[i]));
        }
    }
}

/// The arrows move by one line, PageUp and PageDown by ten, neither above the first line
/// nor below the last one. Escape closes the list.
pub proof fn law_list_is_walked(
    state: StateView,
    browser: BrowserView,
    code: KeyCode,
    world: WorldView,
)
    requires
        browsing(state, browser),
        browser.selected < browser.shown().len() <= usize::MAX,
        code == KeyCode::Up || code == KeyCode::Down || code == KeyCode::PageUp || code
            == KeyCode::PageDown,
    ensures
        ({
            let step = after_key(state, plain(code), world);
            let last = browser.shown().len() - 1;
            let at = browser.selected as int;
            &&& step.commands.len() == 0
            &&& step.state.browser matches Some(after)
            &&& step.state == (StateView { browser: Some(after), ..state })
            &&& after == (BrowserView { selected: after.selected, ..browser })
            &&& code == KeyCode::Up ==> after.selected == if at > 0 {
                at - 1
            } else {
                0
            }
            &&& code == KeyCode::Down ==> after.selected == if at < last {
                at + 1
            } else {
                last
            }
            &&& code == KeyCode::PageUp ==> after.selected == if at > 10 {
                at - 10
            } else {
                0
            }
            &&& code == KeyCode::PageDown ==> after.selected == if at + 10 < last {
                at + 10
            } else {
                last
            }
        }),
        after_key(state, plain(KeyCode::Esc), world).commands.len() == 0,
        after_key(state, plain(KeyCode::Esc), world).state == (StateView { browser: None, ..state }),
{
    reveal(StateView::key_pressed);
    reveal(StateView::chat_key);
    reveal(StateView::browser_key);
}

/// Enter on a directory reads it; on a file it sends that file, closes the list and
/// remembers where it was. Left, and Backspace where nothing is typed, lead one level up.
pub proof fn law_list_is_used(state: StateView, browser: BrowserView, world: WorldView)
    requires
        browsing(state, browser),
    ensures
        ({
            let step = after_key(state, plain(KeyCode::Enter), world);
            if browser.selected < browser.shown().len() {
                let line = browser.shown()[browser.selected as int];
                &&& line.is_dir ==> {
                    &&& step.commands == seq![CommandView::ReadDir(line.path)]
                    &&& step.state.browser is Some && step.state.browser->0.loading
                    &&& step.state == (StateView { browser: step.state.browser, ..state })
                }
                &&& !line.is_dir ==> {
                    &&& step.commands == seq![
                        CommandView::Upload(line.path),
                        CommandView::SaveConfig,
                    ]
                    &&& step.state.browser is None
                    &&& step.state.last_dir == Some(browser.dir)
                    &&& talk_goes_on(
                        StateView { last_dir: step.state.last_dir, ..state },
                        step.state,
                    )
                    &&& step.state.entries == state.entries
                }
            } else {
                step.commands.len() == 0 && step.state == state
            }
        }),
        ({
            let left = after_key(state, plain(KeyCode::Left), world);
            let rubbed = after_key(state, plain(KeyCode::Backspace), world);
            &&& match world.parent {
                Some(parent) => {
                    &&& left.commands == seq![CommandView::ReadDir(parent)]
                    &&& left.state.browser is Some && left.state.browser->0.loading
                },
                None => left.commands.len() == 0 && left.state == state,
            }
            &&& browser.filter.text.len() == 0 ==> rubbed == left
        }),
{
    reveal(StateView::key_pressed);
    reveal(StateView::chat_key);
    reveal(StateView::browser_key);
    reveal(StateView::line_taken);
    reveal(StateView::filter_key);
    reveal(StateView::dir_left);
}

/// What is typed goes into the filter, and the first line that passes is chosen.
pub proof fn law_filter_is_typed(
    state: StateView,
    browser: BrowserView,
    ch: char,
    world: WorldView,
)
    requires
        browsing(state, browser),
    ensures
        ({
            let step = after_key(state, plain(KeyCode::Char(ch)), world);
            let typed = browser.filter.edited(plain(KeyCode::Char(ch)), 1000);
            &&& step.commands.len() == 0
            &&& typed is Some
            &&& step.state == (StateView {
                browser: Some(BrowserView { filter: typed->0, selected: 0, ..browser }),
                ..state
            })
        }),
{
    reveal(StateView::key_pressed);
    reveal(StateView::chat_key);
    reveal(StateView::browser_key);
    reveal(StateView::filter_key);
}

/// Whether a line of the list tells of what was found on the disk.
pub open spec fn tells_of_file(found: FoundView, line: FileEntryView) -> bool {
    &&& line.name == found.name
    &&& line.path == found.path
    &&& line.is_dir == found.is_dir
    &&& line.size == found.size
}

/// Everything in a directory that is not hidden has its line, and the way up stands first
/// where there is one; there are no other lines.
pub proof fn law_directory_is_whole(parent: Seq<char>, found: Seq<FoundView>)
    ensures
        forall|i: int|
            0 <= i < found.len() && !((#[trigger] found[i]).name.len() > 0 && found[i].name[0]
                == '.') ==> has_line(listing(None, found), found[i]),
        forall|k: int|
            0 <= k < listing(None, found).len() ==> is_found(
                found,
                #[trigger] listing(None, found)[k],
            ),
        listing(Some(parent), found).drop_first() == listing(None, found),
        ({
            let first = listing(Some(parent), found)[0];
            first.name == ".."@ && first.path == parent && first.is_dir
        }),
{
    let test = |f: FoundView| not_hidden(f);
    let line = |f: FoundView| line_for(f);
    let le = |a: FileEntryView, b: FileEntryView| FileEntry::ranks(a, b);
    let kept = found.filter(test);
    let lines = kept.map_values(line);
    let rows = listing(None, found);
    law_sorted_keeps_items(lines, le);
    lemma_filter_from(found, test);
    rows.to_multiset_ensures();
    lines.to_multiset_ensures();
    assert forall|i: int|
        0 <= i < found.len() && !((#[trigger] found[i]).name.len() > 0 && found[i].name[0]
            == '.') implies has_line(rows, found[i]) by {
        assert(test(found[i]));
        let k = choose|k: int| 0 <= k < kept.len() && kept[k] == found[i];
        assert(lines[k] == line_for(found[i]));
        assert(lines.contains(lines[k]));
        assert(lines.to_multiset().count(lines[k]) > 0);
        assert(rows.contains(lines[k]));
        let j = choose|j: int| 0 <= j < rows.len() && rows[j] == lines[k];
        assert(tells_of_file(found[i], rows[j]));
    }
    assert forall|k: int| 0 <= k < rows.len() implies is_found(found, #[trigger] rows[k]) by {
        assert(rows.contains(rows[k]));
        assert(rows.to_multiset().count(rows[k]) > 0);
        assert(lines.contains(rows[k]));
        let j = choose|j: int| 0 <= j < lines.len() && lines[j] == rows[k];
        assert(lines[j] == line_for(kept[j]));
        assert(found.contains(kept[j]));
        let i = choose|i: int| 0 <= i < found.len() && found[i] == kept[j];
        assert(tells_of_file(found[i], rows[k]));
    }
    assert(listing(Some(parent), found).drop_first() =~= rows);
}

/// Directories stand above files, and each stand in the order of their names, whatever the
/// case of the letters.
pub proof fn law_directories_stand_first(found: Seq<FoundView>)
    ensures
        forall|i: int, j: int|
            0 <= i < j < listing(None, found).len() ==> may_precede(
                #[trigger] listing(None, found)[i],
                #[trigger] listing(None, found)[j],
            ),
{
    crate::files::law_listing_is_in_order(found);
    let rows = listing(None, found);
    let le = |a: FileEntryView, b: FileEntryView| FileEntry::ranks(a, b);
    assert forall|i: int, j: int| 0 <= i < j < rows.len() implies may_precede(
        #[trigger] rows[i],
        #[trigger] rows[j],
    ) by {
        assert(le(rows[i], rows[j]));
    }
}

/// Whether a line may stand above another one.
pub open spec fn may_precede(a: FileEntryView, b: FileEntryView) -> bool {
    &&& b.is_dir ==> a.is_dir
    &&& a.is_dir == b.is_dir ==> crate::seqs::text_le(lower(a.name), lower(b.name))
}

/// Whether something that was found has its line.
pub open spec fn has_line(rows: Seq<FileEntryView>, found: FoundView) -> bool {
    exists|j: int| 0 <= j < rows.len() && tells_of_file(found, #[trigger] rows[j])
}

/// Whether a line tells of something that was found.
pub open spec fn is_found(found: Seq<FoundView>, line: FileEntryView) -> bool {
    exists|i: int| 0 <= i < found.len() && tells_of_file(#[trigger] found[i], line)
}

proof fn lemma_last_place(before: Seq<char>, c: char, after: Seq<char>)
    requires
        forall|i: int| 0 <= i < after.len() ==> #[trigger] after[i] != c,
    ensures
        last_place(before + seq![c] + after, c) == before.len(),
    decreases after.len(),
{
    let s = before + seq![c] + after;
    if after.len() > 0 {
        assert(s.last() == after.last());
        assert(after[after.len() - 1] != c);
        assert(s.drop_last() =~= before + seq![c] + after.drop_last());
        assert forall|i: int| 0 <= i < after.drop_last().len() implies #[trigger] after.drop_last()[i]
            != c by {
            assert(after.drop_last()[i] == after[i]);
        }
        lemma_last_place(before, c, after.drop_last());
    } else {
        assert(s.last() == c);
    }
}

/// What stands behind the last dot of a name is its ending, whatever directory the file is
/// in; pictures and sounds are known by it, whatever the case of its letters.
pub proof fn law_files_are_known_by_their_ending(
    dir: Seq<char>,
    stem: Seq<char>,
    end: Seq<char>,
)
    requires
        stem.len() > 0,
        end.len() > 0,
        forall|i: int| 0 <= i < stem.len() ==> #[trigger] stem[i] != '/',
        forall|i: int| 0 <= i < end.len() ==> #[trigger] end[i] != '/' && end[i] != '.',
    ensures
        ({
            let path = dir + seq!['/'] + (stem + seq!['.'] + end);
            &&& ending(path) == Some(end)
            &&& names_media(path) <==> lower(end) == "jpg"@ || lower(end) == "jpeg"@ || lower(end)
                == "png"@ || lower(end) == "gif"@ || lower(end) == "webp"@ || lower(end)
                == "webm"@ || lower(end) == "ogg"@ || lower(end) == "oga"@ || lower(end)
                == "mp4"@ || lower(end) == "m4a"@ || lower(end) == "wav"@
        }),
{
    let name = stem + seq!['.'] + end;
    let path = dir + seq!['/'] + name;
    assert(end[end.len() - 1] != '/' && end[end.len() - 1] != '.');
    assert(path.last() == end[end.len() - 1]);
    assert(bare(path) == path);
    assert forall|i: int| 0 <= i < name.len() implies #[trigger] name[i] != '/' by {
        if i < stem.len() {
            assert(name[i] == stem[i]);
        } else if i > stem.len() {
            assert(name[i] == end[i - stem.len() - 1]);
        }
    }
    lemma_last_place(dir, '/', name);
    assert(path.skip(dir.len() as int + 1) =~= name);
    lemma_last_place(stem, '.', end);
    assert(name.skip(stem.len() as int + 1) =~= end);
    reveal_strlit("..");
    if name == ".."@ {
        assert(name.last() == '.');
        assert(name.last() == end[end.len() - 1]);
    }
}

} // verus!
