//! What is typed: lines, commands that begin with a slash, and paths.
use crate::attach::{clean_path, meant_path};
use crate::home::{Login, LoginView, DEFAULT_PORT};
use crate::input::{Input, InputView};
use crate::protocol::{ClientMessage, ClientMessageView, UserInfoView};
use crate::seqs::{first_where, lemma_filter_step, lemma_first_where_is};
use crate::state::{
    both, nothing, only, quiet, step_of, with, Command, CommandView, Painted, PaintedView, PathKind,
    Screen, ScreenView, State, StateView, Status, StatusView, Step, SystemKind, ThumbnailView,
    TypistView, World, WorldView, TYPING_EVERY,
};
use crate::text::{
    begins, chars_of, find, glue, glue3, lower, place, same, split_words, starts, text_between,
    to_lower, trim, trimmed, words,
};
use crate::theme::{parse_color, parsed_color, Color, ColorView};
use crate::validate::{
    clean_nickname, clean_room, clean_text, cleaned_nickname, cleaned_room, cleaned_text,
    nickname_key,
};
use vstd::prelude::*;
use vstd::string::*;

verus! {

broadcast use vstd::std_specs::hash::group_hash_axioms;

/// The number that digits write; nothing where they are none.
pub open spec fn digits_value(s: Seq<char>) -> Option<int>
    decreases s.len(),
{
    if s.len() == 0 {
        None
    } else if !('0' <= s.last() <= '9') {
        None
    } else if s.len() == 1 {
        Some(s.last() as int - 48)
    } else {
        match digits_value(s.drop_last()) {
            Some(n) => Some(10 * n + (s.last() as int - 48)),
            None => None,
        }
    }
}

/// The port that a text writes: digits, with or without a plus before them, that stand
/// for a number of sixteen bits.
pub open spec fn port_of(s: Seq<char>) -> Option<int> {
    let digits = if s.len() > 0 && s[0] == '+' {
        s.drop_first()
    } else {
        s
    };
    match digits_value(digits) {
        Some(n) => if n <= u16::MAX {
            Some(n)
        } else {
            None
        },
        None => None,
    }
}

proof fn lemma_digits_grow(s: Seq<char>, k: int)
    requires
        0 < k <= s.len(),
        digits_value(s.take(k)) matches Some(n) ==> n > u16::MAX,
    ensures
        digits_value(s) matches Some(n) ==> n > u16::MAX,
    decreases s.len() - k,
{
    if k < s.len() {
        assert(s.take(k + 1).drop_last() =~= s.take(k));
        lemma_digits_not_negative(s.take(k));
        lemma_digits_grow(s, k + 1);
    } else {
        assert(s.take(k) =~= s);
    }
}

proof fn lemma_digits_not_negative(s: Seq<char>)
    ensures
        digits_value(s) matches Some(n) ==> n >= 0,
    decreases s.len(),
{
    if s.len() > 1 {
        lemma_digits_not_negative(s.drop_last());
    }
}

/// Reads a port.
#[verifier::loop_isolation(false)]
pub fn parse_port(s: &str) -> (r: Option<u16>)
    ensures
        match r {
            Some(n) => port_of(s@) == Some(n as int),
            None => port_of(s@) is None,
        },
{
    let v = chars_of(s);
    let from: usize = if v.len() > 0 && v[0] == '+' {
        1
    } else {
        0
    };
    let ghost digits = v@.skip(from as int);
    assert(from == 1 ==> digits =~= s@.drop_first());
    assert(from == 0 ==> digits =~= s@);
    if from >= v.len() {
        return None;
    }
    let mut i: usize = from;
    let mut n: u32 = 0;
    while i < v.len()
        invariant
            from <= i <= v@.len(),
            n <= u16::MAX,
            i == from ==> n == 0,
            i > from ==> digits_value(digits.take(i - from)) == Some(n as int),
        decreases v@.len() - i,
    {
        let c = v[i];
        let ghost k = i - from;
        proof {
            assert(digits.take(k + 1).drop_last() =~= digits.take(k));
            assert(digits.take(k + 1).last() == c);
        }
        if c < '0' || c > '9' {
            proof {
                lemma_digits_grow(digits, k + 1);
                lemma_no_digit(digits, k + 1);
            }
            return None;
        }
        n = 10 * n + (c as u32 - 48);
        if n > 65535 {
            proof {
                lemma_digits_grow(digits, k + 1);
            }
            return None;
        }
        i = i + 1;
    }
    assert(digits.take(digits.len() as int) =~= digits);
    Some(n as u16)
}

proof fn lemma_no_digit(s: Seq<char>, k: int)
    requires
        0 < k <= s.len(),
        digits_value(s.take(k)) is None,
    ensures
        digits_value(s) is None,
    decreases s.len() - k,
{
    if k < s.len() {
        assert(s.take(k + 1).drop_last() =~= s.take(k));
        lemma_no_digit(s, k + 1);
    } else {
        assert(s.take(k) =~= s);
    }
}

/// Whether a colour is the one of a name.
pub open spec fn is_painted(key: Seq<char>) -> spec_fn(PaintedView) -> bool {
    |p: PaintedView| p.key == key
}

/// Whether a colour is the one of another name.
pub open spec fn other_painted(key: Seq<char>) -> spec_fn(PaintedView) -> bool {
    |p: PaintedView| p.key != key
}

/// The colours with another one for a name.
pub open spec fn repainted(
    colors: Seq<PaintedView>,
    key: Seq<char>,
    color: ColorView,
) -> Seq<PaintedView> {
    let k = first_where(colors, is_painted(key));
    let painted = PaintedView { key, color };
    if k < colors.len() {
        colors.update(k, painted)
    } else {
        colors.push(painted)
    }
}

/// The colour that was given to a name.
pub open spec fn color_of(colors: Seq<PaintedView>, key: Seq<char>) -> Option<ColorView> {
    let k = first_where(colors, is_painted(key));
    if k < colors.len() {
        Some(colors[k].color)
    } else {
        None
    }
}

#[verifier::loop_isolation(false)]
fn painted_at(colors: &Vec<Painted>, key: &str) -> (r: usize)
    ensures
        r == first_where(colors.deep_view(), is_painted(key@)),
        r <= colors@.len(),
{
    let ghost all = colors.deep_view();
    let mut i: usize = 0;
    while i < colors.len()
        invariant
            i <= colors@.len(),
            forall|k: int| 0 <= k < i ==> !is_painted(key@)(#[trigger] all[k]),
        decreases colors@.len() - i,
    {
        assert(all[i as int] == colors@[i as int].deep_view());
        if same(colors[i].key.as_str(), key) {
            proof {
                lemma_first_where_is(all, is_painted(key@), i as int);
            }
            return i;
        }
        i = i + 1;
    }
    proof {
        assert(all.len() == colors@.len());
        lemma_first_where_is(all, is_painted(key@), i as int);
    }
    i
}

/// The colour that was given to a name.
pub fn find_color(colors: &Vec<Painted>, key: &str) -> (r: Option<Color>)
    ensures
        r.deep_view() == color_of(colors.deep_view(), key@),
{
    let k: usize = painted_at(colors, key);
    assert(colors.deep_view().len() == colors@.len());
    if k < colors.len() {
        assert(colors.deep_view()[k as int] == colors@[k as int].deep_view());
        Some(colors[k].color.clone())
    } else {
        None
    }
}

/// Gives a name a colour.
pub fn paint(colors: &mut Vec<Painted>, key: String, color: Color)
    ensures
        final(colors).deep_view() == repainted(
            old(colors).deep_view(),
            key@,
            color.deep_view(),
        ),
{
    let ghost all = colors.deep_view();
    assert(all.len() == colors@.len());
    let k: usize = painted_at(colors, key.as_str());
    let painted = Painted { key, color };
    let ghost view = painted.deep_view();
    if k < colors.len() {
        colors.set(k, painted);
        assert(colors.deep_view() =~= all.update(k as int, view));
    } else {
        colors.push(painted);
        assert(colors.deep_view() =~= all.push(view));
    }
}

/// Takes its colour from a name.
#[verifier::loop_isolation(false)]
pub fn unpaint(colors: &mut Vec<Painted>, key: &str)
    ensures
        final(colors).deep_view() == old(colors).deep_view().filter(other_painted(key@)),
{
    let ghost all = colors.deep_view();
    let ghost test = other_painted(key@);
    let mut i: usize = 0;
    let ghost mut k: int = 0;
    proof {
        reveal(Seq::filter);
        assert(all.take(0).filter(test) =~= Seq::<PaintedView>::empty());
        assert(colors.deep_view() =~= all.take(0).filter(test) + all.skip(0));
    }
    while i < colors.len()
        invariant
            0 <= k <= all.len(),
            i == all.take(k).filter(test).len(),
            colors.deep_view() == all.take(k).filter(test) + all.skip(k),
        decreases all.len() - k,
    {
        let ghost before = colors.deep_view();
        let ghost kept = all.take(k).filter(test);
        proof {
            assert(before.len() == colors@.len());
            assert(k < all.len());
            assert(before[i as int] == all.skip(k)[0]);
            assert(colors@[i as int].deep_view() == all[k]);
            lemma_filter_step(all, k, test);
        }
        if same(colors[i].key.as_str(), key) {
            colors.remove(i);
            assert(colors.deep_view() =~= before.remove(i as int));
            assert(before.remove(i as int) =~= kept + all.skip(k + 1));
        } else {
            i = i + 1;
            assert(before =~= kept.push(all[k]) + all.skip(k + 1));
        }
        proof {
            k = k + 1;
        }
    }
    proof {
        assert(colors.deep_view().len() == colors@.len());
        assert(k == all.len());
        assert(all.take(k) =~= all);
        assert(colors.deep_view() =~= all.filter(test));
    }
}

/// Whether a text looks like a path and not like a message. The check is rough: the
/// disk has the last word.
pub open spec fn path_like(s: Seq<char>) -> bool {
    let drive = s.len() > 3 && (('a' <= s[0] <= 'z') || ('A' <= s[0] <= 'Z')) && s[1] == ':' && (
    s[2] == '\\' || s[2] == '/');
    &&& place(s, '\n') == s.len()
    &&& drive || (s.len() > 0 && s[0] == '/') || (s.len() > 1 && s[0] == '~' && s[1] == '/') || (
    s.len() > 1 && s[0] == '\\' && s[1] == '\\')
}

/// Whether a text looks like a path and not like a message.
pub fn looks_like_path(value: &str) -> (r: bool)
    ensures
        r == path_like(value@),
{
    let v = chars_of(value);
    if find(&v, '\n') < v.len() {
        return false;
    }
    let n: usize = v.len();
    (n > 3 && (('a' <= v[0] && v[0] <= 'z') || ('A' <= v[0] && v[0] <= 'Z')) && v[1] == ':' && (v[2]
        == '\\' || v[2] == '/')) || (n > 0 && v[0] == '/') || (n > 1 && v[0] == '~' && v[1] == '/')
        || (n > 1 && v[0] == '\\' && v[1] == '\\')
}

/// The name of a command and what stands behind it.
pub open spec fn parted(line: Seq<char>) -> (Seq<char>, Seq<char>) {
    let rest = line.drop_first();
    let at = place(rest, ' ');
    (
        lower(rest.take(at)),
        if at < rest.len() {
            trimmed(rest.skip(at + 1))
        } else {
            trimmed(Seq::empty())
        },
    )
}

/// The name of a command and what stands behind it.
fn part_command(line: &str) -> (r: (String, String))
    requires
        line@.len() > 0,
    ensures
        (r.0@, r.1@) == parted(line@),
{
    let all = chars_of(line);
    let rest_text = text_between(&all, 1, all.len());
    assert(rest_text@ =~= line@.drop_first());
    let rest = chars_of(rest_text.as_str());
    let at: usize = find(&rest, ' ');
    let name = text_between(&rest, 0, at);
    assert(name@ =~= rest@.take(at as int));
    let arg = if at < rest.len() {
        let arg = text_between(&rest, at + 1, rest.len());
        assert(arg@ =~= rest@.skip(at + 1));
        arg
    } else {
        String::new()
    };
    assert(at == rest@.len() ==> arg@ =~= Seq::<char>::empty());
    (to_lower(name.as_str()), trim(arg.as_str()))
}

/// Whether a line is a command: a slash begins one, two slashes are a way to send a
/// text that begins with one.
pub open spec fn is_command(line: Seq<char>) -> bool {
    begins(line, "/"@) && !begins(line, "//"@)
}

/// What a command asks for.
#[derive(Debug, Clone, Copy, PartialEq, Eq, Structural)]
pub enum Order {
    Help,
    Quit,
    Menu,
    Clear,
    View,
    Open,
    Send,
    Record,
    Play,
    Stop,
    Save,
    Color,
    Host,
    Join,
    Rooms,
    Nick,
    Unknown,
}

/// What a command asks for, by its name.
pub open spec fn order_named(name: Seq<char>) -> Order {
    if name == "help"@ || name == "?"@ {
        Order::Help
    } else if name == "quit"@ || name == "exit"@ {
        Order::Quit
    } else if name == "menu"@ {
        Order::Menu
    } else if name == "clear"@ {
        Order::Clear
    } else if name == "view"@ {
        Order::View
    } else if name == "open"@ {
        Order::Open
    } else if name == "send"@ {
        Order::Send
    } else if name == "rec"@ {
        Order::Record
    } else if name == "play"@ {
        Order::Play
    } else if name == "stop"@ {
        Order::Stop
    } else if name == "save"@ {
        Order::Save
    } else if name == "color"@ {
        Order::Color
    } else if name == "host"@ {
        Order::Host
    } else if name == "join"@ {
        Order::Join
    } else if name == "rooms"@ {
        Order::Rooms
    } else if name == "nick"@ {
        Order::Nick
    } else {
        Order::Unknown
    }
}

/// What a command asks for, by its name.
fn order_of(name: &str) -> (r: Order)
    ensures
        r == order_named(name@),
{
    if same(name, "help") || same(name, "?") {
        Order::Help
    } else if same(name, "quit") || same(name, "exit") {
        Order::Quit
    } else if same(name, "menu") {
        Order::Menu
    } else if same(name, "clear") {
        Order::Clear
    } else if same(name, "view") {
        Order::View
    } else if same(name, "open") {
        Order::Open
    } else if same(name, "send") {
        Order::Send
    } else if same(name, "rec") {
        Order::Record
    } else if same(name, "play") {
        Order::Play
    } else if same(name, "stop") {
        Order::Stop
    } else if same(name, "save") {
        Order::Save
    } else if same(name, "color") {
        Order::Color
    } else if same(name, "host") {
        Order::Host
    } else if same(name, "join") {
        Order::Join
    } else if same(name, "rooms") {
        Order::Rooms
    } else if same(name, "nick") {
        Order::Nick
    } else {
        Order::Unknown
    }
}

/// Whether a line is a command with a name that is known.
pub open spec fn is_order(line: Seq<char>) -> bool {
    is_command(line) && order_named(parted(line).0) != Order::Unknown
}

/// Tells a command that is known from any other line.
fn names_order(line: &str) -> (r: bool)
    ensures
        r == is_order(line@),
{
    if !starts(line, "/") || starts(line, "//") {
        return false;
    }
    proof {
        reveal_strlit("/");
    }
    let (name, _) = part_command(line);
    order_of(name.as_str()) != Order::Unknown
}

impl StateView {
    /// Asking for the rooms, where the address is one.
    pub open spec fn asking_rooms(world: WorldView) -> Seq<CommandView> {
        match world.endpoint {
            Ok(endpoint) => seq![CommandView::FetchRooms(endpoint.base)],
            Err(_) => Seq::empty(),
        }
    }

    /// The first screen with what is known already.
    pub open spec fn home_screen(self, world: WorldView) -> LoginView {
        LoginView {
            nickname: InputView::of(self.nickname),
            room: InputView::of(self.room),
            server: InputView::of(self.server),
            ..LoginView::fresh(world.now)
        }
    }

    /// Back on the first screen, with the connection given up. The feed stays: whoever
    /// comes back to the room sees where the talk had stopped.
    #[verifier::opaque]
    pub open spec fn at_home(self, world: WorldView) -> Step {
        Step {
            state: StateView {
                screen: ScreenView::Login(self.home_screen(world)),
                status: StatusView::Connecting { attempt: 0 },
                users: Seq::empty(),
                typing: Seq::empty(),
                picking: None,
                replying: None,
                search: None,
                help: false,
                viewer: None,
                browser: None,
                busy: None,
                ..self
            },
            commands: seq![CommandView::Disconnect, CommandView::SaveConfig]
                + StateView::asking_rooms(world),
        }
    }

    pub open spec fn quitting(self) -> Step {
        with(StateView { should_quit: true, ..self }, CommandView::Quit)
    }

    pub open spec fn helping(self) -> StateView {
        StateView { help: true, help_scroll: 0, ..self }
    }

    #[verifier::opaque]
    pub open spec fn cleared(self) -> StateView {
        StateView {
            entries: Seq::empty(),
            seen: Set::empty(),
            thumbnails: Map::empty(),
            scrollback: 0,
            ..self
        }
    }

    /// A server is started here, on the port given or on the usual one.
    #[verifier::opaque]
    pub open spec fn hosting(self, arg: Seq<char>) -> Step {
        let text = trimmed(arg);
        let port = if text.len() == 0 {
            Some(DEFAULT_PORT as int)
        } else {
            port_of(text)
        };
        match port {
            Some(port) => with(
                StateView { busy: Some("поднимаю сервер"@), ..self },
                CommandView::Host(port as u16),
            ),
            None => self.refused("порт — это число, например /host 9000"@),
        }
    }

    /// A name is given a colour, or none where the word was not a colour.
    #[verifier::opaque]
    pub open spec fn painted(
        self,
        nickname: Seq<char>,
        value: Seq<char>,
        color: Option<ColorView>,
    ) -> Step {
        match color {
            Some(color) => with(
                StateView {
                    colors: repainted(self.colors, lower(nickname), color),
                    ..self
                }.told(SystemKind::Info, "цвет "@ + nickname + " теперь "@ + value),
                CommandView::SaveConfig,
            ),
            None => self.refused(
                "не понял цвет "@ + value + ": нужен #rrggbb или название вроде cyan"@,
            ),
        }
    }

    /// A name loses its colour.
    #[verifier::opaque]
    pub open spec fn unpainted(self, nickname: Seq<char>) -> Step {
        with(
            StateView {
                colors: self.colors.filter(other_painted(lower(nickname))),
                ..self
            }.told(SystemKind::Info, "цвет "@ + nickname + " сброшен"@),
            CommandView::SaveConfig,
        )
    }

    /// `/color <colour>` for oneself, `/color <name> <colour>` for somebody else, `-`
    /// for no colour.
    #[verifier::opaque]
    pub open spec fn coloring(self, arg: Seq<char>) -> Step {
        let parts = words(arg);
        if parts.len() == 0 {
            self.refused("нужно так: /color #d97757 или /color bob cyan"@)
        } else {
            let (nickname, value) = if parts.len() == 1 {
                (self.nickname, parts[0])
            } else {
                (parts[0], parts[1])
            };
            if value == "-"@ {
                self.unpainted(nickname)
            } else {
                self.painted(nickname, value, parsed_color(value))
            }
        }
    }

    pub open spec fn connecting(self) -> CommandView {
        CommandView::Connect { nickname: self.nickname, room: self.room, server: self.server }
    }

    /// To another room: the old talk does not belong to it.
    #[verifier::opaque]
    pub open spec fn joining(self, arg: Seq<char>) -> Step {
        match cleaned_room(arg) {
            Err(problem) => self.refused(problem.sentence()),
            Ok(room) => if room == self.room && self.online() {
                quiet(self.told(SystemKind::Info, "вы уже в комнате "@ + room))
            } else {
                let moved = StateView {
                    room,
                    ..self.forgotten().told(SystemKind::Info, "перехожу в комнату "@ + room)
                };
                with(moved, moved.connecting())
            },
        }
    }

    #[verifier::opaque]
    pub open spec fn listing_rooms(self) -> Step {
        if self.media_base.len() == 0 {
            self.refused("неизвестен адрес сервера"@)
        } else {
            with(
                StateView { busy: Some("спрашиваю комнаты"@), ..self },
                CommandView::FetchRooms(self.media_base),
            )
        }
    }

    /// Another name: one enters anew, for the server cannot rename anybody.
    #[verifier::opaque]
    pub open spec fn renaming(self, arg: Seq<char>) -> Step {
        match cleaned_nickname(arg) {
            Err(problem) => self.refused(problem.sentence()),
            Ok(nickname) => if nickname == self.nickname {
                quiet(self)
            } else {
                let renamed = StateView {
                    nickname,
                    ..self.told(SystemKind::Info, "меняю ник на "@ + nickname)
                };
                with(renamed, renamed.connecting())
            },
        }
    }

    /// What comes of a command.
    #[verifier::opaque]
    pub open spec fn ordered(self, line: Seq<char>, world: WorldView) -> Step {
        let (name, arg) = parted(line);
        match order_named(name) {
            Order::Help => quiet(self.helping()),
            Order::Quit => self.quitting(),
            Order::Menu => self.at_home(world),
            Order::Clear => quiet(self.cleared()),
            Order::View => self.view_newest(),
            Order::Open => self.open_newest(),
            Order::Send => self.sending(arg, world),
            Order::Record => with(self, CommandView::ToggleRecording),
            Order::Play => self.play_newest(),
            Order::Stop => with(self, CommandView::StopVoice),
            Order::Save => self.save_newest(arg, world),
            Order::Color => self.coloring(arg),
            Order::Host => self.hosting(arg),
            Order::Join => self.joining(arg),
            Order::Rooms => self.listing_rooms(),
            Order::Nick => self.renaming(arg),
            Order::Unknown => self.refused("неизвестная команда /"@ + name + ", список — /help"@),
        }
    }

    /// The line is remembered and the field is empty.
    pub open spec fn line_taken_off(self, line: Seq<char>) -> StateView {
        StateView { input: InputView::of(Seq::empty()), ..self.sent_line(line) }
    }

    /// A text is said in the room.
    #[verifier::opaque]
    pub open spec fn saying(self, line: Seq<char>) -> Step {
        let body = if begins(line, "/"@) {
            line.drop_first()
        } else {
            line
        };
        match cleaned_text(body) {
            Err(problem) => self.refused(problem.sentence()),
            Ok(text) => if !self.online() {
                self.refused("нет соединения, сообщение не отправлено"@)
            } else {
                with(
                    StateView { typing_sent: None, replying: None, ..self.line_taken_off(line) },
                    CommandView::Send(
                        ClientMessageView::Chat {
                            text,
                            attachment: None,
                            reply_to: match self.replying {
                                Some(target) => Some(target.id),
                                None => None,
                            },
                        },
                    ),
                )
            },
        }
    }

    /// Whether a line is nothing but the path of a file on the disk.
    pub open spec fn drops_file(line: Seq<char>, world: WorldView) -> bool {
        let path = meant_path(line);
        path.len() > 0 && path_like(path) && world.disk == PathKind::File
    }

    /// What comes of the line in the field. A file that was dropped on the window is
    /// pasted as its path: it is sent as a file, though a path may begin as a command
    /// does.
    #[verifier::opaque]
    pub open spec fn submitted(self, world: WorldView) -> Step {
        let line = trimmed(self.input.text);
        if line.len() == 0 {
            quiet(self)
        } else if !is_order(line) && StateView::drops_file(line, world) {
            self.line_taken_off(line).sending(meant_path(line), world)
        } else if is_command(line) {
            self.line_taken_off(line).ordered(line, world)
        } else {
            self.saying(line)
        }
    }

    /// The path in play: the one that the line in the field names.
    pub open spec fn path_in_play(self) -> Option<Seq<char>> {
        let line = trimmed(self.input.text);
        if line.len() == 0 {
            None
        } else if is_order(line) {
            let (name, arg) = parted(line);
            if order_named(name) == Order::Save && meant_path(arg).len() > 0 {
                Some(meant_path(arg))
            } else {
                None
            }
        } else if meant_path(line).len() > 0 && path_like(meant_path(line)) {
            Some(meant_path(line))
        } else {
            None
        }
    }

    /// The others are told that one is typing, but no more often than needed.
    #[verifier::opaque]
    pub open spec fn typing_announced(self, now: u64) -> Step {
        let soon = self.typing_sent matches Some(last) && now - last < TYPING_EVERY;
        if !self.online() || soon {
            quiet(self)
        } else {
            with(
                StateView { typing_sent: Some(now), ..self },
                CommandView::Send(ClientMessageView::Typing),
            )
        }
    }
}

impl State {
    /// Asks for the rooms, where the address is one.
    pub fn rooms_fetch(world: &World) -> (commands: Vec<Command>)
        ensures
            commands.deep_view() == StateView::asking_rooms(world.deep_view()),
    {
        match &world.endpoint {
            Ok(endpoint) => only(Command::FetchRooms(endpoint.base.clone())),
            Err(_) => nothing(),
        }
    }

    /// The first screen with what is known already.
    pub fn home_login(&self, world: &World) -> (r: Login)
        ensures
            r.deep_view() == self.deep_view().home_screen(world.deep_view()),
    {
        let mut login = Login::new(world.now);
        login.nickname = Input::new(self.nickname.as_str());
        login.room = Input::new(self.room.as_str());
        login.server = Input::new(self.server.as_str());
        login
    }

    /// Back to the first screen. The connection is given up: whoever stands in the
    /// menu is not in the room, and must not be shown there.
    pub fn to_home(&mut self, world: &World) -> (commands: Vec<Command>)
        requires
            old(self).deep_view().wf(),
        ensures
            step_of(*final(self), commands) == old(self).deep_view().at_home(world.deep_view()),
            final(self).deep_view().wf(),
    {
        proof {
            reveal(StateView::at_home);
        }
        let login = self.home_login(world);
        self.screen = Screen::Login(login);
        self.status = Status::Connecting { attempt: 0 };
        self.users.clear();
        self.typing.clear();
        self.picking = None;
        self.replying = None;
        self.search = None;
        self.help = false;
        self.viewer = None;
        self.browser = None;
        self.busy = None;
        assert(self.users.deep_view() =~= Seq::<UserInfoView>::empty());
        assert(self.typing.deep_view() =~= Seq::<TypistView>::empty());
        let mut commands = both(Command::Disconnect, Command::SaveConfig);
        let ghost first = commands.deep_view();
        let mut more = State::rooms_fetch(world);
        let ghost rest = more.deep_view();
        commands.append(&mut more);
        assert(commands.deep_view() =~= first + rest);
        commands
    }

    pub fn quit(&mut self) -> (commands: Vec<Command>)
        requires
            old(self).deep_view().wf(),
        ensures
            step_of(*final(self), commands) == old(self).deep_view().quitting(),
            final(self).deep_view().wf(),
    {
        self.should_quit = true;
        only(Command::Quit)
    }

    pub fn show_help(&mut self)
        requires
            old(self).deep_view().wf(),
        ensures
            final(self).deep_view() == old(self).deep_view().helping(),
            final(self).deep_view().wf(),
    {
        self.help = true;
        self.help_scroll = 0;
    }

    /// Empties the feed.
    fn clear(&mut self)
        requires
            old(self).deep_view().wf(),
        ensures
            final(self).deep_view() == old(self).deep_view().cleared(),
            final(self).deep_view().wf(),
    {
        proof {
            reveal(StateView::cleared);
        }
        self.entries.clear();
        self.seen.clear();
        self.thumbnails.clear();
        self.scrollback = 0;
        assert(self.entries.deep_view() =~= Seq::<crate::state::EntryView>::empty());
        assert(crate::state::map_view(self.thumbnails) =~= Map::<u128, ThumbnailView>::empty());
    }

    /// Starts a server right here.
    fn host_command(&mut self, arg: &str) -> (commands: Vec<Command>)
        requires
            old(self).deep_view().wf(),
        ensures
            step_of(*final(self), commands) == old(self).deep_view().hosting(arg@),
            final(self).deep_view().wf(),
    {
        proof {
            reveal(StateView::hosting);
        }
        let text = trim(arg);
        let port: u16 = if text.as_str().is_empty() {
            DEFAULT_PORT
        } else {
            match parse_port(text.as_str()) {
                Some(port) => port,
                None => {
                    return self.refuse("порт — это число, например /host 9000");
                },
            }
        };
        self.busy = Some("поднимаю сервер".to_owned());
        only(Command::Host(port))
    }

    /// Gives a name the colour that was read from a word, or says that it was none.
    pub fn set_color(&mut self, nickname: &str, value: &str, color: Option<Color>) -> (commands:
        Vec<Command>)
        requires
            old(self).deep_view().wf(),
        ensures
            step_of(*final(self), commands) == old(self).deep_view().painted(
                nickname@,
                value@,
                color.deep_view(),
            ),
            final(self).deep_view().wf(),
    {
        proof {
            reveal(StateView::painted);
        }
        match color {
            Some(color) => {
                paint(&mut self.colors, nickname_key(nickname), color);
                let mut words = glue3("цвет ", nickname, " теперь ");
                words.append(value);
                self.system(SystemKind::Info, words.as_str());
                only(Command::SaveConfig)
            },
            None => self.refuse(
                glue3(
                    "не понял цвет ",
                    value,
                    ": нужен #rrggbb или название вроде cyan",
                ).as_str(),
            ),
        }
    }

    /// Takes its colour from a name.
    fn reset_color(&mut self, nickname: &str) -> (commands: Vec<Command>)
        requires
            old(self).deep_view().wf(),
        ensures
            step_of(*final(self), commands) == old(self).deep_view().unpainted(nickname@),
            final(self).deep_view().wf(),
    {
        proof {
            reveal(StateView::unpainted);
        }
        let key = nickname_key(nickname);
        unpaint(&mut self.colors, key.as_str());
        self.system(SystemKind::Info, glue3("цвет ", nickname, " сброшен").as_str());
        only(Command::SaveConfig)
    }

    /// Gives a name a colour.
    fn color_command(&mut self, arg: &str) -> (commands: Vec<Command>)
        requires
            old(self).deep_view().wf(),
        ensures
            step_of(*final(self), commands) == old(self).deep_view().coloring(arg@),
            final(self).deep_view().wf(),
    {
        proof {
            reveal(StateView::coloring);
        }
        let parts = split_words(arg);
        assert(parts.deep_view().len() == parts@.len());
        if parts.len() == 0 {
            return self.refuse("нужно так: /color #d97757 или /color bob cyan");
        }
        assert(parts.deep_view()[0] == parts@[0].deep_view());
        let (nickname, value) = if parts.len() == 1 {
            (self.nickname.clone(), parts[0].clone())
        } else {
            assert(parts.deep_view()[1] == parts@[1].deep_view());
            (parts[0].clone(), parts[1].clone())
        };
        if same(value.as_str(), "-") {
            self.reset_color(nickname.as_str())
        } else {
            let color = parse_color(value.as_str());
            self.set_color(nickname.as_str(), value.as_str(), color)
        }
    }

    /// Connects with what is known.
    pub fn connect(&self) -> (r: Command)
        ensures
            r.deep_view() == self.deep_view().connecting(),
    {
        Command::Connect {
            nickname: self.nickname.clone(),
            room: self.room.clone(),
            server: self.server.clone(),
        }
    }

    /// Goes to another room.
    fn join_command(&mut self, arg: &str) -> (commands: Vec<Command>)
        requires
            old(self).deep_view().wf(),
        ensures
            step_of(*final(self), commands) == old(self).deep_view().joining(arg@),
            final(self).deep_view().wf(),
    {
        proof {
            reveal(StateView::joining);
        }
        let room = match clean_room(arg) {
            Ok(room) => room,
            Err(err) => {
                return self.refuse(err.sentence().as_str());
            },
        };
        if same(room.as_str(), self.room.as_str()) && self.is_online() {
            self.system(SystemKind::Info, glue("вы уже в комнате ", room.as_str()).as_str());
            return nothing();
        }
        self.forget_room();
        self.system(SystemKind::Info, glue("перехожу в комнату ", room.as_str()).as_str());
        self.room = room;
        only(self.connect())
    }

    /// Asks which rooms are alive on the server.
    fn rooms_command(&mut self) -> (commands: Vec<Command>)
        requires
            old(self).deep_view().wf(),
        ensures
            step_of(*final(self), commands) == old(self).deep_view().listing_rooms(),
            final(self).deep_view().wf(),
    {
        proof {
            reveal(StateView::listing_rooms);
        }
        if self.media_base.as_str().is_empty() {
            return self.refuse("неизвестен адрес сервера");
        }
        self.busy = Some("спрашиваю комнаты".to_owned());
        only(Command::FetchRooms(self.media_base.clone()))
    }

    /// Takes another name.
    fn nick_command(&mut self, arg: &str) -> (commands: Vec<Command>)
        requires
            old(self).deep_view().wf(),
        ensures
            step_of(*final(self), commands) == old(self).deep_view().renaming(arg@),
            final(self).deep_view().wf(),
    {
        proof {
            reveal(StateView::renaming);
        }
        let nickname = match clean_nickname(arg) {
            Ok(nickname) => nickname,
            Err(err) => {
                return self.refuse(err.sentence().as_str());
            },
        };
        if same(nickname.as_str(), self.nickname.as_str()) {
            return nothing();
        }
        self.system(SystemKind::Info, glue("меняю ник на ", nickname.as_str()).as_str());
        self.nickname = nickname;
        only(self.connect())
    }

    /// Does what a command asks for.
    pub fn run_command(&mut self, line: &str, world: &World) -> (commands: Vec<Command>)
        requires
            old(self).deep_view().wf(),
            line@.len() > 0,
        ensures
            step_of(*final(self), commands) == old(self).deep_view().ordered(
                line@,
                world.deep_view(),
            ),
            final(self).deep_view().wf(),
    {
        proof {
            reveal(StateView::ordered);
        }
        let (name, arg) = part_command(line);
        match order_of(name.as_str()) {
            Order::Help => {
                self.show_help();
                nothing()
            },
            Order::Quit => self.quit(),
            Order::Menu => self.to_home(world),
            Order::Clear => {
                self.clear();
                nothing()
            },
            Order::View => self.view_command(),
            Order::Open => self.open_command(),
            Order::Send => self.send_command(arg.as_str(), world),
            Order::Record => only(Command::ToggleRecording),
            Order::Play => self.play_command(),
            Order::Stop => only(Command::StopVoice),
            Order::Save => self.save_command(arg.as_str(), world),
            Order::Color => self.color_command(arg.as_str()),
            Order::Host => self.host_command(arg.as_str()),
            Order::Join => self.join_command(arg.as_str()),
            Order::Rooms => self.rooms_command(),
            Order::Nick => self.nick_command(arg.as_str()),
            Order::Unknown => self.refuse(
                glue3("неизвестная команда /", name.as_str(), ", список — /help").as_str(),
            ),
        }
    }

    /// Remembers the line and empties the field.
    fn take_line_off(&mut self, line: &str)
        requires
            old(self).deep_view().wf(),
            old(self).completion is None,
        ensures
            final(self).deep_view() == old(self).deep_view().line_taken_off(line@),
            final(self).deep_view().wf(),
            final(self).completion is None,
    {
        self.remember_sent(line);
        self.input.clear();
    }

    /// Says a text in the room.
    fn say(&mut self, line: &str) -> (commands: Vec<Command>)
        requires
            old(self).deep_view().wf(),
            old(self).completion is None,
        ensures
            step_of(*final(self), commands) == old(self).deep_view().saying(line@),
            final(self).deep_view().wf(),
    {
        proof {
            reveal(StateView::saying);
        }
        let all = chars_of(line);
        let body = if starts(line, "/") {
            proof {
                reveal_strlit("/");
            }
            let body = text_between(&all, 1, all.len());
            assert(body@ =~= line@.drop_first());
            body
        } else {
            line.to_owned()
        };
        let text = match clean_text(body.as_str()) {
            Ok(text) => text,
            Err(err) => {
                return self.refuse(err.sentence().as_str());
            },
        };
        if !self.is_online() {
            // The field is left as it is: what was typed must not get lost.
            return self.refuse("нет соединения, сообщение не отправлено");
        }
        self.take_line_off(line);
        self.typing_sent = None;
        let reply_to = match &self.replying {
            Some(target) => Some(target.id),
            None => None,
        };
        self.replying = None;
        only(Command::Send(ClientMessage::Chat { text, attachment: None, reply_to }))
    }

    /// Does what the line in the field asks for.
    pub fn submit(&mut self, world: &World) -> (commands: Vec<Command>)
        requires
            old(self).deep_view().wf(),
            old(self).completion is None,
        ensures
            step_of(*final(self), commands) == old(self).deep_view().submitted(
                world.deep_view(),
            ),
            final(self).deep_view().wf(),
    {
        proof {
            reveal(StateView::submitted);
        }
        let line = trim(self.input.text.as_str());
        if line.as_str().is_empty() {
            return nothing();
        }
        let dropped = clean_path(line.as_str());
        if world.disk == PathKind::File && !dropped.as_str().is_empty() && looks_like_path(
            dropped.as_str(),
        ) && !names_order(line.as_str()) {
            self.take_line_off(line.as_str());
            return self.send_command(dropped.as_str(), world);
        }
        if starts(line.as_str(), "/") && !starts(line.as_str(), "//") {
            self.take_line_off(line.as_str());
            return self.run_command(line.as_str(), world);
        }
        self.say(line.as_str())
    }

    /// The path that the line in the field names. Whoever may touch the disk says what
    /// it leads to before the line is taken.
    pub fn path_to_check(&self) -> (r: Option<String>)
        ensures
            r.deep_view() == self.deep_view().path_in_play(),
    {
        let line = trim(self.input.text.as_str());
        if line.as_str().is_empty() {
            return None;
        }
        if names_order(line.as_str()) {
            let (name, arg) = part_command(line.as_str());
            let path = clean_path(arg.as_str());
            return if order_of(name.as_str()) == Order::Save && !path.as_str().is_empty() {
                Some(path)
            } else {
                None
            };
        }
        let dropped = clean_path(line.as_str());
        if !dropped.as_str().is_empty() && looks_like_path(dropped.as_str()) {
            Some(dropped)
        } else {
            None
        }
    }

    /// Tells the others that one is typing.
    pub fn announce_typing(&mut self, now: u64) -> (commands: Vec<Command>)
        requires
            old(self).deep_view().wf(),
        ensures
            step_of(*final(self), commands) == old(self).deep_view().typing_announced(now),
            final(self).deep_view().wf(),
    {
        proof {
            reveal(StateView::typing_announced);
        }
        if !self.is_online() {
            return nothing();
        }
        let soon = match self.typing_sent {
            Some(last) => now < last || now - last < TYPING_EVERY,
            None => false,
        };
        if soon {
            return nothing();
        }
        self.typing_sent = Some(now);
        only(Command::Send(ClientMessage::Typing))
    }
}

} // verus!
