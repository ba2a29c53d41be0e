//! The keys in a room.
use crate::input::{back_over_word, edit_key, Input, InputView};
use crate::keys::{KeyCode, KeyEvent};
use crate::protocol::UserInfoView;
use crate::seqs::lemma_filter_step;
use crate::state::{
    nothing, only, quiet, step_of, with, Command, CommandView, Completion, CompletionView, Pick,
    PickMode, Search, SearchView, State, StateView, Step, World, WorldView, SCROLL_STEP,
};
use crate::text::{
    begins, chars_of, glue, lower, starts, text_between, to_lower, white,
};
use crate::validate::{nickname_key, MAX_TEXT_CHARS};
use crate::walk::less;
use vstd::prelude::*;
use vstd::string::*;

verus! {

/// How many lines the help has.
pub const HELP_LINES: usize = 28;

/// The commands that Tab completes, in the order of the help.
pub open spec fn command_names() -> Seq<Seq<char>> {
    seq![
        "/help"@,
        "/join"@,
        "/rooms"@,
        "/nick"@,
        "/send"@,
        "/view"@,
        "/play"@,
        "/stop"@,
        "/save"@,
        "/open"@,
        "/color"@,
        "/clear"@,
        "/host"@,
        "/menu"@,
        "/rec"@,
        "/quit"@,
    ]
}

/// The commands that Tab completes.
fn all_commands() -> (r: Vec<&'static str>)
    ensures
        r.deep_view() == command_names(),
{
    let r: Vec<&'static str> = vec![
        "/help", "/join", "/rooms", "/nick", "/send", "/view", "/play", "/stop", "/save", "/open",
        "/color", "/clear", "/host", "/menu", "/rec", "/quit",
    ];
    assert(r.deep_view() =~= command_names());
    r
}

/// Whether a word begins like this.
pub open spec fn begins_like(needle: Seq<char>) -> spec_fn(Seq<char>) -> bool {
    |name: Seq<char>| begins(name, needle)
}

/// Whether a name begins like this, whatever the case of the letters.
pub open spec fn named_like(needle: Seq<char>) -> spec_fn(UserInfoView) -> bool {
    |u: UserInfoView| begins(lower(u.nickname), needle)
}

impl StateView {
    /// The word that is completed and where it begins: what was typed before the first
    /// Tab, or the word in front of the cursor.
    pub open spec fn completing(self) -> (Seq<char>, int) {
        match self.completion {
            Some(completion) => (completion.prefix, completion.at as int),
            None => {
                let at = back_over_word(self.input.text, self.input.cursor);
                (self.input.text.subrange(at, self.input.cursor), at)
            },
        }
    }

    /// Whether the word is a command: it stands first in the line, with a slash.
    pub open spec fn completes_command(self) -> bool {
        let (prefix, at) = self.completing();
        at == 0 && begins(prefix, "/"@)
    }

    /// The words that the completion goes through.
    pub open spec fn candidates(self) -> Seq<Seq<char>> {
        let (prefix, at) = self.completing();
        if self.completes_command() {
            command_names().filter(begins_like(lower(prefix)))
        } else {
            self.users.filter(named_like(lower(prefix))).map_values(|u: UserInfoView| u.nickname)
        }
    }

    /// With the word completed. Another Tab goes on to the next way to do it. At the
    /// beginning of a line somebody is addressed with a comma.
    #[verifier::opaque]
    pub open spec fn completed(self) -> StateView {
        let (prefix, at) = self.completing();
        let found = self.candidates();
        if prefix.len() == 0 || found.len() == 0 {
            self
        } else {
            let index = match self.completion {
                Some(completion) => (completion.index + 1) % (found.len() as int),
                None => 0,
            };
            let word = found[index] + if self.completes_command() || at > 0 {
                " "@
            } else {
                ", "@
            };
            StateView {
                input: InputView {
                    text: self.input.text.take(at) + word + self.input.text.skip(
                        self.input.cursor,
                    ),
                    cursor: at + word.len(),
                },
                completion: Some(
                    CompletionView { prefix, at: at as usize, index: index as usize },
                ),
                ..self
            }
        }
    }

    /// A key while the help is open: arrows turn its pages, anything else closes it.
    #[verifier::opaque]
    pub open spec fn help_key(self, key: KeyEvent) -> StateView {
        match key.code {
            KeyCode::Down => StateView { help_scroll: self.help_turned(1), ..self },
            KeyCode::PageDown => StateView {
                help_scroll: self.help_turned(SCROLL_STEP as int),
                ..self
            },
            KeyCode::Up => StateView {
                help_scroll: less(self.help_scroll as int, 1) as usize,
                ..self
            },
            KeyCode::PageUp => StateView {
                help_scroll: less(self.help_scroll as int, SCROLL_STEP as int) as usize,
                ..self
            },
            _ => StateView { help: false, ..self },
        }
    }

    pub open spec fn help_turned(self, lines: int) -> usize {
        (if self.help_scroll + lines < HELP_LINES {
            self.help_scroll + lines
        } else {
            HELP_LINES as int
        }) as usize
    }

    /// Whether a key closes the program: Ctrl with `c`, `d` or `q`.
    pub open spec fn closing(key: KeyEvent) -> bool {
        key.ctrl && (key.code == KeyCode::Char('c') || key.code == KeyCode::Char('d') || key.code
            == KeyCode::Char('q'))
    }

    /// A key while the feed is searched. A shortcut closes the program whether or not
    /// anything is searched for.
    #[verifier::opaque]
    pub open spec fn search_key(self, key: KeyEvent) -> Step {
        if key.code == KeyCode::Esc {
            quiet(StateView { search: None, ..self })
        } else if StateView::closing(key) {
            self.quitting()
        } else if key.code == KeyCode::Enter || key.code == KeyCode::Down {
            quiet(self.match_stepped(true))
        } else if key.code == KeyCode::Up {
            quiet(self.match_stepped(false))
        } else {
            quiet(self.query_edited(key))
        }
    }

    /// A key that edits what is searched for: the matches follow it.
    pub open spec fn query_edited(self, key: KeyEvent) -> StateView {
        match self.search {
            None => self,
            Some(search) => match search.query.edited(key, MAX_TEXT_CHARS as int) {
                Some(query) => StateView {
                    search: Some(SearchView { query, ..search }),
                    ..self
                }.matches_refreshed(),
                None => self,
            },
        }
    }

    /// What is lit is taken: it is answered, or its attachment is shown, played or
    /// kept.
    #[verifier::opaque]
    pub open spec fn pick_taken(self, pick: Pick, world: WorldView) -> Step {
        let free = StateView { picking: None, ..self };
        match pick.mode {
            PickMode::Reply => quiet(free.answering(pick.index as int)),
            PickMode::Attachment => free.acted_on(pick.index as int, world),
        }
    }

    /// A key that names what to do with the attachment that is lit.
    #[verifier::opaque]
    pub open spec fn pick_named(self, number: u8, pick: Pick, world: WorldView) -> Step {
        let free = StateView { picking: None, ..self };
        match free.attachment_at(pick.index as int) {
            None => quiet(free),
            Some(a) => if number == 3 {
                free.played(a)
            } else if number == 5 {
                free.saved(a, Seq::empty(), world)
            } else {
                free.opened(a)
            },
        }
    }

    /// A key while one walks through the feed.
    #[verifier::opaque]
    pub open spec fn picking_key(self, pick: Pick, key: KeyEvent, world: WorldView) -> Step {
        if key.code == KeyCode::Esc {
            quiet(StateView { picking: None, ..self })
        } else if StateView::closing(key) {
            self.quitting()
        } else if key.code == KeyCode::Enter || (key.ctrl && key.code == KeyCode::Char('r')) {
            self.pick_taken(pick, world)
        } else {
            match key.code {
                KeyCode::Up => quiet(self.walked(pick.index as int, false, pick.mode)),
                KeyCode::Down => quiet(self.walked(pick.index as int, true, pick.mode)),
                KeyCode::F(number) => if pick.mode == PickMode::Attachment && (number == 3
                    || number == 5 || number == 6) {
                    self.pick_named(number, pick, world)
                } else {
                    quiet(self)
                },
                _ => quiet(self),
            }
        }
    }

    /// A key of the upper row: what one opens a chat for is done by one key.
    #[verifier::opaque]
    pub open spec fn function_key(self, number: u8, world: WorldView) -> Step {
        if number == 1 {
            quiet(self.helping())
        } else if number == 2 {
            with(self, CommandView::ToggleRecording)
        } else if number == 3 {
            if self.playing {
                with(self, CommandView::StopVoice)
            } else {
                self.play_newest()
            }
        } else if number == 4 {
            self.sending(Seq::empty(), world)
        } else if number == 5 {
            self.save_newest(Seq::empty(), world)
        } else if number == 6 {
            self.open_newest()
        } else if number == 7 {
            quiet(self.walk_started(PickMode::Attachment))
        } else {
            quiet(self)
        }
    }

    /// A key that edits the line.
    #[verifier::opaque]
    pub open spec fn editing_key(self, key: KeyEvent, now: u64) -> Step {
        match self.input.edited(key, MAX_TEXT_CHARS as int) {
            Some(input) => {
                let edited = StateView { input, ..self };
                if input.text.len() > 0 {
                    edited.typing_announced(now)
                } else {
                    quiet(edited)
                }
            },
            None => quiet(self),
        }
    }

    /// A letter with Ctrl.
    #[verifier::opaque]
    pub open spec fn control_key(self, key: KeyEvent, ch: char, world: WorldView) -> Step {
        if ch == 'f' {
            quiet(
                StateView {
                    search: Some(
                        SearchView {
                            query: InputView::of(Seq::empty()),
                            matches: Seq::empty(),
                            current: 0,
                        },
                    ),
                    ..self
                },
            )
        } else if ch == 'r' {
            quiet(self.picking_toggled())
        } else if ch == 'o' {
            self.sending(Seq::empty(), world)
        } else if ch == 'p' {
            with(StateView { sidebar: !self.sidebar, ..self }, CommandView::SaveConfig)
        } else if ch == 'c' || ch == 'd' || ch == 'q' {
            self.quitting()
        } else {
            self.editing_key(key, world.now)
        }
    }

    /// A key where nothing is open above the feed.
    pub open spec fn plain_key(self, key: KeyEvent, world: WorldView) -> Step {
        match key.code {
            KeyCode::Tab => quiet(self.completed()),
            _ => StateView { completion: None, ..self }.line_key(key, world),
        }
    }

    /// A key for the line, other than Tab.
    #[verifier::opaque]
    pub open spec fn line_key(self, key: KeyEvent, world: WorldView) -> Step {
        match key.code {
            KeyCode::Char(ch) => if key.ctrl {
                self.control_key(key, ch, world)
            } else {
                self.editing_key(key, world.now)
            },
            KeyCode::F(number) => self.function_key(number, world),
            KeyCode::Esc => if self.replying is Some {
                quiet(StateView { replying: None, ..self })
            } else {
                self.at_home(world)
            },
            KeyCode::Enter => self.submitted(world),
            KeyCode::Up => quiet(self.recalled(true)),
            KeyCode::Down => quiet(self.recalled(false)),
            KeyCode::PageUp => quiet(self.scrolled(SCROLL_STEP as int)),
            KeyCode::PageDown => quiet(self.scrolled(-(SCROLL_STEP as int))),
            _ => self.editing_key(key, world.now),
        }
    }

    /// A key in a room: whatever is open above the feed gets it first.
    #[verifier::opaque]
    pub open spec fn chat_key(self, key: KeyEvent, world: WorldView) -> Step {
        if self.viewer is Some {
            if key.code == KeyCode::Esc || key.code == KeyCode::Enter || key.code == KeyCode::Char(
                'q',
            ) {
                quiet(StateView { viewer: None, ..self })
            } else {
                quiet(self)
            }
        } else if self.browser is Some {
            self.browser_key(key, world)
        } else if self.help {
            quiet(self.help_key(key))
        } else if self.search is Some {
            self.search_key(key)
        } else {
            match self.picking {
                Some(pick) => self.picking_key(pick, key, world),
                None => self.plain_key(key, world),
            }
        }
    }
}

/// The word that is completed begins in front of the cursor.
pub proof fn lemma_completing_inside(state: StateView)
    requires
        state.wf(),
    ensures
        0 <= state.completing().1 <= state.input.cursor,
{
    crate::input::lemma_back(state.input.text, state.input.cursor);
}

/// Whether a key closes the program.
fn closes(key: KeyEvent) -> (r: bool)
    ensures
        r == StateView::closing(key),
{
    key.ctrl && (key.code == KeyCode::Char('c') || key.code == KeyCode::Char('d') || key.code
        == KeyCode::Char('q'))
}

/// The commands that begin like this.
#[verifier::loop_isolation(false)]
fn commands_like(needle: &str) -> (r: Vec<String>)
    ensures
        r.deep_view() == command_names().filter(begins_like(needle@)),
{
    let names = all_commands();
    let ghost all = command_names();
    let ghost test = begins_like(needle@);
    let mut r: Vec<String> = Vec::new();
    let mut i: usize = 0;
    proof {
        reveal(Seq::filter);
        assert(all.take(0).filter(test) =~= Seq::<Seq<char>>::empty());
        assert(r.deep_view() =~= all.take(0).filter(test));
        assert(names.deep_view().len() == names@.len());
    }
    while i < names.len()
        invariant
            i <= names@.len(),
            r.deep_view() == all.take(i as int).filter(test),
        decreases names@.len() - i,
    {
        let ghost before = r.deep_view();
        proof {
            assert(names.deep_view()[i as int] == names@[i as int].deep_view());
            lemma_filter_step(all, i as int, test);
        }
        if starts(names[i], needle) {
            r.push(names[i].to_owned());
            assert(r.deep_view() =~= before.push(all[i as int]));
        }
        i = i + 1;
    }
    assert(all.take(all.len() as int) =~= all);
    r
}

/// The first position of the word in front of a position.
#[verifier::loop_isolation(false)]
fn word_start(v: &Vec<char>, cursor: usize) -> (at: usize)
    requires
        cursor <= v@.len(),
    ensures
        at == back_over_word(v@, cursor as int),
        at <= cursor,
{
    let mut at: usize = cursor;
    while at > 0 && !white(v[at - 1])
        invariant
            at <= cursor,
            back_over_word(v@, cursor as int) == back_over_word(v@, at as int),
        decreases at,
    {
        at = at - 1;
    }
    at
}

/// Puts a word in place of what stands between a position and the cursor.
fn put_word(input: &mut Input, at: usize, word: &str)
    requires
        old(input).deep_view().wf(),
        at <= old(input).cursor,
    ensures
        final(input).deep_view() == (InputView {
            text: old(input).text@.take(at as int) + word@ + old(input).text@.skip(
                old(input).cursor as int,
            ),
            cursor: at + word@.len(),
        }),
{
    let v = chars_of(input.text.as_str());
    let mut text = text_between(&v, 0, at);
    text.append(word);
    text.append(text_between(&v, input.cursor, v.len()).as_str());
    assert(text@ =~= input.text@.take(at as int) + word@ + input.text@.skip(input.cursor as int));
    let all: usize = text.as_str().unicode_len();
    let long: usize = word.unicode_len();
    input.text = text;
    input.cursor = at + long;
}

impl State {
    /// The people whose names begin like this.
    #[verifier::loop_isolation(false)]
    fn people_like(&self, needle: &str) -> (r: Vec<String>)
        ensures
            r.deep_view() == self.deep_view().users.filter(named_like(needle@)).map_values(
                |u: UserInfoView| u.nickname,
            ),
    {
        let ghost all = self.users.deep_view();
        let ghost test = named_like(needle@);
        let ghost name = |u: UserInfoView| u.nickname;
        let mut r: Vec<String> = Vec::new();
        let mut i: usize = 0;
        proof {
            reveal(Seq::filter);
            assert(all.take(0).filter(test) =~= Seq::<UserInfoView>::empty());
            assert(r.deep_view() =~= all.take(0).filter(test).map_values(name));
        }
        while i < self.users.len()
            invariant
                i <= self.users@.len(),
                r.deep_view() == all.take(i as int).filter(test).map_values(name),
            decreases self.users@.len() - i,
        {
            let user = &self.users[i];
            let ghost before = r.deep_view();
            proof {
                assert(all[i as int] == user.deep_view());
                lemma_filter_step(all, i as int, test);
            }
            if starts(nickname_key(user.nickname.as_str()).as_str(), needle) {
                r.push(user.nickname.clone());
                proof {
                    let taken = all.take(i as int).filter(test);
                    assert(r.deep_view() =~= before.push(user.nickname@));
                    assert(taken.push(all[i as int]).map_values(name) =~= taken.map_values(
                        name,
                    ).push(user.nickname@));
                }
            }
            i = i + 1;
        }
        assert(all.take(all.len() as int) =~= all);
        r
    }

    /// The word that is completed and where it begins.
    fn word_to_complete(&self) -> (r: (String, usize))
        requires
            self.deep_view().wf(),
        ensures
            (r.0@, r.1 as int) == self.deep_view().completing(),
            r.1 <= self.input.cursor,
    {
        match &self.completion {
            Some(completion) => (completion.prefix.clone(), completion.at),
            None => {
                let v = chars_of(self.input.text.as_str());
                let at: usize = word_start(&v, self.input.cursor);
                let prefix = text_between(&v, at, self.input.cursor);
                (prefix, at)
            },
        }
    }

    /// The words that the completion goes through.
    fn find_candidates(&self, prefix: &str, at: usize) -> (r: Vec<String>)
        requires
            (prefix@, at as int) == self.deep_view().completing(),
        ensures
            r.deep_view() == self.deep_view().candidates(),
    {
        if at == 0 && starts(prefix, "/") {
            commands_like(to_lower(prefix).as_str())
        } else {
            self.people_like(nickname_key(prefix).as_str())
        }
    }

    /// Completes a word.
    pub fn complete(&mut self)
        requires
            old(self).deep_view().wf(),
        ensures
            final(self).deep_view() == old(self).deep_view().completed(),
            final(self).deep_view().wf(),
    {
        proof {
            reveal(StateView::completed);
        }
        let ghost before = self.deep_view();
        let (prefix, at) = self.word_to_complete();
        let found = self.find_candidates(prefix.as_str(), at);
        assert(found.deep_view().len() == found@.len());
        if prefix.as_str().is_empty() || found.len() == 0 {
            return;
        }
        let index: usize = match &self.completion {
            Some(completion) => (completion.index + 1) % found.len(),
            None => 0,
        };
        assert(found.deep_view()[index as int] == found@[index as int].deep_view());
        let suffix = if at > 0 || starts(prefix.as_str(), "/") {
            " "
        } else {
            ", "
        };
        let word = glue(found[index].as_str(), suffix);
        put_word(&mut self.input, at, word.as_str());
        self.completion = Some(Completion { prefix, at, index });
    }

    /// A key while the help is open.
    fn on_help_key(&mut self, key: KeyEvent)
        requires
            old(self).deep_view().wf(),
        ensures
            final(self).deep_view() == old(self).deep_view().help_key(key),
            final(self).deep_view().wf(),
    {
        proof {
            reveal(StateView::help_key);
        }
        match key.code {
            KeyCode::Down => {
                self.help_scroll = if self.help_scroll < HELP_LINES {
                    self.help_scroll + 1
                } else {
                    HELP_LINES
                };
            },
            KeyCode::PageDown => {
                self.help_scroll = if self.help_scroll < HELP_LINES - SCROLL_STEP {
                    self.help_scroll + SCROLL_STEP
                } else {
                    HELP_LINES
                };
            },
            KeyCode::Up => {
                self.help_scroll = if self.help_scroll > 0 {
                    self.help_scroll - 1
                } else {
                    0
                };
            },
            KeyCode::PageUp => {
                self.help_scroll = if self.help_scroll > SCROLL_STEP {
                    self.help_scroll - SCROLL_STEP
                } else {
                    0
                };
            },
            _ => {
                self.help = false;
            },
        }
    }

    /// A key for what is searched for.
    fn on_query_key(&mut self, key: KeyEvent)
        requires
            old(self).deep_view().wf(),
        ensures
            final(self).deep_view() == old(self).deep_view().query_edited(key),
            final(self).deep_view().wf(),
    {
        let edited = match &mut self.search {
            Some(search) => edit_key(&mut search.query, key, MAX_TEXT_CHARS),
            None => false,
        };
        if edited {
            self.refresh_matches();
        }
    }

    /// A key while the feed is searched.
    pub fn on_search_key(&mut self, key: KeyEvent) -> (commands: Vec<Command>)
        requires
            old(self).deep_view().wf(),
        ensures
            step_of(*final(self), commands) == old(self).deep_view().search_key(key),
            final(self).deep_view().wf(),
    {
        proof {
            reveal(StateView::search_key);
        }
        if key.code == KeyCode::Esc {
            self.search = None;
            return nothing();
        }
        if closes(key) {
            return self.quit();
        }
        if key.code == KeyCode::Enter || key.code == KeyCode::Down {
            self.step_match(true);
        } else if key.code == KeyCode::Up {
            self.step_match(false);
        } else {
            self.on_query_key(key);
        }
        nothing()
    }

    /// Takes what is lit.
    fn take_pick(&mut self, pick: Pick, world: &World) -> (commands: Vec<Command>)
        requires
            old(self).deep_view().wf(),
        ensures
            step_of(*final(self), commands) == old(self).deep_view().pick_taken(
                pick,
                world.deep_view(),
            ),
            final(self).deep_view().wf(),
    {
        proof {
            reveal(StateView::pick_taken);
        }
        self.picking = None;
        match pick.mode {
            PickMode::Reply => {
                self.confirm_reply(pick.index);
                nothing()
            },
            PickMode::Attachment => self.act_on_picked(pick.index, world),
        }
    }

    /// A key that names what to do with the attachment that is lit.
    fn name_pick(&mut self, number: u8, pick: Pick, world: &World) -> (commands: Vec<Command>)
        requires
            old(self).deep_view().wf(),
        ensures
            step_of(*final(self), commands) == old(self).deep_view().pick_named(
                number,
                pick,
                world.deep_view(),
            ),
            final(self).deep_view().wf(),
    {
        proof {
            reveal(StateView::pick_named);
        }
        self.picking = None;
        if number == 3 {
            self.play_picked(pick.index)
        } else if number == 5 {
            self.save_picked(pick.index, world)
        } else {
            self.open_picked(pick.index)
        }
    }

    /// A key while one walks through the feed.
    fn on_picking_key(&mut self, pick: Pick, key: KeyEvent, world: &World) -> (commands: Vec<
        Command,
    >)
        requires
            old(self).deep_view().wf(),
        ensures
            step_of(*final(self), commands) == old(self).deep_view().picking_key(
                pick,
                key,
                world.deep_view(),
            ),
            final(self).deep_view().wf(),
    {
        proof {
            reveal(StateView::picking_key);
        }
        if key.code == KeyCode::Esc {
            self.picking = None;
            return nothing();
        }
        if closes(key) {
            return self.quit();
        }
        if key.code == KeyCode::Enter || (key.ctrl && key.code == KeyCode::Char('r')) {
            return self.take_pick(pick, world);
        }
        match key.code {
            KeyCode::Up => {
                self.walk(pick.index, false, pick.mode);
                nothing()
            },
            KeyCode::Down => {
                self.walk(pick.index, true, pick.mode);
                nothing()
            },
            KeyCode::F(number) => if pick.mode == PickMode::Attachment && (number == 3 || number
                == 5 || number == 6) {
                self.name_pick(number, pick, world)
            } else {
                nothing()
            },
            _ => nothing(),
        }
    }

    /// A key of the upper row.
    fn on_function_key(&mut self, number: u8, world: &World) -> (commands: Vec<Command>)
        requires
            old(self).deep_view().wf(),
        ensures
            step_of(*final(self), commands) == old(self).deep_view().function_key(
                number,
                world.deep_view(),
            ),
            final(self).deep_view().wf(),
    {
        proof {
            reveal(StateView::function_key);
        }
        proof {
            reveal_strlit("");
            assert(""@ =~= Seq::<char>::empty());
        }
        if number == 1 {
            self.show_help();
            nothing()
        } else if number == 2 {
            only(Command::ToggleRecording)
        } else if number == 3 {
            if self.playing {
                only(Command::StopVoice)
            } else {
                self.play_command()
            }
        } else if number == 4 {
            self.send_command("", world)
        } else if number == 5 {
            self.save_command("", world)
        } else if number == 6 {
            self.open_command()
        } else if number == 7 {
            self.start_picking(PickMode::Attachment);
            nothing()
        } else {
            nothing()
        }
    }

    /// A key that edits the line.
    fn on_edit_key(&mut self, key: KeyEvent, now: u64) -> (commands: Vec<Command>)
        requires
            old(self).deep_view().wf(),
            old(self).completion is None,
        ensures
            step_of(*final(self), commands) == old(self).deep_view().editing_key(key, now),
            final(self).deep_view().wf(),
    {
        proof {
            reveal(StateView::editing_key);
        }
        if edit_key(&mut self.input, key, MAX_TEXT_CHARS) && !self.input.is_empty() {
            self.announce_typing(now)
        } else {
            nothing()
        }
    }

    /// A letter with Ctrl.
    fn on_control_key(&mut self, key: KeyEvent, ch: char, world: &World) -> (commands: Vec<Command>)
        requires
            old(self).deep_view().wf(),
            old(self).completion is None,
        ensures
            step_of(*final(self), commands) == old(self).deep_view().control_key(
                key,
                ch,
                world.deep_view(),
            ),
            final(self).deep_view().wf(),
    {
        proof {
            reveal(StateView::control_key);
        }
        if ch == 'f' {
            self.search = Some(Search::new());
            nothing()
        } else if ch == 'r' {
            self.toggle_picking();
            nothing()
        } else if ch == 'o' {
            proof {
                reveal_strlit("");
                assert(""@ =~= Seq::<char>::empty());
            }
            self.send_command("", world)
        } else if ch == 'p' {
            self.sidebar = !self.sidebar;
            only(Command::SaveConfig)
        } else if ch == 'c' || ch == 'd' || ch == 'q' {
            self.quit()
        } else {
            self.on_edit_key(key, world.now)
        }
    }

    /// A key for the line, other than Tab.
    fn on_line_key(&mut self, key: KeyEvent, world: &World) -> (commands: Vec<Command>)
        requires
            old(self).deep_view().wf(),
            old(self).completion is None,
        ensures
            step_of(*final(self), commands) == old(self).deep_view().line_key(
                key,
                world.deep_view(),
            ),
            final(self).deep_view().wf(),
    {
        proof {
            reveal(StateView::line_key);
        }
        match key.code {
            KeyCode::Char(ch) => if key.ctrl {
                self.on_control_key(key, ch, world)
            } else {
                self.on_edit_key(key, world.now)
            },
            KeyCode::F(number) => self.on_function_key(number, world),
            KeyCode::Esc => {
                if self.replying.is_some() {
                    self.replying = None;
                    nothing()
                } else {
                    self.to_home(world)
                }
            },
            KeyCode::Enter => self.submit(world),
            KeyCode::Up => {
                self.recall(true);
                nothing()
            },
            KeyCode::Down => {
                self.recall(false);
                nothing()
            },
            KeyCode::PageUp => {
                self.scroll_by(SCROLL_STEP as i32);
                nothing()
            },
            KeyCode::PageDown => {
                self.scroll_by(-(SCROLL_STEP as i32));
                nothing()
            },
            _ => self.on_edit_key(key, world.now),
        }
    }

    /// A key in a room.
    pub fn on_chat_key(&mut self, key: KeyEvent, world: &World) -> (commands: Vec<Command>)
        requires
            old(self).deep_view().wf(),
        ensures
            step_of(*final(self), commands) == old(self).deep_view().chat_key(
                key,
                world.deep_view(),
            ),
            final(self).deep_view().wf(),
    {
        proof {
            reveal(StateView::chat_key);
        }
        if self.viewer.is_some() {
            if key.code == KeyCode::Esc || key.code == KeyCode::Enter || key.code == KeyCode::Char(
                'q',
            ) {
                self.viewer = None;
            }
            return nothing();
        }
        if self.browser.is_some() {
            return self.on_browser_key(key, world);
        }
        if self.help {
            self.on_help_key(key);
            return nothing();
        }
        if self.search.is_some() {
            return self.on_search_key(key);
        }
        match self.picking {
            Some(pick) => self.on_picking_key(pick, key, world),
            None => {
                if key.code == KeyCode::Tab {
                    self.complete();
                    nothing()
                } else {
                    self.completion = None;
                    self.on_line_key(key, world)
                }
            },
        }
    }
}

} // verus!
