//! The list of files above the feed.
use crate::files::{FileEntry, FileEntryView};
use crate::input::{edit_key, Input, InputView};
use crate::keys::{KeyCode, KeyEvent};
use crate::seqs::lemma_filter_step;
use crate::state::{
    nothing, only, both, quiet, step_of, with, Browser, BrowserView, Command, CommandView, State,
    StateView, Step, World, WorldView,
};
use crate::text::{contains, glue, lower, occurs, same, to_lower};
use crate::validate::MAX_TEXT_CHARS;
use crate::walk::between;
use vstd::prelude::*;
use vstd::string::*;

verus! {

/// Whether a line passes what the names have to contain. The way up always does:
/// otherwise there would be no way out.
pub open spec fn passes(needle: Seq<char>) -> spec_fn(FileEntryView) -> bool {
    |e: FileEntryView| e.name == ".."@ || needle.len() == 0 || occurs(lower(e.name), needle)
}

impl BrowserView {
    /// A list that is being read.
    pub open spec fn opened(dir: Seq<char>) -> BrowserView {
        BrowserView {
            dir,
            entries: Seq::empty(),
            selected: 0,
            filter: InputView::of(Seq::empty()),
            loading: true,
            error: None,
        }
    }

    /// The lines that pass.
    pub open spec fn shown(self) -> Seq<FileEntryView> {
        self.entries.filter(passes(lower(self.filter.text)))
    }

    /// The chosen line.
    pub open spec fn chosen(self) -> Option<FileEntryView> {
        if self.selected < self.shown().len() {
            Some(self.shown()[self.selected as int])
        } else {
            None
        }
    }

    /// With another line chosen, but not outside of the list.
    pub open spec fn moved(self, delta: int) -> BrowserView {
        BrowserView {
            selected: if self.shown().len() == 0 {
                0
            } else {
                between(self.selected + delta, 0, self.shown().len() - 1) as usize
            },
            ..self
        }
    }
}

impl Browser {
    /// A list that is being read.
    pub fn open(dir: String) -> (r: Self)
        ensures
            r.deep_view() == BrowserView::opened(dir@),
    {
        let filter = Input::new("");
        proof {
            reveal_strlit("");
            assert(filter.deep_view() =~= InputView::of(Seq::empty()));
        }
        let entries: Vec<FileEntry> = Vec::new();
        assert(entries.deep_view() =~= Seq::<FileEntryView>::empty());
        Browser { dir, entries, selected: 0, filter, loading: true, error: None }
    }

    /// The lines that pass.
    #[verifier::loop_isolation(false)]
    pub fn visible(&self) -> (r: Vec<&FileEntry>)
        ensures
            r.deep_view() == self.deep_view().shown(),
    {
        let needle = to_lower(self.filter.text.as_str());
        let ghost all = self.entries.deep_view();
        let ghost test = passes(needle@);
        let mut r: Vec<&FileEntry> = Vec::new();
        let mut i: usize = 0;
        proof {
            reveal(Seq::filter);
            assert(all.take(0).filter(test) =~= Seq::<FileEntryView>::empty());
            assert(r.deep_view() =~= all.take(0).filter(test));
        }
        while i < self.entries.len()
            invariant
                i <= self.entries@.len(),
                r.deep_view() == all.take(i as int).filter(test),
            decreases self.entries@.len() - i,
        {
            let entry = &self.entries[i];
            let ghost before = r.deep_view();
            proof {
                assert(all[i as int] == entry.deep_view());
                lemma_filter_step(all, i as int, test);
            }
            if same(entry.name.as_str(), "..") || needle.as_str().is_empty() || contains(
                to_lower(entry.name.as_str()).as_str(),
                needle.as_str(),
            ) {
                r.push(entry);
                assert(r.deep_view() =~= before.push(entry.deep_view()));
            }
            i = i + 1;
        }
        assert(all.take(all.len() as int) =~= all);
        r
    }

    /// The chosen line.
    pub fn current(&self) -> (r: Option<&FileEntry>)
        ensures
            match r {
                Some(entry) => self.deep_view().chosen() == Some(entry.deep_view()),
                None => self.deep_view().chosen() is None,
            },
    {
        let shown = self.visible();
        assert(shown.deep_view().len() == shown@.len());
        if self.selected < shown.len() {
            assert(shown.deep_view()[self.selected as int] == shown@[self.selected as int].deep_view());
            Some(shown[self.selected])
        } else {
            None
        }
    }

    /// Chooses another line.
    pub fn move_by(&mut self, delta: i32)
        ensures
            final(self).deep_view() == old(self).deep_view().moved(delta as int),
    {
        let shown = self.visible();
        assert(shown.deep_view().len() == shown@.len());
        let count: usize = shown.len();
        if count == 0 {
            self.selected = 0;
            return;
        }
        let at: i128 = self.selected as i128 + delta as i128;
        self.selected = if at < 0 {
            0
        } else if at > (count - 1) as i128 {
            count - 1
        } else {
            at as usize
        };
    }
}

impl StateView {
    /// With another list of files.
    pub open spec fn with_browser(self, browser: BrowserView) -> StateView {
        StateView { browser: Some(browser), ..self }
    }

    /// One level up.
    #[verifier::opaque]
    pub open spec fn dir_left(self, world: WorldView) -> Step {
        match (self.browser, world.parent) {
            (Some(browser), Some(parent)) => with(
                self.with_browser(BrowserView { loading: true, ..browser }),
                CommandView::ReadDir(parent),
            ),
            _ => quiet(self),
        }
    }

    /// The chosen directory is opened, the chosen file is sent.
    #[verifier::opaque]
    pub open spec fn line_taken(self) -> Step {
        match self.browser {
            Some(browser) => match browser.chosen() {
                Some(entry) => if entry.is_dir {
                    with(
                        self.with_browser(BrowserView { loading: true, ..browser }),
                        CommandView::ReadDir(entry.path),
                    )
                } else {
                    Step {
                        state: StateView {
                            browser: None,
                            last_dir: Some(browser.dir),
                            busy: Some("отправляю "@ + entry.name),
                            ..self
                        },
                        commands: seq![CommandView::Upload(entry.path), CommandView::SaveConfig],
                    }
                },
                None => quiet(self),
            },
            None => quiet(self),
        }
    }

    /// What a key does to what the names have to contain. Where there is nothing to
    /// rub out, one goes up.
    #[verifier::opaque]
    pub open spec fn filter_key(self, key: KeyEvent, world: WorldView) -> Step {
        match self.browser {
            None => quiet(self),
            Some(browser) => if key.code == KeyCode::Backspace && browser.filter.text.len() == 0 {
                self.dir_left(world)
            } else {
                match browser.filter.edited(key, MAX_TEXT_CHARS as int) {
                    Some(filter) => quiet(
                        self.with_browser(BrowserView { filter, selected: 0, ..browser }),
                    ),
                    None => quiet(self),
                }
            },
        }
    }

    /// What a key does to the list of files.
    #[verifier::opaque]
    pub open spec fn browser_key(self, key: KeyEvent, world: WorldView) -> Step {
        let closes = key.code == KeyCode::Esc || (key.ctrl && (key.code == KeyCode::Char('c')
            || key.code == KeyCode::Char('d')));
        match self.browser {
            None => quiet(self),
            Some(browser) => if closes {
                quiet(StateView { browser: None, ..self })
            } else {
                match key.code {
                    KeyCode::Up => quiet(self.with_browser(browser.moved(-1))),
                    KeyCode::Down => quiet(self.with_browser(browser.moved(1))),
                    KeyCode::PageUp => quiet(self.with_browser(browser.moved(-10))),
                    KeyCode::PageDown => quiet(self.with_browser(browser.moved(10))),
                    KeyCode::Left => self.dir_left(world),
                    KeyCode::Enter => self.line_taken(),
                    _ => self.filter_key(key, world),
                }
            },
        }
    }
}

impl State {
    /// Goes one level up.
    fn leave_dir(&mut self, world: &World) -> (commands: Vec<Command>)
        ensures
            step_of(*final(self), commands) == old(self).deep_view().dir_left(world.deep_view()),
            old(self).deep_view().wf() ==> final(self).deep_view().wf(),
    {
        proof {
            reveal(StateView::dir_left);
        }
        match &mut self.browser {
            Some(browser) => match &world.parent {
                Some(parent) => {
                    browser.loading = true;
                    only(Command::ReadDir(parent.clone()))
                },
                None => nothing(),
            },
            None => nothing(),
        }
    }

    /// Opens the chosen directory or sends the chosen file. The directory is
    /// remembered: the next time the list opens there.
    fn take_line(&mut self) -> (commands: Vec<Command>)
        ensures
            step_of(*final(self), commands) == old(self).deep_view().line_taken(),
            old(self).deep_view().wf() ==> final(self).deep_view().wf(),
    {
        proof {
            reveal(StateView::line_taken);
        }
        let entry = match &self.browser {
            Some(browser) => match browser.current() {
                Some(entry) => entry.clone(),
                None => {
                    return nothing();
                },
            },
            None => {
                return nothing();
            },
        };
        match &mut self.browser {
            Some(browser) => {
                if entry.is_dir {
                    browser.loading = true;
                    return only(Command::ReadDir(entry.path));
                }
                let dir = browser.dir.clone();
                self.last_dir = Some(dir);
            },
            None => {
                return nothing();
            },
        }
        self.browser = None;
        self.busy = Some(glue("отправляю ", entry.name.as_str()));
        both(Command::Upload(entry.path), Command::SaveConfig)
    }

    /// Chooses another line of the list of files.
    fn move_in_list(&mut self, delta: i32)
        ensures
            match old(self).deep_view().browser {
                Some(browser) => final(self).deep_view() == old(self).deep_view().with_browser(
                    browser.moved(delta as int),
                ),
                None => final(self).deep_view() == old(self).deep_view(),
            },
            old(self).deep_view().wf() ==> final(self).deep_view().wf(),
    {
        match &mut self.browser {
            Some(browser) => browser.move_by(delta),
            None => {},
        }
    }

    /// A key for what the names have to contain.
    fn on_filter_key(&mut self, key: KeyEvent, world: &World) -> (commands: Vec<Command>)
        requires
            old(self).deep_view().wf(),
        ensures
            step_of(*final(self), commands) == old(self).deep_view().filter_key(
                key,
                world.deep_view(),
            ),
            final(self).deep_view().wf(),
    {
        proof {
            reveal(StateView::filter_key);
        }
        let up = match &mut self.browser {
            Some(browser) => {
                if key.code == KeyCode::Backspace && browser.filter.is_empty() {
                    true
                } else {
                    if edit_key(&mut browser.filter, key, MAX_TEXT_CHARS) {
                        browser.selected = 0;
                    }
                    false
                }
            },
            None => false,
        };
        if up {
            self.leave_dir(world)
        } else {
            nothing()
        }
    }

    /// A key for the list of files.
    pub fn on_browser_key(&mut self, key: KeyEvent, world: &World) -> (commands: Vec<Command>)
        requires
            old(self).deep_view().wf(),
        ensures
            step_of(*final(self), commands) == old(self).deep_view().browser_key(
                key,
                world.deep_view(),
            ),
            final(self).deep_view().wf(),
    {
        proof {
            reveal(StateView::browser_key);
        }
        if key.code == KeyCode::Esc || (key.ctrl && (key.code == KeyCode::Char('c') || key.code
            == KeyCode::Char('d'))) {
            self.browser = None;
            return nothing();
        }
        if self.browser.is_none() {
            return nothing();
        }
        match key.code {
            KeyCode::Up => {
                self.move_in_list(-1);
                return nothing();
            },
            KeyCode::Down => {
                self.move_in_list(1);
                return nothing();
            },
            KeyCode::PageUp => {
                self.move_in_list(-10);
                return nothing();
            },
            KeyCode::PageDown => {
                self.move_in_list(10);
                return nothing();
            },
            KeyCode::Left => {
                return self.leave_dir(world);
            },
            KeyCode::Enter => {
                return self.take_line();
            },
            _ => {},
        }
        self.on_filter_key(key, world)
    }
}

} // verus!
