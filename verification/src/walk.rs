//! Moving about in the feed: scrolling, searching, choosing an entry.
use crate::hub::excerpt;
use crate::protocol::{Attachment, AttachmentView, REPLY_EXCERPT_CHARS};
use crate::seqs::{
    first_where, last_where, lemma_first_where_is, lemma_last_where, lemma_last_where_is,
};
use crate::state::{
    Entry, EntryView, Pick, PickMode, ReplyTarget, ReplyTargetView, Search, SearchView, State,
    StateView, SystemKind, Viewport,
};
use crate::text::{contains, lower, occurs, take_chars, to_lower};
use vstd::prelude::*;
use vstd::string::*;

verus! {

/// A number kept between two others.
pub open spec fn between(n: int, low: int, high: int) -> int {
    if n < low {
        low
    } else if n > high {
        high
    } else {
        n
    }
}

/// The difference of two numbers, where it is one; else nothing.
pub open spec fn less(a: int, b: int) -> int {
    if a > b {
        a - b
    } else {
        0
    }
}

impl Viewport {
    /// How far up the feed can be scrolled.
    pub open spec fn top_scroll(self) -> int {
        less(self.total_lines as int, self.height as int)
    }

    /// How far up the feed can be scrolled.
    pub fn max_scroll(&self) -> (r: usize)
        ensures
            r == self.top_scroll(),
    {
        if self.total_lines > self.height {
            self.total_lines - self.height
        } else {
            0
        }
    }
}

/// Whether an entry begins at a line or before it.
pub open spec fn begins_by(line: int) -> spec_fn(usize) -> bool {
    |first: usize| first <= line
}

/// The words of an entry.
pub open spec fn words_of(entry: EntryView) -> Seq<char> {
    match entry {
        EntryView::Chat { text, .. } => text,
        EntryView::System { text, .. } => text,
    }
}

/// The words of an entry.
pub fn entry_text(entry: &Entry) -> (r: &str)
    ensures
        r@ == words_of(entry.deep_view()),
{
    match entry {
        Entry::Chat { text, .. } => text.as_str(),
        Entry::System { text, .. } => text.as_str(),
    }
}

/// The numbers of the entries with a word in them, whatever the case of the letters.
pub open spec fn matching(entries: Seq<EntryView>, needle: Seq<char>) -> Seq<usize>
    decreases entries.len(),
{
    if entries.len() == 0 || needle.len() == 0 {
        Seq::empty()
    } else {
        let before = matching(entries.drop_last(), needle);
        if occurs(lower(words_of(entries.last())), needle) {
            before.push((entries.len() - 1) as usize)
        } else {
            before
        }
    }
}

/// Whether an entry is a stop on the way.
pub open spec fn is_stop(mode: PickMode) -> spec_fn(EntryView) -> bool {
    |entry: EntryView|
        match entry {
            EntryView::Chat { attachment, .. } => match mode {
                PickMode::Reply => true,
                PickMode::Attachment => attachment is Some,
            },
            EntryView::System { .. } => false,
        }
}

/// Whether an entry is a stop on the way.
pub fn suits(entry: &Entry, mode: PickMode) -> (r: bool)
    ensures
        r == is_stop(mode)(entry.deep_view()),
{
    match entry {
        Entry::Chat { attachment, .. } => match mode {
            PickMode::Reply => true,
            PickMode::Attachment => attachment.is_some(),
        },
        Entry::System { .. } => false,
    }
}

/// What is said where there is nowhere to stop.
pub open spec fn no_stop(mode: PickMode) -> Seq<char> {
    match mode {
        PickMode::Reply => "отвечать пока не на что"@,
        PickMode::Attachment => "в этой комнате пока нет вложений"@,
    }
}

impl SearchView {
    /// The entry that is chosen.
    pub open spec fn chosen(self) -> Option<usize> {
        if self.current < self.matches.len() {
            Some(self.matches[self.current as int])
        } else {
            None
        }
    }
}

impl Search {
    /// A search for nothing yet.
    pub fn new() -> (r: Self)
        ensures
            r.deep_view() == (SearchView {
                query: crate::input::InputView::of(Seq::empty()),
                matches: Seq::empty(),
                current: 0,
            }),
    {
        let query = crate::input::Input::new("");
        proof {
            reveal_strlit("");
            assert(query.deep_view() =~= crate::input::InputView::of(Seq::empty()));
        }
        Search { query, matches: Vec::new(), current: 0 }
    }

    /// The entry that is chosen.
    pub fn current_entry(&self) -> (r: Option<usize>)
        ensures
            r == self.deep_view().chosen(),
    {
        if self.current < self.matches.len() {
            Some(self.matches[self.current])
        } else {
            None
        }
    }

    /// Whether an entry matches.
    #[verifier::loop_isolation(false)]
    pub fn is_match(&self, entry: usize) -> (r: bool)
        ensures
            r == self.matches@.contains(entry),
    {
        let mut i: usize = 0;
        while i < self.matches.len()
            invariant
                i <= self.matches@.len(),
                forall|k: int| 0 <= k < i ==> self.matches@[k] != entry,
            decreases self.matches@.len() - i,
        {
            if self.matches[i] == entry {
                return true;
            }
            i = i + 1;
        }
        false
    }
}

impl StateView {
    /// The feed scrolled by some lines, but not out of what there is.
    pub open spec fn scrolled(self, delta: int) -> StateView {
        StateView {
            scrollback: between(self.scrollback + delta, 0, self.viewport.top_scroll()) as usize,
            ..self
        }
    }

    /// Which lines of the feed are seen: from which to which.
    pub open spec fn window(self) -> (int, int) {
        let end = less(self.viewport.total_lines as int, self.scrollback as int);
        (less(end, self.viewport.height as int), end)
    }

    /// Whether the first line of an entry is seen.
    pub open spec fn in_window(self, entry: int) -> bool {
        let (start, end) = self.window();
        start <= self.entry_lines[entry] < end
    }

    /// The feed scrolled so that an entry stands about the middle of the screen: what was
    /// before it is seen, and what came after.
    #[verifier::opaque]
    pub open spec fn centred_on(self, entry: int) -> StateView {
        if 0 <= entry < self.entry_lines.len() {
            let height = if self.viewport.height < 1 {
                1
            } else {
                self.viewport.height as int
            };
            let total = self.viewport.total_lines as int;
            let end = between(
                self.entry_lines[entry] + height / 2 + 1,
                if height < total {
                    height
                } else {
                    total
                },
                total,
            );
            StateView { scrollback: less(total, end) as usize, ..self }
        } else {
            self
        }
    }

    /// The feed scrolled to an entry, where it is not seen already.
    #[verifier::opaque]
    pub open spec fn revealed(self, entry: int) -> StateView {
        if 0 <= entry < self.entry_lines.len() && self.in_window(entry) {
            self
        } else {
            self.centred_on(entry)
        }
    }

    /// The line of the feed in a row of the screen. The feed stands at the bottom: its
    /// last lines are seen, less those that were scrolled away, and above a short feed
    /// the rows are empty.
    pub open spec fn line_at(self, row: u16) -> Option<int> {
        let height = self.viewport.height as int;
        let offset = row - self.viewport.top;
        let (start, end) = self.window();
        let padding = less(height, end - start);
        if padding <= offset < height {
            Some(start + offset - padding)
        } else {
            None
        }
    }

    /// The entry to which a row of the screen belongs: the last one that begins by then.
    pub open spec fn entry_at(self, row: u16) -> Option<int> {
        match self.line_at(row) {
            Some(line) => {
                let k = last_where(self.entry_lines, begins_by(line));
                if 0 <= k < self.entries.len() {
                    Some(k)
                } else {
                    None
                }
            },
            None => None,
        }
    }

    /// The search shows its chosen match in the middle of the screen.
    pub open spec fn match_revealed(self) -> StateView {
        match self.search {
            Some(search) => match search.chosen() {
                Some(entry) => self.centred_on(entry as int),
                None => self,
            },
            None => self,
        }
    }

    /// The search looked through the feed anew: it begins with the newest match.
    #[verifier::opaque]
    pub open spec fn matches_refreshed(self) -> StateView {
        match self.search {
            Some(search) => {
                let matches = matching(self.entries, lower(search.query.text));
                StateView {
                    search: Some(
                        SearchView {
                            matches,
                            current: less(matches.len() as int, 1) as usize,
                            ..search
                        },
                    ),
                    ..self
                }.match_revealed()
            },
            None => self,
        }
    }

    /// The search goes on to the next match or back, round and round.
    #[verifier::opaque]
    pub open spec fn match_stepped(self, forward: bool) -> StateView {
        match self.search {
            Some(search) => if search.matches.len() == 0 {
                self
            } else {
                let step: int = if forward {
                    1
                } else {
                    -1
                };
                StateView {
                    search: Some(
                        SearchView {
                            current: ((search.current + step) % (search.matches.len() as int)) as usize,
                            ..search
                        },
                    ),
                    ..self
                }.match_revealed()
            },
            None => self,
        }
    }

    /// The next stop before an entry or behind it.
    pub open spec fn next_stop(self, from: int, down: bool, mode: PickMode) -> Option<int> {
        if down {
            let k = from + 1 + first_where(self.entries.skip(from + 1), is_stop(mode));
            if from + 1 <= self.entries.len() && k < self.entries.len() {
                Some(k)
            } else {
                None
            }
        } else {
            let k = last_where(self.entries.take(from), is_stop(mode));
            if from <= self.entries.len() && k >= 0 {
                Some(k)
            } else {
                None
            }
        }
    }

    /// An entry lit and brought into sight.
    pub open spec fn lit(self, index: int, mode: PickMode) -> StateView {
        StateView { picking: Some(Pick { index: index as usize, mode }), ..self }.revealed(index)
    }

    /// The walk goes on to the next stop, where there is one.
    #[verifier::opaque]
    pub open spec fn walked(self, from: int, down: bool, mode: PickMode) -> StateView {
        match self.next_stop(from, down, mode) {
            Some(next) => self.lit(next, mode),
            None => self,
        }
    }

    /// The walk begins at the last stop.
    #[verifier::opaque]
    pub open spec fn walk_started(self, mode: PickMode) -> StateView {
        let k = last_where(self.entries, is_stop(mode));
        if k >= 0 {
            self.lit(k, mode)
        } else {
            StateView { picking: None, ..self }.told(SystemKind::Error, no_stop(mode))
        }
    }

    /// The attachment of an entry.
    pub open spec fn attachment_at(self, index: int) -> Option<AttachmentView> {
        if 0 <= index < self.entries.len() {
            match self.entries[index] {
                EntryView::Chat { attachment, .. } => attachment,
                EntryView::System { .. } => None,
            }
        } else {
            None
        }
    }

    /// An entry is about to be answered.
    #[verifier::opaque]
    pub open spec fn answering(self, index: int) -> StateView {
        if 0 <= index < self.entries.len() {
            match self.entries[index] {
                EntryView::Chat { id, from, text, attachment, .. } => StateView {
                    replying: Some(
                        ReplyTargetView { id, nickname: from, excerpt: excerpt(text, attachment) },
                    ),
                    ..self
                },
                EntryView::System { .. } => self,
            }
        } else {
            self
        }
    }

    /// The key for answering: the first time the walk begins, the second time what is
    /// lit is answered.
    #[verifier::opaque]
    pub open spec fn picking_toggled(self) -> StateView {
        let free = StateView { picking: None, ..self };
        match self.picking {
            Some(pick) => match pick.mode {
                PickMode::Reply => free.answering(pick.index as int),
                PickMode::Attachment => free.walk_started(PickMode::Reply),
            },
            None => free.walk_started(PickMode::Reply),
        }
    }
}

/// The last entry that begins at a line or before it; one more, so that zero means none.
#[verifier::loop_isolation(false)]
fn behind_last_line(lines: &Vec<usize>, line: usize) -> (r: usize)
    ensures
        r == last_where(lines@, begins_by(line as int)) + 1,
        r <= lines@.len(),
{
    let mut i: usize = lines.len();
    while i > 0 && lines[i - 1] > line
        invariant
            i <= lines@.len(),
            forall|k: int| i <= k < lines@.len() ==> !begins_by(line as int)(#[trigger] lines@[k]),
        decreases i,
    {
        i = i - 1;
    }
    proof {
        lemma_last_where_is(lines@, begins_by(line as int), i - 1);
    }
    i
}

impl State {
    /// Scrolls the feed: a positive number of lines leads up, into the past.
    pub fn scroll_by(&mut self, delta: i32)
        ensures
            final(self).deep_view() == old(self).deep_view().scrolled(delta as int),
            old(self).deep_view().wf() ==> final(self).deep_view().wf(),
    {
        let at: i128 = self.scrollback as i128 + delta as i128;
        let top: usize = self.viewport.max_scroll();
        self.scrollback = if at < 0 {
            0
        } else if at > top as i128 {
            top
        } else {
            at as usize
        };
    }

    /// Which lines of the feed are seen.
    fn seen_lines(&self) -> (r: (usize, usize))
        ensures
            (r.0 as int, r.1 as int) == self.deep_view().window(),
            r.0 <= r.1,
            r.1 - r.0 <= self.viewport.height,
    {
        let end: usize = if self.viewport.total_lines > self.scrollback {
            self.viewport.total_lines - self.scrollback
        } else {
            0
        };
        let start: usize = if end > self.viewport.height {
            end - self.viewport.height
        } else {
            0
        };
        (start, end)
    }

    /// Scrolls the feed to an entry that is not seen.
    pub fn reveal_entry(&mut self, entry: usize)
        ensures
            final(self).deep_view() == old(self).deep_view().revealed(entry as int),
            old(self).deep_view().wf() ==> final(self).deep_view().wf(),
    {
        proof {
            reveal(StateView::revealed);
        }
        if entry < self.entry_lines.len() {
            let line: usize = self.entry_lines[entry];
            let (start, end) = self.seen_lines();
            if start <= line && line < end {
                return;
            }
        }
        self.centre_on(entry);
    }

    /// Scrolls the feed so that an entry stands about the middle of the screen.
    pub fn centre_on(&mut self, entry: usize)
        ensures
            final(self).deep_view() == old(self).deep_view().centred_on(entry as int),
            old(self).deep_view().wf() ==> final(self).deep_view().wf(),
    {
        proof {
            reveal(StateView::centred_on);
        }
        if entry >= self.entry_lines.len() {
            return;
        }
        let line: usize = self.entry_lines[entry];
        let height: usize = if self.viewport.height < 1 {
            1
        } else {
            self.viewport.height
        };
        let total: usize = self.viewport.total_lines;
        let low: usize = if height < total {
            height
        } else {
            total
        };
        let middle: u128 = line as u128 + (height / 2) as u128 + 1;
        let end: usize = if middle < low as u128 {
            low
        } else if middle > total as u128 {
            total
        } else {
            middle as usize
        };
        self.scrollback = total - end;
    }

    /// The entry to which a row of the screen belongs.
    pub fn entry_at_row(&self, row: u16) -> (r: Option<usize>)
        ensures
            match r {
                Some(index) => self.deep_view().entry_at(row) == Some(index as int),
                None => self.deep_view().entry_at(row) is None,
            },
            r matches Some(index) ==> index < self.entries@.len(),
    {
        let top: u16 = self.viewport.top;
        let height: usize = self.viewport.height;
        if row < top || height == 0 {
            return None;
        }
        let offset: usize = (row - top) as usize;
        if offset >= height {
            return None;
        }
        let (start, end) = self.seen_lines();
        let padding: usize = height - (end - start);
        if offset < padding {
            return None;
        }
        let line: usize = start + (offset - padding);
        let behind: usize = behind_last_line(&self.entry_lines, line);
        if behind > 0 && behind - 1 < self.entries.len() {
            Some(behind - 1)
        } else {
            None
        }
    }

    /// Shows the chosen match.
    fn reveal_current_match(&mut self)
        ensures
            final(self).deep_view() == old(self).deep_view().match_revealed(),
            old(self).deep_view().wf() ==> final(self).deep_view().wf(),
    {
        let chosen = match &self.search {
            Some(search) => search.current_entry(),
            None => None,
        };
        match chosen {
            Some(entry) => self.centre_on(entry),
            None => {},
        }
    }

    /// Looks through the feed anew.
    #[verifier::loop_isolation(false)]
    pub fn refresh_matches(&mut self)
        ensures
            final(self).deep_view() == old(self).deep_view().matches_refreshed(),
            old(self).deep_view().wf() ==> final(self).deep_view().wf(),
    {
        proof {
            reveal(StateView::matches_refreshed);
        }
        let ghost before = self.deep_view();
        let needle = match &self.search {
            Some(search) => to_lower(search.query.text.as_str()),
            None => {
                return;
            },
        };
        let ghost all = self.entries.deep_view();
        let mut found: Vec<usize> = Vec::new();
        let mut i: usize = 0;
        assert(found@ =~= matching(all.take(0), needle@));
        if !needle.as_str().is_empty() {
            while i < self.entries.len()
                invariant
                    i <= self.entries@.len(),
                    found@ == matching(all.take(i as int), needle@),
                decreases self.entries@.len() - i,
            {
                proof {
                    assert(all.take(i + 1).drop_last() =~= all.take(i as int));
                    assert(all.take(i + 1).last() == all[i as int]);
                    assert(all[i as int] == self.entries@[i as int].deep_view());
                }
                if contains(to_lower(entry_text(&self.entries[i])).as_str(), needle.as_str()) {
                    found.push(i);
                }
                i = i + 1;
            }
            assert(all.take(all.len() as int) =~= all);
        }
        assert(found@ =~= matching(all, needle@));
        match &mut self.search {
            Some(search) => {
                search.current = if found.len() > 0 {
                    found.len() - 1
                } else {
                    0
                };
                search.matches = found;
            },
            None => {},
        }
        self.reveal_current_match();
    }

    /// Goes on to the next match or back.
    pub fn step_match(&mut self, forward: bool)
        ensures
            final(self).deep_view() == old(self).deep_view().match_stepped(forward),
            old(self).deep_view().wf() ==> final(self).deep_view().wf(),
    {
        proof {
            reveal(StateView::match_stepped);
        }
        match &mut self.search {
            Some(search) => {
                let count: usize = search.matches.len();
                if count == 0 {
                    return;
                }
                let current: usize = search.current;
                search.current = if forward {
                    ((current as u128 + 1) % (count as u128)) as usize
                } else if current == 0 {
                    proof {
                        assert((-1int) % (count as int) == count - 1) by (nonlinear_arith)
                            requires
                                count >= 1,
                        ;
                    }
                    count - 1
                } else {
                    (current - 1) % count
                };
            },
            None => {
                return;
            },
        }
        self.reveal_current_match();
    }

    /// The next stop before an entry or behind it.
    #[verifier::loop_isolation(false)]
    pub fn neighbour_chat(&self, from: usize, down: bool, mode: PickMode) -> (r: Option<usize>)
        ensures
            match r {
                Some(k) => self.deep_view().next_stop(from as int, down, mode) == Some(k as int),
                None => self.deep_view().next_stop(from as int, down, mode) is None,
            },
    {
        let ghost all = self.entries.deep_view();
        let ghost test = is_stop(mode);
        assert(all.len() == self.entries@.len());
        if down {
            if from >= self.entries.len() {
                return None;
            }
            let ghost rest = all.skip(from + 1);
            let mut i: usize = from + 1;
            while i < self.entries.len()
                invariant
                    from + 1 <= i <= self.entries@.len(),
                    forall|k: int| 0 <= k < i - from - 1 ==> !test(#[trigger] rest[k]),
                decreases self.entries@.len() - i,
            {
                assert(rest[i - from - 1] == all[i as int]);
                assert(all[i as int] == self.entries@[i as int].deep_view());
                if suits(&self.entries[i], mode) {
                    proof {
                        lemma_first_where_is(rest, test, i - from - 1);
                    }
                    return Some(i);
                }
                i = i + 1;
            }
            proof {
                lemma_first_where_is(rest, test, i - from - 1);
            }
            None
        } else {
            if from > self.entries.len() {
                return None;
            }
            let ghost rest = all.take(from as int);
            let mut i: usize = from;
            while i > 0
                invariant
                    i <= from,
                    forall|k: int| i <= k < from ==> !test(#[trigger] rest[k]),
                decreases i,
            {
                i = i - 1;
                assert(rest[i as int] == all[i as int]);
                assert(all[i as int] == self.entries@[i as int].deep_view());
                if suits(&self.entries[i], mode) {
                    proof {
                        lemma_last_where_is(rest, test, i as int);
                    }
                    return Some(i);
                }
            }
            proof {
                lemma_last_where_is(rest, test, -1);
            }
            None
        }
    }

    /// Lights an entry and brings it into sight.
    fn light(&mut self, index: usize, mode: PickMode)
        ensures
            final(self).deep_view() == old(self).deep_view().lit(index as int, mode),
            old(self).deep_view().wf() ==> final(self).deep_view().wf(),
    {
        self.picking = Some(Pick { index, mode });
        self.reveal_entry(index);
    }

    /// Goes on to the next stop.
    pub fn walk(&mut self, from: usize, down: bool, mode: PickMode)
        ensures
            final(self).deep_view() == old(self).deep_view().walked(from as int, down, mode),
            old(self).deep_view().wf() ==> final(self).deep_view().wf(),
    {
        proof {
            reveal(StateView::walked);
        }
        match self.neighbour_chat(from, down, mode) {
            Some(next) => self.light(next, mode),
            None => {},
        }
    }

    /// Begins to walk at the last stop.
    pub fn start_picking(&mut self, mode: PickMode)
        ensures
            final(self).deep_view() == old(self).deep_view().walk_started(mode),
            old(self).deep_view().wf() ==> final(self).deep_view().wf(),
    {
        proof {
            reveal(StateView::walk_started);
        }
        let ghost all = self.entries.deep_view();
        assert(all.len() == self.entries@.len());
        assert(all.take(all.len() as int) =~= all);
        match self.neighbour_chat(self.entries.len(), false, mode) {
            Some(index) => self.light(index, mode),
            None => {
                proof {
                    lemma_last_where(all, is_stop(mode));
                }
                self.picking = None;
                let words = match mode {
                    PickMode::Reply => "отвечать пока не на что",
                    PickMode::Attachment => "в этой комнате пока нет вложений",
                };
                self.system(SystemKind::Error, words);
            },
        }
    }

    /// The attachment of an entry.
    pub fn picked_attachment(&self, index: usize) -> (r: Option<Attachment>)
        ensures
            r.deep_view() == self.deep_view().attachment_at(index as int),
    {
        if index >= self.entries.len() {
            return None;
        }
        assert(self.entries.deep_view()[index as int] == self.entries@[index as int].deep_view());
        match &self.entries[index] {
            Entry::Chat { attachment, .. } => attachment.clone(),
            Entry::System { .. } => None,
        }
    }

    /// An entry is about to be answered. The quote shown here is one's own; the server
    /// makes the real one from its history.
    pub fn confirm_reply(&mut self, index: usize)
        ensures
            final(self).deep_view() == old(self).deep_view().answering(index as int),
            old(self).deep_view().wf() ==> final(self).deep_view().wf(),
    {
        proof {
            reveal(StateView::answering);
        }
        if index >= self.entries.len() {
            return;
        }
        assert(self.entries.deep_view()[index as int] == self.entries@[index as int].deep_view());
        let target = match &self.entries[index] {
            Entry::Chat { id, from, text, attachment, .. } => {
                let shown = if text.as_str().is_empty() {
                    match attachment {
                        Some(attachment) => attachment.name.clone(),
                        None => String::new(),
                    }
                } else {
                    take_chars(text.as_str(), REPLY_EXCERPT_CHARS)
                };
                assert(shown@ =~= excerpt(text@, attachment.deep_view()));
                ReplyTarget { id: *id, nickname: from.clone(), excerpt: shown }
            },
            Entry::System { .. } => {
                return;
            },
        };
        self.replying = Some(target);
    }

    /// The key for answering.
    pub fn toggle_picking(&mut self)
        ensures
            final(self).deep_view() == old(self).deep_view().picking_toggled(),
            old(self).deep_view().wf() ==> final(self).deep_view().wf(),
    {
        proof {
            reveal(StateView::picking_toggled);
        }
        let picking = self.picking;
        self.picking = None;
        match picking {
            Some(pick) => match pick.mode {
                PickMode::Reply => self.confirm_reply(pick.index),
                PickMode::Attachment => self.start_picking(PickMode::Reply),
            },
            None => self.start_picking(PickMode::Reply),
        }
    }
}

} // verus!
