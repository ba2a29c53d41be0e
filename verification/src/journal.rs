//! The feed: how entries come and go, who is typing, what was sent.
use crate::ids::{id_text, write_id};
use crate::protocol::{AttachmentKind, ChatMessage, ChatMessageView, UserInfo, UserInfoView};
use crate::seqs::{
    drop_known, first_where, lemma_filter_step, lemma_first_where_is, sort, sorted, text_before,
    text_le, Known, Ranked,
};
use crate::state::{
    map_view, quiet, step_of, Command, CommandView, Entry, EntryView, State, StateView, Step,
    SystemKind, Thumbnail, ThumbnailView, Typist, TypistView, MAX_ENTRIES, MAX_SENT,
    THUMBNAIL_LOOKBACK, TYPING_TTL,
};
use crate::text::{contains, glue3, lower, occurs, same, to_lower};
use crate::validate::nickname_key;
use vstd::prelude::*;
use vstd::string::*;

verus! {

broadcast use vstd::std_specs::hash::group_hash_axioms;

/// The identifier of a message; lines of the client itself have none.
pub open spec fn entry_id(entry: EntryView) -> Option<u128> {
    match entry {
        EntryView::Chat { id, .. } => Some(id),
        EntryView::System { .. } => None,
    }
}

/// The identifiers of all messages among some entries.
pub open spec fn chat_ids(entries: Seq<EntryView>) -> Set<u128> {
    Set::new(|id: u128| exists|i: int| 0 <= i < entries.len() && entry_id(#[trigger] entries[i]) == Some(id))
}

/// How many of so many entries have to go.
pub open spec fn surplus(len: int) -> int {
    if len > MAX_ENTRIES {
        len - MAX_ENTRIES
    } else {
        0
    }
}

/// Whether a name is in a text, whatever the case of the letters.
pub open spec fn named_in(text: Seq<char>, nickname: Seq<char>) -> bool {
    nickname.len() > 0 && occurs(lower(text), lower(nickname))
}

/// Whether a name is in a text. People write it in large and in small letters.
pub fn mentions(text: &str, nickname: &str) -> (r: bool)
    ensures
        r == named_in(text@, nickname@),
{
    !nickname.is_empty() && contains(to_lower(text).as_str(), to_lower(nickname).as_str())
}

/// Whether somebody is the one with this identifier.
pub open spec fn is_typist(id: u128) -> spec_fn(TypistView) -> bool {
    |t: TypistView| t.id == id
}

/// Whether somebody is not the one with this identifier.
pub open spec fn other_typist(id: u128) -> spec_fn(TypistView) -> bool {
    |t: TypistView| t.id != id
}

/// Those who type after one of them has said so.
pub open spec fn typing_said(
    typing: Seq<TypistView>,
    id: u128,
    nickname: Seq<char>,
    at: u64,
) -> Seq<TypistView> {
    let k = first_where(typing, is_typist(id));
    let typist = TypistView { id, nickname, at };
    if k < typing.len() {
        typing.update(k, typist)
    } else {
        typing.push(typist)
    }
}

/// Those who type without the one with this identifier.
pub open spec fn typing_without(typing: Seq<TypistView>, id: u128) -> Seq<TypistView> {
    typing.filter(other_typist(id))
}

/// Whether a sign of typing has not gone out yet.
pub open spec fn still_typing(now: u64) -> spec_fn(TypistView) -> bool {
    |t: TypistView| now - t.at < TYPING_TTL
}

/// The people without the one with this identifier.
pub open spec fn other_user(id: u128) -> spec_fn(UserInfoView) -> bool {
    |u: UserInfoView| u.id != id
}

/// Whether somebody is the one with this identifier.
pub open spec fn is_user(id: u128) -> spec_fn(UserInfoView) -> bool {
    |u: UserInfoView| u.id == id
}

impl Ranked for UserInfo {
    open spec fn ranks(a: UserInfoView, b: UserInfoView) -> bool {
        text_le(lower(a.nickname), lower(b.nickname))
    }

    fn before(&self, other: &Self) -> (r: bool) {
        text_before(
            nickname_key(self.nickname.as_str()).as_str(),
            nickname_key(other.nickname.as_str()).as_str(),
        )
    }
}

impl Ranked for String {
    open spec fn ranks(a: Seq<char>, b: Seq<char>) -> bool {
        text_le(a, b)
    }

    fn before(&self, other: &Self) -> (r: bool) {
        text_before(self.as_str(), other.as_str())
    }
}

/// People in the order of their names, whatever the case of the letters.
pub open spec fn by_name(users: Seq<UserInfoView>) -> Seq<UserInfoView> {
    sorted(users, |a: UserInfoView, b: UserInfoView| UserInfo::ranks(a, b))
}

/// The picture that an entry carries.
pub open spec fn picture_of(entry: EntryView) -> Option<u128> {
    match entry {
        EntryView::Chat { attachment: Some(attachment), .. } => if attachment.kind
            == AttachmentKind::Image {
            Some(attachment.id)
        } else {
            None
        },
        _ => None,
    }
}

/// The pictures among the last entries that are not known yet, from the last one back.
pub open spec fn wanted(
    entries: Seq<EntryView>,
    left: nat,
    known: Map<u128, ThumbnailView>,
) -> Seq<u128>
    decreases left,
{
    if left == 0 || entries.len() == 0 {
        Seq::empty()
    } else {
        let rest = wanted(entries.drop_last(), (left - 1) as nat, known);
        match picture_of(entries.last()) {
            Some(id) => if known.contains_key(id) {
                rest
            } else {
                seq![id] + rest
            },
            None => rest,
        }
    }
}

/// Pictures with some more that are on their way.
pub open spec fn on_the_way(known: Map<u128, ThumbnailView>, ids: Seq<u128>) -> Map<
    u128,
    ThumbnailView,
>
    decreases ids.len(),
{
    if ids.len() == 0 {
        known
    } else {
        on_the_way(known, ids.drop_last()).insert(ids.last(), ThumbnailView::Loading)
    }
}

/// The address of an attachment.
pub open spec fn media_url(base: Seq<char>, id: u128) -> Seq<char> {
    base + "/media/"@ + id_text(id)
}

/// Whether two states differ in nothing but their entries.
pub open spec fn only_feed_differs(a: StateView, b: StateView) -> bool {
    b == StateView { entries: b.entries, seen: b.seen, ..a }
}

impl StateView {
    /// With one more entry. The oldest ones give way, and with them what is known of
    /// their messages.
    #[verifier::opaque]
    pub open spec fn pushed(self, entry: EntryView) -> StateView {
        let all = self.entries.push(entry);
        let gone = surplus(all.len() as int);
        StateView {
            entries: all.skip(gone),
            seen: self.seen.difference(chat_ids(all.take(gone))),
            ..self
        }
    }

    /// With one more line of the client itself.
    pub open spec fn told(self, kind: SystemKind, text: Seq<char>) -> StateView {
        self.pushed(EntryView::System { text, kind })
    }

    /// Whether a message is one's own.
    pub open spec fn is_mine(self, message: ChatMessageView) -> bool {
        self.me == Some(message.from.id)
    }

    /// Whether a message is new and calls one by name.
    pub open spec fn rings(self, message: ChatMessageView) -> bool {
        &&& !self.seen.contains(message.id)
        &&& !self.is_mine(message)
        &&& named_in(message.text, self.nickname)
    }

    /// With a message, unless it was shown before. Whoever has sent it has stopped
    /// typing.
    pub open spec fn heard(self, message: ChatMessageView, now: u64) -> StateView {
        let silent = StateView { typing: typing_without(self.typing, message.from.id), ..self };
        if self.seen.contains(message.id) {
            silent
        } else {
            StateView { seen: self.seen.insert(message.id), ..silent }.pushed(
                EntryView::Chat {
                    id: message.id,
                    from: message.from.nickname,
                    text: message.text,
                    ts: message.ts,
                    mine: self.is_mine(message),
                    mentions_me: !self.is_mine(message) && named_in(message.text, self.nickname),
                    attachment: message.attachment,
                    reply: message.reply,
                    arrived: now,
                },
            )
        }
    }

    /// With nothing left of the room.
    pub open spec fn forgotten(self) -> StateView {
        StateView {
            entries: Seq::empty(),
            seen: Set::empty(),
            thumbnails: Map::empty(),
            users: Seq::empty(),
            scrollback: 0,
            ..self
        }
    }

    /// With one more sent line; the same line twice in a row is kept once.
    pub open spec fn sent_line(self, line: Seq<char>) -> StateView {
        let more = self.sent.push(line);
        StateView {
            sent: if self.sent.len() > 0 && self.sent.last() == line {
                self.sent
            } else if more.len() > MAX_SENT {
                more.drop_first()
            } else {
                more
            },
            sent_cursor: None,
            draft: Seq::empty(),
            ..self
        }
    }

    /// With a sent line in the field.
    pub open spec fn with_line(self, at: int) -> StateView {
        StateView {
            sent_cursor: Some(at as usize),
            input: crate::input::InputView::of(self.sent[at]),
            ..self
        }
    }

    /// With what was typed before back in the field.
    pub open spec fn with_draft(self) -> StateView {
        StateView {
            sent_cursor: None,
            input: crate::input::InputView::of(self.draft),
            draft: Seq::empty(),
            ..self
        }
    }

    /// Looking through the sent lines, towards the older ones or back. Behind the last
    /// one stands what was typed before.
    #[verifier::opaque]
    pub open spec fn recalled(self, older: bool) -> StateView {
        if self.sent.len() == 0 {
            self
        } else {
            match (self.sent_cursor, older) {
                (None, true) => StateView { draft: self.input.text, ..self }.with_line(
                    self.sent.len() - 1,
                ),
                (None, false) => self,
                (Some(i), true) => self.with_line(
                    if i == 0 {
                        0
                    } else {
                        i - 1
                    },
                ),
                (Some(i), false) => if i + 1 < self.sent.len() {
                    self.with_line(i + 1)
                } else {
                    self.with_draft()
                },
            }
        }
    }

    /// The pictures that the feed lacks.
    pub open spec fn lacking(self) -> Seq<u128> {
        wanted(self.entries, THUMBNAIL_LOOKBACK as nat, self.thumbnails)
    }

    /// The pictures that the feed lacks are sent for.
    #[verifier::opaque]
    pub open spec fn thumbnails_queued(self) -> Step {
        if !self.inline_images || self.media_base.len() == 0 {
            quiet(self)
        } else {
            Step {
                state: StateView {
                    thumbnails: on_the_way(self.thumbnails, self.lacking()),
                    ..self
                },
                commands: self.lacking().map_values(
                    |id: u128| CommandView::Fetch(id, media_url(self.media_base, id)),
                ),
            }
        }
    }

    /// Those who are typing now, in the order of their names.
    pub open spec fn typing_names(self, now: u64) -> Seq<Seq<char>> {
        sorted(
            self.typing.filter(still_typing(now)).map_values(|t: TypistView| t.nickname),
            |a: Seq<char>, b: Seq<char>| String::ranks(a, b),
        )
    }
}

proof fn lemma_chat_ids_step(entries: Seq<EntryView>, k: int)
    requires
        0 <= k < entries.len(),
    ensures
        chat_ids(entries.take(k + 1)) == match entry_id(entries[k]) {
            Some(id) => chat_ids(entries.take(k)).insert(id),
            None => chat_ids(entries.take(k)),
        },
{
    let more = entries.take(k + 1);
    let less = entries.take(k);
    assert forall|id: u128| chat_ids(more).contains(id) <==> chat_ids(less).contains(id)
        || entry_id(entries[k]) == Some(id) by {
        if chat_ids(more).contains(id) {
            let i = choose|i: int| 0 <= i < more.len() && entry_id(#[trigger] more[i]) == Some(id);
            if i < k {
                assert(less[i] == more[i]);
            }
        }
        if chat_ids(less).contains(id) {
            let i = choose|i: int| 0 <= i < less.len() && entry_id(#[trigger] less[i]) == Some(id);
            assert(more[i] == less[i]);
        }
        if entry_id(entries[k]) == Some(id) {
            assert(more[k] == entries[k]);
        }
    }
    assert(chat_ids(more) =~= match entry_id(entries[k]) {
        Some(id) => chat_ids(less).insert(id),
        None => chat_ids(less),
    });
}

impl Known for Typist {
    open spec fn number(v: TypistView) -> u128 {
        v.id
    }

    fn id(&self) -> (r: u128) {
        self.id
    }
}

impl Known for UserInfo {
    open spec fn number(v: UserInfoView) -> u128 {
        v.id
    }

    fn id(&self) -> (r: u128) {
        self.id
    }
}

/// Takes somebody out of those who type.
fn drop_typist(typing: &mut Vec<Typist>, id: u128)
    ensures
        final(typing).deep_view() == typing_without(old(typing).deep_view(), id),
{
    drop_known(typing, id);
    assert(other_typist(id) =~= |v: TypistView| Typist::number(v) != id);
}

/// Takes somebody out of the people in the room.
pub fn drop_user(users: &mut Vec<UserInfo>, id: u128)
    ensures
        final(users).deep_view() == old(users).deep_view().filter(other_user(id)),
{
    drop_known(users, id);
    assert(other_user(id) =~= |v: UserInfoView| UserInfo::number(v) != id);
}

/// Whether somebody is among the people in the room.
#[verifier::loop_isolation(false)]
pub fn knows_user(users: &Vec<UserInfo>, id: u128) -> (r: bool)
    ensures
        r == crate::seqs::any_where(users.deep_view(), is_user(id)),
{
    let ghost all = users.deep_view();
    let mut i: usize = 0;
    while i < users.len()
        invariant
            i <= users@.len(),
            forall|k: int| 0 <= k < i ==> !is_user(id)(#[trigger] all[k]),
        decreases users@.len() - i,
    {
        if users[i].id == id {
            proof {
                assert(all[i as int] == users@[i as int].deep_view());
                lemma_first_where_is(all, is_user(id), i as int);
            }
            return true;
        }
        assert(all[i as int] == users@[i as int].deep_view());
        i = i + 1;
    }
    proof {
        assert(all.len() == users@.len());
        lemma_first_where_is(all, is_user(id), i as int);
    }
    false
}

/// Notes that somebody is typing.
#[verifier::loop_isolation(false)]
fn note_typist(typing: &mut Vec<Typist>, id: u128, nickname: String, at: u64)
    ensures
        final(typing).deep_view() == typing_said(old(typing).deep_view(), id, nickname@, at),
{
    let ghost all = typing.deep_view();
    let mut i: usize = 0;
    while i < typing.len() && typing[i].id != id
        invariant
            i <= typing@.len(),
            typing.deep_view() == all,
            forall|k: int| 0 <= k < i ==> !is_typist(id)(#[trigger] all[k]),
        decreases typing@.len() - i,
    {
        assert(all[i as int] == typing@[i as int].deep_view());
        i = i + 1;
    }
    proof {
        assert(all.len() == typing@.len());
        if i < all.len() {
            assert(all[i as int] == typing@[i as int].deep_view());
        }
        lemma_first_where_is(all, is_typist(id), i as int);
    }
    let typist = Typist { id, nickname, at };
    let ghost view = typist.deep_view();
    if i < typing.len() {
        typing.set(i, typist);
        assert(typing.deep_view() =~= all.update(i as int, view));
    } else {
        typing.push(typist);
        assert(typing.deep_view() =~= all.push(view));
    }
}

impl State {
    /// Adds an entry; the oldest ones give way.
    pub fn push(&mut self, entry: Entry)
        ensures
            final(self).deep_view() == old(self).deep_view().pushed(entry.deep_view()),
            only_feed_differs(old(self).deep_view(), final(self).deep_view()),
    {
        proof {
            reveal(StateView::pushed);
        }
        let ghost before = self.deep_view();
        let ghost all = before.entries.push(entry.deep_view());
        self.entries.push(entry);
        let ghost mut k: int = 0;
        proof {
            assert(self.entries.deep_view() =~= all.skip(0));
            assert(chat_ids(all.take(0)) =~= Set::<u128>::empty());
            assert(self.seen@ =~= before.seen.difference(chat_ids(all.take(0))));
        }
        while self.entries.len() > MAX_ENTRIES
            invariant
                0 <= k <= surplus(all.len() as int),
                all.len() >= 1,
                self.entries.deep_view() == all.skip(k),
                self.deep_view() == (StateView {
                    entries: all.skip(k),
                    seen: before.seen.difference(chat_ids(all.take(k))),
                    ..before
                }),
            decreases self.entries@.len(),
        {
            let ghost list = self.entries.deep_view();
            assert(list.len() == self.entries@.len());
            assert(list[0] == self.entries@[0].deep_view());
            let first = self.entries.remove(0);
            proof {
                assert(self.entries.deep_view() =~= list.drop_first());
                assert(list.drop_first() =~= all.skip(k + 1));
                lemma_chat_ids_step(all, k);
            }
            match &first {
                Entry::Chat { id, .. } => {
                    self.seen.remove(id);
                },
                Entry::System { .. } => {},
            }
            proof {
                assert(self.seen@ =~= before.seen.difference(chat_ids(all.take(k + 1))));
                k = k + 1;
            }
        }
        proof {
            assert(self.entries.deep_view().len() == self.entries@.len());
        }
    }

    /// Adds a line of the client itself.
    pub fn system(&mut self, kind: SystemKind, text: &str)
        ensures
            final(self).deep_view() == old(self).deep_view().told(kind, text@),
            only_feed_differs(old(self).deep_view(), final(self).deep_view()),
    {
        self.push(Entry::System { text: text.to_owned(), kind })
    }

    /// Adds a message, unless it was shown before. The result says whether it calls
    /// one by name.
    pub fn push_chat(&mut self, message: ChatMessage, now: u64) -> (r: bool)
        ensures
            final(self).deep_view() == old(self).deep_view().heard(message.deep_view(), now),
            r == old(self).deep_view().rings(message.deep_view()),
            only_feed_differs(
                StateView { typing: final(self).deep_view().typing, ..old(self).deep_view() },
                final(self).deep_view(),
            ),
    {
        drop_typist(&mut self.typing, message.from.id);
        if !self.seen.insert(message.id) {
            assert(self.seen@ =~= old(self).seen@);
            return false;
        }
        let mine = match self.me {
            Some(me) => me == message.from.id,
            None => false,
        };
        let mentions_me = !mine && mentions(message.text.as_str(), self.nickname.as_str());
        self.push(
            Entry::Chat {
                id: message.id,
                from: message.from.nickname,
                text: message.text,
                ts: message.ts,
                mine,
                mentions_me,
                attachment: message.attachment,
                reply: message.reply,
                arrived: now,
            },
        );
        mentions_me
    }

    /// Forgets the room.
    pub fn forget_room(&mut self)
        ensures
            final(self).deep_view() == old(self).deep_view().forgotten(),
    {
        self.entries.clear();
        self.seen.clear();
        self.thumbnails.clear();
        self.users.clear();
        self.scrollback = 0;
        assert(self.entries.deep_view() =~= Seq::<EntryView>::empty());
        assert(self.users.deep_view() =~= Seq::<UserInfoView>::empty());
        assert(map_view(self.thumbnails) =~= Map::<u128, ThumbnailView>::empty());
    }

    /// Puts the people in the order of their names.
    pub fn sort_users(&mut self)
        ensures
            final(self).deep_view() == (StateView {
                users: by_name(old(self).deep_view().users),
                ..old(self).deep_view()
            }),
    {
        let mut users: Vec<UserInfo> = Vec::new();
        std::mem::swap(&mut users, &mut self.users);
        self.users = sort(users);
        assert(self.users.deep_view() =~= by_name(old(self).users.deep_view()));
    }

    /// Notes that somebody is typing.
    pub fn note_typing(&mut self, user: UserInfo, now: u64)
        ensures
            final(self).deep_view() == (StateView {
                typing: typing_said(
                    old(self).deep_view().typing,
                    user.id,
                    user.nickname@,
                    now,
                ),
                ..old(self).deep_view()
            }),
    {
        note_typist(&mut self.typing, user.id, user.nickname, now);
    }

    /// Takes somebody out of the room.
    pub fn drop_person(&mut self, id: u128)
        ensures
            final(self).deep_view() == (StateView {
                users: old(self).deep_view().users.filter(other_user(id)),
                typing: typing_without(old(self).deep_view().typing, id),
                ..old(self).deep_view()
            }),
    {
        drop_user(&mut self.users, id);
        drop_typist(&mut self.typing, id);
    }

    /// Those who are typing now, in the order of their names.
    #[verifier::loop_isolation(false)]
    pub fn typing_now(&self, now: u64) -> (r: Vec<String>)
        ensures
            r.deep_view() == self.deep_view().typing_names(now),
    {
        let ghost all = self.typing.deep_view();
        let ghost test = still_typing(now);
        let ghost name = |t: TypistView| t.nickname;
        let mut names: Vec<String> = Vec::new();
        let mut i: usize = 0;
        assert(all.take(0).filter(test) =~= Seq::<TypistView>::empty());
        assert(names.deep_view() =~= all.take(0).filter(test).map_values(name));
        while i < self.typing.len()
            invariant
                i <= self.typing@.len(),
                names.deep_view() == all.take(i as int).filter(test).map_values(name),
            decreases self.typing@.len() - i,
        {
            let typist = &self.typing[i];
            let ghost before = names.deep_view();
            proof {
                assert(all[i as int] == typist.deep_view());
                lemma_filter_step(all, i as int, test);
            }
            let age: u64 = if now > typist.at {
                now - typist.at
            } else {
                0
            };
            if age < TYPING_TTL {
                names.push(typist.nickname.clone());
                proof {
                    let taken = all.take(i as int).filter(test);
                    assert(names.deep_view() =~= before.push(typist.nickname@));
                    assert(taken.push(all[i as int]).map_values(name) =~= taken.map_values(
                        name,
                    ).push(typist.nickname@));
                }
            }
            i = i + 1;
        }
        assert(all.take(all.len() as int) =~= all);
        sort(names)
    }

    /// Remembers a line that was sent.
    pub fn remember_sent(&mut self, line: &str)
        ensures
            final(self).deep_view() == old(self).deep_view().sent_line(line@),
    {
        let ghost before = self.sent.deep_view();
        let count: usize = self.sent.len();
        proof {
            if count > 0 {
                assert(before.last() == self.sent@[count - 1].deep_view());
            }
        }
        if count == 0 || !same(self.sent[count - 1].as_str(), line) {
            self.sent.push(line.to_owned());
            assert(self.sent.deep_view() =~= before.push(line@));
            if self.sent.len() > MAX_SENT {
                self.sent.remove(0);
                assert(self.sent.deep_view() =~= before.push(line@).drop_first());
            }
        }
        self.sent_cursor = None;
        self.draft = String::new();
        assert(self.draft@ =~= Seq::<char>::empty());
    }

    /// Puts a sent line into the field.
    fn show_line(&mut self, at: usize)
        requires
            at < old(self).sent@.len(),
        ensures
            final(self).deep_view() == old(self).deep_view().with_line(at as int),
            old(self).deep_view().wf() && old(self).completion is None ==> final(self).deep_view().wf(),
    {
        self.sent_cursor = Some(at);
        let line = self.sent[at].clone();
        assert(self.sent.deep_view()[at as int] == line@);
        self.input.set(line.as_str());
    }

    /// Puts what was typed before back into the field.
    fn show_draft(&mut self)
        ensures
            final(self).deep_view() == old(self).deep_view().with_draft(),
            old(self).deep_view().wf() && old(self).completion is None ==> final(self).deep_view().wf(),
    {
        self.sent_cursor = None;
        let draft = self.draft.clone();
        self.input.set(draft.as_str());
        self.draft = String::new();
        assert(self.draft@ =~= Seq::<char>::empty());
    }

    /// Looks through the sent lines.
    pub fn recall(&mut self, older: bool)
        requires
            old(self).deep_view().wf(),
        ensures
            final(self).deep_view() == old(self).deep_view().recalled(older),
            old(self).completion is None ==> final(self).deep_view().wf(),
    {
        proof {
            reveal(StateView::recalled);
        }
        let count: usize = self.sent.len();
        assert(self.sent.deep_view().len() == count);
        if count == 0 {
            return;
        }
        match (self.sent_cursor, older) {
            (None, true) => {
                self.draft = self.input.text.clone();
                self.show_line(count - 1);
            },
            (None, false) => {},
            (Some(i), true) => {
                self.show_line(
                    if i == 0 {
                        0
                    } else {
                        i - 1
                    },
                );
            },
            (Some(i), false) => {
                if i + 1 < count {
                    self.show_line(i + 1);
                } else {
                    self.show_draft();
                }
            },
        }
    }

    /// The pictures that the feed lacks, from the last one back.
    #[verifier::loop_isolation(false)]
    fn find_lacking(&self) -> (ids: Vec<u128>)
        ensures
            ids@ == self.deep_view().lacking(),
    {
        let ghost all = self.entries.deep_view();
        let ghost known = map_view(self.thumbnails);
        let mut ids: Vec<u128> = Vec::new();
        let mut i: usize = self.entries.len();
        let mut left: usize = THUMBNAIL_LOOKBACK;
        let ghost goal = self.deep_view().lacking();
        assert(all.take(all.len() as int) =~= all);
        assert(goal =~= ids@ + wanted(all, left as nat, known));
        while left > 0 && i > 0
            invariant
                i <= self.entries@.len(),
                goal == ids@ + wanted(all.take(i as int), left as nat, known),
            decreases left,
        {
            proof {
                assert(all.take(i as int).drop_last() =~= all.take(i - 1));
                assert(all.take(i as int).last() == all[i - 1]);
                assert(all[i - 1] == self.entries@[i - 1].deep_view());
            }
            i = i - 1;
            left = left - 1;
            let ghost rest = wanted(all.take(i as int), left as nat, known);
            match &self.entries[i] {
                Entry::Chat { attachment: Some(attachment), .. } => {
                    if attachment.kind == AttachmentKind::Image && !self.thumbnails.contains_key(
                        &attachment.id,
                    ) {
                        let ghost before = ids@;
                        ids.push(attachment.id);
                        assert(before + (seq![attachment.id] + rest) =~= ids@ + rest);
                    }
                },
                _ => {},
            }
        }
        assert(wanted(all.take(i as int), left as nat, known) =~= Seq::<u128>::empty());
        assert(goal =~= ids@);
        ids
    }

    /// Sends for the pictures that the feed lacks.
    #[verifier::loop_isolation(false)]
    pub fn queue_thumbnails(&mut self) -> (commands: Vec<Command>)
        ensures
            step_of(*final(self), commands) == old(self).deep_view().thumbnails_queued(),
            old(self).deep_view().wf() ==> final(self).deep_view().wf(),
    {
        proof {
            reveal(StateView::thumbnails_queued);
        }
        let mut commands: Vec<Command> = Vec::new();
        assert(commands.deep_view() =~= Seq::<CommandView>::empty());
        if !self.inline_images || self.media_base.as_str().is_empty() {
            return commands;
        }
        let ghost before = self.deep_view();
        let ghost f = |id: u128| CommandView::Fetch(id, media_url(before.media_base, id));
        let ids = self.find_lacking();
        let mut i: usize = 0;
        assert(ids@.take(0) =~= Seq::<u128>::empty());
        assert(commands.deep_view() =~= ids@.take(0).map_values(f));
        while i < ids.len()
            invariant
                i <= ids@.len(),
                self.deep_view() == (StateView {
                    thumbnails: on_the_way(before.thumbnails, ids@.take(i as int)),
                    ..before
                }),
                commands.deep_view() == ids@.take(i as int).map_values(f),
            decreases ids@.len() - i,
        {
            let id = ids[i];
            let url = glue3(self.media_base.as_str(), "/media/", write_id(id).as_str());
            let ghost sent = commands.deep_view();
            let ghost shown = map_view(self.thumbnails);
            self.thumbnails.insert(id, Thumbnail::Loading);
            commands.push(Command::Fetch(id, url));
            proof {
                let more = ids@.take(i + 1);
                assert(more.drop_last() =~= ids@.take(i as int));
                assert(map_view(self.thumbnails) =~= shown.insert(id, ThumbnailView::Loading));
                assert(commands.deep_view() =~= sent.push(f(id)));
                assert(more.map_values(f) =~= ids@.take(i as int).map_values(f).push(f(id)));
            }
            i = i + 1;
        }
        assert(ids@.take(ids@.len() as int) =~= ids@);
        commands
    }
}

} // verus!
