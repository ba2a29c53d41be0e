//! The rooms of a server: who is in them, what was said, who is told what.
//!
//! The hub decides; it sends nothing itself. Whatever has to reach people comes
//! back as a list of deliveries. Whose connection has gone is not known here
//! either: it is handed in as the list of closed connections, and those people
//! are dropped the next time something is sent to their room.
use crate::protocol::{
    AttachmentView, ChatMessage, ChatMessageView, ErrorCode, ReplyPreview, ReplyPreviewView,
    RoomSummary, RoomSummaryView, ServerMessage, ServerMessageView, UserInfo, UserInfoView,
    REPLY_EXCERPT_CHARS,
};
use crate::seqs::{
    any_where, first_where, lemma_first_where_is, sort, sorted, text_before, text_le, Ranked,
};
use crate::text::{decimal, glue3, head, lower, number, same, take_chars};
use crate::validate::nickname_key;
use vstd::prelude::*;

verus! {

/// The limits of a server.
#[derive(Debug, Clone, Copy)]
pub struct HubConfig {
    /// How many milliseconds a connection has to name itself.
    ///
    /// Without this a client that hangs in the handshake would hold its socket
    /// for ever.
    pub join_timeout: u64,
    /// How many connections there may be at once, those without a name included.
    pub max_sockets: usize,
    pub max_rooms: usize,
    pub max_room_users: usize,
    /// How many of the last messages of a room a newcomer is given.
    pub history_limit: usize,
}

impl Default for HubConfig {
    fn default() -> (r: Self)
        ensures
            r == (HubConfig {
                join_timeout: 10_000,
                max_sockets: 512,
                max_rooms: 64,
                max_room_users: 64,
                history_limit: 50,
            }),
    {
        HubConfig {
            join_timeout: 10_000,
            max_sockets: 512,
            max_rooms: 64,
            max_room_users: 64,
            history_limit: 50,
        }
    }
}

/// How many milliseconds have to pass before somebody is shown as typing again.
pub const TYPING_GAP: u64 = 1000;

/// Somebody in a room.
pub struct Peer {
    pub user: UserInfo,
    /// When this person was last shown as typing. Without it a faulty client
    /// would flood the room.
    pub last_typing: Option<u64>,
}

pub struct PeerView {
    pub user: UserInfoView,
    pub last_typing: Option<u64>,
}

impl DeepView for Peer {
    type V = PeerView;

    open spec fn deep_view(&self) -> PeerView {
        PeerView { user: self.user.deep_view(), last_typing: self.last_typing }
    }
}

/// A room: its people and its last messages, both in the order in which they came.
pub struct Room {
    pub name: String,
    pub peers: Vec<Peer>,
    pub history: Vec<ChatMessage>,
}

#[verifier::ext_equal]
pub struct RoomView {
    pub name: Seq<char>,
    pub peers: Seq<PeerView>,
    pub history: Seq<ChatMessageView>,
}

impl DeepView for Room {
    type V = RoomView;

    open spec fn deep_view(&self) -> RoomView {
        RoomView {
            name: self.name@,
            peers: self.peers.deep_view(),
            history: self.history.deep_view(),
        }
    }
}

/// A message on its way to one person.
#[derive(Debug, PartialEq, Eq)]
pub struct Delivery {
    pub to: u128,
    pub message: ServerMessage,
}

pub struct DeliveryView {
    pub to: u128,
    pub message: ServerMessageView,
}

impl DeepView for Delivery {
    type V = DeliveryView;

    open spec fn deep_view(&self) -> DeliveryView {
        DeliveryView { to: self.to, message: self.message.deep_view() }
    }
}

/// Whether a person has the given identifier.
pub open spec fn has_id(id: u128) -> spec_fn(PeerView) -> bool {
    |p: PeerView| p.user.id == id
}

/// Whether a person does not have the given identifier.
pub open spec fn lacks_id(id: u128) -> spec_fn(PeerView) -> bool {
    |p: PeerView| p.user.id != id
}

/// Whether a person's name is the same as another but for letter case.
pub open spec fn goes_by(nickname: Seq<char>) -> spec_fn(PeerView) -> bool {
    |p: PeerView| lower(p.user.nickname) == lower(nickname)
}

/// Whether a room has the given name.
pub open spec fn called(name: Seq<char>) -> spec_fn(RoomView) -> bool {
    |r: RoomView| r.name == name
}

/// Whether a message has the given identifier.
pub open spec fn is_message(id: u128) -> spec_fn(ChatMessageView) -> bool {
    |m: ChatMessageView| m.id == id
}

/// Whether a person's connection is still open.
pub open spec fn reachable(closed: Seq<u128>) -> spec_fn(PeerView) -> bool {
    |p: PeerView| !closed.contains(p.user.id)
}

/// The people whose connection is still open.
pub open spec fn live(peers: Seq<PeerView>, closed: Seq<u128>) -> Seq<PeerView> {
    peers.filter(reachable(closed))
}

/// One message to each of the given people.
pub open spec fn to_each(peers: Seq<PeerView>, message: ServerMessageView) -> Seq<DeliveryView> {
    peers.map_values(|p: PeerView| DeliveryView { to: p.user.id, message })
}

/// A person seated in a room: in the place of the one with the same identifier,
/// or at the end.
pub open spec fn seated(peers: Seq<PeerView>, peer: PeerView) -> Seq<PeerView> {
    let at = first_where(peers, has_id(peer.user.id));
    if at < peers.len() {
        peers.update(at, peer)
    } else {
        peers.push(peer)
    }
}

/// What a quote shows of a message: the beginning of its text, or the name of its
/// attachment where it has no text.
pub open spec fn excerpt(text: Seq<char>, attachment: Option<AttachmentView>) -> Seq<char> {
    if text.len() == 0 {
        match attachment {
            Some(a) => a.name,
            None => Seq::empty(),
        }
    } else {
        head(text, REPLY_EXCERPT_CHARS as int)
    }
}

impl RoomView {
    /// The quote of a message, as long as the message is remembered.
    pub open spec fn quote(self, id: u128) -> Option<ReplyPreviewView> {
        let at = first_where(self.history, is_message(id));
        if at < self.history.len() {
            let m = self.history[at];
            Some(
                ReplyPreviewView {
                    id: m.id,
                    nickname: m.from.nickname,
                    excerpt: excerpt(m.text, m.attachment),
                },
            )
        } else {
            None
        }
    }

    /// The room after one more message, with the oldest forgotten where there are
    /// too many.
    pub open spec fn remembering(self, message: ChatMessageView, limit: usize) -> RoomView {
        if limit == 0 {
            self
        } else if self.history.len() >= limit {
            RoomView { history: self.history.drop_first().push(message), ..self }
        } else {
            RoomView { history: self.history.push(message), ..self }
        }
    }

    /// The room without the people whose connection has gone.
    pub open spec fn pruned(self, closed: Seq<u128>) -> RoomView {
        RoomView { peers: live(self.peers, closed), ..self }
    }
}

/// Whether a connection is among the closed ones.
#[verifier::loop_isolation(false)]
fn is_closed(closed: &Vec<u128>, id: u128) -> (r: bool)
    ensures
        r == closed@.contains(id),
{
    let mut i: usize = 0;
    while i < closed.len()
        invariant
            i <= closed@.len(),
            forall|j: int| 0 <= j < i ==> closed@[j] != id,
        decreases closed@.len() - i,
    {
        if closed[i] == id {
            return true;
        }
        i = i + 1;
    }
    false
}

/// Drops the people whose connection has gone.
#[verifier::loop_isolation(false)]
fn prune(peers: &mut Vec<Peer>, closed: &Vec<u128>)
    ensures
        final(peers).deep_view() == live(old(peers).deep_view(), closed@),
{
    let ghost all = peers.deep_view();
    let ghost pass = reachable(closed@);
    let ghost mut done: int = 0;
    let mut i: usize = 0;
    proof {
        reveal(Seq::filter);
        assert(all.take(0).filter(pass) =~= Seq::empty());
    }
    while i < peers.len()
        invariant
            0 <= done <= all.len(),
            i <= peers@.len(),
            peers@.len() - i == all.len() - done,
            peers.deep_view().take(i as int) == all.take(done).filter(pass),
            peers.deep_view().skip(i as int) == all.skip(done),
        decreases all.len() - done,
    {
        let ghost now = peers.deep_view();
        proof {
            assert(now.skip(i as int)[0] == now[i as int]);
            assert(all.skip(done)[0] == all[done]);
            assert(all.take(done + 1) =~= all.take(done).push(all[done]));
            all.take(done).lemma_filter_push(all[done], pass);
        }
        if is_closed(closed, peers[i].user.id) {
            peers.remove(i);
            assert(peers.deep_view() =~= now.remove(i as int));
            assert(peers.deep_view().take(i as int) =~= now.take(i as int));
            assert(peers.deep_view().skip(i as int) =~= now.skip(i as int).drop_first());
        } else {
            assert(now.take(i + 1) =~= now.take(i as int).push(now[i as int]));
            i = i + 1;
            assert(now.skip(i as int) =~= now.skip(i - 1).drop_first());
        }
        assert(all.skip(done).drop_first() =~= all.skip(done + 1));
        proof {
            done = done + 1;
        }
    }
    assert(all.take(done) =~= all);
    assert(peers.deep_view().take(i as int) =~= peers.deep_view());
}

/// One message to each of the given people.
#[verifier::loop_isolation(false)]
fn tell(peers: &Vec<Peer>, message: &ServerMessage) -> (out: Vec<Delivery>)
    ensures
        out.deep_view() == to_each(peers.deep_view(), message.deep_view()),
{
    let mut out: Vec<Delivery> = Vec::new();
    let ghost all = to_each(peers.deep_view(), message.deep_view());
    let mut i: usize = 0;
    while i < peers.len()
        invariant
            i <= peers@.len(),
            out.deep_view() == all.take(i as int),
        decreases peers@.len() - i,
    {
        out.push(Delivery { to: peers[i].user.id, message: message.clone() });
        i = i + 1;
        assert(out.deep_view() =~= all.take(i as int));
    }
    assert(all.take(i as int) =~= all);
    out
}

/// Where the person with the given identifier stands; the length where nobody
/// has it.
#[verifier::loop_isolation(false)]
fn find_peer(peers: &Vec<Peer>, id: u128) -> (at: usize)
    ensures
        at == first_where(peers.deep_view(), has_id(id)),
        at <= peers@.len(),
{
    let mut i: usize = 0;
    while i < peers.len() && peers[i].user.id != id
        invariant
            i <= peers@.len(),
            forall|j: int| 0 <= j < i ==> !has_id(id)(#[trigger] peers.deep_view()[j]),
        decreases peers@.len() - i,
    {
        i = i + 1;
    }
    proof {
        lemma_first_where_is(peers.deep_view(), has_id(id), i as int);
    }
    i
}

impl Room {
    /// Puts a quote together from what the room remembers.
    ///
    /// Where the message has been forgotten there is no quote: to lose the whole
    /// answer over that would be a pity.
    #[verifier::loop_isolation(false)]
    pub fn quote(&self, id: u128) -> (r: Option<ReplyPreview>)
        ensures
            r.deep_view() == self.deep_view().quote(id),
    {
        let ghost all = self.history.deep_view();
        let mut i: usize = 0;
        while i < self.history.len() && self.history[i].id != id
            invariant
                i <= self.history@.len(),
                forall|j: int| 0 <= j < i ==> !is_message(id)(#[trigger] all[j]),
            decreases self.history@.len() - i,
        {
            i = i + 1;
        }
        proof {
            lemma_first_where_is(all, is_message(id), i as int);
        }
        if i == self.history.len() {
            return None;
        }
        let message = &self.history[i];
        let excerpt = if message.text.as_str().is_empty() {
            match &message.attachment {
                Some(attachment) => attachment.name.clone(),
                None => String::new(),
            }
        } else {
            take_chars(message.text.as_str(), REPLY_EXCERPT_CHARS)
        };
        Some(
            ReplyPreview {
                id: message.id,
                nickname: message.from.nickname.clone(),
                excerpt,
            },
        )
    }

    /// Sends a message to all in the room and drops those whose connection has
    /// gone.
    pub fn broadcast(&mut self, message: &ServerMessage, closed: &Vec<u128>) -> (out: Vec<Delivery>)
        ensures
            final(self).deep_view() == old(self).deep_view().pruned(closed@),
            out.deep_view() == to_each(final(self).deep_view().peers, message.deep_view()),
    {
        prune(&mut self.peers, closed);
        tell(&self.peers, message)
    }

    /// Remembers a message and sends it, in one move: what is remembered and what
    /// people see cannot differ.
    pub fn post(&mut self, message: ChatMessage, limit: usize, closed: &Vec<u128>) -> (out: Vec<
        Delivery,
    >)
        ensures
            final(self).deep_view() == old(self).deep_view().remembering(
                message.deep_view(),
                limit,
            ).pruned(closed@),
            out.deep_view() == to_each(
                final(self).deep_view().peers,
                ServerMessageView::Chat(message.deep_view()),
            ),
    {
        if limit > 0 {
            let ghost before = self.history.deep_view();
            if self.history.len() >= limit {
                self.history.remove(0);
                assert(self.history.deep_view() =~= before.drop_first());
            }
            let ghost kept = self.history.deep_view();
            self.history.push(message.clone());
            assert(self.history.deep_view() =~= kept.push(message.deep_view()));
        }
        self.broadcast(&ServerMessage::Chat(message), closed)
    }
}

/// All rooms of a server.
pub struct Hub {
    config: HubConfig,
    /// The open connections, those that have not joined a room included.
    sockets: usize,
    rooms: Vec<Room>,
}

#[verifier::ext_equal]
pub struct HubView {
    pub config: HubConfig,
    pub sockets: usize,
    pub rooms: Seq<RoomView>,
}

impl DeepView for Hub {
    type V = HubView;

    closed spec fn deep_view(&self) -> HubView {
        HubView { config: self.config, sockets: self.sockets, rooms: self.rooms.deep_view() }
    }
}

/// What a newcomer learns about the room, and who is told of them.
pub struct Joined {
    pub others: Vec<UserInfo>,
    pub history: Vec<ChatMessage>,
    pub notices: Vec<Delivery>,
}

/// Why somebody may not enter.
pub struct Refusal {
    pub code: ErrorCode,
    pub message: String,
}

pub struct RefusalView {
    pub code: ErrorCode,
    pub message: Seq<char>,
}

impl DeepView for Refusal {
    type V = RefusalView;

    open spec fn deep_view(&self) -> RefusalView {
        RefusalView { code: self.code, message: self.message@ }
    }
}

/// The users of the given people.
pub open spec fn users_of(peers: Seq<PeerView>) -> Seq<UserInfoView> {
    peers.map_values(|p: PeerView| p.user)
}

impl HubView {
    /// Where a room stands; the number of rooms where there is no such room.
    pub open spec fn room_at(self, name: Seq<char>) -> int {
        first_where(self.rooms, called(name))
    }

    pub open spec fn has_room(self, name: Seq<char>) -> bool {
        self.room_at(name) < self.rooms.len()
    }

    /// The room of the given name: an empty one where there is none yet.
    pub open spec fn room(self, name: Seq<char>) -> RoomView {
        if self.has_room(name) {
            self.rooms[self.room_at(name)]
        } else {
            RoomView { name, peers: Seq::empty(), history: Seq::empty() }
        }
    }

    /// The rooms with one of them replaced, or added where there was none.
    pub open spec fn with_room(self, name: Seq<char>, room: RoomView) -> HubView {
        if self.has_room(name) {
            HubView { rooms: self.rooms.update(self.room_at(name), room), ..self }
        } else {
            HubView { rooms: self.rooms.push(room), ..self }
        }
    }

    /// With one more connection, where there is a place for it.
    pub open spec fn one_more_socket(self) -> Option<HubView> {
        if self.sockets < self.config.max_sockets {
            Some(HubView { sockets: (self.sockets + 1) as usize, ..self })
        } else {
            None
        }
    }

    /// With a connection less.
    pub open spec fn one_socket_less(self) -> HubView {
        HubView { sockets: (self.sockets - 1) as usize, ..self }
    }

    /// Why a user may not enter a room, if so.
    pub open spec fn refusal(self, name: Seq<char>, user: UserInfoView) -> Option<RefusalView> {
        if self.has_room(name) {
            let room = self.room(name);
            if room.peers.len() >= self.config.max_room_users {
                Some(
                    RefusalView {
                        code: ErrorCode::RoomFull,
                        message: "в комнате уже "@ + decimal(room.peers.len()) + " человек"@,
                    },
                )
            } else if any_where(room.peers, goes_by(user.nickname)) {
                Some(
                    RefusalView {
                        code: ErrorCode::NicknameTaken,
                        message: "ник "@ + user.nickname + " в этой комнате уже занят"@,
                    },
                )
            } else {
                None
            }
        } else if self.rooms.len() >= self.config.max_rooms {
            Some(
                RefusalView { code: ErrorCode::ServerFull, message: "слишком много комнат"@ },
            )
        } else {
            None
        }
    }

    /// The rooms after a user has entered one.
    pub open spec fn joined(
        self,
        name: Seq<char>,
        user: UserInfoView,
        closed: Seq<u128>,
    ) -> HubView {
        let room = self.room(name).pruned(closed);
        self.with_room(
            name,
            RoomView { peers: seated(room.peers, PeerView { user, last_typing: None }), ..room },
        )
    }

    /// Whom a newcomer finds in a room.
    pub open spec fn others_in(self, name: Seq<char>, closed: Seq<u128>) -> Seq<UserInfoView> {
        users_of(self.room(name).pruned(closed).peers)
    }

    /// Who is told of a newcomer.
    pub open spec fn join_notices(
        self,
        name: Seq<char>,
        user: UserInfoView,
        closed: Seq<u128>,
    ) -> Seq<DeliveryView> {
        to_each(
            self.room(name).pruned(closed).peers,
            ServerMessageView::UserJoined { user },
        )
    }

    /// Whether somebody with the given identifier is in a room.
    pub open spec fn is_in(self, name: Seq<char>, id: u128) -> bool {
        self.has_room(name) && any_where(self.room(name).peers, has_id(id))
    }

    /// The room that somebody has just left, with the rest of its people.
    pub open spec fn room_left(self, name: Seq<char>, id: u128, closed: Seq<u128>) -> RoomView {
        let room = self.room(name);
        RoomView {
            peers: room.peers.remove(first_where(room.peers, has_id(id))),
            ..room
        }.pruned(closed)
    }

    /// The rooms after somebody has left one: an empty room is given up.
    pub open spec fn left(self, name: Seq<char>, id: u128, closed: Seq<u128>) -> HubView {
        if !self.is_in(name, id) {
            self
        } else if self.room_left(name, id, closed).peers.len() == 0 {
            HubView { rooms: self.rooms.remove(self.room_at(name)), ..self }
        } else {
            self.with_room(name, self.room_left(name, id, closed))
        }
    }

    /// Who is told that somebody has left.
    pub open spec fn left_notices(
        self,
        name: Seq<char>,
        id: u128,
        closed: Seq<u128>,
    ) -> Seq<DeliveryView> {
        if !self.is_in(name, id) {
            Seq::empty()
        } else {
            let peers = self.room(name).peers;
            to_each(
                self.room_left(name, id, closed).peers,
                ServerMessageView::UserLeft { user: peers[first_where(peers, has_id(id))].user },
            )
        }
    }

    /// Whether it is time to show somebody as typing again.
    pub open spec fn shows_typing(self, name: Seq<char>, id: u128, now: u64) -> bool {
        let peers = self.room(name).peers;
        &&& self.is_in(name, id)
        &&& match peers[first_where(peers, has_id(id))].last_typing {
            Some(last) => now - last >= TYPING_GAP,
            None => true,
        }
    }

    /// The room in which somebody types.
    pub open spec fn room_typing(
        self,
        name: Seq<char>,
        id: u128,
        now: u64,
        closed: Seq<u128>,
    ) -> RoomView {
        let room = self.room(name);
        let at = first_where(room.peers, has_id(id));
        let marked = room.peers.update(
            at,
            PeerView { last_typing: Some(now), ..room.peers[at] },
        );
        RoomView {
            peers: marked.filter(|p: PeerView| p.user.id == id || reachable(closed)(p)),
            ..room
        }
    }

    /// The rooms after somebody has typed.
    pub open spec fn typed(self, name: Seq<char>, id: u128, now: u64, closed: Seq<u128>) -> HubView {
        if self.shows_typing(name, id, now) {
            self.with_room(name, self.room_typing(name, id, now, closed))
        } else {
            self
        }
    }

    /// Who is told that somebody types: everybody else in the room.
    pub open spec fn typing_notices(
        self,
        name: Seq<char>,
        user: UserInfoView,
        now: u64,
        closed: Seq<u128>,
    ) -> Seq<DeliveryView> {
        if self.shows_typing(name, user.id, now) {
            to_each(
                self.room_typing(name, user.id, now, closed).peers.filter(lacks_id(user.id)),
                ServerMessageView::Typing { user },
            )
        } else {
            Seq::empty()
        }
    }

    /// A message with its quote, as the room knows it.
    pub open spec fn quoting(
        self,
        name: Seq<char>,
        message: ChatMessageView,
        reply_to: Option<u128>,
    ) -> ChatMessageView {
        ChatMessageView {
            reply: match reply_to {
                Some(id) => self.room(name).quote(id),
                None => None,
            },
            ..message
        }
    }

    /// The room that a message has reached, with those who could be told.
    pub open spec fn room_posted(
        self,
        name: Seq<char>,
        message: ChatMessageView,
        reply_to: Option<u128>,
        closed: Seq<u128>,
    ) -> RoomView {
        self.room(name).remembering(
            self.quoting(name, message, reply_to),
            self.config.history_limit,
        ).pruned(closed)
    }

    /// The rooms after a message: a room in which nobody could be told is given up.
    pub open spec fn posted(
        self,
        name: Seq<char>,
        message: ChatMessageView,
        reply_to: Option<u128>,
        closed: Seq<u128>,
    ) -> HubView {
        if !self.has_room(name) {
            self
        } else if self.room_posted(name, message, reply_to, closed).peers.len() == 0 {
            HubView { rooms: self.rooms.remove(self.room_at(name)), ..self }
        } else {
            self.with_room(name, self.room_posted(name, message, reply_to, closed))
        }
    }

    /// Who gets a message: everybody in the room, its author included.
    pub open spec fn post_notices(
        self,
        name: Seq<char>,
        message: ChatMessageView,
        reply_to: Option<u128>,
        closed: Seq<u128>,
    ) -> Seq<DeliveryView> {
        if self.has_room(name) {
            to_each(
                live(self.room(name).peers, closed),
                ServerMessageView::Chat(self.quoting(name, message, reply_to)),
            )
        } else {
            Seq::empty()
        }
    }

    /// The rooms with their numbers of people, by name.
    pub open spec fn summary(self) -> Seq<RoomSummaryView> {
        sorted(
            self.rooms.map_values(
                |r: RoomView| RoomSummaryView { name: r.name, users: r.peers.len() as usize },
            ),
            |a: RoomSummaryView, b: RoomSummaryView| text_le(a.name, b.name),
        )
    }
}

impl Ranked for RoomSummary {
    open spec fn ranks(a: RoomSummaryView, b: RoomSummaryView) -> bool {
        text_le(a.name, b.name)
    }

    fn before(&self, other: &Self) -> (r: bool) {
        text_before(self.name.as_str(), other.name.as_str())
    }
}

/// Drops one person's place from the room.
fn drop_peer(peers: &mut Vec<Peer>, at: usize) -> (peer: Peer)
    requires
        at < old(peers)@.len(),
    ensures
        peer.deep_view() == old(peers).deep_view()[at as int],
        final(peers).deep_view() == old(peers).deep_view().remove(at as int),
{
    let ghost before = peers.deep_view();
    let peer = peers.remove(at);
    assert(peers.deep_view() =~= before.remove(at as int));
    peer
}

/// Seats a person.
fn seat(peers: &mut Vec<Peer>, peer: Peer)
    ensures
        final(peers).deep_view() == seated(old(peers).deep_view(), peer.deep_view()),
{
    let ghost before = peers.deep_view();
    let at = find_peer(peers, peer.user.id);
    if at < peers.len() {
        peers.set(at, peer);
        assert(peers.deep_view() =~= before.update(at as int, peer.deep_view()));
    } else {
        peers.push(peer);
        assert(peers.deep_view() =~= before.push(peer.deep_view()));
    }
}

/// Drops the people whose connection has gone, but for one of them.
#[verifier::loop_isolation(false)]
fn prune_but(peers: &mut Vec<Peer>, id: u128, closed: &Vec<u128>)
    ensures
        final(peers).deep_view() == old(peers).deep_view().filter(
            |p: PeerView| p.user.id == id || reachable(closed@)(p),
        ),
{
    let ghost all = peers.deep_view();
    let ghost pass = |p: PeerView| p.user.id == id || reachable(closed@)(p);
    let ghost mut done: int = 0;
    let mut i: usize = 0;
    proof {
        reveal(Seq::filter);
        assert(all.take(0).filter(pass) =~= Seq::empty());
    }
    while i < peers.len()
        invariant
            0 <= done <= all.len(),
            i <= peers@.len(),
            peers@.len() - i == all.len() - done,
            peers.deep_view().take(i as int) == all.take(done).filter(pass),
            peers.deep_view().skip(i as int) == all.skip(done),
        decreases all.len() - done,
    {
        let ghost now = peers.deep_view();
        proof {
            assert(now.skip(i as int)[0] == now[i as int]);
            assert(all.skip(done)[0] == all[done]);
            assert(all.take(done + 1) =~= all.take(done).push(all[done]));
            all.take(done).lemma_filter_push(all[done], pass);
        }
        if peers[i].user.id != id && is_closed(closed, peers[i].user.id) {
            peers.remove(i);
            assert(peers.deep_view() =~= now.remove(i as int));
            assert(peers.deep_view().take(i as int) =~= now.take(i as int));
            assert(peers.deep_view().skip(i as int) =~= now.skip(i as int).drop_first());
        } else {
            assert(now.take(i + 1) =~= now.take(i as int).push(now[i as int]));
            i = i + 1;
            assert(now.skip(i as int) =~= now.skip(i - 1).drop_first());
        }
        assert(all.skip(done).drop_first() =~= all.skip(done + 1));
        proof {
            done = done + 1;
        }
    }
    assert(all.take(done) =~= all);
    assert(peers.deep_view().take(i as int) =~= peers.deep_view());
}

/// One message to each of the given people but for one.
#[verifier::loop_isolation(false)]
fn tell_but(peers: &Vec<Peer>, id: u128, message: &ServerMessage) -> (out: Vec<Delivery>)
    ensures
        out.deep_view() == to_each(
            peers.deep_view().filter(lacks_id(id)),
            message.deep_view(),
        ),
{
    let mut out: Vec<Delivery> = Vec::new();
    let ghost all = peers.deep_view();
    let ghost pass = lacks_id(id);
    let mut i: usize = 0;
    proof {
        reveal(Seq::filter);
        assert(all.take(0).filter(pass) =~= Seq::empty());
        assert(out.deep_view() =~= to_each(all.take(0).filter(pass), message.deep_view()));
    }
    while i < peers.len()
        invariant
            i <= peers@.len(),
            out.deep_view() == to_each(all.take(i as int).filter(pass), message.deep_view()),
        decreases peers@.len() - i,
    {
        proof {
            assert(all.take(i + 1) =~= all.take(i as int).push(all[i as int]));
            all.take(i as int).lemma_filter_push(all[i as int], pass);
        }
        let ghost before = out.deep_view();
        let to = peers[i].user.id;
        if to != id {
            out.push(Delivery { to, message: message.clone() });
            assert(out.deep_view() =~= before.push(
                DeliveryView { to, message: message.deep_view() },
            ));
        }
        i = i + 1;
        assert(out.deep_view() =~= to_each(all.take(i as int).filter(pass), message.deep_view()));
    }
    assert(all.take(i as int) =~= all);
    out
}

/// The users of the given people.
#[verifier::loop_isolation(false)]
fn list_users(peers: &Vec<Peer>) -> (out: Vec<UserInfo>)
    ensures
        out.deep_view() == users_of(peers.deep_view()),
{
    let mut out: Vec<UserInfo> = Vec::new();
    let ghost all = users_of(peers.deep_view());
    let mut i: usize = 0;
    while i < peers.len()
        invariant
            i <= peers@.len(),
            out.deep_view() == all.take(i as int),
        decreases peers@.len() - i,
    {
        out.push(peers[i].user.clone());
        i = i + 1;
        assert(out.deep_view() =~= all.take(i as int));
    }
    assert(all.take(i as int) =~= all);
    out
}

/// Whether somebody's name is the same as another but for letter case.
#[verifier::loop_isolation(false)]
fn name_taken(peers: &Vec<Peer>, nickname: &str) -> (r: bool)
    ensures
        r == any_where(peers.deep_view(), goes_by(nickname@)),
{
    let key = nickname_key(nickname);
    let ghost test = goes_by(nickname@);
    let mut i: usize = 0;
    while i < peers.len() && !same(
        nickname_key(peers[i].user.nickname.as_str()).as_str(),
        key.as_str(),
    )
        invariant
            i <= peers@.len(),
            forall|j: int| 0 <= j < i ==> !test(#[trigger] peers.deep_view()[j]),
        decreases peers@.len() - i,
    {
        i = i + 1;
    }
    proof {
        lemma_first_where_is(peers.deep_view(), test, i as int);
    }
    i < peers.len()
}

impl Hub {
    /// A server without rooms.
    pub fn new(config: HubConfig) -> (r: Self)
        ensures
            r.deep_view() == (HubView { config, sockets: 0, rooms: Seq::empty() }),
    {
        let rooms: Vec<Room> = Vec::new();
        assert(rooms.deep_view() =~= Seq::empty());
        Hub { config, sockets: 0, rooms }
    }

    pub fn config(&self) -> (r: HubConfig)
        ensures
            r == self.deep_view().config,
    {
        self.config
    }

    /// Takes a place for a connection; there may be none left.
    pub fn reserve_socket(&mut self) -> (r: bool)
        ensures
            r == (old(self).deep_view().sockets < old(self).deep_view().config.max_sockets),
            final(self).deep_view() == (HubView {
                sockets: (old(self).deep_view().sockets + if r {
                    1int
                } else {
                    0
                }) as usize,
                ..old(self).deep_view()
            }),
            match old(self).deep_view().one_more_socket() {
                Some(after) => r && final(self).deep_view() == after,
                None => !r && final(self).deep_view() == old(self).deep_view(),
            },
    {
        if self.sockets < self.config.max_sockets {
            self.sockets = self.sockets + 1;
            true
        } else {
            false
        }
    }

    /// Gives a place back.
    pub fn release_socket(&mut self)
        requires
            old(self).deep_view().sockets > 0,
        ensures
            final(self).deep_view() == (HubView {
                sockets: (old(self).deep_view().sockets - 1) as usize,
                ..old(self).deep_view()
            }),
            final(self).deep_view() == old(self).deep_view().one_socket_less(),
    {
        self.sockets = self.sockets - 1;
    }

    #[verifier::loop_isolation(false)]
    fn find_room(&self, name: &str) -> (at: usize)
        ensures
            at == self.deep_view().room_at(name@),
            at <= self.rooms@.len(),
    {
        let ghost all = self.rooms.deep_view();
        let mut i: usize = 0;
        while i < self.rooms.len() && !same(self.rooms[i].name.as_str(), name)
            invariant
                i <= self.rooms@.len(),
                forall|j: int| 0 <= j < i ==> !called(name@)(#[trigger] all[j]),
            decreases self.rooms@.len() - i,
        {
            i = i + 1;
        }
        proof {
            lemma_first_where_is(all, called(name@), i as int);
        }
        i
    }

    /// Lets a user into a room.
    ///
    /// The check of the name, the news to those already there and the new place
    /// are one step: two equal names can never slip in, and a newcomer can miss
    /// nobody.
    pub fn join(&mut self, room_name: &str, user: UserInfo, closed: &Vec<u128>) -> (r: Result<
        Joined,
        Refusal,
    >)
        ensures
            match r {
                Ok(joined) => {
                    &&& old(self).deep_view().refusal(room_name@, user.deep_view()) is None
                    &&& final(self).deep_view() == old(self).deep_view().joined(
                        room_name@,
                        user.deep_view(),
                        closed@,
                    )
                    &&& joined.others.deep_view() == old(self).deep_view().others_in(
                        room_name@,
                        closed@,
                    )
                    &&& joined.history.deep_view() == old(self).deep_view().room(
                        room_name@,
                    ).history
                    &&& joined.notices.deep_view() == old(self).deep_view().join_notices(
                        room_name@,
                        user.deep_view(),
                        closed@,
                    )
                },
                Err(refusal) => {
                    &&& old(self).deep_view().refusal(room_name@, user.deep_view()) == Some(
                        refusal.deep_view(),
                    )
                    &&& final(self).deep_view() == old(self).deep_view()
                },
            },
    {
        let ghost before = self.deep_view();
        let at = self.find_room(room_name);
        if at < self.rooms.len() {
            let count: usize = self.rooms[at].peers.len();
            if count >= self.config.max_room_users {
                return Err(
                    Refusal {
                        code: ErrorCode::RoomFull,
                        message: glue3(
                            "в комнате уже ",
                            number(count as u64).as_str(),
                            " человек",
                        ),
                    },
                );
            }
            if name_taken(&self.rooms[at].peers, user.nickname.as_str()) {
                return Err(
                    Refusal {
                        code: ErrorCode::NicknameTaken,
                        message: glue3(
                            "ник ",
                            user.nickname.as_str(),
                            " в этой комнате уже занят",
                        ),
                    },
                );
            }
        } else {
            if self.rooms.len() >= self.config.max_rooms {
                return Err(
                    Refusal {
                        code: ErrorCode::ServerFull,
                        message: "слишком много комнат".to_owned(),
                    },
                );
            }
        }
        let mut room = if at < self.rooms.len() {
            self.rooms.remove(at)
        } else {
            let peers: Vec<Peer> = Vec::new();
            let history: Vec<ChatMessage> = Vec::new();
            assert(peers.deep_view() =~= Seq::empty());
            assert(history.deep_view() =~= Seq::empty());
            Room { name: room_name.to_owned(), peers, history }
        };
        assert(room.deep_view() == before.room(room_name@));
        // Those already there are told first and listed afterwards: so the newcomer
        // hears nothing of themselves and sees nobody who has just gone.
        let notices = room.broadcast(&ServerMessage::UserJoined { user: user.clone() }, closed);
        let others = list_users(&room.peers);
        let history = room.history.clone();
        assert(history.deep_view() =~= room.history.deep_view());
        seat(&mut room.peers, Peer { user, last_typing: None });
        self.rooms.insert(at, room);
        proof {
            let after = before.joined(room_name@, user.deep_view(), closed@);
            assert(self.rooms.deep_view() =~= after.rooms);
        }
        Ok(Joined { others, history, notices })
    }

    /// Takes a user out of a room and tells the others.
    pub fn leave(&mut self, room_name: &str, id: u128, closed: &Vec<u128>) -> (out: Vec<Delivery>)
        ensures
            final(self).deep_view() == old(self).deep_view().left(room_name@, id, closed@),
            out.deep_view() == old(self).deep_view().left_notices(room_name@, id, closed@),
    {
        let ghost before = self.deep_view();
        let nobody: Vec<Delivery> = Vec::new();
        assert(nobody.deep_view() =~= Seq::empty());
        let at = self.find_room(room_name);
        if at >= self.rooms.len() {
            return nobody;
        }
        let place = find_peer(&self.rooms[at].peers, id);
        if place >= self.rooms[at].peers.len() {
            return nobody;
        }
        let mut room = self.rooms.remove(at);
        let peer = drop_peer(&mut room.peers, place);
        let out = room.broadcast(&ServerMessage::UserLeft { user: peer.user }, closed);
        assert(room.deep_view() == before.room_left(room_name@, id, closed@));
        // An empty room is given up at once: otherwise the list would grow for ever.
        if room.peers.len() > 0 {
            self.rooms.insert(at, room);
        }
        assert(self.rooms.deep_view() =~= before.left(room_name@, id, closed@).rooms);
        out
    }

    /// Shows somebody as typing to the others in the room, but not too often.
    pub fn typing(&mut self, room_name: &str, user: &UserInfo, now: u64, closed: &Vec<u128>) -> (out:
        Vec<Delivery>)
        ensures
            final(self).deep_view() == old(self).deep_view().typed(
                room_name@,
                user.id,
                now,
                closed@,
            ),
            out.deep_view() == old(self).deep_view().typing_notices(
                room_name@,
                user.deep_view(),
                now,
                closed@,
            ),
    {
        let ghost before = self.deep_view();
        let nobody: Vec<Delivery> = Vec::new();
        assert(nobody.deep_view() =~= Seq::empty());
        let at = self.find_room(room_name);
        if at >= self.rooms.len() {
            return nobody;
        }
        let place = find_peer(&self.rooms[at].peers, user.id);
        if place >= self.rooms[at].peers.len() {
            return nobody;
        }
        if let Some(last) = self.rooms[at].peers[place].last_typing {
            if now < last || now - last < TYPING_GAP {
                return nobody;
            }
        }
        let mut room = self.rooms.remove(at);
        let ghost peers = room.peers.deep_view();
        let mut peer = room.peers.remove(place);
        peer.last_typing = Some(now);
        let ghost marked = peer.deep_view();
        room.peers.insert(place, peer);
        assert(room.peers.deep_view() =~= peers.update(place as int, marked));
        prune_but(&mut room.peers, user.id, closed);
        assert(room.deep_view() == before.room_typing(room_name@, user.id, now, closed@));
        let out = tell_but(&room.peers, user.id, &ServerMessage::Typing { user: user.clone() });
        self.rooms.insert(at, room);
        assert(self.rooms.deep_view() =~= before.typed(room_name@, user.id, now, closed@).rooms);
        out
    }

    /// Puts a message into a room; its quote comes from what the room remembers.
    pub fn post(
        &mut self,
        room_name: &str,
        message: ChatMessage,
        reply_to: Option<u128>,
        closed: &Vec<u128>,
    ) -> (out: Vec<Delivery>)
        ensures
            final(self).deep_view() == old(self).deep_view().posted(
                room_name@,
                message.deep_view(),
                reply_to,
                closed@,
            ),
            out.deep_view() == old(self).deep_view().post_notices(
                room_name@,
                message.deep_view(),
                reply_to,
                closed@,
            ),
    {
        let ghost before = self.deep_view();
        let at = self.find_room(room_name);
        if at >= self.rooms.len() {
            let nobody: Vec<Delivery> = Vec::new();
            assert(nobody.deep_view() =~= Seq::empty());
            return nobody;
        }
        let mut room = self.rooms.remove(at);
        let reply = match reply_to {
            Some(id) => room.quote(id),
            None => None,
        };
        let quoting = ChatMessage {
            id: message.id,
            from: message.from,
            text: message.text,
            ts: message.ts,
            attachment: message.attachment,
            reply,
        };
        assert(quoting.deep_view() == before.quoting(room_name@, message.deep_view(), reply_to));
        let out = room.post(quoting, self.config.history_limit, closed);
        assert(room.peers.deep_view().len() == room.peers@.len());
        if room.peers.len() > 0 {
            self.rooms.insert(at, room);
        }
        assert(self.rooms.deep_view() =~= before.posted(
            room_name@,
            message.deep_view(),
            reply_to,
            closed@,
        ).rooms);
        out
    }

    pub fn room_count(&self) -> (n: usize)
        ensures
            n == self.deep_view().rooms.len(),
    {
        self.rooms.len()
    }

    /// The rooms for the first screen: their names and how many people they hold,
    /// by name, so that the order does not jump between two requests.
    #[verifier::loop_isolation(false)]
    pub fn rooms_summary(&self) -> (r: Vec<RoomSummary>)
        ensures
            r.deep_view() == self.deep_view().summary(),
    {
        let mut list: Vec<RoomSummary> = Vec::new();
        let ghost all = self.deep_view().rooms.map_values(
            |r: RoomView| RoomSummaryView { name: r.name, users: r.peers.len() as usize },
        );
        let mut i: usize = 0;
        while i < self.rooms.len()
            invariant
                i <= self.rooms@.len(),
                list.deep_view() == all.take(i as int),
            decreases self.rooms@.len() - i,
        {
            list.push(
                RoomSummary { name: self.rooms[i].name.clone(), users: self.rooms[i].peers.len() },
            );
            i = i + 1;
            assert(list.deep_view() =~= all.take(i as int));
        }
        assert(all.take(i as int) =~= all);
        proof {
            let ranked = |a: RoomSummaryView, b: RoomSummaryView| RoomSummary::ranks(a, b);
            let by_name = |a: RoomSummaryView, b: RoomSummaryView| text_le(a.name, b.name);
            assert(ranked =~= by_name);
        }
        sort(list)
    }

    /// How many people are in a room.
    pub fn user_count(&self, room_name: &str) -> (n: usize)
        ensures
            n == self.deep_view().room(room_name@).peers.len(),
    {
        let at = self.find_room(room_name);
        if at < self.rooms.len() {
            self.rooms[at].peers.len()
        } else {
            0
        }
    }
}

} // verus!
