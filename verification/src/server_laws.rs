//! What the server owes to the people in its rooms.
use crate::hub::{
    called, excerpt, goes_by, has_id, is_message, lacks_id, live, reachable, seated, to_each,
    users_of, DeliveryView, HubView, PeerView, RoomView,
};
use crate::hub_laws::{distinct_people, distinct_rooms, sound, sound_room};
use crate::protocol::{
    ChatMessageView, ErrorCode, ReplyPreviewView, RoomSummaryView, ServerMessageView, UserInfoView,
};
use crate::seqs::{
    first_where, lemma_filter_from, lemma_filter_pairwise, lemma_first_where, lemma_first_where_is,
    pairwise,
};
use crate::text::lower;
use vstd::prelude::*;

verus! {

/// Whether something is on its way to somebody.
pub open spec fn told(out: Seq<DeliveryView>, id: u128) -> bool {
    exists|i: int| 0 <= i < out.len() && (#[trigger] out[i]).to == id
}

/// Whether somebody with the given identifier is among the given people.
pub open spec fn among(people: Seq<PeerView>, id: u128) -> bool {
    exists|j: int| 0 <= j < people.len() && (#[trigger] people[j]).user.id == id
}

/// Whether everybody among the given people whose connection is open is told, once, and
/// nobody else; one of them may be left out.
pub open spec fn all_told(
    out: Seq<DeliveryView>,
    people: Seq<PeerView>,
    closed: Seq<u128>,
    but: Option<u128>,
) -> bool {
    &&& forall|id: u128|
        told(out, id) <==> #[trigger] among(people, id) && !closed.contains(id) && but != Some(id)
    &&& forall|i: int, j: int|
        0 <= i < j < out.len() ==> (#[trigger] out[i]).to != (#[trigger] out[j]).to
}

/// Whether each of some deliveries carries the same message.
pub open spec fn all_hear(out: Seq<DeliveryView>, message: ServerMessageView) -> bool {
    forall|i: int| 0 <= i < out.len() ==> (#[trigger] out[i]).message == message
}

/// Whether a quote shows a message: its author, and the first sixty characters of its
/// text or, where it has none, the name of its attachment.
pub open spec fn shows(quote: ReplyPreviewView, message: ChatMessageView) -> bool {
    &&& quote.id == message.id
    &&& quote.nickname == message.from.nickname
    &&& message.text.len() > 60 ==> quote.excerpt == message.text.subrange(0, 60)
    &&& 0 < message.text.len() <= 60 ==> quote.excerpt == message.text
    &&& message.text.len() == 0 && message.attachment is Some ==> quote.excerpt
        == message.attachment->0.name
    &&& message.text.len() == 0 && message.attachment is None ==> quote.excerpt.len() == 0
}

/// Whether a reply quotes the message with the given identifier, out of what is
/// remembered. What is forgotten is not quoted.
pub open spec fn quotes(
    reply: Option<ReplyPreviewView>,
    history: Seq<ChatMessageView>,
    id: u128,
) -> bool {
    match reply {
        Some(quote) => exists|h: int|
            0 <= h < history.len() && (#[trigger] history[h]).id == id && shows(quote, history[h]),
        None => forall|h: int| 0 <= h < history.len() ==> (#[trigger] history[h]).id != id,
    }
}

/// A quote is made of one remembered message: the one that was answered.
pub proof fn law_quote_shows_what_was_answered(room: RoomView, id: u128)
    ensures
        quotes(room.quote(id), room.history, id),
        room.quote(id) matches Some(quote) ==> quote.id == id,
{
    lemma_first_where(room.history, is_message(id));
    let at = first_where(room.history, is_message(id));
    if at < room.history.len() {
        let m = room.history[at];
        assert(is_message(id)(m));
        assert(m.text.take(m.text.len() as int) =~= m.text);
        if m.text.len() > 60 {
            assert(m.text.take(60) =~= m.text.subrange(0, 60));
        }
        assert(shows(room.quote(id)->0, m));
    } else {
        assert forall|h: int| 0 <= h < room.history.len() implies (#[trigger] room.history[h]).id
            != id by {
            assert(!is_message(id)(room.history[h]));
        }
    }
}

/// A room is found by its name.
pub proof fn lemma_room_is(hub: HubView, k: int)
    requires
        sound(hub),
        0 <= k < hub.rooms.len(),
    ensures
        hub.room_at(hub.rooms[k].name) == k,
        hub.has_room(hub.rooms[k].name),
        hub.room(hub.rooms[k].name) == hub.rooms[k],
        sound_room(hub.rooms[k], hub.config),
{
    let name = hub.rooms[k].name;
    assert forall|j: int| 0 <= j < k implies !called(name)(#[trigger] hub.rooms[j]) by {
        assert(distinct_rooms()(hub.rooms[j], hub.rooms[k]));
    }
    lemma_first_where_is(hub.rooms, called(name), k);
}

/// Whether there is no room of a name.
pub open spec fn no_room(hub: HubView, name: Seq<char>) -> bool {
    forall|k: int| 0 <= k < hub.rooms.len() ==> (#[trigger] hub.rooms[k]).name != name
}

proof fn lemma_no_room(hub: HubView, name: Seq<char>)
    requires
        no_room(hub, name),
    ensures
        !hub.has_room(name),
        hub.room(name).peers.len() == 0,
        hub.room(name).history.len() == 0,
{
    assert forall|j: int| 0 <= j < hub.rooms.len() implies !called(name)(#[trigger] hub.rooms[j]) by {
        assert(hub.rooms[j].name != name);
    }
    lemma_first_where_is(hub.rooms, called(name), hub.rooms.len() as int);
}

/// Who can be told is told.
proof fn lemma_all_told(people: Seq<PeerView>, closed: Seq<u128>, message: ServerMessageView)
    requires
        pairwise(people, distinct_people()),
    ensures
        all_told(to_each(live(people, closed), message), people, closed, None),
        all_hear(to_each(live(people, closed), message), message),
{
    lemma_some_told(people, reachable(closed), people, closed, None, message);
}

proof fn lemma_some_told(
    people: Seq<PeerView>,
    test: spec_fn(PeerView) -> bool,
    all: Seq<PeerView>,
    closed: Seq<u128>,
    but: Option<u128>,
    message: ServerMessageView,
)
    requires
        pairwise(people, distinct_people()),
        forall|p: PeerView|
            people.contains(p) ==> (#[trigger] test(p) <==> !closed.contains(p.user.id) && but
                != Some(p.user.id)),
        forall|id: u128|
            !closed.contains(id) && but != Some(id) ==> (#[trigger] among(people, id) <==> among(
                all,
                id,
            )),
    ensures
        all_told(to_each(people.filter(test), message), all, closed, but),
        all_hear(to_each(people.filter(test), message), message),
{
    let kept = people.filter(test);
    let out = to_each(kept, message);
    lemma_filter_from(people, test);
    lemma_filter_pairwise(people, test, distinct_people());
    assert forall|id: u128| told(out, id) <==> #[trigger] among(all, id) && !closed.contains(id)
        && but != Some(id) by {
        if told(out, id) {
            let i = choose|i: int| 0 <= i < out.len() && (#[trigger] out[i]).to == id;
            assert(kept[i].user.id == id);
            assert(people.contains(kept[i]) && test(kept[i]));
            let j = choose|j: int| 0 <= j < people.len() && people[j] == kept[i];
            assert(people[j].user.id == id);
            assert(among(people, id));
        }
        if among(all, id) && !closed.contains(id) && but != Some(id) {
            assert(among(people, id));
            let j = choose|j: int| 0 <= j < people.len() && (#[trigger] people[j]).user.id == id;
            assert(people.contains(people[j]));
            assert(test(people[j]));
            assert(kept.contains(people[j]));
            let i = choose|i: int| 0 <= i < kept.len() && kept[i] == people[j];
            assert(out[i].to == id);
        }
    }
    assert forall|i: int, j: int| 0 <= i < j < out.len() implies (#[trigger] out[i]).to != (
    #[trigger] out[j]).to by {
        assert(distinct_people()(kept[i], kept[j]));
    }
}

/// Whether a room holds those of the given people whose connection is open, and nobody
/// else, each as they were.
pub open spec fn holds_the_rest(now: Seq<PeerView>, people: Seq<PeerView>, closed: Seq<u128>) -> bool {
    forall|p: PeerView|
        #[trigger] now.contains(p) <==> people.contains(p) && !closed.contains(p.user.id)
}

proof fn lemma_rest(people: Seq<PeerView>, closed: Seq<u128>)
    ensures
        holds_the_rest(live(people, closed), people, closed),
        live(people, closed).len() == 0 <==> forall|j: int|
            0 <= j < people.len() ==> closed.contains((#[trigger] people[j]).user.id),
{
    let now = live(people, closed);
    lemma_filter_from(people, reachable(closed));
    assert forall|p: PeerView| #[trigger] now.contains(p) <==> people.contains(p)
        && !closed.contains(p.user.id) by {
        if now.contains(p) {
            let i = choose|i: int| 0 <= i < now.len() && now[i] == p;
            assert(people.contains(now[i]) && reachable(closed)(now[i]));
        }
        if people.contains(p) && !closed.contains(p.user.id) {
            let j = choose|j: int| 0 <= j < people.len() && people[j] == p;
            assert(reachable(closed)(people[j]));
        }
    }
    if now.len() == 0 {
        assert forall|j: int| 0 <= j < people.len() implies closed.contains(
            (#[trigger] people[j]).user.id,
        ) by {
            if !closed.contains(people[j].user.id) {
                assert(people.contains(people[j]));
                assert(now.contains(people[j]));
            }
        }
    } else if forall|j: int|
        0 <= j < people.len() ==> closed.contains((#[trigger] people[j]).user.id) {
        assert(now.contains(now[0]));
        let j = choose|j: int| 0 <= j < people.len() && people[j] == now[0];
        assert(closed.contains(people[j].user.id));
    }
}

/// A message reaches everybody in its room whose connection is open, its author included,
/// once each, with the words, the author, the time and the attachment it was sent with. An
/// answer carries the quote of what was answered.
pub proof fn law_post_reaches_everybody(
    hub: HubView,
    k: int,
    message: ChatMessageView,
    reply_to: Option<u128>,
    closed: Seq<u128>,
)
    requires
        sound(hub),
        0 <= k < hub.rooms.len(),
    ensures
        ({
            let room = hub.rooms[k];
            let out = hub.post_notices(room.name, message, reply_to, closed);
            &&& all_told(out, room.peers, closed, None)
            &&& forall|i: int|
                0 <= i < out.len() ==> {
                    &&& (#[trigger] out[i]).message matches ServerMessageView::Chat(said)
                    &&& said.id == message.id
                    &&& said.from == message.from
                    &&& said.text == message.text
                    &&& said.ts == message.ts
                    &&& said.attachment == message.attachment
                    &&& reply_to is None ==> said.reply is None
                    &&& reply_to is Some ==> quotes(said.reply, room.history, reply_to->0)
                }
        }),
{
    let room = hub.rooms[k];
    lemma_room_is(hub, k);
    let said = hub.quoting(room.name, message, reply_to);
    lemma_all_told(room.peers, closed, ServerMessageView::Chat(said));
    if let Some(id) = reply_to {
        law_quote_shows_what_was_answered(room, id);
    }
}

/// A message is remembered as it was sent out, behind all that was remembered before; the
/// oldest one is forgotten where there are more than the limit. People whose connection
/// has gone are dropped, other rooms stay as they are, and a room in which nobody is left
/// is gone.
pub proof fn law_post_is_remembered(
    hub: HubView,
    k: int,
    message: ChatMessageView,
    reply_to: Option<u128>,
    closed: Seq<u128>,
)
    requires
        sound(hub),
        0 <= k < hub.rooms.len(),
    ensures
        ({
            let room = hub.rooms[k];
            let limit = hub.config.history_limit;
            let out = hub.post_notices(room.name, message, reply_to, closed);
            let after = hub.posted(room.name, message, reply_to, closed);
            &&& after.config == hub.config
            &&& after.sockets == hub.sockets
            &&& out.len() == 0 ==> after.rooms == hub.rooms.remove(k)
            &&& out.len() > 0 ==> {
                let now = after.rooms[k];
                &&& after.rooms == hub.rooms.update(k, now)
                &&& now.name == room.name
                &&& holds_the_rest(now.peers, room.peers, closed)
                &&& limit > 0 ==> {
                    &&& now.history.len() > 0
                    &&& all_hear(out, ServerMessageView::Chat(now.history.last()))
                    &&& room.history.len() < limit ==> now.history.drop_last() == room.history
                    &&& room.history.len() == limit ==> now.history.drop_last()
                        == room.history.skip(1)
                }
                &&& limit == 0 ==> now.history == room.history
            }
        }),
{
    let room = hub.rooms[k];
    lemma_room_is(hub, k);
    let said = hub.quoting(room.name, message, reply_to);
    lemma_all_told(room.peers, closed, ServerMessageView::Chat(said));
    lemma_rest(room.peers, closed);
    let after = hub.posted(room.name, message, reply_to, closed);
    let out = hub.post_notices(room.name, message, reply_to, closed);
    assert(out.len() == live(room.peers, closed).len());
    if out.len() > 0 {
        let now = after.rooms[k];
        assert(after.rooms =~= hub.rooms.update(k, now));
        if room.history.len() < hub.config.history_limit {
            assert(now.history.drop_last() =~= room.history);
        } else if hub.config.history_limit > 0 {
            assert(now.history.drop_last() =~= room.history.skip(1));
        }
    }
}

/// Where there is no such room, nobody is told anything and nothing changes.
pub proof fn law_nothing_happens_in_no_room(
    hub: HubView,
    name: Seq<char>,
    message: ChatMessageView,
    reply_to: Option<u128>,
    user: UserInfoView,
    now: u64,
    closed: Seq<u128>,
)
    requires
        no_room(hub, name),
    ensures
        hub.post_notices(name, message, reply_to, closed).len() == 0,
        hub.posted(name, message, reply_to, closed) == hub,
        hub.left_notices(name, user.id, closed).len() == 0,
        hub.left(name, user.id, closed) == hub,
        hub.typing_notices(name, user, now, closed).len() == 0,
        hub.typed(name, user.id, now, closed) == hub,
{
    lemma_no_room(hub, name);
}

/// Whoever comes into a room that is there is refused where it is full or where somebody
/// has the name already, letter case aside, and only then.
pub proof fn law_who_is_refused(hub: HubView, k: int, user: UserInfoView)
    requires
        sound(hub),
        0 <= k < hub.rooms.len(),
    ensures
        ({
            let room = hub.rooms[k];
            let full = room.peers.len() >= hub.config.max_room_users;
            let taken = exists|j: int|
                0 <= j < room.peers.len() && lower((#[trigger] room.peers[j]).user.nickname)
                    == lower(user.nickname);
            match hub.refusal(room.name, user) {
                Some(refusal) => {
                    &&& full || taken
                    &&& full ==> refusal.code == ErrorCode::RoomFull
                    &&& !full ==> refusal.code == ErrorCode::NicknameTaken
                },
                None => !full && !taken,
            }
        }),
{
    let room = hub.rooms[k];
    lemma_room_is(hub, k);
    let test = goes_by(user.nickname);
    lemma_first_where(room.peers, test);
    let at = first_where(room.peers, test);
    if at < room.peers.len() {
        assert(test(room.peers[at]));
        assert(lower(room.peers[at].user.nickname) == lower(user.nickname));
    } else {
        assert forall|j: int| 0 <= j < room.peers.len() implies lower(
            (#[trigger] room.peers[j]).user.nickname,
        ) != lower(user.nickname) by {
            assert(!test(room.peers[j]));
        }
    }
}

/// A new room is refused where there are as many as there may be, and only then.
pub proof fn law_when_no_room_is_made(hub: HubView, name: Seq<char>, user: UserInfoView)
    requires
        no_room(hub, name),
    ensures
        match hub.refusal(name, user) {
            Some(refusal) => {
                &&& hub.rooms.len() >= hub.config.max_rooms
                &&& refusal.code == ErrorCode::ServerFull
            },
            None => hub.rooms.len() < hub.config.max_rooms,
        },
{
    lemma_no_room(hub, name);
}

/// Whether a user is one of the given people.
pub open spec fn is_one_of(user: UserInfoView, people: Seq<PeerView>) -> bool {
    exists|j: int| 0 <= j < people.len() && (#[trigger] people[j]).user == user
}

/// Whoever enters a room that is there is told to everybody in it whose connection is
/// open, once, and sees just these people and all that the room remembers.
pub proof fn law_newcomer_is_announced(
    hub: HubView,
    k: int,
    user: UserInfoView,
    closed: Seq<u128>,
)
    requires
        sound(hub),
        0 <= k < hub.rooms.len(),
    ensures
        ({
            let room = hub.rooms[k];
            let out = hub.join_notices(room.name, user, closed);
            let users = hub.others_in(room.name, closed);
            &&& all_told(out, room.peers, closed, None)
            &&& all_hear(out, ServerMessageView::UserJoined { user })
            &&& hub.room(room.name).history == room.history
            &&& users.len() == out.len()
            &&& forall|i: int| 0 <= i < users.len() ==> (#[trigger] users[i]).id == out[i].to
            &&& forall|i: int|
                #![trigger users[i]]
                0 <= i < users.len() ==> is_one_of(users[i], room.peers)
        }),
{
    let room = hub.rooms[k];
    lemma_room_is(hub, k);
    lemma_all_told(room.peers, closed, ServerMessageView::UserJoined { user });
    lemma_filter_from(room.peers, reachable(closed));
    let there = live(room.peers, closed);
    let users = users_of(there);
    assert forall|i: int| #![trigger users[i]] 0 <= i < users.len() implies is_one_of(
        users[i],
        room.peers,
    ) by {
        assert(room.peers.contains(there[i]));
        let j = choose|j: int| 0 <= j < room.peers.len() && room.peers[j] == there[i];
        assert(room.peers[j].user == users[i]);
    }
}

/// Whoever is let into a room that is there stands in it together with all whose
/// connection is open; what the room remembers stays, and so do other rooms.
pub proof fn law_newcomer_is_in(hub: HubView, k: int, user: UserInfoView, closed: Seq<u128>)
    requires
        sound(hub),
        0 <= k < hub.rooms.len(),
        hub.refusal(hub.rooms[k].name, user) is None,
    ensures
        ({
            let room = hub.rooms[k];
            let after = hub.joined(room.name, user, closed);
            let now = after.rooms[k];
            &&& after.config == hub.config && after.sockets == hub.sockets
            &&& after.rooms == hub.rooms.update(k, now)
            &&& now.name == room.name
            &&& now.history == room.history
            &&& now.peers.contains(PeerView { user, last_typing: None })
            &&& forall|p: PeerView|
                p.user.id != user.id ==> (#[trigger] now.peers.contains(p) <==> room.peers.contains(
                    p,
                ) && !closed.contains(p.user.id))
        }),
{
    let room = hub.rooms[k];
    lemma_room_is(hub, k);
    lemma_rest(room.peers, closed);
    let after = hub.joined(room.name, user, closed);
    let peers = live(room.peers, closed);
    let peer = PeerView { user, last_typing: None };
    let now = seated(peers, peer);
    let at = first_where(peers, has_id(user.id));
    lemma_first_where(peers, has_id(user.id));
    assert(after.rooms =~= hub.rooms.update(k, after.rooms[k]));
    if at < peers.len() {
        assert(has_id(user.id)(peers[at]));
    }
    assert(now[at] == peer);
    assert forall|p: PeerView| p.user.id != user.id implies (#[trigger] now.contains(p)
        <==> room.peers.contains(p) && !closed.contains(p.user.id)) by {
        if now.contains(p) {
            let i = choose|i: int| 0 <= i < now.len() && now[i] == p;
            assert(i != at);
            assert(peers[i] == p);
            assert(peers.contains(p));
        }
        if peers.contains(p) {
            let i = choose|i: int| 0 <= i < peers.len() && peers[i] == p;
            assert(now[i] == p);
        }
    }
}

/// Whoever is let into a room that was not there is alone in it, with nothing remembered.
pub proof fn law_new_room_is_empty(
    hub: HubView,
    name: Seq<char>,
    user: UserInfoView,
    closed: Seq<u128>,
)
    requires
        no_room(hub, name),
    ensures
        hub.joined(name, user, closed) == (HubView {
            rooms: hub.rooms.push(
                RoomView {
                    name,
                    peers: seq![PeerView { user, last_typing: None }],
                    history: Seq::empty(),
                },
            ),
            ..hub
        }),
        hub.join_notices(name, user, closed).len() == 0,
{
    lemma_no_room(hub, name);
    lemma_filter_from(hub.room(name).peers, reachable(closed));
    let peers = live(hub.room(name).peers, closed);
    let peer = PeerView { user, last_typing: None };
    assert(peers =~= Seq::<PeerView>::empty());
    assert(seated(peers, peer) =~= seq![peer]);
}

/// Whoever leaves is told to all others in the room whose connection is open, once, by the
/// name they had there; the room keeps these others and what it remembers, and is gone
/// where there are none. Other rooms stay as they are.
pub proof fn law_leaver_is_announced(hub: HubView, k: int, at: int, closed: Seq<u128>)
    requires
        sound(hub),
        0 <= k < hub.rooms.len(),
        0 <= at < hub.rooms[k].peers.len(),
    ensures
        ({
            let room = hub.rooms[k];
            let user = room.peers[at].user;
            let out = hub.left_notices(room.name, user.id, closed);
            let after = hub.left(room.name, user.id, closed);
            &&& all_told(out, room.peers, closed, Some(user.id))
            &&& all_hear(out, ServerMessageView::UserLeft { user })
            &&& after.config == hub.config && after.sockets == hub.sockets
            &&& out.len() == 0 ==> after.rooms == hub.rooms.remove(k)
            &&& out.len() > 0 ==> {
                let now = after.rooms[k];
                &&& after.rooms == hub.rooms.update(k, now)
                &&& now.name == room.name
                &&& now.history == room.history
                &&& holds_the_rest(now.peers, room.peers.remove(at), closed)
            }
        }),
{
    let room = hub.rooms[k];
    let user = room.peers[at].user;
    lemma_room_is(hub, k);
    let apart = distinct_people();
    assert forall|i: int| 0 <= i < at implies !has_id(user.id)(#[trigger] room.peers[i]) by {
        assert(apart(room.peers[i], room.peers[at]));
    }
    lemma_first_where_is(room.peers, has_id(user.id), at);
    let rest = room.peers.remove(at);
    assert forall|i: int, j: int| 0 <= i < j < rest.len() implies apart(
        #[trigger] rest[i],
        #[trigger] rest[j],
    ) by {
        let a = if i < at {
            i
        } else {
            i + 1
        };
        let b = if j < at {
            j
        } else {
            j + 1
        };
        assert(apart(room.peers[a], room.peers[b]));
    }
    assert forall|p: PeerView| rest.contains(p) implies p.user.id != user.id by {
        let i = choose|i: int| 0 <= i < rest.len() && rest[i] == p;
        if i < at {
            assert(apart(room.peers[i], room.peers[at]));
        } else {
            assert(apart(room.peers[at], room.peers[i + 1]));
        }
    }
    assert forall|id: u128| !closed.contains(id) && Some(user.id) != Some(id) implies (
    #[trigger] among(rest, id) <==> among(room.peers, id)) by {
        if among(rest, id) {
            let i = choose|i: int| 0 <= i < rest.len() && (#[trigger] rest[i]).user.id == id;
            let a = if i < at {
                i
            } else {
                i + 1
            };
            assert(room.peers[a].user.id == id);
        }
        if among(room.peers, id) {
            let i = choose|i: int|
                0 <= i < room.peers.len() && (#[trigger] room.peers[i]).user.id == id;
            let a = if i < at {
                i
            } else {
                i - 1
            };
            assert(rest[a].user.id == id);
        }
    }
    let message = ServerMessageView::UserLeft { user };
    assert forall|p: PeerView| rest.contains(p) implies (#[trigger] reachable(closed)(p)
        <==> !closed.contains(p.user.id) && Some(user.id) != Some(p.user.id)) by {}
    lemma_some_told(rest, reachable(closed), room.peers, closed, Some(user.id), message);
    lemma_rest(rest, closed);
    let after = hub.left(room.name, user.id, closed);
    let out = hub.left_notices(room.name, user.id, closed);
    assert(out.len() == live(rest, closed).len());
    if out.len() > 0 {
        assert(after.rooms =~= hub.rooms.update(k, after.rooms[k]));
    }
}

/// Whoever types is shown to all others in the room whose connection is open, once, but
/// not within a second of the last time.
pub proof fn law_typist_is_shown(
    hub: HubView,
    k: int,
    at: int,
    user: UserInfoView,
    now: u64,
    closed: Seq<u128>,
)
    requires
        sound(hub),
        0 <= k < hub.rooms.len(),
        0 <= at < hub.rooms[k].peers.len(),
        hub.rooms[k].peers[at].user.id == user.id,
    ensures
        ({
            let room = hub.rooms[k];
            let last = room.peers[at].last_typing;
            let out = hub.typing_notices(room.name, user, now, closed);
            let after = hub.typed(room.name, user.id, now, closed);
            if last is None || now >= last->0 + 1000 {
                &&& all_told(out, room.peers, closed, Some(user.id))
                &&& all_hear(out, ServerMessageView::Typing { user })
                &&& after.rooms == hub.rooms.update(k, after.rooms[k])
                &&& after.rooms[k].name == room.name
                &&& after.rooms[k].history == room.history
                &&& after.rooms[k].peers.contains(
                    PeerView { last_typing: Some(now), ..room.peers[at] },
                )
                &&& forall|p: PeerView|
                    p.user.id != user.id ==> (#[trigger] after.rooms[k].peers.contains(p)
                        <==> room.peers.contains(p) && !closed.contains(p.user.id))
            } else {
                out.len() == 0 && after == hub
            }
        }),
{
    let room = hub.rooms[k];
    lemma_room_is(hub, k);
    let apart = distinct_people();
    assert forall|i: int| 0 <= i < at implies !has_id(user.id)(#[trigger] room.peers[i]) by {
        assert(apart(room.peers[i], room.peers[at]));
    }
    lemma_first_where_is(room.peers, has_id(user.id), at);
    let out = hub.typing_notices(room.name, user, now, closed);
    let after = hub.typed(room.name, user.id, now, closed);
    if hub.shows_typing(room.name, user.id, now) {
        let mark = PeerView { last_typing: Some(now), ..room.peers[at] };
        let marked = room.peers.update(at, mark);
        let pass = |p: PeerView| p.user.id == user.id || reachable(closed)(p);
        let rest = marked.filter(pass);
        assert forall|i: int, j: int| 0 <= i < j < marked.len() implies apart(
            #[trigger] marked[i],
            #[trigger] marked[j],
        ) by {
            assert(apart(room.peers[i], room.peers[j]));
        }
        lemma_filter_pairwise(marked, pass, apart);
        lemma_filter_from(marked, pass);
        assert(after.rooms =~= hub.rooms.update(k, after.rooms[k]));
        assert(pass(marked[at]));
        assert(rest.contains(mark));
        assert forall|p: PeerView| p.user.id != user.id implies (#[trigger] rest.contains(p)
            <==> room.peers.contains(p) && !closed.contains(p.user.id)) by {
            if rest.contains(p) {
                let i = choose|i: int| 0 <= i < rest.len() && rest[i] == p;
                assert(marked.contains(rest[i]) && pass(rest[i]));
                let j = choose|j: int| 0 <= j < marked.len() && marked[j] == p;
                assert(room.peers[j] == p);
            }
            if room.peers.contains(p) && !closed.contains(p.user.id) {
                let j = choose|j: int| 0 <= j < room.peers.len() && room.peers[j] == p;
                assert(j != at);
                assert(marked[j] == p);
                assert(pass(marked[j]));
            }
        }
        assert forall|id: u128| !closed.contains(id) && Some(user.id) != Some(id) implies (
        #[trigger] among(rest, id) <==> among(room.peers, id)) by {
            if among(rest, id) {
                let i = choose|i: int| 0 <= i < rest.len() && (#[trigger] rest[i]).user.id == id;
                assert(rest.contains(rest[i]));
                let j = choose|j: int| 0 <= j < room.peers.len() && room.peers[j] == rest[i];
                assert(room.peers[j].user.id == id);
            }
            if among(room.peers, id) {
                let j = choose|j: int|
                    0 <= j < room.peers.len() && (#[trigger] room.peers[j]).user.id == id;
                assert(room.peers.contains(room.peers[j]));
                assert(rest.contains(room.peers[j]));
                let i = choose|i: int| 0 <= i < rest.len() && rest[i] == room.peers[j];
                assert(rest[i].user.id == id);
            }
        }
        assert forall|p: PeerView| rest.contains(p) implies (#[trigger] lacks_id(user.id)(p)
            <==> !closed.contains(p.user.id) && Some(user.id) != Some(p.user.id)) by {
            if p.user.id != user.id {
                assert(rest.contains(p));
            }
        }
        lemma_some_told(
            rest,
            lacks_id(user.id),
            room.peers,
            closed,
            Some(user.id),
            ServerMessageView::Typing { user },
        );
    }
}

/// Whoever is not in a room can neither leave it nor type in it.
pub proof fn law_strangers_do_nothing(
    hub: HubView,
    k: int,
    user: UserInfoView,
    now: u64,
    closed: Seq<u128>,
)
    requires
        sound(hub),
        0 <= k < hub.rooms.len(),
        !among(hub.rooms[k].peers, user.id),
    ensures
        ({
            let name = hub.rooms[k].name;
            &&& hub.left(name, user.id, closed) == hub
            &&& hub.left_notices(name, user.id, closed).len() == 0
            &&& hub.typed(name, user.id, now, closed) == hub
            &&& hub.typing_notices(name, user, now, closed).len() == 0
        }),
{
    let room = hub.rooms[k];
    lemma_room_is(hub, k);
    assert forall|i: int| 0 <= i < room.peers.len() implies !has_id(user.id)(
        #[trigger] room.peers[i],
    ) by {
        assert(room.peers[i].user.id != user.id);
    }
    lemma_first_where_is(room.peers, has_id(user.id), room.peers.len() as int);
}

/// Every room is in the list of rooms, with the number of its people, and every line of
/// the list is a room.
pub proof fn law_every_room_is_listed(hub: HubView)
    requires
        sound(hub),
    ensures
        hub.summary().len() == hub.rooms.len(),
        forall|k: int|
            0 <= k < hub.rooms.len() ==> exists|i: int|
                0 <= i < hub.summary().len() && (#[trigger] hub.summary()[i]).name == (
                #[trigger] hub.rooms[k]).name && hub.summary()[i].users
                    == hub.rooms[k].peers.len(),
{
    broadcast use vstd::seq_lib::group_to_multiset_ensures;

    crate::hub_laws::law_summary_is_in_order(hub);
    let list = hub.rooms.map_values(
        |r: RoomView| RoomSummaryView { name: r.name, users: r.peers.len() as usize },
    );
    let lines = hub.summary();
    assert forall|k: int| 0 <= k < hub.rooms.len() implies exists|i: int|
        0 <= i < lines.len() && (#[trigger] lines[i]).name == (#[trigger] hub.rooms[k]).name
            && lines[i].users == hub.rooms[k].peers.len() by {
        assert(list.contains(list[k]));
        assert(list.to_multiset().count(list[k]) > 0);
        assert(lines.to_multiset().count(list[k]) > 0);
        assert(lines.contains(list[k]));
        let i = choose|i: int| 0 <= i < lines.len() && lines[i] == list[k];
        assert(lines[i].name == hub.rooms[k].name);
        assert(sound_room(hub.rooms[k], hub.config));
    }
}

/// A connection takes one place as long as there is one, and none is taken beyond the last;
/// a place that is given back leaves everything as it was.
pub proof fn law_places_are_counted(hub: HubView)
    ensures
        hub.one_more_socket() is Some <==> hub.sockets < hub.config.max_sockets,
        hub.one_more_socket() matches Some(after) ==> {
            &&& after.sockets == hub.sockets + 1
            &&& after.sockets <= hub.config.max_sockets
            &&& after.rooms == hub.rooms && after.config == hub.config
            &&& after.one_socket_less() == hub
        },
{
}

} // verus!
