//! What holds of the rooms of a server at any time.
use crate::hub::{
    called, goes_by, has_id, is_message, lacks_id, live, reachable, seated, HubConfig, HubView,
    PeerView, RoomView,
};
use crate::protocol::{ChatMessageView, RoomSummaryView, UserInfoView};
use crate::seqs::{
    any_where, first_where, in_order, law_sorted_is_in_order, law_sorted_keeps_items,
    law_text_order, law_text_order_carries, lemma_filter_from, lemma_filter_pairwise,
    lemma_first_where, lemma_first_where_is, pairwise, text_le,
};
use crate::text::lower;
use vstd::prelude::*;

verus! {

/// Whether two people have different identifiers and names.
pub open spec fn distinct_people() -> spec_fn(PeerView, PeerView) -> bool {
    |a: PeerView, b: PeerView|
        a.user.id != b.user.id && lower(a.user.nickname) != lower(b.user.nickname)
}

/// Whether two rooms have different names.
pub open spec fn distinct_rooms() -> spec_fn(RoomView, RoomView) -> bool {
    |a: RoomView, b: RoomView| a.name != b.name
}

/// A room is never empty, never too full, and no two people in it share an
/// identifier or a name, letter case aside.
pub open spec fn sound_room(room: RoomView, config: HubConfig) -> bool {
    &&& 0 < room.peers.len() <= config.max_room_users
    &&& room.history.len() <= config.history_limit
    &&& pairwise(room.peers, distinct_people())
}

/// No two rooms share a name, there are never too many of them or of connections,
/// and each of them is sound.
pub open spec fn sound(hub: HubView) -> bool {
    &&& hub.sockets <= hub.config.max_sockets
    &&& hub.rooms.len() <= hub.config.max_rooms
    &&& pairwise(hub.rooms, distinct_rooms())
    &&& forall|i: int| 0 <= i < hub.rooms.len() ==> sound_room(#[trigger] hub.rooms[i], hub.config)
}

/// A server without rooms is sound.
pub proof fn law_new_hub_is_sound(config: HubConfig)
    ensures
        sound(HubView { config, sockets: 0, rooms: Seq::empty() }),
{
}

/// Putting a room in its place leaves another one as it is.
proof fn lemma_other_room(hub: HubView, name: Seq<char>, room: RoomView, other: Seq<char>)
    requires
        room.name == name,
        other != name,
    ensures
        hub.with_room(name, room).room(other) == hub.room(other),
{
    let after = hub.with_room(name, room);
    let at = hub.room_at(name);
    let was = hub.room_at(other);
    lemma_first_where(hub.rooms, called(name));
    lemma_first_where(hub.rooms, called(other));
    assert(!called(other)(room));
    if hub.has_room(name) {
        assert(called(name)(hub.rooms[at]));
    }
    if hub.has_room(other) {
        assert(called(other)(hub.rooms[was]));
        assert(was != at);
        assert forall|i: int| 0 <= i < was implies !called(other)(#[trigger] after.rooms[i]) by {
            if i != at {
                assert(after.rooms[i] == hub.rooms[i]);
            }
        }
        assert(after.rooms[was] == hub.rooms[was]);
        lemma_first_where_is(after.rooms, called(other), was);
    } else {
        assert forall|i: int| 0 <= i < after.rooms.len() implies !called(other)(
            #[trigger] after.rooms[i],
        ) by {
            if i < hub.rooms.len() && i != at {
                assert(after.rooms[i] == hub.rooms[i]);
            }
        }
        lemma_first_where_is(after.rooms, called(other), after.rooms.len() as int);
    }
}

/// Putting a sound room in the place of the one with the same name, or adding it
/// where there was none and room for one more, keeps all rooms sound.
proof fn lemma_with_room(hub: HubView, name: Seq<char>, room: RoomView)
    requires
        sound(hub),
        sound_room(room, hub.config),
        room.name == name,
        hub.has_room(name) || hub.rooms.len() < hub.config.max_rooms,
    ensures
        sound(hub.with_room(name, room)),
        hub.with_room(name, room).has_room(name),
        hub.with_room(name, room).room(name) == room,
        forall|other: Seq<char>|
            other != name ==> #[trigger] hub.with_room(name, room).room(other) == hub.room(other),
{
    let after = hub.with_room(name, room);
    let at = hub.room_at(name);
    lemma_first_where(hub.rooms, called(name));
    assert forall|i: int, j: int| 0 <= i < j < after.rooms.len() implies distinct_rooms()(
        #[trigger] after.rooms[i],
        #[trigger] after.rooms[j],
    ) by {
        if hub.has_room(name) {
            assert(distinct_rooms()(hub.rooms[i], hub.rooms[j]));
            assert(called(name)(hub.rooms[at]));
        } else if j < hub.rooms.len() {
            assert(distinct_rooms()(hub.rooms[i], hub.rooms[j]));
        } else {
            assert(!called(name)(hub.rooms[i]));
        }
    }
    assert forall|i: int| 0 <= i < after.rooms.len() implies sound_room(
        #[trigger] after.rooms[i],
        after.config,
    ) by {
        if i < hub.rooms.len() && i != at {
            assert(after.rooms[i] == hub.rooms[i]);
        }
    }
    assert forall|i: int| 0 <= i < at implies !called(name)(#[trigger] after.rooms[i]) by {
        assert(after.rooms[i] == hub.rooms[i]);
    }
    lemma_first_where_is(after.rooms, called(name), at);
    assert forall|other: Seq<char>| other != name implies #[trigger] hub.with_room(
        name,
        room,
    ).room(other) == hub.room(other) by {
        lemma_other_room(hub, name, room, other);
    }
}

/// The room of a given name is called that.
proof fn lemma_room_name(hub: HubView, name: Seq<char>)
    ensures
        hub.room(name).name == name,
        hub.has_room(name) && sound(hub) ==> sound_room(hub.room(name), hub.config),
{
    lemma_first_where(hub.rooms, called(name));
    if hub.has_room(name) {
        assert(called(name)(hub.rooms[hub.room_at(name)]));
    }
}

/// Letting somebody in keeps the rooms sound, and touches no other room.
pub proof fn law_join_keeps_hub_sound(
    hub: HubView,
    name: Seq<char>,
    user: UserInfoView,
    closed: Seq<u128>,
)
    requires
        sound(hub),
        hub.refusal(name, user) is None,
        hub.has_room(name) || hub.config.max_room_users > 0,
    ensures
        sound(hub.joined(name, user, closed)),
        hub.joined(name, user, closed).is_in(name, user.id),
        forall|other: Seq<char>|
            other != name ==> #[trigger] hub.joined(name, user, closed).room(other) == hub.room(
                other,
            ),
{
    lemma_room_name(hub, name);
    let room = hub.room(name);
    let apart = distinct_people();
    let peers = live(room.peers, closed);
    let peer = PeerView { user, last_typing: None };
    let now = seated(peers, peer);
    lemma_filter_pairwise(room.peers, reachable(closed), apart);
    lemma_filter_from(room.peers, reachable(closed));
    lemma_first_where(peers, has_id(user.id));
    lemma_first_where(room.peers, goes_by(user.nickname));
    let at = first_where(peers, has_id(user.id));
    assert forall|i: int| 0 <= i < peers.len() implies lower(#[trigger] peers[i].user.nickname)
        != lower(user.nickname) by {
        let p = peers[i];
        assert(room.peers.contains(p));
        let k = choose|k: int| 0 <= k < room.peers.len() && room.peers[k] == p;
        if hub.has_room(name) {
            assert(!goes_by(user.nickname)(room.peers[k]));
        }
    }
    assert forall|i: int, j: int| 0 <= i < j < now.len() implies apart(
        #[trigger] now[i],
        #[trigger] now[j],
    ) by {
        if i < peers.len() && i != at {
            assert(now[i] == peers[i]);
            assert(lower(peers[i].user.nickname) != lower(user.nickname));
        }
        if j < peers.len() && j != at {
            assert(now[j] == peers[j]);
            assert(lower(peers[j].user.nickname) != lower(user.nickname));
        }
        if i < peers.len() && j < peers.len() {
            assert(apart(peers[i], peers[j]));
            if at < peers.len() {
                assert(has_id(user.id)(peers[at]));
            }
        } else {
            assert(!has_id(user.id)(peers[i]));
        }
    }
    let seated_room = RoomView { peers: now, ..room.pruned(closed) };
    assert(sound_room(seated_room, hub.config));
    lemma_with_room(hub, name, seated_room);
    let place = if at < peers.len() {
        at
    } else {
        peers.len() as int
    };
    assert(has_id(user.id)(now[place]));
    lemma_first_where(now, has_id(user.id));
    if first_where(now, has_id(user.id)) >= now.len() {
        assert(!has_id(user.id)(now[place]));
    }
}

/// Once somebody is in, nobody else gets into the same room under that name,
/// whatever its letter case: of all who try, one wins.
pub proof fn law_name_is_taken(
    hub: HubView,
    name: Seq<char>,
    user: UserInfoView,
    closed: Seq<u128>,
    rival: UserInfoView,
)
    requires
        sound(hub),
        hub.refusal(name, user) is None,
        hub.has_room(name) || hub.config.max_room_users > 0,
        lower(rival.nickname) == lower(user.nickname),
    ensures
        hub.joined(name, user, closed).refusal(name, rival) is Some,
{
    law_join_keeps_hub_sound(hub, name, user, closed);
    lemma_room_name(hub, name);
    let after = hub.joined(name, user, closed);
    let room = hub.room(name).pruned(closed);
    let peer = PeerView { user, last_typing: None };
    let now = seated(room.peers, peer);
    let seated_room = RoomView { peers: now, ..room };
    lemma_first_where(hub.rooms, called(name));
    let at = hub.room_at(name);
    assert forall|i: int| 0 <= i < at implies !called(name)(#[trigger] after.rooms[i]) by {
        assert(after.rooms[i] == hub.rooms[i]);
    }
    lemma_first_where_is(after.rooms, called(name), at);
    assert(after.room(name) == seated_room);
    lemma_first_where(room.peers, has_id(user.id));
    let place = first_where(room.peers, has_id(user.id));
    assert(now[place] == peer);
    assert(goes_by(rival.nickname)(now[place]));
    lemma_first_where(now, goes_by(rival.nickname));
    if first_where(now, goes_by(rival.nickname)) >= now.len() {
        assert(!goes_by(rival.nickname)(now[place]));
    }
}

/// Giving up a room keeps the rooms sound and leaves the others as they are.
proof fn lemma_room_given_up(hub: HubView, name: Seq<char>)
    requires
        sound(hub),
        hub.has_room(name),
    ensures
        ({
            let after = HubView { rooms: hub.rooms.remove(hub.room_at(name)), ..hub };
            &&& sound(after)
            &&& !after.has_room(name)
            &&& forall|other: Seq<char>|
                other != name ==> #[trigger] after.room(other) == hub.room(other)
        }),
{
    let spot = hub.room_at(name);
    let rooms = hub.rooms.remove(spot);
    let after = HubView { rooms, ..hub };
    lemma_first_where(hub.rooms, called(name));
    assert(called(name)(hub.rooms[spot]));
    assert forall|i: int, j: int| 0 <= i < j < rooms.len() implies distinct_rooms()(
        #[trigger] rooms[i],
        #[trigger] rooms[j],
    ) by {
        let a = if i < spot {
            i
        } else {
            i + 1
        };
        let b = if j < spot {
            j
        } else {
            j + 1
        };
        assert(distinct_rooms()(hub.rooms[a], hub.rooms[b]));
    }
    assert forall|i: int| 0 <= i < rooms.len() implies !called(name)(#[trigger] rooms[i])
        && sound_room(rooms[i], hub.config) by {
        if i < spot {
            assert(distinct_rooms()(hub.rooms[i], hub.rooms[spot]));
        } else {
            assert(distinct_rooms()(hub.rooms[spot], hub.rooms[i + 1]));
        }
    }
    lemma_first_where_is(rooms, called(name), rooms.len() as int);
    assert forall|other: Seq<char>| other != name implies #[trigger] after.room(other) == hub.room(
        other,
    ) by {
        let was = hub.room_at(other);
        lemma_first_where(hub.rooms, called(other));
        assert(was != spot) by {
            if was == spot {
                assert(called(other)(hub.rooms[spot]));
            }
        }
        let now = if was < spot {
            was
        } else {
            was - 1
        };
        assert forall|i: int| 0 <= i < now implies !called(other)(#[trigger] rooms[i]) by {
            if i < spot {
                assert(rooms[i] == hub.rooms[i]);
            } else {
                assert(rooms[i] == hub.rooms[i + 1]);
            }
        }
        if was < hub.rooms.len() {
            assert(called(other)(hub.rooms[was]));
            assert(rooms[now] == hub.rooms[was]);
        }
        lemma_first_where_is(rooms, called(other), now);
    }
}

/// Letting somebody out keeps the rooms sound and touches no other room. Where they were
/// the last one whose connection is open, the room is gone, and its messages with it.
pub proof fn law_leave_keeps_hub_sound(
    hub: HubView,
    name: Seq<char>,
    id: u128,
    closed: Seq<u128>,
)
    requires
        sound(hub),
    ensures
        sound(hub.left(name, id, closed)),
        !hub.left(name, id, closed).is_in(name, id),
        forall|other: Seq<char>|
            other != name ==> #[trigger] hub.left(name, id, closed).room(other) == hub.room(other),
        hub.is_in(name, id) && (forall|i: int|
            0 <= i < hub.room(name).peers.len() ==> (#[trigger] hub.room(name).peers[i]).user.id
                == id || closed.contains(hub.room(name).peers[i].user.id)) ==> !hub.left(
            name,
            id,
            closed,
        ).has_room(name),
{
    lemma_room_name(hub, name);
    lemma_first_where(hub.rooms, called(name));
    if hub.is_in(name, id) {
        let room = hub.room(name);
        let apart = distinct_people();
        let at = first_where(room.peers, has_id(id));
        lemma_first_where(room.peers, has_id(id));
        let rest = room.peers.remove(at);
        assert forall|i: int, j: int| 0 <= i < j < rest.len() implies apart(
            #[trigger] rest[i],
            #[trigger] rest[j],
        ) by {
            let a = if i < at {
                i
            } else {
                i + 1
            };
            let b = if j < at {
                j
            } else {
                j + 1
            };
            assert(apart(room.peers[a], room.peers[b]));
        }
        assert forall|i: int| 0 <= i < rest.len() implies (#[trigger] rest[i]).user.id != id by {
            assert(has_id(id)(room.peers[at]));
            if i < at {
                assert(apart(room.peers[i], room.peers[at]));
            } else {
                assert(apart(room.peers[at], room.peers[i + 1]));
            }
        }
        lemma_filter_pairwise(rest, reachable(closed), apart);
        lemma_filter_from(rest, reachable(closed));
        let left = hub.room_left(name, id, closed);
        assert forall|i: int| 0 <= i < left.peers.len() implies !has_id(id)(#[trigger] left.peers[i]) by {
            let p = left.peers[i];
            assert(rest.contains(p));
            let k = choose|k: int| 0 <= k < rest.len() && rest[k] == p;
            assert(rest[k].user.id != id);
        }
        if left.peers.len() == 0 {
            lemma_room_given_up(hub, name);
        } else {
            lemma_with_room(hub, name, left);
            lemma_first_where_is(left.peers, has_id(id), left.peers.len() as int);
            if forall|i: int|
                0 <= i < room.peers.len() ==> (#[trigger] room.peers[i]).user.id == id
                    || closed.contains(room.peers[i].user.id) {
                let p = left.peers[0];
                assert(rest.contains(p) && reachable(closed)(p));
                let k = choose|k: int| 0 <= k < rest.len() && rest[k] == p;
                let b = if k < at {
                    k
                } else {
                    k + 1
                };
                assert(room.peers[b] == p);
                assert(rest[k].user.id != id);
                assert(false);
            }
        }
    }
}

/// Showing somebody as typing keeps the rooms sound, touches no other room, and is never
/// told to the one who types.
pub proof fn law_typing_keeps_hub_sound(
    hub: HubView,
    name: Seq<char>,
    user: UserInfoView,
    now: u64,
    closed: Seq<u128>,
)
    requires
        sound(hub),
    ensures
        sound(hub.typed(name, user.id, now, closed)),
        forall|other: Seq<char>|
            other != name ==> #[trigger] hub.typed(name, user.id, now, closed).room(other)
                == hub.room(other),
        forall|i: int|
            0 <= i < hub.typing_notices(name, user, now, closed).len()
                ==> (#[trigger] hub.typing_notices(name, user, now, closed)[i]).to != user.id,
{
    if hub.shows_typing(name, user.id, now) {
        lemma_room_name(hub, name);
        let room = hub.room(name);
        let apart = distinct_people();
        let at = first_where(room.peers, has_id(user.id));
        lemma_first_where(room.peers, has_id(user.id));
        let marked = room.peers.update(
            at,
            PeerView { last_typing: Some(now), ..room.peers[at] },
        );
        assert forall|i: int, j: int| 0 <= i < j < marked.len() implies apart(
            #[trigger] marked[i],
            #[trigger] marked[j],
        ) by {
            assert(apart(room.peers[i], room.peers[j]));
        }
        let pass = |p: PeerView| p.user.id == user.id || reachable(closed)(p);
        lemma_filter_pairwise(marked, pass, apart);
        lemma_filter_from(marked, pass);
        let after = hub.room_typing(name, user.id, now, closed);
        assert(pass(marked[at])) by {
            assert(has_id(user.id)(room.peers[at]));
        }
        assert(after.peers.contains(marked[at]));
        lemma_with_room(hub, name, after);
        lemma_filter_from(after.peers, lacks_id(user.id));
    }
}

/// A message keeps the rooms sound: where nobody could be told, the room is gone. It
/// touches no other room and goes to members of its room alone.
pub proof fn law_post_keeps_hub_sound(
    hub: HubView,
    name: Seq<char>,
    message: ChatMessageView,
    reply_to: Option<u128>,
    closed: Seq<u128>,
)
    requires
        sound(hub),
    ensures
        sound(hub.posted(name, message, reply_to, closed)),
        forall|other: Seq<char>|
            other != name ==> #[trigger] hub.posted(name, message, reply_to, closed).room(other)
                == hub.room(other),
        forall|i: int|
            0 <= i < hub.post_notices(name, message, reply_to, closed).len()
                ==> any_where(
                hub.room(name).peers,
                has_id((#[trigger] hub.post_notices(name, message, reply_to, closed)[i]).to),
            ),
{
    lemma_room_name(hub, name);
    let room = hub.room(name);
    let apart = distinct_people();
    lemma_filter_pairwise(room.peers, reachable(closed), apart);
    lemma_filter_from(room.peers, reachable(closed));
    let after = hub.room_posted(name, message, reply_to, closed);
    if hub.has_room(name) {
        if after.peers.len() == 0 {
            lemma_room_given_up(hub, name);
        } else {
            lemma_with_room(hub, name, after);
        }
    }
    let notices = hub.post_notices(name, message, reply_to, closed);
    let peers = live(room.peers, closed);
    assert forall|i: int| 0 <= i < notices.len() implies any_where(
        room.peers,
        has_id((#[trigger] notices[i]).to),
    ) by {
        let p = peers[i];
        assert(room.peers.contains(p));
        let k = choose|k: int| 0 <= k < room.peers.len() && room.peers[k] == p;
        lemma_first_where(room.peers, has_id(p.user.id));
        assert(has_id(p.user.id)(room.peers[k]));
    }
}

/// A room that remembers anything remembers its last message last: whoever enters
/// next is given it, with the identifier under which it was sent to the others.
pub proof fn law_last_message_is_remembered(
    hub: HubView,
    name: Seq<char>,
    message: ChatMessageView,
    reply_to: Option<u128>,
    closed: Seq<u128>,
)
    requires
        sound(hub),
        hub.has_room(name),
        live(hub.room(name).peers, closed).len() > 0,
        hub.config.history_limit > 0,
    ensures
        ({
            let history = hub.posted(name, message, reply_to, closed).room(name).history;
            &&& history.last() == hub.quoting(name, message, reply_to)
            &&& history.last().id == message.id
            &&& history.drop_last() == if hub.room(name).history.len()
                == hub.config.history_limit {
                hub.room(name).history.drop_first()
            } else {
                hub.room(name).history
            }
        }),
{
    law_post_keeps_hub_sound(hub, name, message, reply_to, closed);
    lemma_room_name(hub, name);
    lemma_first_where(hub.rooms, called(name));
    let after = hub.posted(name, message, reply_to, closed);
    let at = hub.room_at(name);
    assert forall|i: int| 0 <= i < at implies !called(name)(#[trigger] after.rooms[i]) by {
        assert(after.rooms[i] == hub.rooms[i]);
    }
    lemma_first_where_is(after.rooms, called(name), at);
    let history = after.room(name).history;
    let before = hub.room(name).history;
    if before.len() == hub.config.history_limit {
        assert(history.drop_last() =~= before.drop_first());
    } else {
        assert(history.drop_last() =~= before);
    }
}

/// A quote comes from the room's own memory: it names the author of the message
/// with that identifier, and nobody else.
pub proof fn law_quote_is_genuine(room: RoomView, id: u128)
    ensures
        room.quote(id) is Some <==> any_where(room.history, is_message(id)),
        room.quote(id) matches Some(q) ==> exists|i: int|
            0 <= i < room.history.len() && (#[trigger] room.history[i]).id == q.id && q.id == id
                && room.history[i].from.nickname == q.nickname,
{
    lemma_first_where(room.history, is_message(id));
    let at = first_where(room.history, is_message(id));
    if at < room.history.len() {
        assert(is_message(id)(room.history[at]));
    }
}

/// The list of rooms is in the order of their names and holds every room once.
pub proof fn law_summary_is_in_order(hub: HubView)
    ensures
        in_order(
            hub.summary(),
            |a: RoomSummaryView, b: RoomSummaryView| text_le(a.name, b.name),
        ),
        hub.summary().len() == hub.rooms.len(),
        hub.summary().to_multiset() == hub.rooms.map_values(
            |r: RoomView| RoomSummaryView { name: r.name, users: r.peers.len() as usize },
        ).to_multiset(),
{
    let le = |a: RoomSummaryView, b: RoomSummaryView| text_le(a.name, b.name);
    assert forall|a: RoomSummaryView, b: RoomSummaryView| #[trigger] le(a, b) || le(b, a) by {
        law_text_order(a.name, b.name);
    }
    assert forall|a: RoomSummaryView, b: RoomSummaryView, c: RoomSummaryView|
        #[trigger] le(a, b) && #[trigger] le(b, c) implies le(a, c) by {
        law_text_order_carries(a.name, b.name, c.name);
    }
    let list = hub.rooms.map_values(
        |r: RoomView| RoomSummaryView { name: r.name, users: r.peers.len() as usize },
    );
    law_sorted_is_in_order(list, le);
    law_sorted_keeps_items(list, le);
}

/// The list of rooms tells of every room once and of no empty one, and how many people
/// each holds.
pub proof fn law_summary_is_exact(hub: HubView)
    requires
        sound(hub),
    ensures
        hub.summary().len() == hub.rooms.len(),
        forall|i: int|
            0 <= i < hub.summary().len() ==> {
                let told = #[trigger] hub.summary()[i];
                &&& hub.has_room(told.name)
                &&& told.users == hub.room(told.name).peers.len()
                &&& told.users >= 1
            },
        forall|i: int, j: int|
            0 <= i < j < hub.summary().len() ==> {
                &&& text_le((#[trigger] hub.summary()[i]).name, (#[trigger] hub.summary()[j]).name)
                &&& hub.summary()[i].name != hub.summary()[j].name
            },
{
    law_summary_is_in_order(hub);
    let list = hub.rooms.map_values(
        |r: RoomView| RoomSummaryView { name: r.name, users: r.peers.len() as usize },
    );
    let told = hub.summary();
    assert forall|i: int| 0 <= i < told.len() implies list.contains(#[trigger] told[i]) by {
        broadcast use vstd::seq_lib::group_to_multiset_ensures;

        assert(told.contains(told[i]));
        assert(told.to_multiset().count(told[i]) > 0);
        assert(list.to_multiset().count(told[i]) > 0);
    }
    assert forall|i: int| 0 <= i < told.len() implies {
        let one = #[trigger] told[i];
        &&& hub.has_room(one.name)
        &&& one.users == hub.room(one.name).peers.len()
        &&& one.users >= 1
    } by {
        assert(list.contains(told[i]));
        let k = choose|k: int| 0 <= k < list.len() && list[k] == told[i];
        let name = told[i].name;
        assert forall|j: int| 0 <= j < k implies !called(name)(#[trigger] hub.rooms[j]) by {
            assert(distinct_rooms()(hub.rooms[j], hub.rooms[k]));
        }
        assert(called(name)(hub.rooms[k]));
        lemma_first_where_is(hub.rooms, called(name), k);
        assert(sound_room(hub.rooms[k], hub.config));
    }
    assert(list.no_duplicates()) by {
        assert forall|j: int, k: int|
            0 <= j < list.len() && 0 <= k < list.len() && j != k implies list[j] != list[k] by {
            if j < k {
                assert(distinct_rooms()(hub.rooms[j], hub.rooms[k]));
            } else {
                assert(distinct_rooms()(hub.rooms[k], hub.rooms[j]));
            }
        }
    }
    list.lemma_multiset_has_no_duplicates();
    told.lemma_multiset_has_no_duplicates_conv();
    assert forall|i: int, j: int| 0 <= i < j < told.len() implies {
        &&& text_le((#[trigger] told[i]).name, (#[trigger] told[j]).name)
        &&& told[i].name != told[j].name
    } by {
        let le = |a: RoomSummaryView, b: RoomSummaryView| text_le(a.name, b.name);
        assert(le(told[i], told[j]));
        assert(told[i] != told[j]);
    }
}

} // verus!
