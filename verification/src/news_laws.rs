//! What a client does with what the network brings and with the answers to what it has
//! asked for.
use crate::client_laws::law_people_are_in_order;
use crate::command_laws::{address_of_file, feed_has_more, law_entry_is_added};
use crate::journal::{
    is_typist, is_user, named_in, other_typist, other_user, picture_of, still_typing,
    typing_without, wanted,
};
use crate::protocol::{
    AttachmentKind, AttachmentView, ChatMessageView, ServerMessageView, UserInfo, UserInfoView,
};
use crate::seqs::{
    any_where, law_sorted_keeps_items, lemma_filter_from, lemma_first_where, sorted, Ranked,
};
use crate::state::{
    ActionView, CommandView, EntryView, NetEventView, ScreenView, StateView, StatusView, Step,
    SystemKind, ThumbnailView, TypistView, WorldView,
};
use crate::text::{lower, occurs_at};
use vstd::prelude::*;

verus! {

/// What comes of a message of the server.
pub open spec fn received(state: StateView, message: ServerMessageView, world: WorldView) -> Step {
    state.updated(ActionView::Net(NetEventView::Message(message)), world)
}

/// Whether a text calls somebody by name, whatever the case of the letters.
pub open spec fn calls(text: Seq<char>, name: Seq<char>) -> bool {
    &&& name.len() > 0
    &&& exists|i: int|
        0 <= i <= lower(text).len() - lower(name).len() && #[trigger] lower(text).subrange(
            i,
            i + lower(name).len(),
        ) == lower(name)
}

proof fn lemma_calls(text: Seq<char>, name: Seq<char>)
    ensures
        calls(text, name) == named_in(text, name),
{
    if calls(text, name) {
        let i = choose|i: int|
            0 <= i <= lower(text).len() - lower(name).len() && #[trigger] lower(text).subrange(
                i,
                i + lower(name).len(),
            ) == lower(name);
        assert(occurs_at(lower(text), lower(name), i));
    }
    if named_in(text, name) {
        let i = choose|i: int| occurs_at(lower(text), lower(name), i);
        assert(lower(text).subrange(i, i + lower(name).len()) == lower(name));
    }
}

/// Whether an entry shows a message to the one it came to.
pub open spec fn is_shown_as(
    state: StateView,
    message: ChatMessageView,
    now: u64,
    entry: EntryView,
) -> bool {
    let own = state.me == Some(message.from.id);
    entry == EntryView::Chat {
        id: message.id,
        from: message.from.nickname,
        text: message.text,
        ts: message.ts,
        mine: own,
        mentions_me: !own && calls(message.text, state.nickname),
        attachment: message.attachment,
        reply: message.reply,
        arrived: now,
    }
}

/// Whether a client is what it was, but for the feed, the pictures in it and those who
/// type.
pub open spec fn only_talk_differs(a: StateView, b: StateView) -> bool {
    b == StateView {
        entries: b.entries,
        seen: b.seen,
        thumbnails: b.thumbnails,
        typing: b.typing,
        ..a
    }
}

/// Whether everybody still types but the one with this identifier.
pub open spec fn stops_typing(a: StateView, b: StateView, id: u128) -> bool {
    forall|t: TypistView| #[trigger]
        b.typing.contains(t) <==> a.typing.contains(t) && t.id != id
}

proof fn lemma_filter_keeps<T>(s: Seq<T>, test: spec_fn(T) -> bool)
    ensures
        forall|x: T| #[trigger] s.filter(test).contains(x) <==> s.contains(x) && test(x),
{
    lemma_filter_from(s, test);
    let f = s.filter(test);
    assert forall|x: T| #[trigger] f.contains(x) implies s.contains(x) && test(x) by {
        let i = choose|i: int| 0 <= i < f.len() && f[i] == x;
        assert(s.contains(f[i]));
    }
    assert forall|x: T| s.contains(x) && test(x) implies #[trigger] f.contains(x) by {
        let i = choose|i: int| 0 <= i < s.len() && s[i] == x;
        assert(test(s[i]));
    }
}

proof fn lemma_stops_typing(a: StateView, b: StateView, id: u128)
    requires
        b.typing == typing_without(a.typing, id),
    ensures
        stops_typing(a, b, id),
{
    lemma_filter_keeps(a.typing, other_typist(id));
}

/// The pictures of the feed change neither what is in it nor anything else.
proof fn lemma_pictures_aside(step: Step)
    ensures
        ({
            let more = StateView::then_thumbnails(step);
            &&& more.state == (StateView { thumbnails: more.state.thumbnails, ..step.state })
            &&& more.commands.len() >= step.commands.len()
            &&& more.commands.take(step.commands.len() as int) == step.commands
            &&& forall|i: int|
                step.commands.len() <= i < more.commands.len() ==> #[trigger] more.commands[i]
                    is Fetch
        }),
{
    reveal(StateView::thumbnails_queued);
    let more = StateView::then_thumbnails(step);
    assert(more.commands.take(step.commands.len() as int) =~= step.commands);
}

/// Whether the bell is all that is asked for, where there is a reason and it is on; then
/// come the pictures that the feed lacks.
pub open spec fn rings_once(state: StateView, step: Step, reason: bool) -> bool {
    let rung: int = if reason && state.audio.chime {
        1
    } else {
        0
    };
    &&& step.commands.len() >= rung
    &&& rung == 1 ==> step.commands[0] == CommandView::Bell
    &&& forall|i: int| rung <= i < step.commands.len() ==> #[trigger] step.commands[i] is Fetch
}

/// A message that was not shown yet stands at the end of the feed as it was sent; whoever
/// has sent it types no longer. The bell rings where it calls one by name, but not for
/// one's own.
pub proof fn law_message_is_shown(state: StateView, message: ChatMessageView, world: WorldView)
    requires
        state.entries.len() <= 2000,
        !state.seen.contains(message.id),
    ensures
        ({
            let step = received(state, ServerMessageView::Chat(message), world);
            &&& step.state.entries.len() > 0
            &&& is_shown_as(state, message, world.now, step.state.entries.last())
            &&& feed_has_more(state, step.state, step.state.entries.last())
            &&& only_talk_differs(state, step.state)
            &&& stops_typing(state, step.state, message.from.id)
            &&& rings_once(
                state,
                step,
                calls(message.text, state.nickname) && state.me != Some(message.from.id),
            )
        }),
{
    reveal(StateView::networked);
    reveal(StateView::served);
    lemma_calls(message.text, state.nickname);
    let silent = StateView {
        typing: typing_without(state.typing, message.from.id),
        seen: state.seen.insert(message.id),
        ..state
    };
    let own = state.me == Some(message.from.id);
    let entry = EntryView::Chat {
        id: message.id,
        from: message.from.nickname,
        text: message.text,
        ts: message.ts,
        mine: own,
        mentions_me: !own && named_in(message.text, state.nickname),
        attachment: message.attachment,
        reply: message.reply,
        arrived: world.now,
    };
    law_entry_is_added(silent, entry);
    let inner = state.served(ServerMessageView::Chat(message), world.now);
    assert(inner.state == silent.pushed(entry));
    lemma_pictures_aside(inner);
    let step = received(state, ServerMessageView::Chat(message), world);
    lemma_stops_typing(state, step.state, message.from.id);
    if inner.commands.len() > 0 {
        assert(step.commands[0] == step.commands.take(inner.commands.len() as int)[0]);
    }
}

/// A message that was shown already changes nothing in the feed and does not ring.
pub proof fn law_known_message_is_passed_over(
    state: StateView,
    message: ChatMessageView,
    world: WorldView,
)
    requires
        state.seen.contains(message.id),
    ensures
        ({
            let step = received(state, ServerMessageView::Chat(message), world);
            &&& step.state.entries == state.entries
            &&& step.state.seen == state.seen
            &&& only_talk_differs(state, step.state)
            &&& stops_typing(state, step.state, message.from.id)
            &&& rings_once(state, step, false)
        }),
{
    reveal(StateView::networked);
    reveal(StateView::served);
    let inner = state.served(ServerMessageView::Chat(message), world.now);
    lemma_pictures_aside(inner);
    lemma_stops_typing(
        state,
        received(state, ServerMessageView::Chat(message), world).state,
        message.from.id,
    );
}

/// Whether people stand in the order of their names, whatever the case of the letters.
pub open spec fn by_their_names(users: Seq<UserInfoView>) -> bool {
    forall|i: int, j: int|
        0 <= i < j < users.len() ==> crate::seqs::text_le(
            lower((#[trigger] users[i]).nickname),
            lower((#[trigger] users[j]).nickname),
        )
}

proof fn lemma_by_their_names(users: Seq<UserInfoView>)
    ensures
        by_their_names(crate::journal::by_name(users)),
{
    law_people_are_in_order(users);
    let r = crate::journal::by_name(users);
    let le = |a: UserInfoView, b: UserInfoView| UserInfo::ranks(a, b);
    assert forall|i: int, j: int| 0 <= i < j < r.len() implies crate::seqs::text_le(
        lower((#[trigger] r[i]).nickname),
        lower((#[trigger] r[j]).nickname),
    ) by {
        assert(le(r[i], r[j]));
    }
}

/// Whoever comes is told of by name and stands among the people, once, in the order of
/// names.
pub proof fn law_newcomer_is_shown(state: StateView, user: UserInfoView, world: WorldView)
    requires
        state.entries.len() <= 2000,
    ensures
        ({
            let step = received(state, ServerMessageView::UserJoined { user }, world);
            let known = exists|i: int|
                0 <= i < state.users.len() && (#[trigger] state.users[i]).id == user.id;
            &&& feed_has_more(
                state,
                step.state,
                EntryView::System {
                    text: user.nickname + " вошёл в комнату"@,
                    kind: SystemKind::Join,
                },
            )
            &&& known ==> step.state.users == state.users
            &&& !known ==> step.state.users.to_multiset() == state.users.push(user).to_multiset()
            &&& !known ==> by_their_names(step.state.users)
            &&& only_talk_differs(StateView { users: step.state.users, ..state }, step.state)
            &&& step.state.typing == state.typing
            &&& rings_once(state, step, false)
        }),
{
    reveal(StateView::networked);
    reveal(StateView::served);
    reveal(StateView::joined_by);
    law_entry_is_added(
        state,
        EntryView::System { text: user.nickname + " вошёл в комнату"@, kind: SystemKind::Join },
    );
    let inner = state.served(ServerMessageView::UserJoined { user }, world.now);
    lemma_pictures_aside(inner);
    law_people_are_in_order(state.users.push(user));
    lemma_by_their_names(state.users.push(user));
    lemma_first_where(state.users, is_user(user.id));
    let known = exists|i: int|
        0 <= i < state.users.len() && (#[trigger] state.users[i]).id == user.id;
    if known {
        let i = choose|i: int|
            0 <= i < state.users.len() && (#[trigger] state.users[i]).id == user.id;
        assert(is_user(user.id)(state.users[i]));
        assert(any_where(state.users, is_user(user.id)));
    } else {
        if any_where(state.users, is_user(user.id)) {
            let i = choose|i: int|
                0 <= i < state.users.len() && is_user(user.id)(#[trigger] state.users[i]);
            assert(state.users[i].id == user.id);
        }
    }
}

/// Whoever goes is told of by name, and neither stands among the people nor types any
/// longer; everybody else does.
pub proof fn law_leaver_is_gone(state: StateView, user: UserInfoView, world: WorldView)
    requires
        state.entries.len() <= 2000,
    ensures
        ({
            let step = received(state, ServerMessageView::UserLeft { user }, world);
            &&& feed_has_more(
                state,
                step.state,
                EntryView::System { text: user.nickname + " вышел"@, kind: SystemKind::Leave },
            )
            &&& forall|u: UserInfoView| #[trigger]
                step.state.users.contains(u) <==> state.users.contains(u) && u.id != user.id
            &&& by_their_names(state.users) ==> by_their_names(step.state.users)
            &&& stops_typing(state, step.state, user.id)
            &&& only_talk_differs(StateView { users: step.state.users, ..state }, step.state)
            &&& rings_once(state, step, false)
        }),
{
    reveal(StateView::networked);
    reveal(StateView::served);
    reveal(StateView::left_by);
    if by_their_names(state.users) {
        let before = |a: UserInfoView, b: UserInfoView|
            crate::seqs::text_le(lower(a.nickname), lower(b.nickname));
        assert(crate::seqs::pairwise(state.users, before));
        crate::seqs::lemma_filter_pairwise(state.users, other_user(user.id), before);
        let r = state.users.filter(other_user(user.id));
        assert forall|i: int, j: int| 0 <= i < j < r.len() implies crate::seqs::text_le(
            lower((#[trigger] r[i]).nickname),
            lower((#[trigger] r[j]).nickname),
        ) by {
            assert(before(r[i], r[j]));
        }
    }
    law_entry_is_added(
        state,
        EntryView::System { text: user.nickname + " вышел"@, kind: SystemKind::Leave },
    );
    let inner = state.served(ServerMessageView::UserLeft { user }, world.now);
    lemma_pictures_aside(inner);
    lemma_filter_keeps(state.users, other_user(user.id));
    lemma_stops_typing(
        state,
        received(state, ServerMessageView::UserLeft { user }, world).state,
        user.id,
    );
}

/// Whoever types is known to do so from now on, under the name that was said; those who
/// typed before still do.
pub proof fn law_typist_is_noted(state: StateView, user: UserInfoView, world: WorldView)
    ensures
        ({
            let step = received(state, ServerMessageView::Typing { user }, world);
            let sign = TypistView { id: user.id, nickname: user.nickname, at: world.now };
            &&& step.state.typing.contains(sign)
            &&& forall|t: TypistView|
                t.id != user.id ==> (#[trigger] step.state.typing.contains(t)
                    <==> state.typing.contains(t))
            &&& step.state.entries == state.entries
            &&& only_talk_differs(state, step.state)
            &&& rings_once(state, step, false)
        }),
{
    reveal(StateView::networked);
    reveal(StateView::served);
    let inner = state.served(ServerMessageView::Typing { user }, world.now);
    lemma_pictures_aside(inner);
    let step = received(state, ServerMessageView::Typing { user }, world);
    let sign = TypistView { id: user.id, nickname: user.nickname, at: world.now };
    let a = state.typing;
    let b = step.state.typing;
    lemma_first_where(a, is_typist(user.id));
    let k = crate::seqs::first_where(a, is_typist(user.id));
    if k < a.len() {
        assert(is_typist(user.id)(a[k]));
        assert(b[k] == sign);
    } else {
        assert(b[a.len() as int] == sign);
    }
    assert forall|t: TypistView| t.id != user.id implies (#[trigger] b.contains(t)
        <==> a.contains(t)) by {
        if b.contains(t) {
            let i = choose|i: int| 0 <= i < b.len() && b[i] == t;
            assert(a[i] == t);
        }
        if a.contains(t) {
            let i = choose|i: int| 0 <= i < a.len() && a[i] == t;
            assert(b[i] == t);
        }
    }
}

/// What the server complains of stands in the feed word for word, and its sign of life
/// changes nothing.
pub proof fn law_complaints_are_shown(
    state: StateView,
    code: crate::protocol::ErrorCode,
    words: Seq<char>,
    world: WorldView,
)
    requires
        state.entries.len() <= 2000,
    ensures
        ({
            let step = received(
                state,
                ServerMessageView::Error { code, message: words },
                world,
            );
            &&& feed_has_more(
                state,
                step.state,
                EntryView::System { text: words, kind: SystemKind::Error },
            )
            &&& only_talk_differs(state, step.state)
            &&& step.state.typing == state.typing
            &&& rings_once(state, step, false)
        }),
        ({
            let step = received(state, ServerMessageView::Pong, world);
            &&& step.state == (StateView { thumbnails: step.state.thumbnails, ..state })
            &&& rings_once(state, step, false)
        }),
{
    reveal(StateView::networked);
    reveal(StateView::served);
    law_entry_is_added(state, EntryView::System { text: words, kind: SystemKind::Error });
    lemma_pictures_aside(
        state.served(ServerMessageView::Error { code, message: words }, world.now),
    );
    lemma_pictures_aside(state.served(ServerMessageView::Pong, world.now));
}

/// Whether all messages are new to a client and no two are the same.
pub open spec fn all_new(state: StateView, history: Seq<ChatMessageView>) -> bool {
    &&& forall|i: int| 0 <= i < history.len() ==> !state.seen.contains((#[trigger] history[i]).id)
    &&& forall|i: int, j: int|
        0 <= i < j < history.len() ==> (#[trigger] history[i]).id != (#[trigger] history[j]).id
}

/// New messages stand in the feed one after another, each as it was sent.
pub proof fn law_history_fills_the_feed(
    state: StateView,
    history: Seq<ChatMessageView>,
    now: u64,
)
    requires
        all_new(state, history),
        state.entries.len() + history.len() <= 2000,
    ensures
        ({
            let b = state.heard_all(history, now);
            &&& b.entries.len() == state.entries.len() + history.len()
            &&& b.entries.take(state.entries.len() as int) == state.entries
            &&& forall|i: int|
                0 <= i < history.len() ==> is_shown_as(
                    state,
                    #[trigger] history[i],
                    now,
                    b.entries[state.entries.len() + i],
                )
            &&& only_talk_differs(state, b)
            &&& b.thumbnails == state.thumbnails
            &&& forall|id: u128| #[trigger]
                b.seen.contains(id) ==> state.seen.contains(id) || exists|i: int|
                    0 <= i < history.len() && (#[trigger] history[i]).id == id
        }),
    decreases history.len(),
{
    reveal_with_fuel(StateView::heard_all, 2);
    let n = state.entries.len() as int;
    if history.len() == 0 {
        assert(state.entries.take(n) =~= state.entries);
    } else {
        let less = history.drop_last();
        let m = history.last();
        assert forall|i: int| 0 <= i < less.len() implies !state.seen.contains(
            (#[trigger] less[i]).id,
        ) by {
            assert(less[i] == history[i]);
        }
        assert forall|i: int, j: int| 0 <= i < j < less.len() implies (#[trigger] less[i]).id != (
        #[trigger] less[j]).id by {
            assert(less[i] == history[i] && less[j] == history[j]);
        }
        law_history_fills_the_feed(state, less, now);
        let a = state.heard_all(less, now);
        let b = state.heard_all(history, now);
        assert(history[history.len() - 1] == m);
        if a.seen.contains(m.id) {
            if !state.seen.contains(m.id) {
                let i = choose|i: int| 0 <= i < less.len() && (#[trigger] less[i]).id == m.id;
                assert(history[i].id == m.id);
            }
        }
        lemma_calls(m.text, state.nickname);
        let own = a.me == Some(m.from.id);
        let entry = EntryView::Chat {
            id: m.id,
            from: m.from.nickname,
            text: m.text,
            ts: m.ts,
            mine: own,
            mentions_me: !own && named_in(m.text, a.nickname),
            attachment: m.attachment,
            reply: m.reply,
            arrived: now,
        };
        let ready = StateView {
            typing: typing_without(a.typing, m.from.id),
            seen: a.seen.insert(m.id),
            ..a
        };
        law_entry_is_added(ready, entry);
        assert(b == ready.pushed(entry));
        assert(b.entries =~= a.entries.push(entry));
        assert(b.entries.take(n) =~= state.entries) by {
            assert forall|i: int| 0 <= i < n implies b.entries.take(n)[i] == state.entries[i] by {
                assert(a.entries.take(n)[i] == a.entries[i]);
            }
        }
        assert forall|i: int| 0 <= i < history.len() implies is_shown_as(
            state,
            #[trigger] history[i],
            now,
            b.entries[n + i],
        ) by {
            if i < less.len() {
                assert(less[i] == history[i]);
                assert(b.entries[n + i] == a.entries[n + i]);
            }
        }
        assert forall|id: u128| #[trigger] b.seen.contains(id) implies state.seen.contains(id)
            || exists|i: int| 0 <= i < history.len() && (#[trigger] history[i]).id == id by {
            if id == m.id {
                assert(history[history.len() - 1].id == id);
            } else if !state.seen.contains(id) {
                assert(a.seen.contains(id));
                let i = choose|i: int| 0 <= i < less.len() && (#[trigger] less[i]).id == id;
                assert(history[i].id == id);
            }
        }
    }
}

/// A welcome puts one where the server says: in that room, under that name, among those
/// people and oneself, with what was said there before; the settings are kept.
pub proof fn law_welcome_lets_in(
    state: StateView,
    your_id: u128,
    room: Seq<char>,
    nickname: Seq<char>,
    users: Seq<UserInfoView>,
    history: Seq<ChatMessageView>,
    upload_limit: u64,
    world: WorldView,
)
    requires
        all_new(state, history),
        state.entries.len() + history.len() + 2 <= 2000,
    ensures
        ({
            let step = received(
                state,
                ServerMessageView::Welcome {
                    your_id,
                    room,
                    nickname,
                    users,
                    history,
                    upload_limit,
                },
                world,
            );
            let b = step.state;
            let n = state.entries.len() as int;
            &&& b.status is Online
            &&& b.me == Some(your_id)
            &&& b.room == room
            &&& b.nickname == nickname
            &&& b.upload_limit == upload_limit as usize
            &&& b.users.to_multiset() == users.push(
                UserInfoView { id: your_id, nickname },
            ).to_multiset()
            &&& by_their_names(b.users)
            &&& b.entries.len() == n + history.len() + if state.me is Some {
                1int
            } else {
                2
            }
            &&& b.entries.take(n) == state.entries
            &&& forall|i: int|
                0 <= i < history.len() ==> is_shown_as(
                    b,
                    #[trigger] history[i],
                    world.now,
                    b.entries[n + i],
                )
            &&& b.entries.last() is System
            &&& b.screen == state.screen && b.server == state.server && b.input == state.input
            &&& exists|i: int|
                0 <= i < step.commands.len() && step.commands[i] == CommandView::SaveConfig
        }),
{
    reveal(StateView::networked);
    reveal(StateView::served);
    reveal(StateView::welcomed);
    reveal(StateView::greeted);
    let message = ServerMessageView::Welcome {
        your_id,
        room,
        nickname,
        users,
        history,
        upload_limit,
    };
    let inner = state.served(message, world.now);
    lemma_pictures_aside(inner);
    let step = received(state, message, world);
    let placed = state.placed(your_id, room, nickname, users, upload_limit);
    law_history_fills_the_feed(placed, history, world.now);
    law_people_are_in_order(users.push(UserInfoView { id: your_id, nickname }));
    lemma_by_their_names(users.push(UserInfoView { id: your_id, nickname }));
    let heard = placed.heard_all(history, world.now);
    let n = state.entries.len() as int;
    if state.me is Some {
        law_entry_is_added(
            heard,
            EntryView::System { text: "соединение восстановлено"@, kind: SystemKind::Info },
        );
    } else {
        let first = EntryView::System {
            text: "вы вошли в комнату "@ + room + " как "@ + nickname,
            kind: SystemKind::Info,
        };
        law_entry_is_added(heard, first);
        law_entry_is_added(
            heard.pushed(first),
            EntryView::System { text: "/help — список команд"@, kind: SystemKind::Info },
        );
    }
    let b = step.state;
    assert(b.entries.take(n) =~= state.entries) by {
        assert forall|i: int| 0 <= i < n implies b.entries.take(n)[i] == state.entries[i] by {
            assert(heard.entries.take(n)[i] == heard.entries[i]);
        }
    }
    assert forall|i: int| 0 <= i < history.len() implies is_shown_as(
        b,
        #[trigger] history[i],
        world.now,
        b.entries[n + i],
    ) by {
        assert(b.entries[n + i] == heard.entries[n + i]);
        assert(is_shown_as(placed, history[i], world.now, heard.entries[n + i]));
    }
    let at = inner.commands.len() - 1;
    assert(inner.commands[at] == CommandView::SaveConfig);
    assert(step.commands[at] == step.commands.take(inner.commands.len() as int)[at]);
    assert(0 <= at < step.commands.len() && step.commands[at] == CommandView::SaveConfig);
}

/// A connection that is tried, that breaks and that is hopeless: the first is only noted;
/// the second is told with its reason, and nobody is shown any more; the third leads back
/// to the first screen with the reason.
pub proof fn law_connection_is_followed(
    state: StateView,
    attempt: u32,
    reason: Seq<char>,
    retry_at: u64,
    world: WorldView,
)
    requires
        state.entries.len() <= 2000,
    ensures
        ({
            let step = state.updated(ActionView::Net(NetEventView::Connecting { attempt }), world);
            &&& step.commands.len() == 0
            &&& step.state == (StateView { status: StatusView::Connecting { attempt }, ..state })
        }),
        ({
            let step = state.updated(
                ActionView::Net(NetEventView::Disconnected { reason, retry_at }),
                world,
            );
            &&& step.commands.len() == 0
            &&& step.state.status == (StatusView::Reconnecting { reason, retry_at })
            &&& step.state.users.len() == 0
            &&& feed_has_more(
                state,
                step.state,
                EntryView::System {
                    text: "соединение потеряно: "@ + reason,
                    kind: SystemKind::Error,
                },
            )
            &&& step.state.screen == state.screen && step.state.room == state.room
            &&& step.state.nickname == state.nickname && step.state.input == state.input
        }),
        ({
            let step = state.updated(ActionView::Net(NetEventView::Fatal { reason }), world);
            &&& step.state.screen matches ScreenView::Login(login)
            &&& login.error == Some(reason)
            &&& login.nickname.text == state.nickname
            &&& login.room.text == state.room
            &&& login.server.text == state.server
            &&& step.state.users.len() == 0
            &&& step.state.entries == state.entries
            &&& match world.endpoint {
                Ok(endpoint) => step.commands == seq![CommandView::FetchRooms(endpoint.base)],
                Err(_) => step.commands.len() == 0,
            }
        }),
{
    reveal(StateView::networked);
    reveal(StateView::turned_away);
    law_entry_is_added(
        state,
        EntryView::System { text: "соединение потеряно: "@ + reason, kind: SystemKind::Error },
    );
}

/// The pictures among the last thirty entries that are not known yet, and no others, are
/// sent for; none where pictures are not shown or the server is not known.
pub proof fn law_pictures_are_sent_for(state: StateView)
    ensures
        ({
            let step = state.thumbnails_queued();
            &&& step.state == (StateView { thumbnails: step.state.thumbnails, ..state })
            &&& !state.inline_images || state.media_base.len() == 0 ==> step.commands.len() == 0
                && step.state == state
            &&& state.inline_images && state.media_base.len() > 0 ==> {
                &&& forall|k: int, a: AttachmentView|
                    #[trigger] is_late_picture(state, k, a) && !state.thumbnails.contains_key(a.id)
                        ==> is_fetched(step, state, a.id)
                &&& forall|i: int|
                    0 <= i < step.commands.len() ==> fetches_a_late_one(
                        state,
                        #[trigger] step.commands[i],
                    )
            }
        }),
{
    reveal(StateView::thumbnails_queued);
    let step = state.thumbnails_queued();
    if state.inline_images && state.media_base.len() > 0 {
        let ids = state.lacking();
        lemma_wanted(state.entries, 30, state.thumbnails);
        assert forall|k: int, a: AttachmentView|
            #[trigger] is_late_picture(state, k, a) && !state.thumbnails.contains_key(
                a.id,
            ) implies is_fetched(step, state, a.id) by {
            assert(picture_of(state.entries[k]) == Some(a.id));
            assert(ids.contains(a.id));
            let i = choose|i: int| 0 <= i < ids.len() && ids[i] == a.id;
            assert(step.commands[i] == CommandView::Fetch(
                a.id,
                state.media_base + "/media/"@ + crate::ids::id_text(a.id),
            ));
        }
        assert forall|i: int| 0 <= i < step.commands.len() implies fetches_a_late_one(
            state,
            #[trigger] step.commands[i],
        ) by {
            let id = ids[i];
            let k = choose|k: int|
                state.entries.len() - 30 <= k < state.entries.len() && 0 <= k && picture_of(
                    #[trigger] state.entries[k],
                ) == Some(id);
            let a = crate::command_laws::attached(state.entries[k])->0;
            assert(is_late_picture(state, k, a));
            assert(step.commands[i] == CommandView::Fetch(a.id, address_of_file(state, a)));
        }
    }
}

/// Whether a picture is attached to one of the last thirty entries.
pub open spec fn is_late_picture(state: StateView, k: int, a: AttachmentView) -> bool {
    &&& 0 <= k < state.entries.len()
    &&& k >= state.entries.len() - 30
    &&& crate::command_laws::attached(state.entries[k]) == Some(a)
    &&& a.kind == AttachmentKind::Image
}

/// Whether something sends for one of the late pictures that are not known yet.
pub open spec fn fetches_a_late_one(state: StateView, command: CommandView) -> bool {
    exists|k: int, a: AttachmentView| #[trigger]
        is_late_picture(state, k, a) && !state.thumbnails.contains_key(a.id) && command
            == CommandView::Fetch(a.id, address_of_file(state, a))
}

/// Whether a picture is sent for.
pub open spec fn is_fetched(step: Step, state: StateView, id: u128) -> bool {
    exists|i: int|
        0 <= i < step.commands.len() && #[trigger] step.commands[i] == CommandView::Fetch(
            id,
            state.media_base + "/media/"@ + crate::ids::id_text(id),
        )
}

proof fn lemma_wanted(entries: Seq<EntryView>, left: nat, known: Map<u128, ThumbnailView>)
    ensures
        forall|k: int|
            0 <= k < entries.len() && k >= entries.len() - left && picture_of(
                #[trigger] entries[k],
            ) is Some && !known.contains_key(picture_of(entries[k])->0) ==> wanted(
                entries,
                left,
                known,
            ).contains(picture_of(entries[k])->0),
        forall|i: int|
            0 <= i < wanted(entries, left, known).len() ==> {
                &&& !known.contains_key(#[trigger] wanted(entries, left, known)[i])
                &&& exists|k: int|
                    entries.len() - left <= k < entries.len() && 0 <= k && picture_of(
                        #[trigger] entries[k],
                    ) == Some(wanted(entries, left, known)[i])
            },
    decreases left,
{
    if left > 0 && entries.len() > 0 {
        let d = entries.drop_last();
        let less = (left - 1) as nat;
        lemma_wanted(d, less, known);
        let w = wanted(entries, left, known);
        let rest = wanted(d, less, known);
        let fresh = picture_of(entries.last()) is Some && !known.contains_key(
            picture_of(entries.last())->0,
        );
        let off: int = if fresh {
            1
        } else {
            0
        };
        assert(w.len() == rest.len() + off);
        assert forall|k: int|
            0 <= k < entries.len() && k >= entries.len() - left && picture_of(
                #[trigger] entries[k],
            ) is Some && !known.contains_key(picture_of(entries[k])->0) implies w.contains(
            picture_of(entries[k])->0,
        ) by {
            let id = picture_of(entries[k])->0;
            if k == entries.len() - 1 {
                assert(w[0] == id);
            } else {
                assert(d[k] == entries[k]);
                assert(rest.contains(id));
                let i = choose|i: int| 0 <= i < rest.len() && rest[i] == id;
                assert(w[i + off] == id);
            }
        }
        assert forall|i: int| 0 <= i < w.len() implies {
            &&& !known.contains_key(#[trigger] w[i])
            &&& exists|k: int|
                entries.len() - left <= k < entries.len() && 0 <= k && picture_of(
                    #[trigger] entries[k],
                ) == Some(w[i])
        } by {
            if i < off {
                assert(picture_of(entries[entries.len() - 1]) == Some(w[i]));
            } else {
                assert(w[i] == rest[i - off]);
                let k = choose|k: int|
                    d.len() - less <= k < d.len() && 0 <= k && picture_of(#[trigger] d[k]) == Some(
                        rest[i - off],
                    );
                assert(entries[k] == d[k]);
            }
        }
    }
}

/// The newest picture is sent for first.
pub proof fn law_newest_picture_comes_first(state: StateView, a: AttachmentView)
    requires
        state.inline_images,
        state.media_base.len() > 0,
        state.entries.len() > 0,
        is_late_picture(state, state.entries.len() - 1, a),
        !state.thumbnails.contains_key(a.id),
    ensures
        state.thumbnails_queued().commands.len() > 0,
        state.thumbnails_queued().commands[0] == CommandView::Fetch(
            a.id,
            address_of_file(state, a),
        ),
{
    reveal(StateView::thumbnails_queued);
    let ids = state.lacking();
    assert(picture_of(state.entries.last()) == Some(a.id));
    assert(ids[0] == a.id);
}

/// Those are shown as typing who said so within the last four seconds, and nobody else, in
/// the order of their names.
pub proof fn law_who_is_typing(state: StateView, now: u64)
    ensures
        forall|name: Seq<char>| #[trigger]
            state.typing_names(now).contains(name) <==> exists|i: int|
                0 <= i < state.typing.len() && now - (#[trigger] state.typing[i]).at < 4000
                    && state.typing[i].nickname == name,
        forall|i: int, j: int|
            0 <= i < j < state.typing_names(now).len() ==> crate::seqs::text_le(
                #[trigger] state.typing_names(now)[i],
                #[trigger] state.typing_names(now)[j],
            ),
{
    let live = state.typing.filter(still_typing(now));
    let names = live.map_values(|t: TypistView| t.nickname);
    let le = |a: Seq<char>, b: Seq<char>| String::ranks(a, b);
    lemma_filter_keeps(state.typing, still_typing(now));
    law_sorted_keeps_items(names, le);
    let shown = state.typing_names(now);
    assert(shown == sorted(names, le));
    assert(crate::seqs::total_order(le)) by {
        assert forall|a: Seq<char>, b: Seq<char>| #[trigger] le(a, b) || le(b, a) by {
            crate::seqs::law_text_order(a, b);
        }
        assert forall|a: Seq<char>, b: Seq<char>, c: Seq<char>| #[trigger]
            le(a, b) && #[trigger] le(b, c) implies le(a, c) by {
            crate::seqs::law_text_order_carries(a, b, c);
        }
    }
    crate::seqs::law_sorted_is_in_order(names, le);
    assert forall|i: int, j: int| 0 <= i < j < shown.len() implies crate::seqs::text_le(
        #[trigger] shown[i],
        #[trigger] shown[j],
    ) by {
        assert(le(shown[i], shown[j]));
    }
    assert forall|name: Seq<char>| #[trigger] shown.contains(name) <==> exists|i: int|
        0 <= i < state.typing.len() && now - (#[trigger] state.typing[i]).at < 4000
            && state.typing[i].nickname == name by {
        shown.to_multiset_ensures();
        names.to_multiset_ensures();
        assert(shown.contains(name) <==> shown.to_multiset().count(name) > 0);
        assert(names.contains(name) <==> names.to_multiset().count(name) > 0);
        if names.contains(name) {
            let k = choose|k: int| 0 <= k < names.len() && names[k] == name;
            assert(live.contains(live[k]));
            assert(state.typing.contains(live[k]));
            let i = choose|i: int| 0 <= i < state.typing.len() && state.typing[i] == live[k];
            assert(state.typing[i].nickname == name);
        }
        if exists|i: int|
            0 <= i < state.typing.len() && now - (#[trigger] state.typing[i]).at < 4000
                && state.typing[i].nickname == name {
            let i = choose|i: int|
                0 <= i < state.typing.len() && now - (#[trigger] state.typing[i]).at < 4000
                    && state.typing[i].nickname == name;
            assert(state.typing.contains(state.typing[i]));
            assert(live.contains(state.typing[i]));
            let k = choose|k: int| 0 <= k < live.len() && live[k] == state.typing[i];
            assert(names[k] == name);
        }
    }
}

} // verus!
