//! What holds of the feed whatever happens: it stays within its limit, and no message
//! is in it twice.
use crate::home::LoginView;
use crate::journal::{chat_ids, entry_id, surplus};
use crate::keys::{normalized, KeyEvent};
use crate::protocol::{
    AttachmentKind, AttachmentView, ChatMessageView, RoomSummaryView, ServerMessageView,
};
use crate::state::{
    ActionView, EntryView, NetEventView, Pick, PickMode, ScreenView, StateView, SystemKind,
    WorldView, MAX_ENTRIES,
};
use vstd::prelude::*;

verus! {

/// No two messages among some entries are the same one.
pub open spec fn all_apart(entries: Seq<EntryView>) -> bool {
    forall|i: int, j: int|
        0 <= i < j < entries.len() && entry_id(#[trigger] entries[i]) is Some ==> entry_id(
            entries[i],
        ) != entry_id(#[trigger] entries[j])
}

/// The feed is within its limit, no message is in it twice, and exactly its messages
/// are known to have been shown.
pub open spec fn feed_sound(state: StateView) -> bool {
    &&& state.entries.len() <= MAX_ENTRIES
    &&& all_apart(state.entries)
    &&& state.seen == chat_ids(state.entries)
}

/// A client begins with a sound feed.
pub proof fn law_beginning_is_sound(nickname: Option<Seq<char>>, room: Seq<char>, now: u64)
    ensures
        feed_sound(StateView::beginning(nickname, room, now).state),
{
    assert(chat_ids(Seq::<EntryView>::empty()) =~= Set::<u128>::empty());
}

proof fn lemma_pushed(state: StateView, entry: EntryView)
    requires
        state.entries.len() <= MAX_ENTRIES,
        all_apart(state.entries.push(entry)),
        state.seen == chat_ids(state.entries.push(entry)),
    ensures
        feed_sound(state.pushed(entry)),
        state.pushed(entry).entries.last() == entry,
        state.pushed(entry).entries.len() > 0,
{
    reveal(StateView::pushed);
    let all = state.entries.push(entry);
    let gone = surplus(all.len() as int);
    let rest = all.skip(gone);
    let first = all.take(gone);
    let after = state.pushed(entry);
    assert forall|i: int, j: int|
        0 <= i < j < rest.len() && entry_id(#[trigger] rest[i]) is Some implies entry_id(rest[i])
        != entry_id(#[trigger] rest[j]) by {
        assert(rest[i] == all[i + gone]);
        assert(rest[j] == all[j + gone]);
    }
    assert forall|id: u128| #[trigger] after.seen.contains(id) == chat_ids(rest).contains(id) by {
        if after.seen.contains(id) {
            let i = choose|i: int| 0 <= i < all.len() && entry_id(#[trigger] all[i]) == Some(id);
            if i < gone {
                assert(first[i] == all[i]);
            }
            assert(rest[i - gone] == all[i]);
        }
        if chat_ids(rest).contains(id) {
            let i = choose|i: int| 0 <= i < rest.len() && entry_id(#[trigger] rest[i]) == Some(id);
            assert(all[i + gone] == rest[i]);
            if chat_ids(first).contains(id) {
                let j = choose|j: int|
                    0 <= j < first.len() && entry_id(#[trigger] first[j]) == Some(id);
                assert(all[j] == first[j]);
            }
        }
    }
    assert(after.seen =~= chat_ids(rest));
}

/// One more line of the client itself keeps the feed sound.
pub proof fn law_told_keeps_feed_sound(state: StateView, kind: SystemKind, text: Seq<char>)
    requires
        feed_sound(state),
    ensures
        feed_sound(state.told(kind, text)),
{
    let entry = EntryView::System { text, kind };
    let all = state.entries.push(entry);
    assert forall|id: u128| #[trigger] chat_ids(all).contains(id) == chat_ids(
        state.entries,
    ).contains(id) by {
        if chat_ids(all).contains(id) {
            let i = choose|i: int| 0 <= i < all.len() && entry_id(#[trigger] all[i]) == Some(id);
            assert(state.entries[i] == all[i]);
        }
        if chat_ids(state.entries).contains(id) {
            let i = choose|i: int|
                0 <= i < state.entries.len() && entry_id(#[trigger] state.entries[i]) == Some(id);
            assert(all[i] == state.entries[i]);
        }
    }
    assert(chat_ids(all) =~= chat_ids(state.entries));
    lemma_pushed(state, entry);
}

/// A message keeps the feed sound, whether it is new or not.
pub proof fn law_heard_keeps_feed_sound(state: StateView, message: ChatMessageView, now: u64)
    requires
        feed_sound(state),
    ensures
        feed_sound(state.heard(message, now)),
{
    if !state.seen.contains(message.id) {
        lemma_heard_new(state, message, now);
    }
}

proof fn lemma_heard_new(state: StateView, message: ChatMessageView, now: u64)
    requires
        feed_sound(state),
        !state.seen.contains(message.id),
    ensures
        feed_sound(state.heard(message, now)),
        state.heard(message, now).entries.len() > 0,
        entry_id(state.heard(message, now).entries.last()) == Some(message.id),
{
    let entry = EntryView::Chat {
        id: message.id,
        from: message.from.nickname,
        text: message.text,
        ts: message.ts,
        mine: state.is_mine(message),
        mentions_me: !state.is_mine(message) && crate::journal::named_in(
            message.text,
            state.nickname,
        ),
        attachment: message.attachment,
        reply: message.reply,
        arrived: now,
    };
    let ready = StateView {
        typing: crate::journal::typing_without(state.typing, message.from.id),
        seen: state.seen.insert(message.id),
        ..state
    };
    let all = state.entries.push(entry);
    assert forall|id: u128| #[trigger] chat_ids(all).contains(id) == ready.seen.contains(id) by {
        if chat_ids(all).contains(id) {
            let i = choose|i: int| 0 <= i < all.len() && entry_id(#[trigger] all[i]) == Some(id);
            if i < state.entries.len() {
                assert(state.entries[i] == all[i]);
            }
        }
        if state.seen.contains(id) {
            let i = choose|i: int|
                0 <= i < state.entries.len() && entry_id(#[trigger] state.entries[i]) == Some(id);
            assert(all[i] == state.entries[i]);
        }
        assert(all[state.entries.len() as int] == entry);
    }
    assert(ready.seen =~= chat_ids(all));
    assert forall|i: int, j: int|
        0 <= i < j < all.len() && entry_id(#[trigger] all[i]) is Some implies entry_id(all[i])
        != entry_id(#[trigger] all[j]) by {
        assert(state.entries[i] == all[i]);
        if j < state.entries.len() {
            assert(state.entries[j] == all[j]);
        } else if entry_id(all[i]) == Some(message.id) {
            assert(chat_ids(state.entries).contains(message.id));
        }
    }
    lemma_pushed(ready, entry);
    assert(state.heard(message, now) == ready.pushed(entry));
}

/// A message that comes twice is shown once.
pub proof fn law_message_is_shown_once(
    state: StateView,
    message: ChatMessageView,
    now: u64,
    later: u64,
)
    requires
        feed_sound(state),
    ensures
        state.heard(message, now).heard(message, later).entries == state.heard(
            message,
            now,
        ).entries,
        !state.heard(message, now).rings(message),
{
    let once = state.heard(message, now);
    if state.seen.contains(message.id) {
        assert(once.seen == state.seen);
    } else {
        lemma_heard_new(state, message, now);
        let last = once.entries.len() - 1;
        assert(entry_id(once.entries[last]) == Some(message.id));
        assert(chat_ids(once.entries).contains(message.id));
    }
}

proof fn lemma_heard_all(state: StateView, messages: Seq<ChatMessageView>, now: u64)
    requires
        feed_sound(state),
    ensures
        feed_sound(state.heard_all(messages, now)),
    decreases messages.len(),
{
    reveal(StateView::heard_all);
    if messages.len() > 0 {
        lemma_heard_all(state, messages.drop_last(), now);
        law_heard_keeps_feed_sound(
            state.heard_all(messages.drop_last(), now),
            messages.last(),
            now,
        );
    }
}

/// A history that is known already changes nothing in the feed and rings no bell: a
/// connection may break and come back as often as it likes.
pub proof fn law_known_history_adds_nothing(
    state: StateView,
    history: Seq<ChatMessageView>,
    now: u64,
)
    requires
        forall|i: int| 0 <= i < history.len() ==> state.seen.contains((#[trigger] history[i]).id),
    ensures
        state.heard_all(history, now).entries == state.entries,
        state.heard_all(history, now).seen == state.seen,
        !state.rings_in(history, now),
    decreases history.len(),
{
    reveal(StateView::heard_all);
    reveal(StateView::rings_in);
    if history.len() > 0 {
        let before = history.drop_last();
        assert forall|i: int| 0 <= i < before.len() implies state.seen.contains(
            (#[trigger] before[i]).id,
        ) by {
            assert(before[i] == history[i]);
        }
        law_known_history_adds_nothing(state, before, now);
        assert(state.seen.contains(history[history.len() - 1].id));
    }
}

proof fn lemma_told_all(state: StateView, kind: SystemKind, lines: Seq<Seq<char>>)
    requires
        feed_sound(state),
    ensures
        feed_sound(state.told_all(kind, lines)),
    decreases lines.len(),
{
    reveal(StateView::told_all);
    if lines.len() > 0 {
        lemma_told_all(state, kind, lines.drop_last());
        law_told_keeps_feed_sound(state.told_all(kind, lines.drop_last()), kind, lines.last());
    }
}

proof fn lemma_forgotten(state: StateView)
    ensures
        feed_sound(state.forgotten()),
        feed_sound(state.cleared()),
{
    reveal(StateView::cleared);
    assert(chat_ids(Seq::<EntryView>::empty()) =~= Set::<u128>::empty());
}

proof fn lemma_refused(state: StateView, words: Seq<char>)
    requires
        feed_sound(state),
    ensures
        feed_sound(state.refused(words).state),
{
    law_told_keeps_feed_sound(state, SystemKind::Error, words);
}

proof fn lemma_attachment(
    state: StateView,
    a: AttachmentView,
    arg: Seq<char>,
    world: WorldView,
)
    requires
        feed_sound(state),
    ensures
        feed_sound(state.viewed(a).state),
        feed_sound(state.opened(a).state),
        feed_sound(state.played(a).state),
        feed_sound(state.saved(a, arg, world).state),
{
    reveal(StateView::viewed);
    reveal(StateView::opened);
    reveal(StateView::played);
    reveal(StateView::saved);
    lemma_refused(state, "это не картинка — звук слушается через /open"@);
    lemma_refused(state, "неизвестен адрес сервера"@);
    lemma_refused(state, "это вложение — не голосовое"@);
    law_told_keeps_feed_sound(state, SystemKind::Info, "открываю "@ + a.name);
}

proof fn lemma_newest(state: StateView, arg: Seq<char>, world: WorldView)
    requires
        feed_sound(state),
    ensures
        feed_sound(state.view_newest().state),
        feed_sound(state.open_newest().state),
        feed_sound(state.play_newest().state),
        feed_sound(state.save_newest(arg, world).state),
{
    reveal(StateView::view_newest);
    reveal(StateView::open_newest);
    reveal(StateView::play_newest);
    reveal(StateView::save_newest);
    lemma_refused(state, "в этой комнате пока нет вложений"@);
    if let Some(a) = state.newest() {
        lemma_attachment(state, a, arg, world);
    }
    if let Some(a) = state.newest_of(AttachmentKind::Image) {
        lemma_attachment(state, a, arg, world);
    }
    if let Some(a) = state.newest_of(AttachmentKind::Audio) {
        lemma_attachment(state, a, arg, world);
    }
}

proof fn lemma_acted_on(state: StateView, index: int, world: WorldView)
    requires
        feed_sound(state),
    ensures
        feed_sound(state.acted_on(index, world).state),
{
    reveal(StateView::acted_on);
    if let Some(a) = state.attachment_at(index) {
        lemma_attachment(state, a, Seq::empty(), world);
    }
}

proof fn lemma_sending(state: StateView, arg: Seq<char>, world: WorldView)
    requires
        feed_sound(state),
    ensures
        feed_sound(state.sending(arg, world).state),
{
    reveal(StateView::sending);
    lemma_refused(state, "нет соединения, файл не отправлен"@);
    lemma_refused(state, "неизвестен адрес сервера"@);
}

proof fn lemma_walking(state: StateView, index: int, down: bool, mode: PickMode)
    requires
        feed_sound(state),
    ensures
        feed_sound(state.walked(index, down, mode)),
        feed_sound(state.walk_started(mode)),
        feed_sound(state.answering(index)),
        feed_sound(state.picking_toggled()),
{
    reveal(StateView::walked);
    reveal(StateView::walk_started);
    reveal(StateView::answering);
    reveal(StateView::picking_toggled);
    reveal(StateView::revealed);
    reveal(StateView::centred_on);
    let free = StateView { picking: None, ..state };
    law_told_keeps_feed_sound(free, SystemKind::Error, crate::walk::no_stop(mode));
    law_told_keeps_feed_sound(free, SystemKind::Error, crate::walk::no_stop(PickMode::Reply));
}

proof fn lemma_commands(state: StateView, arg: Seq<char>)
    requires
        feed_sound(state),
    ensures
        feed_sound(state.hosting(arg).state),
        feed_sound(state.joining(arg).state),
        feed_sound(state.listing_rooms().state),
        feed_sound(state.renaming(arg).state),
{
    reveal(StateView::hosting);
    reveal(StateView::joining);
    reveal(StateView::listing_rooms);
    reveal(StateView::renaming);
    lemma_refused(state, "порт — это число, например /host 9000"@);
    lemma_refused(state, "неизвестен адрес сервера"@);
    lemma_forgotten(state);
    match crate::validate::cleaned_room(arg) {
        Ok(room) => {
            law_told_keeps_feed_sound(state, SystemKind::Info, "вы уже в комнате "@ + room);
            law_told_keeps_feed_sound(
                state.forgotten(),
                SystemKind::Info,
                "перехожу в комнату "@ + room,
            );
        },
        Err(problem) => {
            lemma_refused(state, problem.sentence());
        },
    }
    match crate::validate::cleaned_nickname(arg) {
        Ok(nickname) => {
            law_told_keeps_feed_sound(state, SystemKind::Info, "меняю ник на "@ + nickname);
        },
        Err(problem) => {
            lemma_refused(state, problem.sentence());
        },
    }
}

proof fn lemma_coloring(state: StateView, arg: Seq<char>)
    requires
        feed_sound(state),
    ensures
        feed_sound(state.coloring(arg).state),
{
    reveal(StateView::coloring);
    reveal(StateView::painted);
    reveal(StateView::unpainted);
    let parts = crate::text::words(arg);
    lemma_refused(state, "нужно так: /color #d97757 или /color bob cyan"@);
    if parts.len() > 0 {
        let (nickname, value) = if parts.len() == 1 {
            (state.nickname, parts[0])
        } else {
            (parts[0], parts[1])
        };
        let key = crate::text::lower(nickname);
        lemma_refused(
            state,
            "не понял цвет "@ + value + ": нужен #rrggbb или название вроде cyan"@,
        );
        law_told_keeps_feed_sound(
            StateView {
                colors: state.colors.filter(crate::console::other_painted(key)),
                ..state
            },
            SystemKind::Info,
            "цвет "@ + nickname + " сброшен"@,
        );
        if let Some(color) = crate::theme::parsed_color(value) {
            law_told_keeps_feed_sound(
                StateView {
                    colors: crate::console::repainted(state.colors, key, color),
                    ..state
                },
                SystemKind::Info,
                "цвет "@ + nickname + " теперь "@ + value,
            );
        }
    }
}

proof fn lemma_ordered(state: StateView, line: Seq<char>, world: WorldView)
    requires
        feed_sound(state),
    ensures
        feed_sound(state.ordered(line, world).state),
{
    reveal(StateView::ordered);
    reveal(StateView::at_home);
    let (name, arg) = crate::console::parted(line);
    lemma_forgotten(state);
    lemma_newest(state, arg, world);
    lemma_sending(state, arg, world);
    lemma_coloring(state, arg);
    lemma_commands(state, arg);
    lemma_refused(state, "неизвестная команда /"@ + name + ", список — /help"@);
}

proof fn lemma_submitted(state: StateView, world: WorldView)
    requires
        feed_sound(state),
    ensures
        feed_sound(state.submitted(world).state),
{
    reveal(StateView::submitted);
    reveal(StateView::saying);
    let line = crate::text::trimmed(state.input.text);
    let free = state.line_taken_off(line);
    lemma_ordered(free, line, world);
    lemma_sending(free, crate::attach::meant_path(line), world);
    lemma_refused(state, "нет соединения, сообщение не отправлено"@);
    let body = if crate::text::begins(line, "/"@) {
        line.drop_first()
    } else {
        line
    };
    if let Err(problem) = crate::validate::cleaned_text(body) {
        lemma_refused(state, problem.sentence());
    }
}

proof fn lemma_searching(state: StateView, key: KeyEvent)
    requires
        feed_sound(state),
    ensures
        feed_sound(state.search_key(key).state),
{
    reveal(StateView::search_key);
    reveal(StateView::match_stepped);
    reveal(StateView::matches_refreshed);
    reveal(StateView::revealed);
    reveal(StateView::centred_on);
}

proof fn lemma_picking(state: StateView, pick: Pick, key: KeyEvent, world: WorldView)
    requires
        feed_sound(state),
    ensures
        feed_sound(state.picking_key(pick, key, world).state),
{
    reveal(StateView::picking_key);
    reveal(StateView::pick_taken);
    reveal(StateView::pick_named);
    let free = StateView { picking: None, ..state };
    lemma_walking(free, pick.index as int, false, pick.mode);
    lemma_walking(state, pick.index as int, false, pick.mode);
    lemma_walking(state, pick.index as int, true, pick.mode);
    lemma_acted_on(free, pick.index as int, world);
    if let Some(a) = free.attachment_at(pick.index as int) {
        lemma_attachment(free, a, Seq::empty(), world);
    }
}

proof fn lemma_browsing(state: StateView, key: KeyEvent, world: WorldView)
    requires
        feed_sound(state),
    ensures
        feed_sound(state.browser_key(key, world).state),
{
    reveal(StateView::browser_key);
    reveal(StateView::filter_key);
    reveal(StateView::dir_left);
    reveal(StateView::line_taken);
}

proof fn lemma_line_key(state: StateView, key: KeyEvent, world: WorldView)
    requires
        feed_sound(state),
    ensures
        feed_sound(state.line_key(key, world).state),
{
    reveal(StateView::line_key);
    reveal(StateView::control_key);
    reveal(StateView::function_key);
    reveal(StateView::editing_key);
    reveal(StateView::typing_announced);
    reveal(StateView::at_home);
    reveal(StateView::recalled);
    lemma_submitted(state, world);
    lemma_newest(state, Seq::empty(), world);
    lemma_sending(state, Seq::empty(), world);
    lemma_walking(state, 0, false, PickMode::Attachment);
}

proof fn lemma_chat_key(state: StateView, key: KeyEvent, world: WorldView)
    requires
        feed_sound(state),
    ensures
        feed_sound(state.chat_key(key, world).state),
{
    reveal(StateView::chat_key);
    reveal(StateView::help_key);
    reveal(StateView::completed);
    lemma_browsing(state, key, world);
    lemma_searching(state, key);
    lemma_line_key(StateView { completion: None, ..state }, key, world);
    if let Some(pick) = state.picking {
        lemma_picking(state, pick, key, world);
    }
}

proof fn lemma_home_key(state: StateView, login: LoginView, key: KeyEvent, world: WorldView)
    requires
        feed_sound(state),
    ensures
        feed_sound(state.home_key(login, key, world).state),
{
    reveal(StateView::home_key);
    reveal(StateView::home_entered);
    reveal(StateView::entering);
    reveal(StateView::starting);
    reveal(StateView::look_key);
    reveal(StateView::sound_key);
    assert(chat_ids(Seq::<EntryView>::empty()) =~= Set::<u128>::empty());
}

proof fn lemma_served(state: StateView, message: ServerMessageView, now: u64)
    requires
        feed_sound(state),
    ensures
        feed_sound(state.served(message, now).state),
{
    reveal(StateView::served);
    match message {
        ServerMessageView::Welcome { your_id, room, nickname, users, history, upload_limit } => {
            reveal(StateView::welcomed);
            reveal(StateView::greeted);
            let placed = state.placed(your_id, room, nickname, users, upload_limit);
            let heard = placed.heard_all(history, now);
            lemma_heard_all(placed, history, now);
            law_told_keeps_feed_sound(heard, SystemKind::Info, "соединение восстановлено"@);
            let words = "вы вошли в комнату "@ + heard.room + " как "@ + heard.nickname;
            law_told_keeps_feed_sound(heard, SystemKind::Info, words);
            law_told_keeps_feed_sound(
                heard.told(SystemKind::Info, words),
                SystemKind::Info,
                "/help — список команд"@,
            );
        },
        ServerMessageView::UserJoined { user } => {
            reveal(StateView::joined_by);
            law_told_keeps_feed_sound(
                state,
                SystemKind::Join,
                user.nickname + " вошёл в комнату"@,
            );
        },
        ServerMessageView::UserLeft { user } => {
            reveal(StateView::left_by);
            law_told_keeps_feed_sound(state, SystemKind::Leave, user.nickname + " вышел"@);
        },
        ServerMessageView::Chat(message) => {
            law_heard_keeps_feed_sound(state, message, now);
        },
        ServerMessageView::Error { code, message } => {
            law_told_keeps_feed_sound(state, SystemKind::Error, message);
        },
        _ => {},
    }
}

proof fn lemma_networked(state: StateView, event: NetEventView, world: WorldView)
    requires
        feed_sound(state),
    ensures
        feed_sound(state.networked(event, world).state),
{
    reveal(StateView::networked);
    reveal(StateView::turned_away);
    match event {
        NetEventView::Disconnected { reason, retry_at } => {
            law_told_keeps_feed_sound(
                state,
                SystemKind::Error,
                "соединение потеряно: "@ + reason,
            );
        },
        NetEventView::Message(message) => {
            lemma_served(state, message, world.now);
            reveal(StateView::thumbnails_queued);
        },
        _ => {},
    }
}

proof fn lemma_rooms_came(state: StateView, rooms: Result<Seq<RoomSummaryView>, Seq<char>>)
    requires
        feed_sound(state),
    ensures
        feed_sound(state.rooms_came(rooms)),
{
    reveal(StateView::rooms_came);
    reveal(StateView::rooms_told);
    let idle = state.idle();
    match rooms {
        Ok(list) => {
            law_told_keeps_feed_sound(idle, SystemKind::Info, "других комнат сейчас нет"@);
            law_told_keeps_feed_sound(idle, SystemKind::Info, "комнаты на сервере:"@);
            lemma_told_all(
                idle.told(SystemKind::Info, "комнаты на сервере:"@),
                SystemKind::Info,
                list.map_values(
                    |room: RoomSummaryView| crate::update::room_line(room, idle.room),
                ),
            );
        },
        Err(reason) => {
            law_told_keeps_feed_sound(idle, SystemKind::Error, reason);
        },
    }
}

/// Whatever happens to a client, its feed stays sound: it does not grow beyond its
/// limit, and no message is in it twice.
pub proof fn law_update_keeps_feed_sound(state: StateView, action: ActionView, world: WorldView)
    requires
        feed_sound(state),
    ensures
        feed_sound(state.updated(action, world).state),
{
    reveal(StateView::changed);
    reveal(StateView::answered);
    match action {
        ActionView::Key(key) => {
            reveal(StateView::key_pressed);
            lemma_chat_key(state, normalized(key), world);
            if let ScreenView::Login(login) = state.screen {
                lemma_home_key(state, login, normalized(key), world);
            }
        },
        ActionView::Paste(text) => {
            reveal(StateView::pasted);
        },
        ActionView::Click(_, row) => {
            reveal(StateView::clicked);
            if let Some(index) = state.entry_at(row) {
                lemma_acted_on(state, index, world);
            }
        },
        ActionView::Notice(text) => {
            reveal(StateView::noticed);
            law_told_keeps_feed_sound(state.idle(), SystemKind::Error, text);
        },
        ActionView::Info(text) => {
            law_told_keeps_feed_sound(state, SystemKind::Info, text);
        },
        ActionView::Hosted { url, lines } => {
            reveal(StateView::hosted);
            lemma_told_all(
                StateView { screen: ScreenView::Chat, ..state.idle() },
                SystemKind::Info,
                lines,
            );
        },
        ActionView::Rooms(rooms) => {
            lemma_rooms_came(state, rooms);
        },
        ActionView::Uploaded(result) => {
            reveal(StateView::uploaded);
            match result {
                Ok(attachment) => {
                    law_told_keeps_feed_sound(
                        state.idle(),
                        SystemKind::Info,
                        "отправляю "@ + attachment.name,
                    );
                },
                Err(reason) => {
                    lemma_refused(state.idle(), reason);
                },
            }
        },
        ActionView::Directory { dir, result } => {
            reveal(StateView::directory_read);
        },
        ActionView::Saved(result) => {
            reveal(StateView::file_saved);
            match result {
                Ok(path) => {
                    law_told_keeps_feed_sound(
                        state.idle(),
                        SystemKind::Info,
                        "сохранено: "@ + path,
                    );
                },
                Err(reason) => {
                    law_told_keeps_feed_sound(state.idle(), SystemKind::Error, reason);
                },
            }
        },
        ActionView::Net(event) => {
            lemma_networked(state, event, world);
        },
        ActionView::Image(id, result) => {
            reveal(StateView::picture_came);
        },
        _ => {},
    }
}

} // verus!
