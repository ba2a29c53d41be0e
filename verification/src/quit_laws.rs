//! What closes the program, and what does not.
use crate::console::{is_command, order_named, parted, Order};
use crate::home::LoginView;
use crate::keys::{normalized, KeyCode, KeyEvent};
use crate::protocol::{
    AttachmentKind, AttachmentView, ChatMessageView, RoomSummaryView, ServerMessageView,
};
use crate::state::{
    ActionView, NetEventView, Pick, PickMode, ScreenView, StateView, SystemKind, WorldView,
};
use crate::text::trimmed;
use vstd::prelude::*;

verus! {

/// Whether a line is the command that closes the program.
pub open spec fn asks_to_quit(line: Seq<char>) -> bool {
    is_command(line) && order_named(parted(line).0) == Order::Quit
}

/// Whether a key asks to close the program: by itself, or because it ends the line with
/// the command.
pub open spec fn key_asks(state: StateView, key: KeyEvent) -> bool {
    StateView::closing(key) || (key.code == KeyCode::Enter && asks_to_quit(
        trimmed(state.input.text),
    ))
}

proof fn lemma_attachment(state: StateView, a: AttachmentView, arg: Seq<char>, world: WorldView)
    ensures
        state.viewed(a).state.should_quit == state.should_quit,
        state.opened(a).state.should_quit == state.should_quit,
        state.played(a).state.should_quit == state.should_quit,
        state.saved(a, arg, world).state.should_quit == state.should_quit,
        state.sending(arg, world).state.should_quit == state.should_quit,
{
    reveal(StateView::viewed);
    reveal(StateView::opened);
    reveal(StateView::played);
    reveal(StateView::saved);
    reveal(StateView::sending);
    reveal(StateView::pushed);
}

proof fn lemma_newest(state: StateView, arg: Seq<char>, world: WorldView)
    ensures
        state.view_newest().state.should_quit == state.should_quit,
        state.open_newest().state.should_quit == state.should_quit,
        state.play_newest().state.should_quit == state.should_quit,
        state.save_newest(arg, world).state.should_quit == state.should_quit,
        state.sending(arg, world).state.should_quit == state.should_quit,
{
    reveal(StateView::view_newest);
    reveal(StateView::open_newest);
    reveal(StateView::play_newest);
    reveal(StateView::save_newest);
    reveal(StateView::sending);
    reveal(StateView::pushed);
    if let Some(a) = state.newest() {
        lemma_attachment(state, a, arg, world);
    }
    if let Some(a) = state.newest_of(AttachmentKind::Image) {
        lemma_attachment(state, a, arg, world);
    }
    if let Some(a) = state.newest_of(AttachmentKind::Audio) {
        lemma_attachment(state, a, arg, world);
    }
}

proof fn lemma_acted_on(state: StateView, index: int, world: WorldView)
    ensures
        state.acted_on(index, world).state.should_quit == state.should_quit,
{
    reveal(StateView::acted_on);
    if let Some(a) = state.attachment_at(index) {
        lemma_attachment(state, a, Seq::empty(), world);
    }
}

proof fn lemma_walking(state: StateView, index: int, down: bool, mode: PickMode)
    ensures
        state.walked(index, down, mode).should_quit == state.should_quit,
        state.walk_started(mode).should_quit == state.should_quit,
        state.answering(index).should_quit == state.should_quit,
        state.picking_toggled().should_quit == state.should_quit,
{
    reveal(StateView::walked);
    reveal(StateView::walk_started);
    reveal(StateView::answering);
    reveal(StateView::picking_toggled);
    reveal(StateView::revealed);
    reveal(StateView::centred_on);
    reveal(StateView::pushed);
}

proof fn lemma_ordered(state: StateView, line: Seq<char>, world: WorldView)
    requires
        order_named(parted(line).0) != Order::Quit,
    ensures
        state.ordered(line, world).state.should_quit == state.should_quit,
{
    reveal(StateView::ordered);
    reveal(StateView::at_home);
    reveal(StateView::cleared);
    reveal(StateView::coloring);
    reveal(StateView::painted);
    reveal(StateView::unpainted);
    reveal(StateView::hosting);
    reveal(StateView::joining);
    reveal(StateView::listing_rooms);
    reveal(StateView::renaming);
    reveal(StateView::pushed);
    lemma_newest(state, parted(line).1, world);
}

proof fn lemma_submitted(state: StateView, world: WorldView)
    requires
        !asks_to_quit(trimmed(state.input.text)),
    ensures
        state.submitted(world).state.should_quit == state.should_quit,
{
    reveal(StateView::submitted);
    reveal(StateView::saying);
    reveal(StateView::sending);
    reveal(StateView::pushed);
    let line = trimmed(state.input.text);
    if is_command(line) {
        lemma_ordered(state.line_taken_off(line), line, world);
    }
}

proof fn lemma_picking(state: StateView, pick: Pick, key: KeyEvent, world: WorldView)
    requires
        !StateView::closing(key),
    ensures
        state.picking_key(pick, key, world).state.should_quit == state.should_quit,
{
    reveal(StateView::picking_key);
    reveal(StateView::pick_taken);
    reveal(StateView::pick_named);
    let free = StateView { picking: None, ..state };
    lemma_walking(free, pick.index as int, false, pick.mode);
    lemma_walking(state, pick.index as int, false, pick.mode);
    lemma_walking(state, pick.index as int, true, pick.mode);
    lemma_acted_on(free, pick.index as int, world);
    if let Some(a) = free.attachment_at(pick.index as int) {
        lemma_attachment(free, a, Seq::empty(), world);
    }
}

proof fn lemma_line_key(state: StateView, key: KeyEvent, world: WorldView)
    requires
        !key_asks(state, key),
    ensures
        state.line_key(key, world).state.should_quit == state.should_quit,
{
    reveal(StateView::line_key);
    reveal(StateView::control_key);
    reveal(StateView::function_key);
    reveal(StateView::editing_key);
    reveal(StateView::typing_announced);
    reveal(StateView::at_home);
    reveal(StateView::recalled);
    if key.code == KeyCode::Enter {
        lemma_submitted(state, world);
    }
    lemma_newest(state, Seq::empty(), world);
    lemma_walking(state, 0, false, PickMode::Attachment);
}

proof fn lemma_chat_key(state: StateView, key: KeyEvent, world: WorldView)
    requires
        !key_asks(state, key),
    ensures
        state.chat_key(key, world).state.should_quit == state.should_quit,
{
    reveal(StateView::chat_key);
    reveal(StateView::help_key);
    reveal(StateView::completed);
    reveal(StateView::browser_key);
    reveal(StateView::filter_key);
    reveal(StateView::dir_left);
    reveal(StateView::line_taken);
    reveal(StateView::search_key);
    reveal(StateView::match_stepped);
    reveal(StateView::matches_refreshed);
    reveal(StateView::revealed);
    reveal(StateView::centred_on);
    lemma_line_key(StateView { completion: None, ..state }, key, world);
    if let Some(pick) = state.picking {
        lemma_picking(state, pick, key, world);
    }
}

proof fn lemma_home_key(state: StateView, login: LoginView, key: KeyEvent, world: WorldView)
    requires
        !StateView::closing(key),
    ensures
        state.home_key(login, key, world).state.should_quit == state.should_quit,
{
    reveal(StateView::home_key);
    reveal(StateView::home_entered);
    reveal(StateView::entering);
    reveal(StateView::starting);
    reveal(StateView::look_key);
    reveal(StateView::sound_key);
}

proof fn lemma_heard_all(state: StateView, messages: Seq<ChatMessageView>, now: u64)
    ensures
        state.heard_all(messages, now).should_quit == state.should_quit,
    decreases messages.len(),
{
    reveal(StateView::heard_all);
    reveal(StateView::pushed);
    if messages.len() > 0 {
        lemma_heard_all(state, messages.drop_last(), now);
    }
}

proof fn lemma_told_all(state: StateView, kind: SystemKind, lines: Seq<Seq<char>>)
    ensures
        state.told_all(kind, lines).should_quit == state.should_quit,
    decreases lines.len(),
{
    reveal(StateView::told_all);
    reveal(StateView::pushed);
    if lines.len() > 0 {
        lemma_told_all(state, kind, lines.drop_last());
    }
}

proof fn lemma_networked(state: StateView, event: NetEventView, world: WorldView)
    ensures
        state.networked(event, world).state.should_quit == state.should_quit,
{
    reveal(StateView::networked);
    reveal(StateView::turned_away);
    reveal(StateView::served);
    reveal(StateView::welcomed);
    reveal(StateView::greeted);
    reveal(StateView::joined_by);
    reveal(StateView::left_by);
    reveal(StateView::thumbnails_queued);
    reveal(StateView::pushed);
    if let NetEventView::Message(
        ServerMessageView::Welcome { your_id, room, nickname, users, history, upload_limit },
    ) = event {
        lemma_heard_all(
            state.placed(your_id, room, nickname, users, upload_limit),
            history,
            world.now,
        );
    }
}

proof fn lemma_rooms_came(state: StateView, rooms: Result<Seq<RoomSummaryView>, Seq<char>>)
    ensures
        state.rooms_came(rooms).should_quit == state.should_quit,
{
    reveal(StateView::rooms_came);
    reveal(StateView::rooms_told);
    reveal(StateView::pushed);
    let idle = state.idle();
    if let Ok(list) = rooms {
        lemma_told_all(
            idle.told(SystemKind::Info, "комнаты на сервере:"@),
            SystemKind::Info,
            list.map_values(|room: RoomSummaryView| crate::update::room_line(room, idle.room)),
        );
    }
}

/// The program is closed only by a key that asks for it: nothing that comes from the
/// server, from the disk or from the mouse does so, and no other key.
pub proof fn law_only_a_key_quits(state: StateView, action: ActionView, world: WorldView)
    requires
        !state.should_quit,
        state.updated(action, world).state.should_quit,
    ensures
        action matches ActionView::Key(key) && key.press && key_asks(state, normalized(key)),
{
    reveal(StateView::changed);
    reveal(StateView::answered);
    match action {
        ActionView::Key(key) => {
            reveal(StateView::key_pressed);
            if !key_asks(state, normalized(key)) {
                lemma_chat_key(state, normalized(key), world);
                if let ScreenView::Login(login) = state.screen {
                    lemma_home_key(state, login, normalized(key), world);
                }
            }
        },
        ActionView::Click(_, row) => {
            reveal(StateView::clicked);
            if let Some(index) = state.entry_at(row) {
                lemma_acted_on(state, index, world);
            }
        },
        ActionView::Hosted { url, lines } => {
            reveal(StateView::hosted);
            lemma_told_all(
                StateView { screen: ScreenView::Chat, ..state.idle() },
                SystemKind::Info,
                lines,
            );
        },
        ActionView::Rooms(rooms) => {
            lemma_rooms_came(state, rooms);
        },
        ActionView::Net(event) => {
            lemma_networked(state, event, world);
        },
        _ => {
            reveal(StateView::pasted);
            reveal(StateView::noticed);
            reveal(StateView::uploaded);
            reveal(StateView::directory_read);
            reveal(StateView::file_saved);
            reveal(StateView::picture_came);
            reveal(StateView::pushed);
        },
    }
}

} // verus!
