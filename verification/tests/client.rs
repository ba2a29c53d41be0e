//! The client: what every key, message and reply does to it.
use null_terminal::address::endpoint;
use null_terminal::console::{find_color, looks_like_path};
use null_terminal::errands::rooms_url;
use null_terminal::files::FileEntry;
use null_terminal::home::{Field, HomeTab, DEFAULT_PORT};
use null_terminal::http::tunnel_download_request;
use null_terminal::keys::{KeyCode, KeyEvent};
use null_terminal::picture::Picture;
use null_terminal::protocol::{
    Attachment, AttachmentKind, ChatMessage, ClientMessage, RoomSummary, ServerMessage, UserInfo,
};
use null_terminal::state::{
    Action, Command, Destination, Entry, NetEvent, PathKind, PickMode, Screen, State,
    SystemKind, Thumbnail, ViewerState, Viewport, World, MAX_ENTRIES, TYPING_TTL,
};
use null_terminal::theme::{Color, Theme};
use null_terminal::update::{take_in, Outside};
use null_terminal::validate::{MAX_TEXT_CHARS, MAX_UPLOAD_BYTES};

const NOW: u64 = 1_000_000;

const DEFAULT_SERVER: &str = "ws://127.0.0.1:8080/ws";

fn fresh() -> u128 {
    uuid::Uuid::new_v4().as_u128()
}

fn written(id: u128) -> String {
    uuid::Uuid::from_u128(id).to_string()
}

fn act_on_disk(state: &mut State, action: Action, disk: PathKind) -> Vec<Command> {
    let outside = Outside {
        now: NOW,
        usual: DEFAULT_SERVER.to_string(),
        start_dir: "C:/загрузки".to_string(),
        parent: Some("C:/".to_string()),
        disk,
    };
    take_in(state, action, outside)
}

fn act(state: &mut State, action: Action) -> Vec<Command> {
    act_on_disk(state, action, PathKind::Nothing)
}

fn key(code: KeyCode) -> Action {
    Action::Key(KeyEvent { code, ctrl: false, press: true })
}

fn ctrl(ch: char) -> Action {
    Action::Key(KeyEvent { code: KeyCode::Char(ch), ctrl: true, press: true })
}

fn picture(width: u32, height: u32) -> Picture {
    Picture { width, height, pixels: vec![0; (width * height * 3) as usize] }
}

fn user(nickname: &str) -> UserInfo {
    UserInfo { id: fresh(), nickname: nickname.into() }
}

fn chat_message(from: UserInfo, text: &str) -> ChatMessage {
    ChatMessage {
        id: fresh(),
        from,
        text: text.into(),
        ts: 1_700_000_000_000,
        attachment: None,
        reply: None,
    }
}

fn connected() -> (State, u128) {
    let (mut state, _) = State::new(Some("alice".into()), "general".into(), NOW);
    let me = fresh();
    act(
        &mut state,
        Action::Net(NetEvent::Message(ServerMessage::Welcome {
            your_id: me,
            room: "general".into(),
            nickname: "alice".into(),
            users: vec![],
            history: vec![],
            upload_limit: MAX_UPLOAD_BYTES as u64,
        })),
    );
    (state, me)
}

fn typed(state: &mut State, text: &str) {
    for ch in text.chars() {
        act(state, key(KeyCode::Char(ch)));
    }
}

fn texts(state: &State) -> Vec<&str> {
    state
        .entries
        .iter()
        .map(|entry| match entry {
            Entry::Chat { text, .. } => text.as_str(),
            Entry::System { text, .. } => text.as_str(),
        })
        .collect()
}

#[test]
fn nickname_from_arguments_skips_the_login_screen() {
    let (state, commands) = State::new(Some("alice".into()), "general".into(), NOW);

    assert!(matches!(state.screen, Screen::Chat));
    assert_eq!(
        commands,
        [Command::Connect {
            nickname: "alice".into(),
            room: "general".into(),
            server: String::new(),
        }]
    );
}

#[test]
fn without_a_nickname_the_login_screen_asks_for_one() {
    let (mut state, commands) = State::new(None, "general".into(), NOW);
    assert!(commands.is_empty());
    assert!(matches!(state.screen, Screen::Login(_)));

    typed(&mut state, "alice");
    let commands = act(&mut state, key(KeyCode::Enter));

    assert!(matches!(
        commands.as_slice(),
        [Command::Connect { nickname, room, .. }] if nickname == "alice" && room == "general"
    ));
    assert!(matches!(state.screen, Screen::Chat));
}

#[test]
fn login_validates_before_going_to_the_network() {
    let (mut state, _) = State::new(None, "general".into(), NOW);
    typed(&mut state, "a b");

    let commands = act(&mut state, key(KeyCode::Enter));

    assert!(
        commands.is_empty(),
        "кривой ник не должен уходить на сервер"
    );
    let Screen::Login(login) = &state.screen else {
        panic!("остаёмся на экране входа");
    };
    assert!(login.error.is_some());
}

#[test]
fn taken_nickname_returns_to_the_login_screen() {
    let (mut state, _) = connected();

    act(&mut state,
        Action::Net(NetEvent::Fatal {
            reason: "ник alice в этой комнате уже занят".into(),
        }),
    );

    let Screen::Login(login) = &state.screen else {
        panic!("ожидался экран входа, а не выход");
    };
    assert_eq!(login.nickname.text, "alice");
    assert_eq!(login.room.text, "general");
    assert!(login.error.as_deref().unwrap().contains("занят"));
}

#[test]
fn arrows_walk_the_login_fields() {
    let (mut state, _) = State::new(None, "general".into(), NOW);
    typed(&mut state, "alice");
    act(&mut state, key(KeyCode::Down));
    act(&mut state, ctrl('u'));
    typed(&mut state, "rust");

    let Screen::Login(login) = &state.screen else {
        panic!("ожидался экран входа");
    };
    assert_eq!(
        (login.nickname.text.as_str(), login.room.text.as_str()),
        ("alice", "rust")
    );
}

#[test]
fn welcome_history_fills_the_empty_screen() {
    let (mut state, _) = State::new(Some("alice".into()), "general".into(), NOW);
    let bob = user("bob");

    act(&mut state,
        Action::Net(NetEvent::Message(ServerMessage::Welcome {
            your_id: fresh(),
            room: "general".into(),
            nickname: "alice".into(),
            users: vec![bob.clone()],
            history: vec![
                chat_message(bob.clone(), "первое"),
                chat_message(bob, "второе"),
            ],
            upload_limit: MAX_UPLOAD_BYTES as u64,
        })),
    );

    let shown = texts(&state);
    assert_eq!(shown[0], "первое");
    assert_eq!(shown[1], "второе");
}

#[test]
fn replayed_history_does_not_duplicate_messages() {
    let (mut state, me) = connected();
    let bob = user("bob");
    let message = chat_message(bob.clone(), "привет");
    act(&mut state,
        Action::Net(NetEvent::Message(ServerMessage::Chat(message.clone()))),
    );

    act(&mut state,
        Action::Net(NetEvent::Disconnected {
            reason: "обрыв".into(),
            retry_at: NOW + 1_000,
        }),
    );
    act(&mut state,
        Action::Net(NetEvent::Message(ServerMessage::Welcome {
            your_id: me,
            room: "general".into(),
            nickname: "alice".into(),
            users: vec![bob.clone()],
            history: vec![message, chat_message(bob, "пропущенное")],
            upload_limit: MAX_UPLOAD_BYTES as u64,
        })),
    );

    let shown = texts(&state);
    assert_eq!(
        shown.iter().filter(|text| **text == "привет").count(),
        1,
        "реплика показана дважды: {shown:?}"
    );
    assert!(
        shown.contains(&"пропущенное"),
        "пропущенное за время обрыва не восстановлено: {shown:?}"
    );
}

#[test]
fn mentions_are_marked() {
    let (mut state, _) = connected();

    for text in ["Alice, ты тут?", "просто сообщение"] {
        act(&mut state,
            Action::Net(NetEvent::Message(ServerMessage::Chat(chat_message(
                user("bob"),
                text,
            )))),
        );
    }

    let flags: Vec<_> = state
        .entries
        .iter()
        .filter_map(|entry| match entry {
            Entry::Chat { mentions_me, .. } => Some(*mentions_me),
            _ => None,
        })
        .collect();
    assert_eq!(flags, [true, false]);
}

#[test]
fn own_messages_are_marked() {
    let (mut state, me) = connected();

    for from in [
        UserInfo {
            id: me,
            nickname: "alice".into(),
        },
        user("bob"),
    ] {
        act(&mut state,
            Action::Net(NetEvent::Message(ServerMessage::Chat(chat_message(
                from,
                "привет",
            )))),
        );
    }

    let mine: Vec<_> = state
        .entries
        .iter()
        .filter_map(|entry| match entry {
            Entry::Chat { mine, .. } => Some(*mine),
            _ => None,
        })
        .collect();
    assert_eq!(mine, [true, false]);
}

#[test]
fn submit_sends_and_clears_input() {
    let (mut state, _) = connected();
    typed(&mut state, "  привет  ");

    let commands = act(&mut state, key(KeyCode::Enter));

    assert!(matches!(
        commands.as_slice(),
        [Command::Send(ClientMessage::Chat { text, .. })] if text == "привет"
    ));
    assert!(state.input.is_empty());
}

#[test]
fn submit_while_offline_keeps_the_text() {
    let (mut state, _) = State::new(Some("alice".into()), "general".into(), NOW);
    typed(&mut state, "привет");

    let commands = act(&mut state, key(KeyCode::Enter));

    assert!(commands.is_empty());
    assert_eq!(state.input.text, "привет");
}

#[test]
fn slash_commands_do_not_reach_the_room() {
    let (mut state, _) = connected();
    let before = state.entries.len();
    typed(&mut state, "/help");

    let commands = act(&mut state, key(KeyCode::Enter));

    assert!(commands.is_empty());
    assert!(state.help, "справка не открылась");
    assert_eq!(state.entries.len(), before);
}

#[test]
fn any_key_closes_the_help() {
    let (mut state, _) = connected();
    typed(&mut state, "/help");
    act(&mut state, key(KeyCode::Enter));

    act(&mut state, key(KeyCode::Char('x')));

    assert!(!state.help);
    assert!(state.input.is_empty());
}

#[test]
fn double_slash_escapes_a_message() {
    let (mut state, _) = connected();
    typed(&mut state, "//join это не команда");

    let commands = act(&mut state, key(KeyCode::Enter));

    assert!(matches!(
        commands.as_slice(),
        [Command::Send(ClientMessage::Chat { text, .. })] if text == "/join это не команда"
    ));
}

#[test]
fn unknown_command_is_reported() {
    let (mut state, _) = connected();
    typed(&mut state, "/dance");

    let commands = act(&mut state, key(KeyCode::Enter));

    assert!(commands.is_empty());
    assert!(matches!(
        state.entries.last(),
        Some(Entry::System {
            kind: SystemKind::Error,
            ..
        })
    ));
}

fn some_rooms() -> Vec<RoomSummary> {
    vec![
        RoomSummary {
            name: "rust".into(),
            users: 2,
        },
        RoomSummary {
            name: "talk".into(),
            users: 1,
        },
    ]
}

#[test]
fn login_shows_the_rooms_it_is_given() {
    let (mut state, _) = State::new(None, "general".into(), NOW);

    act(&mut state, Action::Rooms(Ok(some_rooms())));

    let Screen::Login(login) = &state.screen else {
        panic!("не экран входа");
    };
    assert_eq!(login.rooms.len(), 2);
    assert!(login.rooms_note.is_none());
}

#[test]
fn picking_a_room_from_the_list_joins_it() {
    let (mut state, _) = State::new(None, "general".into(), NOW);
    state.prefill_nickname("alice");
    act(&mut state, Action::Rooms(Ok(some_rooms())));

    for _ in 0..5 {
        act(&mut state, key(KeyCode::Down));
    }
    let commands = act(&mut state, key(KeyCode::Enter));

    assert!(
        matches!(
            commands.as_slice(),
            [Command::Connect { room, nickname, .. }]
                if room == "talk" && nickname == "alice"
        ),
        "{commands:?}"
    );
    assert!(matches!(state.screen, Screen::Chat));
}

#[test]
fn typing_a_room_beats_a_stale_selection() {
    let (mut state, _) = State::new(None, "general".into(), NOW);
    state.prefill_nickname("alice");
    act(&mut state, Action::Rooms(Ok(some_rooms())));
    for _ in 0..4 {
        act(&mut state, key(KeyCode::Down));
    }

    for _ in 0..3 {
        act(&mut state, key(KeyCode::Up));
    }
    typed(&mut state, "x");
    let commands = act(&mut state, key(KeyCode::Enter));

    assert!(
        matches!(
            commands.as_slice(),
            [Command::Connect { room, .. }] if room == "generalx"
        ),
        "{commands:?}"
    );
}

#[test]
fn the_host_tab_raises_a_server_without_leaving_the_screen() {
    let (mut state, _) = State::new(None, "general".into(), NOW);
    state.prefill_nickname("alice");
    act(&mut state, key(KeyCode::Tab));

    let commands = act(&mut state, key(KeyCode::Enter));

    assert_eq!(commands, [Command::Host(DEFAULT_PORT)]);
    let Screen::Login(login) = &state.screen else {
        panic!("ушли с главного экрана раньше времени");
    };
    assert!(login.busy.is_some());
}

#[test]
fn a_busy_port_is_reported_on_the_form() {
    let (mut state, _) = State::new(None, "general".into(), NOW);
    state.prefill_nickname("alice");
    act(&mut state, key(KeyCode::Tab));
    act(&mut state, key(KeyCode::Enter));

    act(&mut state, Action::Notice("порт занят".into()));

    let Screen::Login(login) = &state.screen else {
        panic!("не главный экран");
    };
    assert_eq!(login.error.as_deref(), Some("порт занят"));
    assert!(login.busy.is_none(), "спиннер должен погаснуть");
    assert_eq!(
        act(&mut state, key(KeyCode::Enter)),
        [Command::Host(DEFAULT_PORT)]
    );
}

#[test]
fn a_raised_server_takes_you_into_the_chat() {
    let (mut state, _) = State::new(None, "general".into(), NOW);
    state.prefill_nickname("alice");
    act(&mut state, key(KeyCode::Tab));
    act(&mut state, key(KeyCode::Enter));

    let commands = act(&mut state,
        Action::Hosted {
            url: "ws://127.0.0.1:8080/ws".into(),
            lines: vec!["друг подключается: 192.168.1.5:8080".into()],
        },
    );

    assert!(matches!(state.screen, Screen::Chat));
    assert!(matches!(
        commands.as_slice(),
        [Command::Connect { nickname, room, .. }] if nickname == "alice" && room == "general"
    ));
}

#[test]
fn a_bad_port_never_reaches_the_network() {
    let (mut state, _) = State::new(None, "general".into(), NOW);
    state.prefill_nickname("alice");
    act(&mut state, key(KeyCode::Tab));
    act(&mut state, key(KeyCode::Down));
    act(&mut state, key(KeyCode::Down));
    act(&mut state, ctrl('u'));

    let commands = act(&mut state, key(KeyCode::Enter));

    assert!(commands.is_empty());
    let Screen::Login(login) = &state.screen else {
        panic!("не главный экран");
    };
    assert_eq!(login.field, Field::Port);
    assert!(login.error.is_some());
}

#[test]
fn the_port_field_takes_digits_only() {
    let (mut state, _) = State::new(None, "general".into(), NOW);
    act(&mut state, key(KeyCode::Tab));
    act(&mut state, key(KeyCode::Down));
    act(&mut state, key(KeyCode::Down));
    act(&mut state, ctrl('u'));
    typed(&mut state, "80п8");

    let Screen::Login(login) = &state.screen else {
        panic!("не главный экран");
    };
    assert_eq!(login.port.text, "808");
}

#[test]
fn the_look_tab_changes_the_theme_and_remembers_it() {
    let (mut state, _) = State::new(None, "general".into(), NOW);
    for _ in 0..2 {
        act(&mut state, key(KeyCode::Tab));
    }

    let commands = act(&mut state, key(KeyCode::Right));

    assert_eq!(state.theme, Theme::default().shift(false));
    assert_eq!(commands, [Command::SaveConfig]);
}

#[test]
fn the_look_tab_walks_its_rows() {
    let (mut state, _) = State::new(None, "general".into(), NOW);
    for _ in 0..2 {
        act(&mut state, key(KeyCode::Tab));
    }
    act(&mut state, key(KeyCode::Down));
    act(&mut state, key(KeyCode::Enter));

    assert_eq!(state.images_choice, Some(true));
}

#[test]
fn arrow_up_from_the_top_returns_focus_to_the_form() {
    let (mut state, _) = State::new(None, "general".into(), NOW);
    act(&mut state, Action::Rooms(Ok(some_rooms())));

    for _ in 0..3 {
        act(&mut state, key(KeyCode::Down));
    }
    act(&mut state, key(KeyCode::Up));

    let Screen::Login(login) = &state.screen else {
        panic!("не экран входа");
    };
    assert_eq!(login.rooms_selected, None);
}

#[test]
fn ctrl_r_on_login_asks_the_server_again() {
    let (mut state, _) = State::new(None, "general".into(), NOW);
    state.set_server("ws://192.168.1.5:8080/ws".into());

    let commands = act(&mut state, ctrl('r'));

    assert!(
        matches!(
            commands.as_slice(),
            [Command::FetchRooms(base)] if base == "http://192.168.1.5:8080"
        ),
        "{commands:?}"
    );
}

#[test]
fn a_failed_room_query_explains_itself() {
    let (mut state, _) = State::new(None, "general".into(), NOW);
    act(&mut state, Action::Rooms(Ok(some_rooms())));

    act(&mut state, Action::Rooms(Err("сервер не ответил".into())));

    let Screen::Login(login) = &state.screen else {
        panic!("не экран входа");
    };
    assert!(login.rooms.is_empty());
    assert_eq!(login.rooms_note.as_deref(), Some("сервер не ответил"));
}

fn function(n: u8) -> Action {
    key(KeyCode::F(n))
}

#[test]
fn function_keys_do_what_the_commands_do() {
    let (mut state, _) = connected();

    assert_eq!(
        act(&mut state, function(2)),
        vec![Command::ToggleRecording]
    );

    let (mut state, _) = connected();
    let before = state.entries.len();
    assert!(act(&mut state, function(1)).is_empty());
    assert!(state.help, "F1 не открыла справку");
    assert_eq!(state.entries.len(), before);
}

#[test]
fn f4_opens_the_file_browser() {
    let (mut state, _) = connected();
    state.media_base = "http://127.0.0.1:8080".into();

    let commands = act(&mut state, function(4));

    assert!(state.browser.is_some(), "обзор файлов не открылся");
    assert!(
        matches!(commands.as_slice(), [Command::ReadDir(_)]),
        "{commands:?}"
    );
}

#[test]
fn f3_plays_and_then_stops() {
    let (mut state, _) = with_voice();

    let commands = act(&mut state, function(3));
    assert!(
        matches!(commands.as_slice(), [Command::PlayVoice(..)]),
        "{commands:?}"
    );

    state.playing = true;
    assert_eq!(act(&mut state, function(3)), vec![Command::StopVoice]);
}

#[test]
fn function_keys_do_not_leak_into_the_message() {
    let (mut state, _) = connected();
    typed(&mut state, "привет");

    act(&mut state, function(2));

    assert_eq!(state.input.text, "привет");
}

fn with_mixed_attachments() -> State {
    let (mut state, _) = connected();
    state.media_base = "http://127.0.0.1:8080".into();

    let picture = Attachment {
        id: fresh(),
        kind: AttachmentKind::Image,
        name: "кот.png".into(),
        size: 10,
        mime: "image/png".into(),
    };
    let voice = Attachment {
        id: fresh(),
        kind: AttachmentKind::Audio,
        name: "голосовое.wav".into(),
        size: 20,
        mime: "audio/wav".into(),
    };
    for attachment in [Some(picture), None, Some(voice), None] {
        let mut message = chat_message(user("bob"), "текст");
        message.attachment = attachment;
        act(&mut state,
            Action::Net(NetEvent::Message(ServerMessage::Chat(message))),
        );
    }
    state
}

#[test]
fn f7_walks_only_over_messages_with_attachments() {
    let mut state = with_mixed_attachments();

    act(&mut state, function(7));
    let first = state.picking.expect("выбор не начался");
    assert_eq!(first.mode, PickMode::Attachment);
    assert!(
        state.picked_attachment(first.index).is_some(),
        "выбрана запись без вложения"
    );

    act(&mut state, key(KeyCode::Up));
    let second = state.picking.expect("выбор потерялся");
    assert!(second.index < first.index);
    let attachment = state.picked_attachment(second.index).expect("нет вложения");
    assert_eq!(attachment.kind, AttachmentKind::Image);
}

#[test]
fn enter_does_the_natural_thing_to_the_picked_attachment() {
    let mut state = with_mixed_attachments();

    act(&mut state, function(7));
    let commands = act(&mut state, key(KeyCode::Enter));
    assert!(
        matches!(commands.as_slice(), [Command::PlayVoice(..)]),
        "{commands:?}"
    );
    assert!(state.picking.is_none(), "выбор не закрылся");

    act(&mut state, function(7));
    act(&mut state, key(KeyCode::Up));
    let commands = act(&mut state, key(KeyCode::Enter));
    assert!(
        matches!(commands.as_slice(), [Command::Fetch(..)]),
        "{commands:?}"
    );
    assert!(state.viewer.is_some(), "просмотр не открылся");
}

#[test]
fn a_picked_picture_can_be_saved_instead_of_shown() {
    let mut state = with_mixed_attachments();
    act(&mut state, function(7));
    act(&mut state, key(KeyCode::Up));

    let commands = act(&mut state, function(5));

    assert!(
        matches!(
            commands.as_slice(),
            [Command::Save { destination, .. }]
                if *destination == Destination::Downloads("кот.png".to_string())
        ),
        "{commands:?}"
    );
}

#[test]
fn picking_an_attachment_does_not_start_a_reply() {
    let mut state = with_mixed_attachments();

    act(&mut state, function(7));
    act(&mut state, key(KeyCode::Enter));

    assert!(state.replying.is_none(), "вложение превратилось в цитату");
}

#[test]
fn reply_picking_still_walks_every_message() {
    let mut state = with_mixed_attachments();

    act(&mut state, ctrl('r'));
    let pick = state.picking.expect("выбор не начался");
    assert_eq!(pick.mode, PickMode::Reply);
    assert!(state.picked_attachment(pick.index).is_none());

    act(&mut state, key(KeyCode::Enter));
    assert!(state.replying.is_some(), "цитата не взведена");
}

#[test]
fn a_path_is_told_apart_from_a_message() {
    assert!(looks_like_path(r"C:\Users\egord\Downloads\голосовое.wav"));
    assert!(looks_like_path("C:/Users/egord/фото.png"));
    assert!(looks_like_path("/home/egor/фото.png"));
    assert!(looks_like_path(r"\\сервер\общая\файл.zip"));

    for message in [
        "привет",
        "смотри что нашёл",
        "1:2 счёт",
        r"путь C:\тут внутри фразы",
    ] {
        assert!(!looks_like_path(message), "принято за путь: {message}");
    }
}

#[test]
fn a_dragged_file_is_sent_as_a_file_not_as_text() {
    let (mut state, _) = connected();
    state.media_base = "http://127.0.0.1:8080".into();

    let file = "/usr/bin/null_terminal";
    typed(&mut state, file);
    let commands = act_on_disk(&mut state, key(KeyCode::Enter), PathKind::File);

    assert!(
        matches!(commands.as_slice(), [Command::Upload(path)] if path == file),
        "{commands:?}"
    );
    assert!(state.input.is_empty(), "ввод не очистился");
}

#[test]
fn a_known_command_is_never_taken_for_a_file() {
    let (mut state, _) = connected();
    state.media_base = "http://127.0.0.1:8080".into();
    typed(&mut state, "/help");
    assert_eq!(state.path_to_check(), None);

    let commands = act_on_disk(&mut state, key(KeyCode::Enter), PathKind::File);

    assert!(commands.is_empty());
    assert!(state.help);
}

#[test]
fn a_path_is_looked_up_before_it_is_sent() {
    let (mut state, _) = connected();
    typed(&mut state, "\"/home/egor/фото.png\"");
    assert_eq!(state.path_to_check().as_deref(), Some("/home/egor/фото.png"));
}

#[test]
fn a_path_to_nothing_stays_an_ordinary_message() {
    let (mut state, _) = connected();
    state.media_base = "http://127.0.0.1:8080".into();
    typed(&mut state, r"C:\такого\файла\нет.txt");

    let commands = act(&mut state, key(KeyCode::Enter));

    assert!(
        matches!(
            commands.as_slice(),
            [Command::Send(ClientMessage::Chat { .. })]
        ),
        "{commands:?}"
    );
}

#[test]
fn clicking_a_voice_plays_it() {
    let mut state = with_mixed_attachments();
    state.entry_lines = (0..state.entries.len()).collect();
    state.viewport = Viewport {
        height: state.entries.len(),
        total_lines: state.entries.len(),
        top: 0,
    };
    state.scrollback = 0;

    let voice_row = (state.entries.len() - 2) as u16;
    let commands = act(&mut state, Action::Click(0, voice_row));

    assert!(
        matches!(commands.as_slice(), [Command::PlayVoice(..)]),
        "{commands:?}"
    );
}

#[test]
fn clicking_a_plain_message_does_nothing() {
    let mut state = with_mixed_attachments();
    state.entry_lines = (0..state.entries.len()).collect();
    state.viewport = Viewport {
        height: state.entries.len(),
        total_lines: state.entries.len(),
        top: 0,
    };

    let last = (state.entries.len() - 1) as u16;
    let commands = act(&mut state, Action::Click(0, last));

    assert!(commands.is_empty(), "{commands:?}");
    assert!(state.viewer.is_none());
}

#[test]
fn clicking_outside_the_feed_is_ignored() {
    let mut state = with_mixed_attachments();
    state.entry_lines = (0..state.entries.len()).collect();
    state.viewport = Viewport {
        height: 3,
        total_lines: state.entries.len(),
        top: 5,
    };

    assert!(act(&mut state, Action::Click(0, 1)).is_empty());
    assert!(act(&mut state, Action::Click(0, 99)).is_empty());
}

#[test]
fn f7_without_attachments_explains_itself() {
    let (mut state, _) = connected();

    act(&mut state, function(7));

    assert!(state.picking.is_none());
    assert!(matches!(
        state.entries.last(),
        Some(Entry::System {
            kind: SystemKind::Error,
            ..
        })
    ));
}

#[test]
fn join_command_switches_rooms_and_forgets_the_old_one() {
    let (mut state, _) = connected();
    act(&mut state,
        Action::Net(NetEvent::Message(ServerMessage::Chat(chat_message(
            user("bob"),
            "старое",
        )))),
    );
    typed(&mut state, "/join rust");

    let commands = act(&mut state, key(KeyCode::Enter));

    assert_eq!(
        commands,
        [Command::Connect {
            nickname: "alice".into(),
            room: "rust".into(),
            server: String::new(),
        }]
    );
    assert!(
        !texts(&state).contains(&"старое"),
        "переписка прошлой комнаты осталась на экране"
    );
}

#[test]
fn open_command_targets_the_last_attachment() {
    let (mut state, _) = connected();
    state.media_base = "http://192.168.1.5:8080".into();
    let id = 7;
    act(&mut state,
        Action::Net(NetEvent::Message(ServerMessage::Chat(ChatMessage {
            id,
            from: user("bob"),
            text: String::new(),
            ts: 1_700_000_000_000,
            attachment: Some(Attachment {
                id,
                kind: AttachmentKind::Image,
                name: "кот.png".into(),
                size: 1024,
                mime: "image/png".into(),
            }),
            reply: None,
        }))),
    );
    typed(&mut state, "/open");

    let commands = act(&mut state, key(KeyCode::Enter));

    assert_eq!(
        commands,
        [Command::Open(format!("http://192.168.1.5:8080/media/{}", written(id)))]
    );
}

#[test]
fn open_command_without_attachments_explains_itself() {
    let (mut state, _) = connected();
    typed(&mut state, "/open");

    let commands = act(&mut state, key(KeyCode::Enter));

    assert!(commands.is_empty());
    assert!(matches!(
        state.entries.last(),
        Some(Entry::System {
            kind: SystemKind::Error,
            ..
        })
    ));
}

#[test]
fn join_command_rejects_a_bad_room() {
    let (mut state, _) = connected();
    typed(&mut state, "/join общая");

    let commands = act(&mut state, key(KeyCode::Enter));

    assert!(commands.is_empty());
    assert!(matches!(
        state.entries.last(),
        Some(Entry::System {
            kind: SystemKind::Error,
            ..
        })
    ));
}

#[test]
fn nick_command_reconnects_with_the_new_name() {
    let (mut state, _) = connected();
    typed(&mut state, "/nick bob");

    let commands = act(&mut state, key(KeyCode::Enter));

    assert_eq!(
        commands,
        [Command::Connect {
            nickname: "bob".into(),
            room: "general".into(),
            server: String::new(),
        }]
    );
}

#[test]
fn sent_lines_are_recalled_with_arrows() {
    let (mut state, _) = connected();
    for line in ["первое", "второе"] {
        typed(&mut state, line);
        act(&mut state, key(KeyCode::Enter));
    }
    typed(&mut state, "черновик");

    act(&mut state, key(KeyCode::Up));
    assert_eq!(state.input.text, "второе");
    act(&mut state, key(KeyCode::Up));
    assert_eq!(state.input.text, "первое");
    act(&mut state, key(KeyCode::Down));
    assert_eq!(state.input.text, "второе");

    act(&mut state, key(KeyCode::Down));
    assert_eq!(state.input.text, "черновик");
}

#[test]
fn editing_shortcuts_work_on_character_boundaries() {
    let (mut state, _) = connected();
    typed(&mut state, "привет большой мир");

    act(&mut state, ctrl('w'));
    assert_eq!(state.input.text, "привет большой ");

    act(&mut state, ctrl('a'));
    act(&mut state, key(KeyCode::Right));
    act(&mut state, ctrl('k'));
    assert_eq!(state.input.text, "п");

    act(&mut state, ctrl('u'));
    assert!(state.input.is_empty());
}

#[test]
fn key_release_is_ignored() {
    let (mut state, _) = connected();
    let release = KeyEvent { code: KeyCode::Char('a'), ctrl: false, press: false };

    act(&mut state, Action::Key(release));

    assert!(state.input.is_empty());
}

#[test]
fn input_is_capped_at_protocol_limit() {
    let (mut state, _) = connected();
    typed(&mut state, &"a".repeat(MAX_TEXT_CHARS + 10));

    assert_eq!(state.input.len(), MAX_TEXT_CHARS);
}

#[test]
fn paste_is_flattened_to_one_line() {
    let (mut state, _) = connected();

    act(&mut state, Action::Paste("одна\nдве\tтри".into()));

    assert_eq!(state.input.text, "одна две три");
}

#[test]
fn history_is_capped_and_forgets_old_ids() {
    let (mut state, _) = connected();

    for _ in 0..MAX_ENTRIES + 50 {
        act(&mut state,
            Action::Net(NetEvent::Message(ServerMessage::Chat(chat_message(
                user("bob"),
                "спам",
            )))),
        );
    }

    assert_eq!(state.entries.len(), MAX_ENTRIES);
    assert!(
        state.seen.len() <= MAX_ENTRIES,
        "множество виденных id растёт быстрее истории"
    );
}

#[test]
fn only_a_deliberate_shortcut_closes_the_program() {
    for shortcut in ['c', 'd', 'q'] {
        let (mut state, _) = connected();

        let commands = act(&mut state, ctrl(shortcut));

        assert_eq!(commands, [Command::Quit], "ctrl+{shortcut}");
        assert!(state.should_quit, "ctrl+{shortcut}");
    }
}

#[test]
fn arrows_scroll_the_help_and_anything_else_closes_it() {
    let (mut state, _) = connected();
    act(&mut state, key(KeyCode::F(1)));

    act(&mut state, key(KeyCode::Down));
    act(&mut state, key(KeyCode::Down));

    assert!(state.help);
    assert_eq!(state.help_scroll, 2);

    act(&mut state, key(KeyCode::Up));
    assert_eq!(state.help_scroll, 1);

    act(&mut state, key(KeyCode::Char('x')));
    assert!(!state.help);

    act(&mut state, key(KeyCode::F(1)));
    assert_eq!(state.help_scroll, 0);
}

#[test]
fn esc_leaves_the_room_for_the_menu() {
    let (mut state, _) = connected();

    let commands = act(&mut state, key(KeyCode::Esc));

    assert!(!state.should_quit);
    assert!(matches!(state.screen, Screen::Login(_)));
    assert!(commands.contains(&Command::Disconnect), "{commands:?}");
    let Screen::Login(login) = &state.screen else {
        panic!("не главный экран");
    };
    assert_eq!(login.nickname.text, "alice");
    assert_eq!(login.room.text, "general");
}

#[test]
fn the_menu_command_does_the_same() {
    let (mut state, _) = connected();
    typed(&mut state, "/menu");

    let commands = act(&mut state, key(KeyCode::Enter));

    assert!(matches!(state.screen, Screen::Login(_)));
    assert!(commands.contains(&Command::Disconnect), "{commands:?}");
}

#[test]
fn esc_on_the_home_screen_returns_to_the_first_tab() {
    let (mut state, _) = State::new(None, "general".into(), NOW);
    act(&mut state, key(KeyCode::Tab));
    act(&mut state, key(KeyCode::Tab));

    let commands = act(&mut state, key(KeyCode::Esc));

    assert!(commands.is_empty());
    assert!(!state.should_quit);
    let Screen::Login(login) = &state.screen else {
        panic!("не главный экран");
    };
    assert_eq!(login.tab, HomeTab::Join);
}

#[test]
fn leaving_for_the_menu_keeps_the_conversation() {
    let (mut state, _) = connected();
    let before = state.entries.len();

    act(&mut state, key(KeyCode::Esc));

    assert_eq!(state.entries.len(), before);
}

fn with_history() -> State {
    let (mut state, _) = connected();
    for text in ["первое сообщение", "второе про котов", "третье про котов"]
    {
        act(&mut state,
            Action::Net(NetEvent::Message(ServerMessage::Chat(chat_message(
                user("bob"),
                text,
            )))),
        );
    }
    state.viewport = Viewport {
        height: 10,
        total_lines: 40,
        top: 0,
    };
    state.entry_lines = (0..state.entries.len()).map(|index| index * 2).collect();
    state
}

#[test]
fn ctrl_r_picks_the_last_message_and_sends_a_reply() {
    let mut state = with_history();

    act(&mut state, ctrl('r'));
    let picked = state.picking.expect("выбор не начался").index;
    act(&mut state, key(KeyCode::Enter));

    let target = state.replying.as_ref().expect("цитата не взведена");
    assert_eq!(target.excerpt, "третье про котов");
    let target = target.id;
    assert!(state.picking.is_none());

    typed(&mut state, "согласен");
    let commands = act(&mut state, key(KeyCode::Enter));

    let Some(Command::Send(ClientMessage::Chat { reply_to, .. })) = commands.first() else {
        panic!("ответ не ушёл: {commands:?}");
    };
    assert_eq!(*reply_to, Some(target));
    let Entry::Chat { id, .. } = &state.entries[picked] else {
        panic!("выбрана не реплика");
    };
    assert_eq!(target, *id);
    assert!(state.replying.is_none());
}

#[test]
fn arrows_walk_through_messages_while_picking() {
    let mut state = with_history();
    act(&mut state, ctrl('r'));
    let last = state.picking.unwrap().index;

    act(&mut state, key(KeyCode::Up));
    assert!(state.picking.unwrap().index < last, "вверх не сработало");

    act(&mut state, key(KeyCode::Down));
    assert_eq!(state.picking.map(|pick| pick.index), Some(last));
}

#[test]
fn picking_skips_system_lines() {
    let mut state = with_history();
    state.system(SystemKind::Info, "кто-то вошёл");
    act(&mut state, ctrl('r'));

    let picked = state.picking.expect("выбор не начался").index;
    assert!(matches!(state.entries[picked], Entry::Chat { .. }));
}

#[test]
fn escape_drops_the_pending_reply_without_quitting() {
    let mut state = with_history();
    act(&mut state, ctrl('r'));
    act(&mut state, key(KeyCode::Enter));
    assert!(state.replying.is_some());

    let commands = act(&mut state, key(KeyCode::Esc));

    assert!(commands.is_empty());
    assert!(state.replying.is_none());
    assert!(!state.should_quit);
}

#[test]
fn escape_cancels_picking() {
    let mut state = with_history();
    act(&mut state, ctrl('r'));

    act(&mut state, key(KeyCode::Esc));

    assert!(state.picking.is_none());
    assert!(state.replying.is_none());
    assert!(!state.should_quit);
}

#[test]
fn reply_to_a_picture_quotes_its_name() {
    let (mut state, _) = connected();
    let id = 9;
    act(&mut state,
        Action::Net(NetEvent::Message(ServerMessage::Chat(ChatMessage {
            id,
            from: user("bob"),
            text: String::new(),
            ts: 1_700_000_000_000,
            attachment: Some(Attachment {
                id,
                kind: AttachmentKind::Image,
                name: "кот.png".into(),
                size: 1024,
                mime: "image/png".into(),
            }),
            reply: None,
        }))),
    );

    act(&mut state, ctrl('r'));
    act(&mut state, key(KeyCode::Enter));

    assert_eq!(state.replying.unwrap().excerpt, "кот.png");
}

#[test]
fn nothing_to_reply_to_is_explained() {
    let (mut state, _) = connected();

    act(&mut state, ctrl('r'));

    assert!(state.picking.is_none());
    assert!(matches!(
        state.entries.last(),
        Some(Entry::System {
            kind: SystemKind::Error,
            ..
        })
    ));
}

#[test]
fn search_finds_matching_messages() {
    let mut state = with_history();

    act(&mut state, ctrl('f'));
    typed(&mut state, "котов");

    let search = state.search.as_ref().expect("поиск не открылся");
    assert_eq!(search.matches.len(), 2);
    assert_eq!(search.current, 1);
}

#[test]
fn search_walks_through_matches_in_a_circle() {
    let mut state = with_history();
    act(&mut state, ctrl('f'));
    typed(&mut state, "котов");

    act(&mut state, key(KeyCode::Enter));
    assert_eq!(state.search.as_ref().unwrap().current, 0);

    act(&mut state, key(KeyCode::Enter));
    assert_eq!(
        state.search.as_ref().unwrap().current,
        1,
        "перебор не замкнут"
    );

    act(&mut state, key(KeyCode::Up));
    assert_eq!(state.search.as_ref().unwrap().current, 0);
}

#[test]
fn search_scrolls_to_the_found_message() {
    let mut state = with_history();
    state.scrollback = 0;

    act(&mut state, ctrl('f'));
    typed(&mut state, "первое");

    assert!(state.scrollback > 0, "поиск не прокрутил историю");
}

#[test]
fn search_ignores_case() {
    let mut state = with_history();

    act(&mut state, ctrl('f'));
    typed(&mut state, "КОТОВ");

    assert_eq!(state.search.as_ref().unwrap().matches.len(), 2);
}

#[test]
fn empty_query_matches_nothing() {
    let mut state = with_history();

    act(&mut state, ctrl('f'));

    assert!(state.search.as_ref().unwrap().matches.is_empty());
}

#[test]
fn escape_closes_search_without_quitting() {
    let mut state = with_history();
    act(&mut state, ctrl('f'));
    typed(&mut state, "котов");

    let commands = act(&mut state, key(KeyCode::Esc));

    assert!(commands.is_empty());
    assert!(state.search.is_none());
    assert!(!state.should_quit);
}

#[test]
fn typing_during_search_does_not_reach_the_message_input() {
    let mut state = with_history();
    act(&mut state, ctrl('f'));

    typed(&mut state, "котов");

    assert!(state.input.is_empty());
    assert_eq!(state.search.as_ref().unwrap().query.text, "котов");
}

#[test]
fn color_command_sets_own_color() {
    let (mut state, _) = connected();
    typed(&mut state, "/color #d97757");

    let commands = act(&mut state, key(KeyCode::Enter));

    assert_eq!(commands, [Command::SaveConfig]);
    assert_eq!(
        find_color(&state.colors, "alice"),
        Some(Color::Rgb(217, 119, 87))
    );
}

#[test]
fn color_command_sets_someone_elses_color() {
    let (mut state, _) = connected();
    typed(&mut state, "/color Bob cyan");

    act(&mut state, key(KeyCode::Enter));

    assert!(find_color(&state.colors, "bob").is_some());
}

#[test]
fn color_command_resets_with_a_dash() {
    let (mut state, _) = connected();
    typed(&mut state, "/color bob cyan");
    act(&mut state, key(KeyCode::Enter));

    typed(&mut state, "/color bob -");
    let commands = act(&mut state, key(KeyCode::Enter));

    assert_eq!(commands, [Command::SaveConfig]);
    assert!(!find_color(&state.colors, "bob").is_some());
}

#[test]
fn nonsense_color_is_rejected_without_saving() {
    let (mut state, _) = connected();
    typed(&mut state, "/color розовый в крапинку");

    let commands = act(&mut state, key(KeyCode::Enter));

    assert!(commands.is_empty(), "испорченный цвет пошёл в настройки");
    assert!(matches!(
        state.entries.last(),
        Some(Entry::System {
            kind: SystemKind::Error,
            ..
        })
    ));
}

#[test]
fn successful_join_asks_to_remember_the_nickname() {
    let (mut state, _) = State::new(Some("alice".into()), "general".into(), NOW);

    let commands = act(&mut state,
        Action::Net(NetEvent::Message(ServerMessage::Welcome {
            your_id: fresh(),
            room: "general".into(),
            nickname: "alice".into(),
            users: vec![],
            history: vec![],
            upload_limit: MAX_UPLOAD_BYTES as u64,
        })),
    );

    assert!(commands.contains(&Command::SaveConfig));
}

#[test]
fn notice_shows_up_as_a_system_error() {
    let (mut state, _) = connected();

    act(&mut state, Action::Notice("клавиатура отвалилась".into()));

    assert!(matches!(
        state.entries.last(),
        Some(Entry::System {
            kind: SystemKind::Error,
            ..
        })
    ));
}

#[test]
fn typing_is_announced_at_most_once_in_a_while() {
    let (mut state, _) = connected();

    let first = act(&mut state, key(KeyCode::Char('п')));
    let second = act(&mut state, key(KeyCode::Char('р')));

    assert_eq!(first, [Command::Send(ClientMessage::Typing)]);
    assert!(second.is_empty());
}

#[test]
fn typing_is_not_announced_while_offline() {
    let (mut state, _) = State::new(Some("alice".into()), "general".into(), NOW);

    let commands = act(&mut state, key(KeyCode::Char('п')));

    assert!(commands.is_empty());
}

#[test]
fn sending_resets_the_typing_timer() {
    let (mut state, _) = connected();
    act(&mut state, key(KeyCode::Char('п')));
    typed(&mut state, "ривет");
    act(&mut state, key(KeyCode::Enter));

    let commands = act(&mut state, key(KeyCode::Char('е')));

    assert_eq!(commands, [Command::Send(ClientMessage::Typing)]);
}

#[test]
fn someone_typing_is_visible_until_it_expires() {
    let (mut state, _) = connected();
    let bob = user("bob");

    act(&mut state,
        Action::Net(NetEvent::Message(ServerMessage::Typing {
            user: bob.clone(),
        })),
    );
    assert_eq!(state.typing_now(NOW), ["bob"]);

    assert!(state.typing_now(NOW + TYPING_TTL).is_empty());
}

#[test]
fn a_message_stops_the_typing_line() {
    let (mut state, _) = connected();
    let bob = user("bob");
    act(&mut state,
        Action::Net(NetEvent::Message(ServerMessage::Typing {
            user: bob.clone(),
        })),
    );

    act(&mut state,
        Action::Net(NetEvent::Message(ServerMessage::Chat(chat_message(
            bob,
            "привет",
        )))),
    );

    assert!(state.typing_now(NOW).is_empty());
}

#[test]
fn leaving_stops_the_typing_line() {
    let (mut state, _) = connected();
    let bob = user("bob");
    act(&mut state,
        Action::Net(NetEvent::Message(ServerMessage::Typing {
            user: bob.clone(),
        })),
    );

    act(&mut state,
        Action::Net(NetEvent::Message(ServerMessage::UserLeft { user: bob })),
    );

    assert!(state.typing_now(NOW).is_empty());
}

fn picture_message(id: u128, kind: AttachmentKind) -> ServerMessage {
    ServerMessage::Chat(ChatMessage {
        id,
        from: user("bob"),
        text: String::new(),
        ts: 1_700_000_000_000,
        attachment: Some(Attachment {
            id,
            kind,
            name: "кот.png".into(),
            size: 1024,
            mime: "image/png".into(),
        }),
        reply: None,
    })
}

fn with_graphics() -> State {
    let (mut state, _) = connected();
    state.inline_images = true;
    state.media_base = "http://127.0.0.1:8080".into();
    state
}

#[test]
fn picture_in_the_feed_is_fetched_by_itself() {
    let mut state = with_graphics();
    let id = 11;

    let commands = act(&mut state,
        Action::Net(NetEvent::Message(picture_message(
            id,
            AttachmentKind::Image,
        ))),
    );

    assert!(commands.contains(&Command::Fetch(
        id,
        format!("http://127.0.0.1:8080/media/{}", written(id))
    )));
    assert!(matches!(
        state.thumbnails.get(&id),
        Some(Thumbnail::Loading)
    ));
}

#[test]
fn nothing_is_fetched_when_the_terminal_cannot_draw() {
    let (mut state, _) = connected();
    state.media_base = "http://127.0.0.1:8080".into();
    let id = 12;

    let commands = act(&mut state,
        Action::Net(NetEvent::Message(picture_message(
            id,
            AttachmentKind::Image,
        ))),
    );

    assert!(commands.is_empty());
    assert!(state.thumbnails.is_empty());
}

#[test]
fn voice_messages_are_not_fetched_as_pictures() {
    let mut state = with_graphics();
    let id = 13;

    let commands = act(&mut state,
        Action::Net(NetEvent::Message(picture_message(
            id,
            AttachmentKind::Audio,
        ))),
    );

    assert!(commands.is_empty());
}

#[test]
fn the_same_picture_is_fetched_once() {
    let mut state = with_graphics();
    let id = 14;
    act(&mut state,
        Action::Net(NetEvent::Message(picture_message(
            id,
            AttachmentKind::Image,
        ))),
    );

    let again = act(&mut state,
        Action::Net(NetEvent::Message(picture_message(
            id,
            AttachmentKind::Image,
        ))),
    );

    assert!(again.is_empty());
}

#[test]
fn downloaded_picture_lands_in_the_feed() {
    let mut state = with_graphics();
    let id = 15;
    act(&mut state,
        Action::Net(NetEvent::Message(picture_message(
            id,
            AttachmentKind::Image,
        ))),
    );

    act(&mut state,
        Action::Image(id, Ok(picture(4, 4))),
    );

    assert!(matches!(
        state.thumbnails.get(&id),
        Some(Thumbnail::Ready(_))
    ));
}

#[test]
fn a_broken_picture_is_remembered_as_broken() {
    let mut state = with_graphics();
    let id = 16;
    act(&mut state,
        Action::Net(NetEvent::Message(picture_message(
            id,
            AttachmentKind::Image,
        ))),
    );

    act(&mut state, Action::Image(id, Err("404".into())));

    assert!(matches!(state.thumbnails.get(&id), Some(Thumbnail::Failed)));
}

#[test]
fn one_download_serves_both_the_viewer_and_the_feed() {
    let mut state = with_graphics();
    let id = 17;
    act(&mut state,
        Action::Net(NetEvent::Message(picture_message(
            id,
            AttachmentKind::Image,
        ))),
    );
    typed(&mut state, "/view");
    act(&mut state, key(KeyCode::Enter));

    act(&mut state,
        Action::Image(id, Ok(picture(4, 4))),
    );

    assert!(matches!(
        state.viewer.as_ref().map(|viewer| &viewer.state),
        Some(ViewerState::Ready(_))
    ));
    assert!(matches!(
        state.thumbnails.get(&id),
        Some(Thumbnail::Ready(_))
    ));
}

#[test]
fn clearing_the_screen_forgets_the_pictures() {
    let mut state = with_graphics();
    let id = 18;
    act(&mut state,
        Action::Net(NetEvent::Message(picture_message(
            id,
            AttachmentKind::Image,
        ))),
    );
    typed(&mut state, "/clear");

    act(&mut state, key(KeyCode::Enter));

    assert!(state.thumbnails.is_empty());
}

fn with_voice() -> (State, u128) {
    let (mut state, _) = connected();
    state.media_base = "http://127.0.0.1:8080".into();
    let id = 31;
    act(&mut state,
        Action::Net(NetEvent::Message(ServerMessage::Chat(ChatMessage {
            id,
            from: user("bob"),
            text: String::new(),
            ts: 1_700_000_000_000,
            attachment: Some(Attachment {
                id,
                kind: AttachmentKind::Audio,
                name: "голосовое.webm".into(),
                size: 4096,
                mime: "audio/webm".into(),
            }),
            reply: None,
        }))),
    );
    (state, id)
}

#[test]
fn play_command_downloads_the_last_voice() {
    let (mut state, id) = with_voice();
    typed(&mut state, "/play");

    let commands = act(&mut state, key(KeyCode::Enter));

    assert_eq!(
        commands,
        [Command::PlayVoice(
            id,
            format!("http://127.0.0.1:8080/media/{}", written(id))
        )]
    );
}

#[test]
fn play_command_refuses_a_picture() {
    let mut state = with_graphics();
    act(&mut state,
        Action::Net(NetEvent::Message(picture_message(
            32,
            AttachmentKind::Image,
        ))),
    );
    typed(&mut state, "/play");

    let commands = act(&mut state, key(KeyCode::Enter));

    assert!(commands.is_empty());
    assert!(matches!(
        state.entries.last(),
        Some(Entry::System {
            kind: SystemKind::Error,
            ..
        })
    ));
}

#[test]
fn stop_command_stops_playback() {
    let (mut state, _) = with_voice();
    typed(&mut state, "/stop");

    let commands = act(&mut state, key(KeyCode::Enter));

    assert_eq!(commands, [Command::StopVoice]);
}

#[test]
fn save_command_uses_the_attachment_name_by_default() {
    let (mut state, _) = with_voice();
    typed(&mut state, "/save");

    let commands = act(&mut state, key(KeyCode::Enter));

    let [Command::Save { destination, .. }] = commands.as_slice() else {
        panic!("сохранение не началось: {commands:?}");
    };
    assert_eq!(
        *destination,
        Destination::Downloads("голосовое.webm".to_string())
    );
}

#[test]
fn save_command_takes_an_explicit_path() {
    let (mut state, _) = with_voice();
    typed(&mut state, "/save C:\\звуки\\привет.webm");

    let commands = act(&mut state, key(KeyCode::Enter));

    let [Command::Save { destination, .. }] = commands.as_slice() else {
        panic!("сохранение не началось: {commands:?}");
    };
    assert!(
        matches!(destination, Destination::At(path) if path.ends_with("привет.webm")),
        "{destination:?}"
    );
}

#[test]
fn saving_reports_where_the_file_landed() {
    let (mut state, _) = connected();

    act(&mut state,
        Action::Saved(Ok("C:/загрузки/кот.png".to_string())),
    );

    let Some(Entry::System { text, kind }) = state.entries.last() else {
        panic!("нет сообщения о сохранении");
    };
    assert_eq!(*kind, SystemKind::Info);
    assert!(text.contains("кот.png"), "{text}");
}

#[test]
fn long_work_shows_a_spinner_and_clears_it() {
    let (mut state, _) = with_voice();
    typed(&mut state, "/save");
    act(&mut state, key(KeyCode::Enter));

    assert!(state.busy.is_some(), "бегунок не появился");

    act(&mut state,
        Action::Saved(Ok("кот.png".to_string())),
    );

    assert!(state.busy.is_none(), "бегунок остался крутиться");
}

#[test]
fn background_thumbnails_do_not_touch_the_spinner() {
    let mut state = with_graphics();
    let id = 41;
    act(&mut state,
        Action::Net(NetEvent::Message(picture_message(
            id,
            AttachmentKind::Image,
        ))),
    );
    state.busy = Some("сохраняю кот.png".into());

    act(&mut state,
        Action::Image(id, Ok(picture(2, 2))),
    );

    assert_eq!(state.busy.as_deref(), Some("сохраняю кот.png"));
}

fn entry(name: &str, is_dir: bool) -> FileEntry {
    FileEntry {
        name: name.to_string(),
        path: format!("C:/фото/{name}"),
        is_dir,
        size: 1024,
        media: !is_dir,
    }
}

fn with_browser() -> State {
    let (mut state, _) = connected();
    state.media_base = "http://127.0.0.1:8080".into();
    typed(&mut state, "/send");
    act(&mut state, key(KeyCode::Enter));
    act(&mut state,
        Action::Directory {
            dir: "C:/фото".to_string(),
            result: Ok(vec![
                entry("..", true),
                entry("вложенный", true),
                entry("кот.png", false),
                entry("пёс.png", false),
            ]),
        },
    );
    state
}

#[test]
fn send_without_a_path_opens_the_browser() {
    let (mut state, _) = connected();
    state.media_base = "http://127.0.0.1:8080".into();
    typed(&mut state, "/send");

    let commands = act(&mut state, key(KeyCode::Enter));

    assert!(state.browser.is_some());
    assert!(matches!(commands.as_slice(), [Command::ReadDir(_)]));
}

#[test]
fn send_with_a_path_still_works_directly() {
    let (mut state, _) = connected();
    state.media_base = "http://127.0.0.1:8080".into();
    typed(&mut state, r"/send C:\фото\кот.png");

    let commands = act(&mut state, key(KeyCode::Enter));

    assert!(state.browser.is_none());
    assert!(matches!(commands.as_slice(), [Command::Upload(_)]));
}

#[test]
fn arrows_walk_the_listing() {
    let mut state = with_browser();

    act(&mut state, key(KeyCode::Down));
    act(&mut state, key(KeyCode::Down));

    let browser = state.browser.as_ref().unwrap();
    assert_eq!(browser.current().unwrap().name, "кот.png");
}

#[test]
fn enter_on_a_directory_reads_it() {
    let mut state = with_browser();
    act(&mut state, key(KeyCode::Down));

    let commands = act(&mut state, key(KeyCode::Enter));

    assert!(matches!(commands.as_slice(), [Command::ReadDir(_)]));
    assert!(state.browser.is_some());
}

#[test]
fn enter_on_a_file_sends_it_and_remembers_the_directory() {
    let mut state = with_browser();
    act(&mut state, key(KeyCode::Down));
    act(&mut state, key(KeyCode::Down));

    let commands = act(&mut state, key(KeyCode::Enter));

    assert!(state.browser.is_none(), "обзор не закрылся");
    assert!(matches!(
        commands.as_slice(),
        [Command::Upload(_), Command::SaveConfig]
    ));
    assert_eq!(state.last_dir.as_deref(), Some("C:/фото"));
    assert!(state.busy.is_some(), "бегунок не появился");
}

#[test]
fn typing_filters_the_listing() {
    let mut state = with_browser();

    typed(&mut state, "пёс");

    let browser = state.browser.as_ref().unwrap();
    let names: Vec<&str> = browser
        .visible()
        .iter()
        .map(|entry| entry.name.as_str())
        .collect();
    assert_eq!(names, ["..", "пёс.png"]);
}

#[test]
fn escape_closes_the_browser_without_quitting() {
    let mut state = with_browser();

    let commands = act(&mut state, key(KeyCode::Esc));

    assert!(commands.is_empty());
    assert!(state.browser.is_none());
    assert!(!state.should_quit);
}

#[test]
fn unreadable_directory_keeps_the_browser_open() {
    let mut state = with_browser();

    act(&mut state,
        Action::Directory {
            dir: "C:/закрытый".to_string(),
            result: Err("отказано в доступе".into()),
        },
    );

    let browser = state.browser.as_ref().expect("обзор закрылся");
    assert!(browser.error.is_some());
    assert!(!browser.loading);
}

#[test]
fn shortcuts_work_on_a_russian_layout() {
    let (mut state, _) = connected();
    act(&mut state, ctrl('а'));
    assert!(state.search.is_some(), "поиск не открылся по Ctrl+а");

    let mut state = with_history();
    act(&mut state, ctrl('к'));
    assert!(state.picking.is_some(), "ответ не начался по Ctrl+к");

    let (mut state, _) = connected();
    let commands = act(&mut state, ctrl('с'));
    assert_eq!(commands, [Command::Quit], "выход не сработал по Ctrl+с");
}

#[test]
fn russian_letters_still_type_normally() {
    let (mut state, _) = connected();

    typed(&mut state, "как дела");

    assert_eq!(state.input.text, "как дела");
}

#[test]
fn editing_shortcuts_work_on_a_russian_layout() {
    let (mut state, _) = connected();
    typed(&mut state, "привет большой мир");

    act(&mut state, ctrl('ц'));

    assert_eq!(state.input.text, "привет большой ");
}

#[test]
fn rejected_nickname_comes_back_into_the_field() {
    let (mut state, _) = State::new(None, "general".into(), NOW);
    typed(&mut state, "крутолёт");
    act(&mut state, key(KeyCode::Enter));

    act(&mut state,
        Action::Net(NetEvent::Fatal {
            reason: "ник крутолёт в этой комнате уже занят".into(),
        }),
    );

    let Screen::Login(login) = &state.screen else {
        panic!("ожидался экран входа");
    };
    assert_eq!(login.nickname.text, "крутолёт");
}

#[test]
fn pasted_address_lets_you_join_a_friend() {
    let (mut state, _) = State::new(None, "general".into(), NOW);
    state.set_server(DEFAULT_SERVER.to_string());
    typed(&mut state, "alice");
    act(&mut state, key(KeyCode::Down));
    act(&mut state, key(KeyCode::Down));
    act(&mut state, ctrl('u'));
    typed(&mut state, "192.168.1.5:8080");

    let commands = act(&mut state, key(KeyCode::Enter));

    assert!(matches!(
        commands.as_slice(),
        [Command::Connect { server, .. }] if server == "ws://192.168.1.5:8080/ws"
    ));
}

#[test]
fn broken_address_keeps_you_on_the_login_screen() {
    let (mut state, _) = State::new(None, "general".into(), NOW);
    state.set_server(DEFAULT_SERVER.to_string());
    typed(&mut state, "alice");
    act(&mut state, key(KeyCode::Down));
    act(&mut state, key(KeyCode::Down));
    act(&mut state, ctrl('u'));
    typed(&mut state, "ws://");

    let commands = act(&mut state, key(KeyCode::Enter));

    assert!(commands.is_empty());
    let Screen::Login(login) = &state.screen else {
        panic!("ожидался экран входа");
    };
    assert_eq!(login.field, Field::Server);
    assert!(login.error.is_some());
}

#[test]
fn host_command_raises_a_server_and_reconnects() {
    let (mut state, _) = connected();
    typed(&mut state, "/host");

    let commands = act(&mut state, key(KeyCode::Enter));
    assert_eq!(commands, [Command::Host(8080)]);
    assert!(state.busy.is_some());

    let commands = act(&mut state,
        Action::Hosted {
            url: "ws://127.0.0.1:8080/ws".into(),
            lines: vec!["друг подключается: 192.168.1.5:8080".into()],
        },
    );

    assert!(
        texts(&state)
            .iter()
            .any(|line| line.contains("192.168.1.5"))
    );
    assert!(matches!(
        commands.as_slice(),
        [Command::Connect { server, .. }] if server == "ws://127.0.0.1:8080/ws"
    ));
    assert!(state.busy.is_none());
}

#[test]
fn host_command_rejects_a_nonsense_port() {
    let (mut state, _) = connected();
    typed(&mut state, "/host восемь тысяч");

    let commands = act(&mut state, key(KeyCode::Enter));

    assert!(commands.is_empty());
    assert!(state.busy.is_none());
}

#[test]
fn tab_completes_a_command() {
    let (mut state, _) = connected();
    typed(&mut state, "/se");

    act(&mut state, key(KeyCode::Tab));

    assert_eq!(state.input.text, "/send ");
}

#[test]
fn ctrl_o_opens_the_file_browser() {
    let (mut state, _) = connected();
    state.media_base = "http://127.0.0.1:8080".into();

    let commands = act(&mut state, ctrl('o'));

    assert!(state.browser.is_some());
    assert!(matches!(commands.as_slice(), [Command::ReadDir(_)]));
}

#[test]
fn rec_command_toggles_recording() {
    let (mut state, _) = connected();
    typed(&mut state, "/rec");

    let commands = act(&mut state, key(KeyCode::Enter));

    assert_eq!(commands, [Command::ToggleRecording]);
}

#[test]
fn tab_completes_a_nickname() {
    let (mut state, _) = connected();
    act(&mut state,
        Action::Net(NetEvent::Message(ServerMessage::UserJoined {
            user: user("bobby"),
        })),
    );
    typed(&mut state, "bo");

    act(&mut state, key(KeyCode::Tab));

    assert_eq!(state.input.text, "bobby, ");
    assert_eq!(state.input.cursor, 7);
}

#[test]
fn repeated_tab_cycles_through_matches() {
    let (mut state, _) = connected();
    for nickname in ["bob", "bobby"] {
        act(&mut state,
            Action::Net(NetEvent::Message(ServerMessage::UserJoined {
                user: user(nickname),
            })),
        );
    }
    typed(&mut state, "привет bo");

    act(&mut state, key(KeyCode::Tab));
    let first = state.input.text.clone();
    act(&mut state, key(KeyCode::Tab));
    let second = state.input.text.clone();
    act(&mut state, key(KeyCode::Tab));

    assert_ne!(first, second, "перебор стоит на месте");
    assert_eq!(state.input.text, first);
    assert!(first.starts_with("привет bob"), "{first}");
}

#[test]
fn tab_without_matches_leaves_the_line_alone() {
    let (mut state, _) = connected();
    typed(&mut state, "zzz");

    act(&mut state, key(KeyCode::Tab));

    assert_eq!(state.input.text, "zzz");
}

#[test]
fn typing_resets_the_completion_cycle() {
    let (mut state, _) = connected();
    for nickname in ["bob", "bobby"] {
        act(&mut state,
            Action::Net(NetEvent::Message(ServerMessage::UserJoined {
                user: user(nickname),
            })),
        );
    }
    typed(&mut state, "bo");
    act(&mut state, key(KeyCode::Tab));

    typed(&mut state, "bo");
    act(&mut state, key(KeyCode::Tab));

    assert_eq!(state.input.text, "bob, bob ");
}

#[test]
fn mention_rings_the_bell() {
    let (mut state, _) = connected();

    let commands = act(&mut state,
        Action::Net(NetEvent::Message(ServerMessage::Chat(chat_message(
            user("bob"),
            "alice, ты тут?",
        )))),
    );

    assert_eq!(commands, [Command::Bell]);
}

#[test]
fn ordinary_message_stays_silent() {
    let (mut state, _) = connected();

    let commands = act(&mut state,
        Action::Net(NetEvent::Message(ServerMessage::Chat(chat_message(
            user("bob"),
            "просто сообщение",
        )))),
    );

    assert!(commands.is_empty());
}

#[test]
fn wheel_scrolls_the_history() {
    let (mut state, _) = connected();
    state.viewport = Viewport {
        height: 10,
        total_lines: 40,
        top: 0,
    };

    act(&mut state, Action::Scroll(3));
    assert_eq!(state.scrollback, 3);

    act(&mut state, Action::Scroll(-10));
    assert_eq!(state.scrollback, 0);

    act(&mut state, Action::Scroll(1000));
    assert_eq!(state.scrollback, 30, "прокрутка уехала за историю");
}

#[test]
fn scrollback_is_clamped_to_history_height() {
    let (mut state, _) = connected();
    state.viewport = Viewport {
        height: 10,
        total_lines: 15,
        top: 0,
    };

    for _ in 0..5 {
        act(&mut state, key(KeyCode::PageUp));
    }
    assert_eq!(
        state.scrollback, 5,
        "прокрутка не должна уезжать за историю"
    );

    for _ in 0..5 {
        act(&mut state, key(KeyCode::PageDown));
    }
    assert_eq!(state.scrollback, 0);
}

#[test]
fn only_a_key_closes_the_program() {
    let (mut state, _) = connected();
    act(&mut state, Action::Scroll(3));
    act(&mut state, Action::Click(1, 1));
    act(&mut state, Action::Tick);
    act(&mut state, key(KeyCode::Esc));
    assert!(!state.should_quit);

    let (mut state, _) = connected();
    typed(&mut state, "/quit");
    assert!(!state.should_quit);
    let commands = act(&mut state, key(KeyCode::Enter));
    assert!(state.should_quit);
    assert!(matches!(commands.as_slice(), [Command::Quit]));

    let (mut state, _) = connected();
    act(&mut state, ctrl('q'));
    assert!(state.should_quit);
}

#[test]
fn a_short_feed_stands_at_the_bottom_for_the_mouse_too() {
    let (mut state, _) = connected();
    state.entry_lines = vec![0];
    state.viewport = Viewport { height: 10, total_lines: 1, top: 0 };

    assert_eq!(state.entry_at_row(9), Some(0));
    assert_eq!(state.entry_at_row(8), None);
    assert_eq!(state.entry_at_row(0), None);

    state.viewport.top = 4;
    assert_eq!(state.entry_at_row(13), Some(0));
    assert_eq!(state.entry_at_row(9), None);
    assert_eq!(state.entry_at_row(14), None);
}

#[test]
fn the_last_of_its_kind_is_shown_or_played() {
    let (mut state, voice) = with_voice();
    act(&mut state, Action::Net(NetEvent::Message(picture_message(41, AttachmentKind::Image))));
    typed(&mut state, "/play");
    let commands = act(&mut state, key(KeyCode::Enter));
    assert!(
        matches!(commands.as_slice(), [Command::PlayVoice(id, _)] if *id == voice),
        "{commands:?}"
    );

    act(&mut state, Action::Net(NetEvent::Message(picture_message(42, AttachmentKind::Audio))));
    typed(&mut state, "/view");
    act(&mut state, key(KeyCode::Enter));
    assert_eq!(state.viewer.as_ref().unwrap().id, 41);
}

#[test]
fn coming_back_to_the_same_room_keeps_the_feed() {
    let (mut state, _) = connected();
    state.set_server(DEFAULT_SERVER.to_string());
    act(
        &mut state,
        Action::Net(NetEvent::Message(ServerMessage::Chat(chat_message(user("bob"), "привет")))),
    );
    let before = state.entries.len();
    act(&mut state, Action::Net(NetEvent::Fatal { reason: "ник занят".into() }));
    act(&mut state, key(KeyCode::Enter));
    assert!(matches!(state.screen, Screen::Chat));
    assert!(state.entries.len() >= before);
    assert!(texts(&state).contains(&"привет"));

    act(&mut state, Action::Net(NetEvent::Fatal { reason: "ник занят".into() }));
    act(&mut state, key(KeyCode::Down));
    act(&mut state, ctrl('u'));
    typed(&mut state, "rust");
    act(&mut state, key(KeyCode::Enter));
    assert_eq!(state.room, "rust");
    assert!(!texts(&state).contains(&"привет"));
}

#[test]
fn what_is_seen_is_not_scrolled_to() {
    let (mut state, _) = connected();
    for i in 0..40 {
        act(
            &mut state,
            Action::Net(NetEvent::Message(ServerMessage::Chat(chat_message(
                user("bob"),
                &format!("реплика {i}"),
            )))),
        );
    }
    let count = state.entries.len();
    state.entry_lines = (0..count).collect();
    state.viewport = Viewport { height: 10, total_lines: count, top: 0 };
    state.scrollback = 5;

    state.reveal_entry(count - 6);
    assert_eq!(state.scrollback, 5);
    state.reveal_entry(count - 15);
    assert_eq!(state.scrollback, 5);

    state.reveal_entry(count - 16);
    assert_eq!(state.scrollback, 10);
    state.reveal_entry(count - 1);
    assert_eq!(state.scrollback, 0);
}

#[test]
fn a_match_stands_in_the_middle_though_it_was_seen() {
    let (mut state, _) = connected();
    for i in 0..40 {
        act(
            &mut state,
            Action::Net(NetEvent::Message(ServerMessage::Chat(chat_message(
                user("bob"),
                if i == 32 { "иголка" } else { "сено" },
            )))),
        );
    }
    let count = state.entries.len();
    state.entry_lines = (0..count).collect();
    state.viewport = Viewport { height: 10, total_lines: count, top: 0 };

    act(&mut state, ctrl('f'));
    typed(&mut state, "иголка");

    assert_eq!(state.search.as_ref().unwrap().matches, [count - 8]);
    assert_eq!(state.scrollback, 2);
}

#[test]
fn a_remembered_name_does_not_rename_who_has_entered() {
    let (mut state, _) = connected();
    state.prefill_nickname("bob");
    assert_eq!(state.nickname, "alice");
}

#[test]
fn keys_for_what_is_not_open_only_close_the_program() {
    let world = World {
        now: NOW,
        endpoint: endpoint(DEFAULT_SERVER),
        start_dir: "C:/загрузки".to_string(),
        parent: None,
        disk: PathKind::Nothing,
    };
    let plain = |code| KeyEvent { code, ctrl: false, press: true };
    let held = |ch| KeyEvent { code: KeyCode::Char(ch), ctrl: true, press: true };

    let (mut state, _) = connected();
    for code in [KeyCode::Enter, KeyCode::Up, KeyCode::Esc, KeyCode::Char('я')] {
        assert!(state.on_browser_key(plain(code), &world).is_empty());
        assert!(state.on_search_key(plain(code)).is_empty());
        assert!(state.on_login_key(plain(code), &world).is_empty());
    }
    assert!(state.on_browser_key(held('c'), &world).is_empty());
    assert!(!state.should_quit);
    assert_eq!(state.on_search_key(held('c')), [Command::Quit]);
    assert!(state.should_quit);

    let (mut state, _) = connected();
    assert_eq!(state.on_login_key(held('q'), &world), [Command::Quit]);
    assert!(state.should_quit);
}

#[test]
fn an_address_is_read_however_it_is_typed() {
    for typed in [
        "192.168.1.5:8080",
        "ws://192.168.1.5:8080",
        "ws://192.168.1.5:8080/",
        "ws://192.168.1.5:8080/ws",
        "ws://192.168.1.5:8080/ws/",
    ] {
        let found = endpoint(typed).unwrap();
        assert_eq!(found.socket, "ws://192.168.1.5:8080/ws", "{typed}");
        assert_eq!(found.base, "http://192.168.1.5:8080", "{typed}");
        assert_eq!(endpoint(&found.socket).unwrap(), found);
    }
    let safe = endpoint("wss://example.org").unwrap();
    assert_eq!(safe.socket, "wss://example.org/ws");
    assert_eq!(safe.base, "https://example.org");
    assert_eq!(endpoint(&safe.socket).unwrap(), safe);

    for typed in ["iroh://билет", "iroh://билет/", "iroh://билет//"] {
        let behind = endpoint(typed).unwrap();
        assert_eq!(behind.socket, "iroh://билет", "{typed}");
        assert_eq!(behind.base, "iroh://билет", "{typed}");
        assert_eq!(endpoint(&behind.socket).unwrap(), behind);
        let rooms = tunnel_download_request(&rooms_url(&behind.base)).unwrap();
        assert_eq!(rooms.host, "билет");
    }
    assert!(endpoint("iroh://").is_err());
    assert!(endpoint("iroh://два слова").is_err());

    assert_eq!(endpoint("ws://").unwrap_err(), "«ws://» не похоже на адрес сервера");
    assert!(endpoint("").is_err());
    assert!(endpoint("два слова").is_err());
}

#[test]
fn the_server_that_was_typed_is_dialled() {
    let (mut state, _) = State::new(None, "general".into(), NOW);
    state.prefill_nickname("alice");
    act(&mut state, key(KeyCode::Down));
    act(&mut state, key(KeyCode::Down));
    typed(&mut state, " iroh://билет/ ");
    let commands = act(&mut state, key(KeyCode::Enter));
    assert_eq!(
        commands,
        [Command::Connect {
            nickname: "alice".into(),
            room: "general".into(),
            server: "iroh://билет".into(),
        }]
    );

    let (mut state, _) = State::new(None, "general".into(), NOW);
    state.prefill_nickname("alice");
    let commands = act(&mut state, key(KeyCode::Enter));
    assert!(
        matches!(commands.as_slice(), [Command::Connect { server, .. }] if server == DEFAULT_SERVER),
        "{commands:?}"
    );
}

#[test]
fn esc_and_enter_lead_back_to_the_talk() {
    let (mut state, _) = connected();
    state.set_server(DEFAULT_SERVER.to_string());
    act(
        &mut state,
        Action::Net(NetEvent::Message(ServerMessage::Chat(chat_message(user("bob"), "привет")))),
    );
    let before: Vec<String> = texts(&state).into_iter().map(str::to_string).collect();
    act(&mut state, key(KeyCode::Esc));
    assert!(matches!(state.screen, Screen::Login(_)));

    let commands = act(&mut state, key(KeyCode::Enter));

    assert_eq!(
        commands,
        [Command::Connect {
            nickname: "alice".into(),
            room: "general".into(),
            server: DEFAULT_SERVER.into(),
        }]
    );
    assert!(matches!(state.screen, Screen::Chat));
    assert_eq!(texts(&state), before);
}
