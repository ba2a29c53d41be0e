//! A run from its beginning to its end: what is remembered, what is done outside, and the
//! small rules of fields, keys and lists.
use null_terminal::errands::{
    host_refused, is_other_server, on_mouse, rooms_url, upload_name, voice_played, Mouse,
};
use null_terminal::home::{cycle_device, keep_device, Field, HomeTab, Login, Setting};
use null_terminal::input::{edit_key, Input};
use null_terminal::keys::{normalize_shortcut, KeyCode, KeyEvent};
use null_terminal::paper::{hints, key_hint, separator, status_dot, Paint, Piece, Tone};
use null_terminal::seqs::{sort, text_before};
use null_terminal::settings::{color_to_hex, read_mode, start, Settings, Surroundings};
use null_terminal::state::{Action, Command, Mode, Painted, Screen, State};
use null_terminal::theme::{palette, spinner, step_sign, Color, Theme};
use null_terminal::wave::Waveform;
use null_terminal::width::{field_view, server_label, split_at_width, strip_prefixes};

const NOW: u64 = 5_000;

fn settings() -> Settings {
    Settings {
        nickname: Some("alice".to_string()),
        room: "general".to_string(),
        server: "ws://10.0.0.7:8080/ws".to_string(),
        last_dir: None,
        theme: "mint".to_string(),
        sound_output: "наушники".to_string(),
        sound_input: "пропавший".to_string(),
        chime: false,
        volume: 200,
        sidebar: true,
        inline_images: Some(true),
        terminal: "never".to_string(),
        colors: vec![
            ("bob".to_string(), "#d97757".to_string()),
            ("eve".to_string(), "не цвет".to_string()),
        ],
    }
}

fn around() -> Surroundings {
    Surroundings {
        url: "ws://10.0.0.7:8080/ws".to_string(),
        images: false,
        outputs: vec!["наушники".to_string(), "колонки".to_string()],
        inputs: vec!["микрофон".to_string()],
        now: NOW,
    }
}

fn begun() -> State {
    start(settings(), None, Some("alice".to_string()), "general".to_string(), around()).0
}

#[test]
fn a_run_begins_with_what_was_remembered() {
    let (state, commands) =
        start(settings(), None, Some("alice".to_string()), "general".to_string(), around());

    assert_eq!(state.theme, Theme::Mint);
    assert_eq!(state.terminal_mode, Mode::Never);
    assert!(state.sidebar);
    assert!(state.inline_images);
    assert_eq!(state.audio.output.as_deref(), Some("наушники"));
    assert_eq!(state.audio.input, None);
    assert_eq!(state.audio.volume, 2);
    assert!(!state.audio.chime);
    assert_eq!(state.media_base, "http://10.0.0.7:8080");
    assert_eq!(
        state.colors,
        vec![Painted { key: "bob".to_string(), color: Color::Rgb(0xd9, 0x77, 0x57) }]
    );
    let Screen::Login(login) = &state.screen else {
        panic!("переписка открылась без входа");
    };
    assert_eq!(login.nickname.text, "alice");
    assert_eq!(login.server.text, "ws://10.0.0.7:8080/ws");
    assert_eq!(commands, vec![Command::FetchRooms("http://10.0.0.7:8080".to_string())]);
}

#[test]
fn a_name_on_the_command_line_leads_into_the_room() {
    let (state, commands) =
        start(settings(), Some("bob".to_string()), None, "games".to_string(), around());
    assert!(matches!(state.screen, Screen::Chat));
    assert_eq!(
        commands,
        vec![Command::Connect {
            nickname: "bob".to_string(),
            room: "games".to_string(),
            server: String::new(),
        }]
    );
}

#[test]
fn settings_survive_a_run() {
    let mut state = begun();
    state.theme = Theme::Ember;
    state.sidebar = false;
    state.images_choice = None;
    state.terminal_mode = Mode::Always;
    state.audio.chime = true;
    state.audio.volume = 0;
    state.last_dir = Some("/home/alice".to_string());
    let mut kept = settings();

    kept.keep(&state);

    assert_eq!(kept.theme, "ember");
    assert_eq!(kept.terminal, "always");
    assert_eq!(kept.sound_output, "наушники");
    assert_eq!(kept.sound_input, "");
    assert_eq!(kept.volume, 0);
    assert_eq!(kept.colors, vec![("bob".to_string(), "#d97757".to_string())]);
    let (next, _) = start(kept, None, Some("alice".to_string()), "general".to_string(), around());
    assert_eq!(next.theme, Theme::Ember);
    assert_eq!(next.terminal_mode, Mode::Always);
    assert!(!next.sidebar && next.images_choice.is_none());
    assert_eq!((next.audio.volume, next.audio.chime), (0, true));
    assert_eq!(next.last_dir.as_deref(), Some("/home/alice"));
}

#[test]
fn what_a_client_does_not_know_stays_in_the_settings() {
    let mut state = begun();
    state.nickname = String::new();
    state.room = String::new();
    state.last_dir = None;
    let mut kept = settings();
    kept.last_dir = Some("/old".to_string());
    kept.keep(&state);
    assert_eq!(kept.nickname.as_deref(), Some("alice"));
    assert_eq!(kept.room, "general");
    assert_eq!(kept.last_dir.as_deref(), Some("/old"));
    assert_eq!(kept.server, "ws://10.0.0.7:8080/ws");
}

#[test]
fn colours_are_written_by_their_parts() {
    assert_eq!(color_to_hex(&Color::Rgb(0, 171, 255)), "#00abff");
    assert_eq!(color_to_hex(&Color::Named("Cyan".to_string())), "cyan");
    assert_eq!(color_to_hex(&Color::Named("42".to_string())), "indexed(42)");
    assert_eq!(read_mode("auto"), Mode::Auto);
    assert_eq!(read_mode("что угодно"), Mode::Auto);
}

#[test]
fn another_server_is_turned_to_and_remembered() {
    let mut state = begun();
    let mut kept = settings();
    let mut url = "ws://10.0.0.7:8080/ws".to_string();
    assert!(!is_other_server(&url, ""));
    assert!(!is_other_server(&url, "ws://10.0.0.7:8080/ws"));
    assert!(!state.turn_to(&mut kept, &mut url, String::new()));
    assert_eq!(state.media_base, "http://10.0.0.7:8080");

    let there = "ws://10.0.0.9:8080/ws".to_string();
    assert!(state.turn_to(&mut kept, &mut url, there));
    assert_eq!(url, "ws://10.0.0.9:8080/ws");
    assert_eq!(kept.server, "ws://10.0.0.9:8080/ws");
    assert_eq!(state.media_base, "http://10.0.0.9:8080");

    assert!(state.turn_to(&mut kept, &mut url, "iroh://билет".to_string()));
    assert_eq!(state.media_base, "iroh://билет");
}

#[test]
fn sound_is_told_to_the_client() {
    let mut state = begun();
    state.playing_voice = Some((7, NOW));
    state.hear(true, None);
    assert!(state.playing && state.playing_voice.is_some());
    state.hear(false, Some(12));
    assert!(!state.playing && state.playing_voice.is_none());
    assert_eq!(state.busy.as_deref(), Some("запись 12 с · /rec — отправить"));
}

#[test]
fn a_recording_begins_and_ends_in_words() {
    let mut state = begun();
    assert!(state.recording_begun(None).is_none());
    assert_eq!(state.busy.as_deref(), Some("запись · /rec — отправить"));
    assert!(state.recording_ended(None).is_none());
    assert_eq!(state.busy.as_deref(), Some("отправляю голосовое"));
    let refused = state.recording_ended(Some("тишина".to_string()));
    assert!(matches!(refused, Some(Action::Notice(text)) if text == "тишина"));
    assert_eq!(state.busy, None);
    let refused = state.recording_begun(Some("нет микрофона".to_string()));
    assert!(matches!(refused, Some(Action::Notice(text)) if text == "нет микрофона"));
    assert_eq!(state.busy, None);
}

#[test]
fn silent_speakers_are_complained_of() {
    let mut state = begun();
    let (ring, complaint) = state.speakers_tried(true);
    assert!(ring && complaint.is_none());
    let (ring, complaint) = state.speakers_tried(false);
    assert!(!ring);
    assert!(matches!(
        complaint,
        Some(Action::Notice(text)) if text == "не удалось открыть выбранные динамики"
    ));
    state.audio.outputs = vec![];
    assert!(state.speakers_tried(false).1.is_none());
}

#[test]
fn outcomes_are_told_as_actions() {
    assert!(matches!(voice_played(None), Action::Idle));
    assert!(matches!(voice_played(Some("opus".to_string())), Action::Notice(text) if text == "opus"));
    assert!(matches!(
        host_refused(8080, "порт занят"),
        Action::Notice(text) if text == "не удалось поднять сервер на порту 8080: порт занят"
    ));
    assert_eq!(rooms_url("http://10.0.0.7:8080//"), "http://10.0.0.7:8080/rooms");
    assert_eq!(upload_name(Some("кот.png".to_string())), "кот.png");
    assert_eq!(upload_name(None), "файл");
}

#[test]
fn the_wheel_scrolls_and_the_left_button_clicks() {
    assert!(matches!(on_mouse(Mouse::ScrollUp), Some(Action::Scroll(3))));
    assert!(matches!(on_mouse(Mouse::ScrollDown), Some(Action::Scroll(-3))));
    assert!(matches!(on_mouse(Mouse::Press(4, 9)), Some(Action::Click(4, 9))));
    assert!(on_mouse(Mouse::Other).is_none());
}

fn plain(code: KeyCode) -> KeyEvent {
    KeyEvent { code, ctrl: false, press: true }
}

fn held(ch: char) -> KeyEvent {
    KeyEvent { code: KeyCode::Char(ch), ctrl: true, press: true }
}

#[test]
fn shortcuts_do_not_depend_on_the_layout() {
    assert_eq!(normalize_shortcut(held('й')), held('q'));
    assert_eq!(normalize_shortcut(held('Ц')), held('w'));
    assert_eq!(normalize_shortcut(held('x')), held('x'));
    assert_eq!(normalize_shortcut(plain(KeyCode::Char('й'))), plain(KeyCode::Char('й')));
}

#[test]
fn a_field_is_edited_by_characters() {
    let mut input = Input::new("привет мир");
    assert_eq!((input.len(), input.cursor), (10, 10));
    input.kill_word();
    assert_eq!(input.text, "привет ");
    input.backspace();
    input.insert("!", 7);
    assert_eq!(input.text, "привет!");
    input.insert("лишнее", 7);
    assert_eq!(input.text, "привет!");
    assert!(edit_key(&mut input, plain(KeyCode::Home), 7));
    input.delete();
    assert_eq!((input.text.as_str(), input.cursor), ("ривет!", 0));
    assert!(edit_key(&mut input, plain(KeyCode::Right), 7));
    input.kill_to_start();
    assert_eq!(input.text, "ивет!");
    input.kill_to_end();
    assert!(input.is_empty());
    assert!(!edit_key(&mut input, plain(KeyCode::F(5)), 7));
    input.set("abc");
    input.backspace();
    input.insert("c", 7);
    assert_eq!(input.text, "abc");
    input.clear();
    assert!(input.is_empty() && input.cursor == 0);
}

#[test]
fn devices_go_round_through_the_choice_of_the_system() {
    let list = vec!["а".to_string(), "б".to_string()];
    let mut chosen = None;
    for expected in [Some("а"), Some("б"), None] {
        chosen = cycle_device(&list, &chosen, false);
        assert_eq!(chosen.as_deref(), expected);
    }
    let there = cycle_device(&list, &Some("а".to_string()), false);
    assert_eq!(cycle_device(&list, &there, true).as_deref(), Some("а"));
    assert_eq!(keep_device(&list, " б ").as_deref(), Some("б"));
    assert_eq!(keep_device(&list, "в"), None);
    assert_eq!(keep_device(&list, ""), None);
}

#[test]
fn the_first_screen_is_walked_through() {
    let mut login = Login::new(NOW);
    assert_eq!(login.tab, HomeTab::Join);
    assert_eq!(login.field, Field::Nickname);
    assert_eq!(HomeTab::Join.fields().first(), Some(&Field::Nickname));
    login.next_field(false);
    assert_ne!(login.field, Field::Nickname);
    login.next_field(true);
    assert_eq!(login.field, Field::Nickname);
    for tab in HomeTab::ALL {
        assert_eq!(tab.shift(false).shift(true), tab);
    }
    assert_eq!(login.current_setting(), Setting::Theme);
}

#[test]
fn words_are_put_in_order() {
    let sorted = sort(vec!["b".to_string(), "a".to_string(), "ab".to_string()]);
    assert_eq!(sorted, ["a", "ab", "b"]);
    assert!(text_before("a", "a"));
    assert!(text_before("a", "ab"));
    assert!(!text_before("b", "ab"));
}

#[test]
fn a_text_is_split_without_loss() {
    assert_eq!(split_at_width("привет", 4), ("прив".to_string(), "ет".to_string()));
    assert_eq!(split_at_width("漢字", 3), ("漢".to_string(), "字".to_string()));
    assert_eq!(split_at_width("漢", 1), ("漢".to_string(), String::new()));
    assert_eq!(strip_prefixes("//x", "/"), "x");
    assert_eq!(server_label("ws://10.0.0.7:8080/ws"), "10.0.0.7:8080");
    let (shown, column) = field_view(&Input::new("0123456789"), 5);
    assert!(shown.chars().count() <= 5 && column < 6);
    assert!(shown.ends_with('9'));
}

#[test]
fn small_signs_are_what_they_were() {
    assert_eq!(palette(0), palette(0));
    assert_ne!(palette(0), palette(1));
    assert_ne!(spinner(0), spinner(2));
    assert_eq!(spinner(0), spinner(20));
    assert_eq!((step_sign(0), step_sign(8), step_sign(200)), ('▁', '█', '█'));
    assert_ne!(Theme::Mint.secondary(), Theme::Ember.secondary());
    assert_ne!(Theme::Mint.glow(), Theme::Ember.glow());
}

#[test]
fn hints_are_parted_and_a_lost_connection_breathes() {
    let text = |piece: &Piece| match piece {
        Piece::Text(text) => text.clone(),
        Piece::Clock(_) => unreachable!(),
    };
    let all: String =
        hints(&vec![("tab", "раздел"), ("esc", "назад")]).iter().map(|s| text(&s.piece)).collect();
    assert_eq!(all, "tab раздел  ·  esc назад");
    let hint = key_hint("tab", "раздел");
    assert!(hint[0].bold && !hint[1].bold);
    assert_eq!(text(&separator().piece), "  ·  ");
    assert_eq!(status_dot(Tone::Good, true).paint, Paint::Of(Tone::Good));
    assert_eq!(status_dot(Tone::Bad, false).paint, Paint::Breathing(Tone::Bad));
}

#[test]
fn a_shape_of_a_voice_is_kept_by_its_number() {
    let mut state = begun();
    let wave = Waveform { bars: vec![1, 8], millis: 250 };
    let world = null_terminal::state::World {
        now: NOW,
        endpoint: Err("адрес пуст".to_string()),
        start_dir: "/".to_string(),
        parent: None,
        disk: null_terminal::state::PathKind::Nothing,
    };
    null_terminal::update::update(&mut state, Action::Waveform(7, wave), &world);
    assert_eq!(state.waveforms[&7], Waveform { bars: vec![1, 8], millis: 250 });
}

#[test]
fn a_normalized_shortcut_stays_as_it_is() {
    for ch in ['й', 'Ц', 'ё', 'x', 'C', '水', '1'] {
        let once = normalize_shortcut(KeyEvent { code: KeyCode::Char(ch), ctrl: true, press: true });
        assert_eq!(normalize_shortcut(once), once);
    }
}
