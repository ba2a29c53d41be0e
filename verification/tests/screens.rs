//! What stands on the screen.
use null_terminal::feed::{
    draw_voice, nick_color, render_entries, Decor, Rendered, FLASH, GROUP_WINDOW_MS, THUMB_ROWS,
};
use null_terminal::files::FileEntry;
use null_terminal::frame::{centered, tabbed, Area, Strip, Tab};
use null_terminal::front::{lay_home, place_home, HEAD};
use null_terminal::help::{help, split_once, Sheet};
use null_terminal::home::HomeTab;
use null_terminal::input::Input;
use null_terminal::keys::{KeyCode, KeyEvent};
use null_terminal::overlay::{browser, rows_above, viewer};
use null_terminal::paper::{
    button, caption, chooser, columns, dots, fill, line_of_one, raw, runner, strong, toned, Line,
    Paint, Piece, Span, Tone,
};
use null_terminal::picture::{decode, decode_within, to_lines, Picture};
use null_terminal::protocol::{
    Attachment, AttachmentKind, ChatMessage, ReplyPreview, RoomSummary, ServerMessage, UserInfo,
};
use null_terminal::state::{
    Action, Browser, Endpoint, Entry, NetEvent, Painted, PathKind, Screen, State, SystemKind,
    Thumbnail, Viewer, ViewerState, World,
};
use null_terminal::talk::{people_summary, search_counter};
use null_terminal::theme::{Color, Theme};
use null_terminal::update::update;
use null_terminal::validate::MAX_UPLOAD_BYTES;
use null_terminal::wave::Waveform;
use std::collections::HashMap;
use unicode_width::UnicodeWidthStr;

const NOW: u64 = 1_000_000;

fn act(state: &mut State, action: Action) {
    let world = World {
        now: NOW,
        endpoint: Ok(Endpoint {
            socket: "ws://127.0.0.1:8080/ws".to_string(),
            base: "http://127.0.0.1:8080".to_string(),
        }),
        start_dir: "C:/загрузки".to_string(),
        parent: None,
        disk: PathKind::Nothing,
    };
    update(state, action, &world);
}

fn press(state: &mut State, code: KeyCode) {
    act(state, Action::Key(KeyEvent { code, ctrl: false, press: true }));
}

fn ctrl(state: &mut State, ch: char) {
    act(state, Action::Key(KeyEvent { code: KeyCode::Char(ch), ctrl: true, press: true }));
}

fn area(width: u16, height: u16) -> Area {
    Area { x: 0, y: 0, width, height }
}

fn written(span: &Span) -> String {
    match (&span.piece, &span.paint) {
        (Piece::Text(text), Paint::Pill(..)) => format!("▐{text}▌"),
        (Piece::Text(text), _) => text.clone(),
        (Piece::Clock(_), _) => "  12:00".to_string(),
    }
}

fn row(spans: &[Span]) -> String {
    spans.iter().map(written).collect()
}

fn rows(lines: &[Line]) -> Vec<String> {
    lines.iter().map(|line| row(&line.spans)).collect()
}

fn home() -> State {
    State::new(None, "general".into(), NOW).0
}

fn home_text(state: &State, width: u16, height: u16) -> String {
    let Screen::Login(login) = &state.screen else {
        panic!("не главный экран");
    };
    let Some(page) = lay_home(login, state, area(width, height)) else {
        return String::new();
    };
    let mut text = match &page.strip {
        Strip::Framed { tops, names, seam } => vec![row(tops), row(names), row(seam)],
        Strip::Signs { row: signs } => vec![row(signs)],
        Strip::Nothing => vec![],
    };
    text.extend(rows(&page.content.lines));
    text.push(row(&page.footer));
    text.join("\n")
}

fn bob() -> UserInfo {
    UserInfo { id: 1, nickname: "bob".into() }
}

fn populated() -> State {
    let (mut state, _) = State::new(Some("alice".into()), "general".into(), NOW);
    act(
        &mut state,
        Action::Net(NetEvent::Message(ServerMessage::Welcome {
            your_id: 0,
            room: "general".into(),
            nickname: "alice".into(),
            users: vec![bob()],
            history: vec![ChatMessage {
                id: 2,
                from: bob(),
                text: "привет".into(),
                ts: 1_700_000_000_000,
                attachment: None,
                reply: None,
            }],
            upload_limit: MAX_UPLOAD_BYTES as u64,
        })),
    );
    state.input = Input::new("ответ");
    state
}

fn chat(text: &str, ts: i64) -> Action {
    Action::Net(NetEvent::Message(ServerMessage::Chat(ChatMessage {
        id: uuid::Uuid::new_v4().as_u128(),
        from: bob(),
        text: text.into(),
        ts,
        attachment: None,
        reply: None,
    })))
}

fn sheet_text(sheet: &Sheet) -> String {
    let height = (sheet.area.height as usize).saturating_sub(2);
    let mut text = vec![sheet.title.clone()];
    text.extend(rows(&sheet.lines).into_iter().take(height));
    text.push(sheet.footer.clone());
    text.join("\n")
}

fn chat_text(state: &mut State, width: u16, height: u16) -> String {
    let header = state.header(width as usize, NOW, 1_700_000_000_000);
    let mut text = vec![format!("{}{}", row(&header.left), row(&header.right))];
    let reply = state.reply_bar();
    let used = 5 + u16::from(reply.is_some());
    let beside = state.shows_people(width);
    let feed = if beside { width - 22 } else { width };
    let pane =
        state.lay_feed(feed as usize, height.saturating_sub(used) as usize, 1, 0, NOW);
    text.extend(rows(&pane.lines));
    if let Some((words, _)) = &pane.note {
        text.push(words.clone());
    }
    if beside {
        text.extend(rows(&state.people_lines(22, NOW)));
    }
    if let Some(line) = &reply {
        text.push(row(&line.spans));
    }
    let field = state.entryway((width as usize).saturating_sub(2));
    text.push(row(&field.row));
    text.extend(field.mark.iter().map(written));
    text.push(row(&state.hint(width as usize, NOW)));
    let whole = area(width, height);
    if let Some(shown) = &state.viewer {
        return sheet_text(&viewer(shown, "полублоки", whole));
    }
    if let Some(list) = &state.browser {
        return sheet_text(&browser(list, whole));
    }
    if state.help {
        return sheet_text(&help(state.help_scroll, whole));
    }
    text.join("\n")
}

fn said(from: &str, text: &str, ts: i64) -> Entry {
    Entry::Chat {
        id: uuid::Uuid::new_v4().as_u128(),
        from: from.into(),
        text: text.into(),
        ts,
        mine: false,
        mentions_me: false,
        attachment: None,
        reply: None,
        arrived: NOW,
    }
}

fn rendered(entries: &Vec<Entry>, width: usize, thumbnails: &HashMap<u128, Thumbnail>) -> Rendered {
    render_entries(
        entries,
        width,
        &Decor {
            search: None,
            picking: None,
            colors: &vec![],
            thumbnails,
            waveforms: &HashMap::new(),
            playing: None,
            theme: Theme::default(),
            now: NOW,
        },
    )
}

#[test]
fn a_group_gets_one_header_and_a_rail() {
    let entries = vec![
        said("bob", "первое", 1_700_000_000_000),
        said("bob", "второе", 1_700_000_000_000),
    ];

    let text = rows(&rendered(&entries, 40, &HashMap::new()).lines);

    assert_eq!(text.iter().filter(|row| row.contains("bob")).count(), 1);
    assert!(text[0].contains("▐"), "{text:?}");
    assert!(text[1].contains("│"), "{text:?}");
    assert!(text[2].contains("│"), "{text:?}");
}

#[test]
fn a_pause_starts_a_new_group() {
    let entries = vec![
        said("bob", "давно", 1_700_000_000_000),
        said("bob", "недавно", 1_700_000_000_000 + GROUP_WINDOW_MS + 1),
    ];

    let text = rows(&rendered(&entries, 40, &HashMap::new()).lines);

    assert_eq!(text.iter().filter(|row| row.contains("bob")).count(), 2);
}

#[test]
fn the_rail_does_not_push_text_off_the_edge() {
    let entries = vec![said("bob", &"я".repeat(200), 1_700_000_000_000)];

    for line in rows(&rendered(&entries, 20, &HashMap::new()).lines) {
        assert!(line.width() <= 20, "строка шире ленты: {line:?}");
    }
}

#[test]
fn system_lines_are_marked_by_kind() {
    let entries = vec![
        Entry::System { text: "bob вошёл".into(), kind: SystemKind::Join },
        Entry::System { text: "всё сломалось".into(), kind: SystemKind::Error },
    ];

    let text = rows(&rendered(&entries, 40, &HashMap::new()).lines);

    assert!(text.iter().any(|row| row.contains("↳")), "{text:?}");
    assert!(text.iter().any(|row| row.contains("✕")), "{text:?}");
}

#[test]
fn feed_reserves_room_for_a_ready_picture() {
    let id = 21;
    let entries = vec![Entry::Chat {
        id,
        from: "bob".into(),
        text: String::new(),
        ts: 1_700_000_000_000,
        mine: false,
        mentions_me: false,
        attachment: Some(Attachment {
            id,
            kind: AttachmentKind::Image,
            name: "кот.png".into(),
            size: 1024,
            mime: "image/png".into(),
        }),
        reply: None,
        arrived: NOW,
    }];
    let mut ready = HashMap::new();
    ready.insert(id, Thumbnail::Ready(Picture { width: 4, height: 4, pixels: vec![0; 48] }));
    let mut loading = HashMap::new();
    loading.insert(id, Thumbnail::Loading);

    let with_picture = rendered(&entries, 40, &ready);
    let without = rendered(&entries, 40, &loading);

    assert_eq!(with_picture.slots.len(), 1);
    assert!(with_picture.lines.len() > THUMB_ROWS);
    assert!(without.slots.is_empty());
    assert!(without.lines.len() < with_picture.lines.len());
    assert!(rows(&without.lines)[1].contains("[◈ кот.png · 1 КБ]"));
}

#[test]
fn every_entry_begins_at_its_own_line() {
    let entries = vec![
        said("bob", "первое", 1_700_000_000_000),
        said("bob", "второе", 1_700_000_000_000),
        Entry::System { text: "carol вошла".into(), kind: SystemKind::Join },
        said("carol", "третье", 1_700_000_000_000),
    ];

    let page = rendered(&entries, 40, &HashMap::new());

    assert_eq!(page.offsets, [0, 2, 4, 6]);
    assert_eq!(page.lines.len(), 8);
}

#[test]
fn a_found_message_stands_on_a_ground() {
    let mut state = populated();
    ctrl(&mut state, 'f');
    for ch in "привет".chars() {
        press(&mut state, KeyCode::Char(ch));
    }

    let pane = state.lay_feed(40, 10, 0, 0, NOW);

    let lit = pane
        .lines
        .iter()
        .flat_map(|line| &line.spans)
        .any(|span| span.back == Some(Tone::Mention) && written(span) == "привет");
    assert!(lit);
    assert_eq!(search_counter(state.search.as_ref().unwrap()), " 1 из 1 ");
}

#[test]
fn a_quote_stands_above_its_answer() {
    let entries = vec![Entry::Chat {
        id: 5,
        from: "bob".into(),
        text: "и тебе".into(),
        ts: 1_700_000_000_000,
        mine: true,
        mentions_me: true,
        attachment: None,
        reply: Some(ReplyPreview {
            id: 4,
            nickname: "alice".into(),
            excerpt: "привет всем".into(),
        }),
        arrived: 0,
    }];

    let page = rendered(&entries, 40, &HashMap::new());

    assert_eq!(
        rows(&page.lines),
        [" ▐ bob  12:00  вы", " │ ┆ alice: привет всем", " │ и тебе"]
    );
    assert!(page.lines[2].spans[3].bold);
    assert_eq!(page.lines[2].spans[3].paint, Paint::Of(Tone::Mention));
}

fn voice_line(heard: usize) -> Vec<Span> {
    let wave = Waveform { bars: vec![1, 4, 8, 6, 2, 7, 3, 5], millis: 8_000 };
    draw_voice(&wave, heard, "голосовое.wav")
}

#[test]
fn a_voice_is_drawn_as_a_graph_with_its_length() {
    let line = row(&voice_line(0));

    assert!(line.contains('█'), "{line}");
    assert!(line.contains('▁'), "{line}");
    assert!(line.contains("0:08"), "{line}");
    assert!(line.contains("голосовое.wav"), "{line}");
}

fn painted_bars(spans: &[Span]) -> usize {
    spans.iter().skip(1).take(8).filter(|span| span.paint != Paint::Of(Tone::Line)).count()
}

#[test]
fn playback_paints_the_part_already_heard() {
    let played = painted_bars(&voice_line(4));

    assert_eq!(played, 4, "закрашено не половина: {played}");
}

#[test]
fn a_voice_that_is_not_playing_is_not_painted() {
    let played = painted_bars(&voice_line(0));

    assert_eq!(played, 0, "график закрашен, хотя ничего не играет");
}

#[test]
fn a_fresh_message_flashes_and_fades() {
    let entries = vec![said("bob", "привет", 1_700_000_000_000)];
    let color = nick_color(&vec![], "bob", false, Theme::default());
    let bar = |now: u64| {
        let page = render_entries(
            &entries,
            40,
            &Decor {
                search: None,
                picking: None,
                colors: &vec![],
                thumbnails: &HashMap::new(),
                waveforms: &HashMap::new(),
                playing: None,
                theme: Theme::default(),
                now,
            },
        );
        page.lines[0].spans[1].paint.clone()
    };

    assert_eq!(bar(NOW), Paint::Flash(color.clone(), 0));
    assert_eq!(bar(NOW + FLASH), Paint::Own(color));
}

#[test]
fn names_keep_their_colours() {
    let theme = Theme::default();
    let painted = vec![Painted { key: "bob".into(), color: Color::Rgb(1, 2, 3) }];

    assert_eq!(nick_color(&painted, "Bob", true, theme), Color::Rgb(1, 2, 3));
    assert_eq!(nick_color(&vec![], "alice", true, theme), theme.primary());
    assert_eq!(
        nick_color(&vec![], "Bob", false, theme),
        nick_color(&vec![], "bOB", false, theme)
    );
    // b, o, b: (98 * 31 + 111) * 31 + 98 = 97717, which leaves 5.
    assert_eq!(nick_color(&vec![], "bob", false, theme), Color::Rgb(107, 208, 255));
}

#[test]
fn help_lists_the_keys() {
    let mut state = populated();
    state.help = true;

    let screen = chat_text(&mut state, 80, 24);

    assert!(screen.contains("что умеет чат"), "{screen}");
    assert!(screen.contains("F2"), "{screen}");
    assert!(screen.contains("закрыть"), "{screen}");
}

#[test]
fn help_says_how_much_is_left_below() {
    let mut state = populated();
    state.help = true;

    let short = chat_text(&mut state, 80, 20);
    assert!(short.contains("ещё"), "{short}");

    state.help_scroll = 100;
    let bottom = chat_text(&mut state, 80, 20);
    assert!(bottom.contains("выше"), "{bottom}");
    assert!(bottom.contains("shift"), "{bottom}");
}

#[test]
fn a_tall_window_holds_the_whole_help() {
    let sheet = help(5, area(100, 50));

    assert_eq!(sheet.footer, "любая клавиша — закрыть");
    assert_eq!(sheet.lines.len(), 31);
    assert_eq!((sheet.area.width, sheet.area.height), (78, 34));
    assert_eq!(
        row(&sheet.lines[8].spans),
        " F1                       эта справка"
    );
}

#[test]
fn texts_are_parted_at_the_first_separator() {
    assert_eq!(
        split_once("/send — файл — выбрать", " — "),
        Some(("/send".to_string(), "файл — выбрать".to_string()))
    );
    assert_eq!(split_once("ничего", " — "), None);
    assert_eq!(split_once("", " — "), None);
}

fn file(name: &str, path: &str, is_dir: bool, size: u64) -> FileEntry {
    FileEntry { name: name.into(), path: path.into(), is_dir, size, media: !is_dir }
}

#[test]
fn browser_shows_files_and_marks_media() {
    let mut state = populated();
    state.browser = Some(Browser {
        dir: "C:/фото".into(),
        entries: vec![
            file("..", "C:/", true, 0),
            file("кот.png", "C:/фото/кот.png", false, 240 * 1024),
        ],
        selected: 1,
        filter: Input::new(""),
        loading: false,
        error: None,
    });

    let screen = chat_text(&mut state, 80, 24);

    assert!(screen.contains("◈ кот.png"), "{screen}");
    assert!(screen.contains("240 КБ"), "{screen}");
    assert!(screen.contains("enter выбрать"), "{screen}");
}

fn long_list(selected: usize) -> Browser {
    Browser {
        dir: "C:/".into(),
        entries: (0..40).map(|n| file(&format!("файл{n}"), "C:/файл", false, 1)).collect(),
        selected,
        filter: Input::new(""),
        loading: false,
        error: None,
    }
}

#[test]
fn a_long_list_follows_the_choice() {
    let sheet = browser(&long_list(30), area(80, 24));

    assert_eq!(sheet.lines.len(), 19);
    let chosen = sheet.lines.last().unwrap();
    assert_eq!(chosen.spans[0].back, Some(Tone::Primary));
    assert!(row(&chosen.spans).contains("файл30"));
}

#[test]
fn a_list_says_why_it_is_empty() {
    let mut list = long_list(0);
    list.filter = Input::new("нет такого");
    assert_eq!(rows(&browser(&list, area(80, 24)).lines), [" ничего не нашлось"]);
    list.error = Some("отказано".into());
    assert_eq!(rows(&browser(&list, area(80, 24)).lines), [" отказано"]);
    list.loading = true;
    assert_eq!(rows(&browser(&list, area(80, 24)).lines), [" читаю…"]);
    assert!(browser(&list, area(80, 3)).lines.is_empty());
}

#[test]
fn viewer_covers_the_chat_while_loading() {
    let mut state = populated();
    state.viewer = Some(Viewer { id: 0, name: "кот.png".into(), state: ViewerState::Loading });

    let screen = chat_text(&mut state, 60, 16);

    assert!(screen.contains("кот.png"), "{screen}");
    assert!(screen.contains("загружаю"), "{screen}");
    assert!(!screen.contains("привет"), "{screen}");
}

#[test]
fn viewer_explains_a_failure() {
    let mut state = populated();
    state.viewer = Some(Viewer {
        id: 0,
        name: "кот.png".into(),
        state: ViewerState::Failed("сервер ответил: HTTP/1.1 404 Not Found".into()),
    });

    let screen = chat_text(&mut state, 70, 16);

    assert!(screen.contains("404"), "{screen}");
    assert_eq!(rows_above(11, 1), 5);
    assert_eq!(rows_above(3, 9), 0);
}

#[test]
fn draws_the_room_the_people_and_the_input() {
    let mut state = populated();

    let screen = chat_text(&mut state, 60, 16);

    assert!(screen.contains("general"), "{screen}");
    assert!(screen.contains("привет"), "{screen}");
    assert!(screen.contains("alice, bob"), "{screen}");
    assert!(screen.contains("ответ"), "{screen}");
    assert!(screen.contains("в сети"), "{screen}");
}

#[test]
fn people_are_told_as_the_room_allows() {
    let users = vec![bob(), UserInfo { id: 3, nickname: "carol".into() }];

    assert_eq!(people_summary(&users, 20), "bob, carol");
    assert_eq!(people_summary(&users, 9), "2 человек");
    assert_eq!(people_summary(&users, 7), "");
    assert_eq!(people_summary(&vec![], 20), "");
}

#[test]
fn an_empty_input_says_what_to_do_with_it() {
    let mut state = populated();
    state.input = Input::new("");

    let screen = chat_text(&mut state, 60, 16);

    assert!(screen.contains("напишите сообщение"), "{screen}");
}

#[test]
fn history_sticks_to_the_bottom() {
    let mut state = populated();

    let pane = state.lay_feed(60, 11, 1, 0, NOW);

    let text = rows(&pane.lines);
    assert_eq!(text.len(), 11);
    assert!(text[10].contains("help"), "{text:?}");
    assert!(text[0].is_empty(), "{text:?}");
}

#[test]
fn the_people_column_lists_everyone() {
    let mut state = populated();
    state.sidebar = true;
    act(&mut state, chat("тут", 1_700_000_000_000));

    let screen = chat_text(&mut state, 90, 16);

    assert!(screen.contains("Л Ю Д И"), "{screen}");
    assert!(screen.contains("alice"), "{screen}");
    assert!(screen.contains("bob"), "{screen}");
}

#[test]
fn the_people_column_stays_away_in_a_narrow_window() {
    let mut state = populated();
    state.sidebar = true;

    let screen = chat_text(&mut state, 60, 16);

    assert!(!screen.contains("Л Ю Д И"), "{screen}");
}

#[test]
fn who_is_typing_is_named_and_marked() {
    let mut state = populated();
    act(
        &mut state,
        Action::Net(NetEvent::Message(ServerMessage::Typing { user: bob() })),
    );

    assert_eq!(row(&state.hint(60, NOW)), "  bob печатает ···");
    assert!(rows(&state.people_lines(22, NOW)).contains(&"● bob ✎".to_string()));
    assert_eq!(
        rows(&state.people_lines(22, NOW)).last(),
        Some(&"не подключены".to_string())
    );
}

#[test]
fn work_comes_before_the_keys() {
    let mut state = populated();
    assert!(row(&state.hint(80, NOW)).contains("f2 голосовое  ·  f4 файл"));

    state.busy = Some("сохраняю".into());

    let hint = state.hint(80, NOW);
    assert_eq!(hint.len(), 3 + 24);
    assert!(row(&hint).contains(" сохраняю "));
    assert_eq!(state.hint(12, NOW).len(), 3);
}

#[test]
fn spinner_turns_while_connecting() {
    let (mut state, _) = State::new(Some("alice".into()), "general".into(), NOW);

    let first = chat_text(&mut state, 60, 16);
    for _ in 0..2 {
        act(&mut state, Action::Tick);
    }
    let second = chat_text(&mut state, 60, 16);

    assert!(first.contains("подключаюсь"), "{first}");
    assert_ne!(first, second, "спиннер не крутится");
}

#[test]
fn a_lost_connection_counts_the_seconds() {
    let mut state = populated();
    act(
        &mut state,
        Action::Net(NetEvent::Disconnected { reason: "обрыв".into(), retry_at: NOW + 4_500 }),
    );

    let screen = chat_text(&mut state, 60, 16);

    assert!(screen.contains("нет связи · 5с"), "{screen}");
    assert_eq!(state.entryway(58).frame, Paint::Of(Tone::Bad));
}

#[test]
fn scrolled_history_says_how_far_it_went() {
    let mut state = populated();
    for at in 0..40 {
        act(&mut state, chat(&format!("реплика {at}"), 1_700_000_000_000 + at * 200_000));
    }
    chat_text(&mut state, 60, 16);
    state.scrollback = 12;

    let screen = chat_text(&mut state, 60, 16);

    assert!(screen.contains("↓ 12 строк ниже"), "{screen}");
}

#[test]
fn scrolling_stops_at_the_beginning() {
    let mut state = populated();
    for at in 0..40 {
        act(&mut state, chat(&format!("реплика {at}"), 1_700_000_000_000 + at * 200_000));
    }
    state.scrollback = usize::MAX / 2;

    let pane = state.lay_feed(60, 10, 3, 0, NOW);

    assert_eq!(state.scrollback, state.viewport.total_lines - 10);
    assert_eq!(state.viewport.top, 3);
    assert!(row(&pane.lines[0].spans).contains("bob"));
}

#[test]
fn pictures_are_placed_where_they_are_seen_whole() {
    let mut state = populated();
    let id = 9;
    act(
        &mut state,
        Action::Net(NetEvent::Message(ServerMessage::Chat(ChatMessage {
            id,
            from: bob(),
            text: String::new(),
            ts: 1_700_000_000_000,
            attachment: Some(Attachment {
                id,
                kind: AttachmentKind::Image,
                name: "кот.png".into(),
                size: 1024,
                mime: "image/png".into(),
            }),
            reply: None,
        }))),
    );
    state
        .thumbnails
        .insert(id, Thumbnail::Ready(Picture { width: 1, height: 1, pixels: vec![0; 3] }));

    let tall = state.lay_feed(60, 30, 0, 0, NOW);
    let low = state.lay_feed(60, 9, 0, 0, NOW);

    assert_eq!(tall.pictures.len(), 1);
    assert_eq!((tall.pictures[0].id, tall.pictures[0].row), (id, 20));
    assert!(low.pictures.is_empty());
}

#[test]
fn long_input_scrolls_to_keep_the_cursor_visible() {
    let mut state = populated();
    state.input = Input::new(&"я".repeat(700));

    let screen = chat_text(&mut state, 40, 10);

    assert!(screen.contains("я"), "{screen}");
    assert!(screen.contains("300"), "{screen}");
    let field = state.entryway(38);
    assert_eq!(field.column, 34);
    assert_eq!(row(&field.row[3..]).chars().count(), 34);
}

#[test]
fn the_first_screen_asks_for_a_nickname() {
    let state = home();

    let screen = home_text(&state, 90, 30);

    assert!(screen.contains("ваш ник"), "{screen}");
    assert!(screen.contains("general"), "{screen}");
    assert!(screen.contains("войти"), "{screen}");
    assert_eq!(place_home(area(90, 30), 14).head, HEAD);
}

#[test]
fn every_tab_is_reachable_by_tab() {
    let mut state = home();
    let mut screens = Vec::new();
    for _ in 0..5 {
        press(&mut state, KeyCode::Tab);
        screens.push(home_text(&state, 96, 30));
    }

    let [host, look, sound, help, join] = screens.as_slice() else {
        panic!("вкладок стало другое число");
    };
    assert!(host.contains("порт"), "{host}");
    assert!(look.contains("тема"), "{look}");
    assert!(sound.contains("динамики"), "{sound}");
    assert!(help.contains("F2"), "{help}");
    assert!(join.contains("ваш ник"), "{join}");
}

#[test]
fn the_sound_tab_lists_what_it_found() {
    let mut state = home();
    state.audio.outputs = vec!["Наушники (Realtek)".into(), "HDMI".into()];
    state.audio.inputs = vec!["Микрофон гарнитуры".into()];
    for _ in 0..3 {
        press(&mut state, KeyCode::Tab);
    }

    let before = home_text(&state, 96, 30);
    press(&mut state, KeyCode::Right);
    let after = home_text(&state, 96, 30);

    assert!(before.contains("как в системе"), "{before}");
    assert!(before.contains("динамиков: 2"), "{before}");
    assert!(after.contains("Наушники"), "{after}");
}

#[test]
fn the_look_tab_shows_the_theme_it_will_apply() {
    let mut state = home();
    for _ in 0..2 {
        press(&mut state, KeyCode::Tab);
    }

    let before = home_text(&state, 90, 30);
    press(&mut state, KeyCode::Right);
    let after = home_text(&state, 90, 30);

    assert!(before.contains("сирень"), "{before}");
    assert!(after.contains("долли"), "{after}");
}

#[test]
fn rooms_from_the_server_are_listed_with_their_people() {
    let mut state = home();
    act(
        &mut state,
        Action::Rooms(Ok(vec![
            RoomSummary { name: "general".into(), users: 3 },
            RoomSummary { name: "rust".into(), users: 1 },
        ])),
    );

    let screen = home_text(&state, 90, 30);

    assert!(screen.contains("К О М Н А Т Ы"), "{screen}");
    assert!(screen.contains("rust"), "{screen}");
    assert!(screen.contains("●●●"), "{screen}");
}

#[test]
fn arrows_walk_from_the_form_into_the_room_list() {
    let mut state = home();
    act(
        &mut state,
        Action::Rooms(Ok(vec![RoomSummary { name: "rust".into(), users: 1 }])),
    );
    for _ in 0..3 {
        press(&mut state, KeyCode::Down);
    }

    let screen = home_text(&state, 90, 30);

    assert!(screen.contains("❯ rust"), "{screen}");
}

#[test]
fn many_rooms_are_counted() {
    let mut state = home();
    act(
        &mut state,
        Action::Rooms(Ok(
            (0..9).map(|n| RoomSummary { name: format!("room{n}"), users: 1 }).collect(),
        )),
    );

    let screen = home_text(&state, 90, 30);

    assert!(screen.contains("room6") && !screen.contains("room7"), "{screen}");
    assert!(screen.contains("и ещё 2"), "{screen}");
}

#[test]
fn a_failure_is_shown_under_the_form() {
    let mut state = home();
    act(&mut state, Action::Net(NetEvent::Fatal { reason: "ник занят".into() }));

    let screen = home_text(&state, 90, 30);

    assert!(screen.contains("ник занят"), "{screen}");
}

#[test]
fn a_narrow_window_drops_the_banner_but_keeps_the_form() {
    let state = home();

    let screen = home_text(&state, 46, 14);

    assert_ne!(place_home(area(46, 14), 10).head, HEAD);
    assert!(screen.contains("ваш ник"), "{screen}");
}

#[test]
fn the_cursor_stands_in_its_field() {
    let mut state = home();
    press(&mut state, KeyCode::Char('я'));
    let Screen::Login(login) = &state.screen else {
        panic!("не главный экран");
    };

    let page = lay_home(login, &state, area(90, 30)).unwrap();

    assert_eq!(login.tab, HomeTab::Join);
    assert_eq!(page.content.cursor, Some((2, 3)));
    assert!(row(&page.content.lines[2].spans).starts_with("▌ я"));
}

#[test]
fn columns_line_up_at_the_given_width() {
    let left = vec![line_of_one(raw("ник"))];
    let right = vec![line_of_one(raw("комнаты"))];

    let joined = columns(&left, &right, 10, 2);

    assert_eq!(joined.len(), 1);
    assert_eq!(row(&joined[0].spans).width(), 12 + "комнаты".width());
}

#[test]
fn every_screen_survives_every_size() {
    let sizes = [
        (1, 1),
        (2, 3),
        (4, 2),
        (7, 5),
        (12, 4),
        (20, 6),
        (40, 10),
        (80, 24),
        (200, 60),
    ];

    for (width, height) in sizes {
        let mut first = home();
        for _ in 0..5 {
            home_text(&first, width, height);
            press(&mut first, KeyCode::Tab);
        }
        act(&mut first, Action::Net(NetEvent::Fatal { reason: "ник занят".into() }));
        home_text(&first, width, height);

        let mut chat = populated();
        chat.input = Input::new("длинная строка ввода, которая не влезает целиком");
        chat_text(&mut chat, width, height);
        chat.sidebar = true;
        chat_text(&mut chat, width, height);
        chat.sidebar = false;
        chat.scrollback = usize::MAX / 2;
        chat_text(&mut chat, width, height);
        chat.scrollback = 0;
        ctrl(&mut chat, 'f');
        chat_text(&mut chat, width, height);
        press(&mut chat, KeyCode::Esc);
        ctrl(&mut chat, 'r');
        chat_text(&mut chat, width, height);
        press(&mut chat, KeyCode::Enter);
        chat_text(&mut chat, width, height);
        for state in [
            ViewerState::Loading,
            ViewerState::Failed("сервер ответил: HTTP/1.1 404 Not Found".into()),
            ViewerState::Ready(Picture { width: 40, height: 30, pixels: vec![200; 3600] }),
        ] {
            chat.viewer = Some(Viewer { id: 0, name: "кот.png".into(), state });
            chat_text(&mut chat, width, height);
        }
        chat.viewer = None;
        chat.help = true;
        chat_text(&mut chat, width, height);
        chat.help = false;
        chat.browser = Some(long_list(0));
        chat_text(&mut chat, width, height);
        chat.browser = None;
        act(
            &mut chat,
            Action::Net(NetEvent::Disconnected { reason: "обрыв".into(), retry_at: NOW + 5_000 }),
        );
        chat_text(&mut chat, width, height);
    }
}

#[test]
fn tiny_terminal_does_not_panic() {
    for (width, height) in [(1, 1), (3, 2), (5, 4), (20, 5)] {
        chat_text(&mut populated(), width, height);
        home_text(&home(), width, height);
    }
}

#[test]
fn feed_reaches_the_screen() {
    let mut state = populated();
    assert!(state.entries.iter().any(|entry| matches!(entry, Entry::System { .. })));

    let screen = chat_text(&mut state, 60, 16);

    assert!(screen.contains("привет"), "{screen}");
}

fn tabs() -> Vec<Tab> {
    vec![Tab { icon: "◆", title: "войти" }, Tab { icon: "✦", title: "поднять" }]
}

#[test]
fn the_active_tab_opens_into_the_frame() {
    let (Strip::Framed { seam, .. }, inner) = tabbed(area(48, 8), &tabs(), 0) else {
        panic!("рамки нет");
    };

    let seam = row(&seam);
    assert!(seam.contains('╯'), "{seam}");
    assert!(seam.contains('┴'), "{seam}");
    assert!(seam.ends_with('╮'), "{seam}");
    assert_eq!(seam.width(), 48);
    assert_eq!(inner, Area { x: 1, y: 3, width: 46, height: 4 });
}

#[test]
fn every_tab_is_named() {
    let (Strip::Framed { names, .. }, _) = tabbed(area(48, 8), &tabs(), 1) else {
        panic!("рамки нет");
    };

    let names = row(&names);
    assert!(names.contains("войти"), "{names}");
    assert!(names.contains("поднять"), "{names}");
}

#[test]
fn narrow_window_falls_back_to_icons() {
    let (Strip::Signs { row: signs }, inner) = tabbed(area(20, 8), &tabs(), 0) else {
        panic!("ожидались значки");
    };

    let signs = row(&signs);
    assert!(!signs.contains("поднять"), "{signs}");
    assert!(signs.contains("✦"), "{signs}");
    assert_eq!(inner, Area { x: 0, y: 1, width: 20, height: 7 });
}

#[test]
fn tiny_area_survives() {
    for (width, height) in [(1, 1), (3, 2), (8, 3), (12, 1)] {
        tabbed(area(width, height), &tabs(), 0);
    }
    assert!(matches!(tabbed(area(0, 5), &tabs(), 0).0, Strip::Nothing));
}

#[test]
fn dots_count_people_and_stop_at_five() {
    assert_eq!(row(&dots(3, Paint::Of(Tone::Good))), "●●●");
    assert_eq!(row(&dots(12, Paint::Of(Tone::Good))), "●●●●●+7");
    assert_eq!(
        row(&dots(0, Paint::Of(Tone::Good))),
        "—",
        "пустая комната должна выглядеть пустой"
    );
}

#[test]
fn the_runner_keeps_its_width() {
    let spans = runner(10, 4);

    assert_eq!(spans.len(), 10);
    assert_eq!(spans[2].paint, Paint::Wave(0));
    assert_eq!(spans[0].paint, Paint::Wave(2));
    assert_eq!(spans[9].paint, Paint::Wave(6));
}

#[test]
fn small_pieces_look_as_they_should() {
    assert_eq!(row(&chooser("авто", true)), "‹ авто ›");
    assert_eq!(written(&button("enter — войти", true)), "▐ enter — войти ▌");
    assert_eq!(written(&button("enter — войти", false)), "  enter — войти  ");
    assert_eq!(written(&caption("что нашлось")), "Ч Т О  Н А Ш Л О С Ь");
    assert!(strong("x", Tone::Text).bold);
    let mut spans = vec![toned("ник", Tone::Muted)];
    fill(&mut spans, 5);
    assert_eq!(row(&spans), "ник  ");
    fill(&mut spans, 2);
    assert_eq!(spans.len(), 2);
}

#[test]
fn a_window_stands_in_the_middle() {
    assert_eq!(
        centered(area(80, 24), 74, 22),
        Area { x: 3, y: 1, width: 74, height: 22 }
    );
    assert_eq!(centered(area(10, 4), 74, 22), area(10, 4));
}

fn stripes(width: u32, height: u32) -> Picture {
    let mut pixels = Vec::new();
    for _ in 0..height {
        for x in 0..width {
            pixels.extend([if x % 2 == 0 { 255 } else { 0 }, 128, 0]);
        }
    }
    Picture { width, height, pixels }
}

#[test]
fn one_line_holds_two_rows_of_pixels() {
    let lines = to_lines(&stripes(4, 4), 4, 4);

    assert_eq!(lines.len(), 2, "четыре пикселя по высоте — две строки");
    assert_eq!(lines[0].len(), 4);
}

#[test]
fn empty_area_draws_nothing() {
    assert!(to_lines(&stripes(4, 4), 0, 10).is_empty());
    assert!(to_lines(&stripes(4, 4), 10, 0).is_empty());
}

#[test]
fn colors_come_from_the_pixels() {
    let lines = to_lines(&stripes(2, 2), 2, 2);

    assert_eq!(lines[0][0].top, (255, 128, 0));
    assert_eq!(lines[0][1].top, (0, 128, 0));
}

#[test]
fn a_picture_is_made_smaller() {
    let lines = to_lines(&stripes(100, 10), 20, 2);

    assert_eq!(lines.len(), 1);
    assert_eq!(lines[0].len(), 20);
}

fn png_bytes(width: u32, height: u32) -> Vec<u8> {
    let image = image::RgbImage::from_pixel(width, height, image::Rgb([10, 20, 30]));
    let mut bytes = Vec::new();
    image
        .write_to(&mut std::io::Cursor::new(&mut bytes), image::ImageFormat::Png)
        .unwrap();
    bytes
}

#[test]
fn oversized_pictures_are_refused_before_they_are_decoded() {
    let bytes = png_bytes(64, 64);

    assert!(
        decode_within(&bytes, 8, 1 << 20).is_err(),
        "картинка прошла мимо лимита"
    );
    let picture = decode(&bytes).unwrap();
    assert_eq!((picture.width, picture.height), (64, 64));
    assert_eq!(&picture.pixels[..3], [10, 20, 30]);
}

#[test]
fn garbage_is_reported_not_panicked() {
    let error = decode(&"это не картинка вовсе".as_bytes().to_vec()).unwrap_err();

    assert!(!error.is_empty());
}

#[test]
fn viewer_draws_the_picture() {
    let picture = Picture { width: 8, height: 8, pixels: [200, 30, 30].repeat(64) };

    let lines = to_lines(&picture, 8, 8);

    assert_eq!(lines.len(), 4);
    assert_eq!(lines[3][7].top, (200, 30, 30));
}

#[test]
fn the_narrowest_column_says_that_nobody_is_there() {
    let mut state = populated();
    state.users.clear();

    assert_eq!(rows(&state.people_lines(6, NOW))[1], "пока никого");
    assert!(state.people_lines(5, NOW).is_empty());
}
