//! The server: rooms, names, messages and files.
use null_terminal::errands::{media_headers, refusal_status};
use null_terminal::host::{
    announce, certificate_names, local_ips, rank, tls_dir, Address, Hosted, Interface,
};
use null_terminal::hub::{Delivery, Hub, HubConfig, TYPING_GAP};
use null_terminal::protocol::{
    Attachment, AttachmentKind, ChatMessage, ClientMessage, ErrorCode, ServerMessage,
    REPLY_EXCERPT_CHARS,
};
use null_terminal::session::{
    handle_text, join_phase, let_in, open_socket, take_frame, Arrival, Frame, JoinStep, Moment,
    Session, TalkStep,
};
use null_terminal::store::{MediaError, MediaStore};
use null_terminal::validate::MAX_UPLOAD_BYTES;

/// A server without a network: every connection is a number.
struct Server {
    hub: Hub,
    store: MediaStore,
    last: u128,
}

fn server() -> Server {
    server_with(HubConfig::default())
}

fn server_with(config: HubConfig) -> Server {
    Server { hub: Hub::new(config), store: MediaStore::default(), last: 0 }
}

impl Server {
    fn fresh(&mut self) -> u128 {
        self.last += 1;
        self.last
    }

    fn try_join(&mut self, id: u128, nickname: &str, room: &str) -> JoinStep {
        join_phase(
            &mut self.hub,
            id,
            Arrival::Frame(Frame::Message(ClientMessage::Join {
                nickname: nickname.to_string(),
                room: room.to_string(),
            })),
            self.store.limit() as u64,
            &vec![],
        )
    }

    fn joined(&mut self, nickname: &str, room: &str) -> Session {
        let id = self.fresh();
        match self.try_join(id, nickname, room) {
            JoinStep::Enter { session, .. } => session,
            _ => panic!("вход не удался"),
        }
    }

    fn welcome(&mut self, nickname: &str, room: &str) -> ServerMessage {
        let id = self.fresh();
        match self.try_join(id, nickname, room) {
            JoinStep::Enter { welcome, .. } => welcome,
            _ => panic!("вход не удался"),
        }
    }

    fn refused(&mut self, nickname: &str, room: &str) -> ErrorCode {
        let id = self.fresh();
        match self.try_join(id, nickname, room) {
            JoinStep::Answer(ServerMessage::Error { code, .. }) => code,
            _ => panic!("ожидался отказ"),
        }
    }

    fn hand(&mut self, session: &Session, frame: Frame) -> TalkStep {
        self.hand_at(session, frame, 5_000)
    }

    fn hand_at(&mut self, session: &Session, frame: Frame, now: u64) -> TalkStep {
        let moment = Moment { id: self.fresh(), ts: 1_700_000_000_000, now };
        handle_text(&mut self.hub, &self.store, session, frame, &moment, &vec![])
    }

    fn chat(
        &mut self,
        session: &Session,
        text: &str,
        attachment: Option<u128>,
        reply_to: Option<u128>,
    ) -> TalkStep {
        self.hand(
            session,
            Frame::Message(ClientMessage::Chat { text: text.to_string(), attachment, reply_to }),
        )
    }

    fn say(&mut self, session: &Session, text: &str) -> ChatMessage {
        said(self.chat(session, text, None, None))
    }

    fn upload(&mut self, name: &str) -> Attachment {
        let id = self.fresh();
        self.store.put_as(id, name, PNG.to_vec()).unwrap()
    }
}

const PNG: &[u8] = b"\x89PNG\r\n\x1a\n\x00\x00\x00\x0dIHDR";

fn said(step: TalkStep) -> ChatMessage {
    match step.deliveries.into_iter().next() {
        Some(Delivery { message: ServerMessage::Chat(message), .. }) => message,
        _ => panic!("сообщение не вернулось"),
    }
}

fn reply_code(step: &TalkStep) -> Option<ErrorCode> {
    match &step.reply {
        Some(ServerMessage::Error { code, .. }) => Some(*code),
        _ => None,
    }
}

fn history_of(welcome: ServerMessage) -> Vec<ChatMessage> {
    match welcome {
        ServerMessage::Welcome { history, .. } => history,
        _ => panic!("ожидался welcome"),
    }
}

#[test]
fn welcome_lists_those_who_were_already_there() {
    let mut server = server();
    let alice = server.joined("alice", "general");
    let id = server.fresh();

    let JoinStep::Enter { welcome, notices, .. } = server.try_join(id, "bob", "general") else {
        panic!("ожидался welcome");
    };

    let ServerMessage::Welcome { room, nickname, users, upload_limit, .. } = welcome else {
        panic!("ожидался welcome");
    };
    assert_eq!((room.as_str(), nickname.as_str()), ("general", "bob"));
    assert_eq!(upload_limit, MAX_UPLOAD_BYTES as u64);
    let names: Vec<_> = users.iter().map(|u| u.nickname.as_str()).collect();
    assert_eq!(names, ["alice"]);
    assert_eq!(notices.len(), 1);
    assert_eq!(notices[0].to, alice.user.id);
    assert!(matches!(
        &notices[0].message,
        ServerMessage::UserJoined { user } if user.nickname == "bob"
    ));
}

#[test]
fn nickname_and_room_are_normalized() {
    let mut server = server();

    let session = server.joined("  alice  ", "  General ");

    assert_eq!((session.room.as_str(), session.user.nickname.as_str()), ("general", "alice"));
}

#[test]
fn chat_reaches_only_its_own_room() {
    let mut server = server();
    let alice = server.joined("alice", "one");
    let carol = server.joined("carol", "one");
    let bob = server.joined("bob", "two");

    let step = server.chat(&alice, "  привет\nмир  ", None, None);

    assert!(step.open && step.reply.is_none());
    let reached: Vec<u128> = step.deliveries.iter().map(|d| d.to).collect();
    assert!(reached.contains(&alice.user.id) && reached.contains(&carol.user.id));
    assert!(!reached.contains(&bob.user.id));
    assert_eq!(step.deliveries[0].message, step.deliveries[1].message);
    let message = said(step);
    assert_eq!(message.text, "привет мир");
    assert_eq!(message.from.nickname, "alice");
    assert_eq!(message.ts, 1_700_000_000_000);
}

#[test]
fn taken_nickname_can_be_retried_on_the_same_connection() {
    let mut server = server();
    server.joined("alice", "general");
    let id = server.fresh();

    let JoinStep::Answer(answer) = server.try_join(id, "alice", "general") else {
        panic!("ожидался отказ без разрыва");
    };
    assert_eq!(
        answer,
        ServerMessage::Error {
            code: ErrorCode::NicknameTaken,
            message: "ник alice в этой комнате уже занят".to_string(),
        }
    );
    assert!(matches!(server.try_join(id, "alice2", "general"), JoinStep::Enter { .. }));
}

#[test]
fn chat_nickname_uniqueness_ignores_case() {
    let mut server = server();
    server.joined("alice", "general");

    assert_eq!(server.refused("ALICE", "general"), ErrorCode::NicknameTaken);
}

#[test]
fn same_nickname_in_different_rooms_is_fine() {
    let mut server = server();
    server.joined("alice", "one");

    server.joined("alice", "two");

    assert_eq!(server.hub.room_count(), 2);
}

#[test]
fn invalid_nickname_and_room_are_rejected_separately() {
    let mut server = server();

    assert_eq!(server.refused("a b", "general"), ErrorCode::InvalidNickname);
    assert_eq!(server.refused("alice", "общая"), ErrorCode::InvalidRoom);
    server.joined("alice", "general");
}

#[test]
fn chat_before_join_is_rejected() {
    let mut server = server();

    let step = join_phase(
        &mut server.hub,
        1,
        Arrival::Frame(Frame::Message(ClientMessage::Chat {
            text: "привет".into(),
            attachment: None,
            reply_to: None,
        })),
        1,
        &vec![],
    );

    assert!(matches!(
        step,
        JoinStep::Answer(ServerMessage::Error { code: ErrorCode::NotJoined, .. })
    ));
}

#[test]
fn second_join_is_rejected() {
    let mut server = server();
    let alice = server.joined("alice", "general");

    let step = server.hand(
        &alice,
        Frame::Message(ClientMessage::Join { nickname: "alice".into(), room: "another".into() }),
    );

    assert_eq!(reply_code(&step), Some(ErrorCode::AlreadyJoined));
    assert_eq!(server.hub.user_count("another"), 0);
}

#[test]
fn leave_notifies_the_rest_of_the_room() {
    let mut server = server();
    let alice = server.joined("alice", "general");
    let bob = server.joined("bob", "general");

    let notices = server.hub.leave("general", bob.user.id, &vec![]);

    assert_eq!(notices.len(), 1);
    assert_eq!(notices[0].to, alice.user.id);
    assert!(matches!(
        &notices[0].message,
        ServerMessage::UserLeft { user } if user.nickname == "bob"
    ));
    assert!(server.hub.leave("general", bob.user.id, &vec![]).is_empty());
}

#[test]
fn a_dead_connection_is_forgotten_by_the_next_news() {
    let mut server = server();
    let alice = server.joined("alice", "general");
    let bob = server.joined("bob", "general");

    let moment = Moment { id: 99, ts: 1, now: 1 };
    let step = handle_text(
        &mut server.hub,
        &server.store,
        &alice,
        Frame::Message(ClientMessage::Chat {
            text: "есть кто".into(),
            attachment: None,
            reply_to: None,
        }),
        &moment,
        &vec![bob.user.id],
    );

    let reached: Vec<u128> = step.deliveries.iter().map(|d| d.to).collect();
    assert_eq!(reached, [alice.user.id]);
    assert_eq!(server.hub.user_count("general"), 1);
}

#[test]
fn empty_room_is_dropped() {
    let mut server = server();
    let alice = server.joined("alice", "temp");
    assert_eq!(server.hub.user_count("temp"), 1);

    server.hub.leave("temp", alice.user.id, &vec![]);

    assert_eq!(server.hub.room_count(), 0);
}

#[test]
fn full_room_is_rejected() {
    let mut server = server_with(HubConfig { max_room_users: 1, ..HubConfig::default() });
    server.joined("alice", "general");

    assert_eq!(server.refused("bob", "general"), ErrorCode::RoomFull);
}

#[test]
fn too_many_rooms_are_rejected() {
    let mut server = server_with(HubConfig { max_rooms: 1, ..HubConfig::default() });
    server.joined("alice", "one");

    assert_eq!(server.refused("bob", "two"), ErrorCode::ServerFull);
    server.joined("bob", "one");
}

#[test]
fn a_full_server_takes_no_more_connections() {
    let mut server = server_with(HubConfig { max_sockets: 1, ..HubConfig::default() });

    assert!(open_socket(&mut server.hub).is_none());
    assert_eq!(
        open_socket(&mut server.hub),
        Some(ServerMessage::Error {
            code: ErrorCode::ServerFull,
            message: "сервер перегружен, попробуйте позже".to_string(),
        })
    );
    server.hub.release_socket();
    assert!(open_socket(&mut server.hub).is_none());
}

#[test]
fn silent_connection_is_closed_by_join_timeout() {
    let mut server = server();

    let step = join_phase(&mut server.hub, 1, Arrival::Late, 1, &vec![]);

    assert!(matches!(
        step,
        JoinStep::Refuse(ServerMessage::Error { code: ErrorCode::NotJoined, .. })
    ));
    assert_eq!(server.hub.room_count(), 0);
}

#[test]
fn a_connection_that_breaks_before_it_joins_ends() {
    let mut server = server();

    assert!(matches!(
        join_phase(&mut server.hub, 1, Arrival::Lost, 1, &vec![]),
        JoinStep::End
    ));
    assert!(matches!(
        join_phase(&mut server.hub, 1, Arrival::Frame(Frame::Close), 1, &vec![]),
        JoinStep::End
    ));
    assert!(matches!(
        join_phase(&mut server.hub, 1, Arrival::Frame(Frame::Other), 1, &vec![]),
        JoinStep::Wait
    ));
}

#[test]
fn ping_gets_pong() {
    let mut server = server();
    let alice = server.joined("alice", "general");

    let step = server.hand(&alice, Frame::Message(ClientMessage::Ping));

    assert_eq!(step.reply, Some(ServerMessage::Pong));
    assert!(step.open && step.deliveries.is_empty());
}

#[test]
fn broken_json_is_answered_with_error_and_keeps_connection() {
    let mut server = server();
    let alice = server.joined("alice", "general");

    for frame in [Frame::Unreadable, Frame::Binary] {
        let step = server.hand(&alice, frame);

        assert_eq!(reply_code(&step), Some(ErrorCode::InvalidMessage));
        assert!(step.open);
    }
}

#[test]
fn blank_message_is_rejected_and_not_broadcast() {
    let mut server = server();
    let alice = server.joined("alice", "general");
    server.joined("bob", "general");

    let step = server.chat(&alice, "   \n\t ", None, None);

    assert_eq!(reply_code(&step), Some(ErrorCode::InvalidMessage));
    assert!(step.deliveries.is_empty());
}

#[test]
fn leave_closes_the_connection() {
    let mut server = server();
    let alice = server.joined("alice", "general");

    let step = server.hand(&alice, Frame::Message(ClientMessage::Leave));

    assert!(!step.open);
}

#[test]
fn only_one_of_the_racing_nicknames_wins() {
    let mut server = server();

    let winners = (0..16u128)
        .filter(|id| matches!(server.try_join(100 + id, "alice", "general"), JoinStep::Enter { .. }))
        .count();

    assert_eq!(winners, 1, "ник достался более чем одному клиенту");
}

#[test]
fn newcomer_gets_the_room_history() {
    let mut server = server();
    let alice = server.joined("alice", "general");
    server.say(&alice, "первое");
    server.say(&alice, "второе");

    let history = history_of(server.welcome("bob", "general"));

    let texts: Vec<_> = history.iter().map(|msg| msg.text.as_str()).collect();
    assert_eq!(texts, ["первое", "второе"], "порядок должен сохраняться");
}

#[test]
fn history_keeps_only_the_last_messages() {
    let mut server = server_with(HubConfig { history_limit: 2, ..HubConfig::default() });
    let alice = server.joined("alice", "general");
    for text in ["раз", "два", "три"] {
        server.say(&alice, text);
    }

    let history = history_of(server.welcome("bob", "general"));

    let texts: Vec<_> = history.iter().map(|msg| msg.text.as_str()).collect();
    assert_eq!(texts, ["два", "три"]);
}

#[test]
fn history_repeats_message_ids_so_clients_can_deduplicate() {
    let mut server = server();
    let alice = server.joined("alice", "general");
    let sent = server.say(&alice, "привет");

    assert_eq!(history_of(server.welcome("bob", "general")), [sent]);
}

#[test]
fn history_dies_with_the_empty_room() {
    let mut server = server();
    let alice = server.joined("alice", "temp");
    server.say(&alice, "было");
    server.hub.leave("temp", alice.user.id, &vec![]);

    assert!(
        history_of(server.welcome("bob", "temp")).is_empty(),
        "история пережила комнату"
    );
}

#[test]
fn uploaded_image_is_described_by_the_server() {
    let mut server = server();

    let attachment = server.upload("cat.png");

    assert_eq!(attachment.kind, AttachmentKind::Image);
    assert_eq!(attachment.mime, "image/png");
    assert_eq!(attachment.name, "cat.png");
    assert_eq!(attachment.size, PNG.len() as u64);
}

#[test]
fn non_image_upload_is_rejected() {
    let mut store = MediaStore::default();

    let error = store.put("evil.svg", b"<svg onload=alert(1)></svg>".to_vec()).unwrap_err();

    assert_eq!(refusal_status(&error), 415);
}

#[test]
fn message_with_an_attachment_reaches_the_room() {
    let mut server = server();
    let alice = server.joined("alice", "general");
    let uploaded = server.upload("кот.png");

    let message = said(server.chat(&alice, "смотри", Some(uploaded.id), None));

    let attachment = message.attachment.expect("вложение потерялось");
    assert_eq!(attachment, uploaded);
    assert_eq!(attachment.name, "кот.png");
    assert_eq!(attachment.mime, "image/png");
    assert_eq!(message.text, "смотри");
}

#[test]
fn attachment_without_caption_is_allowed() {
    let mut server = server();
    let alice = server.joined("alice", "general");
    let uploaded = server.upload("кот.png");

    let message = said(server.chat(&alice, "", Some(uploaded.id), None));

    assert!(message.text.is_empty());
    assert!(message.attachment.is_some());
}

#[test]
fn unknown_attachment_id_is_rejected() {
    let mut server = server();
    let alice = server.joined("alice", "general");

    let step = server.chat(&alice, "смотри", Some(777_777), None);

    assert_eq!(reply_code(&step), Some(ErrorCode::InvalidMessage));
    assert!(step.deliveries.is_empty());
}

#[test]
fn attachments_survive_in_the_history() {
    let mut server = server();
    let alice = server.joined("alice", "general");
    let uploaded = server.upload("кот.png");
    server.chat(&alice, "", Some(uploaded.id), None);

    let history = history_of(server.welcome("bob", "general"));

    assert_eq!(history[0].attachment.as_ref().unwrap().id, uploaded.id);
}

#[test]
fn reply_carries_a_quote_built_by_the_server() {
    let mut server = server();
    let alice = server.joined("alice", "general");
    let original = server.say(&alice, "привет всем");

    let answer = said(server.chat(&alice, "и тебе", None, Some(original.id)));

    let quote = answer.reply.expect("цитата потерялась");
    assert_eq!(quote.id, original.id);
    assert_eq!(quote.nickname, "alice");
    assert_eq!(quote.excerpt, "привет всем");
}

#[test]
fn reply_to_a_forgotten_message_still_arrives() {
    let mut server = server();
    let alice = server.joined("alice", "general");

    let message = said(server.chat(&alice, "ответ в пустоту", None, Some(777_777)));

    assert_eq!(message.text, "ответ в пустоту");
    assert!(message.reply.is_none());
}

#[test]
fn quote_of_a_picture_uses_its_name() {
    let mut server = server();
    let alice = server.joined("alice", "general");
    let uploaded = server.upload("кот.png");
    let picture = said(server.chat(&alice, "", Some(uploaded.id), None));

    let answer = said(server.chat(&alice, "красивый", None, Some(picture.id)));

    assert_eq!(answer.reply.unwrap().excerpt, "кот.png");
}

#[test]
fn long_quote_is_trimmed() {
    let mut server = server();
    let alice = server.joined("alice", "general");
    let original = server.say(&alice, &"я".repeat(200));

    let answer = said(server.chat(&alice, "ого", None, Some(original.id)));

    assert_eq!(answer.reply.unwrap().excerpt.chars().count(), REPLY_EXCERPT_CHARS);
}

#[test]
fn typing_is_passed_on_but_not_too_often() {
    let mut server = server();
    let alice = server.joined("alice", "general");
    let bob = server.joined("bob", "general");

    let first = server.hand_at(&alice, Frame::Message(ClientMessage::Typing), 5_000);
    let soon = server.hand_at(&alice, Frame::Message(ClientMessage::Typing), 5_000 + TYPING_GAP - 1);
    let later = server.hand_at(&alice, Frame::Message(ClientMessage::Typing), 5_000 + TYPING_GAP);

    assert_eq!(first.deliveries.len(), 1);
    assert_eq!(first.deliveries[0].to, bob.user.id);
    assert!(soon.deliveries.is_empty());
    assert_eq!(later.deliveries.len(), 1);
}

#[test]
fn rooms_are_told_in_the_order_of_their_names() {
    let mut server = server();
    server.joined("alice", "talk");
    server.joined("bob", "talk");
    server.joined("carol", "rust");

    let rooms: Vec<(String, usize)> =
        server.hub.rooms_summary().into_iter().map(|room| (room.name, room.users)).collect();

    assert_eq!(rooms, [("rust".to_string(), 1), ("talk".to_string(), 2)]);
}

fn png(size: usize) -> Vec<u8> {
    let mut bytes = b"\x89PNG\r\n\x1a\n".to_vec();
    bytes.resize(size.max(8), 0);
    bytes
}

#[test]
fn stores_and_returns_a_file() {
    let mut store = MediaStore::default();

    let attachment = store.put("кот.png", png(64)).unwrap();

    assert_eq!(attachment.mime, "image/png");
    assert_eq!(attachment.name, "кот.png");
    assert_eq!(attachment.size, 64);
    assert_eq!(store.get(attachment.id).unwrap().bytes.len(), 64);
    assert_eq!(store.describe(attachment.id).unwrap(), attachment);
}

#[test]
fn two_files_are_never_mixed_up() {
    let mut store = MediaStore::default();

    let first = store.put("первый.png", png(64)).unwrap();
    let second = store.put("второй.png", png(32)).unwrap();

    assert_ne!(first.id, second.id);
    assert_eq!(store.len(), 2);
}

#[test]
fn type_comes_from_content_not_from_the_name() {
    let mut store = MediaStore::default();

    let attachment = store.put("документ.jpg", png(32)).unwrap();

    assert_eq!(attachment.mime, "image/png");
}

#[test]
fn rejects_anything_that_is_not_an_image() {
    let mut store = MediaStore::default();

    let script = b"<svg onload=alert(1)></svg>".to_vec();

    assert_eq!(store.put("картинка.svg", script), Err(MediaError::UnsupportedType));
    assert!(store.is_empty());
}

#[test]
fn recognizes_what_browsers_record_from_the_microphone() {
    let mut store = MediaStore::default();
    let webm = vec![0x1A, 0x45, 0xDF, 0xA3, 0, 0, 0, 0];
    let ogg = b"OggS       ".to_vec();
    let mp4 = b"    ftypisom   ".to_vec();

    for (bytes, expected) in [(webm, "audio/webm"), (ogg, "audio/ogg"), (mp4, "audio/mp4")] {
        let attachment = store.put("голосовое", bytes).unwrap();
        assert_eq!(attachment.mime, expected);
        assert_eq!(attachment.kind, AttachmentKind::Audio);
    }
}

#[test]
fn rejects_oversized_files() {
    let mut store = MediaStore::default();

    let huge = png(MAX_UPLOAD_BYTES + 1);

    let error = store.put("огромный.png", huge).unwrap_err();
    assert!(matches!(error, MediaError::TooLarge { .. }));
    assert_eq!(refusal_status(&error), 413);
}

#[test]
fn oldest_files_are_evicted_when_the_space_runs_out() {
    let mut store = MediaStore::new(1000);

    let first = store.put("первый.png", png(600)).unwrap();
    let second = store.put("второй.png", png(600)).unwrap();

    assert!(store.get(first.id).is_none(), "старый файл не вытеснен");
    assert!(store.get(second.id).is_some());
}

#[test]
fn unknown_id_is_not_described() {
    let store = MediaStore::default();

    assert!(store.describe(uuid::Uuid::new_v4().as_u128()).is_none());
}

fn address(a: u8, b: u8, c: u8, d: u8) -> Address {
    Address { a, b, c, d }
}

fn outward(place: Address) -> Interface {
    Interface { loopback: false, address: Some(place) }
}

#[test]
fn home_network_address_comes_first() {
    let mut addresses = [address(172, 18, 0, 1), address(10, 0, 0, 5), address(192, 168, 1, 40)];

    addresses.sort_by_key(|ip| (rank(*ip), [ip.a, ip.b, ip.c, ip.d]));

    assert_eq!(addresses[0], address(192, 168, 1, 40));
    assert_eq!(
        local_ips(&vec![
            outward(address(172, 18, 0, 1)),
            outward(address(10, 0, 0, 5)),
            outward(address(192, 168, 1, 40)),
        ]),
        addresses
    );
}

#[test]
fn only_private_addresses_are_offered() {
    let found = vec![
        Interface { loopback: true, address: Some(address(192, 168, 7, 7)) },
        Interface { loopback: false, address: None },
        outward(address(8, 8, 8, 8)),
        outward(address(172, 32, 0, 1)),
        outward(address(172, 31, 0, 1)),
        outward(address(192, 168, 1, 40)),
        outward(address(192, 168, 1, 40)),
        outward(address(192, 168, 1, 5)),
    ];

    let offered = local_ips(&found);

    assert_eq!(
        offered,
        [address(192, 168, 1, 5), address(192, 168, 1, 40), address(172, 31, 0, 1)]
    );
    for ip in offered {
        assert!(ip.is_private(), "публичный адрес в подсказке: {ip:?}");
    }
}

#[test]
fn invitation_names_the_port_and_the_addresses() {
    let hosted = Hosted::at(8080, None);

    let lines = hosted.invitations(&vec![address(192, 168, 1, 5)]);

    assert_eq!(hosted.url, "ws://127.0.0.1:8080/ws");
    assert!(lines[0].contains("8080"), "{lines:?}");
    assert_eq!(lines.len(), 3);
    assert_eq!(
        lines[2],
        "кто рядом: --server ws://192.168.1.5:8080/ws · с телефона http://192.168.1.5:8080"
    );
    let far = Hosted::at(9, Some("тикет".to_string())).invitations(&vec![]);
    assert_eq!(far[2], "тикет");
}

#[test]
fn a_certificate_names_every_address() {
    assert_eq!(
        certificate_names(&vec![address(10, 0, 0, 5)]),
        ["localhost", "127.0.0.1", "10.0.0.5"]
    );
}

#[test]
fn a_server_says_where_it_is() {
    assert_eq!(
        announce("https", 8080, &vec![address(10, 0, 0, 5)]),
        ["слушаю https://localhost:8080", "с телефона: https://10.0.0.5:8080"]
    );
}

#[test]
fn encryption_is_asked_for_by_a_value() {
    assert_eq!(tls_dir(None, None), None);
    assert_eq!(tls_dir(Some(String::new()), None), None);
    assert_eq!(tls_dir(Some("0".into()), Some("там".into())), None);
    assert_eq!(tls_dir(Some("1".into()), None), Some("tls".to_string()));
    assert_eq!(tls_dir(Some("1".into()), Some("там".into())), Some("там".to_string()));
}

#[test]
fn media_is_served_with_headers_that_prevent_execution() {
    let mut store = MediaStore::new(1024);
    let attachment = store.put("cat.png", png(64)).unwrap();
    let file = store.get(attachment.id).unwrap();

    let headers = media_headers(file.mime);

    let find = |name: &str| {
        headers.iter().find(|(found, _)| found == name).map(|(_, value)| value.as_str())
    };
    assert_eq!(find("content-type"), Some("image/png"));
    assert_eq!(find("x-content-type-options"), Some("nosniff"));
    assert_eq!(find("content-disposition"), Some("inline"));
    assert_eq!(find("cache-control"), Some("public, max-age=31536000, immutable"));
}

#[test]
fn unknown_media_is_not_found() {
    let mut store = MediaStore::new(1024);
    let attachment = store.put("cat.png", png(64)).unwrap();
    assert!(store.get(attachment.id.wrapping_add(1)).is_none());
    assert!(store.get(attachment.id).is_some());
}

#[test]
fn a_certificate_is_made_once() {
    let files = null_terminal::host::Certificate::files();
    assert_eq!((files.cert.as_str(), files.key.as_str()), ("cert.pem", "key.pem"));
    assert!(!null_terminal::host::Certificate::is_due(true, true));
    assert!(null_terminal::host::Certificate::is_due(true, false));
    assert!(null_terminal::host::Certificate::is_due(false, true));
    assert!(null_terminal::host::Certificate::is_due(false, false));
}

#[test]
fn connections_get_numbers_of_their_own() {
    let mut server = server_with(HubConfig { max_sockets: 2, ..HubConfig::default() });

    let first = let_in(&mut server.hub).unwrap();
    let second = let_in(&mut server.hub).unwrap();

    assert_ne!(first, second);
    assert_ne!(first, 0);
    assert!(matches!(
        let_in(&mut server.hub),
        Err(ServerMessage::Error { code: ErrorCode::ServerFull, .. })
    ));
}

#[test]
fn a_message_gets_its_number_and_its_time_from_the_server() {
    let mut server = server();
    let alice = server.joined("alice", "general");
    let mut ids = Vec::new();
    for text in ["раз", "два"] {
        let frame = Frame::Message(ClientMessage::Chat {
            text: text.to_string(),
            attachment: None,
            reply_to: None,
        });
        let step =
            take_frame(&mut server.hub, &server.store, &alice, frame, 5_000, &vec![]);
        let message = said(step);
        assert_eq!(message.text, text);
        assert!(message.ts > 1_577_836_800_000);
        ids.push(message.id);
    }
    assert_ne!(ids[0], ids[1]);
    let history = history_of(server.welcome("bob", "general"));
    assert_eq!(history.iter().map(|message| message.id).collect::<Vec<_>>(), ids);
}

#[test]
fn a_room_left_by_all_its_sockets_is_given_up() {
    let mut server = server();
    let alice = server.joined("alice", "general");
    server.joined("bob", "rust");
    assert_eq!(server.hub.room_count(), 2);
    let summary = server.hub.rooms_summary();
    assert_eq!(
        summary.iter().map(|room| (room.name.as_str(), room.users)).collect::<Vec<_>>(),
        [("general", 1), ("rust", 1)]
    );

    let moment = Moment { id: server.fresh(), ts: 1_700_000_000_000, now: 5_000 };
    let frame = Frame::Message(ClientMessage::Chat {
        text: "есть кто?".to_string(),
        attachment: None,
        reply_to: None,
    });
    let step =
        handle_text(&mut server.hub, &server.store, &alice, frame, &moment, &vec![alice.user.id]);

    assert!(step.deliveries.is_empty());
    assert_eq!(server.hub.room_count(), 1);
    assert_eq!(server.hub.user_count("general"), 0);
    let summary = server.hub.rooms_summary();
    assert_eq!(summary.iter().map(|room| room.name.as_str()).collect::<Vec<_>>(), ["rust"]);
}

#[test]
fn many_uploads_leave_the_newest_that_fit() {
    let mut store = MediaStore::new(100);
    let ids: Vec<u128> =
        [40, 30, 50, 20].iter().map(|size| store.put("f.png", png(*size)).unwrap().id).collect();

    assert_eq!(
        ids.iter().map(|id| store.get(*id).is_some()).collect::<Vec<_>>(),
        [false, true, true, true]
    );
}
