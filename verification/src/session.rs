//! One connection to the server, from its first frame to its last.
//!
//! A connection lives in two phases. Before it has joined a room it belongs
//! nowhere and only tries to name itself. Afterwards it is a full member of
//! exactly one room.
use crate::clock::now_ms;
use crate::hub::{Delivery, DeliveryView, Hub, HubView};
use crate::ids::fresh_id;
use crate::protocol::{
    AttachmentView, ChatMessage, ChatMessageView, ClientMessage, ClientMessageView, ErrorCode,
    ServerMessage, ServerMessageView, UserInfo, UserInfoView,
};
use crate::store::{MediaStore, StoreView};
use crate::validate::{
    clean_nickname, clean_room, clean_text, cleaned_nickname, cleaned_room, cleaned_text,
    ValidationError,
};
use vstd::prelude::*;

verus! {

/// What came over the wire.
pub enum Frame {
    Message(ClientMessage),
    /// A text that is no message.
    Unreadable,
    Binary,
    Close,
    Other,
}

pub enum FrameView {
    Message(ClientMessageView),
    Unreadable,
    Binary,
    Close,
    Other,
}

impl DeepView for Frame {
    type V = FrameView;

    open spec fn deep_view(&self) -> FrameView {
        match self {
            Frame::Message(message) => FrameView::Message(message.deep_view()),
            Frame::Unreadable => FrameView::Unreadable,
            Frame::Binary => FrameView::Binary,
            Frame::Close => FrameView::Close,
            Frame::Other => FrameView::Other,
        }
    }
}

/// What happened while a connection was expected to name itself.
pub enum Arrival {
    Frame(Frame),
    /// The time was over.
    Late,
    /// The connection broke.
    Lost,
}

pub enum ArrivalView {
    Frame(FrameView),
    Late,
    Lost,
}

impl DeepView for Arrival {
    type V = ArrivalView;

    open spec fn deep_view(&self) -> ArrivalView {
        match self {
            Arrival::Frame(frame) => ArrivalView::Frame(frame.deep_view()),
            Arrival::Late => ArrivalView::Late,
            Arrival::Lost => ArrivalView::Lost,
        }
    }
}

/// Somebody who has joined a room.
pub struct Session {
    pub user: UserInfo,
    pub room: String,
}

pub struct SessionView {
    pub user: UserInfoView,
    pub room: Seq<char>,
}

impl DeepView for Session {
    type V = SessionView;

    open spec fn deep_view(&self) -> SessionView {
        SessionView { user: self.user.deep_view(), room: self.room@ }
    }
}

/// What to do about a connection that has not joined yet.
pub enum JoinStep {
    /// Nothing: wait for the next frame.
    Wait,
    /// Send this and wait for the next frame.
    Answer(ServerMessage),
    /// Send this and close.
    Refuse(ServerMessage),
    /// Close.
    End,
    /// It is in. The welcome goes out before anything else; the notices go to the
    /// others.
    Enter { session: Session, welcome: ServerMessage, notices: Vec<Delivery> },
}

/// What is due to a connection that has not joined yet.
pub enum JoinPlan {
    Wait,
    Answer(ServerMessageView),
    Refuse(ServerMessageView),
    End,
    Enter { nickname: Seq<char>, room: Seq<char> },
}

/// An error in a plan.
pub open spec fn failure(code: ErrorCode, message: Seq<char>) -> ServerMessageView {
    ServerMessageView::Error { code, message }
}

/// What an attempt to join comes to.
pub open spec fn join_attempt(
    hub: HubView,
    id: u128,
    nickname: Seq<char>,
    room: Seq<char>,
) -> JoinPlan {
    match cleaned_nickname(nickname) {
        Err(problem) => JoinPlan::Answer(failure(ErrorCode::InvalidNickname, problem.sentence())),
        Ok(nickname) => match cleaned_room(room) {
            Err(problem) => JoinPlan::Answer(failure(ErrorCode::InvalidRoom, problem.sentence())),
            Ok(room) => match hub.refusal(room, UserInfoView { id, nickname }) {
                Some(refusal) => JoinPlan::Answer(failure(refusal.code, refusal.message)),
                None => JoinPlan::Enter { nickname, room },
            },
        },
    }
}

/// What is due before a connection has joined.
pub open spec fn join_plan(hub: HubView, id: u128, arrival: ArrivalView) -> JoinPlan {
    match arrival {
        ArrivalView::Late => JoinPlan::Refuse(
            failure(ErrorCode::NotJoined, "join не получен вовремя"@),
        ),
        ArrivalView::Lost => JoinPlan::End,
        ArrivalView::Frame(frame) => match frame {
            FrameView::Close => JoinPlan::End,
            FrameView::Other => JoinPlan::Wait,
            FrameView::Binary => JoinPlan::Answer(
                failure(ErrorCode::InvalidMessage, "ожидается текстовый JSON-кадр"@),
            ),
            FrameView::Unreadable => JoinPlan::Answer(
                failure(ErrorCode::InvalidMessage, "не удалось разобрать сообщение"@),
            ),
            FrameView::Message(message) => match message {
                ClientMessageView::Leave => JoinPlan::End,
                ClientMessageView::Typing => JoinPlan::Wait,
                ClientMessageView::Ping => JoinPlan::Answer(ServerMessageView::Pong),
                ClientMessageView::Chat { text, attachment, reply_to } => JoinPlan::Answer(
                    failure(ErrorCode::NotJoined, "сначала нужно войти в комнату"@),
                ),
                ClientMessageView::Join { nickname, room } => join_attempt(hub, id, nickname, room),
            },
        },
    }
}

/// The first word to somebody who has joined.
pub open spec fn welcome(
    hub: HubView,
    id: u128,
    nickname: Seq<char>,
    room: Seq<char>,
    closed: Seq<u128>,
    upload_limit: u64,
) -> ServerMessageView {
    ServerMessageView::Welcome {
        your_id: id,
        room,
        nickname,
        users: hub.others_in(room, closed),
        history: hub.room(room).history,
        upload_limit,
    }
}

/// Takes a place for a connection. Where there is none left, the answer says so
/// and the connection is closed.
pub fn open_socket(hub: &mut Hub) -> (r: Option<ServerMessage>)
    ensures
        match r {
            None => {
                &&& old(hub).deep_view().sockets < old(hub).deep_view().config.max_sockets
                &&& final(hub).deep_view() == (HubView {
                    sockets: (old(hub).deep_view().sockets + 1) as usize,
                    ..old(hub).deep_view()
                })
            },
            Some(answer) => {
                &&& old(hub).deep_view().sockets >= old(hub).deep_view().config.max_sockets
                &&& final(hub).deep_view() == old(hub).deep_view()
                &&& answer.deep_view() == failure(
                    ErrorCode::ServerFull,
                    "сервер перегружен, попробуйте позже"@,
                )
            },
        },
{
    if hub.reserve_socket() {
        None
    } else {
        Some(ServerMessage::error(ErrorCode::ServerFull, "сервер перегружен, попробуйте позже"))
    }
}

/// Takes a place for a connection and gives it a number of its own, which nobody can say
/// beforehand; or says that there is no place left.
pub fn let_in(hub: &mut Hub) -> (r: Result<u128, ServerMessage>)
    ensures
        match r {
            Ok(_) => {
                &&& old(hub).deep_view().sockets < old(hub).deep_view().config.max_sockets
                &&& final(hub).deep_view() == (HubView {
                    sockets: (old(hub).deep_view().sockets + 1) as usize,
                    ..old(hub).deep_view()
                })
            },
            Err(answer) => {
                &&& old(hub).deep_view().sockets >= old(hub).deep_view().config.max_sockets
                &&& final(hub).deep_view() == old(hub).deep_view()
                &&& answer.deep_view() == failure(
                    ErrorCode::ServerFull,
                    "сервер перегружен, попробуйте позже"@,
                )
            },
        },
{
    match open_socket(hub) {
        None => Ok(fresh_id()),
        Some(answer) => Err(answer),
    }
}

/// Decides what to do about a connection that has not joined yet.
///
/// A failed attempt does not end it: a client can ask for another name and try
/// again.
pub fn join_phase(
    hub: &mut Hub,
    id: u128,
    arrival: Arrival,
    upload_limit: u64,
    closed: &Vec<u128>,
) -> (step: JoinStep)
    ensures
        match join_plan(old(hub).deep_view(), id, arrival.deep_view()) {
            JoinPlan::Wait => step is Wait && final(hub).deep_view() == old(hub).deep_view(),
            JoinPlan::Answer(message) => {
                &&& step matches JoinStep::Answer(answer)
                &&& answer.deep_view() == message
                &&& final(hub).deep_view() == old(hub).deep_view()
            },
            JoinPlan::Refuse(message) => {
                &&& step matches JoinStep::Refuse(answer)
                &&& answer.deep_view() == message
                &&& final(hub).deep_view() == old(hub).deep_view()
            },
            JoinPlan::End => step is End && final(hub).deep_view() == old(hub).deep_view(),
            JoinPlan::Enter { nickname, room } => {
                let user = UserInfoView { id, nickname };
                &&& step matches JoinStep::Enter { session, welcome: first, notices }
                &&& session.user.deep_view() == user
                &&& session.room@ == room
                &&& first.deep_view() == welcome(
                    old(hub).deep_view(),
                    id,
                    nickname,
                    room,
                    closed@,
                    upload_limit,
                )
                &&& notices.deep_view() == old(hub).deep_view().join_notices(room, user, closed@)
                &&& final(hub).deep_view() == old(hub).deep_view().joined(room, user, closed@)
            },
        },
{
    let frame = match arrival {
        Arrival::Late => {
            return JoinStep::Refuse(
                ServerMessage::error(ErrorCode::NotJoined, "join не получен вовремя"),
            );
        },
        Arrival::Lost => {
            return JoinStep::End;
        },
        Arrival::Frame(frame) => frame,
    };
    let message = match frame {
        Frame::Message(message) => message,
        Frame::Close => {
            return JoinStep::End;
        },
        Frame::Binary => {
            return JoinStep::Answer(
                ServerMessage::error(ErrorCode::InvalidMessage, "ожидается текстовый JSON-кадр"),
            );
        },
        Frame::Unreadable => {
            return JoinStep::Answer(
                ServerMessage::error(ErrorCode::InvalidMessage, "не удалось разобрать сообщение"),
            );
        },
        Frame::Other => {
            return JoinStep::Wait;
        },
    };
    let (nickname, room) = match message {
        ClientMessage::Join { nickname, room } => (nickname, room),
        ClientMessage::Leave => {
            return JoinStep::End;
        },
        ClientMessage::Typing => {
            return JoinStep::Wait;
        },
        ClientMessage::Ping => {
            return JoinStep::Answer(ServerMessage::Pong);
        },
        ClientMessage::Chat { text, attachment, reply_to } => {
            return JoinStep::Answer(
                ServerMessage::error(ErrorCode::NotJoined, "сначала нужно войти в комнату"),
            );
        },
    };
    let nickname = match clean_nickname(nickname.as_str()) {
        Ok(nickname) => nickname,
        Err(error) => {
            return JoinStep::Answer(
                ServerMessage::error(ErrorCode::InvalidNickname, error.sentence().as_str()),
            );
        },
    };
    let room = match clean_room(room.as_str()) {
        Ok(room) => room,
        Err(error) => {
            return JoinStep::Answer(
                ServerMessage::error(ErrorCode::InvalidRoom, error.sentence().as_str()),
            );
        },
    };
    let user = UserInfo { id, nickname: nickname.clone() };
    match hub.join(room.as_str(), user.clone(), closed) {
        Err(refusal) => JoinStep::Answer(
            ServerMessage::error(refusal.code, refusal.message.as_str()),
        ),
        Ok(joined) => JoinStep::Enter {
            session: Session { user, room: room.clone() },
            welcome: ServerMessage::Welcome {
                your_id: id,
                room,
                nickname,
                users: joined.others,
                history: joined.history,
                upload_limit,
            },
            notices: joined.notices,
        },
    }
}

/// What is known only at the moment at which a frame is handled.
pub struct Moment {
    /// The identifier for a message, should one be posted.
    pub id: u128,
    /// Unix time in milliseconds. Only the server sets it: the clocks of clients
    /// are not trusted.
    pub ts: i64,
    /// Milliseconds on a clock that never goes back.
    pub now: u64,
}

/// What is due to a member of a room.
pub enum TalkPlan {
    Nothing,
    Close,
    Reply(ServerMessageView),
    Typing,
    Post { text: Seq<char>, attachment: Option<AttachmentView>, reply_to: Option<u128> },
}

/// What a message from a member comes to.
pub open spec fn chat_plan(
    store: StoreView,
    text: Seq<char>,
    attachment: Option<u128>,
    reply_to: Option<u128>,
) -> TalkPlan {
    let found = match attachment {
        Some(id) => match store.found(id) {
            Some(entry) => Some(entry.attachment),
            None => None,
        },
        None => None,
    };
    if attachment is Some && found is None {
        TalkPlan::Reply(
            failure(ErrorCode::InvalidMessage, "вложение не найдено, загрузите файл заново"@),
        )
    } else {
        match cleaned_text(text) {
            Ok(text) => TalkPlan::Post { text, attachment: found, reply_to },
            Err(problem) => if problem is Empty && found is Some {
                TalkPlan::Post { text: Seq::empty(), attachment: found, reply_to }
            } else {
                TalkPlan::Reply(failure(ErrorCode::InvalidMessage, problem.sentence()))
            },
        }
    }
}

/// What a frame from a member comes to.
pub open spec fn talk_plan(store: StoreView, frame: FrameView) -> TalkPlan {
    match frame {
        FrameView::Close => TalkPlan::Nothing,
        FrameView::Other => TalkPlan::Nothing,
        FrameView::Binary => TalkPlan::Reply(
            failure(ErrorCode::InvalidMessage, "ожидается текстовый JSON-кадр"@),
        ),
        FrameView::Unreadable => TalkPlan::Reply(
            failure(ErrorCode::InvalidMessage, "не удалось разобрать сообщение"@),
        ),
        FrameView::Message(message) => match message {
            ClientMessageView::Leave => TalkPlan::Close,
            ClientMessageView::Typing => TalkPlan::Typing,
            ClientMessageView::Ping => TalkPlan::Reply(ServerMessageView::Pong),
            ClientMessageView::Join { nickname, room } => TalkPlan::Reply(
                failure(
                    ErrorCode::AlreadyJoined,
                    "смена комнаты в одном соединении не поддерживается"@,
                ),
            ),
            ClientMessageView::Chat { text, attachment, reply_to } => chat_plan(
                store,
                text,
                attachment,
                reply_to,
            ),
        },
    }
}

/// What to do about a frame from a member.
pub struct TalkStep {
    /// Whether the connection stays open.
    pub open: bool,
    /// What goes back to the member alone.
    pub reply: Option<ServerMessage>,
    /// What goes to the room.
    pub deliveries: Vec<Delivery>,
}

pub struct TalkStepView {
    pub open: bool,
    pub reply: Option<ServerMessageView>,
    pub deliveries: Seq<DeliveryView>,
}

impl DeepView for TalkStep {
    type V = TalkStepView;

    open spec fn deep_view(&self) -> TalkStepView {
        TalkStepView {
            open: self.open,
            reply: self.reply.deep_view(),
            deliveries: self.deliveries.deep_view(),
        }
    }
}

/// What a frame from a member does to the rooms, and what is due to it: whatever is not a
/// message to the room or a sign of typing leaves the rooms as they are.
pub open spec fn talked(
    before: HubView,
    after: HubView,
    store: StoreView,
    session: SessionView,
    frame: FrameView,
    moment: Moment,
    closed: Seq<u128>,
    step: TalkStepView,
) -> bool {
    let plan = talk_plan(store, frame);
    &&& step.open <==> !(plan is Close)
    &&& match plan {
        TalkPlan::Nothing | TalkPlan::Close => {
            &&& step.reply is None
            &&& step.deliveries == Seq::<DeliveryView>::empty()
            &&& after == before
        },
        TalkPlan::Reply(message) => {
            &&& step.reply == Some(message)
            &&& step.deliveries == Seq::<DeliveryView>::empty()
            &&& after == before
        },
        TalkPlan::Typing => {
            &&& step.reply is None
            &&& step.deliveries == before.typing_notices(
                session.room,
                session.user,
                moment.now,
                closed,
            )
            &&& after == before.typed(session.room, session.user.id, moment.now, closed)
        },
        TalkPlan::Post { text, attachment, reply_to } => {
            let message = ChatMessageView {
                id: moment.id,
                from: session.user,
                text,
                ts: moment.ts,
                attachment,
                reply: None,
            };
            &&& step.reply is None
            &&& step.deliveries == before.post_notices(session.room, message, reply_to, closed)
            &&& after == before.posted(session.room, message, reply_to, closed)
        },
    }
}

/// Decides what to do about a frame from a member of a room.
pub fn handle_text(
    hub: &mut Hub,
    store: &MediaStore,
    session: &Session,
    frame: Frame,
    moment: &Moment,
    closed: &Vec<u128>,
) -> (step: TalkStep)
    ensures
        talked(
            old(hub).deep_view(),
            final(hub).deep_view(),
            store.deep_view(),
            session.deep_view(),
            frame.deep_view(),
            *moment,
            closed@,
            step.deep_view(),
        ),
{
    let nothing: Vec<Delivery> = Vec::new();
    assert(nothing.deep_view() =~= Seq::empty());
    let message = match frame {
        Frame::Message(message) => message,
        Frame::Unreadable => {
            return TalkStep {
                open: true,
                reply: Some(
                    ServerMessage::error(
                        ErrorCode::InvalidMessage,
                        "не удалось разобрать сообщение",
                    ),
                ),
                deliveries: nothing,
            };
        },
        Frame::Binary => {
            return TalkStep {
                open: true,
                reply: Some(
                    ServerMessage::error(
                        ErrorCode::InvalidMessage,
                        "ожидается текстовый JSON-кадр",
                    ),
                ),
                deliveries: nothing,
            };
        },
        Frame::Close | Frame::Other => {
            return TalkStep { open: true, reply: None, deliveries: nothing };
        },
    };
    match message {
        ClientMessage::Chat { text, attachment, reply_to } => {
            // Name, size and type come from the store, never from the client.
            let found = match attachment {
                Some(id) => store.describe(id),
                None => None,
            };
            if attachment.is_some() && found.is_none() {
                return TalkStep {
                    open: true,
                    reply: Some(
                        ServerMessage::error(
                            ErrorCode::InvalidMessage,
                            "вложение не найдено, загрузите файл заново",
                        ),
                    ),
                    deliveries: nothing,
                };
            }
            let text = match clean_text(text.as_str()) {
                Ok(text) => text,
                Err(error) => {
                    let empty = match &error {
                        ValidationError::Empty { field } => true,
                        _ => false,
                    };
                    if empty && found.is_some() {
                        // A picture without a caption is all right.
                        String::new()
                    } else {
                        return TalkStep {
                            open: true,
                            reply: Some(
                                ServerMessage::error(
                                    ErrorCode::InvalidMessage,
                                    error.sentence().as_str(),
                                ),
                            ),
                            deliveries: nothing,
                        };
                    }
                },
            };
            let posted = ChatMessage {
                id: moment.id,
                from: session.user.clone(),
                text,
                ts: moment.ts,
                attachment: found,
                reply: None,
            };
            let deliveries = hub.post(session.room.as_str(), posted, reply_to, closed);
            TalkStep { open: true, reply: None, deliveries }
        },
        ClientMessage::Typing => {
            let deliveries = hub.typing(session.room.as_str(), &session.user, moment.now, closed);
            TalkStep { open: true, reply: None, deliveries }
        },
        ClientMessage::Ping => TalkStep {
            open: true,
            reply: Some(ServerMessage::Pong),
            deliveries: nothing,
        },
        ClientMessage::Leave => TalkStep { open: false, reply: None, deliveries: nothing },
        ClientMessage::Join { nickname, room } => TalkStep {
            open: true,
            reply: Some(
                ServerMessage::error(
                    ErrorCode::AlreadyJoined,
                    "смена комнаты в одном соединении не поддерживается",
                ),
            ),
            deliveries: nothing,
        },
    }
}

/// Decides what to do about a frame from a member of a room, now: a message gets a fresh
/// identifier and the time of the server. What these are, nobody can say beforehand.
pub fn take_frame(
    hub: &mut Hub,
    store: &MediaStore,
    session: &Session,
    frame: Frame,
    now: u64,
    closed: &Vec<u128>,
) -> (step: TalkStep)
    ensures
        exists|moment: Moment|
            moment.now == now && #[trigger] talked(
                old(hub).deep_view(),
                final(hub).deep_view(),
                store.deep_view(),
                session.deep_view(),
                frame.deep_view(),
                moment,
                closed@,
                step.deep_view(),
            ),
{
    let moment = Moment { id: fresh_id(), ts: now_ms(), now };
    handle_text(hub, store, session, frame, &moment, closed)
}

/// Before it has joined, whatever a connection sends but a join that succeeds
/// leaves the rooms as they are, and it hears nothing from them.
pub proof fn law_outsiders_change_nothing(hub: HubView, id: u128, frame: FrameView)
    requires
        !(frame matches FrameView::Message(ClientMessageView::Join { nickname, room })),
    ensures
        !(join_plan(hub, id, ArrivalView::Frame(frame)) is Enter),
{
}

/// A refused attempt can be repeated on the same connection: the plan is to
/// answer, never to close.
pub proof fn law_refusal_keeps_the_connection(
    hub: HubView,
    id: u128,
    nickname: Seq<char>,
    room: Seq<char>,
)
    ensures
        ({
            let plan = join_plan(
                hub,
                id,
                ArrivalView::Frame(FrameView::Message(ClientMessageView::Join { nickname, room })),
            );
            plan is Answer || plan is Enter
        }),
{
}

/// A message is posted with the description that the store has of its attachment,
/// so its name, size and type cannot be made up.
pub proof fn law_attachments_are_genuine(
    store: StoreView,
    text: Seq<char>,
    attachment: Option<u128>,
    reply_to: Option<u128>,
)
    ensures
        chat_plan(store, text, attachment, reply_to) matches TalkPlan::Post {
            attachment: shown,
            ..
        } ==> match attachment {
            Some(id) => store.found(id) is Some && shown == Some(store.found(id)->0.attachment),
            None => shown is None,
        },
{
}

} // verus!
