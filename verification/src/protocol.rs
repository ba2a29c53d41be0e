//! The messages that clients and the server exchange.
//!
//! Identifiers are plain 128-bit numbers here; on the wire they are written the
//! way UUIDs are written.
use vstd::prelude::*;

verus! {

/// The identifier of a user. A name can change, an identifier cannot.
pub type UserId = u128;

/// How many characters of a message a quote shows.
pub const REPLY_EXCERPT_CHARS: usize = 60;

/// A user the way the others are shown them.
#[derive(Debug, PartialEq, Eq)]
pub struct UserInfo {
    pub id: u128,
    pub nickname: String,
}

pub struct UserInfoView {
    pub id: u128,
    pub nickname: Seq<char>,
}

impl DeepView for UserInfo {
    type V = UserInfoView;

    open spec fn deep_view(&self) -> UserInfoView {
        UserInfoView { id: self.id, nickname: self.nickname@ }
    }
}

impl Clone for UserInfo {
    fn clone(&self) -> (r: Self)
        ensures
            r.deep_view() == self.deep_view(),
    {
        UserInfo { id: self.id, nickname: self.nickname.clone() }
    }
}

/// How an attachment is shown. What it holds is said by its `mime`.
#[derive(Debug, Clone, Copy, PartialEq, Eq, Structural)]
pub enum AttachmentKind {
    Image,
    Audio,
    File,
}

/// A file that goes with a message.
///
/// The bytes do not travel over the socket: a message carries only this
/// description.
#[derive(Debug, PartialEq, Eq)]
pub struct Attachment {
    pub id: u128,
    pub kind: AttachmentKind,
    pub name: String,
    pub size: u64,
    /// Found by the server in the contents, not taken from what a client says.
    pub mime: String,
}

pub struct AttachmentView {
    pub id: u128,
    pub kind: AttachmentKind,
    pub name: Seq<char>,
    pub size: u64,
    pub mime: Seq<char>,
}

impl DeepView for Attachment {
    type V = AttachmentView;

    open spec fn deep_view(&self) -> AttachmentView {
        AttachmentView {
            id: self.id,
            kind: self.kind,
            name: self.name@,
            size: self.size,
            mime: self.mime@,
        }
    }
}

impl Clone for Attachment {
    fn clone(&self) -> (r: Self)
        ensures
            r.deep_view() == self.deep_view(),
    {
        Attachment {
            id: self.id,
            kind: self.kind,
            name: self.name.clone(),
            size: self.size,
            mime: self.mime.clone(),
        }
    }
}

/// A piece of the message that is answered.
///
/// The server puts it together: a client sends only an identifier, so nobody can
/// be quoted with words that they did not write.
#[derive(Debug, PartialEq, Eq)]
pub struct ReplyPreview {
    pub id: u128,
    pub nickname: String,
    pub excerpt: String,
}

pub struct ReplyPreviewView {
    pub id: u128,
    pub nickname: Seq<char>,
    pub excerpt: Seq<char>,
}

impl DeepView for ReplyPreview {
    type V = ReplyPreviewView;

    open spec fn deep_view(&self) -> ReplyPreviewView {
        ReplyPreviewView { id: self.id, nickname: self.nickname@, excerpt: self.excerpt@ }
    }
}

impl Clone for ReplyPreview {
    fn clone(&self) -> (r: Self)
        ensures
            r.deep_view() == self.deep_view(),
    {
        ReplyPreview {
            id: self.id,
            nickname: self.nickname.clone(),
            excerpt: self.excerpt.clone(),
        }
    }
}

/// One message in a room.
#[derive(Debug, PartialEq, Eq)]
pub struct ChatMessage {
    /// By it clients drop what they have already shown.
    pub id: u128,
    pub from: UserInfo,
    pub text: String,
    /// Unix time in milliseconds, UTC.
    pub ts: i64,
    pub attachment: Option<Attachment>,
    pub reply: Option<ReplyPreview>,
}

pub struct ChatMessageView {
    pub id: u128,
    pub from: UserInfoView,
    pub text: Seq<char>,
    pub ts: i64,
    pub attachment: Option<AttachmentView>,
    pub reply: Option<ReplyPreviewView>,
}

impl DeepView for ChatMessage {
    type V = ChatMessageView;

    open spec fn deep_view(&self) -> ChatMessageView {
        ChatMessageView {
            id: self.id,
            from: self.from.deep_view(),
            text: self.text@,
            ts: self.ts,
            attachment: self.attachment.deep_view(),
            reply: self.reply.deep_view(),
        }
    }
}

impl Clone for ChatMessage {
    fn clone(&self) -> (r: Self)
        ensures
            r.deep_view() == self.deep_view(),
    {
        ChatMessage {
            id: self.id,
            from: self.from.clone(),
            text: self.text.clone(),
            ts: self.ts,
            attachment: self.attachment.clone(),
            reply: self.reply.clone(),
        }
    }
}

/// A room and how many people are in it.
#[derive(Debug, PartialEq, Eq)]
pub struct RoomSummary {
    pub name: String,
    pub users: usize,
}

pub struct RoomSummaryView {
    pub name: Seq<char>,
    pub users: usize,
}

impl DeepView for RoomSummary {
    type V = RoomSummaryView;

    open spec fn deep_view(&self) -> RoomSummaryView {
        RoomSummaryView { name: self.name@, users: self.users }
    }
}

impl Clone for RoomSummary {
    fn clone(&self) -> (r: Self)
        ensures
            r.deep_view() == self.deep_view(),
    {
        RoomSummary { name: self.name.clone(), users: self.users }
    }
}

/// From a client to the server.
#[derive(Debug, PartialEq, Eq)]
pub enum ClientMessage {
    /// The first message on a connection; anything else before it is an error.
    Join { nickname: String, room: String },
    Chat {
        text: String,
        /// The identifier of a file that has been uploaded.
        attachment: Option<u128>,
        /// The identifier of the message that is answered.
        reply_to: Option<u128>,
    },
    Leave,
    /// Somebody is typing. It fades by itself and is never taken back.
    Typing,
    Ping,
}

pub enum ClientMessageView {
    Join { nickname: Seq<char>, room: Seq<char> },
    Chat { text: Seq<char>, attachment: Option<u128>, reply_to: Option<u128> },
    Leave,
    Typing,
    Ping,
}

impl DeepView for ClientMessage {
    type V = ClientMessageView;

    open spec fn deep_view(&self) -> ClientMessageView {
        match self {
            ClientMessage::Join { nickname, room } => ClientMessageView::Join {
                nickname: nickname@,
                room: room@,
            },
            ClientMessage::Chat { text, attachment, reply_to } => ClientMessageView::Chat {
                text: text@,
                attachment: *attachment,
                reply_to: *reply_to,
            },
            ClientMessage::Leave => ClientMessageView::Leave,
            ClientMessage::Typing => ClientMessageView::Typing,
            ClientMessage::Ping => ClientMessageView::Ping,
        }
    }
}

/// What went wrong, for programs. The sentence beside it is for people.
#[derive(Debug, Clone, Copy, PartialEq, Eq, Structural)]
pub enum ErrorCode {
    /// The name is taken in this room: the client has to ask for another one.
    NicknameTaken,
    InvalidNickname,
    InvalidRoom,
    InvalidMessage,
    /// Something came before `Join`.
    NotJoined,
    /// A second `Join` on the same connection.
    AlreadyJoined,
    RoomFull,
    ServerFull,
    RateLimited,
    Internal,
}

/// From the server to a client.
#[derive(Debug, PartialEq, Eq)]
pub enum ServerMessage {
    /// The answer to a successful `Join`.
    Welcome {
        your_id: u128,
        room: String,
        nickname: String,
        /// Those who were in the room already, without the newcomer.
        users: Vec<UserInfo>,
        /// The last messages, so that nobody looks at an empty screen.
        history: Vec<ChatMessage>,
        /// The largest file that the server takes.
        upload_limit: u64,
    },
    UserJoined { user: UserInfo },
    UserLeft { user: UserInfo },
    Chat(ChatMessage),
    Typing { user: UserInfo },
    Error { code: ErrorCode, message: String },
    Pong,
}

pub enum ServerMessageView {
    Welcome {
        your_id: u128,
        room: Seq<char>,
        nickname: Seq<char>,
        users: Seq<UserInfoView>,
        history: Seq<ChatMessageView>,
        upload_limit: u64,
    },
    UserJoined { user: UserInfoView },
    UserLeft { user: UserInfoView },
    Chat(ChatMessageView),
    Typing { user: UserInfoView },
    Error { code: ErrorCode, message: Seq<char> },
    Pong,
}

impl DeepView for ServerMessage {
    type V = ServerMessageView;

    open spec fn deep_view(&self) -> ServerMessageView {
        match self {
            ServerMessage::Welcome { your_id, room, nickname, users, history, upload_limit } => {
                ServerMessageView::Welcome {
                    your_id: *your_id,
                    room: room@,
                    nickname: nickname@,
                    users: users.deep_view(),
                    history: history.deep_view(),
                    upload_limit: *upload_limit,
                }
            },
            ServerMessage::UserJoined { user } => ServerMessageView::UserJoined {
                user: user.deep_view(),
            },
            ServerMessage::UserLeft { user } => ServerMessageView::UserLeft {
                user: user.deep_view(),
            },
            ServerMessage::Chat(message) => ServerMessageView::Chat(message.deep_view()),
            ServerMessage::Typing { user } => ServerMessageView::Typing { user: user.deep_view() },
            ServerMessage::Error { code, message } => ServerMessageView::Error {
                code: *code,
                message: message@,
            },
            ServerMessage::Pong => ServerMessageView::Pong,
        }
    }
}

impl Clone for ServerMessage {
    fn clone(&self) -> (r: Self)
        ensures
            r.deep_view() == self.deep_view(),
    {
        match self {
            ServerMessage::Welcome { your_id, room, nickname, users, history, upload_limit } => {
                let users_copy = users.clone();
                let history_copy = history.clone();
                assert(users_copy.deep_view() =~= users.deep_view());
                assert(history_copy.deep_view() =~= history.deep_view());
                ServerMessage::Welcome {
                    your_id: *your_id,
                    room: room.clone(),
                    nickname: nickname.clone(),
                    users: users_copy,
                    history: history_copy,
                    upload_limit: *upload_limit,
                }
            },
            ServerMessage::UserJoined { user } => ServerMessage::UserJoined { user: user.clone() },
            ServerMessage::UserLeft { user } => ServerMessage::UserLeft { user: user.clone() },
            ServerMessage::Chat(message) => ServerMessage::Chat(message.clone()),
            ServerMessage::Typing { user } => ServerMessage::Typing { user: user.clone() },
            ServerMessage::Error { code, message } => ServerMessage::Error {
                code: *code,
                message: message.clone(),
            },
            ServerMessage::Pong => ServerMessage::Pong,
        }
    }
}

impl ServerMessage {
    /// An error with its code and its sentence.
    pub fn error(code: ErrorCode, message: &str) -> (r: Self)
        ensures
            r.deep_view() == (ServerMessageView::Error { code, message: message@ }),
    {
        ServerMessage::Error { code, message: message.to_owned() }
    }
}

} // verus!
