//! What a client knows, and what can happen to it.
//!
//! All of it is plain data: the rules by which it changes stand beside it and touch
//! neither the network nor the disk.
use crate::files::{FileEntry, FileEntryView};
use crate::home::{Audio, AudioView, Login, LoginView};
use crate::input::{Input, InputView};
use crate::keys::KeyEvent;
use crate::picture::{Picture, PictureView};
use crate::protocol::{
    Attachment, AttachmentView, ClientMessage, ClientMessageView, ReplyPreview, ReplyPreviewView,
    RoomSummary, RoomSummaryView, ServerMessage, ServerMessageView, UserInfo, UserInfoView,
};
use crate::theme::{Color, ColorView, Theme};
use crate::wave::{Waveform, WaveformView};
use std::collections::{HashMap, HashSet};
use vstd::prelude::*;

verus! {

/// How many entries are kept. Without a limit a long evening would eat all memory.
pub const MAX_ENTRIES: usize = 2000;

/// How many sent lines can be recalled.
pub const MAX_SENT: usize = 100;

/// How many lines one page is.
pub const SCROLL_STEP: usize = 10;

/// How long somebody is shown as typing where no new sign comes, in milliseconds. The
/// sign is never taken back: it goes out by itself.
pub const TYPING_TTL: u64 = 4000;

/// How often the others are told that one is typing, in milliseconds.
pub const TYPING_EVERY: u64 = 2000;

/// Among how many last entries pictures for the feed are looked for.
pub const THUMBNAIL_LOOKBACK: usize = 30;

/// A result in the terms of its views.
pub open spec fn result_view<T: DeepView, E: DeepView>(r: Result<T, E>) -> Result<T::V, E::V> {
    match r {
        Ok(value) => Ok(value.deep_view()),
        Err(reason) => Err(reason.deep_view()),
    }
}

/// A map in the terms of its views.
pub open spec fn map_view<V: DeepView>(m: HashMap<u128, V>) -> Map<u128, V::V> {
    m@.map_values(|v: V| v.deep_view())
}

/// What the network brings.
pub enum NetEvent {
    Connecting { attempt: u32 },
    Message(ServerMessage),
    Disconnected { reason: String, retry_at: u64 },
    /// Connecting anew will not help: the name is taken, the room is wrong.
    Fatal { reason: String },
}

pub enum NetEventView {
    Connecting { attempt: u32 },
    Message(ServerMessageView),
    Disconnected { reason: Seq<char>, retry_at: u64 },
    Fatal { reason: Seq<char> },
}

impl DeepView for NetEvent {
    type V = NetEventView;

    open spec fn deep_view(&self) -> NetEventView {
        match self {
            NetEvent::Connecting { attempt } => NetEventView::Connecting { attempt: *attempt },
            NetEvent::Message(message) => NetEventView::Message(message.deep_view()),
            NetEvent::Disconnected { reason, retry_at } => NetEventView::Disconnected {
                reason: reason@,
                retry_at: *retry_at,
            },
            NetEvent::Fatal { reason } => NetEventView::Fatal { reason: reason@ },
        }
    }
}

/// The list of files above the feed.
pub struct Browser {
    pub dir: String,
    pub entries: Vec<FileEntry>,
    pub selected: usize,
    /// What the names have to contain: among a hundred files arrows are not enough.
    pub filter: Input,
    pub loading: bool,
    pub error: Option<String>,
}

pub struct BrowserView {
    pub dir: Seq<char>,
    pub entries: Seq<FileEntryView>,
    pub selected: usize,
    pub filter: InputView,
    pub loading: bool,
    pub error: Option<Seq<char>>,
}

impl DeepView for Browser {
    type V = BrowserView;

    open spec fn deep_view(&self) -> BrowserView {
        BrowserView {
            dir: self.dir@,
            entries: self.entries.deep_view(),
            selected: self.selected,
            filter: self.filter.deep_view(),
            loading: self.loading,
            error: self.error.deep_view(),
        }
    }
}

/// A picture that is shown right in the feed.
pub enum Thumbnail {
    Loading,
    Ready(Picture),
    Failed,
}

pub enum ThumbnailView {
    Loading,
    Ready(PictureView),
    Failed,
}

impl DeepView for Thumbnail {
    type V = ThumbnailView;

    open spec fn deep_view(&self) -> ThumbnailView {
        match self {
            Thumbnail::Loading => ThumbnailView::Loading,
            Thumbnail::Ready(picture) => ThumbnailView::Ready(picture.deep_view()),
            Thumbnail::Failed => ThumbnailView::Failed,
        }
    }
}

/// What the viewer above the feed shows.
pub enum ViewerState {
    Loading,
    Ready(Picture),
    Failed(String),
}

pub enum ViewerStateView {
    Loading,
    Ready(PictureView),
    Failed(Seq<char>),
}

impl DeepView for ViewerState {
    type V = ViewerStateView;

    open spec fn deep_view(&self) -> ViewerStateView {
        match self {
            ViewerState::Loading => ViewerStateView::Loading,
            ViewerState::Ready(picture) => ViewerStateView::Ready(picture.deep_view()),
            ViewerState::Failed(reason) => ViewerStateView::Failed(reason@),
        }
    }
}

/// A picture above the feed.
pub struct Viewer {
    /// The identifier of the attachment.
    pub id: u128,
    pub name: String,
    pub state: ViewerState,
}

pub struct ViewerView {
    pub id: u128,
    pub name: Seq<char>,
    pub state: ViewerStateView,
}

impl DeepView for Viewer {
    type V = ViewerView;

    open spec fn deep_view(&self) -> ViewerView {
        ViewerView { id: self.id, name: self.name@, state: self.state.deep_view() }
    }
}

/// What can happen to a client.
pub enum Action {
    Key(KeyEvent),
    Paste(String),
    Net(NetEvent),
    /// A picture was downloaded and taken apart, or it was not.
    Image(u128, Result<Picture, String>),
    /// A file was uploaded to the server, or it was not.
    Uploaded(Result<Attachment, String>),
    /// An attachment was written to the disk, or it was not.
    Saved(Result<String, String>),
    /// A directory was read, or it was not.
    Directory { dir: String, result: Result<Vec<FileEntry>, String> },
    /// A voice was downloaded: its bytes go to the speakers, not into the state.
    Voice(u128, Result<Vec<u8>, String>),
    /// The shape of a voice is known.
    Waveform(u128, Waveform),
    /// A server was started right here: its address and lines to invite others.
    Hosted { url: String, lines: Vec<String> },
    /// The rooms of the server, or why there is no list.
    Rooms(Result<Vec<RoomSummary>, String>),
    /// The wheel: upwards is a positive number of lines.
    Scroll(i32),
    /// A click: column and row.
    Click(u16, u16),
    /// Something went wrong in the client itself.
    Notice(String),
    /// Something worth knowing from the client itself.
    Info(String),
    /// A long piece of work is done.
    Idle,
    /// The time for drawing anew.
    Tick,
}

pub enum ActionView {
    Key(KeyEvent),
    Paste(Seq<char>),
    Net(NetEventView),
    Image(u128, Result<PictureView, Seq<char>>),
    Uploaded(Result<AttachmentView, Seq<char>>),
    Saved(Result<Seq<char>, Seq<char>>),
    Directory { dir: Seq<char>, result: Result<Seq<FileEntryView>, Seq<char>> },
    Voice(u128, Result<Seq<u8>, Seq<char>>),
    Waveform(u128, WaveformView),
    Hosted { url: Seq<char>, lines: Seq<Seq<char>> },
    Rooms(Result<Seq<RoomSummaryView>, Seq<char>>),
    Scroll(i32),
    Click(u16, u16),
    Notice(Seq<char>),
    Info(Seq<char>),
    Idle,
    Tick,
}

impl DeepView for Action {
    type V = ActionView;

    open spec fn deep_view(&self) -> ActionView {
        match self {
            Action::Key(key) => ActionView::Key(*key),
            Action::Paste(text) => ActionView::Paste(text@),
            Action::Net(event) => ActionView::Net(event.deep_view()),
            Action::Image(id, result) => ActionView::Image(*id, result_view(*result)),
            Action::Uploaded(result) => ActionView::Uploaded(result_view(*result)),
            Action::Saved(result) => ActionView::Saved(result_view(*result)),
            Action::Directory { dir, result } => ActionView::Directory {
                dir: dir@,
                result: result_view(*result),
            },
            Action::Voice(id, result) => ActionView::Voice(*id, result_view(*result)),
            Action::Waveform(id, wave) => ActionView::Waveform(*id, wave.deep_view()),
            Action::Hosted { url, lines } => ActionView::Hosted {
                url: url@,
                lines: lines.deep_view(),
            },
            Action::Rooms(result) => ActionView::Rooms(result_view(*result)),
            Action::Scroll(delta) => ActionView::Scroll(*delta),
            Action::Click(column, row) => ActionView::Click(*column, *row),
            Action::Notice(text) => ActionView::Notice(text@),
            Action::Info(text) => ActionView::Info(text@),
            Action::Idle => ActionView::Idle,
            Action::Tick => ActionView::Tick,
        }
    }
}

/// How the connection is doing.
#[derive(Debug, PartialEq, Eq)]
pub enum Status {
    Connecting { attempt: u32 },
    Online,
    Reconnecting { reason: String, retry_at: u64 },
}

pub enum StatusView {
    Connecting { attempt: u32 },
    Online,
    Reconnecting { reason: Seq<char>, retry_at: u64 },
}

impl DeepView for Status {
    type V = StatusView;

    open spec fn deep_view(&self) -> StatusView {
        match self {
            Status::Connecting { attempt } => StatusView::Connecting { attempt: *attempt },
            Status::Online => StatusView::Online,
            Status::Reconnecting { reason, retry_at } => StatusView::Reconnecting {
                reason: reason@,
                retry_at: *retry_at,
            },
        }
    }
}

/// What is on the screen.
pub enum Screen {
    Login(Login),
    Chat,
}

pub enum ScreenView {
    Login(LoginView),
    Chat,
}

impl DeepView for Screen {
    type V = ScreenView;

    open spec fn deep_view(&self) -> ScreenView {
        match self {
            Screen::Login(login) => ScreenView::Login(login.deep_view()),
            Screen::Chat => ScreenView::Chat,
        }
    }
}

/// What a line of the client itself is about.
#[derive(Debug, Clone, Copy, PartialEq, Eq, Structural)]
pub enum SystemKind {
    Info,
    Join,
    Leave,
    Error,
}

/// One entry of the feed.
#[derive(Debug, PartialEq, Eq)]
pub enum Entry {
    Chat {
        id: u128,
        from: String,
        text: String,
        ts: i64,
        /// One's own messages look different: otherwise nobody sees whether they
        /// arrived.
        mine: bool,
        /// One's name is in the text.
        mentions_me: bool,
        attachment: Option<Attachment>,
        reply: Option<ReplyPreview>,
        /// When the message came on the screen.
        arrived: u64,
    },
    System { text: String, kind: SystemKind },
}

pub enum EntryView {
    Chat {
        id: u128,
        from: Seq<char>,
        text: Seq<char>,
        ts: i64,
        mine: bool,
        mentions_me: bool,
        attachment: Option<AttachmentView>,
        reply: Option<ReplyPreviewView>,
        arrived: u64,
    },
    System { text: Seq<char>, kind: SystemKind },
}

impl DeepView for Entry {
    type V = EntryView;

    open spec fn deep_view(&self) -> EntryView {
        match self {
            Entry::Chat {
                id,
                from,
                text,
                ts,
                mine,
                mentions_me,
                attachment,
                reply,
                arrived,
            } => EntryView::Chat {
                id: *id,
                from: from@,
                text: text@,
                ts: *ts,
                mine: *mine,
                mentions_me: *mentions_me,
                attachment: attachment.deep_view(),
                reply: reply.deep_view(),
                arrived: *arrived,
            },
            Entry::System { text, kind } => EntryView::System { text: text@, kind: *kind },
        }
    }
}

/// Where a file is written.
#[derive(Debug, PartialEq, Eq)]
pub enum Destination {
    /// Into the downloads, under this name.
    Downloads(String),
    /// Into a directory, under this name.
    Inside(String, String),
    /// To this very path.
    At(String),
}

pub enum DestinationView {
    Downloads(Seq<char>),
    Inside(Seq<char>, Seq<char>),
    At(Seq<char>),
}

impl DeepView for Destination {
    type V = DestinationView;

    open spec fn deep_view(&self) -> DestinationView {
        match self {
            Destination::Downloads(name) => DestinationView::Downloads(name@),
            Destination::Inside(dir, name) => DestinationView::Inside(dir@, name@),
            Destination::At(path) => DestinationView::At(path@),
        }
    }
}

/// What has to be done outside after something happened.
#[derive(Debug, PartialEq, Eq)]
pub enum Command {
    Send(ClientMessage),
    /// Connect anew: to enter, to change the room, the name or the server.
    Connect { nickname: String, room: String, server: String },
    /// Start a server right here.
    Host(u16),
    /// Ask a server for its rooms.
    FetchRooms(String),
    /// Open an address with whatever the system opens it with.
    Open(String),
    /// Download a picture to show it.
    Fetch(u128, String),
    /// Upload a file to attach it.
    Upload(String),
    /// Read a directory for the list of files.
    ReadDir(String),
    /// Download and play a voice.
    PlayVoice(u128, String),
    StopVoice,
    /// Begin to record, or end it and send what was recorded.
    ToggleRecording,
    /// Download an attachment and write it to the disk.
    Save { url: String, destination: Destination },
    /// Hang up and call nobody.
    Disconnect,
    /// Open the sound devices anew.
    Audio,
    /// Ring.
    Bell,
    /// Write the settings to the disk.
    SaveConfig,
    Quit,
}

pub enum CommandView {
    Send(ClientMessageView),
    Connect { nickname: Seq<char>, room: Seq<char>, server: Seq<char> },
    Host(u16),
    FetchRooms(Seq<char>),
    Open(Seq<char>),
    Fetch(u128, Seq<char>),
    Upload(Seq<char>),
    ReadDir(Seq<char>),
    PlayVoice(u128, Seq<char>),
    StopVoice,
    ToggleRecording,
    Save { url: Seq<char>, destination: DestinationView },
    Disconnect,
    Audio,
    Bell,
    SaveConfig,
    Quit,
}

impl DeepView for Command {
    type V = CommandView;

    open spec fn deep_view(&self) -> CommandView {
        match self {
            Command::Send(message) => CommandView::Send(message.deep_view()),
            Command::Connect { nickname, room, server } => CommandView::Connect {
                nickname: nickname@,
                room: room@,
                server: server@,
            },
            Command::Host(port) => CommandView::Host(*port),
            Command::FetchRooms(base) => CommandView::FetchRooms(base@),
            Command::Open(url) => CommandView::Open(url@),
            Command::Fetch(id, url) => CommandView::Fetch(*id, url@),
            Command::Upload(path) => CommandView::Upload(path@),
            Command::ReadDir(dir) => CommandView::ReadDir(dir@),
            Command::PlayVoice(id, url) => CommandView::PlayVoice(*id, url@),
            Command::StopVoice => CommandView::StopVoice,
            Command::ToggleRecording => CommandView::ToggleRecording,
            Command::Save { url, destination } => CommandView::Save {
                url: url@,
                destination: destination.deep_view(),
            },
            Command::Disconnect => CommandView::Disconnect,
            Command::Audio => CommandView::Audio,
            Command::Bell => CommandView::Bell,
            Command::SaveConfig => CommandView::SaveConfig,
            Command::Quit => CommandView::Quit,
        }
    }
}

/// What one walks through the feed for.
#[derive(Debug, Clone, Copy, PartialEq, Eq, Structural)]
pub enum PickMode {
    /// To answer: every message is a stop.
    Reply,
    /// To see, to hear or to keep: only messages with a file are stops.
    Attachment,
}

/// The entry that is lit, and what for.
#[derive(Debug, Clone, Copy, PartialEq, Eq, Structural)]
pub struct Pick {
    pub index: usize,
    pub mode: PickMode,
}

/// The message that is about to be answered.
#[derive(Debug, PartialEq, Eq)]
pub struct ReplyTarget {
    pub id: u128,
    pub nickname: String,
    pub excerpt: String,
}

pub struct ReplyTargetView {
    pub id: u128,
    pub nickname: Seq<char>,
    pub excerpt: Seq<char>,
}

impl DeepView for ReplyTarget {
    type V = ReplyTargetView;

    open spec fn deep_view(&self) -> ReplyTargetView {
        ReplyTargetView { id: self.id, nickname: self.nickname@, excerpt: self.excerpt@ }
    }
}

/// The search through the feed.
pub struct Search {
    pub query: Input,
    /// The entries that match, from the oldest to the newest.
    pub matches: Vec<usize>,
    /// Which of them is chosen.
    pub current: usize,
}

pub struct SearchView {
    pub query: InputView,
    pub matches: Seq<usize>,
    pub current: usize,
}

impl DeepView for Search {
    type V = SearchView;

    open spec fn deep_view(&self) -> SearchView {
        SearchView {
            query: self.query.deep_view(),
            matches: self.matches@,
            current: self.current,
        }
    }
}

/// Going through the ways to complete a word.
#[derive(Debug)]
pub struct Completion {
    /// What was typed before the first Tab.
    pub prefix: String,
    /// Where the word begins, in characters.
    pub at: usize,
    pub index: usize,
}

pub struct CompletionView {
    pub prefix: Seq<char>,
    pub at: usize,
    pub index: usize,
}

impl DeepView for Completion {
    type V = CompletionView;

    open spec fn deep_view(&self) -> CompletionView {
        CompletionView { prefix: self.prefix@, at: self.at, index: self.index }
    }
}

/// The size of the feed on the screen, known only after it was drawn.
#[derive(Debug, Clone, Copy, PartialEq, Eq, Structural)]
pub struct Viewport {
    pub height: usize,
    pub total_lines: usize,
    /// The row of the screen with which the feed begins.
    pub top: u16,
}

/// Whether the client opens itself anew in a better terminal.
#[derive(Debug, Clone, Copy, PartialEq, Eq, Structural)]
pub enum Mode {
    Auto,
    Always,
    Never,
}

/// Somebody who is typing.
#[derive(Debug, PartialEq, Eq)]
pub struct Typist {
    pub id: u128,
    pub nickname: String,
    /// When it was last said.
    pub at: u64,
}

pub struct TypistView {
    pub id: u128,
    pub nickname: Seq<char>,
    pub at: u64,
}

impl DeepView for Typist {
    type V = TypistView;

    open spec fn deep_view(&self) -> TypistView {
        TypistView { id: self.id, nickname: self.nickname@, at: self.at }
    }
}

/// The colour that was given to a name.
#[derive(Debug, PartialEq, Eq)]
pub struct Painted {
    /// The name in small letters.
    pub key: String,
    pub color: Color,
}

pub struct PaintedView {
    pub key: Seq<char>,
    pub color: ColorView,
}

impl DeepView for Painted {
    type V = PaintedView;

    open spec fn deep_view(&self) -> PaintedView {
        PaintedView { key: self.key@, color: self.color.deep_view() }
    }
}

/// All that a client knows.
pub struct State {
    pub screen: Screen,
    pub nickname: String,
    pub room: String,
    /// The address of the server.
    pub server: String,
    /// The address from which attachments are downloaded.
    pub media_base: String,
    pub colors: Vec<Painted>,
    /// The directory in which a file was last chosen.
    pub last_dir: Option<String>,
    /// The pictures of the feed, by the identifier of the attachment.
    pub thumbnails: HashMap<u128, Thumbnail>,
    /// What the client is doing right now.
    pub busy: Option<String>,
    /// Whether a voice is playing: one key starts and stops it.
    pub playing: bool,
    /// The shapes of voices, by the identifier of the attachment. They come after the
    /// download: nothing is made up.
    pub waveforms: HashMap<u128, Waveform>,
    /// The voice that is playing, and since when.
    pub playing_voice: Option<(u128, u64)>,
    /// Whether pictures are shown in the feed.
    pub inline_images: bool,
    /// What was chosen about it; nothing means that the client decides.
    pub images_choice: Option<bool>,
    /// What the client has found out about the terminal.
    pub images_auto: bool,
    pub theme: Theme,
    /// Whether the people stand in a column beside the feed.
    pub sidebar: bool,
    pub terminal_mode: Mode,
    pub audio: Audio,
    /// The largest file that the server takes.
    pub upload_limit: usize,
    pub typing: Vec<Typist>,
    /// When the others were last told that one is typing.
    pub typing_sent: Option<u64>,
    pub status: Status,
    pub me: Option<u128>,
    pub users: Vec<UserInfo>,
    pub entries: Vec<Entry>,
    /// The messages that were shown: the history of a room may come twice.
    pub seen: HashSet<u128>,
    pub input: Input,
    pub search: Option<Search>,
    pub picking: Option<Pick>,
    pub replying: Option<ReplyTarget>,
    /// The first line of each entry, as it was last drawn.
    pub entry_lines: Vec<usize>,
    pub completion: Option<Completion>,
    /// The lines that were sent.
    pub sent: Vec<String>,
    pub sent_cursor: Option<usize>,
    /// What was typed before the sent lines were looked through.
    pub draft: String,
    /// How many lines the feed is scrolled up.
    pub scrollback: usize,
    pub viewport: Viewport,
    pub tick: u64,
    pub viewer: Option<Viewer>,
    pub browser: Option<Browser>,
    /// Whether the help is open.
    pub help: bool,
    pub help_scroll: usize,
    pub should_quit: bool,
}

pub struct StateView {
    pub screen: ScreenView,
    pub nickname: Seq<char>,
    pub room: Seq<char>,
    pub server: Seq<char>,
    pub media_base: Seq<char>,
    pub colors: Seq<PaintedView>,
    pub last_dir: Option<Seq<char>>,
    pub thumbnails: Map<u128, ThumbnailView>,
    pub busy: Option<Seq<char>>,
    pub playing: bool,
    pub waveforms: Map<u128, WaveformView>,
    pub playing_voice: Option<(u128, u64)>,
    pub inline_images: bool,
    pub images_choice: Option<bool>,
    pub images_auto: bool,
    pub theme: Theme,
    pub sidebar: bool,
    pub terminal_mode: Mode,
    pub audio: AudioView,
    pub upload_limit: usize,
    pub typing: Seq<TypistView>,
    pub typing_sent: Option<u64>,
    pub status: StatusView,
    pub me: Option<u128>,
    pub users: Seq<UserInfoView>,
    pub entries: Seq<EntryView>,
    pub seen: Set<u128>,
    pub input: InputView,
    pub search: Option<SearchView>,
    pub picking: Option<Pick>,
    pub replying: Option<ReplyTargetView>,
    pub entry_lines: Seq<usize>,
    pub completion: Option<CompletionView>,
    pub sent: Seq<Seq<char>>,
    pub sent_cursor: Option<usize>,
    pub draft: Seq<char>,
    pub scrollback: usize,
    pub viewport: Viewport,
    pub tick: u64,
    pub viewer: Option<ViewerView>,
    pub browser: Option<BrowserView>,
    pub help: bool,
    pub help_scroll: usize,
    pub should_quit: bool,
}

impl DeepView for State {
    type V = StateView;

    open spec fn deep_view(&self) -> StateView {
        StateView {
            screen: self.screen.deep_view(),
            nickname: self.nickname@,
            room: self.room@,
            server: self.server@,
            media_base: self.media_base@,
            colors: self.colors.deep_view(),
            last_dir: self.last_dir.deep_view(),
            thumbnails: map_view(self.thumbnails),
            busy: self.busy.deep_view(),
            playing: self.playing,
            waveforms: map_view(self.waveforms),
            playing_voice: self.playing_voice,
            inline_images: self.inline_images,
            images_choice: self.images_choice,
            images_auto: self.images_auto,
            theme: self.theme,
            sidebar: self.sidebar,
            terminal_mode: self.terminal_mode,
            audio: self.audio.deep_view(),
            upload_limit: self.upload_limit,
            typing: self.typing.deep_view(),
            typing_sent: self.typing_sent,
            status: self.status.deep_view(),
            me: self.me,
            users: self.users.deep_view(),
            entries: self.entries.deep_view(),
            seen: self.seen@,
            input: self.input.deep_view(),
            search: self.search.deep_view(),
            picking: self.picking,
            replying: self.replying.deep_view(),
            entry_lines: self.entry_lines@,
            completion: self.completion.deep_view(),
            sent: self.sent.deep_view(),
            sent_cursor: self.sent_cursor,
            draft: self.draft@,
            scrollback: self.scrollback,
            viewport: self.viewport,
            tick: self.tick,
            viewer: self.viewer.deep_view(),
            browser: self.browser.deep_view(),
            help: self.help,
            help_scroll: self.help_scroll,
            should_quit: self.should_quit,
        }
    }
}

impl StateView {
    /// The cursors stand inside their texts, what is chosen is there, and what the
    /// completion goes through begins in front of the cursor.
    pub open spec fn wf(self) -> bool {
        &&& self.input.wf()
        &&& self.screen matches ScreenView::Login(login) ==> login.wf()
        &&& self.search matches Some(search) ==> search.query.wf()
        &&& self.browser matches Some(browser) ==> browser.filter.wf()
        &&& self.sent_cursor matches Some(i) ==> i < self.sent.len()
        &&& self.completion matches Some(c) ==> c.at <= self.input.cursor && c.index < usize::MAX
    }

    /// Whether the connection stands.
    pub open spec fn online(self) -> bool {
        self.status is Online
    }
}

/// What a path leads to.
#[derive(Debug, Clone, Copy, PartialEq, Eq, Structural)]
pub enum PathKind {
    Nothing,
    File,
    Folder,
}

/// The two addresses of a server.
#[derive(Debug, PartialEq, Eq)]
pub struct Endpoint {
    /// Where one connects.
    pub socket: String,
    /// Where files and the list of rooms are.
    pub base: String,
}

pub struct EndpointView {
    pub socket: Seq<char>,
    pub base: Seq<char>,
}

impl DeepView for Endpoint {
    type V = EndpointView;

    open spec fn deep_view(&self) -> EndpointView {
        EndpointView { socket: self.socket@, base: self.base@ }
    }
}

/// What the rules have to know of the world at the moment.
pub struct World {
    /// The time, in milliseconds.
    pub now: u64,
    /// What became of the address in play, or why it is not an address.
    pub endpoint: Result<Endpoint, String>,
    /// The directory with which the list of files opens.
    pub start_dir: String,
    /// The directory above the one in the list of files.
    pub parent: Option<String>,
    /// What the path in play leads to.
    pub disk: PathKind,
}

pub struct WorldView {
    pub now: u64,
    pub endpoint: Result<EndpointView, Seq<char>>,
    pub start_dir: Seq<char>,
    pub parent: Option<Seq<char>>,
    pub disk: PathKind,
}

impl DeepView for World {
    type V = WorldView;

    open spec fn deep_view(&self) -> WorldView {
        WorldView {
            now: self.now,
            endpoint: result_view(self.endpoint),
            start_dir: self.start_dir@,
            parent: self.parent.deep_view(),
            disk: self.disk,
        }
    }
}

/// What comes of something that happened: the new state and what has to be done.
pub struct Step {
    pub state: StateView,
    pub commands: Seq<CommandView>,
}

/// A state and commands as a step.
pub open spec fn step_of(state: State, commands: Vec<Command>) -> Step {
    Step { state: state.deep_view(), commands: commands.deep_view() }
}

/// A step with nothing to do.
pub open spec fn quiet(state: StateView) -> Step {
    Step { state, commands: Seq::empty() }
}

/// A step with one thing to do.
pub open spec fn with(state: StateView, command: CommandView) -> Step {
    Step { state, commands: seq![command] }
}

/// Nothing to do.
pub fn nothing() -> (r: Vec<Command>)
    ensures
        r.deep_view() == Seq::<CommandView>::empty(),
{
    let r: Vec<Command> = Vec::new();
    assert(r.deep_view() =~= Seq::<CommandView>::empty());
    r
}

/// One thing to do.
pub fn only(command: Command) -> (r: Vec<Command>)
    ensures
        r.deep_view() == seq![command.deep_view()],
{
    let mut r: Vec<Command> = Vec::new();
    let ghost view = command.deep_view();
    r.push(command);
    assert(r.deep_view() =~= seq![view]);
    r
}

/// Two things to do.
pub fn both(first: Command, second: Command) -> (r: Vec<Command>)
    ensures
        r.deep_view() == seq![first.deep_view(), second.deep_view()],
{
    let mut r: Vec<Command> = Vec::new();
    let ghost a = first.deep_view();
    let ghost b = second.deep_view();
    r.push(first);
    r.push(second);
    assert(r.deep_view() =~= seq![a, b]);
    r
}

} // verus!
