//! What comes of the work outside: what was dialled, recorded, opened and clicked.
use crate::address::{base_for, base_of};
use crate::settings::{Settings, SettingsView};
use crate::state::{Action, ActionView, State, StateView};
use crate::store::MediaError;
use crate::text::{decimal, glue, glue3, number, same};
use crate::width::{strip_suffixes, without_suffix};
use vstd::prelude::*;
use vstd::string::*;

verus! {

/// Whether a connection is to be made to another server than before.
pub open spec fn other_server(url: Seq<char>, server: Seq<char>) -> bool {
    server.len() > 0 && server != url
}

/// Whether a connection is to be made to another server than before. An empty address
/// stands for the one before.
pub fn is_other_server(url: &str, server: &str) -> (r: bool)
    ensures
        r == other_server(url@, server@),
{
    !server.is_empty() && !same(server, url)
}

impl StateView {
    /// What a client knows once it turns to another server: where its files are.
    pub open spec fn turned_to(self, server: Seq<char>) -> StateView {
        StateView { media_base: base_for(server), ..self }
    }

    /// What a client knows of the sound after each step: a voice that has ended is no
    /// longer lit, and a recording shows how long it is.
    pub open spec fn hearing(self, playing: bool, recorded: Option<u64>) -> StateView {
        StateView {
            playing,
            playing_voice: if playing {
                self.playing_voice
            } else {
                None
            },
            busy: match recorded {
                Some(seconds) => Some(
                    "запись "@ + decimal(seconds as nat) + " с · /rec — отправить"@,
                ),
                None => self.busy,
            },
            ..self
        }
    }

    /// What a client knows once it tried to begin a recording.
    pub open spec fn recording(self, refused: Option<Seq<char>>) -> StateView {
        match refused {
            None => StateView { busy: Some("запись · /rec — отправить"@), ..self },
            Some(_) => self,
        }
    }

    /// What a client knows once it tried to end a recording.
    pub open spec fn recorded(self, refused: Option<Seq<char>>) -> StateView {
        StateView {
            busy: match refused {
                None => Some("отправляю голосовое"@),
                Some(_) => None,
            },
            ..self
        }
    }
}

/// What is said where something was refused.
pub open spec fn complaint(refused: Option<Seq<char>>) -> Option<ActionView> {
    match refused {
        Some(reason) => Some(ActionView::Notice(reason)),
        None => None,
    }
}

fn complain(refused: Option<String>) -> (r: Option<Action>)
    ensures
        r.deep_view() == complaint(refused.deep_view()),
{
    match refused {
        Some(reason) => Some(Action::Notice(reason)),
        None => None,
    }
}

impl State {
    /// Turns to another server, where one was named. Says whether it has.
    pub fn turn_to(
        &mut self,
        settings: &mut Settings,
        url: &mut String,
        server: String,
    ) -> (r: bool)
        ensures
            r == other_server(old(url)@, server@),
            r ==> {
                &&& final(url)@ == server@
                &&& final(self).deep_view() == old(self).deep_view().turned_to(server@)
                &&& final(settings).deep_view() == (SettingsView {
                    server: server@,
                    ..old(settings).deep_view()
                })
            },
            !r ==> {
                &&& final(url)@ == old(url)@
                &&& final(self).deep_view() == old(self).deep_view()
                &&& final(settings).deep_view() == old(settings).deep_view()
            },
    {
        if !is_other_server(url.as_str(), server.as_str()) {
            return false;
        }
        self.media_base = base_of(server.as_str());
        settings.server = server.clone();
        *url = server;
        true
    }

    /// Learns how the sound is doing: whether something plays, and how many seconds were
    /// recorded, where something is.
    pub fn hear(&mut self, playing: bool, recorded: Option<u64>)
        ensures
            final(self).deep_view() == old(self).deep_view().hearing(playing, recorded),
            old(self).deep_view().wf() ==> final(self).deep_view().wf(),
    {
        self.playing = playing;
        if !playing {
            self.playing_voice = None;
        }
        if let Some(seconds) = recorded {
            self.busy = Some(
                glue3("запись ", number(seconds).as_str(), " с · /rec — отправить"),
            );
        }
    }

    /// Learns whether a recording has begun, or why it was refused.
    pub fn recording_begun(&mut self, refused: Option<String>) -> (r: Option<Action>)
        ensures
            final(self).deep_view() == old(self).deep_view().recording(refused.deep_view()),
            r.deep_view() == complaint(refused.deep_view()),
            old(self).deep_view().wf() ==> final(self).deep_view().wf(),
    {
        if refused.is_none() {
            self.busy = Some("запись · /rec — отправить".to_owned());
        }
        complain(refused)
    }

    /// Learns whether a recording has ended and is on its way, or why there is none.
    pub fn recording_ended(&mut self, refused: Option<String>) -> (r: Option<Action>)
        ensures
            final(self).deep_view() == old(self).deep_view().recorded(refused.deep_view()),
            r.deep_view() == complaint(refused.deep_view()),
            old(self).deep_view().wf() ==> final(self).deep_view().wf(),
    {
        self.busy = if refused.is_none() {
            Some("отправляю голосовое".to_owned())
        } else {
            None
        };
        complain(refused)
    }

    /// What follows once the chosen speakers were tried: they ring where they opened;
    /// else it is said that they did not, unless the machine has none.
    pub fn speakers_tried(&self, opened: bool) -> (r: (bool, Option<Action>))
        ensures
            r.0 == opened,
            r.1.deep_view() == if !opened && self.deep_view().audio.outputs.len() > 0 {
                Some(ActionView::Notice("не удалось открыть выбранные динамики"@))
            } else {
                None
            },
    {
        assert(self.deep_view().audio.outputs.len() == self.audio.outputs@.len());
        if !opened && self.audio.outputs.len() > 0 {
            (
                opened,
                Some(Action::Notice("не удалось открыть выбранные динамики".to_owned())),
            )
        } else {
            (opened, None)
        }
    }
}

/// What follows once a voice was handed to the speakers.
pub fn voice_played(refused: Option<String>) -> (r: Action)
    ensures
        r.deep_view() == match refused.deep_view() {
            Some(reason) => ActionView::Notice(reason),
            None => ActionView::Idle,
        },
{
    match refused {
        Some(reason) => Action::Notice(reason),
        None => Action::Idle,
    }
}

/// What is said where no server could be started.
pub fn host_refused(port: u16, reason: &str) -> (r: Action)
    ensures
        r.deep_view() == ActionView::Notice(
            "не удалось поднять сервер на порту "@ + decimal(port as nat) + ": "@ + reason@,
        ),
{
    let mut text = glue3(
        "не удалось поднять сервер на порту ",
        number(port as u64).as_str(),
        ": ",
    );
    text.append(reason);
    Action::Notice(text)
}

/// The address at which a server tells its rooms.
pub fn rooms_url(base: &str) -> (r: String)
    ensures
        r@ == without_suffix(base@, "/"@) + "/rooms"@,
{
    glue(strip_suffixes(base, "/").as_str(), "/rooms")
}

/// What a mouse does.
#[derive(Debug, Clone, Copy, PartialEq, Eq, Structural)]
pub enum Mouse {
    ScrollUp,
    ScrollDown,
    /// A press of the left button, at a column and a row.
    Press(u16, u16),
    Other,
}

/// How many lines one notch of the wheel moves.
pub const WHEEL: i32 = 3;

/// What a mouse means.
pub fn on_mouse(mouse: Mouse) -> (r: Option<Action>)
    ensures
        r.deep_view() == match mouse {
            Mouse::ScrollUp => Some(ActionView::Scroll(WHEEL)),
            Mouse::ScrollDown => Some(ActionView::Scroll((-WHEEL) as i32)),
            Mouse::Press(column, row) => Some(ActionView::Click(column, row)),
            Mouse::Other => None,
        },
{
    match mouse {
        Mouse::ScrollUp => Some(Action::Scroll(WHEEL)),
        Mouse::ScrollDown => Some(Action::Scroll(-WHEEL)),
        Mouse::Press(column, row) => Some(Action::Click(column, row)),
        Mouse::Other => None,
    }
}

/// The headers with which a kept file of a type is handed out. A browser must not guess
/// the type: it could take the file for a page and run it. A file never changes.
pub open spec fn headers_of(mime: Seq<char>) -> Seq<(Seq<char>, Seq<char>)> {
    seq![
        ("content-type"@, mime),
        ("x-content-type-options"@, "nosniff"@),
        ("content-disposition"@, "inline"@),
        ("cache-control"@, "public, max-age=31536000, immutable"@),
    ]
}

/// The headers with which a kept file is handed out. Its name is not among them: it came
/// from a person.
pub fn media_headers(mime: &str) -> (r: Vec<(String, String)>)
    ensures
        r.deep_view() == headers_of(mime@),
{
    let r: Vec<(String, String)> = vec![
        ("content-type".to_owned(), mime.to_owned()),
        ("x-content-type-options".to_owned(), "nosniff".to_owned()),
        ("content-disposition".to_owned(), "inline".to_owned()),
        ("cache-control".to_owned(), "public, max-age=31536000, immutable".to_owned()),
    ];
    assert(r.deep_view() =~= headers_of(mime@));
    r
}

/// The status with which an upload is refused: the file is too large, or it is not one
/// that is taken.
pub fn refusal_status(error: &MediaError) -> (r: u16)
    ensures
        r == if *error is TooLarge {
            413u16
        } else {
            415
        },
{
    match error {
        MediaError::TooLarge { .. } => 413,
        _ => 415,
    }
}

/// The name under which a file is uploaded: its own, else a word in its place.
pub fn upload_name(name: Option<String>) -> (r: String)
    ensures
        r@ == match name.deep_view() {
            Some(name) => name,
            None => "файл"@,
        },
{
    match name {
        Some(name) => name,
        None => "файл".to_owned(),
    }
}

} // verus!
