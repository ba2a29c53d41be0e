//! What is done with attachments: seeing, hearing, opening, keeping and sending them.
use crate::ids::write_id;
use crate::journal::media_url;
use crate::protocol::{Attachment, AttachmentKind, AttachmentView};
use crate::seqs::{last_where, lemma_last_where, lemma_last_where_is};
use crate::state::{
    nothing, only, quiet, step_of, with, Browser, BrowserView, Command, CommandView, Destination,
    DestinationView, Entry, EntryView, PathKind, PickMode, State, Status, StateView, Step, SystemKind, Viewer,
    ViewerState, ViewerStateView, ViewerView, World, WorldView,
};
use crate::text::{chars_of, glue, glue3, text_between, trim, trimmed};
use crate::walk::is_stop;
use vstd::prelude::*;
use vstd::string::*;

verus! {

/// Whether a character is a quotation mark.
pub open spec fn is_quote(c: char) -> bool {
    c == '"' || c == '\''
}

/// A text without the quotation marks around it.
pub open spec fn bared(s: Seq<char>) -> Seq<char>
    decreases s.len(),
{
    if s.len() > 0 && is_quote(s[0]) {
        bared(s.drop_first())
    } else if s.len() > 0 && is_quote(s.last()) {
        bared(s.drop_last())
    } else {
        s
    }
}

/// A path as it was meant: paths with spaces are put in quotation marks, and a file
/// dropped on the window comes with them.
pub open spec fn meant_path(s: Seq<char>) -> Seq<char> {
    trimmed(bared(trimmed(s)))
}

/// A path as it was meant.
#[verifier::loop_isolation(false)]
pub fn clean_path(s: &str) -> (r: String)
    ensures
        r@ == meant_path(s@),
{
    let inner = trim(s);
    let v = chars_of(inner.as_str());
    let mut from: usize = 0;
    let mut to: usize = v.len();
    assert(v@.subrange(0, v@.len() as int) =~= v@);
    while from < to && (v[from] == '"' || v[from] == '\'')
        invariant
            from <= to == v@.len(),
            bared(v@) == bared(v@.subrange(from as int, to as int)),
        decreases to - from,
    {
        assert(v@.subrange(from as int, to as int).drop_first() =~= v@.subrange(
            from + 1,
            to as int,
        ));
        from = from + 1;
    }
    while from < to && (v[to - 1] == '"' || v[to - 1] == '\'')
        invariant
            from <= to <= v@.len(),
            from < to ==> !is_quote(v@[from as int]),
            bared(v@) == bared(v@.subrange(from as int, to as int)),
        decreases to - from,
    {
        assert(v@.subrange(from as int, to as int).drop_last() =~= v@.subrange(
            from as int,
            to - 1,
        ));
        to = to - 1;
    }
    let bare = text_between(&v, from, to);
    trim(bare.as_str())
}

/// Whether an entry has an attachment of a kind.
pub open spec fn holds(kind: AttachmentKind) -> spec_fn(EntryView) -> bool {
    |entry: EntryView|
        entry matches EntryView::Chat { attachment: Some(a), .. } && a.kind == kind
}

impl StateView {
    /// With a complaint.
    pub open spec fn refused(self, words: Seq<char>) -> Step {
        quiet(self.told(SystemKind::Error, words))
    }

    /// The last attachment in the room.
    pub open spec fn newest(self) -> Option<AttachmentView> {
        self.attachment_at(last_where(self.entries, is_stop(PickMode::Attachment)))
    }

    /// The last attachment of a kind in the room.
    pub open spec fn newest_of(self, kind: AttachmentKind) -> Option<AttachmentView> {
        self.attachment_at(last_where(self.entries, holds(kind)))
    }

    /// The last attachment of a kind, else the last one of any kind.
    pub open spec fn newest_like(self, kind: AttachmentKind) -> Option<AttachmentView> {
        match self.newest_of(kind) {
            Some(a) => Some(a),
            None => self.newest(),
        }
    }

    /// A picture is shown.
    #[verifier::opaque]
    pub open spec fn viewed(self, a: AttachmentView) -> Step {
        if a.kind != AttachmentKind::Image {
            self.refused("это не картинка — звук слушается через /open"@)
        } else if self.media_base.len() == 0 {
            self.refused("неизвестен адрес сервера"@)
        } else {
            with(
                StateView {
                    busy: Some("качаю "@ + a.name),
                    viewer: Some(
                        ViewerView { id: a.id, name: a.name, state: ViewerStateView::Loading },
                    ),
                    ..self
                },
                CommandView::Fetch(a.id, media_url(self.media_base, a.id)),
            )
        }
    }

    /// An attachment is opened by another program.
    #[verifier::opaque]
    pub open spec fn opened(self, a: AttachmentView) -> Step {
        if self.media_base.len() == 0 {
            self.refused("неизвестен адрес сервера"@)
        } else {
            with(
                self.told(SystemKind::Info, "открываю "@ + a.name),
                CommandView::Open(media_url(self.media_base, a.id)),
            )
        }
    }

    /// A voice is played.
    #[verifier::opaque]
    pub open spec fn played(self, a: AttachmentView) -> Step {
        if a.kind != AttachmentKind::Audio {
            self.refused("это вложение — не голосовое"@)
        } else if self.media_base.len() == 0 {
            self.refused("неизвестен адрес сервера"@)
        } else {
            with(
                StateView { busy: Some("качаю "@ + a.name), ..self },
                CommandView::PlayVoice(a.id, media_url(self.media_base, a.id)),
            )
        }
    }

    /// An attachment is written to the disk.
    #[verifier::opaque]
    pub open spec fn saved(self, a: AttachmentView, arg: Seq<char>, world: WorldView) -> Step {
        let path = meant_path(arg);
        if self.media_base.len() == 0 {
            self.refused("неизвестен адрес сервера"@)
        } else {
            with(
                StateView { busy: Some("сохраняю "@ + a.name), ..self },
                CommandView::Save {
                    url: media_url(self.media_base, a.id),
                    destination: if path.len() == 0 {
                        DestinationView::Downloads(a.name)
                    } else if world.disk == PathKind::Folder {
                        DestinationView::Inside(path, a.name)
                    } else {
                        DestinationView::At(path)
                    },
                },
            )
        }
    }

    /// What is said where there is no attachment.
    pub open spec fn nothing_attached(self) -> Step {
        self.refused("в этой комнате пока нет вложений"@)
    }

    /// The last picture is shown, whatever came after it.
    #[verifier::opaque]
    pub open spec fn view_newest(self) -> Step {
        match self.newest_like(AttachmentKind::Image) {
            Some(a) => self.viewed(a),
            None => self.nothing_attached(),
        }
    }

    #[verifier::opaque]
    pub open spec fn open_newest(self) -> Step {
        match self.newest() {
            Some(a) => self.opened(a),
            None => self.nothing_attached(),
        }
    }

    /// The last voice is played, whatever came after it.
    #[verifier::opaque]
    pub open spec fn play_newest(self) -> Step {
        match self.newest_like(AttachmentKind::Audio) {
            Some(a) => self.played(a),
            None => self.nothing_attached(),
        }
    }

    #[verifier::opaque]
    pub open spec fn save_newest(self, arg: Seq<char>, world: WorldView) -> Step {
        match self.newest() {
            Some(a) => self.saved(a, arg, world),
            None => self.nothing_attached(),
        }
    }

    /// What is expected of an attachment is done: a picture is shown, a voice is
    /// played, anything else is written to the disk.
    #[verifier::opaque]
    pub open spec fn acted_on(self, index: int, world: WorldView) -> Step {
        match self.attachment_at(index) {
            Some(a) => match a.kind {
                AttachmentKind::Image => self.viewed(a),
                AttachmentKind::Audio => self.played(a),
                AttachmentKind::File => self.saved(a, Seq::empty(), world),
            },
            None => quiet(self),
        }
    }

    /// A file is sent, or, without a path, the list of files opens.
    #[verifier::opaque]
    pub open spec fn sending(self, arg: Seq<char>, world: WorldView) -> Step {
        let path = meant_path(arg);
        if !self.online() {
            self.refused("нет соединения, файл не отправлен"@)
        } else if self.media_base.len() == 0 {
            self.refused("неизвестен адрес сервера"@)
        } else if path.len() == 0 {
            with(
                StateView { browser: Some(BrowserView::opened(world.start_dir)), ..self },
                CommandView::ReadDir(world.start_dir),
            )
        } else {
            with(
                StateView { busy: Some("отправляю "@ + path), ..self },
                CommandView::Upload(path),
            )
        }
    }
}

impl State {
    /// Whether the connection stands.
    pub fn is_online(&self) -> (r: bool)
        ensures
            r == self.deep_view().online(),
    {
        match &self.status {
            Status::Online => true,
            _ => false,
        }
    }

    /// Says why something was not done.
    pub fn refuse(&mut self, words: &str) -> (commands: Vec<Command>)
        requires
            old(self).deep_view().wf(),
        ensures
            step_of(*final(self), commands) == old(self).deep_view().refused(words@),
            final(self).deep_view().wf(),
    {
        self.system(SystemKind::Error, words);
        nothing()
    }

    /// The last attachment in the room.
    fn last_attachment(&self) -> (r: Option<Attachment>)
        ensures
            r.deep_view() == self.deep_view().newest(),
    {
        let ghost all = self.entries.deep_view();
        assert(all.take(all.len() as int) =~= all);
        assert(all.len() == self.entries@.len());
        proof {
            lemma_last_where(all, is_stop(PickMode::Attachment));
        }
        match self.neighbour_chat(self.entries.len(), false, PickMode::Attachment) {
            Some(index) => self.picked_attachment(index),
            None => None,
        }
    }

    /// The last attachment of a kind, else the last one of any kind.
    #[verifier::loop_isolation(false)]
    fn last_like(&self, kind: AttachmentKind) -> (r: Option<Attachment>)
        ensures
            r.deep_view() == self.deep_view().newest_like(kind),
    {
        let ghost all = self.entries.deep_view();
        assert(all.len() == self.entries@.len());
        let mut i: usize = self.entries.len();
        while i > 0
            invariant
                i <= self.entries@.len(),
                forall|k: int| i <= k < all.len() ==> !holds(kind)(#[trigger] all[k]),
            decreases i,
        {
            i = i - 1;
            assert(all[i as int] == self.entries@[i as int].deep_view());
            if let Entry::Chat { attachment: Some(a), .. } = &self.entries[i] {
                if a.kind == kind {
                    proof {
                        lemma_last_where_is(all, holds(kind), i as int);
                    }
                    return Some(a.clone());
                }
            }
        }
        proof {
            lemma_last_where_is(all, holds(kind), -1);
        }
        self.last_attachment()
    }

    /// The address of an attachment, where the server is known.
    fn attachment_url(&self, attachment: &Attachment) -> (r: Option<String>)
        ensures
            match r {
                Some(url) => self.media_base@.len() > 0 && url@ == media_url(
                    self.media_base@,
                    attachment.id,
                ),
                None => self.media_base@.len() == 0,
            },
    {
        if self.media_base.as_str().is_empty() {
            None
        } else {
            Some(
                glue3(self.media_base.as_str(), "/media/", write_id(attachment.id).as_str()),
            )
        }
    }

    /// Shows a picture.
    fn view_attachment(&mut self, attachment: Attachment) -> (commands: Vec<Command>)
        requires
            old(self).deep_view().wf(),
        ensures
            step_of(*final(self), commands) == old(self).deep_view().viewed(
                attachment.deep_view(),
            ),
            final(self).deep_view().wf(),
    {
        proof {
            reveal(StateView::viewed);
        }
        if attachment.kind != AttachmentKind::Image {
            return self.refuse("это не картинка — звук слушается через /open");
        }
        match self.attachment_url(&attachment) {
            Some(url) => {
                self.busy = Some(glue("качаю ", attachment.name.as_str()));
                self.viewer = Some(
                    Viewer {
                        id: attachment.id,
                        name: attachment.name,
                        state: ViewerState::Loading,
                    },
                );
                only(Command::Fetch(attachment.id, url))
            },
            None => self.refuse("неизвестен адрес сервера"),
        }
    }

    /// Opens an attachment with another program.
    fn open_attachment(&mut self, attachment: Attachment) -> (commands: Vec<Command>)
        requires
            old(self).deep_view().wf(),
        ensures
            step_of(*final(self), commands) == old(self).deep_view().opened(
                attachment.deep_view(),
            ),
            final(self).deep_view().wf(),
    {
        proof {
            reveal(StateView::opened);
        }
        match self.attachment_url(&attachment) {
            Some(url) => {
                self.system(
                    SystemKind::Info,
                    glue("открываю ", attachment.name.as_str()).as_str(),
                );
                only(Command::Open(url))
            },
            None => self.refuse("неизвестен адрес сервера"),
        }
    }

    /// Plays a voice.
    fn play_attachment(&mut self, attachment: Attachment) -> (commands: Vec<Command>)
        requires
            old(self).deep_view().wf(),
        ensures
            step_of(*final(self), commands) == old(self).deep_view().played(
                attachment.deep_view(),
            ),
            final(self).deep_view().wf(),
    {
        proof {
            reveal(StateView::played);
        }
        if attachment.kind != AttachmentKind::Audio {
            return self.refuse("это вложение — не голосовое");
        }
        match self.attachment_url(&attachment) {
            Some(url) => {
                self.busy = Some(glue("качаю ", attachment.name.as_str()));
                only(Command::PlayVoice(attachment.id, url))
            },
            None => self.refuse("неизвестен адрес сервера"),
        }
    }

    /// Writes an attachment to the disk.
    fn save_attachment(&mut self, attachment: Attachment, arg: &str, world: &World) -> (commands:
        Vec<Command>)
        requires
            old(self).deep_view().wf(),
        ensures
            step_of(*final(self), commands) == old(self).deep_view().saved(
                attachment.deep_view(),
                arg@,
                world.deep_view(),
            ),
            final(self).deep_view().wf(),
    {
        proof {
            reveal(StateView::saved);
        }
        match self.attachment_url(&attachment) {
            Some(url) => {
                let path = clean_path(arg);
                self.busy = Some(glue("сохраняю ", attachment.name.as_str()));
                let destination = if path.as_str().is_empty() {
                    Destination::Downloads(attachment.name)
                } else if world.disk == PathKind::Folder {
                    Destination::Inside(path, attachment.name)
                } else {
                    Destination::At(path)
                };
                only(Command::Save { url, destination })
            },
            None => self.refuse("неизвестен адрес сервера"),
        }
    }

    /// Shows the last picture.
    pub fn view_command(&mut self) -> (commands: Vec<Command>)
        requires
            old(self).deep_view().wf(),
        ensures
            step_of(*final(self), commands) == old(self).deep_view().view_newest(),
            final(self).deep_view().wf(),
    {
        proof {
            reveal(StateView::view_newest);
        }
        match self.last_like(AttachmentKind::Image) {
            Some(attachment) => self.view_attachment(attachment),
            None => self.refuse("в этой комнате пока нет вложений"),
        }
    }

    /// Opens the last attachment with another program.
    pub fn open_command(&mut self) -> (commands: Vec<Command>)
        requires
            old(self).deep_view().wf(),
        ensures
            step_of(*final(self), commands) == old(self).deep_view().open_newest(),
            final(self).deep_view().wf(),
    {
        proof {
            reveal(StateView::open_newest);
        }
        match self.last_attachment() {
            Some(attachment) => self.open_attachment(attachment),
            None => self.refuse("в этой комнате пока нет вложений"),
        }
    }

    /// Plays the last voice.
    pub fn play_command(&mut self) -> (commands: Vec<Command>)
        requires
            old(self).deep_view().wf(),
        ensures
            step_of(*final(self), commands) == old(self).deep_view().play_newest(),
            final(self).deep_view().wf(),
    {
        proof {
            reveal(StateView::play_newest);
        }
        match self.last_like(AttachmentKind::Audio) {
            Some(attachment) => self.play_attachment(attachment),
            None => self.refuse("в этой комнате пока нет вложений"),
        }
    }

    /// Writes the last attachment to the disk.
    pub fn save_command(&mut self, arg: &str, world: &World) -> (commands: Vec<Command>)
        requires
            old(self).deep_view().wf(),
        ensures
            step_of(*final(self), commands) == old(self).deep_view().save_newest(
                arg@,
                world.deep_view(),
            ),
            final(self).deep_view().wf(),
    {
        proof {
            reveal(StateView::save_newest);
        }
        match self.last_attachment() {
            Some(attachment) => self.save_attachment(attachment, arg, world),
            None => self.refuse("в этой комнате пока нет вложений"),
        }
    }

    /// Does with the attachment of an entry what is expected.
    pub fn act_on_picked(&mut self, index: usize, world: &World) -> (commands: Vec<Command>)
        requires
            old(self).deep_view().wf(),
        ensures
            step_of(*final(self), commands) == old(self).deep_view().acted_on(
                index as int,
                world.deep_view(),
            ),
            final(self).deep_view().wf(),
    {
        proof {
            reveal(StateView::acted_on);
        }
        proof {
            reveal_strlit("");
            assert(""@ =~= Seq::<char>::empty());
        }
        match self.picked_attachment(index) {
            Some(attachment) => match attachment.kind {
                AttachmentKind::Image => self.view_attachment(attachment),
                AttachmentKind::Audio => self.play_attachment(attachment),
                AttachmentKind::File => self.save_attachment(attachment, "", world),
            },
            None => nothing(),
        }
    }

    /// Plays the voice of an entry.
    pub fn play_picked(&mut self, index: usize) -> (commands: Vec<Command>)
        requires
            old(self).deep_view().wf(),
        ensures
            step_of(*final(self), commands) == match old(self).deep_view().attachment_at(
                index as int,
            ) {
                Some(a) => old(self).deep_view().played(a),
                None => quiet(old(self).deep_view()),
            },
            final(self).deep_view().wf(),
    {
        match self.picked_attachment(index) {
            Some(attachment) => self.play_attachment(attachment),
            None => nothing(),
        }
    }

    /// Writes the attachment of an entry to the disk.
    pub fn save_picked(&mut self, index: usize, world: &World) -> (commands: Vec<Command>)
        requires
            old(self).deep_view().wf(),
        ensures
            step_of(*final(self), commands) == match old(self).deep_view().attachment_at(
                index as int,
            ) {
                Some(a) => old(self).deep_view().saved(a, Seq::empty(), world.deep_view()),
                None => quiet(old(self).deep_view()),
            },
            final(self).deep_view().wf(),
    {
        proof {
            reveal_strlit("");
            assert(""@ =~= Seq::<char>::empty());
        }
        match self.picked_attachment(index) {
            Some(attachment) => self.save_attachment(attachment, "", world),
            None => nothing(),
        }
    }

    /// Opens the attachment of an entry with another program.
    pub fn open_picked(&mut self, index: usize) -> (commands: Vec<Command>)
        requires
            old(self).deep_view().wf(),
        ensures
            step_of(*final(self), commands) == match old(self).deep_view().attachment_at(
                index as int,
            ) {
                Some(a) => old(self).deep_view().opened(a),
                None => quiet(old(self).deep_view()),
            },
            final(self).deep_view().wf(),
    {
        match self.picked_attachment(index) {
            Some(attachment) => self.open_attachment(attachment),
            None => nothing(),
        }
    }

    /// Sends a file, or opens the list of files.
    pub fn send_command(&mut self, arg: &str, world: &World) -> (commands: Vec<Command>)
        requires
            old(self).deep_view().wf(),
        ensures
            step_of(*final(self), commands) == old(self).deep_view().sending(
                arg@,
                world.deep_view(),
            ),
            final(self).deep_view().wf(),
    {
        proof {
            reveal(StateView::sending);
        }
        let path = clean_path(arg);
        if !self.is_online() {
            return self.refuse("нет соединения, файл не отправлен");
        }
        if self.media_base.as_str().is_empty() {
            return self.refuse("неизвестен адрес сервера");
        }
        if path.as_str().is_empty() {
            self.browser = Some(Browser::open(world.start_dir.clone()));
            return only(Command::ReadDir(world.start_dir.clone()));
        }
        self.busy = Some(glue("отправляю ", path.as_str()));
        only(Command::Upload(path))
    }
}

} // verus!
