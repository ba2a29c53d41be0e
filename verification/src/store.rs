//! The files that were uploaded.
//!
//! They are kept in memory: the chat lives as long as its server runs. Room is
//! limited and the oldest files give way, otherwise one evening of talk would eat
//! all memory.
use crate::protocol::{Attachment, AttachmentKind, AttachmentView};
use crate::seqs::{last_where, lemma_last_where_is};
use crate::text::{decimal, glue3, number};
use crate::validate::{clean_file_name, cleaned_file_name, MAX_UPLOAD_BYTES};
use vstd::prelude::*;
use vstd::string::*;

verus! {

/// How many bytes of attachments are kept.
pub const DEFAULT_CAPACITY_BYTES: usize = 67108864;

/// A file as it is served.
pub struct StoredFile {
    pub mime: &'static str,
    pub bytes: Vec<u8>,
}

pub struct StoredFileView {
    pub mime: Seq<char>,
    pub bytes: Seq<u8>,
}

impl DeepView for StoredFile {
    type V = StoredFileView;

    open spec fn deep_view(&self) -> StoredFileView {
        StoredFileView { mime: self.mime@, bytes: self.bytes@ }
    }
}

impl Clone for StoredFile {
    fn clone(&self) -> (r: Self)
        ensures
            r.deep_view() == self.deep_view(),
    {
        let bytes = self.bytes.clone();
        assert(bytes@ =~= self.bytes@);
        StoredFile { mime: self.mime, bytes }
    }
}

/// Why a file was not taken.
#[derive(Debug, Clone, Copy, PartialEq, Eq, Structural)]
pub enum MediaError {
    TooLarge { size: usize, limit: usize },
    UnsupportedType,
}

impl MediaError {
    /// The sentence shown to a person.
    pub open spec fn told(self) -> Seq<char> {
        match self {
            MediaError::TooLarge { size, limit } => "файл слишком большой: "@ + decimal(
                (size / 1024) as nat,
            ) + " КБ при потолке "@ + decimal((limit / 1024) as nat) + " КБ"@,
            MediaError::UnsupportedType =>
                "поддерживаются картинки (jpeg, png, gif, webp) и звук (webm, ogg, mp4)"@,
        }
    }

    /// The sentence shown to a person.
    pub fn sentence(&self) -> (s: String)
        ensures
            s@ == self.told(),
    {
        match self {
            MediaError::TooLarge { size, limit } => {
                let mut s = glue3(
                    "файл слишком большой: ",
                    number((*size / 1024) as u64).as_str(),
                    " КБ при потолке ",
                );
                s.append(number((*limit / 1024) as u64).as_str());
                s.append(" КБ");
                s
            },
            MediaError::UnsupportedType =>
                "поддерживаются картинки (jpeg, png, gif, webp) и звук (webm, ogg, mp4)".to_owned(),
        }
    }
}

/// Whether the given bytes stand at a position.
pub open spec fn marked(bytes: Seq<u8>, at: int, mark: Seq<u8>) -> bool {
    at + mark.len() <= bytes.len() && bytes.subrange(at, at + mark.len()) == mark
}

/// Whether the given bytes stand at a position.
#[verifier::loop_isolation(false)]
pub fn is_marked(bytes: &Vec<u8>, at: usize, mark: &Vec<u8>) -> (r: bool)
    ensures
        r == marked(bytes@, at as int, mark@),
{
    if at > bytes.len() || mark.len() > bytes.len() - at {
        return false;
    }
    let mut i: usize = 0;
    while i < mark.len()
        invariant
            i <= mark@.len(),
            at + mark@.len() <= bytes@.len(),
            forall|k: int| 0 <= k < i ==> bytes@[at + k] == mark@[k],
        decreases mark@.len() - i,
    {
        if bytes[at + i] != mark[i] {
            assert(bytes@.subrange(at as int, at + mark@.len())[i as int] == bytes@[at + i]);
            return false;
        }
        i = i + 1;
    }
    assert(bytes@.subrange(at as int, at + mark@.len()) =~= mark@);
    true
}

/// The marks by which the formats are told apart.
pub open spec fn jpeg_mark() -> Seq<u8> {
    seq![0xffu8, 0xd8u8, 0xffu8]
}

pub open spec fn png_mark() -> Seq<u8> {
    seq![0x89u8, 0x50u8, 0x4eu8, 0x47u8, 0x0du8, 0x0au8, 0x1au8, 0x0au8]
}

pub open spec fn gif87_mark() -> Seq<u8> {
    seq![0x47u8, 0x49u8, 0x46u8, 0x38u8, 0x37u8, 0x61u8]
}

pub open spec fn gif89_mark() -> Seq<u8> {
    seq![0x47u8, 0x49u8, 0x46u8, 0x38u8, 0x39u8, 0x61u8]
}

pub open spec fn riff_mark() -> Seq<u8> {
    seq![0x52u8, 0x49u8, 0x46u8, 0x46u8]
}

pub open spec fn webp_mark() -> Seq<u8> {
    seq![0x57u8, 0x45u8, 0x42u8, 0x50u8]
}

pub open spec fn wave_mark() -> Seq<u8> {
    seq![0x57u8, 0x41u8, 0x56u8, 0x45u8]
}

pub open spec fn webm_mark() -> Seq<u8> {
    seq![0x1au8, 0x45u8, 0xdfu8, 0xa3u8]
}

pub open spec fn ogg_mark() -> Seq<u8> {
    seq![0x4fu8, 0x67u8, 0x67u8, 0x53u8]
}

pub open spec fn mp4_mark() -> Seq<u8> {
    seq![0x66u8, 0x74u8, 0x79u8, 0x70u8]
}

/// What the first bytes of a file say about it.
pub open spec fn sniffed(bytes: Seq<u8>) -> Option<(Seq<char>, AttachmentKind)> {
    if marked(bytes, 0, jpeg_mark()) {
        Some(("image/jpeg"@, AttachmentKind::Image))
    } else if marked(bytes, 0, png_mark()) {
        Some(("image/png"@, AttachmentKind::Image))
    } else if marked(bytes, 0, gif87_mark()) || marked(bytes, 0, gif89_mark()) {
        Some(("image/gif"@, AttachmentKind::Image))
    } else if bytes.len() > 12 && marked(bytes, 0, riff_mark()) && marked(bytes, 8, webp_mark()) {
        Some(("image/webp"@, AttachmentKind::Image))
    } else if bytes.len() > 12 && marked(bytes, 0, riff_mark()) && marked(bytes, 8, wave_mark()) {
        Some(("audio/wav"@, AttachmentKind::Audio))
    } else if marked(bytes, 0, webm_mark()) {
        Some(("audio/webm"@, AttachmentKind::Audio))
    } else if marked(bytes, 0, ogg_mark()) {
        Some(("audio/ogg"@, AttachmentKind::Audio))
    } else if bytes.len() > 12 && marked(bytes, 4, mp4_mark()) {
        Some(("audio/mp4"@, AttachmentKind::Audio))
    } else {
        None
    }
}

/// A type with its name as a sequence.
pub open spec fn type_view(r: Option<(&'static str, AttachmentKind)>) -> Option<
    (Seq<char>, AttachmentKind),
> {
    match r {
        Some((mime, kind)) => Some((mime@, kind)),
        None => None,
    }
}

/// Finds the type of a file by its first bytes.
///
/// SVG is left out on purpose: it is XML that can run scripts, and files are
/// served from the chat's own address. Sound comes from browsers, which record
/// WebM, Ogg or MP4, and from this program, which records WAV.
pub fn sniff(bytes: &Vec<u8>) -> (r: Option<(&'static str, AttachmentKind)>)
    ensures
        type_view(r) == sniffed(bytes@),
{
    let jpeg: Vec<u8> = vec![0xff, 0xd8, 0xff];
    let png: Vec<u8> = vec![0x89, 0x50, 0x4e, 0x47, 0x0d, 0x0a, 0x1a, 0x0a];
    let gif87: Vec<u8> = vec![0x47, 0x49, 0x46, 0x38, 0x37, 0x61];
    let gif89: Vec<u8> = vec![0x47, 0x49, 0x46, 0x38, 0x39, 0x61];
    let riff: Vec<u8> = vec![0x52, 0x49, 0x46, 0x46];
    let webp: Vec<u8> = vec![0x57, 0x45, 0x42, 0x50];
    let wave: Vec<u8> = vec![0x57, 0x41, 0x56, 0x45];
    let webm: Vec<u8> = vec![0x1a, 0x45, 0xdf, 0xa3];
    let ogg: Vec<u8> = vec![0x4f, 0x67, 0x67, 0x53];
    let mp4: Vec<u8> = vec![0x66, 0x74, 0x79, 0x70];
    proof {
        assert(jpeg@ =~= jpeg_mark());
        assert(png@ =~= png_mark());
        assert(gif87@ =~= gif87_mark());
        assert(gif89@ =~= gif89_mark());
        assert(riff@ =~= riff_mark());
        assert(webp@ =~= webp_mark());
        assert(wave@ =~= wave_mark());
        assert(webm@ =~= webm_mark());
        assert(ogg@ =~= ogg_mark());
        assert(mp4@ =~= mp4_mark());
    }
    if is_marked(bytes, 0, &jpeg) {
        Some(("image/jpeg", AttachmentKind::Image))
    } else if is_marked(bytes, 0, &png) {
        Some(("image/png", AttachmentKind::Image))
    } else if is_marked(bytes, 0, &gif87) || is_marked(bytes, 0, &gif89) {
        Some(("image/gif", AttachmentKind::Image))
    } else if bytes.len() > 12 && is_marked(bytes, 0, &riff) && is_marked(bytes, 8, &webp) {
        Some(("image/webp", AttachmentKind::Image))
    } else if bytes.len() > 12 && is_marked(bytes, 0, &riff) && is_marked(bytes, 8, &wave) {
        Some(("audio/wav", AttachmentKind::Audio))
    } else if is_marked(bytes, 0, &webm) {
        Some(("audio/webm", AttachmentKind::Audio))
    } else if is_marked(bytes, 0, &ogg) {
        Some(("audio/ogg", AttachmentKind::Audio))
    } else if bytes.len() > 12 && is_marked(bytes, 4, &mp4) {
        Some(("audio/mp4", AttachmentKind::Audio))
    } else {
        None
    }
}

/// A file and its description.
struct Entry {
    attachment: Attachment,
    file: StoredFile,
}

pub struct EntryView {
    pub attachment: AttachmentView,
    pub file: StoredFileView,
}

impl DeepView for Entry {
    type V = EntryView;

    closed spec fn deep_view(&self) -> EntryView {
        EntryView { attachment: self.attachment.deep_view(), file: self.file.deep_view() }
    }
}

/// The uploaded files, the oldest first.
pub struct MediaStore {
    capacity: usize,
    limit: usize,
    files: Vec<Entry>,
    bytes: usize,
}

#[verifier::ext_equal]
pub struct StoreView {
    pub capacity: usize,
    /// The largest file that is taken.
    pub limit: usize,
    pub files: Seq<EntryView>,
}

impl DeepView for MediaStore {
    type V = StoreView;

    closed spec fn deep_view(&self) -> StoreView {
        StoreView { capacity: self.capacity, limit: self.limit, files: self.files.deep_view() }
    }
}

/// How many bytes the files hold together.
pub open spec fn total(files: Seq<EntryView>) -> int
    decreases files.len(),
{
    if files.len() == 0 {
        0
    } else {
        files[0].file.bytes.len() + total(files.drop_first())
    }
}

/// The files that stay when the oldest give way until the rest fits.
pub open spec fn settled(files: Seq<EntryView>, capacity: int) -> Seq<EntryView>
    decreases files.len(),
{
    if files.len() == 0 || total(files) <= capacity {
        files
    } else {
        settled(files.drop_first(), capacity)
    }
}

/// Whether a file has the given identifier.
pub open spec fn is_file(id: u128) -> spec_fn(EntryView) -> bool {
    |e: EntryView| e.attachment.id == id
}

impl StoreView {
    /// Why a file is not taken, if so.
    pub open spec fn problem(self, bytes: Seq<u8>) -> Option<MediaError> {
        if bytes.len() > self.limit {
            Some(MediaError::TooLarge { size: bytes.len() as usize, limit: self.limit })
        } else if sniffed(bytes) is None {
            Some(MediaError::UnsupportedType)
        } else {
            None
        }
    }

    /// The description under which a file is taken.
    pub open spec fn described(self, id: u128, name: Seq<char>, bytes: Seq<u8>) -> AttachmentView {
        let (mime, kind) = sniffed(bytes)->0;
        AttachmentView {
            id,
            kind,
            name: cleaned_file_name(name),
            size: bytes.len() as u64,
            mime,
        }
    }

    /// The files after one more was taken.
    pub open spec fn holding(self, id: u128, name: Seq<char>, bytes: Seq<u8>) -> StoreView {
        let entry = EntryView {
            attachment: self.described(id, name, bytes),
            file: StoredFileView { mime: (sniffed(bytes)->0).0, bytes },
        };
        StoreView { files: settled(self.files.push(entry), self.capacity as int), ..self }
    }

    /// The file with the given identifier: the newest one, should there be two.
    pub open spec fn found(self, id: u128) -> Option<EntryView> {
        let at = last_where(self.files, is_file(id));
        if at >= 0 {
            Some(self.files[at])
        } else {
            None
        }
    }

    /// What the files hold never exceeds what there is room for.
    pub open spec fn within(self) -> bool {
        total(self.files) <= self.capacity
    }
}

/// One more file adds its size.
proof fn lemma_total_push(files: Seq<EntryView>, entry: EntryView)
    ensures
        total(files.push(entry)) == total(files) + entry.file.bytes.len(),
    decreases files.len(),
{
    if files.len() == 0 {
        assert(files.push(entry).drop_first() =~= Seq::<EntryView>::empty());
        assert(files.push(entry)[0] == entry);
        assert(total(Seq::<EntryView>::empty()) == 0);
    } else {
        lemma_total_push(files.drop_first(), entry);
        assert(files.push(entry).drop_first() =~= files.drop_first().push(entry));
        assert(files.push(entry)[0] == files[0]);
    }
}

impl MediaStore {
    /// The count of bytes agrees with the files, and they fit.
    pub closed spec fn wf(self) -> bool {
        &&& self.bytes == total(self.files.deep_view())
        &&& self.bytes <= self.capacity
    }

    /// A store never holds more than there is room for.
    pub proof fn law_store_stays_within(self)
        requires
            self.wf(),
        ensures
            self.deep_view().within(),
    {
    }

    /// An empty store with the given room, which takes files of the usual size.
    pub fn new(capacity: usize) -> (r: Self)
        ensures
            r.wf(),
            r.deep_view() == (StoreView { capacity, limit: MAX_UPLOAD_BYTES, files: Seq::empty() }),
    {
        MediaStore::with_limit(capacity, MAX_UPLOAD_BYTES)
    }

    /// An empty store with the given room, which takes files up to the given size.
    pub fn with_limit(capacity: usize, limit: usize) -> (r: Self)
        ensures
            r.wf(),
            r.deep_view() == (StoreView { capacity, limit, files: Seq::empty() }),
    {
        let files: Vec<Entry> = Vec::new();
        assert(files.deep_view() =~= Seq::empty());
        MediaStore { capacity, limit, files, bytes: 0 }
    }

    /// Takes a file under the given identifier and returns its description.
    ///
    /// The type comes from the contents: a client can call its bytes whatever it
    /// likes, and a browser would have to run them.
    #[verifier::loop_isolation(false)]
    pub fn put_as(&mut self, id: u128, name: &str, bytes: Vec<u8>) -> (r: Result<
        Attachment,
        MediaError,
    >)
        requires
            old(self).wf(),
        ensures
            final(self).wf(),
            match r {
                Ok(attachment) => {
                    &&& old(self).deep_view().problem(bytes@) is None
                    &&& attachment.deep_view() == old(self).deep_view().described(
                        id,
                        name@,
                        bytes@,
                    )
                    &&& final(self).deep_view() == old(self).deep_view().holding(id, name@, bytes@)
                },
                Err(error) => {
                    &&& old(self).deep_view().problem(bytes@) == Some(error)
                    &&& final(self).deep_view() == old(self).deep_view()
                },
            },
    {
        let ghost before = self.deep_view();
        let size: usize = bytes.len();
        if size > self.limit {
            return Err(MediaError::TooLarge { size, limit: self.limit });
        }
        let (mime, kind) = match sniff(&bytes) {
            Some(found) => found,
            None => {
                return Err(MediaError::UnsupportedType);
            },
        };
        let attachment = Attachment {
            id,
            kind,
            name: clean_file_name(name),
            size: size as u64,
            mime: mime.to_owned(),
        };
        let mut held: u128 = self.bytes as u128 + size as u128;
        let entry = Entry { attachment: attachment.clone(), file: StoredFile { mime, bytes } };
        let ghost value = entry.deep_view();
        proof {
            lemma_total_push(before.files, value);
        }
        self.files.push(entry);
        assert(self.files.deep_view() =~= before.files.push(value));
        let ghost full = before.files.push(value);
        while self.files.len() > 0 && held > self.capacity as u128
            invariant
                held == total(self.files.deep_view()),
                settled(full, before.capacity as int) == settled(
                    self.files.deep_view(),
                    before.capacity as int,
                ),
                self.capacity == before.capacity,
                self.limit == before.limit,
            decreases self.files@.len(),
        {
            let ghost now = self.files.deep_view();
            let oldest = self.files.remove(0);
            assert(self.files.deep_view() =~= now.drop_first());
            assert(oldest.deep_view() == now[0]);
            proof {
                lemma_total_bound(now.drop_first());
            }
            held = held - oldest.file.bytes.len() as u128;
        }
        proof {
            if self.files@.len() == 0 {
                assert(total(self.files.deep_view()) == 0);
            }
        }
        self.bytes = held as usize;
        Ok(attachment)
    }

    /// Takes a file and returns its description. Its identifier is drawn at random.
    pub fn put(&mut self, name: &str, bytes: Vec<u8>) -> (r: Result<Attachment, MediaError>)
        requires
            old(self).wf(),
        ensures
            final(self).wf(),
            match r {
                Ok(attachment) => {
                    &&& old(self).deep_view().problem(bytes@) is None
                    &&& attachment.deep_view() == old(self).deep_view().described(
                        attachment.id,
                        name@,
                        bytes@,
                    )
                    &&& final(self).deep_view() == old(self).deep_view().holding(
                        attachment.id,
                        name@,
                        bytes@,
                    )
                },
                Err(error) => {
                    &&& old(self).deep_view().problem(bytes@) == Some(error)
                    &&& final(self).deep_view() == old(self).deep_view()
                },
            },
    {
        let id = crate::ids::fresh_id();
        self.put_as(id, name, bytes)
    }

    #[verifier::loop_isolation(false)]
    fn find(&self, id: u128) -> (r: Option<usize>)
        ensures
            match r {
                Some(at) => {
                    &&& at < self.files@.len()
                    &&& at == last_where(self.files.deep_view(), is_file(id))
                },
                None => last_where(self.files.deep_view(), is_file(id)) < 0,
            },
    {
        let ghost all = self.files.deep_view();
        let mut i: usize = self.files.len();
        while i > 0
            invariant
                i <= self.files@.len(),
                forall|j: int| i <= j < all.len() ==> !is_file(id)(#[trigger] all[j]),
            decreases i,
        {
            i = i - 1;
            if self.files[i].attachment.id == id {
                proof {
                    lemma_last_where_is(all, is_file(id), i as int);
                }
                return Some(i);
            }
        }
        proof {
            lemma_last_where_is(all, is_file(id), -1);
        }
        None
    }

    /// A file by its identifier.
    pub fn get(&self, id: u128) -> (r: Option<StoredFile>)
        ensures
            r.deep_view() == match self.deep_view().found(id) {
                Some(entry) => Some(entry.file),
                None => None,
            },
    {
        match self.find(id) {
            Some(at) => Some(self.files[at].file.clone()),
            None => None,
        }
    }

    /// The description of a file by its identifier.
    ///
    /// Every message with an attachment goes through it: a client sends only the
    /// identifier, so nobody can forge a caption.
    pub fn describe(&self, id: u128) -> (r: Option<Attachment>)
        ensures
            r.deep_view() == match self.deep_view().found(id) {
                Some(entry) => Some(entry.attachment),
                None => None,
            },
    {
        match self.find(id) {
            Some(at) => Some(self.files[at].attachment.clone()),
            None => None,
        }
    }

    pub fn limit(&self) -> (r: usize)
        ensures
            r == self.deep_view().limit,
    {
        self.limit
    }

    pub fn len(&self) -> (n: usize)
        ensures
            n == self.deep_view().files.len(),
    {
        self.files.len()
    }

    pub fn is_empty(&self) -> (r: bool)
        ensures
            r == (self.deep_view().files.len() == 0),
    {
        self.files.len() == 0
    }
}

impl Default for MediaStore {
    fn default() -> (r: Self)
        ensures
            r.wf(),
            r.deep_view() == (StoreView {
                capacity: DEFAULT_CAPACITY_BYTES,
                limit: MAX_UPLOAD_BYTES,
                files: Seq::empty(),
            }),
    {
        MediaStore::new(DEFAULT_CAPACITY_BYTES)
    }
}

/// Sizes are not negative.
proof fn lemma_total_bound(files: Seq<EntryView>)
    ensures
        total(files) >= 0,
    decreases files.len(),
{
    if files.len() > 0 {
        lemma_total_bound(files.drop_first());
    }
}

/// What is left is a tail of what there was, it fits, and no longer tail fits:
/// the oldest go first, and none of them goes without need.
proof fn lemma_settled(files: Seq<EntryView>, capacity: int)
    requires
        capacity >= 0,
    ensures
        settled(files, capacity).len() <= files.len(),
        settled(files, capacity) == files.skip(files.len() - settled(files, capacity).len()),
        total(settled(files, capacity)) <= capacity,
        settled(files, capacity).len() < files.len() ==> total(
            files.skip(files.len() - settled(files, capacity).len() - 1),
        ) > capacity,
    decreases files.len(),
{
    if files.len() == 0 || total(files) <= capacity {
        assert(files.skip(0) =~= files);
    } else {
        let rest = files.drop_first();
        lemma_settled(rest, capacity);
        let n = settled(rest, capacity).len();
        assert(rest.skip(rest.len() - n) =~= files.skip(files.len() - n));
        if n < rest.len() {
            assert(rest.skip(rest.len() - n - 1) =~= files.skip(files.len() - n - 1));
        } else {
            assert(files.skip(0) =~= files);
        }
    }
}

/// After every upload the files fit. What gave way are the oldest ones, and no
/// more of them than was needed.
pub proof fn law_oldest_give_way(store: StoreView, id: u128, name: Seq<char>, bytes: Seq<u8>)
    ensures
        ({
            let after = store.holding(id, name, bytes);
            let all = store.files.push(
                EntryView {
                    attachment: store.described(id, name, bytes),
                    file: StoredFileView { mime: (sniffed(bytes)->0).0, bytes },
                },
            );
            let gone = all.len() - after.files.len();
            &&& after.within()
            &&& gone >= 0
            &&& after.files == all.skip(gone)
            &&& gone > 0 ==> total(all.skip(gone - 1)) > store.capacity
        }),
{
    let all = store.files.push(
        EntryView {
            attachment: store.described(id, name, bytes),
            file: StoredFileView { mime: (sniffed(bytes)->0).0, bytes },
        },
    );
    lemma_settled(all, store.capacity as int);
}

/// Files that are taken one after another, the oldest giving way each time.
pub open spec fn taken(files: Seq<EntryView>, new: Seq<EntryView>, capacity: int) -> Seq<EntryView>
    decreases new.len(),
{
    if new.len() == 0 {
        files
    } else {
        settled(taken(files, new.drop_last(), capacity).push(new.last()), capacity)
    }
}

/// What gave way before one more file came would have given way with it.
proof fn lemma_settled_push(files: Seq<EntryView>, entry: EntryView, capacity: int)
    ensures
        settled(settled(files, capacity).push(entry), capacity) == settled(
            files.push(entry),
            capacity,
        ),
    decreases files.len(),
{
    if files.len() > 0 && total(files) > capacity {
        let rest = files.drop_first();
        lemma_settled_push(rest, entry, capacity);
        lemma_total_push(files, entry);
        assert(files.push(entry).drop_first() =~= rest.push(entry));
    }
}

/// However many files are uploaded, what stays is what would stay if they had come at
/// once: the newest of them all that fit together.
pub proof fn law_uploads_add_up(files: Seq<EntryView>, new: Seq<EntryView>, capacity: int)
    ensures
        taken(settled(files, capacity), new, capacity) == settled(files + new, capacity),
    decreases new.len(),
{
    if new.len() == 0 {
        assert(files + new =~= files);
    } else {
        let before = new.drop_last();
        law_uploads_add_up(files, before, capacity);
        lemma_settled_push(files + before, new.last(), capacity);
        assert((files + before).push(new.last()) =~= files + new);
    }
}

/// A file that fits is found again under its identifier, with the bytes that were
/// uploaded and the description that was returned.
pub proof fn law_upload_is_found(store: StoreView, id: u128, name: Seq<char>, bytes: Seq<u8>)
    requires
        store.problem(bytes) is None,
        bytes.len() <= store.capacity,
    ensures
        ({
            let found = store.holding(id, name, bytes).found(id);
            &&& found is Some
            &&& found->0.file.bytes == bytes
            &&& found->0.attachment == store.described(id, name, bytes)
        }),
{
    let entry = EntryView {
        attachment: store.described(id, name, bytes),
        file: StoredFileView { mime: (sniffed(bytes)->0).0, bytes },
    };
    let all = store.files.push(entry);
    lemma_settled(all, store.capacity as int);
    let after = settled(all, store.capacity as int);
    if after.len() == 0 {
        assert(all.skip(all.len() - 1) =~= seq![entry]);
        assert(seq![entry].drop_first() =~= Seq::<EntryView>::empty());
        assert(total(Seq::<EntryView>::empty()) == 0);
        assert(total(seq![entry]) == bytes.len());
    }
    assert(after.last() == entry);
    assert(is_file(id)(after[after.len() - 1]));
    lemma_last_where_is(after, is_file(id), after.len() - 1);
}

} // verus!
