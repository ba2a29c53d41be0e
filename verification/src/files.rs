//! The files among which one is chosen for sending.
//!
//! Paths are plain texts here: what a path leads to is found out by whoever may touch
//! the disk.
use crate::seqs::{
    in_order, law_sorted_is_in_order, law_sorted_keeps_items, law_text_order,
    law_text_order_carries, lemma_filter_from, sort, sorted, text_before, text_le, Ranked,
};
use crate::text::{chars_of, lower, same, text_between, to_lower};
use vstd::prelude::*;
use vstd::string::*;

verus! {

/// A line of the list.
#[derive(Debug, PartialEq, Eq)]
pub struct FileEntry {
    pub name: String,
    pub path: String,
    pub is_dir: bool,
    pub size: u64,
    /// A picture or a sound: the chat shows it right in the feed. Anything else is
    /// sent as well, but arrives as a name with a size.
    pub media: bool,
}

#[verifier::ext_equal]
pub struct FileEntryView {
    pub name: Seq<char>,
    pub path: Seq<char>,
    pub is_dir: bool,
    pub size: u64,
    pub media: bool,
}

impl DeepView for FileEntry {
    type V = FileEntryView;

    open spec fn deep_view(&self) -> FileEntryView {
        FileEntryView {
            name: self.name@,
            path: self.path@,
            is_dir: self.is_dir,
            size: self.size,
            media: self.media,
        }
    }
}

impl Clone for FileEntry {
    fn clone(&self) -> (r: Self)
        ensures
            r.deep_view() == self.deep_view(),
    {
        FileEntry {
            name: self.name.clone(),
            path: self.path.clone(),
            is_dir: self.is_dir,
            size: self.size,
            media: self.media,
        }
    }
}

/// What the disk says about one file of a directory.
pub struct Found {
    pub name: String,
    pub path: String,
    pub is_dir: bool,
    pub size: u64,
}

#[verifier::ext_equal]
pub struct FoundView {
    pub name: Seq<char>,
    pub path: Seq<char>,
    pub is_dir: bool,
    pub size: u64,
}

impl DeepView for Found {
    type V = FoundView;

    open spec fn deep_view(&self) -> FoundView {
        FoundView { name: self.name@, path: self.path@, is_dir: self.is_dir, size: self.size }
    }
}

/// The last position of a character; -1 where it does not occur.
pub open spec fn last_place(s: Seq<char>, c: char) -> int
    decreases s.len(),
{
    if s.len() == 0 {
        -1
    } else if s.last() == c {
        s.len() - 1
    } else {
        last_place(s.drop_last(), c)
    }
}

/// A path without what stands behind its last name.
pub open spec fn bare(path: Seq<char>) -> Seq<char>
    decreases path.len(),
{
    let n = path.len();
    if n > 0 && (path[n - 1] == '/' || (n > 1 && path[n - 1] == '.' && path[n - 2] == '/')) {
        bare(path.drop_last())
    } else {
        path
    }
}

/// The last name of a path.
pub open spec fn last_name(path: Seq<char>) -> Seq<char> {
    bare(path).skip(last_place(bare(path), '/') + 1)
}

/// What stands behind the last dot of a name. A name that begins with its only dot
/// is hidden and has no ending.
pub open spec fn ending(path: Seq<char>) -> Option<Seq<char>> {
    let name = last_name(path);
    let dot = last_place(name, '.');
    if dot <= 0 || name == ".."@ {
        None
    } else {
        Some(name.skip(dot + 1))
    }
}

/// What the chat shows by itself.
pub open spec fn shown_by_itself(ending: Seq<char>) -> bool {
    ||| ending == "jpg"@
    ||| ending == "jpeg"@
    ||| ending == "png"@
    ||| ending == "gif"@
    ||| ending == "webp"@
    ||| ending == "webm"@
    ||| ending == "ogg"@
    ||| ending == "oga"@
    ||| ending == "mp4"@
    ||| ending == "m4a"@
    ||| ending == "wav"@
}

/// Whether a path names a picture or a sound.
pub open spec fn names_media(path: Seq<char>) -> bool {
    ending(path) matches Some(end) && shown_by_itself(lower(end))
}

/// How many of the first characters are free of one that is looked for from the end:
/// the place behind its last occurrence.
#[verifier::loop_isolation(false)]
fn behind_last(v: &Vec<char>, to: usize, c: char) -> (at: usize)
    requires
        to <= v@.len(),
    ensures
        at == last_place(v@.take(to as int), c) + 1,
        at <= to,
{
    let mut i: usize = to;
    assert(v@.take(to as int) =~= v@.take(i as int));
    while i > 0 && v[i - 1] != c
        invariant
            i <= to,
            last_place(v@.take(to as int), c) == last_place(v@.take(i as int), c),
        decreases i,
    {
        assert(v@.take(i as int).drop_last() =~= v@.take(i - 1));
        i = i - 1;
    }
    i
}

/// Where a path ends without what stands behind its last name.
#[verifier::loop_isolation(false)]
fn bare_end(v: &Vec<char>) -> (to: usize)
    ensures
        to <= v@.len(),
        v@.take(to as int) == bare(v@),
{
    let mut n: usize = v.len();
    assert(v@.take(n as int) =~= v@);
    while n > 0 && (v[n - 1] == '/' || (n > 1 && v[n - 1] == '.' && v[n - 2] == '/'))
        invariant
            n <= v@.len(),
            bare(v@.take(n as int)) == bare(v@),
        decreases n,
    {
        assert(v@.take(n as int).drop_last() =~= v@.take(n - 1));
        n = n - 1;
    }
    n
}

/// Whether a path names a picture or a sound.
pub fn is_media(path: &str) -> (r: bool)
    ensures
        r == names_media(path@),
{
    let v = chars_of(path);
    let to: usize = bare_end(&v);
    let from: usize = behind_last(&v, to, '/');
    let name = text_between(&v, from, to);
    assert(name@ =~= last_name(path@));
    if same(name.as_str(), "..") {
        return false;
    }
    let w = chars_of(name.as_str());
    let dot: usize = behind_last(&w, w.len(), '.');
    assert(w@.take(w@.len() as int) =~= w@);
    if dot <= 1 {
        return false;
    }
    let end = text_between(&w, dot, w.len());
    assert(end@ =~= name@.skip(dot as int));
    let end = to_lower(end.as_str());
    let e = end.as_str();
    same(e, "jpg") || same(e, "jpeg") || same(e, "png") || same(e, "gif") || same(e, "webp") || same(
        e,
        "webm",
    ) || same(e, "ogg") || same(e, "oga") || same(e, "mp4") || same(e, "m4a") || same(e, "wav")
}

/// Whether a file is hidden by its name.
pub open spec fn not_hidden(found: FoundView) -> bool {
    !(found.name.len() > 0 && found.name[0] == '.')
}

/// A file of a directory as a line of the list.
pub open spec fn line_for(found: FoundView) -> FileEntryView {
    FileEntryView {
        name: found.name,
        path: found.path,
        is_dir: found.is_dir,
        size: found.size,
        media: !found.is_dir && names_media(found.path),
    }
}

/// The way up, as a line of the list.
pub open spec fn way_up(parent: Seq<char>) -> FileEntryView {
    FileEntryView { name: ".."@, path: parent, is_dir: true, size: 0, media: false }
}

impl Ranked for FileEntry {
    open spec fn ranks(a: FileEntryView, b: FileEntryView) -> bool {
        if a.is_dir != b.is_dir {
            a.is_dir
        } else {
            text_le(lower(a.name), lower(b.name))
        }
    }

    fn before(&self, other: &Self) -> (r: bool) {
        if self.is_dir != other.is_dir {
            self.is_dir
        } else {
            text_before(
                to_lower(self.name.as_str()).as_str(),
                to_lower(other.name.as_str()).as_str(),
            )
        }
    }
}

/// The lines of a directory: directories first, then by name, whatever the case of the
/// letters.
pub open spec fn in_rows(found: Seq<FoundView>) -> Seq<FileEntryView> {
    sorted(
        found.filter(|f: FoundView| not_hidden(f)).map_values(|f: FoundView| line_for(f)),
        |a: FileEntryView, b: FileEntryView| FileEntry::ranks(a, b),
    )
}

/// The whole list of a directory: the way up, where there is one, and its lines.
pub open spec fn listing(parent: Option<Seq<char>>, found: Seq<FoundView>) -> Seq<FileEntryView> {
    match parent {
        Some(parent) => seq![way_up(parent)] + in_rows(found),
        None => in_rows(found),
    }
}

/// Makes the list of a directory out of what the disk says.
///
/// The way up is a line of the list, so that it is seen. Hidden files are left out:
/// in a home directory there are more of them than of the others.
#[verifier::loop_isolation(false)]
pub fn arrange(parent: Option<String>, found: Vec<Found>) -> (r: Vec<FileEntry>)
    ensures
        r.deep_view() == listing(parent.deep_view(), found.deep_view()),
{
    let ghost all = found.deep_view();
    let ghost test = |f: FoundView| not_hidden(f);
    let ghost line = |f: FoundView| line_for(f);
    let mut kept: Vec<FileEntry> = Vec::new();
    let mut i: usize = 0;
    assert(all.take(0).filter(test) =~= Seq::<FoundView>::empty());
    assert(kept.deep_view() =~= all.take(0).filter(test).map_values(line));
    while i < found.len()
        invariant
            i <= found@.len(),
            kept.deep_view() == all.take(i as int).filter(test).map_values(line),
        decreases found@.len() - i,
    {
        let file = &found[i];
        let name = chars_of(file.name.as_str());
        let ghost before = kept.deep_view();
        proof {
            assert(all.take(i + 1) =~= all.take(i as int).push(all[i as int]));
            assert(all[i as int] == found@[i as int].deep_view());
            reveal(Seq::filter);
            assert(all.take(i + 1).drop_last() =~= all.take(i as int));
        }
        if !(name.len() > 0 && name[0] == '.') {
            kept.push(
                FileEntry {
                    name: file.name.clone(),
                    path: file.path.clone(),
                    is_dir: file.is_dir,
                    size: file.size,
                    media: !file.is_dir && is_media(file.path.as_str()),
                },
            );
            proof {
                let taken = all.take(i as int).filter(test);
                assert(all.take(i + 1).filter(test) =~= taken.push(all[i as int]));
                assert(kept.deep_view() =~= before.push(line_for(all[i as int])));
                assert(taken.push(all[i as int]).map_values(line) =~= taken.map_values(line).push(
                    line_for(all[i as int]),
                ));
            }
        }
        i = i + 1;
    }
    assert(all.take(all.len() as int) =~= all);
    let mut rows = sort(kept);
    assert(rows.deep_view() =~= in_rows(all));
    match parent {
        Some(parent) => {
            let mut list: Vec<FileEntry> = Vec::new();
            list.push(
                FileEntry {
                    name: "..".to_owned(),
                    path: parent,
                    is_dir: true,
                    size: 0,
                    media: false,
                },
            );
            let ghost first = list.deep_view();
            let ghost rest = rows.deep_view();
            list.append(&mut rows);
            assert(list.deep_view() =~= seq![way_up(parent@)] + rest);
            list
        },
        None => rows,
    }
}

/// The directory with which the list opens: the one remembered, where it is still
/// there, else the downloads, else the home, else the current one.
pub open spec fn opening(
    remembered: Option<Seq<char>>,
    downloads: Option<Seq<char>>,
    home: Option<Seq<char>>,
) -> Seq<char> {
    match (remembered, downloads, home) {
        (Some(dir), _, _) => dir,
        (None, Some(dir), _) => dir,
        (None, None, Some(dir)) => dir,
        (None, None, None) => "."@,
    }
}

/// Chooses the directory with which the list opens. Each argument is a directory that
/// exists, or nothing.
pub fn start_dir(
    remembered: Option<String>,
    downloads: Option<String>,
    home: Option<String>,
) -> (r: String)
    ensures
        r@ == opening(remembered.deep_view(), downloads.deep_view(), home.deep_view()),
{
    match remembered {
        Some(dir) => dir,
        None => match downloads {
            Some(dir) => dir,
            None => match home {
                Some(dir) => dir,
                None => ".".to_owned(),
            },
        },
    }
}

/// In the list of a directory no file stands above a directory, and neither is out of
/// the order of the names.
pub proof fn law_listing_is_in_order(found: Seq<FoundView>)
    ensures
        in_order(in_rows(found), |a: FileEntryView, b: FileEntryView| FileEntry::ranks(a, b)),
{
    let le = |a: FileEntryView, b: FileEntryView| FileEntry::ranks(a, b);
    assert forall|a: FileEntryView, b: FileEntryView| #[trigger] le(a, b) || le(b, a) by {
        law_text_order(lower(a.name), lower(b.name));
    }
    assert forall|a: FileEntryView, b: FileEntryView, c: FileEntryView| #[trigger]
        le(a, b) && #[trigger] le(b, c) implies le(a, c) by {
        if a.is_dir == b.is_dir && b.is_dir == c.is_dir {
            law_text_order_carries(lower(a.name), lower(b.name), lower(c.name));
        }
    }
    law_sorted_is_in_order(
        found.filter(|f: FoundView| not_hidden(f)).map_values(|f: FoundView| line_for(f)),
        le,
    );
}

/// No hidden file is in the list of a directory.
pub proof fn law_hidden_stay_hidden(found: Seq<FoundView>)
    ensures
        forall|i: int|
            0 <= i < in_rows(found).len() ==> !((#[trigger] in_rows(found)[i]).name.len() > 0
                && in_rows(found)[i].name[0] == '.'),
{
    broadcast use vstd::seq_lib::group_to_multiset_ensures;

    let test = |f: FoundView| not_hidden(f);
    let line = |f: FoundView| line_for(f);
    let le = |a: FileEntryView, b: FileEntryView| FileEntry::ranks(a, b);
    let lines = found.filter(test).map_values(line);
    law_sorted_keeps_items(lines, le);
    lemma_filter_from(found, test);
    assert forall|i: int| 0 <= i < in_rows(found).len() implies !((#[trigger] in_rows(
        found,
    )[i]).name.len() > 0 && in_rows(found)[i].name[0] == '.') by {
        let row = in_rows(found)[i];
        assert(in_rows(found).contains(row));
        assert(in_rows(found).to_multiset().count(row) > 0);
        assert(lines.contains(row));
        let k = choose|k: int| 0 <= k < lines.len() && lines[k] == row;
        assert(row == line_for(found.filter(test)[k]));
    }
}

} // verus!
