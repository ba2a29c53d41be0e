//! Checking and normalising what people type.
//!
//! The server runs these checks on everything that comes in. Clients run the
//! same ones, so that nothing hopeless travels over the network and a mistake is
//! shown at once.
use crate::text::{
    all_ascii, ascii_lower, chars_of, control, decimal, glue, glue3, head, is_ascii_char,
    is_control, is_white, join, joined, lower, number, quote_char, quoted_char, split_words,
    to_lower, trim, trimmed, white, words,
};
use vstd::prelude::*;
use vstd::string::*;
use vstd::utf8::*;

verus! {

pub const MIN_NICKNAME_CHARS: usize = 1;

pub const MAX_NICKNAME_CHARS: usize = 20;

pub const MAX_ROOM_CHARS: usize = 32;

pub const MAX_TEXT_CHARS: usize = 1000;

/// The largest file that a server takes unless it is told otherwise.
///
/// It is apart from the frame limit: files do not travel over the socket. There
/// has to be some limit, because attachments are kept in memory.
pub const MAX_UPLOAD_BYTES: usize = 104857600;

pub const MAX_FILE_NAME_CHARS: usize = 80;

/// The largest frame on the socket, in bytes. It overrides all limits above.
pub const MAX_FRAME_BYTES: usize = 16384;

/// Why a value was not accepted.
#[derive(Debug, PartialEq, Eq)]
pub enum ValidationError {
    Empty { field: &'static str },
    TooLong { field: &'static str, max: usize, actual: usize },
    IllegalChar { field: &'static str, ch: char },
}

impl Clone for ValidationError {
    fn clone(&self) -> (r: Self)
        ensures
            r == *self,
    {
        match self {
            ValidationError::Empty { field } => ValidationError::Empty { field: *field },
            ValidationError::TooLong { field, max, actual } => ValidationError::TooLong {
                field: *field,
                max: *max,
                actual: *actual,
            },
            ValidationError::IllegalChar { field, ch } => ValidationError::IllegalChar {
                field: *field,
                ch: *ch,
            },
        }
    }
}

/// Why a value was not accepted, with the field's name as a sequence.
pub enum Problem {
    Empty { field: Seq<char> },
    TooLong { field: Seq<char>, max: int, actual: int },
    IllegalChar { field: Seq<char>, ch: char },
}

impl DeepView for ValidationError {
    type V = Problem;

    open spec fn deep_view(&self) -> Problem {
        match self {
            ValidationError::Empty { field } => Problem::Empty { field: field@ },
            ValidationError::TooLong { field, max, actual } => Problem::TooLong {
                field: field@,
                max: *max as int,
                actual: *actual as int,
            },
            ValidationError::IllegalChar { field, ch } => Problem::IllegalChar {
                field: field@,
                ch: *ch,
            },
        }
    }
}

impl Problem {
    /// The sentence shown to a person.
    pub open spec fn sentence(self) -> Seq<char> {
        match self {
            Problem::Empty { field } => field + ": пустое значение"@,
            Problem::TooLong { field, max, actual } => field + ": слишком длинное ("@ + decimal(
                actual as nat,
            ) + " симв., максимум "@ + decimal(max as nat) + ")"@,
            Problem::IllegalChar { field, ch } => field + ": недопустимый символ "@ + quoted_char(
                ch,
            ),
        }
    }
}

impl ValidationError {
    /// The sentence shown to a person.
    pub fn sentence(&self) -> (s: String)
        ensures
            s@ == self.deep_view().sentence(),
    {
        match self {
            ValidationError::Empty { field } => glue(field, ": пустое значение"),
            ValidationError::TooLong { field, max, actual } => {
                let mut s = glue3(
                    field,
                    ": слишком длинное (",
                    number(*actual as u64).as_str(),
                );
                s.append(" симв., максимум ");
                s.append(number(*max as u64).as_str());
                s.append(")");
                s
            },
            ValidationError::IllegalChar { field, ch } => {
                glue3(field, ": недопустимый символ ", quote_char(*ch).as_str())
            },
        }
    }
}

/// A checked value with its text as a sequence.
pub open spec fn checked(r: Result<String, ValidationError>) -> Result<Seq<char>, Problem> {
    match r {
        Ok(s) => Ok(s@),
        Err(e) => Err(e.deep_view()),
    }
}

/// Invisible characters that can spoil what a terminal draws or forge a name:
/// zero-width ones, overrides of the writing direction, byte order marks. They
/// are no control characters.
pub open spec fn invisible(c: char) -> bool {
    let n = c as u32;
    ||| n == 0x061c
    ||| n == 0x180e
    ||| n == 0xfeff
    ||| 0x200b <= n <= 0x200f
    ||| 0x202a <= n <= 0x202e
    ||| 0x2066 <= n <= 0x2069
}

/// Whether a character is one of the invisible ones.
pub fn is_invisible(ch: char) -> (b: bool)
    ensures
        b == invisible(ch),
{
    let n: u32 = ch as u32;
    n == 0x061c || n == 0x180e || n == 0xfeff || (0x200b <= n && n <= 0x200f) || (0x202a <= n && n
        <= 0x202e) || (0x2066 <= n && n <= 0x2069)
}

/// How many bytes a text takes.
pub open spec fn byte_len(s: Seq<char>) -> int {
    encode_utf8(s).len() as int
}

/// Lets only a text through that fits into one frame.
pub fn guard_frame(field: &'static str, raw: &str) -> (r: Result<(), ValidationError>)
    ensures
        r is Ok <==> byte_len(raw@) <= MAX_FRAME_BYTES,
        r matches Err(e) ==> e.deep_view() == (Problem::TooLong {
            field: field@,
            max: MAX_FRAME_BYTES as int,
            actual: byte_len(raw@),
        }),
{
    let bytes: usize = raw.as_bytes().len();
    if bytes > MAX_FRAME_BYTES {
        return Err(ValidationError::TooLong { field, max: MAX_FRAME_BYTES, actual: bytes });
    }
    Ok(())
}

/// The first character that does not pass, if there is one.
pub open spec fn first_bad(s: Seq<char>, good: spec_fn(char) -> bool) -> Option<char>
    decreases s.len(),
{
    if s.len() == 0 {
        None
    } else if !good(s[0]) {
        Some(s[0])
    } else {
        first_bad(s.drop_first(), good)
    }
}

/// There is no bad character exactly where all of them are good.
pub proof fn lemma_first_bad(s: Seq<char>, good: spec_fn(char) -> bool)
    ensures
        first_bad(s, good) is None <==> forall|i: int| 0 <= i < s.len() ==> good(#[trigger] s[i]),
    decreases s.len(),
{
    if s.len() > 0 {
        lemma_first_bad(s.drop_first(), good);
        if good(s[0]) {
            assert forall|i: int| 0 <= i < s.drop_first().len() implies s.drop_first()[i] == s[i
                + 1] by {}
            if first_bad(s, good) is None {
                assert forall|i: int| 0 <= i < s.len() implies good(#[trigger] s[i]) by {
                    if i > 0 {
                        assert(s.drop_first()[i - 1] == s[i]);
                    }
                }
            } else {
                let d = s.drop_first();
                let k = choose|k: int| 0 <= k < d.len() && !good(#[trigger] d[k]);
                assert(!good(s[k + 1]));
            }
        }
    }
}

/// What may stand in a name.
pub open spec fn nickname_char(c: char) -> bool {
    !is_control(c) && !is_white(c) && !invisible(c)
}

/// What may stand in the name of a room.
pub open spec fn room_char(c: char) -> bool {
    'a' <= c <= 'z' || '0' <= c <= '9' || c == '_' || c == '-'
}

/// A name the way the others will see it.
pub open spec fn cleaned_nickname(raw: Seq<char>) -> Result<Seq<char>, Problem> {
    let field = "ник"@;
    let name = trimmed(raw);
    if byte_len(raw) > MAX_FRAME_BYTES {
        Err(Problem::TooLong { field, max: MAX_FRAME_BYTES as int, actual: byte_len(raw) })
    } else if name.len() == 0 {
        Err(Problem::Empty { field })
    } else if let Some(ch) = first_bad(name, |c: char| nickname_char(c)) {
        Err(Problem::IllegalChar { field, ch })
    } else if name.len() > MAX_NICKNAME_CHARS {
        Err(Problem::TooLong { field, max: MAX_NICKNAME_CHARS as int, actual: name.len() as int })
    } else {
        Ok(name)
    }
}

/// The name of a room in the one form that the server knows it by.
pub open spec fn cleaned_room(raw: Seq<char>) -> Result<Seq<char>, Problem> {
    let field = "комната"@;
    let name = lower(trimmed(raw));
    if byte_len(raw) > MAX_FRAME_BYTES {
        Err(Problem::TooLong { field, max: MAX_FRAME_BYTES as int, actual: byte_len(raw) })
    } else if name.len() == 0 {
        Err(Problem::Empty { field })
    } else if let Some(ch) = first_bad(name, |c: char| room_char(c)) {
        Err(Problem::IllegalChar { field, ch })
    } else if name.len() > MAX_ROOM_CHARS {
        Err(Problem::TooLong { field, max: MAX_ROOM_CHARS as int, actual: name.len() as int })
    } else {
        Ok(name)
    }
}

/// What a message may keep: the rest is dropped without a trace.
pub open spec fn kept(c: char) -> bool {
    !invisible(c) && (is_white(c) || !is_control(c))
}

/// The words of a message with one space between them.
pub open spec fn squeezed(raw: Seq<char>) -> Seq<char> {
    joined(words(raw.filter(|c: char| kept(c))), " "@)
}

/// The text of a message in the form in which it goes to the room.
pub open spec fn cleaned_text(raw: Seq<char>) -> Result<Seq<char>, Problem> {
    let field = "сообщение"@;
    let text = squeezed(raw);
    if byte_len(raw) > MAX_FRAME_BYTES {
        Err(Problem::TooLong { field, max: MAX_FRAME_BYTES as int, actual: byte_len(raw) })
    } else if text.len() == 0 {
        Err(Problem::Empty { field })
    } else if text.len() > MAX_TEXT_CHARS {
        Err(Problem::TooLong { field, max: MAX_TEXT_CHARS as int, actual: text.len() as int })
    } else {
        Ok(text)
    }
}

/// What stands for a character in the name of a file.
pub open spec fn file_char(c: char) -> char {
    if c == '/' || c == '\\' || c == ':' || is_control(c) || invisible(c) {
        '_'
    } else {
        c
    }
}

/// The name of a file made fit to be shown.
pub open spec fn cleaned_file_name(raw: Seq<char>) -> Seq<char> {
    let name = trimmed(head(raw, MAX_FILE_NAME_CHARS as int).map_values(|c: char| file_char(c)));
    if name.len() == 0 {
        "файл"@
    } else {
        name
    }
}

/// The name the way the others will see it.
///
/// White space at the ends is cut off; inside there may be neither white space
/// nor control characters.
#[verifier::loop_isolation(false)]
pub fn clean_nickname(raw: &str) -> (r: Result<String, ValidationError>)
    ensures
        checked(r) == cleaned_nickname(raw@),
{
    match guard_frame("ник", raw) {
        Ok(_) => {},
        Err(e) => {
            return Err(e);
        },
    }
    let name = trim(raw);
    let chars = chars_of(name.as_str());
    if chars.len() == 0 {
        return Err(ValidationError::Empty { field: "ник" });
    }
    let ghost good = |c: char| nickname_char(c);
    let mut i: usize = 0;
    assert(chars@.skip(0) =~= chars@);
    while i < chars.len()
        invariant
            i <= chars@.len(),
            first_bad(chars@, good) == first_bad(chars@.skip(i as int), good),
        decreases chars@.len() - i,
    {
        let ch = chars[i];
        proof {
            assert(chars@.skip(i as int)[0] == ch);
            assert(chars@.skip(i as int).drop_first() =~= chars@.skip(i + 1));
        }
        if control(ch) || white(ch) || is_invisible(ch) {
            return Err(ValidationError::IllegalChar { field: "ник", ch });
        }
        i = i + 1;
    }
    if chars.len() > MAX_NICKNAME_CHARS {
        return Err(
            ValidationError::TooLong {
                field: "ник",
                max: MAX_NICKNAME_CHARS,
                actual: chars.len(),
            },
        );
    }
    Ok(name)
}

/// What makes a name unique inside a room.
///
/// Letter case does not count: otherwise such pairs of names would make it too
/// easy to pass for somebody else.
pub fn nickname_key(nickname: &str) -> (key: String)
    ensures
        key@ == lower(nickname@),
        all_ascii(nickname@) ==> key@ == nickname@.map_values(|c: char| ascii_lower(c)),
{
    to_lower(nickname)
}

/// The name of a room: small letters, with `a-z 0-9 _ -` allowed.
#[verifier::loop_isolation(false)]
pub fn clean_room(raw: &str) -> (r: Result<String, ValidationError>)
    ensures
        checked(r) == cleaned_room(raw@),
        r matches Ok(name) ==> cleaned_room(name@) == Ok::<Seq<char>, Problem>(name@),
{
    match guard_frame("комната", raw) {
        Ok(_) => {},
        Err(e) => {
            return Err(e);
        },
    }
    let name = to_lower(trim(raw).as_str());
    let chars = chars_of(name.as_str());
    if chars.len() == 0 {
        return Err(ValidationError::Empty { field: "комната" });
    }
    let ghost good = |c: char| room_char(c);
    let mut i: usize = 0;
    assert(chars@.skip(0) =~= chars@);
    while i < chars.len()
        invariant
            i <= chars@.len(),
            first_bad(chars@, good) == first_bad(chars@.skip(i as int), good),
        decreases chars@.len() - i,
    {
        let ch = chars[i];
        proof {
            assert(chars@.skip(i as int)[0] == ch);
            assert(chars@.skip(i as int).drop_first() =~= chars@.skip(i + 1));
        }
        if !(('a' <= ch && ch <= 'z') || ('A' <= ch && ch <= 'Z') || ('0' <= ch && ch <= '9') || ch
            == '_' || ch == '-') {
            return Err(ValidationError::IllegalChar { field: "комната", ch });
        }
        i = i + 1;
    }
    if chars.len() > MAX_ROOM_CHARS {
        return Err(
            ValidationError::TooLong {
                field: "комната",
                max: MAX_ROOM_CHARS,
                actual: chars.len(),
            },
        );
    }
    proof {
        lemma_first_bad(name@, good);
        assert forall|i: int| 0 <= i < name@.len() implies !is_white(#[trigger] name@[i])
            && is_ascii_char(name@[i]) by {
            assert(good(name@[i]));
        }
        lemma_trimmed_same(name@);
        lemma_byte_len(name@);
    }
    Ok(name)
}

/// A text without white space at its ends is not changed by cutting it off.
pub proof fn lemma_trimmed_same(s: Seq<char>)
    requires
        s.len() > 0 ==> !is_white(s[0]) && !is_white(s.last()),
    ensures
        trimmed(s) == s,
{
}

/// A character takes at most four bytes.
pub proof fn lemma_byte_len(s: Seq<char>)
    ensures
        byte_len(s) <= 4 * s.len(),
    decreases s.len(),
{
    reveal_with_fuel(encode_utf8, 2);
    if s.len() > 0 {
        lemma_byte_len(s.drop_first());
    }
}

/// The text of a message.
///
/// Messages have one line: line breaks and tabs become spaces, other control
/// characters and invisible ones are thrown out. So nothing that is typed can
/// spoil a terminal.
#[verifier::loop_isolation(false)]
pub fn clean_text(raw: &str) -> (r: Result<String, ValidationError>)
    ensures
        checked(r) == cleaned_text(raw@),
{
    match guard_frame("сообщение", raw) {
        Ok(_) => {},
        Err(e) => {
            return Err(e);
        },
    }
    let chars = chars_of(raw);
    let ghost pass = |c: char| kept(c);
    let mut rest = String::new();
    let mut i: usize = 0;
    assert(rest@ =~= chars@.take(0).filter(pass)) by {
        reveal(Seq::filter);
    }
    while i < chars.len()
        invariant
            i <= chars@.len(),
            rest@ == chars@.take(i as int).filter(pass),
        decreases chars@.len() - i,
    {
        let ch = chars[i];
        proof {
            assert(chars@.take(i + 1) =~= chars@.take(i as int).push(ch));
            chars@.take(i as int).lemma_filter_push(ch, pass);
        }
        if !is_invisible(ch) && (white(ch) || !control(ch)) {
            rest.push(ch);
        }
        i = i + 1;
    }
    assert(chars@.take(i as int) =~= chars@);
    let text = join(&split_words(rest.as_str()), " ");
    let len: usize = chars_of(text.as_str()).len();
    if len == 0 {
        return Err(ValidationError::Empty { field: "сообщение" });
    }
    if len > MAX_TEXT_CHARS {
        return Err(
            ValidationError::TooLong { field: "сообщение", max: MAX_TEXT_CHARS, actual: len },
        );
    }
    Ok(text)
}

/// Makes the name of a file fit to be shown.
///
/// It never fails: to lose a picture over a strange name would be silly. What
/// separates the parts of a path is replaced, because the name comes from
/// outside and is nothing but a caption.
#[verifier::loop_isolation(false)]
pub fn clean_file_name(raw: &str) -> (r: String)
    ensures
        r@ == cleaned_file_name(raw@),
{
    let chars = chars_of(raw);
    let ghost shown = head(raw@, MAX_FILE_NAME_CHARS as int);
    let ghost pick = |c: char| file_char(c);
    let mut name = String::new();
    let mut i: usize = 0;
    while i < chars.len() && i < MAX_FILE_NAME_CHARS
        invariant
            i <= shown.len(),
            name@ == shown.map_values(pick).take(i as int),
        decreases chars@.len() - i,
    {
        let ch = chars[i];
        if ch == '/' || ch == '\\' || ch == ':' || control(ch) || is_invisible(ch) {
            name.push('_');
        } else {
            name.push(ch);
        }
        assert(name@ =~= shown.map_values(pick).take(i + 1));
        i = i + 1;
    }
    assert(name@ =~= shown.map_values(pick));
    let name = trim(name.as_str());
    if name.as_str().is_empty() {
        "файл".to_owned()
    } else {
        name
    }
}

/// A name that was accepted is made of characters that may stand in a name, has
/// between one and twenty of them, and is accepted again as it is.
pub proof fn law_nickname_is_stable(raw: Seq<char>)
    requires
        cleaned_nickname(raw) is Ok,
    ensures
        ({
            let name = cleaned_nickname(raw)->Ok_0;
            &&& MIN_NICKNAME_CHARS <= name.len() <= MAX_NICKNAME_CHARS
            &&& forall|i: int| 0 <= i < name.len() ==> nickname_char(#[trigger] name[i])
            &&& cleaned_nickname(name) == Ok::<Seq<char>, Problem>(name)
        }),
{
    let name = trimmed(raw);
    let good = |c: char| nickname_char(c);
    lemma_first_bad(name, good);
    assert forall|i: int| 0 <= i < name.len() implies nickname_char(#[trigger] name[i]) by {
        assert(good(name[i]));
    }
    lemma_trimmed_same(name);
    lemma_byte_len(name);
}

/// A room's name that was accepted has between one and thirty-two characters, all
/// of them from the allowed set.
pub proof fn law_room_alphabet(raw: Seq<char>)
    requires
        cleaned_room(raw) is Ok,
    ensures
        ({
            let name = cleaned_room(raw)->Ok_0;
            &&& 0 < name.len() <= MAX_ROOM_CHARS
            &&& forall|i: int| 0 <= i < name.len() ==> room_char(#[trigger] name[i])
        }),
{
    let name = lower(trimmed(raw));
    let good = |c: char| room_char(c);
    lemma_first_bad(name, good);
    assert forall|i: int| 0 <= i < name.len() implies room_char(#[trigger] name[i]) by {
        assert(good(name[i]));
    }
}

/// Words are never empty and hold no white space.
pub proof fn lemma_words_shape(s: Seq<char>)
    ensures
        forall|i: int|
            0 <= i < words(s).len() ==> {
                &&& (#[trigger] words(s)[i]).len() > 0
                &&& forall|j: int| 0 <= j < words(s)[i].len() ==> !is_white(#[trigger] words(s)[i][j])
                &&& forall|j: int| 0 <= j < words(s)[i].len() ==> s.contains(#[trigger] words(s)[i][j])
            },
        s.len() > 0 && !is_white(s.last()) ==> words(s).len() > 0,
    decreases s.len(),
{
    if s.len() > 0 {
        let d = s.drop_last();
        lemma_words_shape(d);
        let before = words(d);
        let now = words(s);
        if !is_white(s.last()) && s.len() > 1 && !is_white(s[s.len() - 2]) {
            assert(d.last() == s[s.len() - 2]);
        }
        assert forall|i: int| 0 <= i < now.len() implies {
            &&& (#[trigger] now[i]).len() > 0
            &&& forall|j: int| 0 <= j < now[i].len() ==> !is_white(#[trigger] now[i][j])
            &&& forall|j: int| 0 <= j < now[i].len() ==> s.contains(#[trigger] now[i][j])
        } by {
            if i < before.len() {
                assert(before[i].len() > 0);
            }
            assert forall|j: int| 0 <= j < now[i].len() implies s.contains(#[trigger] now[i][j]) by {
                if i < before.len() && j < before[i].len() {
                    assert(d.contains(before[i][j]));
                    let k = choose|k: int| 0 <= k < d.len() && d[k] == before[i][j];
                    assert(s[k] == before[i][j]);
                } else {
                    assert(now[i][j] == s.last());
                    assert(s[s.len() - 1] == s.last());
                }
            }
        }
    }
}

/// A word put behind a text with a space between them is one word more.
proof fn lemma_words_append(s: Seq<char>, word: Seq<char>)
    requires
        word.len() > 0,
        forall|j: int| 0 <= j < word.len() ==> !is_white(#[trigger] word[j]),
    ensures
        words(s + seq![' '] + word) == words(s).push(word),
    decreases word.len(),
{
    let t = s + seq![' '] + word;
    let short = word.drop_last();
    assert(t.drop_last() =~= s + seq![' '] + short);
    assert(t.last() == word.last());
    assert(!is_white(word[word.len() - 1]));
    if short.len() == 0 {
        let u = s + seq![' '];
        assert(t.drop_last() =~= u);
        assert(u.drop_last() =~= s);
        assert(u.last() == ' ');
        assert(words(u) == words(s));
        assert(t[t.len() - 2] == ' ');
        assert(word =~= seq![word.last()]);
    } else {
        assert forall|j: int| 0 <= j < short.len() implies !is_white(#[trigger] short[j]) by {
            assert(short[j] == word[j]);
        }
        lemma_words_append(s, short);
        let before = words(s).push(short);
        assert(t[t.len() - 2] == word[word.len() - 2]);
        assert(short.push(word.last()) =~= word);
        assert(before.update(before.len() - 1, before.last().push(word.last())) =~= words(s).push(
            word,
        ));
    }
}

/// A text without white space is one word.
proof fn lemma_one_word(word: Seq<char>)
    requires
        word.len() > 0,
        forall|j: int| 0 <= j < word.len() ==> !is_white(#[trigger] word[j]),
    ensures
        words(word) == seq![word],
    decreases word.len(),
{
    let short = word.drop_last();
    assert(!is_white(word[word.len() - 1]));
    if short.len() == 0 {
        assert(word =~= seq![word.last()]);
        assert(words(short) =~= Seq::empty());
        assert(words(word) =~= seq![word]);
    } else {
        assert forall|j: int| 0 <= j < short.len() implies !is_white(#[trigger] short[j]) by {
            assert(short[j] == word[j]);
        }
        lemma_one_word(short);
        assert(!is_white(word[word.len() - 2]));
        assert(short.push(word.last()) =~= word);
        assert(seq![short].update(0, short.push(word.last())) =~= seq![word]);
    }
}

/// The words of words joined by spaces are those words.
pub proof fn lemma_words_of_joined(parts: Seq<Seq<char>>)
    requires
        forall|i: int|
            0 <= i < parts.len() ==> {
                &&& (#[trigger] parts[i]).len() > 0
                &&& forall|j: int| 0 <= j < parts[i].len() ==> !is_white(#[trigger] parts[i][j])
            },
    ensures
        words(joined(parts, " "@)) == parts,
    decreases parts.len(),
{
    reveal_strlit(" ");
    assert(" "@ =~= seq![' ']);
    if parts.len() == 1 {
        lemma_one_word(parts[0]);
        assert(parts =~= seq![parts[0]]);
    } else if parts.len() > 1 {
        let short = parts.drop_last();
        assert forall|i: int| 0 <= i < short.len() implies {
            &&& (#[trigger] short[i]).len() > 0
            &&& forall|j: int| 0 <= j < short[i].len() ==> !is_white(#[trigger] short[i][j])
        } by {
            assert(short[i] == parts[i]);
        }
        lemma_words_of_joined(short);
        assert(parts.last() == parts[parts.len() - 1]);
        lemma_words_append(joined(short, " "@), parts.last());
        assert(short.push(parts.last()) =~= parts);
    } else {
        assert(parts =~= Seq::empty());
    }
}

/// Nothing is lost by a test that every character passes.
proof fn lemma_filter_all(s: Seq<char>, pass: spec_fn(char) -> bool)
    requires
        forall|i: int| 0 <= i < s.len() ==> pass(#[trigger] s[i]),
    ensures
        s.filter(pass) == s,
    decreases s.len(),
{
    reveal(Seq::filter);
    if s.len() > 0 {
        let d = s.drop_last();
        assert forall|i: int| 0 <= i < d.len() implies pass(#[trigger] d[i]) by {
            assert(d[i] == s[i]);
        }
        lemma_filter_all(d, pass);
        assert(s.last() == s[s.len() - 1]);
        assert(d.push(s.last()) =~= s);
    }
}

/// Every character of joined words is a space or stands in one of them.
proof fn lemma_joined_chars(parts: Seq<Seq<char>>, pass: spec_fn(char) -> bool)
    requires
        pass(' '),
        forall|i: int, j: int|
            0 <= i < parts.len() && 0 <= j < parts[i].len() ==> pass(#[trigger] parts[i][j]),
    ensures
        forall|k: int| 0 <= k < joined(parts, " "@).len() ==> pass(#[trigger] joined(parts, " "@)[k]),
    decreases parts.len(),
{
    reveal_strlit(" ");
    assert(" "@ =~= seq![' ']);
    if parts.len() > 1 {
        let short = parts.drop_last();
        assert forall|i: int, j: int| 0 <= i < short.len() && 0 <= j < short[i].len() implies pass(
            #[trigger] short[i][j],
        ) by {
            assert(short[i][j] == parts[i][j]);
        }
        lemma_joined_chars(short, pass);
        let a = joined(short, " "@);
        let all = joined(parts, " "@);
        assert forall|k: int| 0 <= k < all.len() implies pass(#[trigger] all[k]) by {
            if k < a.len() {
                assert(all[k] == a[k]);
            } else if k == a.len() {
                assert(all[k] == ' ');
            } else {
                assert(all[k] == parts[parts.len() - 1][k - a.len() - 1]);
            }
        }
    } else if parts.len() == 1 {
        assert forall|k: int| 0 <= k < parts[0].len() implies pass(#[trigger] joined(parts, " "@)[k]) by {
            assert(pass(parts[0][k]));
        }
    }
}

/// A message that was accepted has between one and a thousand characters, keeps
/// no control or invisible character, and is accepted again as it is: what the
/// sender has checked is exactly what the server posts.
pub proof fn law_text_is_stable(raw: Seq<char>)
    requires
        cleaned_text(raw) is Ok,
    ensures
        ({
            let text = cleaned_text(raw)->Ok_0;
            &&& 0 < text.len() <= MAX_TEXT_CHARS
            &&& forall|i: int|
                0 <= i < text.len() ==> !is_control(#[trigger] text[i]) && !invisible(text[i])
            &&& cleaned_text(text) == Ok::<Seq<char>, Problem>(text)
        }),
{
    let pass = |c: char| kept(c);
    let plain = |c: char| !is_control(c) && !invisible(c);
    let rest = raw.filter(pass);
    let parts = words(rest);
    let text = joined(parts, " "@);
    lemma_words_shape(rest);
    assert forall|i: int, j: int| 0 <= i < parts.len() && 0 <= j < parts[i].len() implies plain(
        #[trigger] parts[i][j],
    ) by {
        assert(parts[i].len() > 0);
        let c = parts[i][j];
        assert(rest.contains(c));
        let k = choose|k: int| 0 <= k < rest.len() && rest[k] == c;
        raw.lemma_filter_pred(pass, k);
        assert(!is_white(c));
    }
    lemma_joined_chars(parts, plain);
    assert forall|i: int| 0 <= i < text.len() implies pass(#[trigger] text[i]) by {
        assert(plain(text[i]));
    }
    assert forall|i: int| 0 <= i < text.len() implies !is_control(#[trigger] text[i]) && !invisible(
        text[i],
    ) by {
        assert(plain(text[i]));
    }
    lemma_filter_all(text, pass);
    lemma_words_of_joined(parts);
    lemma_byte_len(text);
}

} // verus!
