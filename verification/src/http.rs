//! The few requests that the client makes by itself, and what it reads in the answers.
use crate::store::{is_marked, marked};
use crate::text::{
    after_prefix, chars_of, contains, decimal, find, number, occurs, place, strip_start,
    text_between, text_of, trim, trimmed,
};
use crate::width::{strip_suffixes, without_suffix};
use vstd::prelude::*;
use vstd::string::*;
use vstd::utf8::{encode_utf8, valid_utf8};

verus! {

/// What `String::from_utf8_lossy` of std makes of some bytes.
pub uninterp spec fn lossy(bytes: Seq<u8>) -> Seq<char>;

/// Calls `String::from_utf8_lossy` of std. Claimed: the result depends on the bytes
/// alone, and bytes that are valid UTF-8 are the encoding of the result. What stands
/// in place of other bytes is not said.
#[verifier::external_body]
pub(crate) fn from_lossy(bytes: &Vec<u8>) -> (r: String)
    ensures
        r@ == lossy(bytes@),
        valid_utf8(bytes@) ==> encode_utf8(r@) == bytes@,
{
    String::from_utf8_lossy(bytes).into_owned()
}

/// Whether a byte may stand in a query as it is.
pub open spec fn is_plain(b: u8) -> bool {
    ||| 0x41 <= b <= 0x5a
    ||| 0x61 <= b <= 0x7a
    ||| 0x30 <= b <= 0x39
    ||| b == 0x2d
    ||| b == 0x5f
    ||| b == 0x2e
    ||| b == 0x7e
}

/// A digit of the sixteen, the letters large.
pub open spec fn hex_sign(n: int) -> char {
    if n < 10 {
        (48 + n) as char
    } else {
        (55 + n) as char
    }
}

/// What stands in a query for one byte.
pub open spec fn escaped_byte(b: u8) -> Seq<char> {
    if is_plain(b) {
        seq![b as char]
    } else {
        seq!['%', hex_sign(b as int / 16), hex_sign(b as int % 16)]
    }
}

/// What stands in a query for some bytes.
pub open spec fn escaped(bytes: Seq<u8>) -> Seq<char>
    decreases bytes.len(),
{
    if bytes.len() == 0 {
        Seq::empty()
    } else {
        escaped(bytes.drop_last()) + escaped_byte(bytes.last())
    }
}

fn push_escaped(out: &mut String, b: u8)
    ensures
        final(out)@ == old(out)@ + escaped_byte(b),
{
    if (0x41 <= b && b <= 0x5a) || (0x61 <= b && b <= 0x7a) || (0x30 <= b && b <= 0x39) || b == 0x2d
        || b == 0x5f || b == 0x2e || b == 0x7e {
        out.push(b as char);
        assert(out@ =~= old(out)@ + escaped_byte(b));
    } else {
        let high: u8 = b / 16;
        let low: u8 = b % 16;
        out.push('%');
        out.push(
            if high < 10 {
                (48 + high) as char
            } else {
                (55 + high) as char
            },
        );
        out.push(
            if low < 10 {
                (48 + low) as char
            } else {
                (55 + low) as char
            },
        );
        assert(out@ =~= old(out)@ + escaped_byte(b));
    }
}

/// Makes a file name fit for a query: names hold spaces and letters of all alphabets.
pub fn escape(value: &str) -> (out: String)
    ensures
        out@ == escaped(encode_utf8(value@)),
{
    let bytes = value.as_bytes();
    let ghost all = encode_utf8(value@);
    let mut out = String::new();
    let mut i: usize = 0;
    assert(all.take(0) =~= Seq::<u8>::empty());
    assert(out@ =~= escaped(all.take(0)));
    while i < bytes.len()
        invariant
            i <= bytes@.len(),
            bytes@ == all,
            out@ == escaped(all.take(i as int)),
        decreases bytes@.len() - i,
    {
        push_escaped(&mut out, bytes[i]);
        assert(all.take(i + 1).drop_last() =~= all.take(i as int));
        i = i + 1;
    }
    assert(all.take(all.len() as int) =~= all);
    out
}

/// A character that a query can hold.
pub open spec fn fits_query(c: char) -> bool {
    c == '%' || ((c as u32) < 128 && is_plain(c as u8))
}

/// Whatever the name, only letters, digits, the signs `-._~` and `%` go into a query.
pub proof fn law_query_is_plain(bytes: Seq<u8>)
    ensures
        forall|i: int| 0 <= i < escaped(bytes).len() ==> fits_query(#[trigger] escaped(bytes)[i]),
    decreases bytes.len(),
{
    if bytes.len() > 0 {
        law_query_is_plain(bytes.drop_last());
        let b = bytes.last();
        let part = escaped_byte(b);
        assert forall|i: int| 0 <= i < part.len() implies fits_query(#[trigger] part[i]) by {
            if is_plain(b) {
                assert(part[0] as u32 == b as u32);
            }
        }
        let before = escaped(bytes.drop_last());
        let all = escaped(bytes);
        assert forall|i: int| 0 <= i < all.len() implies fits_query(#[trigger] all[i]) by {
            if i < before.len() {
                assert(all[i] == before[i]);
            } else {
                assert(all[i] == part[i - before.len()]);
            }
        }
    }
}

/// What ends the head of an answer.
pub open spec fn blank_line() -> Seq<u8> {
    seq![13u8, 10u8, 13u8, 10u8]
}

/// Where the head of an answer ends, from a place on.
pub open spec fn head_end(bytes: Seq<u8>, from: int) -> Option<int>
    decreases bytes.len() - from,
{
    if from + 4 > bytes.len() {
        None
    } else if marked(bytes, from, blank_line()) {
        Some(from)
    } else {
        head_end(bytes, from + 1)
    }
}

/// Where the head of an answer ends.
fn find_head_end(bytes: &Vec<u8>) -> (r: Option<usize>)
    ensures
        match r {
            Some(at) => head_end(bytes@, 0) == Some(at as int) && at + 4 <= bytes@.len(),
            None => head_end(bytes@, 0) is None,
        },
{
    let blank: Vec<u8> = vec![13, 10, 13, 10];
    assert(blank@ =~= blank_line());
    let mut i: usize = 0;
    while i < bytes.len() && bytes.len() - i >= 4
        invariant
            i <= bytes@.len(),
            blank@ == blank_line(),
            head_end(bytes@, 0) == head_end(bytes@, i as int),
        decreases bytes@.len() - i,
    {
        if is_marked(bytes, i, &blank) {
            return Some(i);
        }
        i = i + 1;
    }
    None
}

/// The first line of a text, without what ends it.
pub open spec fn first_line(s: Seq<char>) -> Seq<char> {
    let at = place(s, '\n');
    if at == s.len() {
        s
    } else if at > 0 && s[at - 1] == '\r' {
        s.take(at - 1)
    } else {
        s.take(at)
    }
}

/// The first line of a text, without what ends it.
pub fn take_line(s: &str) -> (r: String)
    ensures
        r@ == first_line(s@),
{
    let v = chars_of(s);
    let at: usize = find(&v, '\n');
    let end: usize = if at < v.len() && at > 0 && v[at - 1] == '\r' {
        at - 1
    } else {
        at
    };
    let r = text_between(&v, 0, end);
    assert(r@ =~= first_line(s@));
    r
}

/// How many bytes of an explanation are shown to a person.
pub const EXPLANATION_BYTES: usize = 200;

/// What a person is told about an answer with this head and this body; nothing where
/// all is well.
pub open spec fn complaint(head: Seq<char>, body: Seq<char>) -> Option<Seq<char>> {
    let status = first_line(head);
    let words = trimmed(body);
    if occurs(status, " 200"@) {
        None
    } else if words.len() > 0 && encode_utf8(words).len() < EXPLANATION_BYTES {
        Some(words)
    } else {
        Some("сервер ответил: "@ + trimmed(status))
    }
}

/// What a person is told about an answer with this head and this body.
///
/// The server explains itself in plain words: they say more than a number.
pub fn explain(head: &str, body: &str) -> (r: Option<String>)
    ensures
        r.deep_view() == complaint(head@, body@),
{
    let status = take_line(head);
    if contains(status.as_str(), " 200") {
        return None;
    }
    let words = trim(body);
    if !words.as_str().is_empty() && words.as_str().as_bytes().len() < EXPLANATION_BYTES {
        return Some(words);
    }
    let mut told = "сервер ответил: ".to_owned();
    told.append(trim(status.as_str()).as_str());
    Some(told)
}

/// What an answer brings: its body or a complaint.
pub open spec fn answered(bytes: Seq<u8>) -> Result<Seq<u8>, Seq<char>> {
    match head_end(bytes, 0) {
        None => Err("сервер ответил неполным заголовком"@),
        Some(at) => match complaint(lossy(bytes.take(at)), lossy(bytes.skip(at + 4))) {
            Some(words) => Err(words),
            None => Ok(bytes.skip(at + 4)),
        },
    }
}

/// Some of the bytes.
fn bytes_between(bytes: &Vec<u8>, from: usize, to: usize) -> (r: Vec<u8>)
    requires
        from <= to <= bytes@.len(),
    ensures
        r@ == bytes@.subrange(from as int, to as int),
{
    let mut r: Vec<u8> = Vec::new();
    let mut i: usize = from;
    while i < to
        invariant
            from <= i <= to <= bytes@.len(),
            r@ == bytes@.subrange(from as int, i as int),
        decreases to - i,
    {
        r.push(bytes[i]);
        i = i + 1;
        assert(r@ =~= bytes@.subrange(from as int, i as int));
    }
    r
}

/// Parts the body from the head and looks at the status.
pub fn split_response(response: &Vec<u8>) -> (r: Result<Vec<u8>, String>)
    ensures
        match r {
            Ok(body) => answered(response@) == Ok::<Seq<u8>, Seq<char>>(body@),
            Err(words) => answered(response@) == Err::<Seq<u8>, Seq<char>>(words@),
        },
{
    let at: usize = match find_head_end(response) {
        Some(at) => at,
        None => {
            return Err("сервер ответил неполным заголовком".to_owned());
        },
    };
    let end: usize = response.len();
    let head = bytes_between(response, 0, at);
    let body = bytes_between(response, at + 4, end);
    assert(head@ =~= response@.take(at as int));
    assert(body@ =~= response@.skip(at + 4));
    match explain(from_lossy(&head).as_str(), from_lossy(&body).as_str()) {
        Some(words) => Err(words),
        None => Ok(body),
    }
}

/// An answer is taken apart where its head says that all is well: the body comes back
/// as it was sent.
pub proof fn law_body_comes_back(head: Seq<u8>, body: Seq<u8>)
    requires
        head_end(head + blank_line() + body, 0) == Some(head.len() as int),
        occurs(first_line(lossy(head)), " 200"@),
    ensures
        answered(head + blank_line() + body) == Ok::<Seq<u8>, Seq<char>>(body),
{
    let all = head + blank_line() + body;
    assert(all.take(head.len() as int) =~= head);
    assert(all.skip(head.len() as int + 4) =~= body);
}

/// A million of bytes, as people count them.
pub const MEGABYTE: usize = 1048576;

/// The number of whole parts that hold so much.
pub open spec fn parts(size: int, part: int) -> int {
    if size % part == 0 {
        size / part
    } else {
        size / part + 1
    }
}

/// What a person is told about a file that is too large; nothing where it fits.
pub open spec fn oversize(size: int, limit: int) -> Option<Seq<char>> {
    if size <= limit {
        None
    } else {
        Some(
            "файл слишком большой: "@ + decimal(parts(size, MEGABYTE as int) as nat)
                + " МБ при потолке "@ + decimal((limit / MEGABYTE as int) as nat)
                + " МБ у этого сервера"@,
        )
    }
}

/// Whether a file fits under the limit of the server. Counted in megabytes: nobody
/// thinks in kilobytes about a hundred of them.
pub fn fits(size: usize, limit: usize) -> (r: Result<(), String>)
    ensures
        match r {
            Ok(_) => oversize(size as int, limit as int) is None,
            Err(words) => oversize(size as int, limit as int) == Some(words@),
        },
{
    if size <= limit {
        return Ok(());
    }
    let whole: usize = if size % MEGABYTE == 0 {
        size / MEGABYTE
    } else {
        size / MEGABYTE + 1
    };
    let mut words = "файл слишком большой: ".to_owned();
    words.append(number(whole as u64).as_str());
    words.append(" МБ при потолке ");
    words.append(number((limit / MEGABYTE) as u64).as_str());
    words.append(" МБ у этого сервера");
    Err(words)
}

/// A host and a path out of the rest of an address.
pub open spec fn host_and_path(rest: Seq<char>) -> (Seq<char>, Seq<char>) {
    let at = place(rest, '/');
    if at == rest.len() {
        (rest, "/"@)
    } else {
        (rest.take(at), rest.skip(at))
    }
}

/// A host and a path out of the rest of an address.
fn part_address(rest: &str) -> (r: (String, String))
    ensures
        (r.0@, r.1@) == host_and_path(rest@),
{
    let v = chars_of(rest);
    let at: usize = find(&v, '/');
    if at == v.len() {
        return (text_of(&v), "/".to_owned());
    }
    let host = text_between(&v, 0, at);
    let path = text_between(&v, at, v.len());
    assert(host@ =~= rest@.take(at as int));
    assert(path@ =~= rest@.skip(at as int));
    (host, path)
}

/// The ticket and the path of an address that is reached through a tunnel.
pub open spec fn tunneled(url: Seq<char>) -> Option<(Seq<char>, Seq<char>)> {
    match after_prefix(url, "iroh://"@) {
        None => None,
        Some(rest) => Some(host_and_path(rest)),
    }
}

/// Parts an address `iroh://<ticket>/path` into the ticket and the path.
pub fn split_tunnel(url: &str) -> (r: Option<(String, String)>)
    ensures
        r.deep_view() == tunneled(url@),
{
    match strip_start(url, "iroh://") {
        None => None,
        Some(rest) => Some(part_address(rest.as_str())),
    }
}

/// A request and whom to send it to.
pub struct Request {
    pub host: String,
    pub text: String,
}

#[verifier::ext_equal]
pub struct RequestView {
    pub host: Seq<char>,
    pub text: Seq<char>,
}

impl DeepView for Request {
    type V = RequestView;

    open spec fn deep_view(&self) -> RequestView {
        RequestView { host: self.host@, text: self.text@ }
    }
}

/// What is sent to download a file, or why it cannot be.
pub open spec fn download(url: Seq<char>) -> Result<RequestView, Seq<char>> {
    match after_prefix(url, "http://"@) {
        None => Err(
            "показ по https из терминала пока не поддерживается, /open откроет во внешней программе"@,
        ),
        Some(rest) => {
            let (host, path) = host_and_path(rest);
            Ok(
                RequestView {
                    host,
                    text: "GET "@ + path + " HTTP/1.1\r\nHost: "@ + host
                        + "\r\nAccept: image/*\r\nConnection: close\r\n\r\n"@,
                },
            )
        },
    }
}

/// What is sent to download a file.
///
/// Plain addresses only: a secured one asks for a decision whom to trust, and that is
/// said honestly.
pub fn download_request(url: &str) -> (r: Result<Request, String>)
    ensures
        match r {
            Ok(request) => download(url@) == Ok::<RequestView, Seq<char>>(request.deep_view()),
            Err(words) => download(url@) == Err::<RequestView, Seq<char>>(words@),
        },
{
    match strip_start(url, "http://") {
        None => Err(
            "показ по https из терминала пока не поддерживается, /open откроет во внешней программе".to_owned(),
        ),
        Some(rest) => {
            let (host, path) = part_address(rest.as_str());
            let mut text = "GET ".to_owned();
            text.append(path.as_str());
            text.append(" HTTP/1.1\r\nHost: ");
            text.append(host.as_str());
            text.append("\r\nAccept: image/*\r\nConnection: close\r\n\r\n");
            Ok(Request { host, text })
        },
    }
}

/// What is sent ahead of a file, or why it cannot be sent.
pub open spec fn upload(base: Seq<char>, name: Seq<char>, size: int, limit: int) -> Result<
    RequestView,
    Seq<char>,
> {
    match (oversize(size, limit), after_prefix(base, "http://"@)) {
        (Some(words), _) => Err(words),
        (None, None) => Err("отправка по https из терминала пока не поддерживается"@),
        (None, Some(rest)) => {
            let host = without_suffix(rest, "/"@);
            Ok(
                RequestView {
                    host,
                    text: "POST /upload?name="@ + escaped(encode_utf8(name))
                        + " HTTP/1.1\r\nHost: "@ + host + "\r\nContent-Length: "@ + decimal(
                        size as nat,
                    ) + "\r\nConnection: close\r\n\r\n"@,
                },
            )
        },
    }
}

/// What is sent ahead of a file.
pub fn upload_request(base: &str, name: &str, size: usize, limit: usize) -> (r: Result<
    Request,
    String,
>)
    ensures
        match r {
            Ok(request) => upload(base@, name@, size as int, limit as int) == Ok::<
                RequestView,
                Seq<char>,
            >(request.deep_view()),
            Err(words) => upload(base@, name@, size as int, limit as int) == Err::<
                RequestView,
                Seq<char>,
            >(words@),
        },
{
    match fits(size, limit) {
        Ok(_) => {},
        Err(words) => {
            return Err(words);
        },
    }
    match strip_start(base, "http://") {
        None => Err("отправка по https из терминала пока не поддерживается".to_owned()),
        Some(rest) => {
            let host = strip_suffixes(rest.as_str(), "/");
            let mut text = "POST /upload?name=".to_owned();
            text.append(escape(name).as_str());
            text.append(" HTTP/1.1\r\nHost: ");
            text.append(host.as_str());
            text.append("\r\nContent-Length: ");
            text.append(number(size as u64).as_str());
            text.append("\r\nConnection: close\r\n\r\n");
            Ok(Request { host, text })
        },
    }
}

/// What is sent through a tunnel to download a file: to whom and what.
pub open spec fn tunnel_download(url: Seq<char>) -> Option<RequestView> {
    match tunneled(url) {
        None => None,
        Some((ticket, path)) => Some(
            RequestView {
                host: ticket,
                text: "GET "@ + path
                    + " HTTP/1.1\nHost: localhost\nAccept: */*\nConnection: close\n\n"@,
            },
        ),
    }
}

/// What is sent through a tunnel to download a file; nothing where the address does
/// not lead through one.
pub fn tunnel_download_request(url: &str) -> (r: Option<Request>)
    ensures
        r.deep_view() == tunnel_download(url@),
{
    match split_tunnel(url) {
        None => None,
        Some((ticket, path)) => {
            let mut text = "GET ".to_owned();
            text.append(path.as_str());
            text.append(" HTTP/1.1\nHost: localhost\nAccept: */*\nConnection: close\n\n");
            Some(Request { host: ticket, text })
        },
    }
}

/// What is sent through a tunnel ahead of a file: to whom and what.
pub open spec fn tunnel_upload(base: Seq<char>, name: Seq<char>, size: int) -> Option<RequestView> {
    match tunneled(base) {
        None => None,
        Some((ticket, path)) => Some(
            RequestView {
                host: ticket,
                text: "POST /upload?name="@ + escaped(encode_utf8(name))
                    + " HTTP/1.1\nHost: localhost\nContent-Length: "@ + decimal(size as nat)
                    + "\nConnection: close\n\n"@,
            },
        ),
    }
}

/// What is sent through a tunnel ahead of a file; nothing where the address does not
/// lead through one.
pub fn tunnel_upload_request(base: &str, name: &str, size: usize) -> (r: Option<Request>)
    ensures
        r.deep_view() == tunnel_upload(base@, name@, size as int),
{
    match split_tunnel(base) {
        None => None,
        Some((ticket, _)) => {
            let mut text = "POST /upload?name=".to_owned();
            text.append(escape(name).as_str());
            text.append(" HTTP/1.1\nHost: localhost\nContent-Length: ");
            text.append(number(size as u64).as_str());
            text.append("\nConnection: close\n\n");
            Some(Request { host: ticket, text })
        },
    }
}

} // verus!
