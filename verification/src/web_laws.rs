//! What the addresses of servers and files mean, and what is asked and answered there.
use crate::address::{endpoint_of, has_white, is_solid};
use crate::host::{neighbourly, offered, leads_out, weight, Address, HostedView, Interface};
use crate::http::{
    answered, blank_line, download, escaped, escaped_byte, first_line, head_end, lossy, upload,
    RequestView,
};
use crate::ids::{hex, hex_digit, id_text};
use crate::state::EndpointView;
use crate::store::marked;
use crate::text::{begins, decimal, is_white, lemma_place_is, occurs, occurs_at, place};
use crate::width::without_suffix;
use vstd::prelude::*;
use vstd::utf8::encode_utf8;

verus! {

/// Whether this is the name of a host: there is something, and neither a slash nor white
/// space in it.
pub open spec fn is_host(s: Seq<char>) -> bool {
    &&& s.len() > 0
    &&& forall|i: int| 0 <= i < s.len() ==> #[trigger] s[i] != '/' && !is_white(s[i])
}

pub proof fn lemma_no_slash(host: Seq<char>, suffix: Seq<char>)
    requires
        is_host(host),
        suffix.len() > 0,
        suffix[0] == '/',
    ensures
        without_suffix(host, suffix) == host,
{
    if occurs_at(host, suffix, host.len() - suffix.len()) {
        assert(host.subrange(host.len() - suffix.len(), host.len() as int)[0] == suffix[0]);
        assert(host[host.len() - suffix.len()] == '/');
    }
}

/// A host leads to its two addresses, however it was typed: by itself, with a slash behind
/// it, with the path of the socket, and with the way of connecting before it.
pub proof fn law_address_is_understood(host: Seq<char>)
    requires
        is_host(host),
    ensures
        ({
            let open = Ok::<EndpointView, Seq<char>>(
                EndpointView {
                    socket: "ws://"@ + host + "/ws"@,
                    base: "http://"@ + host,
                },
            );
            let secure = Ok::<EndpointView, Seq<char>>(
                EndpointView {
                    socket: "wss://"@ + host + "/ws"@,
                    base: "https://"@ + host,
                },
            );
            &&& endpoint_of(host) == open
            &&& endpoint_of("ws://"@ + host) == open
            &&& endpoint_of("ws://"@ + (host + "/"@)) == open
            &&& endpoint_of("ws://"@ + (host + "/ws"@)) == open
            &&& endpoint_of("wss://"@ + host) == secure
            &&& endpoint_of("wss://"@ + (host + "/"@)) == secure
            &&& endpoint_of("wss://"@ + (host + "/ws"@)) == secure
        }),
{
    reveal_strlit("iroh://");
    reveal_strlit("wss://");
    reveal_strlit("ws://");
    reveal_strlit("/ws");
    reveal_strlit("/");
    lemma_no_slash(host, "/"@);
    lemma_no_slash(host, "/ws"@);
    assert(!has_white(host));
    let slashed = host + "/"@;
    assert(slashed.subrange(host.len() as int, host.len() as int + 1) =~= "/"@);
    assert(slashed.take(host.len() as int) =~= host);
    assert(without_suffix(slashed, "/"@) == host);
    let whole = host + "/ws"@;
    assert(whole.last() == 's');
    if occurs_at(whole, "/"@, whole.len() - 1) {
        assert(whole.subrange(whole.len() - 1, whole.len() as int)[0] == whole.last());
    }
    assert(without_suffix(whole, "/"@) == whole);
    assert(whole.subrange(host.len() as int, host.len() as int + 3) =~= "/ws"@);
    assert(whole.take(host.len() as int) =~= host);
    assert(without_suffix(whole, "/ws"@) == host);
    lemma_plain_host(host);
    lemma_ways(host, host);
    lemma_ways(host, slashed);
    lemma_ways(host, whole);
}

pub proof fn lemma_plain_host(host: Seq<char>)
    requires
        is_host(host),
    ensures
        !begins(host, "iroh://"@),
        !begins(host, "wss://"@),
        !begins(host, "ws://"@),
{
    reveal_strlit("iroh://");
    reveal_strlit("wss://");
    reveal_strlit("ws://");
    if begins(host, "iroh://"@) {
        assert(host[5] == host.subrange(0, 7)[5]);
    }
    if begins(host, "wss://"@) {
        assert(host[4] == host.subrange(0, 6)[4]);
    }
    if begins(host, "ws://"@) {
        assert(host[3] == host.subrange(0, 5)[3]);
    }
}

proof fn lemma_ways(host: Seq<char>, rest: Seq<char>)
    requires
        is_solid(host),
        without_suffix(without_suffix(rest, "/"@), "/ws"@) == host,
    ensures
        endpoint_of("ws://"@ + rest) == Ok::<EndpointView, Seq<char>>(
            EndpointView { socket: "ws://"@ + host + "/ws"@, base: "http://"@ + host },
        ),
        endpoint_of("wss://"@ + rest) == Ok::<EndpointView, Seq<char>>(
            EndpointView { socket: "wss://"@ + host + "/ws"@, base: "https://"@ + host },
        ),
{
    reveal_strlit("iroh://");
    reveal_strlit("wss://");
    reveal_strlit("ws://");
    let a = "ws://"@ + rest;
    let b = "wss://"@ + rest;
    assert(a.subrange(0, 5) =~= "ws://"@);
    assert(b.subrange(0, 6) =~= "wss://"@);
    assert(a.skip(5) =~= rest);
    assert(b.skip(6) =~= rest);
    if begins(a, "wss://"@) {
        assert(a.subrange(0, 6)[2] == "wss://"@[2]);
    }
    if begins(a, "iroh://"@) {
        assert(a.subrange(0, 7)[0] == "iroh://"@[0]);
    }
    if begins(b, "iroh://"@) {
        assert(b.subrange(0, 7)[0] == "iroh://"@[0]);
    }
}

/// Where there is white space in what was typed, or nothing, it is no address, and what was
/// typed is named in the complaint.
pub proof fn law_what_is_no_address(typed: Seq<char>)
    requires
        typed.len() == 0 || (!begins(typed, "iroh://"@) && !begins(typed, "wss://"@) && !begins(
            typed,
            "ws://"@,
        ) && typed.last() != '/' && typed.last() != 's' && has_white(typed)),
    ensures
        endpoint_of(typed) == Err::<EndpointView, Seq<char>>(
            "«"@ + typed + "» не похоже на адрес сервера"@,
        ),
{
    reveal_strlit("iroh://");
    reveal_strlit("wss://");
    reveal_strlit("ws://");
    reveal_strlit("/ws");
    reveal_strlit("/");
    if typed.len() > 0 {
        if occurs_at(typed, "/"@, typed.len() - 1) {
            assert(typed.subrange(typed.len() - 1, typed.len() as int)[0] == typed.last());
        }
        if occurs_at(typed, "/ws"@, typed.len() - 3) {
            assert(typed.subrange(typed.len() - 3, typed.len() as int)[2] == typed.last());
        }
    }
}

/// Letters, digits and the signs `-._~` stand in a query as they are; any other byte stands
/// as a percent sign and its two digits of the sixteen, from which it can be told. What
/// stands for two texts one behind the other stands for both together.
pub proof fn law_query_can_be_read(a: Seq<u8>, b: Seq<u8>, byte: u8)
    ensures
        escaped(seq![byte]) == escaped_byte(byte),
        ({
            let c = byte as char;
            let plain = 'a' <= c <= 'z' || 'A' <= c <= 'Z' || '0' <= c <= '9' || c == '-' || c
                == '_' || c == '.' || c == '~';
            &&& plain ==> escaped_byte(byte) == seq![c]
            &&& !plain ==> {
                &&& escaped_byte(byte).len() == 3
                &&& escaped_byte(byte)[0] == '%'
                &&& digit_value(escaped_byte(byte)[1]) * 16 + digit_value(escaped_byte(byte)[2])
                    == byte
            }
        }),
        escaped(a + b) == escaped(a) + escaped(b),
    decreases b.len(),
{
    reveal_with_fuel(escaped, 2);
    assert(seq![byte].drop_last() =~= Seq::<u8>::empty());
    assert(escaped(seq![byte]) =~= escaped_byte(byte));
    if b.len() == 0 {
        assert(a + b =~= a);
        assert(escaped(a) + escaped(b) =~= escaped(a));
    } else {
        law_query_can_be_read(a, b.drop_last(), byte);
        assert((a + b).drop_last() =~= a + b.drop_last());
        assert((a + b).last() == b.last());
        assert(escaped(a + b) =~= escaped(a) + escaped(b));
    }
}

/// What a digit of the sixteen counts.
pub open spec fn digit_value(c: char) -> int {
    if '0' <= c <= '9' {
        c as int - 48
    } else if 'A' <= c <= 'F' {
        c as int - 55
    } else {
        -1
    }
}

/// Whether the head of an answer ends at a place: the bytes of an empty line stand there.
pub open spec fn ends_at(bytes: Seq<u8>, at: int) -> bool {
    &&& at + 4 <= bytes.len()
    &&& bytes[at] == 13 && bytes[at + 1] == 10 && bytes[at + 2] == 13 && bytes[at + 3] == 10
}

proof fn lemma_head_end(bytes: Seq<u8>, from: int, at: int)
    requires
        0 <= from <= at <= bytes.len(),
        forall|i: int| from <= i < at ==> !#[trigger] ends_at(bytes, i),
    ensures
        ends_at(bytes, at) ==> head_end(bytes, from) == Some(at),
        at == bytes.len() ==> head_end(bytes, from) is None,
    decreases at - from,
{
    reveal_with_fuel(head_end, 2);
    assert(from + 4 <= bytes.len() ==> (marked(bytes, from, blank_line()) <==> ends_at(
        bytes,
        from,
    ))) by {
        if from + 4 <= bytes.len() {
            let part = bytes.subrange(from, from + 4);
            if ends_at(bytes, from) {
                assert(part =~= blank_line());
            }
            if part == blank_line() {
                assert(part[0] == 13 && part[1] == 10 && part[2] == 13 && part[3] == 10);
            }
        }
    }
    if from < at {
        assert(!ends_at(bytes, from));
        lemma_head_end(bytes, from + 1, at);
    }
}

/// An answer is parted at its first empty line. Where its first line holds the number 200
/// the body is handed on as it came; else there is a complaint. An answer without an empty
/// line is none.
pub proof fn law_answer_is_taken_apart(bytes: Seq<u8>, at: int)
    requires
        0 <= at <= bytes.len(),
        forall|i: int| 0 <= i < at ==> !#[trigger] ends_at(bytes, i),
    ensures
        ends_at(bytes, at) && occurs(first_line(lossy(bytes.take(at))), " 200"@) ==> answered(bytes)
            == Ok::<Seq<u8>, Seq<char>>(bytes.skip(at + 4)),
        ends_at(bytes, at) && !occurs(first_line(lossy(bytes.take(at))), " 200"@) ==> answered(
            bytes,
        ) is Err,
        at == bytes.len() ==> answered(bytes) is Err,
{
    lemma_head_end(bytes, 0, at);
}

/// The first line of a text is what stands before its first line break.
pub proof fn law_first_line(line: Seq<char>, rest: Seq<char>)
    requires
        forall|i: int| 0 <= i < line.len() ==> #[trigger] line[i] != '\n' && line[i] != '\r',
    ensures
        first_line(line) == line,
        first_line(line + seq!['\n'] + rest) == line,
        first_line(line + seq!['\r', '\n'] + rest) == line,
{
    lemma_place_is(line, '\n', line.len() as int);
    let a = line + seq!['\n'] + rest;
    let b = line + seq!['\r', '\n'] + rest;
    assert forall|i: int| 0 <= i < line.len() implies a[i] != '\n' by {
        assert(a[i] == line[i]);
    }
    lemma_place_is(a, '\n', line.len() as int);
    assert forall|i: int| 0 <= i < line.len() + 1 implies b[i] != '\n' by {
        if i < line.len() {
            assert(b[i] == line[i]);
        }
    }
    lemma_place_is(b, '\n', line.len() as int + 1);
    assert(a.take(line.len() as int) =~= line);
    assert(b.take(line.len() as int) =~= line);
    if line.len() > 0 {
        assert(a[line.len() - 1] == line[line.len() - 1]);
    }
}

/// What is asked of a host for a path on it; a secured address is not asked.
pub proof fn law_download_asks_the_host(host: Seq<char>, path: Seq<char>, url: Seq<char>)
    requires
        is_host(host),
        path.len() > 0 && path[0] == '/',
    ensures
        download("http://"@ + (host + path)) == Ok::<RequestView, Seq<char>>(
            RequestView {
                host,
                text: "GET "@ + path + " HTTP/1.1\r\nHost: "@ + host
                    + "\r\nAccept: image/*\r\nConnection: close\r\n\r\n"@,
            },
        ),
        !begins(url, "http://"@) ==> download(url) is Err,
{
    reveal_strlit("http://");
    let all = "http://"@ + (host + path);
    assert(all.subrange(0, 7) =~= "http://"@);
    let rest = host + path;
    assert(all.skip(7) =~= rest);
    assert(rest[host.len() as int] == '/');
    assert forall|i: int| 0 <= i < host.len() implies rest[i] != '/' by {
        assert(rest[i] == host[i]);
    }
    lemma_place_is(rest, '/', host.len() as int);
    assert(rest.take(host.len() as int) =~= host);
    assert(rest.skip(host.len() as int) =~= path);
}

/// A file goes to the host of the server with its name and its size, where it is not larger
/// than the server takes; else there is a complaint, and nothing is sent.
pub proof fn law_upload_goes_to_the_host(host: Seq<char>, name: Seq<char>, size: int, limit: int)
    requires
        is_host(host),
        0 <= size,
    ensures
        size <= limit ==> upload("http://"@ + host, name, size, limit) == Ok::<
            RequestView,
            Seq<char>,
        >(
            RequestView {
                host,
                text: "POST /upload?name="@ + escaped(encode_utf8(name)) + " HTTP/1.1\r\nHost: "@
                    + host + "\r\nContent-Length: "@ + decimal(size as nat)
                    + "\r\nConnection: close\r\n\r\n"@,
            },
        ),
        size > limit ==> upload("http://"@ + host, name, size, limit) is Err,
{
    reveal_strlit("http://");
    reveal_strlit("/");
    let all = "http://"@ + host;
    assert(all.subrange(0, 7) =~= "http://"@);
    assert(all.skip(7) =~= host);
    lemma_no_slash(host, "/"@);
}

/// Whether an interface leads to the neighbours at an address: it does not lead back, and
/// the address is one of the three kinds that are used at home and at work.
pub open spec fn leads_to(interface: Interface, address: Address) -> bool {
    &&& !interface.loopback
    &&& interface.address == Some(address)
    &&& address.a == 10 || (address.a == 192 && address.b == 168) || (address.a == 172 && address.b
        >= 16 && address.b <= 31)
}

/// The addresses that are offered are those of the interfaces that lead to the neighbours,
/// all of them and no others; those of home networks stand before all others, and those of
/// larger networks before those that are mostly bridges on the machine itself.
pub proof fn law_neighbours_find_the_machine(found: Seq<Interface>)
    ensures
        forall|k: int, address: Address|
            0 <= k < found.len() && #[trigger] leads_to(found[k], address) ==> neighbourly(
                found,
            ).contains(address),
        forall|i: int|
            0 <= i < neighbourly(found).len() ==> is_led_to(found, #[trigger] neighbourly(found)[i]),
        forall|i: int, j: int|
            0 <= i < j < neighbourly(found).len() ==> stands_before(
                #[trigger] neighbourly(found)[i],
                #[trigger] neighbourly(found)[j],
            ),
{
    crate::host::law_only_neighbours_are_offered(found);
    let kept = found.filter(leads_out());
    let all = offered(found);
    let list = neighbourly(found);
    crate::seqs::lemma_filter_from(found, leads_out());
    assert forall|k: int, address: Address|
        0 <= k < found.len() && #[trigger] leads_to(found[k], address) implies list.contains(
        address,
    ) by {
        assert(leads_out()(found[k]));
        let i = choose|i: int| 0 <= i < kept.len() && kept[i] == found[k];
        assert(all[i] == address);
    }
    assert forall|i: int| 0 <= i < list.len() implies is_led_to(found, #[trigger] list[i]) by {
        assert(all.contains(list[i]));
        let j = choose|j: int| 0 <= j < all.len() && all[j] == list[i];
        assert(found.contains(kept[j]) && leads_out()(kept[j]));
        let k = choose|k: int| 0 <= k < found.len() && found[k] == kept[j];
        assert(leads_to(found[k], list[i]));
    }
    assert forall|i: int, j: int| 0 <= i < j < list.len() implies stands_before(
        #[trigger] list[i],
        #[trigger] list[j],
    ) by {
        assert(weight(list[i]) < weight(list[j]));
    }
}

/// Whether one of some interfaces leads to an address.
pub open spec fn is_led_to(found: Seq<Interface>, address: Address) -> bool {
    exists|k: int| 0 <= k < found.len() && #[trigger] leads_to(found[k], address)
}

/// Whether an address may stand before another one: no less likely a kind, and within one
/// kind a smaller number.
pub open spec fn stands_before(a: Address, b: Address) -> bool {
    let home = |x: Address| x.a == 192 && x.b == 168;
    &&& home(b) ==> home(a)
    &&& b.a == 10 ==> home(a) || a.a == 10
    &&& a != b
    &&& a.a == b.a ==> a.b <= b.b
}

/// The lines that invite others: the port, then the ticket where there is one, then for
/// every address how to get there from a computer and from a phone.
pub proof fn law_invitations_tell_the_way(hosted: HostedView, addresses: Seq<Address>)
    ensures
        ({
            let lines = hosted.inviting(addresses);
            let n: int = if hosted.ticket is Some {
                3
            } else {
                2
            };
            &&& lines.len() == n + addresses.len()
            &&& lines[0] == "сервер поднят здесь же, порт "@ + decimal(hosted.port as nat)
            &&& hosted.ticket is Some ==> lines[2] == hosted.ticket->0
            &&& forall|i: int|
                0 <= i < addresses.len() ==> invites(
                    #[trigger] addresses[i],
                    hosted.port,
                    lines[n + i],
                )
        }),
{
}

/// Whether a line tells how to get to a server from a computer and from a phone.
pub open spec fn invites(address: Address, port: u16, line: Seq<char>) -> bool {
    let place = decimal(address.a as nat) + "."@ + decimal(address.b as nat) + "."@ + decimal(
        address.c as nat,
    ) + "."@ + decimal(address.d as nat);
    line == "кто рядом: --server ws://"@ + place + ":"@ + decimal(port as nat)
        + "/ws · с телефона http://"@ + place + ":"@ + decimal(port as nat)
}

/// Sixteen times itself, so many times.
spec fn sixteens(digits: nat) -> nat
    decreases digits,
{
    if digits == 0 {
        1
    } else {
        16 * sixteens((digits - 1) as nat)
    }
}

proof fn lemma_hex(a: nat, b: nat, digits: nat)
    ensures
        hex(a, digits).len() == digits,
        sixteens(digits) > 0,
        hex(a, digits) == hex(b, digits) ==> a % sixteens(digits) == b % sixteens(digits),
    decreases digits,
{
    if digits > 0 {
        let less = (digits - 1) as nat;
        lemma_hex(a / 16, b / 16, less);
        lemma_hex(b / 16, a / 16, less);
        let m = sixteens(less);
        let x = hex(a, digits);
        let y = hex(b, digits);
        if x == y {
            assert(x.drop_last() =~= hex(a / 16, less));
            assert(y.drop_last() =~= hex(b / 16, less));
            assert(x.last() == hex_digit((a % 16) as int));
            assert(y.last() == hex_digit((b % 16) as int));
            assert(a % 16 == b % 16);
            lemma_digit_off(a, m);
            lemma_digit_off(b, m);
        }
    } else {
        assert(a % 1 == 0 && b % 1 == 0);
    }
}

proof fn lemma_digit_off(a: nat, m: nat)
    requires
        m > 0,
    ensures
        a % (16 * m) == ((a / 16) % m) * 16 + a % 16,
{
    vstd::arithmetic::div_mod::lemma_mod_breakdown(a as int, 16, m as int);
}

proof fn lemma_sixteens()
    ensures
        sixteens(4) == 0x1_0000,
        sixteens(8) == 0x1_0000_0000,
        sixteens(12) == 0x1_0000_0000_0000,
{
    reveal_with_fuel(sixteens, 13);
}

/// The five groups of a written number, each as long as it is.
proof fn lemma_groups(a: u128)
    ensures
        ({
            let x = a as nat;
            let s = id_text(a);
            &&& s.subrange(0, 8) == hex(x / 0x1_0000_0000_0000_0000_0000_0000, 8)
            &&& s.subrange(9, 13) == hex(x / 0x1_0000_0000_0000_0000_0000, 4)
            &&& s.subrange(14, 18) == hex(x / 0x1_0000_0000_0000_0000, 4)
            &&& s.subrange(19, 23) == hex(x / 0x1_0000_0000_0000, 4)
            &&& s.subrange(24, 36) == hex(x, 12)
        }),
{
    reveal_strlit("-");
    let x = a as nat;
    let one = hex(x / 0x1_0000_0000_0000_0000_0000_0000, 8);
    let two = hex(x / 0x1_0000_0000_0000_0000_0000, 4);
    let three = hex(x / 0x1_0000_0000_0000_0000, 4);
    let four = hex(x / 0x1_0000_0000_0000, 4);
    let five = hex(x, 12);
    lemma_hex(x / 0x1_0000_0000_0000_0000_0000_0000, 0, 8);
    lemma_hex(x / 0x1_0000_0000_0000_0000_0000, 0, 4);
    lemma_hex(x / 0x1_0000_0000_0000_0000, 0, 4);
    lemma_hex(x / 0x1_0000_0000_0000, 0, 4);
    lemma_hex(x, 0, 12);
    let s = one + "-"@ + two + "-"@ + three + "-"@ + four + "-"@ + five;
    assert(s == id_text(a));
    assert(s.subrange(0, 8) =~= one);
    assert(s.subrange(9, 13) =~= two);
    assert(s.subrange(14, 18) =~= three);
    assert(s.subrange(19, 23) =~= four);
    assert(s.subrange(24, 36) =~= five);
}

/// Two numbers are never written the same way: a file that is asked for by what is written
/// is the one that is meant.
pub proof fn law_numbers_are_written_apart(a: u128, b: u128)
    requires
        id_text(a) == id_text(b),
    ensures
        a == b,
{
    let x = a as nat;
    let y = b as nat;
    lemma_groups(a);
    lemma_groups(b);
    lemma_sixteens();
    lemma_hex(x / 0x1_0000_0000_0000_0000_0000_0000, y / 0x1_0000_0000_0000_0000_0000_0000, 8);
    lemma_hex(x / 0x1_0000_0000_0000_0000_0000, y / 0x1_0000_0000_0000_0000_0000, 4);
    lemma_hex(x / 0x1_0000_0000_0000_0000, y / 0x1_0000_0000_0000_0000, 4);
    lemma_hex(x / 0x1_0000_0000_0000, y / 0x1_0000_0000_0000, 4);
    lemma_hex(x, y, 12);
    lemma_put_together(x, y);
}

proof fn lemma_put_together(x: nat, y: nat)
    requires
        x < 0x1_0000_0000_0000_0000_0000_0000_0000_0000,
        y < 0x1_0000_0000_0000_0000_0000_0000_0000_0000,
        x % 0x1_0000_0000_0000 == y % 0x1_0000_0000_0000,
        (x / 0x1_0000_0000_0000) % 0x1_0000 == (y / 0x1_0000_0000_0000) % 0x1_0000,
        (x / 0x1_0000_0000_0000_0000) % 0x1_0000 == (y / 0x1_0000_0000_0000_0000) % 0x1_0000,
        (x / 0x1_0000_0000_0000_0000_0000) % 0x1_0000 == (y / 0x1_0000_0000_0000_0000_0000)
            % 0x1_0000,
        (x / 0x1_0000_0000_0000_0000_0000_0000) % 0x1_0000_0000 == (y
            / 0x1_0000_0000_0000_0000_0000_0000) % 0x1_0000_0000,
    ensures
        x == y,
{
    assert(x / 0x1_0000_0000_0000_0000 == (x / 0x1_0000_0000_0000) / 0x1_0000);
    assert(y / 0x1_0000_0000_0000_0000 == (y / 0x1_0000_0000_0000) / 0x1_0000);
    assert(x / 0x1_0000_0000_0000_0000_0000 == (x / 0x1_0000_0000_0000_0000) / 0x1_0000);
    assert(y / 0x1_0000_0000_0000_0000_0000 == (y / 0x1_0000_0000_0000_0000) / 0x1_0000);
    assert(x / 0x1_0000_0000_0000_0000_0000_0000 == (x / 0x1_0000_0000_0000_0000_0000) / 0x1_0000);
    assert(y / 0x1_0000_0000_0000_0000_0000_0000 == (y / 0x1_0000_0000_0000_0000_0000) / 0x1_0000);
}

} // verus!
