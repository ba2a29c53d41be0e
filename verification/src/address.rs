//! The two addresses of a server, out of what a person has typed.
use crate::http::tunneled;
use crate::state::{result_view, Endpoint, EndpointView};
use crate::text::{
    after_prefix, begins, char_count, chars_of, glue, glue3, is_white, lemma_place_is, occurs_at,
    starts, strip_start, white,
};
use crate::width::{strip_suffixes, without_suffix};
use vstd::prelude::*;

verus! {

/// Where a server is: an address without the way of connecting before it, and without
/// slashes and the path of the socket behind it.
pub open spec fn place_of(address: Seq<char>) -> Seq<char> {
    let rest = match after_prefix(address, "wss://"@) {
        Some(rest) => rest,
        None => match after_prefix(address, "ws://"@) {
            Some(rest) => rest,
            None => address,
        },
    };
    without_suffix(without_suffix(rest, "/"@), "/ws"@)
}

/// Whether white space stands in a text.
pub open spec fn has_white(s: Seq<char>) -> bool {
    exists|i: int| 0 <= i < s.len() && #[trigger] is_white(s[i])
}

/// The two addresses of the server at a place.
pub open spec fn endpoint_at(place: Seq<char>, secure: bool) -> EndpointView {
    if secure {
        EndpointView { socket: "wss://"@ + place + "/ws"@, base: "https://"@ + place }
    } else {
        EndpointView { socket: "ws://"@ + place + "/ws"@, base: "http://"@ + place }
    }
}

/// What a friend's ticket is, in an address that leads through a tunnel: what stands
/// behind its mark, without slashes at the end.
pub open spec fn ticket_of(address: Seq<char>) -> Seq<char> {
    without_suffix(address.skip("iroh://"@.len() as int), "/"@)
}

/// A server behind a tunnel has one address for everything: its ticket behind the mark.
pub open spec fn endpoint_behind(ticket: Seq<char>) -> EndpointView {
    EndpointView { socket: "iroh://"@ + ticket, base: "iroh://"@ + ticket }
}

/// Whether this can be a place or a ticket: there is something, and no white space in it.
pub open spec fn is_solid(s: Seq<char>) -> bool {
    s.len() > 0 && !has_white(s)
}

/// The addresses behind a typed one, or why it is none.
///
/// A tunnel is known by the mark before its ticket. A ticket by itself is a name like any
/// other and leads to the host of that name.
pub open spec fn endpoint_of(address: Seq<char>) -> Result<EndpointView, Seq<char>> {
    if begins(address, "iroh://"@) && is_solid(ticket_of(address)) {
        Ok(endpoint_behind(ticket_of(address)))
    } else if !begins(address, "iroh://"@) && is_solid(place_of(address)) {
        Ok(endpoint_at(place_of(address), begins(address, "wss://"@)))
    } else {
        Err("«"@ + address + "» не похоже на адрес сервера"@)
    }
}

/// Where the files of a server are; of what is no address, what was given.
pub open spec fn base_for(url: Seq<char>) -> Seq<char> {
    match endpoint_of(url) {
        Ok(endpoint) => endpoint.base,
        Err(_) => url,
    }
}

/// Whether white space stands in a text.
fn any_white(s: &str) -> (r: bool)
    ensures
        r == has_white(s@),
{
    let v = chars_of(s);
    let mut i: usize = 0;
    while i < v.len()
        invariant
            v@ == s@,
            i <= v@.len(),
            forall|k: int| 0 <= k < i ==> !#[trigger] is_white(s@[k]),
        decreases v@.len() - i,
    {
        if white(v[i]) {
            assert(is_white(s@[i as int]));
            return true;
        }
        i = i + 1;
    }
    false
}

/// Whether this can be a place or a ticket.
fn solid(s: &str) -> (r: bool)
    ensures
        r == is_solid(s@),
{
    char_count(s) > 0 && !any_white(s)
}

/// The two addresses behind what a person has typed: where one connects, and where the
/// files and the list of rooms are.
pub fn endpoint(address: &str) -> (r: Result<Endpoint, String>)
    ensures
        result_view(r) == endpoint_of(address@),
{
    if let Some(rest) = strip_start(address, "iroh://") {
        let ticket = strip_suffixes(rest.as_str(), "/");
        if !solid(ticket.as_str()) {
            return Err(glue3("«", address, "» не похоже на адрес сервера"));
        }
        let way = glue("iroh://", ticket.as_str());
        return Ok(Endpoint { socket: way.clone(), base: way });
    }
    let secure = starts(address, "wss://");
    let rest = match strip_start(address, "wss://") {
        Some(rest) => rest,
        None => match strip_start(address, "ws://") {
            Some(rest) => rest,
            None => address.to_owned(),
        },
    };
    let place = strip_suffixes(strip_suffixes(rest.as_str(), "/").as_str(), "/ws");
    if !solid(place.as_str()) {
        return Err(glue3("«", address, "» не похоже на адрес сервера"));
    }
    let (way, web) = if secure {
        ("wss://", "https://")
    } else {
        ("ws://", "http://")
    };
    Ok(Endpoint { socket: glue3(way, place.as_str(), "/ws"), base: glue(web, place.as_str()) })
}

/// Where the files of a server are; of what is no address, what was given.
pub fn base_of(url: &str) -> (r: String)
    ensures
        r@ == base_for(url@),
{
    match endpoint(url) {
        Ok(found) => found.base,
        Err(_) => url.to_owned(),
    }
}

/// What is left once an ending is gone does not end with it.
proof fn lemma_suffix_gone(s: Seq<char>, suffix: Seq<char>)
    requires
        suffix.len() > 0,
    ensures
        ({
            let rest = without_suffix(s, suffix);
            !occurs_at(rest, suffix, rest.len() - suffix.len())
        }),
    decreases s.len(),
{
    if occurs_at(s, suffix, s.len() - suffix.len()) {
        lemma_suffix_gone(s.take(s.len() - suffix.len()), suffix);
    }
}

/// An address behind a tunnel leads to itself.
proof fn lemma_tunnel_leads_to_itself(address: Seq<char>)
    requires
        begins(address, "iroh://"@),
        is_solid(ticket_of(address)),
    ensures
        endpoint_of(endpoint_behind(ticket_of(address)).socket) == endpoint_of(address),
{
    reveal_strlit("iroh://");
    reveal_strlit("/");
    let mark = "iroh://"@;
    let ticket = ticket_of(address);
    let socket = mark + ticket;
    assert(socket.subrange(0, mark.len() as int) =~= mark);
    assert(socket.skip(mark.len() as int) =~= ticket);
    lemma_suffix_gone(address.skip(mark.len() as int), "/"@);
    assert(without_suffix(ticket, "/"@) == ticket);
}

/// The address of a place leads to itself.
proof fn lemma_place_leads_to_itself(address: Seq<char>)
    requires
        !begins(address, "iroh://"@),
        is_solid(place_of(address)),
    ensures
        endpoint_of(endpoint_at(place_of(address), begins(address, "wss://"@)).socket)
            == endpoint_of(address),
{
    reveal_strlit("iroh://");
    reveal_strlit("wss://");
    reveal_strlit("ws://");
    reveal_strlit("/ws");
    reveal_strlit("/");
    let place = place_of(address);
    let secure = begins(address, "wss://"@);
    let socket = endpoint_at(place, secure).socket;
    let rest = place + "/ws"@;
    let way = if secure {
        "wss://"@
    } else {
        "ws://"@
    };
    assert(socket =~= way + rest);
    assert(socket.subrange(0, way.len() as int) =~= way);
    assert(socket.skip(way.len() as int) =~= rest);
    assert(socket[0] == way[0] && socket[2] == way[2]);
    if begins(socket, "iroh://"@) {
        assert(socket.subrange(0, 7)[0] == "iroh://"@[0]);
    }
    if !secure && begins(socket, "wss://"@) {
        assert(socket.subrange(0, 6)[2] == "wss://"@[2]);
    }
    assert(rest.last() == 's');
    if occurs_at(rest, "/"@, rest.len() - 1) {
        assert(rest.subrange(rest.len() - 1, rest.len() as int)[0] == rest.last());
    }
    assert(rest.subrange(rest.len() - 3, rest.len() as int) =~= "/ws"@);
    assert(rest.take(rest.len() - 3) =~= place);
    let typed = match after_prefix(address, "wss://"@) {
        Some(rest) => rest,
        None => match after_prefix(address, "ws://"@) {
            Some(rest) => rest,
            None => address,
        },
    };
    lemma_suffix_gone(without_suffix(typed, "/"@), "/ws"@);
    assert(without_suffix(place, "/ws"@) == place);
    assert(place_of(socket) == place);
}

/// The address where one connects leads to the same two addresses again: what is kept
/// of a server can be typed.
pub proof fn law_socket_leads_to_itself(address: Seq<char>)
    requires
        endpoint_of(address) is Ok,
    ensures
        endpoint_of(endpoint_of(address)->Ok_0.socket) == endpoint_of(address),
{
    if begins(address, "iroh://"@) {
        lemma_tunnel_leads_to_itself(address);
    } else {
        lemma_place_leads_to_itself(address);
    }
}

/// Slashes at the end go the same way with a mark before them.
proof fn lemma_slashes_behind(mark: Seq<char>, rest: Seq<char>)
    requires
        without_suffix(rest, "/"@).len() > 0,
    ensures
        without_suffix(mark + rest, "/"@) == mark + without_suffix(rest, "/"@),
    decreases rest.len(),
{
    reveal_strlit("/");
    let slash = "/"@;
    let all = mark + rest;
    assert(rest.len() > 0);
    assert(all.subrange(all.len() - 1, all.len() as int) =~= rest.subrange(
        rest.len() - 1,
        rest.len() as int,
    ));
    if occurs_at(rest, slash, rest.len() - 1) {
        let less = rest.take(rest.len() - 1);
        assert(all.take(all.len() - 1) =~= mark + less);
        lemma_slashes_behind(mark, less);
    }
}

/// An address behind a tunnel is kept whole, but for slashes at its end. Whatever is asked
/// of it, files or rooms, is asked through the tunnel, with its ticket.
pub proof fn law_tunnel_is_kept(address: Seq<char>, path: Seq<char>)
    requires
        begins(address, "iroh://"@),
        is_solid(ticket_of(address)),
        path.len() > 0 && path[0] == '/',
    ensures
        endpoint_of(address) == Ok::<EndpointView, Seq<char>>(
            EndpointView {
                socket: without_suffix(address, "/"@),
                base: without_suffix(address, "/"@),
            },
        ),
        !ticket_of(address).contains('/') ==> tunneled(base_for(address) + path) == Some(
            (ticket_of(address), path),
        ),
{
    reveal_strlit("iroh://");
    let mark = "iroh://"@;
    let ticket = ticket_of(address);
    assert(address =~= mark + address.skip(mark.len() as int));
    lemma_slashes_behind(mark, address.skip(mark.len() as int));
    let url = base_for(address) + path;
    assert(url.subrange(0, mark.len() as int) =~= mark);
    let rest = url.skip(mark.len() as int);
    assert(rest =~= ticket + path);
    if !ticket.contains('/') {
        lemma_place_is(rest, '/', ticket.len() as int);
        assert(rest.take(ticket.len() as int) =~= ticket);
        assert(rest.skip(ticket.len() as int) =~= path);
    }
}

/// No white space stands in the address where one connects.
pub proof fn lemma_socket_is_solid(address: Seq<char>)
    requires
        endpoint_of(address) is Ok,
    ensures
        is_solid(endpoint_of(address)->Ok_0.socket),
{
    reveal_strlit("iroh://");
    reveal_strlit("wss://");
    reveal_strlit("ws://");
    reveal_strlit("/ws");
    let socket = endpoint_of(address)->Ok_0.socket;
    assert forall|i: int| 0 <= i < socket.len() implies !is_white(#[trigger] socket[i]) by {
        if begins(address, "iroh://"@) {
            let ticket = ticket_of(address);
            if i >= 7 {
                assert(socket[i] == ticket[i - 7]);
            }
        } else {
            let place = place_of(address);
            let n: int = if begins(address, "wss://"@) {
                6
            } else {
                5
            };
            if n <= i < n + place.len() {
                assert(socket[i] == place[i - n]);
            }
        }
    }
}

} // verus!
