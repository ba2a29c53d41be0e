//! What is asked through a tunnel, what a server tells of itself, and what comes of the work
//! outside.
use crate::address::base_for;
use crate::command_laws::{is_command_name, order_line};
use crate::errands::{headers_of, other_server};
use crate::files::opening;
use crate::host::{announced, certificate_dir, named_in_certificate, own_url, Address};
use crate::http::{escaped, tunnel_download, tunnel_upload, tunneled, RequestView};
use crate::keys::KeyEvent;
use crate::picture::{picture_or_words, DecodedView, PictureView};
use crate::send_laws::is_path;
use crate::state::{ScreenView, StateView, WorldView};
use crate::text::{begins, decimal, lemma_place_is, lower, trimmed};
use crate::web_laws::is_host;
use vstd::prelude::*;
use vstd::utf8::encode_utf8;

verus! {

/// An address behind a tunnel is parted into its ticket and its path: what is asked goes to
/// the ticket and names the path. Any other address does not lead through a tunnel.
pub proof fn law_tunnel_asks_the_ticket(
    ticket: Seq<char>,
    path: Seq<char>,
    name: Seq<char>,
    size: int,
    other: Seq<char>,
)
    requires
        is_host(ticket),
        path.len() > 0 && path[0] == '/',
        0 <= size,
        !begins(other, "iroh://"@),
    ensures
        tunneled("iroh://"@ + (ticket + path)) == Some((ticket, path)),
        tunneled("iroh://"@ + ticket) == Some((ticket, "/"@)),
        tunnel_download("iroh://"@ + (ticket + path)) == Some(
            RequestView {
                host: ticket,
                text: "GET "@ + path
                    + " HTTP/1.1\nHost: localhost\nAccept: */*\nConnection: close\n\n"@,
            },
        ),
        tunnel_upload("iroh://"@ + ticket, name, size) == Some(
            RequestView {
                host: ticket,
                text: "POST /upload?name="@ + escaped(encode_utf8(name))
                    + " HTTP/1.1\nHost: localhost\nContent-Length: "@ + decimal(size as nat)
                    + "\nConnection: close\n\n"@,
            },
        ),
        tunneled(other) is None,
        tunnel_download(other) is None,
        tunnel_upload(other, name, size) is None,
{
    reveal_strlit("iroh://");
    let rest = ticket + path;
    let all = "iroh://"@ + rest;
    assert(all.subrange(0, 7) =~= "iroh://"@);
    assert(all.skip(7) =~= rest);
    assert(rest[ticket.len() as int] == '/');
    assert forall|i: int| 0 <= i < ticket.len() implies rest[i] != '/' by {
        assert(rest[i] == ticket[i]);
    }
    lemma_place_is(rest, '/', ticket.len() as int);
    assert(rest.take(ticket.len() as int) =~= ticket);
    assert(rest.skip(ticket.len() as int) =~= path);
    let bare = "iroh://"@ + ticket;
    assert(bare.subrange(0, 7) =~= "iroh://"@);
    assert(bare.skip(7) =~= ticket);
    lemma_place_is(ticket, '/', ticket.len() as int);
}

/// An address as it is written: its four numbers with dots between them.
pub open spec fn dotted(address: Address) -> Seq<char> {
    decimal(address.a as nat) + "."@ + decimal(address.b as nat) + "."@ + decimal(
        address.c as nat,
    ) + "."@ + decimal(address.d as nat)
}

/// A server that listens tells its port on this machine first, and then for a phone every
/// address with the same port. Its certificate names this machine and every address.
pub proof fn law_server_tells_where_it_is(
    scheme: Seq<char>,
    port: u16,
    addresses: Seq<Address>,
)
    ensures
        own_url(port) == "ws://127.0.0.1:"@ + decimal(port as nat) + "/ws"@,
        ({
            let lines = announced(scheme, port, addresses);
            &&& lines.len() == 1 + addresses.len()
            &&& lines[0] == "слушаю "@ + scheme + "://localhost:"@ + decimal(port as nat)
            &&& forall|i: int|
                0 <= i < addresses.len() ==> lines[1 + i] == "с телефона: "@ + scheme + "://"@
                    + dotted(#[trigger] addresses[i]) + ":"@ + decimal(port as nat)
        }),
        ({
            let names = named_in_certificate(addresses);
            &&& names.len() == 2 + addresses.len()
            &&& names[0] == "localhost"@ && names[1] == "127.0.0.1"@
            &&& forall|i: int|
                0 <= i < addresses.len() ==> names[2 + i] == dotted(#[trigger] addresses[i])
        }),
{
}

/// Encryption is asked for by a value that is neither empty nor a zero; the certificate is
/// in the directory that was given, else in the usual one.
pub proof fn law_encryption_is_asked_for(value: Seq<char>, dir: Option<Seq<char>>)
    ensures
        certificate_dir(None, dir) is None,
        value.len() == 0 || value == seq!['0'] ==> certificate_dir(Some(value), dir) is None,
        value.len() > 0 && value != seq!['0'] ==> certificate_dir(Some(value), dir) == Some(
            if dir is Some {
                dir->0
            } else {
                "tls"@
            },
        ),
{
    reveal_strlit("0");
    assert("0"@ =~= seq!['0']);
}

/// Another server is one that was named and is not the one before; turning to it, a client
/// knows where its files are, and nothing else changes.
pub proof fn law_another_server(state: StateView, url: Seq<char>, server: Seq<char>)
    ensures
        other_server(url, server) <==> server.len() > 0 && server != url,
        state.turned_to(server) == (StateView { media_base: base_for(server), ..state }),
{
}

/// A voice that has ended is no longer lit; while something is recorded its seconds are
/// shown; nothing else changes.
pub proof fn law_sound_is_followed(state: StateView, playing: bool, recorded: Option<u64>)
    ensures
        ({
            let after = state.hearing(playing, recorded);
            &&& after == (StateView {
                playing,
                playing_voice: after.playing_voice,
                busy: after.busy,
                ..state
            })
            &&& playing ==> after.playing_voice == state.playing_voice
            &&& !playing ==> after.playing_voice is None
            &&& recorded is None ==> after.busy == state.busy
            &&& recorded is Some ==> after.busy == Some(
                "запись "@ + decimal(recorded->0 as nat) + " с · /rec — отправить"@,
            )
        }),
{
}

/// A file is handed out under its own type, and a browser is told not to guess another one.
pub proof fn law_file_is_handed_out(mime: Seq<char>)
    ensures
        headers_of(mime).contains(("content-type"@, mime)),
        headers_of(mime).contains(("x-content-type-options"@, "nosniff"@)),
        headers_of(mime).contains(("content-disposition"@, "inline"@)),
{
    let all = headers_of(mime);
    assert(all[0] == ("content-type"@, mime));
    assert(all[1] == ("x-content-type-options"@, "nosniff"@));
    assert(all[2] == ("content-disposition"@, "inline"@));
}

/// The list of files opens where one was last, else among the downloads, else at home.
pub proof fn law_list_opens_somewhere(
    last: Option<Seq<char>>,
    downloads: Option<Seq<char>>,
    home: Option<Seq<char>>,
)
    ensures
        last is Some ==> opening(last, downloads, home) == last->0,
        last is None && downloads is Some ==> opening(last, downloads, home) == downloads->0,
        last is None && downloads is None && home is Some ==> opening(last, downloads, home)
            == home->0,
{
}

/// A picture that was taken apart is handed on as it is; else the reason is told.
pub proof fn law_picture_is_handed_on(picture: PictureView, reason: Seq<char>)
    ensures
        picture_or_words(DecodedView::Picture(picture)) == Ok::<PictureView, Seq<char>>(picture),
        picture_or_words(DecodedView::Unknown(reason)) == Err::<PictureView, Seq<char>>(
            "не удалось определить формат: "@ + reason,
        ),
        picture_or_words(DecodedView::Broken(reason)) == Err::<PictureView, Seq<char>>(
            "не удалось разобрать картинку: "@ + reason,
        ),
{
}

/// The disk is asked about the path that stands in the line, and about the one to which
/// something is to be saved; about nothing else.
pub proof fn law_disk_is_asked_about_paths(
    state: StateView,
    typed: Seq<char>,
    arg: Seq<char>,
)
    ensures
        trimmed(state.input.text).len() == 0 ==> state.path_in_play() is None,
        is_path(trimmed(state.input.text)) && trimmed(state.input.text)[0] != '/'
            ==> state.path_in_play() == Some(trimmed(state.input.text)),
        trimmed(state.input.text) == order_line(typed, arg) && lower(typed) == "save"@ && is_path(
            arg,
        ) && typed.len() > 0 && typed[0] != '/' && (forall|i: int|
            0 <= i < typed.len() ==> #[trigger] typed[i] != ' ') ==> state.path_in_play() == Some(
            arg,
        ),
        trimmed(state.input.text) == order_line(typed, arg) && is_command_name(lower(typed))
            && lower(typed) != "save"@ && trimmed(arg) == arg && typed.len() > 0 && typed[0] != '/'
            && (forall|i: int| 0 <= i < typed.len() ==> #[trigger] typed[i] != ' ')
            ==> state.path_in_play() is None,
{
    let line = trimmed(state.input.text);
    reveal_strlit("/");
    reveal_strlit("//");
    if is_path(line) {
        crate::send_laws::lemma_path(line);
        if begins(line, "/"@) {
            assert(line.subrange(0, 1)[0] == "/"@[0]);
        }
    }
    if line == order_line(typed, arg) && typed.len() > 0 && typed[0] != '/' && (forall|i: int|
        0 <= i < typed.len() ==> #[trigger] typed[i] != ' ') {
        if lower(typed) == "save"@ && is_path(arg) {
            crate::send_laws::lemma_path(arg);
            crate::command_laws::lemma_line(typed, arg);
            crate::command_laws::lemma_orders();
        }
        if is_command_name(lower(typed)) && lower(typed) != "save"@ && trimmed(arg) == arg {
            crate::command_laws::lemma_line(typed, arg);
            crate::command_laws::lemma_orders();
        }
    }
}

/// A key for the first screen does there what it does; in a room only the shortcuts that
/// close the program do anything.
pub proof fn law_first_screen_keys(state: StateView, key: KeyEvent, world: WorldView)
    ensures
        state.screen matches ScreenView::Login(login) ==> state.login_key(key, world)
            == state.home_key(login, key, world),
        state.screen is Chat && !key.ctrl ==> state.login_key(key, world).commands.len() == 0
            && state.login_key(key, world).state == state,
{
}

} // verus!
