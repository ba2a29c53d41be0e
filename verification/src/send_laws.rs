//! What goes out while one types, and what a file that is dropped on the window becomes.
use crate::attach::{bared, meant_path};
use crate::command_laws::{entered, is_command_name, line_is_gone};
use crate::console::{is_order, order_named, parted, path_like, Order};
use crate::key_laws::after_key;
use crate::keys::KeyCode;
use crate::line_laws::{at_the_line, plain};
use crate::protocol::ClientMessageView;
use crate::state::{CommandView, PathKind, StateView, WorldView};
use crate::text::{begins, is_white, lemma_place_is, lower, trimmed};
use vstd::prelude::*;

verus! {

/// The others are told that one types with the first character, and then again once two
/// seconds have passed; without a connection nobody is told.
pub proof fn law_typing_is_announced(state: StateView, ch: char, world: WorldView)
    requires
        at_the_line(state),
        state.input.wf(),
        state.input.text.len() < 1000,
    ensures
        ({
            let step = after_key(state, plain(KeyCode::Char(ch)), world);
            let soon = state.typing_sent is Some && world.now - state.typing_sent->0 < 2000;
            &&& state.status is Online && !soon ==> step.commands == seq![
                CommandView::Send(ClientMessageView::Typing),
            ] && step.state.typing_sent == Some(world.now)
            &&& !(state.status is Online) || soon ==> step.commands.len() == 0
                && step.state.typing_sent == state.typing_sent
        }),
{
    reveal(StateView::key_pressed);
    reveal(StateView::chat_key);
    reveal(StateView::line_key);
    reveal(StateView::editing_key);
    reveal(StateView::typing_announced);
    crate::line_laws::law_typing_adds_a_character(state.input, ch, 1000);
}

/// Whoever rubs out the whole line does not type any more: nobody is told.
pub proof fn law_rubbing_out_is_not_announced(state: StateView, world: WorldView)
    requires
        at_the_line(state),
        state.input.wf(),
        state.input.text.len() <= 1,
    ensures
        state.input.cursor == state.input.text.len() ==> {
            let step = after_key(state, plain(KeyCode::Backspace), world);
            &&& step.commands.len() == 0
            &&& step.state.input.text.len() == 0
        },
{
    reveal(StateView::key_pressed);
    reveal(StateView::chat_key);
    reveal(StateView::line_key);
    reveal(StateView::editing_key);
    reveal(StateView::typing_announced);
}

/// Whether a text is a path as it is written somewhere: from the root, from the home
/// directory, from a drive or from a machine in the network.
pub open spec fn is_path(p: Seq<char>) -> bool {
    let letter = p.len() > 0 && ('a' <= p[0] <= 'z' || 'A' <= p[0] <= 'Z');
    &&& p.len() > 3
    &&& forall|i: int| 0 <= i < p.len() ==> #[trigger] p[i] != '\n'
    &&& p[0] == '/' || (p[0] == '~' && p[1] == '/') || (p[0] == '\\' && p[1] == '\\') || (letter
        && p[1] == ':' && (p[2] == '\\' || p[2] == '/'))
    &&& !is_white(p.last()) && p.last() != '"' && p.last() != '\''
}

pub proof fn lemma_path(p: Seq<char>)
    requires
        is_path(p),
    ensures
        path_like(p),
        meant_path(p) == p,
        trimmed(p) == p,
        bared(p) == p,
{
    lemma_place_is(p, '\n', p.len() as int);
    let none = Seq::<char>::empty();
    crate::word_laws::law_trim_takes_the_ends(none, p, none);
    assert(none + p + none =~= p);
}

/// The path of a file that stands in quotation marks, as a file that is dropped on the
/// window is pasted, is sent as that file, and nothing is said.
pub proof fn law_dropped_path_is_sent(state: StateView, p: Seq<char>, world: WorldView)
    requires
        at_the_line(state),
        is_path(p),
        trimmed(state.input.text) == seq!['"'] + p + seq!['"'] || trimmed(state.input.text)
            == seq!['\''] + p + seq!['\''] || (trimmed(state.input.text) == p && p[0] != '/'),
        world.disk == PathKind::File,
        state.status is Online,
        state.media_base.len() > 0,
    ensures
        entered(state, world).commands == seq![CommandView::Upload(p)],
        line_is_gone(entered(state, world).state, trimmed(state.input.text)),
        entered(state, world).state.entries == state.entries,
{
    reveal(StateView::key_pressed);
    reveal(StateView::chat_key);
    reveal(StateView::line_key);
    reveal(StateView::submitted);
    reveal(StateView::sending);
    reveal_strlit("/");
    let line = trimmed(state.input.text);
    lemma_path(p);
    if line != p {
        let q = line[0];
        assert(line == seq![q] + p + seq![q]);
        assert(line.drop_first() =~= p + seq![q]);
        assert((p + seq![q]).last() == q);
        assert((p + seq![q]).drop_last() =~= p);
        assert((p + seq![q])[0] == p[0]);
        reveal_with_fuel(bared, 3);
        assert(bared(line) == p);
        let none = Seq::<char>::empty();
        assert(line.last() == q);
        crate::word_laws::law_trim_takes_the_ends(none, line, none);
        assert(none + line + none =~= line);
    }
    assert(meant_path(line) == p);
    if begins(line, "/"@) {
        assert(line.subrange(0, 1)[0] == "/"@[0]);
    }
    assert(!is_order(line));
    crate::line_laws::law_sent_lines_are_kept(StateView { completion: None, ..state }, line);
}

/// A path from the root may begin as a command does; where no command goes by that name and
/// the file is there, it is sent.
pub proof fn law_rooted_path_is_sent(state: StateView, p: Seq<char>, world: WorldView)
    requires
        at_the_line(state),
        is_path(p),
        p[0] == '/',
        forall|i: int| 0 <= i < p.len() ==> #[trigger] p[i] != ' ',
        !is_command_name(lower(p.skip(1))),
        trimmed(state.input.text) == p,
        world.disk == PathKind::File,
        state.status is Online,
        state.media_base.len() > 0,
    ensures
        entered(state, world).commands == seq![CommandView::Upload(p)],
        line_is_gone(entered(state, world).state, p),
{
    reveal(StateView::key_pressed);
    reveal(StateView::chat_key);
    reveal(StateView::line_key);
    reveal(StateView::submitted);
    reveal(StateView::sending);
    lemma_path(p);
    let rest = p.drop_first();
    assert forall|i: int| 0 <= i < rest.len() implies rest[i] != ' ' by {
        assert(rest[i] == p[i + 1]);
    }
    lemma_place_is(rest, ' ', rest.len() as int);
    assert(rest.take(rest.len() as int) =~= p.skip(1));
    assert(order_named(parted(p).0) == Order::Unknown);
    crate::line_laws::law_sent_lines_are_kept(StateView { completion: None, ..state }, p);
}

} // verus!
