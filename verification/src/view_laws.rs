//! What is seen of the feed, and what of a client is kept from one run to the next.
use crate::address::base_for;
use crate::console::color_of;
use crate::feed::{
    bar_paint, highlight_of, name_color, voice_spans, with_entry, DecorView, RenderedView, Slot,
};
use crate::paper::{LineView, PaintView, PieceView, Tone};
use crate::protocol::AttachmentKind;
use crate::settings::{started, SettingsView, SurroundingsView};
use crate::state::{CommandView, EntryView, Mode, ScreenView, StateView, SystemKind};
use crate::text::{decimal, joined, lower, words};
use crate::theme::{nick_palette, step_signs, ColorView, Theme};
use crate::wave::WaveformView;
use crate::width::{gap, sized, text_width, with_word, with_words, wrapped};
use vstd::prelude::*;

verus! {

/// Whether the last piece of a line is this text.
pub open spec fn ends_with(line: LineView, text: Seq<char>) -> bool {
    line.spans.len() > 0 && line.spans.last().piece == PieceView::Text(text)
}

/// Whether some lines show a text, from a line on: its words, wrapped, a line for each
/// line.
pub open spec fn show_text(lines: Seq<LineView>, from: int, text: Seq<char>, width: int) -> bool {
    &&& from + wrapped(text, width).len() <= lines.len()
    &&& forall|i: int|
        0 <= i < wrapped(text, width).len() ==> ends_with(
            #[trigger] lines[from + i],
            wrapped(text, width)[i],
        )
}

/// Whether a line is the heading of a message: its author in bold letters, its time, and a
/// word where it is one's own.
pub open spec fn is_heading(line: LineView, from: Seq<char>, ts: i64, mine: bool) -> bool {
    &&& line.spans.len() == if mine {
        6int
    } else {
        5
    }
    &&& line.spans[3].piece == PieceView::Text(from)
    &&& line.spans[3].bold
    &&& line.spans[4].piece == PieceView::Clock(ts)
    &&& mine ==> line.spans[5].piece == PieceView::Text("  вы"@)
}

/// Whether a message belongs to the words before it: the same person said them less than
/// two minutes ago.
pub open spec fn goes_on_talking(page: RenderedView, from: Seq<char>, ts: i64) -> bool {
    match page.previous {
        Some((author, at)) => author == from && ts - at < 120000,
        None => false,
    }
}

/// A message without an attachment stands below all that was there: under a heading with
/// its author and its time, unless it goes on with what the same person just said; then
/// what it answers, then all its words.
pub proof fn law_message_is_drawn(
    page: RenderedView,
    index: int,
    entry: EntryView,
    width: int,
    decor: DecorView,
)
    requires
        entry is Chat,
        entry->attachment is None,
        page.lines.len() < usize::MAX,
    ensures
        ({
            let after = with_entry(page, index, entry, width, decor);
            let n = page.lines.len() as int;
            let grouped = goes_on_talking(page, entry->from, entry->ts);
            let start = if grouped || n == 0 {
                n
            } else {
                n + 1
            };
            let head: int = if grouped {
                start
            } else {
                start + 1
            };
            let quoted: int = match entry->reply {
                Some(reply) => head + wrapped(
                    "┆ "@ + reply.nickname + ": "@ + reply.excerpt,
                    width,
                ).len(),
                None => head,
            };
            &&& after.lines.take(n) == page.lines
            &&& after.offsets == page.offsets.push(start as usize)
            &&& after.slots == page.slots
            &&& after.previous == Some((entry->from, entry->ts))
            &&& !grouped && n > 0 ==> after.lines[n].spans.len() == 0
            &&& !grouped ==> is_heading(after.lines[start], entry->from, entry->ts, entry->mine)
            &&& entry->reply matches Some(reply) ==> show_text(
                after.lines,
                head,
                "┆ "@ + reply.nickname + ": "@ + reply.excerpt,
                width,
            )
            &&& show_text(after.lines, quoted, entry->Chat_text, width)
            &&& after.lines.len() == quoted + wrapped(entry->Chat_text, width).len()
        }),
{
    let after = with_entry(page, index, entry, width, decor);
    let n = page.lines.len() as int;
    assert(after.lines.take(n) =~= page.lines);
}

/// A picture that has come takes ten lines below its message; one that has not takes
/// none. What is attached is named beside the text, with its sign and its size.
pub proof fn law_attachment_is_drawn(
    page: RenderedView,
    index: int,
    entry: EntryView,
    width: int,
    decor: DecorView,
)
    requires
        entry is Chat,
        entry->attachment is Some,
        page.lines.len() < usize::MAX,
        !decor.waveforms.contains_key(entry->attachment->0.id),
    ensures
        ({
            let after = with_entry(page, index, entry, width, decor);
            let a = entry->attachment->0;
            let ready = decor.thumbnails.contains_key(a.id) && decor.thumbnails[a.id] is Ready;
            let sign = match a.kind {
                AttachmentKind::Image => "◈"@,
                AttachmentKind::Audio => "♪"@,
                AttachmentKind::File => "▤"@,
            };
            let label = "["@ + sign + " "@ + a.name + " · "@ + sized(a.size as nat) + "]"@;
            let body = if entry->Chat_text.len() == 0 {
                label
            } else {
                entry->Chat_text + " "@ + label
            };
            let end: int = if ready {
                after.lines.len() - 10
            } else {
                after.lines.len() as int
            };
            &&& show_text(after.lines, end - wrapped(body, width).len(), body, width)
            &&& ready ==> after.slots == page.slots.push(Slot { line: end as usize, id: a.id })
            &&& ready ==> forall|i: int|
                end <= i < after.lines.len() ==> (#[trigger] after.lines[i]).spans.len() == 0
            &&& !ready ==> after.slots == page.slots
        }),
{
}

/// A line of the client itself stands below all that was there, with the sign of its kind
/// before its first line; an empty line parts it from what somebody has said.
pub proof fn law_notice_is_drawn(
    page: RenderedView,
    index: int,
    text: Seq<char>,
    kind: SystemKind,
    width: int,
    decor: DecorView,
)
    requires
        page.lines.len() < usize::MAX,
        wrapped(text, width).len() > 0,
    ensures
        ({
            let after = with_entry(page, index, EntryView::System { text, kind }, width, decor);
            let n = page.lines.len() as int;
            let start: int = if page.previous is Some {
                n + 1
            } else {
                n
            };
            let sign = match kind {
                SystemKind::Error => "✕"@,
                SystemKind::Join => "↳"@,
                SystemKind::Leave => "↰"@,
                SystemKind::Info => "·"@,
            };
            &&& after.lines.take(n) == page.lines
            &&& after.lines.len() == start + wrapped(text, width).len()
            &&& show_text(after.lines, start, text, width)
            &&& after.lines[start].spans[1].piece == PieceView::Text(sign)
            &&& after.offsets == page.offsets.push(start as usize)
            &&& after.slots == page.slots
            &&& after.previous is None
        }),
{
    let after = with_entry(page, index, EntryView::System { text, kind }, width, decor);
    assert(after.lines.take(page.lines.len() as int) =~= page.lines);
}

/// What is lit stands on its ground, the chosen match on another one and the other matches
/// on a third one; nothing else does.
pub proof fn law_grounds(decor: DecorView, index: usize)
    ensures
        ({
            let ground = highlight_of(decor, index as int);
            let lit = decor.picking == Some(index);
            let found = decor.search is Some && decor.search->0.matches.contains(index);
            let chosen = decor.search is Some && decor.search->0.current
                < decor.search->0.matches.len() && decor.search->0.matches[decor.search->0.current as int]
                == index;
            &&& lit ==> ground == Some(Tone::Primary)
            &&& !lit && found && chosen ==> ground == Some(Tone::Mention)
            &&& !lit && found && !chosen ==> ground == Some(Tone::Line)
            &&& !lit && !found ==> ground is None
        }),
{
}

/// A name has the colour that was chosen for it, whatever the case of its letters; else
/// one's own has the colour of the theme, and another one has always the same of the eight.
pub proof fn law_names_have_their_colors(
    colors: Seq<crate::state::PaintedView>,
    a: Seq<char>,
    b: Seq<char>,
    mine: bool,
    theme: Theme,
)
    requires
        lower(a) == lower(b),
    ensures
        name_color(colors, a, mine, theme) == name_color(colors, b, mine, theme),
        color_of(colors, lower(a)) matches Some(color) ==> name_color(colors, a, mine, theme)
            == color,
        color_of(colors, lower(a)) is None && mine ==> name_color(colors, a, mine, theme)
            == theme.primary_color(),
        color_of(colors, lower(a)) is None && !mine ==> exists|i: int|
            0 <= i < 8 && name_color(colors, a, mine, theme) == #[trigger] nick_palette(i),
{
    if color_of(colors, lower(a)) is None && !mine {
        let i = crate::feed::hash31(vstd::utf8::encode_utf8(lower(a))) % 8;
        assert(name_color(colors, a, mine, theme) == nick_palette(i));
    }
}

/// Whether the first so many of some words fit on one line, however one measures them.
pub open spec fn fit_together(all: Seq<Seq<char>>, width: int) -> bool {
    forall|k: int|
        0 <= k < all.len() ==> {
            let before = joined(all.take(k), seq![' ']);
            &&& #[trigger] text_width(all[k]) + text_width(before) + (if k > 0 {
                1int
            } else {
                0
            }) <= width
            &&& text_width(joined(all.take(k + 1), seq![' '])) <= width
        }
}

proof fn lemma_one_line(all: Seq<Seq<char>>, count: int, width: int)
    requires
        0 <= count <= all.len(),
        fit_together(all, width),
        forall|i: int| 0 <= i < all.len() ==> (#[trigger] all[i]).len() > 0,
    ensures
        with_words(all.take(count), width).lines.len() == 0,
        with_words(all.take(count), width).current == joined(all.take(count), seq![' ']),
        count > 0 ==> joined(all.take(count), seq![' ']).len() > 0,
    decreases count,
{
    if count > 0 {
        let k = count - 1;
        lemma_one_line(all, k, width);
        assert(all.take(count).drop_last() =~= all.take(k));
        assert(all.take(count).last() == all[k]);
        let before = joined(all.take(k), seq![' ']);
        assert(all[k].len() > 0);
        assert(text_width(all[k]) <= width);
        let page = with_words(all.take(k), width);
        let now = before + gap(before) + all[k];
        assert(now =~= joined(all.take(count), seq![' '])) by {
            if k == 0 {
                assert(before.len() == 0);
                assert(all.take(1)[0] == all[0]);
            }
        }
        assert(text_width(now) <= width);
        assert(with_word(page, all[k], width).current == now);
    }
}

/// Words that fit on one line stand on one line, with single spaces between them.
pub proof fn law_words_share_a_line(text: Seq<char>, width: int)
    requires
        width >= 1,
        words(text).len() > 0,
        fit_together(words(text), width),
    ensures
        wrapped(text, width) == seq![joined(words(text), seq![' '])],
{
    let all = words(text);
    crate::validate::lemma_words_shape(text);
    lemma_one_line(all, all.len() as int, width);
    assert(all.take(all.len() as int) =~= all);
}

/// What is kept of a client: each thing in its own place, as it is.
pub proof fn law_settings_are_kept(settings: SettingsView, state: StateView)
    requires
        state.audio.volume <= 2,
    ensures
        ({
            let kept = settings.keeping(state);
            &&& kept.nickname == if state.nickname.len() > 0 {
                Some(state.nickname)
            } else {
                settings.nickname
            }
            &&& kept.room == if state.room.len() > 0 {
                state.room
            } else {
                settings.room
            }
            &&& kept.server == settings.server
            &&& kept.last_dir == if state.last_dir is Some {
                state.last_dir
            } else {
                settings.last_dir
            }
            &&& kept.chime == state.audio.chime
            &&& kept.volume == state.audio.volume
            &&& kept.sidebar == state.sidebar
            &&& kept.inline_images == state.images_choice
            &&& kept.sound_output == if state.audio.output is Some {
                state.audio.output->0
            } else {
                Seq::empty()
            }
            &&& kept.sound_input == if state.audio.input is Some {
                state.audio.input->0
            } else {
                Seq::empty()
            }
            &&& kept.theme == match state.theme {
                Theme::Charple => "charple"@,
                Theme::Dolly => "dolly"@,
                Theme::Mint => "mint"@,
                Theme::Ember => "ember"@,
            }
            &&& kept.terminal == match state.terminal_mode {
                Mode::Auto => "auto"@,
                Mode::Always => "always"@,
                Mode::Never => "never"@,
            }
            &&& kept.colors.len() == state.colors.len()
            &&& forall|i: int|
                0 <= i < state.colors.len() ==> (#[trigger] kept.colors[i]).0
                    == state.colors[i].key
        }),
{
}

/// A run begins on the first screen and asks the server for its rooms at once; where a name
/// was given it goes straight into the room, at the server that was given.
pub proof fn law_run_begins(
    settings: SettingsView,
    nickname: Seq<char>,
    remembered: Option<Seq<char>>,
    room: Seq<char>,
    around: SurroundingsView,
)
    ensures
        ({
            let first = started(settings, None, remembered, room, around);
            &&& first.commands == seq![CommandView::FetchRooms(base_for(around.url))]
            &&& first.state.screen matches ScreenView::Login(login)
            &&& login.server.text == around.url
            &&& login.room.text == room
            &&& remembered is Some ==> login.nickname.text == remembered->0
            &&& first.state.server == around.url
            &&& first.state.media_base == base_for(around.url)
            &&& first.state.inline_images == match settings.inline_images {
                Some(choice) => choice,
                None => around.images,
            }
        }),
        ({
            let first = started(settings, Some(nickname), remembered, room, around);
            &&& first.commands == seq![
                CommandView::Connect { nickname, room, server: Seq::empty() },
            ]
            &&& first.state.screen is Chat
            &&& first.state.nickname == nickname
            &&& first.state.room == room
            &&& first.state.server == around.url
        }),
{
    let first = started(settings, None, remembered, room, around);
    assert(first.commands =~= seq![CommandView::FetchRooms(base_for(around.url))]);
}

/// The heading of a message is lit for nine tenths of a second after it came, and after that
/// its bar has the colour of its author.
pub proof fn law_new_message_is_lit(color: ColorView, arrived: u64, now: u64)
    ensures
        now >= arrived + 900 ==> bar_paint(color, arrived, now) == PaintView::Own(color),
        arrived <= now < arrived + 900 ==> bar_paint(color, arrived, now) == PaintView::Flash(
            color,
            (now - arrived) as u64,
        ),
{
}

/// A voice is drawn with a bar for each bar of its shape, taller where it is louder; those
/// that were heard are lit, and its length stands behind them in minutes and seconds with its
/// name.
pub proof fn law_voice_is_drawn(wave: WaveformView, heard: int, name: Seq<char>, at: int)
    requires
        0 <= at < wave.bars.len(),
        0 <= heard,
    ensures
        ({
            let spans = voice_spans(wave, heard, name);
            let seconds = wave.millis as int / 1000;
            let rest = seconds % 60;
            let clock = decimal((seconds / 60) as nat) + ":"@ + (if rest < 10 {
                "0"@ + decimal(rest as nat)
            } else {
                decimal(rest as nat)
            });
            &&& spans.len() == wave.bars.len() + 2
            &&& spans[1 + at].paint == PaintView::Of(Tone::Line) <==> at >= heard
            &&& wave.bars[at] <= 8 ==> spans[1 + at].piece == PieceView::Text(
                seq![step_signs()[wave.bars[at] as int]],
            )
            &&& spans.last().piece == PieceView::Text("  "@ + clock + "  "@ + name)
        }),
{
}

} // verus!
