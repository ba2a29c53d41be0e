//! The feed on the screen: how messages become lines.
//!
//! What one person says in a row is held together by one heading and a coloured bar on
//! the left: it shows where somebody's words begin and end even where the screen is
//! full.
use crate::console::{color_of, find_color};
use crate::paper::{
    blank, empty_line, line_of, painted, painted_span, plain_line, raw, raw_span, toned,
    toned_span, Line, LineView, Paint, PaintView, Piece, PieceView, Span, SpanView, Tone,
};
use crate::protocol::{
    Attachment, AttachmentKind, AttachmentView, ReplyPreview, ReplyPreviewView,
};
use crate::state::{
    map_view, Entry, EntryView, Painted, PaintedView, Search, SearchView, SystemKind, Thumbnail,
    ThumbnailView,
};
use crate::text::{decimal, glue3, lower, number, same, to_lower};
use crate::theme::{nick_palette, palette, step_sign, step_signs, Color, ColorView, Theme};
use crate::wave::{Waveform, WaveformView};
use crate::width::{human_size, sized, wrap, wrapped};
use std::collections::HashMap;
use vstd::prelude::*;
use vstd::string::*;
use vstd::utf8::encode_utf8;

verus! {

broadcast use vstd::std_specs::hash::group_hash_axioms;

/// Messages of one person make a group where less time lies between them, in
/// milliseconds: a heading above each would make a fence of names.
pub const GROUP_WINDOW_MS: i64 = 120_000;

/// How many columns the bar takes.
pub const BAR_WIDTH: usize = 3;

/// How many lines a picture takes in the feed, and how many columns at most.
pub const THUMB_ROWS: usize = 10;

pub const THUMB_COLS: usize = 46;

/// How long a new message is lit up, in milliseconds.
pub const FLASH: u64 = 900;

/// A place for a picture: from which line on, and which attachment.
#[derive(Debug, Clone, Copy, PartialEq, Eq, Structural)]
pub struct Slot {
    pub line: usize,
    pub id: u128,
}

impl DeepView for Slot {
    type V = Slot;

    open spec fn deep_view(&self) -> Slot {
        *self
    }
}

/// The feed as lines.
pub struct Rendered {
    pub lines: Vec<Line>,
    /// The first line of each entry.
    pub offsets: Vec<usize>,
    pub slots: Vec<Slot>,
    /// Who spoke last, and when: the next words may belong to the same group.
    pub previous: Option<(String, i64)>,
}

#[verifier::ext_equal]
pub struct RenderedView {
    pub lines: Seq<LineView>,
    pub offsets: Seq<usize>,
    pub slots: Seq<Slot>,
    pub previous: Option<(Seq<char>, i64)>,
}

impl DeepView for Rendered {
    type V = RenderedView;

    open spec fn deep_view(&self) -> RenderedView {
        RenderedView {
            lines: self.lines.deep_view(),
            offsets: self.offsets@,
            slots: self.slots@,
            previous: self.previous.deep_view(),
        }
    }
}

/// All by which the feed is painted.
pub struct Decor<'a> {
    pub search: Option<&'a Search>,
    pub picking: Option<usize>,
    pub colors: &'a Vec<Painted>,
    pub thumbnails: &'a HashMap<u128, Thumbnail>,
    pub waveforms: &'a HashMap<u128, Waveform>,
    /// The voice that is playing, and how many of its bars were heard.
    pub playing: Option<(u128, usize)>,
    pub theme: Theme,
    pub now: u64,
}

pub struct DecorView {
    pub search: Option<SearchView>,
    pub picking: Option<usize>,
    pub colors: Seq<PaintedView>,
    pub thumbnails: Map<u128, ThumbnailView>,
    pub waveforms: Map<u128, WaveformView>,
    pub playing: Option<(u128, usize)>,
    pub theme: Theme,
    pub now: u64,
}

impl<'a> Decor<'a> {
    pub open spec fn model(&self) -> DecorView {
        DecorView {
            search: match self.search {
                Some(search) => Some(search.deep_view()),
                None => None,
            },
            picking: self.picking,
            colors: self.colors.deep_view(),
            thumbnails: map_view(*self.thumbnails),
            waveforms: map_view(*self.waveforms),
            playing: self.playing,
            theme: self.theme,
            now: self.now,
        }
    }
}

/// A number that stays the same for the same bytes.
pub open spec fn hash31(bytes: Seq<u8>) -> int
    decreases bytes.len(),
{
    if bytes.len() == 0 {
        0
    } else {
        (hash31(bytes.drop_last()) * 31 + bytes.last()) % 4294967296
    }
}

/// The colour of a name: the one that was chosen, else one that is always the same for
/// the name.
pub open spec fn name_color(
    colors: Seq<PaintedView>,
    nickname: Seq<char>,
    mine: bool,
    theme: Theme,
) -> ColorView {
    let key = lower(nickname);
    match color_of(colors, key) {
        Some(color) => color,
        None => if mine {
            theme.primary_color()
        } else {
            nick_palette(hash31(encode_utf8(key)) % 8)
        },
    }
}

fn hash_bytes(s: &str) -> (r: u32)
    ensures
        r == hash31(encode_utf8(s@)),
{
    let bytes = s.as_bytes();
    let ghost all = encode_utf8(s@);
    let mut h: u64 = 0;
    let mut i: usize = 0;
    assert(all.take(0) =~= Seq::<u8>::empty());
    while i < bytes.len()
        invariant
            i <= bytes@.len(),
            bytes@ == all,
            h == hash31(all.take(i as int)),
            h < 4294967296,
        decreases bytes@.len() - i,
    {
        assert(all.take(i + 1).drop_last() =~= all.take(i as int));
        h = (h * 31 + bytes[i] as u64) % 4294967296;
        i = i + 1;
    }
    assert(all.take(all.len() as int) =~= all);
    h as u32
}

/// The colour of a name.
pub fn nick_color(colors: &Vec<Painted>, nickname: &str, mine: bool, theme: Theme) -> (r: Color)
    ensures
        r.deep_view() == name_color(colors.deep_view(), nickname@, mine, theme),
{
    let key = to_lower(nickname);
    match find_color(colors, key.as_str()) {
        Some(color) => color,
        None => if mine {
            theme.primary()
        } else {
            palette((hash_bytes(key.as_str()) % 8) as usize)
        },
    }
}

/// The time of a voice: minutes and seconds.
pub open spec fn clock_text(millis: u64) -> Seq<char> {
    let seconds = (millis / 1000) as int;
    decimal((seconds / 60) as nat) + ":"@ + two_digits(seconds % 60)
}

/// A number with at least two digits.
pub open spec fn two_digits(n: int) -> Seq<char> {
    if n < 10 {
        "0"@ + decimal(n as nat)
    } else {
        decimal(n as nat)
    }
}

/// One bar of a voice.
pub open spec fn bar_span(wave: WaveformView, heard: int, at: int) -> SpanView {
    let level = if wave.bars[at] < 8 {
        wave.bars[at] as int
    } else {
        8
    };
    painted_span(
        seq![step_signs()[level]],
        if at < heard {
            PaintView::Ramp(at as usize, wave.bars.len() as usize)
        } else {
            PaintView::Of(Tone::Line)
        },
    )
}

/// A voice as a graph: its bars, its length and its name. What was heard is bright: the
/// border is the place where it plays.
pub open spec fn voice_spans(wave: WaveformView, heard: int, name: Seq<char>) -> Seq<SpanView> {
    (seq![toned_span("♪ "@, Tone::Primary)] + Seq::new(
        wave.bars.len(),
        |at: int| bar_span(wave, heard, at),
    )).push(toned_span("  "@ + clock_text(wave.millis) + "  "@ + name, Tone::Muted))
}

/// A voice as a graph.
#[verifier::loop_isolation(false)]
pub fn draw_voice(wave: &Waveform, heard: usize, name: &str) -> (r: Vec<Span>)
    ensures
        r.deep_view() == voice_spans(wave.deep_view(), heard as int, name@),
{
    let ghost view = wave.deep_view();
    let ghost bars = Seq::new(view.bars.len(), |at: int| bar_span(view, heard as int, at));
    let ghost first = seq![toned_span("♪ "@, Tone::Primary)];
    let mut r: Vec<Span> = Vec::new();
    r.push(toned("♪ ", Tone::Primary));
    assert(r.deep_view() =~= first + bars.take(0));
    let mut at: usize = 0;
    while at < wave.bars.len()
        invariant
            at <= wave.bars@.len(),
            r.deep_view() == first + bars.take(at as int),
        decreases wave.bars@.len() - at,
    {
        let ghost before = r.deep_view();
        let mut sign = String::new();
        sign.push(step_sign(wave.bars[at]));
        assert(sign@ =~= seq![
            step_signs()[if view.bars[at as int] < 8 {
                view.bars[at as int] as int
            } else {
                8
            }],
        ]);
        let paint = if at < heard {
            Paint::Ramp(at, wave.bars.len())
        } else {
            Paint::Of(Tone::Line)
        };
        r.push(painted(sign.as_str(), paint));
        assert(r.deep_view() =~= before.push(bars[at as int]));
        at = at + 1;
        assert(r.deep_view() =~= first + bars.take(at as int));
    }
    assert(bars.take(bars.len() as int) =~= bars);
    let seconds: u64 = wave.millis / 1000;
    let mut words = glue3("  ", number(seconds / 60).as_str(), ":");
    if seconds % 60 < 10 {
        words.append("0");
    }
    words.append(number(seconds % 60).as_str());
    words.append("  ");
    words.append(name);
    assert(words@ =~= "  "@ + clock_text(wave.millis) + "  "@ + name@);
    let ghost before = r.deep_view();
    r.push(toned(words.as_str(), Tone::Muted));
    assert(r.deep_view() =~= voice_spans(view, heard as int, name@));
    r
}

/// The ground behind an entry that is lit or found.
pub open spec fn highlight_of(decor: DecorView, index: int) -> Option<Tone> {
    if decor.picking matches Some(picked) && picked == index {
        Some(Tone::Primary)
    } else {
        match decor.search {
            Some(search) => if search.matches.contains(index as usize) {
                if search.chosen() matches Some(chosen) && chosen == index {
                    Some(Tone::Mention)
                } else {
                    Some(Tone::Line)
                }
            } else {
                None
            },
            None => None,
        }
    }
}

fn find_highlight(decor: &Decor<'_>, index: usize) -> (r: Option<Tone>)
    ensures
        r == highlight_of(decor.model(), index as int),
{
    if let Some(picked) = decor.picking {
        if picked == index {
            return Some(Tone::Primary);
        }
    }
    match decor.search {
        Some(search) => if search.is_match(index) {
            if let Some(chosen) = search.current_entry() {
                if chosen == index {
                    return Some(Tone::Mention);
                }
            }
            Some(Tone::Line)
        } else {
            None
        },
        None => None,
    }
}

/// The paint of the bar beside a heading: a new message is lit up and fades to the
/// colour of its author.
pub open spec fn bar_paint(color: ColorView, arrived: u64, now: u64) -> PaintView {
    let age = if now > arrived {
        now - arrived
    } else {
        0
    };
    if age >= FLASH {
        PaintView::Own(color)
    } else {
        PaintView::Flash(color, age as u64)
    }
}

/// The heading of a group.
pub open spec fn header_line(
    from: Seq<char>,
    ts: i64,
    mine: bool,
    color: ColorView,
    bar: PaintView,
) -> LineView {
    let spans = seq![
        raw_span(" "@),
        painted_span("▐"@, bar),
        raw_span(" "@),
        SpanView { bold: true, ..painted_span(from, PaintView::Own(color)) },
        SpanView {
            piece: PieceView::Clock(ts),
            paint: PaintView::Of(Tone::Muted),
            bold: false,
            back: None,
        },
    ];
    plain_line(
        if mine {
            spans.push(painted_span("  вы"@, PaintView::Toward(Tone::Muted, color, 50)))
        } else {
            spans
        },
    )
}

fn make_header(from: &str, ts: i64, mine: bool, color: &Color, age: u64) -> (r: Line)
    ensures
        r.deep_view() == header_line(
            from@,
            ts,
            mine,
            color.deep_view(),
            if age >= FLASH {
                PaintView::Own(color.deep_view())
            } else {
                PaintView::Flash(color.deep_view(), age)
            },
        ),
{
    let bar = if age >= FLASH {
        Paint::Own(color.clone())
    } else {
        Paint::Flash(color.clone(), age)
    };
    let ghost bar_view = bar.deep_view();
    let mut spans: Vec<Span> = Vec::new();
    spans.push(raw(" "));
    spans.push(painted("▐", bar));
    spans.push(raw(" "));
    spans.push(
        Span {
            piece: Piece::Text(from.to_owned()),
            paint: Paint::Own(color.clone()),
            bold: true,
            back: None,
        },
    );
    spans.push(
        Span { piece: Piece::Clock(ts), paint: Paint::Of(Tone::Muted), bold: false, back: None },
    );
    if mine {
        spans.push(painted("  вы", Paint::Toward(Tone::Muted, color.clone(), 50)));
    }
    assert(spans.deep_view() =~= header_line(from@, ts, mine, color.deep_view(), bar_view).spans);
    line_of(spans)
}

/// The beginning of a line beside the thin bar.
pub open spec fn rail_spans(color: ColorView) -> Seq<SpanView> {
    seq![
        raw_span(" "@),
        painted_span("│"@, PaintView::Dimmed(color, 55)),
        raw_span(" "@),
    ]
}

fn make_rail(color: &Color) -> (r: Vec<Span>)
    ensures
        r.deep_view() == rail_spans(color.deep_view()),
{
    let mut spans: Vec<Span> = Vec::new();
    spans.push(raw(" "));
    spans.push(painted("│", Paint::Dimmed(color.clone(), 55)));
    spans.push(raw(" "));
    assert(spans.deep_view() =~= rail_spans(color.deep_view()));
    spans
}

/// A piece of what was said: what is lit or found stands on a ground, what calls one by
/// name is strong.
pub open spec fn said_span(text: Seq<char>, mention: bool, highlight: Option<Tone>) -> SpanView {
    SpanView {
        piece: PieceView::Text(text),
        paint: PaintView::Of(
            match highlight {
                Some(_) => Tone::Ink,
                None => if mention {
                    Tone::Mention
                } else {
                    Tone::Text
                },
            },
        ),
        bold: mention,
        back: highlight,
    }
}

/// Lines beside the thin bar, one for each piece.
pub open spec fn railed(color: ColorView, pieces: Seq<SpanView>) -> Seq<LineView> {
    pieces.map_values(|piece: SpanView| plain_line(rail_spans(color).push(piece)))
}

/// What was said, wrapped.
pub open spec fn said_lines(
    text: Seq<char>,
    width: int,
    mention: bool,
    highlight: Option<Tone>,
    color: ColorView,
) -> Seq<LineView> {
    railed(
        color,
        wrapped(text, width).map_values(
            |chunk: Seq<char>| said_span(chunk, mention, highlight),
        ),
    )
}

/// What is answered, wrapped: so it is seen even where the message is far above.
pub open spec fn quote_lines(reply: ReplyPreviewView, width: int, color: ColorView) -> Seq<LineView> {
    railed(
        color,
        wrapped("┆ "@ + reply.nickname + ": "@ + reply.excerpt, width).map_values(
            |chunk: Seq<char>| toned_span(chunk, Tone::Muted),
        ),
    )
}

/// The line of one piece beside the thin bar.
fn rail_line(color: &Color, piece: Span) -> (r: Line)
    ensures
        r.deep_view() == plain_line(rail_spans(color.deep_view()).push(piece.deep_view())),
{
    let mut spans = make_rail(color);
    let ghost before = spans.deep_view();
    let ghost view = piece.deep_view();
    spans.push(piece);
    assert(spans.deep_view() =~= before.push(view));
    line_of(spans)
}

/// Adds what was said, wrapped.
#[verifier::loop_isolation(false)]
fn push_wrapped(
    lines: &mut Vec<Line>,
    text: &str,
    width: usize,
    mention: bool,
    highlight: Option<Tone>,
    color: &Color,
)
    ensures
        final(lines).deep_view() == old(lines).deep_view() + said_lines(
            text@,
            width as int,
            mention,
            highlight,
            color.deep_view(),
        ),
{
    let ghost before = lines.deep_view();
    let ghost goal = said_lines(text@, width as int, mention, highlight, color.deep_view());
    let chunks = wrap(text, width);
    assert(chunks.deep_view().len() == chunks@.len());
    let mut i: usize = 0;
    assert(lines.deep_view() =~= before + goal.take(0));
    while i < chunks.len()
        invariant
            i <= chunks@.len(),
            lines.deep_view() == before + goal.take(i as int),
        decreases chunks@.len() - i,
    {
        assert(chunks.deep_view()[i as int] == chunks@[i as int].deep_view());
        let tone = match highlight {
            Some(_) => Tone::Ink,
            None => if mention {
                Tone::Mention
            } else {
                Tone::Text
            },
        };
        let piece = Span {
            piece: Piece::Text(chunks[i].clone()),
            paint: Paint::Of(tone),
            bold: mention,
            back: highlight,
        };
        assert(piece.deep_view() == said_span(chunks@[i as int]@, mention, highlight));
        let ghost now = lines.deep_view();
        lines.push(rail_line(color, piece));
        assert(lines.deep_view() =~= now.push(goal[i as int]));
        i = i + 1;
        assert(lines.deep_view() =~= before + goal.take(i as int));
    }
    assert(goal.take(goal.len() as int) =~= goal);
}

/// Adds what is answered, wrapped.
#[verifier::loop_isolation(false)]
fn push_quote(lines: &mut Vec<Line>, reply: &ReplyPreview, width: usize, color: &Color)
    ensures
        final(lines).deep_view() == old(lines).deep_view() + quote_lines(
            reply.deep_view(),
            width as int,
            color.deep_view(),
        ),
{
    let ghost before = lines.deep_view();
    let ghost goal = quote_lines(reply.deep_view(), width as int, color.deep_view());
    let mut quote = glue3("┆ ", reply.nickname.as_str(), ": ");
    quote.append(reply.excerpt.as_str());
    let chunks = wrap(quote.as_str(), width);
    assert(chunks.deep_view().len() == chunks@.len());
    let mut i: usize = 0;
    assert(lines.deep_view() =~= before + goal.take(0));
    while i < chunks.len()
        invariant
            i <= chunks@.len(),
            lines.deep_view() == before + goal.take(i as int),
        decreases chunks@.len() - i,
    {
        assert(chunks.deep_view()[i as int] == chunks@[i as int].deep_view());
        let ghost now = lines.deep_view();
        lines.push(rail_line(color, toned(chunks[i].as_str(), Tone::Muted)));
        assert(lines.deep_view() =~= now.push(goal[i as int]));
        i = i + 1;
        assert(lines.deep_view() =~= before + goal.take(i as int));
    }
    assert(goal.take(goal.len() as int) =~= goal);
}

/// The sign of an attachment: what came, and what is done with it.
pub open spec fn kind_sign(kind: AttachmentKind) -> Seq<char> {
    match kind {
        AttachmentKind::Image => "◈"@,
        AttachmentKind::Audio => "♪"@,
        AttachmentKind::File => "▤"@,
    }
}

/// What is written of a message: its text, and the name and the size of its attachment.
pub open spec fn body_text(text: Seq<char>, attachment: Option<AttachmentView>) -> Seq<char> {
    match attachment {
        Some(a) => {
            let label = "["@ + kind_sign(a.kind) + " "@ + a.name + " · "@ + sized(a.size as nat)
                + "]"@;
            if text.len() == 0 {
                label
            } else {
                text + " "@ + label
            }
        },
        None => text,
    }
}

fn make_body(text: &str, attachment: &Option<Attachment>) -> (r: String)
    ensures
        r@ == body_text(text@, attachment.deep_view()),
{
    match attachment {
        Some(a) => {
            let sign = match a.kind {
                AttachmentKind::Image => "◈",
                AttachmentKind::Audio => "♪",
                AttachmentKind::File => "▤",
            };
            let mut label = glue3("[", sign, " ");
            label.append(a.name.as_str());
            label.append(" · ");
            label.append(human_size(a.size).as_str());
            label.append("]");
            if text.is_empty() {
                label
            } else {
                glue3(text, " ", label.as_str())
            }
        },
        None => text.to_owned(),
    }
}

/// The line of a voice.
pub open spec fn voice_line(
    wave: WaveformView,
    heard: int,
    name: Seq<char>,
    highlight: Option<Tone>,
    color: ColorView,
) -> LineView {
    LineView { spans: rail_spans(color) + voice_spans(wave, heard, name), back: highlight }
}

/// How many bars of a voice were heard.
pub open spec fn heard_of(decor: DecorView, id: u128) -> int {
    match decor.playing {
        Some((playing, heard)) => if playing == id {
            heard as int
        } else {
            0
        },
        None => 0,
    }
}

/// What is written of a message, as lines. A voice whose shape is known is drawn as a
/// graph.
pub open spec fn body_lines(
    text: Seq<char>,
    attachment: Option<AttachmentView>,
    width: int,
    mention: bool,
    highlight: Option<Tone>,
    color: ColorView,
    decor: DecorView,
) -> Seq<LineView> {
    match attachment {
        Some(a) => if decor.waveforms.contains_key(a.id) {
            seq![
                voice_line(
                    decor.waveforms[a.id],
                    heard_of(decor, a.id),
                    a.name,
                    highlight,
                    color,
                ),
            ] + if text.len() == 0 {
                Seq::empty()
            } else {
                said_lines(text, width, mention, highlight, color)
            }
        } else {
            said_lines(body_text(text, attachment), width, mention, highlight, color)
        },
        None => said_lines(text, width, mention, highlight, color),
    }
}

/// Adds the line of a voice.
fn push_voice(
    lines: &mut Vec<Line>,
    wave: &Waveform,
    heard: usize,
    name: &str,
    highlight: Option<Tone>,
    color: &Color,
)
    ensures
        final(lines).deep_view() == old(lines).deep_view().push(
            voice_line(wave.deep_view(), heard as int, name@, highlight, color.deep_view()),
        ),
{
    let ghost before = lines.deep_view();
    let mut spans = make_rail(color);
    let ghost first = spans.deep_view();
    let mut more = draw_voice(wave, heard, name);
    let ghost rest = more.deep_view();
    spans.append(&mut more);
    assert(spans.deep_view() =~= first + rest);
    lines.push(Line { spans, back: highlight });
    assert(lines.deep_view() =~= before.push(
        voice_line(wave.deep_view(), heard as int, name@, highlight, color.deep_view()),
    ));
}

/// Adds what is written of a message.
fn push_body(
    lines: &mut Vec<Line>,
    text: &str,
    attachment: &Option<Attachment>,
    width: usize,
    mention: bool,
    highlight: Option<Tone>,
    color: &Color,
    decor: &Decor<'_>,
)
    ensures
        final(lines).deep_view() == old(lines).deep_view() + body_lines(
            text@,
            attachment.deep_view(),
            width as int,
            mention,
            highlight,
            color.deep_view(),
            decor.model(),
        ),
{
    let ghost before = lines.deep_view();
    match attachment {
        Some(a) => {
            if let Some(wave) = decor.waveforms.get(&a.id) {
                let heard: usize = match decor.playing {
                    Some((playing, heard)) => if playing == a.id {
                        heard
                    } else {
                        0
                    },
                    None => 0,
                };
                push_voice(lines, wave, heard, a.name.as_str(), highlight, color);
                let ghost drawn = lines.deep_view();
                if !text.is_empty() {
                    push_wrapped(lines, text, width, mention, highlight, color);
                }
                assert(lines.deep_view() =~= before + body_lines(
                    text@,
                    attachment.deep_view(),
                    width as int,
                    mention,
                    highlight,
                    color.deep_view(),
                    decor.model(),
                ));
                return;
            }
        },
        None => {},
    }
    let body = make_body(text, attachment);
    push_wrapped(lines, body.as_str(), width, mention, highlight, color);
}

/// The picture of an attachment that can be shown right here.
pub open spec fn shown_picture(attachment: Option<AttachmentView>, decor: DecorView) -> Option<u128> {
    match attachment {
        Some(a) => if decor.thumbnails.contains_key(a.id) && decor.thumbnails[a.id] is Ready {
            Some(a.id)
        } else {
            None
        },
        None => None,
    }
}

fn find_picture(attachment: &Option<Attachment>, decor: &Decor<'_>) -> (r: Option<u128>)
    ensures
        r == shown_picture(attachment.deep_view(), decor.model()),
{
    match attachment {
        Some(a) => match decor.thumbnails.get(&a.id) {
            Some(Thumbnail::Ready(_)) => Some(a.id),
            _ => None,
        },
        None => None,
    }
}

/// So many empty lines.
pub open spec fn blanks(count: nat) -> Seq<LineView> {
    Seq::new(count, |i: int| blank())
}

fn push_blanks(lines: &mut Vec<Line>, count: usize)
    ensures
        final(lines).deep_view() == old(lines).deep_view() + blanks(count as nat),
{
    let ghost before = lines.deep_view();
    let mut i: usize = 0;
    assert(lines.deep_view() =~= before + blanks(0));
    while i < count
        invariant
            i <= count,
            lines.deep_view() == before + blanks(i as nat),
        decreases count - i,
    {
        let ghost now = lines.deep_view();
        lines.push(empty_line());
        i = i + 1;
        assert(lines.deep_view() =~= now.push(blank()));
        assert(lines.deep_view() =~= before + blanks(i as nat));
    }
}

/// Whether some words belong to the group of those before them.
pub open spec fn same_group(previous: Option<(Seq<char>, i64)>, from: Seq<char>, ts: i64) -> bool {
    previous matches Some((author, at)) && author == from && ts - at < GROUP_WINDOW_MS
}

fn in_same_group(previous: &Option<(String, i64)>, from: &str, ts: i64) -> (r: bool)
    ensures
        r == same_group(previous.deep_view(), from@, ts),
{
    match previous {
        Some((author, at)) => same(author.as_str(), from) && (ts as i128 - *at as i128)
            < GROUP_WINDOW_MS as i128,
        None => false,
    }
}

/// The lines before a message: none within a group, else an empty one, unless the feed
/// begins here.
pub open spec fn gap_lines(page: RenderedView, grouped: bool) -> Seq<LineView> {
    if grouped || page.lines.len() == 0 {
        Seq::empty()
    } else {
        seq![blank()]
    }
}

/// The feed with one more message.
pub open spec fn with_message(
    page: RenderedView,
    index: int,
    entry: EntryView,
    width: int,
    decor: DecorView,
) -> RenderedView {
    match entry {
        EntryView::Chat { from, text, ts, mine, mentions_me, attachment, reply, arrived, .. } => {
            let highlight = highlight_of(decor, index);
            let color = name_color(decor.colors, from, mine, decor.theme);
            let grouped = same_group(page.previous, from, ts);
            let start = page.lines + gap_lines(page, grouped);
            let headed = if grouped {
                start
            } else {
                start.push(
                    header_line(from, ts, mine, color, bar_paint(color, arrived, decor.now)),
                )
            };
            let quoted = match reply {
                Some(reply) => headed + quote_lines(reply, width, color),
                None => headed,
            };
            let said = quoted + body_lines(
                text,
                attachment,
                width,
                mentions_me,
                highlight,
                color,
                decor,
            );
            let picture = shown_picture(attachment, decor);
            RenderedView {
                lines: match picture {
                    Some(_) => said + blanks(THUMB_ROWS as nat),
                    None => said,
                },
                offsets: page.offsets.push(start.len() as usize),
                slots: match picture {
                    Some(id) => page.slots.push(Slot { line: said.len() as usize, id }),
                    None => page.slots,
                },
                previous: Some((from, ts)),
            }
        },
        EntryView::System { .. } => page,
    }
}

/// The sign and the tone of a line of the client itself.
pub open spec fn system_sign(kind: SystemKind) -> (Seq<char>, Tone) {
    match kind {
        SystemKind::Error => ("✕"@, Tone::Bad),
        SystemKind::Join => ("↳"@, Tone::Good),
        SystemKind::Leave => ("↰"@, Tone::Muted),
        SystemKind::Info => ("·"@, Tone::Subtle),
    }
}

/// One line of the client itself; the sign stands before the first only.
pub open spec fn system_line(
    chunk: Seq<char>,
    first: bool,
    kind: SystemKind,
    highlight: Option<Tone>,
) -> LineView {
    let (sign, tone) = system_sign(kind);
    LineView {
        spans: seq![
            raw_span(" "@),
            toned_span(
                if first {
                    sign
                } else {
                    " "@
                },
                tone,
            ),
            raw_span(" "@),
            painted_span(chunk, PaintView::Mixed(tone, Tone::Muted, 40)),
        ],
        back: highlight,
    }
}

/// The lines of the client itself.
pub open spec fn system_lines(
    text: Seq<char>,
    kind: SystemKind,
    width: int,
    highlight: Option<Tone>,
) -> Seq<LineView> {
    Seq::new(
        wrapped(text, width).len(),
        |i: int| system_line(wrapped(text, width)[i], i == 0, kind, highlight),
    )
}

/// The feed with one more line of the client itself. An empty line parts it from what
/// somebody has said.
pub open spec fn with_notice(
    page: RenderedView,
    index: int,
    text: Seq<char>,
    kind: SystemKind,
    width: int,
    decor: DecorView,
) -> RenderedView {
    let start = if page.previous is Some {
        page.lines.push(blank())
    } else {
        page.lines
    };
    RenderedView {
        lines: start + system_lines(text, kind, width, highlight_of(decor, index)),
        offsets: page.offsets.push(start.len() as usize),
        slots: page.slots,
        previous: None,
    }
}

/// The feed with one more entry.
pub open spec fn with_entry(
    page: RenderedView,
    index: int,
    entry: EntryView,
    width: int,
    decor: DecorView,
) -> RenderedView {
    match entry {
        EntryView::Chat { .. } => with_message(page, index, entry, width, decor),
        EntryView::System { text, kind } => with_notice(page, index, text, kind, width, decor),
    }
}

/// An empty feed.
pub open spec fn no_page() -> RenderedView {
    RenderedView {
        lines: Seq::empty(),
        offsets: Seq::empty(),
        slots: Seq::empty(),
        previous: None,
    }
}

/// The feed as lines: entry after entry.
pub open spec fn page_of(entries: Seq<EntryView>, width: int, decor: DecorView) -> RenderedView
    decreases entries.len(),
{
    if entries.len() == 0 {
        no_page()
    } else {
        with_entry(
            page_of(entries.drop_last(), width, decor),
            entries.len() - 1,
            entries.last(),
            width,
            decor,
        )
    }
}

/// The width for the text: what the bar leaves.
pub open spec fn text_room(width: int) -> int {
    if width > BAR_WIDTH {
        width - BAR_WIDTH
    } else {
        1
    }
}

fn make_system_line(chunk: &str, first: bool, kind: SystemKind, highlight: Option<Tone>) -> (r:
    Line)
    ensures
        r.deep_view() == system_line(chunk@, first, kind, highlight),
{
    let (sign, tone) = match kind {
        SystemKind::Error => ("✕", Tone::Bad),
        SystemKind::Join => ("↳", Tone::Good),
        SystemKind::Leave => ("↰", Tone::Muted),
        SystemKind::Info => ("·", Tone::Subtle),
    };
    let mut spans: Vec<Span> = Vec::new();
    spans.push(raw(" "));
    spans.push(
        toned(
            if first {
                sign
            } else {
                " "
            },
            tone,
        ),
    );
    spans.push(raw(" "));
    spans.push(painted(chunk, Paint::Mixed(tone, Tone::Muted, 40)));
    assert(spans.deep_view() =~= system_line(chunk@, first, kind, highlight).spans);
    Line { spans, back: highlight }
}

impl Rendered {
    /// Adds a line of the client itself.
    #[verifier::loop_isolation(false)]
    fn add_notice(
        &mut self,
        index: usize,
        text: &str,
        kind: SystemKind,
        width: usize,
        decor: &Decor<'_>,
    )
        ensures
            final(self).deep_view() == with_notice(
                old(self).deep_view(),
                index as int,
                text@,
                kind,
                width as int,
                decor.model(),
            ),
    {
        let highlight = find_highlight(decor, index);
        let ghost before = self.lines.deep_view();
        if self.previous.is_some() {
            self.lines.push(empty_line());
            assert(self.lines.deep_view() =~= before.push(blank()));
        }
        self.previous = None;
        let ghost start = self.lines.deep_view();
        self.offsets.push(self.lines.len());
        assert(start.len() == self.lines@.len());
        let ghost goal = system_lines(text@, kind, width as int, highlight);
        let chunks = wrap(text, width);
        assert(chunks.deep_view().len() == chunks@.len());
        let mut i: usize = 0;
        let ghost offsets = self.offsets@;
        assert(self.lines.deep_view() =~= start + goal.take(0));
        while i < chunks.len()
            invariant
                i <= chunks@.len(),
                self.lines.deep_view() == start + goal.take(i as int),
                self.offsets@ == offsets,
                self.slots == old(self).slots,
                self.previous is None,
            decreases chunks@.len() - i,
        {
            assert(chunks.deep_view()[i as int] == chunks@[i as int].deep_view());
            let ghost now = self.lines.deep_view();
            self.lines.push(make_system_line(chunks[i].as_str(), i == 0, kind, highlight));
            assert(self.lines.deep_view() =~= now.push(goal[i as int]));
            i = i + 1;
            assert(self.lines.deep_view() =~= start + goal.take(i as int));
        }
        assert(goal.take(goal.len() as int) =~= goal);
    }

    /// Begins a group, unless the words belong to the one before.
    fn begin_group(
        &mut self,
        from: &str,
        ts: i64,
        mine: bool,
        color: &Color,
        age: u64,
        grouped: bool,
    )
        ensures
            ({
                let page = old(self).deep_view();
                let start = page.lines + gap_lines(page, grouped);
                let bar = if age >= FLASH {
                    PaintView::Own(color.deep_view())
                } else {
                    PaintView::Flash(color.deep_view(), age)
                };
                &&& final(self).lines.deep_view() == if grouped {
                    start
                } else {
                    start.push(header_line(from@, ts, mine, color.deep_view(), bar))
                }
                &&& final(self).offsets@ == page.offsets.push(start.len() as usize)
                &&& final(self).slots == old(self).slots
                &&& final(self).previous == old(self).previous
            }),
    {
        let ghost before = self.lines.deep_view();
        assert(before.len() == self.lines@.len());
        if grouped {
            self.offsets.push(self.lines.len());
            assert(before + Seq::<LineView>::empty() =~= before);
            return;
        }
        if self.lines.len() > 0 {
            self.lines.push(empty_line());
        }
        let ghost start = before + gap_lines(old(self).deep_view(), false);
        assert(self.lines.deep_view() =~= start);
        assert(start.len() == self.lines@.len());
        self.offsets.push(self.lines.len());
        self.lines.push(make_header(from, ts, mine, color, age));
        assert(self.lines.deep_view() =~= start.push(self.lines@.last().deep_view()));
    }

    /// Adds a message.
    fn add_message(&mut self, index: usize, entry: &Entry, width: usize, decor: &Decor<'_>)
        requires
            entry is Chat,
        ensures
            final(self).deep_view() == with_message(
                old(self).deep_view(),
                index as int,
                entry.deep_view(),
                width as int,
                decor.model(),
            ),
    {
        match entry {
            Entry::Chat {
                from,
                text,
                ts,
                mine,
                mentions_me,
                attachment,
                reply,
                arrived,
                ..
            } => {
                let highlight = find_highlight(decor, index);
                let color = nick_color(decor.colors, from.as_str(), *mine, decor.theme);
                let age: u64 = if decor.now > *arrived {
                    decor.now - *arrived
                } else {
                    0
                };
                let grouped = in_same_group(&self.previous, from.as_str(), *ts);
                self.begin_group(from.as_str(), *ts, *mine, &color, age, grouped);
                if let Some(reply) = reply {
                    push_quote(&mut self.lines, reply, width, &color);
                }
                push_body(
                    &mut self.lines,
                    text.as_str(),
                    attachment,
                    width,
                    *mentions_me,
                    highlight,
                    &color,
                    decor,
                );
                assert(self.lines.deep_view().len() == self.lines@.len());
                if let Some(id) = find_picture(attachment, decor) {
                    self.slots.push(Slot { line: self.lines.len(), id });
                    push_blanks(&mut self.lines, THUMB_ROWS);
                }
                self.previous = Some((from.clone(), *ts));
            },
            Entry::System { .. } => {},
        }
    }
}

/// Turns the entries into lines, and says where each of them begins.
pub fn render_entries(entries: &Vec<Entry>, width: usize, decor: &Decor<'_>) -> (r: Rendered)
    ensures
        r.deep_view() == page_of(entries.deep_view(), text_room(width as int), decor.model()),
{
    let room: usize = if width > BAR_WIDTH {
        width - BAR_WIDTH
    } else {
        1
    };
    let ghost all = entries.deep_view();
    let ghost model = decor.model();
    let mut page = Rendered {
        lines: Vec::new(),
        offsets: Vec::new(),
        slots: Vec::new(),
        previous: None,
    };
    let mut i: usize = 0;
    assert(all.len() == entries@.len());
    assert(all.take(0) =~= Seq::<EntryView>::empty());
    assert(page.deep_view() =~= no_page());
    while i < entries.len()
        invariant
            i <= entries@.len(),
            all == entries.deep_view(),
            model == decor.model(),
            room == text_room(width as int),
            page.deep_view() == page_of(all.take(i as int), room as int, model),
        decreases entries@.len() - i,
    {
        proof {
            assert(all[i as int] == entries@[i as int].deep_view());
            assert(all.take(i + 1).drop_last() =~= all.take(i as int));
            assert(all.take(i + 1).last() == all[i as int]);
        }
        match &entries[i] {
            Entry::Chat { .. } => page.add_message(i, &entries[i], room, decor),
            Entry::System { text, kind } => {
                page.add_notice(i, text.as_str(), *kind, room, decor)
            },
        }
        i = i + 1;
    }
    assert(all.take(all.len() as int) =~= all);
    page
}

/// Where the entries of a page stand: one place for each, one below another, all of them
/// on the page; and the place of every picture ends on the page.
pub open spec fn placed_well(page: RenderedView, count: nat) -> bool {
    &&& page.offsets.len() == count
    &&& forall|i: int| 0 <= i < count ==> #[trigger] page.offsets[i] < page.lines.len()
    &&& forall|i: int, j: int| 0 <= i < j < count ==> page.offsets[i] < page.offsets[j]
    &&& forall|i: int|
        0 <= i < page.slots.len() ==> (#[trigger] page.slots[i]).line + THUMB_ROWS
            <= page.lines.len()
}

proof fn lemma_entry_adds_lines(
    page: RenderedView,
    index: int,
    entry: EntryView,
    width: int,
    decor: DecorView,
)
    ensures
        with_entry(page, index, entry, width, decor).lines.len() > page.lines.len(),
{
    match entry {
        EntryView::Chat { text, attachment, .. } => {
            assert(wrapped(text, width).len() >= 1);
            assert(wrapped(body_text(text, attachment), width).len() >= 1);
        },
        EntryView::System { text, .. } => {
            assert(wrapped(text, width).len() >= 1);
        },
    }
}

/// Every entry has its line on the page, in the order of the feed, and every picture its
/// room.
pub proof fn law_every_entry_has_its_line(entries: Seq<EntryView>, width: int, decor: DecorView)
    requires
        page_of(entries, width, decor).lines.len() <= usize::MAX,
    ensures
        placed_well(page_of(entries, width, decor), entries.len()),
    decreases entries.len(),
{
    if entries.len() > 0 {
        let before = page_of(entries.drop_last(), width, decor);
        lemma_entry_adds_lines(before, entries.len() - 1, entries.last(), width, decor);
        law_every_entry_has_its_line(entries.drop_last(), width, decor);
        let page = page_of(entries, width, decor);
        assert(page.offsets.drop_last() =~= before.offsets);
        assert forall|i: int| 0 <= i < page.slots.len() implies (#[trigger] page.slots[i]).line
            + THUMB_ROWS <= page.lines.len() by {
            if i < before.slots.len() {
                assert(page.slots[i] == before.slots[i]);
            }
        }
    }
}

} // verus!
