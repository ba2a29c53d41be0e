//! What a screen is made of: lines of painted pieces of text.
//!
//! The pieces say what stands where and in which tone. Mixing the tones into colours is
//! left to whoever draws them.
use crate::text::{chars_of, decimal, glue, glue3, number, to_upper, upper, white};
use crate::theme::{Color, ColorView};
use crate::width::{text_width, width_of};
use vstd::prelude::*;
use vstd::string::*;

verus! {

/// What a colour is for.
#[derive(Debug, Clone, Copy, PartialEq, Eq, Structural)]
pub enum Tone {
    /// The text itself.
    Text,
    /// Times, sizes, explanations.
    Subtle,
    /// What is seen, but does not catch the eye.
    Muted,
    /// The lines of frames.
    Line,
    /// The ground of bars.
    Surface,
    /// Text on a bright ground.
    Ink,
    Good,
    Warn,
    Bad,
    /// What is said to one in person.
    Mention,
    /// The three accents of the theme.
    Primary,
    Secondary,
    Glow,
}

/// How a piece is painted.
#[derive(Debug, PartialEq, Eq)]
pub enum Paint {
    /// As the terminal likes.
    Plain,
    Of(Tone),
    /// Between two tones, so many hundredths of the way.
    Mixed(Tone, Tone, u8),
    /// In a colour of its own.
    Own(Color),
    /// In a colour of its own, so many hundredths darker.
    Dimmed(Color, u8),
    /// Between a tone and a colour of its own.
    Toward(Tone, Color, u8),
    /// In a colour of its own, lit up so many milliseconds ago.
    Flash(Color, u64),
    /// Between the first accent and the second: a place among so many.
    Ramp(usize, usize),
    /// In letters that go from the first accent to the second.
    Gradient,
    /// On a rounded ground.
    Pill(Tone, Tone),
    /// A part of a running wave, so far from its head.
    Wave(u8),
    /// In a tone that breathes.
    Breathing(Tone),
}

pub enum PaintView {
    Plain,
    Of(Tone),
    Mixed(Tone, Tone, u8),
    Own(ColorView),
    Dimmed(ColorView, u8),
    Toward(Tone, ColorView, u8),
    Flash(ColorView, u64),
    Ramp(usize, usize),
    Gradient,
    Pill(Tone, Tone),
    Wave(u8),
    Breathing(Tone),
}

impl DeepView for Paint {
    type V = PaintView;

    open spec fn deep_view(&self) -> PaintView {
        match self {
            Paint::Plain => PaintView::Plain,
            Paint::Of(tone) => PaintView::Of(*tone),
            Paint::Mixed(from, to, part) => PaintView::Mixed(*from, *to, *part),
            Paint::Own(color) => PaintView::Own(color.deep_view()),
            Paint::Dimmed(color, part) => PaintView::Dimmed(color.deep_view(), *part),
            Paint::Toward(tone, color, part) => PaintView::Toward(*tone, color.deep_view(), *part),
            Paint::Flash(color, age) => PaintView::Flash(color.deep_view(), *age),
            Paint::Ramp(at, of) => PaintView::Ramp(*at, *of),
            Paint::Gradient => PaintView::Gradient,
            Paint::Pill(ground, ink) => PaintView::Pill(*ground, *ink),
            Paint::Wave(distance) => PaintView::Wave(*distance),
            Paint::Breathing(tone) => PaintView::Breathing(*tone),
        }
    }
}

impl Clone for Paint {
    fn clone(&self) -> (r: Self)
        ensures
            r.deep_view() == self.deep_view(),
    {
        match self {
            Paint::Plain => Paint::Plain,
            Paint::Of(tone) => Paint::Of(*tone),
            Paint::Mixed(from, to, part) => Paint::Mixed(*from, *to, *part),
            Paint::Own(color) => Paint::Own(color.clone()),
            Paint::Dimmed(color, part) => Paint::Dimmed(color.clone(), *part),
            Paint::Toward(tone, color, part) => Paint::Toward(*tone, color.clone(), *part),
            Paint::Flash(color, age) => Paint::Flash(color.clone(), *age),
            Paint::Ramp(at, of) => Paint::Ramp(*at, *of),
            Paint::Gradient => Paint::Gradient,
            Paint::Pill(ground, ink) => Paint::Pill(*ground, *ink),
            Paint::Wave(distance) => Paint::Wave(*distance),
            Paint::Breathing(tone) => Paint::Breathing(*tone),
        }
    }
}

/// What a piece says.
#[derive(Debug, PartialEq, Eq)]
pub enum Piece {
    Text(String),
    /// Two spaces and the time of day, where the reader is.
    Clock(i64),
}

pub enum PieceView {
    Text(Seq<char>),
    Clock(i64),
}

impl DeepView for Piece {
    type V = PieceView;

    open spec fn deep_view(&self) -> PieceView {
        match self {
            Piece::Text(text) => PieceView::Text(text@),
            Piece::Clock(ts) => PieceView::Clock(*ts),
        }
    }
}

impl Clone for Piece {
    fn clone(&self) -> (r: Self)
        ensures
            r.deep_view() == self.deep_view(),
    {
        match self {
            Piece::Text(text) => Piece::Text(text.clone()),
            Piece::Clock(ts) => Piece::Clock(*ts),
        }
    }
}

/// A painted piece of text.
#[derive(Debug, PartialEq, Eq)]
pub struct Span {
    pub piece: Piece,
    pub paint: Paint,
    pub bold: bool,
    /// The ground behind it.
    pub back: Option<Tone>,
}

pub struct SpanView {
    pub piece: PieceView,
    pub paint: PaintView,
    pub bold: bool,
    pub back: Option<Tone>,
}

impl DeepView for Span {
    type V = SpanView;

    open spec fn deep_view(&self) -> SpanView {
        SpanView {
            piece: self.piece.deep_view(),
            paint: self.paint.deep_view(),
            bold: self.bold,
            back: self.back,
        }
    }
}

impl Clone for Span {
    fn clone(&self) -> (r: Self)
        ensures
            r.deep_view() == self.deep_view(),
    {
        Span {
            piece: self.piece.clone(),
            paint: self.paint.clone(),
            bold: self.bold,
            back: self.back,
        }
    }
}

/// A line of painted pieces.
#[derive(Debug, PartialEq, Eq)]
pub struct Line {
    pub spans: Vec<Span>,
    /// The ground behind the whole line.
    pub back: Option<Tone>,
}

#[verifier::ext_equal]
pub struct LineView {
    pub spans: Seq<SpanView>,
    pub back: Option<Tone>,
}

impl DeepView for Line {
    type V = LineView;

    open spec fn deep_view(&self) -> LineView {
        LineView { spans: self.spans.deep_view(), back: self.back }
    }
}

impl Clone for Line {
    fn clone(&self) -> (r: Self)
        ensures
            r.deep_view() == self.deep_view(),
    {
        let spans = self.spans.clone();
        assert(spans.deep_view() =~= self.spans.deep_view());
        Line { spans, back: self.back }
    }
}

/// A line of pieces on no ground of its own.
pub open spec fn plain_line(spans: Seq<SpanView>) -> LineView {
    LineView { spans, back: None }
}

/// An empty line.
pub open spec fn blank() -> LineView {
    plain_line(Seq::empty())
}

/// A line of pieces.
pub fn line_of(spans: Vec<Span>) -> (r: Line)
    ensures
        r.deep_view() == plain_line(spans.deep_view()),
{
    Line { spans, back: None }
}

/// An empty line.
pub fn empty_line() -> (r: Line)
    ensures
        r.deep_view() == blank(),
{
    let spans: Vec<Span> = Vec::new();
    assert(spans.deep_view() =~= Seq::<SpanView>::empty());
    Line { spans, back: None }
}

/// A line of one piece.
pub fn line_of_one(span: Span) -> (r: Line)
    ensures
        r.deep_view() == plain_line(seq![span.deep_view()]),
{
    let mut spans: Vec<Span> = Vec::new();
    let ghost view = span.deep_view();
    spans.push(span);
    assert(spans.deep_view() =~= seq![view]);
    Line { spans, back: None }
}

/// A line of two pieces.
pub fn line_of_two(first: Span, second: Span) -> (r: Line)
    ensures
        r.deep_view() == plain_line(seq![first.deep_view(), second.deep_view()]),
{
    let mut spans: Vec<Span> = Vec::new();
    let ghost a = first.deep_view();
    let ghost b = second.deep_view();
    spans.push(first);
    spans.push(second);
    assert(spans.deep_view() =~= seq![a, b]);
    Line { spans, back: None }
}

/// A piece in a paint.
pub open spec fn painted_span(text: Seq<char>, paint: PaintView) -> SpanView {
    SpanView { piece: PieceView::Text(text), paint, bold: false, back: None }
}

/// A piece as the terminal likes it.
pub open spec fn raw_span(text: Seq<char>) -> SpanView {
    painted_span(text, PaintView::Plain)
}

/// A piece in a tone.
pub open spec fn toned_span(text: Seq<char>, tone: Tone) -> SpanView {
    painted_span(text, PaintView::Of(tone))
}

/// A strong piece in a tone.
pub open spec fn strong_span(text: Seq<char>, tone: Tone) -> SpanView {
    SpanView { bold: true, ..toned_span(text, tone) }
}

/// A piece in a paint.
pub fn painted(text: &str, paint: Paint) -> (r: Span)
    ensures
        r.deep_view() == painted_span(text@, paint.deep_view()),
{
    Span { piece: Piece::Text(text.to_owned()), paint, bold: false, back: None }
}

/// A piece as the terminal likes it.
pub fn raw(text: &str) -> (r: Span)
    ensures
        r.deep_view() == raw_span(text@),
{
    painted(text, Paint::Plain)
}

/// A piece in a tone.
pub fn toned(text: &str, tone: Tone) -> (r: Span)
    ensures
        r.deep_view() == toned_span(text@, tone),
{
    painted(text, Paint::Of(tone))
}

/// A strong piece in a tone.
pub fn strong(text: &str, tone: Tone) -> (r: Span)
    ensures
        r.deep_view() == strong_span(text@, tone),
{
    Span {
        piece: Piece::Text(text.to_owned()),
        paint: Paint::Of(tone),
        bold: true,
        back: None,
    }
}

/// How many cells a piece takes.
pub open spec fn span_width(span: SpanView) -> int {
    match span.piece {
        PieceView::Text(text) => match span.paint {
            // Half a cell of ground on either side makes a pill round.
            PaintView::Pill(..) => text_width(text) + 2,
            _ => text_width(text) as int,
        },
        PieceView::Clock(_) => 7,
    }
}

/// How many cells some pieces take.
pub open spec fn spans_width(spans: Seq<SpanView>) -> int
    decreases spans.len(),
{
    if spans.len() == 0 {
        0
    } else {
        spans_width(spans.drop_last()) + span_width(spans.last())
    }
}

/// What is left of a number of cells.
pub open spec fn cells_left(width: int, spans: Seq<SpanView>) -> int {
    if width > spans_width(spans) {
        width - spans_width(spans)
    } else {
        0
    }
}

/// What is left of some cells after a piece.
fn left_after(room: usize, span: &Span) -> (r: usize)
    ensures
        r == if room > span_width(span.deep_view()) {
            room - span_width(span.deep_view())
        } else {
            0
        },
{
    let (w, extra): (usize, usize) = match &span.piece {
        Piece::Text(text) => {
            let w = width_of(text.as_str());
            match &span.paint {
                Paint::Pill(_, _) => (w, 2),
                _ => (w, 0),
            }
        },
        Piece::Clock(_) => (7, 0),
    };
    if w >= room {
        0
    } else if extra >= room - w {
        0
    } else {
        room - w - extra
    }
}

pub proof fn lemma_spans_width_grows(spans: Seq<SpanView>, k: int)
    requires
        0 <= k <= spans.len(),
    ensures
        spans_width(spans.take(k)) <= spans_width(spans),
        0 <= spans_width(spans.take(k)),
    decreases spans.len(),
{
    if k < spans.len() {
        lemma_spans_width_grows(spans.drop_last(), k);
        assert(spans.drop_last().take(k) =~= spans.take(k));
    } else {
        assert(spans.take(k) =~= spans);
        if k > 0 {
            lemma_spans_width_grows(spans.drop_last(), k - 1);
            assert(spans.drop_last().take(k - 1) =~= spans.drop_last());
        }
    }
}

/// What is left of a number of cells after some pieces.
#[verifier::loop_isolation(false)]
pub fn room_after(width: usize, spans: &Vec<Span>) -> (r: usize)
    ensures
        r == cells_left(width as int, spans.deep_view()),
{
    let ghost all = spans.deep_view();
    let mut room: usize = width;
    let mut i: usize = 0;
    assert(all.take(0) =~= Seq::<SpanView>::empty());
    assert(spans_width(all.take(0)) == 0);
    while i < spans.len()
        invariant
            i <= spans@.len(),
            room == cells_left(width as int, all.take(i as int)),
        decreases spans@.len() - i,
    {
        proof {
            assert(all[i as int] == spans@[i as int].deep_view());
            assert(all.take(i + 1).drop_last() =~= all.take(i as int));
            lemma_spans_width_grows(all, i as int);
            lemma_spans_width_grows(all, i + 1);
        }
        room = left_after(room, &spans[i]);
        i = i + 1;
    }
    assert(all.take(all.len() as int) =~= all);
    room
}

/// A sign so many times.
pub open spec fn repeated(sign: Seq<char>, count: nat) -> Seq<char>
    decreases count,
{
    if count == 0 {
        Seq::empty()
    } else {
        repeated(sign, (count - 1) as nat) + sign
    }
}

/// A sign so many times.
pub fn repeat(sign: &str, count: usize) -> (r: String)
    ensures
        r@ == repeated(sign@, count as nat),
{
    let mut r = String::new();
    let mut i: usize = 0;
    assert(r@ =~= Seq::<char>::empty());
    while i < count
        invariant
            i <= count,
            r@ == repeated(sign@, i as nat),
        decreases count - i,
    {
        r.append(sign);
        i = i + 1;
    }
    r
}

/// Pieces filled up to a width.
pub open spec fn filled(spans: Seq<SpanView>, width: int) -> Seq<SpanView> {
    if spans_width(spans) >= width {
        spans
    } else {
        spans.push(raw_span(repeated(" "@, cells_left(width, spans) as nat)))
    }
}

/// Fills pieces up to a width.
pub fn fill(spans: &mut Vec<Span>, width: usize)
    ensures
        final(spans).deep_view() == filled(old(spans).deep_view(), width as int),
{
    let left: usize = room_after(width, spans);
    let ghost before = spans.deep_view();
    proof {
        lemma_spans_width_grows(before, before.len() as int);
    }
    if left > 0 {
        spans.push(raw(repeat(" ", left).as_str()));
        assert(spans.deep_view() =~= before.push(raw_span(repeated(" "@, left as nat))));
    }
}

/// One row of two columns.
pub open spec fn side_by_side(
    left: Seq<LineView>,
    right: Seq<LineView>,
    width: int,
    row: int,
) -> LineView {
    let first = if row < left.len() {
        left[row].spans
    } else {
        Seq::empty()
    };
    plain_line(
        filled(first, width) + if row < right.len() {
            right[row].spans
        } else {
            Seq::empty()
        },
    )
}

/// Two columns, the left one filled up to its width and a gap.
pub open spec fn in_columns(
    left: Seq<LineView>,
    right: Seq<LineView>,
    left_width: int,
    gap: int,
) -> Seq<LineView> {
    let rows = if left.len() > right.len() {
        left.len()
    } else {
        right.len()
    };
    Seq::new(rows, |row: int| side_by_side(left, right, left_width + gap, row))
}

fn copy_spans(lines: &Vec<Line>, row: usize) -> (r: Vec<Span>)
    ensures
        r.deep_view() == if row < lines@.len() {
            lines.deep_view()[row as int].spans
        } else {
            Seq::empty()
        },
{
    if row < lines.len() {
        assert(lines.deep_view()[row as int] == lines@[row as int].deep_view());
        let r = lines[row].spans.clone();
        assert(r.deep_view() =~= lines@[row as int].spans.deep_view());
        r
    } else {
        let r: Vec<Span> = Vec::new();
        assert(r.deep_view() =~= Seq::<SpanView>::empty());
        r
    }
}

/// Puts two columns side by side.
#[verifier::loop_isolation(false)]
pub fn columns(left: &Vec<Line>, right: &Vec<Line>, left_width: usize, gap: usize) -> (r: Vec<Line>)
    requires
        left_width + gap <= usize::MAX,
    ensures
        r.deep_view() == in_columns(
            left.deep_view(),
            right.deep_view(),
            left_width as int,
            gap as int,
        ),
{
    let ghost goal = in_columns(
        left.deep_view(),
        right.deep_view(),
        left_width as int,
        gap as int,
    );
    assert(left.deep_view().len() == left@.len());
    assert(right.deep_view().len() == right@.len());
    let rows: usize = if left.len() > right.len() {
        left.len()
    } else {
        right.len()
    };
    let mut r: Vec<Line> = Vec::new();
    let mut row: usize = 0;
    assert(r.deep_view() =~= goal.take(0));
    while row < rows
        invariant
            row <= rows,
            r.deep_view() == goal.take(row as int),
        decreases rows - row,
    {
        let mut spans = copy_spans(left, row);
        fill(&mut spans, left_width + gap);
        let ghost first = spans.deep_view();
        let mut more = copy_spans(right, row);
        let ghost second = more.deep_view();
        spans.append(&mut more);
        assert(spans.deep_view() =~= first + second);
        let ghost before = r.deep_view();
        r.push(line_of(spans));
        assert(r.deep_view() =~= before.push(goal[row as int]));
        row = row + 1;
        assert(r.deep_view() =~= goal.take(row as int));
    }
    assert(r.deep_view() =~= goal);
    r
}

/// How many dots are drawn at most.
pub const MAX_DOTS: usize = 5;

/// Dots for people: how many there are is seen without counting.
pub open spec fn dot_spans(count: int, paint: PaintView) -> Seq<SpanView> {
    if count == 0 {
        seq![toned_span("—"@, Tone::Line)]
    } else if count <= MAX_DOTS {
        seq![painted_span(repeated("●"@, count as nat), paint)]
    } else {
        seq![
            painted_span(repeated("●"@, MAX_DOTS as nat), paint),
            toned_span("+"@ + decimal((count - MAX_DOTS) as nat), Tone::Muted),
        ]
    }
}

/// Dots for people. More than five run together, and the number says more.
pub fn dots(count: usize, paint: Paint) -> (r: Vec<Span>)
    ensures
        r.deep_view() == dot_spans(count as int, paint.deep_view()),
{
    let mut r: Vec<Span> = Vec::new();
    let ghost view = paint.deep_view();
    if count == 0 {
        r.push(toned("—", Tone::Line));
    } else {
        let shown: usize = if count < MAX_DOTS {
            count
        } else {
            MAX_DOTS
        };
        r.push(painted(repeat("●", shown).as_str(), paint));
        if count > shown {
            r.push(
                toned(glue("+", number((count - shown) as u64).as_str()).as_str(), Tone::Muted),
            );
        }
    }
    assert(r.deep_view() =~= dot_spans(count as int, view));
    r
}

/// A value between arrows: it is chosen with the arrows and not typed.
pub open spec fn chooser_spans(value: Seq<char>, chosen: bool) -> Seq<SpanView> {
    let arrows = if chosen {
        Tone::Primary
    } else {
        Tone::Line
    };
    seq![
        toned_span("‹ "@, arrows),
        if chosen {
            strong_span(value, Tone::Text)
        } else {
            toned_span(value, Tone::Subtle)
        },
        toned_span(" ›"@, arrows),
    ]
}

/// A value between arrows.
pub fn chooser(value: &str, chosen: bool) -> (r: Vec<Span>)
    ensures
        r.deep_view() == chooser_spans(value@, chosen),
{
    let arrows = if chosen {
        Tone::Primary
    } else {
        Tone::Line
    };
    let mut r: Vec<Span> = Vec::new();
    r.push(toned("‹ ", arrows));
    r.push(
        if chosen {
            strong(value, Tone::Text)
        } else {
            toned(value, Tone::Subtle)
        },
    );
    r.push(toned(" ›", arrows));
    assert(r.deep_view() =~= chooser_spans(value@, chosen));
    r
}

/// A pill.
pub open spec fn pill_span(label: Seq<char>, ground: Tone, ink: Tone) -> SpanView {
    painted_span(label, PaintView::Pill(ground, ink))
}

/// A pill.
pub fn pill(label: &str, ground: Tone, ink: Tone) -> (r: Span)
    ensures
        r.deep_view() == pill_span(label@, ground, ink),
{
    painted(label, Paint::Pill(ground, ink))
}

/// A button, lit up when it is waited for.
pub open spec fn button_span(label: Seq<char>, ready: bool) -> SpanView {
    if ready {
        pill_span(" "@ + label + " "@, Tone::Primary, Tone::Ink)
    } else {
        toned_span("  "@ + label + "  "@, Tone::Muted)
    }
}

/// A button, lit up when it is waited for.
pub fn button(label: &str, ready: bool) -> (r: Span)
    ensures
        r.deep_view() == button_span(label@, ready),
{
    if ready {
        pill(glue3(" ", label, " ").as_str(), Tone::Primary, Tone::Ink)
    } else {
        toned(glue3("  ", label, "  ").as_str(), Tone::Muted)
    }
}

/// Letters with room between them; a space stays alone.
pub open spec fn spaced(s: Seq<char>) -> Seq<char>
    decreases s.len(),
{
    if s.len() == 0 {
        Seq::empty()
    } else if s.last() == ' ' {
        spaced(s.drop_last()).push(' ')
    } else {
        spaced(s.drop_last()).push(s.last()).push(' ')
    }
}

/// A text without the white space behind it.
pub open spec fn caption_text(s: Seq<char>) -> Seq<char> {
    crate::text::trim_right(spaced(upper(s)))
}

/// The heading of a part: large letters with room between them. So it reads as a
/// heading without a frame.
pub open spec fn caption_span(s: Seq<char>) -> SpanView {
    painted_span(caption_text(s), PaintView::Gradient)
}

/// The heading of a part.
#[verifier::loop_isolation(false)]
pub fn caption(s: &str) -> (r: Span)
    ensures
        r.deep_view() == caption_span(s@),
{
    let big = to_upper(s);
    let v = chars_of(big.as_str());
    let mut out: Vec<char> = Vec::new();
    let mut i: usize = 0;
    assert(v@.take(0) =~= Seq::<char>::empty());
    assert(out@ =~= spaced(v@.take(0)));
    while i < v.len()
        invariant
            i <= v@.len(),
            out@ == spaced(v@.take(i as int)),
        decreases v@.len() - i,
    {
        assert(v@.take(i + 1).drop_last() =~= v@.take(i as int));
        let c = v[i];
        out.push(c);
        if c != ' ' {
            out.push(' ');
        }
        i = i + 1;
    }
    assert(v@.take(v@.len() as int) =~= v@);
    let ghost all = out@;
    while out.len() > 0 && white(out[out.len() - 1])
        invariant
            crate::text::trim_right(all) == crate::text::trim_right(out@),
        decreases out@.len(),
    {
        let ghost before = out@;
        out.pop();
        assert(out@ =~= before.drop_last());
    }
    painted(crate::text::text_of(&out).as_str(), Paint::Gradient)
}

/// A key and what it does. The key is bright, the words are muted: the eye runs along
/// the keys.
pub open spec fn hint_of(key: Seq<char>, what: Seq<char>) -> Seq<SpanView> {
    seq![strong_span(key, Tone::Primary), toned_span(" "@ + what, Tone::Muted)]
}

/// A key and what it does.
pub fn key_hint(key: &str, what: &str) -> (r: Vec<Span>)
    ensures
        r.deep_view() == hint_of(key@, what@),
{
    let r: Vec<Span> = vec![
        strong(key, Tone::Primary),
        toned(glue(" ", what).as_str(), Tone::Muted),
    ];
    assert(r.deep_view() =~= hint_of(key@, what@));
    r
}

/// What stands between two hints.
pub open spec fn separator_span() -> SpanView {
    toned_span("  ·  "@, Tone::Line)
}

/// What stands between two hints.
pub fn separator() -> (r: Span)
    ensures
        r.deep_view() == separator_span(),
{
    toned("  ·  ", Tone::Line)
}

/// The dot of a connection. One that burns steadily would look as if all were well:
/// without a connection it breathes.
pub open spec fn dot_span(tone: Tone, alive: bool) -> SpanView {
    if alive {
        toned_span("●"@, tone)
    } else {
        painted_span("●"@, PaintView::Breathing(tone))
    }
}

/// The dot of a connection.
pub fn status_dot(tone: Tone, alive: bool) -> (r: Span)
    ensures
        r.deep_view() == dot_span(tone, alive),
{
    if alive {
        toned("●", tone)
    } else {
        painted("●", Paint::Breathing(tone))
    }
}

/// Keys and what they do, one pair after another.
pub open spec fn hint_spans(pairs: Seq<(Seq<char>, Seq<char>)>) -> Seq<SpanView>
    decreases pairs.len(),
{
    if pairs.len() == 0 {
        Seq::empty()
    } else {
        let before = hint_spans(pairs.drop_last());
        let (key, what) = pairs.last();
        (if pairs.len() > 1 {
            before.push(separator_span())
        } else {
            before
        }) + hint_of(key, what)
    }
}

/// Keys and what they do.
#[verifier::loop_isolation(false)]
pub fn hints(pairs: &Vec<(&'static str, &'static str)>) -> (r: Vec<Span>)
    ensures
        r.deep_view() == hint_spans(pairs.deep_view()),
{
    let ghost all = pairs.deep_view();
    let mut r: Vec<Span> = Vec::new();
    let mut i: usize = 0;
    assert(all.len() == pairs@.len());
    assert(all.take(0) =~= Seq::<(Seq<char>, Seq<char>)>::empty());
    assert(r.deep_view() =~= hint_spans(all.take(0)));
    while i < pairs.len()
        invariant
            i <= pairs@.len(),
            r.deep_view() == hint_spans(all.take(i as int)),
        decreases pairs@.len() - i,
    {
        let (key, what) = pairs[i];
        let ghost before = r.deep_view();
        proof {
            assert(all[i as int] == pairs@[i as int].deep_view());
            assert(all.take(i + 1).drop_last() =~= all.take(i as int));
        }
        if i > 0 {
            r.push(separator());
        }
        let mut hint = key_hint(key, what);
        let ghost parted = r.deep_view();
        let ghost added = hint.deep_view();
        r.append(&mut hint);
        assert(r.deep_view() =~= parted + added);
        i = i + 1;
        assert(r.deep_view() =~= hint_spans(all.take(i as int)));
    }
    assert(all.take(all.len() as int) =~= all);
    r
}

/// How far a cell is from the head of a running wave, at most six.
pub open spec fn wave_distance(at: int, width: int, tick: u64) -> u8 {
    let head = (tick / 2) as int % (width + 6);
    let distance = if head > at {
        head - at
    } else {
        at - head
    };
    (if distance < 6 {
        distance
    } else {
        6
    }) as u8
}

/// A running wave: nobody knows how long the work will take, and no number is made up.
pub open spec fn runner_spans(width: int, tick: u64) -> Seq<SpanView> {
    Seq::new(
        width as nat,
        |at: int| painted_span("─"@, PaintView::Wave(wave_distance(at, width, tick))),
    )
}

/// A running wave.
#[verifier::loop_isolation(false)]
pub fn runner(width: usize, tick: u64) -> (r: Vec<Span>)
    ensures
        r.deep_view() == runner_spans(width as int, tick),
{
    let ghost goal = runner_spans(width as int, tick);
    let mut r: Vec<Span> = Vec::new();
    let head: u128 = (tick / 2) as u128 % (width as u128 + 6);
    let mut at: usize = 0;
    assert(r.deep_view() =~= goal.take(0));
    while at < width
        invariant
            at <= width,
            r.deep_view() == goal.take(at as int),
        decreases width - at,
    {
        let place: u128 = at as u128;
        let distance: u128 = if head > place {
            head - place
        } else {
            place - head
        };
        let distance: u8 = if distance < 6 {
            distance as u8
        } else {
            6
        };
        let ghost before = r.deep_view();
        r.push(painted("─", Paint::Wave(distance)));
        assert(r.deep_view() =~= before.push(goal[at as int]));
        at = at + 1;
        assert(r.deep_view() =~= goal.take(at as int));
    }
    assert(r.deep_view() =~= goal);
    r
}

} // verus!
