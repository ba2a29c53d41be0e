//! The screen of a conversation: the bar above, the feed, the people and the hint below.
use crate::feed::{
    blanks, name_color, nick_color, page_of, render_entries, text_room, Decor, DecorView, Rendered,
    RenderedView, Slot, THUMB_ROWS,
};
use crate::frame::{lesser, taken_off};
use crate::input::{Input, InputView};
use crate::paper::{
    blank, caption, caption_span, cells_left, dot_span, dot_spans, dots, empty_line, hint_spans,
    hints, lemma_spans_width_grows, line_of, line_of_one, painted, painted_span, pill, pill_span,
    plain_line, raw, raw_span, room_after, runner, runner_spans, spans_width, status_dot, strong,
    strong_span, toned, toned_span, Line, LineView, Paint, PaintView, Piece, PieceView, Span,
    SpanView, Tone,
};
use crate::protocol::{UserInfo, UserInfoView};
use crate::seqs::{last_where, lemma_filter_step, lemma_last_where};
use crate::state::{
    PickMode, ReplyTargetView, Search, SearchView, State, StateView, Status, StatusView, Viewport,
};
use crate::text::{chars_of, decimal, glue, glue3, join, joined, number, same, text_between};
use crate::theme::{spinner, spinner_frame};
use crate::validate::MAX_TEXT_CHARS;
use crate::walk::begins_by;
use crate::width::{
    label_of, server_label, shorten, shortened, split_at_width, split_point, text_width, width_of,
};
use vstd::prelude::*;
use vstd::string::*;

verus! {

/// The width of the column with the people, and the least width of the window in which
/// it has a place.
pub const SIDEBAR: u16 = 22;

pub const SIDEBAR_NEEDS: u16 = 72;

/// The names of people.
pub open spec fn names_in(users: Seq<UserInfoView>) -> Seq<Seq<char>> {
    users.map_values(|user: UserInfoView| user.nickname)
}

/// The people in so many cells: their names, else how many there are, else nothing.
pub open spec fn people_text(users: Seq<UserInfoView>, width: int) -> Seq<char> {
    let full = joined(names_in(users), ", "@);
    let short = decimal(users.len()) + " человек"@;
    if users.len() == 0 || width < 6 {
        Seq::empty()
    } else if text_width(full) <= width {
        full
    } else if text_width(short) <= width {
        short
    } else {
        Seq::empty()
    }
}

/// The people in so many cells.
#[verifier::loop_isolation(false)]
pub fn people_summary(users: &Vec<UserInfo>, width: usize) -> (r: String)
    ensures
        r@ == people_text(users.deep_view(), width as int),
{
    let ghost all = users.deep_view();
    let ghost goal = names_in(all);
    assert(all.len() == users@.len());
    if users.len() == 0 || width < 6 {
        let r = String::new();
        assert(r@ =~= Seq::<char>::empty());
        return r;
    }
    let mut names: Vec<String> = Vec::new();
    let mut i: usize = 0;
    assert(names.deep_view() =~= goal.take(0));
    while i < users.len()
        invariant
            i <= users@.len(),
            names.deep_view() == goal.take(i as int),
        decreases users@.len() - i,
    {
        let ghost before = names.deep_view();
        assert(all[i as int] == users@[i as int].deep_view());
        names.push(users[i].nickname.clone());
        assert(names.deep_view() =~= before.push(goal[i as int]));
        i = i + 1;
        assert(names.deep_view() =~= goal.take(i as int));
    }
    assert(goal.take(goal.len() as int) =~= goal);
    let full = join(&names, ", ");
    if width_of(full.as_str()) <= width {
        return full;
    }
    let short = glue(number(users.len() as u64).as_str(), " человек");
    if width_of(short.as_str()) <= width {
        return short;
    }
    let r = String::new();
    assert(r@ =~= Seq::<char>::empty());
    r
}

/// How many seconds are left, the one that has begun among them.
pub open spec fn seconds_left(retry_at: u64, now: u64) -> nat {
    (taken_off(retry_at as int, now as int) / 1000 + 1) as nat
}

/// What is said of the connection.
pub open spec fn status_of(status: StatusView, tick: u64, now: u64) -> Seq<SpanView> {
    match status {
        StatusView::Connecting { .. } => seq![
            toned_span(spinner_frame((tick / 2) as int % 10), Tone::Warn),
            toned_span(" подключаюсь"@, Tone::Warn),
        ],
        StatusView::Online => seq![
            dot_span(Tone::Good, true),
            toned_span(" в сети"@, Tone::Good),
        ],
        StatusView::Reconnecting { retry_at, .. } => seq![
            dot_span(Tone::Bad, false),
            toned_span(
                " нет связи · "@ + decimal(seconds_left(retry_at, now)) + "с"@,
                Tone::Bad,
            ),
        ],
    }
}

/// What is said of the connection.
pub fn status_spans(status: &Status, tick: u64, now: u64) -> (r: Vec<Span>)
    ensures
        r.deep_view() == status_of(status.deep_view(), tick, now),
{
    let mut r: Vec<Span> = Vec::new();
    match status {
        Status::Connecting { .. } => {
            r.push(toned(spinner(tick), Tone::Warn));
            r.push(toned(" подключаюсь", Tone::Warn));
        },
        Status::Online => {
            r.push(status_dot(Tone::Good, true));
            r.push(toned(" в сети", Tone::Good));
        },
        Status::Reconnecting { retry_at, .. } => {
            let left: u64 = if *retry_at > now {
                *retry_at - now
            } else {
                0
            };
            r.push(status_dot(Tone::Bad, false));
            r.push(
                toned(
                    glue3(" нет связи · ", number(left / 1000 + 1).as_str(), "с").as_str(),
                    Tone::Bad,
                ),
            );
        },
    }
    assert(r.deep_view() =~= status_of(status.deep_view(), tick, now));
    r
}

/// The bar above the feed: what stands at its two ends.
pub struct Header {
    pub left: Vec<Span>,
    pub right: Vec<Span>,
}

pub struct HeaderView {
    pub left: Seq<SpanView>,
    pub right: Seq<SpanView>,
}

impl DeepView for Header {
    type V = HeaderView;

    open spec fn deep_view(&self) -> HeaderView {
        HeaderView { left: self.left.deep_view(), right: self.right.deep_view() }
    }
}

impl StateView {
    /// The right end of the bar: the connection and the time of day.
    pub open spec fn header_right(self, now: u64, clock: i64) -> Seq<SpanView> {
        status_of(self.status, self.tick, now).push(
            SpanView {
                piece: PieceView::Clock(clock),
                paint: PaintView::Of(Tone::Muted),
                bold: false,
                back: None,
            },
        ).push(toned_span(" "@, Tone::Muted))
    }

    /// The left end of the bar before the people.
    pub open spec fn header_room(self) -> Seq<SpanView> {
        seq![
            raw_span(" "@),
            pill_span(" ◆ "@ + shortened(self.room, 24) + " "@, Tone::Primary, Tone::Ink),
        ]
    }

    /// How many cells of the bar are left for the people.
    pub open spec fn header_free(self, width: int, now: u64, clock: i64) -> int {
        taken_off(
            width,
            spans_width(self.header_room()) + spans_width(self.header_right(now, clock)) + 2,
        )
    }

    /// The bar above the feed.
    pub open spec fn header(self, width: int, now: u64, clock: i64) -> HeaderView {
        let free = self.header_free(width, now, clock);
        let names = people_text(self.users, taken_off(free, 8));
        let people = self.header_room().push(raw_span("  "@)) + dot_spans(
            self.users.len() as int,
            PaintView::Mixed(Tone::Good, Tone::Subtle, 30),
        );
        HeaderView {
            left: if free <= 4 || self.users.len() == 0 {
                self.header_room()
            } else if names.len() == 0 {
                people
            } else {
                people.push(toned_span("  "@ + names, Tone::Muted))
            },
            right: self.header_right(now, clock),
        }
    }
}

proof fn lemma_natural_width(spans: Seq<SpanView>)
    ensures
        spans_width(spans) >= 0,
{
    lemma_spans_width_grows(spans, spans.len() as int);
    assert(spans.take(spans.len() as int) =~= spans);
}

impl State {
    /// The right end of the bar.
    fn make_right(&self, now: u64, clock: i64) -> (r: Vec<Span>)
        ensures
            r.deep_view() == self.deep_view().header_right(now, clock),
    {
        let mut r = status_spans(&self.status, self.tick, now);
        let ghost first = r.deep_view();
        r.push(
            Span {
                piece: Piece::Clock(clock),
                paint: Paint::Of(Tone::Muted),
                bold: false,
                back: None,
            },
        );
        r.push(toned(" ", Tone::Muted));
        assert(r.deep_view() =~= self.deep_view().header_right(now, clock));
        r
    }

    /// The bar above the feed: the room, the people in it and the connection.
    pub fn header(&self, width: usize, now: u64, clock: i64) -> (r: Header)
        ensures
            r.deep_view() == self.deep_view().header(width as int, now, clock),
    {
        let right = self.make_right(now, clock);
        let mut left: Vec<Span> = Vec::new();
        left.push(raw(" "));
        left.push(
            pill(
                glue3(" ◆ ", shorten(self.room.as_str(), 24).as_str(), " ").as_str(),
                Tone::Primary,
                Tone::Ink,
            ),
        );
        let ghost room = self.deep_view().header_room();
        assert(left.deep_view() =~= room);
        let rest: usize = room_after(room_after(width, &left), &right);
        let free: usize = if rest > 2 {
            rest - 2
        } else {
            0
        };
        proof {
            lemma_natural_width(room);
            lemma_natural_width(right.deep_view());
            assert(self.deep_view().users.len() == self.users@.len());
        }
        if free > 4 && self.users.len() > 0 {
            left.push(raw("  "));
            let mut more = dots(
                self.users.len(),
                Paint::Mixed(Tone::Good, Tone::Subtle, 30),
            );
            let ghost second = more.deep_view();
            left.append(&mut more);
            assert(left.deep_view() =~= room.push(raw_span("  "@)) + second);
            let names = people_summary(
                &self.users,
                if free > 8 {
                    free - 8
                } else {
                    0
                },
            );
            if !names.as_str().is_empty() {
                let ghost before = left.deep_view();
                left.push(toned(glue("  ", names.as_str()).as_str(), Tone::Muted));
                assert(left.deep_view() =~= before.push(
                    toned_span("  "@ + names@, Tone::Muted),
                ));
            }
        }
        Header { left, right }
    }
}

/// Whether a name is among those who are typing.
fn among(names: &Vec<String>, name: &str) -> (r: bool)
    ensures
        r == names.deep_view().contains(name@),
{
    let ghost all = names.deep_view();
    let mut i: usize = 0;
    assert(all.len() == names@.len());
    while i < names.len()
        invariant
            i <= names@.len(),
            all == names.deep_view(),
            all.len() == names@.len(),
            forall|k: int| 0 <= k < i ==> all[k] != name@,
        decreases names@.len() - i,
    {
        assert(all[i as int] == names@[i as int].deep_view());
        if same(names[i].as_str(), name) {
            assert(all[i as int] == name@);
            return true;
        }
        i = i + 1;
    }
    false
}

impl StateView {
    /// Somebody in the column with the people: who is typing is marked.
    pub open spec fn person_line(self, user: UserInfoView, width: int, now: u64) -> LineView {
        let mine = self.me == Some(user.id);
        let spans = seq![
            painted_span(
                "● "@,
                PaintView::Own(name_color(self.colors, user.nickname, mine, self.theme)),
            ),
            toned_span(
                shortened(user.nickname, width - 7),
                if mine {
                    Tone::Text
                } else {
                    Tone::Subtle
                },
            ),
        ];
        plain_line(
            if self.typing_names(now).contains(user.nickname) {
                spans.push(toned_span(" ✎"@, Tone::Secondary))
            } else if mine {
                spans.push(toned_span(" вы"@, Tone::Muted))
            } else {
                spans
            },
        )
    }

    /// The column with the people: who is in the room, and where the room is.
    pub open spec fn people_lines(self, width: int, now: u64) -> Seq<LineView> {
        let server = label_of(self.server);
        seq![plain_line(seq![caption_span("люди"@)])] + self.users.map_values(
            |user: UserInfoView| self.person_line(user, width, now),
        ) + (if self.users.len() == 0 {
            seq![plain_line(seq![toned_span("пока никого"@, Tone::Muted)])]
        } else {
            Seq::empty()
        }) + seq![
            blank(),
            plain_line(seq![caption_span("сервер"@)]),
            plain_line(
                seq![
                    toned_span(
                        if server.len() == 0 {
                            "не подключены"@
                        } else {
                            shortened(server, width - 2)
                        },
                        Tone::Muted,
                    ),
                ],
            ),
        ]
    }
}

impl State {
    fn make_person(&self, user: &UserInfo, typing: &Vec<String>, width: usize, Ghost(now): Ghost<u64>) -> (r: Line)
        requires
            width >= 7,
            typing.deep_view() == self.deep_view().typing_names(now),
        ensures
            r.deep_view() == self.deep_view().person_line(user.deep_view(), width as int, now),
    {
        let mine = match self.me {
            Some(me) => me == user.id,
            None => false,
        };
        let mut spans: Vec<Span> = Vec::new();
        spans.push(
            painted(
                "● ",
                Paint::Own(
                    nick_color(&self.colors, user.nickname.as_str(), mine, self.theme),
                ),
            ),
        );
        spans.push(
            toned(
                shorten(user.nickname.as_str(), width - 7).as_str(),
                if mine {
                    Tone::Text
                } else {
                    Tone::Subtle
                },
            ),
        );
        if among(typing, user.nickname.as_str()) {
            spans.push(toned(" ✎", Tone::Secondary));
        } else if mine {
            spans.push(toned(" вы", Tone::Muted));
        }
        assert(spans.deep_view() =~= self.deep_view().person_line(
            user.deep_view(),
            width as int,
            now,
        ).spans);
        line_of(spans)
    }

    /// The column with the people, of so many cells with the line beside it. A column
    /// too narrow for the headings stays empty; the narrowest one has no room for names.
    #[verifier::loop_isolation(false)]
    pub fn people_lines(&self, width: usize, now: u64) -> (r: Vec<Line>)
        requires
            width != 6 || self.users@.len() == 0,
        ensures
            width < 6 ==> r@.len() == 0,
            width >= 6 ==> r.deep_view() == self.deep_view().people_lines(width as int, now),
    {
        let mut r: Vec<Line> = Vec::new();
        if width < 6 {
            return r;
        }
        let ghost view = self.deep_view();
        let ghost goal = view.users.map_values(
            |user: UserInfoView| view.person_line(user, width as int, now),
        );
        let typing = self.typing_now(now);
        r.push(line_of_one(caption("люди")));
        let ghost head = r.deep_view();
        let mut i: usize = 0;
        assert(view.users.len() == self.users@.len());
        assert(head =~= seq![plain_line(seq![caption_span("люди"@)])]);
        assert(r.deep_view() =~= head + goal.take(0));
        while i < self.users.len()
            invariant
                i <= self.users@.len(),
                r.deep_view() == head + goal.take(i as int),
            decreases self.users@.len() - i,
        {
            let ghost before = r.deep_view();
            assert(view.users[i as int] == self.users@[i as int].deep_view());
            r.push(self.make_person(&self.users[i], &typing, width, Ghost(now)));
            assert(r.deep_view() =~= before.push(goal[i as int]));
            i = i + 1;
            assert(r.deep_view() =~= head + goal.take(i as int));
        }
        assert(goal.take(goal.len() as int) =~= goal);
        if self.users.len() == 0 {
            r.push(line_of_one(toned("пока никого", Tone::Muted)));
        }
        r.push(empty_line());
        r.push(line_of_one(caption("сервер")));
        let server = server_label(self.server.as_str());
        let place = if server.as_str().is_empty() {
            "не подключены".to_owned()
        } else {
            shorten(server.as_str(), width - 2)
        };
        r.push(line_of_one(toned(place.as_str(), Tone::Muted)));
        assert(r.deep_view() =~= view.people_lines(width as int, now));
        r
    }
}

/// A place for a picture in the pane of the feed: which attachment, and from which row.
#[derive(Debug, Clone, Copy, PartialEq, Eq, Structural)]
pub struct Placed {
    pub id: u128,
    pub row: usize,
}

impl DeepView for Placed {
    type V = Placed;

    open spec fn deep_view(&self) -> Placed {
        *self
    }
}

/// The part of the feed that is seen.
pub struct Pane {
    pub lines: Vec<Line>,
    pub pictures: Vec<Placed>,
    /// How far the feed is scrolled up, while it is, and the column of these words.
    pub note: Option<(String, usize)>,
}

pub struct PaneView {
    pub lines: Seq<LineView>,
    pub pictures: Seq<Placed>,
    pub note: Option<(Seq<char>, usize)>,
}

impl DeepView for Pane {
    type V = PaneView;

    open spec fn deep_view(&self) -> PaneView {
        PaneView {
            lines: self.lines.deep_view(),
            pictures: self.pictures@,
            note: self.note.deep_view(),
        }
    }
}

/// Whether a picture is seen whole. One that is cut would be drawn anew at every step.
pub open spec fn seen_whole(start: int, end: int) -> spec_fn(Slot) -> bool {
    |slot: Slot| start <= slot.line && slot.line + THUMB_ROWS <= end
}

/// Where a picture stands in the pane.
pub open spec fn placed(start: int, padding: int) -> spec_fn(Slot) -> Placed {
    |slot: Slot| Placed { id: slot.id, row: (padding + slot.line - start) as usize }
}

/// What is seen of so many lines, scrolled up so far: from which to which, and how many
/// empty rows stand above.
pub open spec fn window_of(total: int, scrollback: int, height: int) -> (int, int, int) {
    let end = total - scrollback;
    let start = taken_off(end, height);
    (start, end, taken_off(height, end - start))
}

/// The words on how far the feed is scrolled up.
pub open spec fn scroll_text(scrollback: int) -> Seq<char> {
    "↓ "@ + decimal(scrollback as nat) + " строк ниже"@
}

impl StateView {
    /// All by which the feed is painted, where so many bars of the voice that is playing
    /// were heard.
    pub open spec fn decor(self, heard: usize, now: u64) -> DecorView {
        DecorView {
            search: self.search,
            picking: match self.picking {
                Some(pick) => Some(pick.index),
                None => None,
            },
            colors: self.colors,
            thumbnails: self.thumbnails,
            waveforms: self.waveforms,
            playing: match self.playing_voice {
                Some((id, _)) => Some((id, heard)),
                None => None,
            },
            theme: self.theme,
            now,
        }
    }

    /// The whole feed in a pane of so many cells.
    pub open spec fn page(self, width: int, heard: usize, now: u64) -> RenderedView {
        page_of(self.entries, text_room(taken_off(width, 2)), self.decor(heard, now))
    }

    /// What a client knows after the feed was laid out: where the entries stand, how
    /// large the pane is, and that the feed is not scrolled above its beginning.
    pub open spec fn laid(self, page: RenderedView, height: int, top: u16) -> StateView {
        StateView {
            entry_lines: page.offsets,
            viewport: Viewport {
                height: height as usize,
                total_lines: page.lines.len() as usize,
                top,
            },
            scrollback: lesser(
                self.scrollback as int,
                taken_off(page.lines.len() as int, height),
            ) as usize,
            ..self
        }
    }
}

/// What is seen of a feed that is scrolled up so far.
pub open spec fn pane_of(page: RenderedView, scrollback: int, width: int, height: int) -> PaneView {
    let (start, end, padding) = window_of(page.lines.len() as int, scrollback, height);
    let words = " "@ + scroll_text(scrollback) + " "@;
    PaneView {
        lines: blanks(padding as nat) + page.lines.subrange(start, end),
        pictures: page.slots.filter(seen_whole(start, end)).map_values(placed(start, padding)),
        note: if scrollback > 0 && width > 6 && height > 2 {
            Some(
                (
                    scroll_text(scrollback),
                    taken_off(width, text_width(words) + 1) as usize,
                ),
            )
        } else {
            None
        },
    }
}

/// The lines that are seen.
fn cut_lines(lines: Vec<Line>, start: usize, end: usize, padding: usize) -> (r: Vec<Line>)
    requires
        start <= end <= lines@.len(),
    ensures
        r.deep_view() == blanks(padding as nat) + lines.deep_view().subrange(
            start as int,
            end as int,
        ),
{
    let ghost all = lines.deep_view();
    let mut lines = lines;
    lines.truncate(end);
    let mut seen = lines.split_off(start);
    assert(seen.deep_view() =~= all.subrange(start as int, end as int));
    let ghost view = seen.deep_view();
    let mut r: Vec<Line> = Vec::new();
    let mut i: usize = 0;
    assert(r.deep_view() =~= blanks(0));
    while i < padding
        invariant
            i <= padding,
            r.deep_view() == blanks(i as nat),
        decreases padding - i,
    {
        let ghost before = r.deep_view();
        r.push(empty_line());
        i = i + 1;
        assert(r.deep_view() =~= before.push(blank()));
        assert(r.deep_view() =~= blanks(i as nat));
    }
    let ghost above = r.deep_view();
    r.append(&mut seen);
    assert(r.deep_view() =~= above + view);
    r
}

/// The pictures that are seen whole.
#[verifier::loop_isolation(false)]
fn place_pictures(slots: &Vec<Slot>, start: usize, end: usize, padding: usize) -> (r: Vec<Placed>)
    requires
        start <= end,
        padding + (end - start) <= usize::MAX,
    ensures
        r@ == slots@.filter(seen_whole(start as int, end as int)).map_values(
            placed(start as int, padding as int),
        ),
{
    let ghost test = seen_whole(start as int, end as int);
    let ghost place = placed(start as int, padding as int);
    let mut r: Vec<Placed> = Vec::new();
    let mut i: usize = 0;
    proof {
        reveal(Seq::filter);
        assert(slots@.take(0).filter(test) =~= Seq::<Slot>::empty());
        assert(r@ =~= slots@.take(0).filter(test).map_values(place));
    }
    while i < slots.len()
        invariant
            i <= slots@.len(),
            r@ == slots@.take(i as int).filter(test).map_values(place),
        decreases slots@.len() - i,
    {
        let slot = slots[i];
        let ghost kept = slots@.take(i as int).filter(test);
        proof {
            lemma_filter_step(slots@, i as int, test);
        }
        if slot.line >= start && slot.line <= end && end - slot.line >= THUMB_ROWS {
            r.push(Placed { id: slot.id, row: padding + (slot.line - start) });
            assert(r@ =~= kept.push(slot).map_values(place));
        }
        i = i + 1;
    }
    assert(slots@.take(slots@.len() as int) =~= slots@);
    r
}

/// What is seen of a feed that is scrolled up so far.
fn make_pane(
    lines: Vec<Line>,
    slots: &Vec<Slot>,
    scrollback: usize,
    width: usize,
    height: usize,
    Ghost(page): Ghost<RenderedView>,
) -> (r: Pane)
    requires
        lines.deep_view() == page.lines,
        slots@ == page.slots,
        scrollback <= taken_off(lines@.len() as int, height as int),
    ensures
        r.deep_view() == pane_of(page, scrollback as int, width as int, height as int),
{
    assert(page.lines.len() == lines@.len());
    let end: usize = lines.len() - scrollback;
    let start: usize = if end > height {
        end - height
    } else {
        0
    };
    let padding: usize = height - (end - start);
    let pictures = place_pictures(slots, start, end, padding);
    let lines = cut_lines(lines, start, end, padding);
    let note = if scrollback > 0 && width > 6 && height > 2 {
        let words = glue3("↓ ", number(scrollback as u64).as_str(), " строк ниже");
        let w: usize = width_of(glue3(" ", words.as_str(), " ").as_str());
        let column: usize = if width > w && width - w > 1 {
            width - w - 1
        } else {
            0
        };
        Some((words, column))
    } else {
        None
    };
    Pane { lines, pictures, note }
}

impl State {
    /// The whole feed in a pane of so many cells.
    fn make_page(&self, width: usize, heard: usize, now: u64) -> (r: Rendered)
        ensures
            r.deep_view() == self.deep_view().page(width as int, heard, now),
    {
        let room: usize = if width > 2 {
            width - 2
        } else {
            0
        };
        let decor = Decor {
            search: match &self.search {
                Some(search) => Some(search),
                None => None,
            },
            picking: match &self.picking {
                Some(pick) => Some(pick.index),
                None => None,
            },
            colors: &self.colors,
            thumbnails: &self.thumbnails,
            waveforms: &self.waveforms,
            playing: match self.playing_voice {
                Some((id, _)) => Some((id, heard)),
                None => None,
            },
            theme: self.theme,
            now,
        };
        assert(decor.model() == self.deep_view().decor(heard, now));
        render_entries(&self.entries, room, &decor)
    }

    /// Keeps where the entries stand and how large the pane is.
    fn keep_layout(&mut self, offsets: Vec<usize>, total: usize, height: usize, top: u16)
        ensures
            final(self).deep_view() == (StateView {
                entry_lines: offsets@,
                viewport: Viewport { height, total_lines: total, top },
                scrollback: lesser(
                    old(self).scrollback as int,
                    taken_off(total as int, height as int),
                ) as usize,
                ..old(self).deep_view()
            }),
    {
        self.entry_lines = offsets;
        self.viewport = Viewport { height, total_lines: total, top };
        let most: usize = if total > height {
            total - height
        } else {
            0
        };
        if self.scrollback > most {
            self.scrollback = most;
        }
    }

    /// Lays the feed out in a pane whose first row on the screen is `top`. The feed holds
    /// to its end: new messages appear right above the input, and while the feed is short
    /// the rows above it are empty.
    pub fn lay_feed(&mut self, width: usize, height: usize, top: u16, heard: usize, now: u64) -> (r:
        Pane)
        ensures
            ({
                let page = old(self).deep_view().page(width as int, heard, now);
                let state = old(self).deep_view().laid(page, height as int, top);
                &&& final(self).deep_view() == state
                &&& r.deep_view() == pane_of(
                    page,
                    state.scrollback as int,
                    width as int,
                    height as int,
                )
            }),
            old(self).deep_view().wf() ==> final(self).deep_view().wf(),
    {
        let page = self.make_page(width, heard, now);
        let ghost view = page.deep_view();
        assert(view.lines.len() == page.lines@.len());
        let Rendered { lines, offsets, slots, .. } = page;
        self.keep_layout(offsets, lines.len(), height, top);
        make_pane(lines, &slots, self.scrollback, width, height, Ghost(view))
    }
}

/// The pane is always full: as many lines as it has rows.
pub proof fn law_pane_is_full(
    state: StateView,
    page: RenderedView,
    width: int,
    height: int,
    top: u16,
)
    requires
        0 <= height <= usize::MAX,
        page.lines.len() <= usize::MAX,
    ensures
        pane_of(
            page,
            state.laid(page, height, top).scrollback as int,
            width,
            height,
        ).lines.len() == height,
{
}

/// What is clicked is what is seen: the row of an entry shows a line that begins with the
/// entry or behind it, and before the next one; the empty rows above a short feed belong
/// to nobody.
pub proof fn law_row_shows_its_entry(
    state: StateView,
    page: RenderedView,
    width: int,
    height: int,
    top: u16,
    row: u16,
)
    requires
        0 <= height <= usize::MAX,
        page.lines.len() <= usize::MAX,
        page.offsets.len() == state.entries.len(),
        top <= row < top + height,
    ensures
        ({
            let laid = state.laid(page, height, top);
            let seen = pane_of(page, laid.scrollback as int, width, height).lines[row - top];
            match laid.line_at(row) {
                Some(line) => {
                    &&& 0 <= line < page.lines.len()
                    &&& seen == page.lines[line]
                    &&& match laid.entry_at(row) {
                        Some(k) => {
                            &&& 0 <= k < state.entries.len()
                            &&& page.offsets[k] <= line
                            &&& forall|j: int|
                                k < j < page.offsets.len() ==> line < #[trigger] page.offsets[j]
                        },
                        None => forall|j: int|
                            0 <= j < page.offsets.len() ==> line < #[trigger] page.offsets[j],
                    }
                },
                None => seen == blank() && laid.entry_at(row) is None,
            }
        }),
{
    let laid = state.laid(page, height, top);
    if let Some(line) = laid.line_at(row) {
        lemma_last_where(page.offsets, begins_by(line));
        assert forall|j: int|
            last_where(page.offsets, begins_by(line)) < j < page.offsets.len() implies line
            < #[trigger] page.offsets[j] by {
            assert(!begins_by(line)(page.offsets[j]));
        }
    }
}

/// A feed that is not scrolled ends in the lowest row of the pane.
pub proof fn law_feed_holds_to_its_end(page: RenderedView, width: int, height: int)
    requires
        0 < height,
        0 < page.lines.len(),
    ensures
        pane_of(page, 0, width, height).lines.last() == page.lines.last(),
{
}

/// A feed that is longer than the pane, scrolled up as far as it goes, begins in the
/// uppermost row.
pub proof fn law_feed_begins_at_the_top(
    state: StateView,
    page: RenderedView,
    width: int,
    height: int,
    top: u16,
)
    requires
        0 < height <= page.lines.len() <= usize::MAX,
        state.scrollback >= page.lines.len(),
    ensures
        pane_of(
            page,
            state.laid(page, height, top).scrollback as int,
            width,
            height,
        ).lines[0] == page.lines[0],
{
}

/// The line above the input with what is answered.
pub open spec fn reply_line(state: StateView, target: ReplyTargetView) -> LineView {
    plain_line(
        seq![
            toned_span("  ↩ "@, Tone::Primary),
            painted_span(
                target.nickname + ": "@,
                PaintView::Own(name_color(state.colors, target.nickname, false, state.theme)),
            ),
            toned_span(target.excerpt, Tone::Muted),
        ],
    )
}

/// How many characters are left, shown only where the limit is near.
pub open spec fn counter_of(len: int) -> Option<SpanView> {
    let left = taken_off(MAX_TEXT_CHARS as int, len);
    if len * 10 > MAX_TEXT_CHARS * 6 {
        Some(
            toned_span(
                " "@ + decimal(left as nat) + " "@,
                if left < 40 {
                    Tone::Bad
                } else {
                    Tone::Muted
                },
            ),
        )
    } else {
        None
    }
}

/// Which of the places that were found is shown.
pub open spec fn found_text(search: SearchView) -> Seq<char> {
    if search.query.text.len() == 0 {
        Seq::empty()
    } else if search.matches.len() == 0 {
        " ничего "@
    } else {
        " "@ + decimal((search.current + 1) as nat) + " из "@ + decimal(search.matches.len())
            + " "@
    }
}

/// Which of the places that were found is shown.
pub fn search_counter(search: &Search) -> (r: String)
    requires
        search.current < usize::MAX,
    ensures
        r@ == found_text(search.deep_view()),
{
    if search.query.is_empty() {
        let r = String::new();
        assert(r@ =~= Seq::<char>::empty());
        r
    } else if search.matches.len() == 0 {
        " ничего ".to_owned()
    } else {
        let mut r = glue3(" ", number((search.current + 1) as u64).as_str(), " из ");
        r.append(number(search.matches.len() as u64).as_str());
        r.append(" ");
        r
    }
}

/// The sign before a field.
pub open spec fn prompt_of(sign: Seq<char>, tone: Tone) -> Seq<SpanView> {
    seq![raw_span(" "@), strong_span(sign, tone), raw_span(" "@)]
}

/// What is seen of a text behind a prompt in so many cells, and the column of the cursor
/// in it: the text is shifted so that the cursor is always in sight.
pub open spec fn seen_behind(input: InputView, prompt: Seq<SpanView>, width: int) -> (Seq<
    char,
>, int) {
    let visible = taken_off(cells_left(width, prompt), 1);
    let cursor = text_width(input.text.take(input.cursor)) as int;
    let offset = taken_off(cursor, visible);
    (input.text.skip(split_point(input.text, offset)), cursor - offset)
}

/// The field below the feed.
pub struct Entryway {
    /// How its frame is painted.
    pub frame: Paint,
    pub row: Vec<Span>,
    /// The column of the cursor behind the prompt.
    pub column: usize,
    /// What stands in the lower edge of the frame.
    pub mark: Option<Span>,
}

pub struct EntrywayView {
    pub frame: PaintView,
    pub row: Seq<SpanView>,
    pub column: usize,
    pub mark: Option<SpanView>,
}

impl DeepView for Entryway {
    type V = EntrywayView;

    open spec fn deep_view(&self) -> EntrywayView {
        EntrywayView {
            frame: self.frame.deep_view(),
            row: self.row.deep_view(),
            column: self.column,
            mark: self.mark.deep_view(),
        }
    }
}

/// A field behind a prompt.
pub open spec fn entryway_of(
    input: InputView,
    prompt: Seq<SpanView>,
    width: int,
    frame: PaintView,
    mark: Option<SpanView>,
) -> EntrywayView {
    let (text, column) = seen_behind(input, prompt, width);
    EntrywayView {
        frame,
        row: prompt.push(toned_span(text, Tone::Text)),
        column: column as usize,
        mark,
    }
}

impl StateView {
    /// Whether the people stand beside the feed: only where the feed can spare the room.
    pub open spec fn people_beside(self, width: int) -> bool {
        self.sidebar && width >= SIDEBAR_NEEDS
    }

    /// The field below the feed, of so many cells within its frame. While one searches it
    /// holds what is searched for. Its frame shows whether there is a connection: without
    /// one nothing would go out.
    pub open spec fn entryway(self, width: int) -> EntrywayView {
        let prompt = prompt_of("❯"@, Tone::Primary);
        let frame = if self.online() {
            PaintView::Mixed(Tone::Primary, Tone::Line, 35)
        } else {
            PaintView::Of(Tone::Bad)
        };
        let mark = counter_of(self.input.text.len() as int);
        if self.search is Some {
            entryway_of(
                self.search->0.query,
                prompt_of("⌕"@, Tone::Mention),
                width,
                PaintView::Of(Tone::Mention),
                Some(toned_span(found_text(self.search->0), Tone::Mention)),
            )
        } else if self.input.text.len() == 0 && self.replying is None {
            EntrywayView {
                frame,
                row: prompt.push(toned_span("напишите сообщение"@, Tone::Line)),
                column: 0,
                mark,
            }
        } else {
            entryway_of(self.input, prompt, width, frame, mark)
        }
    }
}

fn make_prompt(sign: &str, tone: Tone) -> (r: Vec<Span>)
    ensures
        r.deep_view() == prompt_of(sign@, tone),
{
    let mut r: Vec<Span> = Vec::new();
    r.push(raw(" "));
    r.push(strong(sign, tone));
    r.push(raw(" "));
    assert(r.deep_view() =~= prompt_of(sign@, tone));
    r
}

/// A field behind a prompt.
fn make_entryway(
    input: &Input,
    prompt: Vec<Span>,
    width: usize,
    frame: Paint,
    mark: Option<Span>,
) -> (r: Entryway)
    requires
        input.deep_view().wf(),
    ensures
        r.deep_view() == entryway_of(
            input.deep_view(),
            prompt.deep_view(),
            width as int,
            frame.deep_view(),
            mark.deep_view(),
        ),
{
    let room: usize = room_after(width, &prompt);
    let visible: usize = if room > 1 {
        room - 1
    } else {
        0
    };
    let v = chars_of(input.text.as_str());
    let before = text_between(&v, 0, input.cursor);
    assert(before@ =~= input.text@.take(input.cursor as int));
    let cursor: usize = width_of(before.as_str());
    let offset: usize = if cursor > visible {
        cursor - visible
    } else {
        0
    };
    let (hidden, shown) = split_at_width(input.text.as_str(), offset);
    let ghost first = prompt.deep_view();
    let mut row = prompt;
    row.push(toned(shown.as_str(), Tone::Text));
    assert(row.deep_view() =~= first.push(toned_span(shown@, Tone::Text)));
    Entryway { frame, row, column: cursor - offset, mark }
}

impl State {
    /// Whether the people stand beside the feed.
    pub fn shows_people(&self, width: u16) -> (r: bool)
        ensures
            r == self.deep_view().people_beside(width as int),
    {
        self.sidebar && width >= SIDEBAR_NEEDS
    }

    /// The field below the feed, of so many cells within its frame.
    pub fn entryway(&self, width: usize) -> (r: Entryway)
        requires
            self.deep_view().wf(),
            self.deep_view().search matches Some(search) ==> search.current < usize::MAX,
        ensures
            r.deep_view() == self.deep_view().entryway(width as int),
    {
        if let Some(search) = &self.search {
            let mark = Some(toned(search_counter(search).as_str(), Tone::Mention));
            return make_entryway(
                &search.query,
                make_prompt("⌕", Tone::Mention),
                width,
                Paint::Of(Tone::Mention),
                mark,
            );
        }
        let frame = if self.is_online() {
            Paint::Mixed(Tone::Primary, Tone::Line, 35)
        } else {
            Paint::Of(Tone::Bad)
        };
        let mark = self.input_counter();
        let prompt = make_prompt("❯", Tone::Primary);
        if self.input.is_empty() && self.replying.is_none() {
            let ghost first = prompt.deep_view();
            let mut row = prompt;
            row.push(toned("напишите сообщение", Tone::Line));
            assert(row.deep_view() =~= first.push(
                toned_span("напишите сообщение"@, Tone::Line),
            ));
            return Entryway { frame, row, column: 0, mark };
        }
        make_entryway(&self.input, prompt, width, frame, mark)
    }
}

/// Who is typing.
pub open spec fn typing_text(names: Seq<Seq<char>>) -> Seq<char> {
    if names.len() == 1 {
        names[0] + " печатает"@
    } else if names.len() == 2 {
        names[0] + " и "@ + names[1] + " печатают"@
    } else {
        decimal(names.len()) + " человек печатают"@
    }
}

/// A dot behind those who are typing: one of the three is bright.
pub open spec fn typing_dot(at: int, tick: u64) -> SpanView {
    painted_span(
        "·"@,
        PaintView::Mixed(
            Tone::Line,
            Tone::Secondary,
            if at == (tick / 3) as int % 3 {
                100
            } else {
                25
            },
        ),
    )
}

impl StateView {
    /// The keys of which the hint tells.
    pub open spec fn hint_pairs(self) -> Seq<(Seq<char>, Seq<char>)> {
        if self.viewer is Some {
            seq![("esc"@, "закрыть картинку"@)]
        } else if self.picking is Some {
            match self.picking->0.mode {
                PickMode::Reply => seq![
                    ("↑↓"@, "сообщение"@),
                    ("enter"@, "ответить"@),
                    ("esc"@, "отмена"@),
                ],
                PickMode::Attachment => seq![
                    ("↑↓"@, "вложение"@),
                    ("enter"@, "открыть"@),
                    ("f3"@, "играть"@),
                    ("f5"@, "сохранить"@),
                ],
            }
        } else if self.replying is Some {
            seq![("enter"@, "отправить ответ"@), ("esc"@, "снять цитату"@)]
        } else if self.search is Some {
            seq![("enter"@, "следующее"@), ("esc"@, "закрыть поиск"@)]
        } else {
            seq![
                ("f2"@, "голосовое"@),
                ("f4"@, "файл"@),
                ("esc"@, "меню"@),
                ("f1"@, "всё остальное"@),
            ]
        }
    }

    /// What the client is doing.
    pub open spec fn busy_spans(self, busy: Seq<char>, width: int) -> Seq<SpanView> {
        let first = seq![
            raw_span("  "@),
            toned_span(spinner_frame((self.tick / 2) as int % 10), Tone::Primary),
            toned_span(" "@ + busy + " "@, Tone::Subtle),
        ];
        first + runner_spans(lesser(taken_off(width, spans_width(first) + 2), 24), self.tick)
    }

    /// The line below the input. What the client is doing comes first, then who is
    /// typing, then the keys.
    pub open spec fn hint(self, width: int, now: u64) -> Seq<SpanView> {
        let typing = self.typing_names(now);
        if self.busy is Some {
            self.busy_spans(self.busy->0, width)
        } else if typing.len() > 0 && self.viewer is None && self.search is None {
            seq![
                raw_span("  "@),
                toned_span(typing_text(typing), Tone::Subtle),
                raw_span(" "@),
                typing_dot(0, self.tick),
                typing_dot(1, self.tick),
                typing_dot(2, self.tick),
            ]
        } else {
            seq![raw_span("  "@)] + hint_spans(self.hint_pairs())
        }
    }
}

fn make_typing(names: &Vec<String>) -> (r: String)
    requires
        names@.len() > 0,
    ensures
        r@ == typing_text(names.deep_view()),
{
    assert(names.deep_view().len() == names@.len());
    assert(names.deep_view()[0] == names@[0].deep_view());
    if names.len() == 1 {
        glue(names[0].as_str(), " печатает")
    } else if names.len() == 2 {
        assert(names.deep_view()[1] == names@[1].deep_view());
        let mut r = glue3(names[0].as_str(), " и ", names[1].as_str());
        r.append(" печатают");
        r
    } else {
        glue(number(names.len() as u64).as_str(), " человек печатают")
    }
}

fn make_dot(at: u64, tick: u64) -> (r: Span)
    ensures
        r.deep_view() == typing_dot(at as int, tick),
{
    painted(
        "·",
        Paint::Mixed(
            Tone::Line,
            Tone::Secondary,
            if at == (tick / 3) % 3 {
                100
            } else {
                25
            },
        ),
    )
}

impl State {
    /// The line above the input with what is answered, where something is.
    pub fn reply_bar(&self) -> (r: Option<Line>)
        ensures
            r.deep_view() == match self.deep_view().replying {
                Some(target) => Some(reply_line(self.deep_view(), target)),
                None => None,
            },
    {
        match &self.replying {
            Some(target) => {
                let mut spans: Vec<Span> = Vec::new();
                spans.push(toned("  ↩ ", Tone::Primary));
                spans.push(
                    painted(
                        glue(target.nickname.as_str(), ": ").as_str(),
                        Paint::Own(
                            nick_color(
                                &self.colors,
                                target.nickname.as_str(),
                                false,
                                self.theme,
                            ),
                        ),
                    ),
                );
                spans.push(toned(target.excerpt.as_str(), Tone::Muted));
                assert(spans.deep_view() =~= reply_line(
                    self.deep_view(),
                    target.deep_view(),
                ).spans);
                Some(line_of(spans))
            },
            None => None,
        }
    }

    /// How many characters of the input are left, where the limit is near.
    pub fn input_counter(&self) -> (r: Option<Span>)
        ensures
            r.deep_view() == counter_of(self.deep_view().input.text.len() as int),
    {
        let len: usize = self.input.len();
        if len as u128 * 10 > MAX_TEXT_CHARS as u128 * 6 {
            let left: usize = if MAX_TEXT_CHARS > len {
                MAX_TEXT_CHARS - len
            } else {
                0
            };
            Some(
                toned(
                    glue3(" ", number(left as u64).as_str(), " ").as_str(),
                    if left < 40 {
                        Tone::Bad
                    } else {
                        Tone::Muted
                    },
                ),
            )
        } else {
            None
        }
    }

    /// The keys of which the hint tells.
    fn make_pairs(&self) -> (r: Vec<(&'static str, &'static str)>)
        ensures
            r.deep_view() == self.deep_view().hint_pairs(),
    {
        let mut r: Vec<(&'static str, &'static str)> = Vec::new();
        if self.viewer.is_some() {
            r.push(("esc", "закрыть картинку"));
        } else if let Some(pick) = &self.picking {
            match pick.mode {
                PickMode::Reply => {
                    r.push(("↑↓", "сообщение"));
                    r.push(("enter", "ответить"));
                    r.push(("esc", "отмена"));
                },
                PickMode::Attachment => {
                    r.push(("↑↓", "вложение"));
                    r.push(("enter", "открыть"));
                    r.push(("f3", "играть"));
                    r.push(("f5", "сохранить"));
                },
            }
        } else if self.replying.is_some() {
            r.push(("enter", "отправить ответ"));
            r.push(("esc", "снять цитату"));
        } else if self.search.is_some() {
            r.push(("enter", "следующее"));
            r.push(("esc", "закрыть поиск"));
        } else {
            r.push(("f2", "голосовое"));
            r.push(("f4", "файл"));
            r.push(("esc", "меню"));
            r.push(("f1", "всё остальное"));
        }
        assert(r.deep_view() =~= self.deep_view().hint_pairs());
        r
    }

    /// What the client is doing. The wave behind the words shows that it is busy and not
    /// stuck.
    fn make_busy(&self, busy: &str, width: usize) -> (r: Vec<Span>)
        ensures
            r.deep_view() == self.deep_view().busy_spans(busy@, width as int),
    {
        let mut r: Vec<Span> = Vec::new();
        r.push(raw("  "));
        r.push(toned(spinner(self.tick), Tone::Primary));
        r.push(toned(glue3(" ", busy, " ").as_str(), Tone::Subtle));
        let ghost first = r.deep_view();
        assert(first =~= seq![
            raw_span("  "@),
            toned_span(spinner_frame((self.tick / 2) as int % 10), Tone::Primary),
            toned_span(" "@ + busy@ + " "@, Tone::Subtle),
        ]);
        let left: usize = room_after(width, &r);
        let rest: usize = if left <= 2 {
            0
        } else if left - 2 < 24 {
            left - 2
        } else {
            24
        };
        proof {
            lemma_natural_width(first);
        }
        let mut more = runner(rest, self.tick);
        let ghost second = more.deep_view();
        r.append(&mut more);
        assert(r.deep_view() =~= first + second);
        r
    }

    /// The line below the input.
    pub fn hint(&self, width: usize, now: u64) -> (r: Vec<Span>)
        ensures
            r.deep_view() == self.deep_view().hint(width as int, now),
    {
        if let Some(busy) = &self.busy {
            return self.make_busy(busy.as_str(), width);
        }
        let typing = self.typing_now(now);
        assert(self.deep_view().typing_names(now).len() == typing@.len());
        let mut r: Vec<Span> = Vec::new();
        r.push(raw("  "));
        if typing.len() > 0 && self.viewer.is_none() && self.search.is_none() {
            r.push(toned(make_typing(&typing).as_str(), Tone::Subtle));
            r.push(raw(" "));
            r.push(make_dot(0, self.tick));
            r.push(make_dot(1, self.tick));
            r.push(make_dot(2, self.tick));
            assert(r.deep_view() =~= self.deep_view().hint(width as int, now));
            return r;
        }
        let mut more = hints(&self.make_pairs());
        let ghost second = more.deep_view();
        r.append(&mut more);
        assert(r.deep_view() =~= self.deep_view().hint(width as int, now));
        r
    }
}

} // verus!
