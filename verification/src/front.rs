//! The first screen: its tabs, and what stands on them.
use crate::frame::{
    lesser, min_of, minus, strip_of, tabbed, taken_off, Area, Strip, StripView, Tab, TabView,
};
use crate::help::{help_tab, help_tab_lines};
use crate::home::{Field, HomeTab, Login, LoginView, Setting, SoundSetting};
use crate::input::{Input, InputView};
use crate::paper::{
    blank, button, button_span, caption, caption_span, chooser, chooser_spans, columns, dot_spans,
    dots, empty_line, fill, filled, hint_spans, hints, in_columns, line_of, line_of_one,
    line_of_two, painted, painted_span, pill, pill_span, plain_line, raw, raw_span, strong,
    strong_span, toned, toned_span, Line, LineView, Paint, PaintView, Span, SpanView, Tone,
};
use crate::protocol::{RoomSummary, RoomSummaryView};
use crate::state::{State, StateView};
use crate::text::{decimal, glue, glue3, number};
use crate::theme::{nick_palette, palette, spinner, spinner_frame};
use crate::width::{field_shown, field_view, shorten, shortened, wrap, wrapped};
use vstd::prelude::*;
use vstd::string::*;

verus! {

/// How wide the window is at most.
pub const PANEL: u16 = 82;

/// How many rows the frame of the tabs takes.
pub const FRAME: u16 = 4;

/// How many rows the tallest tab takes, with the frame.
pub const BODY: u16 = 18;

/// How many rows the large heading takes, and how many columns.
pub const HEAD: u16 = 6;

pub const LOGO_WIDTH: u16 = 33;

/// How many rooms are seen at once.
pub const VISIBLE: usize = 7;

/// The lines of a tab, and where the cursor stands in them.
pub struct Content {
    pub lines: Vec<Line>,
    /// The row and the column of the cursor.
    pub cursor: Option<(usize, usize)>,
}

pub struct ContentView {
    pub lines: Seq<LineView>,
    pub cursor: Option<(usize, usize)>,
}

impl DeepView for Content {
    type V = ContentView;

    open spec fn deep_view(&self) -> ContentView {
        ContentView { lines: self.lines.deep_view(), cursor: self.cursor }
    }
}

/// What is left of some cells.
fn less_by(a: usize, b: usize) -> (r: usize)
    ensures
        r == taken_off(a as int, b as int),
{
    if a > b {
        a - b
    } else {
        0
    }
}

fn least(a: usize, b: usize) -> (r: usize)
    ensures
        r == lesser(a as int, b as int),
{
    if a < b {
        a
    } else {
        b
    }
}

fn most(a: usize, b: usize) -> (r: usize)
    ensures
        r == larger(a as int, b as int),
{
    if a > b {
        a
    } else {
        b
    }
}

/// The larger of two numbers.
pub open spec fn larger(a: int, b: int) -> int {
    if a > b {
        a
    } else {
        b
    }
}

/// Adds a line.
fn put(lines: &mut Vec<Line>, line: Line)
    ensures
        final(lines).deep_view() == old(lines).deep_view().push(line.deep_view()),
{
    let ghost before = lines.deep_view();
    let ghost view = line.deep_view();
    lines.push(line);
    assert(lines.deep_view() =~= before.push(view));
}

/// Adds lines.
fn put_all(lines: &mut Vec<Line>, more: Vec<Line>)
    ensures
        final(lines).deep_view() == old(lines).deep_view() + more.deep_view(),
{
    let ghost before = lines.deep_view();
    let ghost view = more.deep_view();
    let mut more = more;
    lines.append(&mut more);
    assert(lines.deep_view() =~= before + view);
}

/// How many cells the text of a field has.
pub open spec fn field_room(width: int) -> int {
    larger(taken_off(width, 2), 1)
}

/// A field: its name, and a coloured bar before its text.
pub open spec fn field_lines(
    label: Seq<char>,
    input: InputView,
    focused: bool,
    width: int,
) -> Seq<LineView> {
    let text = field_shown(input, field_room(width)).0;
    seq![
        plain_line(
            seq![
                if focused {
                    strong_span(label, Tone::Secondary)
                } else {
                    toned_span(label, Tone::Muted)
                },
            ],
        ),
        plain_line(
            seq![
                toned_span(
                    "▌ "@,
                    if focused {
                        Tone::Primary
                    } else {
                        Tone::Line
                    },
                ),
                if text.len() == 0 && !focused {
                    toned_span("—"@, Tone::Line)
                } else {
                    toned_span(
                        text,
                        if focused {
                            Tone::Text
                        } else {
                            Tone::Subtle
                        },
                    )
                },
            ],
        ),
    ]
}

/// The column of the cursor in a field.
pub open spec fn field_column(input: InputView, width: int) -> usize {
    (field_shown(input, field_room(width)).1 + 2) as usize
}

/// Adds a field. Says the column of the cursor.
fn put_field(lines: &mut Vec<Line>, label: &str, input: &Input, focused: bool, width: usize) -> (r:
    usize)
    requires
        input.deep_view().wf(),
        width <= usize::MAX - 2,
    ensures
        final(lines).deep_view() == old(lines).deep_view() + field_lines(
            label@,
            input.deep_view(),
            focused,
            width as int,
        ),
        r == field_column(input.deep_view(), width as int),
{
    let ghost before = lines.deep_view();
    let room: usize = most(less_by(width, 2), 1);
    let (text, column) = field_view(input, room);
    proof {
        crate::width::law_cursor_is_in_sight(input.deep_view(), room as int);
    }
    let name = if focused {
        strong(label, Tone::Secondary)
    } else {
        toned(label, Tone::Muted)
    };
    let bar = toned(
        "▌ ",
        if focused {
            Tone::Primary
        } else {
            Tone::Line
        },
    );
    let value = if text.as_str().is_empty() && !focused {
        toned("—", Tone::Line)
    } else {
        toned(
            text.as_str(),
            if focused {
                Tone::Text
            } else {
                Tone::Subtle
            },
        )
    };
    lines.push(line_of_one(name));
    lines.push(line_of_two(bar, value));
    assert(lines.deep_view() =~= before + field_lines(
        label@,
        input.deep_view(),
        focused,
        width as int,
    ));
    column + 2
}

/// The width of the form beside the rooms.
pub open spec fn form_width(width: int) -> int {
    if width >= 54 {
        larger(width * 5 / 11, 24)
    } else {
        width
    }
}

/// The form for joining.
pub open spec fn join_form(login: LoginView, width: int) -> Seq<LineView> {
    let form = login.rooms_selected is None;
    field_lines("ваш ник"@, login.nickname, form && login.field == Field::Nickname, width)
        + field_lines("комната"@, login.room, form && login.field == Field::Room, width)
        + field_lines(
        "сервер — адрес или тикет друга"@,
        login.server,
        form && login.field == Field::Server,
        width,
    ) + seq![blank(), plain_line(seq![button_span("enter — войти"@, form)])]
}

/// The cursor in the form for joining.
pub open spec fn join_cursor(login: LoginView, width: int) -> Option<(usize, usize)> {
    if login.rooms_selected is Some {
        None
    } else {
        match login.field {
            Field::Nickname => Some((1, field_column(login.nickname, width))),
            Field::Room => Some((3, field_column(login.room, width))),
            Field::Server => Some((5, field_column(login.server, width))),
            Field::Port => None,
        }
    }
}

/// A room of the list.
pub open spec fn room_line(room: RoomSummaryView, chosen: bool, width: int) -> LineView {
    let name = shortened(room.name, taken_off(width, 10));
    plain_line(
        filled(
            seq![
                toned_span(
                    if chosen {
                        "❯ "@
                    } else {
                        "  "@
                    },
                    Tone::Primary,
                ),
                if chosen {
                    strong_span(name, Tone::Text)
                } else {
                    toned_span(name, Tone::Subtle)
                },
            ],
            lesser(taken_off(width, 8), 20),
        ) + dot_spans(
            room.users as int,
            PaintView::Of(
                if chosen {
                    Tone::Secondary
                } else {
                    Tone::Muted
                },
            ),
        ),
    )
}

/// The first room that is seen: the chosen one is always among those seen.
pub open spec fn rooms_start(selected: Option<usize>) -> int {
    match selected {
        Some(at) => taken_off(at as int, VISIBLE - 1),
        None => 0,
    }
}

/// The rooms that are seen.
pub open spec fn rooms_seen(login: LoginView, width: int) -> Seq<LineView> {
    let start = rooms_start(login.rooms_selected);
    Seq::new(
        lesser(taken_off(login.rooms.len() as int, start), VISIBLE as int) as nat,
        |row: int|
            room_line(
                login.rooms[start + row],
                login.rooms_selected == Some((start + row) as usize),
                width,
            ),
    )
}

/// The words in place of a list.
pub open spec fn note_lines(note: Seq<char>, width: int) -> Seq<LineView> {
    wrapped(note, width).map_values(
        |chunk: Seq<char>| plain_line(seq![toned_span(chunk, Tone::Muted)]),
    )
}

/// The list of rooms.
pub open spec fn room_lines(login: LoginView, width: int) -> Seq<LineView> {
    let head = seq![plain_line(seq![caption_span("комнаты"@)]), blank()];
    if login.rooms.len() == 0 {
        head + note_lines(
            match login.rooms_note {
                Some(note) => note,
                None => "ctrl+r — спросить сервер"@,
            },
            larger(width, 4),
        )
    } else if login.rooms.len() > VISIBLE {
        (head + rooms_seen(login, width)).push(
            plain_line(
                seq![
                    toned_span(
                        "  и ещё "@ + decimal((login.rooms.len() - VISIBLE) as nat),
                        Tone::Line,
                    ),
                ],
            ),
        )
    } else {
        head + rooms_seen(login, width)
    }
}

/// What stands below the form: an error, or in a narrow window what is known of rooms.
pub open spec fn below_form(login: LoginView, width: int) -> Seq<LineView> {
    match login.error {
        Some(error) => seq![
            blank(),
            plain_line(
                seq![
                    toned_span("✕ "@, Tone::Bad),
                    toned_span(shortened(error, taken_off(width, 2)), Tone::Bad),
                ],
            ),
        ],
        None => if width < 54 {
            seq![
                blank(),
                plain_line(
                    seq![
                        toned_span(
                            shortened(
                                match login.rooms_note {
                                    Some(note) => note,
                                    None => "комнат на сервере: "@ + decimal(
                                        login.rooms.len(),
                                    ),
                                },
                                width,
                            ),
                            Tone::Muted,
                        ),
                    ],
                ),
            ]
        } else {
            Seq::empty()
        },
    }
}

/// The tab for joining: the form on the left, the living rooms on the right.
pub open spec fn join_content(login: LoginView, width: int) -> ContentView {
    let form = form_width(width);
    let left = join_form(login, form);
    ContentView {
        lines: (if width >= 54 {
            in_columns(left, room_lines(login, width - form - 2), form, 2)
        } else {
            left
        }) + below_form(login, width),
        cursor: join_cursor(login, form),
    }
}

fn make_form_width(width: usize) -> (r: usize)
    ensures
        r == form_width(width as int),
{
    if width >= 54 {
        let part: usize = (width / 11) * 5 + (width % 11) * 5 / 11;
        most(part, 24)
    } else {
        width
    }
}

/// The form for joining.
fn make_join_form(login: &Login, width: usize) -> (r: Content)
    requires
        login.deep_view().wf(),
        width <= usize::MAX - 2,
    ensures
        r.lines.deep_view() == join_form(login.deep_view(), width as int),
        r.cursor == join_cursor(login.deep_view(), width as int),
{
    let form = login.rooms_selected.is_none();
    let mut lines: Vec<Line> = Vec::new();
    assert(lines.deep_view() =~= Seq::<LineView>::empty());
    let a: usize = put_field(
        &mut lines,
        "ваш ник",
        &login.nickname,
        form && login.field == Field::Nickname,
        width,
    );
    let b: usize = put_field(
        &mut lines,
        "комната",
        &login.room,
        form && login.field == Field::Room,
        width,
    );
    let c: usize = put_field(
        &mut lines,
        "сервер — адрес или тикет друга",
        &login.server,
        form && login.field == Field::Server,
        width,
    );
    put(&mut lines, empty_line());
    put(&mut lines, line_of_one(button("enter — войти", form)));
    assert(lines.deep_view() =~= join_form(login.deep_view(), width as int));
    let cursor = if !form {
        None
    } else {
        match login.field {
            Field::Nickname => Some((1, a)),
            Field::Room => Some((3, b)),
            Field::Server => Some((5, c)),
            Field::Port => None,
        }
    };
    Content { lines, cursor }
}

fn make_room(room: &RoomSummary, chosen: bool, width: usize) -> (r: Line)
    ensures
        r.deep_view() == room_line(room.deep_view(), chosen, width as int),
{
    let name = shorten(room.name.as_str(), less_by(width, 10));
    let mut spans: Vec<Span> = Vec::new();
    spans.push(
        toned(
            if chosen {
                "❯ "
            } else {
                "  "
            },
            Tone::Primary,
        ),
    );
    spans.push(
        if chosen {
            strong(name.as_str(), Tone::Text)
        } else {
            toned(name.as_str(), Tone::Subtle)
        },
    );
    assert(spans.deep_view() =~= seq![spans@[0].deep_view(), spans@[1].deep_view()]);
    fill(&mut spans, least(less_by(width, 8), 20));
    let ghost first = spans.deep_view();
    let mut more = dots(
        room.users,
        Paint::Of(
            if chosen {
                Tone::Secondary
            } else {
                Tone::Muted
            },
        ),
    );
    let ghost second = more.deep_view();
    spans.append(&mut more);
    assert(spans.deep_view() =~= first + second);
    line_of(spans)
}

/// Adds the words in place of a list.
#[verifier::loop_isolation(false)]
fn put_note(lines: &mut Vec<Line>, note: &str, width: usize)
    ensures
        final(lines).deep_view() == old(lines).deep_view() + note_lines(note@, width as int),
{
    let ghost before = lines.deep_view();
    let ghost goal = note_lines(note@, width as int);
    let chunks = wrap(note, width);
    assert(chunks.deep_view().len() == chunks@.len());
    let mut i: usize = 0;
    assert(lines.deep_view() =~= before + goal.take(0));
    while i < chunks.len()
        invariant
            i <= chunks@.len(),
            lines.deep_view() == before + goal.take(i as int),
        decreases chunks@.len() - i,
    {
        assert(chunks.deep_view()[i as int] == chunks@[i as int].deep_view());
        put(lines, line_of_one(toned(chunks[i].as_str(), Tone::Muted)));
        i = i + 1;
        assert(lines.deep_view() =~= before + goal.take(i as int));
    }
    assert(goal.take(goal.len() as int) =~= goal);
}

/// The list of rooms.
#[verifier::loop_isolation(false)]
pub fn rooms_lines(login: &Login, width: usize) -> (r: Vec<Line>)
    ensures
        r.deep_view() == room_lines(login.deep_view(), width as int),
{
    let ghost view = login.deep_view();
    let mut r: Vec<Line> = Vec::new();
    r.push(line_of_one(caption("комнаты")));
    r.push(empty_line());
    let ghost head = r.deep_view();
    assert(head =~= seq![plain_line(seq![caption_span("комнаты"@)]), blank()]);
    assert(view.rooms.len() == login.rooms@.len());
    if login.rooms.len() == 0 {
        match &login.rooms_note {
            Some(note) => put_note(&mut r, note.as_str(), most(width, 4)),
            None => put_note(&mut r, "ctrl+r — спросить сервер", most(width, 4)),
        }
        return r;
    }
    let start: usize = match login.rooms_selected {
        Some(at) => less_by(at, VISIBLE - 1),
        None => 0,
    };
    let count: usize = least(less_by(login.rooms.len(), start), VISIBLE);
    let ghost goal = rooms_seen(view, width as int);
    let mut row: usize = 0;
    assert(r.deep_view() =~= head + goal.take(0));
    while row < count
        invariant
            row <= count,
            r.deep_view() == head + goal.take(row as int),
        decreases count - row,
    {
        let at: usize = start + row;
        let chosen = match login.rooms_selected {
            Some(selected) => selected == at,
            None => false,
        };
        assert(view.rooms[at as int] == login.rooms@[at as int].deep_view());
        put(&mut r, make_room(&login.rooms[at], chosen, width));
        row = row + 1;
        assert(r.deep_view() =~= head + goal.take(row as int));
    }
    assert(goal.take(goal.len() as int) =~= goal);
    if login.rooms.len() > VISIBLE {
        put(
            &mut r,
            line_of_one(
                toned(
                    glue(
                        "  и ещё ",
                        number((login.rooms.len() - VISIBLE) as u64).as_str(),
                    ).as_str(),
                    Tone::Line,
                ),
            ),
        );
    }
    r
}

/// Adds what stands below the form.
fn put_below(lines: &mut Vec<Line>, login: &Login, width: usize)
    ensures
        final(lines).deep_view() == old(lines).deep_view() + below_form(
            login.deep_view(),
            width as int,
        ),
{
    let ghost before = lines.deep_view();
    assert(login.deep_view().rooms.len() == login.rooms@.len());
    match &login.error {
        Some(error) => {
            put(lines, empty_line());
            put(
                lines,
                line_of_two(
                    toned("✕ ", Tone::Bad),
                    toned(shorten(error.as_str(), less_by(width, 2)).as_str(), Tone::Bad),
                ),
            );
        },
        None => if width < 54 {
            let note = match &login.rooms_note {
                Some(note) => note.clone(),
                None => glue(
                    "комнат на сервере: ",
                    number(login.rooms.len() as u64).as_str(),
                ),
            };
            put(lines, empty_line());
            put(lines, line_of_one(toned(shorten(note.as_str(), width).as_str(), Tone::Muted)));
        },
    }
    assert(lines.deep_view() =~= before + below_form(login.deep_view(), width as int));
}

/// The tab for joining.
pub fn join_tab(login: &Login, width: usize) -> (r: Content)
    requires
        login.deep_view().wf(),
        width <= usize::MAX - 2,
    ensures
        r.deep_view() == join_content(login.deep_view(), width as int),
{
    let form: usize = make_form_width(width);
    let left = make_join_form(login, form);
    let mut lines = if width >= 54 {
        let right = rooms_lines(login, width - form - 2);
        columns(&left.lines, &right, form, 2)
    } else {
        left.lines
    };
    put_below(&mut lines, login, width);
    Content { lines, cursor: left.cursor }
}

/// A way to bring a friend in, with its sign.
pub open spec fn way_lines(sign: Seq<char>, tone: Tone, text: Seq<char>, width: int) -> Seq<
    LineView,
> {
    let chunks = wrapped(text, larger(taken_off(width, 2), 8));
    Seq::new(
        chunks.len(),
        |i: int|
            plain_line(
                seq![
                    toned_span(
                        if i == 0 {
                            sign + " "@
                        } else {
                            "  "@
                        },
                        tone,
                    ),
                    toned_span(chunks[i], Tone::Muted),
                ],
            ),
    )
}

/// The form for a server of one's own.
pub open spec fn host_form(login: LoginView, width: int) -> Seq<LineView> {
    field_lines("ваш ник"@, login.nickname, login.field == Field::Nickname, width) + field_lines(
        "название комнаты"@,
        login.room,
        login.field == Field::Room,
        width,
    ) + field_lines("порт"@, login.port, login.field == Field::Port, width)
}

/// The ways to bring a friend in.
pub open spec fn host_ways(width: int) -> Seq<LineView> {
    way_lines(
        "✦"@,
        Tone::Secondary,
        "наружу поднимется туннель — другу хватит тикета из переписки"@,
        width,
    ) + way_lines(
        "◆"@,
        Tone::Good,
        "кто в той же сети — зайдёт по адресу, он появится в комнате"@,
        width,
    ) + way_lines("◇"@, Tone::Muted, "комната живёт, пока открыт этот терминал"@, width)
}

/// What stands below the form for a server: the button, or what is being done.
pub open spec fn host_end(login: LoginView, tick: u64) -> Seq<LineView> {
    let action = match login.busy {
        Some(what) => plain_line(
            seq![
                toned_span(spinner_frame((tick / 2) as int % 10), Tone::Primary),
                toned_span(" "@ + what, Tone::Subtle),
            ],
        ),
        None => plain_line(seq![button_span("enter — поднять и войти"@, true)]),
    };
    match login.error {
        Some(error) => seq![
            blank(),
            action,
            plain_line(seq![toned_span("✕ "@, Tone::Bad), toned_span(error, Tone::Bad)]),
        ],
        None => seq![blank(), action],
    }
}

/// The tab for a server of one's own.
pub open spec fn host_content(login: LoginView, tick: u64, width: int) -> ContentView {
    let form = lesser(width, 38);
    ContentView {
        lines: host_form(login, form).push(blank()) + host_ways(width) + host_end(login, tick),
        cursor: match login.field {
            Field::Nickname => Some((1, field_column(login.nickname, form))),
            Field::Room => Some((3, field_column(login.room, form))),
            Field::Port => Some((5, field_column(login.port, form))),
            Field::Server => None,
        },
    }
}

/// Adds a way to bring a friend in.
#[verifier::loop_isolation(false)]
fn put_way(lines: &mut Vec<Line>, sign: &str, tone: Tone, text: &str, width: usize)
    ensures
        final(lines).deep_view() == old(lines).deep_view() + way_lines(
            sign@,
            tone,
            text@,
            width as int,
        ),
{
    let ghost before = lines.deep_view();
    let ghost goal = way_lines(sign@, tone, text@, width as int);
    let chunks = wrap(text, most(less_by(width, 2), 8));
    assert(chunks.deep_view().len() == chunks@.len());
    let mut i: usize = 0;
    assert(lines.deep_view() =~= before + goal.take(0));
    while i < chunks.len()
        invariant
            i <= chunks@.len(),
            lines.deep_view() == before + goal.take(i as int),
        decreases chunks@.len() - i,
    {
        assert(chunks.deep_view()[i as int] == chunks@[i as int].deep_view());
        let first = if i == 0 {
            toned(glue(sign, " ").as_str(), tone)
        } else {
            toned("  ", tone)
        };
        put(lines, line_of_two(first, toned(chunks[i].as_str(), Tone::Muted)));
        i = i + 1;
        assert(lines.deep_view() =~= before + goal.take(i as int));
    }
    assert(goal.take(goal.len() as int) =~= goal);
}

/// Adds what stands below the form for a server.
fn put_host_end(lines: &mut Vec<Line>, login: &Login, tick: u64)
    ensures
        final(lines).deep_view() == old(lines).deep_view() + host_end(login.deep_view(), tick),
{
    let ghost before = lines.deep_view();
    put(lines, empty_line());
    match &login.busy {
        Some(what) => put(
            lines,
            line_of_two(
                toned(spinner(tick), Tone::Primary),
                toned(glue(" ", what.as_str()).as_str(), Tone::Subtle),
            ),
        ),
        None => put(lines, line_of_one(button("enter — поднять и войти", true))),
    }
    if let Some(error) = &login.error {
        put(lines, line_of_two(toned("✕ ", Tone::Bad), toned(error.as_str(), Tone::Bad)));
    }
    assert(lines.deep_view() =~= before + host_end(login.deep_view(), tick));
}

/// The tab for a server of one's own.
pub fn host_tab(login: &Login, tick: u64, width: usize) -> (r: Content)
    requires
        login.deep_view().wf(),
    ensures
        r.deep_view() == host_content(login.deep_view(), tick, width as int),
{
    let form: usize = least(width, 38);
    let mut lines: Vec<Line> = Vec::new();
    assert(lines.deep_view() =~= Seq::<LineView>::empty());
    let a: usize = put_field(
        &mut lines,
        "ваш ник",
        &login.nickname,
        login.field == Field::Nickname,
        form,
    );
    let b: usize = put_field(
        &mut lines,
        "название комнаты",
        &login.room,
        login.field == Field::Room,
        form,
    );
    let c: usize = put_field(
        &mut lines,
        "порт",
        &login.port,
        login.field == Field::Port,
        form,
    );
    assert(lines.deep_view() =~= host_form(login.deep_view(), form as int));
    put(&mut lines, empty_line());
    let ghost first = lines.deep_view();
    put_way(
        &mut lines,
        "✦",
        Tone::Secondary,
        "наружу поднимется туннель — другу хватит тикета из переписки",
        width,
    );
    put_way(
        &mut lines,
        "◆",
        Tone::Good,
        "кто в той же сети — зайдёт по адресу, он появится в комнате",
        width,
    );
    put_way(
        &mut lines,
        "◇",
        Tone::Muted,
        "комната живёт, пока открыт этот терминал",
        width,
    );
    assert(lines.deep_view() =~= first + host_ways(width as int));
    put_host_end(&mut lines, login, tick);
    let cursor = match login.field {
        Field::Nickname => Some((1, a)),
        Field::Room => Some((3, b)),
        Field::Port => Some((5, c)),
        Field::Server => None,
    };
    Content { lines, cursor }
}

/// A setting: its name, and its value between arrows.
pub open spec fn setting_line(
    title: Seq<char>,
    value: Seq<char>,
    chosen: bool,
    width: int,
) -> LineView {
    let label = lesser(width, 26);
    plain_line(
        filled(
            seq![
                toned_span(
                    if chosen {
                        "❯ "@
                    } else {
                        "  "@
                    },
                    Tone::Primary,
                ),
                if chosen {
                    strong_span(title, Tone::Text)
                } else {
                    toned_span(title, Tone::Subtle)
                },
            ],
            label,
        ) + chooser_spans(shortened(value, taken_off(width, label + 4)), chosen),
    )
}

/// A setting.
pub fn setting_row(title: &str, value: &str, chosen: bool, width: usize) -> (r: Line)
    ensures
        r.deep_view() == setting_line(title@, value@, chosen, width as int),
{
    let label: usize = least(width, 26);
    let mut spans: Vec<Span> = Vec::new();
    spans.push(
        toned(
            if chosen {
                "❯ "
            } else {
                "  "
            },
            Tone::Primary,
        ),
    );
    spans.push(
        if chosen {
            strong(title, Tone::Text)
        } else {
            toned(title, Tone::Subtle)
        },
    );
    assert(spans.deep_view() =~= seq![spans@[0].deep_view(), spans@[1].deep_view()]);
    fill(&mut spans, label);
    let ghost first = spans.deep_view();
    let mut more = chooser(shorten(value, less_by(width, label + 4)).as_str(), chosen);
    let ghost second = more.deep_view();
    spans.append(&mut more);
    assert(spans.deep_view() =~= first + second);
    line_of(spans)
}

/// A line of one piece in a tone, cut to a width.
pub open spec fn cut_line(text: Seq<char>, width: int, tone: Tone) -> LineView {
    plain_line(seq![toned_span(shortened(text, width), tone)])
}

fn make_cut(text: &str, width: usize, tone: Tone) -> (r: Line)
    ensures
        r.deep_view() == cut_line(text@, width as int, tone),
{
    line_of_one(toned(shorten(text, width).as_str(), tone))
}

impl StateView {
    /// A line of the tab for sound.
    pub open spec fn sound_line(self, setting: SoundSetting, at: int, chosen: int, width: int) -> LineView {
        setting_line(setting.title_text(), self.sound_words(setting), at == chosen, width)
    }

    /// The tab for sound. An empty list of devices is an answer too: one sees why there
    /// is nothing to choose.
    pub open spec fn sound_content(self, login: LoginView, width: int) -> Seq<LineView> {
        let chosen = login.setting as int;
        seq![
            self.sound_line(SoundSetting::Output, 0, chosen, width),
            self.sound_line(SoundSetting::Input, 1, chosen, width),
            self.sound_line(SoundSetting::Chime, 2, chosen, width),
            self.sound_line(SoundSetting::Volume, 3, chosen, width),
            blank(),
            cut_line(login.current_sound().hint_text(), width, Tone::Muted),
            blank(),
            plain_line(seq![caption_span("что нашлось"@)]),
            blank(),
            cut_line(
                "динамиков: "@ + decimal(self.audio.outputs.len()) + " · микрофонов: "@ + decimal(
                    self.audio.inputs.len(),
                ),
                width,
                Tone::Subtle,
            ),
            if self.audio.outputs.len() == 0 {
                cut_line(
                    "звуковой карты не видно — чат будет работать молча"@,
                    width,
                    Tone::Warn,
                )
            } else {
                cut_line(
                    "выбрали динамики — звоночек проверит их сразу"@,
                    width,
                    Tone::Line,
                )
            },
        ]
    }

    /// A line of the tab for looks.
    pub open spec fn look_line(self, setting: Setting, at: int, chosen: int, width: int) -> LineView {
        setting_line(setting.title_text(), self.setting_words(setting), at == chosen, width)
    }

    /// The tab for looks, with a sample of the theme: a colour is not chosen by its name.
    pub open spec fn look_content(self, login: LoginView, width: int) -> Seq<LineView> {
        let chosen = login.setting as int;
        seq![
            self.look_line(Setting::Theme, 0, chosen, width),
            self.look_line(Setting::Images, 1, chosen, width),
            self.look_line(Setting::Sidebar, 2, chosen, width),
            self.look_line(Setting::Terminal, 3, chosen, width),
            blank(),
            cut_line(login.current_setting().hint_text(), width, Tone::Muted),
            blank(),
            plain_line(seq![caption_span("как это выглядит"@)]),
            blank(),
            plain_line(ramp_spans(lesser(width, 28))),
            plain_line(sample_spans()),
        ]
    }
}

/// A strip from the first accent to the second.
pub open spec fn ramp_spans(width: int) -> Seq<SpanView> {
    Seq::new(
        width as nat,
        |at: int| painted_span("█"@, PaintView::Ramp(at as usize, width as usize)),
    )
}

/// A dot in a colour of names.
pub open spec fn sample_dot(at: int) -> SpanView {
    painted_span(
        if at == 0 {
            "●"@
        } else {
            " ●"@
        },
        PaintView::Own(nick_palette(at)),
    )
}

/// A room and some names as they look.
pub open spec fn sample_spans() -> Seq<SpanView> {
    seq![
        pill_span(" ◆ general "@, Tone::Primary, Tone::Ink),
        raw_span("  "@),
        sample_dot(0),
        sample_dot(1),
        sample_dot(2),
        sample_dot(3),
        sample_dot(4),
        sample_dot(5),
    ]
}

#[verifier::loop_isolation(false)]
fn make_ramp(width: usize) -> (r: Vec<Span>)
    ensures
        r.deep_view() == ramp_spans(width as int),
{
    let ghost goal = ramp_spans(width as int);
    let mut r: Vec<Span> = Vec::new();
    let mut at: usize = 0;
    assert(r.deep_view() =~= goal.take(0));
    while at < width
        invariant
            at <= width,
            r.deep_view() == goal.take(at as int),
        decreases width - at,
    {
        let ghost before = r.deep_view();
        r.push(painted("█", Paint::Ramp(at, width)));
        assert(r.deep_view() =~= before.push(goal[at as int]));
        at = at + 1;
        assert(r.deep_view() =~= goal.take(at as int));
    }
    assert(r.deep_view() =~= goal);
    r
}

fn make_dot(at: usize) -> (r: Span)
    ensures
        r.deep_view() == sample_dot(at as int),
{
    painted(
        if at == 0 {
            "●"
        } else {
            " ●"
        },
        Paint::Own(palette(at)),
    )
}

fn make_sample() -> (r: Vec<Span>)
    ensures
        r.deep_view() == sample_spans(),
{
    let mut r: Vec<Span> = Vec::new();
    r.push(pill(" ◆ general ", Tone::Primary, Tone::Ink));
    r.push(raw("  "));
    r.push(make_dot(0));
    r.push(make_dot(1));
    r.push(make_dot(2));
    r.push(make_dot(3));
    r.push(make_dot(4));
    r.push(make_dot(5));
    assert(r.deep_view() =~= sample_spans());
    r
}

impl State {
    fn make_sound_line(&self, setting: SoundSetting, chosen: bool, width: usize) -> (r: Line)
        ensures
            r.deep_view() == setting_line(
                setting.title_text(),
                self.deep_view().sound_words(setting),
                chosen,
                width as int,
            ),
    {
        setting_row(setting.title(), self.sound_value(setting).as_str(), chosen, width)
    }

    /// The tab for sound: where it is played, from what it is recorded, and how loud the
    /// bell is.
    pub fn sound_tab(&self, login: &Login, width: usize) -> (r: Vec<Line>)
        ensures
            r.deep_view() == self.deep_view().sound_content(login.deep_view(), width as int),
    {
        assert(self.deep_view().audio.outputs.len() == self.audio.outputs@.len());
        assert(self.deep_view().audio.inputs.len() == self.audio.inputs@.len());
        let mut found = glue3(
            "динамиков: ",
            number(self.audio.outputs.len() as u64).as_str(),
            " · микрофонов: ",
        );
        found.append(number(self.audio.inputs.len() as u64).as_str());
        let mut r: Vec<Line> = Vec::new();
        r.push(self.make_sound_line(SoundSetting::Output, login.setting == 0, width));
        r.push(self.make_sound_line(SoundSetting::Input, login.setting == 1, width));
        r.push(self.make_sound_line(SoundSetting::Chime, login.setting == 2, width));
        r.push(self.make_sound_line(SoundSetting::Volume, login.setting == 3, width));
        r.push(empty_line());
        r.push(make_cut(login.current_sound().hint(), width, Tone::Muted));
        r.push(empty_line());
        r.push(line_of_one(caption("что нашлось")));
        r.push(empty_line());
        r.push(make_cut(found.as_str(), width, Tone::Subtle));
        r.push(
            if self.audio.outputs.len() == 0 {
                make_cut(
                    "звуковой карты не видно — чат будет работать молча",
                    width,
                    Tone::Warn,
                )
            } else {
                make_cut("выбрали динамики — звоночек проверит их сразу", width, Tone::Line)
            },
        );
        assert(r.deep_view() =~= self.deep_view().sound_content(login.deep_view(), width as int));
        r
    }

    fn make_look_line(&self, setting: Setting, chosen: bool, width: usize) -> (r: Line)
        ensures
            r.deep_view() == setting_line(
                setting.title_text(),
                self.deep_view().setting_words(setting),
                chosen,
                width as int,
            ),
    {
        setting_row(setting.title(), self.setting_value(setting), chosen, width)
    }

    /// The tab for looks.
    pub fn look_tab(&self, login: &Login, width: usize) -> (r: Vec<Line>)
        ensures
            r.deep_view() == self.deep_view().look_content(login.deep_view(), width as int),
    {
        let mut r: Vec<Line> = Vec::new();
        r.push(self.make_look_line(Setting::Theme, login.setting == 0, width));
        r.push(self.make_look_line(Setting::Images, login.setting == 1, width));
        r.push(self.make_look_line(Setting::Sidebar, login.setting == 2, width));
        r.push(self.make_look_line(Setting::Terminal, login.setting == 3, width));
        r.push(empty_line());
        r.push(make_cut(login.current_setting().hint(), width, Tone::Muted));
        r.push(empty_line());
        r.push(line_of_one(caption("как это выглядит")));
        r.push(empty_line());
        r.push(line_of(make_ramp(least(width, 28))));
        r.push(line_of(make_sample()));
        assert(r.deep_view() =~= self.deep_view().look_content(login.deep_view(), width as int));
        r
    }
}

/// What stands on the chosen tab. An empty line comes first: a text right below the seam
/// would read as its continuation.
pub open spec fn tab_content(login: LoginView, state: StateView, width: int) -> ContentView {
    let content = match login.tab {
        HomeTab::Join => join_content(login, width),
        HomeTab::Host => host_content(login, state.tick, width),
        HomeTab::Look => ContentView { lines: state.look_content(login, width), cursor: None },
        HomeTab::Sound => ContentView { lines: state.sound_content(login, width), cursor: None },
        HomeTab::Help => ContentView { lines: help_tab_lines(width), cursor: None },
    };
    ContentView {
        lines: seq![blank()] + content.lines,
        cursor: match content.cursor {
            Some((row, column)) => Some(((row + 1) as usize, column)),
            None => None,
        },
    }
}

/// What stands on the chosen tab.
pub fn tab_lines(login: &Login, state: &State, width: usize) -> (r: Content)
    requires
        login.deep_view().wf(),
        width <= usize::MAX - 2,
    ensures
        r.deep_view() == tab_content(login.deep_view(), state.deep_view(), width as int),
{
    let content = match login.tab {
        HomeTab::Join => join_tab(login, width),
        HomeTab::Host => host_tab(login, state.tick, width),
        HomeTab::Look => Content { lines: state.look_tab(login, width), cursor: None },
        HomeTab::Sound => Content { lines: state.sound_tab(login, width), cursor: None },
        HomeTab::Help => Content { lines: help_tab(width), cursor: None },
    };
    let mut lines: Vec<Line> = Vec::new();
    lines.push(empty_line());
    assert(lines.deep_view() =~= seq![blank()]);
    let cursor = match content.cursor {
        Some((row, column)) => Some((row + 1, column)),
        None => None,
    };
    put_all(&mut lines, content.lines);
    Content { lines, cursor }
}

/// The keys below the window: in a narrow one two of them, whole.
pub open spec fn footer_pairs(tab: HomeTab, width: int) -> Seq<(Seq<char>, Seq<char>)> {
    if width < 60 {
        seq![("tab"@, "раздел"@), ("enter"@, "дальше"@)]
    } else {
        match tab {
            HomeTab::Join => seq![
                ("tab"@, "раздел"@),
                ("↑↓"@, "выбор"@),
                ("enter"@, "войти"@),
                ("ctrl+r"@, "обновить"@),
                ("ctrl+q"@, "выход"@),
            ],
            HomeTab::Host => seq![
                ("tab"@, "раздел"@),
                ("↑↓"@, "поле"@),
                ("enter"@, "поднять"@),
                ("ctrl+q"@, "выход"@),
            ],
            HomeTab::Look | HomeTab::Sound => seq![
                ("tab"@, "раздел"@),
                ("↑↓"@, "строка"@),
                ("←→"@, "значение"@),
                ("ctrl+q"@, "выход"@),
            ],
            HomeTab::Help => seq![("tab"@, "раздел"@), ("ctrl+q"@, "выход"@)],
        }
    }
}

/// The keys below the window.
pub fn footer_hints(tab: HomeTab, width: u16) -> (r: Vec<Span>)
    ensures
        r.deep_view() == seq![raw_span(" "@)] + hint_spans(footer_pairs(tab, width as int)),
{
    let mut pairs: Vec<(&'static str, &'static str)> = Vec::new();
    pairs.push(("tab", "раздел"));
    if width < 60 {
        pairs.push(("enter", "дальше"));
    } else {
        match tab {
            HomeTab::Join => {
                pairs.push(("↑↓", "выбор"));
                pairs.push(("enter", "войти"));
                pairs.push(("ctrl+r", "обновить"));
            },
            HomeTab::Host => {
                pairs.push(("↑↓", "поле"));
                pairs.push(("enter", "поднять"));
            },
            HomeTab::Look | HomeTab::Sound => {
                pairs.push(("↑↓", "строка"));
                pairs.push(("←→", "значение"));
            },
            HomeTab::Help => {},
        }
        pairs.push(("ctrl+q", "выход"));
    }
    assert(pairs.deep_view() =~= footer_pairs(tab, width as int));
    let mut r: Vec<Span> = Vec::new();
    r.push(raw(" "));
    let mut more = hints(&pairs);
    let ghost second = more.deep_view();
    r.append(&mut more);
    assert(r.deep_view() =~= seq![raw_span(" "@)] + second);
    r
}

/// Where the parts of the first screen stand.
#[derive(Debug, Clone, Copy, PartialEq, Eq, Structural)]
pub struct Placement {
    /// How many rows the heading takes.
    pub head: u16,
    pub panel: Area,
    /// The tabs and what stands on them.
    pub body: Area,
    /// The row for the keys, where there is one.
    pub footer: Option<Area>,
}

/// How many rows the keys take: none in a low window.
pub open spec fn foot_rows(area: Area) -> int {
    if area.height >= 8 {
        1
    } else {
        0
    }
}

/// How many rows the heading takes. The room for the form comes first: the heading has
/// what is left.
pub open spec fn head_rows(area: Area) -> int {
    let spare = taken_off(area.height as int, BODY + foot_rows(area));
    if spare >= HEAD && area.width >= LOGO_WIDTH + 6 {
        HEAD as int
    } else if spare >= 2 {
        2
    } else {
        0
    }
}

/// Where the window stands: it is placed by the tallest tab, so that it does not jump
/// when the tabs are switched.
pub open spec fn panel_of(area: Area) -> Area {
    area.middle(PANEL as int, head_rows(area) + BODY + foot_rows(area))
}

/// How many cells a line of a tab has.
pub open spec fn tab_room(area: Area) -> int {
    taken_off(panel_of(area).width as int, FRAME as int)
}

/// How many rows the body may take.
pub open spec fn body_rows(area: Area) -> int {
    panel_of(area).height - head_rows(area) - foot_rows(area)
}

/// How many rows the lines of a tab take.
pub open spec fn content_rows(area: Area, count: usize) -> int {
    let count = (count as u16) as int;
    let limit = larger(taken_off(body_rows(area), FRAME as int), 4);
    if count < 4 {
        4
    } else if count > limit {
        limit
    } else {
        count
    }
}

/// Where the parts of the first screen stand, where a tab has so many lines.
pub open spec fn placement_of(area: Area, count: usize) -> Placement {
    let panel = panel_of(area);
    let body = Area {
        y: (panel.y + head_rows(area)) as u16,
        height: lesser(content_rows(area, count) + FRAME, body_rows(area)) as u16,
        ..panel
    };
    Placement {
        head: head_rows(area) as u16,
        panel,
        body,
        footer: if foot_rows(area) == 1 {
            Some(
                Area {
                    y: lesser(body.y + body.height, panel.y + panel.height - 1) as u16,
                    height: 1,
                    ..panel
                },
            )
        } else {
            None
        },
    }
}

fn make_head(area: Area, foot: u16) -> (r: u16)
    requires
        foot == foot_rows(area),
    ensures
        r == head_rows(area),
{
    let spare: u16 = minus(area.height, BODY + foot);
    if spare >= HEAD && area.width >= LOGO_WIDTH + 6 {
        HEAD
    } else if spare >= 2 {
        2
    } else {
        0
    }
}

fn make_panel(area: Area, head: u16, foot: u16) -> (r: Area)
    requires
        area.wf(),
        foot == foot_rows(area),
        head == head_rows(area),
    ensures
        r == panel_of(area),
        r.wf(),
{
    crate::frame::centered(area, PANEL, head + BODY + foot)
}

/// Where the parts of the first screen stand. The lower edge follows the last line:
/// empty rows under a short tab would look like a torn form.
pub fn place_home(area: Area, count: usize) -> (r: Placement)
    requires
        area.wf(),
        area.height >= 3,
    ensures
        r == placement_of(area, count),
        r.body.wf(),
{
    let foot: u16 = if area.height >= 8 {
        1
    } else {
        0
    };
    let head: u16 = make_head(area, foot);
    let panel = make_panel(area, head, foot);
    let rows: u16 = panel.height - head - foot;
    let lines: u16 = #[verifier::truncate]
    (count as u16);
    let limit: u16 = if rows > 8 {
        rows - 4
    } else {
        4
    };
    let content: u16 = if lines < 4 {
        4
    } else if lines > limit {
        limit
    } else {
        lines
    };
    let body = Area {
        y: panel.y + head,
        height: if rows < content + FRAME {
            rows
        } else {
            content + FRAME
        },
        ..panel
    };
    let footer = if foot == 1 {
        Some(
            Area {
                y: min_of(body.y + body.height, panel.y + panel.height - 1),
                height: 1,
                ..panel
            },
        )
    } else {
        None
    };
    Placement { head, panel, body, footer }
}

/// The tabs of the first screen.
pub open spec fn home_tabs() -> Seq<TabView> {
    seq![
        TabView { icon: HomeTab::Join.icon_text(), title: HomeTab::Join.title_text() },
        TabView { icon: HomeTab::Host.icon_text(), title: HomeTab::Host.title_text() },
        TabView { icon: HomeTab::Look.icon_text(), title: HomeTab::Look.title_text() },
        TabView { icon: HomeTab::Sound.icon_text(), title: HomeTab::Sound.title_text() },
        TabView { icon: HomeTab::Help.icon_text(), title: HomeTab::Help.title_text() },
    ]
}

fn make_tab(tab: HomeTab) -> (r: Tab)
    ensures
        r.deep_view() == (TabView { icon: tab.icon_text(), title: tab.title_text() }),
{
    Tab { icon: tab.icon(), title: tab.title() }
}

fn make_tabs() -> (r: Vec<Tab>)
    ensures
        r.deep_view() == home_tabs(),
        r@.len() == 5,
{
    let mut r: Vec<Tab> = Vec::new();
    r.push(make_tab(HomeTab::Join));
    r.push(make_tab(HomeTab::Host));
    r.push(make_tab(HomeTab::Look));
    r.push(make_tab(HomeTab::Sound));
    r.push(make_tab(HomeTab::Help));
    assert(r.deep_view() =~= home_tabs());
    r
}

/// The first screen, ready to be drawn.
pub struct HomePage {
    pub place: Placement,
    pub strip: Strip,
    /// What the strip leaves for the content.
    pub inner: Area,
    pub content: Content,
    pub footer: Vec<Span>,
}

pub struct HomePageView {
    pub place: Placement,
    pub strip: StripView,
    pub inner: Area,
    pub content: ContentView,
    pub footer: Seq<SpanView>,
}

impl DeepView for HomePage {
    type V = HomePageView;

    open spec fn deep_view(&self) -> HomePageView {
        HomePageView {
            place: self.place,
            strip: self.strip.deep_view(),
            inner: self.inner,
            content: self.content.deep_view(),
            footer: self.footer.deep_view(),
        }
    }
}

/// The first screen on an area. One too small for a line of the form has none.
pub open spec fn home_page(login: LoginView, state: StateView, area: Area) -> Option<HomePageView> {
    if area.width < 8 || area.height < 3 {
        None
    } else {
        let content = tab_content(login, state, tab_room(area));
        let place = placement_of(area, content.lines.len() as usize);
        let (strip, inner) = strip_of(place.body, home_tabs(), login.tab.place());
        Some(
            HomePageView {
                place,
                strip,
                inner,
                content,
                footer: seq![raw_span(" "@)] + hint_spans(
                    footer_pairs(login.tab, place.panel.width as int),
                ),
            },
        )
    }
}

/// Lays the first screen out.
pub fn lay_home(login: &Login, state: &State, area: Area) -> (r: Option<HomePage>)
    requires
        login.deep_view().wf(),
        area.wf(),
    ensures
        r.deep_view() == home_page(login.deep_view(), state.deep_view(), area),
{
    if area.width < 8 || area.height < 3 {
        return None;
    }
    let room: u16 = minus(min_of(PANEL, area.width), FRAME);
    assert(room == tab_room(area));
    let content = tab_lines(login, state, room as usize);
    assert(content.deep_view().lines.len() == content.lines@.len());
    let place = place_home(area, content.lines.len());
    let tabs = make_tabs();
    let (strip, inner) = tabbed(place.body, &tabs, login.tab.index());
    let footer = footer_hints(login.tab, place.panel.width);
    Some(HomePage { place, strip, inner, content, footer })
}

/// The parts of the first screen stand within it and do not cover one another.
pub proof fn law_parts_stand_apart(area: Area, count: usize)
    requires
        area.wf(),
        area.height >= 3,
    ensures
        ({
            let place = placement_of(area, count);
            let end = place.panel.y + place.panel.height;
            &&& area.x <= place.panel.x && place.panel.x + place.panel.width <= area.x + area.width
            &&& area.y <= place.panel.y && end <= area.y + area.height
            &&& place.body.y == place.panel.y + place.head
            &&& place.body.y + place.body.height <= end
            &&& place.footer matches Some(footer) ==> place.body.y + place.body.height <= footer.y
                && footer.y + footer.height <= end
        }),
{
}

/// The window stands at the same place whichever tab is chosen.
pub proof fn law_window_does_not_jump(area: Area, one: usize, other: usize)
    ensures
        placement_of(area, one).panel == placement_of(area, other).panel,
        placement_of(area, one).head == placement_of(area, other).head,
        placement_of(area, one).body.y == placement_of(area, other).body.y,
{
}

} // verus!
