//! The windows over the feed: the list of files and a picture.
use crate::files::{FileEntry, FileEntryView};
use crate::frame::{centered, minus, taken_off, Area};
use crate::help::{Sheet, SheetView};
use crate::paper::{
    line_of_one, line_of_two, plain_line, repeat, repeated, toned, toned_span, Line, LineView,
    Paint, PaintView, Piece, PieceView, Span, SpanView, Tone,
};
use crate::state::{Browser, BrowserView, Viewer, ViewerState, ViewerStateView, ViewerView};
use crate::text::{glue, glue3};
use crate::theme::{spinner, spinner_frame};
use crate::width::{human_size, shorten_left, shortened_left, sized, text_width, width_of};
use vstd::prelude::*;
use vstd::string::*;

verus! {

/// The sign of a line: what will happen to the file.
pub open spec fn file_sign(entry: FileEntryView) -> Seq<char> {
    if entry.is_dir {
        "▸ "@
    } else if entry.media {
        "◈ "@
    } else {
        "  "@
    }
}

/// The size of a file; a directory has none.
pub open spec fn file_size(entry: FileEntryView) -> Seq<char> {
    if entry.is_dir {
        Seq::empty()
    } else {
        sized(entry.size as nat)
    }
}

/// What is written on a line: the name on the left, the size on the right.
pub open spec fn file_text(entry: FileEntryView, width: int) -> Seq<char> {
    let name = " "@ + file_sign(entry) + entry.name;
    let size = file_size(entry);
    name + repeated(
        " "@,
        taken_off(width, text_width(name) + text_width(size) + 1) as nat,
    ) + size + " "@
}

/// A line of the list.
pub open spec fn file_line(entry: FileEntryView, chosen: bool, width: int) -> LineView {
    plain_line(
        seq![
            SpanView {
                piece: PieceView::Text(file_text(entry, width)),
                paint: PaintView::Of(
                    if chosen {
                        Tone::Ink
                    } else if entry.is_dir {
                        Tone::Secondary
                    } else {
                        Tone::Text
                    },
                ),
                bold: false,
                back: if chosen {
                    Some(Tone::Primary)
                } else {
                    None
                },
            },
        ],
    )
}

/// A line that says why there is no list.
pub open spec fn note_line(text: Seq<char>, tone: Tone) -> LineView {
    plain_line(seq![toned_span(" "@ + text, tone)])
}

/// The first line of the list that is seen: the chosen one is always among those seen.
pub open spec fn list_start(selected: int, height: int) -> int {
    taken_off(selected, taken_off(height, 1))
}

/// How many lines of the list are seen.
pub open spec fn list_count(total: int, selected: int, height: int) -> int {
    let left = taken_off(total, list_start(selected, height));
    if left < height {
        left
    } else {
        height
    }
}

/// The lines of the list.
pub open spec fn list_lines(browser: BrowserView, width: int, height: int) -> Seq<LineView> {
    let shown = browser.shown();
    if browser.loading {
        seq![note_line("читаю…"@, Tone::Muted)]
    } else if browser.error is Some {
        seq![note_line(browser.error->0, Tone::Bad)]
    } else if shown.len() == 0 {
        seq![note_line("ничего не нашлось"@, Tone::Muted)]
    } else {
        let start = list_start(browser.selected as int, height);
        Seq::new(
            list_count(shown.len() as int, browser.selected as int, height) as nat,
            |row: int|
                file_line(shown[start + row], start + row == browser.selected, width),
        )
    }
}

/// The window of the list over an area. The lowest row of the window is for what the
/// names have to contain.
pub open spec fn list_sheet(browser: BrowserView, area: Area) -> SheetView {
    let place = area.middle(74, 22);
    let inner = place.inside();
    SheetView {
        area: place,
        title: shortened_left(browser.dir, taken_off(place.width as int, 6)),
        footer: "enter выбрать · ← наверх · esc отмена"@,
        lines: if inner.height < 2 {
            Seq::empty()
        } else {
            list_lines(browser, inner.width as int, inner.height - 1)
        },
    }
}

fn make_note(text: &str, tone: Tone) -> (r: Line)
    ensures
        r.deep_view() == note_line(text@, tone),
{
    line_of_one(toned(glue(" ", text).as_str(), tone))
}

/// What is left of some cells after two texts and one cell more.
fn room_between(width: usize, first: &str, second: &str) -> (r: usize)
    ensures
        r == taken_off(width as int, text_width(first@) + text_width(second@) + 1),
{
    let a: usize = width_of(first);
    let b: usize = width_of(second);
    if a >= width || b >= width - a || width - a - b <= 1 {
        0
    } else {
        width - a - b - 1
    }
}

fn make_file_line(entry: &FileEntry, chosen: bool, width: usize) -> (r: Line)
    ensures
        r.deep_view() == file_line(entry.deep_view(), chosen, width as int),
{
    let sign = if entry.is_dir {
        "▸ "
    } else if entry.media {
        "◈ "
    } else {
        "  "
    };
    let size = if entry.is_dir {
        String::new()
    } else {
        human_size(entry.size)
    };
    assert(size@ =~= file_size(entry.deep_view()));
    let mut text = glue3(" ", sign, entry.name.as_str());
    let room: usize = room_between(width, text.as_str(), size.as_str());
    text.append(repeat(" ", room).as_str());
    text.append(size.as_str());
    text.append(" ");
    assert(text@ =~= file_text(entry.deep_view(), width as int));
    let tone = if chosen {
        Tone::Ink
    } else if entry.is_dir {
        Tone::Secondary
    } else {
        Tone::Text
    };
    line_of_one(
        Span {
            piece: Piece::Text(text),
            paint: Paint::Of(tone),
            bold: false,
            back: if chosen {
                Some(Tone::Primary)
            } else {
                None
            },
        },
    )
}

/// The lines of the list.
#[verifier::loop_isolation(false)]
fn make_list(browser: &Browser, width: usize, height: usize) -> (r: Vec<Line>)
    requires
        height > 0,
    ensures
        r.deep_view() == list_lines(browser.deep_view(), width as int, height as int),
{
    let ghost goal = list_lines(browser.deep_view(), width as int, height as int);
    let mut r: Vec<Line> = Vec::new();
    if browser.loading {
        r.push(make_note("читаю…", Tone::Muted));
        assert(r.deep_view() =~= goal);
        return r;
    }
    if let Some(error) = &browser.error {
        r.push(make_note(error.as_str(), Tone::Bad));
        assert(r.deep_view() =~= goal);
        return r;
    }
    let visible = browser.visible();
    let ghost shown = browser.deep_view().shown();
    assert(shown.len() == visible@.len());
    if visible.len() == 0 {
        r.push(make_note("ничего не нашлось", Tone::Muted));
        assert(r.deep_view() =~= goal);
        return r;
    }
    let start: usize = if browser.selected > height - 1 {
        browser.selected - (height - 1)
    } else {
        0
    };
    let left: usize = if visible.len() > start {
        visible.len() - start
    } else {
        0
    };
    let count: usize = if left < height {
        left
    } else {
        height
    };
    let mut row: usize = 0;
    assert(r.deep_view() =~= goal.take(0));
    while row < count
        invariant
            row <= count,
            r.deep_view() == goal.take(row as int),
        decreases count - row,
    {
        let at: usize = start + row;
        assert(shown[at as int] == visible@[at as int].deep_view());
        let ghost before = r.deep_view();
        r.push(make_file_line(visible[at], at == browser.selected, width));
        assert(r.deep_view() =~= before.push(goal[row as int]));
        row = row + 1;
        assert(r.deep_view() =~= goal.take(row as int));
    }
    assert(r.deep_view() =~= goal);
    r
}

/// The window of the list of files. The list follows the choice: otherwise the chosen
/// line would leave the window and the arrows would mean nothing.
pub fn browser(list: &Browser, area: Area) -> (r: Sheet)
    requires
        area.wf(),
    ensures
        r.deep_view() == list_sheet(list.deep_view(), area),
{
    let place = centered(area, 74, 22);
    let inner = place.within();
    let title = shorten_left(list.dir.as_str(), minus(place.width, 6) as usize);
    let lines = if inner.height < 2 {
        let lines: Vec<Line> = Vec::new();
        assert(lines.deep_view() =~= Seq::<LineView>::empty());
        lines
    } else {
        make_list(list, inner.width as usize, (inner.height - 1) as usize)
    };
    Sheet {
        area: place,
        title,
        footer: "enter выбрать · ← наверх · esc отмена".to_owned(),
        lines,
    }
}

/// What stands in the window of a picture while there is no picture.
pub open spec fn viewer_note(state: ViewerStateView) -> Seq<LineView> {
    match state {
        ViewerStateView::Loading => seq![
            plain_line(
                seq![
                    toned_span(spinner_frame(0), Tone::Primary),
                    toned_span(" загружаю…"@, Tone::Subtle),
                ],
            ),
        ],
        ViewerStateView::Failed(reason) => seq![plain_line(seq![toned_span(reason, Tone::Bad)])],
        ViewerStateView::Ready(_) => Seq::empty(),
    }
}

/// The window of a picture over an area. How pictures are drawn is said below: where
/// there is a mosaic in place of a photograph, one sees why.
pub open spec fn viewer_sheet(viewer: ViewerView, kind: Seq<char>, area: Area) -> SheetView {
    SheetView {
        area: area.middle(taken_off(area.width as int, 4), taken_off(area.height as int, 2)),
        title: viewer.name,
        footer: "esc — закрыть · "@ + kind,
        lines: viewer_note(viewer.state),
    }
}

/// The window of a picture. The picture itself is drawn by whoever draws the window.
pub fn viewer(shown: &Viewer, kind: &str, area: Area) -> (r: Sheet)
    requires
        area.wf(),
    ensures
        r.deep_view() == viewer_sheet(shown.deep_view(), kind@, area),
{
    let place = centered(area, minus(area.width, 4), minus(area.height, 2));
    let mut lines: Vec<Line> = Vec::new();
    match &shown.state {
        ViewerState::Loading => {
            lines.push(
                line_of_two(
                    toned(spinner(0), Tone::Primary),
                    toned(" загружаю…", Tone::Subtle),
                ),
            );
        },
        ViewerState::Failed(reason) => {
            lines.push(line_of_one(toned(reason.as_str(), Tone::Bad)));
        },
        ViewerState::Ready(_) => {},
    }
    assert(lines.deep_view() =~= viewer_note(shown.state.deep_view()));
    Sheet {
        area: place,
        title: shown.name.clone(),
        footer: glue("esc — закрыть · ", kind),
        lines,
    }
}

/// How many empty rows stand above some lines in the middle of a window.
pub fn rows_above(height: u16, lines: usize) -> (r: usize)
    ensures
        r == taken_off(height as int, lines as int) / 2,
{
    let height: usize = height as usize;
    if height > lines {
        (height - lines) / 2
    } else {
        0
    }
}

/// The chosen line of the list is among those that are seen, wherever the list has one.
pub proof fn law_chosen_line_is_seen(browser: BrowserView, width: int, height: int)
    requires
        !browser.loading,
        browser.error is None,
        browser.selected < browser.shown().len(),
        height > 0,
    ensures
        ({
            let row = browser.selected - list_start(browser.selected as int, height);
            let lines = list_lines(browser, width, height);
            &&& 0 <= row < lines.len() <= height
            &&& lines[row] == file_line(
                browser.shown()[browser.selected as int],
                true,
                width,
            )
        }),
{
}

} // verus!
