//! What the help says, as a window over the feed and as a tab of the first screen.
use crate::chat::HELP_LINES;
use crate::frame::{centered, lesser, minus, taken_off, Area};
use crate::paper::{
    blank, caption, caption_span, columns, empty_line, in_columns, line_of_one, line_of_two,
    plain_line, repeat, repeated, strong, strong_span, toned, toned_span, Line, LineView, Tone,
};
use crate::seqs::{first_where, lemma_filter_step, lemma_first_where_is};
use crate::text::{char_count, chars_of, decimal, glue, glue3, number, occurs_at, stands_at, text_between};
use crate::width::{shorten, shortened, text_width, width_of};
use vstd::prelude::*;
use vstd::string::*;

verus! {

/// The lines of the help. The keys come first: a key with its name on the keyboard
/// says more than a command.
pub open spec fn help_entries() -> Seq<Seq<char>> {
    seq![
        "F2 — записать голосовое, повторно отправить"@,
        "F3 — послушать последнее голосовое, повторно стоп"@,
        "F4 — отправить файл: любой, не только картинку"@,
        "F5 — сохранить присланное на диск"@,
        "F6 — открыть присланное в системе"@,
        "F7 — выбрать любое вложение стрелками, enter открыть"@,
        "щелчок по вложению — открыть его"@,
        "перетащить файл в окно — отправить его"@,
        "F1 — эта справка"@,
        "esc — выйти из комнаты в меню"@,
        "ctrl+q — закрыть программу"@,
        "ctrl+p — колонка с людьми справа"@,
        ""@,
        "/join <комната> — перейти в другую комнату"@,
        "/rooms — показать комнаты на сервере"@,
        "/nick <ник> — сменить ник"@,
        "/send [путь] — отправить файл, без пути — выбрать"@,
        "/view — показать картинку в терминале"@,
        "/rec — записать голосовое, повторно — отправить"@,
        "/play, /stop — проиграть голосовое и остановить"@,
        "/save [путь] — сохранить вложение на диск"@,
        "/open — открыть вложение внешней программой"@,
        "/color [ник] <цвет> — цвет ника, «-» сбрасывает"@,
        "/host [порт] — поднять свой сервер и позвать друга"@,
        "/menu — вернуться в меню"@,
        "/clear — очистить историю на экране"@,
        "/quit — выход"@,
        "//текст — отправить текст со слэша в начале"@,
    ]
}

/// The lines of the help.
pub fn help_texts() -> (r: Vec<&'static str>)
    ensures
        r.deep_view() == help_entries(),
        r@.len() == HELP_LINES,
{
    let r: Vec<&'static str> = vec![
        "F2 — записать голосовое, повторно отправить",
        "F3 — послушать последнее голосовое, повторно стоп",
        "F4 — отправить файл: любой, не только картинку",
        "F5 — сохранить присланное на диск",
        "F6 — открыть присланное в системе",
        "F7 — выбрать любое вложение стрелками, enter открыть",
        "щелчок по вложению — открыть его",
        "перетащить файл в окно — отправить его",
        "F1 — эта справка",
        "esc — выйти из комнаты в меню",
        "ctrl+q — закрыть программу",
        "ctrl+p — колонка с людьми справа",
        "",
        "/join <комната> — перейти в другую комнату",
        "/rooms — показать комнаты на сервере",
        "/nick <ник> — сменить ник",
        "/send [путь] — отправить файл, без пути — выбрать",
        "/view — показать картинку в терминале",
        "/rec — записать голосовое, повторно — отправить",
        "/play, /stop — проиграть голосовое и остановить",
        "/save [путь] — сохранить вложение на диск",
        "/open — открыть вложение внешней программой",
        "/color [ник] <цвет> — цвет ника, «-» сбрасывает",
        "/host [порт] — поднять свой сервер и позвать друга",
        "/menu — вернуться в меню",
        "/clear — очистить историю на экране",
        "/quit — выход",
        "//текст — отправить текст со слэша в начале",
    ];
    assert(r.deep_view() =~= help_entries());
    r
}

/// The first place at which the needle stands, from a place on; -1 where there is none.
pub open spec fn found_from(s: Seq<char>, needle: Seq<char>, from: int) -> int
    decreases s.len() - from,
{
    if from + needle.len() > s.len() {
        -1
    } else if occurs_at(s, needle, from) {
        from
    } else if from < s.len() {
        found_from(s, needle, from + 1)
    } else {
        -1
    }
}

/// What stands before and behind the first place of a separator.
pub open spec fn parted(s: Seq<char>, separator: Seq<char>) -> Option<(Seq<char>, Seq<char>)> {
    let at = found_from(s, separator, 0);
    if at >= 0 {
        Some((s.take(at), s.skip(at + separator.len())))
    } else {
        None
    }
}

/// What stands before and behind the first place of a separator.
#[verifier::loop_isolation(false)]
pub fn split_once(s: &str, separator: &str) -> (r: Option<(String, String)>)
    ensures
        r.deep_view() == parted(s@, separator@),
{
    let v = chars_of(s);
    let n = chars_of(separator);
    let len: usize = v.len();
    let size: usize = n.len();
    if size > len {
        return None;
    }
    let mut at: usize = 0;
    while at <= len - size
        invariant
            len == v@.len(),
            size == n@.len(),
            size <= len,
            at <= len,
            found_from(s@, separator@, 0) == found_from(s@, separator@, at as int),
        decreases len - at,
    {
        if stands_at(&v, &n, at) {
            let head = text_between(&v, 0, at);
            let tail = text_between(&v, at + size, len);
            assert(head@ =~= s@.take(at as int));
            assert(tail@ =~= s@.skip(at + separator@.len()));
            return Some((head, tail));
        }
        if at == len {
            return None;
        }
        at = at + 1;
    }
    None
}

/// A text filled up with spaces to so many characters.
pub open spec fn padded(s: Seq<char>, count: int) -> Seq<char> {
    s + repeated(" "@, taken_off(count, s.len() as int) as nat)
}

fn pad_chars(s: &str, count: usize) -> (r: String)
    ensures
        r@ == padded(s@, count as int),
{
    let have: usize = char_count(s);
    let rest: usize = if count > have {
        count - have
    } else {
        0
    };
    glue(s, repeat(" ", rest).as_str())
}

/// How many characters a key takes in the window.
pub const KEY_CHARS: usize = 24;

/// A line of the window: what is looked for is the key, so it is strong.
pub open spec fn help_line(entry: Seq<char>) -> LineView {
    match parted(entry, " — "@) {
        Some((key, what)) => plain_line(
            seq![
                strong_span(" "@ + padded(key, KEY_CHARS as int) + " "@, Tone::Primary),
                toned_span(what, Tone::Subtle),
            ],
        ),
        None => plain_line(seq![toned_span(" "@ + entry, Tone::Muted)]),
    }
}

/// All lines of the window.
pub open spec fn help_page() -> Seq<LineView> {
    help_entries().map_values(|entry: Seq<char>| help_line(entry)) + seq![
        blank(),
        plain_line(
            seq![
                toned_span(
                    " "@ + "tab ник и команда · ctrl+o файл · ctrl+r ответ · ctrl+f поиск"@,
                    Tone::Line,
                ),
            ],
        ),
        plain_line(
            seq![toned_span(" "@ + "выделять текст мышью — с зажатым shift"@, Tone::Line)],
        ),
    ]
}

fn make_help_line(entry: &str) -> (r: Line)
    ensures
        r.deep_view() == help_line(entry@),
{
    match split_once(entry, " — ") {
        Some((key, what)) => line_of_two(
            strong(
                glue3(" ", pad_chars(key.as_str(), KEY_CHARS).as_str(), " ").as_str(),
                Tone::Primary,
            ),
            toned(what.as_str(), Tone::Subtle),
        ),
        None => line_of_one(toned(glue(" ", entry).as_str(), Tone::Muted)),
    }
}

/// All lines of the window.
#[verifier::loop_isolation(false)]
fn make_help_page() -> (r: Vec<Line>)
    ensures
        r.deep_view() == help_page(),
{
    let texts = help_texts();
    let ghost all = help_entries();
    let ghost goal = all.map_values(|entry: Seq<char>| help_line(entry));
    let mut r: Vec<Line> = Vec::new();
    let mut i: usize = 0;
    assert(r.deep_view() =~= goal.take(0));
    while i < texts.len()
        invariant
            i <= texts@.len(),
            r.deep_view() == goal.take(i as int),
        decreases texts@.len() - i,
    {
        let text: &str = texts[i];
        let ghost before = r.deep_view();
        assert(all[i as int] == texts@[i as int].deep_view());
        r.push(make_help_line(text));
        i = i + 1;
        assert(r.deep_view() =~= before.push(goal[i - 1]));
        assert(r.deep_view() =~= goal.take(i as int));
    }
    assert(goal.take(goal.len() as int) =~= goal);
    r.push(empty_line());
    r.push(
        line_of_one(
            toned(
                glue(
                    " ",
                    "tab ник и команда · ctrl+o файл · ctrl+r ответ · ctrl+f поиск",
                ).as_str(),
                Tone::Line,
            ),
        ),
    );
    r.push(
        line_of_one(
            toned(glue(" ", "выделять текст мышью — с зажатым shift").as_str(), Tone::Line),
        ),
    );
    assert(r.deep_view() =~= help_page());
    r
}

/// A window over the feed.
pub struct Sheet {
    pub area: Area,
    pub title: String,
    pub footer: String,
    pub lines: Vec<Line>,
}

pub struct SheetView {
    pub area: Area,
    pub title: Seq<char>,
    pub footer: Seq<char>,
    pub lines: Seq<LineView>,
}

impl DeepView for Sheet {
    type V = SheetView;

    open spec fn deep_view(&self) -> SheetView {
        SheetView {
            area: self.area,
            title: self.title@,
            footer: self.footer@,
            lines: self.lines.deep_view(),
        }
    }
}

/// What stands below the help: how much of it is not seen.
pub open spec fn help_footer(hidden: int, from: int) -> Seq<char> {
    if hidden == 0 {
        "любая клавиша — закрыть"@
    } else if from == hidden {
        "↑ выше · любая клавиша — закрыть"@
    } else {
        "↓ ещё "@ + decimal((hidden - from) as nat) + " · любая клавиша — закрыть"@
    }
}

/// The window of the help over an area, scrolled so many lines.
pub open spec fn help_sheet(area: Area, scroll: int) -> SheetView {
    let place = area.middle(78, HELP_LINES + 6);
    let hidden = taken_off(help_page().len() as int, taken_off(place.height as int, 2));
    let from = lesser(scroll, hidden);
    SheetView {
        area: place,
        title: "что умеет чат"@,
        footer: help_footer(hidden, from),
        lines: help_page().skip(from),
    }
}

/// The window of the help. What does not fit is scrolled, and the footer says so:
/// otherwise one would think that there is no more.
pub fn help(scroll: usize, area: Area) -> (r: Sheet)
    requires
        area.wf(),
    ensures
        r.deep_view() == help_sheet(area, scroll as int),
{
    let place = centered(area, 78, 34);
    let mut page = make_help_page();
    assert(help_page().len() == page@.len());
    let inner: usize = minus(place.height, 2) as usize;
    let hidden: usize = if page.len() > inner {
        page.len() - inner
    } else {
        0
    };
    let from: usize = if scroll < hidden {
        scroll
    } else {
        hidden
    };
    let footer = if hidden == 0 {
        "любая клавиша — закрыть".to_owned()
    } else if from == hidden {
        "↑ выше · любая клавиша — закрыть".to_owned()
    } else {
        glue3(
            "↓ ещё ",
            number((hidden - from) as u64).as_str(),
            " · любая клавиша — закрыть",
        )
    };
    let lines = page.split_off(from);
    assert(lines.deep_view() =~= help_page().skip(from as int));
    Sheet { area: place, title: "что умеет чат".to_owned(), footer, lines }
}

/// How many lines of the help a tab shows of the keys, and how many of the commands.
pub const TAB_LINES: usize = 10;

/// How many characters a key takes in a tab.
pub const TAB_KEY: usize = 12;

/// Whether a line says something.
pub open spec fn says() -> spec_fn(Seq<char>) -> bool {
    |entry: Seq<char>| entry.len() > 0
}

/// Whether a line is empty.
pub open spec fn says_nothing() -> spec_fn(Seq<char>) -> bool {
    |entry: Seq<char>| entry.len() == 0
}

/// A line of a tab.
pub open spec fn tab_help_line(entry: Seq<char>, column: int) -> LineView {
    match parted(entry, " — "@) {
        Some((key, what)) => if text_width(key) <= TAB_KEY {
            plain_line(
                seq![
                    strong_span(padded(key, TAB_KEY as int) + " "@, Tone::Primary),
                    toned_span(
                        shortened(what, taken_off(column, TAB_KEY + 1)),
                        Tone::Subtle,
                    ),
                ],
            )
        } else {
            plain_line(
                seq![
                    toned_span(key + " "@, Tone::Primary),
                    toned_span(
                        shortened(what, taken_off(column, text_width(key) + 1)),
                        Tone::Subtle,
                    ),
                ],
            )
        },
        None => plain_line(seq![toned_span(shortened(entry, column), Tone::Muted)]),
    }
}

/// A column of a tab: so many lines, and how many are left out.
pub open spec fn help_column(source: Seq<Seq<char>>, column: int) -> Seq<LineView> {
    let all = source.filter(says());
    let shown = lesser(all.len() as int, TAB_LINES as int);
    let lines = all.take(shown).map_values(|entry: Seq<char>| tab_help_line(entry, column));
    if all.len() > TAB_LINES {
        lines.push(
            plain_line(
                seq![
                    toned_span(
                        shortened(
                            "и ещё "@ + decimal((all.len() - TAB_LINES) as nat)
                                + " — F1 в переписке"@,
                            column,
                        ),
                        Tone::Line,
                    ),
                ],
            ),
        )
    } else {
        lines
    }
}

/// A column of a tab under its heading.
pub open spec fn headed_column(
    heading: Seq<char>,
    source: Seq<Seq<char>>,
    column: int,
) -> Seq<LineView> {
    seq![plain_line(seq![caption_span(heading)]), blank()] + help_column(source, column)
}

/// The help as a tab: the keys on the left, the commands on the right. A narrow window
/// has room for the keys only.
pub open spec fn help_tab_lines(width: int) -> Seq<LineView> {
    let gap = first_where(help_entries(), says_nothing());
    let keys = help_entries().take(gap);
    let commands = help_entries().skip(gap);
    if width < 60 {
        headed_column("клавиши"@, keys, width)
    } else {
        let left = width / 2 - 1;
        in_columns(
            headed_column("клавиши"@, keys, left),
            headed_column("команды"@, commands, taken_off(width, left + 2)),
            left,
            2,
        )
    }
}

/// What is left of some cells.
fn less_by(a: usize, b: usize) -> (r: usize)
    ensures
        r == taken_off(a as int, b as int),
{
    if a > b {
        a - b
    } else {
        0
    }
}

fn make_tab_line(entry: &str, column: usize) -> (r: Line)
    ensures
        r.deep_view() == tab_help_line(entry@, column as int),
{
    match split_once(entry, " — ") {
        Some((key, what)) => {
            let w: usize = width_of(key.as_str());
            if w <= TAB_KEY {
                line_of_two(
                    strong(
                        glue(pad_chars(key.as_str(), TAB_KEY).as_str(), " ").as_str(),
                        Tone::Primary,
                    ),
                    toned(
                        shorten(what.as_str(), less_by(column, TAB_KEY + 1)).as_str(),
                        Tone::Subtle,
                    ),
                )
            } else {
                line_of_two(
                    toned(glue(key.as_str(), " ").as_str(), Tone::Primary),
                    toned(
                        shorten(what.as_str(), less_by(less_by(column, w), 1)).as_str(),
                        Tone::Subtle,
                    ),
                )
            }
        },
        None => line_of_one(toned(shorten(entry, column).as_str(), Tone::Muted)),
    }
}

/// A column of a tab.
#[verifier::loop_isolation(false)]
fn make_column(
    heading: &str,
    texts: &Vec<&'static str>,
    from: usize,
    to: usize,
    column: usize,
) -> (r: Vec<Line>)
    requires
        from <= to <= texts@.len(),
    ensures
        r.deep_view() == headed_column(
            heading@,
            texts.deep_view().subrange(from as int, to as int),
            column as int,
        ),
{
    let ghost source = texts.deep_view().subrange(from as int, to as int);
    let ghost test = says();
    let ghost line = |entry: Seq<char>| tab_help_line(entry, column as int);
    let mut r: Vec<Line> = Vec::new();
    r.push(line_of_one(caption(heading)));
    r.push(empty_line());
    let ghost head = r.deep_view();
    let mut count: usize = 0;
    let mut i: usize = from;
    proof {
        reveal(Seq::filter);
        assert(source.take(0).filter(test) =~= Seq::<Seq<char>>::empty());
        assert(head =~= seq![plain_line(seq![caption_span(heading@)]), blank()]);
        assert(r.deep_view() =~= head + source.take(0).filter(test).take(0).map_values(line));
    }
    while i < to
        invariant
            from <= i <= to <= texts@.len(),
            count == source.take(i - from).filter(test).len(),
            count <= i,
            r.deep_view() == head + source.take(i - from).filter(test).take(
                lesser(count as int, TAB_LINES as int),
            ).map_values(line),
        decreases to - i,
    {
        let text: &str = texts[i];
        let ghost before = r.deep_view();
        let ghost kept = source.take(i - from).filter(test);
        proof {
            assert(source[i - from] == texts@[i as int].deep_view());
            lemma_filter_step(source, i - from, test);
        }
        if !text.is_empty() {
            if count < TAB_LINES {
                r.push(make_tab_line(text, column));
                assert(r.deep_view() =~= head + kept.push(text@).take(count + 1).map_values(line))
                    by {
                    assert(r.deep_view() =~= before.push(tab_help_line(text@, column as int)));
                    assert(kept.take(count as int) =~= kept);
                    assert(kept.push(text@).take(count + 1) =~= kept.push(text@));
                    assert(kept.push(text@).map_values(line) =~= kept.map_values(line).push(
                        tab_help_line(text@, column as int),
                    ));
                }
            } else {
                assert(kept.push(text@).take(TAB_LINES as int) =~= kept.take(TAB_LINES as int));
            }
            count = count + 1;
        }
        i = i + 1;
    }
    assert(source.take(source.len() as int) =~= source);
    if count > TAB_LINES {
        let ghost before = r.deep_view();
        r.push(
            line_of_one(
                toned(
                    shorten(
                        glue3(
                            "и ещё ",
                            number((count - TAB_LINES) as u64).as_str(),
                            " — F1 в переписке",
                        ).as_str(),
                        column,
                    ).as_str(),
                    Tone::Line,
                ),
            ),
        );
        assert(r.deep_view() =~= before.push(r@.last().deep_view()));
    }
    assert(r.deep_view() =~= headed_column(heading@, source, column as int));
    r
}

/// The help as a tab.
#[verifier::loop_isolation(false)]
pub fn help_tab(width: usize) -> (r: Vec<Line>)
    ensures
        r.deep_view() == help_tab_lines(width as int),
{
    let texts = help_texts();
    let ghost all = help_entries();
    let mut gap: usize = 0;
    while gap < texts.len() && !texts[gap].is_empty()
        invariant
            gap <= texts@.len(),
            texts.deep_view() == all,
            forall|k: int| 0 <= k < gap ==> !says_nothing()(#[trigger] all[k]),
        decreases texts@.len() - gap,
    {
        assert(all[gap as int] == texts@[gap as int].deep_view());
        gap = gap + 1;
    }
    proof {
        if gap < texts@.len() {
            assert(all[gap as int] == texts@[gap as int].deep_view());
        }
        lemma_first_where_is(all, says_nothing(), gap as int);
        assert(all.subrange(0, gap as int) =~= all.take(gap as int));
        assert(all.subrange(gap as int, all.len() as int) =~= all.skip(gap as int));
    }
    if width < 60 {
        return make_column("клавиши", &texts, 0, gap, width);
    }
    let left: usize = width / 2 - 1;
    let keys = make_column("клавиши", &texts, 0, gap, left);
    let commands = make_column("команды", &texts, gap, texts.len(), less_by(width, left + 2));
    columns(&keys, &commands, left, 2)
}

} // verus!
