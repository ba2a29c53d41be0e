//! What stands on the first screen, in the windows above the feed and in the bars around it.
use crate::frame::{names_of, signs_of, strip_of, tab_label, Area, TabView};
use crate::front::{
    below_form, home_page, home_tabs, host_content, host_end, host_form, join_content, join_cursor,
    join_form, tab_content,
};
use crate::help::{found_from, help_column, help_line, parted, says};
use crate::home::{Field, HomeTab, LoginView, Setting, SoundSetting};
use crate::home_laws::held;
use crate::input::InputView;
use crate::overlay::{list_lines, list_sheet, viewer_sheet};
use crate::paper::{LineView, PaintView, PieceView, SpanView, Tone};
use crate::screen_laws::reads;
use crate::state::{BrowserView, StateView, ViewerStateView, ViewerView};
use crate::talk::people_text;
use crate::text::{decimal, occurs_at};
use crate::width::{field_shown, shortened, shortened_left, text_width};
use vstd::prelude::*;

verus! {

/// Whether two lines show a field: its name, strong where it has the focus, and below it
/// what is seen of its text.
pub open spec fn is_field_at(
    lines: Seq<LineView>,
    row: int,
    label: Seq<char>,
    input: InputView,
    focused: bool,
    width: int,
) -> bool {
    let room = if width > 3 {
        width - 2
    } else {
        1
    };
    let text = field_shown(input, room).0;
    &&& 0 <= row && row + 1 < lines.len()
    &&& reads(lines[row].spans[0], label)
    &&& lines[row].spans[0].bold == focused
    &&& text.len() > 0 || focused ==> reads(lines[row + 1].spans[1], text)
}

/// The form for entering shows the name, the room and the server one below another, each
/// with its own text; the one that is being filled is strong, unless a room is pointed at.
pub proof fn law_form_shows_its_fields(login: LoginView, width: int)
    ensures
        ({
            let lines = join_form(login, width);
            let typing = login.rooms_selected is None;
            &&& is_field_at(
                lines,
                0,
                "ваш ник"@,
                login.nickname,
                typing && login.field == Field::Nickname,
                width,
            )
            &&& is_field_at(
                lines,
                2,
                "комната"@,
                login.room,
                typing && login.field == Field::Room,
                width,
            )
            &&& is_field_at(
                lines,
                4,
                "сервер — адрес или тикет друга"@,
                login.server,
                typing && login.field == Field::Server,
                width,
            )
            &&& lines.len() == 8
        }),
        ({
            let lines = host_form(login, width);
            &&& is_field_at(
                lines,
                0,
                "ваш ник"@,
                login.nickname,
                login.field == Field::Nickname,
                width,
            )
            &&& is_field_at(
                lines,
                2,
                "название комнаты"@,
                login.room,
                login.field == Field::Room,
                width,
            )
            &&& is_field_at(lines, 4, "порт"@, login.port, login.field == Field::Port, width)
            &&& lines.len() == 6
        }),
{
}

/// The cursor stands in the text of the field that is being filled, two cells behind the
/// bar; while a room is pointed at there is none.
pub proof fn law_cursor_stands_in_its_field(login: LoginView, width: int)
    requires
        width >= 4,
    ensures
        login.rooms_selected is Some ==> join_cursor(login, width) is None,
        login.rooms_selected is None && login.field != Field::Port ==> {
            let row: int = match login.field {
                Field::Nickname => 1,
                Field::Room => 3,
                _ => 5,
            };
            let column = field_shown(held(login, login.field), width - 2).1 + 2;
            join_cursor(login, width) == Some((row as usize, column as usize))
        },
{
}

/// What is wrong is shown below the form; what the server is doing is shown in place of the
/// button.
pub proof fn law_first_screen_tells_what_is_wrong(login: LoginView, tick: u64, width: int)
    requires
        width >= 2,
    ensures
        login.error is Some ==> {
            let lines = below_form(login, width);
            &&& lines.len() == 2
            &&& reads(lines[1].spans[1], shortened(login.error->0, width - 2))
        },
        login.error is Some ==> reads(host_end(login, tick)[2].spans[1], login.error->0),
        login.busy is Some ==> reads(host_end(login, tick)[1].spans[1], " "@ + login.busy->0),
        login.busy is None ==> reads(
            host_end(login, tick)[1].spans[0],
            " "@ + "enter — поднять и войти"@ + " "@,
        ),
{
}

/// Whether a line shows a setting: its name, and its value as far as there is room; the
/// chosen one is pointed at and strong.
pub open spec fn is_setting(
    line: LineView,
    title: Seq<char>,
    value: Seq<char>,
    chosen: bool,
    width: int,
) -> bool {
    let label = if width < 26 {
        width
    } else {
        26
    };
    let n = line.spans.len() as int;
    &&& n >= 5
    &&& reads(
        line.spans[0],
        if chosen {
            "❯ "@
        } else {
            "  "@
        },
    )
    &&& reads(line.spans[1], title)
    &&& line.spans[1].bold == chosen
    &&& reads(
        line.spans[n - 2],
        shortened(
            value,
            if width > label + 4 {
                width - label - 4
            } else {
                0
            },
        ),
    )
}

/// Every setting has its line with its own name and its own value.
pub proof fn law_settings_are_listed(state: StateView, login: LoginView, width: int)
    ensures
        ({
            let lines = state.look_content(login, width);
            &&& is_setting(
                lines[0],
                "тема"@,
                state.theme.title_text(),
                login.setting == 0,
                width,
            )
            &&& is_setting(
                lines[1],
                "картинки в ленте"@,
                state.setting_words(Setting::Images),
                login.setting == 1,
                width,
            )
            &&& is_setting(
                lines[2],
                "панель людей"@,
                state.setting_words(Setting::Sidebar),
                login.setting == 2,
                width,
            )
            &&& is_setting(
                lines[3],
                "свой терминал"@,
                state.setting_words(Setting::Terminal),
                login.setting == 3,
                width,
            )
        }),
        ({
            let lines = state.sound_content(login, width);
            &&& is_setting(
                lines[0],
                "динамики"@,
                state.sound_words(SoundSetting::Output),
                login.setting == 0,
                width,
            )
            &&& is_setting(
                lines[1],
                "микрофон"@,
                state.sound_words(SoundSetting::Input),
                login.setting == 1,
                width,
            )
            &&& is_setting(
                lines[2],
                "звоночек"@,
                state.sound_words(SoundSetting::Chime),
                login.setting == 2,
                width,
            )
            &&& is_setting(
                lines[3],
                "громкость"@,
                state.sound_words(SoundSetting::Volume),
                login.setting == 3,
                width,
            )
        }),
{
}

/// The chosen tab shows what belongs to it, below an empty line, with the cursor where it
/// stands there.
pub proof fn law_tab_shows_its_own(login: LoginView, state: StateView, width: int)
    ensures
        ({
            let page = tab_content(login, state, width);
            &&& page.lines.len() > 0 && page.lines[0].spans.len() == 0
            &&& login.tab == HomeTab::Join ==> page.lines.drop_first() == join_content(
                login,
                width,
            ).lines && (join_content(login, width).cursor matches Some((row, column)) ==> row
                < usize::MAX ==> page.cursor == Some(((row + 1) as usize, column)))
            &&& login.tab == HomeTab::Host ==> page.lines.drop_first() == host_content(
                login,
                state.tick,
                width,
            ).lines
            &&& login.tab == HomeTab::Look ==> page.lines.drop_first() == state.look_content(
                login,
                width,
            )
            &&& login.tab == HomeTab::Sound ==> page.lines.drop_first() == state.sound_content(
                login,
                width,
            )
        }),
{
    let page = tab_content(login, state, width);
    if login.tab == HomeTab::Join {
        assert(page.lines.drop_first() =~= join_content(login, width).lines);
    } else if login.tab == HomeTab::Host {
        assert(page.lines.drop_first() =~= host_content(login, state.tick, width).lines);
    } else if login.tab == HomeTab::Look {
        assert(page.lines.drop_first() =~= state.look_content(login, width));
    } else if login.tab == HomeTab::Sound {
        assert(page.lines.drop_first() =~= state.sound_content(login, width));
    }
}

/// In a wide window the form stands on the left and the rooms on the right, row by row; in a
/// narrow one there is the form alone.
pub proof fn law_rooms_stand_beside_the_form(login: LoginView, width: int, row: int)
    requires
        0 <= row < 8,
    ensures
        ({
            let page = join_content(login, width);
            let form = if width >= 54 {
                if width * 5 / 11 > 24 {
                    width * 5 / 11
                } else {
                    24
                }
            } else {
                width
            };
            let left = join_form(login, form)[row];
            &&& row < page.lines.len()
            &&& width < 54 ==> page.lines[row] == left
            &&& width >= 54 ==> page.lines[row].spans.len() >= left.spans.len()
                && page.lines[row].spans.take(left.spans.len() as int) == left.spans
            &&& page.cursor == join_cursor(login, form)
        }),
{
    if width >= 54 {
        let form = crate::front::form_width(width);
        crate::shape_laws::law_columns_keep_their_rows(
            join_form(login, form),
            crate::front::room_lines(login, width - form - 2),
            form,
            2,
            row,
        );
    }
}

/// Whether a tab stands in the row of names: with its sign and its title, and lit where it
/// is the chosen one.
pub open spec fn is_named_at(
    spans: Seq<SpanView>,
    at: int,
    tab: TabView,
    chosen: bool,
) -> bool {
    &&& 0 <= at < spans.len()
    &&& reads(spans[at], " "@ + tab.icon + " "@ + tab.title + " "@)
    &&& spans[at].paint == PaintView::Gradient <==> chosen
}

/// In the row of tabs every tab is named, in their order, and only the chosen one is lit.
pub proof fn law_tabs_are_named(tabs: Seq<TabView>, active: int)
    ensures
        names_of(tabs, active).len() == if tabs.len() == 0 {
            1
        } else {
            4 * tabs.len()
        },
        forall|i: int|
            0 <= i < tabs.len() ==> is_named_at(
                names_of(tabs, active),
                4 * i + 2,
                #[trigger] tabs[i],
                i == active,
            ),
    decreases tabs.len(),
{
    if tabs.len() > 0 {
        let d = tabs.drop_last();
        law_tabs_are_named(d, active);
        let before = names_of(d, active);
        let all = names_of(tabs, active);
        assert forall|i: int| 0 <= i < tabs.len() implies is_named_at(
            all,
            4 * i + 2,
            #[trigger] tabs[i],
            i == active,
        ) by {
            if i < d.len() {
                assert(d[i] == tabs[i]);
                assert(is_named_at(before, 4 * i + 2, d[i], i == active));
                assert(all[4 * i + 2] == before[4 * i + 2]);
            }
        }
    }
}

/// In a narrow window every tab has its sign, in their order, and only the chosen one
/// stands out.
pub proof fn law_tabs_have_their_signs(tabs: Seq<TabView>, count: nat, active: int, width: int)
    requires
        count <= tabs.len(),
        0 <= active < tabs.len(),
    ensures
        signs_of(tabs, count, active, width).len() == if count == 0 {
            0
        } else {
            2 * count - 1
        },
        forall|i: int|
            0 <= i < count && i != active ==> reads(
                signs_of(tabs, count, active, width)[2 * i],
                (#[trigger] tabs[i]).icon,
            ),
        active < count ==> reads(
            signs_of(tabs, count, active, width)[2 * active],
            tabs[active].icon,
        ) || reads(signs_of(tabs, count, active, width)[2 * active], tab_label(tabs[active])),
    decreases count,
{
    if count > 0 {
        law_tabs_have_their_signs(tabs, (count - 1) as nat, active, width);
        let before = signs_of(tabs, (count - 1) as nat, active, width);
        let all = signs_of(tabs, count, active, width);
        assert forall|i: int| 0 <= i < count && i != active implies reads(
            all[2 * i],
            (#[trigger] tabs[i]).icon,
        ) by {
            if i < count - 1 {
                assert(all[2 * i] == before[2 * i]);
            }
        }
        if active < count - 1 {
            assert(all[2 * active] == before[2 * active]);
        }
    }
}

/// The first screen shows the tab that is chosen, under the row of tabs in which it is lit;
/// an area too small for it shows nothing.
pub proof fn law_first_screen_shows_the_tab(login: LoginView, state: StateView, area: Area)
    ensures
        home_page(login, state, area) is None <==> area.width < 8 || area.height < 3,
        home_page(login, state, area) matches Some(page) ==> {
            let at: int = match login.tab {
                HomeTab::Join => 0,
                HomeTab::Host => 1,
                HomeTab::Look => 2,
                HomeTab::Sound => 3,
                HomeTab::Help => 4,
            };
            &&& exists|width: int| #[trigger] tab_content(login, state, width) == page.content
            &&& (page.strip, page.inner) == strip_of(page.place.body, home_tabs(), at)
            &&& home_tabs().len() == 5
            &&& home_tabs()[at].title == match login.tab {
                HomeTab::Join => "войти"@,
                HomeTab::Host => "поднять"@,
                HomeTab::Look => "вид"@,
                HomeTab::Sound => "звук"@,
                HomeTab::Help => "справка"@,
            }
        },
{
    if let Some(page) = home_page(login, state, area) {
        let width = crate::front::tab_room(area);
        assert(tab_content(login, state, width) == page.content);
    }
}

/// The window of the files is named by the end of its directory and holds its list; the
/// window of a picture is named by the picture and tells while it comes and why it did not.
pub proof fn law_windows_hold_what_they_are_for(
    browser: BrowserView,
    viewer: ViewerView,
    kind: Seq<char>,
    area: Area,
)
    requires
        area.wf(),
        area.width >= 80,
        area.height >= 24,
    ensures
        ({
            let sheet = list_sheet(browser, area);
            &&& sheet.title == shortened_left(browser.dir, 68)
            &&& sheet.lines == list_lines(browser, 72, 19)
            &&& sheet.area.width == 74 && sheet.area.height == 22
        }),
        ({
            let sheet = viewer_sheet(viewer, kind, area);
            &&& sheet.title == viewer.name
            &&& viewer.state is Loading ==> reads(sheet.lines[0].spans[1], " загружаю…"@)
            &&& viewer.state matches ViewerStateView::Failed(reason) ==> reads(
                sheet.lines[0].spans[0],
                reason,
            )
            &&& viewer.state is Ready ==> sheet.lines.len() == 0
        }),
{
}

/// The bar above the feed names the room on its left and tells of the connection on its
/// right; where there is room, the people are named between them.
pub proof fn law_bar_names_the_room(state: StateView, width: int, now: u64, clock: i64)
    ensures
        ({
            let bar = state.header(width, now, clock);
            let status = crate::talk::status_of(state.status, state.tick, now);
            let free = state.header_free(width, now, clock);
            let names = people_text(
                state.users,
                if free > 8 {
                    free - 8
                } else {
                    0
                },
            );
            &&& bar.left.len() >= 2
            &&& reads(bar.left[1], " ◆ "@ + shortened(state.room, 24) + " "@)
            &&& bar.right.len() == status.len() + 2
            &&& bar.right.take(status.len() as int) == status
            &&& bar.right[status.len() as int].piece == PieceView::Clock(clock)
            &&& free > 4 && state.users.len() > 0 && names.len() > 0 ==> reads(
                bar.left.last(),
                "  "@ + names,
            )
        }),
{
    let bar = state.header(width, now, clock);
    let status = crate::talk::status_of(state.status, state.tick, now);
    assert(bar.right.take(status.len() as int) =~= status);
}

/// The field below the feed shows the end of what is typed that has room behind the prompt,
/// or what is searched for; an empty one asks for a message. Its frame is of a bad tone
/// while there is no connection.
pub proof fn law_field_shows_what_is_typed(state: StateView, width: int)
    ensures
        ({
            let field = state.entryway(width);
            let shown = if state.search is Some {
                state.search->0.query
            } else {
                state.input
            };
            let waits = state.search is None && state.input.text.len() == 0 && state.replying
                is None;
            &&& field.row.len() == 4
            &&& reads(
                field.row[1],
                if state.search is Some {
                    "⌕"@
                } else {
                    "❯"@
                },
            )
            &&& waits ==> reads(field.row[3], "напишите сообщение"@) && field.column == 0
            &&& !waits ==> shows_tail(field.row[3], shown.text)
            &&& state.search is None && !(state.status is Online) ==> field.frame
                == PaintView::Of(Tone::Bad)
            &&& state.search is None && state.status is Online ==> field.frame != PaintView::Of(
                Tone::Bad,
            )
            &&& state.search is Some ==> field.mark is Some && reads(
                field.mark->0,
                crate::talk::found_text(state.search->0),
            )
            &&& state.search is None ==> field.mark == crate::talk::counter_of(
                state.input.text.len() as int,
            )
        }),
{
    let field = state.entryway(width);
    let shown = if state.search is Some {
        state.search->0.query
    } else {
        state.input
    };
    let prompt = crate::talk::prompt_of(
        if state.search is Some {
            "⌕"@
        } else {
            "❯"@
        },
        if state.search is Some {
            Tone::Mention
        } else {
            Tone::Primary
        },
    );
    let visible = crate::frame::taken_off(crate::paper::cells_left(width, prompt), 1);
    let cursor = text_width(shown.text.take(shown.cursor)) as int;
    let offset = crate::frame::taken_off(cursor, visible);
    let from = crate::width::split_point(shown.text, offset);
    if !(state.search is None && state.input.text.len() == 0 && state.replying is None) {
        crate::width::lemma_fitting(shown.text, offset);
        assert(reads(field.row[3], shown.text.skip(from)));
        assert(shows_tail(field.row[3], shown.text));
    }
}

/// Whether a piece is the end of a text, from some character on.
pub open spec fn shows_tail(span: SpanView, text: Seq<char>) -> bool {
    exists|from: int| 0 <= from <= text.len() && reads(span, #[trigger] text.skip(from))
}

/// The people stand beside the feed where that was chosen and the window is wide enough.
pub proof fn law_people_stand_beside(state: StateView, width: int)
    ensures
        state.people_beside(width) <==> state.sidebar && width >= 72,
{
}

/// A column of the help shows its first ten lines that say something, in their order, and
/// how many more there are.
pub proof fn law_help_column_is_short(source: Seq<Seq<char>>, column: int)
    requires
        forall|i: int| 0 <= i < source.len() ==> (#[trigger] source[i]).len() > 0,
    ensures
        ({
            let lines = help_column(source, column);
            &&& source.len() <= 10 ==> lines.len() == source.len()
            &&& source.len() > 10 ==> lines.len() == 11 && reads(
                lines[10].spans[0],
                shortened(
                    "и ещё "@ + decimal((source.len() - 10) as nat) + " — F1 в переписке"@,
                    column,
                ),
            )
            &&& forall|i: int|
                0 <= i < source.len() && i < 10 ==> #[trigger] lines[i]
                    == crate::help::tab_help_line(source[i], column)
        }),
{
    lemma_all_say(source);
}

proof fn lemma_all_say(source: Seq<Seq<char>>)
    requires
        forall|i: int| 0 <= i < source.len() ==> (#[trigger] source[i]).len() > 0,
    ensures
        source.filter(says()) == source,
    decreases source.len(),
{
    reveal(Seq::filter);
    if source.len() > 0 {
        let d = source.drop_last();
        assert forall|i: int| 0 <= i < d.len() implies (#[trigger] d[i]).len() > 0 by {
            assert(d[i] == source[i]);
        }
        lemma_all_say(d);
        assert(source.last() == source[source.len() - 1]);
        assert(d.push(source.last()) =~= source);
    } else {
        assert(source.filter(says()) =~= source);
    }
}

/// A line of the help is parted at its dash: the key stands first, then what it does.
pub proof fn law_help_line_is_parted(key: Seq<char>, what: Seq<char>)
    requires
        forall|i: int| 0 <= i < key.len() ==> #[trigger] key[i] != '—',
    ensures
        parted(key + " — "@ + what, " — "@) == Some((key, what)),
        help_line(key + " — "@ + what).spans.len() == 2,
        reads(help_line(key + " — "@ + what).spans[1], what),
        key.len() == 24 ==> reads(help_line(key + " — "@ + what).spans[0], " "@ + key + " "@),
{
    reveal_strlit(" — ");
    let dash = " — "@;
    let line = key + dash + what;
    assert(line.subrange(key.len() as int, key.len() as int + 3) =~= dash);
    lemma_dash(line, 0, key.len() as int);
    assert(line.take(key.len() as int) =~= key);
    assert(line.skip(key.len() as int + 3) =~= what);
    if key.len() == 24 {
        assert(crate::paper::repeated(" "@, 0) =~= Seq::<char>::empty());
        assert(key + Seq::<char>::empty() =~= key);
    }
}

proof fn lemma_dash(line: Seq<char>, from: int, at: int)
    requires
        0 <= from <= at,
        at + 3 <= line.len(),
        occurs_at(line, " — "@, at),
        forall|i: int| 0 <= i < at ==> #[trigger] line[i] != '—',
    ensures
        found_from(line, " — "@, from) == at,
    decreases at - from,
{
    reveal_strlit(" — ");
    let dash = " — "@;
    if from < at {
        if occurs_at(line, dash, from) {
            assert(line.subrange(from, from + 3)[1] == dash[1]);
            assert(line[from + 1] == '—');
            assert(line.subrange(at, at + 3)[0] == dash[0]);
            assert(line[at] == ' ');
        }
        lemma_dash(line, from + 1, at);
    }
}

} // verus!
