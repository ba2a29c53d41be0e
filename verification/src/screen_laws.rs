//! What is seen on the screen around the feed: people, the connection, the field, the lists.
use crate::feed::RenderedView;
use crate::files::FileEntryView;
use crate::front::rooms_seen;
use crate::home::LoginView;
use crate::overlay::{file_text, list_lines};
use crate::paper::{LineView, PieceView, SpanView, Tone};
use crate::protocol::UserInfoView;
use crate::seqs::lemma_filter_from;
use crate::state::{BrowserView, SearchView, StateView, StatusView};
use crate::talk::{
    counter_of, found_text, pane_of, people_text, placed, reply_line, seen_whole, status_of,
    typing_text, window_of, Placed,
};
use crate::text::{decimal, joined};
use crate::width::{fitting, head_within, label_of, shortened, sized, text_width};
use vstd::prelude::*;

verus! {

/// Whether a piece is this text.
pub open spec fn reads(span: SpanView, text: Seq<char>) -> bool {
    span.piece == PieceView::Text(text)
}

/// Everybody is named where there is room for all names, in the order in which they stand;
/// where there is none, it is said how many they are.
pub proof fn law_people_are_named(users: Seq<UserInfoView>, width: int)
    requires
        users.len() > 0,
        width >= 6,
    ensures
        ({
            let full = joined(Seq::new(users.len(), |i: int| users[i].nickname), ", "@);
            let short = decimal(users.len()) + " человек"@;
            &&& text_width(full) <= width ==> people_text(users, width) == full
            &&& text_width(full) > width && text_width(short) <= width ==> people_text(users, width)
                == short
            &&& text_width(people_text(users, width)) <= width || people_text(users, width).len()
                == 0
        }),
{
    assert(crate::talk::names_in(users) =~= Seq::new(users.len(), |i: int| users[i].nickname));
}

/// What is said of the connection is how it is; while it is broken, the seconds until the
/// next attempt are counted, the one that has begun among them.
pub proof fn law_connection_is_shown(status: StatusView, tick: u64, now: u64)
    ensures
        ({
            let spans = status_of(status, tick, now);
            &&& spans.len() == 2
            &&& status is Online ==> reads(spans[1], " в сети"@)
            &&& status is Connecting ==> reads(spans[1], " подключаюсь"@)
            &&& status matches StatusView::Reconnecting { retry_at, .. } ==> {
                let left = if retry_at > now {
                    retry_at - now
                } else {
                    0
                };
                exists|s: nat|
                    s * 1000 > left && (s - 1) * 1000 <= left && #[trigger] reads(
                        spans[1],
                        " нет связи · "@ + decimal(s) + "с"@,
                    )
            }
        }),
{
    if let StatusView::Reconnecting { retry_at, .. } = status {
        let left = if retry_at > now {
            retry_at - now
        } else {
            0
        };
        let s = (left / 1000 + 1) as nat;
        assert(reads(status_of(status, tick, now)[1], " нет связи · "@ + decimal(s) + "с"@));
    }
}

/// In the column with the people everybody has a line, in the order in which they stand:
/// whoever types is marked, and so is oneself.
pub proof fn law_people_have_their_lines(state: StateView, width: int, now: u64, k: int)
    requires
        0 <= k < state.users.len(),
    ensures
        ({
            let line = state.people_lines(width, now)[1 + k];
            let user = state.users[k];
            let types = state.typing_names(now).contains(user.nickname);
            &&& reads(line.spans[1], shortened(user.nickname, width - 7))
            &&& types ==> line.spans.len() == 3 && reads(line.spans[2], " ✎"@)
            &&& !types && state.me == Some(user.id) ==> line.spans.len() == 3 && reads(
                line.spans[2],
                " вы"@,
            )
            &&& !types && state.me != Some(user.id) ==> line.spans.len() == 2
        }),
        ({
            let lines = state.people_lines(width, now);
            let server = label_of(state.server);
            &&& lines.len() == state.users.len() + 4
            &&& server.len() > 0 ==> reads(lines.last().spans[0], shortened(server, width - 2))
        }),
{
}

/// A text that fits is shown as it is. One that does not fit is shown from its beginning,
/// as much of it as there is room for, and an ellipsis.
pub proof fn law_text_is_shortened(s: Seq<char>, width: int)
    requires
        width >= 2,
    ensures
        text_width(s) <= width ==> shortened(s, width) == s,
        text_width(s) > width ==> {
            let k = shortened(s, width).len() - "…"@.len();
            &&& 0 <= k <= s.len()
            &&& shortened(s, width) == s.take(k) + "…"@
            &&& forall|j: int|
                k < j <= fitting(s, width - 1) ==> text_width(#[trigger] s.take(j) + "…"@) > width
        },
{
    crate::width::lemma_fitting(s, width - 1);
    lemma_head_within(s, fitting(s, width - 1), width);
}

proof fn lemma_head_within(s: Seq<char>, most: int, width: int)
    requires
        0 <= most <= s.len(),
    ensures
        0 <= head_within(s, most, width) <= most,
        forall|j: int|
            head_within(s, most, width) < j <= most ==> text_width(#[trigger] s.take(j) + "…"@)
                > width,
    decreases most,
{
    if most > 0 && text_width(s.take(most) + "…"@) > width {
        lemma_head_within(s, most - 1, width);
    }
}

/// The limit of the field is shown once more than six hundred of its thousand characters
/// are used, in a bad tone where fewer than forty are left.
pub proof fn law_limit_is_shown(len: int)
    requires
        0 <= len <= 1000,
    ensures
        counter_of(len) is Some <==> len > 600,
        len > 600 ==> {
            &&& reads(counter_of(len)->0, " "@ + decimal((1000 - len) as nat) + " "@)
            &&& counter_of(len)->0.paint == crate::paper::PaintView::Of(
                if 1000 - len < 40 {
                    Tone::Bad
                } else {
                    Tone::Muted
                },
            )
        },
{
}

/// Which of the matches is shown is counted from one.
pub proof fn law_matches_are_counted(search: SearchView)
    ensures
        search.query.text.len() == 0 ==> found_text(search).len() == 0,
        search.query.text.len() > 0 && search.matches.len() > 0 ==> found_text(search) == " "@
            + decimal((search.current + 1) as nat) + " из "@ + decimal(search.matches.len()) + " "@,
{
}

/// One who types is named, and so are two; of more it is said how many they are.
pub proof fn law_typists_are_named(a: Seq<char>, b: Seq<char>, names: Seq<Seq<char>>)
    ensures
        typing_text(seq![a]) == a + " печатает"@,
        typing_text(seq![a, b]) == a + " и "@ + b + " печатают"@,
        names.len() > 2 ==> typing_text(names) == decimal(names.len()) + " человек печатают"@,
{
}

/// The line below the field tells first what the client is doing, then who types, and only
/// then which keys there are.
pub proof fn law_hint_tells_what_matters(state: StateView, width: int, now: u64)
    ensures
        ({
            let hint = state.hint(width, now);
            let names = state.typing_names(now);
            &&& state.busy matches Some(busy) ==> reads(hint[2], " "@ + busy + " "@)
            &&& state.busy is None && names.len() > 0 && state.viewer is None && state.search
                is None ==> reads(hint[1], typing_text(names))
        }),
{
}

/// What is answered stands above the field with its author and its words.
pub proof fn law_answered_is_shown(state: StateView, target: crate::state::ReplyTargetView)
    ensures
        ({
            let line = reply_line(state, target);
            &&& line.spans.len() == 3
            &&& reads(line.spans[1], target.nickname + ": "@)
            &&& reads(line.spans[2], target.excerpt)
        }),
{
}

/// The pictures that are seen are those whose ten lines are all in sight, and each of them
/// stands where its place on the page is seen.
pub proof fn law_pictures_stand_in_their_places(
    page: RenderedView,
    scrollback: int,
    width: int,
    height: int,
)
    requires
        0 <= scrollback <= page.lines.len(),
        0 <= height,
        page.lines.len() + height <= usize::MAX,
    ensures
        ({
            let pane = pane_of(page, scrollback, width, height);
            let (start, end, padding) = window_of(page.lines.len() as int, scrollback, height);
            &&& forall|k: int|
                0 <= k < page.slots.len() && start <= (#[trigger] page.slots[k]).line
                    && page.slots[k].line + 10 <= end ==> pane.pictures.contains(
                    Placed {
                        id: page.slots[k].id,
                        row: (padding + page.slots[k].line - start) as usize,
                    },
                )
            &&& forall|i: int|
                0 <= i < pane.pictures.len() ==> stands_well(
                    page,
                    start,
                    end,
                    padding,
                    #[trigger] pane.pictures[i],
                )
            &&& forall|line: int|
                start <= line < end ==> pane.lines[padding + line - start]
                    == #[trigger] page.lines[line]
        }),
{
    let (start, end, padding) = window_of(page.lines.len() as int, scrollback, height);
    let test = seen_whole(start, end);
    let place = placed(start, padding);
    let kept = page.slots.filter(test);
    let pane = pane_of(page, scrollback, width, height);
    lemma_filter_from(page.slots, test);
    assert forall|k: int|
        0 <= k < page.slots.len() && start <= (#[trigger] page.slots[k]).line && page.slots[k].line
            + 10 <= end implies pane.pictures.contains(
        Placed {
            id: page.slots[k].id,
            row: (padding + page.slots[k].line - start) as usize,
        },
    ) by {
        assert(test(page.slots[k]));
        let i = choose|i: int| 0 <= i < kept.len() && kept[i] == page.slots[k];
        assert(pane.pictures[i] == place(kept[i]));
    }
    assert forall|i: int| 0 <= i < pane.pictures.len() implies stands_well(
        page,
        start,
        end,
        padding,
        #[trigger] pane.pictures[i],
    ) by {
        assert(pane.pictures[i] == place(kept[i]));
        assert(page.slots.contains(kept[i]) && test(kept[i]));
        let k = choose|k: int| 0 <= k < page.slots.len() && page.slots[k] == kept[i];
        assert(page.slots[k].id == pane.pictures[i].id);
    }
    assert forall|line: int| start <= line < end implies pane.lines[padding + line - start]
        == #[trigger] page.lines[line] by {
        assert(pane.lines[padding + line - start] == page.lines.subrange(start, end)[line - start]);
    }
}

/// Whether a picture is one of the page that is seen whole, and stands where it should.
pub open spec fn stands_well(
    page: RenderedView,
    start: int,
    end: int,
    padding: int,
    picture: Placed,
) -> bool {
    exists|k: int|
        0 <= k < page.slots.len() && start <= (#[trigger] page.slots[k]).line && page.slots[k].line
            + 10 <= end && page.slots[k].id == picture.id && picture.row == padding
            + page.slots[k].line - start
}

/// A file of the list is written with its name and its size, a directory without one.
pub proof fn law_file_is_written(entry: FileEntryView, width: int)
    ensures
        ({
            let text = file_text(entry, width);
            let sign = if entry.is_dir {
                "▸ "@
            } else if entry.media {
                "◈ "@
            } else {
                "  "@
            };
            let name = " "@ + sign + entry.name;
            let size = if entry.is_dir {
                Seq::empty()
            } else {
                sized(entry.size as nat)
            };
            &&& text.len() >= name.len() + size.len() + " "@.len()
            &&& text.take(name.len() as int) == name
            &&& text.skip(text.len() - " "@.len() - size.len()) == size + " "@
        }),
{
    let text = file_text(entry, width);
    let sign = crate::overlay::file_sign(entry);
    let name = " "@ + sign + entry.name;
    let size = crate::overlay::file_size(entry);
    assert(text.take(name.len() as int) =~= name);
    assert(text.skip(text.len() - " "@.len() - size.len()) =~= size + " "@);
}

/// The list shows the lines that pass one below another, the chosen one among them; only it
/// stands on a ground. Where there is a reason for no list, the reason is shown.
pub proof fn law_list_is_drawn(browser: BrowserView, width: int, height: int)
    requires
        height >= 1,
    ensures
        ({
            let lines = list_lines(browser, width, height);
            let shown = browser.shown();
            let at = browser.selected as int;
            let start = if at >= height {
                at - height + 1
            } else {
                0
            };
            &&& !browser.loading && browser.error is Some ==> lines.len() == 1 && reads(
                lines[0].spans[0],
                " "@ + browser.error->0,
            )
            &&& !browser.loading && browser.error is None && at < shown.len() ==> {
                &&& lines.len() == if shown.len() - start < height {
                    shown.len() - start
                } else {
                    height
                }
                &&& forall|row: int|
                    0 <= row < lines.len() ==> {
                        &&& reads(
                            (#[trigger] lines[row]).spans[0],
                            file_text(shown[start + row], width),
                        )
                        &&& lines[row].spans[0].back is Some <==> start + row == at
                    }
            }
        }),
{
}

/// Of the rooms seven are seen at once, the chosen one among them, and it is pointed at.
pub proof fn law_rooms_are_drawn(login: LoginView, width: int)
    requires
        login.rooms.len() <= usize::MAX,
        login.rooms_selected matches Some(i) ==> i < login.rooms.len(),
    ensures
        ({
            let lines = rooms_seen(login, width);
            let start: int = match login.rooms_selected {
                Some(i) => if i >= 7 {
                    i - 6
                } else {
                    0
                },
                None => 0,
            };
            &&& lines.len() == if login.rooms.len() - start < 7 {
                login.rooms.len() - start
            } else {
                7
            }
            &&& forall|row: int|
                0 <= row < lines.len() ==> names_room(
                    #[trigger] lines[row],
                    login.rooms[start + row].name,
                    login.rooms_selected == Some((start + row) as usize),
                    width,
                )
        }),
{
    let lines = rooms_seen(login, width);
    let start: int = match login.rooms_selected {
        Some(i) => if i >= 7 {
            i - 6
        } else {
            0
        },
        None => 0,
    };
    assert forall|row: int| 0 <= row < lines.len() implies names_room(
        #[trigger] lines[row],
        login.rooms[start + row].name,
        login.rooms_selected == Some((start + row) as usize),
        width,
    ) by {
        assert(lines[row] == crate::front::room_line(
            login.rooms[start + row],
            login.rooms_selected == Some((start + row) as usize),
            width,
        ));
    }
}

/// Whether a line names a room, and points at it where it is the chosen one.
pub open spec fn names_room(line: LineView, name: Seq<char>, chosen: bool, width: int) -> bool {
    &&& reads(
        line.spans[0],
        if chosen {
            "❯ "@
        } else {
            "  "@
        },
    )
    &&& reads(
        line.spans[1],
        shortened(
            name,
            if width > 10 {
                width - 10
            } else {
                0
            },
        ),
    )
    &&& line.spans[1].bold == chosen
}

} // verus!
