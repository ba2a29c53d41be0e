//! How texts and windows are measured for the screen.
use crate::frame::Area;
use crate::help::{help_page, help_sheet};
use crate::home::{Setting, SoundSetting};
use crate::input::InputView;
use crate::paper::{hint_spans, SpanView};
use crate::screen_laws::reads;
use crate::state::StateView;
use crate::text::{begins, decimal};
use crate::web_laws::is_host;
use crate::width::{
    cells, field_shown, fitting, label_of, shortened_left, sized, split_point, tail_fitting,
    tail_within, text_width, without_prefix, without_suffix,
};
use vstd::prelude::*;

verus! {

/// A field shows a part of its text, and the cursor at its place. As long as there is room
/// in front of the cursor the text is shown from its beginning, and a text for which there
/// is room is shown whole.
pub proof fn law_field_shows_its_text(input: InputView, width: int)
    requires
        input.wf(),
        width >= 1,
        input.text.len() > 0 ==> cells(input.text[0]) > 0,
    ensures
        ({
            let (shown, column) = field_shown(input, width);
            let before = text_width(input.text.take(input.cursor)) as int;
            &&& is_part(input.text, shown)
            &&& before < width ==> column == before && shown.len() <= input.text.len() && shown
                == input.text.take(shown.len() as int)
            &&& before >= width ==> column == width - 1
            &&& before < width && fitting(input.text, width) == input.text.len() ==> shown
                == input.text
        }),
{
    let (shown, column) = field_shown(input, width);
    let text = input.text;
    let before = text_width(text.take(input.cursor)) as int;
    let offset = if before > width - 1 {
        before - (width - 1)
    } else {
        0
    };
    let a = split_point(text, offset);
    crate::width::lemma_fitting(text, offset);
    crate::width::lemma_fitting(text, width);
    let rest = text.skip(a);
    crate::width::lemma_fitting(rest, width);
    let b = split_point(rest, width);
    assert(shown == rest.take(b));
    assert(shown =~= text.subrange(a, a + b));
    if offset == 0 {
        assert(a == 0);
        assert(rest =~= text);
        assert(shown =~= text.take(b));
    }
}

/// Whether a text is a part of another one, as it stands there.
pub open spec fn is_part(text: Seq<char>, part: Seq<char>) -> bool {
    exists|a: int| 0 <= a <= text.len() - part.len() && #[trigger] text.subrange(
        a,
        a + part.len(),
    ) == part
}

/// A long path is shown by its end: an ellipsis stands for what is left out, and what is
/// shown is as long as there is room for.
pub proof fn law_end_of_a_path_is_shown(s: Seq<char>, width: int)
    requires
        width >= 2,
    ensures
        text_width(s) <= width ==> shortened_left(s, width) == s,
        text_width(s) > width ==> {
            let k = shortened_left(s, width).len() - "…"@.len();
            &&& 0 <= k <= s.len()
            &&& shortened_left(s, width) == "…"@ + s.skip(s.len() - k)
            &&& forall|j: int|
                k < j <= tail_fitting(s, 0, width) ==> text_width(
                    "…"@ + #[trigger] s.skip(s.len() - j),
                ) > width
        },
{
    lemma_tail_fitting(s, 0, width);
    lemma_tail_within(s, tail_fitting(s, 0, width), width);
}

proof fn lemma_tail_fitting(s: Seq<char>, taken: int, width: int)
    requires
        0 <= taken <= s.len(),
    ensures
        taken <= tail_fitting(s, taken, width) <= s.len(),
    decreases s.len() - taken,
{
    if taken < s.len() && text_width(s.skip(s.len() - taken)) + cells(
        s[s.len() - taken - 1],
    ) + 1 <= width {
        lemma_tail_fitting(s, taken + 1, width);
    }
}

proof fn lemma_tail_within(s: Seq<char>, most: int, width: int)
    requires
        0 <= most <= s.len(),
    ensures
        0 <= tail_within(s, most, width) <= most,
        forall|j: int|
            tail_within(s, most, width) < j <= most ==> text_width(
                "…"@ + #[trigger] s.skip(s.len() - j),
            ) > width,
    decreases most,
{
    if most > 0 && text_width("…"@ + s.skip(s.len() - most)) > width {
        lemma_tail_within(s, most - 1, width);
    }
}

/// A size is written in bytes below a kilobyte, in whole kilobytes below a megabyte, and
/// above in megabytes with one digit behind the comma; it is never written larger than it
/// is.
pub proof fn law_sizes_are_rounded_down(bytes: nat)
    ensures
        bytes < 1024 ==> sized(bytes) == decimal(bytes) + " Б"@,
        1024 <= bytes < 1048576 ==> exists|k: nat|
            k * 1024 <= bytes < (k + 1) * 1024 && sized(bytes) == #[trigger] decimal(k) + " КБ"@,
        bytes >= 1048576 ==> exists|m: nat, tenth: nat|
            tenth <= 9 && m * 1048576 + tenth * 1048576 / 10 <= bytes < m * 1048576 + (tenth + 1)
                * 1048576 / 10 + 1 && sized(bytes) == #[trigger] decimal(m) + ","@
                + #[trigger] decimal(tenth) + " МБ"@,
{
    if 1024 <= bytes < 1048576 {
        let k = bytes / 1024;
        assert(sized(bytes) == decimal(k) + " КБ"@);
    } else if bytes >= 1048576 {
        let m = bytes / 1048576;
        let tenth = (bytes % 1048576) * 10 / 1048576;
        assert(sized(bytes) == decimal(m) + ","@ + decimal(tenth) + " МБ"@);
    }
}

/// Of the address of a server its host is shown, without the way of connecting and the path
/// of the socket.
pub proof fn law_server_is_shown_by_its_host(host: Seq<char>)
    requires
        is_host(host),
    ensures
        label_of(host) == host,
        label_of("ws://"@ + (host + "/ws"@)) == host,
        label_of("wss://"@ + (host + "/ws"@)) == host,
{
    reveal_strlit("wss://");
    reveal_strlit("ws://");
    reveal_strlit("/ws");
    let whole = host + "/ws"@;
    crate::web_laws::lemma_no_slash(host, "/ws"@);
    assert(whole.subrange(host.len() as int, host.len() as int + 3) =~= "/ws"@);
    assert(whole.take(host.len() as int) =~= host);
    assert(without_suffix(whole, "/ws"@) == host);
    crate::web_laws::lemma_plain_host(host);
    lemma_no_way(host);
    let a = "ws://"@ + whole;
    let b = "wss://"@ + whole;
    assert(a.subrange(0, 5) =~= "ws://"@);
    assert(b.subrange(0, 6) =~= "wss://"@);
    assert(a.skip(5) =~= whole);
    assert(b.skip(6) =~= whole);
    if begins(a, "wss://"@) {
        assert(a.subrange(0, 6)[2] == "wss://"@[2]);
    }
    assert(without_prefix(whole, "wss://"@) == whole);
    assert(without_prefix(whole, "ws://"@) == whole);
    assert(without_prefix(a, "wss://"@) == a);
    assert(without_prefix(a, "ws://"@) == whole);
    assert(without_prefix(b, "wss://"@) == whole);
}

proof fn lemma_no_way(host: Seq<char>)
    requires
        is_host(host),
    ensures
        !begins(host + "/ws"@, "wss://"@),
        !begins(host + "/ws"@, "ws://"@),
{
    reveal_strlit("wss://");
    reveal_strlit("ws://");
    reveal_strlit("/ws");
    let s = host + "/ws"@;
    if begins(s, "wss://"@) {
        let p = s.subrange(0, 6);
        assert(p[4] == '/' && p[5] == '/');
        assert(s[4] == p[4] && s[5] == p[5]);
        if host.len() > 4 {
            assert(s[4] == host[4]);
        } else if host.len() == 4 {
            assert(s[5] == 'w');
        } else {
            assert(s[host.len() as int] == '/');
            assert(s[host.len() as int] == p[host.len() as int]);
        }
    }
    if begins(s, "ws://"@) {
        let p = s.subrange(0, 5);
        assert(p[3] == '/' && p[4] == '/');
        assert(s[3] == p[3] && s[4] == p[4]);
        if host.len() > 3 {
            assert(s[3] == host[3]);
        } else if host.len() == 3 {
            assert(s[4] == 'w');
        } else {
            assert(s[host.len() as int] == '/');
            assert(s[host.len() as int] == p[host.len() as int]);
        }
    }
}

/// A window stands in the middle of its area and inside it, as large as it is asked to be
/// where there is room; its frame takes one cell on each side.
pub proof fn law_window_stands_in_the_middle(area: Area, width: int, height: int)
    requires
        area.wf(),
        width >= 0,
        height >= 0,
    ensures
        ({
            let w = area.middle(width, height);
            let left = w.x - area.x;
            let right = area.x + area.width - (w.x + w.width);
            let above = w.y - area.y;
            let below = area.y + area.height - (w.y + w.height);
            &&& width <= area.width ==> w.width == width
            &&& width > area.width ==> w.width == area.width
            &&& height <= area.height ==> w.height == height
            &&& height > area.height ==> w.height == area.height
            &&& 0 <= left <= right <= left + 1
            &&& 0 <= above <= below <= above + 1
        }),
        area.width >= 2 && area.height >= 2 ==> {
            let inner = area.inside();
            &&& inner.x == area.x + 1 && inner.y == area.y + 1
            &&& inner.width == area.width - 2 && inner.height == area.height - 2
        },
{
}

/// The help is shown from the line to which it was scrolled, and no further than to where
/// its end is seen.
pub proof fn law_help_is_shown(area: Area, scroll: int)
    requires
        area.wf(),
        scroll >= 0,
    ensures
        ({
            let page = help_page();
            let sheet = help_sheet(area, scroll);
            let rows = if sheet.area.height > 2 {
                sheet.area.height - 2
            } else {
                0
            };
            &&& sheet.lines.len() <= page.len()
            &&& sheet.lines == page.skip(page.len() - sheet.lines.len())
            &&& page.len() <= rows ==> sheet.lines == page
            &&& page.len() > rows && scroll <= page.len() - rows ==> sheet.lines.len()
                == page.len() - scroll
            &&& page.len() > rows && scroll > page.len() - rows ==> sheet.lines.len() == rows
        }),
{
    let page = help_page();
    let sheet = help_sheet(area, scroll);
    assert(page.skip(0) =~= page);
    assert(sheet.lines =~= page.skip(page.len() - sheet.lines.len()));
}

/// In a row of hints every key is shown with what it does, in their order.
pub proof fn law_hints_show_their_keys(pairs: Seq<(Seq<char>, Seq<char>)>)
    ensures
        pairs.len() > 0 ==> hint_spans(pairs).len() == 3 * pairs.len() - 1,
        pairs.len() == 0 ==> hint_spans(pairs).len() == 0,
        forall|i: int|
            0 <= i < pairs.len() ==> shows_pair(hint_spans(pairs), i, #[trigger] pairs[i]),
    decreases pairs.len(),
{
    if pairs.len() > 0 {
        let d = pairs.drop_last();
        law_hints_show_their_keys(d);
        let before = hint_spans(d);
        let all = hint_spans(pairs);
        assert forall|i: int| 0 <= i < pairs.len() implies shows_pair(
            all,
            i,
            #[trigger] pairs[i],
        ) by {
            if i < d.len() {
                assert(d[i] == pairs[i]);
                assert(shows_pair(before, i, d[i]));
                assert(all[3 * i] == before[3 * i]);
                assert(all[3 * i + 1] == before[3 * i + 1]);
            }
        }
    }
}

/// Whether a key and what it does stand in a row of hints, at the place of the pair.
pub open spec fn shows_pair(
    spans: Seq<SpanView>,
    i: int,
    pair: (Seq<char>, Seq<char>),
) -> bool {
    &&& 3 * i + 1 < spans.len()
    &&& reads(spans[3 * i], pair.0)
    &&& reads(spans[3 * i + 1], " "@ + pair.1)
}

/// The words for the value of a setting tell its values apart.
pub proof fn law_words_tell_values_apart(a: StateView, b: StateView)
    ensures
        a.setting_words(Setting::Images) == b.setting_words(Setting::Images) <==> a.images_choice
            == b.images_choice,
        a.setting_words(Setting::Sidebar) == b.setting_words(Setting::Sidebar) <==> a.sidebar
            == b.sidebar,
        a.setting_words(Setting::Terminal) == b.setting_words(Setting::Terminal)
            <==> a.terminal_mode == b.terminal_mode,
        a.sound_words(SoundSetting::Chime) == b.sound_words(SoundSetting::Chime) <==> a.audio.chime
            == b.audio.chime,
        a.audio.output is Some ==> a.sound_words(SoundSetting::Output) == a.audio.output->0,
        a.audio.input is Some ==> a.sound_words(SoundSetting::Input) == a.audio.input->0,
{
    reveal_strlit("авто");
    reveal_strlit("показывать");
    reveal_strlit("не надо");
    reveal_strlit("спрятана");
    reveal_strlit("всегда");
    reveal_strlit("никогда");
    reveal_strlit("включён");
    reveal_strlit("выключен");
    assert("авто"@.len() == 4);
    assert("показывать"@.len() == 10);
    assert("не надо"@.len() == 7);
    assert("спрятана"@.len() == 8);
    assert("всегда"@.len() == 6);
    assert("никогда"@.len() == 7);
    assert("включён"@.len() == 7);
    assert("выключен"@.len() == 8);
}

} // verus!
