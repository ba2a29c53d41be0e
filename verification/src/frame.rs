//! Where things stand on the screen: areas, and a strip of tabs over a frame.
use crate::paper::{
    cells_left, painted, painted_span, pill, pill_span, repeat, repeated, room_after, toned,
    toned_span, Paint, PaintView, Span, SpanView, Tone,
};
use crate::text::{glue3};
use crate::width::{text_width, width_of};
use vstd::prelude::*;
use vstd::string::*;

verus! {

/// A part of the screen.
#[derive(Debug, Clone, Copy, PartialEq, Eq, Structural)]
pub struct Area {
    pub x: u16,
    pub y: u16,
    pub width: u16,
    pub height: u16,
}

/// The lesser of two numbers.
pub open spec fn lesser(a: int, b: int) -> int {
    if a < b {
        a
    } else {
        b
    }
}

/// What is left of a number, at least nothing.
pub open spec fn taken_off(a: int, b: int) -> int {
    if a > b {
        a - b
    } else {
        0
    }
}

/// The lesser of two lengths.
pub fn min_of(a: u16, b: u16) -> (r: u16)
    ensures
        r == lesser(a as int, b as int),
{
    if a < b {
        a
    } else {
        b
    }
}

/// What is left of a length.
pub fn minus(a: u16, b: u16) -> (r: u16)
    ensures
        r == taken_off(a as int, b as int),
{
    if a > b {
        a - b
    } else {
        0
    }
}

impl Area {
    /// The area ends within the numbers of the screen.
    pub open spec fn wf(self) -> bool {
        &&& self.x + self.width <= u16::MAX
        &&& self.y + self.height <= u16::MAX
    }

    /// A part of the area in its middle, no larger than the area itself.
    pub open spec fn middle(self, width: int, height: int) -> Area {
        let w = lesser(width, self.width as int);
        let h = lesser(height, self.height as int);
        Area {
            x: (self.x + (self.width - w) / 2) as u16,
            y: (self.y + (self.height - h) / 2) as u16,
            width: w as u16,
            height: h as u16,
        }
    }

    /// What a frame leaves of the area.
    pub open spec fn inside(self) -> Area {
        Area {
            x: if self.width > 0 {
                (self.x + 1) as u16
            } else {
                self.x
            },
            y: if self.height > 0 {
                (self.y + 1) as u16
            } else {
                self.y
            },
            width: taken_off(self.width as int, 2) as u16,
            height: taken_off(self.height as int, 2) as u16,
        }
    }

    /// The area without so many rows above.
    pub open spec fn below(self, rows: int) -> Area {
        Area { y: (self.y + rows) as u16, height: (self.height - rows) as u16, ..self }
    }

    /// What a frame leaves of the area.
    pub fn within(self) -> (r: Area)
        requires
            self.wf(),
        ensures
            r == self.inside(),
            r.wf(),
    {
        Area {
            x: if self.width > 0 {
                self.x + 1
            } else {
                self.x
            },
            y: if self.height > 0 {
                self.y + 1
            } else {
                self.y
            },
            width: minus(self.width, 2),
            height: minus(self.height, 2),
        }
    }
}

/// A part of an area in its middle.
pub fn centered(area: Area, width: u16, height: u16) -> (r: Area)
    requires
        area.wf(),
    ensures
        r == area.middle(width as int, height as int),
        r.wf(),
{
    let width: u16 = min_of(width, area.width);
    let height: u16 = min_of(height, area.height);
    Area {
        x: area.x + (area.width - width) / 2,
        y: area.y + (area.height - height) / 2,
        width,
        height,
    }
}

/// A tab: its sign and its name.
#[derive(Debug, Clone, Copy)]
pub struct Tab {
    pub icon: &'static str,
    pub title: &'static str,
}

pub struct TabView {
    pub icon: Seq<char>,
    pub title: Seq<char>,
}

impl DeepView for Tab {
    type V = TabView;

    open spec fn deep_view(&self) -> TabView {
        TabView { icon: self.icon@, title: self.title@ }
    }
}

/// What is written on a tab.
pub open spec fn tab_label(tab: TabView) -> Seq<char> {
    " "@ + tab.icon + " "@ + tab.title + " "@
}

/// How many cells the tabs take side by side, with the room around them.
pub open spec fn tabs_width(tabs: Seq<TabView>) -> int
    decreases tabs.len(),
{
    if tabs.len() == 0 {
        3
    } else {
        tabs_width(tabs.drop_last()) + text_width(tab_label(tabs.last())) + 2 + if tabs.len() > 1 {
            1int
        } else {
            0
        }
    }
}

/// Whether the tabs can have frames.
pub open spec fn tabs_fit(area: Area, tabs: Seq<TabView>) -> bool {
    area.height >= 3 && area.width >= 8 && tabs_width(tabs) <= area.width
}

/// The colour of the frame of a tab.
pub open spec fn edge_tone(at: int, active: int) -> Tone {
    if at == active {
        Tone::Primary
    } else {
        Tone::Line
    }
}

/// The room between two tabs.
pub open spec fn with_gap(spans: Seq<SpanView>, at: int, gap: Seq<char>) -> Seq<SpanView> {
    if at > 0 {
        spans.push(toned_span(gap, Tone::Line))
    } else {
        spans
    }
}

/// The upper row of the tabs.
pub open spec fn tops_of(tabs: Seq<TabView>, active: int) -> Seq<SpanView>
    decreases tabs.len(),
{
    if tabs.len() == 0 {
        seq![toned_span("  "@, Tone::Line)]
    } else {
        let at = tabs.len() - 1;
        with_gap(tops_of(tabs.drop_last(), active), at, " "@).push(
            toned_span(
                "╭"@ + repeated("─"@, text_width(tab_label(tabs.last())) as nat) + "╮"@,
                edge_tone(at, active),
            ),
        )
    }
}

/// The row with the names of the tabs.
pub open spec fn names_of(tabs: Seq<TabView>, active: int) -> Seq<SpanView>
    decreases tabs.len(),
{
    if tabs.len() == 0 {
        seq![toned_span("  "@, Tone::Line)]
    } else {
        let at = tabs.len() - 1;
        let edge = toned_span("│"@, edge_tone(at, active));
        with_gap(names_of(tabs.drop_last(), active), at, " "@).push(edge).push(
            if at == active {
                painted_span(tab_label(tabs.last()), PaintView::Gradient)
            } else {
                toned_span(tab_label(tabs.last()), Tone::Muted)
            },
        ).push(edge)
    }
}

/// The row where the tabs meet the frame: the chosen one opens into it.
pub open spec fn seam_of(tabs: Seq<TabView>, active: int) -> Seq<SpanView>
    decreases tabs.len(),
{
    if tabs.len() == 0 {
        seq![toned_span("╭─"@, Tone::Line)]
    } else {
        let at = tabs.len() - 1;
        let width = text_width(tab_label(tabs.last())) as nat;
        let before = with_gap(seam_of(tabs.drop_last(), active), at, "─"@);
        if at == active {
            before.push(toned_span("╯"@, Tone::Primary)).push(
                toned_span(repeated(" "@, width), Tone::Line),
            ).push(toned_span("╰"@, Tone::Primary))
        } else {
            before.push(toned_span("┴"@ + repeated("─"@, width) + "┴"@, Tone::Line))
        }
    }
}

/// The whole row where the tabs meet the frame.
pub open spec fn whole_seam(tabs: Seq<TabView>, active: int, width: int) -> Seq<SpanView> {
    let seam = seam_of(tabs, active);
    seam.push(toned_span(repeated("─"@, cells_left(width - 1, seam) as nat), Tone::Line)).push(
        toned_span("╮"@, Tone::Line),
    )
}

/// Whether the chosen tab can be named in a narrow window.
pub open spec fn name_fits(tabs: Seq<TabView>, active: int, width: int) -> bool {
    text_width(tab_label(tabs[active])) + 2 + (tabs.len() - 1) * 2 <= width
}

/// The tabs of a narrow window: one row of signs. Only the chosen one is named.
pub open spec fn signs_of(all: Seq<TabView>, count: nat, active: int, width: int) -> Seq<SpanView>
    decreases count,
{
    if count == 0 {
        Seq::empty()
    } else {
        let at = count - 1;
        let before = with_gap(signs_of(all, (count - 1) as nat, active, width), at, " "@);
        before.push(
            if at == active {
                pill_span(
                    if name_fits(all, active, width) {
                        tab_label(all[active])
                    } else {
                        all[active].icon
                    },
                    Tone::Primary,
                    Tone::Ink,
                )
            } else {
                toned_span(all[at].icon, Tone::Muted)
            },
        )
    }
}

/// A strip of tabs.
pub enum Strip {
    /// Three rows; the frame stands below the second.
    Framed { tops: Vec<Span>, names: Vec<Span>, seam: Vec<Span> },
    /// One row and no frame.
    Signs { row: Vec<Span> },
    /// There is no room at all.
    Nothing,
}

pub enum StripView {
    Framed { tops: Seq<SpanView>, names: Seq<SpanView>, seam: Seq<SpanView> },
    Signs { row: Seq<SpanView> },
    Nothing,
}

impl DeepView for Strip {
    type V = StripView;

    open spec fn deep_view(&self) -> StripView {
        match self {
            Strip::Framed { tops, names, seam } => StripView::Framed {
                tops: tops.deep_view(),
                names: names.deep_view(),
                seam: seam.deep_view(),
            },
            Strip::Signs { row } => StripView::Signs { row: row.deep_view() },
            Strip::Nothing => StripView::Nothing,
        }
    }
}

/// The strip of tabs over an area, and what it leaves for what the tab holds.
pub open spec fn strip_of(area: Area, tabs: Seq<TabView>, active: int) -> (StripView, Area) {
    if tabs_fit(area, tabs) {
        (
            StripView::Framed {
                tops: tops_of(tabs, active),
                names: names_of(tabs, active),
                seam: whole_seam(tabs, active, area.width as int),
            },
            area.below(2).inside(),
        )
    } else if area.height == 0 || area.width == 0 {
        (StripView::Nothing, area)
    } else {
        (
            StripView::Signs { row: signs_of(tabs, tabs.len(), active, area.width as int) },
            area.below(1),
        )
    }
}

fn make_label(tab: &Tab) -> (r: String)
    ensures
        r@ == tab_label(tab.deep_view()),
{
    let mut r = glue3(" ", tab.icon, " ");
    r.append(tab.title);
    r.append(" ");
    r
}

proof fn lemma_tabs_width_grows(tabs: Seq<TabView>, k: int)
    requires
        0 <= k <= tabs.len(),
    ensures
        tabs_width(tabs.take(k)) <= tabs_width(tabs),
    decreases tabs.len(),
{
    if k < tabs.len() {
        lemma_tabs_width_grows(tabs.drop_last(), k);
        assert(tabs.drop_last().take(k) =~= tabs.take(k));
    } else {
        assert(tabs.take(k) =~= tabs);
    }
}

/// Whether the tabs fit into a width side by side.
#[verifier::loop_isolation(false)]
fn side_by_side_fit(tabs: &Vec<Tab>, width: usize) -> (r: bool)
    requires
        width >= 3,
    ensures
        r == (tabs_width(tabs.deep_view()) <= width),
{
    let ghost all = tabs.deep_view();
    let mut room: usize = width - 3;
    let mut i: usize = 0;
    assert(all.len() == tabs@.len());
    assert(all.take(0) =~= Seq::<TabView>::empty());
    while i < tabs.len()
        invariant
            i <= tabs@.len(),
            room == width - tabs_width(all.take(i as int)),
        decreases tabs@.len() - i,
    {
        proof {
            assert(all[i as int] == tabs@[i as int].deep_view());
            assert(all.take(i + 1).drop_last() =~= all.take(i as int));
            assert(all.take(i + 1).last() == all[i as int]);
            lemma_tabs_width_grows(all, i + 1);
        }
        let extra: usize = if i > 0 {
            3
        } else {
            2
        };
        let label = make_label(&tabs[i]);
        let w: usize = width_of(label.as_str());
        if w > room || room - w < extra {
            return false;
        }
        room = room - w - extra;
        i = i + 1;
    }
    assert(all.take(all.len() as int) =~= all);
    true
}

/// Adds the gap before a tab.
fn push_gap(spans: &mut Vec<Span>, at: usize, gap: &str)
    ensures
        final(spans).deep_view() == with_gap(old(spans).deep_view(), at as int, gap@),
{
    let ghost before = spans.deep_view();
    if at > 0 {
        spans.push(toned(gap, Tone::Line));
        assert(spans.deep_view() =~= before.push(toned_span(gap@, Tone::Line)));
    }
}

/// Adds a piece.
fn put(spans: &mut Vec<Span>, span: Span)
    ensures
        final(spans).deep_view() == old(spans).deep_view().push(span.deep_view()),
{
    let ghost before = spans.deep_view();
    let ghost view = span.deep_view();
    spans.push(span);
    assert(spans.deep_view() =~= before.push(view));
}

/// The row where a tab meets the frame.
fn put_seam(seam: &mut Vec<Span>, width: usize, at: usize, chosen: bool)
    ensures
        final(seam).deep_view() == ({
            let before = with_gap(old(seam).deep_view(), at as int, "─"@);
            if chosen {
                before.push(toned_span("╯"@, Tone::Primary)).push(
                    toned_span(repeated(" "@, width as nat), Tone::Line),
                ).push(toned_span("╰"@, Tone::Primary))
            } else {
                before.push(
                    toned_span("┴"@ + repeated("─"@, width as nat) + "┴"@, Tone::Line),
                )
            }
        }),
{
    push_gap(seam, at, "─");
    if chosen {
        put(seam, toned("╯", Tone::Primary));
        put(seam, toned(repeat(" ", width).as_str(), Tone::Line));
        put(seam, toned("╰", Tone::Primary));
    } else {
        put(
            seam,
            toned(glue3("┴", repeat("─", width).as_str(), "┴").as_str(), Tone::Line),
        );
    }
}

/// The three rows of the tabs.
#[verifier::loop_isolation(false)]
fn make_rows(tabs: &Vec<Tab>, active: usize, width: usize) -> (r: (Vec<Span>, Vec<Span>, Vec<Span>))
    requires
        width >= 1,
    ensures
        r.0.deep_view() == tops_of(tabs.deep_view(), active as int),
        r.1.deep_view() == names_of(tabs.deep_view(), active as int),
        r.2.deep_view() == whole_seam(tabs.deep_view(), active as int, width as int),
{
    let ghost all = tabs.deep_view();
    let mut tops: Vec<Span> = Vec::new();
    let mut names: Vec<Span> = Vec::new();
    let mut seam: Vec<Span> = Vec::new();
    tops.push(toned("  ", Tone::Line));
    names.push(toned("  ", Tone::Line));
    seam.push(toned("╭─", Tone::Line));
    let mut i: usize = 0;
    assert(all.len() == tabs@.len());
    assert(all.take(0) =~= Seq::<TabView>::empty());
    assert(tops.deep_view() =~= tops_of(all.take(0), active as int));
    assert(names.deep_view() =~= names_of(all.take(0), active as int));
    assert(seam.deep_view() =~= seam_of(all.take(0), active as int));
    while i < tabs.len()
        invariant
            i <= tabs@.len(),
            tops.deep_view() == tops_of(all.take(i as int), active as int),
            names.deep_view() == names_of(all.take(i as int), active as int),
            seam.deep_view() == seam_of(all.take(i as int), active as int),
        decreases tabs@.len() - i,
    {
        proof {
            assert(all[i as int] == tabs@[i as int].deep_view());
            assert(all.take(i + 1).drop_last() =~= all.take(i as int));
            assert(all.take(i + 1).last() == all[i as int]);
        }
        let label = make_label(&tabs[i]);
        let w: usize = width_of(label.as_str());
        let chosen = i == active;
        let edge = if chosen {
            Tone::Primary
        } else {
            Tone::Line
        };
        push_gap(&mut tops, i, " ");
        put(&mut tops, toned(glue3("╭", repeat("─", w).as_str(), "╮").as_str(), edge));
        push_gap(&mut names, i, " ");
        put(&mut names, toned("│", edge));
        put(
            &mut names,
            if chosen {
                painted(label.as_str(), Paint::Gradient)
            } else {
                toned(label.as_str(), Tone::Muted)
            },
        );
        put(&mut names, toned("│", edge));
        put_seam(&mut seam, w, i, chosen);
        i = i + 1;
    }
    assert(all.take(all.len() as int) =~= all);
    let rest: usize = room_after(width - 1, &seam);
    put(&mut seam, toned(repeat("─", rest).as_str(), Tone::Line));
    put(&mut seam, toned("╮", Tone::Line));
    (tops, names, seam)
}

/// Whether the chosen tab can be named in a narrow window.
fn can_name(tabs: &Vec<Tab>, active: usize, width: usize) -> (r: bool)
    requires
        active < tabs@.len(),
    ensures
        r == name_fits(tabs.deep_view(), active as int, width as int),
{
    assert(tabs.deep_view()[active as int] == tabs@[active as int].deep_view());
    let w: usize = width_of(make_label(&tabs[active]).as_str());
    w <= width && width - w >= 2 && tabs.len() - 1 <= (width - w - 2) / 2
}

/// The tabs of a narrow window.
#[verifier::loop_isolation(false)]
fn make_signs(tabs: &Vec<Tab>, active: usize, width: usize) -> (r: Vec<Span>)
    requires
        active < tabs@.len(),
    ensures
        r.deep_view() == signs_of(
            tabs.deep_view(),
            tabs@.len(),
            active as int,
            width as int,
        ),
{
    let ghost all = tabs.deep_view();
    let named = can_name(tabs, active, width);
    let mut row: Vec<Span> = Vec::new();
    let mut i: usize = 0;
    assert(row.deep_view() =~= signs_of(all, 0, active as int, width as int));
    while i < tabs.len()
        invariant
            i <= tabs@.len(),
            row.deep_view() == signs_of(all, i as nat, active as int, width as int),
        decreases tabs@.len() - i,
    {
        assert(all[i as int] == tabs@[i as int].deep_view());
        push_gap(&mut row, i, " ");
        put(
            &mut row,
            if i != active {
                toned(tabs[i].icon, Tone::Muted)
            } else if named {
                pill(make_label(&tabs[i]).as_str(), Tone::Primary, Tone::Ink)
            } else {
                pill(tabs[i].icon, Tone::Primary, Tone::Ink)
            },
        );
        i = i + 1;
    }
    row
}

/// Lays a strip of tabs over an area. The chosen tab is open below: it flows into the
/// frame, and the eye sees which of them is shown. Where the tabs do not fit, one row
/// of signs is left.
pub fn tabbed(area: Area, tabs: &Vec<Tab>, active: usize) -> (r: (Strip, Area))
    requires
        area.wf(),
        tabs_fit(area, tabs.deep_view()) || area.height == 0 || area.width == 0 || active
            < tabs@.len(),
    ensures
        r.0.deep_view() == strip_of(area, tabs.deep_view(), active as int).0,
        r.1 == strip_of(area, tabs.deep_view(), active as int).1,
        r.1.wf(),
{
    assert(tabs.deep_view().len() == tabs@.len());
    if area.height >= 3 && area.width >= 8 && side_by_side_fit(tabs, area.width as usize) {
        let (tops, names, seam) = make_rows(tabs, active, area.width as usize);
        let body = Area { y: area.y + 2, height: area.height - 2, ..area };
        return (Strip::Framed { tops, names, seam }, body.within());
    }
    if area.height == 0 || area.width == 0 {
        return (Strip::Nothing, area);
    }
    let row = make_signs(tabs, active, area.width as usize);
    (Strip::Signs { row }, Area { y: area.y + 1, height: area.height - 1, ..area })
}

} // verus!
