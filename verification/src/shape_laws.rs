//! What drawings show: voices as bars, pictures as cells, columns side by side.
use crate::home::{kept_device, next_device};
use crate::paper::{dot_spans, in_columns, LineView, PaintView, PieceView};
use crate::picture::{cell_lines, PictureView};
use crate::seqs::lemma_first_where;
use crate::text::{decimal, trimmed};
use crate::wave::{at_least, at_most, drawn, highest, loudness, peak, peaks, Chunks};
use vstd::prelude::*;

verus! {

/// How far a sample of a sound is from silence, by its number.
pub open spec fn loud(bytes: Seq<u8>, from: int, k: int) -> int {
    let n = bytes[from + 2 * k] + 256 * bytes[from + 2 * k + 1];
    if n < 32768 {
        n
    } else {
        65536 - n
    }
}

/// How many samples one bar stands for.
pub open spec fn per_bar(count: int) -> int {
    if count / 28 > 1 {
        count / 28
    } else {
        1
    }
}

proof fn lemma_peak(bytes: Seq<u8>, from: int, a: int, b: int)
    requires
        0 <= a <= b,
    ensures
        forall|k: int|
            a <= k < b ==> #[trigger] loud(bytes, from, k) <= peak(
                bytes,
                from + 2 * a,
                from + 2 * b,
            ),
        peak(bytes, from + 2 * a, from + 2 * b) == 0 || exists|k: int|
            a <= k < b && #[trigger] loud(bytes, from, k) == peak(
                bytes,
                from + 2 * a,
                from + 2 * b,
            ),
        peak(bytes, from + 2 * a, from + 2 * b) >= 0,
    decreases b - a,
{
    if a < b {
        lemma_peak(bytes, from, a + 1, b);
        let here = loudness(bytes[from + 2 * a], bytes[from + 2 * a + 1]);
        assert(here == loud(bytes, from, a));
        let rest = peak(bytes, from + 2 * (a + 1), from + 2 * b);
        assert(from + 2 * (a + 1) == from + 2 * a + 2);
        assert(peak(bytes, from + 2 * a, from + 2 * b) == at_least(rest, here));
    }
}

/// A last byte without its partner is no sample.
proof fn lemma_peak_odd(bytes: Seq<u8>, from: int, to: int)
    ensures
        (to - from) % 2 == 1 ==> peak(bytes, from, to) == peak(bytes, from, to - 1),
    decreases to - from,
{
    if from + 2 <= to {
        lemma_peak_odd(bytes, from + 2, to);
    }
}

/// The bars before they are scaled: the loudest sample of each stretch.
proof fn lemma_peaks_at(bytes: Seq<u8>, from: int, to: int, step: int, count: nat, w: int)
    requires
        step > 0,
        0 <= w < count,
        from + w * step < to,
    ensures
        w < peaks(bytes, from, to, step, count).len(),
        peaks(bytes, from, to, step, count)[w] == peak(
            bytes,
            from + w * step,
            at_most(from + w * step + step, to),
        ),
    decreases count,
{
    assert(w * step >= 0) by (nonlinear_arith)
        requires
            w >= 0,
            step > 0,
    ;
    let first = seq![peak(bytes, from, at_most(from + step, to))];
    let rest = peaks(bytes, from + step, to, step, (count - 1) as nat);
    assert(peaks(bytes, from, to, step, count) == first + rest);
    if w > 0 {
        assert((w - 1) * step == w * step - step) by (nonlinear_arith);
        lemma_peaks_at(bytes, from + step, to, step, (count - 1) as nat, w - 1);
        assert((first + rest)[w] == rest[w - 1]);
    }
}

proof fn lemma_highest(s: Seq<int>)
    ensures
        forall|i: int| 0 <= i < s.len() ==> #[trigger] s[i] <= highest(s),
        highest(s) == 1 || exists|i: int| 0 <= i < s.len() && #[trigger] s[i] == highest(s),
        highest(s) >= 1,
    decreases s.len(),
{
    if s.len() > 0 {
        let d = s.drop_first();
        lemma_highest(d);
        assert forall|i: int| 0 <= i < s.len() implies #[trigger] s[i] <= highest(s) by {
            if i > 0 {
                assert(d[i - 1] == s[i]);
            }
        }
        if highest(s) != 1 && highest(s) != s[0] {
            let i = choose|i: int| 0 <= i < d.len() && #[trigger] d[i] == highest(d);
            assert(s[i + 1] == highest(s));
        }
    }
}

/// Whether the loudest sample of a stretch has this loudness.
pub open spec fn is_top(bytes: Seq<u8>, from: int, a: int, b: int, top: int) -> bool {
    &&& forall|k: int| a <= k < b ==> #[trigger] loud(bytes, from, k) <= top
    &&& exists|k: int| a <= k < b && #[trigger] loud(bytes, from, k) == top
}

/// A bar is as tall as the loudest sample of its stretch is loud, measured by the loudest of
/// all: a silent stretch has no height, and twice as loud is not less tall. Where all the
/// samples are heard by as many bars as there are, the bars stand for equal stretches, one
/// after another.
pub proof fn law_bars_show_the_loudest(
    bytes: Seq<u8>,
    chunks: Chunks,
    from: usize,
    to: usize,
    w: int,
    top: int,
)
    requires
        chunks.data == Some((from, to)),
        chunks.bits == 16,
        from + 2 <= to,
        0 <= w < 28,
        (w + 1) * per_bar((to - from) / 2) <= (to - from) / 2,
        is_top(
            bytes,
            from as int,
            w * per_bar((to - from) / 2),
            (w + 1) * per_bar((to - from) / 2),
            top,
        ),
    ensures
        drawn(bytes, chunks) matches Some(wave) && w < wave.bars.len() && {
            &&& top == 0 ==> wave.bars[w] == 0
            &&& forall|v: int|
                0 <= v < wave.bars.len() && is_top_of(bytes, from as int, to as int, v, top)
                    ==> #[trigger] wave.bars[v] == wave.bars[w]
        },
        drawn(bytes, chunks) matches Some(wave) ==> wave.millis == ((to - from) / 2
            / chunks.channels as int * 1000 / chunks.rate as int) as u64,
{
    let n = (to - from) / 2;
    let per = per_bar(n);
    let step = 2 * per;
    let tops = peaks(bytes, from as int, to as int, 2 * at_least(n / 28, 1), 28);
    assert(2 * at_least(n / 28, 1) == step);
    lemma_bar(bytes, from as int, to as int, w, top);
    lemma_highest(tops);
    let wave = drawn(bytes, chunks)->0;
    assert(wave.bars.len() == tops.len());
    assert(wave.bars[w] == at_most(tops[w] * 8 / highest(tops), 8) as u8);
    if top == 0 {
        assert(0int * 8 / highest(tops) == 0) by (nonlinear_arith)
            requires
                highest(tops) >= 1,
        ;
    }
    assert forall|v: int|
        0 <= v < wave.bars.len() && is_top_of(
            bytes,
            from as int,
            to as int,
            v,
            top,
        ) implies #[trigger] wave.bars[v] == wave.bars[w] by {
        crate::wave::lemma_peaks(bytes, from as int, to as int, step, 28);
        lemma_bar(bytes, from as int, to as int, v, top);
        assert(wave.bars[v] == at_most(tops[v] * 8 / highest(tops), 8) as u8);
    }
}

/// Whether the stretch of a bar has this loudness.
pub open spec fn is_top_of(bytes: Seq<u8>, from: int, to: int, v: int, top: int) -> bool {
    let per = per_bar((to - from) / 2);
    &&& (v + 1) * per <= (to - from) / 2
    &&& is_top(bytes, from, v * per, (v + 1) * per, top)
}

proof fn lemma_bar(bytes: Seq<u8>, from: int, to: int, w: int, top: int)
    requires
        from + 2 <= to,
        0 <= w < 28,
        is_top_of(bytes, from, to, w, top),
    ensures
        ({
            let step = 2 * per_bar((to - from) / 2);
            &&& w < peaks(bytes, from, to, step, 28).len()
            &&& peaks(bytes, from, to, step, 28)[w] == top
        }),
{
    let n = (to - from) / 2;
    let per = per_bar(n);
    let step = 2 * per;
    let a = w * per;
    let b = (w + 1) * per;
    assert(b == a + per) by (nonlinear_arith)
        requires
            a == w * per,
            b == (w + 1) * per,
    ;
    assert(a >= 0) by (nonlinear_arith)
        requires
            a == w * per,
            w >= 0,
            per >= 1,
    ;
    assert(w * step == 2 * a) by (nonlinear_arith)
        requires
            a == w * per,
            step == 2 * per,
    ;
    lemma_peaks_at(bytes, from, to, step, 28, w);
    lemma_peak(bytes, from, a, b);
    let k = choose|k: int| a <= k < b && #[trigger] loud(bytes, from, k) == top;
    assert(loud(bytes, from, k) == top);
    assert(from + 2 * a + step == from + 2 * b);
    let found = peak(bytes, from + 2 * a, from + 2 * b);
    if found != 0 {
        let j = choose|j: int| a <= j < b && #[trigger] loud(bytes, from, j) == found;
        assert(loud(bytes, from, j) <= top);
    }
}

/// A picture is drawn two rows to a line: in each cell stands the dot of the upper row above
/// the one of the lower row, and under the last row of an odd number the row itself.
pub proof fn law_cells_show_their_dots(picture: PictureView, x: int, line: int)
    requires
        0 <= x < picture.width,
        0 <= line,
        2 * line < picture.height,
    ensures
        ({
            let lines = cell_lines(picture);
            let up = 3 * (2 * line * picture.width + x);
            let below = if 2 * line + 1 < picture.height {
                2 * line + 1
            } else {
                2 * line
            };
            let down = 3 * (below * picture.width + x);
            let p = picture.pixels;
            &&& 2 * lines.len() == picture.height || 2 * lines.len() == picture.height + 1
            &&& line < lines.len()
            &&& lines[line].len() == picture.width
            &&& lines[line][x].top == (p[up], p[up + 1], p[up + 2])
            &&& lines[line][x].bottom == (p[down], p[down + 1], p[down + 2])
        }),
{
}

/// Two columns stand side by side row by row: in each row the pieces of the left one come
/// first and those of the right one last, and no row of either is lost.
pub proof fn law_columns_keep_their_rows(
    left: Seq<LineView>,
    right: Seq<LineView>,
    left_width: int,
    space: int,
    row: int,
)
    requires
        0 <= row,
    ensures
        ({
            let rows = in_columns(left, right, left_width, space);
            &&& rows.len() == if left.len() > right.len() {
                left.len()
            } else {
                right.len()
            }
            &&& row < left.len() ==> {
                let n = left[row].spans.len() as int;
                rows[row].spans.len() >= n && rows[row].spans.take(n) == left[row].spans
            }
            &&& row < right.len() ==> {
                let m = right[row].spans.len() as int;
                let all = rows[row].spans;
                all.len() >= m && all.skip(all.len() - m) == right[row].spans
            }
        }),
{
    let rows = in_columns(left, right, left_width, space);
    if row < left.len() {
        let n = left[row].spans.len() as int;
        assert(rows[row].spans.take(n) =~= left[row].spans);
    }
    if row < right.len() {
        let m = right[row].spans.len() as int;
        let all = rows[row].spans;
        assert(all.skip(all.len() - m) =~= right[row].spans);
    }
}

/// There is a dot for everybody up to five; of more the number is written.
pub proof fn law_dots_stand_for_people(count: int, paint: PaintView)
    requires
        0 < count,
    ensures
        ({
            let spans = dot_spans(count, paint);
            let shown = if count < 5 {
                count
            } else {
                5
            };
            &&& spans[0].piece == PieceView::Text(Seq::new(shown as nat, |i: int| '●'))
            &&& count <= 5 ==> spans.len() == 1
            &&& count > 5 ==> spans.len() == 2 && spans[1].piece == PieceView::Text(
                "+"@ + decimal((count - 5) as nat),
            )
        }),
{
    let shown = if count < 5 {
        count
    } else {
        5
    };
    lemma_repeated(shown as nat);
}

proof fn lemma_repeated(count: nat)
    ensures
        crate::paper::repeated("●"@, count) == Seq::new(count, |i: int| '●'),
    decreases count,
{
    reveal_strlit("●");
    if count > 0 {
        lemma_repeated((count - 1) as nat);
    }
    assert(crate::paper::repeated("●"@, count) =~= Seq::new(count, |i: int| '●'));
}

/// A device that was remembered is kept exactly as long as it is there.
pub proof fn law_device_is_kept_while_there(list: Seq<Seq<char>>, name: Seq<char>)
    ensures
        trimmed(name).len() > 0 && list.contains(trimmed(name)) ==> kept_device(list, name) == Some(
            trimmed(name),
        ),
        trimmed(name).len() == 0 || !list.contains(trimmed(name)) ==> kept_device(list, name)
            is None,
{
    let wanted = trimmed(name);
    let test = crate::home::is_device(wanted);
    lemma_first_where(list, test);
    if list.contains(wanted) {
        let i = choose|i: int| 0 <= i < list.len() && list[i] == wanted;
        assert(test(list[i]));
    }
    let k = crate::seqs::first_where(list, test);
    if k < list.len() {
        assert(test(list[k]));
        assert(list.contains(list[k]));
    }
}

/// The next device is the one behind in the list, and behind the last one what the system
/// uses; the one before is found the other way.
pub proof fn law_devices_follow_their_list(list: Seq<Seq<char>>, k: int)
    requires
        list.no_duplicates(),
        0 <= k < list.len(),
    ensures
        next_device(list, Some(list[k]), false) == if k + 1 < list.len() {
            Some(list[k + 1])
        } else {
            None
        },
        next_device(list, Some(list[k]), true) == if k > 0 {
            Some(list[k - 1])
        } else {
            None
        },
{
    let test = crate::home::is_device(list[k]);
    assert forall|j: int| 0 <= j < k implies !test(#[trigger] list[j]) by {}
    crate::seqs::lemma_first_where_is(list, test, k);
}

} // verus!
