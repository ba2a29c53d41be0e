//! Fitting text into columns of a terminal.
//!
//! What counts is the width of characters, not their number: Cyrillic letters,
//! emoji and ideographs take different numbers of cells.
use crate::input::{Input, InputView};
use crate::text::{
    begins, chars_of, decimal, glue, glue3, number, occurs_at, split_words, stands_at, text_between,
    text_of, words,
};
use crate::width_laws::{
    law_lines_are_tidy, law_lines_fit, lemma_wrapped_letters, letters, narrow, tidy,
};
use vstd::prelude::*;
use vstd::string::*;

verus! {

/// How many cells a text takes, as `UnicodeWidthStr::width` of the
/// `unicode-width` crate counts them.
pub uninterp spec fn text_width(s: Seq<char>) -> usize;

/// How many cells a character takes, as `UnicodeWidthChar::width` of the
/// `unicode-width` crate counts them.
pub uninterp spec fn char_width(c: char) -> Option<usize>;

/// Calls `UnicodeWidthStr::width` of the `unicode-width` crate. Claimed: the
/// result depends on the text alone, an empty text takes no cell, and a text of one
/// character takes as many as the character, where that is no control character.
#[verifier::external_body]
pub(crate) fn width_of(s: &str) -> (w: usize)
    ensures
        w == text_width(s@),
        s@.len() == 0 ==> w == 0,
        s@.len() == 1 && char_width(s@[0]) is Some ==> char_width(s@[0]) == Some(w),
{
    unicode_width::UnicodeWidthStr::width(s)
}

/// Calls `UnicodeWidthChar::width` of the `unicode-width` crate. Claimed: the
/// result depends on the character alone, and an ellipsis takes one cell.
#[verifier::external_body]
pub(crate) fn width_of_char(c: char) -> (w: Option<usize>)
    ensures
        w == char_width(c),
        c == '…' ==> w == Some(1usize),
{
    unicode_width::UnicodeWidthChar::width(c)
}

/// How many cells a character takes; a control character takes none.
pub open spec fn cells(c: char) -> int {
    match char_width(c) {
        Some(n) => n as int,
        None => 0,
    }
}

/// How many cells a character takes; a control character takes none.
fn cells_of(c: char) -> (n: usize)
    ensures
        n == cells(c),
{
    match width_of_char(c) {
        Some(n) => n,
        None => 0,
    }
}

/// How many characters fit into the given width, counted one by one.
pub open spec fn fitting(s: Seq<char>, width: int) -> int
    decreases s.len(),
{
    if s.len() == 0 || cells(s[0]) > width {
        0
    } else {
        1 + fitting(s.drop_first(), width - cells(s[0]))
    }
}

/// What fits is a part of the text.
pub proof fn lemma_fitting(s: Seq<char>, width: int)
    ensures
        0 <= fitting(s, width) <= s.len(),
    decreases s.len(),
{
    if s.len() > 0 && cells(s[0]) <= width {
        lemma_fitting(s.drop_first(), width - cells(s[0]));
    }
}

/// Where a text is divided: behind what fits, but behind the first character at
/// least, as long as there is any width at all. Otherwise a character wider than
/// the column would stop everything.
pub open spec fn split_point(s: Seq<char>, width: int) -> int {
    if s.len() > 0 && width > 0 && fitting(s, width) == 0 {
        1
    } else {
        fitting(s, width)
    }
}

/// Where the characters are divided.
fn find_split(v: &Vec<char>, width: usize) -> (at: usize)
    ensures
        at == split_point(v@, width as int),
        at <= v@.len(),
{
    let i: usize = count_fitting(v, width);
    if v.len() > 0 && width > 0 && i == 0 {
        1
    } else {
        i
    }
}

/// Divides a text by its visible width.
pub fn split_at_width(text: &str, width: usize) -> (r: (String, String))
    ensures
        r.0@ == text@.take(split_point(text@, width as int)),
        r.1@ == text@.skip(split_point(text@, width as int)),
{
    let v = chars_of(text);
    let at = find_split(&v, width);
    let head = text_between(&v, 0, at);
    let tail = text_between(&v, at, v.len());
    assert(head@ =~= text@.take(at as int));
    assert(tail@ =~= text@.skip(at as int));
    (head, tail)
}

/// How many cells the characters of a text take, counted one by one.
pub open spec fn cells_in(s: Seq<char>) -> int
    decreases s.len(),
{
    if s.len() == 0 {
        0
    } else {
        cells(s[0]) + cells_in(s.drop_first())
    }
}

/// What fits does fit, and with the next character it does not.
proof fn lemma_fitting_cells(s: Seq<char>, width: int)
    requires
        width >= 0,
    ensures
        cells_in(s.take(fitting(s, width))) <= width,
        fitting(s, width) < s.len() ==> cells_in(s.take(fitting(s, width) + 1)) > width,
    decreases s.len(),
{
    lemma_fitting(s, width);
    let n = fitting(s, width);
    if s.len() == 0 || cells(s[0]) > width {
        assert(s.take(0) =~= Seq::<char>::empty());
        if s.len() > 0 {
            assert(s.take(1).drop_first() =~= Seq::<char>::empty());
            assert(cells_in(Seq::<char>::empty()) == 0);
            assert(s.take(1)[0] == s[0]);
        }
    } else {
        let rest = s.drop_first();
        lemma_fitting(rest, width - cells(s[0]));
        lemma_fitting_cells(rest, width - cells(s[0]));
        assert(s.take(n).drop_first() =~= rest.take(n - 1));
        assert(s.take(n)[0] == s[0]);
        if n < s.len() {
            assert(s.take(n + 1).drop_first() =~= rest.take(n));
            assert(s.take(n + 1)[0] == s[0]);
        }
    }
}

/// Nothing is lost where a text is divided. What stands before the division fits, unless
/// it is a single character wider than the column, and nothing stays behind that would
/// have fitted.
pub proof fn law_split_loses_nothing(s: Seq<char>, width: int)
    requires
        width >= 0,
    ensures
        ({
            let at = split_point(s, width);
            &&& 0 <= at <= s.len()
            &&& s.take(at) + s.skip(at) == s
            &&& s.len() > 0 && width > 0 ==> at > 0
            &&& at == 1 || cells_in(s.take(at)) <= width
            &&& at < s.len() ==> cells_in(s.take(at + 1)) > width
        }),
{
    lemma_fitting(s, width);
    let at = split_point(s, width);
    assert(s.take(at) + s.skip(at) =~= s);
    lemma_fitting_cells(s, width);
    if at < s.len() && at > fitting(s, width) {
        lemma_fitting(s.drop_first(), width - cells(s[0]));
        let two = s.take(2);
        assert(two[0] == s[0]);
        let rest = two.drop_first();
        assert(rest.drop_first() =~= Seq::<char>::empty());
        assert(cells_in(rest.drop_first()) == 0);
        assert(cells_in(rest) == cells(rest[0]));
    }
}

/// The space that is due before the next word of a line.
pub open spec fn gap(current: Seq<char>) -> Seq<char> {
    if current.len() > 0 {
        seq![' ']
    } else {
        Seq::empty()
    }
}

/// How many cells are left on a line for the next word.
pub open spec fn room_left(current: Seq<char>, width: int) -> int {
    let left = width - text_width(current) - gap(current).len();
    if left > 0 {
        left
    } else {
        0
    }
}

/// Finished lines and the line that is being filled.
pub struct Page {
    pub lines: Seq<Seq<char>>,
    pub current: Seq<char>,
}

/// How many of the first characters of a word stand behind something without running over
/// the edge, the given number at most.
pub open spec fn within(before: Seq<char>, word: Seq<char>, most: int, width: int) -> int
    decreases most,
{
    if most <= 0 {
        0
    } else if text_width(before + word.take(most)) <= width {
        most
    } else {
        within(before, word, most - 1, width)
    }
}

/// How many characters of a word the current line can still take.
pub open spec fn piece_len(current: Seq<char>, word: Seq<char>, width: int) -> int {
    within(current + gap(current), word, fitting(word, room_left(current, width)), width)
}

/// Whether a word fits on the current line.
pub open spec fn goes_on(current: Seq<char>, word: Seq<char>, width: int) -> bool {
    text_width(word) <= room_left(current, width) && text_width(current + gap(current) + word)
        <= width
}

/// The page after one more word: on the current line where it fits, on the next
/// one where it does not, and cut by force where no line can hold it. A character that is
/// wider than the column stands alone.
pub open spec fn with_word(page: Page, word: Seq<char>, width: int) -> Page
    decreases word.len(), page.current.len(),
{
    let fit = piece_len(page.current, word, width);
    if goes_on(page.current, word, width) || word.len() == 0 {
        Page { current: page.current + gap(page.current) + word, ..page }
    } else if page.current.len() > 0 && (room_left(page.current, width) == 0 || text_width(word)
        <= width || fit == 0) {
        with_word(
            Page { lines: page.lines.push(page.current), current: Seq::empty() },
            word,
            width,
        )
    } else {
        let at = if fit > 0 {
            fit
        } else {
            1
        };
        if at <= word.len() {
            with_word(
                Page {
                    lines: page.lines.push(page.current + gap(page.current) + word.take(at)),
                    current: Seq::empty(),
                },
                word.skip(at),
                width,
            )
        } else {
            page
        }
    }
}

/// What stands behind something without running over the edge does so.
pub proof fn lemma_within(before: Seq<char>, word: Seq<char>, most: int, width: int)
    ensures
        0 <= within(before, word, most, width),
        most >= 0 ==> within(before, word, most, width) <= most,
        within(before, word, most, width) > 0 ==> text_width(
            before + word.take(within(before, word, most, width)),
        ) <= width,
    decreases most,
{
    if most > 0 && text_width(before + word.take(most)) > width {
        lemma_within(before, word, most - 1, width);
    }
}

/// A line takes no more of a word than there is.
pub proof fn lemma_piece_len(current: Seq<char>, word: Seq<char>, width: int)
    ensures
        0 <= piece_len(current, word, width) <= word.len(),
        piece_len(current, word, width) > 0 ==> text_width(
            current + gap(current) + word.take(piece_len(current, word, width)),
        ) <= width,
{
    lemma_fitting(word, room_left(current, width));
    lemma_within(
        current + gap(current),
        word,
        fitting(word, room_left(current, width)),
        width,
    );
}

/// The page after all words.
pub open spec fn with_words(all: Seq<Seq<char>>, width: int) -> Page
    decreases all.len(),
{
    if all.len() == 0 {
        Page { lines: Seq::empty(), current: Seq::empty() }
    } else {
        with_word(with_words(all.drop_last(), width), all.last(), width)
    }
}

/// A column is at least one cell wide.
pub open spec fn at_least_one(width: int) -> int {
    if width < 1 {
        1
    } else {
        width
    }
}

/// A text in lines that are no wider than asked for. There is always a line.
pub open spec fn wrapped(text: Seq<char>, width: int) -> Seq<Seq<char>> {
    let page = with_words(words(text), at_least_one(width));
    if page.current.len() > 0 {
        page.lines.push(page.current)
    } else if page.lines.len() == 0 {
        seq![Seq::empty()]
    } else {
        page.lines
    }
}

/// How many characters fit into the given width.
#[verifier::loop_isolation(false)]
fn count_fitting(v: &Vec<char>, width: usize) -> (n: usize)
    ensures
        n == fitting(v@, width as int),
        n <= v@.len(),
{
    let mut i: usize = 0;
    let mut left: usize = width;
    assert(v@.skip(0) =~= v@);
    while i < v.len() && cells_of(v[i]) <= left
        invariant
            i <= v@.len(),
            left <= width,
            fitting(v@, width as int) == i + fitting(v@.skip(i as int), left as int),
        decreases v@.len() - i,
    {
        assert(v@.skip(i as int)[0] == v@[i as int]);
        assert(v@.skip(i as int).drop_first() =~= v@.skip(i + 1));
        left = left - cells_of(v[i]);
        i = i + 1;
    }
    proof {
        if i < v@.len() {
            assert(v@.skip(i as int)[0] == v@[i as int]);
        }
    }
    i
}

/// How many characters of a word stand behind something without running over the edge.
#[verifier::loop_isolation(false)]
fn find_piece(before: &str, word: &Vec<char>, free: usize, width: usize) -> (n: usize)
    ensures
        n == within(before@, word@, fitting(word@, free as int), width as int),
        n <= word@.len(),
{
    let mut n: usize = count_fitting(word, free);
    while n > 0
        invariant
            n <= word@.len(),
            within(before@, word@, fitting(word@, free as int), width as int) == within(
                before@,
                word@,
                n as int,
                width as int,
            ),
        decreases n,
    {
        let head = text_between(word, 0, n);
        assert(head@ =~= word@.take(n as int));
        if width_of(glue(before, head.as_str()).as_str()) <= width {
            return n;
        }
        n = n - 1;
    }
    n
}

/// Puts one more word on the page.
#[verifier::loop_isolation(false)]
fn add_word(lines: &mut Vec<String>, current: &mut String, word: &str, width: usize)
    requires
        width >= 1,
    ensures
        ({
            let page = with_word(
                Page { lines: old(lines).deep_view(), current: old(current)@ },
                word@,
                width as int,
            );
            &&& final(lines).deep_view() == page.lines
            &&& final(current)@ == page.current
        }),
{
    let ghost goal = with_word(
        Page { lines: lines.deep_view(), current: current@ },
        word@,
        width as int,
    );
    let mut rest = word.to_owned();
    // An empty text takes no cell: this is what lets the loop come to an end.
    let nothing = width_of("");
    proof {
        reveal_strlit("");
        assert(""@ =~= Seq::<char>::empty());
        assert(text_width(Seq::<char>::empty()) == 0);
    }
    loop
        invariant
            goal == with_word(
                Page { lines: lines.deep_view(), current: current@ },
                rest@,
                width as int,
            ),
        decreases rest@.len(), current@.len(),
    {
        let started = !current.as_str().is_empty();
        let taken = width_of(current.as_str());
        let mut free: usize = if taken >= width {
            0
        } else {
            width - taken
        };
        if started && free > 0 {
            free = free - 1;
        }
        proof {
            if !started {
                assert(current@ =~= Seq::<char>::empty());
            }
        }
        assert(free == room_left(current@, width as int));
        let mut before = current.clone();
        if started {
            before.push(' ');
        }
        assert(before@ =~= current@ + gap(current@));
        let need = width_of(rest.as_str());
        let whole = glue(before.as_str(), rest.as_str());
        assert(whole@ =~= current@ + gap(current@) + rest@);
        if rest.as_str().is_empty() || (need <= free && width_of(whole.as_str()) <= width) {
            *current = whole;
            return ;
        }
        let v = chars_of(rest.as_str());
        let fit = find_piece(before.as_str(), &v, free, width);
        proof {
            lemma_piece_len(current@, rest@, width as int);
        }
        let ghost was = lines.deep_view();
        if started && (free == 0 || need <= width || fit == 0) {
            let ghost line = current@;
            let full = current.clone();
            lines.push(full);
            *current = String::new();
            assert(lines.deep_view() =~= was.push(line));
            assert(current@ =~= Seq::<char>::empty());
        } else {
            let at: usize = if fit > 0 {
                fit
            } else {
                1
            };
            let head = text_between(&v, 0, at);
            let tail = text_between(&v, at, v.len());
            assert(head@ =~= rest@.take(at as int));
            assert(tail@ =~= rest@.skip(at as int));
            let full = glue(before.as_str(), head.as_str());
            assert(full@ =~= current@ + gap(current@) + rest@.take(at as int));
            let ghost line = full@;
            lines.push(full);
            assert(lines.deep_view() =~= was.push(line));
            *current = String::new();
            assert(current@ =~= Seq::<char>::empty());
            rest = tail;
        }
    }
}

/// Breaks a text into lines at its words.
///
/// A word that is longer than a line, such as a link, is cut by force: otherwise
/// it would run over the edge. No letter is lost, added or moved, no line runs over the
/// edge unless a character is wider than the column, and none begins or ends with white
/// space.
#[verifier::loop_isolation(false)]
pub fn wrap(text: &str, width: usize) -> (r: Vec<String>)
    ensures
        r.deep_view() == wrapped(text@, width as int),
        letters(r.deep_view().flatten()) == letters(text@),
        narrow(text@, at_least_one(width as int)) ==> forall|i: int|
            0 <= i < r@.len() ==> text_width(#[trigger] r@[i]@) <= at_least_one(width as int),
        letters(text@).len() > 0 ==> forall|i: int|
            0 <= i < r@.len() ==> tidy(#[trigger] r@[i]@),
{
    let nothing = width_of("");
    proof {
        reveal_strlit("");
        assert(""@ =~= Seq::<char>::empty());
        lemma_wrapped_letters(text@, width as int);
    }
    let ghost asked = width as int;
    let width: usize = if width < 1 {
        1
    } else {
        width
    };
    let all = split_words(text);
    let mut lines: Vec<String> = Vec::new();
    let mut current = String::new();
    let mut i: usize = 0;
    assert(lines.deep_view() =~= Seq::<Seq<char>>::empty());
    assert(all.deep_view().take(0).len() == 0);
    while i < all.len()
        invariant
            i <= all@.len(),
            lines.deep_view() == with_words(all.deep_view().take(i as int), width as int).lines,
            current@ == with_words(all.deep_view().take(i as int), width as int).current,
        decreases all@.len() - i,
    {
        proof {
            assert(all.deep_view().take(i + 1).drop_last() =~= all.deep_view().take(i as int));
            assert(all.deep_view().take(i + 1).last() == all@[i as int]@);
        }
        add_word(&mut lines, &mut current, all[i].as_str(), width);
        i = i + 1;
    }
    assert(all.deep_view().take(i as int) =~= all.deep_view());
    let ghost before = lines.deep_view();
    if !current.as_str().is_empty() {
        let ghost last = current@;
        lines.push(current);
        assert(lines.deep_view() =~= before.push(last));
    } else if lines.len() == 0 {
        let line = String::new();
        let ghost last = line@;
        lines.push(line);
        assert(lines.deep_view() =~= seq![last]);
        assert(last =~= Seq::<char>::empty());
    }
    proof {
        if narrow(text@, width as int) {
            law_lines_fit(text@, asked);
            assert forall|i: int| 0 <= i < lines@.len() implies text_width(#[trigger] lines@[i]@)
                <= width by {
                assert(lines.deep_view()[i] == lines@[i]@);
            }
        }
        law_lines_are_tidy(text@, asked);
        assert forall|i: int| letters(text@).len() > 0 && 0 <= i < lines@.len() implies tidy(
            #[trigger] lines@[i]@,
        ) by {
            assert(lines.deep_view()[i] == lines@[i]@);
        }
    }
    lines
}

/// The part of a field that fits, and the column of the cursor in it.
pub open spec fn field_shown(input: InputView, width: int) -> (Seq<char>, int) {
    let width = at_least_one(width);
    let cursor = text_width(input.text.take(input.cursor)) as int;
    let offset = if cursor > width - 1 {
        cursor - (width - 1)
    } else {
        0
    };
    let shown = input.text.skip(split_point(input.text, offset));
    (shown.take(split_point(shown, width)), cursor - offset)
}

/// The part of a field that fits into a width, and the column of the cursor in
/// it. The text is shifted so that the cursor is always in sight.
pub fn field_view(input: &Input, width: usize) -> (r: (String, usize))
    requires
        input.deep_view().wf(),
    ensures
        r.0@ == field_shown(input.deep_view(), width as int).0,
        r.1 == field_shown(input.deep_view(), width as int).1,
{
    let width: usize = if width < 1 {
        1
    } else {
        width
    };
    let v = chars_of(input.text.as_str());
    let before = text_between(&v, 0, input.cursor);
    assert(before@ =~= input.text@.take(input.cursor as int));
    let cursor = width_of(before.as_str());
    let offset: usize = if cursor > width - 1 {
        cursor - (width - 1)
    } else {
        0
    };
    let (hidden, shown) = split_at_width(input.text.as_str(), offset);
    let (visible, rest) = split_at_width(shown.as_str(), width);
    (visible, cursor - offset)
}

/// The cursor is drawn inside the field.
pub proof fn law_cursor_is_in_sight(input: InputView, width: int)
    ensures
        0 <= field_shown(input, width).1 < at_least_one(width),
{
}

/// How many characters from the end fit beside an ellipsis.
pub open spec fn tail_fitting(s: Seq<char>, taken: int, width: int) -> int
    decreases s.len() - taken,
{
    if 0 <= taken < s.len() && text_width(s.skip(s.len() - taken)) + cells(s[s.len() - taken - 1])
        + 1 <= width {
        tail_fitting(s, taken + 1, width)
    } else {
        taken
    }
}

/// How many characters from the end stand behind an ellipsis without running over the edge,
/// the given number at most.
pub open spec fn tail_within(s: Seq<char>, most: int, width: int) -> int
    decreases most,
{
    if most <= 0 {
        0
    } else if text_width("…"@ + s.skip(s.len() - most)) <= width {
        most
    } else {
        tail_within(s, most - 1, width)
    }
}

/// A text cut on the left to the given width.
pub open spec fn shortened_left(s: Seq<char>, width: int) -> Seq<char> {
    if text_width(s) <= width || width < 2 {
        s
    } else {
        "…"@ + s.skip(s.len() - tail_within(s, tail_fitting(s, 0, width), width))
    }
}

/// Cuts a long path on the left: its end says more than its beginning. The result fits,
/// where there is room for more than the ellipsis.
#[verifier::loop_isolation(false)]
pub fn shorten_left(text: &str, width: usize) -> (r: String)
    ensures
        r@ == shortened_left(text@, width as int),
        width >= 2 ==> text_width(r@) <= width,
{
    if width_of(text) <= width || width < 2 {
        return text.to_owned();
    }
    let v = chars_of(text);
    let mut from: usize = v.len();
    let mut tail = String::new();
    assert(tail@ =~= v@.skip(v@.len() as int));
    while from > 0 && width_of(tail.as_str()) as u128 + cells_of(v[from - 1]) as u128 + 1
        <= width as u128
        invariant
            from <= v@.len(),
            tail@ == v@.skip(from as int),
            tail_fitting(v@, 0, width as int) == tail_fitting(v@, v@.len() - from, width as int),
        decreases from,
    {
        from = from - 1;
        tail = text_between(&v, from, v.len());
        assert(tail@ =~= v@.skip(from as int));
    }
    let ghost most = tail_fitting(v@, 0, width as int);
    while from < v.len()
        invariant
            from <= v@.len(),
            tail_within(v@, most, width as int) == tail_within(
                v@,
                v@.len() - from,
                width as int,
            ),
        decreases v@.len() - from,
    {
        tail = text_between(&v, from, v.len());
        assert(tail@ =~= v@.skip(from as int));
        let r = glue("…", tail.as_str());
        if width_of(r.as_str()) <= width {
            return r;
        }
        from = from + 1;
    }
    dots()
}

/// An ellipsis, which takes one cell.
fn dots() -> (r: String)
    ensures
        r@ == "…"@,
        r@ == "…"@ + Seq::<char>::empty(),
        text_width(r@) == 1,
{
    let r = "…".to_owned();
    let mark = width_of_char('…');
    let taken = width_of(r.as_str());
    proof {
        reveal_strlit("…");
    }
    assert(r@ =~= "…"@ + Seq::<char>::empty());
    r
}

/// How many of the first characters stand in front of an ellipsis without running over the
/// edge, the given number at most.
pub open spec fn head_within(s: Seq<char>, most: int, width: int) -> int
    decreases most,
{
    if most <= 0 {
        0
    } else if text_width(s.take(most) + "…"@) <= width {
        most
    } else {
        head_within(s, most - 1, width)
    }
}

/// A text cut on the right to the given width.
pub open spec fn shortened(s: Seq<char>, width: int) -> Seq<char> {
    if text_width(s) <= width {
        s
    } else if width <= 1 {
        "…"@
    } else {
        s.take(head_within(s, fitting(s, width - 1), width)) + "…"@
    }
}

/// Cuts a text on the right with an ellipsis: names and addresses in a narrow
/// column. The result fits, as long as there is any room at all.
#[verifier::loop_isolation(false)]
pub fn shorten(text: &str, width: usize) -> (r: String)
    ensures
        r@ == shortened(text@, width as int),
        width >= 1 ==> text_width(r@) <= width,
{
    if width_of(text) <= width {
        return text.to_owned();
    }
    if width <= 1 {
        return dots();
    }
    let v = chars_of(text);
    let mut n: usize = count_fitting(&v, width - 1);
    let ghost most = n as int;
    while n > 0
        invariant
            n <= v@.len(),
            head_within(v@, most, width as int) == head_within(v@, n as int, width as int),
        decreases n,
    {
        let head = text_between(&v, 0, n);
        assert(head@ =~= v@.take(n as int));
        let r = glue(head.as_str(), "…");
        if width_of(r.as_str()) <= width {
            return r;
        }
        n = n - 1;
    }
    assert(v@.take(0) + "…"@ =~= "…"@);
    dots()
}

/// A size in the form in which people read it.
pub open spec fn sized(bytes: nat) -> Seq<char> {
    if bytes < 1024 {
        decimal(bytes) + " Б"@
    } else if bytes < 1048576 {
        decimal(bytes / 1024) + " КБ"@
    } else {
        decimal(bytes / 1048576) + ","@ + decimal((bytes % 1048576) * 10 / 1048576) + " МБ"@
    }
}

/// The size of a file in the form in which people read it.
pub fn human_size(bytes: u64) -> (r: String)
    ensures
        r@ == sized(bytes as nat),
{
    if bytes < 1024 {
        glue(number(bytes).as_str(), " Б")
    } else if bytes < 1048576 {
        glue(number(bytes / 1024).as_str(), " КБ")
    } else {
        let mut s = glue3(
            number(bytes / 1048576).as_str(),
            ",",
            number((bytes % 1048576) * 10 / 1048576).as_str(),
        );
        s.append(" МБ");
        s
    }
}

/// A text without a prefix, however often it is repeated.
pub open spec fn without_prefix(s: Seq<char>, prefix: Seq<char>) -> Seq<char>
    decreases s.len(),
{
    if prefix.len() > 0 && begins(s, prefix) {
        without_prefix(s.skip(prefix.len() as int), prefix)
    } else {
        s
    }
}

/// A text without an ending, however often it is repeated.
pub open spec fn without_suffix(s: Seq<char>, suffix: Seq<char>) -> Seq<char>
    decreases s.len(),
{
    if suffix.len() > 0 && occurs_at(s, suffix, s.len() - suffix.len()) {
        without_suffix(s.take(s.len() - suffix.len()), suffix)
    } else {
        s
    }
}

/// A text without a prefix, however often it is repeated.
#[verifier::loop_isolation(false)]
pub fn strip_prefixes(s: &str, prefix: &str) -> (r: String)
    ensures
        r@ == without_prefix(s@, prefix@),
{
    let p = chars_of(prefix);
    let mut v = chars_of(s);
    while p.len() > 0 && stands_at(&v, &p, 0)
        invariant
            without_prefix(s@, prefix@) == without_prefix(v@, prefix@),
        decreases v@.len(),
    {
        let ghost before = v@;
        let rest = text_between(&v, p.len(), v.len());
        assert(rest@ =~= before.skip(p@.len() as int));
        v = chars_of(rest.as_str());
    }
    text_of(&v)
}

/// A text without an ending, however often it is repeated.
#[verifier::loop_isolation(false)]
pub fn strip_suffixes(s: &str, suffix: &str) -> (r: String)
    ensures
        r@ == without_suffix(s@, suffix@),
{
    let p = chars_of(suffix);
    let mut v = chars_of(s);
    while p.len() > 0 && p.len() <= v.len() && stands_at(&v, &p, v.len() - p.len())
        invariant
            without_suffix(s@, suffix@) == without_suffix(v@, suffix@),
        decreases v@.len(),
    {
        let ghost before = v@;
        let rest = text_between(&v, 0, v.len() - p.len());
        assert(rest@ =~= before.take(before.len() - p@.len()));
        v = chars_of(rest.as_str());
    }
    text_of(&v)
}

/// The address of a server without the parts that tell people nothing.
pub open spec fn label_of(server: Seq<char>) -> Seq<char> {
    without_suffix(without_prefix(without_prefix(server, "wss://"@), "ws://"@), "/ws"@)
}

/// The address of a server without the parts that tell people nothing.
pub fn server_label(server: &str) -> (r: String)
    ensures
        r@ == label_of(server@),
{
    strip_suffixes(
        strip_prefixes(strip_prefixes(server, "wss://").as_str(), "ws://").as_str(),
        "/ws",
    )
}

} // verus!
