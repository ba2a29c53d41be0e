//! What holds of text that has been broken into lines.
use crate::text::{is_white, words};
use crate::validate::lemma_words_shape;
use crate::width::{
    at_least_one, gap, goes_on, lemma_piece_len, piece_len, room_left, text_width, with_word,
    with_words, wrapped, Page,
};
use vstd::prelude::*;

verus! {

/// Whether a character is more than white space.
pub open spec fn solid() -> spec_fn(char) -> bool {
    |c: char| !is_white(c)
}

/// The characters of a text that are more than white space.
pub open spec fn letters(s: Seq<char>) -> Seq<char> {
    s.filter(solid())
}

/// What stands on a page, line after line.
spec fn content(page: Page) -> Seq<char> {
    page.lines.flatten() + page.current
}

/// A word is all letters.
proof fn lemma_letters_of_word(word: Seq<char>)
    requires
        forall|j: int| 0 <= j < word.len() ==> !is_white(#[trigger] word[j]),
    ensures
        letters(word) == word,
    decreases word.len(),
{
    reveal(Seq::filter);
    if word.len() > 0 {
        let d = word.drop_last();
        assert forall|j: int| 0 <= j < d.len() implies !is_white(#[trigger] d[j]) by {
            assert(d[j] == word[j]);
        }
        lemma_letters_of_word(d);
        assert(!is_white(word[word.len() - 1]));
        assert(d.push(word.last()) =~= word);
    }
}

/// A gap holds no letters.
proof fn lemma_letters_of_gap(current: Seq<char>)
    ensures
        letters(gap(current)) == Seq::<char>::empty(),
{
    reveal(Seq::filter);
    let g = gap(current);
    if g.len() > 0 {
        assert(g.drop_last() =~= Seq::<char>::empty());
        assert(g.last() == ' ');
        assert(letters(g.drop_last()) =~= Seq::<char>::empty());
    }
    assert(letters(g) =~= Seq::<char>::empty());
}

/// The letters of two texts together are those of the one and then of the other.
proof fn lemma_letters_add(a: Seq<char>, b: Seq<char>)
    ensures
        letters(a + b) == letters(a) + letters(b),
{
    Seq::filter_distributes_over_add(a, b, solid());
}

/// One more word adds its letters to the page and touches no others.
proof fn lemma_with_word(page: Page, word: Seq<char>, width: int)
    requires
        width >= 1,
        text_width(Seq::empty()) == 0,
        forall|j: int| 0 <= j < word.len() ==> !is_white(#[trigger] word[j]),
    ensures
        letters(content(with_word(page, word, width))) == letters(content(page)) + word,
    decreases word.len(), page.current.len(),
{
    let fit = piece_len(page.current, word, width);
    let lines = page.lines;
    let current = page.current;
    lemma_piece_len(current, word, width);
    if goes_on(current, word, width) || word.len() == 0 {
        lemma_letters_of_word(word);
        lemma_letters_of_gap(current);
        lemma_letters_add(lines.flatten(), current + gap(current) + word);
        lemma_letters_add(current + gap(current), word);
        lemma_letters_add(current, gap(current));
        lemma_letters_add(lines.flatten(), current);
        assert(letters(content(with_word(page, word, width))) =~= letters(content(page)) + word);
    } else if current.len() > 0 && (room_left(current, width) == 0 || text_width(word) <= width
        || fit == 0) {
        let next = Page { lines: lines.push(current), current: Seq::empty() };
        lines.lemma_flatten_push(current);
        assert(content(next) =~= content(page));
        lemma_with_word(next, word, width);
    } else {
        if current.len() == 0 {
            assert(current =~= Seq::<char>::empty());
        }
        let at = if fit > 0 {
            fit
        } else {
            1
        };
        let head = word.take(at);
        let line = current + gap(current) + head;
        let next = Page { lines: lines.push(line), current: Seq::empty() };
        lines.lemma_flatten_push(line);
        assert forall|j: int| 0 <= j < head.len() implies !is_white(#[trigger] head[j]) by {
            assert(head[j] == word[j]);
        }
        let tail = word.skip(at);
        assert forall|j: int| 0 <= j < tail.len() implies !is_white(#[trigger] tail[j]) by {
            assert(tail[j] == word[at + j]);
        }
        lemma_letters_of_word(head);
        lemma_letters_of_gap(current);
        assert(content(next) =~= lines.flatten() + (current + gap(current) + head));
        lemma_letters_add(lines.flatten(), current + gap(current) + head);
        lemma_letters_add(current + gap(current), head);
        lemma_letters_add(current, gap(current));
        lemma_letters_add(lines.flatten(), current);
        assert(letters(content(next)) =~= letters(content(page)) + head);
        lemma_with_word(next, tail, width);
        assert(letters(content(page)) + head + tail =~= letters(content(page)) + word);
    }
}

/// All words together add all their letters, in order.
proof fn lemma_with_words(all: Seq<Seq<char>>, width: int)
    requires
        width >= 1,
        text_width(Seq::empty()) == 0,
        forall|i: int, j: int|
            0 <= i < all.len() && 0 <= j < all[i].len() ==> !is_white(#[trigger] all[i][j]),
    ensures
        letters(content(with_words(all, width))) == all.flatten(),
    decreases all.len(),
{
    if all.len() == 0 {
        reveal(Seq::filter);
        let page = with_words(all, width);
        assert(page.lines.flatten() =~= Seq::<char>::empty());
        assert(content(page) =~= Seq::<char>::empty());
        assert(letters(content(page)) =~= Seq::<char>::empty());
        assert(all.flatten() =~= Seq::<char>::empty());
    } else {
        let d = all.drop_last();
        assert forall|i: int, j: int| 0 <= i < d.len() && 0 <= j < d[i].len() implies !is_white(
            #[trigger] d[i][j],
        ) by {
            assert(d[i][j] == all[i][j]);
        }
        lemma_with_words(d, width);
        let last = all.last();
        assert forall|j: int| 0 <= j < last.len() implies !is_white(#[trigger] last[j]) by {
            assert(last[j] == all[all.len() - 1][j]);
        }
        lemma_with_word(with_words(d, width), last, width);
        d.lemma_flatten_push(last);
        assert(d.push(last) =~= all);
    }
}

/// The words of a text hold its letters, in order.
pub proof fn lemma_words_hold_letters(s: Seq<char>)
    ensures
        words(s).flatten() == letters(s),
    decreases s.len(),
{
    reveal(Seq::filter);
    if s.len() == 0 {
        assert(words(s).flatten() =~= Seq::<char>::empty());
        assert(letters(s) =~= Seq::<char>::empty());
    } else {
        let d = s.drop_last();
        let before = words(d);
        lemma_words_hold_letters(d);
        let c = s.last();
        if !is_white(c) {
            if s.len() == 1 || is_white(s[s.len() - 2]) {
                before.lemma_flatten_push(seq![c]);
                assert(letters(d) + seq![c] =~= letters(d).push(c));
            } else {
                assert(d.last() == s[s.len() - 2]);
                lemma_words_shape(d);
                let rest = before.drop_last();
                let grown = before.last().push(c);
                assert(before.update(before.len() - 1, grown) =~= rest.push(grown));
                assert(rest.push(before.last()) =~= before);
                rest.lemma_flatten_push(before.last());
                rest.lemma_flatten_push(grown);
                assert(rest.flatten() + grown =~= (rest.flatten() + before.last()).push(c));
            }
        }
    }
}

/// Breaking a text into lines loses no letter, adds none and keeps their order.
pub proof fn lemma_wrapped_letters(text: Seq<char>, width: int)
    requires
        text_width(Seq::empty()) == 0,
    ensures
        letters(wrapped(text, width).flatten()) == letters(text),
{
    let w = at_least_one(width);
    let all = words(text);
    lemma_words_shape(text);
    assert forall|i: int, j: int| 0 <= i < all.len() && 0 <= j < all[i].len() implies !is_white(
        #[trigger] all[i][j],
    ) by {
        assert(all[i].len() > 0);
    }
    lemma_with_words(all, w);
    lemma_words_hold_letters(text);
    let page = with_words(all, w);
    if page.current.len() > 0 {
        page.lines.lemma_flatten_push(page.current);
    } else {
        assert(page.current =~= Seq::<char>::empty());
        assert(content(page) =~= page.lines.flatten());
        if page.lines.len() == 0 {
            let one: Seq<Seq<char>> = seq![Seq::empty()];
            one.lemma_flatten_one_element();
            assert(page.lines.flatten() =~= Seq::<char>::empty());
            assert(wrapped(text, width) =~= one);
            assert(one.flatten() =~= Seq::<char>::empty());
        }
    }
}

/// Whether no character of a text is wider than a column by itself, white space aside.
pub open spec fn narrow(text: Seq<char>, width: int) -> bool {
    forall|i: int|
        0 <= i < text.len() && !is_white(#[trigger] text[i]) ==> text_width(seq![text[i]]) <= width
}

/// Whether all that stands on a page fits.
spec fn fits(page: Page, width: int) -> bool {
    &&& text_width(page.current) <= width
    &&& forall|i: int|
        0 <= i < page.lines.len() ==> text_width(#[trigger] page.lines[i]) <= width
}

/// One more word keeps the page within its width.
proof fn lemma_word_fits(page: Page, word: Seq<char>, width: int)
    requires
        width >= 1,
        text_width(Seq::empty()) == 0,
        fits(page, width),
        word.len() > 0 || page.current.len() == 0,
        forall|j: int| 0 <= j < word.len() ==> text_width(seq![#[trigger] word[j]]) <= width,
    ensures
        fits(with_word(page, word, width), width),
    decreases word.len(), page.current.len(),
{
    let fit = piece_len(page.current, word, width);
    let lines = page.lines;
    let current = page.current;
    let nothing = Seq::<char>::empty();
    lemma_piece_len(current, word, width);
    if current.len() == 0 {
        assert(current =~= nothing);
    }
    if goes_on(current, word, width) || word.len() == 0 {
        if word.len() == 0 {
            assert(current + gap(current) + word =~= nothing);
        }
    } else if current.len() > 0 && (room_left(current, width) == 0 || text_width(word) <= width
        || fit == 0) {
        let next = Page { lines: lines.push(current), current: nothing };
        assert forall|i: int| 0 <= i < next.lines.len() implies text_width(
            #[trigger] next.lines[i],
        ) <= width by {
            if i < lines.len() {
                assert(next.lines[i] == lines[i]);
            }
        }
        lemma_word_fits(next, word, width);
    } else {
        let at = if fit > 0 {
            fit
        } else {
            1
        };
        let tail = word.skip(at);
        let line = current + gap(current) + word.take(at);
        if fit == 0 {
            assert(line =~= seq![word[0]]);
        }
        assert forall|j: int| 0 <= j < tail.len() implies text_width(seq![#[trigger] tail[j]])
            <= width by {
            assert(tail[j] == word[at + j]);
        }
        let next = Page { lines: lines.push(line), current: nothing };
        assert forall|i: int| 0 <= i < next.lines.len() implies text_width(
            #[trigger] next.lines[i],
        ) <= width by {
            if i < lines.len() {
                assert(next.lines[i] == lines[i]);
            }
        }
        lemma_word_fits(next, tail, width);
    }
}

proof fn lemma_words_fit(all: Seq<Seq<char>>, width: int)
    requires
        width >= 1,
        text_width(Seq::empty()) == 0,
        forall|i: int| 0 <= i < all.len() ==> (#[trigger] all[i]).len() > 0,
        forall|i: int, j: int|
            0 <= i < all.len() && 0 <= j < all[i].len() ==> text_width(seq![#[trigger] all[i][j]])
                <= width,
    ensures
        fits(with_words(all, width), width),
    decreases all.len(),
{
    if all.len() > 0 {
        let d = all.drop_last();
        assert forall|i: int| 0 <= i < d.len() implies (#[trigger] d[i]).len() > 0 by {
            assert(d[i] == all[i]);
        }
        assert forall|i: int, j: int| 0 <= i < d.len() && 0 <= j < d[i].len() implies text_width(
            seq![#[trigger] d[i][j]],
        ) <= width by {
            assert(d[i][j] == all[i][j]);
        }
        lemma_words_fit(d, width);
        let last = all.last();
        assert(last == all[all.len() - 1]);
        assert forall|j: int| 0 <= j < last.len() implies text_width(seq![#[trigger] last[j]])
            <= width by {
            assert(last[j] == all[all.len() - 1][j]);
        }
        lemma_word_fits(with_words(d, width), last, width);
    }
}

/// Where no character is wider than the column by itself, no line is.
pub proof fn law_lines_fit(text: Seq<char>, width: int)
    requires
        text_width(Seq::empty()) == 0,
        narrow(text, at_least_one(width)),
    ensures
        forall|i: int|
            0 <= i < wrapped(text, width).len() ==> text_width(#[trigger] wrapped(text, width)[i])
                <= at_least_one(width),
{
    let w = at_least_one(width);
    let all = words(text);
    lemma_words_shape(text);
    assert forall|i: int, j: int| 0 <= i < all.len() && 0 <= j < all[i].len() implies text_width(
        seq![#[trigger] all[i][j]],
    ) <= w by {
        assert(text.contains(all[i][j]) && !is_white(all[i][j]));
        let k = choose|k: int| 0 <= k < text.len() && text[k] == all[i][j];
        assert(!is_white(text[k]));
    }
    lemma_words_fit(all, w);
}

/// Whether a text begins and ends with something that is seen.
pub open spec fn tidy(line: Seq<char>) -> bool {
    line.len() > 0 && !is_white(line[0]) && !is_white(line.last())
}

/// Whether all that stands on a page is tidy.
spec fn tidy_page(page: Page) -> bool {
    &&& page.current.len() > 0 ==> tidy(page.current)
    &&& forall|i: int| 0 <= i < page.lines.len() ==> tidy(#[trigger] page.lines[i])
}

/// Whether nothing stands on a page.
spec fn bare(page: Page) -> bool {
    page.lines.len() == 0 && page.current.len() == 0
}

/// One more word keeps the page tidy, and something stands on it by then.
proof fn lemma_word_is_tidy(page: Page, word: Seq<char>, width: int)
    requires
        width >= 1,
        text_width(Seq::empty()) == 0,
        tidy_page(page),
        word.len() > 0 || page.current.len() == 0,
        forall|j: int| 0 <= j < word.len() ==> !is_white(#[trigger] word[j]),
    ensures
        tidy_page(with_word(page, word, width)),
        word.len() > 0 || !bare(page) ==> !bare(with_word(page, word, width)),
    decreases word.len(), page.current.len(),
{
    let fit = piece_len(page.current, word, width);
    let lines = page.lines;
    let current = page.current;
    let nothing = Seq::<char>::empty();
    lemma_piece_len(current, word, width);
    if current.len() == 0 {
        assert(current =~= nothing);
    }
    if goes_on(current, word, width) || word.len() == 0 {
        let line = current + gap(current) + word;
        if word.len() > 0 {
            assert(line.last() == word[word.len() - 1]);
            assert(line[0] == if current.len() > 0 {
                current[0]
            } else {
                word[0]
            });
        }
    } else if current.len() > 0 && (room_left(current, width) == 0 || text_width(word) <= width
        || fit == 0) {
        let next = Page { lines: lines.push(current), current: nothing };
        assert forall|i: int| 0 <= i < next.lines.len() implies tidy(#[trigger] next.lines[i]) by {
            if i < lines.len() {
                assert(next.lines[i] == lines[i]);
            }
        }
        lemma_word_is_tidy(next, word, width);
    } else {
        let at = if fit > 0 {
            fit
        } else {
            1
        };
        let tail = word.skip(at);
        let line = current + gap(current) + word.take(at);
        assert(line.last() == word[at - 1]);
        assert(line[0] == if current.len() > 0 {
            current[0]
        } else {
            word[0]
        });
        assert forall|j: int| 0 <= j < tail.len() implies !is_white(#[trigger] tail[j]) by {
            assert(tail[j] == word[at + j]);
        }
        let next = Page { lines: lines.push(line), current: nothing };
        assert forall|i: int| 0 <= i < next.lines.len() implies tidy(#[trigger] next.lines[i]) by {
            if i < lines.len() {
                assert(next.lines[i] == lines[i]);
            }
        }
        lemma_word_is_tidy(next, tail, width);
    }
}

proof fn lemma_words_are_tidy(all: Seq<Seq<char>>, width: int)
    requires
        width >= 1,
        text_width(Seq::empty()) == 0,
        forall|i: int| 0 <= i < all.len() ==> (#[trigger] all[i]).len() > 0,
        forall|i: int, j: int|
            0 <= i < all.len() && 0 <= j < all[i].len() ==> !is_white(#[trigger] all[i][j]),
    ensures
        tidy_page(with_words(all, width)),
        bare(with_words(all, width)) == (all.len() == 0),
    decreases all.len(),
{
    if all.len() > 0 {
        let d = all.drop_last();
        assert forall|i: int| 0 <= i < d.len() implies (#[trigger] d[i]).len() > 0 by {
            assert(d[i] == all[i]);
        }
        assert forall|i: int, j: int| 0 <= i < d.len() && 0 <= j < d[i].len() implies !is_white(
            #[trigger] d[i][j],
        ) by {
            assert(d[i][j] == all[i][j]);
        }
        lemma_words_are_tidy(d, width);
        let last = all.last();
        assert(last == all[all.len() - 1]);
        assert forall|j: int| 0 <= j < last.len() implies !is_white(#[trigger] last[j]) by {
            assert(last[j] == all[all.len() - 1][j]);
        }
        lemma_word_is_tidy(with_words(d, width), last, width);
    }
}

/// No line begins or ends with white space, and none is empty, unless nothing is seen of
/// the whole text: then there is one line, an empty one.
pub proof fn law_lines_are_tidy(text: Seq<char>, width: int)
    requires
        text_width(Seq::empty()) == 0,
    ensures
        letters(text).len() > 0 ==> forall|i: int|
            0 <= i < wrapped(text, width).len() ==> tidy(#[trigger] wrapped(text, width)[i]),
        letters(text).len() == 0 ==> wrapped(text, width) == seq![Seq::<char>::empty()],
        wrapped(text, width).len() > 0,
{
    let w = at_least_one(width);
    let all = words(text);
    lemma_words_shape(text);
    assert forall|i: int, j: int| 0 <= i < all.len() && 0 <= j < all[i].len() implies !is_white(
        #[trigger] all[i][j],
    ) by {
        assert(all[i].len() > 0);
    }
    lemma_words_are_tidy(all, w);
    lemma_words_hold_letters(text);
    if all.len() > 0 {
        let d = all.drop_last();
        d.lemma_flatten_push(all.last());
        assert(d.push(all.last()) =~= all);
        assert(all[all.len() - 1].len() > 0);
    } else {
        assert(all.flatten() =~= Seq::<char>::empty());
    }
    let page = with_words(all, w);
    assert forall|i: int| letters(text).len() > 0 && 0 <= i < wrapped(text, width).len() implies tidy(
        #[trigger] wrapped(text, width)[i],
    ) by {
        if i < page.lines.len() {
            assert(wrapped(text, width)[i] == page.lines[i]);
        }
    }
}

} // verus!
