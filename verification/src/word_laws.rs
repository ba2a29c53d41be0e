//! What holds of texts, names and numbers that people type.
use crate::console::{digits_value, port_of};
use crate::seqs::text_le;
use crate::text::{
    decimal, digit, head, is_control, is_white, joined, lower, trim_left, trim_right, trimmed,
    words,
};
use crate::validate::{
    byte_len, cleaned_file_name, cleaned_nickname, cleaned_room, cleaned_text, file_char, first_bad,
    invisible, kept, lemma_first_bad, lemma_words_shape, nickname_char, room_char, Problem,
};
use vstd::prelude::*;

verus! {

/// Whether a text is nothing but white space.
pub open spec fn blank(s: Seq<char>) -> bool {
    forall|i: int| 0 <= i < s.len() ==> is_white(#[trigger] s[i])
}

/// Whether a text holds no white space.
pub open spec fn unbroken(s: Seq<char>) -> bool {
    forall|i: int| 0 <= i < s.len() ==> !is_white(#[trigger] s[i])
}

/// Letters, digits and signs are seen; spaces, tabs and line breaks are white space; what
/// steers a terminal is a control character, and what only steers the writing is
/// invisible.
pub proof fn law_kinds_of_characters(c: char)
    ensures
        0x21 <= c as u32 <= 0x7e ==> nickname_char(c),
        0x400 <= c as u32 <= 0x4ff ==> nickname_char(c),
        0x4e00 <= c as u32 <= 0x9fff ==> nickname_char(c),
        0x1f300 <= c as u32 <= 0x1faff ==> nickname_char(c),
        c == ' ' || c == '\t' || c == '\n' || c == '\r' || c as u32 == 0xa0 || c as u32 == 0x3000
            ==> is_white(c) && !nickname_char(c),
        (c as u32) < 0x20 || 0x7f <= c as u32 <= 0x9f ==> is_control(c) && !nickname_char(c),
        0x200b <= c as u32 <= 0x200f || 0x202a <= c as u32 <= 0x202e || 0x2066 <= c as u32 <= 0x2069
            || c as u32 == 0xfeff || c as u32 == 0x61c || c as u32 == 0x180e ==> invisible(c)
            && !nickname_char(c) && !is_white(c),
        is_white(c) ==> !invisible(c),
{
}

/// Cutting off white space takes all of it at both ends and nothing else.
pub proof fn law_trim_takes_the_ends(before: Seq<char>, core: Seq<char>, after: Seq<char>)
    requires
        blank(before),
        blank(after),
        core.len() > 0 ==> !is_white(core[0]) && !is_white(core.last()),
    ensures
        trimmed(before + core + after) == core,
    decreases before.len() + after.len(),
{
    let s = before + core + after;
    if before.len() > 0 {
        assert(is_white(before[0]));
        assert(s[0] == before[0]);
        assert forall|i: int| 0 <= i < before.drop_first().len() implies is_white(
            #[trigger] before.drop_first()[i],
        ) by {
            assert(before.drop_first()[i] == before[i + 1]);
        }
        law_trim_takes_the_ends(before.drop_first(), core, after);
        assert(s.drop_first() =~= before.drop_first() + core + after);
        assert(trim_left(s) == trim_left(s.drop_first()));
    } else if core.len() == 0 {
        assert(s =~= after);
        lemma_blank_left(after);
        assert(core =~= Seq::<char>::empty());
    } else {
        assert(s[0] == core[0]);
        assert(trim_left(s) == s);
        if after.len() > 0 {
            assert(is_white(after[after.len() - 1]));
            assert(s.last() == after.last());
            let less = after.drop_last();
            assert forall|i: int| 0 <= i < less.len() implies is_white(#[trigger] less[i]) by {
                assert(less[i] == after[i]);
            }
            law_trim_takes_the_ends(before, core, less);
            assert(s.drop_last() =~= before + core + less);
            assert((before + core + less)[0] == core[0]);
            assert(trim_left(s.drop_last()) == s.drop_last());
        } else {
            assert(s =~= core);
        }
    }
}

proof fn lemma_blank_left(s: Seq<char>)
    requires
        blank(s),
    ensures
        trim_left(s) == Seq::<char>::empty(),
    decreases s.len(),
{
    if s.len() > 0 {
        assert(is_white(s[0]));
        let rest = s.drop_first();
        assert forall|i: int| 0 <= i < rest.len() implies is_white(#[trigger] rest[i]) by {
            assert(rest[i] == s[i + 1]);
        }
        lemma_blank_left(rest);
    } else {
        assert(s =~= Seq::<char>::empty());
    }
}

/// White space parts words: what stands before it and what stands behind it have their
/// words apart. A text without any is one word.
pub proof fn law_white_space_parts_words(a: Seq<char>, w: char, b: Seq<char>)
    requires
        is_white(w),
    ensures
        words(a + seq![w] + b) == words(a) + words(b),
    decreases b.len(),
{
    let s = a + seq![w] + b;
    if b.len() == 0 {
        assert(s.last() == w);
        assert(s.drop_last() =~= a);
        assert(words(b) =~= Seq::<Seq<char>>::empty());
        assert(words(a) + words(b) =~= words(a));
    } else {
        let d = b.drop_last();
        law_white_space_parts_words(a, w, d);
        assert(s.drop_last() =~= a + seq![w] + d);
        assert(s.last() == b.last());
        if !is_white(b.last()) {
            if b.len() == 1 {
                assert(s[s.len() - 2] == w);
                assert(words(d) =~= Seq::<Seq<char>>::empty());
                assert(words(b) =~= seq![seq![b.last()]]);
                assert(words(a) + words(b) =~= (words(a) + words(d)).push(seq![b.last()]));
            } else {
                assert(s[s.len() - 2] == b[b.len() - 2]);
                if is_white(b[b.len() - 2]) {
                    assert(words(a) + words(b) =~= (words(a) + words(d)).push(seq![b.last()]));
                } else {
                    assert(d.last() == b[b.len() - 2]);
                    lemma_words_shape(d);
                    let all = words(a) + words(d);
                    assert(all.last() == words(d).last());
                    assert(words(a) + words(b) =~= all.update(
                        all.len() - 1,
                        all.last().push(b.last()),
                    ));
                }
            }
        }
    }
}

/// A text without white space is one word.
pub proof fn law_unbroken_is_one_word(word: Seq<char>)
    requires
        unbroken(word),
        word.len() > 0,
    ensures
        words(word) == seq![word],
    decreases word.len(),
{
    let short = word.drop_last();
    assert(!is_white(word[word.len() - 1]));
    if short.len() == 0 {
        assert(words(short) =~= Seq::<Seq<char>>::empty());
        assert(word =~= seq![word.last()]);
        assert(words(word) =~= seq![word]);
    } else {
        assert forall|j: int| 0 <= j < short.len() implies !is_white(#[trigger] short[j]) by {
            assert(short[j] == word[j]);
        }
        law_unbroken_is_one_word(short);
        assert(!is_white(word[word.len() - 2]));
        assert(short.push(word.last()) =~= word);
        assert(seq![short].update(0, short.push(word.last())) =~= seq![word]);
    }
}

/// Parts are joined in their order, with the separator between two of them and nowhere
/// else.
pub proof fn law_joined_parts(parts: Seq<Seq<char>>, one: Seq<char>, separator: Seq<char>)
    ensures
        joined(Seq::empty(), separator).len() == 0,
        joined(seq![one], separator) == one,
        parts.len() > 0 ==> joined(parts.push(one), separator) == joined(parts, separator)
            + separator + one,
{
    assert(parts.push(one).drop_last() =~= parts);
}

/// A number and its digits stand for each other.
pub proof fn law_digits_write_the_number(n: nat)
    ensures
        digits_value(decimal(n)) == Some(n as int),
        decimal(n).len() > 0,
        decimal(n).len() > 1 ==> decimal(n)[0] != '0',
    decreases n,
{
    if n >= 10 {
        law_digits_write_the_number(n / 10);
        let d = decimal(n);
        assert(d.drop_last() =~= decimal(n / 10));
        assert(d.last() == digit(n % 10));
        assert(d[0] == decimal(n / 10)[0]);
        if decimal(n / 10).len() == 1 {
            assert(n / 10 >= 1);
            lemma_one_digit(n / 10);
        }
    } else {
        assert(decimal(n).last() == digit(n));
    }
}

proof fn lemma_one_digit(n: nat)
    requires
        n >= 1,
        decimal(n).len() == 1,
    ensures
        decimal(n)[0] != '0',
{
    reveal_with_fuel(decimal, 3);
}

/// A port is written by its digits, up to the largest one.
pub proof fn law_ports_are_read(n: nat)
    ensures
        n <= 65535 ==> port_of(decimal(n)) == Some(n as int),
        n > 65535 ==> port_of(decimal(n)) is None,
        port_of(Seq::empty()) is None,
{
    law_digits_write_the_number(n);
    if decimal(n)[0] == '+' {
        lemma_only_digits(n);
    }
}

proof fn lemma_only_digits(n: nat)
    ensures
        forall|i: int| 0 <= i < decimal(n).len() ==> '0' <= #[trigger] decimal(n)[i] <= '9',
    decreases n,
{
    if n >= 10 {
        lemma_only_digits(n / 10);
        assert forall|i: int| 0 <= i < decimal(n).len() implies '0' <= #[trigger] decimal(n)[i]
            <= '9' by {
            if i < decimal(n / 10).len() {
                assert(decimal(n)[i] == decimal(n / 10)[i]);
            }
        }
    }
}

/// A name of one to twenty characters that are seen is taken as it is, white space around
/// it aside.
pub proof fn law_good_name_is_taken(before: Seq<char>, name: Seq<char>, after: Seq<char>)
    requires
        blank(before),
        blank(after),
        1 <= name.len() <= 20,
        forall|i: int|
            0 <= i < name.len() ==> !is_white(#[trigger] name[i]) && !is_control(name[i])
                && !invisible(name[i]),
        byte_len(before + name + after) <= 16384,
    ensures
        cleaned_nickname(before + name + after) == Ok::<Seq<char>, Problem>(name),
{
    assert(!is_white(name[0]) && !is_white(name[name.len() - 1]));
    law_trim_takes_the_ends(before, name, after);
    let good = |c: char| nickname_char(c);
    lemma_first_bad(name, good);
    assert forall|i: int| 0 <= i < name.len() implies good(#[trigger] name[i]) by {
        assert(!is_white(name[i]));
    }
}

/// Whether a character is one of a text.
pub open spec fn stands_in(c: char, s: Seq<char>) -> bool {
    exists|i: int| 0 <= i < s.len() && #[trigger] s[i] == c
}

/// What is told of a name that is not taken is true of it: it is empty, or it holds the
/// character that is shown, or it has as many characters as is said, which are too many.
pub proof fn law_why_name_is_refused(raw: Seq<char>)
    ensures
        match cleaned_nickname(raw) {
            Ok(name) => {
                &&& 1 <= name.len() <= 20
                &&& name == trimmed(raw)
                &&& unbroken(name)
            },
            Err(Problem::Empty { .. }) => trimmed(raw).len() == 0,
            Err(Problem::IllegalChar { ch, .. }) => stands_in(ch, trimmed(raw)) && (is_white(ch)
                || is_control(ch) || invisible(ch)),
            Err(Problem::TooLong { max, actual, .. }) => actual > max && ((max == 20 && actual
                == trimmed(raw).len()) || (max == 16384 && actual == byte_len(raw))),
        },
{
    let name = trimmed(raw);
    let good = |c: char| nickname_char(c);
    lemma_first_bad(name, good);
    lemma_first_bad_is_bad(name, good);
    if cleaned_nickname(raw) is Ok {
        assert forall|i: int| 0 <= i < name.len() implies !is_white(#[trigger] name[i]) by {
            assert(good(name[i]));
        }
    }
}

proof fn lemma_first_bad_is_bad(s: Seq<char>, good: spec_fn(char) -> bool)
    ensures
        first_bad(s, good) matches Some(ch) ==> !good(ch) && stands_in(ch, s),
    decreases s.len(),
{
    if s.len() > 0 {
        let rest = s.drop_first();
        lemma_first_bad_is_bad(rest, good);
        if let Some(ch) = first_bad(s, good) {
            if good(s[0]) {
                let i = choose|i: int| 0 <= i < rest.len() && #[trigger] rest[i] == ch;
                assert(s[i + 1] == ch);
            } else {
                assert(s[0] == ch);
            }
        }
    }
}

/// A room of one to thirty-two small Latin letters, digits, dashes and underscores is taken
/// as it is; capitals are made small, and white space around it is cut off.
pub proof fn law_good_room_is_taken(
    before: Seq<char>,
    typed: Seq<char>,
    after: Seq<char>,
    name: Seq<char>,
)
    requires
        blank(before),
        blank(after),
        typed.len() > 0 && !is_white(typed[0]) && !is_white(typed.last()),
        lower(typed) == name,
        1 <= name.len() <= 32,
        forall|i: int|
            0 <= i < name.len() ==> 'a' <= #[trigger] name[i] <= 'z' || '0' <= name[i] <= '9'
                || name[i] == '_' || name[i] == '-',
        byte_len(before + typed + after) <= 16384,
    ensures
        cleaned_room(before + typed + after) == Ok::<Seq<char>, Problem>(name),
{
    law_trim_takes_the_ends(before, typed, after);
    let good = |c: char| room_char(c);
    lemma_first_bad(name, good);
    assert forall|i: int| 0 <= i < name.len() implies good(#[trigger] name[i]) by {}
}

/// What is told of a room that is not taken is true of it.
pub proof fn law_why_room_is_refused(raw: Seq<char>)
    ensures
        match cleaned_room(raw) {
            Ok(name) => {
                &&& name == lower(trimmed(raw))
                &&& 1 <= name.len() <= 32
                &&& forall|i: int|
                    0 <= i < name.len() ==> 'a' <= #[trigger] name[i] <= 'z' || '0' <= name[i]
                        <= '9' || name[i] == '_' || name[i] == '-'
            },
            Err(Problem::Empty { .. }) => lower(trimmed(raw)).len() == 0,
            Err(Problem::IllegalChar { ch, .. }) => {
                &&& stands_in(ch, lower(trimmed(raw)))
                &&& !('a' <= ch <= 'z') && !('0' <= ch <= '9') && ch != '_' && ch != '-'
            },
            Err(Problem::TooLong { max, actual, .. }) => actual > max && ((max == 32 && actual
                == lower(trimmed(raw)).len()) || (max == 16384 && actual == byte_len(raw))),
        },
{
    let name = lower(trimmed(raw));
    let good = |c: char| room_char(c);
    lemma_first_bad(name, good);
    lemma_first_bad_is_bad(name, good);
    if cleaned_room(raw) is Ok {
        assert forall|i: int| 0 <= i < name.len() implies 'a' <= #[trigger] name[i] <= 'z' || '0'
            <= name[i] <= '9' || name[i] == '_' || name[i] == '-' by {
            assert(good(name[i]));
        }
    }
}

/// Whether a text is words with single spaces between them.
pub open spec fn single_spaced(s: Seq<char>) -> bool {
    &&& forall|i: int| 0 <= i < s.len() && is_white(#[trigger] s[i]) ==> s[i] == ' '
    &&& forall|i: int, j: int|
        #![trigger s[i], s[j]]
        0 <= i < s.len() && j == i + 1 && j < s.len() && is_white(s[j]) ==> !is_white(s[i])
    &&& s.len() > 0 ==> !is_white(s[0]) && !is_white(s.last())
}

/// One more word behind a space keeps a text single-spaced.
proof fn lemma_one_more_word(a: Seq<char>, word: Seq<char>)
    requires
        single_spaced(a),
        a.len() > 0,
        unbroken(word),
        word.len() > 0,
    ensures
        single_spaced(a + seq![' '] + word),
{
    let all = a + seq![' '] + word;
    assert forall|i: int| 0 <= i < all.len() && is_white(#[trigger] all[i]) implies all[i] == ' ' by {
        if i < a.len() {
            assert(all[i] == a[i]);
        } else if i > a.len() {
            assert(all[i] == word[i - a.len() - 1]);
        }
    }
    assert forall|i: int, j: int|
        #![trigger all[i], all[j]]
        0 <= i < all.len() && j == i + 1 && j < all.len() && is_white(all[j]) implies !is_white(
        all[i],
    ) by {
        if j < a.len() {
            assert(all[i] == a[i] && all[j] == a[j]);
        } else if j == a.len() {
            assert(all[i] == a.last());
        } else {
            assert(all[j] == word[j - a.len() - 1]);
        }
    }
    assert(all[0] == a[0]);
    assert(all.last() == word[word.len() - 1]);
}

/// What is seen of a text with a space and a word behind it.
proof fn lemma_seen_behind(a: Seq<char>, word: Seq<char>)
    requires
        unbroken(word),
    ensures
        (a + seq![' '] + word).filter(|c: char| !is_white(c)) == a.filter(|c: char| !is_white(c))
            + word,
{
    let seen = |c: char| !is_white(c);
    lemma_seen_all(word);
    Seq::filter_distributes_over_add(a + seq![' '], word, seen);
    Seq::filter_distributes_over_add(a, seq![' '], seen);
    reveal(Seq::filter);
    assert(seq![' '].drop_last() =~= Seq::<char>::empty());
    assert(seq![' '].drop_last().filter(seen) =~= Seq::<char>::empty());
    assert(seq![' '].filter(seen) =~= Seq::<char>::empty());
    assert(a.filter(seen) + Seq::<char>::empty() =~= a.filter(seen));
}

proof fn lemma_single_spaced(parts: Seq<Seq<char>>)
    requires
        forall|i: int| 0 <= i < parts.len() ==> (#[trigger] parts[i]).len() > 0,
        forall|i: int| 0 <= i < parts.len() ==> unbroken(#[trigger] parts[i]),
    ensures
        single_spaced(joined(parts, " "@)),
        parts.len() > 0 ==> joined(parts, " "@).len() > 0,
        joined(parts, " "@).filter(|c: char| !is_white(c)) == parts.flatten(),
    decreases parts.len(),
{
    reveal_strlit(" ");
    assert(" "@ =~= seq![' ']);
    let seen = |c: char| !is_white(c);
    let all = joined(parts, " "@);
    if parts.len() == 0 {
        reveal(Seq::filter);
        assert(all.filter(seen) =~= parts.flatten());
    } else {
        let last = parts.last();
        let rest = parts.drop_last();
        assert(last == parts[parts.len() - 1]);
        assert(unbroken(last));
        assert forall|i: int| 0 <= i < rest.len() implies (#[trigger] rest[i]).len() > 0
            && unbroken(rest[i]) by {
            assert(rest[i] == parts[i]);
        }
        lemma_single_spaced(rest);
        lemma_seen_all(last);
        rest.lemma_flatten_push(last);
        assert(rest.push(last) =~= parts);
        let a = joined(rest, " "@);
        assert(!is_white(last[0]) && !is_white(last[last.len() - 1]));
        if parts.len() == 1 {
            assert(all == last);
            assert(rest.flatten() =~= Seq::<char>::empty());
            assert(parts.flatten() =~= last);
            assert forall|i: int| 0 <= i < all.len() implies !is_white(#[trigger] all[i]) by {
                assert(all[i] == last[i]);
            }
        } else {
            assert(all == a + seq![' '] + last);
            lemma_one_more_word(a, last);
            lemma_seen_behind(a, last);
        }
    }
}

proof fn lemma_seen_all(word: Seq<char>)
    requires
        unbroken(word),
    ensures
        word.filter(|c: char| !is_white(c)) == word,
    decreases word.len(),
{
    reveal(Seq::filter);
    if word.len() > 0 {
        let d = word.drop_last();
        assert forall|j: int| 0 <= j < d.len() implies !is_white(#[trigger] d[j]) by {
            assert(d[j] == word[j]);
        }
        lemma_seen_all(d);
        assert(!is_white(word[word.len() - 1]));
        assert(d.push(word.last()) =~= word);
    }
}

/// A message that is taken says what was typed: the characters that are seen are all there,
/// in their order, and no others; between words there is one space.
pub proof fn law_message_says_what_was_typed(raw: Seq<char>)
    ensures
        match cleaned_text(raw) {
            Ok(text) => {
                &&& 1 <= text.len() <= 1000
                &&& single_spaced(text)
                &&& text.filter(|c: char| !is_white(c)) == raw.filter(
                    |c: char| !is_white(c) && !is_control(c) && !invisible(c),
                )
            },
            Err(Problem::Empty { .. }) => raw.filter(
                |c: char| !is_white(c) && !is_control(c) && !invisible(c),
            ).len() == 0,
            Err(Problem::TooLong { max, actual, .. }) => actual > max && (max == 1000 || (max
                == 16384 && actual == byte_len(raw))),
            Err(Problem::IllegalChar { .. }) => false,
        },
{
    let rest = raw.filter(|c: char| kept(c));
    let parts = words(rest);
    lemma_words_shape(rest);
    assert forall|i: int| 0 <= i < parts.len() implies (#[trigger] parts[i]).len() > 0 && unbroken(
        parts[i],
    ) by {}
    lemma_single_spaced(parts);
    crate::width_laws::lemma_words_hold_letters(rest);
    lemma_seen_twice(raw);
    assert(parts.flatten() == rest.filter(crate::width_laws::solid()));
    assert(crate::width_laws::solid() =~= (|c: char| !is_white(c)));
    let seen = raw.filter(|c: char| !is_white(c) && !is_control(c) && !invisible(c));
    assert(parts.flatten() == seen);
    if parts.len() == 0 {
        assert(parts.flatten() =~= Seq::<char>::empty());
    }
    let text = joined(parts, " "@);
    if text.len() == 0 {
        reveal(Seq::filter);
    }
}

proof fn lemma_seen_twice(raw: Seq<char>)
    ensures
        raw.filter(|c: char| kept(c)).filter(|c: char| !is_white(c)) == raw.filter(
            |c: char| !is_white(c) && !is_control(c) && !invisible(c),
        ),
    decreases raw.len(),
{
    reveal(Seq::filter);
    let k = |c: char| kept(c);
    let seen = |c: char| !is_white(c);
    let both = |c: char| !is_white(c) && !is_control(c) && !invisible(c);
    if raw.len() > 0 {
        let d = raw.drop_last();
        lemma_seen_twice(d);
        if k(raw.last()) {
            d.filter(k).lemma_filter_push(raw.last(), seen);
        }
    } else {
        assert(raw.filter(k).filter(seen) =~= raw.filter(both));
    }
}

/// The name of a file keeps at most eighty characters, none of which parts a path or steers
/// a terminal; it is never empty, and a plain name stays as it is.
pub proof fn law_file_names_are_plain(raw: Seq<char>)
    ensures
        ({
            let name = cleaned_file_name(raw);
            &&& 1 <= name.len() <= 80
            &&& forall|i: int|
                0 <= i < name.len() ==> {
                    let c = #[trigger] name[i];
                    c != '/' && c != '\\' && c != ':' && !is_control(c) && !invisible(c)
                }
            &&& (1 <= raw.len() <= 80 && !is_white(raw[0]) && !is_white(raw.last()) && forall|i: int|
                0 <= i < raw.len() ==> {
                    let c = #[trigger] raw[i];
                    c != '/' && c != '\\' && c != ':' && !is_control(c) && !invisible(c)
                }) ==> name == raw
        }),
{
    reveal_strlit("файл");
    let shown = head(raw, 80);
    let plain = shown.map_values(|c: char| file_char(c));
    lemma_trimmed_part(plain);
    let name = trimmed(plain);
    let full = cleaned_file_name(raw);
    assert forall|i: int| 0 <= i < full.len() implies {
        let c = #[trigger] full[i];
        c != '/' && c != '\\' && c != ':' && !is_control(c) && !invisible(c)
    } by {
        if name.len() > 0 {
            assert(plain.contains(name[i]));
            let k = choose|k: int| 0 <= k < plain.len() && plain[k] == name[i];
            assert(plain[k] == file_char(shown[k]));
        }
    }
    if 1 <= raw.len() <= 80 && !is_white(raw[0]) && !is_white(raw.last()) && forall|i: int|
        0 <= i < raw.len() ==> {
            let c = #[trigger] raw[i];
            c != '/' && c != '\\' && c != ':' && !is_control(c) && !invisible(c)
        } {
        assert(shown =~= raw);
        assert(plain =~= raw) by {
            assert forall|i: int| 0 <= i < raw.len() implies plain[i] == raw[i] by {
                let c = raw[i];
            }
        }
        law_trim_takes_the_ends(Seq::empty(), raw, Seq::empty());
        assert(Seq::<char>::empty() + raw + Seq::<char>::empty() =~= raw);
    }
}

/// Every sign that cannot stand in the name of a file is replaced by an underscore, one by
/// one; the others stay where they are.
pub proof fn law_bad_signs_are_replaced(raw: Seq<char>)
    requires
        1 <= raw.len() <= 80,
        !is_white(raw[0]),
        !is_white(raw.last()),
    ensures
        cleaned_file_name(raw).len() == raw.len(),
        forall|i: int|
            0 <= i < raw.len() ==> {
                let c = raw[i];
                #[trigger] cleaned_file_name(raw)[i] == if c == '/' || c == '\\' || c == ':'
                    || is_control(c) || invisible(c) {
                    '_'
                } else {
                    c
                }
            },
{
    let plain = raw.map_values(|c: char| file_char(c));
    assert(plain[0] == file_char(raw[0]));
    assert(plain.last() == file_char(raw.last()));
    law_trim_takes_the_ends(Seq::empty(), plain, Seq::empty());
    assert(Seq::<char>::empty() + plain + Seq::<char>::empty() =~= plain);
}

/// The words of a message are the words that were typed, once what is not seen is taken
/// out: none is lost, parted or put together with another one.
pub proof fn law_message_keeps_its_words(raw: Seq<char>)
    ensures
        cleaned_text(raw) matches Ok(text) ==> words(text) == words(
            raw.filter(|c: char| !invisible(c) && (is_white(c) || !is_control(c))),
        ),
{
    let seen = |c: char| !invisible(c) && (is_white(c) || !is_control(c));
    let pass = |c: char| kept(c);
    assert(seen =~= pass);
    let parts = words(raw.filter(pass));
    lemma_words_shape(raw.filter(pass));
    assert forall|i: int| 0 <= i < parts.len() implies {
        &&& (#[trigger] parts[i]).len() > 0
        &&& forall|j: int| 0 <= j < parts[i].len() ==> !is_white(#[trigger] parts[i][j])
    } by {}
    crate::validate::lemma_words_of_joined(parts);
}

proof fn lemma_trimmed_part(s: Seq<char>)
    ensures
        trimmed(s).len() <= s.len(),
        forall|i: int| 0 <= i < trimmed(s).len() ==> s.contains(#[trigger] trimmed(s)[i]),
{
    lemma_left_part(s);
    let l = trim_left(s);
    lemma_right_part(l);
    assert forall|i: int| 0 <= i < trimmed(s).len() implies s.contains(#[trigger] trimmed(s)[i]) by {
        assert(l.contains(trimmed(s)[i]));
        let k = choose|k: int| 0 <= k < l.len() && l[k] == trimmed(s)[i];
        assert(s.contains(l[k]));
    }
}

proof fn lemma_left_part(s: Seq<char>)
    ensures
        trim_left(s).len() <= s.len(),
        forall|i: int| 0 <= i < trim_left(s).len() ==> s.contains(#[trigger] trim_left(s)[i]),
    decreases s.len(),
{
    if s.len() > 0 && is_white(s[0]) {
        let d = s.drop_first();
        lemma_left_part(d);
        assert forall|i: int| 0 <= i < trim_left(s).len() implies s.contains(
            #[trigger] trim_left(s)[i],
        ) by {
            assert(d.contains(trim_left(d)[i]));
            let k = choose|k: int| 0 <= k < d.len() && d[k] == trim_left(d)[i];
            assert(s[k + 1] == d[k]);
        }
    }
}

proof fn lemma_right_part(s: Seq<char>)
    ensures
        trim_right(s).len() <= s.len(),
        forall|i: int| 0 <= i < trim_right(s).len() ==> s.contains(#[trigger] trim_right(s)[i]),
    decreases s.len(),
{
    if s.len() > 0 && is_white(s.last()) {
        let d = s.drop_last();
        lemma_right_part(d);
        assert forall|i: int| 0 <= i < trim_right(s).len() implies s.contains(
            #[trigger] trim_right(s)[i],
        ) by {
            assert(d.contains(trim_right(d)[i]));
            let k = choose|k: int| 0 <= k < d.len() && d[k] == trim_right(d)[i];
            assert(s[k] == d[k]);
        }
    }
}

/// Texts stand in the order of their characters: the first one in which they differ decides,
/// and a text stands before a longer one that begins with it.
pub proof fn law_texts_stand_in_order(before: Seq<char>, a: Seq<char>, b: Seq<char>)
    ensures
        a.len() > 0 && b.len() > 0 && a[0] < b[0] ==> text_le(
            before + a,
            before + b,
        ) && !text_le(before + b, before + a),
        text_le(before, before + a),
        a.len() > 0 ==> !text_le(before + a, before),
    decreases before.len(),
{
    if before.len() > 0 {
        let d = before.drop_first();
        law_texts_stand_in_order(d, a, b);
        assert((before + a).drop_first() =~= d + a);
        assert((before + b).drop_first() =~= d + b);
    } else {
        assert(before + a =~= a);
        assert(before + b =~= b);
    }
}

} // verus!
