//! Text as a sequence of characters: the pieces that every other module builds on.
//!
//! A string is taken apart into its characters, worked on by position and put
//! together again. Positions are always counted in characters, never in bytes:
//! with bytes a Cyrillic letter would be cut in half.
use vstd::prelude::*;
use vstd::string::*;

verus! {

/// `String::push` of std: the character is added at the end.
pub assume_specification[ String::push ](s: &mut String, ch: char)
    ensures
        final(s)@ == old(s)@.push(ch),
;

/// What `str::to_lowercase` of std makes of a text.
pub uninterp spec fn lower(s: Seq<char>) -> Seq<char>;

/// What `str::to_uppercase` of std makes of a text.
pub uninterp spec fn upper(s: Seq<char>) -> Seq<char>;

/// The first character of what `char::to_lowercase` of std yields.
pub uninterp spec fn lower_char(c: char) -> char;

/// How `Debug` of std writes a character, quotes included.
pub uninterp spec fn quoted_char(c: char) -> Seq<char>;

pub open spec fn is_ascii_char(c: char) -> bool {
    (c as u32) < 128
}

/// An ASCII letter in its small form, any other character as it is.
pub open spec fn ascii_lower(c: char) -> char {
    if 'A' <= c <= 'Z' {
        ((c as u32) + 32) as char
    } else {
        c
    }
}

/// Whether all characters of a text are ASCII.
pub open spec fn all_ascii(s: Seq<char>) -> bool {
    forall|i: int| 0 <= i < s.len() ==> is_ascii_char(#[trigger] s[i])
}

/// Calls `str::to_lowercase` of std. Claimed: the result depends on the text
/// alone and holds no capital letter of ASCII; a text of ASCII characters has its
/// capital letters replaced one for one; a result that is all ASCII is its own lower
/// case.
#[verifier::external_body]
pub(crate) fn to_lower(s: &str) -> (r: String)
    ensures
        r@ == lower(s@),
        forall|i: int| 0 <= i < r@.len() ==> !('A' <= #[trigger] r@[i] <= 'Z'),
        all_ascii(s@) ==> r@ == s@.map_values(|c: char| ascii_lower(c)),
        all_ascii(r@) ==> lower(r@) == r@,
{
    s.to_lowercase()
}

/// Calls `str::to_uppercase` of std. Claimed: the result depends on the text alone.
#[verifier::external_body]
pub(crate) fn to_upper(s: &str) -> (r: String)
    ensures
        r@ == upper(s@),
{
    s.to_uppercase()
}

/// Calls `char::to_lowercase` of std and keeps the first character that it
/// yields. Claimed: the result depends on the character alone; of the letters of ASCII
/// and of the Russian alphabet it is the small one.
#[verifier::external_body]
pub(crate) fn to_lower_char(c: char) -> (r: char)
    ensures
        r == lower_char(c),
        is_ascii_char(c) ==> r == ascii_lower(c),
        'А' <= c <= 'Я' ==> r as u32 == c as u32 + 32,
        'а' <= c <= 'я' ==> r == c,
{
    c.to_lowercase().next().unwrap_or(c)
}

/// Writes a character as `Debug` of std does. Claimed: the result depends on the
/// character alone.
#[verifier::external_body]
pub(crate) fn quote_char(c: char) -> (r: String)
    ensures
        r@ == quoted_char(c),
{
    format!("{c:?}")
}

/// The characters with the Unicode property White_Space.
pub open spec fn is_white(c: char) -> bool {
    let n = c as u32;
    ||| 0x09 <= n <= 0x0d
    ||| n == 0x20
    ||| n == 0x85
    ||| n == 0xa0
    ||| n == 0x1680
    ||| 0x2000 <= n <= 0x200a
    ||| n == 0x2028
    ||| n == 0x2029
    ||| n == 0x202f
    ||| n == 0x205f
    ||| n == 0x3000
}

/// The control characters: the Unicode category Cc.
pub open spec fn is_control(c: char) -> bool {
    let n = c as u32;
    n < 0x20 || 0x7f <= n <= 0x9f
}

/// Whether a character is white space.
pub fn white(c: char) -> (b: bool)
    ensures
        b == is_white(c),
{
    let n: u32 = c as u32;
    (0x09 <= n && n <= 0x0d) || n == 0x20 || n == 0x85 || n == 0xa0 || n == 0x1680 || (0x2000 <= n
        && n <= 0x200a) || n == 0x2028 || n == 0x2029 || n == 0x202f || n == 0x205f || n == 0x3000
}

/// Whether a character is a control character.
pub fn control(c: char) -> (b: bool)
    ensures
        b == is_control(c),
{
    let n: u32 = c as u32;
    n < 0x20 || (0x7f <= n && n <= 0x9f)
}

/// The characters of a text, in order.
pub fn chars_of(s: &str) -> (v: Vec<char>)
    ensures
        v@ == s@,
{
    let mut v: Vec<char> = Vec::new();
    for c in it: s.chars()
        invariant
            v@ == it.seq().take(it.index()),
            it.seq() == s@,
    {
        v.push(c);
        assert(v@ =~= it.seq().take(it.index() + 1));
    }
    assert(v@ =~= s@);
    v
}

/// The text made of the characters from one position up to another.
pub fn text_between(v: &Vec<char>, from: usize, to: usize) -> (s: String)
    requires
        from <= to <= v@.len(),
    ensures
        s@ == v@.subrange(from as int, to as int),
{
    let mut s = String::new();
    let mut i: usize = from;
    while i < to
        invariant
            from <= i <= to <= v@.len(),
            s@ == v@.subrange(from as int, i as int),
        decreases to - i,
    {
        s.push(v[i]);
        i = i + 1;
        assert(s@ =~= v@.subrange(from as int, i as int));
    }
    s
}

/// The text made of the given characters.
pub fn text_of(v: &Vec<char>) -> (s: String)
    ensures
        s@ == v@,
{
    let s = text_between(v, 0, v.len());
    assert(s@ =~= v@);
    s
}

/// How many characters a text has.
pub fn char_count(s: &str) -> (n: usize)
    ensures
        n == s@.len(),
{
    s.unicode_len()
}

/// Whether two texts are the same.
#[verifier::loop_isolation(false)]
pub fn same(a: &str, b: &str) -> (r: bool)
    ensures
        r == (a@ == b@),
{
    let x = chars_of(a);
    let y = chars_of(b);
    if x.len() != y.len() {
        return false;
    }
    let mut i: usize = 0;
    while i < x.len()
        invariant
            i <= x@.len(),
            x@.len() == y@.len(),
            forall|j: int| 0 <= j < i ==> x@[j] == y@[j],
        decreases x@.len() - i,
    {
        if x[i] != y[i] {
            assert(x@[i as int] != y@[i as int]);
            return false;
        }
        i = i + 1;
    }
    assert(x@ =~= y@);
    true
}

/// The first characters of a text, no more than asked for.
pub open spec fn head(s: Seq<char>, n: int) -> Seq<char> {
    if s.len() <= n {
        s
    } else {
        s.take(n)
    }
}

/// The first characters of a text, no more than asked for.
pub fn take_chars(s: &str, n: usize) -> (r: String)
    ensures
        r@ == head(s@, n as int),
{
    let v = chars_of(s);
    if v.len() <= n {
        text_of(&v)
    } else {
        let r = text_between(&v, 0, n);
        assert(r@ =~= s@.take(n as int));
        r
    }
}

/// A text without the white space at its beginning.
pub open spec fn trim_left(s: Seq<char>) -> Seq<char>
    decreases s.len(),
{
    if s.len() > 0 && is_white(s[0]) {
        trim_left(s.drop_first())
    } else {
        s
    }
}

/// A text without the white space at its end.
pub open spec fn trim_right(s: Seq<char>) -> Seq<char>
    decreases s.len(),
{
    if s.len() > 0 && is_white(s.last()) {
        trim_right(s.drop_last())
    } else {
        s
    }
}

/// A text without the white space at both ends.
pub open spec fn trimmed(s: Seq<char>) -> Seq<char> {
    trim_right(trim_left(s))
}

/// A text without the white space at both ends.
#[verifier::loop_isolation(false)]
pub fn trim(s: &str) -> (r: String)
    ensures
        r@ == trimmed(s@),
{
    let v = chars_of(s);
    let mut from: usize = 0;
    proof {
        assert(v@.skip(0) =~= v@);
    }
    while from < v.len() && white(v[from])
        invariant
            from <= v@.len(),
            trim_left(v@) == trim_left(v@.skip(from as int)),
        decreases v@.len() - from,
    {
        proof {
            assert(v@.skip(from as int).drop_first() =~= v@.skip(from + 1));
            assert(v@.skip(from as int)[0] == v@[from as int]);
        }
        from = from + 1;
    }
    proof {
        if from < v@.len() {
            assert(v@.skip(from as int)[0] == v@[from as int]);
        }
        assert(trim_left(v@) == v@.skip(from as int));
        assert(v@.skip(from as int) =~= v@.subrange(from as int, v@.len() as int));
    }
    let mut to: usize = v.len();
    while to > from && white(v[to - 1])
        invariant
            from <= to <= v@.len(),
            trim_left(v@) == v@.subrange(from as int, v@.len() as int),
            trim_right(trim_left(v@)) == trim_right(v@.subrange(from as int, to as int)),
        decreases to,
    {
        proof {
            let w = v@.subrange(from as int, to as int);
            assert(w.drop_last() =~= v@.subrange(from as int, to - 1));
            assert(w.last() == v@[to - 1]);
        }
        to = to - 1;
    }
    proof {
        let w = v@.subrange(from as int, to as int);
        if to > from {
            assert(w.last() == v@[to - 1]);
        }
    }
    text_between(&v, from, to)
}

/// The words of a text: its longest runs of characters that are not white space.
pub open spec fn words(s: Seq<char>) -> Seq<Seq<char>>
    decreases s.len(),
{
    if s.len() == 0 {
        Seq::empty()
    } else {
        let before = words(s.drop_last());
        if is_white(s.last()) {
            before
        } else if s.len() == 1 || is_white(s[s.len() - 2]) {
            before.push(seq![s.last()])
        } else {
            before.update(before.len() - 1, before.last().push(s.last()))
        }
    }
}

/// The words of a text, in order.
#[verifier::loop_isolation(false)]
pub fn split_words(s: &str) -> (r: Vec<String>)
    ensures
        r.deep_view() == words(s@),
{
    let v = chars_of(s);
    let mut out: Vec<String> = Vec::new();
    let mut word = String::new();
    let mut i: usize = 0;
    assert(v@.take(0).len() == 0);
    while i < v.len()
        invariant
            i <= v@.len(),
            i == 0 || is_white(v@[i - 1]) ==> word@.len() == 0 && words(v@.take(i as int))
                == out.deep_view(),
            i > 0 && !is_white(v@[i - 1]) ==> word@.len() > 0 && words(v@.take(i as int))
                == out.deep_view().push(word@),
        decreases v@.len() - i,
    {
        let c = v[i];
        proof {
            assert(v@.take(i + 1).drop_last() =~= v@.take(i as int));
            assert(v@.take(i + 1).last() == c);
        }
        if white(c) {
            if !word.as_str().is_empty() {
                let ghost before = out.deep_view();
                let ghost last = word@;
                out.push(word);
                word = String::new();
                assert(out.deep_view() =~= before.push(last));
            }
        } else {
            let ghost before = word@;
            word.push(c);
            proof {
                if i == 0 || is_white(v@[i - 1]) {
                    assert(word@ =~= seq![c]);
                } else {
                    let w = out.deep_view().push(before);
                    assert(w.update(w.len() - 1, w.last().push(c)) =~= out.deep_view().push(word@));
                }
            }
        }
        i = i + 1;
    }
    assert(v@.take(i as int) =~= v@);
    if !word.as_str().is_empty() {
        let ghost before = out.deep_view();
        let ghost last = word@;
        out.push(word);
        assert(out.deep_view() =~= before.push(last));
    }
    out
}

/// The parts one after another, with the separator between each two of them.
pub open spec fn joined(parts: Seq<Seq<char>>, separator: Seq<char>) -> Seq<char>
    decreases parts.len(),
{
    if parts.len() == 0 {
        Seq::empty()
    } else if parts.len() == 1 {
        parts[0]
    } else {
        joined(parts.drop_last(), separator) + separator + parts.last()
    }
}

/// The parts one after another, with the separator between each two of them.
#[verifier::loop_isolation(false)]
pub fn join(parts: &Vec<String>, separator: &str) -> (r: String)
    ensures
        r@ == joined(parts.deep_view(), separator@),
{
    let mut r = String::new();
    let mut i: usize = 0;
    let ghost all = parts.deep_view();
    assert(all.take(0).len() == 0);
    while i < parts.len()
        invariant
            i <= parts@.len(),
            r@ == joined(all.take(i as int), separator@),
        decreases parts@.len() - i,
    {
        proof {
            assert(all.take(i + 1).drop_last() =~= all.take(i as int));
            assert(all.take(i + 1).last() == parts@[i as int]@);
        }
        if i > 0 {
            r.append(separator);
        }
        r.append(parts[i].as_str());
        proof {
            if i == 0 {
                assert(r@ =~= all.take(1)[0]);
            }
        }
        i = i + 1;
    }
    assert(all.take(i as int) =~= all);
    r
}

/// Whether the needle stands in the text at the given position.
pub open spec fn occurs_at(s: Seq<char>, needle: Seq<char>, i: int) -> bool {
    0 <= i && i + needle.len() <= s.len() && s.subrange(i, i + needle.len()) == needle
}

/// Whether the needle stands in the text anywhere.
pub open spec fn occurs(s: Seq<char>, needle: Seq<char>) -> bool {
    exists|i: int| occurs_at(s, needle, i)
}

/// Whether the needle stands in the characters at the given position.
#[verifier::loop_isolation(false)]
pub fn stands_at(v: &Vec<char>, needle: &Vec<char>, at: usize) -> (r: bool)
    ensures
        r == occurs_at(v@, needle@, at as int),
{
    if at > v.len() || needle.len() > v.len() - at {
        return false;
    }
    let mut j: usize = 0;
    while j < needle.len()
        invariant
            j <= needle@.len(),
            at + needle@.len() <= v@.len(),
            forall|k: int| 0 <= k < j ==> v@[at + k] == needle@[k],
        decreases needle@.len() - j,
    {
        if v[at + j] != needle[j] {
            proof {
                assert(v@.subrange(at as int, at + needle@.len())[j as int] == v@[at + j]);
            }
            return false;
        }
        j = j + 1;
    }
    assert(v@.subrange(at as int, at + needle@.len()) =~= needle@);
    true
}

/// Whether the needle stands in the text anywhere.
#[verifier::loop_isolation(false)]
pub fn contains(s: &str, needle: &str) -> (r: bool)
    ensures
        r == occurs(s@, needle@),
{
    let v = chars_of(s);
    let n = chars_of(needle);
    if n.len() == 0 {
        assert(v@.subrange(0, 0) =~= n@);
        assert(occurs_at(v@, n@, 0));
        return true;
    }
    if n.len() > v.len() {
        return false;
    }
    let mut i: usize = 0;
    while i <= v.len() - n.len()
        invariant
            n@.len() > 0,
            n@.len() <= v@.len(),
            i <= v@.len() - n@.len() + 1,
            forall|k: int| 0 <= k < i ==> !occurs_at(v@, n@, k),
        decreases v@.len() + 1 - i,
    {
        if stands_at(&v, &n, i) {
            return true;
        }
        i = i + 1;
    }
    assert forall|k: int| !occurs_at(v@, n@, k) by {
        if k >= i {
            assert(k + n@.len() > v@.len());
        }
    }
    false
}

/// Whether the text begins with the prefix.
pub open spec fn begins(s: Seq<char>, prefix: Seq<char>) -> bool {
    occurs_at(s, prefix, 0)
}

/// Whether the text begins with the prefix.
pub fn starts(s: &str, prefix: &str) -> (r: bool)
    ensures
        r == begins(s@, prefix@),
{
    let v = chars_of(s);
    let p = chars_of(prefix);
    stands_at(&v, &p, 0)
}

/// The text behind the prefix, where the text begins with it.
pub open spec fn after_prefix(s: Seq<char>, prefix: Seq<char>) -> Option<Seq<char>> {
    if begins(s, prefix) {
        Some(s.skip(prefix.len() as int))
    } else {
        None
    }
}

/// The text behind the prefix, where the text begins with it.
pub fn strip_start(s: &str, prefix: &str) -> (r: Option<String>)
    ensures
        r.deep_view() == after_prefix(s@, prefix@),
{
    let v = chars_of(s);
    let p = chars_of(prefix);
    if stands_at(&v, &p, 0) {
        let rest = text_between(&v, p.len(), v.len());
        assert(rest@ =~= s@.skip(prefix@.len() as int));
        Some(rest)
    } else {
        None
    }
}

/// Where a character first stands in a text; the length of the text where it does
/// not stand there at all.
pub open spec fn place(s: Seq<char>, c: char) -> int
    decreases s.len(),
{
    if s.len() == 0 || s[0] == c {
        0
    } else {
        1 + place(s.drop_first(), c)
    }
}

/// `place` is the first position of the character, and no earlier one holds it.
pub proof fn lemma_place(s: Seq<char>, c: char)
    ensures
        0 <= place(s, c) <= s.len(),
        place(s, c) < s.len() ==> s[place(s, c)] == c,
        forall|i: int| 0 <= i < place(s, c) ==> s[i] != c,
    decreases s.len(),
{
    if s.len() > 0 && s[0] != c {
        lemma_place(s.drop_first(), c);
        assert forall|i: int| 0 <= i < place(s, c) implies s[i] != c by {
            if i > 0 {
                assert(s.drop_first()[i - 1] == s[i]);
            }
        }
    }
}

/// Only `place` is the first position of the character.
pub proof fn lemma_place_is(s: Seq<char>, c: char, at: int)
    requires
        0 <= at <= s.len(),
        at < s.len() ==> s[at] == c,
        forall|i: int| 0 <= i < at ==> s[i] != c,
    ensures
        place(s, c) == at,
{
    lemma_place(s, c);
    if place(s, c) < at {
        assert(s[place(s, c)] != c);
    }
    if at < place(s, c) {
        assert(s[at] != c);
    }
}

/// Where a character first stands among others; their number where it does not.
#[verifier::loop_isolation(false)]
pub fn find(v: &Vec<char>, c: char) -> (at: usize)
    ensures
        at == place(v@, c),
        at <= v@.len(),
{
    let mut i: usize = 0;
    while i < v.len() && v[i] != c
        invariant
            i <= v@.len(),
            forall|k: int| 0 <= k < i ==> v@[k] != c,
        decreases v@.len() - i,
    {
        i = i + 1;
    }
    proof {
        lemma_place_is(v@, c, i as int);
    }
    i
}

/// A digit as a character.
pub open spec fn digit(n: nat) -> char {
    (48 + n) as char
}

/// A number in decimal digits.
pub open spec fn decimal(n: nat) -> Seq<char>
    decreases n,
{
    if n < 10 {
        seq![digit(n)]
    } else {
        decimal(n / 10).push(digit(n % 10))
    }
}

/// A number in decimal digits.
pub fn number(n: u64) -> (s: String)
    ensures
        s@ == decimal(n as nat),
    decreases n,
{
    let mut s = if n < 10 {
        String::new()
    } else {
        number(n / 10)
    };
    let d: u8 = (48 + n % 10) as u8;
    s.push(d as char);
    proof {
        if n < 10 {
            assert(s@ =~= seq![digit(n as nat)]);
        }
    }
    s
}

/// One text behind another.
pub fn glue(a: &str, b: &str) -> (s: String)
    ensures
        s@ == a@ + b@,
{
    let mut s = a.to_owned();
    s.append(b);
    s
}

/// Three texts one behind another.
pub fn glue3(a: &str, b: &str, c: &str) -> (s: String)
    ensures
        s@ == a@ + b@ + c@,
{
    let mut s = a.to_owned();
    s.append(b);
    s.append(c);
    s
}

} // verus!
