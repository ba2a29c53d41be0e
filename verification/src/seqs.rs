//! Looking things up in sequences and putting them in order.
use crate::text::chars_of;
use vstd::prelude::*;

verus! {

/// The first position whose item passes the test; the length where none does.
pub open spec fn first_where<T>(s: Seq<T>, test: spec_fn(T) -> bool) -> int
    decreases s.len(),
{
    if s.len() == 0 || test(s[0]) {
        0
    } else {
        1 + first_where(s.drop_first(), test)
    }
}

/// `first_where` is a position of the sequence or its length, and no earlier item
/// passes the test.
pub proof fn lemma_first_where<T>(s: Seq<T>, test: spec_fn(T) -> bool)
    ensures
        0 <= first_where(s, test) <= s.len(),
        first_where(s, test) < s.len() ==> test(s[first_where(s, test)]),
        forall|i: int| 0 <= i < first_where(s, test) ==> !test(#[trigger] s[i]),
    decreases s.len(),
{
    if s.len() > 0 && !test(s[0]) {
        lemma_first_where(s.drop_first(), test);
        assert forall|i: int| 0 <= i < first_where(s, test) implies !test(#[trigger] s[i]) by {
            if i > 0 {
                assert(s.drop_first()[i - 1] == s[i]);
            }
        }
    }
}

/// Only one position can be the first whose item passes the test.
pub proof fn lemma_first_where_is<T>(s: Seq<T>, test: spec_fn(T) -> bool, at: int)
    requires
        0 <= at <= s.len(),
        at < s.len() ==> test(s[at]),
        forall|i: int| 0 <= i < at ==> !test(#[trigger] s[i]),
    ensures
        first_where(s, test) == at,
{
    lemma_first_where(s, test);
    if first_where(s, test) < at {
        assert(!test(s[first_where(s, test)]));
    }
    if at < first_where(s, test) {
        assert(!test(s[at]));
    }
}

/// Whether some item passes the test.
pub open spec fn any_where<T>(s: Seq<T>, test: spec_fn(T) -> bool) -> bool {
    first_where(s, test) < s.len()
}

/// The last position whose item passes the test; -1 where none does.
pub open spec fn last_where<T>(s: Seq<T>, test: spec_fn(T) -> bool) -> int
    decreases s.len(),
{
    if s.len() == 0 {
        -1
    } else if test(s.last()) {
        s.len() - 1
    } else {
        last_where(s.drop_last(), test)
    }
}

/// `last_where` is a position of the sequence or -1, and no later item passes the
/// test.
pub proof fn lemma_last_where<T>(s: Seq<T>, test: spec_fn(T) -> bool)
    ensures
        -1 <= last_where(s, test) < s.len(),
        last_where(s, test) >= 0 ==> test(s[last_where(s, test)]),
        forall|i: int| last_where(s, test) < i < s.len() ==> !test(#[trigger] s[i]),
    decreases s.len(),
{
    if s.len() > 0 && !test(s.last()) {
        lemma_last_where(s.drop_last(), test);
        assert forall|i: int| last_where(s, test) < i < s.len() implies !test(#[trigger] s[i]) by {
            if i < s.len() - 1 {
                assert(s.drop_last()[i] == s[i]);
            }
        }
    }
}

/// Only one position can be the last whose item passes the test.
pub proof fn lemma_last_where_is<T>(s: Seq<T>, test: spec_fn(T) -> bool, at: int)
    requires
        -1 <= at < s.len(),
        at >= 0 ==> test(s[at]),
        forall|i: int| at < i < s.len() ==> !test(#[trigger] s[i]),
    ensures
        last_where(s, test) == at,
{
    lemma_last_where(s, test);
    if last_where(s, test) > at {
        assert(!test(s[last_where(s, test)]));
    }
    if at > last_where(s, test) {
        assert(!test(s[at]));
    }
}

/// A sequence in the given order. Items that are equal in that order stay in the
/// order in which they came.
pub open spec fn sorted<T>(s: Seq<T>, le: spec_fn(T, T) -> bool) -> Seq<T>
    decreases s.len(),
{
    if s.len() == 0 {
        s
    } else {
        let rest = sorted(s.drop_first(), le);
        rest.insert(first_where(rest, |e: T| le(s[0], e)), s[0])
    }
}

/// Whether each item may stand before all that follow it.
pub open spec fn in_order<T>(s: Seq<T>, le: spec_fn(T, T) -> bool) -> bool {
    forall|i: int, j: int| 0 <= i < j < s.len() ==> le(#[trigger] s[i], #[trigger] s[j])
}

/// Whether an order compares any two items and carries over from one to the next.
pub open spec fn total_order<T>(le: spec_fn(T, T) -> bool) -> bool {
    &&& forall|a: T, b: T| #[trigger] le(a, b) || le(b, a)
    &&& forall|a: T, b: T, c: T| #[trigger] le(a, b) && #[trigger] le(b, c) ==> le(a, c)
}

/// Putting a sequence in order neither adds nor loses an item.
pub proof fn law_sorted_keeps_items<T>(s: Seq<T>, le: spec_fn(T, T) -> bool)
    ensures
        sorted(s, le).to_multiset() == s.to_multiset(),
        sorted(s, le).len() == s.len(),
    decreases s.len(),
{
    broadcast use vstd::seq_lib::group_to_multiset_ensures;

    if s.len() > 0 {
        law_sorted_keeps_items(s.drop_first(), le);
        let rest = sorted(s.drop_first(), le);
        let at = first_where(rest, |e: T| le(s[0], e));
        lemma_first_where(rest, |e: T| le(s[0], e));
        assert(rest.insert(at, s[0]).to_multiset() =~= rest.to_multiset().insert(s[0]));
        assert(s =~= s.drop_first().insert(0, s[0]));
        assert(s.to_multiset() =~= s.drop_first().to_multiset().insert(s[0]));
    }
}

/// A sequence put in a total order is in that order.
pub proof fn law_sorted_is_in_order<T>(s: Seq<T>, le: spec_fn(T, T) -> bool)
    requires
        total_order(le),
    ensures
        in_order(sorted(s, le), le),
    decreases s.len(),
{
    if s.len() > 0 {
        law_sorted_is_in_order(s.drop_first(), le);
        let rest = sorted(s.drop_first(), le);
        let test = |e: T| le(s[0], e);
        let at = first_where(rest, test);
        lemma_first_where(rest, test);
        let all = rest.insert(at, s[0]);
        assert forall|i: int, j: int| 0 <= i < j < all.len() implies le(
            #[trigger] all[i],
            #[trigger] all[j],
        ) by {
            let x = s[0];
            if j < at {
                assert(all[i] == rest[i] && all[j] == rest[j]);
            } else if i > at {
                assert(all[i] == rest[i - 1] && all[j] == rest[j - 1]);
            } else if i == at {
                assert(test(rest[at]));
                assert(le(x, rest[at]));
                assert(all[j] == rest[j - 1]);
                if j - 1 > at {
                    assert(le(rest[at], rest[j - 1]));
                }
            } else if j == at {
                assert(!test(rest[i]));
                assert(!le(x, rest[i]));
                assert(le(rest[i], x) || le(x, rest[i]));
            } else {
                assert(all[i] == rest[i] && all[j] == rest[j - 1]);
                if i == j - 1 {
                    assert(false);
                }
            }
        }
    }
}

/// Whether any two items, the earlier one first, stand in the given relation.
pub open spec fn pairwise<T>(s: Seq<T>, apart: spec_fn(T, T) -> bool) -> bool {
    forall|i: int, j: int| 0 <= i < j < s.len() ==> apart(#[trigger] s[i], #[trigger] s[j])
}

/// Every item that passes a test was there before the test.
pub proof fn lemma_filter_from<T>(s: Seq<T>, test: spec_fn(T) -> bool)
    ensures
        forall|i: int|
            0 <= i < s.filter(test).len() ==> s.contains(#[trigger] s.filter(test)[i]) && test(
                s.filter(test)[i],
            ),
        s.filter(test).len() <= s.len(),
        forall|i: int|
            0 <= i < s.len() && test(#[trigger] s[i]) ==> s.filter(test).contains(s[i]),
    decreases s.len(),
{
    reveal(Seq::filter);
    if s.len() > 0 {
        let d = s.drop_last();
        lemma_filter_from(d, test);
        let f = s.filter(test);
        let g = d.filter(test);
        assert forall|i: int| 0 <= i < f.len() implies s.contains(#[trigger] f[i]) && test(f[i]) by {
            if i < g.len() {
                assert(f[i] == g[i]);
                let k = choose|k: int| 0 <= k < d.len() && d[k] == g[i];
                assert(s[k] == f[i]);
            } else {
                assert(f[i] == s.last());
                assert(s[s.len() - 1] == f[i]);
            }
        }
        assert forall|i: int| 0 <= i < s.len() && test(#[trigger] s[i]) implies f.contains(s[i]) by {
            if i < d.len() {
                assert(d[i] == s[i]);
                let k = choose|k: int| 0 <= k < g.len() && g[k] == d[i];
                assert(f[k] == s[i]);
            } else {
                assert(f[f.len() - 1] == s[i]);
            }
        }
    }
}

/// What holds of any two items still holds after some have been dropped.
pub proof fn lemma_filter_pairwise<T>(
    s: Seq<T>,
    test: spec_fn(T) -> bool,
    apart: spec_fn(T, T) -> bool,
)
    requires
        pairwise(s, apart),
    ensures
        pairwise(s.filter(test), apart),
    decreases s.len(),
{
    reveal(Seq::filter);
    if s.len() > 0 {
        let d = s.drop_last();
        assert forall|i: int, j: int| 0 <= i < j < d.len() implies apart(
            #[trigger] d[i],
            #[trigger] d[j],
        ) by {
            assert(d[i] == s[i] && d[j] == s[j]);
        }
        lemma_filter_pairwise(d, test, apart);
        lemma_filter_from(d, test);
        let f = s.filter(test);
        let g = d.filter(test);
        assert forall|i: int, j: int| 0 <= i < j < f.len() implies apart(
            #[trigger] f[i],
            #[trigger] f[j],
        ) by {
            assert(f[i] == g[i]);
            if j < g.len() {
                assert(f[j] == g[j]);
            } else {
                let k = choose|k: int| 0 <= k < d.len() && d[k] == g[i];
                assert(s[k] == f[i]);
                assert(f[j] == s[s.len() - 1]);
            }
        }
    }
}

/// Something that can be put in order.
pub trait Ranked: DeepView + Sized {
    /// Whether one value may stand before another.
    spec fn ranks(a: Self::V, b: Self::V) -> bool;

    /// Whether this value may stand before the other.
    fn before(&self, other: &Self) -> (r: bool)
        ensures
            r == Self::ranks(self.deep_view(), other.deep_view()),
    ;
}

/// Puts things in order.
#[verifier::loop_isolation(false)]
pub fn sort<T: Ranked>(items: Vec<T>) -> (r: Vec<T>)
    ensures
        r.deep_view() == sorted(items.deep_view(), |a: T::V, b: T::V| T::ranks(a, b)),
{
    let ghost all = items.deep_view();
    let ghost le = |a: T::V, b: T::V| T::ranks(a, b);
    let mut rest = items;
    let mut out: Vec<T> = Vec::new();
    assert(all.skip(all.len() as int) =~= Seq::<T::V>::empty());
    assert(out.deep_view() =~= Seq::<T::V>::empty());
    while rest.len() > 0
        invariant
            rest@ == items@.take(rest@.len() as int),
            rest@.len() <= items@.len(),
            out.deep_view() == sorted(all.skip(rest@.len() as int), le),
        decreases rest@.len(),
    {
        let ghost n = rest@.len();
        let ghost tail = all.skip(n as int);
        let ghost whole = all.skip(n - 1);
        match rest.pop() {
            None => {},
            Some(x) => {
                proof {
                    assert(rest@ =~= items@.take(n - 1));
                    assert(x == items@[n - 1]);
                    assert(whole[0] == x.deep_view());
                    assert(whole.drop_first() =~= tail);
                }
                let ghost test = |e: T::V| le(x.deep_view(), e);
                let ghost sorted_tail = out.deep_view();
                let mut at: usize = 0;
                while at < out.len() && !x.before(&out[at])
                    invariant
                        at <= out@.len(),
                        forall|i: int| 0 <= i < at ==> !test(#[trigger] out.deep_view()[i]),
                    decreases out@.len() - at,
                {
                    at = at + 1;
                }
                proof {
                    lemma_first_where_is(sorted_tail, test, at as int);
                }
                let ghost value = x.deep_view();
                out.insert(at, x);
                assert(out.deep_view() =~= sorted_tail.insert(at as int, value));
            },
        }
    }
    assert(all.skip(0) =~= all);
    out
}

/// Whether one text stands before another or is the same: the order of `str`.
pub open spec fn text_le(a: Seq<char>, b: Seq<char>) -> bool
    decreases a.len(),
{
    if a.len() == 0 {
        true
    } else if b.len() == 0 {
        false
    } else if a[0] != b[0] {
        a[0] < b[0]
    } else {
        text_le(a.drop_first(), b.drop_first())
    }
}

/// Whether one text stands before another or is the same: the order of `str`.
#[verifier::loop_isolation(false)]
pub fn text_before(a: &str, b: &str) -> (r: bool)
    ensures
        r == text_le(a@, b@),
{
    let x = chars_of(a);
    let y = chars_of(b);
    let mut i: usize = 0;
    assert(x@.skip(0) =~= x@);
    assert(y@.skip(0) =~= y@);
    while i < x.len() && i < y.len()
        invariant
            i <= x@.len(),
            i <= y@.len(),
            text_le(x@, y@) == text_le(x@.skip(i as int), y@.skip(i as int)),
        decreases x@.len() - i,
    {
        proof {
            assert(x@.skip(i as int)[0] == x@[i as int]);
            assert(y@.skip(i as int)[0] == y@[i as int]);
            assert(x@.skip(i as int).drop_first() =~= x@.skip(i + 1));
            assert(y@.skip(i as int).drop_first() =~= y@.skip(i + 1));
        }
        if x[i] != y[i] {
            return x[i] < y[i];
        }
        i = i + 1;
    }
    i == x.len()
}

/// The order of texts compares any two of them, and only equal ones both ways.
pub proof fn law_text_order(a: Seq<char>, b: Seq<char>)
    ensures
        text_le(a, b) || text_le(b, a),
        text_le(a, b) && text_le(b, a) ==> a == b,
    decreases a.len(),
{
    if a.len() > 0 && b.len() > 0 && a[0] == b[0] {
        law_text_order(a.drop_first(), b.drop_first());
        if a.drop_first() == b.drop_first() {
            assert(a =~= seq![a[0]] + a.drop_first());
            assert(b =~= seq![b[0]] + b.drop_first());
        }
    } else if a.len() == 0 && b.len() == 0 {
        assert(a =~= b);
    }
}

/// The order of texts carries over from one to the next.
pub proof fn law_text_order_carries(a: Seq<char>, b: Seq<char>, c: Seq<char>)
    requires
        text_le(a, b),
        text_le(b, c),
    ensures
        text_le(a, c),
    decreases a.len(),
{
    if a.len() > 0 && b.len() > 0 && c.len() > 0 && a[0] == b[0] && b[0] == c[0] {
        law_text_order_carries(a.drop_first(), b.drop_first(), c.drop_first());
    }
}

/// What a test leaves of one more item.
pub proof fn lemma_filter_step<T>(s: Seq<T>, k: int, test: spec_fn(T) -> bool)
    requires
        0 <= k < s.len(),
    ensures
        s.take(k + 1).filter(test) == if test(s[k]) {
            s.take(k).filter(test).push(s[k])
        } else {
            s.take(k).filter(test)
        },
{
    reveal(Seq::filter);
    assert(s.take(k + 1).drop_last() =~= s.take(k));
    assert(s.take(k + 1).last() == s[k]);
}

/// Things with a number by which they are known.
pub trait Known: DeepView + Sized {
    /// The number of a thing.
    spec fn number(v: Self::V) -> u128;

    /// The number of this thing.
    fn id(&self) -> (r: u128)
        ensures
            r == Self::number(self.deep_view()),
    ;
}

/// Takes out all things with a number.
#[verifier::loop_isolation(false)]
pub fn drop_known<T: Known>(items: &mut Vec<T>, id: u128)
    ensures
        final(items).deep_view() == old(items).deep_view().filter(|v: T::V| T::number(v) != id),
{
    let ghost all = items.deep_view();
    let ghost test = |v: T::V| T::number(v) != id;
    let mut i: usize = 0;
    let ghost mut k: int = 0;
    proof {
        reveal(Seq::filter);
        assert(all.take(0).filter(test) =~= Seq::<T::V>::empty());
        assert(items.deep_view() =~= all.take(0).filter(test) + all.skip(0));
    }
    while i < items.len()
        invariant
            0 <= k <= all.len(),
            i == all.take(k).filter(test).len(),
            items.deep_view() == all.take(k).filter(test) + all.skip(k),
        decreases all.len() - k,
    {
        let ghost before = items.deep_view();
        let ghost kept = all.take(k).filter(test);
        proof {
            assert(before.len() == items@.len());
            assert(k < all.len());
            assert(before[i as int] == all.skip(k)[0]);
            assert(items@[i as int].deep_view() == all[k]);
            lemma_filter_step(all, k, test);
        }
        if items[i].id() == id {
            items.remove(i);
            assert(items.deep_view() =~= before.remove(i as int));
            assert(before.remove(i as int) =~= kept + all.skip(k + 1));
        } else {
            i = i + 1;
            assert(before =~= kept.push(all[k]) + all.skip(k + 1));
        }
        proof {
            k = k + 1;
        }
    }
    proof {
        assert(items.deep_view().len() == items@.len());
        assert(k == all.len());
        assert(all.take(k) =~= all);
        assert(items.deep_view() =~= all.filter(test));
    }
}

} // verus!
