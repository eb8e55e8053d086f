//! Sorting that keeps equal items in their order, and the order of texts.

use vstd::prelude::*;
use vstd::relations::total_ordering;

use crate::text::{chars_of, views};

verus! {

/// Whether `a` comes before `b` in the order of texts: by the first character in
/// which they differ, a text before the longer ones that it begins.
pub open spec fn text_less(a: Seq<char>, b: Seq<char>) -> bool
    decreases b.len(),
{
    if b.len() == 0 {
        false
    } else if a.len() == 0 {
        true
    } else if a[0] != b[0] {
        a[0] < b[0]
    } else {
        text_less(a.drop_first(), b.drop_first())
    }
}

pub proof fn lemma_text_less_total(a: Seq<char>, b: Seq<char>)
    ensures
        text_less(a, b) || text_less(b, a) || a == b,
        !(text_less(a, b) && text_less(b, a)),
        text_less(a, b) ==> a != b,
    decreases b.len(),
{
    if a.len() > 0 && b.len() > 0 && a[0] == b[0] {
        lemma_text_less_total(a.drop_first(), b.drop_first());
        if a.drop_first() == b.drop_first() {
            assert(a =~= seq![a[0]] + a.drop_first());
            assert(b =~= seq![b[0]] + b.drop_first());
        }
    } else if a.len() == 0 && b.len() == 0 {
        assert(a =~= b);
    }
}

pub proof fn lemma_text_less_transitive(a: Seq<char>, b: Seq<char>, c: Seq<char>)
    requires
        text_less(a, b),
        text_less(b, c),
    ensures
        text_less(a, c),
    decreases c.len(),
{
    if a.len() > 0 && b.len() > 0 && c.len() > 0 && a[0] == b[0] && b[0] == c[0] {
        lemma_text_less_transitive(a.drop_first(), b.drop_first(), c.drop_first());
    }
}

pub fn chars_less(a: &[char], b: &[char]) -> (r: bool)
    ensures
        r == text_less(a@, b@),
{
    let mut i: usize = 0;
    assert(a@.skip(0) =~= a@);
    assert(b@.skip(0) =~= b@);
    while i < a.len() && i < b.len()
        invariant
            i <= a.len(),
            i <= b.len(),
            text_less(a@, b@) == text_less(a@.skip(i as int), b@.skip(i as int)),
        decreases a.len() - i,
    {
        assert(a@.skip(i as int)[0] == a@[i as int]);
        assert(b@.skip(i as int)[0] == b@[i as int]);
        if a[i] != b[i] {
            return a[i] < b[i];
        }
        assert(a@.skip(i as int).drop_first() =~= a@.skip(i + 1));
        assert(b@.skip(i as int).drop_first() =~= b@.skip(i + 1));
        i = i + 1;
    }
    i < b.len()
}

pub fn text_comes_before(a: &str, b: &str) -> (r: bool)
    ensures
        r == text_less(a@, b@),
{
    let x = chars_of(a);
    let y = chars_of(b);
    chars_less(x.as_slice(), y.as_slice())
}

/// What items are sorted by. `before` orders the keys; keys of which neither is
/// before the other are equal as far as the order goes.
pub trait SortKey: Sized {
    spec fn before(&self, other: &Self) -> bool;

    fn comes_before(&self, other: &Self) -> (r: bool)
        ensures
            r == self.before(other),
    ;

    /// A key is not before itself, and where it is before another, that one is
    /// not before it.
    proof fn asymmetric(&self, other: &Self)
        ensures
            self.before(other) ==> !other.before(self),
    ;

    /// What is before a key is before everything that does not come before it.
    proof fn transitive(&self, other: &Self, third: &Self)
        ensures
            self.before(other) && !third.before(other) ==> self.before(third),
    ;
}

/// Whether the positions in `order` are those of a list of `n` items, each once.
pub open spec fn each_once(order: Seq<usize>, n: int) -> bool {
    &&& order.len() == n
    &&& forall|i: int| 0 <= i < n ==> 0 <= #[trigger] order[i] < n
    &&& forall|i: int, j: int|
        #![trigger order[i], order[j]]
        0 <= i < j < n ==> order[i] != order[j]
}

/// An order that holds each position once holds every position.
pub proof fn lemma_each_once_holds(order: Seq<usize>, n: int, k: int)
    requires
        each_once(order, n),
        0 <= k < n,
    ensures
        exists|i: int| 0 <= i < n && #[trigger] order[i] == k,
{
    let all = order.map_values(|x: usize| x as int);
    assert(all.no_duplicates());
    all.unique_seq_to_set();
    vstd::set_lib::lemma_int_range(0, n);
    let range = vstd::set_lib::set_int_range(0, n);
    assert forall|x: int| all.to_set().contains(x) implies range.contains(x) by {
        let i = choose|i: int| 0 <= i < all.len() && all[i] == x;
        assert(0 <= order[i] < n);
    }
    vstd::set_lib::lemma_subset_equality(all.to_set(), range);
    assert(range.contains(k));
    assert(all.contains(k));
    let i = choose|i: int| 0 <= i < all.len() && all[i] == k;
    assert(order[i] == k);
}

/// Whether the item at position `a` goes before the one at `b`: by the keys, and
/// by the positions where the keys are equal.
pub open spec fn goes_first<K: SortKey>(keys: Seq<K>, a: int, b: int) -> bool {
    keys[a].before(&keys[b]) || (!keys[b].before(&keys[a]) && a < b)
}

/// Whether `order` sorts the keys and keeps equal ones in their order.
pub open spec fn sorts<K: SortKey>(order: Seq<usize>, keys: Seq<K>) -> bool {
    &&& each_once(order, keys.len() as int)
    &&& forall|i: int, j: int|
        #![trigger order[i], order[j]]
        0 <= i < j < order.len() ==> goes_first(keys, order[i] as int, order[j] as int)
}

/// The positions of the keys in their order.
pub fn sorted_positions<K: SortKey>(keys: &Vec<K>) -> (order: Vec<usize>)
    ensures
        sorts(order@, keys@),
{
    let mut order: Vec<usize> = Vec::new();
    let mut n: usize = 0;
    while n < keys.len()
        invariant
            n <= keys.len(),
            each_once(order@, n as int),
            forall|i: int, j: int|
                #![trigger order@[i], order@[j]]
                0 <= i < j < n ==> goes_first(keys@, order@[i] as int, order@[j] as int),
        decreases keys.len() - n,
    {
        let mut at: usize = 0;
        while at < order.len() && !keys[n].comes_before(&keys[order[at]])
            invariant
                at <= order.len(),
                n < keys.len(),
                each_once(order@, n as int),
                forall|i: int|
                    0 <= i < at ==> !keys@[n as int].before(&keys@[(#[trigger] order@[i]) as int]),
            decreases order.len() - at,
        {
            at = at + 1;
        }
        let ghost old_order = order@;
        order.insert(at, n);
        proof {
            assert forall|i: int, j: int|
                #![trigger order@[i], order@[j]]
                0 <= i < j < n + 1 implies order@[i] != order@[j] && goes_first(
                keys@,
                order@[i] as int,
                order@[j] as int,
            ) by {
                let p = if i < at {
                    i
                } else {
                    i - 1
                };
                let q = if j < at {
                    j
                } else {
                    j - 1
                };
                if i != at {
                    assert(order@[i] == old_order[p]);
                }
                if j != at {
                    assert(order@[j] == old_order[q]);
                }
                if j == at {
                    assert(!keys@[n as int].before(&keys@[old_order[i] as int]));
                } else if i == at {
                    let x = keys@[n as int];
                    let first = keys@[old_order[at as int] as int];
                    let y = keys@[old_order[q] as int];
                    assert(x.before(&first));
                    if q > at {
                        assert(goes_first(keys@, old_order[at as int] as int, old_order[q] as int));
                        first.asymmetric(&y);
                        x.transitive(&first, &y);
                    }
                }
            }
            assert forall|i: int| 0 <= i < n + 1 implies 0 <= #[trigger] order@[i] < n + 1 by {
                if i < at {
                    assert(order@[i] == old_order[i]);
                } else if i > at {
                    assert(order@[i] == old_order[i - 1]);
                }
            }
        }
        n = n + 1;
    }
    order
}

/// A text as a key.
pub struct TextKey {
    pub chars: Vec<char>,
}

impl SortKey for TextKey {
    open spec fn before(&self, other: &TextKey) -> bool {
        text_less(self.chars@, other.chars@)
    }

    fn comes_before(&self, other: &TextKey) -> (r: bool) {
        chars_less(self.chars.as_slice(), other.chars.as_slice())
    }

    proof fn asymmetric(&self, other: &TextKey) {
        lemma_text_less_total(self.chars@, other.chars@);
    }

    proof fn transitive(&self, other: &TextKey, third: &TextKey) {
        let (a, b, c) = (self.chars@, other.chars@, third.chars@);
        lemma_text_less_total(b, c);
        if text_less(a, b) && text_less(b, c) {
            lemma_text_less_transitive(a, b, c);
        }
    }
}

/// Whether a text does not come after another.
pub open spec fn text_at_most() -> spec_fn(Seq<char>, Seq<char>) -> bool {
    |a: Seq<char>, b: Seq<char>| !text_less(b, a)
}

/// Texts in order.
#[verifier::opaque]
pub open spec fn text_sorted(texts: Seq<Seq<char>>) -> Seq<Seq<char>> {
    texts.sort_by(text_at_most())
}

proof fn lemma_text_at_most()
    ensures
        total_ordering(text_at_most()),
{
    let r = text_at_most();
    assert forall|a: Seq<char>, b: Seq<char>| #[trigger] r(a, b) || #[trigger] r(b, a) by {
        lemma_text_less_total(a, b);
    }
    assert forall|a: Seq<char>, b: Seq<char>| #[trigger] r(a, b) && #[trigger] r(b, a) implies a
        == b by {
        lemma_text_less_total(a, b);
    }
    assert forall|a: Seq<char>, b: Seq<char>, c: Seq<char>|
        #[trigger] r(a, b) && #[trigger] r(b, c) implies r(a, c) by {
        if text_less(c, a) {
            lemma_text_less_total(a, b);
            lemma_text_less_total(b, c);
            if a != b && b != c {
                lemma_text_less_transitive(a, b, c);
                lemma_text_less_transitive(c, a, c);
                lemma_text_less_total(c, c);
            }
        }
    }
    assert forall|a: Seq<char>| #[trigger] r(a, a) by {
        lemma_text_less_total(a, a);
    }
}

/// What it is for texts to be in order: each stays as often as it was, and none
/// comes before an earlier one.
pub proof fn lemma_text_sorted(texts: Seq<Seq<char>>)
    ensures
        text_sorted(texts).to_multiset() == texts.to_multiset(),
        text_sorted(texts).len() == texts.len(),
        forall|i: int, j: int|
            0 <= i < j < texts.len() ==> !text_less(
                #[trigger] text_sorted(texts)[j],
                #[trigger] text_sorted(texts)[i],
            ),
{
    reveal(text_sorted);
    lemma_text_at_most();
    texts.lemma_sort_by_ensures(text_at_most());
    texts.to_multiset_ensures();
    text_sorted(texts).to_multiset_ensures();
    assert forall|i: int, j: int| 0 <= i < j < texts.len() implies !text_less(
        #[trigger] text_sorted(texts)[j],
        #[trigger] text_sorted(texts)[i],
    ) by {
        let r = text_at_most();
        assert(r(text_sorted(texts)[i], text_sorted(texts)[j]));
    }
}

pub fn sort_texts(texts: Vec<String>) -> (out: Vec<String>)
    ensures
        views(out@) == text_sorted(views(texts@)),
{
    let mut out: Vec<String> = Vec::new();
    let mut i: usize = 0;
    let ghost all = views(texts@);
    assert(views(out@) =~= all.take(0));
    while i < texts.len()
        invariant
            i <= texts.len(),
            all == views(texts@),
            out.len() == i,
            views(out@).to_multiset() == all.take(i as int).to_multiset(),
            forall|a: int, b: int|
                0 <= a < b < i ==> !text_less(#[trigger] out@[b]@, #[trigger] out@[a]@),
        decreases texts.len() - i,
    {
        let mut at: usize = out.len();
        while at > 0 && text_comes_before(texts[i].as_str(), out[at - 1].as_str())
            invariant
                at <= out.len(),
                i < texts.len(),
                out.len() == i,
                forall|k: int| at <= k < out.len() ==> text_less(texts@[i as int]@, (#[trigger] out@[k])@),
            decreases at,
        {
            at = at - 1;
        }
        let ghost before = out@;
        out.insert(at, texts[i].clone());
        proof {
            let t = texts@[i as int]@;
            assert(views(out@) =~= views(before).insert(at as int, t));
            views(before).to_multiset_ensures();
            all.take(i as int).to_multiset_ensures();
            lemma_insert_multiset(views(before), at as int, t);
            assert(all.take(i + 1) =~= all.take(i as int).push(t));
            assert forall|a: int, b: int| 0 <= a < b < i + 1 implies !text_less(
                #[trigger] out@[b]@,
                #[trigger] out@[a]@,
            ) by {
                let x = if a < at { before[a]@ } else if a == at { t } else { before[a - 1]@ };
                let y = if b < at { before[b]@ } else if b == at { t } else { before[b - 1]@ };
                assert(out@[a]@ == x && out@[b]@ == y);
                if b == at {
                    assert(!text_less(t, before[at - 1]@));
                    if a < at - 1 {
                        assert(!text_less(before[at - 1]@, before[a]@));
                        lemma_text_less_total(t, before[at - 1]@);
                        lemma_text_less_total(before[at - 1]@, before[a]@);
                        if text_less(t, before[a]@) {
                            if before[at - 1]@ != t && before[a]@ != before[at - 1]@ {
                                lemma_text_less_transitive(before[a]@, before[at - 1]@, t);
                                lemma_text_less_transitive(t, before[a]@, t);
                                lemma_text_less_total(t, t);
                            }
                        }
                    }
                } else if a == at {
                    lemma_text_less_total(t, y);
                    if text_less(y, t) {
                        lemma_text_less_transitive(t, y, t);
                        lemma_text_less_total(t, t);
                    }
                }
            }
        }
        i = i + 1;
    }
    assert(all.take(i as int) =~= all);
    proof {
        reveal(text_sorted);
        lemma_text_at_most();
        all.lemma_sort_by_ensures(text_at_most());
        let r = text_at_most();
        assert forall|a: int, b: int| 0 <= a < b < views(out@).len() implies #[trigger] r(
            views(out@)[a],
            views(out@)[b],
        ) by {
            assert(!text_less(out@[b]@, out@[a]@));
        }
        vstd::seq_lib::lemma_sorted_unique(views(out@), text_sorted(all), text_at_most());
    }
    out
}

proof fn lemma_insert_multiset(s: Seq<Seq<char>>, at: int, t: Seq<char>)
    requires
        0 <= at <= s.len(),
    ensures
        s.insert(at, t).to_multiset() == s.to_multiset().insert(t),
{
    s.to_multiset_ensures();
    s.insert(at, t).to_multiset_ensures();
    assert(s.insert(at, t).remove(at) =~= s);
    assert(s.insert(at, t).to_multiset().remove(t) =~= s.to_multiset());
    assert(s.insert(at, t).to_multiset().count(t) > 0) by {
        assert(s.insert(at, t)[at] == t);
        assert(s.insert(at, t).contains(t));
    }
    assert(s.insert(at, t).to_multiset() =~= s.to_multiset().insert(t));
}

} // verus!
