//! The order of names: that of the dictionary, character by character.

use vstd::prelude::*;
use vstd::relations::{sorted_by, total_ordering};

verus! {

/// Whether `a` comes before `b` in the dictionary, or is `b`: at the first
/// place where they differ `a` has the lesser character, or `a` ends first.
pub open spec fn lex_le(a: Seq<char>, b: Seq<char>) -> bool
    decreases a.len(),
{
    if a.len() == 0 {
        true
    } else if b.len() == 0 {
        false
    } else if a[0] != b[0] {
        a[0] < b[0]
    } else {
        lex_le(a.drop_first(), b.drop_first())
    }
}

/// A text comes before itself.
pub proof fn lemma_lex_reflexive(a: Seq<char>)
    ensures
        lex_le(a, a),
    decreases a.len(),
{
    if a.len() > 0 {
        lemma_lex_reflexive(a.drop_first());
    }
}

/// Two texts that come before each other are the same.
pub proof fn lemma_lex_antisymmetric(a: Seq<char>, b: Seq<char>)
    requires
        lex_le(a, b),
        lex_le(b, a),
    ensures
        a == b,
    decreases a.len(),
{
    if a.len() > 0 {
        lemma_lex_antisymmetric(a.drop_first(), b.drop_first());
        assert(a =~= seq![a[0]] + a.drop_first());
        assert(b =~= seq![b[0]] + b.drop_first());
    } else {
        assert(a =~= b);
    }
}

/// What comes before a text comes before all that the text comes before.
pub proof fn lemma_lex_transitive(a: Seq<char>, b: Seq<char>, c: Seq<char>)
    requires
        lex_le(a, b),
        lex_le(b, c),
    ensures
        lex_le(a, c),
    decreases a.len(),
{
    if a.len() > 0 && a[0] == b[0] && b[0] == c[0] {
        lemma_lex_transitive(a.drop_first(), b.drop_first(), c.drop_first());
    }
}

/// Of two texts one comes before the other.
pub proof fn lemma_lex_total(a: Seq<char>, b: Seq<char>)
    ensures
        lex_le(a, b) || lex_le(b, a),
    decreases a.len(),
{
    if a.len() > 0 && b.len() > 0 && a[0] == b[0] {
        lemma_lex_total(a.drop_first(), b.drop_first());
    }
}

/// Tests whether `a` comes before `b` in the dictionary, or is `b`.
pub(crate) fn precedes(a: &Vec<char>, b: &Vec<char>) -> (le: bool)
    ensures
        le == lex_le(a@, b@),
{
    let mut i: usize = 0;
    assert(a@.skip(0) == a@);
    assert(b@.skip(0) == b@);
    while i < a.len() && i < b.len()
        invariant
            i <= a.len(),
            i <= b.len(),
            lex_le(a@, b@) == lex_le(a@.skip(i as int), b@.skip(i as int)),
        decreases a.len() - i,
    {
        let ghost x = a@.skip(i as int);
        let ghost y = b@.skip(i as int);
        assert(x[0] == a@[i as int]);
        assert(y[0] == b@[i as int]);
        if a[i] != b[i] {
            return a[i] < b[i];
        }
        assert(x.drop_first() == a@.skip(i + 1));
        assert(y.drop_first() == b@.skip(i + 1));
        i += 1;
    }
    i == a.len()
}

/// The order of pairs of names: by the first name, and by the second where
/// the first names are the same.
pub open spec fn pair_le(p: (Seq<char>, Seq<char>), q: (Seq<char>, Seq<char>)) -> bool {
    if p.0 == q.0 {
        lex_le(p.1, q.1)
    } else {
        lex_le(p.0, q.0)
    }
}

/// `pair_le` as a relation.
pub open spec fn pair_order() -> spec_fn((Seq<char>, Seq<char>), (Seq<char>, Seq<char>)) -> bool {
    |p: (Seq<char>, Seq<char>), q: (Seq<char>, Seq<char>)| pair_le(p, q)
}

/// The order of pairs is a total order: any pairs can be sorted by it, and
/// in one way only.
pub proof fn lemma_pair_order_total()
    ensures
        total_ordering(pair_order()),
{
    let r = pair_order();
    assert forall|x: (Seq<char>, Seq<char>)| #[trigger] r(x, x) by {
        lemma_lex_reflexive(x.1);
    }
    assert forall|x: (Seq<char>, Seq<char>), y: (Seq<char>, Seq<char>)| #[trigger]
        r(x, y) && #[trigger] r(y, x) implies x == y by {
        if x.0 == y.0 {
            lemma_lex_antisymmetric(x.1, y.1);
        } else {
            lemma_lex_antisymmetric(x.0, y.0);
        }
    }
    assert forall|
        x: (Seq<char>, Seq<char>),
        y: (Seq<char>, Seq<char>),
        z: (Seq<char>, Seq<char>),
    | #[trigger] r(x, y) && #[trigger] r(y, z) implies r(x, z) by {
        if x.0 == y.0 && y.0 == z.0 {
            lemma_lex_transitive(x.1, y.1, z.1);
        } else if x.0 == y.0 {
        } else if y.0 == z.0 {
        } else {
            lemma_lex_transitive(x.0, y.0, z.0);
            if x.0 == z.0 {
                lemma_lex_antisymmetric(x.0, y.0);
            }
        }
    }
    assert forall|x: (Seq<char>, Seq<char>), y: (Seq<char>, Seq<char>)| #[trigger]
        r(x, y) || #[trigger] r(y, x) by {
        lemma_lex_total(x.0, y.0);
        lemma_lex_total(x.1, y.1);
    }
}

/// Tests whether the pair `p` comes before the pair `q`, or is `q`.
pub(crate) fn pair_precedes(p: &(Vec<char>, Vec<char>), q: &(Vec<char>, Vec<char>)) -> (le: bool)
    ensures
        le == pair_le((p.0@, p.1@), (q.0@, q.1@)),
{
    let forth = precedes(&p.0, &q.0);
    let back = precedes(&q.0, &p.0);
    if forth && back {
        proof {
            lemma_lex_antisymmetric(p.0@, q.0@);
        }
        precedes(&p.1, &q.1)
    } else {
        proof {
            if p.0@ == q.0@ {
                lemma_lex_reflexive(p.0@);
            }
        }
        forth
    }
}

/// The pairs as mathematical values.
pub open spec fn pairs_view(v: Seq<(Vec<char>, Vec<char>)>) -> Seq<(Seq<char>, Seq<char>)> {
    v.map_values(|p: (Vec<char>, Vec<char>)| (p.0@, p.1@))
}

/// Sorts pairs of names.
pub(crate) fn sort_pairs(pairs: Vec<(Vec<char>, Vec<char>)>) -> (sorted: Vec<
    (Vec<char>, Vec<char>),
>)
    ensures
        pairs_view(sorted@) == pairs_view(pairs@).sort_by(pair_order()),
{
    let ghost all = pairs_view(pairs@);
    let mut rest = pairs;
    let mut sorted: Vec<(Vec<char>, Vec<char>)> = Vec::new();
    proof {
        assert(pairs_view(sorted@) =~= Seq::empty());
        assert(pairs_view(sorted@).to_multiset().add(pairs_view(rest@).to_multiset())
            =~= all.to_multiset()) by {
            broadcast use vstd::seq_lib::group_to_multiset_ensures;

            assert(pairs_view(sorted@).to_multiset().len() == 0);
        }
    }
    while rest.len() > 0
        invariant
            sorted_by(pairs_view(sorted@), pair_order()),
            pairs_view(sorted@).to_multiset().add(pairs_view(rest@).to_multiset())
                == all.to_multiset(),
        decreases rest.len(),
    {
        let ghost before_rest = pairs_view(rest@);
        let ghost before_sorted = pairs_view(sorted@);
        let pair = rest.pop().unwrap();
        let ghost item = (pair.0@, pair.1@);
        proof {
            assert(pairs_view(rest@) =~= before_rest.drop_last());
            assert(before_rest =~= pairs_view(rest@).push(item));
            vstd::seq_lib::to_multiset_build(pairs_view(rest@), item);
        }
        // the place of the pair: behind all that come before it
        let mut at: usize = 0;
        while at < sorted.len() && pair_precedes(&sorted[at], &pair)
            invariant
                at <= sorted.len(),
                before_sorted == pairs_view(sorted@),
                item == (pair.0@, pair.1@),
                forall|k: int| 0 <= k < at ==> pair_le(#[trigger] before_sorted[k], item),
            decreases sorted.len() - at,
        {
            assert(before_sorted[at as int] == (sorted@[at as int].0@, sorted@[at as int].1@));
            at += 1;
        }
        proof {
            lemma_pair_order_total();
            if at < sorted.len() {
                assert(before_sorted[at as int] == (sorted@[at as int].0@, sorted@[at as int].1@));
                assert(!pair_le(before_sorted[at as int], item));
                assert(pair_order()(before_sorted[at as int], item) || pair_order()(
                    item,
                    before_sorted[at as int],
                ));
                assert(pair_le(item, before_sorted[at as int]));
            }
        }
        sorted.insert(at, pair);
        proof {
            let now = pairs_view(sorted@);
            assert(now =~= before_sorted.insert(at as int, item));
            vstd::seq_lib::to_multiset_insert(before_sorted, at as int, item);
            assert(now.to_multiset().add(pairs_view(rest@).to_multiset()) =~= all.to_multiset());
            assert forall|i: int, j: int| 0 <= i < j < now.len() implies #[trigger] pair_order()(
                now[i],
                now[j],
            ) by {
                let r = pair_order();
                if j < at {
                    assert(r(before_sorted[i], before_sorted[j]));
                } else if j == at {
                    assert(pair_le(before_sorted[i], item));
                } else if i < at {
                    assert(r(before_sorted[i], before_sorted[j - 1]));
                } else if i == at {
                    // item <= before_sorted[at] <= before_sorted[j - 1]
                    assert(pair_le(item, before_sorted[at as int]));
                    if j - 1 > at {
                        assert(r(before_sorted[at as int], before_sorted[j - 1]));
                        assert(r(item, before_sorted[at as int]));
                    }
                } else {
                    assert(r(before_sorted[i - 1], before_sorted[j - 1]));
                }
            }
        }
    }
    proof {
        lemma_pair_order_total();
        assert(pairs_view(rest@) =~= Seq::empty());
        assert(pairs_view(rest@).to_multiset() =~= vstd::multiset::Multiset::empty()) by {
            broadcast use vstd::seq_lib::group_to_multiset_ensures;

            assert(pairs_view(rest@).to_multiset().len() == 0);
        }
        assert(pairs_view(sorted@).to_multiset() =~= all.to_multiset());
        all.lemma_sort_by_ensures(pair_order());
        vstd::seq_lib::lemma_sorted_unique(
            pairs_view(sorted@),
            all.sort_by(pair_order()),
            pair_order(),
        );
    }
    sorted
}

} // verus!
