//! Lexicographic order on texts and a stable ordering of records by a text
//! key.
use vstd::prelude::*;

use crate::text::views;

verus! {

/// Strict lexicographic order by code point (the order of `str`'s `Ord`).
pub open spec fn text_lt(a: Seq<char>, b: Seq<char>) -> bool
    decreases a.len(),
{
    if a.len() == 0 {
        b.len() > 0
    } else if b.len() == 0 {
        false
    } else if a[0] != b[0] {
        a[0] < b[0]
    } else {
        text_lt(a.drop_first(), b.drop_first())
    }
}

pub proof fn lemma_text_lt_irreflexive(a: Seq<char>)
    ensures
        !text_lt(a, a),
    decreases a.len(),
{
    if a.len() > 0 {
        lemma_text_lt_irreflexive(a.drop_first());
    }
}

pub proof fn lemma_text_lt_total(a: Seq<char>, b: Seq<char>)
    ensures
        a == b || text_lt(a, b) || text_lt(b, a),
    decreases a.len(),
{
    if a.len() > 0 && b.len() > 0 && a[0] == b[0] {
        lemma_text_lt_total(a.drop_first(), b.drop_first());
        if a.drop_first() == b.drop_first() {
            assert(a =~= b) by {
                assert forall|i: int| 0 <= i < a.len() implies a[i] == b[i] by {
                    if i > 0 {
                        assert(a[i] == a.drop_first()[i - 1]);
                        assert(b[i] == b.drop_first()[i - 1]);
                    }
                }
            }
        }
    } else if a.len() == 0 && b.len() == 0 {
        assert(a =~= b);
    } else if a.len() > 0 && b.len() > 0 {
        assert(a[0] != b[0]);
    }
}

pub proof fn lemma_text_lt_trans(a: Seq<char>, b: Seq<char>, c: Seq<char>)
    requires
        text_lt(a, b),
        text_lt(b, c),
    ensures
        text_lt(a, c),
    decreases a.len(),
{
    if a.len() > 0 && b.len() > 0 && c.len() > 0 && a[0] == b[0] && b[0] == c[0] {
        lemma_text_lt_trans(a.drop_first(), b.drop_first(), c.drop_first());
    }
}

pub proof fn lemma_text_lt_asym(a: Seq<char>, b: Seq<char>)
    requires
        text_lt(a, b),
    ensures
        !text_lt(b, a),
    decreases a.len(),
{
    if a.len() > 0 && b.len() > 0 && a[0] == b[0] {
        lemma_text_lt_asym(a.drop_first(), b.drop_first());
    }
}

/// Records `a` before `b` in the stable order: smaller key, or equal key and
/// earlier position.
pub open spec fn before(keys: Seq<Seq<char>>, a: int, b: int) -> bool {
    text_lt(keys[a], keys[b]) || (keys[a] == keys[b] && a < b)
}

/// `order` lists every index of `keys` exactly once, ascending by key and,
/// among equal keys, by position: the permutation a stable sort applies.
pub open spec fn is_stable_order(keys: Seq<Seq<char>>, order: Seq<usize>) -> bool {
    &&& order.len() == keys.len()
    &&& forall|i: int| 0 <= i < order.len() ==> #[trigger] order[i] < keys.len()
    &&& forall|i: int, j: int|
        0 <= i < j < order.len() ==> before(keys, #[trigger] order[i] as int, #[trigger] order[j] as int)
}

pub proof fn lemma_stable_order_distinct(keys: Seq<Seq<char>>, order: Seq<usize>, i: int, j: int)
    requires
        is_stable_order(keys, order),
        0 <= i < order.len(),
        0 <= j < order.len(),
        i != j,
    ensures
        order[i] != order[j],
{
    if i < j {
        assert(before(keys, order[i] as int, order[j] as int));
        if order[i] == order[j] {
            lemma_text_lt_irreflexive(keys[order[i] as int]);
        }
    } else {
        assert(before(keys, order[j] as int, order[i] as int));
        if order[i] == order[j] {
            lemma_text_lt_irreflexive(keys[order[i] as int]);
        }
    }
}

/// Compares two texts: `text_lt(a, b)`.
pub fn text_less(a: &[char], b: &[char]) -> (r: bool)
    ensures
        r == text_lt(a@, b@),
{
    let mut i: usize = 0;
    assert(a@.skip(0) == a@ && b@.skip(0) == b@);
    while i < a.len() && i < b.len() && a[i] == b[i]
        invariant
            i <= a.len(),
            i <= b.len(),
            text_lt(a@, b@) == text_lt(a@.skip(i as int), b@.skip(i as int)),
        decreases a.len() - i,
    {
        assert(a@.skip(i as int).drop_first() == a@.skip(i + 1));
        assert(b@.skip(i as int).drop_first() == b@.skip(i + 1));
        i += 1;
    }
    if i == a.len() {
        i < b.len()
    } else if i == b.len() {
        false
    } else {
        assert(a@.skip(i as int)[0] == a@[i as int]);
        assert(b@.skip(i as int)[0] == b@[i as int]);
        a[i] < b[i]
    }
}

/// The stable sorting permutation of records with the given keys.
pub fn stable_order(keys: &Vec<Vec<char>>) -> (r: Vec<usize>)
    ensures
        is_stable_order(views(keys@), r@),
{
    let ghost ks = views(keys@);
    let mut order: Vec<usize> = Vec::new();
    let mut n: usize = 0;
    while n < keys.len()
        invariant
            ks == views(keys@),
            n <= keys.len(),
            order@.len() == n,
            forall|i: int| 0 <= i < order@.len() ==> #[trigger] order@[i] < n,
            forall|i: int, j: int|
                0 <= i < j < order@.len() ==> before(ks, #[trigger] order@[i] as int, #[trigger] order@[j] as int),
        decreases keys.len() - n,
    {
        let mut p: usize = 0;
        while p < order.len() && !text_less(&keys[n], &keys[order[p]])
            invariant
                ks == views(keys@),
                n < keys.len(),
                p <= order@.len(),
                order@.len() == n,
                forall|i: int| 0 <= i < order@.len() ==> #[trigger] order@[i] < n,
                forall|i: int| 0 <= i < p ==> !text_lt(ks[n as int], ks[#[trigger] order@[i] as int]),
            decreases order@.len() - p,
        {
            assert(ks[order@[p as int] as int] == keys@[order@[p as int] as int]@);
            p += 1;
        }
        assert(p < order@.len() ==> text_lt(ks[n as int], ks[order@[p as int] as int])) by {
            if p < order@.len() {
                assert(ks[order@[p as int] as int] == keys@[order@[p as int] as int]@);
            }
        }
        let ghost old_order = order@;
        order.insert(p, n);
        assert(order@ == old_order.take(p as int) + seq![n] + old_order.skip(p as int));
        assert forall|i: int| 0 <= i < order@.len() implies #[trigger] order@[i] < n + 1 by {
            if i < p {
                assert(order@[i] == old_order[i]);
            } else if i > p {
                assert(order@[i] == old_order[i - 1]);
            }
        }
        assert forall|i: int, j: int|
            0 <= i < j < order@.len() implies before(ks, #[trigger] order@[i] as int, #[trigger] order@[j] as int) by {
            let x = order@[i] as int;
            let y = order@[j] as int;
            if j < p {
                assert(x == old_order[i] && y == old_order[j]);
            } else if j == p {
                assert(y == n);
                assert(x == old_order[i]);
                assert(!text_lt(ks[n as int], ks[x]));
                lemma_text_lt_total(ks[n as int], ks[x]);
            } else if i == p {
                assert(x == n);
                assert(y == old_order[j - 1]);
                let z = old_order[p as int] as int;
                assert(text_lt(ks[n as int], ks[z]));
                if j - 1 > p {
                    assert(before(ks, z, y));
                    if text_lt(ks[z], ks[y]) {
                        lemma_text_lt_trans(ks[n as int], ks[z], ks[y]);
                    }
                }
            } else if i < p {
                assert(x == old_order[i]);
                assert(y == old_order[j - 1]);
            } else {
                assert(x == old_order[i - 1]);
                assert(y == old_order[j - 1]);
            }
        }
        n += 1;
    }
    order
}

} // verus!
