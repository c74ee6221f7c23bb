//! Resolving an observed radar signature against the signature definitions.
use vstd::prelude::*;

use crate::models::{DetectionCandidate, SignatureCategory, SignatureDefinition};

verus! {

broadcast use vstd::seq_lib::group_seq_properties;

/// Largest cluster size recognised for a category.
pub open spec fn max_multiplier(c: SignatureCategory) -> u32 {
    match c {
        SignatureCategory::Resource => 12,
        _ => 64,
    }
}

pub open spec fn detection(d: SignatureDefinition, observed: u32, multiplier: u32) -> DetectionCandidate {
    DetectionCandidate {
        target_id: d.id,
        name: d.canonical_name,
        category: d.category,
        observed_signature: observed,
        base_signature: d.base_signature,
        multiplier: multiplier,
    }
}

/// What one definition contributes for an observed value: a single hit
/// (multiplier 1) or a cluster of `observed / base` (from 2 up to the
/// category's maximum) when the definition is multiplicative.
pub open spec fn candidate_of(observed: u32, d: SignatureDefinition, enabled_only: bool) -> Option<
    DetectionCandidate,
> {
    if (enabled_only && !d.enabled) || d.base_signature == 0 {
        None
    } else if observed == d.base_signature {
        Some(detection(d, observed, 1))
    } else if d.multiplicative && observed % d.base_signature == 0 && 1 < observed
        / d.base_signature <= max_multiplier(d.category) {
        Some(detection(d, observed, (observed / d.base_signature) as u32))
    } else {
        None
    }
}

/// The candidates of all definitions, in definition order.
pub open spec fn candidates(observed: u32, defs: Seq<SignatureDefinition>, enabled_only: bool) -> Seq<
    DetectionCandidate,
>
    decreases defs.len(),
{
    if defs.len() == 0 {
        seq![]
    } else {
        let prev = candidates(observed, defs.drop_last(), enabled_only);
        match candidate_of(observed, defs.last(), enabled_only) {
            Some(c) => prev.push(c),
            None => prev,
        }
    }
}

/// The ordering key: multiplier first, then base signature.
pub open spec fn key(c: DetectionCandidate) -> int {
    c.multiplier as int * 0x1_0000_0000 + c.base_signature as int
}

pub open spec fn key_is(k: int) -> spec_fn(DetectionCandidate) -> bool {
    |c: DetectionCandidate| key(c) == k
}

pub open spec fn sorted_by_key(s: Seq<DetectionCandidate>) -> bool {
    forall|i: int, j: int| 0 <= i < j < s.len() ==> key(s[i]) <= key(s[j])
}

/// `out` keeps, for every key, the elements of `input` with that key in
/// their input order (the defining property of a stable sort).
pub open spec fn same_key_order(out: Seq<DetectionCandidate>, input: Seq<DetectionCandidate>) -> bool {
    forall|k: int| #[trigger] out.filter(key_is(k)) == input.filter(key_is(k))
}

/// Number of leading elements whose key is at most `k`.
pub open spec fn insert_pos(s: Seq<DetectionCandidate>, k: int) -> int
    decreases s.len(),
{
    if s.len() > 0 && key(s[0]) <= k {
        1 + insert_pos(s.drop_first(), k)
    } else {
        0
    }
}

pub open spec fn insert_sorted(s: Seq<DetectionCandidate>, e: DetectionCandidate) -> Seq<DetectionCandidate> {
    let p = insert_pos(s, key(e));
    s.take(p) + seq![e] + s.skip(p)
}

/// Stable sort by `key` (each element placed after every earlier element
/// whose key is not greater).
pub open spec fn sort_by_key(s: Seq<DetectionCandidate>) -> Seq<DetectionCandidate>
    decreases s.len(),
{
    if s.len() == 0 {
        seq![]
    } else {
        insert_sorted(sort_by_key(s.drop_last()), s.last())
    }
}

/// What `match_signature_filtered` returns.
pub open spec fn matches_spec(observed: u32, defs: Seq<SignatureDefinition>, enabled_only: bool) -> Seq<
    DetectionCandidate,
> {
    sort_by_key(candidates(observed, defs, enabled_only))
}

proof fn lemma_insert_pos_bounds(s: Seq<DetectionCandidate>, k: int)
    ensures
        0 <= insert_pos(s, k) <= s.len(),
        forall|i: int| 0 <= i < insert_pos(s, k) ==> key(#[trigger] s[i]) <= k,
        insert_pos(s, k) < s.len() ==> key(s[insert_pos(s, k)]) > k,
    decreases s.len(),
{
    if s.len() > 0 && key(s[0]) <= k {
        lemma_insert_pos_bounds(s.drop_first(), k);
        assert forall|i: int| 0 <= i < insert_pos(s, k) implies key(#[trigger] s[i]) <= k by {
            if i > 0 {
                assert(s[i] == s.drop_first()[i - 1]);
            }
        }
    }
}

proof fn lemma_insert_pos_exact(s: Seq<DetectionCandidate>, k: int, p: int)
    requires
        0 <= p <= s.len(),
        forall|i: int| 0 <= i < p ==> key(#[trigger] s[i]) <= k,
        p < s.len() ==> key(s[p]) > k,
    ensures
        insert_pos(s, k) == p,
    decreases s.len(),
{
    if p > 0 {
        assert(key(s[0]) <= k);
        assert forall|i: int| 0 <= i < p - 1 implies key(#[trigger] s.drop_first()[i]) <= k by {
            assert(s.drop_first()[i] == s[i + 1]);
        }
        lemma_insert_pos_exact(s.drop_first(), k, p - 1);
    }
}

proof fn lemma_filter_none(s: Seq<DetectionCandidate>, k: int)
    requires
        forall|i: int| 0 <= i < s.len() ==> key(#[trigger] s[i]) != k,
    ensures
        s.filter(key_is(k)) == Seq::<DetectionCandidate>::empty(),
    decreases s.len(),
{
    reveal_with_fuel(Seq::<_>::filter, 1);
    if s.len() > 0 {
        assert forall|i: int| 0 <= i < s.drop_last().len() implies key(
            #[trigger] s.drop_last()[i],
        ) != k by {
            assert(s.drop_last()[i] == s[i]);
        }
        lemma_filter_none(s.drop_last(), k);
    }
}

proof fn lemma_insert_sorted(s: Seq<DetectionCandidate>, e: DetectionCandidate)
    requires
        sorted_by_key(s),
    ensures
        sorted_by_key(insert_sorted(s, e)),
        forall|k: int| #[trigger] insert_sorted(s, e).filter(key_is(k)) == s.push(e).filter(key_is(k)),
        forall|x: DetectionCandidate| #[trigger] insert_sorted(s, e).contains(x) <==> (s.contains(x) || x == e),
        insert_sorted(s, e).len() == s.len() + 1,
{
    let p = insert_pos(s, key(e));
    lemma_insert_pos_bounds(s, key(e));
    let a = s.take(p);
    let b = s.skip(p);
    let out = insert_sorted(s, e);
    assert(out == a + seq![e] + b);
    assert(s == a + b);
    assert forall|i: int, j: int| 0 <= i < j < out.len() implies key(out[i]) <= key(out[j]) by {
        if j < p {
            assert(out[i] == s[i] && out[j] == s[j]);
        } else if j == p {
            assert(out[j] == e);
            if i < p {
                assert(out[i] == s[i]);
            }
        } else {
            assert(out[j] == s[j - 1]);
            if i < p {
                assert(out[i] == s[i]);
                assert(key(s[i]) <= key(e));
                assert(key(s[p]) > key(e));
                assert(key(s[p]) <= key(s[j - 1]) || p == j - 1);
            } else if i == p {
                assert(out[i] == e);
                assert(key(s[p]) > key(e));
                assert(key(s[p]) <= key(s[j - 1]) || p == j - 1);
            } else {
                assert(out[i] == s[i - 1]);
            }
        }
    }
    assert forall|k: int| #[trigger] out.filter(key_is(k)) == s.push(e).filter(key_is(k)) by {
        assert(s.push(e) == a + b + seq![e]);
        Seq::filter_distributes_over_add(a + b, seq![e], key_is(k));
        Seq::filter_distributes_over_add(a, b, key_is(k));
        Seq::filter_distributes_over_add(a + seq![e], b, key_is(k));
        Seq::filter_distributes_over_add(a, seq![e], key_is(k));
        if k == key(e) {
            assert forall|i: int| 0 <= i < b.len() implies key(#[trigger] b[i]) != k by {
                assert(b[i] == s[p + i]);
                if i > 0 {
                    assert(key(s[p]) <= key(s[p + i]));
                }
            }
            lemma_filter_none(b, k);
        } else {
            lemma_filter_none(seq![e], k);
        }
    }
    assert forall|x: DetectionCandidate| #[trigger] out.contains(x) <==> (s.contains(x) || x == e) by {
        if out.contains(x) {
            let i = choose|i: int| 0 <= i < out.len() && out[i] == x;
            if i < p {
                assert(s[i] == x);
            } else if i > p {
                assert(s[i - 1] == x);
            }
        }
        if s.contains(x) {
            let i = choose|i: int| 0 <= i < s.len() && s[i] == x;
            if i < p {
                assert(out[i] == x);
            } else {
                assert(out[i + 1] == x);
            }
        }
        if x == e {
            assert(out[p] == x);
        }
    }
}

/// The stable sort is sorted, keeps each key's elements in input order,
/// and holds exactly the input's elements.
pub proof fn lemma_sort_by_key(s: Seq<DetectionCandidate>)
    ensures
        sorted_by_key(sort_by_key(s)),
        same_key_order(sort_by_key(s), s),
        forall|x: DetectionCandidate| #[trigger] sort_by_key(s).contains(x) <==> s.contains(x),
        sort_by_key(s).len() == s.len(),
    decreases s.len(),
{
    if s.len() > 0 {
        let prev = s.drop_last();
        lemma_sort_by_key(prev);
        lemma_insert_sorted(sort_by_key(prev), s.last());
        assert(s == prev.push(s.last()));
        let sp = sort_by_key(prev);
        let e = s.last();
        assert forall|k: int| #[trigger] sort_by_key(s).filter(key_is(k)) == s.filter(key_is(k)) by {
            assert(sort_by_key(s).filter(key_is(k)) == sp.push(e).filter(key_is(k)));
            sp.lemma_filter_push(e, key_is(k));
            prev.lemma_filter_push(e, key_is(k));
            assert(sp.filter(key_is(k)) == prev.filter(key_is(k)));
        }
        assert forall|x: DetectionCandidate| #[trigger] sort_by_key(s).contains(x) <==> s.contains(x) by {
            if s.contains(x) && x != s.last() {
                let i = choose|i: int| 0 <= i < s.len() && s[i] == x;
                assert(prev[i] == x);
            }
            if prev.contains(x) {
                let i = choose|i: int| 0 <= i < prev.len() && prev[i] == x;
                assert(s[i] == x);
            }
        }
    }
}


/// The enabled-definition filter.
pub open spec fn is_enabled() -> spec_fn(SignatureDefinition) -> bool {
    |d: SignatureDefinition| d.enabled
}

fn candidate_for(observed: u32, d: &SignatureDefinition, enabled_only: bool) -> (r: Option<
    DetectionCandidate,
>)
    ensures
        r == candidate_of(observed, *d, enabled_only),
{
    if (enabled_only && !d.enabled) || d.base_signature == 0 {
        return None;
    }
    if observed == d.base_signature {
        return Some(
            DetectionCandidate {
                target_id: d.id.clone(),
                name: d.canonical_name.clone(),
                category: d.category,
                observed_signature: observed,
                base_signature: d.base_signature,
                multiplier: 1,
            },
        );
    }
    if d.multiplicative && observed % d.base_signature == 0 {
        let multiplier = observed / d.base_signature;
        let max_multiplier: u32 = match d.category {
            SignatureCategory::Resource => 12,
            _ => 64,
        };
        if multiplier > 1 && multiplier <= max_multiplier {
            return Some(
                DetectionCandidate {
                    target_id: d.id.clone(),
                    name: d.canonical_name.clone(),
                    category: d.category,
                    observed_signature: observed,
                    base_signature: d.base_signature,
                    multiplier,
                },
            );
        }
    }
    None
}

fn insert_candidate(v: &mut Vec<DetectionCandidate>, c: DetectionCandidate)
    ensures
        final(v)@ == insert_sorted(old(v)@, c),
{
    let mut p: usize = 0;
    while p < v.len() && (v[p].multiplier < c.multiplier || (v[p].multiplier == c.multiplier
        && v[p].base_signature <= c.base_signature))
        invariant
            v@ == old(v)@,
            p <= v.len(),
            forall|i: int| 0 <= i < p ==> key(#[trigger] v@[i]) <= key(c),
        decreases v.len() - p,
    {
        p += 1;
    }
    proof {
        lemma_insert_pos_exact(v@, key(c), p as int);
    }
    let ghost before = v@;
    v.insert(p, c);
    assert(v@ =~= before.take(p as int) + seq![c] + before.skip(p as int));
}

/// Matches of `observed` against `definitions`, ordered by multiplier and
/// then base signature; only enabled definitions when `enabled_only`.
fn match_signature_filtered(
    observed: u32,
    definitions: &[SignatureDefinition],
    enabled_only: bool,
) -> (r: Vec<DetectionCandidate>)
    ensures
        r@ == matches_spec(observed, definitions@, enabled_only),
        sorted_by_key(r@),
        same_key_order(r@, candidates(observed, definitions@, enabled_only)),
{
    let mut matches: Vec<DetectionCandidate> = Vec::new();
    let mut i: usize = 0;
    while i < definitions.len()
        invariant
            i <= definitions.len(),
            matches@ == sort_by_key(candidates(observed, definitions@.take(i as int), enabled_only)),
        decreases definitions.len() - i,
    {
        assert(definitions@.take(i + 1).drop_last() == definitions@.take(i as int));
        assert(definitions@.take(i + 1).last() == definitions@[i as int]);
        let ghost prevc = candidates(observed, definitions@.take(i as int), enabled_only);
        if let Some(c) = candidate_for(observed, &definitions[i], enabled_only) {
            assert(prevc.push(c).drop_last() == prevc);
            assert(prevc.push(c).last() == c);
            insert_candidate(&mut matches, c);
        }
        i += 1;
    }
    assert(definitions@.take(definitions.len() as int) == definitions@);
    proof {
        lemma_sort_by_key(candidates(observed, definitions@, enabled_only));
    }
    matches
}

/// Detections of `observed` among the enabled definitions (those that alert).
pub fn match_signature(observed: u32, definitions: &[SignatureDefinition]) -> (r: Vec<
    DetectionCandidate,
>)
    ensures
        r@ == matches_spec(observed, definitions@, true),
        sorted_by_key(r@),
        same_key_order(r@, candidates(observed, definitions@, true)),
{
    match_signature_filtered(observed, definitions, true)
}

/// Detections of `observed` among all definitions, enabled or not.
pub fn resolve_signature(observed: u32, definitions: &[SignatureDefinition]) -> (r: Vec<
    DetectionCandidate,
>)
    ensures
        r@ == matches_spec(observed, definitions@, false),
        sorted_by_key(r@),
        same_key_order(r@, candidates(observed, definitions@, false)),
{
    match_signature_filtered(observed, definitions, false)
}

proof fn lemma_candidates_contains(observed: u32, defs: Seq<SignatureDefinition>, enabled_only: bool, c: DetectionCandidate)
    requires
        candidates(observed, defs, enabled_only).contains(c),
    ensures
        exists|i: int| 0 <= i < defs.len() && candidate_of(observed, defs[i], enabled_only) == Some(c),
    decreases defs.len(),
{
    let prev = candidates(observed, defs.drop_last(), enabled_only);
    if prev.contains(c) {
        lemma_candidates_contains(observed, defs.drop_last(), enabled_only, c);
        let i = choose|i: int| 0 <= i < defs.drop_last().len() && candidate_of(observed, defs.drop_last()[i], enabled_only) == Some(c);
        assert(defs[i] == defs.drop_last()[i]);
    } else {
        assert(candidate_of(observed, defs[defs.len() - 1], enabled_only) == Some(c));
    }
}

/// Every detection reports the observed value as an exact multiple (within
/// the category's cluster range) of the base signature of one definition,
/// whose id and name it carries; when only enabled definitions are
/// considered, that definition is enabled.
pub proof fn law_detection_is_exact_multiple(
    observed: u32,
    defs: Seq<SignatureDefinition>,
    enabled_only: bool,
    c: DetectionCandidate,
)
    requires
        matches_spec(observed, defs, enabled_only).contains(c),
    ensures
        c.observed_signature == observed,
        1 <= c.multiplier <= max_multiplier(c.category),
        c.multiplier <= (if c.category is Resource {
            12u32
        } else {
            64u32
        }),
        c.multiplier as int * c.base_signature as int == observed as int,
        exists|i: int|
            0 <= i < defs.len() && #[trigger] defs[i].id == c.target_id && defs[i].canonical_name
                == c.name && defs[i].base_signature == c.base_signature && defs[i].category
                == c.category && (enabled_only ==> defs[i].enabled) && (c.multiplier > 1
                ==> defs[i].multiplicative),
{
    lemma_sort_by_key(candidates(observed, defs, enabled_only));
    lemma_candidates_contains(observed, defs, enabled_only, c);
    let i = choose|i: int| 0 <= i < defs.len() && candidate_of(observed, defs[i], enabled_only) == Some(c);
    let d = defs[i];
    if observed != d.base_signature {
        let m = observed / d.base_signature;
        assert(m * d.base_signature == observed) by (nonlinear_arith)
            requires
                d.base_signature > 0,
                observed % d.base_signature == 0,
                m == observed / d.base_signature,
        ;
    }
    assert(defs[i].id == c.target_id);
}

proof fn lemma_candidates_enabled(observed: u32, defs: Seq<SignatureDefinition>)
    ensures
        candidates(observed, defs, true) == candidates(observed, defs.filter(is_enabled()), false),
    decreases defs.len(),
{
    reveal_with_fuel(Seq::<_>::filter, 1);
    if defs.len() > 0 {
        lemma_candidates_enabled(observed, defs.drop_last());
        let f = defs.drop_last().filter(is_enabled());
        if defs.last().enabled {
            assert(defs.filter(is_enabled()) == f.push(defs.last()));
            assert(f.push(defs.last()).drop_last() == f);
        }
    }
}

/// Alerting matches are exactly the resolution against the enabled
/// definitions: a disabled definition never raises a detection, and an
/// enabled one is reported just as `resolve_signature` reports it.
pub proof fn law_match_is_resolve_over_enabled(observed: u32, defs: Seq<SignatureDefinition>)
    ensures
        matches_spec(observed, defs, true) == matches_spec(observed, defs.filter(is_enabled()), false),
{
    lemma_candidates_enabled(observed, defs);
}

proof fn lemma_candidates_include(observed: u32, defs: Seq<SignatureDefinition>, enabled_only: bool, i: int)
    requires
        0 <= i < defs.len(),
        candidate_of(observed, defs[i], enabled_only) is Some,
    ensures
        candidates(observed, defs, enabled_only).contains(candidate_of(observed, defs[i], enabled_only)->0),
    decreases defs.len(),
{
    let prev = candidates(observed, defs.drop_last(), enabled_only);
    let c = candidate_of(observed, defs[i], enabled_only)->0;
    if i == defs.len() - 1 {
        assert(prev.push(c)[prev.len() as int] == c);
    } else {
        assert(defs.drop_last()[i] == defs[i]);
        lemma_candidates_include(observed, defs.drop_last(), enabled_only, i);
        let j = choose|j: int| 0 <= j < prev.len() && prev[j] == c;
        match candidate_of(observed, defs.last(), enabled_only) {
            Some(x) => assert(prev.push(x)[j] == c),
            None => {},
        }
    }
}

/// Every exact multiple is found: when the observed value is `k` times the
/// base signature of a definition (taken into account), with `k == 1`, or
/// with `2 <= k` up to 12 for a resource and up to 64 for any other category
/// when the definition is multiplicative, the result holds that
/// definition's detection with multiplier `k`.
pub proof fn law_cluster_matches_are_complete(
    observed: u32,
    defs: Seq<SignatureDefinition>,
    enabled_only: bool,
    i: int,
    k: int,
)
    requires
        0 <= i < defs.len(),
        enabled_only ==> defs[i].enabled,
        defs[i].base_signature > 0,
        observed as int == k * defs[i].base_signature as int,
        k == 1 || (defs[i].multiplicative && 2 <= k <= (if defs[i].category is Resource {
            12int
        } else {
            64int
        })),
    ensures
        exists|c: DetectionCandidate|
            #[trigger] matches_spec(observed, defs, enabled_only).contains(c) && c.target_id
                == defs[i].id && c.name == defs[i].canonical_name && c.category == defs[i].category
                && c.observed_signature == observed && c.base_signature == defs[i].base_signature
                && c.multiplier == k,
{
    let d = defs[i];
    let b = d.base_signature as int;
    if k != 1 {
        vstd::arithmetic::div_mod::lemma_mod_multiples_basic(k, b);
        vstd::arithmetic::div_mod::lemma_div_multiples_vanish(k, b);
        assert(b * k == k * b) by (nonlinear_arith);
        assert(observed as int != b) by (nonlinear_arith)
            requires
                observed as int == k * b,
                k >= 2,
                b > 0,
        ;
        assert(observed % d.base_signature == 0);
        assert(observed / d.base_signature == k);
    }
    let c = candidate_of(observed, d, enabled_only)->0;
    assert(candidate_of(observed, d, enabled_only) is Some);
    lemma_candidates_include(observed, defs, enabled_only, i);
    lemma_sort_by_key(candidates(observed, defs, enabled_only));
    assert(matches_spec(observed, defs, enabled_only).contains(c));
}

/// Detections come ranked by cluster size, and by base signature among
/// equal cluster sizes.
pub proof fn law_matches_ranked(observed: u32, defs: Seq<SignatureDefinition>, enabled_only: bool, i: int, j: int)
    requires
        0 <= i < j < matches_spec(observed, defs, enabled_only).len(),
    ensures
        ({
            let a = matches_spec(observed, defs, enabled_only)[i];
            let b = matches_spec(observed, defs, enabled_only)[j];
            a.multiplier < b.multiplier || (a.multiplier == b.multiplier && a.base_signature
                <= b.base_signature)
        }),
{
    lemma_sort_by_key(candidates(observed, defs, enabled_only));
    let s = matches_spec(observed, defs, enabled_only);
    assert(key(s[i]) <= key(s[j]));
}

} // verus!
