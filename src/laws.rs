//! What the generated classifier returns, stated over the definition it was
//! generated from.
use vstd::prelude::*;
use crate::annotation::{tags_of, TagSpec, VariantDef};
use crate::outside::is_path_text;
use crate::table::{
    arm_matches, arm_outcome, arms_of, claims_fallback, classify_from, classify_spec,
    concrete_arms, concrete_upto, fallback_of, fallback_upto, lookup, symbol_of, tag_arms_upto,
    variant_arms, ArmSpec, Binding, OutcomeSpec,
};

verus! {

/// Arms that do not match are passed over.
proof fn lemma_skip(arms: Seq<ArmSpec>, ns: Seq<Binding>, v: i32, i: int, j: int)
    requires
        0 <= i <= j <= arms.len(),
        forall|m: int| i <= m < j ==> !#[trigger] arm_matches(arms[m], ns, v),
    ensures
        classify_from(arms, ns, v, i) == classify_from(arms, ns, v, j),
    decreases j - i,
{
    if i < j {
        lemma_skip(arms, ns, v, i + 1, j);
    }
}

/// Where arm `j` matches and every matching arm up to it gives `o`, the result is `o`.
proof fn lemma_first_match(arms: Seq<ArmSpec>, ns: Seq<Binding>, v: i32, i: int, j: int, o: OutcomeSpec)
    requires
        0 <= i <= j < arms.len(),
        arm_matches(arms[j], ns, v),
        forall|m: int| i <= m <= j && #[trigger] arm_matches(arms[m], ns, v) ==> arm_outcome(arms[m], v) == o,
    ensures
        classify_from(arms, ns, v, i) == o,
    decreases j - i,
{
    if !arm_matches(arms[i], ns, v) {
        lemma_first_match(arms, ns, v, i + 1, j, o);
    }
}

proof fn lemma_tag_arm_present(prefix: Seq<char>, ident: Seq<char>, tags: Seq<TagSpec>, t: int, n: int)
    requires
        0 <= t < n <= tags.len(),
        tags[t].suffix is Some,
        is_path_text(symbol_of(prefix, tags[t].suffix->Some_0)),
    ensures
        tag_arms_upto(prefix, ident, tags, n).contains(ArmSpec::Concrete(symbol_of(prefix, tags[t].suffix->Some_0), ident)),
    decreases n,
{
    let a = ArmSpec::Concrete(symbol_of(prefix, tags[t].suffix->Some_0), ident);
    let earlier = tag_arms_upto(prefix, ident, tags, n - 1);
    if t == n - 1 {
        assert(earlier.push(a)[earlier.len() as int] == a);
    } else {
        lemma_tag_arm_present(prefix, ident, tags, t, n - 1);
        let w = choose|w: int| 0 <= w < earlier.len() && earlier[w] == a;
        match tags[n - 1].suffix {
            Some(s) => if is_path_text(symbol_of(prefix, s)) {
                assert(earlier.push(ArmSpec::Concrete(symbol_of(prefix, s), ident))[w] == a);
            },
            None => {},
        }
    }
}

/// The concrete arms of the first `n` variants are those of each of them.
proof fn lemma_concrete_member(prefix: Seq<char>, vs: Seq<VariantDef>, n: int, a: ArmSpec)
    requires
        0 <= n <= vs.len(),
    ensures
        concrete_upto(prefix, vs, n).contains(a) <==> exists|k: int| 0 <= k < n && #[trigger] variant_arms(prefix, vs[k]).contains(a),
    decreases n,
{
    if n > 0 {
        lemma_concrete_member(prefix, vs, n - 1, a);
        let earlier = concrete_upto(prefix, vs, n - 1);
        let mine = variant_arms(prefix, vs[n - 1]);
        let all = earlier + mine;
        if all.contains(a) {
            let w = choose|w: int| 0 <= w < all.len() && all[w] == a;
            if w < earlier.len() {
                assert(earlier[w] == a);
                let k = choose|k: int| 0 <= k < n - 1 && #[trigger] variant_arms(prefix, vs[k]).contains(a);
                assert(variant_arms(prefix, vs[k]).contains(a));
            } else {
                assert(mine[w - earlier.len()] == a);
                assert(variant_arms(prefix, vs[n - 1]).contains(a));
            }
        }
        if exists|k: int| 0 <= k < n && #[trigger] variant_arms(prefix, vs[k]).contains(a) {
            let k = choose|k: int| 0 <= k < n && #[trigger] variant_arms(prefix, vs[k]).contains(a);
            if k < n - 1 {
                let w = choose|w: int| 0 <= w < earlier.len() && earlier[w] == a;
                assert(all[w] == a);
            } else {
                let w = choose|w: int| 0 <= w < mine.len() && mine[w] == a;
                assert(all[earlier.len() + w] == a);
            }
        }
    }
}

/// The fallback is the identifier of a variant that claims it, and there is
/// one exactly when some variant claims it.
proof fn lemma_fallback_claimant(vs: Seq<VariantDef>, n: int)
    requires
        0 <= n <= vs.len(),
    ensures
        fallback_upto(vs, n) is None <==> forall|k: int| 0 <= k < n ==> !#[trigger] claims_fallback(vs[k]),
        fallback_upto(vs, n) is Some ==> exists|k: int| 0 <= k < n && #[trigger] claims_fallback(vs[k]) && vs[k].ident@ == fallback_upto(vs, n)->Some_0,
    decreases n,
{
    if n > 0 {
        lemma_fallback_claimant(vs, n - 1);
    }
}

/// The classifier over concrete arms, one of which matches, all of the matching
/// ones giving `o`.
proof fn lemma_concrete_decides(prefix: Seq<char>, vs: Seq<VariantDef>, ns: Seq<Binding>, v: i32, j: int, o: OutcomeSpec)
    requires
        0 <= j < concrete_arms(prefix, vs).len(),
        arm_matches(concrete_arms(prefix, vs)[j], ns, v),
        forall|m: int| 0 <= m < concrete_arms(prefix, vs).len() && #[trigger] arm_matches(concrete_arms(prefix, vs)[m], ns, v)
            ==> arm_outcome(concrete_arms(prefix, vs)[m], v) == o,
    ensures
        classify_spec(arms_of(prefix, vs), ns, v) == o,
{
    let c = concrete_arms(prefix, vs);
    let arms = arms_of(prefix, vs);
    assert forall|m: int| 0 <= m <= j && #[trigger] arm_matches(arms[m], ns, v) implies arm_outcome(arms[m], v) == o by {
        assert(arms[m] == c[m]);
    }
    assert(arms[j] == c[j]);
    lemma_first_match(arms, ns, v, 0, j, o);
}

/// A value bound to the symbol of a variant, and to no other variant's symbol,
/// is classified as that variant.
pub proof fn lemma_bound_value_selects_variant(prefix: Seq<char>, vs: Seq<VariantDef>, ns: Seq<Binding>, v: i32, k: int, t: int)
    requires
        0 <= k < vs.len(),
        0 <= t < tags_of(vs[k].attrs@).len(),
        tags_of(vs[k].attrs@)[t].suffix is Some,
        is_path_text(symbol_of(prefix, tags_of(vs[k].attrs@)[t].suffix->Some_0)),
        lookup(ns, symbol_of(prefix, tags_of(vs[k].attrs@)[t].suffix->Some_0)) == Some(v),
        forall|m: int| 0 <= m < concrete_arms(prefix, vs).len() && #[trigger] arm_matches(concrete_arms(prefix, vs)[m], ns, v)
            ==> arm_outcome(concrete_arms(prefix, vs)[m], v) == OutcomeSpec::Selected(vs[k].ident@),
    ensures
        classify_spec(arms_of(prefix, vs), ns, v) == OutcomeSpec::Selected(vs[k].ident@),
{
    let tags = tags_of(vs[k].attrs@);
    let a = ArmSpec::Concrete(symbol_of(prefix, tags[t].suffix->Some_0), vs[k].ident@);
    lemma_tag_arm_present(prefix, vs[k].ident@, tags, t, tags.len() as int);
    assert(variant_arms(prefix, vs[k]).contains(a));
    lemma_concrete_member(prefix, vs, vs.len() as int, a);
    let c = concrete_arms(prefix, vs);
    let j = choose|j: int| 0 <= j < c.len() && c[j] == a;
    lemma_concrete_decides(prefix, vs, ns, v, j, OutcomeSpec::Selected(vs[k].ident@));
}

/// A value that no concrete arm matches goes to the fallback variant, carrying
/// the value unchanged; without a fallback nothing matches.
pub proof fn lemma_unbound_value_falls_back(prefix: Seq<char>, vs: Seq<VariantDef>, ns: Seq<Binding>, v: i32)
    requires
        forall|m: int| 0 <= m < concrete_arms(prefix, vs).len() ==> !#[trigger] arm_matches(concrete_arms(prefix, vs)[m], ns, v),
    ensures
        classify_spec(arms_of(prefix, vs), ns, v) == match fallback_of(vs) {
            Some(f) => OutcomeSpec::Fallback(f, v),
            None => OutcomeSpec::Unmatched,
        },
{
    let c = concrete_arms(prefix, vs);
    let arms = arms_of(prefix, vs);
    assert forall|m: int| 0 <= m < c.len() implies !#[trigger] arm_matches(arms[m], ns, v) by {
        assert(arms[m] == c[m]);
        assert(!arm_matches(c[m], ns, v));
    }
    lemma_skip(arms, ns, v, 0, c.len() as int);
    if fallback_of(vs) is Some {
        assert(arms[c.len() as int] == ArmSpec::Wildcard(fallback_of(vs)->Some_0));
    } else {
        assert(arms.len() == c.len());
    }
}

/// Reordering the variants does not change what a value is classified as,
/// where the value is bound to the symbols of one variant at most and all
/// claims to the fallback name one variant.
pub proof fn lemma_declaration_order_irrelevant(prefix: Seq<char>, vs1: Seq<VariantDef>, vs2: Seq<VariantDef>, ns: Seq<Binding>, v: i32)
    requires
        vs1.to_multiset() == vs2.to_multiset(),
        forall|i: int, j: int|
            0 <= i < concrete_arms(prefix, vs1).len() && 0 <= j < concrete_arms(prefix, vs1).len()
                && #[trigger] arm_matches(concrete_arms(prefix, vs1)[i], ns, v)
                && #[trigger] arm_matches(concrete_arms(prefix, vs1)[j], ns, v)
                ==> arm_outcome(concrete_arms(prefix, vs1)[i], v) == arm_outcome(concrete_arms(prefix, vs1)[j], v),
        forall|i: int, j: int|
            0 <= i < vs1.len() && 0 <= j < vs1.len() && #[trigger] claims_fallback(vs1[i]) && #[trigger] claims_fallback(vs1[j])
                ==> vs1[i].ident@ == vs1[j].ident@,
    ensures
        classify_spec(arms_of(prefix, vs1), ns, v) == classify_spec(arms_of(prefix, vs2), ns, v),
{
    vs1.to_multiset_ensures();
    vs2.to_multiset_ensures();
    let c1 = concrete_arms(prefix, vs1);
    let c2 = concrete_arms(prefix, vs2);
    assert forall|a: ArmSpec| c1.contains(a) <==> c2.contains(a) by {
        lemma_concrete_member(prefix, vs1, vs1.len() as int, a);
        lemma_concrete_member(prefix, vs2, vs2.len() as int, a);
        if c1.contains(a) {
            let k = choose|k: int| 0 <= k < vs1.len() && #[trigger] variant_arms(prefix, vs1[k]).contains(a);
            assert(vs1.contains(vs1[k]));
            assert(vs1.to_multiset().count(vs1[k]) > 0);
            let k2 = choose|k2: int| 0 <= k2 < vs2.len() && vs2[k2] == vs1[k];
            assert(variant_arms(prefix, vs2[k2]).contains(a));
        }
        if c2.contains(a) {
            let k = choose|k: int| 0 <= k < vs2.len() && #[trigger] variant_arms(prefix, vs2[k]).contains(a);
            assert(vs2.contains(vs2[k]));
            assert(vs2.to_multiset().count(vs2[k]) > 0);
            let k1 = choose|k1: int| 0 <= k1 < vs1.len() && vs1[k1] == vs2[k];
            assert(variant_arms(prefix, vs1[k1]).contains(a));
        }
    }
    if exists|i: int| 0 <= i < c1.len() && #[trigger] arm_matches(c1[i], ns, v) {
        let i = choose|i: int| 0 <= i < c1.len() && #[trigger] arm_matches(c1[i], ns, v);
        let o = arm_outcome(c1[i], v);
        assert(c1.contains(c1[i]));
        let j = choose|j: int| 0 <= j < c2.len() && c2[j] == c1[i];
        assert forall|m: int| 0 <= m < c2.len() && #[trigger] arm_matches(c2[m], ns, v) implies arm_outcome(c2[m], v) == o by {
            assert(c2.contains(c2[m]));
            let m1 = choose|m1: int| 0 <= m1 < c1.len() && c1[m1] == c2[m];
            assert(arm_matches(c1[m1], ns, v));
        }
        lemma_concrete_decides(prefix, vs1, ns, v, i, o);
        lemma_concrete_decides(prefix, vs2, ns, v, j, o);
    } else {
        assert forall|m: int| 0 <= m < c2.len() implies !#[trigger] arm_matches(c2[m], ns, v) by {
            assert(c2.contains(c2[m]));
            let m1 = choose|m1: int| 0 <= m1 < c1.len() && c1[m1] == c2[m];
            assert(!arm_matches(c1[m1], ns, v));
        }
        lemma_unbound_value_falls_back(prefix, vs1, ns, v);
        lemma_unbound_value_falls_back(prefix, vs2, ns, v);
        lemma_fallback_claimant(vs1, vs1.len() as int);
        lemma_fallback_claimant(vs2, vs2.len() as int);
        if fallback_of(vs1) is Some {
            let k = choose|k: int| 0 <= k < vs1.len() && #[trigger] claims_fallback(vs1[k]) && vs1[k].ident@ == fallback_of(vs1)->Some_0;
            assert(vs1.contains(vs1[k]));
            assert(vs1.to_multiset().count(vs1[k]) > 0);
            let k2 = choose|k2: int| 0 <= k2 < vs2.len() && vs2[k2] == vs1[k];
            assert(claims_fallback(vs2[k2]));
            let q = choose|q: int| 0 <= q < vs2.len() && #[trigger] claims_fallback(vs2[q]) && vs2[q].ident@ == fallback_of(vs2)->Some_0;
            assert(vs2.contains(vs2[q]));
            assert(vs2.to_multiset().count(vs2[q]) > 0);
            let q1 = choose|q1: int| 0 <= q1 < vs1.len() && vs1[q1] == vs2[q];
            assert(claims_fallback(vs1[q1]));
        } else if fallback_of(vs2) is Some {
            let q = choose|q: int| 0 <= q < vs2.len() && #[trigger] claims_fallback(vs2[q]) && vs2[q].ident@ == fallback_of(vs2)->Some_0;
            assert(vs2.contains(vs2[q]));
            assert(vs2.to_multiset().count(vs2[q]) > 0);
            let q1 = choose|q1: int| 0 <= q1 < vs1.len() && vs1[q1] == vs2[q];
            assert(claims_fallback(vs1[q1]));
        }
    }
}

} // verus!
