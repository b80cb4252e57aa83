//! Symbol resolution, the ordered arm table of the classifier, and what the
//! classifier returns for a value.
use vstd::prelude::*;
use crate::annotation::{tags_of, tags_view, variant_tags, TagSpec, VariantDef, VariantTag};
use crate::outside::{is_path_text, parses_as_path};

verus! {

/// One arm of the classifier.
pub enum Arm {
    /// A value equal to the constant at `path` gives the unit variant `variant`.
    Concrete { path: String, variant: String },
    /// Any value gives `variant` carrying that value.
    Wildcard { variant: String },
}

/// The mathematical form of an `Arm`.
pub enum ArmSpec {
    Concrete(Seq<char>, Seq<char>),
    Wildcard(Seq<char>),
}

impl View for Arm {
    type V = ArmSpec;

    open spec fn view(&self) -> ArmSpec {
        match self {
            Arm::Concrete { path, variant } => ArmSpec::Concrete(path@, variant@),
            Arm::Wildcard { variant } => ArmSpec::Wildcard(variant@),
        }
    }
}

pub open spec fn arms_view(s: Seq<Arm>) -> Seq<ArmSpec> {
    s.map_values(|a: Arm| a@)
}

/// The fully qualified symbol name: prefix and suffix, verbatim.
pub open spec fn symbol_of(prefix: Seq<char>, suffix: Seq<char>) -> Seq<char> {
    prefix + suffix
}

/// The concrete arms that the first `n` tags of variant `ident` give: one for
/// each suffix whose symbol name is a valid path.
pub open spec fn tag_arms_upto(prefix: Seq<char>, ident: Seq<char>, tags: Seq<TagSpec>, n: int) -> Seq<ArmSpec>
    decreases n,
{
    if n <= 0 {
        Seq::empty()
    } else {
        let earlier = tag_arms_upto(prefix, ident, tags, n - 1);
        match tags[n - 1].suffix {
            Some(s) if is_path_text(symbol_of(prefix, s)) => earlier.push(ArmSpec::Concrete(symbol_of(prefix, s), ident)),
            _ => earlier,
        }
    }
}

/// The concrete arms of one variant.
pub open spec fn variant_arms(prefix: Seq<char>, v: VariantDef) -> Seq<ArmSpec> {
    let tags = tags_of(v.attrs@);
    tag_arms_upto(prefix, v.ident@, tags, tags.len() as int)
}

/// The concrete arms of the first `n` variants, in declaration order.
pub open spec fn concrete_upto(prefix: Seq<char>, vs: Seq<VariantDef>, n: int) -> Seq<ArmSpec>
    decreases n,
{
    if n <= 0 {
        Seq::empty()
    } else {
        concrete_upto(prefix, vs, n - 1) + variant_arms(prefix, vs[n - 1])
    }
}

pub open spec fn concrete_arms(prefix: Seq<char>, vs: Seq<VariantDef>) -> Seq<ArmSpec> {
    concrete_upto(prefix, vs, vs.len() as int)
}

/// Whether a variant claims to be the fallback.
pub open spec fn claims_fallback(v: VariantDef) -> bool {
    exists|t: int| 0 <= t < tags_of(v.attrs@).len() && #[trigger] tags_of(v.attrs@)[t].undefined
}

/// The first of the first `n` variants that claims to be the fallback.
pub open spec fn fallback_upto(vs: Seq<VariantDef>, n: int) -> Option<Seq<char>>
    decreases n,
{
    if n <= 0 {
        None
    } else {
        match fallback_upto(vs, n - 1) {
            Some(f) => Some(f),
            None => if claims_fallback(vs[n - 1]) {
                Some(vs[n - 1].ident@)
            } else {
                None
            },
        }
    }
}

pub open spec fn fallback_of(vs: Seq<VariantDef>) -> Option<Seq<char>> {
    fallback_upto(vs, vs.len() as int)
}

/// The wildcard arm, if any variant claims the fallback.
pub open spec fn wildcard_arms(vs: Seq<VariantDef>) -> Seq<ArmSpec> {
    match fallback_of(vs) {
        Some(f) => seq![ArmSpec::Wildcard(f)],
        None => Seq::empty(),
    }
}

/// The classifier's arms: every concrete arm in declaration order, then the
/// single wildcard arm.
pub open spec fn arms_of(prefix: Seq<char>, vs: Seq<VariantDef>) -> Seq<ArmSpec> {
    concrete_arms(prefix, vs) + wildcard_arms(vs)
}

/// A constant of the outside namespace.
pub struct Binding {
    pub name: String,
    pub value: i32,
}

/// The value of the first constant named `name`.
pub open spec fn lookup(ns: Seq<Binding>, name: Seq<char>) -> Option<i32>
    decreases ns.len(),
{
    if ns.len() == 0 {
        None
    } else if ns[0].name@ == name {
        Some(ns[0].value)
    } else {
        lookup(ns.drop_first(), name)
    }
}

/// What the classifier returns.
pub enum Outcome {
    /// The unit variant of that name.
    Selected(String),
    /// The fallback variant of that name, carrying the value.
    Fallback(String, i32),
    /// No arm matched.
    Unmatched,
}

/// The mathematical form of an `Outcome`.
pub enum OutcomeSpec {
    Selected(Seq<char>),
    Fallback(Seq<char>, i32),
    Unmatched,
}

impl View for Outcome {
    type V = OutcomeSpec;

    open spec fn view(&self) -> OutcomeSpec {
        match self {
            Outcome::Selected(s) => OutcomeSpec::Selected(s@),
            Outcome::Fallback(s, v) => OutcomeSpec::Fallback(s@, *v),
            Outcome::Unmatched => OutcomeSpec::Unmatched,
        }
    }
}

/// Whether an arm matches the value.
pub open spec fn arm_matches(a: ArmSpec, ns: Seq<Binding>, v: i32) -> bool {
    match a {
        ArmSpec::Concrete(p, _) => lookup(ns, p) == Some(v),
        ArmSpec::Wildcard(_) => true,
    }
}

/// What an arm that matched gives.
pub open spec fn arm_outcome(a: ArmSpec, v: i32) -> OutcomeSpec {
    match a {
        ArmSpec::Concrete(_, var) => OutcomeSpec::Selected(var),
        ArmSpec::Wildcard(var) => OutcomeSpec::Fallback(var, v),
    }
}

/// First match wins, from arm `i` on.
pub open spec fn classify_from(arms: Seq<ArmSpec>, ns: Seq<Binding>, v: i32, i: int) -> OutcomeSpec
    decreases arms.len() - i,
{
    if i < 0 || i >= arms.len() {
        OutcomeSpec::Unmatched
    } else if arm_matches(arms[i], ns, v) {
        arm_outcome(arms[i], v)
    } else {
        classify_from(arms, ns, v, i + 1)
    }
}

/// What a classifier with these arms returns for `v`.
pub open spec fn classify_spec(arms: Seq<ArmSpec>, ns: Seq<Binding>, v: i32) -> OutcomeSpec {
    classify_from(arms, ns, v, 0)
}

/// The fully qualified symbol name for a suffix.
pub fn resolve_symbol(prefix: &String, suffix: &String) -> (r: String)
    ensures
        r@ == symbol_of(prefix@, suffix@),
{
    let mut r = prefix.clone();
    r.append(suffix.as_str());
    r
}

/// Whether some tag claims the fallback.
fn any_undefined(tags: &Vec<VariantTag>) -> (r: bool)
    ensures
        r == exists|t: int| 0 <= t < tags@.len() && #[trigger] tags@[t].undefined,
{
    let mut i: usize = 0;
    while i < tags.len()
        invariant
            i <= tags@.len(),
            forall|t: int| 0 <= t < i ==> !#[trigger] tags@[t].undefined,
        decreases tags@.len() - i,
    {
        if tags[i].undefined {
            return true;
        }
        i = i + 1;
    }
    false
}

/// Builds the classifier's arms: concrete arms in declaration order, each
/// variant's in the order of its attributes, and the wildcard arm of the first
/// variant that claims the fallback, last.
pub fn build_arms(prefix: &String, variants: &Vec<VariantDef>) -> (r: Vec<Arm>)
    ensures
        arms_view(r@) == arms_of(prefix@, variants@),
{
    let mut arms: Vec<Arm> = Vec::new();
    let mut fallback: Option<String> = None;
    let mut k: usize = 0;
    while k < variants.len()
        invariant
            k <= variants@.len(),
            arms_view(arms@) == concrete_upto(prefix@, variants@, k as int),
            crate::annotation::opt_view(fallback) == fallback_upto(variants@, k as int),
        decreases variants@.len() - k,
    {
        let v = &variants[k];
        let tags = variant_tags(&v.attrs);
        let ghost base = arms_view(arms@);
        let mut t: usize = 0;
        while t < tags.len()
            invariant
                k < variants@.len(),
                v == variants@[k as int],
                tags_view(tags@) == tags_of(v.attrs@),
                t <= tags@.len(),
                arms_view(arms@) == base + tag_arms_upto(prefix@, v.ident@, tags_of(v.attrs@), t as int),
            decreases tags@.len() - t,
        {
            assert(tags_view(tags@)[t as int] == tags@[t as int]@);
            match &tags[t].suffix {
                Some(s) => {
                    let path = resolve_symbol(prefix, s);
                    if parses_as_path(path.as_str()) {
                        let a = Arm::Concrete { path, variant: v.ident.clone() };
                        proof {
                            assert(arms_view(arms@.push(a)) =~= arms_view(arms@).push(a@));
                        }
                        arms.push(a);
                    }
                },
                None => {},
            }
            t = t + 1;
        }
        if fallback.is_none() {
            let claimed = any_undefined(&tags);
            proof {
                if claimed {
                    let w = choose|w: int| 0 <= w < tags@.len() && #[trigger] tags@[w].undefined;
                    assert(tags_view(tags@)[w] == tags@[w]@);
                    assert(tags_of(v.attrs@)[w].undefined);
                }
                if claims_fallback(*v) {
                    let w = choose|w: int| 0 <= w < tags_of(v.attrs@).len() && #[trigger] tags_of(v.attrs@)[w].undefined;
                    assert(tags_view(tags@)[w] == tags@[w]@);
                    assert(tags@[w].undefined);
                }
            }
            if claimed {
                fallback = Some(v.ident.clone());
            }
        }
        assert(concrete_upto(prefix@, variants@, k + 1) == concrete_upto(prefix@, variants@, k as int) + variant_arms(prefix@, variants@[k as int]));
        k = k + 1;
    }
    match fallback {
        Some(f) => {
            let a = Arm::Wildcard { variant: f };
            proof {
                assert(arms_view(arms@.push(a)) =~= arms_view(arms@).push(a@));
                assert(arms_view(arms@).push(a@) =~= arms_of(prefix@, variants@));
            }
            arms.push(a);
        },
        None => {
            assert(arms_view(arms@) =~= arms_of(prefix@, variants@));
        },
    }
    arms
}

/// The value of the first constant named `name`.
pub fn lookup_value(ns: &Vec<Binding>, name: &String) -> (r: Option<i32>)
    ensures
        r == lookup(ns@, name@),
{
    let mut i: usize = 0;
    assert(ns@.subrange(0, ns@.len() as int) =~= ns@);
    while i < ns.len()
        invariant
            i <= ns@.len(),
            lookup(ns@, name@) == lookup(ns@.subrange(i as int, ns@.len() as int), name@),
        decreases ns@.len() - i,
    {
        let ghost rest = ns@.subrange(i as int, ns@.len() as int);
        assert(rest.drop_first() =~= ns@.subrange(i + 1, ns@.len() as int));
        if ns[i].name == *name {
            return Some(ns[i].value);
        }
        i = i + 1;
    }
    None
}

/// Runs the classifier with these arms on `v`: the first arm that matches
/// decides.
pub fn classify(arms: &Vec<Arm>, ns: &Vec<Binding>, v: i32) -> (r: Outcome)
    ensures
        r@ == classify_spec(arms_view(arms@), ns@, v),
{
    let ghost spec_arms = arms_view(arms@);
    let mut i: usize = 0;
    while i < arms.len()
        invariant
            i <= arms@.len(),
            spec_arms == arms_view(arms@),
            classify_from(spec_arms, ns@, v, i as int) == classify_spec(spec_arms, ns@, v),
        decreases arms@.len() - i,
    {
        assert(spec_arms[i as int] == arms@[i as int]@);
        match &arms[i] {
            Arm::Concrete { path, variant } => {
                if lookup_value(ns, path) == Some(v) {
                    return Outcome::Selected(variant.clone());
                }
            },
            Arm::Wildcard { variant } => {
                return Outcome::Fallback(variant.clone(), v);
            },
        }
        i = i + 1;
    }
    Outcome::Unmatched
}

} // verus!
