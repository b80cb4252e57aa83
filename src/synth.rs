//! Emitting the cleaned definition and the classifier as Rust source text, and
//! naming the classifier.
use vstd::prelude::*;
use crate::annotation::{
    attribute_is_metadata, is_metadata, parse_prefix, prefix_of, Attribute, EnumDef, NestedItem,
    VariantDef,
};
use crate::outside::{snake_case, snake_of};
use crate::table::{arms_of, arms_view, build_arms, Arm, ArmSpec};

verus! {

/// The classifier's name: the marker `match_` before the snake-case type name.
pub open spec fn classifier_name_of(enum_name: Seq<char>) -> Seq<char> {
    "match_"@ + snake_of(enum_name)
}

/// The first `n` attributes of a variant that are kept, one indented line each.
pub open spec fn kept_attrs_upto(attrs: Seq<Attribute>, n: int) -> Seq<char>
    decreases n,
{
    if n <= 0 {
        Seq::empty()
    } else if is_metadata(attrs[n - 1]) {
        kept_attrs_upto(attrs, n - 1)
    } else {
        kept_attrs_upto(attrs, n - 1) + "    "@ + attrs[n - 1].text@ + "\n"@
    }
}

/// A variant without its generator attributes.
pub open spec fn variant_text(v: VariantDef) -> Seq<char> {
    kept_attrs_upto(v.attrs@, v.attrs@.len() as int) + "    "@ + v.ident@ + v.fields@ + ",\n"@
}

pub open spec fn variants_text_upto(vs: Seq<VariantDef>, n: int) -> Seq<char>
    decreases n,
{
    if n <= 0 {
        Seq::empty()
    } else {
        variants_text_upto(vs, n - 1) + variant_text(vs[n - 1])
    }
}

pub open spec fn lines_upto(lines: Seq<String>, n: int) -> Seq<char>
    decreases n,
{
    if n <= 0 {
        Seq::empty()
    } else {
        lines_upto(lines, n - 1) + lines[n - 1]@ + "\n"@
    }
}

/// The cleaned definition: the type-level attributes kept, every generator
/// attribute stripped from the variants, all else as it was.
pub open spec fn enum_text(def: EnumDef) -> Seq<char> {
    lines_upto(def.attrs@, def.attrs@.len() as int) + def.vis@ + "enum "@ + def.name@ + def.generics@ + " {\n"@
        + variants_text_upto(def.variants@, def.variants@.len() as int) + "}\n"@
}

/// One arm of the generated `match`.
pub open spec fn arm_text(enum_name: Seq<char>, a: ArmSpec) -> Seq<char> {
    match a {
        ArmSpec::Concrete(p, var) => "            "@ + p + " => "@ + enum_name + "::"@ + var + ",\n"@,
        ArmSpec::Wildcard(var) => "            other => "@ + enum_name + "::"@ + var + "(other),\n"@,
    }
}

pub open spec fn arms_text_upto(enum_name: Seq<char>, arms: Seq<ArmSpec>, n: int) -> Seq<char>
    decreases n,
{
    if n <= 0 {
        Seq::empty()
    } else {
        arms_text_upto(enum_name, arms, n - 1) + arm_text(enum_name, arms[n - 1])
    }
}

/// The classifier: a macro that matches its argument against the arms in order.
pub open spec fn macro_text(macro_name: Seq<char>, enum_name: Seq<char>, arms: Seq<ArmSpec>) -> Seq<char> {
    "#[macro_export]\nmacro_rules! "@ + macro_name + " {\n    ($e:expr) => {\n        match $e {\n"@
        + arms_text_upto(enum_name, arms, arms.len() as int) + "        }\n    };\n}\n"@
}

/// Everything that one generation pass emits: the cleaned definition, then the
/// classifier.
pub open spec fn generated_text(args: Seq<NestedItem>, def: EnumDef) -> Seq<char> {
    enum_text(def) + macro_text(classifier_name_of(def.name@), def.name@, arms_of(prefix_of(args), def.variants@))
}

/// The result of one generation pass.
pub struct Generated {
    /// The cleaned definition.
    pub definition: String,
    /// The name under which the classifier is exposed.
    pub classifier_name: String,
    /// The classifier's source text.
    pub classifier: String,
    /// The classifier's arms, in the order in which they are tried.
    pub arms: Vec<Arm>,
}

/// The classifier's name for a snake-case type name.
pub fn marker_name(snake: &str) -> (r: String)
    ensures
        r@ == "match_"@ + snake@,
{
    let r = "match_".to_owned();
    r.concat(snake)
}

/// The classifier's name for a type.
pub fn classifier_name(enum_name: &String) -> (r: String)
    ensures
        r@ == classifier_name_of(enum_name@),
{
    let snake = snake_case(enum_name.as_str());
    marker_name(snake.as_str())
}

fn variant_source(v: &VariantDef) -> (r: String)
    ensures
        r@ == variant_text(*v),
{
    let mut out = String::new();
    let mut i: usize = 0;
    while i < v.attrs.len()
        invariant
            i <= v.attrs@.len(),
            out@ == kept_attrs_upto(v.attrs@, i as int),
        decreases v.attrs@.len() - i,
    {
        let a = &v.attrs[i];
        if !attribute_is_metadata(a) {
            out.append("    ");
            out.append(a.text.as_str());
            out.append("\n");
        }
        i = i + 1;
    }
    out.append("    ");
    out.append(v.ident.as_str());
    out.append(v.fields.as_str());
    out.append(",\n");
    out
}

/// Emits the definition with every generator attribute removed.
pub fn enum_source(def: &EnumDef) -> (r: String)
    ensures
        r@ == enum_text(*def),
{
    let mut out = String::new();
    let mut i: usize = 0;
    while i < def.attrs.len()
        invariant
            i <= def.attrs@.len(),
            out@ == lines_upto(def.attrs@, i as int),
        decreases def.attrs@.len() - i,
    {
        out.append(def.attrs[i].as_str());
        out.append("\n");
        i = i + 1;
    }
    out.append(def.vis.as_str());
    out.append("enum ");
    out.append(def.name.as_str());
    out.append(def.generics.as_str());
    out.append(" {\n");
    let mut body = String::new();
    let mut k: usize = 0;
    while k < def.variants.len()
        invariant
            k <= def.variants@.len(),
            body@ == variants_text_upto(def.variants@, k as int),
        decreases def.variants@.len() - k,
    {
        let t = variant_source(&def.variants[k]);
        body.append(t.as_str());
        k = k + 1;
    }
    out.append(body.as_str());
    out.append("}\n");
    out
}

fn arm_source(enum_name: &String, a: &Arm) -> (r: String)
    ensures
        r@ == arm_text(enum_name@, a@),
{
    let mut out = String::new();
    match a {
        Arm::Concrete { path, variant } => {
            out.append("            ");
            out.append(path.as_str());
            out.append(" => ");
            out.append(enum_name.as_str());
            out.append("::");
            out.append(variant.as_str());
            out.append(",\n");
        },
        Arm::Wildcard { variant } => {
            out.append("            other => ");
            out.append(enum_name.as_str());
            out.append("::");
            out.append(variant.as_str());
            out.append("(other),\n");
        },
    }
    out
}

/// Emits the classifier macro over the arms, tried in order.
pub fn macro_source(macro_name: &String, enum_name: &String, arms: &Vec<Arm>) -> (r: String)
    ensures
        r@ == macro_text(macro_name@, enum_name@, arms_view(arms@)),
{
    let ghost spec_arms = arms_view(arms@);
    let mut body = String::new();
    let mut i: usize = 0;
    while i < arms.len()
        invariant
            i <= arms@.len(),
            spec_arms == arms_view(arms@),
            body@ == arms_text_upto(enum_name@, spec_arms, i as int),
        decreases arms@.len() - i,
    {
        assert(spec_arms[i as int] == arms@[i as int]@);
        let t = arm_source(enum_name, &arms[i]);
        body.append(t.as_str());
        i = i + 1;
    }
    let mut out = String::new();
    out.append("#[macro_export]\nmacro_rules! ");
    out.append(macro_name.as_str());
    out.append(" {\n    ($e:expr) => {\n        match $e {\n");
    out.append(body.as_str());
    out.append("        }\n    };\n}\n");
    out
}

/// One generation pass over the type-level arguments and the definition.
pub fn generate(args: &Vec<NestedItem>, def: &EnumDef) -> (r: Generated)
    ensures
        r.definition@ == enum_text(*def),
        r.classifier_name@ == classifier_name_of(def.name@),
        arms_view(r.arms@) == arms_of(prefix_of(args@), def.variants@),
        r.classifier@ == macro_text(r.classifier_name@, def.name@, arms_view(r.arms@)),
        r.definition@ + r.classifier@ == generated_text(args@, *def),
{
    let prefix = parse_prefix(args);
    let arms = build_arms(&prefix, &def.variants);
    let definition = enum_source(def);
    let name = classifier_name(&def.name);
    let classifier = macro_source(&name, &def.name, &arms);
    Generated { definition, classifier_name: name, classifier, arms }
}

/// Generation is deterministic: the same arguments and definition give the
/// same text.
pub proof fn lemma_generation_deterministic(args1: Seq<NestedItem>, def1: EnumDef, args2: Seq<NestedItem>, def2: EnumDef)
    requires
        args1 == args2,
        def1 == def2,
    ensures
        generated_text(args1, def1) == generated_text(args2, def2),
{
}

} // verus!
