//! Reading the generator's configuration and per-variant metadata out of
//! attribute contents.
use vstd::prelude::*;

verus! {

/// One item inside an attribute's parentheses, as far as the generator reads it.
pub enum NestedItem {
    /// A bare identifier, such as `undefined` or `success`.
    Word(String),
    /// `key = literal`; the value is present when the literal is a string.
    Assign(String, Option<String>),
    /// Anything else: a literal, a nested list, a path of several segments.
    Other,
}

/// One attribute attached to a variant.
pub struct Attribute {
    /// The attribute as source text, re-emitted when the attribute is kept.
    pub text: String,
    /// The attribute's path, when it is a single identifier.
    pub name: Option<String>,
    /// The items inside the parentheses, when the attribute has the list form.
    pub items: Option<Vec<NestedItem>>,
}

/// One variant of the enum definition.
pub struct VariantDef {
    pub ident: String,
    /// What follows the identifier in the source: fields and discriminant.
    pub fields: String,
    pub attrs: Vec<Attribute>,
}

/// The enum definition that the generator works on.
pub struct EnumDef {
    /// The type-level attributes other than the generator's own, as source text.
    pub attrs: Vec<String>,
    /// The visibility as source text, empty or ending in a space.
    pub vis: String,
    pub name: String,
    /// The generic parameters as source text, possibly empty.
    pub generics: String,
    pub variants: Vec<VariantDef>,
}

/// The metadata that one generator attribute gives a variant.
pub struct VariantTag {
    pub suffix: Option<String>,
    pub success: bool,
    pub undefined: bool,
}

/// The mathematical form of a `VariantTag`.
pub struct TagSpec {
    pub suffix: Option<Seq<char>>,
    pub success: bool,
    pub undefined: bool,
}

pub open spec fn opt_view(o: Option<String>) -> Option<Seq<char>> {
    match o {
        Some(s) => Some(s@),
        None => None,
    }
}

impl View for VariantTag {
    type V = TagSpec;

    open spec fn view(&self) -> TagSpec {
        TagSpec { suffix: opt_view(self.suffix), success: self.success, undefined: self.undefined }
    }
}

pub open spec fn tags_view(s: Seq<VariantTag>) -> Seq<TagSpec> {
    s.map_values(|t: VariantTag| t@)
}

/// The name of the attribute that carries per-variant metadata.
pub open spec fn metadata_name() -> Seq<char> {
    "ffi_enum"@
}

/// The string value of the last `key = "..."` among the first `n` items.
pub open spec fn last_value_upto(items: Seq<NestedItem>, key: Seq<char>, n: int) -> Option<Seq<char>>
    decreases n,
{
    if n <= 0 {
        None
    } else {
        match items[n - 1] {
            NestedItem::Assign(k, Some(v)) if k@ == key => Some(v@),
            _ => last_value_upto(items, key, n - 1),
        }
    }
}

pub open spec fn last_value(items: Seq<NestedItem>, key: Seq<char>) -> Option<Seq<char>> {
    last_value_upto(items, key, items.len() as int)
}

pub open spec fn is_word(item: NestedItem, word: Seq<char>) -> bool {
    match item {
        NestedItem::Word(w) => w@ == word,
        _ => false,
    }
}

pub open spec fn has_word(items: Seq<NestedItem>, word: Seq<char>) -> bool {
    exists|i: int| 0 <= i < items.len() && #[trigger] is_word(items[i], word)
}

/// The symbol prefix configured by the type-level arguments: the last string
/// given to `prefix`, or empty when there is none.
pub open spec fn prefix_of(args: Seq<NestedItem>) -> Seq<char> {
    match last_value(args, "prefix"@) {
        Some(v) => v,
        None => Seq::empty(),
    }
}

/// The metadata that the items of one generator attribute give.
pub open spec fn tag_of(items: Seq<NestedItem>) -> TagSpec {
    TagSpec {
        suffix: last_value(items, "suffix"@),
        success: has_word(items, "success"@),
        undefined: has_word(items, "undefined"@),
    }
}

/// Whether an attribute is generator metadata, to be read and then stripped.
pub open spec fn is_metadata(a: Attribute) -> bool {
    match a.name {
        Some(n) => n@ == metadata_name(),
        None => false,
    }
}

/// The tags given by the first `n` attributes: one for each generator
/// attribute in list form, in order.
pub open spec fn tags_upto(attrs: Seq<Attribute>, n: int) -> Seq<TagSpec>
    decreases n,
{
    if n <= 0 {
        Seq::empty()
    } else {
        let earlier = tags_upto(attrs, n - 1);
        let a = attrs[n - 1];
        match a.items {
            Some(items) if is_metadata(a) => earlier.push(tag_of(items@)),
            _ => earlier,
        }
    }
}

pub open spec fn tags_of(attrs: Seq<Attribute>) -> Seq<TagSpec> {
    tags_upto(attrs, attrs.len() as int)
}

/// Whether `s` is exactly the text `lit`.
pub fn text_is(s: &String, lit: &str) -> (r: bool)
    ensures
        r == (s@ == lit@),
{
    let l = lit.to_owned();
    *s == l
}

/// The value of the last `key = "..."` among the items.
pub fn find_last_value(items: &Vec<NestedItem>, key: &str) -> (r: Option<String>)
    ensures
        opt_view(r) == last_value(items@, key@),
{
    let mut found: Option<String> = None;
    let mut i: usize = 0;
    while i < items.len()
        invariant
            i <= items@.len(),
            opt_view(found) == last_value_upto(items@, key@, i as int),
        decreases items@.len() - i,
    {
        match &items[i] {
            NestedItem::Assign(k, Some(v)) => {
                if text_is(k, key) {
                    found = Some(v.clone());
                }
            },
            _ => {},
        }
        i = i + 1;
    }
    found
}

/// Whether the bare identifier `word` is among the items.
pub fn find_word(items: &Vec<NestedItem>, word: &str) -> (r: bool)
    ensures
        r == has_word(items@, word@),
{
    let mut i: usize = 0;
    while i < items.len()
        invariant
            i <= items@.len(),
            forall|j: int| 0 <= j < i ==> !#[trigger] is_word(items@[j], word@),
        decreases items@.len() - i,
    {
        match &items[i] {
            NestedItem::Word(w) => {
                if text_is(w, word) {
                    assert(is_word(items@[i as int], word@));
                    return true;
                }
            },
            _ => {},
        }
        i = i + 1;
    }
    false
}

/// Reads the symbol prefix out of the type-level arguments; a missing or
/// malformed one gives an empty prefix.
pub fn parse_prefix(args: &Vec<NestedItem>) -> (r: String)
    ensures
        r@ == prefix_of(args@),
{
    match find_last_value(args, "prefix") {
        Some(v) => v,
        None => String::new(),
    }
}

/// Reads one generator attribute's items; unknown keys are ignored.
pub fn parse_tag(items: &Vec<NestedItem>) -> (r: VariantTag)
    ensures
        r@ == tag_of(items@),
{
    let suffix = find_last_value(items, "suffix");
    let success = find_word(items, "success");
    let undefined = find_word(items, "undefined");
    VariantTag { suffix, success, undefined }
}

/// Whether an attribute is generator metadata.
pub fn attribute_is_metadata(a: &Attribute) -> (r: bool)
    ensures
        r == is_metadata(*a),
{
    match &a.name {
        Some(n) => text_is(n, "ffi_enum"),
        None => false,
    }
}

/// The tags that a variant's attributes give, in order.
pub fn variant_tags(attrs: &Vec<Attribute>) -> (r: Vec<VariantTag>)
    ensures
        tags_view(r@) == tags_of(attrs@),
{
    let mut out: Vec<VariantTag> = Vec::new();
    let mut i: usize = 0;
    while i < attrs.len()
        invariant
            i <= attrs@.len(),
            tags_view(out@) == tags_upto(attrs@, i as int),
        decreases attrs@.len() - i,
    {
        let a = &attrs[i];
        if attribute_is_metadata(a) {
            match &a.items {
                Some(items) => {
                    let t = parse_tag(items);
                    proof {
                        assert(tags_view(out@.push(t)) =~= tags_view(out@).push(t@));
                    }
                    out.push(t);
                },
                None => {},
            }
        }
        i = i + 1;
    }
    out
}

} // verus!
