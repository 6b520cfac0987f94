//! The source text that links a sum type to a variant set: its tag type, and
//! its `VariantEnum` impl, written out from the names of its variants.

use vstd::prelude::*;
use vstd::string::StringExecFns;

verus! {

/// The shape of the fields of a variant.
#[derive(Debug, Clone, Copy, PartialEq, Eq)]
pub enum Fields {
    /// No fields: `V`.
    Unit,
    /// Named fields: `V { a: A }`.
    Named,
    /// Unnamed fields: `V(A)`.
    Unnamed,
}

/// A variant of a sum type: its name and the shape of its fields.
#[derive(Debug)]
pub struct VariantDef {
    /// The name of the variant.
    pub name: String,
    /// The shape of its fields.
    pub fields: Fields,
}

/// The name of the tag type of the sum type `name`.
pub open spec fn tag_type_text(name: Seq<char>) -> Seq<char> {
    name + "Variant"@
}

/// The pattern that matches every value of `variant`, whatever its fields
/// hold.
pub open spec fn pattern_text(name: Seq<char>, variant: VariantDef) -> Seq<char> {
    name + "::"@ + variant.name@ + match variant.fields {
        Fields::Unit => ""@,
        Fields::Named => " { .. }"@,
        Fields::Unnamed => "(..)"@,
    }
}

/// The line of the tag type that declares the tag of `variant`.
pub open spec fn tag_line_text(variant: VariantDef) -> Seq<char> {
    "    "@ + variant.name@ + ",\n"@
}

/// The match arm that sends every value of `variant` to its tag.
pub open spec fn arm_text(name: Seq<char>, variant: VariantDef) -> Seq<char> {
    "            "@ + pattern_text(name, variant) + " => "@ + tag_type_text(name) + "::"@
        + variant.name@ + ",\n"@
}

/// The lines of the tag type, one per variant, in the order of `variants`.
pub open spec fn tag_lines_text(variants: Seq<VariantDef>) -> Seq<char>
    decreases variants.len(),
{
    if variants.len() == 0 {
        Seq::empty()
    } else {
        tag_lines_text(variants.drop_last()) + tag_line_text(variants.last())
    }
}

/// The match arms, one per variant, in the order of `variants`.
pub open spec fn arms_text(name: Seq<char>, variants: Seq<VariantDef>) -> Seq<char>
    decreases variants.len(),
{
    if variants.len() == 0 {
        Seq::empty()
    } else {
        arms_text(name, variants.drop_last()) + arm_text(name, variants.last())
    }
}

/// The whole text for the sum type `name` with `variants`: the tag type with
/// one tag per variant, the conversion of a value into its tag, and the
/// `VariantEnum` impl, in which a tag's ordinal is its place among the tags.
pub open spec fn derived_text(name: Seq<char>, variants: Seq<VariantDef>) -> Seq<char> {
    "#[derive(Debug, Clone, Copy, PartialEq, Eq, Hash)]\npub enum "@ + tag_type_text(name)
        + " {\n"@ + tag_lines_text(variants) + "}\n\nimpl From<"@ + name + "> for "@
        + tag_type_text(name) + " {\n    fn from(value: "@ + name
        + ") -> Self {\n        <"@ + name
        + " as variant_set::VariantEnum>::variant(&value)\n    }\n}\n\nimpl variant_set::VariantEnum for "@
        + name + " {\n    type Variant = "@ + tag_type_text(name)
        + ";\n\n    fn tag(&self) -> Self::Variant {\n        self.variant()\n    }\n\n    fn ordinal(tag: Self::Variant) -> usize {\n        Self::index(tag)\n    }\n\n    fn ordinal_is_injective(_a: Self::Variant, _b: Self::Variant) {}\n\n    fn variant(&self) -> Self::Variant {\n        match self {\n"@
        + arms_text(name, variants)
        + "        }\n    }\n\n    fn index(tag: Self::Variant) -> usize {\n        tag as usize\n    }\n}\n"@
}

/// Returns the name of the tag type of the sum type `name`.
pub fn tag_type_name(name: &str) -> (text: String)
    ensures
        text@ == tag_type_text(name@),
{
    let mut text = String::from_str(name);
    text.append("Variant");
    text
}

/// Returns the pattern that matches every value of `variant`.
pub fn pattern(name: &str, variant: &VariantDef) -> (text: String)
    ensures
        text@ == pattern_text(name@, *variant),
{
    let mut text = String::from_str(name);
    text.append("::");
    text.append(variant.name.as_str());
    match variant.fields {
        Fields::Unit => text.append(""),
        Fields::Named => text.append(" { .. }"),
        Fields::Unnamed => text.append("(..)"),
    }
    text
}

/// Returns the match arm that sends every value of `variant` to its tag.
pub fn arm(name: &str, variant: &VariantDef) -> (text: String)
    ensures
        text@ == arm_text(name@, *variant),
{
    let mut text = String::from_str("            ");
    text.append(pattern(name, variant).as_str());
    text.append(" => ");
    text.append(tag_type_name(name).as_str());
    text.append("::");
    text.append(variant.name.as_str());
    text.append(",\n");
    text
}

/// Returns the text that declares the tag type of the sum type `name` and
/// implements `VariantEnum` for it.
pub fn derive_variant_enum(name: &str, variants: &Vec<VariantDef>) -> (text: String)
    ensures
        text@ == derived_text(name@, variants@),
{
    let tag_type = tag_type_name(name);
    let mut tag_lines = String::new();
    let mut arms = String::new();
    let mut i: usize = 0;
    while i < variants.len()
        invariant
            i <= variants.len(),
            tag_lines@ == tag_lines_text(variants@.take(i as int)),
            arms@ == arms_text(name@, variants@.take(i as int)),
        decreases variants.len() - i,
    {
        proof {
            assert(variants@.take(i + 1).drop_last() =~= variants@.take(i as int));
            assert(variants@.take(i + 1).last() == variants@[i as int]);
        }
        let variant = &variants[i];
        let mut line = String::from_str("    ");
        line.append(variant.name.as_str());
        line.append(",\n");
        tag_lines.append(line.as_str());
        arms.append(arm(name, variant).as_str());
        i += 1;
    }
    proof {
        assert(variants@.take(variants.len() as int) =~= variants@);
    }
    let mut text = String::from_str(
        "#[derive(Debug, Clone, Copy, PartialEq, Eq, Hash)]\npub enum ",
    );
    text.append(tag_type.as_str());
    text.append(" {\n");
    text.append(tag_lines.as_str());
    text.append("}\n\nimpl From<");
    text.append(name);
    text.append("> for ");
    text.append(tag_type.as_str());
    text.append(" {\n    fn from(value: ");
    text.append(name);
    text.append(") -> Self {\n        <");
    text.append(name);
    text.append(
        " as variant_set::VariantEnum>::variant(&value)\n    }\n}\n\nimpl variant_set::VariantEnum for ",
    );
    text.append(name);
    text.append(" {\n    type Variant = ");
    text.append(tag_type.as_str());
    text.append(
        ";\n\n    fn tag(&self) -> Self::Variant {\n        self.variant()\n    }\n\n    fn ordinal(tag: Self::Variant) -> usize {\n        Self::index(tag)\n    }\n\n    fn ordinal_is_injective(_a: Self::Variant, _b: Self::Variant) {}\n\n    fn variant(&self) -> Self::Variant {\n        match self {\n",
    );
    text.append(arms.as_str());
    text.append(
        "        }\n    }\n\n    fn index(tag: Self::Variant) -> usize {\n        tag as usize\n    }\n}\n",
    );
    text
}

} // verus!
