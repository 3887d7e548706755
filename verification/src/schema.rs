//! The shape of the settings.

use vstd::prelude::*;

verus! {

#[derive(Clone, Copy, Debug, PartialEq, Eq, Structural)]
pub enum NumberType {
    UnsignedInteger,
    SignedInteger,
    Float,
}

/// A field of a section.
#[derive(Debug)]
pub struct SchemaEntry {
    pub name: String,
    pub content: SchemaNode,
}

/// A variant of a choice, with the shape of its data if it has any.
#[derive(Debug)]
pub struct SchemaVariant {
    pub name: String,
    pub content: Option<SchemaNode>,
}

/// The shape of a setting.
#[derive(Debug)]
pub enum SchemaNode {
    Section(Vec<SchemaEntry>),
    Choice { variants: Vec<SchemaVariant> },
    Optional { content: Box<SchemaNode> },
    Switch { content: Box<SchemaNode> },
    Boolean,
    Number { ty: NumberType },
    Text,
    Array(Vec<SchemaNode>),
    Vector { default_element: Box<SchemaNode> },
    Dictionary { default_value: Box<SchemaNode> },
    /// A shape that sessions make no use of.
    Unsupported,
}

/// A choice has a variant of that name.
pub open spec fn has_variant(variants: Seq<SchemaVariant>, name: Seq<char>) -> bool {
    exists|i: int| 0 <= i < variants.len() && (#[trigger] variants[i]).name@ == name
}

/// The index of the first variant of that name.
pub open spec fn variant_index(variants: Seq<SchemaVariant>, name: Seq<char>) -> int
    decreases variants.len(),
{
    if variants.len() == 0 {
        0
    } else if has_variant(variants.drop_last(), name) {
        variant_index(variants.drop_last(), name)
    } else {
        variants.len() - 1
    }
}

/// The first variant of a name has that name.
pub proof fn lemma_variant_index(variants: Seq<SchemaVariant>, name: Seq<char>)
    requires
        has_variant(variants, name),
    ensures
        0 <= variant_index(variants, name) < variants.len(),
        variants[variant_index(variants, name)].name@ == name,
    decreases variants.len(),
{
    let before = variants.drop_last();
    if has_variant(before, name) {
        lemma_variant_index(before, name);
    } else {
        let i = choose|i: int| 0 <= i < variants.len() && (#[trigger] variants[i]).name@ == name;
        if i < before.len() {
            assert(before[i] == variants[i]);
        }
    }
}

/// The index of the first variant of that name.
pub fn find_variant(variants: &Vec<SchemaVariant>, name: &String) -> (index: Option<usize>)
    ensures
        match index {
            Some(index) => has_variant(variants@, name@) && index == variant_index(
                variants@,
                name@,
            ) && index < variants@.len(),
            None => !has_variant(variants@, name@),
        },
{
    let mut i: usize = 0;
    while i < variants.len()
        invariant
            i <= variants@.len(),
            forall|j: int| 0 <= j < i ==> (#[trigger] variants@[j]).name@ != name@,
        decreases variants@.len() - i,
    {
        if variants[i].name == *name {
            proof {
                lemma_first_variant(variants@, name@, i as int);
            }
            return Some(i);
        }
        i += 1;
    }
    None
}

/// The variant of that name that no other comes before is the first one.
proof fn lemma_first_variant(variants: Seq<SchemaVariant>, name: Seq<char>, i: int)
    requires
        0 <= i < variants.len(),
        variants[i].name@ == name,
        forall|j: int| 0 <= j < i ==> (#[trigger] variants[j]).name@ != name,
    ensures
        has_variant(variants, name),
        variant_index(variants, name) == i,
    decreases variants.len(),
{
    let before = variants.drop_last();
    if i < before.len() {
        assert(before[i] == variants[i]);
        assert forall|j: int| 0 <= j < i implies (#[trigger] before[j]).name@ != name by {
            assert(before[j] == variants[j]);
        }
        lemma_first_variant(before, name, i);
    } else {
        assert forall|j: int| 0 <= j < before.len() implies (
        #[trigger] before[j]).name@ != name by {
            assert(before[j] == variants[j]);
        }
    }
}

/// A choice has the variants that are listed, and no others. A name stands for the first variant of
/// that name.
pub proof fn law_name_stands_for_its_first_variant(
    variants: Seq<SchemaVariant>,
    name: Seq<char>,
    i: int,
)
    requires
        0 <= i < variants.len(),
        variants[i].name@ == name,
    ensures
        has_variant(variants, name),
        0 <= variant_index(variants, name) <= i,
        variants[variant_index(variants, name)].name@ == name,
    decreases variants.len(),
{
    let before = variants.drop_last();
    lemma_variant_index(variants, name);
    if i < before.len() {
        assert(before[i] == variants[i]);
        law_name_stands_for_its_first_variant(before, name, i);
    }
}

} // verus!
