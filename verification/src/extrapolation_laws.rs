//! What becomes of each kind of setting when stored settings are worked into others.

use crate::extrapolation::{
    extrapolated, extrapolated_field, extrapolated_item, extrapolation_is_defined,
};
use crate::json::{JsonNumber, JsonTree};
use crate::schema::{has_variant, NumberType, SchemaNode};
use crate::settings_laws::{
    entries_are_distinct, lemma_entry_names, lemma_entry_value, lemma_fixed_names,
    lemma_variant_names, lemma_variant_value, variants_are_distinct,
};
use vstd::prelude::*;

verus! {

/// An integer as it stands in a JSON text.
pub open spec fn integer(n: int) -> JsonTree {
    if n < 0 {
        JsonTree::Number(JsonNumber::NegInt(n as i64))
    } else {
        JsonTree::Number(JsonNumber::PosInt(n as u64))
    }
}

/// A setting that is a signed integer takes over every integer that it can hold, negative or not,
/// whatever it was before. It takes over no larger integer, no floating point number, and nothing
/// that is not a number.
pub proof fn law_signed_integers_are_taken_over(old: JsonTree, new: JsonTree, n: int, bits: u64)
    ensures
        ({
            let schema = SchemaNode::Number { ty: NumberType::SignedInteger };
            &&& i64::MIN <= n <= i64::MAX ==> extrapolated(old, integer(n), schema) == integer(n)
            &&& i64::MAX < n <= u64::MAX ==> extrapolated(old, integer(n), schema) == old
            &&& extrapolated(old, JsonTree::Number(JsonNumber::Float(bits)), schema) == old
            &&& !(new is Number) ==> extrapolated(old, new, schema) == old
            &&& extrapolation_is_defined(old, new, schema)
        }),
{
}

/// A setting that is an unsigned integer takes over every integer that it can hold, whatever it was
/// before. It takes over no negative integer, no floating point number, and nothing that is not a
/// number.
pub proof fn law_unsigned_integers_are_taken_over(old: JsonTree, new: JsonTree, n: int, bits: u64)
    ensures
        ({
            let schema = SchemaNode::Number { ty: NumberType::UnsignedInteger };
            &&& 0 <= n <= u64::MAX ==> extrapolated(old, integer(n), schema) == integer(n)
            &&& i64::MIN <= n < 0 ==> extrapolated(old, integer(n), schema) == old
            &&& extrapolated(old, JsonTree::Number(JsonNumber::Float(bits)), schema) == old
            &&& !(new is Number) ==> extrapolated(old, new, schema) == old
            &&& extrapolation_is_defined(old, new, schema)
        }),
{
}

/// A setting that is a floating point number takes over every floating point number, whatever it
/// was before, and nothing else.
pub proof fn law_floating_point_numbers_are_taken_over(
    old: JsonTree,
    new: JsonTree,
    n: int,
    bits: u64,
)
    ensures
        ({
            let schema = SchemaNode::Number { ty: NumberType::Float };
            let number = JsonTree::Number(JsonNumber::Float(bits));
            &&& extrapolated(old, number, schema) == number
            &&& i64::MIN <= n <= u64::MAX ==> extrapolated(old, integer(n), schema) == old
            &&& !(new is Number) ==> extrapolated(old, new, schema) == old
            &&& extrapolation_is_defined(old, new, schema)
        }),
{
}

/// A setting that is true or false takes over just that, and a text takes over just texts.
pub proof fn law_flags_and_texts_are_taken_over(
    old: JsonTree,
    new: JsonTree,
    flag: bool,
    text: Seq<char>,
)
    ensures
        extrapolated(old, JsonTree::Bool(flag), SchemaNode::Boolean) == JsonTree::Bool(flag),
        !(new is Bool) ==> extrapolated(old, new, SchemaNode::Boolean) == old,
        extrapolated(old, JsonTree::Text(text), SchemaNode::Text) == JsonTree::Text(text),
        !(new is Text) ==> extrapolated(old, new, SchemaNode::Text) == old,
        extrapolation_is_defined(old, new, SchemaNode::Boolean),
        extrapolation_is_defined(old, new, SchemaNode::Text),
{
}

/// A section has its fields and no others. A field is worked out from the stored one where there is
/// one, and stays as it is otherwise; whether the section is collapsed is taken over if it is said.
pub proof fn law_section_is_worked_out_by_field(
    old: JsonTree,
    new: JsonTree,
    schema: SchemaNode,
    i: int,
    name: Seq<char>,
)
    requires
        schema is Section,
        entries_are_distinct(schema->Section_0@),
    ensures
        ({
            let result = extrapolated(old, new, schema);
            let entry = schema->Section_0@[i];
            &&& result is Object
            &&& result->Object_0.contains_key(name) <==> name == "gui_collapsed"@ || exists|j: int|
                0 <= j < schema->Section_0@.len() && (#[trigger] schema->Section_0@[j]).name@
                    == name
            &&& 0 <= i < schema->Section_0@.len() && entry.name@ != "gui_collapsed"@
                ==> result->Object_0[entry.name@] == if new.get(entry.name@) is Some {
                extrapolated(old.field(entry.name@), new.field(entry.name@), entry.content)
            } else {
                old.field(entry.name@)
            }
            &&& result->Object_0["gui_collapsed"@] == if new.field(
                "gui_collapsed"@,
            ) is Bool {
                new.field("gui_collapsed"@)
            } else {
                old.field("gui_collapsed"@)
            }
        }),
{
    let entries = schema->Section_0@;
    lemma_entry_names(old, new, entries, name);
    if 0 <= i < entries.len() {
        lemma_entry_value(old, new, entries, i);
        let entry = entries[i];
        let field = extrapolated_field(old, new, entry.name@, entry.content);
        assert(field == if new.get(entry.name@) is Some {
            extrapolated(old.field(entry.name@), new.field(entry.name@), entry.content)
        } else {
            old.field(entry.name@)
        });
    }
}

/// A choice keeps the data of all its variants, whichever is chosen. A stored variant is chosen if
/// there is a variant of that name, and the chosen one stays otherwise.
pub proof fn law_choice_is_worked_out_by_variant(
    old: JsonTree,
    new: JsonTree,
    schema: SchemaNode,
    i: int,
    name: Seq<char>,
)
    requires
        schema is Choice,
        variants_are_distinct(schema->variants@),
    ensures
        ({
            let result = extrapolated(old, new, schema);
            let variant = schema->variants@[i];
            &&& result is Object
            &&& result->Object_0.contains_key(name) <==> name == "variant"@ || exists|j: int|
                0 <= j < schema->variants@.len() && (#[trigger] schema->variants@[j]).name@
                    == name && schema->variants@[j].content is Some
            &&& 0 <= i < schema->variants@.len() && variant.content is Some && variant.name@
                != "variant"@ ==> result->Object_0[variant.name@] == if new.get(
                variant.name@,
            ) is Some {
                extrapolated(old.field(variant.name@), new.field(variant.name@), variant.content->0)
            } else {
                old.field(variant.name@)
            }
            &&& 0 <= i < schema->variants@.len() && new.field("variant"@) == JsonTree::Text(
                variant.name@,
            ) ==> result->Object_0["variant"@] == JsonTree::Text(variant.name@)
            &&& !(new.field("variant"@) is Text) || (forall|j: int|
                0 <= j < schema->variants@.len() ==> (#[trigger] schema->variants@[j]).name@
                    != new.field("variant"@)->Text_0) ==> result->Object_0["variant"@]
                == old.field("variant"@)
        }),
{
    let variants = schema->variants@;
    lemma_variant_names(old, new, variants, name);
    let variant = variants[i];
    if 0 <= i < variants.len() && variant.content is Some {
        lemma_variant_value(old, new, variants, i);
        let content = variant.content->0;
        assert(extrapolated_field(old, new, variant.name@, content) == if new.get(
            variant.name@,
        ) is Some {
            extrapolated(old.field(variant.name@), new.field(variant.name@), content)
        } else {
            old.field(variant.name@)
        });
    }
    assert(0 <= i < variants.len() ==> has_variant(variants, variant.name@));
}

/// Of a setting that may be left unset, and of one that can be turned off, the flag is taken over
/// if it is said, and the content is worked out whether it is in use or not.
pub proof fn law_optional_settings_are_worked_out(
    old: JsonTree,
    new: JsonTree,
    schema: SchemaNode,
)
    requires
        schema is Optional || schema is Switch,
    ensures
        ({
            let result = extrapolated(old, new, schema);
            let flag = if schema is Optional {
                "set"@
            } else {
                "enabled"@
            };
            let content = if schema is Optional {
                *schema->Optional_content
            } else {
                *schema->Switch_content
            };
            &&& result is Object
            &&& result->Object_0.dom() == set![flag, "content"@]
            &&& result->Object_0[flag] == if new.field(flag) is Bool {
                new.field(flag)
            } else {
                old.field(flag)
            }
            &&& result->Object_0["content"@] == if new.get("content"@) is Some {
                extrapolated(old.field("content"@), new.field("content"@), content)
            } else {
                old.field("content"@)
            }
        }),
{
    lemma_fixed_names();
    let result = extrapolated(old, new, schema);
    let flag = if schema is Optional {
        "set"@
    } else {
        "enabled"@
    };
    let content = if schema is Optional {
        *schema->Optional_content
    } else {
        *schema->Switch_content
    };
    assert(result->Object_0.dom() =~= set![flag, "content"@]);
    assert(extrapolated_field(old, new, "content"@, content) == if new.get("content"@) is Some {
        extrapolated(old.field("content"@), new.field("content"@), content)
    } else {
        old.field("content"@)
    });
}

/// An array has as many items as its schema, and each of them is worked out from the stored one
/// where there is one.
pub proof fn law_array_is_worked_out_by_item(
    old: JsonTree,
    new: JsonTree,
    schema: SchemaNode,
    i: int,
)
    requires
        schema is Array,
    ensures
        ({
            let result = extrapolated(old, new, schema);
            &&& result is Array
            &&& result->Array_0.len() == schema->Array_0@.len()
            &&& 0 <= i < schema->Array_0@.len() ==> result->Array_0[i] == if new.get_item(
                i,
            ) is Some {
                extrapolated(old.item(i), new.item(i), schema->Array_0@[i])
            } else {
                old.item(i)
            }
        }),
{
    let item = schema->Array_0@[i];
    assert(extrapolated_item(old, new, i, item) == if new.get_item(i) is Some {
        extrapolated(old.item(i), new.item(i), item)
    } else {
        old.item(i)
    });
}

/// The content of a vector, and of a dictionary, is taken over as it is. What stands for a new
/// element, or a new value, is worked out, and the key for a new value has to be a text.
pub proof fn law_contents_are_taken_over(old: JsonTree, new: JsonTree, schema: SchemaNode)
    requires
        schema is Vector || schema is Dictionary,
    ensures
        ({
            let result = extrapolated(old, new, schema);
            let template = if schema is Vector {
                "element"@
            } else {
                "value"@
            };
            let content = if schema is Vector {
                *schema->default_element
            } else {
                *schema->default_value
            };
            &&& result is Object
            &&& schema is Vector ==> result->Object_0.dom() == set!["element"@, "content"@]
            &&& schema is Dictionary ==> result->Object_0.dom() == set![
                "key"@,
                "value"@,
                "content"@,
            ]
            &&& result->Object_0["content"@] == if new.get("content"@) is Some {
                new.field("content"@)
            } else {
                old.field("content"@)
            }
            &&& result->Object_0[template] == if new.get(template) is Some {
                extrapolated(old.field(template), new.field(template), content)
            } else {
                old.field(template)
            }
            &&& schema is Dictionary ==> result->Object_0["key"@] == if new.field(
                "key"@,
            ) is Text {
                new.field("key"@)
            } else {
                old.field("key"@)
            }
        }),
{
    lemma_fixed_names();
    let result = extrapolated(old, new, schema);
    let template = if schema is Vector {
        "element"@
    } else {
        "value"@
    };
    let content = if schema is Vector {
        *schema->default_element
    } else {
        *schema->default_value
    };
    if schema is Vector {
        assert(result->Object_0.dom() =~= set!["element"@, "content"@]);
    } else {
        assert(result->Object_0.dom() =~= set!["key"@, "value"@, "content"@]);
    }
    assert(extrapolated_field(old, new, template, content) == if new.get(template) is Some {
        extrapolated(old.field(template), new.field(template), content)
    } else {
        old.field(template)
    });
}

/// Stored settings can be worked in if they can be in each part that they have, and if it is known
/// of each section, from them or from the settings before, whether it is collapsed. There are no
/// settings of an unsupported kind.
pub proof fn law_settings_can_be_worked_in_part_by_part(
    old: JsonTree,
    new: JsonTree,
    schema: SchemaNode,
)
    ensures
        extrapolation_is_defined(old, new, schema) <==> match schema {
            SchemaNode::Section(entries) => {
                &&& new.field("gui_collapsed"@) is Bool || old.field("gui_collapsed"@) is Bool
                &&& forall|i: int|
                    0 <= i < entries@.len() && new.get(
                        (#[trigger] entries@[i]).name@,
                    ) is Some ==> extrapolation_is_defined(
                        old.field(entries@[i].name@),
                        new.field(entries@[i].name@),
                        entries@[i].content,
                    )
            },
            SchemaNode::Choice { variants } => forall|i: int|
                0 <= i < variants@.len() && (#[trigger] variants@[i]).content is Some && new.get(
                    variants@[i].name@,
                ) is Some ==> extrapolation_is_defined(
                    old.field(variants@[i].name@),
                    new.field(variants@[i].name@),
                    variants@[i].content->0,
                ),
            SchemaNode::Optional { content } => new.get("content"@) is Some
                ==> extrapolation_is_defined(
                old.field("content"@),
                new.field("content"@),
                *content,
            ),
            SchemaNode::Switch { content } => new.get("content"@) is Some
                ==> extrapolation_is_defined(
                old.field("content"@),
                new.field("content"@),
                *content,
            ),
            SchemaNode::Array(items) => forall|i: int|
                0 <= i < items@.len() && new.get_item(i) is Some ==> extrapolation_is_defined(
                    old.item(i),
                    new.item(i),
                    #[trigger] items@[i],
                ),
            SchemaNode::Vector { default_element } => new.get("element"@) is Some
                ==> extrapolation_is_defined(
                old.field("element"@),
                new.field("element"@),
                *default_element,
            ),
            SchemaNode::Dictionary { default_value } => new.get("value"@) is Some
                ==> extrapolation_is_defined(
                old.field("value"@),
                new.field("value"@),
                *default_value,
            ),
            SchemaNode::Unsupported => false,
            _ => true,
        },
{
    reveal_with_fuel(extrapolation_is_defined, 2);
}

} // verus!
