//! What holds of session settings of the right shape.

use crate::extrapolation::{
    extrapolated, extrapolated_entries, extrapolated_field, extrapolated_item,
    extrapolated_variants, extrapolation_is_defined, field_is_defined, is_number_of,
    item_is_defined,
};
use crate::json::JsonTree;
use crate::schema::{
    has_variant, lemma_variant_index, variant_index, SchemaEntry, SchemaNode, SchemaVariant,
};
use crate::settings::{
    is_convertible, is_pair, settings_of, settings_of_entries, settings_of_variant,
    variant_is_convertible,
};
use vstd::prelude::*;

verus! {

/// The fields of an object that follows a schema node.
pub open spec fn field_names(schema: SchemaNode) -> Set<Seq<char>> {
    match schema {
        SchemaNode::Section(entries) => Set::new(
            |name: Seq<char>|
                name == "gui_collapsed"@ || exists|i: int|
                    0 <= i < entries@.len() && (#[trigger] entries@[i]).name@ == name,
        ),
        SchemaNode::Choice { variants } => Set::new(
            |name: Seq<char>|
                name == "variant"@ || exists|i: int|
                    0 <= i < variants@.len() && (#[trigger] variants@[i]).name@ == name
                        && variants@[i].content is Some,
        ),
        SchemaNode::Optional { .. } => set!["set"@, "content"@],
        SchemaNode::Switch { .. } => set!["enabled"@, "content"@],
        SchemaNode::Vector { .. } => set!["element"@, "content"@],
        SchemaNode::Dictionary { .. } => set!["key"@, "value"@, "content"@],
        _ => Set::empty(),
    }
}

/// No two fields of an object that follows the schema have the same name.
pub open spec fn names_are_distinct(schema: SchemaNode) -> bool
    decreases schema,
{
    match schema {
        SchemaNode::Section(entries) => {
            &&& entries_are_distinct(entries@)
            &&& forall|i: int| #![trigger entries@[i]]
                0 <= i < entries@.len() ==> entries@[i].name@ != "gui_collapsed"@
                    && names_are_distinct(entries@[i].content)
        },
        SchemaNode::Choice { variants } => {
            &&& variants_are_distinct(variants@)
            &&& forall|i: int| #![trigger variants@[i]]
                0 <= i < variants@.len() ==> variants@[i].name@ != "variant"@
                    && match variants@[i].content {
                    Some(content) => names_are_distinct(content),
                    None => true,
                }
        },
        SchemaNode::Optional { content } => names_are_distinct(*content),
        SchemaNode::Switch { content } => names_are_distinct(*content),
        SchemaNode::Array(items) => forall|i: int| #![trigger items@[i]]
            0 <= i < items@.len() ==> names_are_distinct(items@[i]),
        SchemaNode::Vector { default_element } => names_are_distinct(*default_element),
        SchemaNode::Dictionary { default_value } => names_are_distinct(*default_value),
        _ => true,
    }
}

/// The session settings have the shape that the schema gives.
pub open spec fn conforms(session_settings: JsonTree, schema: SchemaNode) -> bool
    decreases schema, 0int,
{
    match schema {
        SchemaNode::Section(entries) => {
            &&& session_settings is Object
            &&& session_settings->Object_0.dom() == field_names(schema)
            &&& session_settings.field("gui_collapsed"@) is Bool
            &&& forall|i: int| #![trigger entries@[i]]
                0 <= i < entries@.len() ==> conforms(
                    session_settings.field(entries@[i].name@),
                    entries@[i].content,
                )
        },
        SchemaNode::Choice { variants } => {
            &&& session_settings is Object
            &&& session_settings->Object_0.dom() == field_names(schema)
            &&& session_settings.field("variant"@) is Text
            &&& has_variant(variants@, session_settings.field("variant"@)->Text_0)
            &&& forall|i: int| #![trigger variants@[i]]
                0 <= i < variants@.len() ==> match variants@[i].content {
                    Some(content) => conforms(
                        session_settings.field(variants@[i].name@),
                        content,
                    ),
                    None => true,
                }
        },
        SchemaNode::Optional { content } => {
            &&& session_settings is Object
            &&& session_settings->Object_0.dom() == field_names(schema)
            &&& session_settings.field("set"@) is Bool
            &&& conforms(session_settings.field("content"@), *content)
        },
        SchemaNode::Switch { content } => {
            &&& session_settings is Object
            &&& session_settings->Object_0.dom() == field_names(schema)
            &&& session_settings.field("enabled"@) is Bool
            &&& conforms(session_settings.field("content"@), *content)
        },
        SchemaNode::Boolean => session_settings is Bool,
        SchemaNode::Number { ty } => is_number_of(session_settings, ty),
        SchemaNode::Text => session_settings is Text,
        SchemaNode::Array(items) => {
            &&& session_settings is Array
            &&& session_settings->Array_0.len() == items@.len()
            &&& forall|i: int| #![trigger items@[i]]
                0 <= i < items@.len() ==> conforms(session_settings.item(i), items@[i])
        },
        SchemaNode::Vector { default_element } => {
            &&& session_settings is Object
            &&& session_settings->Object_0.dom() == field_names(schema)
            &&& conforms(session_settings.field("element"@), *default_element)
            &&& is_content_of_vector(session_settings.field("content"@), *default_element)
        },
        SchemaNode::Dictionary { default_value } => {
            &&& session_settings is Object
            &&& session_settings->Object_0.dom() == field_names(schema)
            &&& session_settings.field("key"@) is Text
            &&& conforms(session_settings.field("value"@), *default_value)
            &&& is_content_of_dictionary(session_settings.field("content"@), *default_value)
        },
        SchemaNode::Unsupported => false,
    }
}

/// An array of session settings of the same shape.
pub open spec fn is_content_of_vector(content: JsonTree, element: SchemaNode) -> bool
    decreases element, 1int,
{
    &&& content is Array
    &&& forall|i: int| #![trigger content->Array_0[i]]
        0 <= i < content->Array_0.len() ==> conforms(content->Array_0[i], element)
}

/// An array of keys with session settings of the same shape.
pub open spec fn is_content_of_dictionary(content: JsonTree, value: SchemaNode) -> bool
    decreases value, 1int,
{
    &&& content is Array
    &&& forall|i: int| #![trigger content->Array_0[i]]
        0 <= i < content->Array_0.len() ==> is_pair(content->Array_0[i]) && conforms(
            content->Array_0[i].item(1),
            value,
        )
}

/// Whatever the new settings are, they can be worked in when the old ones have the right shape.
pub proof fn law_any_settings_can_be_worked_in(old: JsonTree, new: JsonTree, schema: SchemaNode)
    requires
        conforms(old, schema),
    ensures
        extrapolation_is_defined(old, new, schema),
    decreases schema, 0int,
{
    match schema {
        SchemaNode::Section(entries) => {
            assert forall|i: int| #![trigger entries@[i]] 0 <= i < entries@.len() implies
                field_is_defined(old, new, entries@[i].name@, entries@[i].content) by {
                assert(decreases_to!(entries => entries@));
                assert(decreases_to!(entries@ => entries@[i]));
                assert(decreases_to!(entries@[i] => entries@[i].content));
                lemma_field_can_be_worked_in(old, new, entries@[i].name@, entries@[i].content);
            }
        },
        SchemaNode::Choice { variants } => {
            assert forall|i: int| #![trigger variants@[i]] 0 <= i < variants@.len() implies
                match variants@[i].content {
                Some(content) => field_is_defined(old, new, variants@[i].name@, content),
                None => true,
            } by {
                if let Some(content) = variants@[i].content {
                    assert(decreases_to!(variants => variants@));
                    assert(decreases_to!(variants@ => variants@[i]));
                    assert(decreases_to!(variants@[i] => variants@[i].content));
                    assert(decreases_to!(variants@[i].content => variants@[i].content->0));
                    lemma_field_can_be_worked_in(old, new, variants@[i].name@, content);
                }
            }
        },
        SchemaNode::Optional { content } => {
            lemma_field_can_be_worked_in(old, new, "content"@, *content);
        },
        SchemaNode::Switch { content } => {
            lemma_field_can_be_worked_in(old, new, "content"@, *content);
        },
        SchemaNode::Array(items) => {
            assert forall|i: int| #![trigger items@[i]] 0 <= i < items@.len() implies
                item_is_defined(old, new, i, items@[i]) by {
                if let Some(new_item) = new.get_item(i) {
                    assert(decreases_to!(items => items@));
                    assert(decreases_to!(items@ => items@[i]));
                    law_any_settings_can_be_worked_in(old.item(i), new_item, items@[i]);
                }
            }
        },
        SchemaNode::Vector { default_element } => {
            lemma_field_can_be_worked_in(old, new, "element"@, *default_element);
        },
        SchemaNode::Dictionary { default_value } => {
            lemma_field_can_be_worked_in(old, new, "value"@, *default_value);
        },
        _ => {},
    }
}

proof fn lemma_field_can_be_worked_in(
    old: JsonTree,
    new: JsonTree,
    name: Seq<char>,
    schema: SchemaNode,
)
    requires
        conforms(old.field(name), schema),
    ensures
        field_is_defined(old, new, name, schema),
    decreases schema, 1int,
{
    if let Some(new_value) = new.get(name) {
        law_any_settings_can_be_worked_in(old.field(name), new_value, schema);
    }
}

/// Session settings of the right shape can be turned into settings.
pub proof fn law_conforming_settings_are_convertible(
    session_settings: JsonTree,
    schema: SchemaNode,
)
    requires
        conforms(session_settings, schema),
    ensures
        is_convertible(session_settings, schema),
    decreases schema,
{
    match schema {
        SchemaNode::Section(entries) => {
            assert forall|i: int| #![trigger entries@[i]] 0 <= i < entries@.len() implies
                is_convertible(
                session_settings.field(entries@[i].name@),
                entries@[i].content,
            ) by {
                assert(decreases_to!(entries => entries@));
                assert(decreases_to!(entries@ => entries@[i]));
                assert(decreases_to!(entries@[i] => entries@[i].content));
                law_conforming_settings_are_convertible(
                    session_settings.field(entries@[i].name@),
                    entries@[i].content,
                );
            }
        },
        SchemaNode::Choice { variants } => {
            let variant = session_settings.field("variant"@)->Text_0;
            let i = variant_index(variants@, variant);
            lemma_variant_index(variants@, variant);
            if let Some(content) = variants@[i].content {
                assert(decreases_to!(variants => variants@));
                assert(decreases_to!(variants@ => variants@[i]));
                assert(decreases_to!(variants@[i] => variants@[i].content));
                assert(decreases_to!(variants@[i].content => variants@[i].content->0));
                law_conforming_settings_are_convertible(session_settings.field(variant), content);
            }
            assert(variant_is_convertible(session_settings, variants@));
        },
        SchemaNode::Optional { content } => {
            law_conforming_settings_are_convertible(session_settings.field("content"@), *content);
        },
        SchemaNode::Switch { content } => {
            law_conforming_settings_are_convertible(session_settings.field("content"@), *content);
        },
        SchemaNode::Array(items) => {
            assert forall|i: int| #![trigger items@[i]] 0 <= i < items@.len() implies
                is_convertible(session_settings.item(i), items@[i]) by {
                assert(decreases_to!(items => items@));
                assert(decreases_to!(items@ => items@[i]));
                law_conforming_settings_are_convertible(session_settings.item(i), items@[i]);
            }
        },
        SchemaNode::Vector { default_element } => {
            let content = session_settings.field("content"@);
            assert(is_content_of_vector(content, *default_element));
            assert forall|i: int| #![trigger content->Array_0[i]]
                0 <= i < content->Array_0.len() implies is_convertible(
                content->Array_0[i],
                *default_element,
            ) by {
                law_conforming_settings_are_convertible(content->Array_0[i], *default_element);
            }
        },
        SchemaNode::Dictionary { default_value } => {
            let content = session_settings.field("content"@);
            assert(is_content_of_dictionary(content, *default_value));
            assert forall|i: int| #![trigger content->Array_0[i]]
                0 <= i < content->Array_0.len() implies is_pair(content->Array_0[i])
                && is_convertible(content->Array_0[i].item(1), *default_value) by {
                law_conforming_settings_are_convertible(
                    content->Array_0[i].item(1),
                    *default_value,
                );
            }
        },
        _ => {},
    }
}

/// The entries have different names.
pub open spec fn entries_are_distinct(entries: Seq<SchemaEntry>) -> bool {
    forall|i: int, j: int|
        0 <= i < j < entries.len() ==> (#[trigger] entries[i]).name@ != (
        #[trigger] entries[j]).name@
}

/// The variants have different names.
pub open spec fn variants_are_distinct(variants: Seq<SchemaVariant>) -> bool {
    forall|i: int, j: int|
        0 <= i < j < variants.len() ==> (#[trigger] variants[i]).name@ != (
        #[trigger] variants[j]).name@
}

/// The names of the fields that come out of a section are those of its entries.
pub proof fn lemma_entry_names(
    old: JsonTree,
    new: JsonTree,
    entries: Seq<SchemaEntry>,
    name: Seq<char>,
)
    ensures
        extrapolated_entries(old, new, entries).contains_key(name) == exists|i: int|
            0 <= i < entries.len() && (#[trigger] entries[i]).name@ == name,
    decreases entries.len(),
{
    if entries.len() > 0 {
        let before = entries.drop_last();
        lemma_entry_names(old, new, before, name);
        if exists|i: int| 0 <= i < before.len() && (#[trigger] before[i]).name@ == name {
            let i = choose|i: int| 0 <= i < before.len() && (#[trigger] before[i]).name@ == name;
            assert(entries[i].name@ == name);
        }
        if exists|i: int| 0 <= i < entries.len() && (#[trigger] entries[i]).name@ == name {
            let i = choose|i: int| 0 <= i < entries.len() && (#[trigger] entries[i]).name@ == name;
            if i < before.len() {
                assert(before[i].name@ == name);
            }
        }
        assert(entries.last() == entries[entries.len() - 1]);
    }
}

/// Each entry of a section gets the value that is worked out for it.
pub proof fn lemma_entry_value(old: JsonTree, new: JsonTree, entries: Seq<SchemaEntry>, i: int)
    requires
        entries_are_distinct(entries),
        0 <= i < entries.len(),
    ensures
        extrapolated_entries(old, new, entries).contains_key(entries[i].name@),
        extrapolated_entries(old, new, entries)[entries[i].name@] == extrapolated_field(
            old,
            new,
            entries[i].name@,
            entries[i].content,
        ),
    decreases entries.len(),
{
    if i < entries.len() - 1 {
        let before = entries.drop_last();
        assert(entries_are_distinct(before));
        lemma_entry_value(old, new, before, i);
        assert(before[i] == entries[i]);
        assert(entries[entries.len() - 1].name@ != entries[i].name@);
    }
}

/// The names of the fields that come out of a choice are those of its variants with data.
pub proof fn lemma_variant_names(
    old: JsonTree,
    new: JsonTree,
    variants: Seq<SchemaVariant>,
    name: Seq<char>,
)
    ensures
        extrapolated_variants(old, new, variants).contains_key(name) == exists|i: int|
            0 <= i < variants.len() && (#[trigger] variants[i]).name@ == name
                && variants[i].content is Some,
    decreases variants.len(),
{
    if variants.len() > 0 {
        let before = variants.drop_last();
        lemma_variant_names(old, new, before, name);
        if exists|i: int|
            0 <= i < before.len() && (#[trigger] before[i]).name@ == name
                && before[i].content is Some {
            let i = choose|i: int|
                0 <= i < before.len() && (#[trigger] before[i]).name@ == name
                    && before[i].content is Some;
            assert(variants[i].name@ == name);
        }
        if exists|i: int|
            0 <= i < variants.len() && (#[trigger] variants[i]).name@ == name
                && variants[i].content is Some {
            let i = choose|i: int|
                0 <= i < variants.len() && (#[trigger] variants[i]).name@ == name
                    && variants[i].content is Some;
            if i < before.len() {
                assert(before[i].name@ == name);
            }
        }
        assert(variants.last() == variants[variants.len() - 1]);
    }
}

/// Each variant with data gets the value that is worked out for it.
pub proof fn lemma_variant_value(old: JsonTree, new: JsonTree, variants: Seq<SchemaVariant>, i: int)
    requires
        variants_are_distinct(variants),
        0 <= i < variants.len(),
        variants[i].content is Some,
    ensures
        extrapolated_variants(old, new, variants).contains_key(variants[i].name@),
        extrapolated_variants(old, new, variants)[variants[i].name@] == extrapolated_field(
            old,
            new,
            variants[i].name@,
            variants[i].content->0,
        ),
    decreases variants.len(),
{
    if i < variants.len() - 1 {
        let before = variants.drop_last();
        assert(variants_are_distinct(before));
        lemma_variant_value(old, new, before, i);
        assert(before[i] == variants[i]);
        assert(variants[variants.len() - 1].name@ != variants[i].name@);
    }
}

/// The names of the fixed fields differ.
pub proof fn lemma_fixed_names()
    ensures
        "set"@ != "content"@,
        "enabled"@ != "content"@,
        "element"@ != "content"@,
        "key"@ != "content"@,
        "value"@ != "content"@,
        "key"@ != "value"@,
{
    reveal_strlit("set");
    reveal_strlit("content");
    reveal_strlit("enabled");
    reveal_strlit("element");
    reveal_strlit("key");
    reveal_strlit("value");
    assert("element"@[0] == 'e');
    assert("content"@[0] == 'c');
    assert("enabled"@[0] == 'e');
    assert("key"@.len() == 3);
    assert("value"@.len() == 5);
}

/// The settings that are worked out have the fields that the schema gives.
proof fn lemma_field_names(old: JsonTree, new: JsonTree, schema: SchemaNode)
    ensures
        match schema {
            SchemaNode::Section(_) | SchemaNode::Choice { .. } | SchemaNode::Optional { .. }
            | SchemaNode::Switch { .. } | SchemaNode::Vector { .. }
            | SchemaNode::Dictionary { .. } => {
                &&& extrapolated(old, new, schema) is Object
                &&& extrapolated(old, new, schema)->Object_0.dom() == field_names(schema)
            },
            _ => true,
        },
{
    match schema {
        SchemaNode::Section(entries) => {
            assert forall|name: Seq<char>| #[trigger]
                extrapolated(old, new, schema)->Object_0.dom().contains(name) == field_names(
                    schema,
                ).contains(name) by {
                lemma_entry_names(old, new, entries@, name);
            }
            assert(extrapolated(old, new, schema)->Object_0.dom() =~= field_names(schema));
        },
        SchemaNode::Choice { variants } => {
            assert forall|name: Seq<char>| #[trigger]
                extrapolated(old, new, schema)->Object_0.dom().contains(name) == field_names(
                    schema,
                ).contains(name) by {
                lemma_variant_names(old, new, variants@, name);
            }
            assert(extrapolated(old, new, schema)->Object_0.dom() =~= field_names(schema));
        },
        _ => {
            if extrapolated(old, new, schema) is Object {
                assert(schema is Optional || schema is Switch || schema is Vector
                    || schema is Dictionary ==> extrapolated(old, new, schema)->Object_0.dom()
                    =~= field_names(schema));
            }
        },
    }
}

/// The new settings say nothing that the schema knows of, not counting what is inside their parts.
pub open spec fn says_nothing(new: JsonTree, schema: SchemaNode) -> bool {
    match schema {
        SchemaNode::Boolean => !(new is Bool),
        SchemaNode::Number { ty } => !is_number_of(new, ty),
        SchemaNode::Text => !(new is Text),
        SchemaNode::Array(items) => forall|i: int|
            0 <= i < items@.len() ==> (#[trigger] new.get_item(i)) is None,
        SchemaNode::Unsupported => false,
        _ => forall|name: Seq<char>|
            field_names(schema).contains(name) ==> (#[trigger] new.get(name)) is None,
    }
}

/// Settings stay as they are when the new settings have nothing to say about them.
pub proof fn law_silence_changes_nothing(old: JsonTree, new: JsonTree, schema: SchemaNode)
    requires
        conforms(old, schema),
        names_are_distinct(schema),
        says_nothing(new, schema),
    ensures
        extrapolated(old, new, schema) == old,
{
    lemma_fixed_names();
    lemma_field_names(old, new, schema);
    let result = extrapolated(old, new, schema);
    match schema {
        SchemaNode::Section(entries) => {
            assert(field_names(schema).contains("gui_collapsed"@));
            assert forall|name: Seq<char>| field_names(schema).contains(name) implies
                result->Object_0[name] == old->Object_0[name] by {
                assert(new.get(name) is None);
                if name != "gui_collapsed"@ {
                    let i = choose|i: int|
                        0 <= i < entries@.len() && (#[trigger] entries@[i]).name@ == name;
                    lemma_entry_value(old, new, entries@, i);
                }
            }
            assert(result->Object_0 =~= old->Object_0);
        },
        SchemaNode::Choice { variants } => {
            assert(field_names(schema).contains("variant"@));
            assert forall|name: Seq<char>| field_names(schema).contains(name) implies
                result->Object_0[name] == old->Object_0[name] by {
                assert(new.get(name) is None);
                if name != "variant"@ {
                    let i = choose|i: int|
                        0 <= i < variants@.len() && (#[trigger] variants@[i]).name@ == name
                            && variants@[i].content is Some;
                    lemma_variant_value(old, new, variants@, i);
                }
            }
            assert(result->Object_0 =~= old->Object_0);
        },
        SchemaNode::Array(items) => {
            assert forall|i: int| 0 <= i < items@.len() implies result->Array_0[i]
                == old->Array_0[i] by {
                assert(new.get_item(i) is None);
                assert(result->Array_0[i] == extrapolated_item(old, new, i, items@[i]));
            }
            assert(result->Array_0 =~= old->Array_0);
        },
        SchemaNode::Optional { .. } => {
            assert(new.get("set"@) is None);
            assert(new.get("content"@) is None);
            assert(result->Object_0 =~= old->Object_0);
        },
        SchemaNode::Switch { .. } => {
            assert(new.get("enabled"@) is None);
            assert(new.get("content"@) is None);
            assert(result->Object_0 =~= old->Object_0);
        },
        SchemaNode::Vector { .. } => {
            assert(new.get("element"@) is None);
            assert(new.get("content"@) is None);
            assert(result->Object_0 =~= old->Object_0);
        },
        SchemaNode::Dictionary { .. } => {
            assert(new.get("key"@) is None);
            assert(new.get("value"@) is None);
            assert(new.get("content"@) is None);
            assert(result->Object_0 =~= old->Object_0);
        },
        _ => {},
    }
}

/// A field whose name the schema does not know changes nothing.
pub proof fn law_unknown_fields_are_ignored(
    old: JsonTree,
    fields: Map<Seq<char>, JsonTree>,
    name: Seq<char>,
    value: JsonTree,
    schema: SchemaNode,
)
    requires
        !field_names(schema).contains(name),
    ensures
        extrapolated(old, JsonTree::Object(fields.insert(name, value)), schema) == extrapolated(
            old,
            JsonTree::Object(fields),
            schema,
        ),
{
    let new = JsonTree::Object(fields);
    let more = JsonTree::Object(fields.insert(name, value));
    assert forall|known: Seq<char>| known != name implies #[trigger] more.get(known) == new.get(
        known,
    ) by {}
    match schema {
        SchemaNode::Section(entries) => {
            assert forall|i: int| 0 <= i < entries@.len() implies (
            #[trigger] entries@[i]).name@ != name by {
                if entries@[i].name@ == name {
                    assert(field_names(schema).contains(name));
                }
            }
            lemma_entries_read_their_names(old, new, more, entries@, name);
        },
        SchemaNode::Choice { variants } => {
            assert forall|i: int|
                0 <= i < variants@.len() && (#[trigger] variants@[i]).content is Some implies
                variants@[i].name@ != name by {
                if variants@[i].name@ == name {
                    assert(field_names(schema).contains(name));
                }
            }
            lemma_variants_read_their_names(old, new, more, variants@, name);
        },
        SchemaNode::Array(items) => {
            assert forall|i: int| 0 <= i < items@.len() implies extrapolated_item(
                old,
                more,
                i,
                #[trigger] items@[i],
            ) == extrapolated_item(old, new, i, items@[i]) by {
                assert(more.get_item(i) == new.get_item(i));
            }
            assert(extrapolated(old, more, schema)->Array_0 =~= extrapolated(
                old,
                new,
                schema,
            )->Array_0);
        },
        _ => {},
    }
}

proof fn lemma_entries_read_their_names(
    old: JsonTree,
    new: JsonTree,
    more: JsonTree,
    entries: Seq<SchemaEntry>,
    name: Seq<char>,
)
    requires
        forall|known: Seq<char>| known != name ==> #[trigger] more.get(known) == new.get(known),
        forall|i: int| 0 <= i < entries.len() ==> (#[trigger] entries[i]).name@ != name,
    ensures
        extrapolated_entries(old, more, entries) == extrapolated_entries(old, new, entries),
    decreases entries.len(),
{
    if entries.len() > 0 {
        let before = entries.drop_last();
        assert forall|i: int| 0 <= i < before.len() implies (
        #[trigger] before[i]).name@ != name by {
            assert(before[i] == entries[i]);
        }
        lemma_entries_read_their_names(old, new, more, before, name);
        assert(entries.last() == entries[entries.len() - 1]);
        let entry = entries.last();
        assert(more.get(entry.name@) == new.get(entry.name@));
        assert(extrapolated_field(old, more, entry.name@, entry.content) == extrapolated_field(
            old,
            new,
            entry.name@,
            entry.content,
        ));
    }
}

proof fn lemma_variants_read_their_names(
    old: JsonTree,
    new: JsonTree,
    more: JsonTree,
    variants: Seq<SchemaVariant>,
    name: Seq<char>,
)
    requires
        forall|known: Seq<char>| known != name ==> #[trigger] more.get(known) == new.get(known),
        forall|i: int|
            0 <= i < variants.len() && (#[trigger] variants[i]).content is Some
                ==> variants[i].name@ != name,
    ensures
        extrapolated_variants(old, more, variants) == extrapolated_variants(old, new, variants),
    decreases variants.len(),
{
    if variants.len() > 0 {
        let before = variants.drop_last();
        assert forall|i: int|
            0 <= i < before.len() && (#[trigger] before[i]).content is Some implies before[i].name@
            != name by {
            assert(before[i] == variants[i]);
        }
        lemma_variants_read_their_names(old, new, more, before, name);
        assert(variants.last() == variants[variants.len() - 1]);
        let variant = variants.last();
        if let Some(content) = variant.content {
            assert(more.get(variant.name@) == new.get(variant.name@));
            assert(extrapolated_field(old, more, variant.name@, content) == extrapolated_field(
                old,
                new,
                variant.name@,
                content,
            ));
        }
    }
}

/// Settings of the right shape are taken over as they are, whatever they are worked into.
pub proof fn law_conforming_settings_are_taken_over(
    old: JsonTree,
    new: JsonTree,
    schema: SchemaNode,
)
    requires
        conforms(new, schema),
        names_are_distinct(schema),
    ensures
        extrapolation_is_defined(old, new, schema),
        extrapolated(old, new, schema) == new,
    decreases schema, 0int,
{
    lemma_fixed_names();
    lemma_field_names(old, new, schema);
    let result = extrapolated(old, new, schema);
    match schema {
        SchemaNode::Section(entries) => {
            assert forall|i: int| #![trigger entries@[i]] 0 <= i < entries@.len() implies
                field_is_defined(old, new, entries@[i].name@, entries@[i].content)
                && extrapolated_field(old, new, entries@[i].name@, entries@[i].content)
                == new.field(entries@[i].name@) by {
                let entry = entries@[i];
                assert(decreases_to!(entries => entries@));
                assert(decreases_to!(entries@ => entries@[i]));
                assert(decreases_to!(entry => entry.content));
                assert(field_names(schema).contains(entry.name@));
                lemma_conforming_field_is_taken_over(old, new, entry.name@, entry.content);
            }
            assert forall|name: Seq<char>| field_names(schema).contains(name) implies
                result->Object_0[name] == new->Object_0[name] by {
                if name != "gui_collapsed"@ {
                    let i = choose|i: int|
                        0 <= i < entries@.len() && (#[trigger] entries@[i]).name@ == name;
                    lemma_entry_value(old, new, entries@, i);
                }
            }
            assert(result->Object_0 =~= new->Object_0);
        },
        SchemaNode::Choice { variants } => {
            assert forall|i: int| #![trigger variants@[i]] 0 <= i < variants@.len() implies
                match variants@[i].content {
                Some(content) => field_is_defined(old, new, variants@[i].name@, content)
                    && extrapolated_field(old, new, variants@[i].name@, content) == new.field(
                    variants@[i].name@,
                ),
                None => true,
            } by {
                let variant = variants@[i];
                if let Some(content) = variant.content {
                    assert(decreases_to!(variants => variants@));
                    assert(decreases_to!(variants@ => variants@[i]));
                    assert(decreases_to!(variant => variant.content));
                    assert(decreases_to!(variant.content => variant.content->0));
                    assert(field_names(schema).contains(variant.name@));
                    lemma_conforming_field_is_taken_over(old, new, variant.name@, content);
                }
            }
            assert forall|name: Seq<char>| field_names(schema).contains(name) implies
                result->Object_0[name] == new->Object_0[name] by {
                if name != "variant"@ {
                    let i = choose|i: int|
                        0 <= i < variants@.len() && (#[trigger] variants@[i]).name@ == name
                            && variants@[i].content is Some;
                    lemma_variant_value(old, new, variants@, i);
                }
            }
            assert(result->Object_0 =~= new->Object_0);
        },
        SchemaNode::Array(items) => {
            assert forall|i: int| #![trigger items@[i]] 0 <= i < items@.len() implies
                item_is_defined(old, new, i, items@[i]) && extrapolated_item(old, new, i, items@[i])
                == new.item(i) by {
                assert(decreases_to!(items => items@));
                assert(decreases_to!(items@ => items@[i]));
                law_conforming_settings_are_taken_over(old.item(i), new.item(i), items@[i]);
            }
            assert(result->Array_0 =~= new->Array_0);
        },
        SchemaNode::Optional { content } => {
            lemma_conforming_field_is_taken_over(old, new, "content"@, *content);
            assert(result->Object_0 =~= new->Object_0);
        },
        SchemaNode::Switch { content } => {
            lemma_conforming_field_is_taken_over(old, new, "content"@, *content);
            assert(result->Object_0 =~= new->Object_0);
        },
        SchemaNode::Vector { default_element } => {
            lemma_conforming_field_is_taken_over(old, new, "element"@, *default_element);
            assert(new->Object_0.contains_key("content"@));
            assert(result->Object_0 =~= new->Object_0);
        },
        SchemaNode::Dictionary { default_value } => {
            lemma_conforming_field_is_taken_over(old, new, "value"@, *default_value);
            assert(new->Object_0.contains_key("content"@));
            assert(result->Object_0 =~= new->Object_0);
        },
        _ => {},
    }
}

proof fn lemma_conforming_field_is_taken_over(
    old: JsonTree,
    new: JsonTree,
    name: Seq<char>,
    schema: SchemaNode,
)
    requires
        new.get(name) is Some,
        conforms(new.field(name), schema),
        names_are_distinct(schema),
    ensures
        field_is_defined(old, new, name, schema),
        extrapolated_field(old, new, name, schema) == new.field(name),
    decreases schema, 1int,
{
    law_conforming_settings_are_taken_over(old.field(name), new.field(name), schema);
}

/// Those parts of the new settings that are taken as they are, whatever they hold, have the
/// right shape.
pub open spec fn unchecked_parts_conform(new: JsonTree, schema: SchemaNode) -> bool
    decreases schema,
{
    match schema {
        SchemaNode::Section(entries) => forall|i: int| #![trigger entries@[i]]
            0 <= i < entries@.len() ==> unchecked_parts_conform(
                new.field(entries@[i].name@),
                entries@[i].content,
            ),
        SchemaNode::Choice { variants } => forall|i: int| #![trigger variants@[i]]
            0 <= i < variants@.len() ==> match variants@[i].content {
                Some(content) => unchecked_parts_conform(
                    new.field(variants@[i].name@),
                    content,
                ),
                None => true,
            },
        SchemaNode::Optional { content } => unchecked_parts_conform(
            new.field("content"@),
            *content,
        ),
        SchemaNode::Switch { content } => unchecked_parts_conform(new.field("content"@), *content),
        SchemaNode::Array(items) => forall|i: int| #![trigger items@[i]]
            0 <= i < items@.len() ==> unchecked_parts_conform(new.item(i), items@[i]),
        SchemaNode::Vector { default_element } => {
            &&& unchecked_parts_conform(new.field("element"@), *default_element)
            &&& new.get("content"@) is Some ==> is_content_of_vector(
                new.field("content"@),
                *default_element,
            )
        },
        SchemaNode::Dictionary { default_value } => {
            &&& unchecked_parts_conform(new.field("value"@), *default_value)
            &&& new.get("content"@) is Some ==> is_content_of_dictionary(
                new.field("content"@),
                *default_value,
            )
        },
        _ => true,
    }
}

/// The settings that are worked out have the right shape.
pub proof fn law_extrapolated_settings_conform(old: JsonTree, new: JsonTree, schema: SchemaNode)
    requires
        conforms(old, schema),
        names_are_distinct(schema),
        unchecked_parts_conform(new, schema),
    ensures
        conforms(extrapolated(old, new, schema), schema),
    decreases schema, 0int,
{
    lemma_fixed_names();
    lemma_field_names(old, new, schema);
    let result = extrapolated(old, new, schema);
    match schema {
        SchemaNode::Section(entries) => {
            assert forall|i: int| #![trigger entries@[i]] 0 <= i < entries@.len() implies conforms(
                result.field(entries@[i].name@),
                entries@[i].content,
            ) by {
                let entry = entries@[i];
                assert(decreases_to!(entries => entries@));
                assert(decreases_to!(entries@ => entries@[i]));
                assert(decreases_to!(entry => entry.content));
                lemma_entry_value(old, new, entries@, i);
                lemma_extrapolated_field_conforms(old, new, entry.name@, entry.content);
            }
        },
        SchemaNode::Choice { variants } => {
            assert forall|i: int| #![trigger variants@[i]] 0 <= i < variants@.len() implies
                match variants@[i].content {
                Some(content) => conforms(result.field(variants@[i].name@), content),
                None => true,
            } by {
                let variant = variants@[i];
                if let Some(content) = variant.content {
                    assert(decreases_to!(variants => variants@));
                    assert(decreases_to!(variants@ => variants@[i]));
                    assert(decreases_to!(variant => variant.content));
                    assert(decreases_to!(variant.content => variant.content->0));
                    lemma_variant_value(old, new, variants@, i);
                    lemma_extrapolated_field_conforms(old, new, variant.name@, content);
                }
            }
        },
        SchemaNode::Optional { content } => {
            lemma_extrapolated_field_conforms(old, new, "content"@, *content);
        },
        SchemaNode::Switch { content } => {
            lemma_extrapolated_field_conforms(old, new, "content"@, *content);
        },
        SchemaNode::Vector { default_element } => {
            lemma_extrapolated_field_conforms(old, new, "element"@, *default_element);
        },
        SchemaNode::Dictionary { default_value } => {
            lemma_extrapolated_field_conforms(old, new, "value"@, *default_value);
        },
        SchemaNode::Array(items) => {
            assert forall|i: int| #![trigger items@[i]] 0 <= i < items@.len() implies conforms(
                result.item(i),
                items@[i],
            ) by {
                assert(decreases_to!(items => items@));
                assert(decreases_to!(items@ => items@[i]));
                assert(result->Array_0[i] == extrapolated_item(old, new, i, items@[i]));
                if let Some(new_item) = new.get_item(i) {
                    law_extrapolated_settings_conform(old.item(i), new_item, items@[i]);
                }
            }
        },
        _ => {},
    }
}

proof fn lemma_extrapolated_field_conforms(
    old: JsonTree,
    new: JsonTree,
    name: Seq<char>,
    schema: SchemaNode,
)
    requires
        conforms(old.field(name), schema),
        names_are_distinct(schema),
        unchecked_parts_conform(new.field(name), schema),
    ensures
        conforms(extrapolated_field(old, new, name, schema), schema),
    decreases schema, 1int,
{
    if let Some(new_value) = new.get(name) {
        law_extrapolated_settings_conform(old.field(name), new_value, schema);
    }
}

/// Whatever the new settings are, what is worked out of them and of old settings of the right
/// shape can be turned into settings, as long as the parts that are taken as they are have the
/// right shape.
pub proof fn law_extrapolated_settings_are_convertible(
    old: JsonTree,
    new: JsonTree,
    schema: SchemaNode,
)
    requires
        conforms(old, schema),
        names_are_distinct(schema),
        unchecked_parts_conform(new, schema),
    ensures
        is_convertible(extrapolated(old, new, schema), schema),
{
    law_extrapolated_settings_conform(old, new, schema);
    law_conforming_settings_are_convertible(extrapolated(old, new, schema), schema);
}

/// A tree has the shape of the settings that the schema gives: it holds just the branches that
/// are in use.
pub open spec fn is_settings(settings: JsonTree, schema: SchemaNode) -> bool
    decreases schema,
{
    match schema {
        SchemaNode::Section(entries) => {
            &&& settings is Object
            &&& settings->Object_0.dom() == field_names(schema).remove("gui_collapsed"@)
            &&& forall|i: int| #![trigger entries@[i]]
                0 <= i < entries@.len() ==> is_settings(
                    settings.field(entries@[i].name@),
                    entries@[i].content,
                )
        },
        SchemaNode::Choice { variants } => exists|i: int| #![trigger variants@[i]]
            0 <= i < variants@.len() && match variants@[i].content {
                Some(content) => settings == JsonTree::Object(
                    map![variants@[i].name@ => settings.field(variants@[i].name@)],
                ) && is_settings(settings.field(variants@[i].name@), content),
                None => settings == JsonTree::Text(variants@[i].name@),
            },
        SchemaNode::Optional { content } => settings is Null || is_settings(settings, *content),
        SchemaNode::Switch { content } => {
            ||| settings == JsonTree::Text("Disabled"@)
            ||| settings == JsonTree::Object(map!["Enabled"@ => settings.field("Enabled"@)])
                && is_settings(settings.field("Enabled"@), *content)
        },
        SchemaNode::Boolean => settings is Bool,
        SchemaNode::Number { ty } => is_number_of(settings, ty),
        SchemaNode::Text => settings is Text,
        SchemaNode::Array(items) => {
            &&& settings is Array
            &&& settings->Array_0.len() == items@.len()
            &&& forall|i: int| #![trigger items@[i]]
                0 <= i < items@.len() ==> is_settings(settings.item(i), items@[i])
        },
        SchemaNode::Vector { default_element } => {
            &&& settings is Array
            &&& forall|i: int| #![trigger settings->Array_0[i]]
                0 <= i < settings->Array_0.len() ==> is_settings(
                    settings->Array_0[i],
                    *default_element,
                )
        },
        SchemaNode::Dictionary { default_value } => {
            &&& settings is Array
            &&& forall|i: int| #![trigger settings->Array_0[i]]
                0 <= i < settings->Array_0.len() ==> is_pair(settings->Array_0[i]) && is_settings(
                    settings->Array_0[i].item(1),
                    *default_value,
                )
        },
        SchemaNode::Unsupported => false,
    }
}

/// The names of the settings of a section are those of its entries.
pub proof fn lemma_settings_names(
    session_settings: JsonTree,
    entries: Seq<SchemaEntry>,
    name: Seq<char>,
)
    ensures
        settings_of_entries(session_settings, entries).contains_key(name) == exists|i: int|
            0 <= i < entries.len() && (#[trigger] entries[i]).name@ == name,
    decreases entries.len(),
{
    if entries.len() > 0 {
        let before = entries.drop_last();
        lemma_settings_names(session_settings, before, name);
        if exists|i: int| 0 <= i < before.len() && (#[trigger] before[i]).name@ == name {
            let i = choose|i: int| 0 <= i < before.len() && (#[trigger] before[i]).name@ == name;
            assert(entries[i].name@ == name);
        }
        if exists|i: int| 0 <= i < entries.len() && (#[trigger] entries[i]).name@ == name {
            let i = choose|i: int| 0 <= i < entries.len() && (#[trigger] entries[i]).name@ == name;
            if i < before.len() {
                assert(before[i].name@ == name);
            }
        }
        assert(entries.last() == entries[entries.len() - 1]);
    }
}

/// Each entry of a section has its own settings.
pub proof fn lemma_settings_value(session_settings: JsonTree, entries: Seq<SchemaEntry>, i: int)
    requires
        entries_are_distinct(entries),
        0 <= i < entries.len(),
    ensures
        settings_of_entries(session_settings, entries).contains_key(entries[i].name@),
        settings_of_entries(session_settings, entries)[entries[i].name@] == settings_of(
            session_settings.field(entries[i].name@),
            entries[i].content,
        ),
    decreases entries.len(),
{
    if i < entries.len() - 1 {
        let before = entries.drop_last();
        assert(entries_are_distinct(before));
        lemma_settings_value(session_settings, before, i);
        assert(before[i] == entries[i]);
        assert(entries[entries.len() - 1].name@ != entries[i].name@);
    }
}

/// Session settings of the right shape are turned into settings of the right shape.
pub proof fn law_settings_have_the_right_shape(session_settings: JsonTree, schema: SchemaNode)
    requires
        conforms(session_settings, schema),
        names_are_distinct(schema),
    ensures
        is_settings(settings_of(session_settings, schema), schema),
    decreases schema,
{
    let result = settings_of(session_settings, schema);
    match schema {
        SchemaNode::Section(entries) => {
            assert forall|name: Seq<char>| #[trigger]
                result->Object_0.dom().contains(name) == field_names(schema).remove(
                    "gui_collapsed"@,
                ).contains(name) by {
                lemma_settings_names(session_settings, entries@, name);
            }
            assert(result->Object_0.dom() =~= field_names(schema).remove("gui_collapsed"@));
            assert forall|i: int| #![trigger entries@[i]] 0 <= i < entries@.len() implies
                is_settings(result.field(entries@[i].name@), entries@[i].content) by {
                let entry = entries@[i];
                assert(decreases_to!(entries => entries@));
                assert(decreases_to!(entries@ => entries@[i]));
                assert(decreases_to!(entry => entry.content));
                lemma_settings_value(session_settings, entries@, i);
                law_settings_have_the_right_shape(
                    session_settings.field(entry.name@),
                    entry.content,
                );
            }
        },
        SchemaNode::Choice { variants } => {
            let name = session_settings.field("variant"@)->Text_0;
            let i = variant_index(variants@, name);
            lemma_variant_index(variants@, name);
            let variant = variants@[i];
            assert(result == settings_of_variant(session_settings, name, variants@));
            if let Some(content) = variant.content {
                assert(decreases_to!(variants => variants@));
                assert(decreases_to!(variants@ => variants@[i]));
                assert(decreases_to!(variant => variant.content));
                assert(decreases_to!(variant.content => variant.content->0));
                law_settings_have_the_right_shape(session_settings.field(name), content);
                assert(result == JsonTree::Object(map![name => result.field(name)])) by {
                    assert(result->Object_0 =~= map![name => result.field(name)]);
                }
            }
        },
        SchemaNode::Optional { content } => {
            law_settings_have_the_right_shape(session_settings.field("content"@), *content);
        },
        SchemaNode::Switch { content } => {
            law_settings_have_the_right_shape(session_settings.field("content"@), *content);
            if result is Object {
                assert(result->Object_0 =~= map!["Enabled"@ => result.field("Enabled"@)]);
            }
        },
        SchemaNode::Array(items) => {
            assert forall|i: int| #![trigger items@[i]] 0 <= i < items@.len() implies is_settings(
                result.item(i),
                items@[i],
            ) by {
                assert(decreases_to!(items => items@));
                assert(decreases_to!(items@ => items@[i]));
                law_settings_have_the_right_shape(session_settings.item(i), items@[i]);
            }
        },
        SchemaNode::Vector { default_element } => {
            let content = session_settings.field("content"@);
            assert(is_content_of_vector(content, *default_element));
            assert forall|i: int| #![trigger result->Array_0[i]]
                0 <= i < result->Array_0.len() implies is_settings(
                result->Array_0[i],
                *default_element,
            ) by {
                assert(conforms(content->Array_0[i], *default_element));
                law_settings_have_the_right_shape(content->Array_0[i], *default_element);
            }
        },
        SchemaNode::Dictionary { default_value } => {
            let content = session_settings.field("content"@);
            assert(is_content_of_dictionary(content, *default_value));
            assert forall|i: int| #![trigger result->Array_0[i]]
                0 <= i < result->Array_0.len() implies is_pair(result->Array_0[i]) && is_settings(
                result->Array_0[i].item(1),
                *default_value,
            ) by {
                assert(is_pair(content->Array_0[i]));
                law_settings_have_the_right_shape(content->Array_0[i].item(1), *default_value);
            }
        },
        _ => {},
    }
}

/// Working the same settings in twice is the same as working them in once.
pub proof fn law_working_in_twice_changes_nothing(old: JsonTree, new: JsonTree, schema: SchemaNode)
    requires
        names_are_distinct(schema),
    ensures
        extrapolated(extrapolated(old, new, schema), new, schema) == extrapolated(old, new, schema),
    decreases schema, 0int,
{
    lemma_fixed_names();
    let once = extrapolated(old, new, schema);
    let twice = extrapolated(once, new, schema);
    lemma_field_names(old, new, schema);
    lemma_field_names(once, new, schema);
    match schema {
        SchemaNode::Section(entries) => {
            assert forall|name: Seq<char>| field_names(schema).contains(name) implies
                twice->Object_0[name] == once->Object_0[name] by {
                if name != "gui_collapsed"@ {
                    let i = choose|i: int|
                        0 <= i < entries@.len() && (#[trigger] entries@[i]).name@ == name;
                    let entry = entries@[i];
                    assert(decreases_to!(entries => entries@));
                    assert(decreases_to!(entries@ => entries@[i]));
                    assert(decreases_to!(entry => entry.content));
                    lemma_entry_value(old, new, entries@, i);
                    lemma_entry_value(once, new, entries@, i);
                    lemma_field_twice(old, new, once, name, entry.content);
                }
            }
            assert(twice->Object_0 =~= once->Object_0);
        },
        SchemaNode::Choice { variants } => {
            assert forall|name: Seq<char>| field_names(schema).contains(name) implies
                twice->Object_0[name] == once->Object_0[name] by {
                if name != "variant"@ {
                    let i = choose|i: int|
                        0 <= i < variants@.len() && (#[trigger] variants@[i]).name@ == name
                            && variants@[i].content is Some;
                    let variant = variants@[i];
                    assert(decreases_to!(variants => variants@));
                    assert(decreases_to!(variants@ => variants@[i]));
                    assert(decreases_to!(variant => variant.content));
                    assert(decreases_to!(variant.content => variant.content->0));
                    lemma_variant_value(old, new, variants@, i);
                    lemma_variant_value(once, new, variants@, i);
                    lemma_field_twice(old, new, once, name, variant.content->0);
                }
            }
            assert(twice->Object_0 =~= once->Object_0);
        },
        SchemaNode::Array(items) => {
            assert forall|i: int| 0 <= i < items@.len() implies twice->Array_0[i]
                == once->Array_0[i] by {
                assert(decreases_to!(items => items@));
                assert(decreases_to!(items@ => items@[i]));
                assert(once->Array_0[i] == extrapolated_item(old, new, i, items@[i]));
                assert(twice->Array_0[i] == extrapolated_item(once, new, i, items@[i]));
                if let Some(new_item) = new.get_item(i) {
                    law_working_in_twice_changes_nothing(old.item(i), new_item, items@[i]);
                }
            }
            assert(twice->Array_0 =~= once->Array_0);
        },
        SchemaNode::Optional { content } => {
            lemma_field_twice(old, new, once, "content"@, *content);
            assert(twice->Object_0 =~= once->Object_0);
        },
        SchemaNode::Switch { content } => {
            lemma_field_twice(old, new, once, "content"@, *content);
            assert(twice->Object_0 =~= once->Object_0);
        },
        SchemaNode::Vector { default_element } => {
            lemma_field_twice(old, new, once, "element"@, *default_element);
            assert(twice->Object_0 =~= once->Object_0);
        },
        SchemaNode::Dictionary { default_value } => {
            lemma_field_twice(old, new, once, "value"@, *default_value);
            assert(twice->Object_0 =~= once->Object_0);
        },
        _ => {},
    }
}

proof fn lemma_field_twice(
    old: JsonTree,
    new: JsonTree,
    once: JsonTree,
    name: Seq<char>,
    schema: SchemaNode,
)
    requires
        names_are_distinct(schema),
        once.field(name) == extrapolated_field(old, new, name, schema),
    ensures
        extrapolated_field(once, new, name, schema) == once.field(name),
    decreases schema, 1int,
{
    if let Some(new_value) = new.get(name) {
        law_working_in_twice_changes_nothing(old.field(name), new_value, schema);
    }
}

/// Two session settings choose the same variant, and its data is the same as far as it is in use.
pub open spec fn variant_is_same_in_use(
    left: JsonTree,
    right: JsonTree,
    variants: Seq<SchemaVariant>,
) -> bool
    decreases variants, 0int,
{
    let variant = left.field("variant"@)->Text_0;
    let index = variant_index(variants, variant);
    &&& left.field("variant"@) == right.field("variant"@)
    &&& has_variant(variants, variant) && 0 <= index < variants.len()
        && variants[index].content is Some ==> is_same_in_use(
        left.field(variant),
        right.field(variant),
        variants[index].content->0,
    )
}

/// Two contents of a vector have as many elements, and these are the same as far as they are in
/// use.
pub open spec fn elements_are_same_in_use(
    left: JsonTree,
    right: JsonTree,
    element: SchemaNode,
) -> bool
    decreases element, 1int,
{
    ||| left == right
    ||| {
        &&& left is Array
        &&& right is Array
        &&& left->Array_0.len() == right->Array_0.len()
        &&& forall|i: int| #![trigger left->Array_0[i]]
            0 <= i < left->Array_0.len() ==> is_same_in_use(
                left->Array_0[i],
                right->Array_0[i],
                element,
            )
    }
}

/// Two contents of a dictionary have the same keys in the same order, and the values are the same
/// as far as they are in use.
pub open spec fn values_are_same_in_use(left: JsonTree, right: JsonTree, value: SchemaNode) -> bool
    decreases value, 1int,
{
    ||| left == right
    ||| {
        &&& left is Array
        &&& right is Array
        &&& left->Array_0.len() == right->Array_0.len()
        &&& forall|i: int| #![trigger left->Array_0[i]]
            0 <= i < left->Array_0.len() ==> {
                &&& is_pair(left->Array_0[i]) && is_pair(right->Array_0[i])
                &&& left->Array_0[i].item(0) == right->Array_0[i].item(0)
                &&& is_same_in_use(
                    left->Array_0[i].item(1),
                    right->Array_0[i].item(1),
                    value,
                )
            }
    }
}

/// Two session settings are the same in the branches that are in use. They may differ in what
/// is not set, in what is switched off, in the variants that are not chosen, in the templates
/// for new elements, and in which sections are collapsed.
pub open spec fn is_same_in_use(left: JsonTree, right: JsonTree, schema: SchemaNode) -> bool
    decreases schema, 0int,
{
    match schema {
        SchemaNode::Section(entries) => forall|i: int| #![trigger entries@[i]]
            0 <= i < entries@.len() ==> is_same_in_use(
                left.field(entries@[i].name@),
                right.field(entries@[i].name@),
                entries@[i].content,
            ),
        SchemaNode::Choice { variants } => variant_is_same_in_use(left, right, variants@),
        SchemaNode::Optional { content } => {
            &&& left.field("set"@) == right.field("set"@)
            &&& left.field("set"@) == JsonTree::Bool(true) ==> is_same_in_use(
                left.field("content"@),
                right.field("content"@),
                *content,
            )
        },
        SchemaNode::Switch { content } => {
            &&& left.field("enabled"@) == right.field("enabled"@)
            &&& left.field("enabled"@) == JsonTree::Bool(true) ==> is_same_in_use(
                left.field("content"@),
                right.field("content"@),
                *content,
            )
        },
        SchemaNode::Array(items) => forall|i: int| #![trigger items@[i]]
            0 <= i < items@.len() ==> is_same_in_use(left.item(i), right.item(i), items@[i]),
        SchemaNode::Vector { default_element } => elements_are_same_in_use(
            left.field("content"@),
            right.field("content"@),
            *default_element,
        ),
        SchemaNode::Dictionary { default_value } => values_are_same_in_use(
            left.field("content"@),
            right.field("content"@),
            *default_value,
        ),
        _ => left == right,
    }
}

/// The settings do not depend on the branches that are not in use.
pub proof fn law_branches_out_of_use_do_not_matter(
    left: JsonTree,
    right: JsonTree,
    schema: SchemaNode,
)
    requires
        is_same_in_use(left, right, schema),
    ensures
        settings_of(left, schema) == settings_of(right, schema),
        is_convertible(left, schema) == is_convertible(right, schema),
    decreases schema,
{
    match schema {
        SchemaNode::Section(entries) => {
            assert forall|i: int| #![trigger entries@[i]] 0 <= i < entries@.len() implies
                settings_of(left.field(entries@[i].name@), entries@[i].content) == settings_of(
                right.field(entries@[i].name@),
                entries@[i].content,
            ) && is_convertible(left.field(entries@[i].name@), entries@[i].content)
                == is_convertible(right.field(entries@[i].name@), entries@[i].content) by {
                let entry = entries@[i];
                assert(decreases_to!(entries => entries@));
                assert(decreases_to!(entries@ => entries@[i]));
                assert(decreases_to!(entry => entry.content));
                law_branches_out_of_use_do_not_matter(
                    left.field(entry.name@),
                    right.field(entry.name@),
                    entry.content,
                );
            }
            lemma_entries_have_the_same_settings(left, right, entries@);
        },
        SchemaNode::Choice { variants } => {
            assert(variant_is_same_in_use(left, right, variants@));
            let name = left.field("variant"@)->Text_0;
            let i = variant_index(variants@, name);
            if has_variant(variants@, name) && 0 <= i < variants@.len()
                && variants@[i].content is Some {
                let variant = variants@[i];
                assert(decreases_to!(variants => variants@));
                assert(decreases_to!(variants@ => variants@[i]));
                assert(decreases_to!(variant => variant.content));
                assert(decreases_to!(variant.content => variant.content->0));
                law_branches_out_of_use_do_not_matter(
                    left.field(name),
                    right.field(name),
                    variant.content->0,
                );
            }
            assert(settings_of_variant(left, name, variants@) == settings_of_variant(
                right,
                name,
                variants@,
            ));
            assert(variant_is_convertible(left, variants@) == variant_is_convertible(
                right,
                variants@,
            ));
        },
        SchemaNode::Optional { content } => {
            if left.field("set"@) == JsonTree::Bool(true) {
                law_branches_out_of_use_do_not_matter(
                    left.field("content"@),
                    right.field("content"@),
                    *content,
                );
            }
        },
        SchemaNode::Switch { content } => {
            if left.field("enabled"@) == JsonTree::Bool(true) {
                law_branches_out_of_use_do_not_matter(
                    left.field("content"@),
                    right.field("content"@),
                    *content,
                );
            }
        },
        SchemaNode::Array(items) => {
            assert forall|i: int| #![trigger items@[i]] 0 <= i < items@.len() implies settings_of(
                left.item(i),
                items@[i],
            ) == settings_of(right.item(i), items@[i]) && is_convertible(left.item(i), items@[i])
                == is_convertible(right.item(i), items@[i]) by {
                assert(decreases_to!(items => items@));
                assert(decreases_to!(items@ => items@[i]));
                law_branches_out_of_use_do_not_matter(left.item(i), right.item(i), items@[i]);
            }
            assert(settings_of(left, schema)->Array_0 =~= settings_of(right, schema)->Array_0);
        },
        SchemaNode::Vector { default_element } => {
            let left_content = left.field("content"@);
            let right_content = right.field("content"@);
            assert(elements_are_same_in_use(left_content, right_content, *default_element));
            if left_content != right_content {
                let (lefts, rights) = (left_content->Array_0, right_content->Array_0);
                assert forall|i: int| #![trigger lefts[i]] #![trigger rights[i]]
                    0 <= i < lefts.len() implies settings_of(lefts[i], *default_element)
                    == settings_of(rights[i], *default_element) && is_convertible(
                    lefts[i],
                    *default_element,
                ) == is_convertible(rights[i], *default_element) by {
                    law_branches_out_of_use_do_not_matter(lefts[i], rights[i], *default_element);
                }
                assert(settings_of(left, schema)->Array_0 =~= settings_of(right, schema)->Array_0);
            }
        },
        SchemaNode::Dictionary { default_value } => {
            let left_content = left.field("content"@);
            let right_content = right.field("content"@);
            assert(values_are_same_in_use(left_content, right_content, *default_value));
            if left_content != right_content {
                let (lefts, rights) = (left_content->Array_0, right_content->Array_0);
                assert forall|i: int| #![trigger lefts[i]] #![trigger rights[i]]
                    0 <= i < lefts.len() implies {
                    &&& is_pair(lefts[i]) && is_pair(rights[i])
                    &&& lefts[i].item(0) == rights[i].item(0)
                    &&& settings_of(lefts[i].item(1), *default_value) == settings_of(
                        rights[i].item(1),
                        *default_value,
                    )
                    &&& is_convertible(lefts[i].item(1), *default_value) == is_convertible(
                        rights[i].item(1),
                        *default_value,
                    )
                } by {
                    law_branches_out_of_use_do_not_matter(
                        lefts[i].item(1),
                        rights[i].item(1),
                        *default_value,
                    );
                }
                assert(settings_of(left, schema)->Array_0 =~= settings_of(right, schema)->Array_0);
            }
        },
        _ => {},
    }
}

proof fn lemma_entries_have_the_same_settings(
    left: JsonTree,
    right: JsonTree,
    entries: Seq<SchemaEntry>,
)
    requires
        forall|i: int| #![trigger entries[i]]
            0 <= i < entries.len() ==> settings_of(left.field(entries[i].name@), entries[i].content)
                == settings_of(right.field(entries[i].name@), entries[i].content),
    ensures
        settings_of_entries(left, entries) == settings_of_entries(right, entries),
    decreases entries.len(),
{
    if entries.len() > 0 {
        let before = entries.drop_last();
        assert forall|i: int| #![trigger before[i]] 0 <= i < before.len() implies settings_of(
            left.field(before[i].name@),
            before[i].content,
        ) == settings_of(right.field(before[i].name@), before[i].content) by {
            assert(before[i] == entries[i]);
        }
        lemma_entries_have_the_same_settings(left, right, before);
        assert(entries.last() == entries[entries.len() - 1]);
    }
}

} // verus!
