//! What each kind of session setting stands for.

use crate::json::JsonTree;
use crate::schema::{
    has_variant, lemma_variant_index, variant_index, SchemaNode, SchemaVariant,
};
use crate::settings::{is_convertible, is_pair, settings_of, settings_of_variant};
use crate::settings_laws::{
    conforms, elements_are_same_in_use, entries_are_distinct, is_content_of_dictionary,
    is_content_of_vector, is_same_in_use, lemma_settings_names, lemma_settings_value,
    names_are_distinct, values_are_same_in_use, variant_is_same_in_use, variants_are_distinct,
};
use vstd::prelude::*;

verus! {

/// Of variants with different names, at most one has a given name.
proof fn lemma_only_variant(variants: Seq<SchemaVariant>, name: Seq<char>)
    requires
        variants_are_distinct(variants),
    ensures
        forall|i: int|
            0 <= i < variants.len() && (#[trigger] variants[i]).name@ == name ==> has_variant(
                variants,
                name,
            ) && variant_index(variants, name) == i,
{
    assert forall|i: int| 0 <= i < variants.len() && (#[trigger] variants[i]).name@ == name implies
        has_variant(variants, name) && variant_index(variants, name) == i by {
        assert(has_variant(variants, name));
        lemma_variant_index(variants, name);
        let index = variant_index(variants, name);
        if index < i {
            assert(variants[index].name@ != variants[i].name@);
        } else if i < index {
            assert(variants[i].name@ != variants[index].name@);
        }
    }
}

/// The settings of a section are those of its fields, each under its name, and nothing else.
pub proof fn law_section_stands_for_its_fields(
    session_settings: JsonTree,
    schema: SchemaNode,
    i: int,
    name: Seq<char>,
)
    requires
        schema is Section,
        entries_are_distinct(schema->Section_0@),
    ensures
        ({
            let settings = settings_of(session_settings, schema);
            let entry = schema->Section_0@[i];
            &&& settings is Object
            &&& settings->Object_0.contains_key(name) <==> exists|j: int|
                0 <= j < schema->Section_0@.len() && (#[trigger] schema->Section_0@[j]).name@
                    == name
            &&& 0 <= i < schema->Section_0@.len() ==> settings->Object_0[entry.name@]
                == settings_of(session_settings.field(entry.name@), entry.content)
        }),
{
    lemma_settings_names(session_settings, schema->Section_0@, name);
    if 0 <= i < schema->Section_0@.len() {
        lemma_settings_value(session_settings, schema->Section_0@, i);
    }
}

/// A choice stands for the variant that is chosen: its name, with its data if it has any. A name
/// that no variant has stands for itself.
pub proof fn law_choice_stands_for_its_variant(
    session_settings: JsonTree,
    schema: SchemaNode,
    name: Seq<char>,
    i: int,
)
    requires
        schema is Choice,
        variants_are_distinct(schema->variants@),
        session_settings.field("variant"@) == JsonTree::Text(name),
    ensures
        ({
            let settings = settings_of(session_settings, schema);
            let variant = schema->variants@[i];
            &&& 0 <= i < schema->variants@.len() && variant.name@ == name
                ==> match variant.content {
                Some(content) => settings == JsonTree::Object(
                    map![name => settings_of(session_settings.field(name), content)],
                ),
                None => settings == JsonTree::Text(name),
            }
            &&& (forall|j: int|
                0 <= j < schema->variants@.len() ==> (#[trigger] schema->variants@[j]).name@
                    != name) ==> settings == JsonTree::Text(name)
        }),
{
    let variants = schema->variants@;
    lemma_only_variant(variants, name);
    if has_variant(variants, name) {
        lemma_variant_index(variants, name);
    }
    assert(settings_of(session_settings, schema) == settings_of_variant(
        session_settings,
        name,
        variants,
    ));
}

/// A setting that is set stands for its content, and one that is not for nothing.
pub proof fn law_optional_setting_stands_for_its_content(
    session_settings: JsonTree,
    schema: SchemaNode,
    set: bool,
)
    requires
        schema is Optional,
        session_settings.field("set"@) == JsonTree::Bool(set),
    ensures
        settings_of(session_settings, schema) == if set {
            settings_of(session_settings.field("content"@), *schema->Optional_content)
        } else {
            JsonTree::Null
        },
{
}

/// A switch that is on stands for its content under the name `Enabled`, and one that is off for the
/// text `Disabled`.
pub proof fn law_switch_stands_for_its_content(
    session_settings: JsonTree,
    schema: SchemaNode,
    enabled: bool,
)
    requires
        schema is Switch,
        session_settings.field("enabled"@) == JsonTree::Bool(enabled),
    ensures
        settings_of(session_settings, schema) == if enabled {
            JsonTree::Object(
                map![
                    "Enabled"@ => settings_of(
                        session_settings.field("content"@),
                        *schema->Switch_content,
                    ),
                ],
            )
        } else {
            JsonTree::Text("Disabled"@)
        },
{
}

/// True and false, numbers and texts stand for themselves.
pub proof fn law_plain_settings_stand_for_themselves(
    session_settings: JsonTree,
    schema: SchemaNode,
)
    requires
        schema is Boolean || schema is Number || schema is Text,
    ensures
        settings_of(session_settings, schema) == session_settings,
{
}

/// An array stands for as many settings as its schema has, each of them for the item at its place.
pub proof fn law_array_stands_for_its_items(
    session_settings: JsonTree,
    schema: SchemaNode,
    i: int,
)
    requires
        schema is Array,
    ensures
        ({
            let settings = settings_of(session_settings, schema);
            &&& settings is Array
            &&& settings->Array_0.len() == schema->Array_0@.len()
            &&& 0 <= i < schema->Array_0@.len() ==> settings->Array_0[i] == settings_of(
                session_settings.item(i),
                schema->Array_0@[i],
            )
        }),
{
}

/// A vector stands for the settings of the elements of its content, as many, and in their order.
pub proof fn law_vector_stands_for_its_elements(
    session_settings: JsonTree,
    elements: Seq<JsonTree>,
    schema: SchemaNode,
    i: int,
)
    requires
        schema is Vector,
        session_settings.field("content"@) == JsonTree::Array(elements),
    ensures
        ({
            let settings = settings_of(session_settings, schema);
            &&& settings is Array
            &&& settings->Array_0.len() == elements.len()
            &&& 0 <= i < elements.len() ==> settings->Array_0[i] == settings_of(
                elements[i],
                *schema->default_element,
            )
        }),
{
}

/// A dictionary stands for as many entries as its content has, in their order: each of them is the
/// key of the entry at its place, with the settings of the value of that entry.
pub proof fn law_dictionary_stands_for_its_entries(
    session_settings: JsonTree,
    entries: Seq<JsonTree>,
    key: JsonTree,
    value: JsonTree,
    schema: SchemaNode,
    i: int,
)
    requires
        schema is Dictionary,
        session_settings.field("content"@) == JsonTree::Array(entries),
    ensures
        ({
            let settings = settings_of(session_settings, schema);
            &&& settings is Array
            &&& settings->Array_0.len() == entries.len()
            &&& 0 <= i < entries.len() && entries[i] == JsonTree::Array(seq![key, value])
                ==> settings->Array_0[i] == JsonTree::Array(
                seq![key, settings_of(value, *schema->default_value)],
            )
        }),
{
    if 0 <= i < entries.len() && entries[i] == JsonTree::Array(seq![key, value]) {
        assert(entries[i].item(0) == key);
        assert(entries[i].item(1) == value);
    }
}

/// Session settings can be turned into settings if it is said of each part what is in use, and if
/// what is in use can be turned into settings. The content of a dictionary is made up of entries
/// that have a text and a value, and nothing more. There are no settings of an unsupported kind.
pub proof fn law_settings_are_convertible_part_by_part(
    session_settings: JsonTree,
    schema: SchemaNode,
)
    requires
        schema is Choice ==> variants_are_distinct(schema->variants@),
    ensures
        is_convertible(session_settings, schema) <==> match schema {
            SchemaNode::Section(entries) => forall|i: int|
                0 <= i < entries@.len() ==> is_convertible(
                    session_settings.field((#[trigger] entries@[i]).name@),
                    entries@[i].content,
                ),
            SchemaNode::Choice { variants } => {
                &&& session_settings.field("variant"@) is Text
                &&& forall|i: int|
                    0 <= i < variants@.len() && session_settings.field("variant"@)
                        == JsonTree::Text((#[trigger] variants@[i]).name@)
                        && variants@[i].content is Some ==> is_convertible(
                        session_settings.field(variants@[i].name@),
                        variants@[i].content->0,
                    )
            },
            SchemaNode::Optional { content } => session_settings.field("set"@) == JsonTree::Bool(
                false,
            ) || session_settings.field("set"@) == JsonTree::Bool(true) && is_convertible(
                session_settings.field("content"@),
                *content,
            ),
            SchemaNode::Switch { content } => session_settings.field("enabled"@)
                == JsonTree::Bool(false) || session_settings.field("enabled"@) == JsonTree::Bool(
                true,
            ) && is_convertible(session_settings.field("content"@), *content),
            SchemaNode::Array(items) => forall|i: int|
                0 <= i < items@.len() ==> is_convertible(
                    session_settings.item(i),
                    #[trigger] items@[i],
                ),
            SchemaNode::Vector { default_element } => {
                let content = session_settings.field("content"@);
                &&& content is Array
                &&& forall|i: int|
                    0 <= i < content->Array_0.len() ==> is_convertible(
                        #[trigger] content->Array_0[i],
                        *default_element,
                    )
            },
            SchemaNode::Dictionary { default_value } => {
                let content = session_settings.field("content"@);
                &&& content is Array
                &&& forall|i: int|
                    0 <= i < content->Array_0.len() ==> {
                        let entry = #[trigger] content->Array_0[i];
                        &&& entry is Array
                        &&& entry->Array_0.len() == 2
                        &&& entry->Array_0[0] is Text
                        &&& is_convertible(entry->Array_0[1], *default_value)
                    }
            },
            SchemaNode::Unsupported => false,
            _ => true,
        },
{
    reveal_with_fuel(is_convertible, 2);
    if schema is Choice && session_settings.field("variant"@) is Text {
        let variants = schema->variants@;
        let name = session_settings.field("variant"@)->Text_0;
        lemma_only_variant(variants, name);
        if has_variant(variants, name) {
            lemma_variant_index(variants, name);
        }
    }
}

/// No setting that may be left unset holds nothing but another one of that kind: the two could not
/// be told apart in the settings.
pub open spec fn options_are_not_nested(schema: SchemaNode) -> bool
    decreases schema,
{
    match schema {
        SchemaNode::Section(entries) => forall|i: int| #![trigger entries@[i]]
            0 <= i < entries@.len() ==> options_are_not_nested(entries@[i].content),
        SchemaNode::Choice { variants } => forall|i: int| #![trigger variants@[i]]
            0 <= i < variants@.len() ==> match variants@[i].content {
                Some(content) => options_are_not_nested(content),
                None => true,
            },
        SchemaNode::Optional { content } => !(*content is Optional) && options_are_not_nested(
            *content,
        ),
        SchemaNode::Switch { content } => options_are_not_nested(*content),
        SchemaNode::Array(items) => forall|i: int| #![trigger items@[i]]
            0 <= i < items@.len() ==> options_are_not_nested(items@[i]),
        SchemaNode::Vector { default_element } => options_are_not_nested(*default_element),
        SchemaNode::Dictionary { default_value } => options_are_not_nested(*default_value),
        _ => true,
    }
}

/// Session settings of the right shape stand for something, unless they may be left unset.
proof fn lemma_settings_are_not_null(session_settings: JsonTree, schema: SchemaNode)
    requires
        conforms(session_settings, schema),
        !(schema is Optional),
    ensures
        !(settings_of(session_settings, schema) is Null),
{
    if let SchemaNode::Choice { variants } = schema {
        let name = session_settings.field("variant"@)->Text_0;
        assert(settings_of(session_settings, schema) == settings_of_variant(
            session_settings,
            name,
            variants@,
        ));
    }
}

/// Session settings that differ in a branch that is in use stand for different settings: a key, an
/// element, a flag, a number or a text that is in use can be told from the settings.
pub proof fn law_settings_tell_what_is_in_use(left: JsonTree, right: JsonTree, schema: SchemaNode)
    requires
        conforms(left, schema),
        conforms(right, schema),
        names_are_distinct(schema),
        options_are_not_nested(schema),
        settings_of(left, schema) == settings_of(right, schema),
    ensures
        is_same_in_use(left, right, schema),
    decreases schema,
{
    let settings = settings_of(left, schema);
    match schema {
        SchemaNode::Section(entries) => {
            assert forall|i: int| #![trigger entries@[i]] 0 <= i < entries@.len() implies
                is_same_in_use(
                left.field(entries@[i].name@),
                right.field(entries@[i].name@),
                entries@[i].content,
            ) by {
                let entry = entries@[i];
                assert(decreases_to!(entries => entries@));
                assert(decreases_to!(entries@ => entries@[i]));
                assert(decreases_to!(entry => entry.content));
                lemma_settings_value(left, entries@, i);
                lemma_settings_value(right, entries@, i);
                law_settings_tell_what_is_in_use(
                    left.field(entry.name@),
                    right.field(entry.name@),
                    entry.content,
                );
            }
        },
        SchemaNode::Choice { variants } => {
            let left_name = left.field("variant"@)->Text_0;
            let right_name = right.field("variant"@)->Text_0;
            let i = variant_index(variants@, left_name);
            lemma_variant_index(variants@, left_name);
            lemma_variant_index(variants@, right_name);
            assert(settings == settings_of_variant(left, left_name, variants@));
            assert(settings == settings_of_variant(right, right_name, variants@));
            if settings is Object {
                assert(settings->Object_0.contains_key(left_name));
            }
            assert(left_name == right_name);
            if let Some(content) = variants@[i].content {
                let variant = variants@[i];
                assert(decreases_to!(variants => variants@));
                assert(decreases_to!(variants@ => variants@[i]));
                assert(decreases_to!(variant => variant.content));
                assert(decreases_to!(variant.content => variant.content->0));
                assert(settings->Object_0[left_name] == settings_of(
                    left.field(left_name),
                    content,
                ));
                assert(settings->Object_0[left_name] == settings_of(
                    right.field(left_name),
                    content,
                ));
                law_settings_tell_what_is_in_use(
                    left.field(left_name),
                    right.field(left_name),
                    content,
                );
            }
            assert(variant_is_same_in_use(left, right, variants@));
        },
        SchemaNode::Optional { content } => {
            lemma_settings_are_not_null(left.field("content"@), *content);
            lemma_settings_are_not_null(right.field("content"@), *content);
            if left.field("set"@) == JsonTree::Bool(true) {
                law_settings_tell_what_is_in_use(
                    left.field("content"@),
                    right.field("content"@),
                    *content,
                );
            }
        },
        SchemaNode::Switch { content } => {
            if left.field("enabled"@) == JsonTree::Bool(true) {
                assert(settings->Object_0["Enabled"@] == settings_of(
                    left.field("content"@),
                    *content,
                ));
                assert(settings->Object_0["Enabled"@] == settings_of(
                    right.field("content"@),
                    *content,
                ));
                law_settings_tell_what_is_in_use(
                    left.field("content"@),
                    right.field("content"@),
                    *content,
                );
            }
        },
        SchemaNode::Array(items) => {
            assert forall|i: int| #![trigger items@[i]] 0 <= i < items@.len() implies
                is_same_in_use(left.item(i), right.item(i), items@[i]) by {
                assert(decreases_to!(items => items@));
                assert(decreases_to!(items@ => items@[i]));
                assert(settings->Array_0[i] == settings_of(left.item(i), items@[i]));
                assert(settings->Array_0[i] == settings_of(right.item(i), items@[i]));
                law_settings_tell_what_is_in_use(left.item(i), right.item(i), items@[i]);
            }
        },
        SchemaNode::Vector { default_element } => {
            let (lefts, rights) = (
                left.field("content"@)->Array_0,
                right.field("content"@)->Array_0,
            );
            assert(is_content_of_vector(left.field("content"@), *default_element));
            assert(is_content_of_vector(right.field("content"@), *default_element));
            assert(settings->Array_0.len() == lefts.len());
            assert(settings->Array_0.len() == rights.len());
            assert forall|i: int| #![trigger lefts[i]] 0 <= i < lefts.len() implies
                is_same_in_use(lefts[i], rights[i], *default_element) by {
                assert(settings->Array_0[i] == settings_of(lefts[i], *default_element));
                assert(settings->Array_0[i] == settings_of(rights[i], *default_element));
                law_settings_tell_what_is_in_use(lefts[i], rights[i], *default_element);
            }
            assert(elements_are_same_in_use(
                left.field("content"@),
                right.field("content"@),
                *default_element,
            ));
        },
        SchemaNode::Dictionary { default_value } => {
            let (lefts, rights) = (
                left.field("content"@)->Array_0,
                right.field("content"@)->Array_0,
            );
            assert(is_content_of_dictionary(left.field("content"@), *default_value));
            assert(is_content_of_dictionary(right.field("content"@), *default_value));
            assert(settings->Array_0.len() == lefts.len());
            assert(settings->Array_0.len() == rights.len());
            assert forall|i: int| #![trigger lefts[i]] 0 <= i < lefts.len() implies {
                &&& is_pair(lefts[i]) && is_pair(rights[i])
                &&& lefts[i].item(0) == rights[i].item(0)
                &&& is_same_in_use(lefts[i].item(1), rights[i].item(1), *default_value)
            } by {
                let entry = settings->Array_0[i]->Array_0;
                assert(entry[0] == lefts[i].item(0));
                assert(entry[0] == rights[i].item(0));
                assert(entry[1] == settings_of(lefts[i].item(1), *default_value));
                assert(entry[1] == settings_of(rights[i].item(1), *default_value));
                assert(is_pair(rights[i]));
                law_settings_tell_what_is_in_use(
                    lefts[i].item(1),
                    rights[i].item(1),
                    *default_value,
                );
            }
            assert(values_are_same_in_use(
                left.field("content"@),
                right.field("content"@),
                *default_value,
            ));
        },
        _ => {},
    }
}

} // verus!
