//! Turning session settings, which hold every branch, into settings, which hold the branches in
//! use.

use crate::extrapolation::item_or_null;
use crate::json::{fields_tree, items_tree, lemma_field_is_added, Json, JsonTree};
use crate::schema::{
    find_variant, has_variant, variant_index, SchemaEntry, SchemaNode, SchemaVariant,
};
use vstd::prelude::*;

verus! {

/// The settings of the fields of a section.
pub open spec fn settings_of_entries(
    session_settings: JsonTree,
    entries: Seq<SchemaEntry>,
) -> Map<Seq<char>, JsonTree>
    decreases entries,
{
    if entries.len() == 0 {
        Map::empty()
    } else {
        let entry = entries.last();
        settings_of_entries(session_settings, entries.drop_last()).insert(
            entry.name@,
            settings_of(session_settings.field(entry.name@), entry.content),
        )
    }
}

/// The settings of a variant, whose data is in a field of its name. A variant without data, and
/// a name that no variant has, stands for itself.
pub open spec fn settings_of_variant(
    session_settings: JsonTree,
    variant: Seq<char>,
    variants: Seq<SchemaVariant>,
) -> JsonTree
    decreases variants,
{
    let index = variant_index(variants, variant);
    if has_variant(variants, variant) && 0 <= index < variants.len()
        && variants[index].content is Some {
        JsonTree::Object(
            map![
                variant => settings_of(
                    session_settings.field(variant),
                    variants[index].content->0,
                ),
            ],
        )
    } else {
        JsonTree::Text(variant)
    }
}

/// The settings that session settings of the right shape stand for.
pub open spec fn settings_of(session_settings: JsonTree, schema: SchemaNode) -> JsonTree
    decreases schema,
{
    match schema {
        SchemaNode::Section(entries) => JsonTree::Object(
            settings_of_entries(session_settings, entries@),
        ),
        SchemaNode::Choice { variants } => settings_of_variant(
            session_settings,
            session_settings.field("variant"@)->Text_0,
            variants@,
        ),
        SchemaNode::Optional { content } => if session_settings.field("set"@) == JsonTree::Bool(
            true,
        ) {
            settings_of(session_settings.field("content"@), *content)
        } else {
            JsonTree::Null
        },
        SchemaNode::Switch { content } => if session_settings.field("enabled"@) == JsonTree::Bool(
            true,
        ) {
            JsonTree::Object(
                map!["Enabled"@ => settings_of(session_settings.field("content"@), *content)],
            )
        } else {
            JsonTree::Text("Disabled"@)
        },
        SchemaNode::Array(items) => JsonTree::Array(
            Seq::new(
                items@.len(),
                |i: int|
                    if 0 <= i < items@.len() {
                        settings_of(session_settings.item(i), items@[i])
                    } else {
                        JsonTree::Null
                    },
            ),
        ),
        SchemaNode::Vector { default_element } => {
            let content = session_settings.field("content"@)->Array_0;
            JsonTree::Array(
                Seq::new(content.len(), |i: int| settings_of(content[i], *default_element)),
            )
        },
        SchemaNode::Dictionary { default_value } => {
            let content = session_settings.field("content"@)->Array_0;
            JsonTree::Array(
                Seq::new(
                    content.len(),
                    |i: int|
                        JsonTree::Array(
                            seq![
                                content[i].item(0),
                                settings_of(content[i].item(1), *default_value),
                            ],
                        ),
                ),
            )
        },
        _ => session_settings,
    }
}

/// The name of the chosen variant is given, and the data of that variant can be turned into
/// settings.
pub open spec fn variant_is_convertible(
    session_settings: JsonTree,
    variants: Seq<SchemaVariant>,
) -> bool
    decreases variants,
{
    match session_settings.field("variant"@) {
        JsonTree::Text(variant) => {
            let index = variant_index(variants, variant);
            has_variant(variants, variant) && 0 <= index < variants.len()
                && variants[index].content is Some ==> is_convertible(
                session_settings.field(variant),
                variants[index].content->0,
            )
        },
        _ => false,
    }
}

/// A key and a value.
pub open spec fn is_pair(item: JsonTree) -> bool {
    item is Array && item->Array_0.len() == 2 && item->Array_0[0] is Text
}

/// The session settings can be turned into settings: what says which branches are in use has
/// the right type.
pub open spec fn is_convertible(session_settings: JsonTree, schema: SchemaNode) -> bool
    decreases schema,
{
    match schema {
        SchemaNode::Section(entries) => forall|i: int| #![trigger entries@[i]]
            0 <= i < entries@.len() ==> is_convertible(
                session_settings.field(entries@[i].name@),
                entries@[i].content,
            ),
        SchemaNode::Choice { variants } => variant_is_convertible(session_settings, variants@),
        SchemaNode::Optional { content } => match session_settings.field("set"@) {
            JsonTree::Bool(set) => set ==> is_convertible(
                session_settings.field("content"@),
                *content,
            ),
            _ => false,
        },
        SchemaNode::Switch { content } => match session_settings.field("enabled"@) {
            JsonTree::Bool(enabled) => enabled ==> is_convertible(
                session_settings.field("content"@),
                *content,
            ),
            _ => false,
        },
        SchemaNode::Array(items) => forall|i: int| #![trigger items@[i]]
            0 <= i < items@.len() ==> is_convertible(session_settings.item(i), items@[i]),
        SchemaNode::Vector { default_element } => match session_settings.field("content"@) {
            JsonTree::Array(content) => forall|i: int| #![trigger content[i]]
                0 <= i < content.len() ==> is_convertible(content[i], *default_element),
            _ => false,
        },
        SchemaNode::Dictionary { default_value } => match session_settings.field("content"@) {
            JsonTree::Array(content) => forall|i: int| #![trigger content[i]]
                0 <= i < content.len() ==> is_pair(content[i]) && is_convertible(
                    content[i].item(1),
                    *default_value,
                ),
            _ => false,
        },
        SchemaNode::Unsupported => false,
        _ => true,
    }
}

/// An object with one field.
fn one_field(name: &str, value: Json) -> (object: Json)
    ensures
        object.tree() == JsonTree::Object(map![name@ => value.tree()]),
{
    let mut fields: Vec<(String, Json)> = Vec::new();
    fields.push((name.to_owned(), value));
    proof {
        lemma_field_is_added(Seq::empty(), fields@[0]);
        assert(Seq::empty().push(fields@[0]) =~= fields@);
        assert(fields_tree(fields@) =~= map![name@ => value.tree()]);
    }
    Json::Object(fields)
}

/// The settings of a field of an object.
fn field_to_settings(session_settings: &Json, name: &str, schema: &SchemaNode) -> (settings: Json)
    requires
        is_convertible(session_settings.tree().field(name@), *schema),
    ensures
        settings.tree() == settings_of(session_settings.tree().field(name@), *schema),
    decreases schema, 1int,
{
    match session_settings.get(name) {
        Some(value) => json_session_settings_to_settings(value, schema),
        None => {
            let null = Json::Null;
            json_session_settings_to_settings(&null, schema)
        },
    }
}

/// Turns session settings into settings. The session settings have the right shape.
pub fn json_session_settings_to_settings(session_settings: &Json, schema: &SchemaNode) -> (settings:
    Json)
    requires
        is_convertible(session_settings.tree(), *schema),
    ensures
        settings.tree() == settings_of(session_settings.tree(), *schema),
    decreases schema, 0int,
{
    let ghost tree = session_settings.tree();
    match schema {
        SchemaNode::Section(entries) => {
            let mut fields: Vec<(String, Json)> = Vec::new();
            let mut i: usize = 0;
            assert(entries@.take(0) =~= Seq::empty());
            while i < entries.len()
                invariant
                    i <= entries@.len(),
                    *schema == SchemaNode::Section(*entries),
                    tree == session_settings.tree(),
                    is_convertible(tree, *schema),
                    fields_tree(fields@) == settings_of_entries(tree, entries@.take(i as int)),
                decreases entries@.len() - i,
            {
                let entry = &entries[i];
                let ghost before = fields@;
                assert(decreases_to!(schema => schema->Section_0));
                assert(decreases_to!(entries => entries@));
                assert(decreases_to!(entries@ => entries@[i as int]));
                assert(decreases_to!(entry => entry.content));
                let value = field_to_settings(
                    session_settings,
                    entry.name.as_str(),
                    &entry.content,
                );
                fields.push((entry.name.clone(), value));
                proof {
                    lemma_field_is_added(before, fields@.last());
                    assert(entries@.take(i + 1).drop_last() =~= entries@.take(i as int));
                }
                i += 1;
            }
            assert(entries@.take(i as int) =~= entries@);
            Json::Object(fields)
        },
        SchemaNode::Choice { variants } => match session_settings.get("variant") {
            Some(Json::Text(name)) => {
                assert(variant_is_convertible(tree, variants@));
                let mut settings = Json::Text(name.clone());
                if let Some(index) = find_variant(variants, name) {
                    if let Some(content) = &variants[index].content {
                        let ghost variant = variants@[index as int];
                        assert(decreases_to!(schema => schema->variants));
                        assert(decreases_to!(variants => variants@));
                        assert(decreases_to!(variants@ => variants@[index as int]));
                        assert(decreases_to!(variant => variant.content));
                        assert(decreases_to!(variant.content => variant.content->0));
                        let value = field_to_settings(session_settings, name.as_str(), content);
                        settings = one_field(name.as_str(), value);
                    }
                }
                assert(settings.tree() == settings_of_variant(tree, name@, variants@));
                settings
            },
            _ => Json::Null,
        },
        SchemaNode::Optional { content } => match session_settings.get("set") {
            Some(Json::Bool(true)) => field_to_settings(session_settings, "content", content),
            _ => Json::Null,
        },
        SchemaNode::Switch { content } => match session_settings.get("enabled") {
            Some(Json::Bool(true)) => {
                let value = field_to_settings(session_settings, "content", content);
                one_field("Enabled", value)
            },
            _ => Json::Text("Disabled".to_owned()),
        },
        SchemaNode::Array(schemas) => {
            let mut items: Vec<Json> = Vec::new();
            let mut i: usize = 0;
            while i < schemas.len()
                invariant
                    i <= schemas@.len(),
                    *schema == SchemaNode::Array(*schemas),
                    tree == session_settings.tree(),
                    is_convertible(tree, *schema),
                    items@.len() == i,
                    forall|j: int|
                        0 <= j < i ==> (#[trigger] items@[j]).tree() == settings_of(
                            tree.item(j),
                            schemas@[j],
                        ),
                decreases schemas@.len() - i,
            {
                assert(decreases_to!(schema => schema->Array_0));
                assert(decreases_to!(schemas => schemas@));
                assert(decreases_to!(schemas@ => schemas@[i as int]));
                let item = item_or_null(session_settings, i);
                items.push(json_session_settings_to_settings(&item, &schemas[i]));
                i += 1;
            }
            assert(items_tree(items@) =~= settings_of(tree, *schema)->Array_0);
            Json::Array(items)
        },
        SchemaNode::Vector { default_element } => {
            let mut items: Vec<Json> = Vec::new();
            if let Some(Json::Array(content)) = session_settings.get("content") {
                let mut i: usize = 0;
                while i < content.len()
                    invariant
                        i <= content@.len(),
                        *schema == (SchemaNode::Vector { default_element: *default_element }),
                        tree == session_settings.tree(),
                        tree.field("content"@) == JsonTree::Array(items_tree(content@)),
                        is_convertible(tree, *schema),
                        items@.len() == i,
                        forall|j: int|
                            0 <= j < i ==> (#[trigger] items@[j]).tree() == settings_of(
                                content@[j].tree(),
                                **default_element,
                            ),
                    decreases content@.len() - i,
                {
                    assert(items_tree(content@)[i as int] == content@[i as int].tree());
                    items.push(json_session_settings_to_settings(&content[i], default_element));
                    i += 1;
                }
                assert(items_tree(items@) =~= settings_of(tree, *schema)->Array_0);
            }
            Json::Array(items)
        },
        SchemaNode::Dictionary { default_value } => {
            let mut items: Vec<Json> = Vec::new();
            if let Some(Json::Array(content)) = session_settings.get("content") {
                let mut i: usize = 0;
                while i < content.len()
                    invariant
                        i <= content@.len(),
                        *schema == (SchemaNode::Dictionary { default_value: *default_value }),
                        tree == session_settings.tree(),
                        tree.field("content"@) == JsonTree::Array(items_tree(content@)),
                        is_convertible(tree, *schema),
                        items@.len() == i,
                        forall|j: int|
                            0 <= j < i ==> (#[trigger] items@[j]).tree() == JsonTree::Array(
                                seq![
                                    content@[j].tree().item(0),
                                    settings_of(content@[j].tree().item(1), **default_value),
                                ],
                            ),
                    decreases content@.len() - i,
                {
                    assert(items_tree(content@)[i as int] == content@[i as int].tree());
                    let key = item_or_null(&content[i], 0);
                    let value_json = item_or_null(&content[i], 1);
                    let value = json_session_settings_to_settings(&value_json, default_value);
                    let mut pair: Vec<Json> = Vec::new();
                    pair.push(key);
                    pair.push(value);
                    assert(items_tree(pair@) =~= seq![key.tree(), value.tree()]);
                    items.push(Json::Array(pair));
                    i += 1;
                }
                assert(items_tree(items@) =~= settings_of(tree, *schema)->Array_0);
            }
            Json::Array(items)
        },
        _ => session_settings.clone(),
    }
}

/// Tells whether a field of an object can be turned into settings.
fn can_convert_field(session_settings: &Json, name: &str, schema: &SchemaNode) -> (possible: bool)
    ensures
        possible == is_convertible(session_settings.tree().field(name@), *schema),
    decreases schema, 1int,
{
    match session_settings.get(name) {
        Some(value) => can_convert(value, schema),
        None => {
            let null = Json::Null;
            can_convert(&null, schema)
        },
    }
}

/// Tells whether session settings can be turned into settings.
pub fn can_convert(session_settings: &Json, schema: &SchemaNode) -> (possible: bool)
    ensures
        possible == is_convertible(session_settings.tree(), *schema),
    decreases schema, 0int,
{
    let ghost tree = session_settings.tree();
    match schema {
        SchemaNode::Section(entries) => {
            let mut i: usize = 0;
            while i < entries.len()
                invariant
                    i <= entries@.len(),
                    *schema == SchemaNode::Section(*entries),
                    tree == session_settings.tree(),
                    forall|j: int| #![trigger entries@[j]]
                        0 <= j < i ==> is_convertible(
                            tree.field(entries@[j].name@),
                            entries@[j].content,
                        ),
                decreases entries@.len() - i,
            {
                let entry = &entries[i];
                assert(decreases_to!(schema => schema->Section_0));
                assert(decreases_to!(entries => entries@));
                assert(decreases_to!(entries@ => entries@[i as int]));
                assert(decreases_to!(entry => entry.content));
                if !can_convert_field(session_settings, entry.name.as_str(), &entry.content) {
                    return false;
                }
                i += 1;
            }
            true
        },
        SchemaNode::Choice { variants } => match session_settings.get("variant") {
            Some(Json::Text(name)) => {
                let mut possible: bool = true;
                if let Some(index) = find_variant(variants, name) {
                    if let Some(content) = &variants[index].content {
                        let ghost variant = variants@[index as int];
                        assert(decreases_to!(schema => schema->variants));
                        assert(decreases_to!(variants => variants@));
                        assert(decreases_to!(variants@ => variants@[index as int]));
                        assert(decreases_to!(variant => variant.content));
                        assert(decreases_to!(variant.content => variant.content->0));
                        possible = can_convert_field(session_settings, name.as_str(), content);
                    }
                }
                assert(possible == variant_is_convertible(tree, variants@));
                possible
            },
            _ => {
                assert(!variant_is_convertible(tree, variants@));
                false
            },
        },
        SchemaNode::Optional { content } => match session_settings.get("set") {
            Some(Json::Bool(set)) => !*set || can_convert_field(
                session_settings,
                "content",
                content,
            ),
            _ => false,
        },
        SchemaNode::Switch { content } => match session_settings.get("enabled") {
            Some(Json::Bool(enabled)) => !*enabled || can_convert_field(
                session_settings,
                "content",
                content,
            ),
            _ => false,
        },
        SchemaNode::Array(schemas) => {
            let mut i: usize = 0;
            while i < schemas.len()
                invariant
                    i <= schemas@.len(),
                    *schema == SchemaNode::Array(*schemas),
                    tree == session_settings.tree(),
                    forall|j: int| #![trigger schemas@[j]]
                        0 <= j < i ==> is_convertible(tree.item(j), schemas@[j]),
                decreases schemas@.len() - i,
            {
                assert(decreases_to!(schema => schema->Array_0));
                assert(decreases_to!(schemas => schemas@));
                assert(decreases_to!(schemas@ => schemas@[i as int]));
                let item = item_or_null(session_settings, i);
                if !can_convert(&item, &schemas[i]) {
                    return false;
                }
                i += 1;
            }
            true
        },
        SchemaNode::Vector { default_element } => match session_settings.get("content") {
            Some(Json::Array(content)) => {
                let ghost items = items_tree(content@);
                let mut i: usize = 0;
                while i < content.len()
                    invariant
                        i <= content@.len(),
                        *schema == (SchemaNode::Vector { default_element: *default_element }),
                        items == items_tree(content@),
                        session_settings.tree().field("content"@) == JsonTree::Array(items),
                        forall|j: int| #![trigger items[j]]
                            0 <= j < i ==> is_convertible(items[j], **default_element),
                    decreases content@.len() - i,
                {
                    assert(items[i as int] == content@[i as int].tree());
                    assert(decreases_to!(schema => schema->default_element));
                    if !can_convert(&content[i], default_element) {
                        return false;
                    }
                    i += 1;
                }
                true
            },
            _ => false,
        },
        SchemaNode::Dictionary { default_value } => match session_settings.get("content") {
            Some(Json::Array(content)) => {
                let ghost items = items_tree(content@);
                let mut i: usize = 0;
                while i < content.len()
                    invariant
                        i <= content@.len(),
                        *schema == (SchemaNode::Dictionary { default_value: *default_value }),
                        items == items_tree(content@),
                        session_settings.tree().field("content"@) == JsonTree::Array(items),
                        forall|j: int| #![trigger items[j]]
                            0 <= j < i ==> is_pair(items[j]) && is_convertible(
                                items[j].item(1),
                                **default_value,
                            ),
                    decreases content@.len() - i,
                {
                    assert(items[i as int] == content@[i as int].tree());
                    let value = item_or_null(&content[i], 1);
                    assert(decreases_to!(schema => schema->default_value));
                    if !is_key_and_value(&content[i]) || !can_convert(&value, default_value) {
                        return false;
                    }
                    i += 1;
                }
                true
            },
            _ => false,
        },
        SchemaNode::Unsupported => false,
        _ => true,
    }
}

/// Tells whether an item is a key and a value.
fn is_key_and_value(item: &Json) -> (pair: bool)
    ensures
        pair == is_pair(item.tree()),
{
    match item {
        Json::Array(items) => if items.len() == 2 {
            assert(item.tree()->Array_0[0] == items@[0].tree());
            match &items[0] {
                Json::Text(_) => true,
                _ => false,
            }
        } else {
            false
        },
        _ => false,
    }
}

} // verus!
