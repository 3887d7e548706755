//! Taking over as much as possible of settings that were stored by another version.

use crate::json::{fields_tree, lemma_field_is_added, Json, JsonNumber, JsonTree};
use crate::schema::{
    find_variant, has_variant, NumberType, SchemaEntry, SchemaNode, SchemaVariant,
};
use vstd::prelude::*;

verus! {

/// What becomes of a part of the settings: it is worked out from the new one if there is a new
/// one, and stays as it is otherwise.
pub open spec fn extrapolated_field(
    old: JsonTree,
    new: JsonTree,
    name: Seq<char>,
    schema: SchemaNode,
) -> JsonTree
    decreases schema, 1int,
{
    match new.get(name) {
        Some(new_value) => extrapolated(old.field(name), new_value, schema),
        None => old.field(name),
    }
}

/// What becomes of an item of an array: it is worked out from the new one if there is a new one,
/// and stays as it is otherwise.
pub open spec fn extrapolated_item(
    old: JsonTree,
    new: JsonTree,
    index: int,
    schema: SchemaNode,
) -> JsonTree
    decreases schema, 1int,
{
    match new.get_item(index) {
        Some(new_item) => extrapolated(old.item(index), new_item, schema),
        None => old.item(index),
    }
}

/// What becomes of the fields of a section.
pub open spec fn extrapolated_entries(
    old: JsonTree,
    new: JsonTree,
    entries: Seq<SchemaEntry>,
) -> Map<Seq<char>, JsonTree>
    decreases entries, 0int,
{
    if entries.len() == 0 {
        Map::empty()
    } else {
        let entry = entries.last();
        extrapolated_entries(old, new, entries.drop_last()).insert(
            entry.name@,
            extrapolated_field(old, new, entry.name@, entry.content),
        )
    }
}

/// What becomes of the data of the variants of a choice. All of them have their data, whichever
/// is chosen.
pub open spec fn extrapolated_variants(
    old: JsonTree,
    new: JsonTree,
    variants: Seq<SchemaVariant>,
) -> Map<Seq<char>, JsonTree>
    decreases variants, 0int,
{
    if variants.len() == 0 {
        Map::empty()
    } else {
        let before = extrapolated_variants(old, new, variants.drop_last());
        match variants.last().content {
            Some(content) => before.insert(
                variants.last().name@,
                extrapolated_field(old, new, variants.last().name@, content),
            ),
            None => before,
        }
    }
}

/// Whether a section is collapsed.
pub open spec fn extrapolated_collapsed(old: JsonTree, new: JsonTree) -> JsonTree {
    if new.field("gui_collapsed"@) is Bool {
        new.field("gui_collapsed"@)
    } else {
        old.field("gui_collapsed"@)
    }
}

/// Which variant is chosen: the new one, if there is such a variant.
pub open spec fn extrapolated_variant(
    old: JsonTree,
    new: JsonTree,
    variants: Seq<SchemaVariant>,
) -> JsonTree {
    if new.field("variant"@) is Text && has_variant(variants, new.field("variant"@)->Text_0) {
        new.field("variant"@)
    } else {
        old.field("variant"@)
    }
}

/// A field that has to be true or false.
pub open spec fn extrapolated_flag(old: JsonTree, new: JsonTree, name: Seq<char>) -> JsonTree {
    if new.field(name) is Bool {
        new.field(name)
    } else {
        old.field(name)
    }
}

/// A field that is taken as it is.
pub open spec fn extrapolated_unchecked(old: JsonTree, new: JsonTree, name: Seq<char>) -> JsonTree {
    match new.get(name) {
        Some(new_value) => new_value,
        None => old.field(name),
    }
}

/// The settings that are worked out from old settings, which have the right shape, and new
/// settings, which may have any. A part of the new settings is used where its name and its type
/// are right.
pub open spec fn extrapolated(old: JsonTree, new: JsonTree, schema: SchemaNode) -> JsonTree
    decreases schema, 0int,
{
    match schema {
        SchemaNode::Section(entries) => JsonTree::Object(
            extrapolated_entries(old, new, entries@).insert(
                "gui_collapsed"@,
                extrapolated_collapsed(old, new),
            ),
        ),
        SchemaNode::Choice { variants } => JsonTree::Object(
            extrapolated_variants(old, new, variants@).insert(
                "variant"@,
                extrapolated_variant(old, new, variants@),
            ),
        ),
        SchemaNode::Optional { content } => JsonTree::Object(
            map![
                "set"@ => extrapolated_flag(old, new, "set"@),
                "content"@ => extrapolated_field(old, new, "content"@, *content),
            ],
        ),
        SchemaNode::Switch { content } => JsonTree::Object(
            map![
                "enabled"@ => extrapolated_flag(old, new, "enabled"@),
                "content"@ => extrapolated_field(old, new, "content"@, *content),
            ],
        ),
        SchemaNode::Boolean => if new is Bool {
            new
        } else {
            old
        },
        SchemaNode::Number { ty } => if is_number_of(new, ty) {
            new
        } else {
            old
        },
        SchemaNode::Text => if new is Text {
            new
        } else {
            old
        },
        SchemaNode::Array(items) => JsonTree::Array(
            Seq::new(
                items@.len(),
                |i: int|
                    if 0 <= i < items@.len() {
                        extrapolated_item(old, new, i, items@[i])
                    } else {
                        JsonTree::Null
                    },
            ),
        ),
        SchemaNode::Vector { default_element } => JsonTree::Object(
            map![
                "element"@ => extrapolated_field(old, new, "element"@, *default_element),
                "content"@ => extrapolated_unchecked(old, new, "content"@),
            ],
        ),
        SchemaNode::Dictionary { default_value } => JsonTree::Object(
            map![
                "key"@ => if new.field("key"@) is Text {
                    new.field("key"@)
                } else {
                    old.field("key"@)
                },
                "value"@ => extrapolated_field(old, new, "value"@, *default_value),
                "content"@ => extrapolated_unchecked(old, new, "content"@),
            ],
        ),
        SchemaNode::Unsupported => old,
    }
}

/// A number of that type. An integer is no floating point number, nor the other way round.
pub open spec fn is_number_of(tree: JsonTree, ty: NumberType) -> bool {
    match tree {
        JsonTree::Number(number) => match (ty, number) {
            (NumberType::UnsignedInteger, JsonNumber::PosInt(_)) => true,
            (NumberType::SignedInteger, JsonNumber::PosInt(n)) => n <= i64::MAX,
            (NumberType::SignedInteger, JsonNumber::NegInt(_)) => true,
            (NumberType::Float, JsonNumber::Float(_)) => true,
            _ => false,
        },
        _ => false,
    }
}

/// The part of the settings can be worked out if there is a new one.
pub open spec fn field_is_defined(
    old: JsonTree,
    new: JsonTree,
    name: Seq<char>,
    schema: SchemaNode,
) -> bool
    decreases schema, 1int,
{
    match new.get(name) {
        Some(new_value) => extrapolation_is_defined(old.field(name), new_value, schema),
        None => true,
    }
}

/// The item of an array can be worked out if there is a new one.
pub open spec fn item_is_defined(
    old: JsonTree,
    new: JsonTree,
    index: int,
    schema: SchemaNode,
) -> bool
    decreases schema, 1int,
{
    match new.get_item(index) {
        Some(new_item) => extrapolation_is_defined(old.item(index), new_item, schema),
        None => true,
    }
}

/// The settings can be worked out: of each section that the new settings have it is known, from
/// them or from the old ones, whether it is collapsed.
pub open spec fn extrapolation_is_defined(
    old: JsonTree,
    new: JsonTree,
    schema: SchemaNode,
) -> bool
    decreases schema, 0int,
{
    match schema {
        SchemaNode::Section(entries) => {
            &&& extrapolated_collapsed(old, new) is Bool
            &&& forall|i: int| #![trigger entries@[i]]
                0 <= i < entries@.len() ==> field_is_defined(
                    old,
                    new,
                    entries@[i].name@,
                    entries@[i].content,
                )
        },
        SchemaNode::Choice { variants } => forall|i: int| #![trigger variants@[i]]
            0 <= i < variants@.len() ==> match variants@[i].content {
                Some(content) => field_is_defined(old, new, variants@[i].name@, content),
                None => true,
            },
        SchemaNode::Optional { content } => field_is_defined(old, new, "content"@, *content),
        SchemaNode::Switch { content } => field_is_defined(old, new, "content"@, *content),
        SchemaNode::Array(items) => forall|i: int| #![trigger items@[i]]
            0 <= i < items@.len() ==> item_is_defined(old, new, i, items@[i]),
        SchemaNode::Vector { default_element } => field_is_defined(
            old,
            new,
            "element"@,
            *default_element,
        ),
        SchemaNode::Dictionary { default_value } => field_is_defined(
            old,
            new,
            "value"@,
            *default_value,
        ),
        SchemaNode::Unsupported => false,
        _ => true,
    }
}

/// The field of an object with that name, and null where there is none.
pub fn field_or_null(json: &Json, name: &str) -> (value: Json)
    ensures
        value.tree() == json.tree().field(name@),
{
    match json.get(name) {
        Some(value) => value.clone(),
        None => Json::Null,
    }
}

/// The item of an array at that index, and null where there is none.
pub fn item_or_null(json: &Json, index: usize) -> (value: Json)
    ensures
        value.tree() == json.tree().item(index as int),
{
    match json {
        Json::Array(items) => if index < items.len() {
            items[index].clone()
        } else {
            Json::Null
        },
        _ => Json::Null,
    }
}

/// A field that has to be true or false.
fn extrapolate_flag(old: &Json, new: &Json, name: &str) -> (value: Json)
    ensures
        value.tree() == extrapolated_flag(old.tree(), new.tree(), name@),
{
    match new.get(name) {
        Some(Json::Bool(flag)) => Json::Bool(*flag),
        _ => field_or_null(old, name),
    }
}

/// A field that is taken as it is.
fn extrapolate_unchecked(old: &Json, new: &Json, name: &str) -> (value: Json)
    ensures
        value.tree() == extrapolated_unchecked(old.tree(), new.tree(), name@),
{
    match new.get(name) {
        Some(value) => value.clone(),
        None => field_or_null(old, name),
    }
}

/// Tells whether a value is a number of that type.
fn has_number_type(json: &Json, ty: NumberType) -> (matching: bool)
    ensures
        matching == is_number_of(json.tree(), ty),
{
    match json {
        Json::Number(number) => match (ty, number) {
            (NumberType::UnsignedInteger, JsonNumber::PosInt(_)) => true,
            (NumberType::SignedInteger, JsonNumber::PosInt(n)) => *n <= 0x7fff_ffff_ffff_ffff,
            (NumberType::SignedInteger, JsonNumber::NegInt(_)) => true,
            (NumberType::Float, JsonNumber::Float(_)) => true,
            _ => false,
        },
        _ => false,
    }
}

/// Works out a part of the settings.
fn extrapolate_field(old: &Json, new: &Json, name: &str, schema: &SchemaNode) -> (value: Json)
    requires
        field_is_defined(old.tree(), new.tree(), name@, *schema),
    ensures
        value.tree() == extrapolated_field(old.tree(), new.tree(), name@, *schema),
    decreases schema, 1int,
{
    match new.get(name) {
        Some(new_value) => match old.get(name) {
            Some(old_value) => extrapolate_session_settings_from_session_settings(
                old_value,
                new_value,
                schema,
            ),
            None => {
                let null = Json::Null;
                extrapolate_session_settings_from_session_settings(&null, new_value, schema)
            },
        },
        None => field_or_null(old, name),
    }
}

/// Works out an item of an array.
fn extrapolate_item(old: &Json, new: &Json, index: usize, schema: &SchemaNode) -> (item: Json)
    requires
        item_is_defined(old.tree(), new.tree(), index as int, *schema),
    ensures
        item.tree() == extrapolated_item(old.tree(), new.tree(), index as int, *schema),
    decreases schema, 1int,
{
    let old_item = item_or_null(old, index);
    match new {
        Json::Array(new_items) if index < new_items.len() => {
            extrapolate_session_settings_from_session_settings(
                &old_item,
                &new_items[index],
                schema,
            )
        },
        _ => old_item,
    }
}

/// Works out settings from old settings, which have the right shape, and new settings, which may
/// have any.
pub fn extrapolate_session_settings_from_session_settings(
    old_session_settings: &Json,
    new_session_settings: &Json,
    schema: &SchemaNode,
) -> (session_settings: Json)
    requires
        extrapolation_is_defined(old_session_settings.tree(), new_session_settings.tree(), *schema),
    ensures
        session_settings.tree() == extrapolated(
            old_session_settings.tree(),
            new_session_settings.tree(),
            *schema,
        ),
    decreases schema, 0int,
{
    let ghost old_tree = old_session_settings.tree();
    let ghost new_tree = new_session_settings.tree();
    match schema {
        SchemaNode::Section(entries) => {
            let mut fields: Vec<(String, Json)> = Vec::new();
            let mut i: usize = 0;
            assert(entries@.take(0) =~= Seq::empty());
            while i < entries.len()
                invariant
                    i <= entries@.len(),
                    *schema == SchemaNode::Section(*entries),
                    old_tree == old_session_settings.tree(),
                    new_tree == new_session_settings.tree(),
                    extrapolation_is_defined(old_tree, new_tree, *schema),
                    fields_tree(fields@) == extrapolated_entries(
                        old_tree,
                        new_tree,
                        entries@.take(i as int),
                    ),
                decreases entries@.len() - i,
            {
                let entry = &entries[i];
                let ghost before = fields@;
                assert(decreases_to!(schema => schema->Section_0));
                assert(decreases_to!(entries => entries@));
                assert(decreases_to!(entries@ => entries@[i as int]));
                assert(decreases_to!(entry => entry.content));
                let value = extrapolate_field(
                    old_session_settings,
                    new_session_settings,
                    entry.name.as_str(),
                    &entry.content,
                );
                fields.push((entry.name.clone(), value));
                proof {
                    lemma_field_is_added(before, fields@.last());
                }
                assert(entries@.take(i + 1).drop_last() =~= entries@.take(i as int));
                i += 1;
            }
            assert(entries@.take(i as int) =~= entries@);
            let collapsed = extrapolate_flag(
                old_session_settings,
                new_session_settings,
                "gui_collapsed",
            );
            let ghost before = fields@;
            fields.push(("gui_collapsed".to_owned(), collapsed));
            proof {
                lemma_field_is_added(before, fields@.last());
            }
            Json::Object(fields)
        },
        SchemaNode::Choice { variants } => {
            let mut fields: Vec<(String, Json)> = Vec::new();
            let mut i: usize = 0;
            assert(variants@.take(0) =~= Seq::empty());
            while i < variants.len()
                invariant
                    i <= variants@.len(),
                    *schema == (SchemaNode::Choice { variants: *variants }),
                    old_tree == old_session_settings.tree(),
                    new_tree == new_session_settings.tree(),
                    extrapolation_is_defined(old_tree, new_tree, *schema),
                    fields_tree(fields@) == extrapolated_variants(
                        old_tree,
                        new_tree,
                        variants@.take(i as int),
                    ),
                decreases variants@.len() - i,
            {
                let variant = &variants[i];
                let ghost before = fields@;
                assert(variants@.take(i + 1).drop_last() =~= variants@.take(i as int));
                assert(variants@.take(i + 1).last() == variant);
                if let Some(content) = &variant.content {
                    assert(decreases_to!(schema => schema->variants));
                    assert(decreases_to!(variants => variants@));
                    assert(decreases_to!(variants@ => variants@[i as int]));
                    assert(decreases_to!(variant => variant.content));
                    assert(decreases_to!(variant.content => variant.content->0));
                    let value = extrapolate_field(
                        old_session_settings,
                        new_session_settings,
                        variant.name.as_str(),
                        content,
                    );
                    fields.push((variant.name.clone(), value));
                    proof {
                        lemma_field_is_added(before, fields@.last());
                    }
                }
                i += 1;
            }
            assert(variants@.take(i as int) =~= variants@);
            let chosen = match new_session_settings.get("variant") {
                Some(Json::Text(name)) if find_variant(variants, name).is_some() => Json::Text(
                    name.clone(),
                ),
                _ => field_or_null(old_session_settings, "variant"),
            };
            let ghost before = fields@;
            fields.push(("variant".to_owned(), chosen));
            proof {
                lemma_field_is_added(before, fields@.last());
            }
            Json::Object(fields)
        },
        SchemaNode::Optional { content } => {
            let set = extrapolate_flag(old_session_settings, new_session_settings, "set");
            let content = extrapolate_field(
                old_session_settings,
                new_session_settings,
                "content",
                content,
            );
            two_fields("set", set, "content", content)
        },
        SchemaNode::Switch { content } => {
            let enabled = extrapolate_flag(old_session_settings, new_session_settings, "enabled");
            let content = extrapolate_field(
                old_session_settings,
                new_session_settings,
                "content",
                content,
            );
            two_fields("enabled", enabled, "content", content)
        },
        SchemaNode::Boolean => match new_session_settings {
            Json::Bool(_) => new_session_settings.clone(),
            _ => old_session_settings.clone(),
        },
        SchemaNode::Number { ty } => if has_number_type(new_session_settings, *ty) {
            new_session_settings.clone()
        } else {
            old_session_settings.clone()
        },
        SchemaNode::Text => match new_session_settings {
            Json::Text(_) => new_session_settings.clone(),
            _ => old_session_settings.clone(),
        },
        SchemaNode::Array(schemas) => {
            let mut items: Vec<Json> = Vec::new();
            let mut i: usize = 0;
            while i < schemas.len()
                invariant
                    i <= schemas@.len(),
                    *schema == SchemaNode::Array(*schemas),
                    old_tree == old_session_settings.tree(),
                    new_tree == new_session_settings.tree(),
                    extrapolation_is_defined(old_tree, new_tree, *schema),
                    items@.len() == i,
                    forall|j: int|
                        0 <= j < i ==> (#[trigger] items@[j]).tree() == extrapolated_item(
                            old_tree,
                            new_tree,
                            j,
                            schemas@[j],
                        ),
                decreases schemas@.len() - i,
            {
                assert(decreases_to!(schema => schema->Array_0));
                assert(decreases_to!(schemas => schemas@));
                assert(decreases_to!(schemas@ => schemas@[i as int]));
                items.push(
                    extrapolate_item(old_session_settings, new_session_settings, i, &schemas[i]),
                );
                i += 1;
            }
            let array = Json::Array(items);
            assert(array.tree()->Array_0 =~= extrapolated(old_tree, new_tree, *schema)->Array_0);
            array
        },
        SchemaNode::Vector { default_element } => {
            let element = extrapolate_field(
                old_session_settings,
                new_session_settings,
                "element",
                default_element,
            );
            let content = extrapolate_unchecked(
                old_session_settings,
                new_session_settings,
                "content",
            );
            two_fields("element", element, "content", content)
        },
        SchemaNode::Dictionary { default_value } => {
            let key = match new_session_settings.get("key") {
                Some(Json::Text(key)) => Json::Text(key.clone()),
                _ => field_or_null(old_session_settings, "key"),
            };
            let value = extrapolate_field(
                old_session_settings,
                new_session_settings,
                "value",
                default_value,
            );
            let content = extrapolate_unchecked(
                old_session_settings,
                new_session_settings,
                "content",
            );
            let mut fields: Vec<(String, Json)> = Vec::new();
            fields.push(("key".to_owned(), key));
            let ghost first = fields@;
            fields.push(("value".to_owned(), value));
            let ghost second = fields@;
            fields.push(("content".to_owned(), content));
            proof {
                lemma_field_is_added(Seq::empty(), fields@[0]);
                assert(Seq::empty().push(fields@[0]) =~= first);
                lemma_field_is_added(first, fields@[1]);
                lemma_field_is_added(second, fields@[2]);
                assert(fields_tree(fields@) =~= extrapolated(
                    old_tree,
                    new_tree,
                    *schema,
                )->Object_0);
            }
            Json::Object(fields)
        },
        SchemaNode::Unsupported => Json::Null,
    }
}

/// An object with two fields.
fn two_fields(first_name: &str, first: Json, second_name: &str, second: Json) -> (object: Json)
    ensures
        object.tree() == JsonTree::Object(
            map![first_name@ => first.tree(), second_name@ => second.tree()],
        ),
{
    let mut fields: Vec<(String, Json)> = Vec::new();
    fields.push((first_name.to_owned(), first));
    proof {
        lemma_field_is_added(Seq::empty(), fields@[0]);
        assert(Seq::empty().push(fields@[0]) =~= fields@);
    }
    let ghost before = fields@;
    fields.push((second_name.to_owned(), second));
    proof {
        lemma_field_is_added(before, fields@[1]);
        assert(fields_tree(fields@) =~= map![
            first_name@ => first.tree(),
            second_name@ => second.tree(),
        ]);
    }
    Json::Object(fields)
}

/// Tells whether a part of the settings can be worked out.
fn can_extrapolate_field(old: &Json, new: &Json, name: &str, schema: &SchemaNode) -> (possible:
    bool)
    ensures
        possible == field_is_defined(old.tree(), new.tree(), name@, *schema),
    decreases schema, 1int,
{
    match new.get(name) {
        Some(new_value) => match old.get(name) {
            Some(old_value) => can_extrapolate(old_value, new_value, schema),
            None => {
                let null = Json::Null;
                can_extrapolate(&null, new_value, schema)
            },
        },
        None => true,
    }
}

/// Tells whether an item of an array can be worked out.
fn can_extrapolate_item(old: &Json, new: &Json, index: usize, schema: &SchemaNode) -> (possible:
    bool)
    ensures
        possible == item_is_defined(old.tree(), new.tree(), index as int, *schema),
    decreases schema, 1int,
{
    match new {
        Json::Array(new_items) if index < new_items.len() => {
            let old_item = item_or_null(old, index);
            can_extrapolate(&old_item, &new_items[index], schema)
        },
        _ => true,
    }
}

/// Tells whether settings can be worked out from old and new settings.
pub fn can_extrapolate(
    old_session_settings: &Json,
    new_session_settings: &Json,
    schema: &SchemaNode,
) -> (possible: bool)
    ensures
        possible == extrapolation_is_defined(
            old_session_settings.tree(),
            new_session_settings.tree(),
            *schema,
        ),
    decreases schema, 0int,
{
    let ghost old_tree = old_session_settings.tree();
    let ghost new_tree = new_session_settings.tree();
    match schema {
        SchemaNode::Section(entries) => {
            match extrapolate_flag(old_session_settings, new_session_settings, "gui_collapsed") {
                Json::Bool(_) => {},
                _ => {
                    return false;
                },
            }
            let mut i: usize = 0;
            while i < entries.len()
                invariant
                    i <= entries@.len(),
                    *schema == SchemaNode::Section(*entries),
                    old_tree == old_session_settings.tree(),
                    new_tree == new_session_settings.tree(),
                    forall|j: int| #![trigger entries@[j]]
                        0 <= j < i ==> field_is_defined(
                            old_tree,
                            new_tree,
                            entries@[j].name@,
                            entries@[j].content,
                        ),
                decreases entries@.len() - i,
            {
                let entry = &entries[i];
                assert(decreases_to!(schema => schema->Section_0));
                assert(decreases_to!(entries => entries@));
                assert(decreases_to!(entries@ => entries@[i as int]));
                assert(decreases_to!(entry => entry.content));
                if !can_extrapolate_field(
                    old_session_settings,
                    new_session_settings,
                    entry.name.as_str(),
                    &entry.content,
                ) {
                    return false;
                }
                i += 1;
            }
            true
        },
        SchemaNode::Choice { variants } => {
            let mut i: usize = 0;
            while i < variants.len()
                invariant
                    i <= variants@.len(),
                    *schema == (SchemaNode::Choice { variants: *variants }),
                    old_tree == old_session_settings.tree(),
                    new_tree == new_session_settings.tree(),
                    forall|j: int| #![trigger variants@[j]]
                        0 <= j < i ==> match variants@[j].content {
                            Some(content) => field_is_defined(
                                old_tree,
                                new_tree,
                                variants@[j].name@,
                                content,
                            ),
                            None => true,
                        },
                decreases variants@.len() - i,
            {
                let variant = &variants[i];
                if let Some(content) = &variant.content {
                    assert(decreases_to!(schema => schema->variants));
                    assert(decreases_to!(variants => variants@));
                    assert(decreases_to!(variants@ => variants@[i as int]));
                    assert(decreases_to!(variant => variant.content));
                    assert(decreases_to!(variant.content => variant.content->0));
                    if !can_extrapolate_field(
                        old_session_settings,
                        new_session_settings,
                        variant.name.as_str(),
                        content,
                    ) {
                        return false;
                    }
                }
                i += 1;
            }
            true
        },
        SchemaNode::Optional { content } => can_extrapolate_field(
            old_session_settings,
            new_session_settings,
            "content",
            content,
        ),
        SchemaNode::Switch { content } => can_extrapolate_field(
            old_session_settings,
            new_session_settings,
            "content",
            content,
        ),
        SchemaNode::Array(schemas) => {
            let mut i: usize = 0;
            while i < schemas.len()
                invariant
                    i <= schemas@.len(),
                    *schema == SchemaNode::Array(*schemas),
                    old_tree == old_session_settings.tree(),
                    new_tree == new_session_settings.tree(),
                    forall|j: int| #![trigger schemas@[j]]
                        0 <= j < i ==> item_is_defined(old_tree, new_tree, j, schemas@[j]),
                decreases schemas@.len() - i,
            {
                assert(decreases_to!(schema => schema->Array_0));
                assert(decreases_to!(schemas => schemas@));
                assert(decreases_to!(schemas@ => schemas@[i as int]));
                if !can_extrapolate_item(
                    old_session_settings,
                    new_session_settings,
                    i,
                    &schemas[i],
                ) {
                    return false;
                }
                i += 1;
            }
            true
        },
        SchemaNode::Vector { default_element } => can_extrapolate_field(
            old_session_settings,
            new_session_settings,
            "element",
            default_element,
        ),
        SchemaNode::Dictionary { default_value } => can_extrapolate_field(
            old_session_settings,
            new_session_settings,
            "value",
            default_value,
        ),
        SchemaNode::Unsupported => false,
        _ => true,
    }
}

} // verus!
