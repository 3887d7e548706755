//! JSON values.

use vstd::prelude::*;

verus! {

/// A number in a JSON text.
#[derive(Clone, Copy, Debug, PartialEq, Eq, Structural)]
pub enum JsonNumber {
    /// An integer that is not negative.
    PosInt(u64),
    /// A negative integer.
    NegInt(i64),
    /// The bits of a double precision floating point number.
    Float(u64),
}

/// A JSON value. Of several fields of an object with the same name, the last one counts.
#[derive(Debug)]
pub enum Json {
    Null,
    Bool(bool),
    Number(JsonNumber),
    Text(String),
    Array(Vec<Json>),
    Object(Vec<(String, Json)>),
}

/// What a JSON value says.
#[verifier::ext_equal]
pub enum JsonTree {
    Null,
    Bool(bool),
    Number(JsonNumber),
    Text(Seq<char>),
    Array(Seq<JsonTree>),
    Object(Map<Seq<char>, JsonTree>),
}

impl JsonTree {
    /// The field of an object with that name.
    pub open spec fn get(self, name: Seq<char>) -> Option<JsonTree> {
        match self {
            JsonTree::Object(fields) if fields.contains_key(name) => Some(fields[name]),
            _ => None,
        }
    }

    /// The field of an object with that name, and null where there is none.
    pub open spec fn field(self, name: Seq<char>) -> JsonTree {
        match self.get(name) {
            Some(value) => value,
            None => JsonTree::Null,
        }
    }

    /// The item of an array at that index.
    pub open spec fn get_item(self, index: int) -> Option<JsonTree> {
        match self {
            JsonTree::Array(items) if 0 <= index < items.len() => Some(items[index]),
            _ => None,
        }
    }

    /// The item of an array at that index, and null where there is none.
    pub open spec fn item(self, index: int) -> JsonTree {
        match self.get_item(index) {
            Some(value) => value,
            None => JsonTree::Null,
        }
    }
}

/// What the items of an array say.
pub open spec fn items_tree(items: Seq<Json>) -> Seq<JsonTree>
    decreases items,
{
    Seq::new(
        items.len(),
        |i: int|
            if 0 <= i < items.len() {
                items[i].tree()
            } else {
                JsonTree::Null
            },
    )
}

/// What the fields of an object say.
pub open spec fn fields_tree(fields: Seq<(String, Json)>) -> Map<Seq<char>, JsonTree>
    decreases fields,
{
    if fields.len() == 0 {
        Map::empty()
    } else {
        fields_tree(fields.drop_last()).insert(fields.last().0@, fields.last().1.tree())
    }
}

/// A field that is added to an object replaces an earlier one of the same name.
pub proof fn lemma_field_is_added(fields: Seq<(String, Json)>, field: (String, Json))
    ensures
        fields_tree(fields.push(field)) == fields_tree(fields).insert(field.0@, field.1.tree()),
{
    assert(fields.push(field).drop_last() =~= fields);
}

impl Json {
    pub open spec fn tree(self) -> JsonTree
        decreases self,
    {
        match self {
            Json::Null => JsonTree::Null,
            Json::Bool(b) => JsonTree::Bool(b),
            Json::Number(n) => JsonTree::Number(n),
            Json::Text(text) => JsonTree::Text(text@),
            Json::Array(items) => JsonTree::Array(items_tree(items@)),
            Json::Object(fields) => JsonTree::Object(fields_tree(fields@)),
        }
    }

    /// The field of an object with that name.
    pub fn get(&self, name: &str) -> (value: Option<&Json>)
        ensures
            match value {
                Some(value) => self.tree().get(name@) == Some(value.tree()),
                None => self.tree().get(name@) is None,
            },
    {
        match self {
            Json::Object(fields) => {
                let wanted = name.to_owned();
                let mut i: usize = fields.len();
                assert(fields@.take(i as int) =~= fields@);
                while i > 0
                    invariant
                        i <= fields@.len(),
                        wanted@ == name@,
                        self.tree() == JsonTree::Object(fields_tree(fields@)),
                        self.tree().get(name@) == JsonTree::Object(
                            fields_tree(fields@.take(i as int)),
                        ).get(name@),
                    decreases i,
                {
                    i -= 1;
                    proof {
                        assert(fields@.take(i + 1).drop_last() =~= fields@.take(i as int));
                    }
                    if fields[i].0 == wanted {
                        return Some(&fields[i].1);
                    }
                }
                None
            },
            _ => None,
        }
    }
}

impl Clone for Json {
    fn clone(&self) -> (copy: Json)
        ensures
            copy.tree() == self.tree(),
        decreases self,
    {
        match self {
            Json::Null => Json::Null,
            Json::Bool(b) => Json::Bool(*b),
            Json::Number(n) => Json::Number(*n),
            Json::Text(text) => Json::Text(text.clone()),
            Json::Array(items) => {
                let mut copies: Vec<Json> = Vec::new();
                let mut i: usize = 0;
                while i < items.len()
                    invariant
                        i <= items@.len(),
                        *self == Json::Array(*items),
                        copies@.len() == i,
                        forall|j: int|
                            0 <= j < i ==> (#[trigger] copies@[j]).tree() == items@[j].tree(),
                    decreases items@.len() - i,
                {
                    assert(decreases_to!(self => self->Array_0));
                    assert(decreases_to!(items => items@));
                    assert(decreases_to!(items@ => items@[i as int]));
                    copies.push(items[i].clone());
                    i += 1;
                }
                assert(items_tree(copies@) =~= items_tree(items@));
                Json::Array(copies)
            },
            Json::Object(fields) => {
                let mut copies: Vec<(String, Json)> = Vec::new();
                let mut i: usize = 0;
                while i < fields.len()
                    invariant
                        i <= fields@.len(),
                        *self == Json::Object(*fields),
                        copies@.len() == i,
                        fields_tree(copies@) == fields_tree(fields@.take(i as int)),
                    decreases fields@.len() - i,
                {
                    let ghost before = copies@;
                    assert(decreases_to!(self => self->Object_0));
                    assert(decreases_to!(fields => fields@));
                    assert(decreases_to!(fields@ => fields@[i as int]));
                    assert(decreases_to!(fields@[i as int] => fields@[i as int].1));
                    copies.push((fields[i].0.clone(), fields[i].1.clone()));
                    assert(copies@.drop_last() =~= before);
                    assert(fields@.take(i + 1).drop_last() =~= fields@.take(i as int));
                    i += 1;
                }
                assert(fields@.take(i as int) =~= fields@);
                Json::Object(copies)
            },
        }
    }
}

/// The field of an object is found under its name, and nothing is found under another name or in
/// anything that is not an object. Items are found by their place in an array, and nowhere else.
pub proof fn law_parts_are_found_where_they_are(
    tree: JsonTree,
    fields: Map<Seq<char>, JsonTree>,
    items: Seq<JsonTree>,
    name: Seq<char>,
    index: int,
)
    ensures
        fields.contains_key(name) ==> JsonTree::Object(fields).get(name) == Some(fields[name]),
        !fields.contains_key(name) ==> JsonTree::Object(fields).get(name) is None,
        !(tree is Object) ==> tree.get(name) is None,
        0 <= index < items.len() ==> JsonTree::Array(items).get_item(index) == Some(items[index]),
        !(0 <= index < items.len()) ==> JsonTree::Array(items).get_item(index) is None,
        !(tree is Array) ==> tree.get_item(index) is None,
        tree.field(name) == match tree.get(name) {
            Some(value) => value,
            None => JsonTree::Null,
        },
        tree.item(index) == match tree.get_item(index) {
            Some(value) => value,
            None => JsonTree::Null,
        },
{
}

/// A value says what it holds.
pub proof fn law_value_says_what_it_holds(
    flag: bool,
    number: JsonNumber,
    text: String,
    items: Vec<Json>,
    i: int,
)
    requires
        0 <= i < items@.len(),
    ensures
        Json::Null.tree() is Null,
        Json::Bool(flag).tree() == JsonTree::Bool(flag),
        Json::Number(number).tree() == JsonTree::Number(number),
        Json::Text(text).tree() == JsonTree::Text(text@),
        Json::Array(items).tree() is Array,
        Json::Array(items).tree()->Array_0.len() == items@.len(),
        Json::Array(items).tree()->Array_0[i] == items@[i].tree(),
{
    let array = Json::Array(items);
    assert(array.tree() == JsonTree::Array(items_tree(items@)));
}

/// Of the fields of an object with the same name the last one counts, and there are no other names.
pub proof fn law_last_field_counts(fields: Vec<(String, Json)>, i: int, name: Seq<char>)
    requires
        0 <= i < fields@.len(),
        forall|j: int| i < j < fields@.len() ==> (#[trigger] fields@[j]).0@ != fields@[i].0@,
    ensures
        Json::Object(fields).tree() is Object,
        Json::Object(fields).tree()->Object_0.contains_key(fields@[i].0@),
        Json::Object(fields).tree()->Object_0[fields@[i].0@] == fields@[i].1.tree(),
        (forall|j: int| 0 <= j < fields@.len() ==> (#[trigger] fields@[j]).0@ != name)
            ==> !Json::Object(fields).tree()->Object_0.contains_key(name),
{
    let object = Json::Object(fields);
    assert(object.tree() == JsonTree::Object(fields_tree(fields@)));
    lemma_last_field(fields@, i);
    if forall|j: int| 0 <= j < fields@.len() ==> (#[trigger] fields@[j]).0@ != name {
        lemma_no_field(fields@, name);
    }
}

proof fn lemma_last_field(fields: Seq<(String, Json)>, i: int)
    requires
        0 <= i < fields.len(),
        forall|j: int| i < j < fields.len() ==> (#[trigger] fields[j]).0@ != fields[i].0@,
    ensures
        fields_tree(fields).contains_key(fields[i].0@),
        fields_tree(fields)[fields[i].0@] == fields[i].1.tree(),
    decreases fields.len(),
{
    if i < fields.len() - 1 {
        let before = fields.drop_last();
        assert(before[i] == fields[i]);
        assert forall|j: int| i < j < before.len() implies (
        #[trigger] before[j]).0@ != before[i].0@ by {
            assert(before[j] == fields[j]);
        }
        lemma_last_field(before, i);
        assert(fields[fields.len() - 1].0@ != fields[i].0@);
    }
}

proof fn lemma_no_field(fields: Seq<(String, Json)>, name: Seq<char>)
    requires
        forall|j: int| 0 <= j < fields.len() ==> (#[trigger] fields[j]).0@ != name,
    ensures
        !fields_tree(fields).contains_key(name),
    decreases fields.len(),
{
    if fields.len() > 0 {
        let before = fields.drop_last();
        assert forall|j: int| 0 <= j < before.len() implies (#[trigger] before[j]).0@ != name by {
            assert(before[j] == fields[j]);
        }
        lemma_no_field(before, name);
        assert(fields[fields.len() - 1].0@ != name);
    }
}

} // verus!
