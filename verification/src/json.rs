//! JSON values, and the renaming of the keys of their objects between
//! `snake_case` and `camelCase`.

use vstd::prelude::*;
use crate::serde_utils::{camel_to_snake, camel_to_snake_spec, snake_to_camel, snake_to_camel_spec};

verus! {

/// A JSON value. A number is kept as its literal; an object keeps its
/// members in a list, in which no key occurs twice once it went through a
/// renaming.
#[derive(Debug, PartialEq, Eq)]
pub enum JsonValue {
    Null,
    Bool(bool),
    Number(String),
    Text(String),
    Array(Vec<JsonValue>),
    Object(Vec<JsonField>),
}

/// A member of a JSON object.
#[derive(Debug, PartialEq, Eq)]
pub struct JsonField {
    pub key: String,
    pub value: JsonValue,
}

/// What a [`JsonValue`] holds, as mathematical values.
pub enum JsonView {
    Null,
    Bool(bool),
    Number(Seq<char>),
    Text(Seq<char>),
    Array(Seq<JsonView>),
    Object(Seq<(Seq<char>, JsonView)>),
}

/// The view of a JSON value.
pub open spec fn json_view(v: JsonValue) -> JsonView
    decreases v,
{
    match v {
        JsonValue::Null => JsonView::Null,
        JsonValue::Bool(b) => JsonView::Bool(b),
        JsonValue::Number(n) => JsonView::Number(n@),
        JsonValue::Text(t) => JsonView::Text(t@),
        JsonValue::Array(items) => JsonView::Array(
            Seq::new(
                items@.len(),
                |i: int|
                    if 0 <= i < items@.len() {
                        json_view(items@[i])
                    } else {
                        JsonView::Null
                    },
            ),
        ),
        JsonValue::Object(fields) => JsonView::Object(
            Seq::new(
                fields@.len(),
                |i: int|
                    if 0 <= i < fields@.len() {
                        (fields@[i].key@, json_view(fields@[i].value))
                    } else {
                        (Seq::empty(), JsonView::Null)
                    },
            ),
        ),
    }
}

/// The members of an object, as pairs of key and view.
pub open spec fn entries_of(fields: Seq<JsonField>) -> Seq<(Seq<char>, JsonView)> {
    Seq::new(fields.len(), |i: int| (fields[i].key@, json_view(fields[i].value)))
}

/// The key `k` in the other naming: its snake-case form or its camel-case
/// form.
pub open spec fn renamed_key(k: Seq<char>, to_snake: bool) -> Seq<char> {
    if to_snake {
        camel_to_snake_spec(k)
    } else {
        snake_to_camel_spec(k)
    }
}

/// Some member has the key `key`.
pub open spec fn holds_key(entries: Seq<(Seq<char>, JsonView)>, key: Seq<char>) -> bool {
    exists|i: int| 0 <= i < entries.len() && (#[trigger] entries[i]).0 == key
}

/// No key occurs in two members.
pub open spec fn unique_keys(entries: Seq<(Seq<char>, JsonView)>) -> bool {
    forall|i: int, j: int|
        0 <= i < j < entries.len() ==> (#[trigger] entries[i]).0 != (#[trigger] entries[j]).0
}

/// The members after `value` was stored under `key`: it takes the place of
/// the member that had the key, or comes last where there was none.
pub open spec fn put(entries: Seq<(Seq<char>, JsonView)>, key: Seq<char>, value: JsonView) -> Seq<
    (Seq<char>, JsonView),
> {
    if holds_key(entries, key) {
        Seq::new(
            entries.len(),
            |i: int|
                if entries[i].0 == key {
                    (key, value)
                } else {
                    entries[i]
                },
        )
    } else {
        entries.push((key, value))
    }
}

/// The value with the keys of all its objects renamed, at every depth.
/// Where two keys of an object get the same name, the later member
/// replaces the earlier one.
pub open spec fn rename_keys(v: JsonView, to_snake: bool) -> JsonView
    decreases v, 0int,
{
    match v {
        JsonView::Array(items) => JsonView::Array(
            Seq::new(
                items.len(),
                |i: int|
                    if 0 <= i < items.len() {
                        rename_keys(items[i], to_snake)
                    } else {
                        JsonView::Null
                    },
            ),
        ),
        JsonView::Object(fields) => JsonView::Object(
            renamed_fields(fields, fields.len() as int, to_snake),
        ),
        other => other,
    }
}

/// The first `n` members of an object, renamed and stored one after the
/// other.
pub open spec fn renamed_fields(fields: Seq<(Seq<char>, JsonView)>, n: int, to_snake: bool) -> Seq<
    (Seq<char>, JsonView),
>
    decreases fields, n,
{
    if n <= 0 || n > fields.len() {
        Seq::empty()
    } else {
        put(
            renamed_fields(fields, n - 1, to_snake),
            renamed_key(fields[n - 1].0, to_snake),
            rename_keys(fields[n - 1].1, to_snake),
        )
    }
}

/// Storing a member keeps the keys unique.
pub proof fn lemma_put_unique(entries: Seq<(Seq<char>, JsonView)>, key: Seq<char>, value: JsonView)
    requires
        unique_keys(entries),
    ensures
        unique_keys(put(entries, key, value)),
{
    let after = put(entries, key, value);
    if holds_key(entries, key) {
        assert forall|i: int, j: int| 0 <= i < j < after.len() implies (#[trigger] after[i]).0 != (
        #[trigger] after[j]).0 by {
            assert(entries[i].0 != entries[j].0);
        }
    } else {
        assert forall|i: int, j: int| 0 <= i < j < after.len() implies (#[trigger] after[i]).0 != (
        #[trigger] after[j]).0 by {
            if j < entries.len() {
                assert(entries[i].0 != entries[j].0);
            } else {
                assert(after[i] == entries[i]);
            }
        }
    }
}

/// The position of the member with key `key`, if there is one.
fn find_field(fields: &Vec<JsonField>, key: &String) -> (r: Option<usize>)
    ensures
        match r {
            Some(i) => i < fields.len() && fields@[i as int].key@ == key@,
            None => !holds_key(entries_of(fields@), key@),
        },
{
    let mut i: usize = 0;
    while i < fields.len()
        invariant
            i <= fields.len(),
            forall|j: int| 0 <= j < i ==> fields@[j].key@ != key@,
        decreases fields.len() - i,
    {
        if fields[i].key == *key {
            return Some(i);
        }
        i += 1;
    }
    proof {
        assert forall|j: int| 0 <= j < entries_of(fields@).len() implies (#[trigger] entries_of(
            fields@,
        )[j]).0 != key@ by {}
    }
    None
}

/// Stores `value` under `key` among the members of an object.
fn put_field(fields: &mut Vec<JsonField>, key: String, value: JsonValue)
    requires
        unique_keys(entries_of(old(fields)@)),
    ensures
        unique_keys(entries_of(final(fields)@)),
        entries_of(final(fields)@) == put(entries_of(old(fields)@), key@, json_view(value)),
{
    let ghost before = entries_of(fields@);
    proof {
        lemma_put_unique(before, key@, json_view(value));
    }
    match find_field(fields, &key) {
        Some(i) => {
            assert(before[i as int].0 == key@);
            fields.set(i, JsonField { key, value });
            assert forall|j: int| 0 <= j < before.len() implies #[trigger] entries_of(fields@)[j]
                == put(before, key@, json_view(value))[j] by {
                if j != i && before[j].0 == key@ {
                    if j < i {
                        assert(before[j].0 != before[i as int].0);
                    } else {
                        assert(before[i as int].0 != before[j].0);
                    }
                }
            }
            assert(entries_of(fields@) =~= put(before, key@, json_view(value)));
        },
        None => {
            fields.push(JsonField { key, value });
            assert(entries_of(fields@) =~= put(before, key@, json_view(value)));
        },
    }
}

/// The value with every key renamed.
fn renamed(value: &JsonValue, to_snake: bool) -> (r: JsonValue)
    ensures
        json_view(r) == rename_keys(json_view(*value), to_snake),
    decreases value,
{
    match value {
        JsonValue::Null => JsonValue::Null,
        JsonValue::Bool(b) => JsonValue::Bool(*b),
        JsonValue::Number(n) => JsonValue::Number(n.clone()),
        JsonValue::Text(t) => JsonValue::Text(t.clone()),
        JsonValue::Array(items) => {
            let mut out: Vec<JsonValue> = Vec::new();
            let mut i: usize = 0;
            while i < items.len()
                invariant
                    i <= items.len(),
                    out.len() == i,
                    *value == JsonValue::Array(*items),
                    forall|j: int|
                        0 <= j < i ==> json_view(#[trigger] out@[j]) == rename_keys(
                            json_view(items@[j]),
                            to_snake,
                        ),
                decreases items.len() - i,
            {
                assert(decreases_to!(*value => value->Array_0));
                assert(decreases_to!(*items => items[i as int]));
                let next = renamed(&items[i], to_snake);
                out.push(next);
                i += 1;
            }
            let r = JsonValue::Array(out);
            assert(json_view(r)->Array_0 =~= rename_keys(json_view(*value), to_snake)->Array_0);
            r
        },
        JsonValue::Object(fields) => {
            let mut out: Vec<JsonField> = Vec::new();
            let ghost source = entries_of(fields@);
            let mut i: usize = 0;
            assert(json_view(*value)->Object_0 =~= source);
            assert(entries_of(out@) =~= renamed_fields(source, 0, to_snake));
            while i < fields.len()
                invariant
                    i <= fields.len(),
                    *value == JsonValue::Object(*fields),
                    source == entries_of(fields@),
                    unique_keys(entries_of(out@)),
                    entries_of(out@) == renamed_fields(source, i as int, to_snake),
                decreases fields.len() - i,
            {
                let key = if to_snake {
                    camel_to_snake(fields[i].key.as_str())
                } else {
                    snake_to_camel(fields[i].key.as_str())
                };
                assert(decreases_to!(*value => value->Object_0));
                assert(decreases_to!(*fields => fields[i as int]));
                let next = renamed(&fields[i].value, to_snake);
                put_field(&mut out, key, next);
                i += 1;
            }
            let r = JsonValue::Object(out);
            assert(json_view(r)->Object_0 =~= entries_of(out@));
            r
        },
    }
}

impl JsonValue {
    /// The value of the first member with the given key, where this is an
    /// object that has one.
    pub fn get(&self, key: &str) -> (r: Option<&JsonValue>)
        ensures
            match r {
                Some(v) => self is Object && exists|i: int|
                    0 <= i < self->Object_0@.len() && self->Object_0@[i].key@ == key@ && *v
                        == self->Object_0@[i].value && forall|j: int|
                        0 <= j < i ==> self->Object_0@[j].key@ != key@,
                None => self is Object ==> !holds_key(entries_of(self->Object_0@), key@),
            },
    {
        match self {
            JsonValue::Object(fields) => {
                let wanted = key.to_owned();
                let mut i: usize = 0;
                while i < fields.len()
                    invariant
                        i <= fields.len(),
                        wanted@ == key@,
                        *self == JsonValue::Object(*fields),
                        forall|j: int| 0 <= j < i ==> fields@[j].key@ != key@,
                    decreases fields.len() - i,
                {
                    if fields[i].key == wanted {
                        assert(self->Object_0@[i as int].key@ == key@);
                        return Some(&fields[i].value);
                    }
                    i += 1;
                }
                proof {
                    assert forall|j: int|
                        0 <= j < entries_of(fields@).len() implies (#[trigger] entries_of(
                        fields@,
                    )[j]).0 != key@ by {}
                }
                None
            },
            _ => None,
        }
    }
}

/// Renames the keys of every object in `value`, at every depth, to
/// `snake_case`. Where two keys of an object get the same name, the later
/// member replaces the earlier one.
pub fn convert_keys_to_snake(value: &JsonValue) -> (r: JsonValue)
    ensures
        json_view(r) == rename_keys(json_view(*value), true),
{
    renamed(value, true)
}

/// Renames the keys of every object in `value`, at every depth, to
/// `camelCase`. Where two keys of an object get the same name, the later
/// member replaces the earlier one.
pub fn convert_keys_to_camel(value: &JsonValue) -> (r: JsonValue)
    ensures
        json_view(r) == rename_keys(json_view(*value), false),
{
    renamed(value, false)
}

} // verus!
