//! JSON text, read and written by serde_json.
//!
//! serde_json reads a text into its own `Value` and writes a `Value` as text.
//! This module passes between `Value` and [`Json`]: what was read is taken
//! apart level by level, and what is to be written is put together level by
//! level. What serde_json makes of a text, and what text it writes, is known
//! here by name only. Of an object that is written it is known what its map
//! holds under each name, so what is written for a plain value is that value
//! but for the order of the members of its objects.

use vstd::prelude::*;
use crate::text::str_eq;
use crate::json::{
    Json,
    JsonModel,
    Member,
    MemberModel,
    item_models,
    lookup,
    lemma_array_view,
    lemma_object_view,
    member_models,
};

verus! {

/// `Value` of serde_json: any JSON value. The verifier sees nothing inside
/// one; what it holds goes by the name [`value_model`].
#[verifier::external_type_specification]
#[verifier::external_body]
pub struct ExValue(serde_json::Value);

/// What a `serde_json::Value` holds. The members of an object stand in the
/// order in which its map hands them out.
pub uninterp spec fn value_model(v: serde_json::Value) -> JsonModel;

/// The value that `serde_json::from_str` reads from the text `text`; `None`
/// where it reports an error.
pub uninterp spec fn json_parse(text: Seq<char>) -> Option<JsonModel>;

/// The text that `serde_json::to_string` writes for a value that holds
/// `value`; empty where it reports an error.
pub uninterp spec fn json_text(value: JsonModel) -> Seq<char>;

/// The entries of serde_json's map after `Map::insert` of `key` and `value`
/// into a map whose entries were `members`.
pub uninterp spec fn with_entry(members: Seq<MemberModel>, key: Seq<char>, value: JsonModel) -> Seq<
    MemberModel,
>;

/// One level of a `serde_json::Value`.
pub enum Shape<'a> {
    Null,
    Bool(bool),
    Int(i64),
    Decimal(String),
    Str(&'a str),
    Array(&'a Vec<serde_json::Value>),
    Object(Vec<(&'a String, &'a serde_json::Value)>),
}

/// What the values `items` hold, in order.
pub open spec fn value_models(items: Seq<serde_json::Value>) -> Seq<JsonModel> {
    Seq::new(items.len(), |i: int| value_model(items[i]))
}

/// What the entries `entries` of a map hold, in order.
pub open spec fn entry_models(entries: Seq<(&String, &serde_json::Value)>) -> Seq<MemberModel> {
    Seq::new(
        entries.len(),
        |i: int| MemberModel { key: entries[i].0@, value: value_model(*entries[i].1) },
    )
}

/// What a value holds, given its top level.
pub open spec fn shape_model(s: Shape) -> JsonModel {
    match s {
        Shape::Null => JsonModel::Null,
        Shape::Bool(b) => JsonModel::Bool(b),
        Shape::Int(n) => JsonModel::Int(n as int),
        Shape::Decimal(t) => JsonModel::Decimal(t@),
        Shape::Str(t) => JsonModel::Str(t@),
        Shape::Array(items) => JsonModel::Array(value_models(items@)),
        Shape::Object(entries) => JsonModel::Object(entry_models(entries@)),
    }
}

/// `serde_json::from_str::<Value>`: reads a JSON text. The value read holds
/// [`json_parse`] of the text; an error is `None`.
#[verifier::external_body]
fn parse_value(text: &str) -> (r: Option<serde_json::Value>)
    ensures
        match r {
            Some(v) => json_parse(text@) == Some(value_model(v)),
            None => json_parse(text@) is None,
        },
{
    serde_json::from_str::<serde_json::Value>(text).ok()
}

/// The variants of `serde_json::Value`, told apart: the top level of `v`,
/// with each field handed out as it is. A number is handed out as an integer
/// where `Number::as_i64` gives one, and else as the text that
/// `Number::to_string` writes; the entries of an object are those of
/// `Map::iter`, in its order.
#[verifier::external_body]
fn value_shape<'a>(v: &'a serde_json::Value) -> (r: Shape<'a>)
    ensures
        shape_model(r) == value_model(*v),
{
    match v {
        serde_json::Value::Null => Shape::Null,
        serde_json::Value::Bool(b) => Shape::Bool(*b),
        serde_json::Value::Number(n) => match n.as_i64() {
            Some(i) => Shape::Int(i),
            None => Shape::Decimal(n.to_string()),
        },
        serde_json::Value::String(s) => Shape::Str(s),
        serde_json::Value::Array(a) => Shape::Array(a),
        serde_json::Value::Object(m) => Shape::Object(m.iter().collect()),
    }
}

/// `Value::Null` of serde_json.
#[verifier::external_body]
fn null_value() -> (r: serde_json::Value)
    ensures
        value_model(r) == JsonModel::Null,
{
    serde_json::Value::Null
}

/// `Value::Bool` of serde_json.
#[verifier::external_body]
fn bool_value(b: bool) -> (r: serde_json::Value)
    ensures
        value_model(r) == JsonModel::Bool(b),
{
    serde_json::Value::Bool(b)
}

/// `Value::from(i64)` of serde_json: the number `n`.
#[verifier::external_body]
fn int_value(n: i64) -> (r: serde_json::Value)
    ensures
        value_model(r) == JsonModel::Int(n as int),
{
    serde_json::Value::from(n)
}

/// `Value::String` of serde_json.
#[verifier::external_body]
fn text_value(t: &str) -> (r: serde_json::Value)
    ensures
        value_model(r) == JsonModel::Str(t@),
{
    serde_json::Value::String(t.to_string())
}

/// `Value::Array` of serde_json: the array of `items`, in order.
#[verifier::external_body]
fn array_value(items: Vec<serde_json::Value>) -> (r: serde_json::Value)
    ensures
        value_model(r) == JsonModel::Array(value_models(items@)),
{
    serde_json::Value::Array(items)
}

/// `Value::Object` of serde_json on the map that `Map::new` makes: an object
/// without members.
#[verifier::external_body]
fn empty_object() -> (r: serde_json::Value)
    ensures
        value_model(r) == JsonModel::Object(Seq::empty()),
{
    serde_json::Value::Object(serde_json::Map::new())
}

/// `Map::insert` of serde_json on the map of an object: afterwards the map
/// holds `value` under `key`, in place of what it held under that key
/// before, and under every other key what it held before. The entries
/// afterwards are [`with_entry`] of the entries before, the key and the
/// value.
#[verifier::external_body]
fn insert_member(object: &mut serde_json::Value, key: String, value: serde_json::Value)
    requires
        value_model(*old(object)) is Object,
    ensures
        value_model(*final(object)) == JsonModel::Object(
            with_entry(value_model(*old(object))->Object_0, key@, value_model(value)),
        ),
        forall|q: Seq<char>| #[trigger]
            lookup(value_model(*final(object))->Object_0, q) == if q == key@ {
                Some(value_model(value))
            } else {
                lookup(value_model(*old(object))->Object_0, q)
            },
{
    if let serde_json::Value::Object(map) = object {
        map.insert(key, value);
    }
}

/// `serde_json::to_string` on a `Value`: the JSON text of the value, which
/// is [`json_text`] of what it holds.
#[verifier::external_body]
fn value_text(v: &serde_json::Value) -> (r: String)
    ensures
        r@ == json_text(value_model(*v)),
{
    match serde_json::to_string(v) {
        Ok(text) => text,
        Err(_) => String::new(),
    }
}

/// Takes a value that serde_json read apart into a [`Json`].
#[verifier::loop_isolation(false)]
pub fn to_json(v: &serde_json::Value) -> (r: Json)
    ensures
        r@ == value_model(*v),
    decreases value_model(*v),
{
    match value_shape(v) {
        Shape::Null => Json::Null,
        Shape::Bool(b) => Json::Bool(b),
        Shape::Int(n) => Json::Int(n),
        Shape::Decimal(t) => Json::Decimal(t),
        Shape::Str(t) => Json::text(t),
        Shape::Array(items) => {
            let mut out: Vec<Json> = Vec::new();
            let mut i: usize = 0;
            while i < items.len()
                invariant
                    i <= items.len(),
                    out.len() == i,
                    value_model(*v) == JsonModel::Array(value_models(items@)),
                    forall|k: int| 0 <= k < i ==> out@[k]@ == value_model(items@[k]),
                decreases items.len() - i,
            {
                proof {
                    assert(value_models(items@)[i as int] == value_model(items@[i as int]));
                    vstd::seq::axiom_seq_index_decreases(value_models(items@), i as int);
                    let whole = value_model(*v);
                    assert(decreases_to!(whole => whole->Array_0));
                    assert(decreases_to!(whole->Array_0 => whole->Array_0[i as int]));
                }
                out.push(to_json(&items[i]));
                i = i + 1;
            }
            proof {
                lemma_array_view(out);
                assert(item_models(out@) =~= value_models(items@));
            }
            Json::Array(out)
        },
        Shape::Object(entries) => {
            let mut out: Vec<Member> = Vec::new();
            let mut i: usize = 0;
            while i < entries.len()
                invariant
                    i <= entries.len(),
                    out.len() == i,
                    value_model(*v) == JsonModel::Object(entry_models(entries@)),
                    forall|k: int|
                        0 <= k < i ==> out@[k].key@ == entries@[k].0@ && out@[k].value@
                            == value_model(*entries@[k].1),
                decreases entries.len() - i,
            {
                proof {
                    assert(entry_models(entries@)[i as int].value == value_model(
                        *entries@[i as int].1,
                    ));
                    vstd::seq::axiom_seq_index_decreases(entry_models(entries@), i as int);
                    let whole = value_model(*v);
                    assert(decreases_to!(whole => whole->Object_0));
                    assert(decreases_to!(whole->Object_0 => whole->Object_0[i as int]));
                    assert(decreases_to!(whole->Object_0[i as int] => whole->Object_0[i as int].value));
                }
                let entry = &entries[i];
                out.push(Member { key: entry.0.clone(), value: to_json(entry.1) });
                i = i + 1;
            }
            proof {
                lemma_object_view(out);
                assert(member_models(out@) =~= entry_models(entries@));
            }
            Json::Object(out)
        },
    }
}

/// The values that are written for `items`, in order.
pub open spec fn written_items(items: Seq<JsonModel>) -> Seq<JsonModel>
    decreases items,
{
    Seq::new(
        items.len(),
        |i: int|
            if 0 <= i < items.len() {
                written(items[i])
            } else {
                JsonModel::Null
            },
    )
}

/// The members `members`, each with the value that is written for its own.
pub open spec fn written_members(members: Seq<MemberModel>) -> Seq<MemberModel>
    decreases members,
{
    Seq::new(
        members.len(),
        |i: int|
            if 0 <= i < members.len() {
                MemberModel { key: members[i].key, value: written(members[i].value) }
            } else {
                MemberModel { key: Seq::empty(), value: JsonModel::Null }
            },
    )
}

/// The entries of serde_json's map after `members` were inserted into an
/// empty one, one after the other.
pub open spec fn entered(members: Seq<MemberModel>) -> Seq<MemberModel>
    decreases members.len(),
{
    if members.len() == 0 {
        Seq::empty()
    } else {
        with_entry(entered(members.drop_last()), members.last().key, members.last().value)
    }
}

/// The value that is written for `j`. A number that is held as text is
/// written as what serde_json reads from that text, and as `null` where it
/// reads nothing; the members of an object are entered into serde_json's
/// map in their order.
pub open spec fn written(j: JsonModel) -> JsonModel
    decreases j,
{
    match j {
        JsonModel::Decimal(t) => match json_parse(t) {
            Some(m) => m,
            None => JsonModel::Null,
        },
        JsonModel::Array(items) => JsonModel::Array(written_items(items)),
        JsonModel::Object(members) => JsonModel::Object(entered(written_members(members))),
        other => other,
    }
}

/// The value of the last member named `key` in `members`, if there is one.
pub open spec fn lookup_last(members: Seq<MemberModel>, key: Seq<char>) -> Option<JsonModel>
    decreases members.len(),
{
    if members.len() == 0 {
        None
    } else if members.last().key == key {
        Some(members.last().value)
    } else {
        lookup_last(members.drop_last(), key)
    }
}

/// Whether one of `members` is named `key`.
pub open spec fn has_key(members: Seq<MemberModel>, key: Seq<char>) -> bool {
    exists|i: int| 0 <= i < members.len() && (#[trigger] members[i]).key == key
}

/// Whether no two of `members` have the same name.
pub open spec fn distinct_keys(members: Seq<MemberModel>) -> bool {
    forall|i: int, j: int|
        0 <= i < j < members.len() ==> (#[trigger] members[i]).key != (#[trigger] members[j]).key
}

/// Whether `j` is plain: every number in it is a 64-bit signed integer, and
/// no object in it has two members of one name.
pub open spec fn plain(j: JsonModel) -> bool
    decreases j,
{
    match j {
        JsonModel::Decimal(t) => false,
        JsonModel::Array(items) => forall|i: int|
            0 <= i < items.len() ==> plain(#[trigger] items[i]),
        JsonModel::Object(members) => distinct_keys(members) && forall|i: int|
            0 <= i < members.len() ==> plain((#[trigger] members[i]).value),
        other => true,
    }
}

/// Whether `a` is `b` but for the order of the members of objects: the two
/// are of one kind; scalars are equal; arrays have like items, one for one;
/// and an object `a` has, under each name of a member of `b`, a value like
/// that member's, and has no other names.
pub open spec fn alike(a: JsonModel, b: JsonModel) -> bool
    decreases b,
{
    match b {
        JsonModel::Array(items) => a matches JsonModel::Array(others) && others.len()
            == items.len() && forall|i: int|
            0 <= i < items.len() ==> alike(others[i], #[trigger] items[i]),
        JsonModel::Object(members) => a is Object && (forall|i: int|
            0 <= i < members.len() ==> (a.member((#[trigger] members[i]).key) matches Some(w)
                && alike(w, members[i].value))) && (forall|q: Seq<char>| #[trigger]
            a.member(q) is Some ==> has_key(members, q)),
        other => a == b,
    }
}

/// A lookup of the last member of a name finds one exactly where a member
/// has that name.
pub proof fn lemma_lookup_last(members: Seq<MemberModel>, key: Seq<char>)
    ensures
        lookup_last(members, key) is Some <==> has_key(members, key),
        distinct_keys(members) ==> forall|i: int|
            0 <= i < members.len() && (#[trigger] members[i]).key == key ==> lookup_last(
                members,
                key,
            ) == Some(members[i].value),
    decreases members.len(),
{
    if members.len() > 0 {
        let shorter = members.drop_last();
        let n = members.len() - 1;
        lemma_lookup_last(shorter, key);
        if has_key(members, key) && members.last().key != key {
            let i = choose|i: int| 0 <= i < members.len() && (#[trigger] members[i]).key == key;
            assert(shorter[i].key == key);
        }
        if has_key(shorter, key) {
            let i = choose|i: int| 0 <= i < shorter.len() && (#[trigger] shorter[i]).key == key;
            assert(members[i].key == key);
        }
        if members.last().key == key {
            assert(members[n].key == key);
        }
        if distinct_keys(members) {
            assert forall|i: int, j: int| 0 <= i < j < shorter.len() implies (
            #[trigger] shorter[i]).key != (#[trigger] shorter[j]).key by {
                assert(shorter[i] == members[i] && shorter[j] == members[j]);
            }
            assert forall|i: int|
                0 <= i < members.len() && (#[trigger] members[i]).key == key implies lookup_last(
                members,
                key,
            ) == Some(members[i].value) by {
                if i < n {
                    assert(members[i].key != members[n].key);
                    assert(shorter[i] == members[i]);
                }
            }
        }
    }
}

/// A lookup of the first member of a name finds a member of that name and
/// its value, and finds none only where no member has that name.
pub proof fn lemma_lookup_finds(members: Seq<MemberModel>, key: Seq<char>)
    ensures
        match lookup(members, key) {
            Some(v) => exists|i: int|
                0 <= i < members.len() && (#[trigger] members[i]).key == key && members[i].value
                    == v,
            None => !has_key(members, key),
        },
    decreases members.len(),
{
    if members.len() > 0 {
        let rest = members.drop_first();
        lemma_lookup_finds(rest, key);
        if members[0].key == key {
            assert(members[0].key == key && members[0].value == lookup(members, key)->Some_0);
        } else {
            match lookup(rest, key) {
                Some(v) => {
                    let i = choose|i: int|
                        0 <= i < rest.len() && (#[trigger] rest[i]).key == key && rest[i].value
                            == v;
                    assert(members[i + 1].key == key && members[i + 1].value == v);
                },
                None => {
                    if has_key(members, key) {
                        let i = choose|i: int|
                            0 <= i < members.len() && (#[trigger] members[i]).key == key;
                        assert(rest[i - 1].key == key);
                    }
                },
            }
        }
    }
}

/// What an object that is like another holds under a name: a value like
/// the one that the other holds under it, and nothing where the other holds
/// nothing.
pub proof fn lemma_alike_member(a: JsonModel, members: Seq<MemberModel>, key: Seq<char>)
    requires
        alike(a, JsonModel::Object(members)),
    ensures
        match lookup(members, key) {
            Some(v) => a.member(key) matches Some(w) && alike(w, v),
            None => a.member(key) is None,
        },
{
    lemma_lookup_finds(members, key);
    match lookup(members, key) {
        Some(v) => {
            let i = choose|i: int|
                0 <= i < members.len() && (#[trigger] members[i]).key == key && members[i].value
                    == v;
            assert(a.member(members[i].key) matches Some(w) && alike(w, members[i].value));
        },
        None => {},
    }
}

/// Puts the `serde_json::Value` together that is written for `j`. What is
/// written for a plain value is that value but for the order of the
/// members of its objects.
#[verifier::loop_isolation(false)]
pub fn to_value(j: &Json) -> (r: serde_json::Value)
    ensures
        value_model(r) == written(j@),
        plain(j@) ==> alike(written(j@), j@),
    decreases j,
{
    match j {
        Json::Null => null_value(),
        Json::Bool(b) => bool_value(*b),
        Json::Int(n) => int_value(*n),
        Json::Decimal(t) => match parse_value(t.as_str()) {
            Some(v) => v,
            None => null_value(),
        },
        Json::Str(t) => text_value(t.as_str()),
        Json::Array(items) => {
            proof {
                lemma_array_view(*items);
            }
            let mut out: Vec<serde_json::Value> = Vec::new();
            let mut i: usize = 0;
            while i < items.len()
                invariant
                    i <= items.len(),
                    out.len() == i,
                    *j == Json::Array(*items),
                    forall|k: int| 0 <= k < i ==> value_model(out@[k]) == written(items@[k]@),
                    forall|k: int|
                        0 <= k < i && plain(items@[k]@) ==> alike(
                            written(items@[k]@),
                            #[trigger] items@[k]@,
                        ),
                decreases items.len() - i,
            {
                out.push(to_value(&items[i]));
                i = i + 1;
            }
            proof {
                let given = item_models(items@);
                assert(value_models(out@) =~= written_items(given));
                if plain(j@) {
                    assert forall|k: int| 0 <= k < given.len() implies alike(
                        written_items(given)[k],
                        #[trigger] given[k],
                    ) by {
                        assert(plain(given[k]));
                        assert(given[k] == items@[k]@);
                    }
                }
            }
            array_value(out)
        },
        Json::Object(members) => {
            proof {
                lemma_object_view(*members);
            }
            let ghost given = member_models(members@);
            let ghost wanted = written_members(given);
            let mut out = empty_object();
            let mut i: usize = 0;
            assert(wanted.take(0) =~= Seq::<MemberModel>::empty());
            while i < members.len()
                invariant
                    i <= members.len(),
                    *j == Json::Object(*members),
                    given == member_models(members@),
                    wanted == written_members(given),
                    value_model(out) == JsonModel::Object(entered(wanted.take(i as int))),
                    forall|q: Seq<char>|
                        lookup(entered(wanted.take(i as int)), q) == lookup_last(
                            wanted.take(i as int),
                            q,
                        ),
                    forall|k: int|
                        0 <= k < i && plain(given[k].value) ==> alike(
                            written(given[k].value),
                            (#[trigger] given[k]).value,
                        ),
                decreases members.len() - i,
            {
                let ghost before = entered(wanted.take(i as int));
                let value = to_value(&members[i].value);
                insert_member(&mut out, members[i].key.clone(), value);
                proof {
                    let longer = wanted.take(i as int + 1);
                    assert(longer.drop_last() =~= wanted.take(i as int));
                    assert(longer.last() == wanted[i as int]);
                    assert(given[i as int].value == members@[i as int].value@);
                    assert(entered(longer) == with_entry(
                        before,
                        members@[i as int].key@,
                        written(members@[i as int].value@),
                    ));
                    assert forall|q: Seq<char>| lookup(entered(longer), q) == lookup_last(
                        longer,
                        q,
                    ) by {
                        assert(lookup(value_model(out)->Object_0, q) == if q
                            == members@[i as int].key@ {
                            Some(written(members@[i as int].value@))
                        } else {
                            lookup(before, q)
                        });
                        assert(wanted[i as int].key == members@[i as int].key@);
                        assert(wanted[i as int].value == written(members@[i as int].value@));
                        assert(lookup(before, q) == lookup_last(wanted.take(i as int), q));
                        assert(lookup_last(longer, q) == if q == wanted[i as int].key {
                            Some(wanted[i as int].value)
                        } else {
                            lookup_last(longer.drop_last(), q)
                        });
                    }
                }
                i = i + 1;
            }
            proof {
                assert(wanted.take(i as int) =~= wanted);
                if plain(j@) {
                    let a = written(j@);
                    assert forall|k: int| 0 <= k < given.len() implies (a.member(
                        (#[trigger] given[k]).key,
                    ) matches Some(w) && alike(w, given[k].value)) by {
                        lemma_lookup_last(wanted, given[k].key);
                        assert(wanted[k].key == given[k].key);
                        assert(distinct_keys(wanted)) by {
                            assert forall|x: int, y: int| 0 <= x < y < wanted.len() implies (
                            #[trigger] wanted[x]).key != (#[trigger] wanted[y]).key by {
                                assert(given[x].key != given[y].key);
                            }
                        }
                        assert(plain(given[k].value));
                    }
                    assert forall|q: Seq<char>| #[trigger] a.member(q) is Some implies has_key(
                        given,
                        q,
                    ) by {
                        lemma_lookup_last(wanted, q);
                        let x = choose|x: int|
                            0 <= x < wanted.len() && (#[trigger] wanted[x]).key == q;
                        assert(given[x].key == q);
                    }
                }
            }
            out
        },
    }
}

/// Tests whether `a` is `b` but for the order of the members of objects.
#[verifier::loop_isolation(false)]
pub fn same_json(a: &Json, b: &Json) -> (r: bool)
    ensures
        r == alike(a@, b@),
    decreases b,
{
    match b {
        Json::Array(items) => {
            proof {
                lemma_array_view(*items);
            }
            let others = match a {
                Json::Array(others) => others,
                _ => {
                    return false;
                },
            };
            proof {
                lemma_array_view(*others);
            }
            if others.len() != items.len() {
                return false;
            }
            let mut i: usize = 0;
            while i < items.len()
                invariant
                    i <= items.len(),
                    others.len() == items.len(),
                    forall|k: int| 0 <= k < i ==> alike(others@[k]@, #[trigger] items@[k]@),
                decreases items.len() - i,
            {
                if !same_json(&others[i], &items[i]) {
                    proof {
                        assert(!alike(item_models(others@)[i as int], item_models(items@)[i as int]));
                    }
                    return false;
                }
                i = i + 1;
            }
            proof {
                assert forall|k: int| 0 <= k < item_models(items@).len() implies alike(
                    item_models(others@)[k],
                    #[trigger] item_models(items@)[k],
                ) by {
                    assert(alike(others@[k]@, items@[k]@));
                }
            }
            true
        },
        Json::Object(members) => {
            proof {
                lemma_object_view(*members);
            }
            let own = match a {
                Json::Object(own) => own,
                _ => {
                    return false;
                },
            };
            proof {
                lemma_object_view(*own);
            }
            let ghost given = member_models(members@);
            let ghost held = member_models(own@);
            let mut i: usize = 0;
            while i < members.len()
                invariant
                    i <= members.len(),
                    forall|k: int|
                        0 <= k < i ==> (a@.member((#[trigger] given[k]).key) matches Some(w)
                            && alike(w, given[k].value)),
                decreases members.len() - i,
            {
                let like = match a.get(members[i].key.as_str()) {
                    Some(w) => same_json(w, &members[i].value),
                    None => false,
                };
                if !like {
                    proof {
                        assert(given[i as int].key == members@[i as int].key@);
                        assert(given[i as int].value == members@[i as int].value@);
                        assert(!(a@.member(given[i as int].key) matches Some(w) && alike(
                            w,
                            given[i as int].value,
                        )));
                    }
                    return false;
                }
                i = i + 1;
            }
            let mut n: usize = 0;
            while n < own.len()
                invariant
                    n <= own.len(),
                    forall|k: int| 0 <= k < n ==> has_key(given, (#[trigger] held[k]).key),
                decreases own.len() - n,
            {
                proof {
                    lemma_lookup_finds(given, own@[n as int].key@);
                    lemma_lookup_finds(held, own@[n as int].key@);
                    assert(held[n as int].key == own@[n as int].key@);
                }
                if b.get(own[n].key.as_str()).is_none() {
                    proof {
                        assert(has_key(held, held[n as int].key));
                        assert(a@.member(held[n as int].key) is Some);
                    }
                    return false;
                }
                n = n + 1;
            }
            proof {
                assert forall|q: Seq<char>| #[trigger] a@.member(q) is Some implies has_key(
                    given,
                    q,
                ) by {
                    lemma_lookup_finds(held, q);
                    let k = choose|k: int| 0 <= k < held.len() && (#[trigger] held[k]).key == q;
                    assert(has_key(given, held[k].key));
                }
            }
            true
        },
        Json::Null => match a {
            Json::Null => true,
            _ => false,
        },
        Json::Bool(y) => match a {
            Json::Bool(x) => *x == *y,
            _ => false,
        },
        Json::Int(y) => match a {
            Json::Int(x) => *x == *y,
            _ => false,
        },
        Json::Decimal(y) => match a {
            Json::Decimal(x) => str_eq(x.as_str(), y.as_str()),
            _ => false,
        },
        Json::Str(y) => match a {
            Json::Str(x) => str_eq(x.as_str(), y.as_str()),
            _ => false,
        },
    }
}

/// Reads a JSON text.
pub fn parse_json(text: &str) -> (r: Option<Json>)
    ensures
        match r {
            Some(j) => json_parse(text@) == Some(j@),
            None => json_parse(text@) is None,
        },
{
    match parse_value(text) {
        Some(v) => Some(to_json(&v)),
        None => None,
    }
}

/// Writes a value as JSON text. What is written for a plain value is that
/// value but for the order of the members of its objects.
pub fn json_to_text(j: &Json) -> (r: String)
    ensures
        r@ == json_text(written(j@)),
        plain(j@) ==> alike(written(j@), j@),
{
    let v = to_value(j);
    value_text(&v)
}

} // verus!
