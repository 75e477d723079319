//! JSON values as plain data.
//!
//! Protocol bodies are open-ended, so they travel through the engine as a tree
//! of plain values. [`JsonModel`] is the mathematical value; [`Json`] is the
//! executable one, and its view is the model. An object is an ordered list of
//! members; where a key occurs more than once, the first occurrence is the one
//! that lookups see.

use vstd::prelude::*;

verus! {

/// The mathematical value of a JSON document.
pub enum JsonModel {
    Null,
    Bool(bool),
    /// A number that is a 64-bit signed integer.
    Int(int),
    /// Any other number, held as its JSON text.
    Decimal(Seq<char>),
    Str(Seq<char>),
    Array(Seq<JsonModel>),
    Object(Seq<MemberModel>),
}

/// The mathematical value of one member of a JSON object.
pub struct MemberModel {
    pub key: Seq<char>,
    pub value: JsonModel,
}

/// The value of the first member named `key` in `members`, if there is one.
pub open spec fn lookup(members: Seq<MemberModel>, key: Seq<char>) -> Option<JsonModel>
    decreases members.len(),
{
    if members.len() == 0 {
        None
    } else if members[0].key == key {
        Some(members[0].value)
    } else {
        lookup(members.drop_first(), key)
    }
}

impl JsonModel {
    /// The member named `key`, if this is an object that has one.
    pub open spec fn member(self, key: Seq<char>) -> Option<JsonModel> {
        match self {
            JsonModel::Object(members) => lookup(members, key),
            _ => None,
        }
    }

    /// The integer, if this is one.
    pub open spec fn as_int(self) -> Option<int> {
        match self {
            JsonModel::Int(n) => Some(n),
            _ => None,
        }
    }

    /// The text, if this is a string.
    pub open spec fn as_text(self) -> Option<Seq<char>> {
        match self {
            JsonModel::Str(t) => Some(t),
            _ => None,
        }
    }

    /// The truth value, if this is one.
    pub open spec fn as_flag(self) -> Option<bool> {
        match self {
            JsonModel::Bool(b) => Some(b),
            _ => None,
        }
    }

    /// The items, if this is an array.
    pub open spec fn as_items(self) -> Option<Seq<JsonModel>> {
        match self {
            JsonModel::Array(items) => Some(items),
            _ => None,
        }
    }

    /// The integer member named `key`, if there is one.
    pub open spec fn int_member(self, key: Seq<char>) -> Option<int> {
        match self.member(key) {
            Some(v) => v.as_int(),
            None => None,
        }
    }

    /// The string member named `key`, if there is one.
    pub open spec fn text_member(self, key: Seq<char>) -> Option<Seq<char>> {
        match self.member(key) {
            Some(v) => v.as_text(),
            None => None,
        }
    }
}

/// One member of a JSON object.
#[derive(Debug, PartialEq, Eq)]
pub struct Member {
    pub key: String,
    pub value: Json,
}

/// A JSON value.
#[derive(Debug, PartialEq, Eq)]
pub enum Json {
    Null,
    Bool(bool),
    /// A number that is a 64-bit signed integer.
    Int(i64),
    /// Any other number, held as its JSON text.
    Decimal(String),
    Str(String),
    Array(Vec<Json>),
    Object(Vec<Member>),
}

/// The models of `items`, in order.
pub open spec fn item_models(items: Seq<Json>) -> Seq<JsonModel> {
    Seq::new(
        items.len(),
        |i: int|
            if 0 <= i < items.len() {
                items[i].view()
            } else {
                JsonModel::Null
            },
    )
}

/// The models of `members`, in order.
pub open spec fn member_models(members: Seq<Member>) -> Seq<MemberModel> {
    Seq::new(
        members.len(),
        |i: int|
            if 0 <= i < members.len() {
                MemberModel { key: members[i].key@, value: members[i].value.view() }
            } else {
                MemberModel { key: Seq::empty(), value: JsonModel::Null }
            },
    )
}

impl View for Json {
    type V = JsonModel;

    open spec fn view(&self) -> JsonModel
        decreases self,
    {
        match self {
            Json::Null => JsonModel::Null,
            Json::Bool(b) => JsonModel::Bool(*b),
            Json::Int(n) => JsonModel::Int(*n as int),
            Json::Decimal(t) => JsonModel::Decimal(t@),
            Json::Str(t) => JsonModel::Str(t@),
            Json::Array(items) => JsonModel::Array(
                Seq::new(
                    items@.len(),
                    |i: int|
                        if 0 <= i < items@.len() {
                            items@[i].view()
                        } else {
                            JsonModel::Null
                        },
                ),
            ),
            Json::Object(members) => JsonModel::Object(
                Seq::new(
                    members@.len(),
                    |i: int|
                        if 0 <= i < members@.len() {
                            MemberModel { key: members@[i].key@, value: members@[i].value.view() }
                        } else {
                            MemberModel { key: Seq::empty(), value: JsonModel::Null }
                        },
                ),
            ),
        }
    }
}

/// An array's model is the models of its items.
pub proof fn lemma_array_view(items: Vec<Json>)
    ensures
        Json::Array(items)@ == JsonModel::Array(item_models(items@)),
{
    assert(Json::Array(items)@->Array_0 =~= item_models(items@));
}

/// An object's model is the models of its members.
pub proof fn lemma_object_view(members: Vec<Member>)
    ensures
        Json::Object(members)@ == JsonModel::Object(member_models(members@)),
{
    assert(Json::Object(members)@->Object_0 =~= member_models(members@));
}

impl Clone for Json {
    #[verifier::loop_isolation(false)]
    fn clone(&self) -> (r: Self)
        ensures
            r@ == self@,
        decreases self,
    {
        match self {
            Json::Null => Json::Null,
            Json::Bool(b) => Json::Bool(*b),
            Json::Int(n) => Json::Int(*n),
            Json::Decimal(t) => Json::Decimal(t.clone()),
            Json::Str(t) => Json::Str(t.clone()),
            Json::Array(items) => {
                let mut out: Vec<Json> = Vec::new();
                let mut i: usize = 0;
                while i < items.len()
                    invariant
                        i <= items.len(),
                        out.len() == i,
                        forall|k: int| 0 <= k < i ==> out@[k]@ == items@[k]@,
                    decreases items.len() - i,
                {
                    out.push(items[i].clone());
                    i = i + 1;
                }
                let r = Json::Array(out);
                assert(r@->Array_0 =~= self@->Array_0);
                r
            },
            Json::Object(members) => {
                let mut out: Vec<Member> = Vec::new();
                let mut i: usize = 0;
                while i < members.len()
                    invariant
                        i <= members.len(),
                        out.len() == i,
                        forall|k: int|
                            0 <= k < i ==> out@[k].key@ == members@[k].key@ && out@[k].value@
                                == members@[k].value@,
                    decreases members.len() - i,
                {
                    out.push(Member { key: members[i].key.clone(), value: members[i].value.clone() });
                    i = i + 1;
                }
                let r = Json::Object(out);
                assert(r@->Object_0 =~= self@->Object_0);
                r
            },
        }
    }
}

impl Json {
    /// The member named `key`, if this is an object that has one.
    pub fn get(&self, key: &str) -> (r: Option<&Json>)
        ensures
            match r {
                Some(v) => self@.member(key@) == Some(v@),
                None => self@.member(key@) is None,
            },
    {
        match self {
            Json::Object(members) => {
                let wanted = String::from_str(key);
                let ghost all = member_models(members@);
                proof {
                    lemma_object_view(*members);
                }
                let mut i: usize = 0;
                assert(all.skip(0) =~= all);
                while i < members.len()
                    invariant
                        i <= members.len(),
                        wanted@ == key@,
                        all == member_models(members@),
                        self@ == JsonModel::Object(all),
                        lookup(all, key@) == lookup(all.skip(i as int), key@),
                    decreases members.len() - i,
                {
                    proof {
                        assert(all.skip(i as int)[0] == all[i as int]);
                        assert(all.skip(i as int).drop_first() =~= all.skip(i as int + 1));
                    }
                    if members[i].key == wanted {
                        return Some(&members[i].value);
                    }
                    i = i + 1;
                }
                None
            },
            _ => None,
        }
    }

    /// The integer, if this is one.
    pub fn as_i64(&self) -> (r: Option<i64>)
        ensures
            match r {
                Some(n) => self@.as_int() == Some(n as int),
                None => self@.as_int() is None,
            },
    {
        match self {
            Json::Int(n) => Some(*n),
            _ => None,
        }
    }

    /// The text, if this is a string.
    pub fn as_str(&self) -> (r: Option<&str>)
        ensures
            match r {
                Some(t) => self@.as_text() == Some(t@),
                None => self@.as_text() is None,
            },
    {
        match self {
            Json::Str(t) => Some(t.as_str()),
            _ => None,
        }
    }

    /// The truth value, if this is one.
    pub fn as_bool(&self) -> (r: Option<bool>)
        ensures
            r == self@.as_flag(),
    {
        match self {
            Json::Bool(b) => Some(*b),
            _ => None,
        }
    }

    /// The items, if this is an array.
    pub fn as_array(&self) -> (r: Option<&Vec<Json>>)
        ensures
            match r {
                Some(items) => self@.as_items() == Some(item_models(items@)),
                None => self@.as_items() is None,
            },
    {
        match self {
            Json::Array(items) => {
                proof {
                    lemma_array_view(*items);
                }
                Some(items)
            },
            _ => None,
        }
    }

    /// The integer member named `key`, if there is one.
    pub fn get_i64(&self, key: &str) -> (r: Option<i64>)
        ensures
            match r {
                Some(n) => self@.int_member(key@) == Some(n as int),
                None => self@.int_member(key@) is None,
            },
    {
        match self.get(key) {
            Some(v) => v.as_i64(),
            None => None,
        }
    }

    /// The string member named `key`, if there is one.
    pub fn get_str(&self, key: &str) -> (r: Option<&str>)
        ensures
            match r {
                Some(t) => self@.text_member(key@) == Some(t@),
                None => self@.text_member(key@) is None,
            },
    {
        match self.get(key) {
            Some(v) => v.as_str(),
            None => None,
        }
    }

    /// A string value holding `text`.
    pub fn text(text: &str) -> (r: Json)
        ensures
            r@ == JsonModel::Str(text@),
    {
        Json::Str(String::from_str(text))
    }

    /// An object without members.
    pub fn object() -> (r: Json)
        ensures
            r@ == JsonModel::Object(Seq::empty()),
    {
        let r = Json::Object(Vec::new());
        assert(r@->Object_0 =~= Seq::empty());
        r
    }

    /// This object with one more member at its end. A value that is no object
    /// is returned unchanged.
    pub fn with(self, key: &str, value: Json) -> (r: Json)
        ensures
            r@ == match self@ {
                JsonModel::Object(members) => JsonModel::Object(members.push(MemberModel { key: key@, value: value@ })),
                other => other,
            },
    {
        match self {
            Json::Object(mut members) => {
                let ghost before = members;
                members.push(Member { key: String::from_str(key), value });
                proof {
                    lemma_object_view(before);
                    lemma_object_view(members);
                    assert(member_models(members@) =~= member_models(before@).push(MemberModel { key: key@, value: value@ }));
                }
                Json::Object(members)
            },
            other => other,
        }
    }
}

/// A lookup in a list with one more member at its end finds what it found
/// before, and the new member only where the key was absent.
pub proof fn lemma_lookup_push(
    members: Seq<MemberModel>,
    key: Seq<char>,
    value: JsonModel,
    wanted: Seq<char>,
)
    ensures
        lookup(members.push(MemberModel { key, value }), wanted) == match lookup(members, wanted) {
            Some(v) => Some(v),
            None => if key == wanted {
                Some(value)
            } else {
                None
            },
        },
    decreases members.len(),
{
    let longer = members.push(MemberModel { key, value });
    reveal_with_fuel(lookup, 2);
    if members.len() == 0 {
        assert(longer.drop_first() =~= Seq::empty());
    } else {
        assert(longer[0] == members[0]);
        assert(longer.drop_first() =~= members.drop_first().push(MemberModel { key, value }));
        if members[0].key != wanted {
            lemma_lookup_push(members.drop_first(), key, value, wanted);
        }
    }
}

} // verus!
