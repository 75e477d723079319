//! Protocol messages and their JSON form.
//!
//! A message is a JSON object. `seq` and `type` are always present; each of
//! the other members is present where the message holds a value for it. On
//! reading, a member that is absent or `null` stands for no value, and
//! members that the protocol does not name are passed over.

use vstd::prelude::*;
use crate::json::{Json, JsonModel, MemberModel, lookup, lemma_lookup_push};
use crate::wire::{alike, distinct_keys, has_key, lemma_alike_member, plain, same_json};
use crate::text::{str_eq, text_view, clone_text};

verus! {

/// The kind of a protocol message.
#[derive(Debug, Clone, Copy, PartialEq, Eq, Structural)]
pub enum MessageType {
    Request,
    Response,
    Event,
}

/// The name by which a message kind goes on the wire.
pub open spec fn kind_name(t: MessageType) -> Seq<char> {
    match t {
        MessageType::Request => "request"@,
        MessageType::Response => "response"@,
        MessageType::Event => "event"@,
    }
}

/// The message kind that a wire name stands for.
pub open spec fn kind_named(name: Seq<char>) -> Option<MessageType> {
    if name == "request"@ {
        Some(MessageType::Request)
    } else if name == "response"@ {
        Some(MessageType::Response)
    } else if name == "event"@ {
        Some(MessageType::Event)
    } else {
        None
    }
}

impl MessageType {
    /// The name by which this kind goes on the wire.
    pub fn as_str(&self) -> (r: &'static str)
        ensures
            r@ == kind_name(*self),
    {
        match self {
            MessageType::Request => "request",
            MessageType::Response => "response",
            MessageType::Event => "event",
        }
    }

    /// The kind that a wire name stands for.
    pub fn from_name(name: &str) -> (r: Option<MessageType>)
        ensures
            r == kind_named(name@),
    {
        if str_eq(name, "request") {
            Some(MessageType::Request)
        } else if str_eq(name, "response") {
            Some(MessageType::Response)
        } else if str_eq(name, "event") {
            Some(MessageType::Event)
        } else {
            None
        }
    }
}

/// The three wire names differ, so each names its own kind.
pub proof fn lemma_kind_names(t: MessageType)
    ensures
        kind_named(kind_name(t)) == Some(t),
{
    reveal_strlit("request");
    reveal_strlit("response");
    reveal_strlit("event");
    assert("request"@.len() == 7);
    assert("response"@.len() == 8);
    assert("event"@.len() == 5);
}

/// One protocol message.
#[derive(Debug, PartialEq, Eq)]
pub struct DAPMessage {
    pub seq: i32,
    pub message_type: MessageType,
    pub command: Option<String>,
    pub request_seq: Option<i32>,
    pub success: Option<bool>,
    pub body: Option<Json>,
    pub event: Option<String>,
    pub arguments: Option<Json>,
}

/// The mathematical value of a [`DAPMessage`].
pub struct DAPMessageModel {
    pub seq: int,
    pub message_type: MessageType,
    pub command: Option<Seq<char>>,
    pub request_seq: Option<int>,
    pub success: Option<bool>,
    pub body: Option<JsonModel>,
    pub event: Option<Seq<char>>,
    pub arguments: Option<JsonModel>,
}

/// The model of an optional JSON value.
pub open spec fn json_view(o: Option<Json>) -> Option<JsonModel> {
    match o {
        Some(j) => Some(j@),
        None => None,
    }
}

/// The value of an optional 32-bit number.
pub open spec fn int_view(o: Option<i32>) -> Option<int> {
    match o {
        Some(n) => Some(n as int),
        None => None,
    }
}

impl View for DAPMessage {
    type V = DAPMessageModel;

    open spec fn view(&self) -> DAPMessageModel {
        DAPMessageModel {
            seq: self.seq as int,
            message_type: self.message_type,
            command: text_view(self.command),
            request_seq: int_view(self.request_seq),
            success: self.success,
            body: json_view(self.body),
            event: text_view(self.event),
            arguments: json_view(self.arguments),
        }
    }
}

/// A copy of an optional JSON value.
pub fn clone_json(o: &Option<Json>) -> (r: Option<Json>)
    ensures
        json_view(r) == json_view(*o),
{
    match o {
        Some(j) => Some(j.clone()),
        None => None,
    }
}

impl Clone for DAPMessage {
    fn clone(&self) -> (r: Self)
        ensures
            r@ == self@,
    {
        DAPMessage {
            seq: self.seq,
            message_type: self.message_type,
            command: clone_text(&self.command),
            request_seq: self.request_seq,
            success: self.success,
            body: clone_json(&self.body),
            event: clone_text(&self.event),
            arguments: clone_json(&self.arguments),
        }
    }
}

/// Why a JSON value is no protocol message.
#[derive(Debug, Clone, Copy, PartialEq, Eq, Structural)]
pub enum MessageError {
    /// The value is no object.
    NotAnObject,
    /// `seq` is absent or no 32-bit integer.
    BadSeq,
    /// `type` is absent or none of the three kinds.
    BadType,
    /// `command` is present and no string.
    BadCommand,
    /// `request_seq` is present and no 32-bit integer.
    BadRequestSeq,
    /// `success` is present and no truth value.
    BadSuccess,
    /// `event` is present and no string.
    BadEvent,
}

/// The member of `j` named `key`, where it is present and not `null`.
pub open spec fn present(j: JsonModel, key: Seq<char>) -> Option<JsonModel> {
    match j.member(key) {
        Some(JsonModel::Null) => None,
        other => other,
    }
}

/// Whether `n` is a 32-bit signed integer.
pub open spec fn fits_i32(n: int) -> bool {
    i32::MIN <= n <= i32::MAX
}

/// The message that the JSON value `j` holds, or why it holds none. The
/// members are tested in the order of the error kinds.
pub open spec fn decode_message(j: JsonModel) -> Result<DAPMessageModel, MessageError> {
    if !(j is Object) {
        Err(MessageError::NotAnObject)
    } else if !(j.member("seq"@) matches Some(JsonModel::Int(n)) && fits_i32(n)) {
        Err(MessageError::BadSeq)
    } else if !(j.member("type"@) matches Some(JsonModel::Str(t)) && kind_named(t) is Some) {
        Err(MessageError::BadType)
    } else if !(present(j, "command"@) matches Some(v) ==> v is Str) {
        Err(MessageError::BadCommand)
    } else if !(present(j, "request_seq"@) matches Some(v) ==> v matches JsonModel::Int(n)
        && fits_i32(n)) {
        Err(MessageError::BadRequestSeq)
    } else if !(present(j, "success"@) matches Some(v) ==> v is Bool) {
        Err(MessageError::BadSuccess)
    } else if !(present(j, "event"@) matches Some(v) ==> v is Str) {
        Err(MessageError::BadEvent)
    } else {
        Ok(
            DAPMessageModel {
                seq: j.member("seq"@)->Some_0->Int_0,
                message_type: kind_named(j.member("type"@)->Some_0->Str_0)->Some_0,
                command: match present(j, "command"@) {
                    Some(v) => Some(v->Str_0),
                    None => None,
                },
                request_seq: match present(j, "request_seq"@) {
                    Some(v) => Some(v->Int_0),
                    None => None,
                },
                success: match present(j, "success"@) {
                    Some(v) => Some(v->Bool_0),
                    None => None,
                },
                body: present(j, "body"@),
                event: match present(j, "event"@) {
                    Some(v) => Some(v->Str_0),
                    None => None,
                },
                arguments: present(j, "arguments"@),
            },
        )
    }
}

/// `members` with one more member at its end where there is a value for it.
pub open spec fn with_optional(
    members: Seq<MemberModel>,
    key: Seq<char>,
    value: Option<JsonModel>,
) -> Seq<MemberModel> {
    match value {
        Some(v) => members.push(MemberModel { key, value: v }),
        None => members,
    }
}

/// The text of an optional string as a JSON value.
pub open spec fn text_json(o: Option<Seq<char>>) -> Option<JsonModel> {
    match o {
        Some(t) => Some(JsonModel::Str(t)),
        None => None,
    }
}

/// An optional number as a JSON value.
pub open spec fn int_json(o: Option<int>) -> Option<JsonModel> {
    match o {
        Some(n) => Some(JsonModel::Int(n)),
        None => None,
    }
}

/// An optional truth value as a JSON value.
pub open spec fn flag_json(o: Option<bool>) -> Option<JsonModel> {
    match o {
        Some(b) => Some(JsonModel::Bool(b)),
        None => None,
    }
}

/// The members of the JSON form of `m`, in the order in which they are written.
pub open spec fn message_members(m: DAPMessageModel) -> Seq<MemberModel> {
    let base = seq![
        MemberModel { key: "seq"@, value: JsonModel::Int(m.seq) },
        MemberModel { key: "type"@, value: JsonModel::Str(kind_name(m.message_type)) },
    ];
    let a = with_optional(base, "command"@, text_json(m.command));
    let b = with_optional(a, "request_seq"@, int_json(m.request_seq));
    let c = with_optional(b, "success"@, flag_json(m.success));
    let d = with_optional(c, "body"@, m.body);
    let e = with_optional(d, "event"@, text_json(m.event));
    with_optional(e, "arguments"@, m.arguments)
}

/// The JSON form of `m`.
pub open spec fn message_json(m: DAPMessageModel) -> JsonModel {
    JsonModel::Object(message_members(m))
}

/// The member of `j` named `key`, where it is present and not `null`.
fn present_member<'a>(j: &'a Json, key: &str) -> (r: Option<&'a Json>)
    ensures
        match r {
            Some(v) => present(j@, key@) == Some(v@),
            None => present(j@, key@) is None,
        },
{
    match j.get(key) {
        Some(Json::Null) => None,
        other => other,
    }
}

/// The optional string member of `j` named `key`; `Err` where the member is
/// present and no string.
fn optional_text(j: &Json, key: &str) -> (r: Result<Option<String>, ()>)
    ensures
        match r {
            Ok(o) => (present(j@, key@) matches Some(v) ==> v is Str) && text_view(o) == (
            match present(j@, key@) {
                Some(v) => Some(v->Str_0),
                None => None,
            }),
            Err(_) => !(present(j@, key@) matches Some(v) ==> v is Str),
        },
{
    match present_member(j, key) {
        None => Ok(None),
        Some(v) => match v {
            Json::Str(t) => Ok(Some(t.clone())),
            _ => Err(()),
        },
    }
}

/// `n` as a 32-bit number, where it is one.
fn to_i32(n: i64) -> (r: Option<i32>)
    ensures
        match r {
            Some(m) => m == n,
            None => !fits_i32(n as int),
        },
{
    if -2147483648 <= n && n <= 2147483647 {
        Some(n as i32)
    } else {
        None
    }
}

impl DAPMessage {
    /// The JSON form of this message.
    pub fn to_json(&self) -> (r: Json)
        ensures
            r@ == message_json(self@),
    {
        let mut j = Json::object().with("seq", Json::Int(self.seq as i64)).with(
            "type",
            Json::text(self.message_type.as_str()),
        );
        assert(j@->Object_0 =~= seq![
            MemberModel { key: "seq"@, value: JsonModel::Int(self.seq as int) },
            MemberModel { key: "type"@, value: JsonModel::Str(kind_name(self.message_type)) },
        ]);
        if let Some(c) = &self.command {
            j = j.with("command", Json::text(c.as_str()));
        }
        if let Some(n) = self.request_seq {
            j = j.with("request_seq", Json::Int(n as i64));
        }
        if let Some(b) = self.success {
            j = j.with("success", Json::Bool(b));
        }
        if let Some(b) = &self.body {
            j = j.with("body", b.clone());
        }
        if let Some(e) = &self.event {
            j = j.with("event", Json::text(e.as_str()));
        }
        if let Some(a) = &self.arguments {
            j = j.with("arguments", a.clone());
        }
        j
    }

    /// Reads a message from its JSON form.
    pub fn from_json(j: &Json) -> (r: Result<DAPMessage, MessageError>)
        ensures
            match r {
                Ok(m) => decode_message(j@) == Ok::<DAPMessageModel, MessageError>(m@),
                Err(e) => decode_message(j@) == Err::<DAPMessageModel, MessageError>(e),
            },
    {
        match j {
            Json::Object(_) => {},
            _ => {
                return Err(MessageError::NotAnObject);
            },
        }
        let seq = match j.get("seq") {
            Some(Json::Int(n)) => match to_i32(*n) {
                Some(s) => s,
                None => {
                    return Err(MessageError::BadSeq);
                },
            },
            _ => {
                return Err(MessageError::BadSeq);
            },
        };
        let message_type = match j.get("type") {
            Some(Json::Str(t)) => match MessageType::from_name(t.as_str()) {
                Some(k) => k,
                None => {
                    return Err(MessageError::BadType);
                },
            },
            _ => {
                return Err(MessageError::BadType);
            },
        };
        let command = match optional_text(j, "command") {
            Ok(o) => o,
            Err(_) => {
                return Err(MessageError::BadCommand);
            },
        };
        let request_seq = match present_member(j, "request_seq") {
            None => None,
            Some(Json::Int(n)) => match to_i32(*n) {
                Some(s) => Some(s),
                None => {
                    return Err(MessageError::BadRequestSeq);
                },
            },
            Some(_) => {
                return Err(MessageError::BadRequestSeq);
            },
        };
        let success = match present_member(j, "success") {
            None => None,
            Some(Json::Bool(b)) => Some(*b),
            Some(_) => {
                return Err(MessageError::BadSuccess);
            },
        };
        let event = match optional_text(j, "event") {
            Ok(o) => o,
            Err(_) => {
                return Err(MessageError::BadEvent);
            },
        };
        let body = match present_member(j, "body") {
            Some(v) => Some(v.clone()),
            None => None,
        };
        let arguments = match present_member(j, "arguments") {
            Some(v) => Some(v.clone()),
            None => None,
        };
        Ok(DAPMessage { seq, message_type, command, request_seq, success, body, event, arguments })
    }
}


/// What a lookup finds in a member list that was extended where there was a
/// value.
pub proof fn lemma_with_optional(
    members: Seq<MemberModel>,
    key: Seq<char>,
    value: Option<JsonModel>,
    wanted: Seq<char>,
)
    ensures
        lookup(with_optional(members, key, value), wanted) == match lookup(members, wanted) {
            Some(v) => Some(v),
            None => if key == wanted {
                value
            } else {
                None
            },
        },
{
    if let Some(v) = value {
        lemma_lookup_push(members, key, v, wanted);
    }
}

/// The eight member names differ from one another.
pub proof fn lemma_member_names_differ()
    ensures
        "seq"@.len() == 3,
        "type"@.len() == 4,
        "command"@.len() == 7,
        "request_seq"@.len() == 11,
        "success"@.len() == 7,
        "body"@.len() == 4,
        "event"@.len() == 5,
        "arguments"@.len() == 9,
        "type"@ != "body"@,
        "command"@ != "success"@,
{
    reveal_strlit("seq");
    reveal_strlit("type");
    reveal_strlit("command");
    reveal_strlit("request_seq");
    reveal_strlit("success");
    reveal_strlit("body");
    reveal_strlit("event");
    reveal_strlit("arguments");
    assert("type"@[0] != "body"@[0]);
    assert("command"@[0] != "success"@[0]);
}

/// The member named `wanted` in the JSON form of `m`.
pub open spec fn written_member(m: DAPMessageModel, wanted: Seq<char>) -> Option<JsonModel> {
    if wanted == "seq"@ {
        Some(JsonModel::Int(m.seq))
    } else if wanted == "type"@ {
        Some(JsonModel::Str(kind_name(m.message_type)))
    } else if wanted == "command"@ {
        text_json(m.command)
    } else if wanted == "request_seq"@ {
        int_json(m.request_seq)
    } else if wanted == "success"@ {
        flag_json(m.success)
    } else if wanted == "body"@ {
        m.body
    } else if wanted == "event"@ {
        text_json(m.event)
    } else if wanted == "arguments"@ {
        m.arguments
    } else {
        None
    }
}

/// A lookup in the JSON form of a message finds the member that was written
/// under that name, and nothing under any other name.
pub proof fn lemma_written_member(m: DAPMessageModel, wanted: Seq<char>)
    ensures
        message_json(m).member(wanted) == written_member(m, wanted),
{
    lemma_member_names_differ();
    let base = seq![
        MemberModel { key: "seq"@, value: JsonModel::Int(m.seq) },
        MemberModel { key: "type"@, value: JsonModel::Str(kind_name(m.message_type)) },
    ];
    let a = with_optional(base, "command"@, text_json(m.command));
    let b = with_optional(a, "request_seq"@, int_json(m.request_seq));
    let c = with_optional(b, "success"@, flag_json(m.success));
    let d = with_optional(c, "body"@, m.body);
    let e = with_optional(d, "event"@, text_json(m.event));
    assert(lookup(base, wanted) == if wanted == "seq"@ {
        Some(JsonModel::Int(m.seq))
    } else if wanted == "type"@ {
        Some(JsonModel::Str(kind_name(m.message_type)))
    } else {
        None
    }) by {
        reveal_with_fuel(lookup, 3);
        assert(base.drop_first().drop_first() =~= Seq::empty());
    }
    lemma_with_optional(base, "command"@, text_json(m.command), wanted);
    lemma_with_optional(a, "request_seq"@, int_json(m.request_seq), wanted);
    lemma_with_optional(b, "success"@, flag_json(m.success), wanted);
    lemma_with_optional(c, "body"@, m.body, wanted);
    lemma_with_optional(d, "event"@, text_json(m.event), wanted);
    lemma_with_optional(e, "arguments"@, m.arguments, wanted);
}

/// Whether every value of `members` is plain.
pub open spec fn all_plain(members: Seq<MemberModel>) -> bool {
    forall|i: int| 0 <= i < members.len() ==> plain((#[trigger] members[i]).value)
}

/// Whether what a message carries is plain: its body and its arguments,
/// where it has them.
pub open spec fn plain_message(m: DAPMessageModel) -> bool {
    &&& m.body matches Some(b) ==> plain(b)
    &&& m.arguments matches Some(a) ==> plain(a)
}

/// Adding a member under a new name keeps the names distinct and the values
/// plain.
pub proof fn lemma_optional_member(members: Seq<MemberModel>, key: Seq<char>, value: Option<JsonModel>)
    requires
        distinct_keys(members),
        all_plain(members),
        !has_key(members, key),
        value matches Some(v) ==> plain(v),
    ensures
        distinct_keys(with_optional(members, key, value)),
        all_plain(with_optional(members, key, value)),
{
    if let Some(v) = value {
        let longer = members.push(MemberModel { key, value: v });
        assert forall|i: int, j: int| 0 <= i < j < longer.len() implies (#[trigger] longer[i]).key
            != (#[trigger] longer[j]).key by {
            if j < members.len() {
                assert(longer[i] == members[i] && longer[j] == members[j]);
            } else {
                assert(longer[i] == members[i]);
                assert(members[i].key != key);
            }
        }
        assert forall|i: int| 0 <= i < longer.len() implies plain((#[trigger] longer[i]).value) by {
            if i < members.len() {
                assert(longer[i] == members[i]);
            }
        }
    }
}

/// Adding a member under one name adds none under another.
pub proof fn lemma_optional_member_absent(
    members: Seq<MemberModel>,
    key: Seq<char>,
    value: Option<JsonModel>,
    other: Seq<char>,
)
    requires
        !has_key(members, other),
        key != other,
    ensures
        !has_key(with_optional(members, key, value), other),
{
    let longer = with_optional(members, key, value);
    if has_key(longer, other) {
        let i = choose|i: int| 0 <= i < longer.len() && (#[trigger] longer[i]).key == other;
        if i < members.len() {
            assert(members[i].key == other);
        }
    }
}

/// The JSON form of a message that carries plain values is plain.
pub proof fn lemma_message_json_is_plain(m: DAPMessageModel)
    requires
        plain_message(m),
    ensures
        plain(message_json(m)),
{
    lemma_member_names_differ();
    let base = seq![
        MemberModel { key: "seq"@, value: JsonModel::Int(m.seq) },
        MemberModel { key: "type"@, value: JsonModel::Str(kind_name(m.message_type)) },
    ];
    let a = with_optional(base, "command"@, text_json(m.command));
    let b = with_optional(a, "request_seq"@, int_json(m.request_seq));
    let c = with_optional(b, "success"@, flag_json(m.success));
    let d = with_optional(c, "body"@, m.body);
    let e = with_optional(d, "event"@, text_json(m.event));
    let f = with_optional(e, "arguments"@, m.arguments);
    assert(distinct_keys(base) && all_plain(base));
    assert(!has_key(base, "command"@));
    assert(!has_key(base, "request_seq"@));
    assert(!has_key(base, "success"@));
    assert(!has_key(base, "body"@));
    assert(!has_key(base, "event"@));
    assert(!has_key(base, "arguments"@));
    lemma_optional_member(base, "command"@, text_json(m.command));
    lemma_optional_member_absent(base, "command"@, text_json(m.command), "request_seq"@);
    lemma_optional_member_absent(base, "command"@, text_json(m.command), "success"@);
    lemma_optional_member_absent(base, "command"@, text_json(m.command), "body"@);
    lemma_optional_member_absent(base, "command"@, text_json(m.command), "event"@);
    lemma_optional_member_absent(base, "command"@, text_json(m.command), "arguments"@);
    lemma_optional_member(a, "request_seq"@, int_json(m.request_seq));
    lemma_optional_member_absent(a, "request_seq"@, int_json(m.request_seq), "success"@);
    lemma_optional_member_absent(a, "request_seq"@, int_json(m.request_seq), "body"@);
    lemma_optional_member_absent(a, "request_seq"@, int_json(m.request_seq), "event"@);
    lemma_optional_member_absent(a, "request_seq"@, int_json(m.request_seq), "arguments"@);
    lemma_optional_member(b, "success"@, flag_json(m.success));
    lemma_optional_member_absent(b, "success"@, flag_json(m.success), "body"@);
    lemma_optional_member_absent(b, "success"@, flag_json(m.success), "event"@);
    lemma_optional_member_absent(b, "success"@, flag_json(m.success), "arguments"@);
    lemma_optional_member(c, "body"@, m.body);
    lemma_optional_member_absent(c, "body"@, m.body, "event"@);
    lemma_optional_member_absent(c, "body"@, m.body, "arguments"@);
    lemma_optional_member(d, "event"@, text_json(m.event));
    lemma_optional_member_absent(d, "event"@, text_json(m.event), "arguments"@);
    lemma_optional_member(e, "arguments"@, m.arguments);
}

/// Whether the optional value `a` is like the optional value `b`.
pub open spec fn alike_optional(a: Option<JsonModel>, b: Option<JsonModel>) -> bool {
    match b {
        Some(v) => a matches Some(w) && alike(w, v),
        None => a is None,
    }
}

/// Whether the message `got` is the message `m` but for the order of the
/// members of the objects in its body and its arguments.
pub open spec fn alike_message(got: DAPMessageModel, m: DAPMessageModel) -> bool {
    &&& got.seq == m.seq
    &&& got.message_type == m.message_type
    &&& got.command == m.command
    &&& got.request_seq == m.request_seq
    &&& got.success == m.success
    &&& got.event == m.event
    &&& alike_optional(got.body, m.body)
    &&& alike_optional(got.arguments, m.arguments)
}

/// Tests whether two optional values are alike.
fn same_optional(a: &Option<Json>, b: &Option<Json>) -> (r: bool)
    ensures
        r == alike_optional(json_view(*a), json_view(*b)),
{
    match b {
        Some(v) => match a {
            Some(w) => same_json(w, v),
            None => false,
        },
        None => a.is_none(),
    }
}

/// Tests whether two optional texts are equal.
fn same_text(a: &Option<String>, b: &Option<String>) -> (r: bool)
    ensures
        r == (text_view(*a) == text_view(*b)),
{
    match (a, b) {
        (Some(x), Some(y)) => str_eq(x.as_str(), y.as_str()),
        (None, None) => true,
        _ => false,
    }
}

/// Tests whether the message `a` is the message `b` but for the order of
/// the members of the objects in its body and its arguments.
pub fn same_message(a: &DAPMessage, b: &DAPMessage) -> (r: bool)
    ensures
        r == alike_message(a@, b@),
{
    a.seq == b.seq && a.message_type == b.message_type && same_text(&a.command, &b.command)
        && a.request_seq == b.request_seq && a.success == b.success && same_text(
        &a.event,
        &b.event,
    ) && same_optional(&a.body, &b.body) && same_optional(&a.arguments, &b.arguments)
}

/// A value that is like another and no `null` where the other is none.
pub proof fn lemma_alike_kind(a: JsonModel, b: JsonModel)
    requires
        alike(a, b),
    ensures
        b is Null <==> a is Null,
        b is Int ==> a == b,
        b is Str ==> a == b,
        b is Bool ==> a == b,
{
}

/// Reading a JSON value that is like the JSON form of a message gives that
/// message, but for the order of the members of the objects it carries.
pub proof fn lemma_alike_message_is_read(x: JsonModel, m: DAPMessageModel)
    requires
        readable(m),
        alike(x, message_json(m)),
    ensures
        decode_message(x) matches Ok(got) && alike_message(got, m),
{
    let members = message_members(m);
    lemma_kind_names(m.message_type);
    lemma_member_names_differ();
    lemma_written_member(m, "seq"@);
    lemma_written_member(m, "type"@);
    lemma_written_member(m, "command"@);
    lemma_written_member(m, "request_seq"@);
    lemma_written_member(m, "success"@);
    lemma_written_member(m, "body"@);
    lemma_written_member(m, "event"@);
    lemma_written_member(m, "arguments"@);
    lemma_alike_member(x, members, "seq"@);
    lemma_alike_member(x, members, "type"@);
    lemma_alike_member(x, members, "command"@);
    lemma_alike_member(x, members, "request_seq"@);
    lemma_alike_member(x, members, "success"@);
    lemma_alike_member(x, members, "body"@);
    lemma_alike_member(x, members, "event"@);
    lemma_alike_member(x, members, "arguments"@);
    assert(x.member("seq"@) == Some(JsonModel::Int(m.seq)));
    assert(x.member("type"@) == Some(JsonModel::Str(kind_name(m.message_type))));
    assert(present(x, "command"@) == text_json(m.command));
    assert(present(x, "request_seq"@) == int_json(m.request_seq));
    assert(present(x, "success"@) == flag_json(m.success));
    assert(present(x, "event"@) == text_json(m.event));
    if let Some(b) = m.body {
        lemma_alike_kind(x.member("body"@)->Some_0, b);
    }
    if let Some(a) = m.arguments {
        lemma_alike_kind(x.member("arguments"@)->Some_0, a);
    }
    assert(alike_optional(present(x, "body"@), m.body));
    assert(alike_optional(present(x, "arguments"@), m.arguments));
    let r = decode_message(x);
    assert(r is Ok);
}


/// Whether a message can be told from its JSON form: its numbers are 32-bit,
/// and neither its body nor its arguments is `null`, which on reading stands
/// for no value.
pub open spec fn readable(m: DAPMessageModel) -> bool {
    &&& fits_i32(m.seq)
    &&& m.request_seq matches Some(n) ==> fits_i32(n)
    &&& m.body != Some(JsonModel::Null)
    &&& m.arguments != Some(JsonModel::Null)
}

/// Reading the JSON form of a message gives the message back.
pub proof fn lemma_message_round_trip(m: DAPMessageModel)
    requires
        readable(m),
    ensures
        decode_message(message_json(m)) == Ok::<DAPMessageModel, MessageError>(m),
{
    let j = message_json(m);
    lemma_kind_names(m.message_type);
    lemma_written_member(m, "seq"@);
    lemma_written_member(m, "type"@);
    lemma_written_member(m, "command"@);
    lemma_written_member(m, "request_seq"@);
    lemma_written_member(m, "success"@);
    lemma_written_member(m, "body"@);
    lemma_written_member(m, "event"@);
    lemma_written_member(m, "arguments"@);
    lemma_member_names_differ();
    let r = decode_message(j);
    assert(r is Ok);
    let got = r->Ok_0;
    assert(got.seq == m.seq);
    assert(got.message_type == m.message_type);
    assert(got.command == m.command);
    assert(got.request_seq == m.request_seq);
    assert(got.success == m.success);
    assert(got.body == m.body);
    assert(got.event == m.event);
    assert(got.arguments == m.arguments);
}

/// A message held in memory can be told from its JSON form where neither its
/// body nor its arguments is `null`.
pub proof fn lemma_held_message_round_trip(m: DAPMessage)
    requires
        m@.body != Some(JsonModel::Null),
        m@.arguments != Some(JsonModel::Null),
    ensures
        decode_message(message_json(m@)) == Ok::<DAPMessageModel, MessageError>(m@),
{
    lemma_message_round_trip(m@);
}

} // verus!
