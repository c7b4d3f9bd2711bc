//! JSON values that come in, and the fields of the state that goes out.

use crate::quantity::Quantity;
use crate::text::texts;
use serde_json::Value;
use vstd::prelude::*;

verus! {

#[verifier::external_type_specification]
#[verifier::external_body]
pub struct ExValue(serde_json::Value);

/// What a JSON value holds. A number holds the float that it is read as, and
/// the unsigned and the signed integer where it is one.
pub enum JsonNode {
    Null,
    Bool(bool),
    Number { float: Quantity, unsigned: Option<u64>, signed: Option<i64> },
    Text(Seq<char>),
    List(Seq<JsonNode>),
    Object(Map<Seq<char>, JsonNode>),
}

/// What a JSON value of serde_json holds; of a number, what `as_f64`, `as_u64` and
/// `as_i64` give.
pub uninterp spec fn json_content(v: Value) -> JsonNode;

/// What `to_vec` of serde_json writes for a JSON value, or what it says where
/// it cannot.
pub uninterp spec fn json_written(n: JsonNode) -> Result<Seq<u8>, Seq<char>>;

pub open spec fn json_contents(list: Seq<Value>) -> Seq<JsonNode> {
    list.map_values(|v: Value| json_content(v))
}

pub open spec fn opt_content(v: Option<Value>) -> Option<JsonNode> {
    match v {
        Some(w) => Some(json_content(w)),
        None => None,
    }
}

impl JsonNode {
    /// The member of an object under a key.
    pub open spec fn member(self, key: Seq<char>) -> Option<JsonNode> {
        match self {
            JsonNode::Object(members) => if members.contains_key(key) {
                Some(members[key])
            } else {
                None
            },
            _ => None,
        }
    }

    pub open spec fn text(self) -> Option<Seq<char>> {
        match self {
            JsonNode::Text(s) => Some(s),
            _ => None,
        }
    }

    pub open spec fn float(self) -> Option<Quantity> {
        match self {
            JsonNode::Number { float, .. } => Some(float),
            _ => None,
        }
    }

    pub open spec fn unsigned(self) -> Option<u64> {
        match self {
            JsonNode::Number { unsigned, .. } => unsigned,
            _ => None,
        }
    }

    pub open spec fn bool(self) -> Option<bool> {
        match self {
            JsonNode::Bool(b) => Some(b),
            _ => None,
        }
    }

    pub open spec fn list(self) -> Option<Seq<JsonNode>> {
        match self {
            JsonNode::List(items) => Some(items),
            _ => None,
        }
    }

    pub open spec fn member_text(self, key: Seq<char>) -> Option<Seq<char>> {
        match self.member(key) {
            Some(n) => n.text(),
            None => None,
        }
    }

    pub open spec fn member_float(self, key: Seq<char>) -> Option<Quantity> {
        match self.member(key) {
            Some(n) => n.float(),
            None => None,
        }
    }

    pub open spec fn member_unsigned(self, key: Seq<char>) -> Option<u64> {
        match self.member(key) {
            Some(n) => n.unsigned(),
            None => None,
        }
    }

    pub open spec fn member_bool(self, key: Seq<char>) -> Option<bool> {
        match self.member(key) {
            Some(n) => n.bool(),
            None => None,
        }
    }

    /// The strings of the list under a key, in their order; what is no string
    /// is left out.
    pub open spec fn member_texts(self, key: Seq<char>) -> Option<Seq<Seq<char>>> {
        match self.member(key) {
            Some(n) => match n.list() {
                Some(items) => Some(strings_of(items)),
                None => None,
            },
            None => None,
        }
    }
}

/// The strings among some JSON values, in their order.
pub open spec fn strings_of(items: Seq<JsonNode>) -> Seq<Seq<char>>
    decreases items.len(),
{
    if items.len() == 0 {
        Seq::empty()
    } else {
        match items.last().text() {
            Some(s) => strings_of(items.drop_last()).push(s),
            None => strings_of(items.drop_last()),
        }
    }
}

/// `Value::get` of serde_json with a string: the member of an object under
/// that key; nothing for a value that is no object.
#[verifier::external_body]
pub(crate) fn member<'a>(v: &'a Value, key: &str) -> (r: Option<&'a Value>)
    ensures
        r is Some <==> json_content(*v).member(key@) is Some,
        r matches Some(m) ==> json_content(*v).member(key@) == Some(json_content(*m)),
{
    v.get(key)
}

/// `Value::as_str` of serde_json: the characters of a string.
#[verifier::external_body]
pub(crate) fn as_text(v: &Value) -> (r: Option<&str>)
    ensures
        r is Some <==> json_content(*v).text() is Some,
        r matches Some(s) ==> json_content(*v).text() == Some(s@),
{
    v.as_str()
}

/// `Value::as_f64` of serde_json, by the bits of the float: what a number is
/// read as.
#[verifier::external_body]
pub(crate) fn as_float(v: &Value) -> (r: Option<Quantity>)
    ensures
        r == json_content(*v).float(),
{
    v.as_f64().map(|x| Quantity { bits: x.to_bits() })
}

/// `Value::as_u64` of serde_json: a number that is an unsigned integer.
#[verifier::external_body]
pub(crate) fn as_unsigned(v: &Value) -> (r: Option<u64>)
    ensures
        r == json_content(*v).unsigned(),
{
    v.as_u64()
}

/// `Value::as_bool` of serde_json.
#[verifier::external_body]
pub(crate) fn as_flag(v: &Value) -> (r: Option<bool>)
    ensures
        r == json_content(*v).bool(),
{
    v.as_bool()
}

/// `Value::as_array` of serde_json: the items of an array, in their order.
#[verifier::external_body]
pub(crate) fn as_list(v: &Value) -> (r: Option<&Vec<Value>>)
    ensures
        r is Some <==> json_content(*v).list() is Some,
        r matches Some(items) ==> json_content(*v).list() == Some(json_contents(items@)),
{
    v.as_array()
}

/// `Value::clone` of serde_json: a value that holds the same.
#[verifier::external_body]
pub(crate) fn duplicate_value(v: &Value) -> (r: Value)
    ensures
        json_content(r) == json_content(*v),
{
    v.clone()
}

/// `Value::Object` of serde_json around a `Map` that was given one string
/// under one key.
#[verifier::external_body]
pub(crate) fn object_of(key: &str, text: &str) -> (r: Value)
    ensures
        json_content(r) == JsonNode::Object(map![key@ => JsonNode::Text(text@)]),
{
    let mut members = serde_json::Map::new();
    members.insert(key.to_string(), Value::String(text.to_string()));
    Value::Object(members)
}

/// `to_vec` of serde_json on a JSON value, with an error taken by its text. What
/// it writes is a function of what the value holds: members are written in the
/// order of their keys.
#[verifier::external_body]
pub(crate) fn to_bytes(v: &Value) -> (r: Result<Vec<u8>, String>)
    ensures
        match r {
            Ok(bytes) => json_written(json_content(*v)) == Ok::<Seq<u8>, Seq<char>>(bytes@),
            Err(e) => json_written(json_content(*v)) == Err::<Seq<u8>, Seq<char>>(e@),
        },
{
    serde_json::to_vec(v).map_err(|e| e.to_string())
}

pub fn duplicate_opt_value(v: &Option<Value>) -> (r: Option<Value>)
    ensures
        opt_content(r) == opt_content(*v),
{
    match v {
        Some(w) => Some(duplicate_value(w)),
        None => None,
    }
}

/// The string under a key.
pub fn member_text(v: &Value, key: &str) -> (r: Option<String>)
    ensures
        r is Some <==> json_content(*v).member_text(key@) is Some,
        r matches Some(s) ==> json_content(*v).member_text(key@) == Some(s@),
{
    match member(v, key) {
        Some(m) => match as_text(m) {
            Some(s) => Some(s.to_owned()),
            None => None,
        },
        None => None,
    }
}

/// The number under a key, as a float.
pub fn member_float(v: &Value, key: &str) -> (r: Option<Quantity>)
    ensures
        r == json_content(*v).member_float(key@),
{
    match member(v, key) {
        Some(m) => as_float(m),
        None => None,
    }
}

/// The unsigned integer under a key.
pub fn member_unsigned(v: &Value, key: &str) -> (r: Option<u64>)
    ensures
        r == json_content(*v).member_unsigned(key@),
{
    match member(v, key) {
        Some(m) => as_unsigned(m),
        None => None,
    }
}

/// The truth value under a key.
pub fn member_bool(v: &Value, key: &str) -> (r: Option<bool>)
    ensures
        r == json_content(*v).member_bool(key@),
{
    match member(v, key) {
        Some(m) => as_flag(m),
        None => None,
    }
}

/// Whatever value stands under a key.
pub fn member_value(v: &Value, key: &str) -> (r: Option<Value>)
    ensures
        opt_content(r) == json_content(*v).member(key@),
{
    match member(v, key) {
        Some(m) => Some(duplicate_value(m)),
        None => None,
    }
}

/// The strings of the array under a key.
pub fn member_texts(v: &Value, key: &str) -> (r: Option<Vec<String>>)
    ensures
        r is Some <==> json_content(*v).member_texts(key@) is Some,
        r matches Some(l) ==> json_content(*v).member_texts(key@) == Some(texts(l@)),
{
    match member(v, key) {
        Some(m) => match as_list(m) {
            Some(items) => {
                let mut r: Vec<String> = Vec::new();
                assert(texts(r@) =~= strings_of(json_contents(items@).take(0)));
                for i in 0..items.len()
                    invariant
                        texts(r@) == strings_of(json_contents(items@).take(i as int)),
                {
                    let ghost next = json_contents(items@).take(i + 1);
                    let ghost before = texts(r@);
                    assert(next.drop_last() =~= json_contents(items@).take(i as int));
                    assert(next.last() == json_content(items@[i as int]));
                    if let Some(s) = as_text(&items[i]) {
                        r.push(s.to_owned());
                        assert(texts(r@) =~= before.push(s@));
                    }
                }
                assert(json_contents(items@).take(items@.len() as int) =~= json_contents(items@));
                Some(r)
            },
            None => None,
        },
        None => None,
    }
}

/// The value of one field of a published state.
pub enum Field {
    Null,
    Bool(bool),
    Number(Quantity),
    Count(u64),
    Text(String),
    Texts(Vec<String>),
    /// An object with the two members `timestamp` and `message`.
    Failure { timestamp: String, message: String },
}

pub enum FieldView {
    Null,
    Bool(bool),
    Number(Quantity),
    Count(u64),
    Text(Seq<char>),
    Texts(Seq<Seq<char>>),
    Failure { timestamp: Seq<char>, message: Seq<char> },
}

impl View for Field {
    type V = FieldView;

    open spec fn view(&self) -> FieldView {
        match self {
            Field::Null => FieldView::Null,
            Field::Bool(b) => FieldView::Bool(*b),
            Field::Number(q) => FieldView::Number(*q),
            Field::Count(n) => FieldView::Count(*n),
            Field::Text(s) => FieldView::Text(s@),
            Field::Texts(l) => FieldView::Texts(texts(l@)),
            Field::Failure { timestamp, message } => FieldView::Failure {
                timestamp: timestamp@,
                message: message@,
            },
        }
    }
}

impl FieldView {
    /// What a field is in JSON. A float that is not finite is null there; a
    /// failure is an object with at least its two members.
    pub open spec fn is_written_as(self, n: JsonNode) -> bool {
        match self {
            FieldView::Null => n is Null,
            FieldView::Bool(b) => n == JsonNode::Bool(b),
            FieldView::Number(q) => if q.finite() {
                n == (JsonNode::Number { float: q, unsigned: None, signed: None })
            } else {
                n is Null
            },
            FieldView::Count(c) => n.unsigned() == Some(c),
            FieldView::Text(s) => n == JsonNode::Text(s),
            FieldView::Texts(l) => n.list() matches Some(items) && items.len() == l.len() && (
            forall|i: int| 0 <= i < l.len() ==> #[trigger] items[i] == JsonNode::Text(l[i])),
            FieldView::Failure { timestamp, message } => n.member_text("timestamp"@) == Some(
                timestamp,
            ) && n.member_text("message"@) == Some(message),
        }
    }
}

/// A published state: its fields by their keys, in order.
pub struct Payload {
    pub fields: Vec<(String, Field)>,
}

impl View for Payload {
    type V = Seq<(Seq<char>, FieldView)>;

    open spec fn view(&self) -> Seq<(Seq<char>, FieldView)> {
        self.fields@.map_values(|f: (String, Field)| (f.0@, f.1@))
    }
}

/// Whether a JSON value is an object that holds the fields of a payload. Other
/// members may stand beside them.
pub open spec fn object_written(payload: Seq<(Seq<char>, FieldView)>, n: JsonNode) -> bool {
    n is Object && forall|i: int|
        0 <= i < payload.len() ==> (n.member((#[trigger] payload[i]).0) matches Some(m)
            && payload[i].1.is_written_as(m))
}

} // verus!
