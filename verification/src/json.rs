use crate::text::{owned, same_text};
use serde_json::{Number, Value};
use vstd::prelude::*;

verus! {

/// The mathematical value of a JSON document. A number is held as the text
/// that writes it; the members of an object are held in their order.
pub enum JsonValue {
    Null,
    Bool(bool),
    Number(Seq<char>),
    String(Seq<char>),
    Array(Seq<JsonValue>),
    Object(Seq<MemberValue>),
}

/// The mathematical value of a member of an object.
pub struct MemberValue {
    pub key: Seq<char>,
    pub value: JsonValue,
}

/// The value that the members give for a key: that of the last member of the
/// key, as a map filled member by member would hold it.
pub open spec fn member(members: Seq<MemberValue>, key: Seq<char>) -> Option<JsonValue>
    decreases members.len(),
{
    if members.len() == 0 {
        None
    } else if members.last().key == key {
        Some(members.last().value)
    } else {
        member(members.drop_last(), key)
    }
}

impl JsonValue {
    /// The member of an object under a key; none where the value is no object
    /// or has no such member.
    pub open spec fn get(self, key: Seq<char>) -> Option<JsonValue> {
        match self {
            JsonValue::Object(members) => member(members, key),
            _ => None,
        }
    }

    /// The item of an array at an index; none where the value is no array or
    /// the index is outside it.
    pub open spec fn at(self, index: int) -> Option<JsonValue> {
        match self {
            JsonValue::Array(items) => if 0 <= index < items.len() {
                Some(items[index])
            } else {
                None
            },
            _ => None,
        }
    }

    /// The object without members.
    pub open spec fn object() -> JsonValue {
        JsonValue::Object(Seq::empty())
    }

    /// The object with one more member at its end; a value that is no object
    /// stays as it is.
    pub open spec fn with(self, key: Seq<char>, value: JsonValue) -> JsonValue {
        match self {
            JsonValue::Object(members) => JsonValue::Object(members.push(MemberValue { key, value })),
            _ => self,
        }
    }

    /// The array without items.
    pub open spec fn array() -> JsonValue {
        JsonValue::Array(Seq::empty())
    }

    /// The array with one more item at its end; a value that is no array stays
    /// as it is.
    pub open spec fn with_item(self, item: JsonValue) -> JsonValue {
        match self {
            JsonValue::Array(items) => JsonValue::Array(items.push(item)),
            _ => self,
        }
    }
}

/// A JSON document held in memory.
#[derive(Debug, PartialEq, Eq)]
pub enum Json {
    Null,
    Bool(bool),
    Number(String),
    String(String),
    Array(Vec<Json>),
    Object(Vec<Member>),
}

/// A member of an object: a key and the document under it.
#[derive(Debug, PartialEq, Eq)]
pub struct Member {
    pub key: String,
    pub value: Json,
}

impl View for Json {
    type V = JsonValue;

    open spec fn view(&self) -> JsonValue
        decreases self,
    {
        match self {
            Json::Null => JsonValue::Null,
            Json::Bool(b) => JsonValue::Bool(*b),
            Json::Number(n) => JsonValue::Number(n@),
            Json::String(s) => JsonValue::String(s@),
            Json::Array(items) => JsonValue::Array(
                Seq::new(
                    items@.len(),
                    |i: int|
                        if 0 <= i < items@.len() {
                            items@[i].view()
                        } else {
                            JsonValue::Null
                        },
                ),
            ),
            Json::Object(members) => JsonValue::Object(
                Seq::new(
                    members@.len(),
                    |i: int|
                        if 0 <= i < members@.len() {
                            MemberValue { key: members@[i].key@, value: members@[i].value.view() }
                        } else {
                            MemberValue { key: Seq::empty(), value: JsonValue::Null }
                        },
                ),
            ),
        }
    }
}

impl Clone for Json {
    fn clone(&self) -> (copy: Self)
        ensures
            copy@ == self@,
    {
        self.duplicate()
    }
}

/// The document that the `serde_json` crate reads from a text; none where it
/// rejects the text.
pub uninterp spec fn json_of(text: Seq<char>) -> Option<JsonValue>;

/// The compact text that the `serde_json` crate writes for a document.
pub uninterp spec fn json_text_of(value: JsonValue) -> Seq<char>;

/// The value type of the `serde_json` crate, carried between its parser, its
/// writer and the conversions below; nothing is read off it in verified code.
#[verifier::external_type_specification]
#[verifier::external_body]
pub struct ExValue(serde_json::Value);

/// Turns a value of the `serde_json` crate into a document, variant by
/// variant; a number becomes the text that the crate writes for it.
#[verifier::external_body]
fn json_from_value(value: Value) -> Json {
    match value {
        Value::Null => Json::Null,
        Value::Bool(b) => Json::Bool(b),
        Value::Number(n) => Json::Number(n.to_string()),
        Value::String(s) => Json::String(s),
        Value::Array(items) => Json::Array(items.into_iter().map(json_from_value).collect()),
        Value::Object(map) => Json::Object(
            map.into_iter().map(|(k, v)| Member { key: k, value: json_from_value(v) }).collect(),
        ),
    }
}

/// Turns a document into a value of the `serde_json` crate, variant by
/// variant; a number is read by the crate from its text, and is null where the
/// crate does not read a number from it.
#[verifier::external_body]
fn json_to_value(json: &Json) -> Value {
    match json {
        Json::Null => Value::Null,
        Json::Bool(b) => Value::Bool(*b),
        Json::Number(n) => n.parse::<Number>().map(Value::Number).unwrap_or(Value::Null),
        Json::String(s) => Value::String(s.clone()),
        Json::Array(items) => Value::Array(items.iter().map(json_to_value).collect()),
        Json::Object(members) => Value::Object(
            members.iter().map(|m| (m.key.clone(), json_to_value(&m.value))).collect(),
        ),
    }
}

/// `serde_json::from_str` for a `Value`: the document that the text holds, or
/// nothing where the text is not JSON.
#[verifier::external_body]
pub(crate) fn json_parse(text: &str) -> (r: Option<Json>)
    ensures
        match r {
            Some(json) => json_of(text@) == Some(json@),
            None => json_of(text@) is None,
        },
{
    serde_json::from_str::<Value>(text).ok().map(json_from_value)
}

/// `Value::to_string` of the `serde_json` crate: the compact text of the
/// document.
#[verifier::external_body]
pub(crate) fn json_write(json: &Json) -> (text: String)
    ensures
        text@ == json_text_of(json@),
{
    json_to_value(json).to_string()
}

impl Json {
    /// The document that a text holds; none where the text is not JSON.
    pub fn parse(text: &str) -> (r: Option<Json>)
        ensures
            match r {
                Some(json) => json_of(text@) == Some(json@),
                None => json_of(text@) is None,
            },
    {
        json_parse(text)
    }

    /// The compact text of the document.
    pub fn to_text(&self) -> (text: String)
        ensures
            text@ == json_text_of(self@),
    {
        json_write(self)
    }

    /// A string.
    pub fn string(text: &str) -> (json: Json)
        ensures
            json@ == JsonValue::String(text@),
    {
        Json::String(owned(text))
    }

    /// A number, given by the text that writes it.
    pub fn number(text: &str) -> (json: Json)
        ensures
            json@ == JsonValue::Number(text@),
    {
        Json::Number(owned(text))
    }

    /// The object without members.
    pub fn object() -> (json: Json)
        ensures
            json@ == JsonValue::object(),
    {
        let json = Json::Object(Vec::new());
        assert(json@->Object_0 =~= Seq::empty());
        json
    }

    /// The array without items.
    pub fn array() -> (json: Json)
        ensures
            json@ == JsonValue::array(),
    {
        let json = Json::Array(Vec::new());
        assert(json@->Array_0 =~= Seq::empty());
        json
    }

    /// Adds a member at the end of an object; a document that is no object
    /// stays as it is.
    pub fn with(self, key: &str, value: Json) -> (json: Json)
        ensures
            json@ == self@.with(key@, value@),
    {
        match self {
            Json::Object(mut members) => {
                let ghost before = Json::Object(members)@->Object_0;
                members.push(Member { key: owned(key), value });
                let json = Json::Object(members);
                assert(json@->Object_0 =~= before.push(MemberValue { key: key@, value: value@ }));
                json
            },
            other => other,
        }
    }

    /// Adds an item at the end of an array; a document that is no array stays
    /// as it is.
    pub fn with_item(self, item: Json) -> (json: Json)
        ensures
            json@ == self@.with_item(item@),
    {
        match self {
            Json::Array(mut items) => {
                let ghost before = Json::Array(items)@->Array_0;
                items.push(item);
                let json = Json::Array(items);
                assert(json@->Array_0 =~= before.push(item@));
                json
            },
            other => other,
        }
    }

    /// The member of an object under a key.
    pub fn get(&self, key: &str) -> (found: Option<&Json>)
        ensures
            match found {
                Some(json) => self@.get(key@) == Some(json@),
                None => self@.get(key@) is None,
            },
    {
        match self {
            Json::Object(members) => {
                let ghost all = self@->Object_0;
                let mut found: Option<&Json> = None;
                let mut i: usize = 0;
                assert(all.take(0) =~= Seq::empty());
                while i < members.len()
                    invariant
                        i <= members.len(),
                        all.len() == members@.len(),
                        forall|k: int|
                            0 <= k < members@.len() ==> all[k] == (MemberValue {
                                key: members@[k].key@,
                                value: members@[k].value@,
                            }),
                        match found {
                            Some(json) => member(all.take(i as int), key@) == Some(json@),
                            None => member(all.take(i as int), key@) is None,
                        },
                    decreases members.len() - i,
                {
                    proof {
                        let next = all.take(i + 1);
                        assert(next.drop_last() =~= all.take(i as int));
                        assert(next.last() == all[i as int]);
                    }
                    if same_text(members[i].key.as_str(), key) {
                        found = Some(&members[i].value);
                    }
                    i = i + 1;
                }
                assert(all.take(members.len() as int) =~= all);
                found
            },
            _ => None,
        }
    }

    /// The item of an array at an index.
    pub fn at(&self, index: usize) -> (found: Option<&Json>)
        ensures
            match found {
                Some(json) => self@.at(index as int) == Some(json@),
                None => self@.at(index as int) is None,
            },
    {
        match self {
            Json::Array(items) => if index < items.len() {
                Some(&items[index])
            } else {
                None
            },
            _ => None,
        }
    }

    /// A copy of the document.
    #[verifier::loop_isolation(false)]
    pub fn duplicate(&self) -> (copy: Json)
        ensures
            copy@ == self@,
        decreases self,
    {
        match self {
            Json::Null => Json::Null,
            Json::Bool(b) => Json::Bool(*b),
            Json::Number(n) => Json::Number(n.clone()),
            Json::String(s) => Json::String(s.clone()),
            Json::Array(items) => {
                let mut copy: Vec<Json> = Vec::new();
                let mut i: usize = 0;
                while i < items.len()
                    invariant
                        i <= items.len(),
                        copy@.len() == i,
                        forall|k: int| 0 <= k < i ==> copy@[k]@ == items@[k]@,
                    decreases items.len() - i,
                {
                    copy.push(items[i].duplicate());
                    i = i + 1;
                }
                let json = Json::Array(copy);
                assert(json@->Array_0 =~= self@->Array_0);
                json
            },
            Json::Object(members) => {
                let mut copy: Vec<Member> = Vec::new();
                let mut i: usize = 0;
                while i < members.len()
                    invariant
                        i <= members.len(),
                        copy@.len() == i,
                        forall|k: int|
                            0 <= k < i ==> copy@[k].key@ == members@[k].key@ && copy@[k].value@
                                == members@[k].value@,
                    decreases members.len() - i,
                {
                    copy.push(Member { key: members[i].key.clone(), value: members[i].value.duplicate() });
                    i = i + 1;
                }
                let json = Json::Object(copy);
                assert(json@->Object_0 =~= self@->Object_0);
                json
            },
        }
    }
}


} // verus!
