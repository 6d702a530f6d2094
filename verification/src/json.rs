use crate::text::str_eq;
use vstd::prelude::*;

verus! {

/// A JSON number: an integer from zero up, a negative integer, or any other
/// number, kept as its text.
#[derive(Debug)]
pub enum Number {
    Unsigned(u64),
    Negative(i64),
    Real(String),
}

/// The mathematical value of a `Number`.
pub ghost enum NumberValue {
    Unsigned(u64),
    Negative(i64),
    Real(Seq<char>),
}

impl View for Number {
    type V = NumberValue;

    open spec fn view(&self) -> NumberValue {
        match self {
            Number::Unsigned(u) => NumberValue::Unsigned(*u),
            Number::Negative(i) => NumberValue::Negative(*i),
            Number::Real(t) => NumberValue::Real(t@),
        }
    }
}

/// A JSON value. The members of an object stand in a list; where two have
/// the same name, the later one counts.
#[derive(Debug)]
pub enum Json {
    Null,
    Bool(bool),
    Number(Number),
    String(String),
    Array(Vec<Json>),
    Object(Vec<(String, Json)>),
}

/// The mathematical value of a `Json`.
pub ghost enum JsonValue {
    Null,
    Bool(bool),
    Number(NumberValue),
    String(Seq<char>),
    Array(Seq<JsonValue>),
    Object(Seq<(Seq<char>, JsonValue)>),
}

/// The mathematical value of `j`.
pub open spec fn json_value(j: Json) -> JsonValue
    decreases j,
{
    match j {
        Json::Null => JsonValue::Null,
        Json::Bool(b) => JsonValue::Bool(b),
        Json::Number(n) => JsonValue::Number(n@),
        Json::String(s) => JsonValue::String(s@),
        Json::Array(items) => JsonValue::Array(
            Seq::new(
                items@.len(),
                |i: int|
                    if 0 <= i < items@.len() {
                        json_value(items@[i])
                    } else {
                        JsonValue::Null
                    },
            ),
        ),
        Json::Object(fields) => JsonValue::Object(
            Seq::new(
                fields@.len(),
                |i: int|
                    if 0 <= i < fields@.len() {
                        (fields@[i].0@, json_value(fields@[i].1))
                    } else {
                        (Seq::empty(), JsonValue::Null)
                    },
            ),
        ),
    }
}

impl View for Json {
    type V = JsonValue;

    open spec fn view(&self) -> JsonValue {
        json_value(*self)
    }
}

/// The values of a list of items, one by one.
pub open spec fn items_value(items: Seq<Json>) -> Seq<JsonValue> {
    Seq::new(items.len(), |i: int| items[i]@)
}

/// The names and values of a list of members, one by one.
pub open spec fn fields_value(fields: Seq<(String, Json)>) -> Seq<(Seq<char>, JsonValue)> {
    Seq::new(fields.len(), |i: int| (fields[i].0@, fields[i].1@))
}

/// The value of the member called `key` among `fields`: the last one of that name.
pub open spec fn member(fields: Seq<(Seq<char>, JsonValue)>, key: Seq<char>) -> Option<JsonValue>
    decreases fields.len(),
{
    if fields.len() == 0 {
        None
    } else if fields.last().0 == key {
        Some(fields.last().1)
    } else {
        member(fields.drop_last(), key)
    }
}

impl JsonValue {
    /// The member called `key`, where the value is an object that has one.
    pub open spec fn get(self, key: Seq<char>) -> Option<JsonValue> {
        match self {
            JsonValue::Object(fields) => member(fields, key),
            _ => None,
        }
    }

    /// The member called `key`, taking a missing member and `null` for the same.
    pub open spec fn optional(self, key: Seq<char>) -> Option<JsonValue> {
        match self.get(key) {
            Some(JsonValue::Null) => None,
            other => other,
        }
    }

    /// The text, where the value is a string.
    pub open spec fn as_text(self) -> Option<Seq<char>> {
        match self {
            JsonValue::String(s) => Some(s),
            _ => None,
        }
    }

    /// The number, where the value is an integer from zero up that fits 64 bits.
    pub open spec fn as_unsigned(self) -> Option<u64> {
        match self {
            JsonValue::Number(NumberValue::Unsigned(u)) => Some(u),
            _ => None,
        }
    }
}

/// An array has the values of its items.
pub proof fn lemma_array_value(items: Vec<Json>)
    ensures
        Json::Array(items)@ == JsonValue::Array(items_value(items@)),
{
    reveal_with_fuel(json_value, 2);
    assert(Json::Array(items)@->Array_0 =~= items_value(items@));
}

/// An object has the names and values of its members.
pub proof fn lemma_object_value(fields: Vec<(String, Json)>)
    ensures
        Json::Object(fields)@ == JsonValue::Object(fields_value(fields@)),
{
    reveal_with_fuel(json_value, 2);
    assert(Json::Object(fields)@->Object_0 =~= fields_value(fields@));
}

/// `serde_json`'s value type, which a document is read into and written from.
#[verifier::external_type_specification]
#[verifier::external_body]
pub struct ExValue(serde_json::Value);

/// The value that `serde_json::from_slice` reads from a document, or `None`
/// where it rejects the document.
pub uninterp spec fn json_parse(bytes: Seq<u8>) -> Option<JsonValue>;

/// The document that `serde_json::to_vec` writes for a value.
pub uninterp spec fn json_encode(value: JsonValue) -> Seq<u8>;

/// Trusted: turns a `serde_json::Value` into the same value of this library,
/// variant by variant, an object's members in the order in which the map
/// yields them. A number is kept as what `as_u64` gives of it, else as what
/// `as_i64` gives, else as its text.
#[verifier::external_body]
fn from_value(value: serde_json::Value) -> Json {
    match value {
        serde_json::Value::Null => Json::Null,
        serde_json::Value::Bool(b) => Json::Bool(b),
        serde_json::Value::Number(n) => Json::Number(match (n.as_u64(), n.as_i64()) {
            (Some(u), _) => Number::Unsigned(u),
            (_, Some(i)) => Number::Negative(i),
            _ => Number::Real(n.to_string()),
        }),
        serde_json::Value::String(s) => Json::String(s),
        serde_json::Value::Array(a) => Json::Array(a.into_iter().map(from_value).collect()),
        serde_json::Value::Object(o) => Json::Object(
            o.into_iter().map(|(k, v)| (k, from_value(v))).collect(),
        ),
    }
}

/// Trusted: turns a value of this library into the same `serde_json::Value`,
/// variant by variant. Of an object's members with one name the last stays;
/// the text of a `Real` is read back with `serde_json::from_str`, and is
/// `null` where that fails.
#[verifier::external_body]
fn to_value(value: &Json) -> serde_json::Value {
    match value {
        Json::Null => serde_json::Value::Null,
        Json::Bool(b) => serde_json::Value::Bool(*b),
        Json::Number(Number::Unsigned(u)) => serde_json::Value::from(*u),
        Json::Number(Number::Negative(i)) => serde_json::Value::from(*i),
        Json::Number(Number::Real(t)) => serde_json::from_str(t).unwrap_or_default(),
        Json::String(s) => serde_json::Value::String(s.clone()),
        Json::Array(a) => serde_json::Value::Array(a.iter().map(to_value).collect()),
        Json::Object(o) => serde_json::Value::Object(
            o.iter().map(|(k, v)| (k.clone(), to_value(v))).collect(),
        ),
    }
}

/// Trusted: reads a document with `serde_json::from_slice` into a
/// `serde_json::Value`. The result is the value read, or `None` where the
/// bytes are no JSON document.
#[verifier::external_body]
fn parse_document(bytes: &[u8]) -> (r: Option<Json>)
    ensures
        r is Some <==> json_parse(bytes@) is Some,
        r is Some ==> r->0@ == json_parse(bytes@)->0,
{
    serde_json::from_slice::<serde_json::Value>(bytes).ok().map(from_value)
}

/// Trusted: writes a value with `serde_json::to_vec`. The result is the
/// document written.
#[verifier::external_body]
fn encode_document(value: &Json) -> (bytes: Vec<u8>)
    ensures
        bytes@ == json_encode(value@),
{
    serde_json::to_vec(&to_value(value)).unwrap_or_default()
}

impl Number {
    /// A copy of the number.
    pub fn duplicate(&self) -> (r: Number)
        ensures
            r@ == self@,
    {
        match self {
            Number::Unsigned(u) => Number::Unsigned(*u),
            Number::Negative(i) => Number::Negative(*i),
            Number::Real(t) => Number::Real(t.clone()),
        }
    }
}

impl Json {
    /// Reads a JSON document.
    pub fn parse(bytes: &[u8]) -> (r: Option<Json>)
        ensures
            r is Some <==> json_parse(bytes@) is Some,
            r is Some ==> r->0@ == json_parse(bytes@)->0,
    {
        parse_document(bytes)
    }

    /// Writes the value as a JSON document.
    pub fn encode(&self) -> (bytes: Vec<u8>)
        ensures
            bytes@ == json_encode(self@),
    {
        encode_document(self)
    }

    /// The string value with the text `s`.
    pub fn text(s: &str) -> (r: Json)
        ensures
            r@ == JsonValue::String(s@),
    {
        Json::String(s.to_owned())
    }

    /// The number value `n`.
    pub fn unsigned(n: u64) -> (r: Json)
        ensures
            r@ == JsonValue::Number(NumberValue::Unsigned(n)),
    {
        Json::Number(Number::Unsigned(n))
    }

    /// The array of `items`.
    pub fn array(items: Vec<Json>) -> (r: Json)
        ensures
            r@ == JsonValue::Array(items_value(items@)),
    {
        proof {
            lemma_array_value(items);
        }
        Json::Array(items)
    }

    /// The object with the members `fields`.
    pub fn object(fields: Vec<(String, Json)>) -> (r: Json)
        ensures
            r@ == JsonValue::Object(fields_value(fields@)),
    {
        proof {
            lemma_object_value(fields);
        }
        Json::Object(fields)
    }

    /// The member called `key`, where the value is an object that has one.
    pub fn get(&self, key: &str) -> (r: Option<&Json>)
        ensures
            r is Some <==> self@.get(key@) is Some,
            r is Some ==> r->0@ == self@.get(key@)->0,
    {
        match self {
            Json::Object(fields) => {
                proof {
                    lemma_object_value(*fields);
                }
                let ghost all = fields_value(fields@);
                let mut i: usize = fields.len();
                assert(all.take(i as int) == all);
                while i > 0
                    invariant
                        i <= fields.len(),
                        all == fields_value(fields@),
                        self@ == JsonValue::Object(all),
                        member(all, key@) == member(all.take(i as int), key@),
                    decreases i,
                {
                    i -= 1;
                    let ghost upto = all.take(i + 1);
                    assert(upto.last() == all[i as int]);
                    assert(upto.drop_last() == all.take(i as int));
                    if str_eq(fields[i].0.as_str(), key) {
                        return Some(&fields[i].1);
                    }
                }
                assert(all.take(0).len() == 0);
                None
            },
            _ => None,
        }
    }

    /// The text, where the value is a string.
    pub fn as_str(&self) -> (r: Option<&str>)
        ensures
            r is Some <==> self@.as_text() is Some,
            r is Some ==> r->0@ == self@.as_text()->0,
    {
        match self {
            Json::String(s) => Some(s.as_str()),
            _ => None,
        }
    }

    /// The number, where the value is an integer from zero up that fits 64 bits.
    pub fn as_u64(&self) -> (r: Option<u64>)
        ensures
            r == self@.as_unsigned(),
    {
        match self {
            Json::Number(Number::Unsigned(u)) => Some(*u),
            _ => None,
        }
    }

    /// Adds the member `name` with the value `value` at the end of `fields`.
    pub fn push_member(fields: &mut Vec<(String, Json)>, name: &str, value: Json)
        ensures
            fields_value(final(fields)@) == fields_value(old(fields)@).push((name@, value@)),
    {
        fields.push((name.to_owned(), value));
        assert(fields_value(fields@) =~= fields_value(old(fields)@).push((name@, value@)));
    }

    /// The member called `key`, taking a missing member and `null` for the same.
    pub fn get_optional(&self, key: &str) -> (r: Option<&Json>)
        ensures
            r is Some <==> self@.optional(key@) is Some,
            r is Some ==> r->0@ == self@.optional(key@)->0,
    {
        match self.get(key) {
            Some(Json::Null) => None,
            other => other,
        }
    }

    /// A copy of the value.
    #[verifier::loop_isolation(false)]
    pub fn duplicate(&self) -> (r: Json)
        ensures
            r@ == self@,
        decreases self,
    {
        match self {
            Json::Null => Json::Null,
            Json::Bool(b) => Json::Bool(*b),
            Json::Number(n) => Json::Number(n.duplicate()),
            Json::String(s) => Json::String(s.clone()),
            Json::Array(items) => {
                let mut out: Vec<Json> = Vec::new();
                let mut i: usize = 0;
                while i < items.len()
                    invariant
                        i <= items.len(),
                        out.len() == i,
                        forall|k: int| 0 <= k < i ==> out@[k]@ == items@[k]@,
                    decreases items.len() - i,
                {
                    out.push(items[i].duplicate());
                    i += 1;
                }
                proof {
                    lemma_array_value(*items);
                    lemma_array_value(out);
                    assert(items_value(out@) =~= items_value(items@));
                }
                Json::Array(out)
            },
            Json::Object(fields) => {
                let mut out: Vec<(String, Json)> = Vec::new();
                let mut i: usize = 0;
                while i < fields.len()
                    invariant
                        i <= fields.len(),
                        out.len() == i,
                        forall|k: int|
                            0 <= k < i ==> out@[k].0@ == fields@[k].0@ && out@[k].1@
                                == fields@[k].1@,
                    decreases fields.len() - i,
                {
                    out.push((fields[i].0.clone(), fields[i].1.duplicate()));
                    i += 1;
                }
                proof {
                    lemma_object_value(*fields);
                    lemma_object_value(out);
                    assert(fields_value(out@) =~= fields_value(fields@));
                }
                Json::Object(out)
            },
        }
    }
}

} // verus!
