//! JSON, as `serde_json` reads and writes it.
//!
//! The values themselves are of `serde_json`. What one holds is named by `json_of`; the functions
//! here that touch one are thin and say what the functions of `serde_json` behind them do to it.

use vstd::prelude::*;

verus! {

/// A JSON value of `serde_json`, in which only the functions of this module look.
#[verifier::external_type_specification]
#[verifier::external_body]
pub struct ExJsonValue(serde_json::Value);

/// A number in JSON.
pub enum JsonNumber {
    Unsigned(u64),
    Negative(i64),
    /// The bits of a number with a fraction or an exponent.
    Other(u64),
}

/// What a JSON value holds.
pub enum Json {
    Null,
    Bool(bool),
    Number(JsonNumber),
    Text(Seq<char>),
    List(Seq<Json>),
    Object(Map<Seq<char>, Json>),
}

/// What a value of `serde_json` holds.
pub uninterp spec fn json_of(value: serde_json::Value) -> Json;

/// The bytes that `serde_json::to_vec` writes for a JSON value: the shortest form, with the keys of
/// objects in order.
pub uninterp spec fn json_text(json: Json) -> Seq<u8>;

/// The text that `serde_json::to_string_pretty` writes for a JSON value: on several lines, with the
/// keys of objects in order.
pub uninterp spec fn json_pretty(json: Json) -> Seq<char>;

/// The JSON value that `serde_json::from_slice` reads from bytes, or the text of what is wrong with
/// them.
pub uninterp spec fn json_parsed(text: Seq<u8>) -> Result<Json, Seq<char>>;

impl Json {
    /// A JSON value without fractions and exponents, in which lists and objects are nested no deeper
    /// than `depth`.
    pub open spec fn fits(self, depth: nat) -> bool
        decreases depth,
    {
        match self {
            Json::Null | Json::Bool(_) | Json::Text(_) => true,
            Json::Number(JsonNumber::Unsigned(_)) => true,
            Json::Number(JsonNumber::Negative(n)) => n < 0,
            Json::Number(JsonNumber::Other(_)) => false,
            Json::List(items) => {
                &&& depth > 0
                &&& forall|i: int|
                    0 <= i < items.len() ==> (#[trigger] items[i]).fits((depth - 1) as nat)
            },
            Json::Object(fields) => {
                &&& depth > 0
                &&& fields.dom().finite()
                &&& forall|key: Seq<char>|
                    fields.dom().contains(key) ==> (#[trigger] fields[key]).fits(
                        (depth - 1) as nat,
                    )
            },
        }
    }

    /// Whether `serde_json` reads a JSON value back as it wrote it. It reads lists and objects to a
    /// depth of 127, and may miss the last bit of a number with a fraction.
    pub open spec fn reads_back(self) -> bool {
        self.fits(127)
    }
}

/// Reads a JSON value by `serde_json::from_slice`. The result, with the text of an error, is named by
/// `json_parsed`; on what `serde_json::to_vec` wrote for a value without fractions, nested no deeper
/// than the reader goes, it is that value.
#[verifier::external_body]
pub(crate) fn parse(text: &[u8]) -> (r: Result<serde_json::Value, String>)
    ensures
        match r {
            Ok(value) => json_parsed(text@) == Ok::<Json, Seq<char>>(json_of(value)),
            Err(e) => json_parsed(text@) == Err::<Json, Seq<char>>(e@),
        },
        forall|json: Json|
            json.reads_back() && text@ == #[trigger] json_text(json) ==> r is Ok && json_of(
                r->Ok_0,
            ) == json,
{
    match serde_json::from_slice(text) {
        Ok(value) => Ok(value),
        Err(e) => Err(e.to_string()),
    }
}

/// Writes a JSON value by `serde_json::to_vec`, which cannot fail on one, since it writes to memory
/// and all keys are texts. The result is named by `json_text`; for a value without fractions,
/// nested no deeper than `serde_json::from_slice` reads, it is read back as that value.
#[verifier::external_body]
pub(crate) fn to_bytes(value: &serde_json::Value) -> (r: Result<Vec<u8>, String>)
    ensures
        r is Ok,
        r->Ok_0@ == json_text(json_of(*value)),
        json_of(*value).reads_back() ==> json_parsed(r->Ok_0@) is Ok && json_parsed(
            r->Ok_0@,
        )->Ok_0 == json_of(*value),
{
    match serde_json::to_vec(value) {
        Ok(bytes) => Ok(bytes),
        Err(e) => Err(e.to_string()),
    }
}

/// Writes a JSON value for people to read, by `serde_json::to_string_pretty`, which cannot fail on
/// one, since it writes to memory and all keys are texts. The result is named by `json_pretty`.
#[verifier::external_body]
pub(crate) fn to_pretty(value: &serde_json::Value) -> (r: Result<String, String>)
    ensures
        r is Ok,
        r->Ok_0@ == json_pretty(json_of(*value)),
{
    match serde_json::to_string_pretty(value) {
        Ok(text) => Ok(text),
        Err(e) => Err(e.to_string()),
    }
}

/// The empty object: `serde_json::Map::new` as a `serde_json::Value`.
#[verifier::external_body]
pub(crate) fn empty_object() -> (value: serde_json::Value)
    ensures
        json_of(value) == Json::Object(Map::<Seq<char>, Json>::empty()),
{
    serde_json::Value::Object(serde_json::Map::new())
}

/// A number: `serde_json::Value::from` on a `u64`.
#[verifier::external_body]
pub(crate) fn number(n: u64) -> (value: serde_json::Value)
    ensures
        json_of(value) == Json::Number(JsonNumber::Unsigned(n)),
{
    serde_json::Value::from(n)
}

/// A text: `serde_json::Value::from` on a `&str`.
#[verifier::external_body]
pub(crate) fn text(s: &str) -> (value: serde_json::Value)
    ensures
        json_of(value) == Json::Text(s@),
{
    serde_json::Value::from(s)
}

/// Sets a field of an object, by the indexing of `serde_json::Value` for assignment. It adds the
/// field where the object has none of that name. On what is neither an object nor null it panics.
#[verifier::external_body]
pub(crate) fn set_field(object: &mut serde_json::Value, key: &str, value: serde_json::Value)
    requires
        json_of(*old(object)) is Object,
    ensures
        json_of(*final(object)) == Json::Object(
            json_of(*old(object))->Object_0.insert(key@, json_of(value)),
        ),
{
    object[key] = value;
}

/// A field of an object: `serde_json::Value::get`, which finds none in what is no object.
#[verifier::external_body]
pub(crate) fn field<'a>(value: &'a serde_json::Value, key: &str) -> (r: Option<
    &'a serde_json::Value,
>)
    ensures
        match (json_of(*value), r) {
            (Json::Object(fields), Some(item)) => fields.dom().contains(key@) && fields[key@]
                == json_of(*item),
            (Json::Object(fields), None) => !fields.dom().contains(key@),
            (_, found) => found is None,
        },
{
    value.get(key)
}

/// The text that a JSON value is: `serde_json::Value::as_str`, which finds none in another value.
#[verifier::external_body]
pub(crate) fn as_text<'a>(value: &'a serde_json::Value) -> (r: Option<&'a str>)
    ensures
        match (json_of(*value), r) {
            (Json::Text(s), Some(found)) => found@ == s,
            (Json::Text(_), None) => false,
            (_, found) => found is None,
        },
{
    value.as_str()
}

/// A copy of a JSON value: the `Clone` of `serde_json::Value`.
#[verifier::external_body]
pub(crate) fn copy(value: &serde_json::Value) -> (r: serde_json::Value)
    ensures
        json_of(r) == json_of(*value),
{
    value.clone()
}

/// Adding a text or an unsigned number to an object that reads back gives one that reads back.
pub(crate) proof fn lemma_reads_back_with_field(
    fields: Map<Seq<char>, Json>,
    key: Seq<char>,
    item: Json,
)
    requires
        Json::Object(fields).reads_back(),
        item is Text || item matches Json::Number(JsonNumber::Unsigned(_)),
    ensures
        Json::Object(fields.insert(key, item)).reads_back(),
{
    let more = fields.insert(key, item);
    assert(item.fits(126));
    assert(more.dom() == fields.dom().insert(key));
    assert forall|k: Seq<char>| more.dom().contains(k) implies (#[trigger] more[k]).fits(126) by {
        if k != key {
            assert(fields.dom().contains(k));
            assert(more[k] == fields[k]);
        }
    }
}

} // verus!
