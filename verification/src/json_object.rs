//! Objects of JSON, as `serde_json` holds them.

use crate::json;
use crate::text;
use vstd::prelude::*;

verus! {

/// The model of a JSON value. A number that is held as an integer stands for itself,
/// any other as the text that it is printed as.
pub enum Json {
    Null,
    Bool(bool),
    Integer(int),
    Decimal(Seq<char>),
    Text(Seq<char>),
    List(Seq<Json>),
    Object(Map<Seq<char>, Json>),
}

/// Declares `serde_json::Value`, whose inside is not looked at.
#[verifier::external_type_specification]
#[verifier::external_body]
pub struct ExValue(serde_json::Value);

/// Declares `serde_json::Map`, the collection behind a JSON object.
#[verifier::external_type_specification]
#[verifier::external_body]
#[verifier::reject_recursive_types(K)]
#[verifier::reject_recursive_types(V)]
pub struct ExJsonMap<K, V>(serde_json::Map<K, V>);

/// What a value holds.
pub uninterp spec fn held(v: serde_json::Value) -> Json;

/// What an object holds.
pub uninterp spec fn entries(m: serde_json::Map<String, serde_json::Value>) -> Map<Seq<char>, Json>;

/// What the values of a list hold.
pub open spec fn all_held(values: Seq<serde_json::Value>) -> Seq<Json> {
    Seq::new(values.len(), |i: int| held(values[i]))
}

// ---------------------------------------------------------------------------
// Reading
// ---------------------------------------------------------------------------

/// The value that a text is, or the message with which it is refused.
pub uninterp spec fn json_parsed(document: Seq<char>) -> Result<Json, Seq<char>>;

/// Calls `serde_json::from_str` for a `serde_json::Value`. The value that comes out, and
/// the message for a text that is not JSON, depend on the text alone.
#[verifier::external_body]
pub(crate) fn parse_value(document: &str) -> (r: Result<serde_json::Value, String>)
    ensures
        match r {
            Ok(v) => json_parsed(document@) == Ok::<Json, Seq<char>>(held(v)),
            Err(e) => json_parsed(document@) == Err::<Json, Seq<char>>(e@),
        },
{
    serde_json::from_str::<serde_json::Value>(document).map_err(|e| e.to_string())
}

/// The message with which a text is refused, or `None` for valid JSON.
pub open spec fn json_error(document: Seq<char>) -> Option<Seq<char>> {
    match json_parsed(document) {
        Ok(_) => None,
        Err(e) => Some(e),
    }
}

/// The object that a text is, where it is valid JSON and an object.
pub open spec fn json_object(document: Seq<char>) -> Option<Map<Seq<char>, Json>> {
    match json_parsed(document) {
        Ok(Json::Object(m)) => Some(m),
        _ => None,
    }
}

/// A value by its kind.
pub enum Parts {
    Null,
    Flag(bool),
    /// A number, as the value that it is.
    Number(serde_json::Value),
    Text(String),
    List(Vec<serde_json::Value>),
    Object(serde_json::Map<String, serde_json::Value>),
}

/// What a value holds that has these parts.
pub open spec fn parts_hold(parts: Parts) -> Json {
    match parts {
        Parts::Null => Json::Null,
        Parts::Flag(b) => Json::Bool(b),
        Parts::Number(n) => held(n),
        Parts::Text(s) => Json::Text(s@),
        Parts::List(values) => Json::List(all_held(values@)),
        Parts::Object(m) => Json::Object(entries(m)),
    }
}

/// Tells the variants of `serde_json::Value` apart, and moves out what each holds.
#[verifier::external_body]
pub(crate) fn open_value(v: serde_json::Value) -> (r: Parts)
    ensures
        parts_hold(r) == held(v),
        r is Number ==> held(v) is Integer || held(v) is Decimal,
{
    match v {
        serde_json::Value::Null => Parts::Null,
        serde_json::Value::Bool(b) => Parts::Flag(b),
        serde_json::Value::Number(n) => Parts::Number(serde_json::Value::Number(n)),
        serde_json::Value::String(s) => Parts::Text(s),
        serde_json::Value::Array(values) => Parts::List(values),
        serde_json::Value::Object(m) => Parts::Object(m),
    }
}

/// Puts parts into the variant of `serde_json::Value` that holds them.
#[verifier::external_body]
pub(crate) fn make_value(parts: Parts) -> (r: serde_json::Value)
    ensures
        held(r) == parts_hold(parts),
{
    match parts {
        Parts::Null => serde_json::Value::Null,
        Parts::Flag(b) => serde_json::Value::Bool(b),
        Parts::Number(n) => n,
        Parts::Text(s) => serde_json::Value::String(s),
        Parts::List(values) => serde_json::Value::Array(values),
        Parts::Object(m) => serde_json::Value::Object(m),
    }
}

/// Calls `serde_json::Value::clone`: the copy holds the same.
#[verifier::external_body]
pub(crate) fn clone_value(v: &serde_json::Value) -> (r: serde_json::Value)
    ensures
        held(r) == held(*v),
{
    v.clone()
}

/// Reads a text that may be an object.
pub(crate) fn parse_object(document: &str) -> (r: Result<
    Option<serde_json::Map<String, serde_json::Value>>,
    String,
>)
    ensures
        match r {
            Err(e) => json_error(document@) == Some(e@) && json_object(document@) is None,
            Ok(None) => json_error(document@) is None && json_object(document@) is None,
            Ok(Some(m)) => json_error(document@) is None && json_object(document@) == Some(
                entries(m),
            ),
        },
{
    match parse_value(document) {
        Err(e) => Err(e),
        Ok(v) => match open_value(v) {
            Parts::Object(m) => Ok(Some(m)),
            _ => Ok(None),
        },
    }
}

// ---------------------------------------------------------------------------
// Objects
// ---------------------------------------------------------------------------

/// What an empty object holds.
pub open spec fn no_entries() -> Map<Seq<char>, Json> {
    Map::empty()
}

/// Calls `serde_json::Map::new`: the new object holds nothing.
#[verifier::external_body]
pub(crate) fn empty_object() -> (r: serde_json::Map<String, serde_json::Value>)
    ensures
        entries(r) == no_entries(),
{
    serde_json::Map::new()
}

/// Calls `serde_json::Map::contains_key`.
#[verifier::external_body]
pub(crate) fn has_key(m: &serde_json::Map<String, serde_json::Value>, key: &str) -> (r: bool)
    ensures
        r == entries(*m).contains_key(key@),
{
    m.contains_key(key)
}

/// Whether a list holds the keys of an object, each once, in their order.
pub open spec fn is_key_list(keys: Seq<Seq<char>>, m: Map<Seq<char>, Json>) -> bool {
    &&& forall|i: int| 0 <= i < keys.len() ==> m.contains_key(#[trigger] keys[i])
    &&& forall|k: Seq<char>| #[trigger] m.contains_key(k) ==> keys.contains(k)
    &&& forall|i: int, j: int|
        0 <= i < j < keys.len() ==> text::lex_le(#[trigger] keys[i], #[trigger] keys[j]) && keys[i]
            != keys[j]
}

/// Calls `serde_json::Map::keys`. The map is a `BTreeMap`, which hands its keys out in
/// their order, each once.
#[verifier::external_body]
pub(crate) fn keys_of(m: &serde_json::Map<String, serde_json::Value>) -> (r: Vec<String>)
    ensures
        is_key_list(text::strs(r@), entries(*m)),
{
    m.keys().cloned().collect()
}

/// The value that an object holds under a key.
pub open spec fn member(m: Map<Seq<char>, Json>, key: Seq<char>) -> Option<Json> {
    if m.contains_key(key) {
        Some(m[key])
    } else {
        None
    }
}

/// The flag that a value is.
pub open spec fn flag_of(value: Option<Json>) -> Option<bool> {
    match value {
        Some(Json::Bool(b)) => Some(b),
        _ => None,
    }
}

/// The unsigned number of 64 bits that a value is.
pub open spec fn number_of(value: Option<Json>) -> Option<u64> {
    match value {
        Some(Json::Integer(n)) => if 0 <= n <= u64::MAX {
            Some(n as u64)
        } else {
            None
        },
        _ => None,
    }
}

/// The text that a value is.
pub open spec fn text_of(value: Option<Json>) -> Option<Seq<char>> {
    match value {
        Some(Json::Text(s)) => Some(s),
        _ => None,
    }
}

/// Calls `serde_json::Map::get` and copies the value, where there is one under the key.
#[verifier::external_body]
pub(crate) fn get_value(m: &serde_json::Map<String, serde_json::Value>, key: &str) -> (r: Option<
    serde_json::Value,
>)
    ensures
        match r {
            Some(v) => member(entries(*m), key@) == Some(held(v)),
            None => member(entries(*m), key@) is None,
        },
{
    m.get(key).cloned()
}

/// Calls `serde_json::Map::remove`: the key is gone, and what stood under it comes out.
#[verifier::external_body]
pub(crate) fn take_value(
    m: &mut serde_json::Map<String, serde_json::Value>,
    key: &str,
) -> (r: Option<serde_json::Value>)
    ensures
        entries(*final(m)) == entries(*old(m)).remove(key@),
        match r {
            Some(v) => member(entries(*old(m)), key@) == Some(held(v)),
            None => member(entries(*old(m)), key@) is None,
        },
{
    m.remove(key)
}

/// Calls `serde_json::Map::insert`: the value stands under the key, in place of what stood
/// there.
#[verifier::external_body]
pub(crate) fn put_value(
    m: &mut serde_json::Map<String, serde_json::Value>,
    key: &str,
    v: serde_json::Value,
)
    ensures
        entries(*final(m)) == entries(*old(m)).insert(key@, held(v)),
{
    m.insert(key.to_string(), v);
}

/// Calls `serde_json::Value::as_u64`, which gives an integer of at least zero and nothing of
/// any other value.
#[verifier::external_body]
fn whole_number(v: &serde_json::Value) -> (r: Option<u64>)
    ensures
        r == number_of(Some(held(*v))),
{
    v.as_u64()
}

/// The flag that an object holds under a key.
pub(crate) fn flag_in(m: &serde_json::Map<String, serde_json::Value>, key: &str) -> (r: Option<bool>)
    ensures
        r == flag_of(member(entries(*m), key@)),
{
    match get_value(m, key) {
        Some(v) => match open_value(v) {
            Parts::Flag(b) => Some(b),
            _ => None,
        },
        None => None,
    }
}

/// The unsigned number that an object holds under a key.
pub(crate) fn number_in(m: &serde_json::Map<String, serde_json::Value>, key: &str) -> (r: Option<u64>)
    ensures
        r == number_of(member(entries(*m), key@)),
{
    match get_value(m, key) {
        Some(v) => whole_number(&v),
        None => None,
    }
}

/// The text that an object holds under a key.
pub(crate) fn text_in(m: &serde_json::Map<String, serde_json::Value>, key: &str) -> (r: Option<
    String,
>)
    ensures
        text::opt_str(r) == text_of(member(entries(*m), key@)),
{
    match get_value(m, key) {
        Some(v) => match open_value(v) {
            Parts::Text(s) => Some(s),
            _ => None,
        },
        None => None,
    }
}

/// What stood under a key.
pub enum Taken {
    /// Nothing.
    Absent,
    /// A value that is no object.
    Other,
    /// An object.
    Object(serde_json::Map<String, serde_json::Value>),
}

/// Takes out what stands under a key, objects told from other values.
pub(crate) fn take_object(
    m: &mut serde_json::Map<String, serde_json::Value>,
    key: &str,
) -> (r: Taken)
    ensures
        entries(*final(m)) == entries(*old(m)).remove(key@),
        match r {
            Taken::Absent => !entries(*old(m)).contains_key(key@),
            Taken::Other => entries(*old(m)).contains_key(key@) && !(entries(
                *old(m),
            )[key@] is Object),
            Taken::Object(inner) => entries(*old(m)).contains_key(key@) && entries(*old(m))[key@]
                == Json::Object(entries(inner)),
        },
{
    match take_value(m, key) {
        None => Taken::Absent,
        Some(v) => match open_value(v) {
            Parts::Object(inner) => Taken::Object(inner),
            _ => Taken::Other,
        },
    }
}

/// Copies the value under a key from one object to another.
pub(crate) fn copy_value(
    to: &mut serde_json::Map<String, serde_json::Value>,
    from: &serde_json::Map<String, serde_json::Value>,
    key: &str,
)
    requires
        entries(*from).contains_key(key@),
    ensures
        entries(*final(to)) == entries(*old(to)).insert(key@, entries(*from)[key@]),
{
    if let Some(value) = get_value(from, key) {
        put_value(to, key, value);
    }
}

// ---------------------------------------------------------------------------
// Printing
// ---------------------------------------------------------------------------

/// A value as it is printed over several lines.
pub uninterp spec fn json_printed(value: Json) -> Seq<char>;

/// Calls `serde_json::to_string_pretty`. It fails on no value of this type, and what it
/// gives depends on what the value holds alone.
#[verifier::external_body]
pub(crate) fn print_value(v: &serde_json::Value) -> (r: String)
    ensures
        r@ == json_printed(held(*v)),
{
    serde_json::to_string_pretty(v).unwrap_or_default()
}

/// A value as it is printed on one line.
pub uninterp spec fn json_compact(value: Json) -> Seq<char>;

/// Prints a `serde_json::Value` by its `Display`. What comes out depends on what the value
/// holds alone; a text becomes a JSON string in which only quotes, backslashes and control
/// characters are escaped.
#[verifier::external_body]
pub(crate) fn print_compact(v: &serde_json::Value) -> (r: String)
    ensures
        r@ == json_compact(held(*v)),
        held(*v) matches Json::Text(s) ==> r@ == json::json_quoted(s),
{
    v.to_string()
}

/// An object as it is printed over several lines.
pub open spec fn json_object_text(m: Map<Seq<char>, Json>) -> Seq<char> {
    json_printed(Json::Object(m))
}

/// Prints an object over several lines.
pub(crate) fn print_object(m: serde_json::Map<String, serde_json::Value>) -> (r: String)
    ensures
        r@ == json_object_text(entries(m)),
{
    print_value(&make_value(Parts::Object(m)))
}

} // verus!
