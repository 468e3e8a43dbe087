//! JSON texts: single values out of them, and how they are written.

use crate::json_object;
use crate::json_object::{
    flag_in, make_value, number_in, parse_object, parse_value, print_compact, print_value, take_object,
    text_in, Json, Parts, Taken,
};
use crate::text;
use crate::text::{join_strs, own};
use vstd::prelude::*;

verus! {

/// Tests whether a text is valid JSON: the message with which it is refused.
pub fn parse_error(document: &str) -> (r: Option<String>)
    ensures
        text::opt_str(r) == json_object::json_error(document@),
{
    match parse_object(document) {
        Err(e) => Some(e),
        Ok(_) => None,
    }
}

/// What a document that is an object holds under a key.
pub open spec fn at(document: Seq<char>, key: Seq<char>) -> Option<Json> {
    match json_object::json_object(document) {
        Some(m) => json_object::member(m, key),
        None => None,
    }
}

/// What a document that is an object holds under a key of an object under a key.
pub open spec fn inner_at(document: Seq<char>, outer: Seq<char>, inner: Seq<char>) -> Option<Json> {
    match at(document, outer) {
        Some(Json::Object(m)) => json_object::member(m, inner),
        _ => None,
    }
}

/// The object that a document holds under a key.
fn object_at(document: &str, key: &str) -> (r: Option<serde_json::Map<String, serde_json::Value>>)
    ensures
        match r {
            Some(m) => at(document@, key@) == Some(Json::Object(json_object::entries(m))),
            None => !(at(document@, key@) matches Some(v) && v is Object),
        },
{
    match parse_object(document) {
        Ok(Some(m)) => {
            let mut rest = m;
            match take_object(&mut rest, key) {
                Taken::Object(inner) => Some(inner),
                _ => None,
            }
        },
        _ => None,
    }
}

/// The flag that a JSON object holds under a key: `None` where the text is not valid
/// JSON, is no object, or holds no flag there.
pub fn flag_at(document: &str, key: &str) -> (r: Option<bool>)
    ensures
        r == json_object::flag_of(at(document@, key@)),
{
    match parse_object(document) {
        Ok(Some(m)) => flag_in(&m, key),
        _ => None,
    }
}

/// The text that a JSON object holds under a key.
pub fn text_at(document: &str, key: &str) -> (r: Option<String>)
    ensures
        text::opt_str(r) == json_object::text_of(at(document@, key@)),
{
    match parse_object(document) {
        Ok(Some(m)) => text_in(&m, key),
        _ => None,
    }
}

/// The flag that a JSON object holds under a key of an object under a key.
pub fn inner_flag_at(document: &str, outer: &str, inner: &str) -> (r: Option<bool>)
    ensures
        r == json_object::flag_of(inner_at(document@, outer@, inner@)),
{
    match object_at(document, outer) {
        Some(m) => flag_in(&m, inner),
        None => None,
    }
}

/// The unsigned number that a JSON object holds under a key of an object under a key.
pub fn inner_number_at(document: &str, outer: &str, inner: &str) -> (r: Option<u64>)
    ensures
        r == json_object::number_of(inner_at(document@, outer@, inner@)),
{
    match object_at(document, outer) {
        Some(m) => number_in(&m, inner),
        None => None,
    }
}

/// The text that a JSON object holds under a key of an object under a key.
pub fn inner_text_at(document: &str, outer: &str, inner: &str) -> (r: Option<String>)
    ensures
        text::opt_str(r) == json_object::text_of(inner_at(document@, outer@, inner@)),
{
    match object_at(document, outer) {
        Some(m) => text_in(&m, inner),
        None => None,
    }
}

/// A JSON text laid out for reading: `None` where the text is not valid JSON.
pub open spec fn json_pretty(document: Seq<char>) -> Option<Seq<char>> {
    match json_object::json_parsed(document) {
        Ok(value) => Some(json_object::json_printed(value)),
        Err(_) => None,
    }
}

/// Lays a JSON text out for reading.
pub(crate) fn pretty(document: &str) -> (r: Option<String>)
    ensures
        text::opt_str(r) == json_pretty(document@),
{
    match parse_value(document) {
        Ok(value) => Some(print_value(&value)),
        Err(_) => None,
    }
}

/// The hexadecimal digit of a number below sixteen.
pub open spec fn hex_char(n: int) -> char {
    if n < 10 {
        (48 + n) as char
    } else {
        (87 + n) as char
    }
}

/// A character in a JSON string. Quotes, backslashes and control characters are escaped,
/// some of those with a letter, the others with their number.
pub open spec fn escaped_char(c: char) -> Seq<char> {
    let n = c as u32 as int;
    if c == '"' || c == '\\' {
        seq!['\\', c]
    } else if n == 8 {
        seq!['\\', 'b']
    } else if c == '\t' {
        seq!['\\', 't']
    } else if c == '\n' {
        seq!['\\', 'n']
    } else if n == 12 {
        seq!['\\', 'f']
    } else if c == '\r' {
        seq!['\\', 'r']
    } else if n < 32 {
        seq!['\\', 'u', '0', '0', hex_char(n / 16), hex_char(n % 16)]
    } else {
        seq![c]
    }
}

/// The characters of a text in a JSON string.
pub open spec fn escaped(s: Seq<char>) -> Seq<char>
    decreases s.len(),
{
    if s.len() == 0 {
        Seq::empty()
    } else {
        escaped(s.drop_last()) + escaped_char(s.last())
    }
}

/// A text as a JSON string, in quotes and with its special characters escaped.
pub open spec fn json_quoted(s: Seq<char>) -> Seq<char> {
    seq!['"'] + escaped(s) + seq!['"']
}

/// Writes a text as a JSON string.
pub(crate) fn quote(s: &str) -> (r: String)
    ensures
        r@ == json_quoted(s@),
{
    print_compact(&make_value(Parts::Text(own(s))))
}

/// The texts of a list as JSON strings.
pub open spec fn all_quoted(items: Seq<Seq<char>>) -> Seq<Seq<char>> {
    Seq::new(items.len(), |i: int| json_quoted(items[i]))
}

/// A JSON list of values that are JSON already.
pub open spec fn list_of(values: Seq<Seq<char>>) -> Seq<char> {
    "["@ + text::join(values, ","@) + "]"@
}

/// A JSON list of texts.
pub open spec fn list_of_texts(items: Seq<Seq<char>>) -> Seq<char> {
    list_of(all_quoted(items))
}

/// A JSON object of keys and of values that are JSON already.
pub open spec fn object_of(fields: Seq<(Seq<char>, Seq<char>)>) -> Seq<char> {
    "{"@ + text::join(fields_of(fields), ","@) + "}"@
}

/// The fields of a JSON object.
pub open spec fn fields_of(fields: Seq<(Seq<char>, Seq<char>)>) -> Seq<Seq<char>> {
    Seq::new(fields.len(), |i: int| json_quoted(fields[i].0) + ":"@ + fields[i].1)
}

/// A key and a value that is JSON already.
pub struct Field {
    pub key: &'static str,
    pub value: String,
}

/// The models of some fields.
pub open spec fn field_views(fields: Seq<Field>) -> Seq<(Seq<char>, Seq<char>)> {
    Seq::new(fields.len(), |i: int| (fields[i].key@, fields[i].value@))
}

/// Writes a JSON list of values that are JSON already.
pub fn write_list(values: &Vec<String>) -> (r: String)
    ensures
        r@ == list_of(text::strs(values@)),
{
    let mut out = own("[");
    out.append(join_strs(values, ",").as_str());
    out.append("]");
    out
}

/// Writes a JSON list of texts.
pub fn write_texts(items: &Vec<String>) -> (r: String)
    ensures
        r@ == list_of_texts(text::strs(items@)),
{
    let ghost all = all_quoted(text::strs(items@));
    let mut out: Vec<String> = Vec::new();
    let mut i: usize = 0;
    while i < items.len()
        invariant
            i <= items@.len(),
            all == all_quoted(text::strs(items@)),
            text::strs(out@) == all.take(i as int),
        decreases items@.len() - i,
    {
        let q = quote(items[i].as_str());
        let ghost before = out@;
        out.push(q);
        proof {
            text::lemma_strs_push(before, q);
            assert(all.take(i + 1) =~= all.take(i as int).push(q@));
        }
        i = i + 1;
    }
    assert(all.take(all.len() as int) =~= all);
    write_list(&out)
}

/// Writes a JSON object.
pub fn write_object(fields: &Vec<Field>) -> (r: String)
    ensures
        r@ == object_of(field_views(fields@)),
{
    let ghost all = fields_of(field_views(fields@));
    let mut parts: Vec<String> = Vec::new();
    let mut i: usize = 0;
    while i < fields.len()
        invariant
            i <= fields@.len(),
            all == fields_of(field_views(fields@)),
            text::strs(parts@) == all.take(i as int),
        decreases fields@.len() - i,
    {
        let mut part = quote(fields[i].key);
        part.append(":");
        part.append(fields[i].value.as_str());
        let ghost before = parts@;
        parts.push(part);
        proof {
            text::lemma_strs_push(before, part);
            assert(all.take(i + 1) =~= all.take(i as int).push(part@));
        }
        i = i + 1;
    }
    assert(all.take(all.len() as int) =~= all);
    let mut out = own("{");
    out.append(join_strs(&parts, ",").as_str());
    out.append("}");
    out
}

/// A JSON text as it is printed: laid out for reading, with a line end, or as it is
/// where it is not valid.
pub open spec fn printed(document: Seq<char>) -> Seq<char> {
    match json_pretty(document) {
        Some(laid_out) => laid_out + "\n"@,
        None => document,
    }
}

/// Prints a JSON text.
pub fn print(document: &str) -> (r: String)
    ensures
        r@ == printed(document@),
{
    print_laid_out(pretty(document), document)
}

/// Prints a JSON text that was laid out, or as it is where it was not.
pub fn print_laid_out(laid_out: Option<String>, document: &str) -> (r: String)
    ensures
        r@ == match laid_out {
            Some(out) => out@ + "\n"@,
            None => document@,
        },
{
    match laid_out {
        Some(out) => {
            let mut line = own(out.as_str());
            line.append("\n");
            line
        },
        None => own(document),
    }
}

// ---------------------------------------------------------------------------
// What quoting keeps
// ---------------------------------------------------------------------------

/// Whether a character stands in a JSON string as it is.
pub open spec fn is_plain_char(c: char) -> bool {
    c != '"' && c != '\\' && c as u32 >= 32
}

/// A text of plain characters is only put into quotes.
pub proof fn law_plain_text_is_kept(s: Seq<char>)
    requires
        forall|i: int| 0 <= i < s.len() ==> is_plain_char(#[trigger] s[i]),
    ensures
        json_quoted(s) == seq!['"'] + s + seq!['"'],
{
    lemma_plain_escaped(s);
}

proof fn lemma_plain_escaped(s: Seq<char>)
    requires
        forall|i: int| 0 <= i < s.len() ==> is_plain_char(#[trigger] s[i]),
    ensures
        escaped(s) == s,
    decreases s.len(),
{
    if s.len() > 0 {
        assert forall|i: int| 0 <= i < s.drop_last().len() implies is_plain_char(
            #[trigger] s.drop_last()[i],
        ) by {
            assert(is_plain_char(s[i]));
        }
        lemma_plain_escaped(s.drop_last());
        assert(is_plain_char(s.last()));
        assert(s.drop_last() + seq![s.last()] =~= s);
    } else {
        assert(escaped(s) =~= s);
    }
}

/// Every character that is not plain is escaped with a backslash, and no two characters are written
/// the same way.
pub proof fn law_escapes_are_told_apart(a: char, b: char)
    ensures
        is_plain_char(a) ==> escaped_char(a) == seq![a],
        !is_plain_char(a) ==> escaped_char(a).len() >= 2 && escaped_char(a)[0] == '\\',
        a != b ==> escaped_char(a) != escaped_char(b),
        a == '"' ==> escaped_char(a) == seq!['\\', '"'],
        a == '\\' ==> escaped_char(a) == seq!['\\', '\\'],
        a == '\n' ==> escaped_char(a) == seq!['\\', 'n'],
        a == '\t' ==> escaped_char(a) == seq!['\\', 't'],
        a == '\r' ==> escaped_char(a) == seq!['\\', 'r'],
{
    let x = escaped_char(a);
    let y = escaped_char(b);
    if a != b {
        assert(x.len() == y.len() ==> exists|i: int| 0 <= i < x.len() && x[i] != y[i]) by {
            if x.len() == y.len() {
                if x.len() == 1 {
                    assert(x[0] != y[0]);
                } else if x.len() == 2 {
                    assert(x[1] != y[1]);
                } else {
                    let n = a as u32 as int;
                    let m = b as u32 as int;
                    assert(n != m);
                    if n / 16 != m / 16 {
                        assert(x[4] != y[4]);
                    } else {
                        assert(x[5] != y[5]);
                    }
                }
            }
        }
    }
}

/// What is written in a JSON string holds no control character, and no quote that is not escaped.
pub proof fn law_strings_hold_no_control_characters(s: Seq<char>)
    ensures
        forall|i: int| 0 <= i < escaped(s).len() ==> (#[trigger] escaped(s)[i]) as u32 >= 32,
        forall|i: int|
            0 <= i < escaped(s).len() && #[trigger] escaped(s)[i] == '"' ==> i > 0 && escaped(s)[i
                - 1] == '\\',
    decreases s.len(),
{
    if s.len() > 0 {
        law_strings_hold_no_control_characters(s.drop_last());
        let head = escaped(s.drop_last());
        let last = escaped_char(s.last());
        assert forall|i: int| 0 <= i < escaped(s).len() implies (#[trigger] escaped(s)[i]) as u32
            >= 32 && (escaped(s)[i] == '"' ==> i > 0 && escaped(s)[i - 1] == '\\') by {
            if i < head.len() {
                assert(escaped(s)[i] == head[i]);
                if i > 0 {
                    assert(escaped(s)[i - 1] == head[i - 1]);
                }
            } else {
                assert(escaped(s)[i] == last[i - head.len()]);
                if i > head.len() {
                    assert(escaped(s)[i - 1] == last[i - 1 - head.len()]);
                }
            }
        }
    }
}

/// A list holds all its values, and an object all its fields, each under its key.
pub proof fn law_lists_and_objects_hold_all(
    values: Seq<Seq<char>>,
    fields: Seq<(Seq<char>, Seq<char>)>,
    k: int,
)
    ensures
        0 <= k < values.len() ==> text::contains(list_of(values), values[k]),
        0 <= k < values.len() ==> text::contains(list_of_texts(values), json_quoted(values[k])),
        0 <= k < fields.len() ==> text::contains(
            object_of(fields),
            json_quoted(fields[k].0) + ":"@ + fields[k].1,
        ),
        text::has_prefix(list_of(values), "["@) && text::has_suffix(list_of(values), "]"@),
        text::has_prefix(object_of(fields), "{"@) && text::has_suffix(object_of(fields), "}"@),
{
    broadcast use {
        text::lemma_contains_self,
        text::lemma_contains_first,
        text::lemma_contains_second,
        text::lemma_suffix_of_sum,
    };

    if 0 <= k < values.len() {
        text::law_joined_text_holds_its_parts(values, ","@, k);
        text::law_joined_text_holds_its_parts(all_quoted(values), ","@, k);
        assert(all_quoted(values)[k] == json_quoted(values[k]));
    }
    if 0 <= k < fields.len() {
        text::law_joined_text_holds_its_parts(fields_of(fields), ","@, k);
        assert(fields_of(fields)[k] == json_quoted(fields[k].0) + ":"@ + fields[k].1);
    }
    assert(list_of(values).take("["@.len() as int) =~= "["@);
    assert(object_of(fields).take("{"@.len() as int) =~= "{"@);
}

/// Only an object holds something under a key, and only under a key that it has.
pub proof fn law_only_objects_have_keys(document: Seq<char>, key: Seq<char>, inner: Seq<char>)
    ensures
        json_object::json_object(document) is None ==> at(document, key) is None,
        json_object::json_object(document) matches Some(m) ==> (at(document, key) is Some
            <==> m.contains_key(key)),
        json_object::json_object(document) matches Some(m) ==> (m.contains_key(key) ==> at(
            document,
            key,
        ) == Some(m[key])),
        at(document, key) is None ==> inner_at(document, key, inner) is None,
        at(document, key) matches Some(v) ==> (!(v is Object) ==> inner_at(document, key, inner)
            is None),
        at(document, key) matches Some(Json::Object(m)) ==> (m.contains_key(inner) ==> inner_at(
            document,
            key,
            inner,
        ) == Some(m[inner])),
{
}

/// A JSON text is printed with a line end; what is no JSON is printed as it is.
pub proof fn law_texts_are_printed(document: Seq<char>, laid_out: Option<String>, d: &str, r: String)
    requires
        call_ensures(print_laid_out, (laid_out, d), r),
    ensures
        json_object::json_parsed(document) is Err ==> printed(document) == document,
        json_object::json_parsed(document) matches Ok(v) ==> printed(document)
            == json_object::json_printed(v) + "\n"@,
        laid_out is None ==> r@ == d@,
        laid_out matches Some(out) ==> r@ == out@ + "\n"@,
{
}

} // verus!
