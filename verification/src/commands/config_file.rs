//! The file that holds the settings: how they are read from it and written to it.

use crate::commands::config;
use crate::commands::config::{eq_value, Config, Entry, Item, ItemView, SettingValue, ValueView};
use crate::json_object;
use crate::json_object::{
    clone_value, empty_object, get_value, keys_of, make_value, open_value, parse_object, parse_value,
    print_compact, print_object, put_value, Json, Parts,
};
use crate::text;
use crate::text::own;
use vstd::prelude::*;

verus! {

// ---------------------------------------------------------------------------
// Reading
// ---------------------------------------------------------------------------

/// An item of a list that stands in the file.
pub open spec fn item_from(value: Json) -> ItemView {
    match value {
        Json::Text(s) => ItemView::Text(s),
        _ => ItemView::Other(json_object::json_compact(value)),
    }
}

/// A setting that stands in the file.
pub open spec fn setting_from(value: Json) -> ValueView {
    match value {
        Json::Bool(b) => ValueView::Flag(b),
        Json::Text(s) => ValueView::Text(s),
        Json::List(list) => ValueView::List(Seq::new(list.len(), |i: int| item_from(list[i]))),
        _ => ValueView::Other(json_object::json_compact(value)),
    }
}

/// Whether a configuration is what an object holds: its keys, each once and in their order,
/// with their settings.
pub open spec fn is_config_of(
    config: Seq<(Seq<char>, ValueView)>,
    object: Map<Seq<char>, Json>,
) -> bool {
    &&& json_object::is_key_list(Seq::new(config.len(), |i: int| config[i].0), object)
    &&& forall|i: int|
        0 <= i < config.len() ==> (#[trigger] config[i]).1 == setting_from(object[config[i].0])
}

/// The object that a file holds; nothing where it holds something else.
pub open spec fn object_in(raw: Seq<char>) -> Map<Seq<char>, Json> {
    match json_object::json_object(raw) {
        Some(m) => m,
        None => json_object::no_entries(),
    }
}

fn read_item(value: serde_json::Value) -> (r: Item)
    ensures
        r@ == item_from(json_object::held(value)),
{
    let printed = print_compact(&value);
    match open_value(value) {
        Parts::Text(s) => Item::Text(s),
        _ => Item::Other(printed),
    }
}

fn read_items(values: &Vec<serde_json::Value>) -> (r: Vec<Item>)
    ensures
        config::items(r@) == Seq::new(
            values@.len(),
            |i: int| item_from(json_object::held(values@[i])),
        ),
{
    let ghost all = Seq::new(values@.len(), |i: int| item_from(json_object::held(values@[i])));
    let mut out: Vec<Item> = Vec::new();
    let mut i: usize = 0;
    while i < values.len()
        invariant
            i <= values@.len(),
            all == Seq::new(values@.len(), |i: int| item_from(json_object::held(values@[i]))),
            config::items(out@) == all.take(i as int),
        decreases values@.len() - i,
    {
        let item = read_item(clone_value(&values[i]));
        let ghost before = out@;
        out.push(item);
        proof {
            assert(config::items(out@) =~= config::items(before).push(item@));
            assert(all.take(i + 1) =~= all.take(i as int).push(item@));
        }
        i = i + 1;
    }
    assert(all.take(all.len() as int) =~= all);
    out
}

fn read_setting(value: serde_json::Value) -> (r: SettingValue)
    ensures
        r@ == setting_from(json_object::held(value)),
{
    let printed = print_compact(&value);
    match open_value(value) {
        Parts::Flag(b) => SettingValue::Flag(b),
        Parts::Text(s) => SettingValue::Text(s),
        Parts::List(values) => {
            let list = read_items(&values);
            proof {
                let held = json_object::all_held(values@);
                assert(config::items(list@) =~= Seq::new(
                    held.len(),
                    |i: int| item_from(held[i]),
                ));
            }
            SettingValue::List(list)
        },
        _ => SettingValue::Other(printed),
    }
}

/// Reads the settings from the text of their file. A text that is JSON but no object holds
/// none; for one that is no JSON the complaint comes back.
pub fn parse_config(raw: &str) -> (r: Result<Config, String>)
    ensures
        match r {
            Ok(c) => json_object::json_error(raw@) is None && is_config_of(c@, object_in(raw@)),
            Err(e) => json_object::json_error(raw@) == Some(e@),
        },
{
    let object = match parse_object(raw) {
        Ok(Some(m)) => m,
        Ok(None) => empty_object(),
        Err(e) => {
            return Err(e);
        },
    };
    let ghost m = json_object::entries(object);
    let keys = keys_of(&object);
    let ghost names = text::strs(keys@);
    let mut entries: Vec<Entry> = Vec::new();
    let mut i: usize = 0;
    while i < keys.len()
        invariant
            i <= keys@.len(),
            names == text::strs(keys@),
            m == json_object::entries(object),
            json_object::is_key_list(names, m),
            entries@.len() == i,
            forall|k: int|
                0 <= k < i ==> (#[trigger] entries@[k]).key@ == names[k] && entries@[k].value@
                    == setting_from(m[names[k]]),
        decreases keys@.len() - i,
    {
        let key = keys[i].as_str();
        assert(names[i as int] == key@);
        assert(m.contains_key(names[i as int]));
        if let Some(value) = get_value(&object, key) {
            entries.push(Entry { key: own(key), value: read_setting(value) });
        }
        i = i + 1;
    }
    let config = Config { entries };
    proof {
        assert(Seq::new(config@.len(), |i: int| config@[i].0) =~= names);
        assert forall|k: int| 0 <= k < config@.len() implies (#[trigger] config@[k]).1
            == setting_from(m[config@[k].0]) by {
            assert(entries@[k].key@ == names[k]);
        }
    }
    Ok(config)
}

/// Whether a file holds an object.
pub fn holds_object(raw: &str) -> (r: bool)
    ensures
        r == (json_object::json_object(raw@) is Some),
{
    match parse_object(raw) {
        Ok(Some(_)) => true,
        _ => false,
    }
}

/// Whether a setting can be put into a file: it holds an object, or nothing.
pub fn takes_settings(raw: &str) -> (r: bool)
    ensures
        r == (json_object::json_parsed(raw@) matches Ok(v) && (v is Object || v is Null)),
{
    match parse_value(raw) {
        Ok(v) => match open_value(v) {
            Parts::Object(_) => true,
            Parts::Null => true,
            _ => false,
        },
        Err(_) => false,
    }
}

// ---------------------------------------------------------------------------
// Writing
// ---------------------------------------------------------------------------

/// The value that a text is, or null where it is none.
pub open spec fn value_in(s: Seq<char>) -> Json {
    match json_object::json_parsed(s) {
        Ok(v) => v,
        Err(_) => Json::Null,
    }
}

/// An item as it is written.
pub open spec fn item_to(item: ItemView) -> Json {
    match item {
        ItemView::Text(s) => Json::Text(s),
        ItemView::Other(s) => value_in(s),
    }
}

/// A setting as it is written.
pub open spec fn setting_to(value: ValueView) -> Json {
    match value {
        ValueView::Flag(b) => Json::Bool(b),
        ValueView::Text(s) => Json::Text(s),
        ValueView::List(list) => Json::List(Seq::new(list.len(), |i: int| item_to(list[i]))),
        ValueView::Other(s) => value_in(s),
    }
}

/// What is written for an entry: what stands in the file, where that is the same setting.
pub open spec fn entry_to(object: Map<Seq<char>, Json>, entry: (Seq<char>, ValueView)) -> Json {
    if object.contains_key(entry.0) && setting_from(object[entry.0]) == entry.1 {
        object[entry.0]
    } else {
        setting_to(entry.1)
    }
}

/// The object of the first `n` entries, to be written in place of one.
pub open spec fn written(
    object: Map<Seq<char>, Json>,
    config: Seq<(Seq<char>, ValueView)>,
    n: nat,
) -> Map<Seq<char>, Json>
    decreases n,
{
    if n == 0 {
        json_object::no_entries()
    } else {
        written(object, config, (n - 1) as nat).insert(
            config[n - 1].0,
            entry_to(object, config[n - 1]),
        )
    }
}

fn parsed_or_null(s: &str) -> (r: serde_json::Value)
    ensures
        json_object::held(r) == value_in(s@),
{
    match parse_value(s) {
        Ok(v) => v,
        Err(_) => make_value(Parts::Null),
    }
}

fn write_setting(value: &SettingValue) -> (r: serde_json::Value)
    ensures
        json_object::held(r) == setting_to(value@),
{
    match value {
        SettingValue::Flag(b) => make_value(Parts::Flag(*b)),
        SettingValue::Text(s) => make_value(Parts::Text(own(s.as_str()))),
        SettingValue::Other(s) => parsed_or_null(s.as_str()),
        SettingValue::List(list) => {
            let ghost views = config::items(list@);
            let ghost all = Seq::new(views.len(), |i: int| item_to(views[i]));
            let mut values: Vec<serde_json::Value> = Vec::new();
            let mut i: usize = 0;
            while i < list.len()
                invariant
                    i <= list@.len(),
                    views == config::items(list@),
                    all == Seq::new(views.len(), |i: int| item_to(views[i])),
                    json_object::all_held(values@) == all.take(i as int),
                decreases list@.len() - i,
            {
                assert(views[i as int] == list@[i as int]@);
                let v = match &list[i] {
                    Item::Text(s) => make_value(Parts::Text(own(s.as_str()))),
                    Item::Other(s) => parsed_or_null(s.as_str()),
                };
                let ghost before = values@;
                values.push(v);
                proof {
                    assert(json_object::all_held(values@) =~= json_object::all_held(before).push(
                        json_object::held(v),
                    ));
                    assert(all.take(i + 1) =~= all.take(i as int).push(all[i as int]));
                }
                i = i + 1;
            }
            assert(all.take(all.len() as int) =~= all);
            make_value(Parts::List(values))
        },
    }
}

fn entry_value(
    object: &serde_json::Map<String, serde_json::Value>,
    entry: &Entry,
) -> (r: serde_json::Value)
    ensures
        json_object::held(r) == entry_to(
            json_object::entries(*object),
            (entry.key@, entry.value@),
        ),
{
    if let Some(there) = get_value(object, entry.key.as_str()) {
        if eq_value(&read_setting(clone_value(&there)), &entry.value) {
            return there;
        }
    }
    write_setting(&entry.value)
}

/// The text to write for settings, in place of the text that was there. What stands in the
/// file is kept as it is, but for the settings that differ.
pub fn write_config(raw: &str, config: &Config) -> (r: String)
    ensures
        r@ == json_object::json_object_text(written(object_in(raw@), config@, config@.len()))
            + "\n"@,
{
    let object = match parse_object(raw) {
        Ok(Some(m)) => m,
        _ => empty_object(),
    };
    let ghost m = json_object::entries(object);
    let ghost all = config@;
    let mut out = empty_object();
    let mut i: usize = 0;
    while i < config.entries.len()
        invariant
            i <= config.entries@.len(),
            m == json_object::entries(object),
            all == config@,
            json_object::entries(out) == written(m, all, i as nat),
        decreases config.entries@.len() - i,
    {
        let entry = &config.entries[i];
        assert(all[i as int] == (entry.key@, entry.value@));
        let value = entry_value(&object, entry);
        put_value(&mut out, entry.key.as_str(), value);
        i = i + 1;
    }
    let mut content = print_object(out);
    content.append("\n");
    content
}

// ---------------------------------------------------------------------------
// Laws
// ---------------------------------------------------------------------------

/// Whether no key occurs twice.
pub open spec fn distinct_keys(config: Seq<(Seq<char>, ValueView)>) -> bool {
    forall|i: int, j: int|
        0 <= i < j < config.len() ==> (#[trigger] config[i]).0 != (#[trigger] config[j]).0
}

proof fn lemma_config_is_distinct(
    config: Seq<(Seq<char>, ValueView)>,
    object: Map<Seq<char>, Json>,
)
    requires
        is_config_of(config, object),
    ensures
        distinct_keys(config),
        forall|i: int| 0 <= i < config.len() ==> object.contains_key((#[trigger] config[i]).0),
        forall|k: Seq<char>| #[trigger]
            object.contains_key(k) ==> exists|i: int| 0 <= i < config.len() && config[i].0 == k,
{
    let keys = Seq::new(config.len(), |i: int| config[i].0);
    assert forall|i: int, j: int| 0 <= i < j < config.len() implies (#[trigger] config[i]).0 != (
    #[trigger] config[j]).0 by {
        assert(keys[i] != keys[j]);
    }
    assert forall|i: int| 0 <= i < config.len() implies object.contains_key(
        (#[trigger] config[i]).0,
    ) by {
        assert(object.contains_key(keys[i]));
    }
    assert forall|k: Seq<char>| #[trigger] object.contains_key(k) implies exists|i: int|
        0 <= i < config.len() && config[i].0 == k by {
        assert(keys.contains(k));
        let i = choose|i: int| 0 <= i < keys.len() && keys[i] == k;
        assert(config[i].0 == k);
    }
}

proof fn lemma_written(
    object: Map<Seq<char>, Json>,
    config: Seq<(Seq<char>, ValueView)>,
    n: nat,
)
    requires
        n <= config.len(),
        distinct_keys(config),
    ensures
        forall|i: int|
            0 <= i < n ==> written(object, config, n).contains_key((#[trigger] config[i]).0)
                && written(object, config, n)[config[i].0] == entry_to(object, config[i]),
        forall|k: Seq<char>| #[trigger]
            written(object, config, n).contains_key(k) ==> exists|i: int|
                0 <= i < n && config[i].0 == k,
    decreases n,
{
    if n > 0 {
        lemma_written(object, config, (n - 1) as nat);
        let before = written(object, config, (n - 1) as nat);
        let now = written(object, config, n);
        assert forall|i: int| 0 <= i < n implies now.contains_key((#[trigger] config[i]).0)
            && now[config[i].0] == entry_to(object, config[i]) by {
            if i < n - 1 {
                assert(config[i].0 != config[n - 1].0);
            }
        }
        assert forall|k: Seq<char>| #[trigger] now.contains_key(k) implies exists|i: int|
            0 <= i < n && config[i].0 == k by {
            if k == config[n - 1].0 {
                assert(config[n - 1].0 == k);
            } else {
                assert(before.contains_key(k));
                let i = choose|i: int| 0 <= i < n - 1 && config[i].0 == k;
                assert(config[i].0 == k);
            }
        }
    }
}

/// Settings that are written as they were read change nothing in the file's object.
pub proof fn law_unchanged_settings_keep_the_file(
    object: Map<Seq<char>, Json>,
    config: Seq<(Seq<char>, ValueView)>,
)
    requires
        is_config_of(config, object),
    ensures
        written(object, config, config.len()) == object,
{
    lemma_config_is_distinct(config, object);
    lemma_written(object, config, config.len());
    let now = written(object, config, config.len());
    assert forall|k: Seq<char>| #[trigger] now.contains_key(k) == object.contains_key(k) && (
    now.contains_key(k) ==> now[k] == object[k]) by {
        if now.contains_key(k) {
            let i = choose|i: int| 0 <= i < config.len() && config[i].0 == k;
            assert(config[i].1 == setting_from(object[config[i].0]));
        }
        if object.contains_key(k) {
            let i = choose|i: int| 0 <= i < config.len() && config[i].0 == k;
            assert(now.contains_key(config[i].0));
        }
    }
    assert(now =~= object);
}

/// Whether a setting is a flag, a text, or a list of texts.
pub open spec fn is_plain(value: ValueView) -> bool {
    match value {
        ValueView::List(list) => forall|i: int| 0 <= i < list.len() ==> #[trigger] list[i] is Text,
        ValueView::Other(_) => false,
        _ => true,
    }
}

/// A changed setting stands in the written object, and every other key of the file keeps
/// exactly the value that it had. A flag, a text or a list of texts reads back as it was
/// set.
pub proof fn law_writing_changes_one_key(
    object: Map<Seq<char>, Json>,
    config: Seq<(Seq<char>, ValueView)>,
    key: Seq<char>,
    value: ValueView,
    other: Seq<char>,
)
    requires
        is_config_of(config, object),
        other != key,
    ensures
        ({
            let changed = config::put(config, key, value);
            let now = written(object, changed, changed.len());
            &&& now.contains_key(other) == object.contains_key(other)
            &&& now.contains_key(other) ==> now[other] == object[other]
            &&& now.contains_key(key)
            &&& is_plain(value) ==> setting_from(now[key]) == value
        }),
{
    lemma_config_is_distinct(config, object);
    config::lemma_position(config, key, 0);
    let changed = config::put(config, key, value);
    let now = written(object, changed, changed.len());
    let at = match config::position(config, key, 0) {
        Some(i) => i as int,
        None => config.len() as int,
    };
    assert(changed[at] == (key, value));
    assert forall|i: int| 0 <= i < changed.len() && i != at implies #[trigger] changed[i]
        == config[i] by {}
    assert(distinct_keys(changed)) by {
        assert forall|i: int, j: int| 0 <= i < j < changed.len() implies (
        #[trigger] changed[i]).0 != (#[trigger] changed[j]).0 by {
            if i != at && j != at {
                assert(config[i].0 != config[j].0);
            } else if i == at {
                assert(changed[j] == config[j]);
                assert(config[at].0 == key);
                assert(config[at].0 != config[j].0);
            } else {
                assert(changed[i] == config[i]);
                if at < config.len() {
                    assert(config[i].0 != config[at].0);
                }
            }
        }
    }
    lemma_written(object, changed, changed.len());
    if now.contains_key(other) {
        let i = choose|i: int| 0 <= i < changed.len() && changed[i].0 == other;
        assert(changed[i] == config[i]);
        assert(object.contains_key(config[i].0));
        assert(config[i].1 == setting_from(object[config[i].0]));
    }
    if object.contains_key(other) {
        let i = choose|i: int| 0 <= i < config.len() && config[i].0 == other;
        assert(i != at);
        assert(changed[i] == config[i]);
    }
    assert(now.contains_key(changed[at].0));
    if is_plain(value) {
        match value {
            ValueView::List(list) => {
                let written_list = Seq::new(list.len(), |i: int| item_to(list[i]));
                let read = Seq::new(written_list.len(), |i: int| item_from(written_list[i]));
                assert forall|i: int| 0 <= i < list.len() implies read[i] == list[i] by {
                    assert(list[i] is Text);
                }
                assert(read =~= list);
            },
            _ => {},
        }
    }
}

/// Settings are read exactly from a text that is JSON; one that is not comes back with the
/// complaint.
pub proof fn law_settings_are_read_from_json(raw: &str, r: Result<Config, String>, key: Seq<char>)
    requires
        call_ensures(parse_config, (raw,), r),
    ensures
        r is Ok <==> json_object::json_error(raw@) is None,
        r matches Err(e) ==> json_object::json_error(raw@) == Some(e@),
        r matches Ok(c) ==> (json_object::json_object(raw@) matches Some(m) ==> (m.contains_key(key)
            <==> exists|i: int| 0 <= i < c@.len() && (#[trigger] c@[i]).0 == key)),
{
    if let Ok(c) = r {
        lemma_config_is_distinct(c@, object_in(raw@));
        if let Some(m) = json_object::json_object(raw@) {
            if m.contains_key(key) {
                assert(object_in(raw@).contains_key(key));
            }
        }
    }
}

/// What is written is the settings as one object with a line end; a key that was not set is not
/// written.
pub proof fn law_settings_are_written_as_an_object(
    raw: &str,
    config: &Config,
    r: String,
    key: Seq<char>,
)
    requires
        call_ensures(write_config, (raw, config), r),
        distinct_keys(config@),
    ensures
        exists|m: Map<Seq<char>, Json>|
            r@ == #[trigger] json_object::json_object_text(m) + "\n"@ && (m.contains_key(key)
                <==> exists|i: int| 0 <= i < config@.len() && (#[trigger] config@[i]).0 == key),
{
    let m = written(object_in(raw@), config@, config@.len());
    lemma_written(object_in(raw@), config@, config@.len());
    assert(r@ == json_object::json_object_text(m) + "\n"@);
    if exists|i: int| 0 <= i < config@.len() && (#[trigger] config@[i]).0 == key {
        let i = choose|i: int| 0 <= i < config@.len() && (#[trigger] config@[i]).0 == key;
        assert(m.contains_key(config@[i].0));
    }
}

/// Flags, texts and numbers are read as what they are.
pub proof fn law_values_are_read_as_they_are(b: bool, s: Seq<char>)
    ensures
        setting_from(Json::Bool(b)) == ValueView::Flag(b),
        setting_from(Json::Text(s)) == ValueView::Text(s),
        setting_to(ValueView::Flag(b)) == Json::Bool(b),
        setting_to(ValueView::Text(s)) == Json::Text(s),
        item_from(Json::Text(s)) == ItemView::Text(s),
        item_to(ItemView::Text(s)) == Json::Text(s),
{
}

} // verus!
