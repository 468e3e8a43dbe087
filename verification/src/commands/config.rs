//! The config command: showing and changing the hook configuration.

use crate::text;
use crate::text::{
    contains_name, dec_u64, eq_str, join_strs, own, own_words, pad_str, repeat_char, split_str, trim_str,
};
use vstd::prelude::*;

verus! {

// ---------------------------------------------------------------------------
// Values
// ---------------------------------------------------------------------------

/// An item of a list: a text, or something else, as JSON.
#[derive(Debug, Clone, PartialEq)]
pub enum Item {
    Text(String),
    Other(String),
}

/// The model of an item.
#[verifier::ext_equal]
pub enum ItemView {
    Text(Seq<char>),
    Other(Seq<char>),
}

impl View for Item {
    type V = ItemView;

    open spec fn view(&self) -> ItemView {
        match self {
            Item::Text(s) => ItemView::Text(s@),
            Item::Other(s) => ItemView::Other(s@),
        }
    }
}

/// A configured value. What is neither a flag nor a text nor a list is kept as JSON.
#[derive(Debug, Clone, PartialEq)]
pub enum SettingValue {
    Flag(bool),
    Text(String),
    List(Vec<Item>),
    Other(String),
}

/// The model of a configured value.
#[verifier::ext_equal]
pub enum ValueView {
    Flag(bool),
    Text(Seq<char>),
    List(Seq<ItemView>),
    Other(Seq<char>),
}

/// The models of some items.
pub open spec fn items(v: Seq<Item>) -> Seq<ItemView> {
    Seq::new(v.len(), |i: int| v[i]@)
}

impl View for SettingValue {
    type V = ValueView;

    open spec fn view(&self) -> ValueView {
        match self {
            SettingValue::Flag(b) => ValueView::Flag(*b),
            SettingValue::Text(s) => ValueView::Text(s@),
            SettingValue::List(list) => ValueView::List(items(list@)),
            SettingValue::Other(s) => ValueView::Other(s@),
        }
    }
}

/// A key and its value.
#[derive(Debug, Clone, PartialEq)]
pub struct Entry {
    pub key: String,
    pub value: SettingValue,
}

/// A configuration, in no particular order.
#[derive(Debug, Clone, PartialEq)]
pub struct Config {
    pub entries: Vec<Entry>,
}

impl View for Config {
    type V = Seq<(Seq<char>, ValueView)>;

    open spec fn view(&self) -> Seq<(Seq<char>, ValueView)> {
        Seq::new(self.entries@.len(), |i: int| (self.entries@[i].key@, self.entries@[i].value@))
    }
}

/// The position of a key, from the `n`-th entry on.
pub open spec fn position(config: Seq<(Seq<char>, ValueView)>, key: Seq<char>, n: nat) -> Option<nat>
    decreases config.len() - n,
{
    if n >= config.len() {
        None
    } else if config[n as int].0 == key {
        Some(n)
    } else {
        position(config, key, n + 1)
    }
}

/// The value of a key.
pub open spec fn lookup(config: Seq<(Seq<char>, ValueView)>, key: Seq<char>) -> Option<ValueView> {
    match position(config, key, 0) {
        Some(i) => Some(config[i as int].1),
        None => None,
    }
}

/// A configuration with a value put under a key.
pub open spec fn put(config: Seq<(Seq<char>, ValueView)>, key: Seq<char>, value: ValueView) -> Seq<
    (Seq<char>, ValueView),
> {
    match position(config, key, 0) {
        Some(i) => config.update(i as int, (key, value)),
        None => config.push((key, value)),
    }
}

fn clone_items(v: &Vec<Item>) -> (r: Vec<Item>)
    ensures
        items(r@) == items(v@),
{
    let mut out: Vec<Item> = Vec::new();
    let mut i: usize = 0;
    while i < v.len()
        invariant
            i <= v@.len(),
            items(out@) == items(v@).take(i as int),
        decreases v@.len() - i,
    {
        let ghost before = out@;
        let item = match &v[i] {
            Item::Text(s) => Item::Text(own(s.as_str())),
            Item::Other(s) => Item::Other(own(s.as_str())),
        };
        out.push(item);
        assert(items(out@) =~= items(before).push(item@));
        assert(items(v@).take(i + 1) =~= items(v@).take(i as int).push(v@[i as int]@));
        i = i + 1;
    }
    assert(items(v@).take(v@.len() as int) =~= items(v@));
    out
}

/// A copy of a value.
pub fn clone_value(v: &SettingValue) -> (r: SettingValue)
    ensures
        r@ == v@,
{
    match v {
        SettingValue::Flag(b) => SettingValue::Flag(*b),
        SettingValue::Text(s) => SettingValue::Text(own(s.as_str())),
        SettingValue::List(list) => SettingValue::List(clone_items(list)),
        SettingValue::Other(s) => SettingValue::Other(own(s.as_str())),
    }
}

fn clone_entries(v: &Vec<Entry>) -> (r: Vec<Entry>)
    ensures
        (Config { entries: r })@ == (Config { entries: *v })@,
        r@.len() == v@.len(),
{
    let ghost all = (Config { entries: *v })@;
    let mut out: Vec<Entry> = Vec::new();
    let mut i: usize = 0;
    while i < v.len()
        invariant
            i <= v@.len(),
            out@.len() == i,
            all == (Config { entries: *v })@,
            forall|k: int|
                0 <= k < i ==> (#[trigger] out@[k]).key@ == all[k].0 && out@[k].value@ == all[k].1,
        decreases v@.len() - i,
    {
        out.push(Entry { key: own(v[i].key.as_str()), value: clone_value(&v[i].value) });
        i = i + 1;
    }
    assert((Config { entries: out })@ =~= all);
    out
}

/// A copy of a configuration.
pub fn clone_config(c: &Config) -> (r: Config)
    ensures
        r@ == c@,
{
    Config { entries: clone_entries(&c.entries) }
}

fn eq_items(a: &Vec<Item>, b: &Vec<Item>) -> (r: bool)
    ensures
        r == (items(a@) == items(b@)),
{
    if a.len() != b.len() {
        assert(items(a@).len() != items(b@).len());
        return false;
    }
    let mut i: usize = 0;
    while i < a.len()
        invariant
            i <= a@.len(),
            a@.len() == b@.len(),
            forall|k: int| 0 <= k < i ==> (#[trigger] a@[k])@ == b@[k]@,
        decreases a@.len() - i,
    {
        let same = match (&a[i], &b[i]) {
            (Item::Text(x), Item::Text(y)) => eq_str(x.as_str(), y.as_str()),
            (Item::Other(x), Item::Other(y)) => eq_str(x.as_str(), y.as_str()),
            _ => false,
        };
        if !same {
            assert(items(a@)[i as int] != items(b@)[i as int]);
            return false;
        }
        i = i + 1;
    }
    assert(items(a@) =~= items(b@));
    true
}

/// Whether two values are the same.
pub fn eq_value(a: &SettingValue, b: &SettingValue) -> (r: bool)
    ensures
        r == (a@ == b@),
{
    match (a, b) {
        (SettingValue::Flag(x), SettingValue::Flag(y)) => *x == *y,
        (SettingValue::Text(x), SettingValue::Text(y)) => eq_str(x.as_str(), y.as_str()),
        (SettingValue::List(x), SettingValue::List(y)) => eq_items(x, y),
        (SettingValue::Other(x), SettingValue::Other(y)) => eq_str(x.as_str(), y.as_str()),
        _ => false,
    }
}

/// The model of an optional value.
pub open spec fn opt_value(v: Option<&SettingValue>) -> Option<ValueView> {
    match v {
        Some(x) => Some(x@),
        None => None,
    }
}

fn eq_opt(a: Option<&SettingValue>, b: Option<&SettingValue>) -> (r: bool)
    ensures
        r == (opt_value(a) == opt_value(b)),
{
    match (a, b) {
        (Some(x), Some(y)) => eq_value(x, y),
        (None, None) => true,
        _ => false,
    }
}

impl Config {
    fn find(&self, key: &str) -> (r: Option<usize>)
        ensures
            match r {
                Some(i) => position(self@, key@, 0) == Some(i as nat) && i < self.entries@.len(),
                None => position(self@, key@, 0) is None,
            },
    {
        let ghost all = self@;
        let mut i: usize = 0;
        while i < self.entries.len()
            invariant
                i <= self.entries@.len(),
                all == self@,
                position(all, key@, 0) == position(all, key@, i as nat),
            decreases self.entries@.len() - i,
        {
            if eq_str(self.entries[i].key.as_str(), key) {
                return Some(i);
            }
            i = i + 1;
        }
        None
    }

    /// The value of a key.
    pub fn get(&self, key: &str) -> (r: Option<&SettingValue>)
        ensures
            opt_value(r) == lookup(self@, key@),
    {
        match self.find(key) {
            Some(i) => Some(&self.entries[i].value),
            None => None,
        }
    }

    /// A copy of the configuration with a value put under a key.
    pub fn with(&self, key: &str, value: SettingValue) -> (r: Config)
        ensures
            r@ == put(self@, key@, value@),
    {
        let mut entries = clone_entries(&self.entries);
        let ghost before = (Config { entries })@;
        let entry = Entry { key: own(key), value };
        match self.find(key) {
            Some(i) => {
                entries.set(i, entry);
            },
            None => {
                entries.push(entry);
            },
        }
        let r = Config { entries };
        assert(r@ =~= put(self@, key@, value@));
        r
    }
}

// ---------------------------------------------------------------------------
// Settings
// ---------------------------------------------------------------------------

/// What a setting holds.
#[derive(Debug, Clone, Copy, PartialEq, Eq, Structural)]
pub enum SettingKind {
    Flag,
    OneOf,
    Texts,
}

/// How many settings there are.
pub const SETTINGS: usize = 10;

/// The keys of the settings.
pub open spec fn setting_key(i: int) -> Seq<char> {
    if i == 0 {
        "tracking_mode"@
    } else if i == 1 {
        "intervention_tracking"@
    } else if i == 2 {
        "cpitd_auto_install"@
    } else if i == 3 {
        "comment_discipline"@
    } else if i == 4 {
        "kickoff_verification"@
    } else if i == 5 {
        "signing_enforcement"@
    } else if i == 6 {
        "reminder_drift_threshold"@
    } else if i == 7 {
        "blocked_git_commands"@
    } else if i == 8 {
        "gated_git_commands"@
    } else {
        "allowed_bash_prefixes"@
    }
}

fn key_at(i: usize) -> (r: &'static str)
    requires
        i < SETTINGS,
    ensures
        r@ == setting_key(i as int),
{
    match i {
        0 => "tracking_mode",
        1 => "intervention_tracking",
        2 => "cpitd_auto_install",
        3 => "comment_discipline",
        4 => "kickoff_verification",
        5 => "signing_enforcement",
        6 => "reminder_drift_threshold",
        7 => "blocked_git_commands",
        8 => "gated_git_commands",
        _ => "allowed_bash_prefixes",
    }
}

/// What the settings hold.
pub open spec fn setting_kind(i: int) -> SettingKind {
    if i == 1 || i == 2 {
        SettingKind::Flag
    } else if i >= 7 {
        SettingKind::Texts
    } else {
        SettingKind::OneOf
    }
}

fn kind_at(i: usize) -> (r: SettingKind)
    ensures
        r == setting_kind(i as int),
{
    if i == 1 || i == 2 {
        SettingKind::Flag
    } else if i >= 7 {
        SettingKind::Texts
    } else {
        SettingKind::OneOf
    }
}

/// The values that the settings of one value may have.
pub open spec fn setting_options(i: int) -> Seq<Seq<char>> {
    if i == 0 {
        seq!["strict"@, "normal"@, "relaxed"@]
    } else if i == 3 {
        seq!["encouraged"@, "required"@, "relaxed"@]
    } else if i == 4 {
        seq!["local"@, "ci"@, "none"@]
    } else if i == 5 {
        seq!["disabled"@, "audit"@, "enforced"@]
    } else if i == 6 {
        seq!["0"@, "3"@, "5"@, "10"@, "15"@]
    } else {
        Seq::empty()
    }
}

fn options_at(i: usize) -> (r: Vec<String>)
    ensures
        text::strs(r@) == setting_options(i as int),
{
    let words: Vec<&'static str> = match i {
        0 => vec!["strict", "normal", "relaxed"],
        3 => vec!["encouraged", "required", "relaxed"],
        4 => vec!["local", "ci", "none"],
        5 => vec!["disabled", "audit", "enforced"],
        6 => vec!["0", "3", "5", "10", "15"],
        _ => Vec::new(),
    };
    assert(text::words(words@) =~= setting_options(i as int));
    own_words(&words)
}

/// What the settings are for.
pub open spec fn setting_description(i: int) -> Seq<char> {
    if i == 0 {
        "How aggressively issue tracking is enforced before code changes"@
    } else if i == 1 {
        "Log driver interventions for autonomy improvement"@
    } else if i == 2 {
        "Automatically install cpitd (context-provider) during init"@
    } else if i == 3 {
        "How strictly typed comments are enforced on issues"@
    } else if i == 4 {
        "Verification mode for agent kickoff tasks"@
    } else if i == 5 {
        "SSH signature verification level for coordination branch"@
    } else if i == 6 {
        "Prompts without crosslink usage before re-injecting reminder (0 = always)"@
    } else if i == 7 {
        "Git mutation commands blocked in all tracking modes"@
    } else if i == 8 {
        "Git commands allowed only with explicit user approval"@
    } else {
        "Bash commands that bypass the issue-required check"@
    }
}

fn description_at(i: usize) -> (r: &'static str)
    requires
        i < SETTINGS,
    ensures
        r@ == setting_description(i as int),
{
    match i {
        0 => "How aggressively issue tracking is enforced before code changes",
        1 => "Log driver interventions for autonomy improvement",
        2 => "Automatically install cpitd (context-provider) during init",
        3 => "How strictly typed comments are enforced on issues",
        4 => "Verification mode for agent kickoff tasks",
        5 => "SSH signature verification level for coordination branch",
        6 => "Prompts without crosslink usage before re-injecting reminder (0 = always)",
        7 => "Git mutation commands blocked in all tracking modes",
        8 => "Git commands allowed only with explicit user approval",
        _ => "Bash commands that bypass the issue-required check",
    }
}

/// The label of a kind.
pub open spec fn kind_label(kind: SettingKind) -> Seq<char> {
    match kind {
        SettingKind::Flag => "bool"@,
        SettingKind::OneOf => "enum"@,
        SettingKind::Texts => "string[]"@,
    }
}

fn label_of(kind: SettingKind) -> (r: &'static str)
    ensures
        r@ == kind_label(kind),
{
    match kind {
        SettingKind::Flag => "bool",
        SettingKind::OneOf => "enum",
        SettingKind::Texts => "string[]",
    }
}

/// Whether there is a setting of this key.
pub open spec fn is_setting(key: Seq<char>) -> bool {
    exists|i: int| 0 <= i < SETTINGS && #[trigger] setting_key(i) == key
}

/// The setting of a key.
pub open spec fn setting_of(key: Seq<char>) -> int {
    choose|i: int| 0 <= i < SETTINGS && #[trigger] setting_key(i) == key
}

proof fn lemma_keys_differ(i: int, j: int)
    requires
        0 <= i < SETTINGS,
        0 <= j < SETTINGS,
        setting_key(i) == setting_key(j),
    ensures
        i == j,
{
    reveal_strlit("tracking_mode");
    reveal_strlit("intervention_tracking");
    reveal_strlit("cpitd_auto_install");
    reveal_strlit("comment_discipline");
    reveal_strlit("kickoff_verification");
    reveal_strlit("signing_enforcement");
    reveal_strlit("reminder_drift_threshold");
    reveal_strlit("blocked_git_commands");
    reveal_strlit("gated_git_commands");
    reveal_strlit("allowed_bash_prefixes");
    let a = setting_key(i);
    let b = setting_key(j);
    assert(a.len() == b.len());
    assert(a[0] == b[0]);
    assert(a[1] == b[1]);
}

fn find_setting(key: &str) -> (r: Option<usize>)
    ensures
        match r {
            Some(i) => i < SETTINGS && setting_key(i as int) == key@ && is_setting(key@)
                && setting_of(key@) == i,
            None => !is_setting(key@),
        },
{
    let mut i: usize = 0;
    while i < SETTINGS
        invariant
            i <= SETTINGS,
            forall|k: int| 0 <= k < i ==> #[trigger] setting_key(k) != key@,
        decreases SETTINGS - i,
    {
        if eq_str(key_at(i), key) {
            assert(setting_key(i as int) == key@);
            proof {
                lemma_keys_differ(setting_of(key@), i as int);
            }
            return Some(i);
        }
        i = i + 1;
    }
    None
}

/// What is said of a key that no setting has.
pub open spec fn unknown_key(key: Seq<char>) -> Seq<char> {
    "Unknown config key: \""@ + key + "\". Run `crosslink config list` to see available keys."@
}

fn explain_unknown(key: &str) -> (r: String)
    ensures
        r@ == unknown_key(key@),
{
    let mut out = own("Unknown config key: \"");
    out.append(key);
    out.append("\". Run `crosslink config list` to see available keys.");
    out
}

// ---------------------------------------------------------------------------
// Values in words
// ---------------------------------------------------------------------------

/// The texts among the first `n` items.
pub open spec fn texts_of(list: Seq<ItemView>, n: nat) -> Seq<Seq<char>>
    decreases n,
{
    if n == 0 {
        Seq::empty()
    } else {
        let head = texts_of(list, (n - 1) as nat);
        match list[n - 1] {
            ItemView::Text(s) => head.push(s),
            ItemView::Other(_) => head,
        }
    }
}

/// The texts of a value, where it is a list.
pub open spec fn listed(v: Option<ValueView>) -> Seq<Seq<char>> {
    match v {
        Some(ValueView::List(list)) => texts_of(list, list.len()),
        _ => Seq::empty(),
    }
}

/// A value in words.
pub open spec fn value_text(v: ValueView) -> Seq<char> {
    match v {
        ValueView::Flag(b) => if b {
            "true"@
        } else {
            "false"@
        },
        ValueView::Text(s) => s,
        ValueView::List(list) => text::join(texts_of(list, list.len()), ", "@),
        ValueView::Other(s) => s,
    }
}

/// An optional value in words.
pub open spec fn opt_text(v: Option<ValueView>) -> Seq<char> {
    match v {
        Some(x) => value_text(x),
        None => "(unset)"@,
    }
}

fn texts(list: &Vec<Item>) -> (r: Vec<String>)
    ensures
        text::strs(r@) == texts_of(items(list@), list@.len()),
{
    let mut out: Vec<String> = Vec::new();
    let mut i: usize = 0;
    assert(text::strs(out@) =~= Seq::<Seq<char>>::empty());
    while i < list.len()
        invariant
            i <= list@.len(),
            text::strs(out@) == texts_of(items(list@), i as nat),
        decreases list@.len() - i,
    {
        assert(items(list@)[i as int] == list@[i as int]@);
        if let Item::Text(s) = &list[i] {
            let copy = own(s.as_str());
            let ghost before = out@;
            out.push(copy);
            proof {
                text::lemma_strs_push(before, copy);
            }
        }
        i = i + 1;
    }
    out
}

fn texts_at(v: Option<&SettingValue>) -> (r: Vec<String>)
    ensures
        text::strs(r@) == listed(opt_value(v)),
{
    if let Some(SettingValue::List(list)) = v {
        return texts(list);
    }
    let none: Vec<String> = Vec::new();
    assert(text::strs(none@) =~= Seq::<Seq<char>>::empty());
    none
}

/// Puts a value in words.
pub fn format_value(v: &SettingValue) -> (r: String)
    ensures
        r@ == value_text(v@),
{
    match v {
        SettingValue::Flag(b) => if *b {
            own("true")
        } else {
            own("false")
        },
        SettingValue::Text(s) => own(s.as_str()),
        SettingValue::List(list) => join_strs(&texts(list), ", "),
        SettingValue::Other(s) => own(s.as_str()),
    }
}

fn format_opt(v: Option<&SettingValue>) -> (r: String)
    ensures
        r@ == opt_text(opt_value(v)),
{
    match v {
        Some(x) => format_value(x),
        None => own("(unset)"),
    }
}

// ---------------------------------------------------------------------------
// show
// ---------------------------------------------------------------------------

/// Lines with a mark in front of each text.
pub open spec fn with_marked(acc: Seq<char>, mark: Seq<char>, list: Seq<Seq<char>>, n: nat) -> Seq<char>
    decreases n,
{
    if n == 0 {
        acc
    } else {
        with_marked(acc, mark, list, (n - 1) as nat) + mark + list[n - 1] + "\n"@
    }
}

fn push_marked(out: &mut String, mark: &str, list: &Vec<String>)
    ensures
        final(out)@ == with_marked(old(out)@, mark@, text::strs(list@), list@.len()),
{
    let ghost acc = out@;
    let mut i: usize = 0;
    while i < list.len()
        invariant
            i <= list@.len(),
            out@ == with_marked(acc, mark@, text::strs(list@), i as nat),
        decreases list@.len() - i,
    {
        out.append(mark);
        out.append(list[i].as_str());
        out.append("\n");
        i = i + 1;
    }
}

/// A setting, with whether it is the default.
pub open spec fn show_setting(
    acc: Seq<char>,
    i: int,
    current: Option<ValueView>,
    default: Option<ValueView>,
) -> Seq<char> {
    let mark = if current == default {
        "(default)"@
    } else {
        "(modified)"@
    };
    if setting_kind(i) == SettingKind::Texts {
        with_marked(
            acc + setting_key(i) + " "@ + mark + " "@ + kind_label(setting_kind(i)) + ":\n"@,
            "  - "@,
            listed(current),
            listed(current).len(),
        )
    } else {
        acc + setting_key(i) + " = "@ + opt_text(current) + " "@ + mark + "\n"@
    }
}

/// The first `n` settings.
pub open spec fn show_settings(
    config: Seq<(Seq<char>, ValueView)>,
    defaults: Seq<(Seq<char>, ValueView)>,
    n: nat,
) -> Seq<char>
    decreases n,
{
    if n == 0 {
        ""@
    } else {
        show_setting(
            show_settings(config, defaults, (n - 1) as nat),
            n - 1,
            lookup(config, setting_key(n - 1)),
            lookup(defaults, setting_key(n - 1)),
        )
    }
}

fn push_setting(out: &mut String, i: usize, current: Option<&SettingValue>, default: Option<&SettingValue>)
    requires
        i < SETTINGS,
    ensures
        final(out)@ == show_setting(
            old(out)@,
            i as int,
            opt_value(current),
            opt_value(default),
        ),
{
    let mark = if eq_opt(current, default) {
        "(default)"
    } else {
        "(modified)"
    };
    out.append(key_at(i));
    if kind_at(i) == SettingKind::Texts {
        out.append(" ");
        out.append(mark);
        out.append(" ");
        out.append(label_of(kind_at(i)));
        out.append(":\n");
        let list = texts_at(current);
        assert(text::strs(list@).len() == list@.len());
        push_marked(out, "  - ", &list);
    } else {
        out.append(" = ");
        out.append(format_opt(current).as_str());
        out.append(" ");
        out.append(mark);
        out.append("\n");
    }
}

/// Prints all settings, each with whether it is the default.
pub fn show(config: &Config, defaults: &Config) -> (out: String)
    ensures
        out@ == show_settings(config@, defaults@, SETTINGS as nat),
{
    let mut out = own("");
    let mut i: usize = 0;
    while i < SETTINGS
        invariant
            i <= SETTINGS,
            out@ == show_settings(config@, defaults@, i as nat),
        decreases SETTINGS - i,
    {
        push_setting(&mut out, i, config.get(key_at(i)), defaults.get(key_at(i)));
        i = i + 1;
    }
    out
}

// ---------------------------------------------------------------------------
// get
// ---------------------------------------------------------------------------

/// A value by itself: the texts of a list each on a line.
pub open spec fn get_text(v: Option<ValueView>) -> Seq<char> {
    if v matches Some(ValueView::List(_)) {
        with_marked(""@, ""@, listed(v), listed(v).len())
    } else {
        opt_text(v) + "\n"@
    }
}

/// Prints the value of a setting.
pub fn get(config: &Config, key: &str) -> (r: Result<String, String>)
    ensures
        match r {
            Ok(out) => is_setting(key@) && out@ == get_text(lookup(config@, key@)),
            Err(message) => !is_setting(key@) && message@ == unknown_key(key@),
        },
{
    if find_setting(key).is_none() {
        return Err(explain_unknown(key));
    }
    let value = config.get(key);
    if let Some(SettingValue::List(_)) = value {
        let list = texts_at(value);
        assert(text::strs(list@).len() == list@.len());
        let mut out = own("");
        push_marked(&mut out, "", &list);
        return Ok(out);
    }
    let mut out = format_opt(value);
    out.append("\n");
    Ok(out)
}

// ---------------------------------------------------------------------------
// set
// ---------------------------------------------------------------------------

/// What a command prints, and the configuration that it leaves, where it changes it.
pub struct Change {
    pub out: String,
    pub config: Option<Config>,
}

/// The model of a change.
#[verifier::ext_equal]
pub struct ChangeView {
    pub out: Seq<char>,
    pub config: Option<Seq<(Seq<char>, ValueView)>>,
}

impl View for Change {
    type V = ChangeView;

    open spec fn view(&self) -> ChangeView {
        ChangeView {
            out: self.out@,
            config: match self.config {
                Some(c) => Some(c@),
                None => None,
            },
        }
    }
}

/// Whether an item is a text.
pub open spec fn is_text(item: ItemView, s: Seq<char>) -> bool {
    item == ItemView::Text(s)
}

/// Whether a list holds a text.
pub open spec fn holds(list: Seq<ItemView>, s: Seq<char>) -> bool {
    exists|i: int| 0 <= i < list.len() && is_text(#[trigger] list[i], s)
}

/// The first `n` items without a text.
pub open spec fn without(list: Seq<ItemView>, s: Seq<char>, n: nat) -> Seq<ItemView>
    decreases n,
{
    if n == 0 {
        Seq::empty()
    } else {
        let head = without(list, s, (n - 1) as nat);
        if is_text(list[n - 1], s) {
            head
        } else {
            head.push(list[n - 1])
        }
    }
}

/// The texts between the commas of a value, trimmed, as items.
pub open spec fn comma_items(value: Seq<char>) -> Seq<ItemView> {
    let parts = text::split(value, ',');
    Seq::new(parts.len(), |i: int| ItemView::Text(text::trim(parts[i])))
}

/// A setting written down.
pub open spec fn assigned(
    config: Seq<(Seq<char>, ValueView)>,
    key: Seq<char>,
    value: ValueView,
    out: Seq<char>,
) -> Result<ChangeView, Seq<char>> {
    Ok(ChangeView { out, config: Some(put(config, key, value)) })
}

/// A text that is told, with nothing changed.
pub open spec fn told(out: Seq<char>) -> Result<ChangeView, Seq<char>> {
    Ok(ChangeView { out, config: None })
}

/// Setting a flag.
pub open spec fn set_flag(
    config: Seq<(Seq<char>, ValueView)>,
    key: Seq<char>,
    value: Option<Seq<char>>,
) -> Result<ChangeView, Seq<char>> {
    match value {
        None => Err("Usage: crosslink config set "@ + key + " <true|false>"@),
        Some(v) => if v == "true"@ || v == "false"@ {
            assigned(
                config,
                key,
                ValueView::Flag(v == "true"@),
                key + " = "@ + v + "\n"@,
            )
        } else {
            Err(
                "Invalid value for "@ + key + ": expected \"true\" or \"false\", got \""@ + v
                    + "\""@,
            )
        },
    }
}

/// Setting one of some values.
pub open spec fn set_one(
    config: Seq<(Seq<char>, ValueView)>,
    key: Seq<char>,
    options: Seq<Seq<char>>,
    value: Option<Seq<char>>,
) -> Result<ChangeView, Seq<char>> {
    match value {
        None => Err(
            "Usage: crosslink config set "@ + key + " <"@ + text::join(options, "|"@) + ">"@,
        ),
        Some(v) => if text::has_name(options, v) {
            assigned(config, key, ValueView::Text(v), key + " = "@ + v + "\n"@)
        } else {
            Err(
                "Invalid value for "@ + key + ": \""@ + v + "\". Valid values: "@ + text::join(
                    options,
                    ", "@,
                ),
            )
        },
    }
}

/// What is said of a setting that should be a list.
pub open spec fn not_a_list(key: Seq<char>) -> Seq<char> {
    key + " is not an array in config"@
}

/// Setting a list: an item is added or removed, or the whole list replaced.
pub open spec fn set_texts(
    config: Seq<(Seq<char>, ValueView)>,
    key: Seq<char>,
    value: Option<Seq<char>>,
    added: Option<Seq<char>>,
    removed: Option<Seq<char>>,
) -> Result<ChangeView, Seq<char>> {
    match added {
        Some(item) => match lookup(config, key) {
            Some(ValueView::List(list)) => if holds(list, item) {
                told("\""@ + item + "\" already in "@ + key + "\n"@)
            } else {
                assigned(
                    config,
                    key,
                    ValueView::List(list.push(ItemView::Text(item))),
                    "Added \""@ + item + "\" to "@ + key + "\n"@,
                )
            },
            _ => Err(not_a_list(key)),
        },
        None => match removed {
            Some(item) => match lookup(config, key) {
                Some(ValueView::List(list)) => if holds(list, item) {
                    assigned(
                        config,
                        key,
                        ValueView::List(without(list, item, list.len())),
                        "Removed \""@ + item + "\" from "@ + key + "\n"@,
                    )
                } else {
                    told("\""@ + item + "\" not found in "@ + key + "\n"@)
                },
                _ => Err(not_a_list(key)),
            },
            None => match value {
                Some(v) => assigned(
                    config,
                    key,
                    ValueView::List(comma_items(v)),
                    "Set "@ + key + " to "@ + v + "\n"@,
                ),
                None => Err(
                    "Usage: crosslink config set "@ + key
                        + " \"val1,val2,...\" or --add/--remove \"val\""@,
                ),
            },
        },
    }
}

/// Changing a setting.
pub open spec fn set_outcome(
    config: Seq<(Seq<char>, ValueView)>,
    key: Seq<char>,
    value: Option<Seq<char>>,
    added: Option<Seq<char>>,
    removed: Option<Seq<char>>,
) -> Result<ChangeView, Seq<char>> {
    if !is_setting(key) {
        Err(unknown_key(key))
    } else {
        let i = setting_of(key);
        match setting_kind(i) {
            SettingKind::Flag => set_flag(config, key, value),
            SettingKind::OneOf => set_one(config, key, setting_options(i), value),
            SettingKind::Texts => set_texts(config, key, value, added, removed),
        }
    }
}

/// The model of what a command gives.
pub open spec fn outcome(r: Result<Change, String>) -> Result<ChangeView, Seq<char>> {
    match r {
        Ok(c) => Ok(c@),
        Err(e) => Err(e@),
    }
}

fn three(a: &str, b: &str, c: &str) -> (r: String)
    ensures
        r@ == a@ + b@ + c@,
{
    let mut out = own(a);
    out.append(b);
    out.append(c);
    out
}

fn five(a: &str, b: &str, c: &str, d: &str, e: &str) -> (r: String)
    ensures
        r@ == a@ + b@ + c@ + d@ + e@,
{
    let mut out = own(a);
    out.append(b);
    out.append(c);
    out.append(d);
    out.append(e);
    out
}

fn assign(config: &Config, key: &str, value: SettingValue, out: String) -> (r: Result<Change, String>)
    ensures
        outcome(r) == assigned(config@, key@, value@, out@),
{
    Ok(Change { out, config: Some(config.with(key, value)) })
}

fn tell(out: String) -> (r: Result<Change, String>)
    ensures
        outcome(r) == told(out@),
{
    Ok(Change { out, config: None })
}

fn assignment(key: &str, value: &str) -> (r: String)
    ensures
        r@ == key@ + " = "@ + value@ + "\n"@,
{
    let mut out = own(key);
    out.append(" = ");
    out.append(value);
    out.append("\n");
    out
}

fn change_flag(config: &Config, key: &str, value: Option<&str>) -> (r: Result<Change, String>)
    ensures
        outcome(r) == set_flag(config@, key@, text::opt_view(value)),
{
    proof {
        reveal_strlit("true");
        reveal_strlit("false");
        assert("true"@.len() != "false"@.len());
    }
    match value {
        None => Err(three("Usage: crosslink config set ", key, " <true|false>")),
        Some(v) => if eq_str(v, "true") {
            assign(config, key, SettingValue::Flag(true), assignment(key, v))
        } else if eq_str(v, "false") {
            assign(config, key, SettingValue::Flag(false), assignment(key, v))
        } else {
            Err(
                five(
                    "Invalid value for ",
                    key,
                    ": expected \"true\" or \"false\", got \"",
                    v,
                    "\"",
                ),
            )
        },
    }
}

fn change_one(config: &Config, key: &str, options: &Vec<String>, value: Option<&str>) -> (r: Result<
    Change,
    String,
>)
    ensures
        outcome(r) == set_one(config@, key@, text::strs(options@), text::opt_view(value)),
{
    match value {
        None => Err(
            five(
                "Usage: crosslink config set ",
                key,
                " <",
                join_strs(options, "|").as_str(),
                ">",
            ),
        ),
        Some(v) => if contains_name(options, v) {
            assign(config, key, SettingValue::Text(own(v)), assignment(key, v))
        } else {
            let mut message = five("Invalid value for ", key, ": \"", v, "\". Valid values: ");
            message.append(join_strs(options, ", ").as_str());
            Err(message)
        },
    }
}

fn list_holds(list: &Vec<Item>, s: &str) -> (r: bool)
    ensures
        r == holds(items(list@), s@),
{
    let ghost all = items(list@);
    let mut i: usize = 0;
    while i < list.len()
        invariant
            i <= list@.len(),
            all == items(list@),
            forall|k: int| 0 <= k < i ==> !is_text(#[trigger] all[k], s@),
        decreases list@.len() - i,
    {
        assert(all[i as int] == list@[i as int]@);
        if let Item::Text(t) = &list[i] {
            if eq_str(t.as_str(), s) {
                assert(is_text(all[i as int], s@));
                return true;
            }
        }
        i = i + 1;
    }
    false
}

fn list_without(list: &Vec<Item>, s: &str) -> (r: Vec<Item>)
    ensures
        items(r@) == without(items(list@), s@, list@.len()),
{
    let ghost all = items(list@);
    let mut out: Vec<Item> = Vec::new();
    let mut i: usize = 0;
    assert(items(out@) =~= Seq::<ItemView>::empty());
    while i < list.len()
        invariant
            i <= list@.len(),
            all == items(list@),
            items(out@) == without(all, s@, i as nat),
        decreases list@.len() - i,
    {
        assert(all[i as int] == list@[i as int]@);
        let ghost before = out@;
        match &list[i] {
            Item::Text(t) => {
                if !eq_str(t.as_str(), s) {
                    let item = Item::Text(own(t.as_str()));
                    out.push(item);
                    assert(items(out@) =~= items(before).push(item@));
                }
            },
            Item::Other(t) => {
                let item = Item::Other(own(t.as_str()));
                out.push(item);
                assert(items(out@) =~= items(before).push(item@));
            },
        }
        i = i + 1;
    }
    out
}

fn split_items(value: &str) -> (r: Vec<Item>)
    ensures
        items(r@) == comma_items(value@),
{
    let parts = split_str(value, ',');
    let ghost all = comma_items(value@);
    let mut out: Vec<Item> = Vec::new();
    let mut i: usize = 0;
    assert(text::strs(parts@).len() == parts@.len());
    while i < parts.len()
        invariant
            i <= parts@.len(),
            text::strs(parts@) == text::split(value@, ','),
            all == comma_items(value@),
            items(out@) == all.take(i as int),
        decreases parts@.len() - i,
    {
        assert(text::strs(parts@)[i as int] == parts@[i as int]@);
        let item = Item::Text(trim_str(parts[i].as_str()));
        let ghost before = out@;
        out.push(item);
        assert(items(out@) =~= items(before).push(item@));
        assert(all.take(i + 1) =~= all.take(i as int).push(item@));
        i = i + 1;
    }
    assert(all.take(all.len() as int) =~= all);
    out
}

fn change_texts(
    config: &Config,
    key: &str,
    value: Option<&str>,
    added: Option<&str>,
    removed: Option<&str>,
) -> (r: Result<Change, String>)
    ensures
        outcome(r) == set_texts(
            config@,
            key@,
            text::opt_view(value),
            text::opt_view(added),
            text::opt_view(removed),
        ),
{
    if let Some(item) = added {
        return match config.get(key) {
            Some(SettingValue::List(list)) => if list_holds(list, item) {
                tell(five("\"", item, "\" already in ", key, "\n"))
            } else {
                let mut more = clone_items(list);
                let ghost before = more@;
                let new = Item::Text(own(item));
                more.push(new);
                assert(items(more@) =~= items(before).push(new@));
                assign(config, key, SettingValue::List(more), five("Added \"", item, "\" to ", key, "\n"))
            },
            _ => {
                let mut message = own(key);
                message.append(" is not an array in config");
                Err(message)
            },
        };
    }
    if let Some(item) = removed {
        return match config.get(key) {
            Some(SettingValue::List(list)) => if list_holds(list, item) {
                assign(
                    config,
                    key,
                    SettingValue::List(list_without(list, item)),
                    five("Removed \"", item, "\" from ", key, "\n"),
                )
            } else {
                tell(five("\"", item, "\" not found in ", key, "\n"))
            },
            _ => {
                let mut message = own(key);
                message.append(" is not an array in config");
                Err(message)
            },
        };
    }
    match value {
        Some(v) => assign(
            config,
            key,
            SettingValue::List(split_items(v)),
            five("Set ", key, " to ", v, "\n"),
        ),
        None => Err(
            three(
                "Usage: crosslink config set ",
                key,
                " \"val1,val2,...\" or --add/--remove \"val\"",
            ),
        ),
    }
}

/// Validates and writes the value of a setting.
pub fn set(
    config: &Config,
    key: &str,
    value: Option<&str>,
    added: Option<&str>,
    removed: Option<&str>,
) -> (r: Result<Change, String>)
    ensures
        outcome(r) == set_outcome(
            config@,
            key@,
            text::opt_view(value),
            text::opt_view(added),
            text::opt_view(removed),
        ),
{
    let i = match find_setting(key) {
        Some(i) => i,
        None => {
            return Err(explain_unknown(key));
        },
    };
    match kind_at(i) {
        SettingKind::Flag => change_flag(config, key, value),
        SettingKind::OneOf => change_one(config, key, &options_at(i), value),
        SettingKind::Texts => change_texts(config, key, value, added, removed),
    }
}

// ---------------------------------------------------------------------------
// list
// ---------------------------------------------------------------------------

/// The default of a setting, in short.
pub open spec fn default_text(v: Option<ValueView>) -> Seq<char> {
    match v {
        Some(ValueView::List(list)) => "["@ + text::dec(list.len()) + " items]"@,
        Some(x) => value_text(x),
        None => "(none)"@,
    }
}

/// The first `n` settings with their types and descriptions.
pub open spec fn list_settings(defaults: Seq<(Seq<char>, ValueView)>, n: nat) -> Seq<char>
    decreases n,
{
    if n == 0 {
        text::pad("KEY"@, 28) + " "@ + text::pad("TYPE"@, 10) + " DESCRIPTION\n"@ + text::repeated(
            '-',
            78,
        ) + "\n"@
    } else {
        list_settings(defaults, (n - 1) as nat) + text::pad(setting_key(n - 1), 28) + " "@
            + text::pad(kind_label(setting_kind(n - 1)), 10) + " "@ + setting_description(n - 1)
            + " (default: "@ + default_text(lookup(defaults, setting_key(n - 1))) + ")\n"@
    }
}

fn format_default(v: Option<&SettingValue>) -> (r: String)
    ensures
        r@ == default_text(opt_value(v)),
{
    match v {
        Some(SettingValue::List(list)) => {
            assert(items(list@).len() == list@.len());
            three("[", dec_u64(list.len() as u64).as_str(), " items]")
        },
        Some(x) => format_value(x),
        None => own("(none)"),
    }
}

/// Prints all settings with their types and descriptions.
pub fn list(defaults: &Config) -> (out: String)
    ensures
        out@ == list_settings(defaults@, SETTINGS as nat),
{
    let mut out = pad_str("KEY", 28);
    out.append(" ");
    out.append(pad_str("TYPE", 10).as_str());
    out.append(" DESCRIPTION\n");
    out.append(repeat_char('-', 78).as_str());
    out.append("\n");
    let mut i: usize = 0;
    while i < SETTINGS
        invariant
            i <= SETTINGS,
            out@ == list_settings(defaults@, i as nat),
        decreases SETTINGS - i,
    {
        out.append(pad_str(key_at(i), 28).as_str());
        out.append(" ");
        out.append(pad_str(label_of(kind_at(i)), 10).as_str());
        out.append(" ");
        out.append(description_at(i));
        out.append(" (default: ");
        out.append(format_default(defaults.get(key_at(i))).as_str());
        out.append(")\n");
        i = i + 1;
    }
    out
}

// ---------------------------------------------------------------------------
// reset
// ---------------------------------------------------------------------------

/// Restoring the default of one setting, or all of the defaults.
pub open spec fn reset_outcome(
    config: Seq<(Seq<char>, ValueView)>,
    defaults: Seq<(Seq<char>, ValueView)>,
    key: Option<Seq<char>>,
) -> Result<ChangeView, Seq<char>> {
    match key {
        None => Ok(
            ChangeView { out: "Reset all config to defaults.\n"@, config: Some(defaults) },
        ),
        Some(k) => if !is_setting(k) {
            Err(unknown_key(k))
        } else {
            match lookup(defaults, k) {
                None => Err("No default found for "@ + k),
                Some(v) => assigned(
                    config,
                    k,
                    v,
                    "Reset "@ + k + " to default: "@ + value_text(v) + "\n"@,
                ),
            }
        },
    }
}

/// Restores the default of one setting, or all of the defaults.
pub fn reset(config: &Config, defaults: &Config, key: Option<&str>) -> (r: Result<Change, String>)
    ensures
        outcome(r) == reset_outcome(config@, defaults@, text::opt_view(key)),
{
    let k = match key {
        Some(k) => k,
        None => {
            return Ok(
                Change {
                    out: own("Reset all config to defaults.\n"),
                    config: Some(clone_config(defaults)),
                },
            );
        },
    };
    if find_setting(k).is_none() {
        return Err(explain_unknown(k));
    }
    match defaults.get(k) {
        None => {
            let mut message = own("No default found for ");
            message.append(k);
            Err(message)
        },
        Some(v) => assign(
            config,
            k,
            clone_value(v),
            five("Reset ", k, " to default: ", format_value(v).as_str(), "\n"),
        ),
    }
}

// ---------------------------------------------------------------------------
// diff
// ---------------------------------------------------------------------------

/// The first `n` texts of a list that another does not have.
pub open spec fn missing_from(list: Seq<Seq<char>>, other: Seq<Seq<char>>, n: nat) -> Seq<Seq<char>>
    decreases n,
{
    if n == 0 {
        Seq::empty()
    } else {
        let head = missing_from(list, other, (n - 1) as nat);
        if text::has_name(other, list[n - 1]) {
            head
        } else {
            head.push(list[n - 1])
        }
    }
}

/// Where a setting differs from its default.
pub open spec fn diff_setting(
    acc: Seq<char>,
    i: int,
    current: Option<ValueView>,
    default: Option<ValueView>,
) -> Seq<char> {
    if current == default {
        acc
    } else if setting_kind(i) == SettingKind::Texts {
        let more = missing_from(listed(current), listed(default), listed(current).len());
        let less = missing_from(listed(default), listed(current), listed(default).len());
        with_marked(
            with_marked(
                acc + setting_key(i) + " (modified):\n"@,
                "  + "@,
                more,
                more.len(),
            ),
            "  - "@,
            less,
            less.len(),
        )
    } else {
        acc + setting_key(i) + ": "@ + opt_text(current) + " (default: "@ + opt_text(default)
            + ")\n"@
    }
}

/// Where the first `n` settings differ from their defaults.
pub open spec fn diff_settings(
    config: Seq<(Seq<char>, ValueView)>,
    defaults: Seq<(Seq<char>, ValueView)>,
    n: nat,
) -> Seq<char>
    decreases n,
{
    if n == 0 {
        ""@
    } else {
        diff_setting(
            diff_settings(config, defaults, (n - 1) as nat),
            n - 1,
            lookup(config, setting_key(n - 1)),
            lookup(defaults, setting_key(n - 1)),
        )
    }
}

/// Whether a setting among the first `n` differs from its default.
pub open spec fn any_differs(
    config: Seq<(Seq<char>, ValueView)>,
    defaults: Seq<(Seq<char>, ValueView)>,
    n: nat,
) -> bool {
    exists|i: int|
        0 <= i < n && lookup(config, #[trigger] setting_key(i)) != lookup(
            defaults,
            setting_key(i),
        )
}

fn missing(list: &Vec<String>, other: &Vec<String>) -> (r: Vec<String>)
    ensures
        text::strs(r@) == missing_from(text::strs(list@), text::strs(other@), list@.len()),
{
    let ghost all = text::strs(list@);
    let mut out: Vec<String> = Vec::new();
    let mut i: usize = 0;
    assert(text::strs(out@) =~= Seq::<Seq<char>>::empty());
    while i < list.len()
        invariant
            i <= list@.len(),
            all == text::strs(list@),
            text::strs(out@) == missing_from(all, text::strs(other@), i as nat),
        decreases list@.len() - i,
    {
        assert(all[i as int] == list@[i as int]@);
        if !contains_name(other, list[i].as_str()) {
            let copy = own(list[i].as_str());
            let ghost before = out@;
            out.push(copy);
            proof {
                text::lemma_strs_push(before, copy);
            }
        }
        i = i + 1;
    }
    out
}

fn push_diff(out: &mut String, i: usize, current: Option<&SettingValue>, default: Option<&SettingValue>)
    requires
        i < SETTINGS,
        opt_value(current) != opt_value(default),
    ensures
        final(out)@ == diff_setting(
            old(out)@,
            i as int,
            opt_value(current),
            opt_value(default),
        ),
{
    out.append(key_at(i));
    if kind_at(i) == SettingKind::Texts {
        out.append(" (modified):\n");
        let now = texts_at(current);
        let then = texts_at(default);
        assert(text::strs(now@).len() == now@.len());
        assert(text::strs(then@).len() == then@.len());
        let more = missing(&now, &then);
        let less = missing(&then, &now);
        assert(text::strs(more@).len() == more@.len());
        assert(text::strs(less@).len() == less@.len());
        push_marked(out, "  + ", &more);
        push_marked(out, "  - ", &less);
    } else {
        out.append(": ");
        out.append(format_opt(current).as_str());
        out.append(" (default: ");
        out.append(format_opt(default).as_str());
        out.append(")\n");
    }
}

/// Compares the settings with their defaults, one by one.
pub fn diff(config: &Config, defaults: &Config) -> (out: String)
    ensures
        out@ == (if any_differs(config@, defaults@, SETTINGS as nat) {
            diff_settings(config@, defaults@, SETTINGS as nat)
        } else {
            ""@ + "No differences from defaults.\n"@
        }),
{
    let mut out = own("");
    let mut any = false;
    let mut i: usize = 0;
    while i < SETTINGS
        invariant
            i <= SETTINGS,
            out@ == diff_settings(config@, defaults@, i as nat),
            any == any_differs(config@, defaults@, i as nat),
            !any ==> out@ == ""@,
        decreases SETTINGS - i,
    {
        let current = config.get(key_at(i));
        let default = defaults.get(key_at(i));
        if !eq_opt(current, default) {
            push_diff(&mut out, i, current, default);
            any = true;
            assert(lookup(config@, setting_key(i as int)) != lookup(
                defaults@,
                setting_key(i as int),
            ));
        }
        proof {
            if any_differs(config@, defaults@, i as nat) {
                let k = choose|k: int|
                    0 <= k < i && lookup(config@, #[trigger] setting_key(k)) != lookup(
                        defaults@,
                        setting_key(k),
                    );
                assert(0 <= k < i + 1);
            }
        }
        i = i + 1;
    }
    if !any {
        out.append("No differences from defaults.\n");
    }
    out
}

// ---------------------------------------------------------------------------
// The command line
// ---------------------------------------------------------------------------

/// The config subcommands.
pub enum ConfigCommands {
    Show,
    Get { key: String },
    Change { key: String, value: Option<String>, add: Option<String>, remove: Option<String> },
    List,
    Reset { key: Option<String> },
    Diff,
}

/// What a config subcommand gives.
pub open spec fn run_outcome(
    command: ConfigCommands,
    config: Seq<(Seq<char>, ValueView)>,
    defaults: Seq<(Seq<char>, ValueView)>,
) -> Result<ChangeView, Seq<char>> {
    match command {
        ConfigCommands::Show => told(show_settings(config, defaults, SETTINGS as nat)),
        ConfigCommands::Get { key } => if is_setting(key@) {
            told(get_text(lookup(config, key@)))
        } else {
            Err(unknown_key(key@))
        },
        ConfigCommands::Change { key, value, add, remove } => set_outcome(
            config,
            key@,
            text::opt_str(value),
            text::opt_str(add),
            text::opt_str(remove),
        ),
        ConfigCommands::List => told(list_settings(defaults, SETTINGS as nat)),
        ConfigCommands::Reset { key } => reset_outcome(config, defaults, text::opt_str(key)),
        ConfigCommands::Diff => told(
            if any_differs(config, defaults, SETTINGS as nat) {
                diff_settings(config, defaults, SETTINGS as nat)
            } else {
                ""@ + "No differences from defaults.\n"@
            },
        ),
    }
}

fn borrow_opt(s: &Option<String>) -> (r: Option<&str>)
    ensures
        text::opt_view(r) == text::opt_str(*s),
{
    match s {
        Some(v) => Some(v.as_str()),
        None => None,
    }
}

/// Runs a config subcommand.
pub fn run(command: &ConfigCommands, config: &Config, defaults: &Config) -> (r: Result<Change, String>)
    ensures
        outcome(r) == run_outcome(*command, config@, defaults@),
{
    match command {
        ConfigCommands::Show => tell(show(config, defaults)),
        ConfigCommands::Get { key } => match get(config, key.as_str()) {
            Ok(out) => tell(out),
            Err(e) => Err(e),
        },
        ConfigCommands::Change { key, value, add, remove } => set(
            config,
            key.as_str(),
            borrow_opt(value),
            borrow_opt(add),
            borrow_opt(remove),
        ),
        ConfigCommands::List => tell(list(defaults)),
        ConfigCommands::Reset { key } => reset(config, defaults, borrow_opt(key)),
        ConfigCommands::Diff => tell(diff(config, defaults)),
    }
}

// ---------------------------------------------------------------------------
// Laws
// ---------------------------------------------------------------------------

/// What `position` finds: the first entry of the key.
pub proof fn lemma_position(config: Seq<(Seq<char>, ValueView)>, key: Seq<char>, n: nat)
    ensures
        match position(config, key, n) {
            Some(i) => n <= i < config.len() && config[i as int].0 == key && forall|k: int|
                n <= k < i ==> (#[trigger] config[k]).0 != key,
            None => forall|k: int| n <= k < config.len() ==> (#[trigger] config[k]).0 != key,
        },
    decreases config.len() - n,
{
    if n < config.len() && config[n as int].0 != key {
        lemma_position(config, key, n + 1);
    }
}

/// What is put under a key is found there, and every other key keeps its value.
pub proof fn law_put_is_found(
    config: Seq<(Seq<char>, ValueView)>,
    key: Seq<char>,
    value: ValueView,
    other: Seq<char>,
)
    ensures
        lookup(put(config, key, value), key) == Some(value),
        other != key ==> lookup(put(config, key, value), other) == lookup(config, other),
{
    let after = put(config, key, value);
    lemma_position(config, key, 0);
    lemma_position(after, key, 0);
    lemma_position(config, other, 0);
    lemma_position(after, other, 0);
    let at = match position(config, key, 0) {
        Some(i) => i as int,
        None => config.len() as int,
    };
    assert(after[at] == (key, value));
    match position(after, key, 0) {
        Some(i) => {
            if i < at {
                assert(after[i as int] == config[i as int]);
            }
            assert(i == at);
        },
        None => {},
    }
    if other != key {
        assert forall|k: int| 0 <= k < config.len() && k != at implies after[k] == config[k] by {}
        match position(config, other, 0) {
            Some(i) => {
                assert(after[i as int] == config[i as int]);
                match position(after, other, 0) {
                    Some(j) => {
                        assert(j <= i);
                        assert(after[j as int].0 == other);
                        assert(j != at);
                        assert(after[j as int] == config[j as int]);
                        assert(j == i);
                    },
                    None => {},
                }
            },
            None => {
                match position(after, other, 0) {
                    Some(j) => {
                        assert(j != at);
                        assert(after[j as int] == config[j as int]);
                    },
                    None => {},
                }
            },
        }
    }
}

/// Changing a setting leaves every other key as it was.
pub proof fn law_set_changes_one_setting(
    config: Seq<(Seq<char>, ValueView)>,
    key: Seq<char>,
    value: Option<Seq<char>>,
    added: Option<Seq<char>>,
    removed: Option<Seq<char>>,
    other: Seq<char>,
)
    requires
        other != key,
    ensures
        match set_outcome(config, key, value, added, removed) {
            Ok(change) => match change.config {
                Some(after) => lookup(after, other) == lookup(config, other),
                None => true,
            },
            Err(_) => true,
        },
{
    match set_outcome(config, key, value, added, removed) {
        Ok(change) => match change.config {
            Some(after) => {
                law_put_is_found(config, key, lookup(after, key)->0, other);
                if is_setting(key) {
                    let i = setting_of(key);
                    match setting_kind(i) {
                        SettingKind::Flag => {
                            law_put_is_found(
                                config,
                                key,
                                ValueView::Flag(value->0 == "true"@),
                                other,
                            );
                        },
                        SettingKind::OneOf => {
                            law_put_is_found(config, key, ValueView::Text(value->0), other);
                        },
                        SettingKind::Texts => {
                            let list = lookup(config, key)->0->List_0;
                            law_put_is_found(
                                config,
                                key,
                                ValueView::List(list.push(ItemView::Text(added->0))),
                                other,
                            );
                            law_put_is_found(
                                config,
                                key,
                                ValueView::List(without(list, removed->0, list.len())),
                                other,
                            );
                            law_put_is_found(
                                config,
                                key,
                                ValueView::List(comma_items(value->0)),
                                other,
                            );
                        },
                    }
                }
            },
            None => {},
        },
        Err(_) => {},
    }
}

proof fn lemma_all_texts(list: Seq<ItemView>, texts: Seq<Seq<char>>, n: nat)
    requires
        n <= list.len(),
        list.len() == texts.len(),
        forall|i: int| 0 <= i < list.len() ==> #[trigger] list[i] == ItemView::Text(texts[i]),
    ensures
        texts_of(list, n) == texts.take(n as int),
    decreases n,
{
    if n > 0 {
        lemma_all_texts(list, texts, (n - 1) as nat);
        assert(list[n - 1] == ItemView::Text(texts[n - 1]));
        assert(texts.take(n as int) =~= texts.take(n - 1).push(texts[n - 1]));
    } else {
        assert(texts.take(0) =~= Seq::<Seq<char>>::empty());
    }
}

/// What was set is shown: a flag or a word as it was given, a list with the texts between
/// the commas, trimmed, each on its line.
pub proof fn law_get_shows_what_was_set(
    config: Seq<(Seq<char>, ValueView)>,
    key: Seq<char>,
    value: Seq<char>,
)
    requires
        set_outcome(config, key, Some(value), None, None) is Ok,
    ensures
        ({
            let change = set_outcome(config, key, Some(value), None, None)->Ok_0;
            let parts = text::split(value, ',');
            let trimmed = Seq::new(parts.len(), |i: int| text::trim(parts[i]));
            let shown = get_text(lookup(change.config->0, key));
            &&& change.config is Some
            &&& shown == if setting_kind(setting_of(key)) == SettingKind::Texts {
                with_marked(""@, ""@, trimmed, trimmed.len())
            } else {
                value + "\n"@
            }
        }),
{
    match setting_kind(setting_of(key)) {
        SettingKind::Flag => {
            law_put_is_found(config, key, ValueView::Flag(value == "true"@), key);
        },
        SettingKind::OneOf => {
            law_put_is_found(config, key, ValueView::Text(value), key);
        },
        SettingKind::Texts => {
            let parts = text::split(value, ',');
            let trimmed = Seq::new(parts.len(), |i: int| text::trim(parts[i]));
            let list = comma_items(value);
            law_put_is_found(config, key, ValueView::List(list), key);
            lemma_all_texts(list, trimmed, list.len());
            assert(trimmed.take(trimmed.len() as int) =~= trimmed);
        },
    }
}

/// A setting that was reset no longer differs from its default.
pub proof fn law_reset_setting_is_default(
    config: Seq<(Seq<char>, ValueView)>,
    defaults: Seq<(Seq<char>, ValueView)>,
    key: Seq<char>,
)
    ensures
        match reset_outcome(config, defaults, Some(key)) {
            Ok(change) => change.config is Some && lookup(change.config->0, key) == lookup(
                defaults,
                key,
            ),
            Err(_) => !is_setting(key) || lookup(defaults, key) is None,
        },
{
    if is_setting(key) {
        match lookup(defaults, key) {
            Some(v) => {
                law_put_is_found(config, key, v, key);
            },
            None => {},
        }
    }
}

/// Once everything is reset, nothing differs.
pub proof fn law_reset_all_leaves_no_difference(
    config: Seq<(Seq<char>, ValueView)>,
    defaults: Seq<(Seq<char>, ValueView)>,
)
    ensures
        ({
            let after = reset_outcome(config, defaults, None)->Ok_0.config->0;
            !any_differs(after, defaults, SETTINGS as nat)
        }),
{
}

proof fn lemma_without(list: Seq<ItemView>, s: Seq<char>, n: nat)
    requires
        n <= list.len(),
    ensures
        !holds(without(list, s, n), s),
        without(list, s, n).len() <= n,
    decreases n,
{
    if n > 0 {
        lemma_without(list, s, (n - 1) as nat);
        let head = without(list, s, (n - 1) as nat);
        let all = without(list, s, n);
        if holds(all, s) {
            let i = choose|i: int| 0 <= i < all.len() && is_text(#[trigger] all[i], s);
            if i < head.len() {
                assert(is_text(head[i], s));
            }
        }
    }
}

proof fn lemma_without_keeps(list: Seq<ItemView>, s: Seq<char>, n: nat)
    requires
        n <= list.len(),
        forall|i: int| 0 <= i < n ==> !is_text(#[trigger] list[i], s),
    ensures
        without(list, s, n) == list.take(n as int),
    decreases n,
{
    if n > 0 {
        lemma_without_keeps(list, s, (n - 1) as nat);
        assert(!is_text(list[n - 1], s));
        assert(list.take(n as int) =~= list.take(n - 1).push(list[n - 1]));
    } else {
        assert(list.take(0) =~= Seq::<ItemView>::empty());
    }
}

/// Removing an item that was just added gives back the list, and a list from which an
/// item was removed does not hold it.
pub proof fn law_remove_undoes_add(list: Seq<ItemView>, item: Seq<char>)
    ensures
        !holds(list, item) ==> without(
            list.push(ItemView::Text(item)),
            item,
            list.len() + 1,
        ) == list,
        !holds(without(list, item, list.len()), item),
        holds(list.push(ItemView::Text(item)), item),
{
    let more = list.push(ItemView::Text(item));
    assert(is_text(more[list.len() as int], item));
    lemma_without(list, item, list.len());
    if !holds(list, item) {
        assert forall|i: int| 0 <= i < list.len() implies !is_text(#[trigger] more[i], item) by {
            assert(more[i] == list[i]);
        }
        lemma_without_keeps(more, item, list.len());
        assert(more.take(list.len() as int) =~= list);
    }
}

/// A flag takes just `true` and `false`; a setting of one value takes just its own values; a key
/// that is no setting takes nothing. What is set is what was given.
pub proof fn law_settings_take_their_values(
    config: Seq<(Seq<char>, ValueView)>,
    key: Seq<char>,
    v: Seq<char>,
)
    ensures
        ({
            let r = set_outcome(config, key, Some(v), None, None);
            let after = r->Ok_0.config->0;
            let flag = key == "intervention_tracking"@ || key == "cpitd_auto_install"@;
            &&& !is_setting(key) ==> r is Err
            &&& flag ==> (r is Ok <==> v == "true"@ || v == "false"@)
            &&& flag && v == "true"@ ==> lookup(after, key) == Some(ValueView::Flag(true))
            &&& flag && v == "false"@ ==> lookup(after, key) == Some(ValueView::Flag(false))
            &&& key == "tracking_mode"@ ==> (r is Ok <==> v == "strict"@ || v == "normal"@ || v
                == "relaxed"@)
            &&& key == "comment_discipline"@ ==> (r is Ok <==> v == "encouraged"@ || v
                == "required"@ || v == "relaxed"@)
            &&& key == "kickoff_verification"@ ==> (r is Ok <==> v == "local"@ || v == "ci"@ || v
                == "none"@)
            &&& key == "signing_enforcement"@ ==> (r is Ok <==> v == "disabled"@ || v == "audit"@
                || v == "enforced"@)
            &&& key == "reminder_drift_threshold"@ ==> (r is Ok <==> v == "0"@ || v == "3"@ || v
                == "5"@ || v == "10"@ || v == "15"@)
            &&& (key == "tracking_mode"@ || key == "comment_discipline"@ || key
                == "kickoff_verification"@ || key == "signing_enforcement"@ || key
                == "reminder_drift_threshold"@) && r is Ok ==> lookup(after, key) == Some(
                ValueView::Text(v),
            )
            &&& (key == "blocked_git_commands"@ || key == "gated_git_commands"@ || key
                == "allowed_bash_prefixes"@) ==> r is Ok
        }),
{
    if is_setting(key) {
        let i = setting_of(key);
        let value = match setting_kind(i) {
            SettingKind::Flag => ValueView::Flag(v == "true"@),
            SettingKind::OneOf => ValueView::Text(v),
            SettingKind::Texts => ValueView::List(comma_items(v)),
        };
        law_put_is_found(config, key, value, key);
    }
    reveal_strlit("true");
    reveal_strlit("false");
    assert("true"@.len() == 4 && "false"@.len() == 5);
    lemma_setting_of(key);
    lemma_three("strict"@, "normal"@, "relaxed"@, v);
    lemma_three("encouraged"@, "required"@, "relaxed"@, v);
    lemma_three("local"@, "ci"@, "none"@, v);
    lemma_three("disabled"@, "audit"@, "enforced"@, v);
    let five = seq!["0"@, "3"@, "5"@, "10"@, "15"@];
    assert(five[0] == "0"@ && five[1] == "3"@ && five[2] == "5"@ && five[3] == "10"@ && five[4]
        == "15"@);
}

proof fn lemma_three(a: Seq<char>, b: Seq<char>, c: Seq<char>, v: Seq<char>)
    ensures
        text::has_name(seq![a, b, c], v) <==> v == a || v == b || v == c,
{
    let s = seq![a, b, c];
    assert(s[0] == a && s[1] == b && s[2] == c);
}

proof fn lemma_setting_of(key: Seq<char>)
    ensures
        key == "tracking_mode"@ ==> is_setting(key) && setting_of(key) == 0,
        key == "intervention_tracking"@ ==> is_setting(key) && setting_of(key) == 1,
        key == "cpitd_auto_install"@ ==> is_setting(key) && setting_of(key) == 2,
        key == "comment_discipline"@ ==> is_setting(key) && setting_of(key) == 3,
        key == "kickoff_verification"@ ==> is_setting(key) && setting_of(key) == 4,
        key == "signing_enforcement"@ ==> is_setting(key) && setting_of(key) == 5,
        key == "reminder_drift_threshold"@ ==> is_setting(key) && setting_of(key) == 6,
        key == "blocked_git_commands"@ ==> is_setting(key) && setting_of(key) == 7,
        key == "gated_git_commands"@ ==> is_setting(key) && setting_of(key) == 8,
        key == "allowed_bash_prefixes"@ ==> is_setting(key) && setting_of(key) == 9,
{
    assert forall|i: int| 0 <= i < SETTINGS && #[trigger] setting_key(i) == key implies is_setting(
        key,
    ) && setting_of(key) == i by {
        lemma_keys_differ(setting_of(key), i);
    }
    assert(setting_key(0) == "tracking_mode"@ && setting_key(1) == "intervention_tracking"@
        && setting_key(2) == "cpitd_auto_install"@ && setting_key(3) == "comment_discipline"@
        && setting_key(4) == "kickoff_verification"@ && setting_key(5) == "signing_enforcement"@
        && setting_key(6) == "reminder_drift_threshold"@ && setting_key(7)
        == "blocked_git_commands"@ && setting_key(8) == "gated_git_commands"@ && setting_key(9)
        == "allowed_bash_prefixes"@);
}

/// A value that is refused is named with its key, and so is a key that there is not.
pub proof fn law_refused_values_are_named(
    config: Seq<(Seq<char>, ValueView)>,
    key: Seq<char>,
    v: Seq<char>,
)
    ensures
        set_outcome(config, key, Some(v), None, None) matches Err(message) ==> text::contains(
            message,
            key,
        ) && (is_setting(key) ==> text::contains(message, v)),
        text::contains(unknown_key(key), key),
{
    broadcast use {
        text::lemma_contains_self,
        text::lemma_contains_first,
        text::lemma_contains_second,
    };

}

/// An item that is added comes to the end of its list, which keeps all others; one that is there
/// already changes nothing. An item that is removed is gone, and all others stay; removing one that
/// is not there changes nothing.
pub proof fn law_items_come_and_go(
    config: Seq<(Seq<char>, ValueView)>,
    key: Seq<char>,
    item: Seq<char>,
    list: Seq<ItemView>,
    other: ItemView,
)
    requires
        is_setting(key),
        setting_kind(setting_of(key)) == SettingKind::Texts,
        lookup(config, key) == Some(ValueView::List(list)),
    ensures
        ({
            let r = set_outcome(config, key, None, Some(item), None);
            &&& r is Ok
            &&& r->Ok_0.config is None <==> list.contains(ItemView::Text(item))
            &&& r->Ok_0.config matches Some(after) ==> (lookup(after, key) matches Some(
                ValueView::List(now),
            ) && now == list.push(ItemView::Text(item)))
        }),
        ({
            let r = set_outcome(config, key, None, None, Some(item));
            &&& r is Ok
            &&& r->Ok_0.config is Some <==> list.contains(ItemView::Text(item))
            &&& r->Ok_0.config matches Some(after) ==> (lookup(after, key) matches Some(
                ValueView::List(now),
            ) && !now.contains(ItemView::Text(item)) && (other != ItemView::Text(item)
                && list.contains(other) ==> now.contains(other)))
        }),
{
    law_put_is_found(config, key, ValueView::List(list.push(ItemView::Text(item))), key);
    law_put_is_found(config, key, ValueView::List(without(list, item, list.len())), key);
    law_remove_undoes_add(list, item);
    let now = without(list, item, list.len());
    assert(holds(list, item) <==> list.contains(ItemView::Text(item))) by {
        if holds(list, item) {
            let i = choose|i: int| 0 <= i < list.len() && is_text(#[trigger] list[i], item);
            assert(list[i] == ItemView::Text(item));
        }
        if list.contains(ItemView::Text(item)) {
            let i = choose|i: int| 0 <= i < list.len() && list[i] == ItemView::Text(item);
            assert(is_text(list[i], item));
        }
    }
    if now.contains(ItemView::Text(item)) {
        let i = choose|i: int| 0 <= i < now.len() && now[i] == ItemView::Text(item);
        assert(is_text(now[i], item));
        assert(holds(now, item));
    }
    if other != ItemView::Text(item) && list.contains(other) {
        let i = choose|i: int| 0 <= i < list.len() && list[i] == other;
        lemma_kept_item(list, item, list.len(), i);
    }
}

proof fn lemma_kept_item(list: Seq<ItemView>, s: Seq<char>, n: nat, i: int)
    requires
        0 <= i < n <= list.len(),
        list[i] != ItemView::Text(s),
    ensures
        without(list, s, n).contains(list[i]),
    decreases n,
{
    let head = without(list, s, (n - 1) as nat);
    let all = without(list, s, n);
    if i == n - 1 {
        assert(all.last() == list[i]);
    } else {
        lemma_kept_item(list, s, (n - 1) as nat, i);
        let j = choose|j: int| 0 <= j < head.len() && head[j] == list[i];
        assert(all[j] == list[i]);
    }
}

/// A list that is set at once holds what stands between the commas, without the blanks around.
pub proof fn law_lists_are_split_at_commas(value: Seq<char>, k: int)
    requires
        0 <= k < text::split(value, ',').len(),
    ensures
        comma_items(value).len() == text::split(value, ',').len(),
        comma_items(value)[k] == ItemView::Text(text::trim(text::split(value, ',')[k])),
{
}

/// A flag reads `true` or `false`, a text as it is, a list as its texts; what is not set says so.
pub proof fn law_values_are_put_in_words(b: bool, s: Seq<char>, list: Seq<ItemView>, k: int)
    ensures
        value_text(ValueView::Flag(true)) == "true"@,
        value_text(ValueView::Flag(false)) == "false"@,
        value_text(ValueView::Text(s)) == s,
        opt_text(None) == "(unset)"@,
        0 <= k < list.len() ==> (list[k] matches ItemView::Text(t) ==> text::contains(
            value_text(ValueView::List(list)),
            t,
        )),
        default_text(Some(ValueView::List(list))) == "["@ + text::dec(list.len()) + " items]"@,
        default_text(None) == "(none)"@,
{
    if 0 <= k < list.len() {
        if let ItemView::Text(t) = list[k] {
            lemma_text_listed(list, list.len(), k, t);
            let texts = texts_of(list, list.len());
            let i = choose|i: int| 0 <= i < texts.len() && texts[i] == t;
            text::law_joined_text_holds_its_parts(texts, ", "@, i);
        }
    }
}

proof fn lemma_text_listed(list: Seq<ItemView>, n: nat, k: int, t: Seq<char>)
    requires
        0 <= k < n <= list.len(),
        list[k] == ItemView::Text(t),
    ensures
        texts_of(list, n).contains(t),
    decreases n,
{
    let head = texts_of(list, (n - 1) as nat);
    let all = texts_of(list, n);
    if k == n - 1 {
        assert(all.last() == t);
    } else {
        lemma_text_listed(list, (n - 1) as nat, k, t);
        let i = choose|i: int| 0 <= i < head.len() && head[i] == t;
        assert(all[i] == t);
    }
}

proof fn lemma_marked(acc: Seq<char>, mark: Seq<char>, list: Seq<Seq<char>>, n: nat, k: int, p: Seq<char>)
    ensures
        text::contains(acc, p) ==> text::contains(with_marked(acc, mark, list, n), p),
        0 <= k < n ==> text::contains(with_marked(acc, mark, list, n), mark + list[k] + "\n"@),
    decreases n,
{
    broadcast use {text::lemma_contains_first, text::lemma_contains_triple};

    if n > 0 {
        lemma_marked(acc, mark, list, (n - 1) as nat, k, p);
    }
}

/// A setting is shown with its value, a list with every text, and with whether it is the default.
pub proof fn law_settings_are_shown(
    acc: Seq<char>,
    i: int,
    current: Option<ValueView>,
    default: Option<ValueView>,
    k: int,
)
    ensures
        ({
            let told = show_setting(acc, i, current, default);
            let texts = setting_kind(i) == SettingKind::Texts;
            &&& text::contains(told, acc)
            &&& !texts && current == default ==> text::contains(
                told,
                setting_key(i) + " = "@ + opt_text(current),
            ) && text::contains(told, " "@ + "(default)"@ + "\n"@)
            &&& !texts && current != default ==> text::contains(
                told,
                setting_key(i) + " = "@ + opt_text(current),
            ) && text::contains(told, " "@ + "(modified)"@ + "\n"@)
            &&& texts && current == default ==> text::contains(
                told,
                setting_key(i) + " "@ + "(default)"@,
            )
            &&& texts && current != default ==> text::contains(
                told,
                setting_key(i) + " "@ + "(modified)"@,
            )
            &&& texts && 0 <= k < listed(current).len() ==> text::contains(
                told,
                "  - "@ + listed(current)[k] + "\n"@,
            )
        }),
{
    let mark = if current == default {
        "(default)"@
    } else {
        "(modified)"@
    };
    if setting_kind(i) == SettingKind::Texts {
        let head = acc + setting_key(i) + " "@ + mark + " "@ + kind_label(setting_kind(i)) + ":\n"@;
        let named = setting_key(i) + " "@ + mark;
        assert(text::contains(head, acc) && text::contains(head, named)) by {
            broadcast use {
                text::lemma_contains_self,
                text::lemma_contains_first,
                text::lemma_contains_triple,
            };

        }
        let n = listed(current).len();
        lemma_marked(head, "  - "@, listed(current), n, k, acc);
        lemma_marked(head, "  - "@, listed(current), n, k, named);
    } else {
        broadcast use {
            text::lemma_contains_self,
            text::lemma_contains_first,
            text::lemma_contains_triple,
        };

    }
}

/// Every setting is shown, with its value or as a list.
pub proof fn law_every_setting_is_shown(
    config: Seq<(Seq<char>, ValueView)>,
    defaults: Seq<(Seq<char>, ValueView)>,
    n: nat,
    i: int,
)
    requires
        0 <= i < n,
    ensures
        setting_kind(i) != SettingKind::Texts ==> text::contains(
            show_settings(config, defaults, n),
            setting_key(i) + " = "@ + opt_text(lookup(config, setting_key(i))),
        ),
        setting_kind(i) == SettingKind::Texts && lookup(config, setting_key(i)) == lookup(
            defaults,
            setting_key(i),
        ) ==> text::contains(
            show_settings(config, defaults, n),
            setting_key(i) + " "@ + "(default)"@,
        ),
        setting_kind(i) == SettingKind::Texts && lookup(config, setting_key(i)) != lookup(
            defaults,
            setting_key(i),
        ) ==> text::contains(
            show_settings(config, defaults, n),
            setting_key(i) + " "@ + "(modified)"@,
        ),
    decreases n,
{
    let head = show_settings(config, defaults, (n - 1) as nat);
    let current = lookup(config, setting_key(n - 1));
    let default = lookup(defaults, setting_key(n - 1));
    law_settings_are_shown(head, n - 1, current, default, 0);
    if i < n - 1 {
        law_every_setting_is_shown(config, defaults, (n - 1) as nat, i);
        let told = show_settings(config, defaults, n);
        let a = setting_key(i) + " = "@ + opt_text(lookup(config, setting_key(i)));
        let b = setting_key(i) + " "@ + "(default)"@;
        let c = setting_key(i) + " "@ + "(modified)"@;
        if text::contains(head, a) {
            text::lemma_contains_transitive(told, head, a);
        }
        if text::contains(head, b) {
            text::lemma_contains_transitive(told, head, b);
        }
        if text::contains(head, c) {
            text::lemma_contains_transitive(told, head, c);
        }
    }
}

/// A setting can be asked for exactly where there is one; each text of a list stands on its line.
pub proof fn law_settings_can_be_asked_for(
    config: &Config,
    key: &str,
    r: Result<String, String>,
    k: int,
)
    requires
        call_ensures(get, (config, key), r),
    ensures
        r is Ok <==> is_setting(key@),
        r matches Err(message) ==> text::contains(message@, key@),
        r matches Ok(out) ==> (lookup(config@, key@) matches Some(ValueView::Flag(b)) ==> out@
            == (if b {
            "true"@
        } else {
            "false"@
        }) + "\n"@),
        r matches Ok(out) ==> (lookup(config@, key@) matches Some(ValueView::Text(s)) ==> out@ == s
            + "\n"@),
        r matches Ok(out) ==> (lookup(config@, key@) is None ==> out@ == "(unset)"@ + "\n"@),
        r matches Ok(out) ==> (lookup(config@, key@) matches Some(ValueView::List(list)) ==> (0 <= k
            < listed(lookup(config@, key@)).len() ==> text::contains(
            out@,
            ""@ + listed(lookup(config@, key@))[k] + "\n"@,
        ))),
{
    broadcast use {
        text::lemma_contains_self,
        text::lemma_contains_first,
        text::lemma_contains_second,
    };

    let texts = listed(lookup(config@, key@));
    lemma_marked(""@, ""@, texts, texts.len(), k, ""@);
}

/// Every setting is listed with its kind, what it is for and its default.
pub proof fn law_every_setting_is_listed(defaults: Seq<(Seq<char>, ValueView)>, n: nat, i: int)
    requires
        0 <= i < n,
    ensures
        text::contains(
            list_settings(defaults, n),
            text::pad(setting_key(i), 28) + " "@ + text::pad(kind_label(setting_kind(i)), 10),
        ),
        text::contains(
            list_settings(defaults, n),
            " "@ + setting_description(i) + " (default: "@,
        ),
        text::contains(
            list_settings(defaults, n),
            " (default: "@ + default_text(lookup(defaults, setting_key(i))) + ")\n"@,
        ),
    decreases n,
{
    broadcast use {text::lemma_contains_first, text::lemma_contains_triple};

    if i < n - 1 {
        law_every_setting_is_listed(defaults, (n - 1) as nat, i);
    }
}

/// A reset tells the default that it restores; without a key it restores them all.
pub proof fn law_resets_restore_the_defaults(
    config: Seq<(Seq<char>, ValueView)>,
    defaults: Seq<(Seq<char>, ValueView)>,
    key: Seq<char>,
)
    ensures
        reset_outcome(config, defaults, None) matches Ok(change) && change.config == Some(defaults),
        reset_outcome(config, defaults, Some(key)) is Ok <==> is_setting(key) && lookup(
            defaults,
            key,
        ) is Some,
        reset_outcome(config, defaults, Some(key)) matches Ok(change) ==> text::contains(
            change.out,
            "Reset "@ + key + " to default: "@ + value_text(lookup(defaults, key)->0),
        ),
        reset_outcome(config, defaults, Some(key)) matches Err(message) ==> text::contains(
            message,
            key,
        ),
{
    broadcast use {
        text::lemma_contains_self,
        text::lemma_contains_first,
        text::lemma_contains_second,
    };

}

/// A setting that differs from its default is told with both; of a list what was added and what is
/// missing is told. One that does not differ is not told.
pub proof fn law_differences_are_told(
    acc: Seq<char>,
    i: int,
    current: Option<ValueView>,
    default: Option<ValueView>,
    k: int,
)
    ensures
        ({
            let told = diff_setting(acc, i, current, default);
            let texts = setting_kind(i) == SettingKind::Texts;
            &&& text::contains(told, acc)
            &&& current == default ==> told == acc
            &&& current != default && !texts ==> text::contains(
                told,
                setting_key(i) + ": "@ + opt_text(current),
            ) && text::contains(told, " (default: "@ + opt_text(default) + ")\n"@)
            &&& current != default && texts ==> text::contains(
                told,
                setting_key(i) + " (modified):\n"@,
            )
            &&& current != default && texts && 0 <= k < listed(current).len() && !text::has_name(
                listed(default),
                listed(current)[k],
            ) ==> text::contains(told, "  + "@ + listed(current)[k] + "\n"@)
            &&& current != default && texts && 0 <= k < listed(default).len() && !text::has_name(
                listed(current),
                listed(default)[k],
            ) ==> text::contains(told, "  - "@ + listed(default)[k] + "\n"@)
        }),
{
    text::lemma_contains_self(acc);
    if current != default {
        if setting_kind(i) == SettingKind::Texts {
            let more = missing_from(listed(current), listed(default), listed(current).len());
            let less = missing_from(listed(default), listed(current), listed(default).len());
            let head = acc + setting_key(i) + " (modified):\n"@;
            let mid = with_marked(head, "  + "@, more, more.len());
            let named = setting_key(i) + " (modified):\n"@;
            assert(text::contains(head, acc) && text::contains(head, named)) by {
                broadcast use {text::lemma_contains_first, text::lemma_contains_pair};

            }
            lemma_marked(head, "  + "@, more, more.len(), 0, acc);
            lemma_marked(mid, "  - "@, less, less.len(), 0, acc);
            lemma_marked(head, "  + "@, more, more.len(), 0, named);
            lemma_marked(mid, "  - "@, less, less.len(), 0, named);
            if 0 <= k < listed(current).len() && !text::has_name(
                listed(default),
                listed(current)[k],
            ) {
                lemma_missing(listed(current), listed(default), listed(current).len(), k);
                let j = choose|j: int| 0 <= j < more.len() && more[j] == listed(current)[k];
                let line = "  + "@ + listed(current)[k] + "\n"@;
                lemma_marked(head, "  + "@, more, more.len(), j, acc);
                lemma_marked(mid, "  - "@, less, less.len(), 0, line);
            }
            if 0 <= k < listed(default).len() && !text::has_name(
                listed(current),
                listed(default)[k],
            ) {
                lemma_missing(listed(default), listed(current), listed(default).len(), k);
                let j = choose|j: int| 0 <= j < less.len() && less[j] == listed(default)[k];
                lemma_marked(mid, "  - "@, less, less.len(), j, acc);
            }
        } else {
            broadcast use {text::lemma_contains_first, text::lemma_contains_triple};

        }
    }
}

proof fn lemma_missing(list: Seq<Seq<char>>, other: Seq<Seq<char>>, n: nat, k: int)
    requires
        0 <= k < n <= list.len(),
        !text::has_name(other, list[k]),
    ensures
        missing_from(list, other, n).contains(list[k]),
    decreases n,
{
    let head = missing_from(list, other, (n - 1) as nat);
    let all = missing_from(list, other, n);
    if k == n - 1 {
        assert(all.last() == list[k]);
    } else {
        lemma_missing(list, other, (n - 1) as nat, k);
        let i = choose|i: int| 0 <= i < head.len() && head[i] == list[k];
        assert(all[i] == list[k]);
    }
}

/// Every setting that differs is told; where none does, that is told.
pub proof fn law_every_difference_is_told(
    config: &Config,
    defaults: &Config,
    out: String,
    i: int,
)
    requires
        call_ensures(diff, (config, defaults), out),
        0 <= i < SETTINGS,
    ensures
        lookup(config@, setting_key(i)) != lookup(defaults@, setting_key(i)) ==> text::contains(
            out@,
            setting_key(i),
        ),
        (forall|k: int|
            0 <= k < SETTINGS ==> lookup(config@, #[trigger] setting_key(k)) == lookup(
                defaults@,
                setting_key(k),
            )) ==> text::has_suffix(out@, "No differences from defaults.\n"@),
{
    if lookup(config@, setting_key(i)) != lookup(defaults@, setting_key(i)) {
        lemma_difference_told(config@, defaults@, SETTINGS as nat, i);
    }
    text::lemma_suffix_of_sum(""@, "No differences from defaults.\n"@);
}

proof fn lemma_difference_told(
    config: Seq<(Seq<char>, ValueView)>,
    defaults: Seq<(Seq<char>, ValueView)>,
    n: nat,
    i: int,
)
    requires
        0 <= i < n,
        lookup(config, setting_key(i)) != lookup(defaults, setting_key(i)),
    ensures
        text::contains(diff_settings(config, defaults, n), setting_key(i)),
    decreases n,
{
    let head = diff_settings(config, defaults, (n - 1) as nat);
    let current = lookup(config, setting_key(n - 1));
    let default = lookup(defaults, setting_key(n - 1));
    let told = diff_settings(config, defaults, n);
    law_differences_are_told(head, n - 1, current, default, 0);
    if i < n - 1 {
        lemma_difference_told(config, defaults, (n - 1) as nat, i);
        text::lemma_contains_transitive(told, head, setting_key(i));
    } else {
        let a = setting_key(i) + ": "@ + opt_text(current);
        let b = setting_key(i) + " (modified):\n"@;
        assert(text::contains(a, setting_key(i)) && text::contains(b, setting_key(i))) by {
            broadcast use {text::lemma_contains_self, text::lemma_contains_first};

        }
        if setting_kind(i) == SettingKind::Texts {
            text::lemma_contains_transitive(told, b, setting_key(i));
        } else {
            text::lemma_contains_transitive(told, a, setting_key(i));
        }
    }
}

/// Only changing and resetting change the configuration; showing, asking, listing and comparing
/// leave it alone.
pub proof fn law_only_changes_change(
    command: ConfigCommands,
    config: Seq<(Seq<char>, ValueView)>,
    defaults: Seq<(Seq<char>, ValueView)>,
)
    ensures
        run_outcome(command, config, defaults) matches Ok(change) ==> (change.config is Some
            ==> command is Change || command is Reset),
        command is Show ==> run_outcome(command, config, defaults) == told(
            show_settings(config, defaults, SETTINGS as nat),
        ),
        command is List ==> run_outcome(command, config, defaults) == told(
            list_settings(defaults, SETTINGS as nat),
        ),
        command matches ConfigCommands::Get { key } ==> (run_outcome(command, config, defaults) is Ok
            <==> is_setting(key@)),
        command matches ConfigCommands::Change { key, value, add, remove } ==> run_outcome(
            command,
            config,
            defaults,
        ) == set_outcome(
            config,
            key@,
            text::opt_str(value),
            text::opt_str(add),
            text::opt_str(remove),
        ),
        command matches ConfigCommands::Reset { key } ==> run_outcome(command, config, defaults)
            == reset_outcome(config, defaults, text::opt_str(key)),
{
}

} // verus!
