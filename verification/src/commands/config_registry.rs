//! The registry of configuration keys, the presets, and the state of the
//! walkthrough that lets a user choose a value for each key.

use crate::text;
use crate::text::{chars_of, eq_str, find_char_in, own, string_of};
use vstd::prelude::*;
use vstd::slice::slice_subrange;

verus! {

// ---------------------------------------------------------------------------
// Keys
// ---------------------------------------------------------------------------

/// What kind of value a key takes.
#[derive(Debug, Clone, PartialEq, Eq)]
pub enum ConfigType {
    Bool,
    /// One of the listed words.
    Enum(Vec<&'static str>),
    String,
    StringArray,
    Integer,
    /// Named values, addressed as `key.name`.
    Mapping,
}

/// The groups in which keys are shown.
#[derive(Debug, Clone, Copy, PartialEq, Eq, Structural)]
pub enum ConfigGroup {
    Workflow,
    Security,
    Infrastructure,
    Agents,
    Sentinel,
}

/// A configuration key.
#[derive(Debug, Clone, PartialEq, Eq)]
pub struct ConfigKey {
    pub key: &'static str,
    pub config_type: ConfigType,
    pub description: &'static str,
    pub group: ConfigGroup,
    pub hot_swappable: bool,
}

/// The model of a kind of value.
pub enum TypeView {
    Bool,
    Enum(Seq<Seq<char>>),
    String,
    StringArray,
    Integer,
    Mapping,
}

/// The model of a configuration key.
pub struct KeyView {
    pub key: Seq<char>,
    pub kind: TypeView,
    pub description: Seq<char>,
    pub group: ConfigGroup,
    pub hot_swappable: bool,
}

/// The views of a list of words.
pub open spec fn words(v: Seq<&'static str>) -> Seq<Seq<char>> {
    Seq::new(v.len(), |i: int| v[i]@)
}

impl View for ConfigType {
    type V = TypeView;

    open spec fn view(&self) -> TypeView {
        match self {
            ConfigType::Bool => TypeView::Bool,
            ConfigType::Enum(options) => TypeView::Enum(words(options@)),
            ConfigType::String => TypeView::String,
            ConfigType::StringArray => TypeView::StringArray,
            ConfigType::Integer => TypeView::Integer,
            ConfigType::Mapping => TypeView::Mapping,
        }
    }
}

impl View for ConfigKey {
    type V = KeyView;

    open spec fn view(&self) -> KeyView {
        KeyView {
            key: self.key@,
            kind: self.config_type@,
            description: self.description@,
            group: self.group,
            hot_swappable: self.hot_swappable,
        }
    }
}

impl ConfigGroup {
    /// The name of a group.
    pub open spec fn name(self) -> Seq<char> {
        match self {
            ConfigGroup::Workflow => "Workflow"@,
            ConfigGroup::Security => "Security"@,
            ConfigGroup::Infrastructure => "Infrastructure"@,
            ConfigGroup::Agents => "Agents"@,
            ConfigGroup::Sentinel => "Sentinel"@,
        }
    }

    /// The name of a group.
    pub fn label(self) -> (r: &'static str)
        ensures
            r@ == self.name(),
    {
        match self {
            ConfigGroup::Workflow => "Workflow",
            ConfigGroup::Security => "Security",
            ConfigGroup::Infrastructure => "Infrastructure",
            ConfigGroup::Agents => "Agents",
            ConfigGroup::Sentinel => "Sentinel",
        }
    }

    /// The groups in the order in which they are shown.
    pub open spec fn order() -> Seq<ConfigGroup> {
        seq![
            ConfigGroup::Workflow,
            ConfigGroup::Security,
            ConfigGroup::Infrastructure,
            ConfigGroup::Agents,
            ConfigGroup::Sentinel,
        ]
    }

    /// All groups, in the order in which they are shown.
    pub fn all() -> (r: Vec<ConfigGroup>)
        ensures
            r@ == Self::order(),
    {
        let r = vec![
            ConfigGroup::Workflow,
            ConfigGroup::Security,
            ConfigGroup::Infrastructure,
            ConfigGroup::Agents,
            ConfigGroup::Sentinel,
        ];
        assert(r@ =~= Self::order());
        r
    }
}

/// The name of a kind of value.
pub open spec fn kind_name(kind: TypeView) -> Seq<char> {
    match kind {
        TypeView::Bool => "bool"@,
        TypeView::Enum(_) => "enum"@,
        TypeView::String => "string"@,
        TypeView::StringArray => "string[]"@,
        TypeView::Integer => "integer"@,
        TypeView::Mapping => "map"@,
    }
}

/// The name of a kind of value.
pub fn type_label(ct: &ConfigType) -> (r: &'static str)
    ensures
        r@ == kind_name(ct@),
{
    match ct {
        ConfigType::Bool => "bool",
        ConfigType::Enum(_) => "enum",
        ConfigType::String => "string",
        ConfigType::StringArray => "string[]",
        ConfigType::Integer => "integer",
        ConfigType::Mapping => "map",
    }
}

// ---------------------------------------------------------------------------
// The registry
// ---------------------------------------------------------------------------

/// How many keys there are.
pub const REGISTRY_LEN: usize = 28;

/// The model of a key from its parts.
pub open spec fn key_view(
    key: Seq<char>,
    kind: TypeView,
    description: Seq<char>,
    group: ConfigGroup,
    hot_swappable: bool,
) -> KeyView {
    KeyView { key, kind, description, group, hot_swappable }
}

/// The registry: the single source of truth on configuration keys.
pub open spec fn registry_entry(i: int) -> KeyView {
    if i == 0 {
        key_view("tracking_mode"@, TypeView::Enum(seq!["strict"@, "normal"@, "relaxed"@]), "How aggressively issue tracking is enforced before code changes"@, ConfigGroup::Workflow, true)
    } else if i == 1 {
        key_view("intervention_tracking"@, TypeView::Bool, "Log driver interventions for autonomy improvement"@, ConfigGroup::Agents, true)
    } else if i == 2 {
        key_view("cpitd_auto_install"@, TypeView::Bool, "Automatically install cpitd (context-provider) during init"@, ConfigGroup::Infrastructure, false)
    } else if i == 3 {
        key_view("comment_discipline"@, TypeView::Enum(seq!["encouraged"@, "required"@, "relaxed"@]), "How strictly typed comments are enforced on issues"@, ConfigGroup::Workflow, true)
    } else if i == 4 {
        key_view("kickoff_verification"@, TypeView::Enum(seq!["local"@, "ci"@, "none"@]), "Verification mode for agent kickoff tasks"@, ConfigGroup::Agents, true)
    } else if i == 5 {
        key_view("signing_enforcement"@, TypeView::Enum(seq!["disabled"@, "audit"@, "enforced"@]), "SSH signature verification level for coordination branch"@, ConfigGroup::Security, false)
    } else if i == 6 {
        key_view("reminder_drift_threshold"@, TypeView::Enum(seq!["0"@, "3"@, "5"@, "10"@, "15"@]), "Prompts without crosslink usage before re-injecting reminder (0 = always)"@, ConfigGroup::Workflow, true)
    } else if i == 7 {
        key_view("auto_steal_stale_locks"@, TypeView::Enum(seq!["false"@, "2"@, "3"@, "5"@, "10"@]), "Auto-steal stale locks after N * stale_timeout minutes (false = disabled)"@, ConfigGroup::Security, true)
    } else if i == 8 {
        key_view("tracker_remote"@, TypeView::String, "Git remote name for hub/knowledge branches (default: origin)"@, ConfigGroup::Infrastructure, false)
    } else if i == 9 {
        key_view("blocked_git_commands"@, TypeView::StringArray, "Git mutation commands blocked in all tracking modes"@, ConfigGroup::Infrastructure, true)
    } else if i == 10 {
        key_view("gated_git_commands"@, TypeView::StringArray, "Git commands allowed only with explicit user approval"@, ConfigGroup::Infrastructure, true)
    } else if i == 11 {
        key_view("allowed_bash_prefixes"@, TypeView::StringArray, "Bash commands that bypass the issue-required check"@, ConfigGroup::Infrastructure, true)
    } else if i == 12 {
        key_view("external-cache-ttl"@, TypeView::Integer, "TTL in seconds for cached external repo data (default: 300)"@, ConfigGroup::Infrastructure, false)
    } else if i == 13 {
        key_view("external-url-ttl"@, TypeView::Integer, "TTL in seconds for cached URL resolution results (default: 86400)"@, ConfigGroup::Infrastructure, false)
    } else if i == 14 {
        key_view("repo-alias"@, TypeView::Mapping, "Named aliases for external repositories (e.g. repo-alias.upstream)"@, ConfigGroup::Infrastructure, false)
    } else if i == 15 {
        key_view("sentinel.enabled"@, TypeView::Bool, "Enable the autonomous sentinel daemon"@, ConfigGroup::Sentinel, true)
    } else if i == 16 {
        key_view("sentinel.interval_minutes"@, TypeView::Integer, "Minutes between sentinel poll cycles (1-1440)"@, ConfigGroup::Sentinel, true)
    } else if i == 17 {
        key_view("sentinel.max_concurrent_agents"@, TypeView::Integer, "Maximum agents sentinel may run simultaneously (1-10)"@, ConfigGroup::Sentinel, true)
    } else if i == 18 {
        key_view("sentinel.sources.github_labels.enabled"@, TypeView::Bool, "Enable GitHub label polling source"@, ConfigGroup::Sentinel, true)
    } else if i == 19 {
        key_view("sentinel.sources.github_labels.labels"@, TypeView::StringArray, "GitHub labels that trigger sentinel dispatch (e.g. agent-todo: replicate)"@, ConfigGroup::Sentinel, true)
    } else if i == 20 {
        key_view("sentinel.default_agent.model"@, TypeView::String, "Default model for sentinel-dispatched agents"@, ConfigGroup::Sentinel, true)
    } else if i == 21 {
        key_view("sentinel.default_agent.timeout_minutes"@, TypeView::Integer, "Default timeout in minutes for sentinel agents (5-480)"@, ConfigGroup::Sentinel, true)
    } else if i == 22 {
        key_view("sentinel.default_agent.verify"@, TypeView::Enum(seq!["local"@, "ci"@, "thorough"@]), "Default verification level for sentinel agents"@, ConfigGroup::Sentinel, true)
    } else if i == 23 {
        key_view("sentinel.escalation.enabled"@, TypeView::Bool, "Enable automatic Sonnet->Opus escalation on failure"@, ConfigGroup::Sentinel, true)
    } else if i == 24 {
        key_view("sentinel.escalation.model"@, TypeView::String, "Model to escalate to on first-attempt failure"@, ConfigGroup::Sentinel, true)
    } else if i == 25 {
        key_view("sentinel.escalation.cooldown_minutes"@, TypeView::Integer, "Minutes to wait before retrying with escalated model (5-1440)"@, ConfigGroup::Sentinel, true)
    } else if i == 26 {
        key_view("sentinel.escalation.max_attempts"@, TypeView::Integer, "Maximum dispatch attempts per signal (1-5)"@, ConfigGroup::Sentinel, true)
    } else {
        key_view("sentinel.escalation.timeout_multiplier_pct"@, TypeView::Integer, "Timeout multiplier for escalation attempt as percentage (150 = 1.5x)"@, ConfigGroup::Sentinel, true)
    }
}

fn config_key(
    key: &'static str,
    config_type: ConfigType,
    description: &'static str,
    group: ConfigGroup,
    hot_swappable: bool,
) -> (r: ConfigKey)
    ensures
        r@ == key_view(key@, config_type@, description@, group, hot_swappable),
{
    ConfigKey { key, config_type, description, group, hot_swappable }
}

fn one_of_three(a: &'static str, b: &'static str, c: &'static str) -> (r: ConfigType)
    ensures
        r@ == TypeView::Enum(seq![a@, b@, c@]),
{
    let options = vec![a, b, c];
    assert(words(options@) =~= seq![a@, b@, c@]);
    ConfigType::Enum(options)
}

fn one_of_five(
    a: &'static str,
    b: &'static str,
    c: &'static str,
    d: &'static str,
    e: &'static str,
) -> (r: ConfigType)
    ensures
        r@ == TypeView::Enum(seq![a@, b@, c@, d@, e@]),
{
    let options = vec![a, b, c, d, e];
    assert(words(options@) =~= seq![a@, b@, c@, d@, e@]);
    ConfigType::Enum(options)
}

/// A key of the registry by its position.
pub fn registry_key(idx: usize) -> (r: ConfigKey)
    requires
        idx < REGISTRY_LEN,
    ensures
        r@ == registry_entry(idx as int),
{
    match idx {
        0 => config_key("tracking_mode", one_of_three("strict", "normal", "relaxed"), "How aggressively issue tracking is enforced before code changes", ConfigGroup::Workflow, true),
        1 => config_key("intervention_tracking", ConfigType::Bool, "Log driver interventions for autonomy improvement", ConfigGroup::Agents, true),
        2 => config_key("cpitd_auto_install", ConfigType::Bool, "Automatically install cpitd (context-provider) during init", ConfigGroup::Infrastructure, false),
        3 => config_key("comment_discipline", one_of_three("encouraged", "required", "relaxed"), "How strictly typed comments are enforced on issues", ConfigGroup::Workflow, true),
        4 => config_key("kickoff_verification", one_of_three("local", "ci", "none"), "Verification mode for agent kickoff tasks", ConfigGroup::Agents, true),
        5 => config_key("signing_enforcement", one_of_three("disabled", "audit", "enforced"), "SSH signature verification level for coordination branch", ConfigGroup::Security, false),
        6 => config_key("reminder_drift_threshold", one_of_five("0", "3", "5", "10", "15"), "Prompts without crosslink usage before re-injecting reminder (0 = always)", ConfigGroup::Workflow, true),
        7 => config_key("auto_steal_stale_locks", one_of_five("false", "2", "3", "5", "10"), "Auto-steal stale locks after N * stale_timeout minutes (false = disabled)", ConfigGroup::Security, true),
        8 => config_key("tracker_remote", ConfigType::String, "Git remote name for hub/knowledge branches (default: origin)", ConfigGroup::Infrastructure, false),
        9 => config_key("blocked_git_commands", ConfigType::StringArray, "Git mutation commands blocked in all tracking modes", ConfigGroup::Infrastructure, true),
        10 => config_key("gated_git_commands", ConfigType::StringArray, "Git commands allowed only with explicit user approval", ConfigGroup::Infrastructure, true),
        11 => config_key("allowed_bash_prefixes", ConfigType::StringArray, "Bash commands that bypass the issue-required check", ConfigGroup::Infrastructure, true),
        12 => config_key("external-cache-ttl", ConfigType::Integer, "TTL in seconds for cached external repo data (default: 300)", ConfigGroup::Infrastructure, false),
        13 => config_key("external-url-ttl", ConfigType::Integer, "TTL in seconds for cached URL resolution results (default: 86400)", ConfigGroup::Infrastructure, false),
        14 => config_key("repo-alias", ConfigType::Mapping, "Named aliases for external repositories (e.g. repo-alias.upstream)", ConfigGroup::Infrastructure, false),
        15 => config_key("sentinel.enabled", ConfigType::Bool, "Enable the autonomous sentinel daemon", ConfigGroup::Sentinel, true),
        16 => config_key("sentinel.interval_minutes", ConfigType::Integer, "Minutes between sentinel poll cycles (1-1440)", ConfigGroup::Sentinel, true),
        17 => config_key("sentinel.max_concurrent_agents", ConfigType::Integer, "Maximum agents sentinel may run simultaneously (1-10)", ConfigGroup::Sentinel, true),
        18 => config_key("sentinel.sources.github_labels.enabled", ConfigType::Bool, "Enable GitHub label polling source", ConfigGroup::Sentinel, true),
        19 => config_key("sentinel.sources.github_labels.labels", ConfigType::StringArray, "GitHub labels that trigger sentinel dispatch (e.g. agent-todo: replicate)", ConfigGroup::Sentinel, true),
        20 => config_key("sentinel.default_agent.model", ConfigType::String, "Default model for sentinel-dispatched agents", ConfigGroup::Sentinel, true),
        21 => config_key("sentinel.default_agent.timeout_minutes", ConfigType::Integer, "Default timeout in minutes for sentinel agents (5-480)", ConfigGroup::Sentinel, true),
        22 => config_key("sentinel.default_agent.verify", one_of_three("local", "ci", "thorough"), "Default verification level for sentinel agents", ConfigGroup::Sentinel, true),
        23 => config_key("sentinel.escalation.enabled", ConfigType::Bool, "Enable automatic Sonnet->Opus escalation on failure", ConfigGroup::Sentinel, true),
        24 => config_key("sentinel.escalation.model", ConfigType::String, "Model to escalate to on first-attempt failure", ConfigGroup::Sentinel, true),
        25 => config_key("sentinel.escalation.cooldown_minutes", ConfigType::Integer, "Minutes to wait before retrying with escalated model (5-1440)", ConfigGroup::Sentinel, true),
        26 => config_key("sentinel.escalation.max_attempts", ConfigType::Integer, "Maximum dispatch attempts per signal (1-5)", ConfigGroup::Sentinel, true),
        _ => config_key("sentinel.escalation.timeout_multiplier_pct", ConfigType::Integer, "Timeout multiplier for escalation attempt as percentage (150 = 1.5x)", ConfigGroup::Sentinel, true),
    }
}

/// The position of the first key with the given name among those from `i` on, or
/// the number of keys.
pub open spec fn position_from(name: Seq<char>, i: int) -> int
    decreases REGISTRY_LEN - i,
{
    if i < 0 || i >= REGISTRY_LEN {
        REGISTRY_LEN as int
    } else if registry_entry(i).key == name {
        i
    } else {
        position_from(name, i + 1)
    }
}

/// The part of a name before its first dot.
pub open spec fn before_dot(name: Seq<char>) -> Seq<char> {
    name.take(text::find_char(name, '.') as int)
}

/// The key that a name addresses: the key of that name, or the mapping of the name
/// before its first dot.
pub open spec fn registry_lookup(name: Seq<char>) -> Option<int> {
    let whole = position_from(name, 0);
    let prefix = position_from(before_dot(name), 0);
    if whole < REGISTRY_LEN {
        Some(whole)
    } else if text::find_char(name, '.') < name.len() && prefix < REGISTRY_LEN && registry_entry(
        prefix,
    ).kind is Mapping {
        Some(prefix)
    } else {
        None
    }
}

fn position_of(name: &str) -> (r: usize)
    ensures
        r == position_from(name@, 0),
        r <= REGISTRY_LEN,
{
    let mut i: usize = 0;
    while i < REGISTRY_LEN
        invariant
            i <= REGISTRY_LEN,
            position_from(name@, 0) == position_from(name@, i as int),
        decreases REGISTRY_LEN - i,
    {
        if eq_str(registry_key(i).key, name) {
            return i;
        }
        i = i + 1;
    }
    i
}

/// Finds the key that a name addresses.
pub fn find_registry_key(key: &str) -> (r: Option<ConfigKey>)
    ensures
        match r {
            Some(k) => registry_lookup(key@) matches Some(i) && k@ == registry_entry(i),
            None => registry_lookup(key@) is None,
        },
{
    let whole: usize = position_of(key);
    if whole < REGISTRY_LEN {
        return Some(registry_key(whole));
    }
    let cs = chars_of(key);
    let dot: usize = find_char_in(cs.as_slice(), '.');
    if dot < cs.len() {
        assert(cs@.subrange(0, dot as int) =~= before_dot(key@));
        let prefix = string_of(slice_subrange(cs.as_slice(), 0, dot));
        let at: usize = position_of(prefix.as_str());
        if at < REGISTRY_LEN {
            let entry = registry_key(at);
            if matches!(entry.config_type, ConfigType::Mapping) {
                return Some(entry);
            }
        }
    }
    None
}

// ---------------------------------------------------------------------------
// Options
// ---------------------------------------------------------------------------

/// The words among which the walkthrough lets a user choose for a kind of value.
pub open spec fn kind_options(kind: TypeView) -> Seq<Seq<char>> {
    match kind {
        TypeView::Bool => seq!["true"@, "false"@],
        TypeView::Enum(options) => options,
        TypeView::String => seq!["(text)"@],
        _ => Seq::empty(),
    }
}

/// The words among which the walkthrough lets a user choose for a key.
pub open spec fn key_options(i: int) -> Seq<Seq<char>> {
    kind_options(registry_entry(i).kind)
}

/// The position of a word in a list from `i` on, or the length of the list.
pub open spec fn word_position(list: Seq<Seq<char>>, word: Seq<char>, i: int) -> int
    decreases list.len() - i,
{
    if i < 0 || i >= list.len() {
        list.len() as int
    } else if list[i] == word {
        i
    } else {
        word_position(list, word, i + 1)
    }
}

fn find_word(list: &Vec<&'static str>, word: &str) -> (r: usize)
    ensures
        r == word_position(words(list@), word@, 0),
        r <= list@.len(),
{
    let mut i: usize = 0;
    while i < list.len()
        invariant
            i <= list.len(),
            word_position(words(list@), word@, 0) == word_position(words(list@), word@, i as int),
        decreases list.len() - i,
    {
        if eq_str(list[i], word) {
            return i;
        }
        i = i + 1;
    }
    i
}

// ---------------------------------------------------------------------------
// Presets
// ---------------------------------------------------------------------------

/// The value that a preset gives to a key: preset 0 is for teams, any other for
/// working alone.
pub open spec fn preset_choice(preset: int, key: Seq<char>) -> Option<Seq<char>> {
    let team = preset == 0;
    if key == "tracking_mode"@ {
        Some(if team { "strict"@ } else { "relaxed"@ })
    } else if key == "comment_discipline"@ {
        Some(if team { "required"@ } else { "encouraged"@ })
    } else if key == "auto_steal_stale_locks"@ {
        Some(if team { "3"@ } else { "false"@ })
    } else if key == "kickoff_verification"@ {
        Some(if team { "ci"@ } else { "local"@ })
    } else if key == "signing_enforcement"@ {
        Some(if team { "enforced"@ } else { "disabled"@ })
    } else {
        None
    }
}

/// The value that a preset gives to a key.
pub fn preset_value(preset: usize, key: &str) -> (r: Option<&'static str>)
    ensures
        text::opt_view(r) == preset_choice(preset as int, key@),
{
    let team = preset == 0;
    if eq_str(key, "tracking_mode") {
        Some(if team { "strict" } else { "relaxed" })
    } else if eq_str(key, "comment_discipline") {
        Some(if team { "required" } else { "encouraged" })
    } else if eq_str(key, "auto_steal_stale_locks") {
        Some(if team { "3" } else { "false" })
    } else if eq_str(key, "kickoff_verification") {
        Some(if team { "ci" } else { "local" })
    } else if eq_str(key, "signing_enforcement") {
        Some(if team { "enforced" } else { "disabled" })
    } else {
        None
    }
}

// ---------------------------------------------------------------------------
// The configuration that a walkthrough starts from
// ---------------------------------------------------------------------------

/// What the walkthrough reads of a configured value, and what it writes.
#[derive(Debug, Clone, PartialEq, Eq)]
pub enum ConfigValue {
    Bool(bool),
    Text(String),
    /// A value of a kind that the walkthrough does not show.
    Other,
}

/// The value of a key among those from `i` on.
pub open spec fn configured_from(
    config: Seq<(String, ConfigValue)>,
    key: Seq<char>,
    i: int,
) -> Option<ConfigValue>
    decreases config.len() - i,
{
    if i < 0 || i >= config.len() {
        None
    } else if config[i].0@ == key {
        Some(config[i].1)
    } else {
        configured_from(config, key, i + 1)
    }
}

/// The option that a configuration selects for a key: the first for a key that is
/// not configured, except that a flag which is not set counts as false.
pub open spec fn selected_option(config: Seq<(String, ConfigValue)>, i: int) -> int {
    let value = configured_from(config, registry_entry(i).key, 0);
    match registry_entry(i).kind {
        TypeView::Bool => if value == Some(ConfigValue::Bool(true)) {
            0
        } else {
            1
        },
        TypeView::Enum(options) => {
            let word = match value {
                Some(ConfigValue::Text(t)) => t@,
                _ => ""@,
            };
            let at = word_position(options, word, 0);
            if at < options.len() {
                at
            } else {
                0
            }
        },
        _ => 0,
    }
}

/// Whether the walkthrough shows a key. Lists, mappings and numbers are advanced
/// settings that it leaves alone.
pub open spec fn is_shown(i: int) -> bool {
    let kind = registry_entry(i).kind;
    kind is Bool || kind is Enum || kind is String
}

/// The shown keys of a group among the first `n`.
pub open spec fn group_indices(group: ConfigGroup, n: nat) -> Seq<usize>
    decreases n,
{
    if n == 0 {
        Seq::empty()
    } else {
        let head = group_indices(group, (n - 1) as nat);
        if registry_entry(n - 1).group == group && is_shown(n - 1) {
            head.push((n - 1) as usize)
        } else {
            head
        }
    }
}

/// The groups among the first `m` that have keys to show.
pub open spec fn shown_groups(m: nat) -> Seq<ConfigGroup>
    decreases m,
{
    if m == 0 {
        Seq::empty()
    } else {
        let group = ConfigGroup::order()[m - 1];
        let head = shown_groups((m - 1) as nat);
        if group_indices(group, REGISTRY_LEN as nat).len() > 0 {
            head.push(group)
        } else {
            head
        }
    }
}

// ---------------------------------------------------------------------------
// The walkthrough
// ---------------------------------------------------------------------------

/// The state of the walkthrough: a screen to choose a preset, one for each group,
/// possibly more screens of the caller, and one to confirm.
pub struct WalkthroughCore {
    /// Current screen: 0 = preset, 1..=N = groups, last = confirm
    pub screen: usize,
    /// For preset screen: 0=Team, 1=Solo, 2=Custom
    pub preset_selected: usize,
    /// Per-group, per-key selected option index
    pub group_selections: Vec<Vec<usize>>,
    /// Group names
    pub group_names: Vec<&'static str>,
    /// Keys per group (indices into the registry)
    pub group_keys: Vec<Vec<usize>>,
    /// Within a group screen, which key is focused
    pub group_cursor: usize,
    /// Number of extra screens between groups and confirm (e.g., alias screen)
    pub extra_screens: usize,
    pub finished: bool,
    pub cancelled: bool,
}

/// The model of the walkthrough.
#[verifier::ext_equal]
pub struct WalkView {
    pub screen: int,
    pub preset: int,
    pub selections: Seq<Seq<usize>>,
    pub names: Seq<Seq<char>>,
    pub keys: Seq<Seq<usize>>,
    pub cursor: int,
    pub extra: int,
    pub finished: bool,
    pub cancelled: bool,
}

/// The rows of a table.
pub open spec fn rows(v: Seq<Vec<usize>>) -> Seq<Seq<usize>> {
    Seq::new(v.len(), |i: int| v[i]@)
}

impl View for WalkthroughCore {
    type V = WalkView;

    open spec fn view(&self) -> WalkView {
        WalkView {
            screen: self.screen as int,
            preset: self.preset_selected as int,
            selections: rows(self.group_selections@),
            names: words(self.group_names@),
            keys: rows(self.group_keys@),
            cursor: self.group_cursor as int,
            extra: self.extra_screens as int,
            finished: self.finished,
            cancelled: self.cancelled,
        }
    }
}

/// Whether the selections of a group go with its keys: one for each key, and each
/// one of the options of that key.
pub open spec fn group_ok(keys: Seq<usize>, selections: Seq<usize>) -> bool {
    &&& keys.len() > 0
    &&& keys.len() == selections.len()
    &&& forall|k: int| 0 <= k < keys.len() ==> (#[trigger] keys[k]) < REGISTRY_LEN
    &&& forall|k: int|
        0 <= k < keys.len() ==> (#[trigger] selections[k]) < key_options(keys[k] as int).len()
}

impl WalkView {
    /// The number of screens.
    pub open spec fn total(self) -> int {
        1 + self.names.len() + self.extra + 1
    }

    /// The first screen behind those of the groups.
    pub open spec fn first_extra(self) -> int {
        self.names.len() as int + 1
    }

    pub open spec fn on_preset(self) -> bool {
        self.screen == 0
    }

    pub open spec fn on_confirm(self) -> bool {
        self.screen == self.total() - 1
    }

    /// Whether the screen is that of a group.
    pub open spec fn on_group(self) -> bool {
        1 <= self.screen < self.first_extra()
    }

    /// Whether the screen is one of the caller's.
    pub open spec fn on_extra(self) -> bool {
        self.first_extra() <= self.screen < self.first_extra() + self.extra
    }

    /// The group of the screen.
    pub open spec fn group(self) -> int {
        self.screen - 1
    }

    /// The invariant of the walkthrough.
    pub open spec fn wf(self) -> bool {
        &&& self.names.len() == self.keys.len()
        &&& self.selections.len() == self.keys.len()
        &&& 0 <= self.extra
        &&& self.total() <= usize::MAX
        &&& forall|g: int|
            0 <= g < self.keys.len() ==> group_ok(#[trigger] self.keys[g], self.selections[g])
        &&& 0 <= self.preset <= 2
        &&& 0 <= self.screen < self.total()
        &&& 0 <= self.cursor
        &&& self.on_group() ==> self.preset == 2 && self.cursor < self.keys[self.group()].len()
    }

    /// One up: the preset before, or the key before.
    pub open spec fn up(self) -> WalkView {
        if self.on_preset() {
            WalkView { preset: if self.preset > 0 { self.preset - 1 } else { 0 }, ..self }
        } else if self.on_group() {
            WalkView { cursor: if self.cursor > 0 { self.cursor - 1 } else { 0 }, ..self }
        } else {
            self
        }
    }

    /// One down: the preset behind, or the key behind, up to the last.
    pub open spec fn down(self) -> WalkView {
        if self.on_preset() {
            WalkView { preset: if self.preset < 2 { self.preset + 1 } else { self.preset }, ..self }
        } else if self.on_group() && self.cursor < self.keys[self.group()].len() - 1 {
            WalkView { cursor: self.cursor + 1, ..self }
        } else {
            self
        }
    }

    /// The number of options of the focused key.
    pub open spec fn option_count(self) -> int {
        key_options(self.keys[self.group()][self.cursor] as int).len() as int
    }

    /// The option that is selected for the focused key.
    pub open spec fn current_option(self) -> int {
        self.selections[self.group()][self.cursor] as int
    }

    /// The same with another option for the focused key.
    pub open spec fn with_option(self, option: int) -> WalkView {
        let row = self.selections[self.group()].update(self.cursor, option as usize);
        WalkView { selections: self.selections.update(self.group(), row), ..self }
    }

    /// The next option of the focused key, the first again behind the last.
    pub open spec fn cycled(self) -> WalkView {
        if self.on_group() {
            self.with_option((self.current_option() + 1) % self.option_count())
        } else {
            self
        }
    }

    /// The option before of the focused key, the last again before the first.
    pub open spec fn cycled_back(self) -> WalkView {
        if self.on_group() {
            self.with_option(
                if self.current_option() == 0 {
                    self.option_count() - 1
                } else {
                    self.current_option() - 1
                },
            )
        } else {
            self
        }
    }

    /// The option that the chosen preset gives to a key, or the one it has.
    pub open spec fn preset_option(self, g: int, k: int) -> usize {
        let i = self.keys[g][k] as int;
        match preset_choice(self.preset, registry_entry(i).key) {
            Some(word) => {
                let at = word_position(key_options(i), word, 0);
                if at < key_options(i).len() {
                    at as usize
                } else {
                    self.selections[g][k]
                }
            },
            None => self.selections[g][k],
        }
    }

    /// The selections of a group with the chosen preset applied.
    pub open spec fn preset_row(self, g: int) -> Seq<usize> {
        Seq::new(self.selections[g].len(), |k: int| self.preset_option(g, k))
    }

    /// The walkthrough with the chosen preset applied.
    pub open spec fn with_preset(self) -> WalkView {
        WalkView {
            selections: Seq::new(self.selections.len(), |g: int| self.preset_row(g)),
            ..self
        }
    }

    /// The next screen. A preset skips the screens of the groups.
    pub open spec fn confirmed(self) -> WalkView {
        if self.on_confirm() {
            WalkView { finished: true, ..self }
        } else if self.on_preset() {
            if self.preset < 2 {
                WalkView { screen: self.first_extra(), cursor: 0, ..self.with_preset() }
            } else {
                WalkView { screen: 1, cursor: 0, ..self }
            }
        } else {
            WalkView { screen: self.screen + 1, cursor: 0, ..self }
        }
    }

    /// The screen before. Behind the groups a preset leads back to the first.
    pub open spec fn back(self) -> WalkView {
        if self.screen > 0 {
            WalkView {
                screen: if self.screen == self.first_extra() && self.preset < 2 {
                    0
                } else {
                    self.screen - 1
                },
                cursor: 0,
                ..self
            }
        } else {
            self
        }
    }

    /// The next key of the group, or the next screen behind the last.
    pub open spec fn advanced(self) -> WalkView {
        if self.on_group() && self.cursor + 1 < self.keys[self.group()].len() {
            WalkView { cursor: self.cursor + 1, ..self }
        } else {
            WalkView { screen: self.screen + 1, cursor: 0, ..self }
        }
    }
}

/// Every shown key has options, and the configuration selects one of them.
proof fn lemma_selected_option(config: Seq<(String, ConfigValue)>, i: int)
    requires
        0 <= i < REGISTRY_LEN,
        is_shown(i),
    ensures
        0 <= selected_option(config, i) < key_options(i).len(),
        key_options(i).len() <= 5,
{
    if let TypeView::Enum(options) = registry_entry(i).kind {
        lemma_word_position(
            options,
            match configured_from(config, registry_entry(i).key, 0) {
                Some(ConfigValue::Text(t)) => t@,
                _ => ""@,
            },
            0,
        );
    }
}

proof fn lemma_word_position(list: Seq<Seq<char>>, word: Seq<char>, i: int)
    requires
        0 <= i <= list.len(),
    ensures
        i <= word_position(list, word, i) <= list.len(),
    decreases list.len() - i,
{
    if i < list.len() && list[i] != word {
        lemma_word_position(list, word, i + 1);
    }
}

fn lookup<'a>(config: &'a Vec<(String, ConfigValue)>, key: &str) -> (r: Option<&'a ConfigValue>)
    ensures
        match r {
            Some(v) => configured_from(config@, key@, 0) == Some(*v),
            None => configured_from(config@, key@, 0) is None,
        },
{
    let mut i: usize = 0;
    while i < config.len()
        invariant
            i <= config.len(),
            configured_from(config@, key@, 0) == configured_from(config@, key@, i as int),
        decreases config.len() - i,
    {
        if eq_str(config[i].0.as_str(), key) {
            return Some(&config[i].1);
        }
        i = i + 1;
    }
    None
}

fn initial_selection(config: &Vec<(String, ConfigValue)>, i: usize) -> (r: usize)
    requires
        i < REGISTRY_LEN,
        is_shown(i as int),
    ensures
        r == selected_option(config@, i as int),
{
    let entry = registry_key(i);
    proof {
        lemma_selected_option(config@, i as int);
    }
    match &entry.config_type {
        ConfigType::Bool => match lookup(config, entry.key) {
            Some(ConfigValue::Bool(true)) => 0,
            _ => 1,
        },
        ConfigType::Enum(options) => {
            let at: usize = match lookup(config, entry.key) {
                Some(ConfigValue::Text(t)) => find_word(options, t.as_str()),
                _ => find_word(options, ""),
            };
            if at < options.len() {
                at
            } else {
                0
            }
        },
        _ => 0,
    }
}

fn shown_key(entry: &ConfigKey) -> (r: bool)
    ensures
        r == (entry@.kind is Bool || entry@.kind is Enum || entry@.kind is String),
{
    match entry.config_type {
        ConfigType::Bool => true,
        ConfigType::Enum(_) => true,
        ConfigType::String => true,
        _ => false,
    }
}

/// The keys of a group and the options that a configuration selects for them.
fn collect_group(config: &Vec<(String, ConfigValue)>, group: ConfigGroup) -> (r: (
    Vec<usize>,
    Vec<usize>,
))
    ensures
        r.0@ == group_indices(group, REGISTRY_LEN as nat),
        r.0@.len() > 0 ==> group_ok(r.0@, r.1@),
        r.1@ == Seq::new(
            r.0@.len(),
            |k: int| selected_option(config@, r.0@[k] as int) as usize,
        ),
{
    let mut keys: Vec<usize> = Vec::new();
    let mut selections: Vec<usize> = Vec::new();
    let mut i: usize = 0;
    while i < REGISTRY_LEN
        invariant
            i <= REGISTRY_LEN,
            keys@ == group_indices(group, i as nat),
            keys@.len() == selections@.len(),
            forall|k: int|
                0 <= k < keys@.len() ==> (#[trigger] keys@[k]) < REGISTRY_LEN && is_shown(
                    keys@[k] as int,
                ),
            forall|k: int|
                0 <= k < keys@.len() ==> #[trigger] selections@[k] == selected_option(
                    config@,
                    keys@[k] as int,
                ) as usize && selections@[k] < key_options(keys@[k] as int).len(),
        decreases REGISTRY_LEN - i,
    {
        let entry = registry_key(i);
        if entry.group == group && shown_key(&entry) {
            keys.push(i);
            selections.push(initial_selection(config, i));
            proof {
                lemma_selected_option(config@, i as int);
            }
        }
        i = i + 1;
    }
    assert(selections@ =~= Seq::new(
        keys@.len(),
        |k: int| selected_option(config@, keys@[k] as int) as usize,
    ));
    (keys, selections)
}

/// The names of the groups that are shown.
pub open spec fn shown_names() -> Seq<Seq<char>> {
    Seq::new(shown_groups(5).len(), |g: int| shown_groups(5)[g].name())
}

/// The keys that are shown, group by group.
pub open spec fn shown_keys() -> Seq<Seq<usize>> {
    Seq::new(
        shown_groups(5).len(),
        |g: int| group_indices(shown_groups(5)[g], REGISTRY_LEN as nat),
    )
}

/// Whether a walkthrough stands at its start: on the first screen, with all shown keys in
/// their groups, each with the option that the configuration selects.
pub open spec fn is_start(w: WalkView, config: Seq<(String, ConfigValue)>, extra: int) -> bool {
    &&& w.wf()
    &&& w.screen == 0
    &&& w.preset == 2
    &&& w.cursor == 0
    &&& w.extra == extra
    &&& !w.finished
    &&& !w.cancelled
    &&& w.names == shown_names()
    &&& w.keys == shown_keys()
    &&& forall|g: int, k: int|
        0 <= g < w.keys.len() && 0 <= k < w.keys[g].len() ==> #[trigger] w.selections[g][k]
            == selected_option(config, w.keys[g][k] as int)
}

impl WalkthroughCore {
    /// Starts a walkthrough from a configuration, with room for screens of the
    /// caller. The number of screens must fit in a machine word.
    pub fn new(current_config: &Vec<(String, ConfigValue)>, extra_screens: usize) -> (r: Self)
        requires
            extra_screens <= usize::MAX - 7,
        ensures
            is_start(r@, current_config@, extra_screens as int),
    {
        let groups = ConfigGroup::all();
        let mut group_names: Vec<&'static str> = Vec::new();
        let mut group_keys: Vec<Vec<usize>> = Vec::new();
        let mut group_selections: Vec<Vec<usize>> = Vec::new();
        let mut m: usize = 0;
        while m < groups.len()
            invariant
                m <= groups.len(),
                groups@ == ConfigGroup::order(),
                group_names@.len() == shown_groups(m as nat).len(),
                group_keys@.len() == shown_groups(m as nat).len(),
                group_selections@.len() == shown_groups(m as nat).len(),
                shown_groups(m as nat).len() <= m,
                forall|g: int|
                    0 <= g < group_names@.len() ==> (#[trigger] group_names@[g])@ == shown_groups(
                        m as nat,
                    )[g].name(),
                forall|g: int|
                    0 <= g < group_keys@.len() ==> (#[trigger] group_keys@[g])@ == group_indices(
                        shown_groups(m as nat)[g],
                        REGISTRY_LEN as nat,
                    ),
                forall|g: int|
                    0 <= g < group_keys@.len() ==> group_ok(
                        #[trigger] group_keys@[g]@,
                        group_selections@[g]@,
                    ),
                forall|g: int, k: int|
                    0 <= g < group_keys@.len() && 0 <= k < group_keys@[g]@.len()
                        ==> #[trigger] group_selections@[g]@[k] == selected_option(
                        current_config@,
                        group_keys@[g]@[k] as int,
                    ),
            decreases groups.len() - m,
        {
            let (keys, selections) = collect_group(current_config, groups[m]);
            if keys.len() > 0 {
                proof {
                    assert forall|k: int| 0 <= k < keys@.len() implies selections@[k]
                        == selected_option(current_config@, keys@[k] as int) by {
                        lemma_group_indices_shown(groups@[m as int], REGISTRY_LEN as nat, k);
                        lemma_selected_option(current_config@, keys@[k] as int);
                    }
                }
                group_names.push(groups[m].label());
                group_keys.push(keys);
                group_selections.push(selections);
            }
            m = m + 1;
        }
        let r = WalkthroughCore {
            screen: 0,
            preset_selected: 2,
            group_selections,
            group_names,
            group_keys,
            group_cursor: 0,
            extra_screens,
            finished: false,
            cancelled: false,
        };
        proof {
            assert(groups@.len() == 5);
            assert(m == 5);
            assert(r@.names =~= shown_names());
            assert(r@.keys =~= shown_keys());
            assert forall|g: int| 0 <= g < r@.keys.len() implies group_ok(
                #[trigger] r@.keys[g],
                r@.selections[g],
            ) by {
                assert(group_ok(group_keys@[g]@, group_selections@[g]@));
            }
        }
        r
    }
}

proof fn lemma_group_indices_shown(group: ConfigGroup, n: nat, k: int)
    requires
        n <= REGISTRY_LEN,
        0 <= k < group_indices(group, n).len(),
    ensures
        group_indices(group, n)[k] < n,
        is_shown(group_indices(group, n)[k] as int),
        registry_entry(group_indices(group, n)[k] as int).group == group,
    decreases n,
{
    if k < group_indices(group, (n - 1) as nat).len() {
        lemma_group_indices_shown(group, (n - 1) as nat, k);
    }
}

impl WalkthroughCore {
    /// The number of screens: preset, groups, those of the caller, and confirm.
    pub fn total_screens(&self) -> (r: usize)
        requires
            self@.wf(),
        ensures
            r == self@.total(),
    {
        1 + self.group_names.len() + self.extra_screens + 1
    }

    pub fn is_preset_screen(&self) -> (r: bool)
        ensures
            r == self@.on_preset(),
    {
        self.screen == 0
    }

    pub fn is_confirm_screen(&self) -> (r: bool)
        requires
            self@.wf(),
        ensures
            r == self@.on_confirm(),
    {
        self.screen == self.total_screens() - 1
    }

    /// Which of the caller's screens is shown, if any.
    pub fn extra_screen_idx(&self) -> (r: Option<usize>)
        requires
            self@.wf(),
        ensures
            match r {
                Some(i) => self@.on_extra() && i == self@.screen - self@.first_extra(),
                None => !self@.on_extra(),
            },
    {
        let first_extra: usize = 1 + self.group_names.len();
        if self.screen >= first_extra && self.screen < first_extra + self.extra_screens {
            Some(self.screen - first_extra)
        } else {
            None
        }
    }

    /// Which group is shown, if any.
    pub fn current_group_idx(&self) -> (r: Option<usize>)
        requires
            self@.wf(),
        ensures
            match r {
                Some(g) => self@.on_group() && g == self@.group(),
                None => !self@.on_group(),
            },
    {
        if self.screen >= 1 && self.screen < 1 + self.group_names.len() {
            Some(self.screen - 1)
        } else {
            None
        }
    }

    /// The words among which the user chooses for a key.
    pub fn options_for_key(registry_idx: usize) -> (r: Vec<&'static str>)
        requires
            registry_idx < REGISTRY_LEN,
        ensures
            words(r@) == key_options(registry_idx as int),
    {
        let r = match registry_key(registry_idx).config_type {
            ConfigType::Bool => vec!["true", "false"],
            ConfigType::Enum(options) => options,
            ConfigType::String => vec!["(text)"],
            _ => Vec::new(),
        };
        assert(words(r@) =~= key_options(registry_idx as int));
        r
    }

    /// Moves the selection up.
    pub fn move_up(&mut self)
        requires
            old(self)@.wf(),
        ensures
            final(self)@ == old(self)@.up(),
            final(self)@.wf(),
    {
        if self.is_preset_screen() {
            if self.preset_selected > 0 {
                self.preset_selected = self.preset_selected - 1;
            }
        } else if self.current_group_idx().is_some() {
            if self.group_cursor > 0 {
                self.group_cursor = self.group_cursor - 1;
            }
        }
    }

    /// Moves the selection down.
    pub fn move_down(&mut self)
        requires
            old(self)@.wf(),
        ensures
            final(self)@ == old(self)@.down(),
            final(self)@.wf(),
    {
        if self.is_preset_screen() {
            if self.preset_selected < 2 {
                self.preset_selected = self.preset_selected + 1;
            }
        } else if let Some(g) = self.current_group_idx() {
            assert(group_ok(self@.keys[g as int], self@.selections[g as int]));
            if self.group_cursor < self.group_keys[g].len() - 1 {
                self.group_cursor = self.group_cursor + 1;
            }
        }
    }

    fn set_option(&mut self, g: usize, k: usize, option: usize)
        requires
            old(self)@.wf(),
            g < old(self)@.keys.len(),
            k < old(self)@.keys[g as int].len(),
            option < key_options(old(self)@.keys[g as int][k as int] as int).len(),
        ensures
            final(self)@ == (WalkView {
                selections: old(self)@.selections.update(
                    g as int,
                    old(self)@.selections[g as int].update(k as int, option),
                ),
                ..old(self)@
            }),
            final(self)@.wf(),
    {
        let ghost before = self@;
        assert(group_ok(before.keys[g as int], before.selections[g as int]));
        let mut row: Vec<usize> = Vec::new();
        let mut i: usize = 0;
        while i < self.group_selections[g].len()
            invariant
                i <= self.group_selections@[g as int]@.len(),
                g < self.group_selections@.len(),
                row@ == self.group_selections@[g as int]@.take(i as int),
            decreases self.group_selections@[g as int]@.len() - i,
        {
            row.push(self.group_selections[g][i]);
            i = i + 1;
            assert(self.group_selections@[g as int]@.take(i as int)
                =~= self.group_selections@[g as int]@.take(i - 1).push(
                self.group_selections@[g as int]@[i - 1],
            ));
        }
        assert(row@ =~= self.group_selections@[g as int]@);
        row.set(k, option);
        self.group_selections.set(g, row);
        proof {
            assert(self@.selections =~= before.selections.update(
                g as int,
                before.selections[g as int].update(k as int, option),
            ));
            assert forall|h: int| 0 <= h < self@.keys.len() implies group_ok(
                #[trigger] self@.keys[h],
                self@.selections[h],
            ) by {
                assert(group_ok(before.keys[h], before.selections[h]));
            }
        }
    }

    /// Selects the next option of the focused key.
    pub fn cycle_value(&mut self)
        requires
            old(self)@.wf(),
        ensures
            final(self)@ == old(self)@.cycled(),
            final(self)@.wf(),
    {
        if let Some(g) = self.current_group_idx() {
            let k: usize = self.group_cursor;
            assert(group_ok(self@.keys[g as int], self@.selections[g as int]));
            assert(self@.keys[g as int][k as int] < REGISTRY_LEN);
            let options = Self::options_for_key(self.group_keys[g][k]);
            let current: usize = self.group_selections[g][k];
            assert(words(options@).len() == options@.len());
            assert(self@.selections[g as int][k as int] < options@.len());
            self.set_option(g, k, (current + 1) % options.len());
        }
    }

    /// Selects the option before of the focused key.
    pub fn cycle_value_back(&mut self)
        requires
            old(self)@.wf(),
        ensures
            final(self)@ == old(self)@.cycled_back(),
            final(self)@.wf(),
    {
        if let Some(g) = self.current_group_idx() {
            let k: usize = self.group_cursor;
            assert(group_ok(self@.keys[g as int], self@.selections[g as int]));
            assert(self@.keys[g as int][k as int] < REGISTRY_LEN);
            let options = Self::options_for_key(self.group_keys[g][k]);
            let current: usize = self.group_selections[g][k];
            assert(words(options@).len() == options@.len());
            assert(self@.selections[g as int][k as int] < options@.len());
            let before: usize = if current == 0 {
                options.len() - 1
            } else {
                current - 1
            };
            self.set_option(g, k, before);
        }
    }

    fn preset_group(&self, g: usize) -> (r: Vec<usize>)
        requires
            self@.wf(),
            g < self@.keys.len(),
        ensures
            r@ == self@.preset_row(g as int),
            group_ok(self@.keys[g as int], r@),
    {
        let keys = &self.group_keys[g];
        let current = &self.group_selections[g];
        assert(group_ok(self@.keys[g as int], self@.selections[g as int]));
        let mut row: Vec<usize> = Vec::new();
        let mut k: usize = 0;
        while k < keys.len()
            invariant
                k <= keys.len(),
                g < self@.keys.len(),
                keys@ == self@.keys[g as int],
                current@ == self@.selections[g as int],
                group_ok(keys@, current@),
                row@ == self@.preset_row(g as int).take(k as int),
                forall|j: int| 0 <= j < k ==> (#[trigger] row@[j]) < key_options(keys@[j] as int).len(),
            decreases keys.len() - k,
        {
            assert(keys@[k as int] < REGISTRY_LEN);
            assert(current@[k as int] < key_options(keys@[k as int] as int).len());
            let options = Self::options_for_key(keys[k]);
            assert(words(options@).len() == options@.len());
            let mut selected: usize = current[k];
            if let Some(word) = preset_value(self.preset_selected, registry_key(keys[k]).key) {
                let at: usize = find_word(&options, word);
                if at < options.len() {
                    selected = at;
                }
            }
            row.push(selected);
            assert(selected == self@.preset_option(g as int, k as int));
            k = k + 1;
            assert(self@.preset_row(g as int).take(k as int) =~= self@.preset_row(g as int).take(
                k - 1,
            ).push(selected));
        }
        assert(self@.preset_row(g as int).take(k as int) =~= self@.preset_row(g as int));
        row
    }

    /// Selects for each key that the chosen preset knows the option it gives.
    pub fn apply_preset_selections(&mut self)
        requires
            old(self)@.wf(),
        ensures
            final(self)@ == old(self)@.with_preset(),
            final(self)@.wf(),
    {
        let ghost before = self@;
        let mut table: Vec<Vec<usize>> = Vec::new();
        let mut g: usize = 0;
        while g < self.group_keys.len()
            invariant
                g <= self.group_keys@.len(),
                self@ == before,
                before.wf(),
                rows(table@) == before.with_preset().selections.take(g as int),
                forall|h: int| 0 <= h < g ==> group_ok(before.keys[h], #[trigger] table@[h]@),
            decreases self.group_keys@.len() - g,
        {
            let ghost old_table = table@;
            table.push(self.preset_group(g));
            g = g + 1;
            assert(rows(table@) =~= rows(old_table).push(table@.last()@));
            assert(before.with_preset().selections.take(g as int)
                =~= before.with_preset().selections.take(g - 1).push(before.preset_row(g - 1)));
        }
        self.group_selections = table;
        proof {
            assert(before.with_preset().selections.take(g as int)
                =~= before.with_preset().selections);
            assert(self@ =~= before.with_preset());
            assert forall|h: int| 0 <= h < self@.keys.len() implies group_ok(
                #[trigger] self@.keys[h],
                self@.selections[h],
            ) by {
                assert(group_ok(before.keys[h], table@[h]@));
            }
        }
    }

    /// Confirm the current screen. For preset, applies preset and skips to
    /// the first extra screen (or confirm if no extras). For groups, advances.
    pub fn confirm(&mut self)
        requires
            old(self)@.wf(),
        ensures
            final(self)@ == old(self)@.confirmed(),
            final(self)@.wf(),
    {
        if self.is_confirm_screen() {
            self.finished = true;
        } else if self.is_preset_screen() {
            if self.preset_selected < 2 {
                self.apply_preset_selections();
                self.screen = 1 + self.group_names.len();
            } else {
                self.screen = 1;
            }
            self.group_cursor = 0;
            proof {
                if self@.on_group() {
                    assert(group_ok(self@.keys[0], self@.selections[0]));
                }
            }
        } else {
            self.next_screen();
        }
    }

    /// Goes to the next screen as it is, without applying a preset.
    pub fn next_screen(&mut self)
        requires
            old(self)@.wf(),
            !old(self)@.on_confirm(),
            !old(self)@.on_preset(),
        ensures
            final(self)@ == (WalkView { screen: old(self)@.screen + 1, cursor: 0, ..old(self)@ }),
            final(self)@.wf(),
    {
        self.screen = self.screen + 1;
        self.group_cursor = 0;
        proof {
            if self@.on_group() {
                assert(group_ok(self@.keys[self@.group()], self@.selections[self@.group()]));
            }
        }
    }

    /// Goes to the next key of the group, or behind the last to the next screen.
    pub fn advance(&mut self)
        requires
            old(self)@.wf(),
            old(self)@.on_group(),
        ensures
            final(self)@ == old(self)@.advanced(),
            final(self)@.wf(),
    {
        let g: usize = self.screen - 1;
        assert(group_ok(self@.keys[g as int], self@.selections[g as int]));
        if self.group_cursor < self.group_keys[g].len() - 1 {
            self.group_cursor = self.group_cursor + 1;
        } else {
            self.next_screen();
        }
    }

    /// Goes back to the screen before.
    pub fn go_back(&mut self)
        requires
            old(self)@.wf(),
        ensures
            final(self)@ == old(self)@.back(),
            final(self)@.wf(),
    {
        if self.screen > 0 {
            let first_extra: usize = 1 + self.group_names.len();
            if self.screen == first_extra && self.preset_selected < 2 {
                self.screen = 0;
            } else {
                self.screen = self.screen - 1;
            }
            self.group_cursor = 0;
            proof {
                if self@.on_group() {
                    assert(group_ok(self@.keys[self@.group()], self@.selections[self@.group()]));
                }
            }
        }
    }
}

// ---------------------------------------------------------------------------
// Laws of the walkthrough
// ---------------------------------------------------------------------------

/// Going back after a confirmed screen leads to that screen again.
pub proof fn law_back_undoes_confirm(w: WalkView)
    requires
        w.wf(),
        !w.on_confirm(),
    ensures
        w.confirmed().back().screen == w.screen,
{
}

/// Selecting the next option and then the one before leaves the selections as they
/// were.
pub proof fn law_cycling_back_undoes_cycling(w: WalkView)
    requires
        w.wf(),
    ensures
        w.cycled().cycled_back() == w,
        w.cycled_back().cycled() == w,
{
    if w.on_group() {
        let g = w.group();
        assert(group_ok(w.keys[g], w.selections[g]));
        let n = w.option_count();
        let c = w.current_option();
        assert(w.selections[g][w.cursor] < key_options(w.keys[g][w.cursor] as int).len());
        lemma_option_count_bound(w.keys[g][w.cursor] as int);
        assert((c + 1) % n == if c + 1 == n { 0 } else { c + 1 }) by (nonlinear_arith)
            requires
                0 <= c < n,
        ;
        let a = w.cycled();
        assert(a.current_option() == (c + 1) % n);
        assert(a.cycled_back().selections =~= w.selections) by {
            assert(a.cycled_back().selections[g] =~= w.selections[g]);
        }
        let b = w.cycled_back();
        let p = if c == 0 { n - 1 } else { c - 1 };
        assert(b.current_option() == p);
        assert((p + 1) % n == c) by (nonlinear_arith)
            requires
                0 <= c < n,
                p == if c == 0 { n - 1 } else { c - 1 },
        ;
        assert(b.cycled().selections =~= w.selections) by {
            assert(b.cycled().selections[g] =~= w.selections[g]);
        }
    }
}

proof fn lemma_option_count_bound(i: int)
    requires
        0 <= i < REGISTRY_LEN,
    ensures
        key_options(i).len() <= 5,
{
}

/// Applying a preset a second time changes nothing.
pub proof fn law_preset_is_idempotent(w: WalkView)
    requires
        w.wf(),
    ensures
        w.with_preset().with_preset() == w.with_preset(),
{
    let a = w.with_preset();
    let b = a.with_preset();
    assert forall|g: int| 0 <= g < b.selections.len() implies b.selections[g] == a.selections[g] by {
        assert(group_ok(w.keys[g], w.selections[g]));
        assert(b.selections[g] =~= a.selections[g]);
    }
    assert(b.selections =~= a.selections);
}

/// A preset leaves alone every key that it does not know.
pub proof fn law_preset_keeps_other_keys(w: WalkView, g: int, k: int)
    requires
        w.wf(),
        0 <= g < w.keys.len(),
        0 <= k < w.keys[g].len(),
        preset_choice(w.preset, registry_entry(w.keys[g][k] as int).key) is None,
    ensures
        w.with_preset().selections[g][k] == w.selections[g][k],
{
    assert(group_ok(w.keys[g], w.selections[g]));
}

/// Every way through the walkthrough comes to its end: confirming moves on by a
/// screen at least, or finishes.
pub proof fn law_confirming_makes_progress(w: WalkView)
    requires
        w.wf(),
    ensures
        w.confirmed().finished || w.confirmed().screen > w.screen,
{
}

// ---------------------------------------------------------------------------
// The outcome of the walkthrough
// ---------------------------------------------------------------------------

/// The model of a chosen value.
pub enum ValueView {
    Bool(bool),
    Text(Seq<char>),
    Other,
}

impl View for ConfigValue {
    type V = ValueView;

    open spec fn view(&self) -> ValueView {
        match self {
            ConfigValue::Bool(b) => ValueView::Bool(*b),
            ConfigValue::Text(t) => ValueView::Text(t@),
            ConfigValue::Other => ValueView::Other,
        }
    }
}

/// The models of a list of chosen values.
pub open spec fn value_views(v: Seq<(String, ConfigValue)>) -> Seq<(Seq<char>, ValueView)> {
    Seq::new(v.len(), |i: int| (v[i].0@, v[i].1@))
}

/// The name and the value of a key for one of its options.
pub open spec fn chosen(i: int, option: int) -> (Seq<char>, ValueView) {
    let word = key_options(i)[option];
    (
        registry_entry(i).key,
        if registry_entry(i).kind is Bool {
            ValueView::Bool(word == "true"@)
        } else {
            ValueView::Text(word)
        },
    )
}

/// The choices for the first `n` keys of a group.
pub open spec fn chosen_in_group(keys: Seq<usize>, selections: Seq<usize>, n: nat) -> Seq<
    (Seq<char>, ValueView),
>
    decreases n,
{
    if n == 0 {
        Seq::empty()
    } else {
        chosen_in_group(keys, selections, (n - 1) as nat).push(
            chosen(keys[n - 1] as int, selections[n - 1] as int),
        )
    }
}

/// The choices of the first `m` groups.
pub open spec fn chosen_config(w: WalkView, m: nat) -> Seq<(Seq<char>, ValueView)>
    decreases m,
{
    if m == 0 {
        Seq::empty()
    } else {
        chosen_config(w, (m - 1) as nat) + chosen_in_group(
            w.keys[m - 1],
            w.selections[m - 1],
            w.keys[m - 1].len(),
        )
    }
}

fn choice(i: usize, option: usize) -> (r: (String, ConfigValue))
    requires
        i < REGISTRY_LEN,
        option < key_options(i as int).len(),
    ensures
        (r.0@, r.1@) == chosen(i as int, option as int),
{
    let entry = registry_key(i);
    let options = WalkthroughCore::options_for_key(i);
    assert(words(options@).len() == options@.len());
    assert(words(options@)[option as int] == options@[option as int]@);
    let word = options[option];
    let value = match entry.config_type {
        ConfigType::Bool => ConfigValue::Bool(eq_str(word, "true")),
        _ => ConfigValue::Text(own(word)),
    };
    (own(entry.key), value)
}

impl WalkthroughCore {
    /// The chosen value of every shown key, group by group.
    pub fn build_config(&self) -> (r: Vec<(String, ConfigValue)>)
        requires
            self@.wf(),
        ensures
            value_views(r@) == chosen_config(self@, self@.keys.len()),
    {
        let mut out: Vec<(String, ConfigValue)> = Vec::new();
        let mut g: usize = 0;
        assert(value_views(out@) =~= Seq::<(Seq<char>, ValueView)>::empty());
        while g < self.group_keys.len()
            invariant
                g <= self.group_keys@.len(),
                self@.wf(),
                value_views(out@) == chosen_config(self@, g as nat),
            decreases self.group_keys@.len() - g,
        {
            let keys = &self.group_keys[g];
            let selections = &self.group_selections[g];
            assert(group_ok(self@.keys[g as int], self@.selections[g as int]));
            let ghost start = value_views(out@);
            let mut k: usize = 0;
            assert(start + chosen_in_group(keys@, selections@, 0) =~= start);
            while k < keys.len()
                invariant
                    k <= keys@.len(),
                    group_ok(keys@, selections@),
                    value_views(out@) == start + chosen_in_group(keys@, selections@, k as nat),
                decreases keys@.len() - k,
            {
                assert(keys@[k as int] < REGISTRY_LEN);
                assert(selections@[k as int] < key_options(keys@[k as int] as int).len());
                let ghost before = out@;
                let c = choice(keys[k], selections[k]);
                out.push(c);
                k = k + 1;
                proof {
                    assert(value_views(out@) =~= value_views(before).push((c.0@, c.1@)));
                    assert(start + chosen_in_group(keys@, selections@, k as nat) =~= (start
                        + chosen_in_group(keys@, selections@, (k - 1) as nat)).push(
                        chosen(keys@[k - 1] as int, selections@[k - 1] as int),
                    ));
                }
            }
            g = g + 1;
        }
        out
    }
}

// ---------------------------------------------------------------------------
// Laws of the registry and of the choices
// ---------------------------------------------------------------------------

/// The position of a key, told by the length of its name and the tenth character.
spec fn place(name: Seq<char>) -> int {
    if name.len() == 13 {
        0
    } else if name.len() == 21 && name[9] == 'i' {
        1
    } else if name.len() == 18 && name[9] == 'o' {
        2
    } else if name.len() == 18 && name[9] == 'i' {
        3
    } else if name.len() == 20 && name[9] == 'e' {
        4
    } else if name.len() == 19 {
        5
    } else if name.len() == 24 {
        6
    } else if name.len() == 22 {
        7
    } else if name.len() == 14 {
        8
    } else if name.len() == 20 && name[9] == 'i' {
        9
    } else if name.len() == 18 && name[9] == '_' {
        10
    } else if name.len() == 21 && name[9] == 'a' {
        11
    } else if name.len() == 18 && name[9] == 'c' {
        12
    } else if name.len() == 16 && name[9] == 'u' {
        13
    } else if name.len() == 10 {
        14
    } else if name.len() == 16 && name[9] == 'e' {
        15
    } else if name.len() == 25 && name[9] == 'i' {
        16
    } else if name.len() == 30 {
        17
    } else if name.len() == 38 && name[9] == 's' {
        18
    } else if name.len() == 37 {
        19
    } else if name.len() == 28 {
        20
    } else if name.len() == 38 && name[9] == 'd' {
        21
    } else if name.len() == 29 {
        22
    } else if name.len() == 27 {
        23
    } else if name.len() == 25 && name[9] == 'e' {
        24
    } else if name.len() == 36 {
        25
    } else if name.len() == 32 {
        26
    } else if name.len() == 42 {
        27
    } else {
        REGISTRY_LEN as int
    }
}

proof fn lemma_place(i: int)
    requires
        0 <= i < REGISTRY_LEN,
    ensures
        place(registry_entry(i).key) == i,
{
    if i == 0 {
        reveal_strlit("tracking_mode");
    } else if i == 1 {
        reveal_strlit("intervention_tracking");
    } else if i == 2 {
        reveal_strlit("cpitd_auto_install");
    } else if i == 3 {
        reveal_strlit("comment_discipline");
    } else if i == 4 {
        reveal_strlit("kickoff_verification");
    } else if i == 5 {
        reveal_strlit("signing_enforcement");
    } else if i == 6 {
        reveal_strlit("reminder_drift_threshold");
    } else if i == 7 {
        reveal_strlit("auto_steal_stale_locks");
    } else if i == 8 {
        reveal_strlit("tracker_remote");
    } else if i == 9 {
        reveal_strlit("blocked_git_commands");
    } else if i == 10 {
        reveal_strlit("gated_git_commands");
    } else if i == 11 {
        reveal_strlit("allowed_bash_prefixes");
    } else if i == 12 {
        reveal_strlit("external-cache-ttl");
    } else if i == 13 {
        reveal_strlit("external-url-ttl");
    } else if i == 14 {
        reveal_strlit("repo-alias");
    } else if i == 15 {
        reveal_strlit("sentinel.enabled");
    } else if i == 16 {
        reveal_strlit("sentinel.interval_minutes");
    } else if i == 17 {
        reveal_strlit("sentinel.max_concurrent_agents");
    } else if i == 18 {
        reveal_strlit("sentinel.sources.github_labels.enabled");
    } else if i == 19 {
        reveal_strlit("sentinel.sources.github_labels.labels");
    } else if i == 20 {
        reveal_strlit("sentinel.default_agent.model");
    } else if i == 21 {
        reveal_strlit("sentinel.default_agent.timeout_minutes");
    } else if i == 22 {
        reveal_strlit("sentinel.default_agent.verify");
    } else if i == 23 {
        reveal_strlit("sentinel.escalation.enabled");
    } else if i == 24 {
        reveal_strlit("sentinel.escalation.model");
    } else if i == 25 {
        reveal_strlit("sentinel.escalation.cooldown_minutes");
    } else if i == 26 {
        reveal_strlit("sentinel.escalation.max_attempts");
    } else {
        reveal_strlit("sentinel.escalation.timeout_multiplier_pct");
    }
}

/// No two keys have the same name.
pub proof fn law_keys_are_distinct(i: int, j: int)
    requires
        0 <= i < REGISTRY_LEN,
        0 <= j < REGISTRY_LEN,
        registry_entry(i).key == registry_entry(j).key,
    ensures
        i == j,
{
    lemma_place(i);
    lemma_place(j);
}

proof fn lemma_group_indices_complete(group: ConfigGroup, n: nat, i: int) -> (k: int)
    requires
        n <= REGISTRY_LEN,
        0 <= i < n,
        registry_entry(i).group == group,
        is_shown(i),
    ensures
        0 <= k < group_indices(group, n).len(),
        group_indices(group, n)[k] == i,
    decreases n,
{
    if i == n - 1 {
        group_indices(group, n).len() - 1
    } else {
        lemma_group_indices_complete(group, (n - 1) as nat, i)
    }
}

proof fn lemma_shown_groups_complete(m: nat, h: int) -> (g: int)
    requires
        0 <= h < m <= 5,
        group_indices(ConfigGroup::order()[h], REGISTRY_LEN as nat).len() > 0,
    ensures
        0 <= g < shown_groups(m).len(),
        shown_groups(m)[g] == ConfigGroup::order()[h],
    decreases m,
{
    if h == m - 1 {
        shown_groups(m).len() - 1
    } else {
        lemma_shown_groups_complete((m - 1) as nat, h)
    }
}

/// Every key that is shown stands on the screen of a group.
proof fn lemma_shown_key_has_place(i: int) -> (at: (int, int))
    requires
        0 <= i < REGISTRY_LEN,
        is_shown(i),
    ensures
        0 <= at.0 < shown_keys().len(),
        0 <= at.1 < shown_keys()[at.0].len(),
        shown_keys()[at.0][at.1] == i,
{
    let group = registry_entry(i).group;
    let h: int = match group {
        ConfigGroup::Workflow => 0,
        ConfigGroup::Security => 1,
        ConfigGroup::Infrastructure => 2,
        ConfigGroup::Agents => 3,
        ConfigGroup::Sentinel => 4,
    };
    assert(ConfigGroup::order()[h] == group);
    let k = lemma_group_indices_complete(group, REGISTRY_LEN as nat, i);
    let g = lemma_shown_groups_complete(5, h);
    (g, k)
}

proof fn lemma_chosen_in_group(keys: Seq<usize>, selections: Seq<usize>, n: nat)
    requires
        n <= keys.len(),
    ensures
        chosen_in_group(keys, selections, n).len() == n,
        forall|k: int|
            0 <= k < n ==> #[trigger] chosen_in_group(keys, selections, n)[k] == chosen(
                keys[k] as int,
                selections[k] as int,
            ),
    decreases n,
{
    if n > 0 {
        lemma_chosen_in_group(keys, selections, (n - 1) as nat);
    }
}

/// Every choice is that of some key of some group.
proof fn lemma_choice_has_key(w: WalkView, m: nat, e: int) -> (at: (int, int))
    requires
        m <= w.keys.len(),
        0 <= e < chosen_config(w, m).len(),
    ensures
        0 <= at.0 < m,
        0 <= at.1 < w.keys[at.0].len(),
        chosen_config(w, m)[e] == chosen(
            w.keys[at.0][at.1] as int,
            w.selections[at.0][at.1] as int,
        ),
    decreases m,
{
    let head = chosen_config(w, (m - 1) as nat);
    if e < head.len() {
        lemma_choice_has_key(w, (m - 1) as nat, e)
    } else {
        lemma_chosen_in_group(w.keys[m - 1], w.selections[m - 1], w.keys[m - 1].len());
        (m - 1, e - head.len())
    }
}

/// Every key of every group has its choice.
proof fn lemma_key_has_choice(w: WalkView, m: nat, g: int, k: int) -> (e: int)
    requires
        m <= w.keys.len(),
        0 <= g < m,
        0 <= k < w.keys[g].len(),
    ensures
        0 <= e < chosen_config(w, m).len(),
        chosen_config(w, m)[e] == chosen(w.keys[g][k] as int, w.selections[g][k] as int),
    decreases m,
{
    let head = chosen_config(w, (m - 1) as nat);
    if g < m - 1 {
        lemma_key_has_choice(w, (m - 1) as nat, g, k)
    } else {
        lemma_chosen_in_group(w.keys[g], w.selections[g], w.keys[g].len());
        head.len() + k
    }
}

proof fn lemma_word_is_found(list: Seq<Seq<char>>, word: Seq<char>, i: int)
    requires
        0 <= i <= list.len(),
        exists|k: int| i <= k < list.len() && list[k] == word,
    ensures
        i <= word_position(list, word, i) < list.len(),
        list[word_position(list, word, i)] == word,
    decreases list.len() - i,
{
    if list[i] != word {
        lemma_word_is_found(list, word, i + 1);
    }
}

/// Whether a configuration holds a value that the walkthrough can show for a key: a flag
/// for a flag, one of the words for a key that takes one of them.
pub open spec fn is_configured(config: Seq<(String, ConfigValue)>, i: int) -> bool {
    let value = configured_from(config, registry_entry(i).key, 0);
    match registry_entry(i).kind {
        TypeView::Bool => value matches Some(v) && v is Bool,
        TypeView::Enum(options) => value matches Some(ConfigValue::Text(t)) && options.contains(t@),
        _ => false,
    }
}

/// A walkthrough in which nothing was changed gives back every value that it can show:
/// the choices hold the key with the configured value, and with no other.
pub proof fn law_configured_keys_come_back(
    w: WalkView,
    config: Seq<(String, ConfigValue)>,
    extra: int,
    i: int,
)
    requires
        is_start(w, config, extra),
        0 <= i < REGISTRY_LEN,
        is_configured(config, i),
    ensures
        ({
            let key = registry_entry(i).key;
            let value = configured_from(config, key, 0)->0@;
            let choices = chosen_config(w, w.keys.len());
            &&& choices.contains((key, value))
            &&& forall|e: int|
                0 <= e < choices.len() && (#[trigger] choices[e]).0 == key ==> choices[e].1 == value
        }),
{
    let key = registry_entry(i).key;
    let value = configured_from(config, key, 0)->0;
    let choices = chosen_config(w, w.keys.len());
    let (g, k) = lemma_shown_key_has_place(i);
    assert(w.keys[g][k] == i);
    assert(w.selections[g][k] == selected_option(config, i));
    assert(chosen(i, selected_option(config, i)) == (key, value@)) by {
        reveal_strlit("true");
        reveal_strlit("false");
        match registry_entry(i).kind {
            TypeView::Enum(options) => {
                let word = value->Text_0@;
                let at = choose|at: int| 0 <= at < options.len() && options[at] == word;
                assert(options[at] == word);
                lemma_word_is_found(options, word, 0);
            },
            _ => {
                assert("true"@.len() != "false"@.len());
            },
        }
    }
    let e = lemma_key_has_choice(w, w.keys.len(), g, k);
    assert(choices[e] == (key, value@));
    assert forall|f: int| 0 <= f < choices.len() && (#[trigger] choices[f]).0 == key implies
        choices[f].1 == value@ by {
        let (h, l) = lemma_choice_has_key(w, w.keys.len(), f);
        lemma_group_indices_shown(shown_groups(5)[h], REGISTRY_LEN as nat, l);
        law_keys_are_distinct(w.keys[h][l] as int, i);
        assert(w.selections[h][l] == selected_option(config, w.keys[h][l] as int));
    }
}

/// Lists, numbers and mappings are left alone: whatever was chosen, no such key is among
/// the choices, and every key that is among them is one that is shown.
pub proof fn law_only_shown_keys_are_chosen(w: WalkView, e: int)
    requires
        w.keys == shown_keys(),
        0 <= e < chosen_config(w, w.keys.len()).len(),
    ensures
        exists|i: int|
            0 <= i < REGISTRY_LEN && is_shown(i) && chosen_config(w, w.keys.len())[e].0
                == #[trigger] registry_entry(i).key,
        forall|i: int|
            0 <= i < REGISTRY_LEN && !is_shown(i) ==> chosen_config(w, w.keys.len())[e].0
                != #[trigger] registry_entry(i).key,
{
    let (g, k) = lemma_choice_has_key(w, w.keys.len(), e);
    lemma_group_indices_shown(shown_groups(5)[g], REGISTRY_LEN as nat, k);
    let i = w.keys[g][k] as int;
    assert(chosen_config(w, w.keys.len())[e].0 == registry_entry(i).key);
    assert forall|j: int| 0 <= j < REGISTRY_LEN && !is_shown(j) implies chosen_config(
        w,
        w.keys.len(),
    )[e].0 != #[trigger] registry_entry(j).key by {
        if registry_entry(i).key == registry_entry(j).key {
            law_keys_are_distinct(i, j);
        }
    }
}

/// Every group and every kind of value is called by its own name.
pub proof fn law_groups_and_kinds_are_named(options: Seq<Seq<char>>)
    ensures
        ConfigGroup::Workflow.name() == "Workflow"@,
        ConfigGroup::Security.name() == "Security"@,
        ConfigGroup::Infrastructure.name() == "Infrastructure"@,
        ConfigGroup::Agents.name() == "Agents"@,
        ConfigGroup::Sentinel.name() == "Sentinel"@,
        kind_name(TypeView::Bool) == "bool"@,
        kind_name(TypeView::Enum(options)) == "enum"@,
        kind_name(TypeView::String) == "string"@,
        kind_name(TypeView::StringArray) == "string[]"@,
        kind_name(TypeView::Integer) == "integer"@,
        kind_name(TypeView::Mapping) == "map"@,
{
}

/// All groups are shown, each once.
pub proof fn law_all_groups_are_ordered(group: ConfigGroup)
    ensures
        ConfigGroup::order().len() == 5,
        ConfigGroup::order().contains(group),
{
    let order = ConfigGroup::order();
    assert(order[0] == ConfigGroup::Workflow && order[1] == ConfigGroup::Security && order[2]
        == ConfigGroup::Infrastructure && order[3] == ConfigGroup::Agents && order[4]
        == ConfigGroup::Sentinel);
}

/// Every key is found by its name. A name that finds a key is the name of it, or that of an entry of
/// a mapping.
pub proof fn law_keys_are_found_by_name(i: int, name: Seq<char>)
    requires
        0 <= i < REGISTRY_LEN,
    ensures
        registry_lookup(registry_entry(i).key) == Some(i),
        registry_lookup(name) matches Some(j) ==> 0 <= j < REGISTRY_LEN && (registry_entry(j).key
            == name || (registry_entry(j).kind is Mapping && registry_entry(j).key == before_dot(
            name,
        ))),
        registry_lookup(name) is None ==> registry_entry(i).key != name,
{
    lemma_position_from(registry_entry(i).key, 0);
    lemma_position_from(name, 0);
    lemma_position_from(before_dot(name), 0);
    let at = position_from(registry_entry(i).key, 0);
    if at < REGISTRY_LEN {
        law_keys_are_distinct(at, i);
    }
}

proof fn lemma_position_from(name: Seq<char>, i: int)
    requires
        0 <= i <= REGISTRY_LEN,
    ensures
        i <= position_from(name, i) <= REGISTRY_LEN,
        position_from(name, i) < REGISTRY_LEN ==> registry_entry(position_from(name, i)).key == name,
        position_from(name, i) == REGISTRY_LEN ==> forall|j: int|
            i <= j < REGISTRY_LEN ==> (#[trigger] registry_entry(j)).key != name,
    decreases REGISTRY_LEN - i,
{
    if i < REGISTRY_LEN && registry_entry(i).key != name {
        lemma_position_from(name, i + 1);
    }
}

/// An entry of a mapping is found under the name of the mapping.
pub proof fn law_entries_of_mappings_are_found(alias: Seq<char>)
    ensures
        registry_lookup("repo-alias"@ + seq!['.'] + alias) matches Some(j) && (registry_entry(j).key
            == "repo-alias"@ || registry_entry(j).key == "repo-alias"@ + seq!['.'] + alias),
{
    let name = "repo-alias"@ + seq!['.'] + alias;
    reveal_strlit("repo-alias");
    text::lemma_find_char(name, '.');
    let at = text::find_char(name, '.') as int;
    assert(name[10] == '.');
    assert(at == 10) by {
        if at < 10 {
            assert(name[at] == "repo-alias"@[at]);
        }
    }
    assert(before_dot(name) =~= "repo-alias"@);
    assert(registry_entry(14).key == "repo-alias"@);
    law_keys_are_found_by_name(14, name);
    lemma_position_from("repo-alias"@, 0);
    if position_from("repo-alias"@, 0) < REGISTRY_LEN {
        law_keys_are_distinct(position_from("repo-alias"@, 0), 14);
    }
    lemma_position_from(name, 0);
}

/// Teams get the strict values and those who work alone the relaxed ones; a preset says nothing of
/// any other key.
pub proof fn law_presets_suit_their_users(preset: int, key: Seq<char>)
    requires
        preset != 0,
    ensures
        preset_choice(0, "tracking_mode"@) == Some("strict"@),
        preset_choice(preset, "tracking_mode"@) == Some("relaxed"@),
        preset_choice(0, "comment_discipline"@) == Some("required"@),
        preset_choice(preset, "comment_discipline"@) == Some("encouraged"@),
        preset_choice(0, "auto_steal_stale_locks"@) == Some("3"@),
        preset_choice(preset, "auto_steal_stale_locks"@) == Some("false"@),
        preset_choice(0, "kickoff_verification"@) == Some("ci"@),
        preset_choice(preset, "kickoff_verification"@) == Some("local"@),
        preset_choice(0, "signing_enforcement"@) == Some("enforced"@),
        preset_choice(preset, "signing_enforcement"@) == Some("disabled"@),
        preset_choice(preset, key) is Some <==> preset_choice(0, key) is Some,
        preset_choice(0, key) is Some ==> key == "tracking_mode"@ || key == "comment_discipline"@
            || key == "auto_steal_stale_locks"@ || key == "kickoff_verification"@ || key
            == "signing_enforcement"@,
{
    reveal_strlit("tracking_mode");
    reveal_strlit("comment_discipline");
    reveal_strlit("auto_steal_stale_locks");
    reveal_strlit("kickoff_verification");
    reveal_strlit("signing_enforcement");
    assert("tracking_mode"@.len() == 13 && "comment_discipline"@.len() == 18
        && "auto_steal_stale_locks"@.len() == 22 && "kickoff_verification"@.len() == 20
        && "signing_enforcement"@.len() == 19);
}

/// Once a preset is applied, every key that it knows has the option that it gives, where the key
/// has such an option.
pub proof fn law_presets_are_applied(w: WalkView, g: int, k: int, word: Seq<char>)
    requires
        w.wf(),
        0 <= g < w.keys.len(),
        0 <= k < w.keys[g].len(),
        preset_choice(w.preset, registry_entry(w.keys[g][k] as int).key) == Some(word),
        key_options(w.keys[g][k] as int).contains(word),
    ensures
        key_options(w.keys[g][k] as int)[w.with_preset().selections[g][k] as int] == word,
{
    let i = w.keys[g][k] as int;
    assert(group_ok(w.keys[g], w.selections[g]));
    lemma_word_position(key_options(i), word, 0);
    lemma_word_found(key_options(i), word, 0);
    lemma_option_count_bound(i);
}

proof fn lemma_word_found(list: Seq<Seq<char>>, word: Seq<char>, i: int)
    requires
        0 <= i <= list.len(),
    ensures
        word_position(list, word, i) < list.len() ==> list[word_position(list, word, i)] == word,
        word_position(list, word, i) >= list.len() ==> forall|j: int|
            i <= j < list.len() ==> #[trigger] list[j] != word,
    decreases list.len() - i,
{
    if i < list.len() && list[i] != word {
        lemma_word_found(list, word, i + 1);
    }
}

/// A flag can be switched on and off; a key of one word takes its own words.
pub proof fn law_options_are_those_of_the_kind(i: int)
    ensures
        registry_entry(i).kind is Bool ==> key_options(i) == seq!["true"@, "false"@],
        registry_entry(i).kind matches TypeView::Enum(options) ==> key_options(i) == options,
        is_shown(i) <==> registry_entry(i).kind is Bool || registry_entry(i).kind is Enum
            || registry_entry(i).kind is String,
{
}

/// The option that is selected at first is the configured one: of a flag what it is, of a word that
/// word. A flag that is not set is off, and a word that is not set or not known is the first.
pub proof fn law_configured_options_are_selected(config: Seq<(String, ConfigValue)>, i: int, t: String)
    requires
        0 <= i < REGISTRY_LEN,
    ensures
        ({
            let value = configured_from(config, registry_entry(i).key, 0);
            let word = key_options(i)[selected_option(config, i)];
            let kind = registry_entry(i).kind;
            &&& kind is Bool && value == Some(ConfigValue::Bool(true)) ==> word == "true"@
            &&& kind is Bool && value != Some(ConfigValue::Bool(true)) ==> word == "false"@
            &&& kind is Enum && value == Some(ConfigValue::Text(t)) && key_options(i).contains(t@)
                ==> word == t@
            &&& kind is Enum && value is None && !key_options(i).contains(""@) ==> selected_option(
                config,
                i,
            ) == 0
        }),
{
    if let TypeView::Enum(options) = registry_entry(i).kind {
        lemma_word_position(options, t@, 0);
        lemma_word_found(options, t@, 0);
        lemma_word_position(options, ""@, 0);
        lemma_word_found(options, ""@, 0);
        if word_position(options, ""@, 0) < options.len() {
            assert(options.contains(options[word_position(options, ""@, 0)]));
        }
    }
}

/// What is chosen for a key is the word that is selected; of a flag whether it is on.
pub proof fn law_choices_are_the_selected_words(i: int, option: int)
    ensures
        chosen(i, option).0 == registry_entry(i).key,
        registry_entry(i).kind is Bool ==> chosen(i, option).1 == ValueView::Bool(
            key_options(i)[option] == "true"@,
        ),
        !(registry_entry(i).kind is Bool) ==> chosen(i, option).1 == ValueView::Text(
            key_options(i)[option],
        ),
{
}

/// Moving up and down moves by one within the screen, and changes nothing that was chosen but the
/// preset on its own screen.
pub proof fn law_moving_stays_on_the_screen(w: WalkView)
    requires
        w.wf(),
    ensures
        w.up().screen == w.screen && w.down().screen == w.screen,
        w.up().selections == w.selections && w.down().selections == w.selections,
        w.on_preset() && w.preset > 0 ==> w.up().preset == w.preset - 1,
        w.on_preset() && w.preset < 2 ==> w.down().preset == w.preset + 1,
        w.on_preset() && w.preset == 0 ==> w.up() == w,
        w.on_preset() && w.preset == 2 ==> w.down() == w,
        w.on_group() && w.cursor > 0 ==> w.up().cursor == w.cursor - 1,
        w.on_group() && w.cursor < w.keys[w.group()].len() - 1 ==> w.down().cursor == w.cursor + 1,
        w.on_group() ==> w.up().preset == w.preset && w.down().preset == w.preset,
        w.on_group() && w.cursor < w.keys[w.group()].len() - 1 ==> w.down().up() == w,
        w.on_group() && w.cursor > 0 ==> w.up().down() == w,
{
}

/// Selecting another option changes that of the focused key alone.
pub proof fn law_cycling_changes_one_key(w: WalkView, g: int, k: int)
    requires
        w.wf(),
        w.on_group(),
        0 <= g < w.keys.len(),
        0 <= k < w.keys[g].len(),
    ensures
        g != w.group() || k != w.cursor ==> w.cycled().selections[g][k] == w.selections[g][k]
            && w.cycled_back().selections[g][k] == w.selections[g][k],
        w.cycled().screen == w.screen && w.cycled().cursor == w.cursor,
        w.current_option() + 1 < w.option_count() ==> w.cycled().current_option()
            == w.current_option() + 1,
        w.current_option() + 1 == w.option_count() ==> w.cycled().current_option() == 0,
{
    assert(group_ok(w.keys[w.group()], w.selections[w.group()]));
    lemma_option_count_bound(w.keys[w.group()][w.cursor] as int);
    assert(w.selections[w.group()][w.cursor] < key_options(
        w.keys[w.group()][w.cursor] as int,
    ).len());
    let n = w.option_count();
    let next = w.current_option() + 1;
    if next < n {
        vstd::arithmetic::div_mod::lemma_small_mod(next as nat, n as nat);
    } else {
        vstd::arithmetic::div_mod::lemma_mod_self_0(n);
    }
    let row = w.selections[w.group()].update(w.cursor, (next % n) as usize);
    assert(w.cycled().selections[w.group()] == row);
    assert(row[w.cursor] == (next % n) as usize);
}

/// The walkthrough is finished on its last screen alone. A preset leads past the groups, and the
/// choice of one's own leads to the first of them.
pub proof fn law_confirming_leads_on(w: WalkView)
    requires
        w.wf(),
        !w.finished,
    ensures
        w.confirmed().finished <==> w.on_confirm(),
        w.on_confirm() ==> w.confirmed().screen == w.screen && w.confirmed().selections
            == w.selections,
        w.on_preset() && !w.on_confirm() && w.preset < 2 ==> w.confirmed().screen == 1
            + w.names.len(),
        w.on_preset() && !w.on_confirm() && w.preset == 2 ==> w.confirmed().screen == 1
            && w.confirmed().selections == w.selections,
        w.on_group() ==> w.confirmed().screen == w.screen + 1 && w.confirmed().selections
            == w.selections,
        w.confirmed().cancelled == w.cancelled,
        w.back().selections == w.selections,
        w.screen > 0 ==> w.back().screen < w.screen,
{
}

} // verus!
