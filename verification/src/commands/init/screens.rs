//! What the screens of the setup walkthrough show.

use crate::commands::config_registry;
use crate::commands::config_registry::{registry_key, WalkthroughCore, REGISTRY_LEN};
use crate::commands::init::walkthrough::{AppView, InitWalkthroughApp};
use crate::text;
use crate::text::{join_strs, own, pad_str};
use vstd::prelude::*;

verus! {

/// The screens of the walkthrough.
#[derive(Debug, Clone, Copy, PartialEq, Eq, Structural)]
pub enum Screen {
    Preset,
    Alias,
    Confirm,
    Group(usize),
}

/// How a screen stands to the one that is shown.
#[derive(Debug, Clone, Copy, PartialEq, Eq, Structural)]
pub enum Progress {
    Done,
    Current,
    Ahead,
}

/// A line of a list among which the user chooses.
#[derive(Debug, Clone, PartialEq, Eq)]
pub struct Choice {
    pub selected: bool,
    pub label: String,
    pub detail: String,
}

/// The model of a line of a list.
pub struct ChoiceView {
    pub selected: bool,
    pub label: Seq<char>,
    pub detail: Seq<char>,
}

impl View for Choice {
    type V = ChoiceView;

    open spec fn view(&self) -> ChoiceView {
        ChoiceView { selected: self.selected, label: self.label@, detail: self.detail@ }
    }
}

/// The models of a list.
pub open spec fn choices(v: Seq<Choice>) -> Seq<ChoiceView> {
    Seq::new(v.len(), |i: int| v[i]@)
}

fn choice(selected: bool, label: &str, detail: &str) -> (r: Choice)
    ensures
        r@ == (ChoiceView { selected, label: label@, detail: detail@ }),
{
    Choice { selected, label: own(label), detail: own(detail) }
}

/// The screen that is shown.
pub open spec fn screen_of(w: AppView) -> Screen {
    if w.core.on_preset() {
        Screen::Preset
    } else if w.on_alias() {
        Screen::Alias
    } else if w.core.on_confirm() {
        Screen::Confirm
    } else {
        Screen::Group(w.core.group() as usize)
    }
}

/// The word that is selected for a key of a group.
pub open spec fn selected_word(w: AppView, g: int, k: int) -> Seq<char> {
    config_registry::key_options(w.core.keys[g][k] as int)[w.core.selections[g][k] as int]
}

/// One line of a group: the key in a column of thirty characters, and the selected
/// word in square brackets.
pub open spec fn group_row(w: AppView, g: int, k: int) -> ChoiceView {
    ChoiceView {
        selected: k == w.core.cursor,
        label: text::pad(config_registry::registry_entry(w.core.keys[g][k] as int).key, 30),
        detail: "["@ + selected_word(w, g, k) + "]"@,
    }
}

/// The text below a group: what the focused key is for, and its options where there
/// is a choice.
pub open spec fn key_help(i: int) -> (Seq<char>, Seq<char>) {
    let options = config_registry::key_options(i);
    (
        "  "@ + config_registry::registry_entry(i).description,
        if options.len() > 1 {
            "  Valid: "@ + text::join(options, ", "@)
        } else {
            Seq::empty()
        },
    )
}

/// A line of the screen that asks for confirmation.
#[derive(Debug, Clone, PartialEq, Eq)]
pub enum SummaryLine {
    Group(String),
    Setting { key: String, value: String },
    Blank,
    Alias(String),
}

/// The model of a line of that screen.
pub enum SummaryView {
    Group(Seq<char>),
    Setting { key: Seq<char>, value: Seq<char> },
    Blank,
    Alias(Seq<char>),
}

impl View for SummaryLine {
    type V = SummaryView;

    open spec fn view(&self) -> SummaryView {
        match self {
            SummaryLine::Group(name) => SummaryView::Group(name@),
            SummaryLine::Setting { key, value } => SummaryView::Setting { key: key@, value: value@ },
            SummaryLine::Blank => SummaryView::Blank,
            SummaryLine::Alias(line) => SummaryView::Alias(line@),
        }
    }
}

/// The models of the lines of that screen.
pub open spec fn summary_views(v: Seq<SummaryLine>) -> Seq<SummaryView> {
    Seq::new(v.len(), |i: int| v[i]@)
}

/// The lines of the first `n` keys of a group.
pub open spec fn group_summary(w: AppView, g: int, n: nat) -> Seq<SummaryView>
    decreases n,
{
    if n == 0 {
        seq![SummaryView::Group("  "@ + w.core.names[g])]
    } else {
        group_summary(w, g, (n - 1) as nat).push(
            SummaryView::Setting {
                key: config_registry::registry_entry(w.core.keys[g][n - 1] as int).key + ": "@,
                value: selected_word(w, g, n - 1),
            },
        )
    }
}

/// The lines of the first `m` groups.
pub open spec fn groups_summary(w: AppView, m: nat) -> Seq<SummaryView>
    decreases m,
{
    if m == 0 {
        Seq::empty()
    } else {
        groups_summary(w, (m - 1) as nat) + group_summary(w, m - 1, w.core.keys[m - 1].len())
    }
}

/// The line about the alias.
pub open spec fn alias_summary(w: AppView) -> Seq<char> {
    if w.alias == 0 {
        "    \u{2713} xl alias: will install ("@ + w.shell_config_file + ")"@
    } else {
        "    \u{2713} xl alias: skip"@
    }
}

/// The screen that asks for confirmation: every group with its settings, a blank
/// line, and the alias.
pub open spec fn confirm_summary(w: AppView) -> Seq<SummaryView> {
    groups_summary(w, w.core.keys.len()).push(SummaryView::Blank).push(
        SummaryView::Alias(alias_summary(w)),
    )
}

impl InitWalkthroughApp {
    /// The screen that is shown.
    pub fn current_screen(&self) -> (r: Screen)
        requires
            self@.wf(),
        ensures
            r == screen_of(self@),
    {
        if self.core.is_preset_screen() {
            Screen::Preset
        } else if self.is_alias_screen() {
            Screen::Alias
        } else if self.core.is_confirm_screen() {
            Screen::Confirm
        } else {
            Screen::Group(self.core.screen - 1)
        }
    }

    /// One mark for each screen: those before the current one are done.
    pub fn progress(&self) -> (r: Vec<Progress>)
        requires
            self@.wf(),
        ensures
            r@.len() == self@.core.total(),
            forall|i: int|
                0 <= i < r@.len() ==> #[trigger] r@[i] == if i < self@.core.screen {
                    Progress::Done
                } else if i == self@.core.screen {
                    Progress::Current
                } else {
                    Progress::Ahead
                },
    {
        let total: usize = self.core.total_screens();
        let mut out: Vec<Progress> = Vec::new();
        let mut i: usize = 0;
        while i < total
            invariant
                i <= total,
                out@.len() == i,
                forall|k: int|
                    0 <= k < i ==> #[trigger] out@[k] == if k < self@.core.screen {
                        Progress::Done
                    } else if k == self@.core.screen {
                        Progress::Current
                    } else {
                        Progress::Ahead
                    },
            decreases total - i,
        {
            if i < self.core.screen {
                out.push(Progress::Done);
            } else if i == self.core.screen {
                out.push(Progress::Current);
            } else {
                out.push(Progress::Ahead);
            }
            i = i + 1;
        }
        out
    }

    /// The presets.
    pub fn preset_rows(&self) -> (r: Vec<Choice>)
        ensures
            choices(r@) == seq![
                ChoiceView {
                    selected: self@.core.preset == 0,
                    label: "Team"@,
                    detail: "strict tracking, CI verification, signing enforced"@,
                },
                ChoiceView {
                    selected: self@.core.preset == 1,
                    label: "Solo"@,
                    detail: "relaxed tracking, local verification, no signing"@,
                },
                ChoiceView {
                    selected: self@.core.preset == 2,
                    label: "Custom"@,
                    detail: "configure each setting individually"@,
                },
            ],
    {
        let p: usize = self.core.preset_selected;
        let a = choice(p == 0, "Team", "strict tracking, CI verification, signing enforced");
        let b = choice(p == 1, "Solo", "relaxed tracking, local verification, no signing");
        let c = choice(p == 2, "Custom", "configure each setting individually");
        let r = vec![a, b, c];
        assert(choices(r@) =~= seq![a@, b@, c@]);
        r
    }

    /// The question about the alias.
    pub fn alias_question(&self) -> (r: String)
        ensures
            r@ == if self@.shell_config_file.len() == 0 {
                "Could not detect shell config file"@
            } else {
                "Install `xl` alias for `crosslink` in "@ + self@.shell_config_file + "?"@
            },
    {
        if self.shell_config_file.as_str().is_empty() {
            own("Could not detect shell config file")
        } else {
            let mut out = own("Install `xl` alias for `crosslink` in ");
            out.append(self.shell_config_file.as_str());
            out.append("?");
            out
        }
    }

    /// The answers to the question about the alias.
    pub fn alias_rows(&self) -> (r: Vec<Choice>)
        ensures
            choices(r@) == seq![
                ChoiceView {
                    selected: self@.alias == 0,
                    label: "Yes"@,
                    detail: "Add alias to shell config"@,
                },
                ChoiceView {
                    selected: self@.alias == 1,
                    label: "No"@,
                    detail: "Skip alias setup"@,
                },
            ],
    {
        let a = choice(self.alias_selected == 0, "Yes", "Add alias to shell config");
        let b = choice(self.alias_selected == 1, "No", "Skip alias setup");
        let r = vec![a, b];
        assert(choices(r@) =~= seq![a@, b@]);
        r
    }

    fn word_of(&self, g: usize, k: usize) -> (r: &'static str)
        requires
            self@.wf(),
            g < self@.core.keys.len(),
            k < self@.core.keys[g as int].len(),
        ensures
            r@ == selected_word(self@, g as int, k as int),
    {
        assert(config_registry::group_ok(
            self@.core.keys[g as int],
            self@.core.selections[g as int],
        ));
        assert(self@.core.keys[g as int][k as int] < REGISTRY_LEN);
        let options = WalkthroughCore::options_for_key(self.core.group_keys[g][k]);
        assert(config_registry::words(options@).len() == options@.len());
        let selected: usize = self.core.group_selections[g][k];
        assert(self@.core.selections[g as int][k as int] < options@.len());
        assert(config_registry::words(options@)[selected as int] == options@[selected as int]@);
        options[selected]
    }

    /// The keys of a group with their selected words.
    pub fn group_rows(&self, g: usize) -> (r: Vec<Choice>)
        requires
            self@.wf(),
            g < self@.core.keys.len(),
        ensures
            choices(r@) == Seq::new(
                self@.core.keys[g as int].len(),
                |k: int| group_row(self@, g as int, k),
            ),
    {
        let ghost all = Seq::new(
            self@.core.keys[g as int].len(),
            |k: int| group_row(self@, g as int, k),
        );
        let mut out: Vec<Choice> = Vec::new();
        let mut k: usize = 0;
        while k < self.core.group_keys[g].len()
            invariant
                self@.wf(),
                g < self@.core.keys.len(),
                k <= self@.core.keys[g as int].len(),
                all == Seq::new(
                    self@.core.keys[g as int].len(),
                    |k: int| group_row(self@, g as int, k),
                ),
                choices(out@) == all.take(k as int),
            decreases self@.core.keys[g as int].len() - k,
        {
            assert(config_registry::group_ok(
                self@.core.keys[g as int],
                self@.core.selections[g as int],
            ));
            assert(self@.core.keys[g as int][k as int] < REGISTRY_LEN);
            let entry = registry_key(self.core.group_keys[g][k]);
            let mut detail = own("[");
            detail.append(self.word_of(g, k));
            detail.append("]");
            let row = Choice {
                selected: k == self.core.group_cursor,
                label: pad_str(entry.key, 30),
                detail,
            };
            let ghost before = out@;
            out.push(row);
            k = k + 1;
            assert(choices(out@) =~= choices(before).push(row@));
            assert(all.take(k as int) =~= all.take(k - 1).push(all[k - 1]));
        }
        assert(all.take(k as int) =~= all);
        out
    }

    /// The text below a group on the focused key.
    pub fn focused_help(&self, g: usize) -> (r: (String, String))
        requires
            self@.wf(),
            self@.core.on_group(),
            g == self@.core.group(),
        ensures
            (r.0@, r.1@) == key_help(self@.core.keys[g as int][self@.core.cursor] as int),
    {
        assert(config_registry::group_ok(
            self@.core.keys[g as int],
            self@.core.selections[g as int],
        ));
        assert(self@.core.keys[g as int][self@.core.cursor] < REGISTRY_LEN);
        let i: usize = self.core.group_keys[g][self.core.group_cursor];
        let entry = registry_key(i);
        let options = WalkthroughCore::options_for_key(i);
        let mut description = own("  ");
        description.append(entry.description);
        let mut valid = String::new();
        assert(config_registry::words(options@).len() == options@.len());
        if options.len() > 1 {
            let mut owned: Vec<String> = Vec::new();
            let mut j: usize = 0;
            while j < options.len()
                invariant
                    j <= options@.len(),
                    text::strs(owned@) == config_registry::words(options@).take(j as int),
                decreases options@.len() - j,
            {
                let ghost before = owned@;
                owned.push(own(options[j]));
                proof {
                    text::lemma_strs_push(before, owned@.last());
                    assert(config_registry::words(options@).take(j + 1)
                        =~= config_registry::words(options@).take(j as int).push(
                        options@[j as int]@,
                    ));
                }
                j = j + 1;
            }
            assert(config_registry::words(options@).take(j as int)
                =~= config_registry::words(options@));
            valid = own("  Valid: ");
            valid.append(join_strs(&owned, ", ").as_str());
        }
        (description, valid)
    }

    /// The lines of the screen that asks for confirmation.
    pub fn confirm_lines(&self) -> (r: Vec<SummaryLine>)
        requires
            self@.wf(),
        ensures
            summary_views(r@) == confirm_summary(self@),
    {
        let mut out: Vec<SummaryLine> = Vec::new();
        let mut g: usize = 0;
        assert(summary_views(out@) =~= Seq::<SummaryView>::empty());
        while g < self.core.group_keys.len()
            invariant
                self@.wf(),
                g <= self@.core.keys.len(),
                summary_views(out@) == groups_summary(self@, g as nat),
            decreases self@.core.keys.len() - g,
        {
            let ghost start = summary_views(out@);
            let ghost before = out@;
            let mut head = own("  ");
            head.append(self.core.group_names[g]);
            out.push(SummaryLine::Group(head));
            assert(summary_views(out@) =~= start + group_summary(self@, g as int, 0)) by {
                assert(summary_views(out@) =~= summary_views(before).push(out@.last()@));
            }
            let mut k: usize = 0;
            while k < self.core.group_keys[g].len()
                invariant
                    self@.wf(),
                    g < self@.core.keys.len(),
                    k <= self@.core.keys[g as int].len(),
                    summary_views(out@) == start + group_summary(self@, g as int, k as nat),
                decreases self@.core.keys[g as int].len() - k,
            {
                assert(config_registry::group_ok(
                    self@.core.keys[g as int],
                    self@.core.selections[g as int],
                ));
                assert(self@.core.keys[g as int][k as int] < REGISTRY_LEN);
                let entry = registry_key(self.core.group_keys[g][k]);
                let mut key = own(entry.key);
                key.append(": ");
                let ghost earlier = out@;
                out.push(SummaryLine::Setting { key, value: own(self.word_of(g, k)) });
                k = k + 1;
                proof {
                    assert(summary_views(out@) =~= summary_views(earlier).push(out@.last()@));
                    assert(start + group_summary(self@, g as int, k as nat) =~= (start
                        + group_summary(self@, g as int, (k - 1) as nat)).push(out@.last()@));
                }
            }
            g = g + 1;
        }
        let ghost before = out@;
        out.push(SummaryLine::Blank);
        let alias_text = if self.alias_selected == 0 {
            let mut line = own("    \u{2713} xl alias: will install (");
            line.append(self.shell_config_file.as_str());
            line.append(")");
            line
        } else {
            own("    \u{2713} xl alias: skip")
        };
        out.push(SummaryLine::Alias(alias_text));
        assert(summary_views(out@) =~= confirm_summary(self@));
        out
    }
}

/// The first screen is that of the presets and the last that of the confirmation; before it comes
/// that of the alias, and between are the groups.
pub proof fn law_screens_come_in_order(w: AppView)
    requires
        w.wf(),
    ensures
        screen_of(w) == Screen::Preset <==> w.core.screen == 0,
        screen_of(w) == Screen::Confirm <==> w.core.screen == w.core.total() - 1,
        screen_of(w) == Screen::Alias <==> w.core.screen == w.core.total() - 2,
        0 < w.core.screen <= w.core.names.len() ==> screen_of(w) == Screen::Group(
            (w.core.screen - 1) as usize,
        ),
{
}

/// Just one mark is the current one: that of the screen which is shown.
pub proof fn law_one_screen_is_current(app: &InitWalkthroughApp, r: Vec<Progress>, i: int)
    requires
        call_ensures(InitWalkthroughApp::progress, (app,), r),
        0 <= i < r@.len(),
    ensures
        r@.len() == app@.core.total(),
        r@[i] == Progress::Current <==> i == app@.core.screen,
        r@[i] == Progress::Done <==> i < app@.core.screen,
        r@[i] == Progress::Ahead <==> i > app@.core.screen,
{
}

/// The presets are named, and the chosen one is marked.
pub proof fn law_chosen_preset_is_marked(app: &InitWalkthroughApp, r: Vec<Choice>, i: int)
    requires
        call_ensures(InitWalkthroughApp::preset_rows, (app,), r),
        0 <= i < r@.len(),
    ensures
        r@.len() == 3,
        r@[i].selected <==> app@.core.preset == i,
        r@[0].label@ == "Team"@,
        r@[1].label@ == "Solo"@,
        r@[2].label@ == "Custom"@,
{
    let views = choices(r@);
    assert(views.len() == r@.len());
    assert(views[0] == r@[0]@ && views[1] == r@[1]@ && views[2] == r@[2]@);
    assert(views[i] == r@[i]@);
}

/// The question about the alias names the file that it would be put into, where one was found, and
/// the chosen answer is marked.
pub proof fn law_alias_is_asked_for(
    app: &InitWalkthroughApp,
    question: String,
    r: Vec<Choice>,
    i: int,
)
    requires
        call_ensures(InitWalkthroughApp::alias_question, (app,), question),
        call_ensures(InitWalkthroughApp::alias_rows, (app,), r),
        0 <= i < r@.len(),
    ensures
        app@.shell_config_file.len() > 0 ==> text::contains(question@, app@.shell_config_file),
        app@.shell_config_file.len() == 0 ==> question@ == "Could not detect shell config file"@,
        r@.len() == 2,
        r@[i].selected <==> app@.alias == i,
        r@[0].label@ == "Yes"@,
        r@[1].label@ == "No"@,
{
    broadcast use {
        text::lemma_contains_self,
        text::lemma_contains_first,
        text::lemma_contains_second,
    };

    let views = choices(r@);
    assert(views.len() == r@.len());
    assert(views[0] == r@[0]@ && views[1] == r@[1]@);
    assert(views[i] == r@[i]@);
}

/// The row of a key shows its name and the word that is selected for it; the focused one is marked.
pub proof fn law_rows_show_the_selected_word(w: AppView, g: int, k: int)
    ensures
        text::has_prefix(
            group_row(w, g, k).label,
            config_registry::registry_entry(w.core.keys[g][k] as int).key,
        ),
        group_row(w, g, k).detail == "["@ + config_registry::key_options(
            w.core.keys[g][k] as int,
        )[w.core.selections[g][k] as int] + "]"@,
        group_row(w, g, k).selected <==> k == w.core.cursor,
{
    broadcast use text::lemma_prefix_of_sum;

}

/// What a key is for is told, and every option where there is a choice.
pub proof fn law_help_tells_the_options(i: int, k: int)
    ensures
        text::has_suffix(key_help(i).0, config_registry::registry_entry(i).description),
        config_registry::key_options(i).len() > 1 && 0 <= k < config_registry::key_options(i).len()
            ==> text::contains(key_help(i).1, config_registry::key_options(i)[k]),
        config_registry::key_options(i).len() <= 1 ==> key_help(i).1.len() == 0,
{
    broadcast use {text::lemma_suffix_of_sum, text::lemma_contains_second};

    let options = config_registry::key_options(i);
    if options.len() > 1 && 0 <= k < options.len() {
        text::law_joined_text_holds_its_parts(options, ", "@, k);
    }
}

proof fn lemma_group_summary(w: AppView, g: int, n: nat, k: int)
    requires
        0 <= k < n,
    ensures
        group_summary(w, g, n).len() == n + 1,
        group_summary(w, g, n)[0] == SummaryView::Group("  "@ + w.core.names[g]),
        group_summary(w, g, n)[k + 1] == (SummaryView::Setting {
            key: config_registry::registry_entry(w.core.keys[g][k] as int).key + ": "@,
            value: selected_word(w, g, k),
        }),
    decreases n,
{
    if k < n - 1 {
        lemma_group_summary(w, g, (n - 1) as nat, k);
    } else if n > 1 {
        lemma_group_summary(w, g, (n - 1) as nat, 0);
    } else {
        assert(group_summary(w, g, 0).len() == 1);
    }
}

proof fn lemma_groups_summary(w: AppView, m: nat, g: int, k: int)
    requires
        0 <= g < m,
        0 <= k < w.core.keys[g].len(),
    ensures
        groups_summary(w, m).contains(
            SummaryView::Setting {
                key: config_registry::registry_entry(w.core.keys[g][k] as int).key + ": "@,
                value: selected_word(w, g, k),
            },
        ),
        groups_summary(w, m).contains(SummaryView::Group("  "@ + w.core.names[g])),
    decreases m,
{
    let head = groups_summary(w, (m - 1) as nat);
    let own = group_summary(w, m - 1, w.core.keys[m - 1].len());
    let all = groups_summary(w, m);
    let line = SummaryView::Setting {
        key: config_registry::registry_entry(w.core.keys[g][k] as int).key + ": "@,
        value: selected_word(w, g, k),
    };
    let name = SummaryView::Group("  "@ + w.core.names[g]);
    if g == m - 1 {
        lemma_group_summary(w, g, w.core.keys[g].len(), k);
        assert(own[k + 1] == line && own[0] == name);
        assert(all[head.len() + k + 1] == line);
        assert(all[head.len() as int] == name);
    } else {
        lemma_groups_summary(w, (m - 1) as nat, g, k);
        let i = choose|i: int| 0 <= i < head.len() && head[i] == line;
        let j = choose|j: int| 0 <= j < head.len() && head[j] == name;
        assert(all[i] == line);
        assert(all[j] == name);
    }
}

/// The confirmation shows every group and every key with the word that is selected for it, and at
/// the end whether the alias is installed, and where.
pub proof fn law_everything_chosen_is_confirmed(w: AppView, g: int, k: int)
    requires
        0 <= g < w.core.keys.len(),
        0 <= k < w.core.keys[g].len(),
    ensures
        confirm_summary(w).contains(
            SummaryView::Setting {
                key: config_registry::registry_entry(w.core.keys[g][k] as int).key + ": "@,
                value: config_registry::key_options(
                    w.core.keys[g][k] as int,
                )[w.core.selections[g][k] as int],
            },
        ),
        confirm_summary(w).contains(SummaryView::Group("  "@ + w.core.names[g])),
        confirm_summary(w).last() matches SummaryView::Alias(line) && (w.alias == 0
            ==> text::contains(line, w.shell_config_file)) && (w.alias != 0 ==> line
            == "    \u{2713} xl alias: skip"@),
{
    broadcast use {
        text::lemma_contains_self,
        text::lemma_contains_first,
        text::lemma_contains_second,
    };

    lemma_groups_summary(w, w.core.keys.len(), g, k);
    let head = groups_summary(w, w.core.keys.len());
    let all = confirm_summary(w);
    let line = SummaryView::Setting {
        key: config_registry::registry_entry(w.core.keys[g][k] as int).key + ": "@,
        value: selected_word(w, g, k),
    };
    let name = SummaryView::Group("  "@ + w.core.names[g]);
    let i = choose|i: int| 0 <= i < head.len() && head[i] == line;
    let j = choose|j: int| 0 <= j < head.len() && head[j] == name;
    assert(all[i] == line);
    assert(all[j] == name);
}

} // verus!
