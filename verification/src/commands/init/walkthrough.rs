//! The walkthrough of `crosslink init`: the configuration screens, and one that
//! offers a shell alias.

use crate::commands::config;
use crate::commands::config::{Config, SettingValue};
use crate::commands::config_registry;
use crate::commands::config_registry::{ConfigValue, WalkView, WalkthroughCore};
use crate::text;
use crate::text::{ends_with, eq_str, lines_of, own, trim_str};
use vstd::prelude::*;

verus! {

/// A key press, as far as the walkthrough tells presses apart.
#[derive(Debug, Clone, Copy, PartialEq, Eq, Structural)]
pub enum Key {
    Up,
    Down,
    Left,
    Right,
    Enter,
    Tab,
    Backspace,
    Esc,
    Char(char),
    Other,
}

/// The walkthrough with its alias screen.
pub struct InitWalkthroughApp {
    pub core: WalkthroughCore,
    /// Shell alias question: 0=Yes, 1=No
    pub alias_selected: usize,
    pub shell_config_file: String,
}

/// The model of the walkthrough with its alias screen.
#[verifier::ext_equal]
pub struct AppView {
    pub core: WalkView,
    pub alias: int,
    pub shell_config_file: Seq<char>,
}

impl View for InitWalkthroughApp {
    type V = AppView;

    open spec fn view(&self) -> AppView {
        AppView {
            core: self.core@,
            alias: self.alias_selected as int,
            shell_config_file: self.shell_config_file@,
        }
    }
}

impl AppView {
    /// The invariant: one screen behind the groups, for the alias.
    pub open spec fn wf(self) -> bool {
        &&& self.core.wf()
        &&& self.core.extra == 1
        &&& 0 <= self.alias <= 1
    }

    pub open spec fn on_alias(self) -> bool {
        self.core.on_extra()
    }

    /// One up.
    pub open spec fn up(self) -> AppView {
        if self.on_alias() {
            AppView { alias: 0, ..self }
        } else {
            AppView { core: self.core.up(), ..self }
        }
    }

    /// One down.
    pub open spec fn down(self) -> AppView {
        if self.on_alias() {
            AppView { alias: 1, ..self }
        } else {
            AppView { core: self.core.down(), ..self }
        }
    }

    /// What a key press does.
    pub open spec fn pressed(self, key: Key) -> AppView {
        let core = self.core;
        match key {
            Key::Up => if core.on_confirm() { self } else { self.up() },
            Key::Down => if core.on_confirm() { self } else { self.down() },
            Key::Right => if core.on_group() {
                AppView { core: core.cycled(), ..self }
            } else {
                self
            },
            Key::Left => if core.on_group() {
                AppView { core: core.cycled_back(), ..self }
            } else {
                self
            },
            Key::Enter => if core.on_group() {
                AppView { core: core.advanced(), ..self }
            } else {
                AppView { core: core.confirmed(), ..self }
            },
            Key::Tab => if core.on_confirm() {
                self
            } else {
                AppView { core: core.confirmed(), ..self }
            },
            Key::Backspace => AppView { core: core.back(), ..self },
            Key::Esc => AppView { core: WalkView { cancelled: true, ..core }, ..self },
            _ => self,
        }
    }

    /// Whether a key press ends the walkthrough.
    pub open spec fn ends(self, key: Key) -> bool {
        key == Key::Esc || (key == Key::Enter && self.pressed(key).core.finished)
    }
}

/// Letters stand for keys: `k` and `j` move, a blank confirms, `q` cancels.
pub open spec fn key_meaning(key: Key) -> Key {
    match key {
        Key::Char(c) => if c == 'k' {
            Key::Up
        } else if c == 'j' {
            Key::Down
        } else if c == ' ' {
            Key::Enter
        } else if c == 'q' {
            Key::Esc
        } else {
            Key::Other
        },
        _ => key,
    }
}

fn meaning_of(key: Key) -> (r: Key)
    ensures
        r == key_meaning(key),
{
    match key {
        Key::Char(c) => if c == 'k' {
            Key::Up
        } else if c == 'j' {
            Key::Down
        } else if c == ' ' {
            Key::Enter
        } else if c == 'q' {
            Key::Esc
        } else {
            Key::Other
        },
        _ => key,
    }
}

// ---------------------------------------------------------------------------
// The shell and its alias
// ---------------------------------------------------------------------------

/// The configuration file of a shell and the line that makes the alias in it, from
/// the value of `SHELL` and the home directory.
pub open spec fn shell_setup(shell: Seq<char>, home: Seq<char>) -> Option<(Seq<char>, Seq<char>)> {
    if text::has_suffix(shell, "fish"@) {
        Some((home + "/.config/fish/config.fish"@, "abbr -a xl crosslink"@))
    } else if text::has_suffix(shell, "zsh"@) {
        Some((home + "/.zshrc"@, "alias xl='crosslink'"@))
    } else if text::has_suffix(shell, "bash"@) {
        Some((home + "/.bashrc"@, "alias xl='crosslink'"@))
    } else {
        None
    }
}

/// Finds the configuration file of a shell and the line that makes the alias.
pub fn detect_shell(shell: &str, home: &str) -> (r: Option<(String, &'static str)>)
    ensures
        match r {
            Some(p) => shell_setup(shell@, home@) == Some((p.0@, p.1@)),
            None => shell_setup(shell@, home@) is None,
        },
{
    let mut file = own(home);
    if ends_with(shell, "fish") {
        file.append("/.config/fish/config.fish");
        Some((file, "abbr -a xl crosslink"))
    } else if ends_with(shell, "zsh") {
        file.append("/.zshrc");
        Some((file, "alias xl='crosslink'"))
    } else if ends_with(shell, "bash") {
        file.append("/.bashrc");
        Some((file, "alias xl='crosslink'"))
    } else {
        None
    }
}

/// Whether a configuration file holds the alias: some line, trimmed, is the line.
pub open spec fn has_alias(content: Seq<char>, alias_line: Seq<char>) -> bool {
    exists|i: int|
        0 <= i < text::lines(content).len() && text::trim(#[trigger] text::lines(content)[i])
            == alias_line
}

/// Looks for the alias line in a configuration file.
pub fn alias_installed(content: &str, alias_line: &str) -> (r: bool)
    ensures
        r == has_alias(content@, alias_line@),
{
    let lines = lines_of(content);
    assert(lines@.len() == text::lines(content@).len());
    let mut i: usize = 0;
    while i < lines.len()
        invariant
            i <= lines.len(),
            text::strs(lines@) == text::lines(content@),
            lines@.len() == text::lines(content@).len(),
            forall|k: int|
                0 <= k < i ==> text::trim(#[trigger] text::lines(content@)[k]) != alias_line@,
        decreases lines.len() - i,
    {
        assert(lines@[i as int]@ == text::lines(content@)[i as int]);
        if eq_str(trim_str(lines[i].as_str()).as_str(), alias_line) {
            return true;
        }
        i = i + 1;
    }
    false
}

/// What is appended to a configuration file to make the alias.
pub open spec fn alias_text(alias_line: Seq<char>) -> Seq<char> {
    "\n# crosslink shortcut\n"@ + alias_line + "\n"@
}

/// What to do about the alias.
#[derive(Debug, Clone, PartialEq, Eq)]
pub enum AliasStep {
    /// The user does not want it.
    Skip,
    /// The shell is not known.
    UnknownShell,
    /// The line is there already.
    AlreadyInstalled,
    /// Append the text to the file.
    Append { file: String, text: String },
}

/// Decides what to do about the alias, from the user's choice, the environment and
/// the content of the shell's configuration file, if it can be read.
pub fn plan_shell_alias(
    install_alias: bool,
    shell: &str,
    home: &str,
    content: Option<&str>,
) -> (r: AliasStep)
    ensures
        match r {
            AliasStep::Skip => !install_alias,
            AliasStep::UnknownShell => install_alias && shell_setup(shell@, home@) is None,
            AliasStep::AlreadyInstalled => install_alias && (shell_setup(shell@, home@) matches Some(
                p,
            ) && (content matches Some(c) && has_alias(c@, p.1))),
            AliasStep::Append { file, text } => install_alias && (shell_setup(
                shell@,
                home@,
            ) matches Some(p) && file@ == p.0 && text@ == alias_text(p.1) && (content matches Some(
                c,
            ) ==> !has_alias(c@, p.1))),
        },
{
    if !install_alias {
        return AliasStep::Skip;
    }
    match detect_shell(shell, home) {
        None => AliasStep::UnknownShell,
        Some((file, alias_line)) => {
            if let Some(c) = content {
                if alias_installed(c, alias_line) {
                    return AliasStep::AlreadyInstalled;
                }
            }
            let mut addition = own("\n# crosslink shortcut\n");
            addition.append(alias_line);
            addition.append("\n");
            AliasStep::Append { file, text: addition }
        },
    }
}

/// Once the alias text has been appended, the alias is found, so that it is never
/// appended twice.
pub proof fn law_alias_is_found_once_appended(content: Seq<char>, shell: Seq<char>, home: Seq<char>)
    requires
        shell_setup(shell, home) is Some,
    ensures
        has_alias(
            content + alias_text((shell_setup(shell, home)->0).1),
            (shell_setup(shell, home)->0).1,
        ),
{
    let line = (shell_setup(shell, home)->0).1;
    let head = content + "\n# crosslink shortcut\n"@;
    let whole = content + alias_text(line);
    reveal_strlit("\n# crosslink shortcut\n");
    reveal_strlit("\n");
    reveal_strlit("abbr -a xl crosslink");
    reveal_strlit("alias xl='crosslink'");
    assert(head.last() == '\n');
    assert("\n"@ =~= seq!['\n']);
    assert(whole =~= head + line + seq!['\n']);
    assert(!line.contains('\n'));
    text::lemma_lines_push(head, line);
    let n = text::lines(head).len() as int;
    assert(text::lines(whole)[n] == line);
    assert(!text::is_ws(line[0]) && !text::is_ws(line.last()));
    assert(text::trim(text::lines(whole)[n]) == line);
}

// ---------------------------------------------------------------------------
// The walkthrough
// ---------------------------------------------------------------------------

/// The user's choices at the end of the walkthrough.
#[derive(Debug, Clone, PartialEq, Eq)]
pub struct TuiChoices {
    pub values: Vec<(String, ConfigValue)>,
    pub install_alias: bool,
}

/// The model of an app at its start.
pub open spec fn start_alias(
    shell: Seq<char>,
    home: Seq<char>,
    content: Option<Seq<char>>,
) -> int {
    match (shell_setup(shell, home), content) {
        (Some(p), Some(c)) => if has_alias(c, p.1) { 1 } else { 0 },
        _ => 0,
    }
}

impl InitWalkthroughApp {
    /// Starts the walkthrough from a configuration and the environment: the value
    /// of `SHELL`, the home directory, and the content of the shell's configuration
    /// file where it can be read. The alias is offered unless it is there already.
    pub fn new(
        existing: &Vec<(String, ConfigValue)>,
        shell: &str,
        home: &str,
        shell_config: Option<&str>,
    ) -> (r: Self)
        ensures
            r@.wf(),
            config_registry::is_start(r@.core, existing@, 1),
            r@.alias == start_alias(shell@, home@, text::opt_view(shell_config)),
            r@.shell_config_file == match shell_setup(shell@, home@) {
                Some(p) => p.0,
                None => Seq::empty(),
            },
    {
        let core = WalkthroughCore::new(existing, 1);
        match detect_shell(shell, home) {
            Some((file, alias_line)) => {
                let mut alias_selected: usize = 0;
                if let Some(c) = shell_config {
                    if alias_installed(c, alias_line) {
                        alias_selected = 1;
                    }
                }
                InitWalkthroughApp { core, alias_selected, shell_config_file: file }
            },
            None => InitWalkthroughApp {
                core,
                alias_selected: 0,
                shell_config_file: String::new(),
            },
        }
    }

    pub fn is_alias_screen(&self) -> (r: bool)
        requires
            self@.wf(),
        ensures
            r == self@.on_alias(),
    {
        self.core.extra_screen_idx().is_some()
    }

    pub fn move_up(&mut self)
        requires
            old(self)@.wf(),
        ensures
            final(self)@ == old(self)@.up(),
            final(self)@.wf(),
    {
        if self.is_alias_screen() {
            self.alias_selected = 0;
        } else {
            self.core.move_up();
        }
    }

    pub fn move_down(&mut self)
        requires
            old(self)@.wf(),
        ensures
            final(self)@ == old(self)@.down(),
            final(self)@.wf(),
    {
        if self.is_alias_screen() {
            self.alias_selected = 1;
        } else {
            self.core.move_down();
        }
    }

    /// Handles a key press. The result says whether the walkthrough is over.
    pub fn handle_key(&mut self, key: Key) -> (done: bool)
        requires
            old(self)@.wf(),
        ensures
            final(self)@ == old(self)@.pressed(key_meaning(key)),
            final(self)@.wf(),
            done == old(self)@.ends(key_meaning(key)),
    {
        match meaning_of(key) {
            Key::Up => {
                if !self.core.is_confirm_screen() {
                    self.move_up();
                }
                false
            },
            Key::Down => {
                if !self.core.is_confirm_screen() {
                    self.move_down();
                }
                false
            },
            Key::Right => {
                if self.core.current_group_idx().is_some() {
                    self.core.cycle_value();
                }
                false
            },
            Key::Left => {
                if self.core.current_group_idx().is_some() {
                    self.core.cycle_value_back();
                }
                false
            },
            Key::Enter => {
                if self.core.current_group_idx().is_some() {
                    self.core.advance();
                } else {
                    self.core.confirm();
                }
                self.core.finished
            },
            Key::Tab => {
                if !self.core.is_confirm_screen() {
                    self.core.confirm();
                }
                false
            },
            Key::Backspace => {
                self.core.go_back();
                false
            },
            Key::Esc => {
                self.core.cancelled = true;
                true
            },
            _ => false,
        }
    }

    /// The user's choices.
    pub fn build_choices(&self) -> (r: TuiChoices)
        requires
            self@.wf(),
        ensures
            config_registry::value_views(r.values@) == config_registry::chosen_config(
                self@.core,
                self@.core.keys.len(),
            ),
            r.install_alias == (self@.alias == 0),
    {
        TuiChoices { values: self.core.build_config(), install_alias: self.alias_selected == 0 }
    }

    /// The outcome of a walkthrough that is over: its choices, or an error where the
    /// user cancelled it.
    pub fn outcome(&self) -> (r: Result<TuiChoices, String>)
        requires
            self@.wf(),
        ensures
            match r {
                Ok(c) => !self@.core.cancelled && config_registry::value_views(c.values@)
                    == config_registry::chosen_config(self@.core, self@.core.keys.len())
                    && c.install_alias == (self@.alias == 0),
                Err(e) => self@.core.cancelled && e@ == "Setup cancelled"@,
            },
    {
        if self.core.cancelled {
            Err(own("Setup cancelled"))
        } else {
            Ok(self.build_choices())
        }
    }
}

/// A cancelled walkthrough changes no selection: escaping leaves all but the mark as
/// it was.
pub proof fn law_cancelling_changes_no_choice(w: AppView)
    ensures
        w.pressed(Key::Esc).core.selections == w.core.selections,
        w.pressed(Key::Esc).alias == w.alias,
        w.pressed(Key::Esc).core.cancelled,
        w.ends(Key::Esc),
{
}

// ---------------------------------------------------------------------------
// Taking the choices over
// ---------------------------------------------------------------------------

/// A configured value as the walkthrough takes it.
pub open spec fn taken(value: config::ValueView) -> config_registry::ValueView {
    match value {
        config::ValueView::Flag(b) => config_registry::ValueView::Bool(b),
        config::ValueView::Text(t) => config_registry::ValueView::Text(t),
        _ => config_registry::ValueView::Other,
    }
}

/// The settings of a configuration as the walkthrough takes them.
pub fn walkthrough_values(settings: &Config) -> (r: Vec<(String, ConfigValue)>)
    ensures
        config_registry::value_views(r@) == Seq::new(
            settings@.len(),
            |i: int| (settings@[i].0, taken(settings@[i].1)),
        ),
{
    let ghost all = Seq::new(
        settings@.len(),
        |i: int| (settings@[i].0, taken(settings@[i].1)),
    );
    let mut out: Vec<(String, ConfigValue)> = Vec::new();
    let mut i: usize = 0;
    while i < settings.entries.len()
        invariant
            i <= settings.entries@.len(),
            all == Seq::new(
                settings@.len(),
                |i: int| (settings@[i].0, taken(settings@[i].1)),
            ),
            config_registry::value_views(out@) == all.take(i as int),
        decreases settings.entries@.len() - i,
    {
        let entry = &settings.entries[i];
        let value = match &entry.value {
            SettingValue::Flag(b) => ConfigValue::Bool(*b),
            SettingValue::Text(t) => ConfigValue::Text(own(t.as_str())),
            _ => ConfigValue::Other,
        };
        let ghost before = out@;
        let ghost shown = (entry.key@, value@);
        out.push((own(entry.key.as_str()), value));
        proof {
            assert(config_registry::value_views(out@) =~= config_registry::value_views(before).push(
                shown,
            ));
            assert(all.take(i + 1) =~= all.take(i as int).push(shown));
        }
        i = i + 1;
    }
    assert(all.take(all.len() as int) =~= all);
    out
}

/// A chosen value as it is configured.
pub open spec fn setting_of(value: config_registry::ValueView) -> config::ValueView {
    match value {
        config_registry::ValueView::Bool(b) => config::ValueView::Flag(b),
        config_registry::ValueView::Text(t) => config::ValueView::Text(t),
        config_registry::ValueView::Other => config::ValueView::Other("null"@),
    }
}

/// A configuration with the first `n` choices put in.
pub open spec fn applied(
    settings: Seq<(Seq<char>, config::ValueView)>,
    values: Seq<(Seq<char>, config_registry::ValueView)>,
    n: nat,
) -> Seq<(Seq<char>, config::ValueView)>
    decreases n,
{
    if n == 0 {
        settings
    } else {
        config::put(
            applied(settings, values, (n - 1) as nat),
            values[n - 1].0,
            setting_of(values[n - 1].1),
        )
    }
}

/// Puts the user's choices into a configuration; `None` stands for one that is no
/// object.
pub fn apply_tui_choices(settings: Option<Config>, choices: &TuiChoices) -> (r: Result<
    Config,
    String,
>)
    requires
        forall|i: int|
            0 <= i < choices.values@.len() ==> !((#[trigger] choices.values@[i]).1 is Other),
    ensures
        match (settings, r) {
            (None, Err(e)) => e@ == "hook-config.json is not a JSON object"@,
            (Some(c), Ok(n)) => n@ == applied(
                c@,
                config_registry::value_views(choices.values@),
                choices.values@.len(),
            ),
            _ => false,
        },
{
    let mut out = match settings {
        Some(c) => c,
        None => {
            return Err(own("hook-config.json is not a JSON object"));
        },
    };
    let ghost start = out@;
    let ghost views = config_registry::value_views(choices.values@);
    let mut i: usize = 0;
    while i < choices.values.len()
        invariant
            i <= choices.values@.len(),
            views == config_registry::value_views(choices.values@),
            out@ == applied(start, views, i as nat),
            forall|k: int|
                0 <= k < choices.values@.len() ==> !((#[trigger] choices.values@[k]).1 is Other),
        decreases choices.values@.len() - i,
    {
        assert(views[i as int] == (choices.values@[i as int].0@, choices.values@[i as int].1@));
        assert(!(choices.values@[i as int].1 is Other));
        let value = match &choices.values[i].1 {
            ConfigValue::Bool(b) => SettingValue::Flag(*b),
            ConfigValue::Text(t) => SettingValue::Text(own(t.as_str())),
            ConfigValue::Other => SettingValue::Other(own("null")),
        };
        out = out.with(choices.values[i].0.as_str(), value);
        i = i + 1;
    }
    Ok(out)
}

/// Letters stand for keys, and keys for themselves.
pub proof fn law_letters_stand_for_keys(key: Key, c: char)
    ensures
        key_meaning(Key::Char('k')) == Key::Up,
        key_meaning(Key::Char('j')) == Key::Down,
        key_meaning(Key::Char(' ')) == Key::Enter,
        key_meaning(Key::Char('q')) == Key::Esc,
        !(key is Char) ==> key_meaning(key) == key,
        c != 'k' && c != 'j' && c != ' ' && c != 'q' ==> key_meaning(Key::Char(c)) == Key::Other,
{
}

/// On the screen of the alias up chooses it and down does not; elsewhere neither touches that
/// choice. A key without meaning changes nothing.
pub proof fn law_alias_is_chosen_on_its_screen(w: AppView, key: Key)
    requires
        w.wf(),
    ensures
        w.on_alias() ==> w.pressed(Key::Up).alias == 0 && w.pressed(Key::Down).alias == 1,
        w.on_alias() ==> w.pressed(Key::Up).core == w.core && w.pressed(Key::Down).core == w.core,
        !w.on_alias() ==> w.pressed(key).alias == w.alias,
        w.pressed(Key::Other) == w,
        w.core.on_confirm() ==> w.pressed(Key::Up) == w && w.pressed(Key::Down) == w
            && w.pressed(Key::Tab) == w,
        w.pressed(key).shell_config_file == w.shell_config_file,
{
}

/// Left and right change the focused key of a group and nothing elsewhere; backspace leads back,
/// and enter through the keys of a group and on.
pub proof fn law_keys_do_what_they_show(w: AppView)
    requires
        w.wf(),
    ensures
        w.core.on_group() ==> w.pressed(Key::Right).pressed(Key::Left) == w,
        !w.core.on_group() ==> w.pressed(Key::Right) == w && w.pressed(Key::Left) == w,
        w.core.screen > 0 ==> w.pressed(Key::Backspace).core.screen < w.core.screen,
        w.core.screen == 0 ==> w.pressed(Key::Backspace) == w,
        w.core.on_group() && w.core.cursor + 1 < w.core.keys[w.core.group()].len() ==> w.pressed(
            Key::Enter,
        ).core.cursor == w.core.cursor + 1 && w.pressed(Key::Enter).core.screen == w.core.screen,
        w.core.on_group() && w.core.cursor + 1 == w.core.keys[w.core.group()].len() ==> w.pressed(
            Key::Enter,
        ).core.screen == w.core.screen + 1,
        w.core.on_confirm() ==> w.pressed(Key::Enter).core.finished && w.ends(Key::Enter),
        !w.core.on_confirm() && !w.core.finished ==> !w.ends(Key::Enter),
        !w.ends(Key::Up) && !w.ends(Key::Down) && !w.ends(Key::Backspace),
{
    config_registry::law_cycling_back_undoes_cycling(w.core);
}

/// Each shell has its own configuration file below the home directory, and fish its own way to make
/// an alias; for a shell that is not known there is none.
pub proof fn law_shells_have_their_file(shell: Seq<char>, home: Seq<char>)
    ensures
        text::has_suffix(shell, "fish"@) ==> (shell_setup(shell, home) matches Some(p) && p.0 == home
            + "/.config/fish/config.fish"@ && p.1 == "abbr -a xl crosslink"@),
        shell_setup(shell, home) matches Some(p) ==> text::has_prefix(p.0, home),
        shell_setup(shell, home) is Some <==> text::has_suffix(shell, "fish"@) || text::has_suffix(
            shell,
            "zsh"@,
        ) || text::has_suffix(shell, "bash"@),
        shell_setup("/bin/zsh"@, home) == Some((home + "/.zshrc"@, "alias xl='crosslink'"@)),
        shell_setup("/bin/bash"@, home) == Some((home + "/.bashrc"@, "alias xl='crosslink'"@)),
{
    broadcast use text::lemma_prefix_of_sum;

    reveal_strlit("fish");
    reveal_strlit("zsh");
    reveal_strlit("bash");
    reveal_strlit("/bin/zsh");
    reveal_strlit("/bin/bash");
    assert("/bin/zsh"@.skip(5) =~= "zsh"@);
    assert("/bin/zsh"@.skip(4)[0] != "fish"@[0]);
    assert("/bin/bash"@.skip(5) =~= "bash"@);
    assert("/bin/bash"@.skip(5)[0] != "fish"@[0]);
    assert("/bin/bash"@.skip(6)[0] != "zsh"@[0]);
}

/// An alias is appended exactly where it is wanted, the shell is known and the line is not there
/// yet, to the file of that shell.
pub proof fn law_aliases_are_appended_once(
    install_alias: bool,
    shell: &str,
    home: &str,
    content: Option<&str>,
    r: AliasStep,
)
    requires
        call_ensures(plan_shell_alias, (install_alias, shell, home, content), r),
    ensures
        r is Skip <==> !install_alias,
        r is UnknownShell <==> install_alias && shell_setup(shell@, home@) is None,
        r is AlreadyInstalled <==> install_alias && shell_setup(shell@, home@) is Some && (
        content matches Some(c) && has_alias(c@, (shell_setup(shell@, home@)->0).1)),
        r matches AliasStep::Append { file, text } ==> file@ == (shell_setup(
            shell@,
            home@,
        )->0).0 && text::contains(text@, (shell_setup(shell@, home@)->0).1 + "\n"@),
{
    broadcast use text::lemma_contains_pair;

}

/// The alias is offered unless it is there already.
pub proof fn law_alias_is_offered(shell: Seq<char>, home: Seq<char>, content: Seq<char>)
    ensures
        start_alias(shell, home, None) == 0,
        shell_setup(shell, home) matches Some(p) ==> (start_alias(shell, home, Some(content)) == 1
            <==> has_alias(content, p.1)),
{
}

/// A walkthrough that was not cancelled gives its choices; a cancelled one gives none.
pub proof fn law_cancelled_walkthroughs_give_nothing(
    app: &InitWalkthroughApp,
    r: Result<TuiChoices, String>,
)
    requires
        call_ensures(InitWalkthroughApp::outcome, (app,), r),
    ensures
        r is Err <==> app@.core.cancelled,
        r matches Ok(c) ==> (c.install_alias <==> app@.alias == 0),
{
}

/// Flags and texts are taken over as they are, and put back as they were.
pub proof fn law_values_are_taken_over(b: bool, t: Seq<char>)
    ensures
        taken(config::ValueView::Flag(b)) == config_registry::ValueView::Bool(b),
        taken(config::ValueView::Text(t)) == config_registry::ValueView::Text(t),
        setting_of(taken(config::ValueView::Flag(b))) == config::ValueView::Flag(b),
        setting_of(taken(config::ValueView::Text(t))) == config::ValueView::Text(t),
{
}

/// Every choice is in the configuration afterwards, the last one where a key was chosen twice; what
/// was not chosen stays as it was.
pub proof fn law_choices_are_put_in(
    settings: Seq<(Seq<char>, config::ValueView)>,
    values: Seq<(Seq<char>, config_registry::ValueView)>,
    n: nat,
    k: int,
    other: Seq<char>,
)
    requires
        n <= values.len(),
    ensures
        0 <= k < n && (forall|j: int| k < j < n ==> (#[trigger] values[j]).0 != values[k].0)
            ==> config::lookup(applied(settings, values, n), values[k].0) == Some(
            setting_of(values[k].1),
        ),
        (forall|j: int| 0 <= j < n ==> (#[trigger] values[j]).0 != other) ==> config::lookup(
            applied(settings, values, n),
            other,
        ) == config::lookup(settings, other),
    decreases n,
{
    if n > 0 {
        law_choices_are_put_in(settings, values, (n - 1) as nat, k, other);
        let before = applied(settings, values, (n - 1) as nat);
        let last = values[n - 1];
        config::law_put_is_found(before, last.0, setting_of(last.1), other);
        if 0 <= k < n - 1 {
            config::law_put_is_found(before, last.0, setting_of(last.1), values[k].0);
        }
    }
}

} // verus!
