//! Setting up a repository: what is written where, and what is said of it.

use crate::assistant::Assistant;
use crate::commands::context;
use crate::commands::init::python;
use crate::commands::init::python::{
    build_install_candidates, build_source_candidate, detect_python_prefix, InstallCandidate,
    Markers, RunOutcome, CPITD_REPO_URL,
};
use crate::paths;
use crate::paths::join_path;
use crate::text;
use crate::text::{join_strs, own, own_opt, replace_str, starts_with, trim_str};
use vstd::prelude::*;

verus! {

/// What stands for the invocation of Python in the template of the settings.
pub const PYTHON_PREFIX_PLACEHOLDER: &'static str = "__PYTHON_PREFIX__";

/// What git is told to leave out of the configuration directory.
pub const GITIGNORE: &'static str = "# Multi-agent collaboration (machine-local)\nagent.json\n.hub-cache/\nkeys/\n\n# Machine-local hook overrides\nhook-config.local.json\n";

/// The rule files.
pub open spec fn rule_files() -> Seq<Seq<char>> {
    Seq::new(context::RULE_FILES as nat, |i: int| context::rule_file(i))
}

/// The rule files.
pub fn rule_file_names() -> (r: Vec<&'static str>)
    ensures
        text::words(r@) == rule_files(),
{
    let mut r: Vec<&'static str> = Vec::new();
    let mut i: usize = 0;
    while i < context::RULE_FILES
        invariant
            i <= context::RULE_FILES,
            r@.len() == i,
            forall|k: int| 0 <= k < i ==> (#[trigger] r@[k])@ == context::rule_file(k),
        decreases context::RULE_FILES - i,
    {
        r.push(context::rule_file_at(i));
        i = i + 1;
    }
    assert(text::words(r@) =~= rule_files());
    r
}

/// The hook scripts.
pub open spec fn hook_files() -> Seq<Seq<char>> {
    seq![
        "prompt-guard.py"@,
        "post-edit-check.py"@,
        "session-start.py"@,
        "pre-web-check.py"@,
        "work-check.py"@,
        "crosslink_config.py"@,
    ]
}

/// The hook scripts.
pub fn hook_file_names() -> (r: Vec<&'static str>)
    ensures
        text::words(r@) == hook_files(),
{
    let r = vec![
        "prompt-guard.py",
        "post-edit-check.py",
        "session-start.py",
        "pre-web-check.py",
        "work-check.py",
        "crosslink_config.py",
    ];
    assert(text::words(r@) =~= hook_files());
    r
}

/// The slash commands.
pub open spec fn command_files() -> Seq<Seq<char>> {
    seq![
        "workflow.md"@,
        "feature.md"@,
        "featree.md"@,
        "kickoff.md"@,
        "check.md"@,
        "commit.md"@,
    ]
}

/// The slash commands.
pub fn command_file_names() -> (r: Vec<&'static str>)
    ensures
        text::words(r@) == command_files(),
{
    let r = vec![
        "workflow.md",
        "feature.md",
        "featree.md",
        "kickoff.md",
        "check.md",
        "commit.md",
    ];
    assert(text::words(r@) =~= command_files());
    r
}

/// What is asked for.
pub struct InitOpts<'a> {
    pub path: &'a str,
    pub force: bool,
    pub python_prefix: Option<&'a str>,
    pub skip_cpitd: bool,
    pub skip_signing: bool,
    pub signing_key: Option<&'a str>,
    pub assistant: Assistant<'a>,
}

/// What is there already.
pub struct Layout {
    /// `.crosslink`.
    pub crosslink: bool,
    /// The directory of the assistant's settings.
    pub assistant: bool,
    /// `.crosslink/hook-config.json`.
    pub hook_config: bool,
    /// `.crosslink/.gitignore`.
    pub gitignore: bool,
    /// `.crosslink/rules`.
    pub rules: bool,
    pub markers: Markers,
}

/// A step of the setup. One that fails ends the setup, with the message that it holds.
pub enum Step {
    /// Print the text.
    Say(String),
    /// Create the directory.
    MakeDir { path: String, failure: String },
    /// Open the database, creating it.
    OpenDatabase(String),
    /// Write the content to the file.
    Write { path: String, content: String, failure: String },
    /// Write the shipped resource of this name to the file.
    Deploy { resource: String, path: String, failure: String },
    /// Put the shipped tool servers into the file.
    MergeServers { path: String, failure: String },
    /// Install the clone detector with this Python.
    InstallCpitd(String),
    /// Set up the driver's signing key in the repository.
    SetUpSigning { root: String, key: Option<String> },
}

/// The model of a step.
#[verifier::ext_equal]
pub enum StepView {
    Say(Seq<char>),
    MakeDir { path: Seq<char>, failure: Seq<char> },
    OpenDatabase(Seq<char>),
    Write { path: Seq<char>, content: Seq<char>, failure: Seq<char> },
    Deploy { resource: Seq<char>, path: Seq<char>, failure: Seq<char> },
    MergeServers { path: Seq<char>, failure: Seq<char> },
    InstallCpitd(Seq<char>),
    SetUpSigning { root: Seq<char>, key: Option<Seq<char>> },
}

impl View for Step {
    type V = StepView;

    open spec fn view(&self) -> StepView {
        match self {
            Step::Say(s) => StepView::Say(s@),
            Step::MakeDir { path, failure } => StepView::MakeDir { path: path@, failure: failure@ },
            Step::OpenDatabase(path) => StepView::OpenDatabase(path@),
            Step::Write { path, content, failure } => StepView::Write {
                path: path@,
                content: content@,
                failure: failure@,
            },
            Step::Deploy { resource, path, failure } => StepView::Deploy {
                resource: resource@,
                path: path@,
                failure: failure@,
            },
            Step::MergeServers { path, failure } => StepView::MergeServers {
                path: path@,
                failure: failure@,
            },
            Step::InstallCpitd(prefix) => StepView::InstallCpitd(prefix@),
            Step::SetUpSigning { root, key } => StepView::SetUpSigning {
                root: root@,
                key: text::opt_str(*key),
            },
        }
    }
}

/// The views of steps.
pub open spec fn step_views(v: Seq<Step>) -> Seq<StepView> {
    v.map_values(|s: Step| s@)
}

/// How Python is invoked: as was asked for, or as the project shows.
pub open spec fn prefix_of(opts: InitOpts, layout: Layout) -> Seq<char> {
    match opts.python_prefix {
        Some(p) => p@,
        None => python::python_prefix(layout.markers, false),
    }
}

/// The steps that deploy the first `n` of some files, each under its name.
pub open spec fn deployments(
    names: Seq<Seq<char>>,
    resources: Seq<char>,
    dir: Seq<char>,
    n: nat,
) -> Seq<StepView>
    decreases n,
{
    if n == 0 {
        Seq::empty()
    } else {
        deployments(names, resources, dir, (n - 1) as nat).push(
            StepView::Deploy {
                resource: resources + names[n - 1],
                path: paths::joined(dir, names[n - 1]),
                failure: "Failed to write "@ + names[n - 1],
            },
        )
    }
}

/// The steps that create the configuration directory.
pub open spec fn directory_steps(dir: Seq<char>, layout: Layout) -> Seq<StepView> {
    if layout.crosslink {
        Seq::empty()
    } else {
        seq![
            StepView::MakeDir { path: dir, failure: "Failed to create .crosslink directory"@ },
            StepView::OpenDatabase(paths::joined(dir, "issues.db"@)),
            StepView::Say("Created "@ + dir + "\n"@),
        ]
    }
}

/// The steps that configure the hooks.
pub open spec fn hook_config_steps(dir: Seq<char>, force: bool, layout: Layout) -> Seq<StepView> {
    if layout.hook_config && !force {
        Seq::empty()
    } else {
        seq![
            StepView::Deploy {
                resource: "hook-config.json"@,
                path: paths::joined(dir, "hook-config.json"@),
                failure: "Failed to write hook-config.json"@,
            },
        ]
    }
}

/// The steps that tell git what to leave out.
pub open spec fn gitignore_steps(dir: Seq<char>, force: bool, layout: Layout) -> Seq<StepView> {
    if layout.gitignore && !force {
        Seq::empty()
    } else {
        seq![
            StepView::Write {
                path: paths::joined(dir, ".gitignore"@),
                content: GITIGNORE@,
                failure: "Failed to write .crosslink/.gitignore"@,
            },
        ]
    }
}

/// The steps that write the rules.
pub open spec fn rule_steps(dir: Seq<char>, force: bool, layout: Layout) -> Seq<StepView> {
    let rules = paths::joined(dir, "rules"@);
    if layout.rules && !force {
        Seq::empty()
    } else {
        seq![
            StepView::MakeDir {
                path: rules,
                failure: "Failed to create .crosslink/rules directory"@,
            },
        ] + deployments(rule_files(), "rules/"@, rules, rule_files().len()) + seq![
            StepView::Say(
                if force && layout.rules {
                    "Updated "@ + rules + " with latest rules\n"@
                } else {
                    "Created "@ + rules + " with default rules\n"@
                },
            ),
        ]
    }
}

/// The steps that set the assistant up: settings, hooks, tool server and commands.
pub open spec fn assistant_steps(
    path: Seq<char>,
    force: bool,
    layout: Layout,
    settings: Seq<char>,
    prefix: Seq<char>,
    assistant: Assistant,
) -> Seq<StepView> {
    let dir = paths::joined(path, assistant.dir@);
    let hooks = paths::joined(dir, "hooks"@);
    let mcp = paths::joined(dir, "mcp"@);
    let commands = paths::joined(dir, "commands"@);
    if layout.assistant && !force {
        Seq::empty()
    } else {
        seq![
            StepView::MakeDir {
                path: hooks,
                failure: "Failed to create "@ + assistant.dir@ + "/hooks directory"@,
            },
            StepView::Write {
                path: paths::joined(dir, "settings.json"@),
                content: text::replace(settings, PYTHON_PREFIX_PLACEHOLDER@, prefix),
                failure: "Failed to write settings.json"@,
            },
        ] + deployments(hook_files(), "hooks/"@, hooks, hook_files().len()) + seq![
            StepView::MakeDir { path: mcp, failure: "Failed to create "@ + assistant.dir@ + "/mcp directory"@ },
            StepView::Deploy {
                resource: "mcp/safe-fetch-server.py"@,
                path: paths::joined(mcp, "safe-fetch-server.py"@),
                failure: "Failed to write safe-fetch-server.py"@,
            },
            StepView::MakeDir {
                path: commands,
                failure: "Failed to create "@ + assistant.dir@ + "/commands directory"@,
            },
        ] + deployments(command_files(), "commands/"@, commands, command_files().len())
            + seq![
            StepView::MergeServers {
                path: paths::joined(path, ".mcp.json"@),
                failure: "Failed to write .mcp.json"@,
            },
            StepView::Say(
                if force && layout.assistant {
                    "Updated "@ + dir + " with latest hooks\n"@
                } else {
                    "Created "@ + dir + " with "@ + assistant.title@ + " hooks\n"@
                },
            ),
        ]
    }
}

/// The steps that come last.
pub open spec fn closing_steps(opts: InitOpts, prefix: Seq<char>) -> Seq<StepView> {
    (if opts.skip_cpitd {
        Seq::empty()
    } else {
        seq![StepView::InstallCpitd(prefix)]
    }) + (if opts.skip_signing {
        Seq::empty()
    } else {
        seq![
            StepView::SetUpSigning { root: opts.path@, key: text::opt_view(opts.signing_key) },
        ]
    }) + seq![
        StepView::Say(
            "Crosslink initialized successfully!\n\nNext steps:\n  crosslink session start     # Start a session\n  crosslink create \"Task\"     # Create an issue\n"@,
        ),
    ]
}

/// The steps of a setup. A repository that is set up already is left alone, unless the
/// setup is forced.
pub open spec fn setup_steps(opts: InitOpts, layout: Layout, settings: Seq<char>) -> Seq<StepView> {
    let dir = paths::joined(opts.path@, ".crosslink"@);
    let prefix = prefix_of(opts, layout);
    if layout.crosslink && layout.assistant && !opts.force {
        seq![
            StepView::Say(
                "Already initialized at "@ + opts.path@
                    + "\nUse --force to update hooks to latest version.\n"@,
            ),
        ]
    } else {
        directory_steps(dir, layout) + hook_config_steps(dir, opts.force, layout) + gitignore_steps(
            dir,
            opts.force,
            layout,
        ) + rule_steps(dir, opts.force, layout) + assistant_steps(
            opts.path@,
            opts.force,
            layout,
            settings,
            prefix,
            opts.assistant,
        ) + closing_steps(opts, prefix)
    }
}

fn three(a: &str, b: &str, c: &str) -> (r: String)
    ensures
        r@ == a@ + b@ + c@,
{
    let mut out = own(a);
    out.append(b);
    out.append(c);
    out
}

fn add_step(out: &mut Vec<Step>, step: Step)
    ensures
        step_views(final(out)@) == step_views(old(out)@).push(step@),
{
    let ghost before = out@;
    out.push(step);
    assert(step_views(out@) =~= step_views(before).push(step@));
}

fn add_directory(out: &mut Vec<Step>, path: String, failure: &str)
    ensures
        step_views(final(out)@) == step_views(old(out)@).push(
            StepView::MakeDir { path: path@, failure: failure@ },
        ),
{
    add_step(out, Step::MakeDir { path, failure: own(failure) });
}

fn add_resource(out: &mut Vec<Step>, resource: &str, path: String, failure: &str)
    ensures
        step_views(final(out)@) == step_views(old(out)@).push(
            StepView::Deploy { resource: resource@, path: path@, failure: failure@ },
        ),
{
    add_step(out, Step::Deploy { resource: own(resource), path, failure: own(failure) });
}

fn add_deployments(out: &mut Vec<Step>, names: &Vec<&'static str>, resources: &str, dir: &str)
    ensures
        step_views(final(out)@) == step_views(old(out)@) + deployments(
            text::words(names@),
            resources@,
            dir@,
            names@.len(),
        ),
{
    let ghost start = step_views(out@);
    let ghost all = text::words(names@);
    let mut i: usize = 0;
    assert(start + deployments(all, resources@, dir@, 0) =~= start);
    while i < names.len()
        invariant
            i <= names@.len(),
            all == text::words(names@),
            step_views(out@) == start + deployments(all, resources@, dir@, i as nat),
        decreases names@.len() - i,
    {
        let name = names[i];
        assert(all[i as int] == name@);
        let mut resource = own(resources);
        resource.append(name);
        let mut failure = own("Failed to write ");
        failure.append(name);
        add_step(out, Step::Deploy { resource, path: join_path(dir, name), failure });
        assert(start + deployments(all, resources@, dir@, (i + 1) as nat) =~= step_views(out@));
        i = i + 1;
    }
}

fn add_rules(out: &mut Vec<Step>, dir: &str, force: bool, layout: &Layout)
    ensures
        step_views(final(out)@) == step_views(old(out)@) + rule_steps(dir@, force, *layout),
{
    let ghost start = step_views(out@);
    if !layout.rules || force {
        let rules = join_path(dir, "rules");
        let names = rule_file_names();
        add_directory(
            out,
            own(rules.as_str()),
            "Failed to create .crosslink/rules directory",
        );
        add_deployments(out, &names, "rules/", rules.as_str());
        let said = if force && layout.rules {
            three("Updated ", rules.as_str(), " with latest rules\n")
        } else {
            three("Created ", rules.as_str(), " with default rules\n")
        };
        add_step(out, Step::Say(said));
        assert(names@.len() == rule_files().len());
    }
    assert(step_views(out@) =~= start + rule_steps(dir@, force, *layout));
}

fn made(assistant: Assistant, part: &str) -> (r: String)
    ensures
        r@ == "Failed to create "@ + assistant.dir@ + part@,
{
    three("Failed to create ", assistant.dir, part)
}

fn add_assistant(
    out: &mut Vec<Step>,
    path: &str,
    force: bool,
    layout: &Layout,
    settings: &str,
    prefix: &str,
    assistant: Assistant,
)
    ensures
        step_views(final(out)@) == step_views(old(out)@) + assistant_steps(
            path@,
            force,
            *layout,
            settings@,
            prefix@,
            assistant,
        ),
{
    let ghost start = step_views(out@);
    if !layout.assistant || force {
        let dir = join_path(path, assistant.dir);
        let hooks = join_path(dir.as_str(), "hooks");
        let mcp = join_path(dir.as_str(), "mcp");
        let commands = join_path(dir.as_str(), "commands");
        let hook_names = hook_file_names();
        let command_names = command_file_names();
        proof {
            reveal_strlit("__PYTHON_PREFIX__");
        }
        add_directory(out, own(hooks.as_str()), made(assistant, "/hooks directory").as_str());
        add_step(
            out,
            Step::Write {
                path: join_path(dir.as_str(), "settings.json"),
                content: replace_str(settings, PYTHON_PREFIX_PLACEHOLDER, prefix),
                failure: own("Failed to write settings.json"),
            },
        );
        add_deployments(out, &hook_names, "hooks/", hooks.as_str());
        add_directory(out, own(mcp.as_str()), made(assistant, "/mcp directory").as_str());
        add_resource(
            out,
            "mcp/safe-fetch-server.py",
            join_path(mcp.as_str(), "safe-fetch-server.py"),
            "Failed to write safe-fetch-server.py",
        );
        add_directory(out, own(commands.as_str()), made(assistant, "/commands directory").as_str());
        add_deployments(out, &command_names, "commands/", commands.as_str());
        add_step(
            out,
            Step::MergeServers {
                path: join_path(path, ".mcp.json"),
                failure: own("Failed to write .mcp.json"),
            },
        );
        let said = if force && layout.assistant {
            three("Updated ", dir.as_str(), " with latest hooks\n")
        } else {
            let mut said = three("Created ", dir.as_str(), " with ");
            said.append(assistant.title);
            said.append(" hooks\n");
            said
        };
        add_step(out, Step::Say(said));
        assert(hook_names@.len() == hook_files().len());
        assert(command_names@.len() == command_files().len());
    }
    assert(step_views(out@) =~= start + assistant_steps(
        path@,
        force,
        *layout,
        settings@,
        prefix@,
        assistant,
    ));
}

fn add_directory_steps(out: &mut Vec<Step>, dir: &str, layout: &Layout)
    ensures
        step_views(final(out)@) == step_views(old(out)@) + directory_steps(dir@, *layout),
{
    let ghost start = step_views(out@);
    if !layout.crosslink {
        add_directory(out, own(dir), "Failed to create .crosslink directory");
        add_step(out, Step::OpenDatabase(join_path(dir, "issues.db")));
        add_step(out, Step::Say(three("Created ", dir, "\n")));
    }
    assert(step_views(out@) =~= start + directory_steps(dir@, *layout));
}

fn add_hook_config(out: &mut Vec<Step>, dir: &str, force: bool, layout: &Layout)
    ensures
        step_views(final(out)@) == step_views(old(out)@) + hook_config_steps(dir@, force, *layout),
{
    let ghost start = step_views(out@);
    if !layout.hook_config || force {
        add_resource(
            out,
            "hook-config.json",
            join_path(dir, "hook-config.json"),
            "Failed to write hook-config.json",
        );
    }
    assert(step_views(out@) =~= start + hook_config_steps(dir@, force, *layout));
}

fn add_gitignore(out: &mut Vec<Step>, dir: &str, force: bool, layout: &Layout)
    ensures
        step_views(final(out)@) == step_views(old(out)@) + gitignore_steps(dir@, force, *layout),
{
    let ghost start = step_views(out@);
    if !layout.gitignore || force {
        add_step(
            out,
            Step::Write {
                path: join_path(dir, ".gitignore"),
                content: own(GITIGNORE),
                failure: own("Failed to write .crosslink/.gitignore"),
            },
        );
    }
    assert(step_views(out@) =~= start + gitignore_steps(dir@, force, *layout));
}

fn add_closing(out: &mut Vec<Step>, opts: &InitOpts, prefix: &str)
    ensures
        step_views(final(out)@) == step_views(old(out)@) + closing_steps(*opts, prefix@),
{
    let ghost start = step_views(out@);
    if !opts.skip_cpitd {
        add_step(out, Step::InstallCpitd(own(prefix)));
    }
    if !opts.skip_signing {
        add_step(
            out,
            Step::SetUpSigning { root: own(opts.path), key: own_opt(opts.signing_key) },
        );
    }
    add_step(
        out,
        Step::Say(
            own(
                "Crosslink initialized successfully!\n\nNext steps:\n  crosslink session start     # Start a session\n  crosslink create \"Task\"     # Create an issue\n",
            ),
        ),
    );
    assert(step_views(out@) =~= start + closing_steps(*opts, prefix@));
}

/// The steps of a setup, in their order: the configuration directory, the hooks'
/// configuration, the rules, the assistant's settings with Python's invocation put in,
/// the clone detector and the signing key. A repository that is set up already is left
/// alone, unless the setup is forced.
pub fn run(opts: &InitOpts, layout: &Layout, settings: &str) -> (r: Vec<Step>)
    ensures
        step_views(r@) == setup_steps(*opts, *layout, settings@),
{
    let mut out: Vec<Step> = Vec::new();
    if layout.crosslink && layout.assistant && !opts.force {
        add_step(
            &mut out,
            Step::Say(
                three(
                    "Already initialized at ",
                    opts.path,
                    "\nUse --force to update hooks to latest version.\n",
                ),
            ),
        );
        assert(step_views(out@) =~= setup_steps(*opts, *layout, settings@));
        return out;
    }
    let dir = join_path(opts.path, ".crosslink");
    add_directory_steps(&mut out, dir.as_str(), layout);
    add_hook_config(&mut out, dir.as_str(), opts.force, layout);
    add_gitignore(&mut out, dir.as_str(), opts.force, layout);
    add_rules(&mut out, dir.as_str(), opts.force, layout);
    let prefix = match opts.python_prefix {
        Some(p) => own(p),
        None => detect_python_prefix(&layout.markers, false),
    };
    add_assistant(
        &mut out,
        opts.path,
        opts.force,
        layout,
        settings,
        prefix.as_str(),
        opts.assistant,
    );
    add_closing(&mut out, opts, prefix.as_str());
    assert(step_views(out@) =~= setup_steps(*opts, *layout, settings@));
    out
}

// ---------------------------------------------------------------------------
// The clone detector
// ---------------------------------------------------------------------------

/// What the installation of the clone detector waits for.
#[derive(Debug, Clone, Copy, PartialEq, Eq, Structural)]
pub enum CpitdStage {
    /// Whether it is there already.
    Probe,
    /// The published package.
    Package,
    /// The clone of the source.
    Cloning,
    /// The installation of the clone.
    Source,
    /// Nothing more.
    Done,
}

/// What came of the last action.
pub enum CpitdEvent {
    /// Whether the clone detector was found.
    Found(bool),
    /// What came of the command.
    Ran(RunOutcome),
}

/// What is to be done next, after the text is printed.
pub enum CpitdAction {
    /// Run the command.
    Run(InstallCandidate),
    /// Clone the source of this address into the directory, which is emptied before.
    Clone(String, String),
    /// All is done. The directory is removed where the flag says so.
    Finish(bool),
}

/// The model of an action.
#[verifier::ext_equal]
pub enum CpitdActionView {
    Run(python::CandidateView),
    Clone(Seq<char>, Seq<char>),
    Finish(bool),
}

impl View for CpitdAction {
    type V = CpitdActionView;

    open spec fn view(&self) -> CpitdActionView {
        match self {
            CpitdAction::Run(candidate) => CpitdActionView::Run(candidate@),
            CpitdAction::Clone(url, dir) => CpitdActionView::Clone(url@, dir@),
            CpitdAction::Finish(clean) => CpitdActionView::Finish(*clean),
        }
    }
}

/// What a step gives: what is waited for, what is printed, and what is to be done next.
#[verifier::ext_equal]
pub struct CpitdStepView {
    pub stage: CpitdStage,
    pub say: Seq<char>,
    pub action: CpitdActionView,
}

/// The prefix that the commands are chosen by. A virtual environment is known by its
/// path with slashes only; with backslashes the system's Python is taken.
pub open spec fn command_prefix(prefix: Seq<char>) -> Seq<char> {
    if text::has_prefix(prefix, ".venv\\"@) {
        "python3"@
    } else {
        prefix
    }
}

/// The command that installs the published package.
pub open spec fn package_command(prefix: Seq<char>) -> python::CandidateView {
    python::candidates(command_prefix(prefix), false).last()
}

/// The command that installs a clone of the source.
pub open spec fn source_command(prefix: Seq<char>, dir: Seq<char>) -> python::CandidateView {
    python::source_candidate(command_prefix(prefix), dir)
}

/// What is said of an installation that failed.
pub open spec fn install_warning(why: Seq<char>) -> Seq<char> {
    "Warning: Could not auto-install cpitd: "@ + why
        + "\n  You can install it manually: pip install cpitd\n"@
}

/// Why an install command failed.
pub open spec fn command_failure(c: python::CandidateView, outcome: RunOutcome) -> Seq<char> {
    match outcome {
        RunOutcome::NotStarted(_) => "Failed to run "@ + c.program + " "@ + text::join(c.args, " "@),
        RunOutcome::Failed(stderr) => "cpitd install failed: "@ + text::trim(stderr@),
        RunOutcome::Succeeded => ""@,
    }
}

/// Why the clone of the source failed.
pub open spec fn clone_failure(outcome: RunOutcome) -> Seq<char> {
    match outcome {
        RunOutcome::NotStarted(_) => "Failed to run git clone for cpitd"@,
        RunOutcome::Failed(stderr) => "git clone failed: "@ + text::trim(stderr@),
        RunOutcome::Succeeded => ""@,
    }
}

/// Whether an event is one that the installation waits for.
pub open spec fn cpitd_expects(stage: CpitdStage, event: CpitdEvent) -> bool {
    match event {
        CpitdEvent::Found(_) => stage == CpitdStage::Probe,
        CpitdEvent::Ran(_) => stage == CpitdStage::Package || stage == CpitdStage::Cloning || stage
            == CpitdStage::Source,
    }
}

/// What is said of an installation that worked.
pub open spec fn installed_line() -> Seq<char> {
    "Installed cpitd (code clone detection)\n"@
}

/// The installation ends.
pub open spec fn cpitd_ended(say: Seq<char>, clean: bool) -> CpitdStepView {
    CpitdStepView { stage: CpitdStage::Done, say, action: CpitdActionView::Finish(clean) }
}

/// A step of the installation: the published package first, and where that fails, the
/// source.
pub open spec fn cpitd_step(
    stage: CpitdStage,
    prefix: Seq<char>,
    dir: Seq<char>,
    event: CpitdEvent,
) -> CpitdStepView {
    match event {
        CpitdEvent::Found(found) => if found {
            cpitd_ended(""@, false)
        } else {
            CpitdStepView {
                stage: CpitdStage::Package,
                say: ""@,
                action: CpitdActionView::Run(package_command(prefix)),
            }
        },
        CpitdEvent::Ran(outcome) => match stage {
            CpitdStage::Package => if outcome is Succeeded {
                cpitd_ended(installed_line(), false)
            } else {
                CpitdStepView {
                    stage: CpitdStage::Cloning,
                    say: "  PyPI install failed, trying install from source...\n"@,
                    action: CpitdActionView::Clone(CPITD_REPO_URL@, dir),
                }
            },
            CpitdStage::Cloning => if outcome is Succeeded {
                CpitdStepView {
                    stage: CpitdStage::Source,
                    say: ""@,
                    action: CpitdActionView::Run(source_command(prefix, dir)),
                }
            } else {
                cpitd_ended(install_warning(clone_failure(outcome)), outcome is Failed)
            },
            _ => if outcome is Succeeded {
                cpitd_ended(installed_line(), true)
            } else {
                cpitd_ended(
                    install_warning(command_failure(source_command(prefix, dir), outcome)),
                    true,
                )
            },
        },
    }
}

fn commands_prefix(prefix: &str) -> (r: &str)
    ensures
        r@ == command_prefix(prefix@),
{
    if starts_with(prefix, ".venv\\") {
        "python3"
    } else {
        prefix
    }
}

/// The command that installs the published package.
pub fn install_cpitd_from_pypi(python_prefix: &str) -> (r: InstallCandidate)
    ensures
        r@ == package_command(python_prefix@),
{
    let prefix = commands_prefix(python_prefix);
    let mut all = build_install_candidates(prefix, false);
    let ghost views = python::candidate_views(all@);
    assert(views == python::candidates(prefix@, false));
    assert(views.len() > 0);
    assert(all@.last()@ == views.last());
    match all.pop() {
        Some(c) => c,
        None => InstallCandidate { program: String::new(), args: Vec::new() },
    }
}

/// The command that installs a clone of the source.
pub fn install_cpitd_from_source(python_prefix: &str, dir: &str) -> (r: InstallCandidate)
    ensures
        r@ == source_command(python_prefix@, dir@),
{
    build_source_candidate(commands_prefix(python_prefix), dir)
}

fn warn(why: String) -> (r: String)
    ensures
        r@ == install_warning(why@),
{
    three(
        "Warning: Could not auto-install cpitd: ",
        why.as_str(),
        "\n  You can install it manually: pip install cpitd\n",
    )
}

fn why_not_run(candidate: &InstallCandidate, outcome: &RunOutcome) -> (r: String)
    ensures
        r@ == command_failure(candidate@, *outcome),
{
    match outcome {
        RunOutcome::NotStarted(_) => {
            let mut out = own("Failed to run ");
            out.append(candidate.program.as_str());
            out.append(" ");
            out.append(join_strs(&candidate.args, " ").as_str());
            out
        },
        RunOutcome::Failed(stderr) => {
            let mut out = own("cpitd install failed: ");
            out.append(trim_str(stderr.as_str()).as_str());
            out
        },
        RunOutcome::Succeeded => own(""),
    }
}

fn why_not_cloned(outcome: &RunOutcome) -> (r: String)
    ensures
        r@ == clone_failure(*outcome),
{
    match outcome {
        RunOutcome::NotStarted(_) => own("Failed to run git clone for cpitd"),
        RunOutcome::Failed(stderr) => {
            let mut out = own("git clone failed: ");
            out.append(trim_str(stderr.as_str()).as_str());
            out
        },
        RunOutcome::Succeeded => own(""),
    }
}

/// Takes in what came of the last action of the installation; says what is waited for,
/// what is printed and what is to be done next.
pub fn advance_cpitd(
    stage: CpitdStage,
    python_prefix: &str,
    dir: &str,
    event: &CpitdEvent,
) -> (r: (CpitdStage, String, CpitdAction))
    requires
        cpitd_expects(stage, *event),
    ensures
        (CpitdStepView { stage: r.0, say: r.1@, action: r.2@ }) == cpitd_step(
            stage,
            python_prefix@,
            dir@,
            *event,
        ),
{
    match event {
        CpitdEvent::Found(found) => if *found {
            (CpitdStage::Done, own(""), CpitdAction::Finish(false))
        } else {
            (
                CpitdStage::Package,
                own(""),
                CpitdAction::Run(install_cpitd_from_pypi(python_prefix)),
            )
        },
        CpitdEvent::Ran(outcome) => {
            let succeeded = matches!(outcome, RunOutcome::Succeeded);
            match stage {
                CpitdStage::Package => if succeeded {
                    (
                        CpitdStage::Done,
                        own("Installed cpitd (code clone detection)\n"),
                        CpitdAction::Finish(false),
                    )
                } else {
                    (
                        CpitdStage::Cloning,
                        own("  PyPI install failed, trying install from source...\n"),
                        CpitdAction::Clone(own(CPITD_REPO_URL), own(dir)),
                    )
                },
                CpitdStage::Cloning => if succeeded {
                    (
                        CpitdStage::Source,
                        own(""),
                        CpitdAction::Run(install_cpitd_from_source(python_prefix, dir)),
                    )
                } else {
                    let clean = matches!(outcome, RunOutcome::Failed(_));
                    (
                        CpitdStage::Done,
                        warn(why_not_cloned(outcome)),
                        CpitdAction::Finish(clean),
                    )
                },
                _ => if succeeded {
                    (
                        CpitdStage::Done,
                        own("Installed cpitd (code clone detection)\n"),
                        CpitdAction::Finish(true),
                    )
                } else {
                    let candidate = install_cpitd_from_source(python_prefix, dir);
                    (
                        CpitdStage::Done,
                        warn(why_not_run(&candidate, outcome)),
                        CpitdAction::Finish(true),
                    )
                },
            }
        },
    }
}

// ---------------------------------------------------------------------------
// Laws
// ---------------------------------------------------------------------------

/// A repository that is set up already is left alone: the only step says so.
pub proof fn law_initialized_repository_is_left_alone(
    opts: InitOpts,
    layout: Layout,
    settings: Seq<char>,
)
    requires
        layout.crosslink,
        layout.assistant,
        !opts.force,
    ensures
        setup_steps(opts, layout, settings).len() == 1,
        setup_steps(opts, layout, settings)[0] is Say,
{
}

proof fn lemma_deployments(
    names: Seq<Seq<char>>,
    resources: Seq<char>,
    dir: Seq<char>,
    n: nat,
    i: int,
)
    requires
        0 <= i < n <= names.len(),
    ensures
        deployments(names, resources, dir, n).len() == n,
        deployments(names, resources, dir, n)[i] == (StepView::Deploy {
            resource: resources + names[i],
            path: paths::joined(dir, names[i]),
            failure: "Failed to write "@ + names[i],
        }),
    decreases n,
{
    if i < n - 1 {
        lemma_deployments(names, resources, dir, (n - 1) as nat, i);
    } else if n > 1 {
        lemma_deployments(names, resources, dir, (n - 1) as nat, 0);
    } else {
        assert(deployments(names, resources, dir, 0).len() == 0);
    }
}

/// A forced setup writes every rule file anew, whatever is there.
pub proof fn law_forced_setup_restores_rules(
    opts: InitOpts,
    layout: Layout,
    settings: Seq<char>,
    i: int,
)
    requires
        opts.force,
        0 <= i < rule_files().len(),
    ensures
        setup_steps(opts, layout, settings).contains(
            StepView::Deploy {
                resource: "rules/"@ + rule_files()[i],
                path: paths::joined(
                    paths::joined(paths::joined(opts.path@, ".crosslink"@), "rules"@),
                    rule_files()[i],
                ),
                failure: "Failed to write "@ + rule_files()[i],
            },
        ),
{
    let dir = paths::joined(opts.path@, ".crosslink"@);
    let rules = paths::joined(dir, "rules"@);
    let n = rule_files().len();
    let before = directory_steps(dir, layout) + hook_config_steps(dir, opts.force, layout)
        + gitignore_steps(dir, opts.force, layout);
    let steps = rule_steps(dir, opts.force, layout);
    lemma_deployments(rule_files(), "rules/"@, rules, n, i);
    assert(steps[i + 1] == deployments(rule_files(), "rules/"@, rules, n)[i]);
    let all = setup_steps(opts, layout, settings);
    assert(all[before.len() + i + 1] == steps[i + 1]);
}

/// A setup that is not left out takes every step of each of its parts, and ends with the closing
/// ones.
pub proof fn law_setups_take_every_step(
    opts: InitOpts,
    layout: Layout,
    settings: Seq<char>,
    step: StepView,
)
    requires
        !layout.crosslink || !layout.assistant || opts.force,
    ensures
        ({
            let dir = paths::joined(opts.path@, ".crosslink"@);
            let all = setup_steps(opts, layout, settings);
            let closing = closing_steps(opts, prefix_of(opts, layout));
            &&& directory_steps(dir, layout).contains(step) ==> all.contains(step)
            &&& hook_config_steps(dir, opts.force, layout).contains(step) ==> all.contains(step)
            &&& gitignore_steps(dir, opts.force, layout).contains(step) ==> all.contains(step)
            &&& rule_steps(dir, opts.force, layout).contains(step) ==> all.contains(step)
            &&& assistant_steps(
                opts.path@,
                opts.force,
                layout,
                settings,
                prefix_of(opts, layout),
                opts.assistant,
            ).contains(step) ==> all.contains(step)
            &&& closing.contains(step) ==> all.contains(step)
            &&& all.len() >= closing.len() && all.skip(all.len() - closing.len()) == closing
        }),
{
    let dir = paths::joined(opts.path@, ".crosslink"@);
    let prefix = prefix_of(opts, layout);
    let a = directory_steps(dir, layout);
    let b = hook_config_steps(dir, opts.force, layout);
    let c = gitignore_steps(dir, opts.force, layout);
    let d = rule_steps(dir, opts.force, layout);
    let e = assistant_steps(opts.path@, opts.force, layout, settings, prefix, opts.assistant);
    let f = closing_steps(opts, prefix);
    let all = setup_steps(opts, layout, settings);
    assert(all == a + b + c + d + e + f);
    lemma_in_sum(a + b + c + d + e, f, step);
    lemma_in_sum(a + b + c + d, e, step);
    lemma_in_sum(a + b + c, d, step);
    lemma_in_sum(a + b, c, step);
    lemma_in_sum(a, b, step);
    assert(all.skip(all.len() - f.len()) =~= f);
}

proof fn lemma_in_sum(a: Seq<StepView>, b: Seq<StepView>, step: StepView)
    ensures
        a.contains(step) || b.contains(step) ==> (a + b).contains(step),
{
    if a.contains(step) {
        let i = choose|i: int| 0 <= i < a.len() && a[i] == step;
        assert((a + b)[i] == step);
    }
    if b.contains(step) {
        let i = choose|i: int| 0 <= i < b.len() && b[i] == step;
        assert((a + b)[a.len() + i] == step);
    }
}

/// A configuration directory that is missing is made, with its database in it; one that is there is
/// not made again.
pub proof fn law_missing_directories_are_made(dir: Seq<char>, layout: Layout)
    ensures
        layout.crosslink ==> directory_steps(dir, layout).len() == 0,
        !layout.crosslink ==> {
            let steps = directory_steps(dir, layout);
            &&& steps.len() == 3
            &&& steps[0] matches StepView::MakeDir { path, .. } && path == dir
            &&& steps[1] == StepView::OpenDatabase(paths::joined(dir, "issues.db"@))
            &&& steps[2] matches StepView::Say(say) && text::contains(say, "Created "@ + dir)
        },
{
    broadcast use {text::lemma_contains_self, text::lemma_contains_first};

}

/// The configuration of the hooks, what git leaves out and the rules are written where they are
/// missing, and anew by force; otherwise they are left as they are.
pub proof fn law_files_are_written_where_missing(dir: Seq<char>, force: bool, layout: Layout)
    ensures
        layout.hook_config && !force <==> hook_config_steps(dir, force, layout).len() == 0,
        !layout.hook_config || force ==> (hook_config_steps(
            dir,
            force,
            layout,
        )[0] matches StepView::Deploy { resource, path, .. } && resource == "hook-config.json"@
            && path == paths::joined(dir, "hook-config.json"@)),
        layout.gitignore && !force <==> gitignore_steps(dir, force, layout).len() == 0,
        !layout.gitignore || force ==> (gitignore_steps(
            dir,
            force,
            layout,
        )[0] matches StepView::Write { path, content, .. } && path == paths::joined(
            dir,
            ".gitignore"@,
        ) && content == GITIGNORE@),
        layout.rules && !force <==> rule_steps(dir, force, layout).len() == 0,
        !layout.rules || force ==> (rule_steps(dir, force, layout)[0] matches StepView::MakeDir {
            path,
            ..
        } && path == paths::joined(dir, "rules"@)),
        !layout.rules || force ==> rule_steps(dir, force, layout).len() == rule_files().len() + 2,
{
    let rules = paths::joined(dir, "rules"@);
    lemma_deployments(rule_files(), "rules/"@, rules, rule_files().len(), 0);
}

/// What keeps secrets and what belongs to one machine is left out by git.
pub proof fn law_machine_files_are_left_out()
    ensures
        text::contains(GITIGNORE@, "\nagent.json\n"@),
        text::contains(GITIGNORE@, "\n.hub-cache/\n"@),
        text::contains(GITIGNORE@, "\nkeys/\n"@),
        text::contains(GITIGNORE@, "\nhook-config.local.json\n"@),
{
    reveal_strlit(
        "# Multi-agent collaboration (machine-local)\nagent.json\n.hub-cache/\nkeys/\n\n# Machine-local hook overrides\nhook-config.local.json\n",
    );
    reveal_strlit("\nagent.json\n");
    reveal_strlit("\n.hub-cache/\n");
    reveal_strlit("\nkeys/\n");
    reveal_strlit("\nhook-config.local.json\n");
    assert(GITIGNORE@.subrange(43, 55) =~= "\nagent.json\n"@);
    assert(text::occurs_at(GITIGNORE@, "\nagent.json\n"@, 43));
    assert(GITIGNORE@.subrange(54, 67) =~= "\n.hub-cache/\n"@);
    assert(text::occurs_at(GITIGNORE@, "\n.hub-cache/\n"@, 54));
    assert(GITIGNORE@.subrange(66, 73) =~= "\nkeys/\n"@);
    assert(text::occurs_at(GITIGNORE@, "\nkeys/\n"@, 66));
    assert(GITIGNORE@.subrange(104, 128) =~= "\nhook-config.local.json\n"@);
    assert(text::occurs_at(GITIGNORE@, "\nhook-config.local.json\n"@, 104));
}

/// The assistant is set up where it is not yet, and anew by force: its settings are written with
/// Python's invocation put in, every hook and every command is deployed, and the tool servers are
/// merged.
pub proof fn law_assistants_are_set_up(
    path: Seq<char>,
    force: bool,
    layout: Layout,
    settings: Seq<char>,
    prefix: Seq<char>,
    assistant: Assistant,
    i: int,
)
    ensures
        ({
            let steps = assistant_steps(path, force, layout, settings, prefix, assistant);
            let dir = paths::joined(path, assistant.dir@);
            &&& layout.assistant && !force <==> steps.len() == 0
            &&& !layout.assistant || force ==> {
                &&& steps.contains(
                    StepView::Write {
                        path: paths::joined(dir, "settings.json"@),
                        content: text::replace(settings, "__PYTHON_PREFIX__"@, prefix),
                        failure: "Failed to write settings.json"@,
                    },
                )
                &&& 0 <= i < hook_files().len() ==> steps.contains(
                    StepView::Deploy {
                        resource: "hooks/"@ + hook_files()[i],
                        path: paths::joined(paths::joined(dir, "hooks"@), hook_files()[i]),
                        failure: "Failed to write "@ + hook_files()[i],
                    },
                )
                &&& 0 <= i < command_files().len() ==> steps.contains(
                    StepView::Deploy {
                        resource: "commands/"@ + command_files()[i],
                        path: paths::joined(paths::joined(dir, "commands"@), command_files()[i]),
                        failure: "Failed to write "@ + command_files()[i],
                    },
                )
                &&& steps.contains(
                    StepView::MergeServers {
                        path: paths::joined(path, ".mcp.json"@),
                        failure: "Failed to write .mcp.json"@,
                    },
                )
            }
        }),
{
    let steps = assistant_steps(path, force, layout, settings, prefix, assistant);
    let dir = paths::joined(path, assistant.dir@);
    let hooks = paths::joined(dir, "hooks"@);
    let commands = paths::joined(dir, "commands"@);
    if !layout.assistant || force {
        let h = hook_files().len();
        let c = command_files().len();
        lemma_deployments(hook_files(), "hooks/"@, hooks, h, 0);
        lemma_deployments(command_files(), "commands/"@, commands, c, 0);
        assert(steps[1] == (StepView::Write {
            path: paths::joined(dir, "settings.json"@),
            content: text::replace(settings, "__PYTHON_PREFIX__"@, prefix),
            failure: "Failed to write settings.json"@,
        }));
        if 0 <= i < h {
            lemma_deployments(hook_files(), "hooks/"@, hooks, h, i);
            assert(steps[2 + i] == deployments(hook_files(), "hooks/"@, hooks, h)[i]);
        }
        if 0 <= i < c {
            lemma_deployments(command_files(), "commands/"@, commands, c, i);
            assert(steps[5 + h + i] == deployments(command_files(), "commands/"@, commands, c)[i]);
        }
        assert(steps[5 + h as int + c] == (StepView::MergeServers {
            path: paths::joined(path, ".mcp.json"@),
            failure: "Failed to write .mcp.json"@,
        }));
    }
}

/// The clone detector is installed and signing is set up unless they are skipped; signing uses the
/// key that was asked for.
pub proof fn law_skipped_steps_are_not_taken(opts: InitOpts, prefix: Seq<char>)
    ensures
        closing_steps(opts, prefix).contains(StepView::InstallCpitd(prefix)) <==> !opts.skip_cpitd,
        closing_steps(opts, prefix).contains(
            StepView::SetUpSigning { root: opts.path@, key: text::opt_view(opts.signing_key) },
        ) <==> !opts.skip_signing,
        closing_steps(opts, prefix).len() == 1 + (if opts.skip_cpitd {
            0int
        } else {
            1
        }) + (if opts.skip_signing {
            0int
        } else {
            1
        }),
        closing_steps(opts, prefix).last() is Say,
{
    let steps = closing_steps(opts, prefix);
    let signing = StepView::SetUpSigning {
        root: opts.path@,
        key: text::opt_view(opts.signing_key),
    };
    if !opts.skip_cpitd {
        assert(steps[0] == StepView::InstallCpitd(prefix));
    }
    if !opts.skip_signing {
        assert(steps[if opts.skip_cpitd {
            0int
        } else {
            1
        }] == signing);
    }
}

/// Python is invoked as was asked for; where nothing was asked for, as the project shows.
pub proof fn law_python_is_invoked_as_asked(opts: InitOpts, layout: Layout)
    ensures
        opts.python_prefix matches Some(p) ==> prefix_of(opts, layout) == p@,
        opts.python_prefix is None ==> prefix_of(opts, layout) == python::python_prefix(
            layout.markers,
            false,
        ),
{
}

/// A clone detector that is there is not installed. The published package comes first; only where
/// it cannot be installed the source is cloned, and installed once it is. What worked is told.
pub proof fn law_packages_come_before_the_source(
    prefix: Seq<char>,
    dir: Seq<char>,
    outcome: RunOutcome,
)
    ensures
        cpitd_step(CpitdStage::Probe, prefix, dir, CpitdEvent::Found(true)).action
            == CpitdActionView::Finish(false),
        cpitd_step(CpitdStage::Probe, prefix, dir, CpitdEvent::Found(false)).action
            == CpitdActionView::Run(package_command(prefix)),
        ({
            let next = cpitd_step(CpitdStage::Package, prefix, dir, CpitdEvent::Ran(outcome));
            &&& outcome is Succeeded ==> next.action == CpitdActionView::Finish(false) && next.say
                == "Installed cpitd (code clone detection)\n"@
            &&& !(outcome is Succeeded) ==> (next.action matches CpitdActionView::Clone(_, to) && to
                == dir)
        }),
        ({
            let next = cpitd_step(CpitdStage::Cloning, prefix, dir, CpitdEvent::Ran(outcome));
            &&& outcome is Succeeded ==> next.action == CpitdActionView::Run(
                source_command(prefix, dir),
            )
            &&& !(outcome is Succeeded) ==> next.action is Finish
        }),
        ({
            let next = cpitd_step(CpitdStage::Source, prefix, dir, CpitdEvent::Ran(outcome));
            &&& next.action == CpitdActionView::Finish(true)
            &&& outcome is Succeeded <==> next.say == "Installed cpitd (code clone detection)\n"@
        }),
{
    reveal_strlit("Installed cpitd (code clone detection)\n");
    reveal_strlit("Warning: Could not auto-install cpitd: ");
    let why = command_failure(source_command(prefix, dir), outcome);
    assert(install_warning(why)[0] == 'W');
    assert("Installed cpitd (code clone detection)\n"@[0] == 'I');
}

/// What git or the install command complained of is told.
pub proof fn law_failed_installs_are_explained(prefix: Seq<char>, dir: Seq<char>, stderr: String)
    ensures
        text::contains(
            cpitd_step(
                CpitdStage::Cloning,
                prefix,
                dir,
                CpitdEvent::Ran(RunOutcome::Failed(stderr)),
            ).say,
            "git clone failed: "@ + text::trim(stderr@),
        ),
        text::contains(
            cpitd_step(
                CpitdStage::Source,
                prefix,
                dir,
                CpitdEvent::Ran(RunOutcome::Failed(stderr)),
            ).say,
            "cpitd install failed: "@ + text::trim(stderr@),
        ),
{
    broadcast use {
        text::lemma_contains_self,
        text::lemma_contains_first,
        text::lemma_contains_second,
    };

}

} // verus!
