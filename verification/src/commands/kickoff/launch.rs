//! Launching an agent, step by step.
//!
//! A launch alternates decisions with work on the machine. It tells what is to be
//! done next, is told what came of it, and decides again. Nothing is created before
//! the pre-flight check has passed, and a dry run starts no agent.

use crate::assistant::Assistant;
use crate::commands::kickoff::container;
use crate::commands::kickoff::container::{container_args, runtime_name};
use crate::commands::kickoff::conventions;
use crate::commands::kickoff::conventions::{
    build_allowed_tools, build_allowed_tools_plan, detect_conventions,
};
use crate::commands::kickoff::naming;
use crate::commands::kickoff::naming::{
    child_agent_id, cut_bytes, rand_suffix, suffix_session_name, tmux_session_name, try_slugify,
};
use crate::commands::kickoff::options::{ContainerMode, KickoffOpts, PlanOpts, VerifyLevel};
use crate::commands::kickoff::platform;
use crate::commands::kickoff::platform::{preflight_check, Platform};
use crate::commands::kickoff::prompt;
use crate::commands::kickoff::prompt::{build_plan_prompt, build_prompt};
use crate::commands::kickoff::watchdog;
use crate::commands::kickoff::watchdog::{
    build_agent_command, build_watchdog_script, read_watchdog_config,
};
use crate::paths;
use crate::paths::join_path;
use crate::text;
use crate::text::{dec_i64, own, strip_prefix, trim_str};
use vstd::prelude::*;

verus! {

// ---------------------------------------------------------------------------
// What is asked for
// ---------------------------------------------------------------------------

/// What an agent is launched for: to implement a feature, or to analyze a design.
pub enum Request<'a> {
    Feature(&'a KickoffOpts<'a>),
    Analysis(&'a PlanOpts<'a>),
}

impl<'a> Request<'a> {
    /// Whether nothing is to be launched.
    pub open spec fn is_dry(&self) -> bool {
        match self {
            Request::Feature(opts) => opts.dry_run,
            Request::Analysis(opts) => opts.dry_run,
        }
    }

    /// Whether only the name of the session or container is to be printed.
    pub open spec fn is_quiet(&self) -> bool {
        match self {
            Request::Feature(opts) => opts.quiet,
            Request::Analysis(opts) => opts.quiet,
        }
    }

    /// The issue that is given, where one is.
    pub open spec fn given_issue(&self) -> Option<i64> {
        match self {
            Request::Feature(opts) => opts.issue,
            Request::Analysis(opts) => opts.issue,
        }
    }

    /// The branch that is given, where one is.
    pub open spec fn given_branch(&self) -> Option<Seq<char>> {
        match self {
            Request::Feature(opts) => text::opt_view(opts.branch),
            Request::Analysis(_) => None,
        }
    }

    /// Where the agent runs. An analysis runs locally.
    pub open spec fn place(&self) -> ContainerMode {
        match self {
            Request::Feature(opts) => opts.container,
            Request::Analysis(_) => ContainerMode::Local,
        }
    }

    /// How far the work is verified. An analysis changes nothing.
    pub open spec fn level(&self) -> VerifyLevel {
        match self {
            Request::Feature(opts) => opts.verify,
            Request::Analysis(_) => VerifyLevel::Local,
        }
    }

    /// The assistant that the agent runs.
    pub open spec fn assistant(&self) -> Assistant<'a> {
        match self {
            Request::Feature(opts) => opts.assistant,
            Request::Analysis(opts) => opts.assistant,
        }
    }

    /// The model of the agent.
    pub open spec fn wanted_model(&self) -> Seq<char> {
        match self {
            Request::Feature(opts) => opts.model@,
            Request::Analysis(opts) => opts.model@,
        }
    }

    /// The seconds that the agent has.
    pub open spec fn limit(&self) -> nat {
        match self {
            Request::Feature(opts) => opts.timeout as nat,
            Request::Analysis(opts) => opts.timeout as nat,
        }
    }

    /// The file that the agent starts from.
    pub open spec fn prompt_file(&self) -> Seq<char> {
        match self {
            Request::Feature(_) => "KICKOFF.md"@,
            Request::Analysis(_) => "PLAN_KICKOFF.md"@,
        }
    }

    /// The slug of the request, where it can be cut to size.
    pub open spec fn slug(&self) -> Option<Seq<char>> {
        match self {
            Request::Feature(opts) => if naming::slug_cuts(opts.description@) {
                Some(naming::slug_of(text::lower(opts.description@)))
            } else {
                None
            },
            Request::Analysis(opts) => if opts.doc.title@.len() == 0 {
                Some("plan-"@ + "analysis"@)
            } else if naming::slug_cuts(opts.doc.title@) {
                Some("plan-"@ + naming::slug_of(text::lower(opts.doc.title@)))
            } else {
                None
            },
        }
    }

    fn dry(&self) -> (r: bool)
        ensures
            r == self.is_dry(),
    {
        match self {
            Request::Feature(opts) => opts.dry_run,
            Request::Analysis(opts) => opts.dry_run,
        }
    }

    fn helper(&self) -> (r: Assistant<'a>)
        ensures
            r == self.assistant(),
    {
        match self {
            Request::Feature(opts) => opts.assistant,
            Request::Analysis(opts) => opts.assistant,
        }
    }

    fn quiet(&self) -> (r: bool)
        ensures
            r == self.is_quiet(),
    {
        match self {
            Request::Feature(opts) => opts.quiet,
            Request::Analysis(opts) => opts.quiet,
        }
    }

    fn issue(&self) -> (r: Option<i64>)
        ensures
            r == self.given_issue(),
    {
        match self {
            Request::Feature(opts) => opts.issue,
            Request::Analysis(opts) => opts.issue,
        }
    }

    fn branch(&self) -> (r: Option<&str>)
        ensures
            text::opt_view(r) == self.given_branch(),
    {
        match self {
            Request::Feature(opts) => opts.branch,
            Request::Analysis(_) => None,
        }
    }

    fn container(&self) -> (r: ContainerMode)
        ensures
            r == self.place(),
    {
        match self {
            Request::Feature(opts) => opts.container,
            Request::Analysis(_) => ContainerMode::Local,
        }
    }

    fn verify(&self) -> (r: VerifyLevel)
        ensures
            r == self.level(),
    {
        match self {
            Request::Feature(opts) => opts.verify,
            Request::Analysis(_) => VerifyLevel::Local,
        }
    }

    fn model(&self) -> (r: &str)
        ensures
            r@ == self.wanted_model(),
    {
        match self {
            Request::Feature(opts) => opts.model,
            Request::Analysis(opts) => opts.model,
        }
    }

    fn timeout(&self) -> (r: u64)
        ensures
            r as nat == self.limit(),
    {
        match self {
            Request::Feature(opts) => opts.timeout,
            Request::Analysis(opts) => opts.timeout,
        }
    }

    fn file(&self) -> (r: &'static str)
        ensures
            r@ == self.prompt_file(),
    {
        match self {
            Request::Feature(_) => "KICKOFF.md",
            Request::Analysis(_) => "PLAN_KICKOFF.md",
        }
    }

    fn make_slug(&self) -> (r: Option<String>)
        ensures
            text::opt_str(r) == self.slug(),
    {
        match self {
            Request::Feature(opts) => try_slugify(opts.description),
            Request::Analysis(opts) => {
                let mut slug = own("plan-");
                if opts.doc.title.as_str().is_empty() {
                    slug.append("analysis");
                    return Some(slug);
                }
                match try_slugify(opts.doc.title.as_str()) {
                    Some(title) => {
                        slug.append(title.as_str());
                        Some(slug)
                    },
                    None => None,
                }
            },
        }
    }
}

// ---------------------------------------------------------------------------
// The state of a launch
// ---------------------------------------------------------------------------

/// What a launch waits for.
#[derive(Debug, Clone, Copy, PartialEq, Eq, Structural)]
pub enum Stage {
    /// The root of the repository.
    Root,
    /// The issue.
    Issue,
    /// Whether there is a worktree already.
    Worktree,
    /// The new worktree.
    Adding,
    /// The files in the root of the repository.
    Files,
    /// The prompt and what belongs to it.
    Writing,
    /// The identity of the agent in its worktree.
    Agent,
    /// Whether the session name is in use.
    Session,
    /// The start of the session.
    Starting,
    /// What a container needs of the machine.
    Host,
    /// The start of the container.
    Container,
    /// Nothing more.
    Done,
}

/// A launch under way.
pub struct Launch {
    pub stage: Stage,
    pub slug: String,
    pub timeout_cmd: &'static str,
    pub sandbox_command: Option<String>,
    pub root: String,
    pub issue_id: Option<i64>,
    pub worktree: String,
    pub branch: String,
    pub prompt: String,
    pub tools: String,
    pub agent_id: String,
    pub session: String,
}

/// The model of a launch.
#[verifier::ext_equal]
pub struct LaunchView {
    pub stage: Stage,
    pub slug: Seq<char>,
    pub timeout_cmd: Seq<char>,
    pub sandbox_command: Option<Seq<char>>,
    pub root: Seq<char>,
    pub issue_id: Option<i64>,
    pub worktree: Seq<char>,
    pub branch: Seq<char>,
    pub prompt: Seq<char>,
    pub tools: Seq<char>,
    pub agent_id: Seq<char>,
    pub session: Seq<char>,
}

impl View for Launch {
    type V = LaunchView;

    open spec fn view(&self) -> LaunchView {
        LaunchView {
            stage: self.stage,
            slug: self.slug@,
            timeout_cmd: self.timeout_cmd@,
            sandbox_command: text::opt_str(self.sandbox_command),
            root: self.root@,
            issue_id: self.issue_id,
            worktree: self.worktree@,
            branch: self.branch@,
            prompt: self.prompt@,
            tools: self.tools@,
            agent_id: self.agent_id@,
            session: self.session@,
        }
    }
}

/// What came of the last action.
pub enum Event {
    /// The root of the repository; `None` outside of one.
    Root(Option<String>),
    /// Whether the given issue exists.
    IssueFound(bool),
    /// The number of the new issue.
    IssueCreated(i64),
    /// Whether there is something at the path of the worktree.
    WorktreeExists(bool),
    /// The worktree was added, or what git complained of.
    WorktreeAdded(Result<(), String>),
    /// The files in the root of the repository.
    Files(Vec<String>),
    /// The files are written and excluded; the agent that is configured, if any.
    Written(Option<String>),
    /// The agent has its identity.
    AgentReady,
    /// Whether the session name is in use, the nanoseconds of the clock, and the hook
    /// configuration where there is one.
    SessionKnown(bool, u32, Option<String>),
    /// The session runs the agent.
    Started,
    /// The session could not be created, and what tmux complained of.
    NoSession(String),
    /// The command could not be sent, and what tmux complained of.
    NoKeys(String),
    /// Whether the runtime is available; the home directory, the user and the group,
    /// as far as they are known.
    HostKnown(bool, Option<String>, Option<String>, Option<String>),
    /// The container runs; what the runtime printed.
    ContainerStarted(String),
    /// The container did not start, and what the runtime complained of.
    NoContainer(String),
}

/// What is to be done next.
pub enum Action {
    /// Find the issue of this number.
    FindIssue(i64),
    /// Create an issue of this title, description, priority and label.
    CreateIssue(String, String, String, String),
    /// Print the first text, where there is one; see what is at the path.
    CheckWorktree(Option<String>, String),
    /// Add a worktree at the path, with a new branch, from the base.
    AddWorktree(String, String, String),
    /// List the files of the directory.
    ListFiles(String),
    /// Write the content to the path, and the criteria of the design document, under
    /// the name of their source, to the second path; keep git from tracking them.
    Write(String, String, Option<(String, String)>),
    /// Give the agent of this name and description its identity.
    InitAgent(String, String),
    /// See whether the session name is in use.
    FindSession(String),
    /// Start a session of this name in the directory, send it the command, and run
    /// the script beside it, where there is one.
    StartSession(String, String, String, Option<String>),
    /// See what the machine offers to the runtime.
    InspectHost(String),
    /// Run the runtime with the arguments.
    RunContainer(String, Vec<String>),
    /// Print the text; all is done.
    Finish(String),
    /// Fail with the message.
    Fail(String),
}

/// The model of an action.
#[verifier::ext_equal]
pub enum ActionView {
    FindIssue(i64),
    CreateIssue(Seq<char>, Seq<char>, Seq<char>, Seq<char>),
    CheckWorktree(Option<Seq<char>>, Seq<char>),
    AddWorktree(Seq<char>, Seq<char>, Seq<char>),
    ListFiles(Seq<char>),
    Write(Seq<char>, Seq<char>, Option<(Seq<char>, Seq<char>)>),
    InitAgent(Seq<char>, Seq<char>),
    FindSession(Seq<char>),
    StartSession(Seq<char>, Seq<char>, Seq<char>, Option<Seq<char>>),
    InspectHost(Seq<char>),
    RunContainer(Seq<char>, Seq<Seq<char>>),
    Finish(Seq<char>),
    Fail(Seq<char>),
}

impl View for Action {
    type V = ActionView;

    open spec fn view(&self) -> ActionView {
        match self {
            Action::FindIssue(id) => ActionView::FindIssue(*id),
            Action::CreateIssue(t, d, p, l) => ActionView::CreateIssue(t@, d@, p@, l@),
            Action::CheckWorktree(say, path) => ActionView::CheckWorktree(
                text::opt_str(*say),
                path@,
            ),
            Action::AddWorktree(path, branch, base) => ActionView::AddWorktree(
                path@,
                branch@,
                base@,
            ),
            Action::ListFiles(dir) => ActionView::ListFiles(dir@),
            Action::Write(path, content, criteria) => ActionView::Write(
                path@,
                content@,
                match criteria {
                    Some(c) => Some((c.0@, c.1@)),
                    None => None,
                },
            ),
            Action::InitAgent(id, description) => ActionView::InitAgent(id@, description@),
            Action::FindSession(name) => ActionView::FindSession(name@),
            Action::StartSession(name, dir, command, script) => ActionView::StartSession(
                name@,
                dir@,
                command@,
                text::opt_str(*script),
            ),
            Action::InspectHost(runtime) => ActionView::InspectHost(runtime@),
            Action::RunContainer(runtime, args) => ActionView::RunContainer(
                runtime@,
                text::strs(args@),
            ),
            Action::Finish(out) => ActionView::Finish(out@),
            Action::Fail(message) => ActionView::Fail(message@),
        }
    }
}

// ---------------------------------------------------------------------------
// The steps
// ---------------------------------------------------------------------------

/// A launch that has come to its end.
pub open spec fn ended(s: LaunchView, action: ActionView) -> (LaunchView, ActionView) {
    (LaunchView { stage: Stage::Done, ..s }, action)
}

/// The name of the worktree: that of the given branch, or the slug.
pub open spec fn worktree_name(s: LaunchView, request: Request) -> Seq<char> {
    match request.given_branch() {
        Some(branch) => match text::after_prefix(branch, "feature/"@) {
            Some(rest) => rest,
            None => branch,
        },
        None => s.slug,
    }
}

/// The path of a worktree.
pub open spec fn worktree_path(root: Seq<char>, name: Seq<char>) -> Seq<char> {
    paths::joined(paths::joined(root, ".worktrees"@), name)
}

/// With the issue known, the worktree is looked at.
pub open spec fn look_for_worktree(
    s: LaunchView,
    request: Request,
    issue_id: Option<i64>,
    say: Option<Seq<char>>,
) -> (LaunchView, ActionView) {
    let path = worktree_path(s.root, worktree_name(s, request));
    (
        LaunchView { stage: Stage::Worktree, issue_id, worktree: path, ..s },
        ActionView::CheckWorktree(say, path),
    )
}

/// With the root known, the issue is found or created. An analysis may do without.
pub open spec fn on_root(s: LaunchView, request: Request, root: Option<Seq<char>>) -> (
    LaunchView,
    ActionView,
) {
    match root {
        None => ended(s, ActionView::Fail("Not inside a git repository"@)),
        Some(root) => {
            let t = LaunchView { stage: Stage::Issue, root, ..s };
            match request.given_issue() {
                Some(id) => (t, ActionView::FindIssue(id)),
                None => match request {
                    Request::Feature(opts) => (
                        t,
                        ActionView::CreateIssue(
                            opts.description@,
                            "Created by crosslink kickoff"@,
                            "medium"@,
                            "feature"@,
                        ),
                    ),
                    Request::Analysis(_) => look_for_worktree(t, request, None, None),
                },
            }
        },
    }
}

/// A given issue must exist.
pub open spec fn on_issue_found(s: LaunchView, request: Request, id: i64, found: bool) -> (
    LaunchView,
    ActionView,
) {
    if found {
        look_for_worktree(s, request, Some(id), None)
    } else {
        ended(
            s,
            ActionView::Fail("Issue #"@ + text::dec_int(id as int) + " not found"@),
        )
    }
}

/// A new issue is told to the user.
pub open spec fn on_issue_created(s: LaunchView, request: Request, id: i64) -> (
    LaunchView,
    ActionView,
) {
    look_for_worktree(
        s,
        request,
        Some(id),
        if request.is_quiet() {
            None
        } else {
            Some("Created issue #"@ + text::dec_int(id as int) + "\n"@)
        },
    )
}

/// The worktree of a given branch is used where it exists. Any other is added, and
/// must not be there.
pub open spec fn on_worktree(s: LaunchView, request: Request, exists: bool) -> (
    LaunchView,
    ActionView,
) {
    let branch = "feature/"@ + worktree_name(s, request);
    if !exists {
        (
            LaunchView { stage: Stage::Adding, branch, ..s },
            ActionView::AddWorktree(s.worktree, branch, "HEAD"@),
        )
    } else {
        match request.given_branch() {
            Some(given) => (
                LaunchView { stage: Stage::Files, branch: given, ..s },
                ActionView::ListFiles(s.root),
            ),
            None => ended(
                s,
                ActionView::Fail(
                    "Worktree already exists at "@ + s.worktree
                        + ". Remove it first or use --branch to target an existing branch."@,
                ),
            ),
        }
    }
}

/// The criteria to write: those of the design document, where it has any.
pub open spec fn criteria_to_write(s: LaunchView, request: Request) -> Option<
    (Seq<char>, Seq<char>),
> {
    match request {
        Request::Feature(opts) => match prompt::opt_doc(opts.design_doc) {
            Some(doc) => if doc.acceptance_criteria.len() > 0 {
                Some(
                    (
                        paths::joined(s.worktree, ".kickoff-criteria.json"@),
                        match text::opt_view(opts.doc_path) {
                            Some(path) => path,
                            None => "unknown"@,
                        },
                    ),
                )
            } else {
                None
            },
            None => None,
        },
        Request::Analysis(_) => None,
    }
}

/// The prompt is written into the worktree.
pub open spec fn write_prompt(
    s: LaunchView,
    request: Request,
    prompt: Seq<char>,
    tools: Seq<char>,
) -> (LaunchView, ActionView) {
    (
        LaunchView { stage: Stage::Writing, prompt, tools, ..s },
        ActionView::Write(
            paths::joined(s.worktree, request.prompt_file()),
            prompt,
            criteria_to_write(s, request),
        ),
    )
}

/// The prompt of an analysis.
pub open spec fn write_analysis(s: LaunchView, request: Request, opts: PlanOpts) -> (
    LaunchView,
    ActionView,
) {
    write_prompt(
        s,
        request,
        prompt::analysis_prompt(
            opts.doc@,
            match s.issue_id {
                Some(id) => Some(id as int),
                None => None,
            },
        ),
        conventions::allowed_tools_plan(),
    )
}

/// With the worktree added, a feature needs the conventions of the project.
pub open spec fn on_added(s: LaunchView, request: Request, added: Option<Seq<char>>) -> (
    LaunchView,
    ActionView,
) {
    match added {
        Some(complaint) => ended(
            s,
            ActionView::Fail("Failed to create worktree: "@ + text::trim(complaint)),
        ),
        None => match request {
            Request::Feature(_) => (
                LaunchView { stage: Stage::Files, ..s },
                ActionView::ListFiles(s.root),
            ),
            Request::Analysis(opts) => write_analysis(s, request, *opts),
        },
    }
}

/// With the conventions known, the prompt of a feature is written.
pub open spec fn on_files(
    s: LaunchView,
    request: Request,
    opts: KickoffOpts,
    files: Seq<Seq<char>>,
) -> (LaunchView, ActionView) {
    let found = conventions::conventions_of(files);
    write_prompt(
        s,
        request,
        prompt::feature_prompt(opts, s.issue_id->0 as int, s.branch, found),
        conventions::allowed_tools(found.allowed_tools, opts.verify),
    )
}

/// What a dry run prints.
pub open spec fn dry_run_text(s: LaunchView) -> Seq<char> {
    s.prompt + "\n---\nWorktree: "@ + s.worktree + "\nBranch:   "@ + s.branch + "\nAgent:    "@
        + s.agent_id + "\n"@
}

/// With the files written, a dry run ends; otherwise the agent gets its identity.
pub open spec fn on_written(s: LaunchView, request: Request, parent: Option<Seq<char>>) -> (
    LaunchView,
    ActionView,
) {
    let agent_id = naming::agent_id(
        match parent {
            Some(p) => p,
            None => "driver"@,
        },
        s.slug,
    );
    let t = LaunchView { agent_id, ..s };
    if request.is_dry() {
        ended(t, ActionView::Finish(dry_run_text(t)))
    } else {
        (
            LaunchView { stage: Stage::Agent, ..t },
            ActionView::InitAgent(agent_id, "Kickoff agent for: "@ + s.slug),
        )
    }
}

/// The agent runs in a session or in a container.
pub open spec fn on_agent(s: LaunchView, request: Request) -> (LaunchView, ActionView) {
    if request.place() == ContainerMode::Local {
        let session = naming::session_name(s.slug);
        (
            LaunchView { stage: Stage::Session, session, ..s },
            ActionView::FindSession(session),
        )
    } else {
        (
            LaunchView { stage: Stage::Host, ..s },
            ActionView::InspectHost(container::runtime(request.place())),
        )
    }
}

/// A session name that is in use gets a suffix. The watchdog comes along unless it
/// is switched off.
pub open spec fn on_session(
    s: LaunchView,
    request: Request,
    in_use: bool,
    subsec_nanos: u32,
    hook_config: Option<Seq<char>>,
) -> (LaunchView, ActionView) {
    let session = if in_use {
        naming::suffixed_name(s.session, (subsec_nanos % 10000) as nat)
    } else {
        s.session
    };
    let config = match hook_config {
        Some(content) => watchdog::watchdog_config(content),
        None => watchdog::default_config(),
    };
    (
        LaunchView { stage: Stage::Starting, session, ..s },
        ActionView::StartSession(
            session,
            s.worktree,
            watchdog::agent_command(
                s.timeout_cmd,
                request.limit(),
                watchdog::assistant_command(
                    request.assistant(),
                    request.wanted_model(),
                    s.tools,
                    request.prompt_file(),
                ),
                s.sandbox_command,
                s.worktree,
            ),
            if config.enabled {
                Some(watchdog::watchdog_script(session, s.worktree, config))
            } else {
                None
            },
        ),
    )
}

/// The name of a level, as it is printed.
pub open spec fn level_label(level: VerifyLevel) -> Seq<char> {
    match level {
        VerifyLevel::Local => "Local"@,
        VerifyLevel::Ci => "Ci"@,
        VerifyLevel::Thorough => "Thorough"@,
    }
}

/// What is printed of an agent that implements a feature in a session.
pub open spec fn feature_started(s: LaunchView, verify: VerifyLevel) -> Seq<char> {
    let head = "Feature agent launched.\n\n  Worktree: "@ + s.worktree + "\n  Branch:   "@ + s.branch
        + "\n  Issue:    #"@ + text::dec_int(s.issue_id->0 as int) + "\n  Agent:    "@ + s.agent_id
        + "\n  Session:  "@ + s.session + "\n  Verify:   "@ + level_label(verify)
        + "\n\n  Approve trust:  tmux attach -t "@ + s.session
        + "\n  Check status:   crosslink kickoff status "@ + s.agent_id + "\n"@;
    if verify == VerifyLevel::Ci || verify == VerifyLevel::Thorough {
        head
            + "\n  CI verification is enabled. The agent will push and open a draft PR after local tests pass.\n"@
    } else {
        head
    }
}

/// What is printed of an agent that analyzes a design.
pub open spec fn analysis_started(s: LaunchView) -> Seq<char> {
    let head = "Plan analysis agent launched (read-only mode).\n\n  Worktree: "@ + s.worktree
        + "\n  Branch:   "@ + s.branch + "\n"@;
    let issue = match s.issue_id {
        Some(id) => head + "  Issue:    #"@ + text::dec_int(id as int) + "\n"@,
        None => head,
    };
    issue + "  Agent:    "@ + s.agent_id + "\n  Session:  "@ + s.session
        + "\n\n  Approve trust:  tmux attach -t "@ + s.session
        + "\n  Check status:   crosslink kickoff status "@ + s.agent_id
        + "\n  View report:    crosslink kickoff show-plan "@ + s.agent_id + "\n"@
}

/// A session that runs is reported.
pub open spec fn on_started(s: LaunchView, request: Request) -> (LaunchView, ActionView) {
    ended(
        s,
        ActionView::Finish(
            if request.is_quiet() {
                s.session + "\n"@
            } else {
                match request {
                    Request::Feature(opts) => feature_started(s, opts.verify),
                    Request::Analysis(_) => analysis_started(s),
                }
            },
        ),
    )
}

/// A container is run with what the machine offers.
pub open spec fn on_host(
    s: LaunchView,
    opts: KickoffOpts,
    available: bool,
    home: Option<Seq<char>>,
    uid: Option<Seq<char>>,
    gid: Option<Seq<char>>,
) -> (LaunchView, ActionView) {
    let runtime = container::runtime(opts.container);
    if available {
        (
            LaunchView { stage: Stage::Container, ..s },
            ActionView::RunContainer(
                runtime,
                container::run_args(
                    s.worktree,
                    opts.image@,
                    s.agent_id,
                    container::agent_script(
                        opts.timeout as nat,
                        opts.model@,
                        s.tools,
                        opts.assistant.program@,
                    ),
                    opts.assistant.dir@,
                    home,
                    uid,
                    gid,
                ),
            ),
        )
    } else {
        ended(
            s,
            ActionView::Fail(
                runtime
                    + " is not installed. Install it or use --container none for local mode."@,
            ),
        )
    }
}

/// What is printed of an agent in a container.
pub open spec fn container_started(s: LaunchView, opts: KickoffOpts, id: Seq<char>) -> Seq<char> {
    let short = naming::cut(id, 12);
    "Feature agent launched in container.\n\n  Worktree:    "@ + s.worktree + "\n  Branch:      "@
        + s.branch + "\n  Issue:       #"@ + text::dec_int(s.issue_id->0 as int)
        + "\n  Agent:       "@ + s.agent_id + "\n  Container:   "@ + short + "\n  Verify:      "@
        + level_label(opts.verify) + "\n\n  View logs:   "@ + container::runtime(opts.container)
        + " logs -f "@ + short + "\n  Check status: crosslink kickoff status "@ + s.agent_id + "\n"@
}

/// A container that runs is reported by its identifier.
pub open spec fn on_container(s: LaunchView, opts: KickoffOpts, printed: Seq<char>) -> (
    LaunchView,
    ActionView,
) {
    let id = text::trim(printed);
    ended(
        s,
        ActionView::Finish(
            if opts.quiet {
                id + "\n"@
            } else {
                container_started(s, opts, id)
            },
        ),
    )
}

/// Whether an event is one that the launch waits for. A session name, and the short
/// form of a container's identifier where it is shown, must not have to be cut in the
/// middle of a character.
pub open spec fn expects(s: LaunchView, request: Request, event: Event) -> bool {
    match event {
        Event::Root(_) => s.stage == Stage::Root,
        Event::IssueFound(_) => s.stage == Stage::Issue && request.given_issue() is Some,
        Event::IssueCreated(_) => s.stage == Stage::Issue && request.given_issue() is None,
        Event::WorktreeExists(_) => s.stage == Stage::Worktree,
        Event::WorktreeAdded(_) => s.stage == Stage::Adding,
        Event::Files(_) => s.stage == Stage::Files && request is Feature && s.issue_id is Some,
        Event::Written(_) => s.stage == Stage::Writing,
        Event::AgentReady => s.stage == Stage::Agent && (request.place() == ContainerMode::Local
            ==> naming::session_fits(s.slug)),
        Event::SessionKnown(in_use, _, _) => s.stage == Stage::Session && (in_use
            ==> naming::cuts_at(s.session, naming::SESSION_STEM_BYTES as nat)),
        Event::Started => s.stage == Stage::Starting && (request is Feature
            ==> s.issue_id is Some),
        Event::NoSession(_) => s.stage == Stage::Starting,
        Event::NoKeys(_) => s.stage == Stage::Starting,
        Event::HostKnown(_, _, _, _) => s.stage == Stage::Host && request is Feature
            && request.place() != ContainerMode::Local,
        Event::ContainerStarted(printed) => s.stage == Stage::Container && request is Feature
            && request.place() != ContainerMode::Local && s.issue_id is Some
            && (!request->Feature_0.quiet ==> naming::cuts_at(text::trim(printed@), 12)),
        Event::NoContainer(_) => s.stage == Stage::Container && request.place()
            != ContainerMode::Local,
    }
}

/// A step of a launch: what it becomes by an event, and what is to be done next.
pub open spec fn step(s: LaunchView, request: Request, event: Event) -> (LaunchView, ActionView) {
    match event {
        Event::Root(root) => on_root(s, request, text::opt_str(root)),
        Event::IssueFound(found) => on_issue_found(s, request, request.given_issue()->0, found),
        Event::IssueCreated(id) => on_issue_created(s, request, id),
        Event::WorktreeExists(exists) => on_worktree(s, request, exists),
        Event::WorktreeAdded(added) => on_added(
            s,
            request,
            match added {
                Ok(_) => None,
                Err(complaint) => Some(complaint@),
            },
        ),
        Event::Files(files) => on_files(s, request, *request->Feature_0, text::strs(files@)),
        Event::Written(parent) => on_written(s, request, text::opt_str(parent)),
        Event::AgentReady => on_agent(s, request),
        Event::SessionKnown(in_use, nanos, hook_config) => on_session(
            s,
            request,
            in_use,
            nanos,
            text::opt_str(hook_config),
        ),
        Event::Started => on_started(s, request),
        Event::NoSession(complaint) => ended(
            s,
            ActionView::Fail("Failed to create tmux session: "@ + text::trim(complaint@)),
        ),
        Event::NoKeys(complaint) => ended(
            s,
            ActionView::Fail("Failed to send keys to tmux: "@ + text::trim(complaint@)),
        ),
        Event::HostKnown(available, home, uid, gid) => on_host(
            s,
            *request->Feature_0,
            available,
            text::opt_str(home),
            text::opt_str(uid),
            text::opt_str(gid),
        ),
        Event::ContainerStarted(printed) => on_container(s, *request->Feature_0, printed@),
        Event::NoContainer(complaint) => ended(
            s,
            ActionView::Fail(
                container::runtime(request.place()) + " container launch failed: "@ + text::trim(
                    complaint@,
                ),
            ),
        ),
    }
}

// ---------------------------------------------------------------------------
// Beginning
// ---------------------------------------------------------------------------

/// A launch that has just begun.
pub open spec fn fresh(slug: Seq<char>, timeout_cmd: Seq<char>, sandbox: Option<Seq<char>>) -> LaunchView {
    LaunchView {
        stage: Stage::Root,
        slug,
        timeout_cmd,
        sandbox_command: sandbox,
        root: Seq::empty(),
        issue_id: None,
        worktree: Seq::empty(),
        branch: Seq::empty(),
        prompt: Seq::empty(),
        tools: Seq::empty(),
        agent_id: Seq::empty(),
        session: Seq::empty(),
    }
}

/// What a launch needs and the machine lacks. A dry run needs nothing.
pub open spec fn lacking(
    request: Request,
    hook_config: Option<Seq<char>>,
    platform: Platform,
    available: Seq<Seq<char>>,
) -> Seq<Seq<char>> {
    if request.is_dry() {
        Seq::empty()
    } else {
        platform::missing_commands(
            request.place(),
            request.level(),
            platform::sandbox_command(hook_config),
            platform,
            available,
            request.assistant(),
        )
    }
}

/// Begins a launch. It fails where the machine lacks what the launch needs, before
/// anything is done. `None` where the name of the feature would be cut in the middle
/// of a character. What a launch waits for first is the root of the repository.
pub fn begin(
    request: &Request,
    hook_config: Option<&str>,
    platform: &Platform,
    available: &Vec<String>,
) -> (r: Result<Option<Launch>, String>)
    ensures
        ({
            let config = text::opt_view(hook_config);
            let missing = lacking(*request, config, *platform, text::strs(available@));
            match r {
                Err(message) => missing.len() > 0 && message@ == platform::missing_message(
                    missing,
                ),
                Ok(None) => missing.len() == 0 && request.slug() is None,
                Ok(Some(launch)) => {
                    &&& missing.len() == 0
                    &&& request.slug() is Some
                    &&& launch@ == (if request.is_dry() {
                        fresh(request.slug()->0, ""@, None)
                    } else {
                        fresh(
                            request.slug()->0,
                            platform::timeout_command(text::strs(available@))->0,
                            platform::sandbox_command(config),
                        )
                    })
                },
            }
        }),
{
    let mut timeout_cmd: &'static str = "";
    let mut sandbox_command: Option<String> = None;
    if !request.dry() {
        match preflight_check(
            &request.container(),
            &request.verify(),
            hook_config,
            platform,
            available,
            request.helper(),
        ) {
            Ok(found) => {
                timeout_cmd = found.timeout_cmd;
                sandbox_command = found.sandbox_command;
            },
            Err(message) => {
                return Err(message);
            },
        }
    }
    let slug = match request.make_slug() {
        Some(slug) => slug,
        None => {
            return Ok(None);
        },
    };
    Ok(
        Some(
            Launch {
                stage: Stage::Root,
                slug,
                timeout_cmd,
                sandbox_command,
                root: String::new(),
                issue_id: None,
                worktree: String::new(),
                branch: String::new(),
                prompt: String::new(),
                tools: String::new(),
                agent_id: String::new(),
                session: String::new(),
            },
        ),
    )
}

// ---------------------------------------------------------------------------
// Going on
// ---------------------------------------------------------------------------

impl Launch {
    fn fail(&mut self, message: String) -> (a: Action)
        ensures
            (final(self)@, a@) == ended(old(self)@, ActionView::Fail(message@)),
    {
        self.stage = Stage::Done;
        Action::Fail(message)
    }

    fn look(&mut self, request: &Request, issue_id: Option<i64>, say: Option<String>) -> (a: Action)
        ensures
            (final(self)@, a@) == look_for_worktree(
                old(self)@,
                *request,
                issue_id,
                text::opt_str(say),
            ),
    {
        let name = self.name_worktree(request);
        let path = join_path(join_path(self.root.as_str(), ".worktrees").as_str(), name.as_str());
        self.stage = Stage::Worktree;
        self.issue_id = issue_id;
        self.worktree = own(path.as_str());
        Action::CheckWorktree(say, path)
    }

    fn name_worktree(&self, request: &Request) -> (r: String)
        ensures
            r@ == worktree_name(self@, *request),
    {
        match request.branch() {
            Some(branch) => match strip_prefix(branch, "feature/") {
                Some(rest) => rest,
                None => own(branch),
            },
            None => own(self.slug.as_str()),
        }
    }

    fn root_known(&mut self, request: &Request, root: Option<String>) -> (a: Action)
        requires
            old(self).stage == Stage::Root,
        ensures
            (final(self)@, a@) == on_root(old(self)@, *request, text::opt_str(root)),
    {
        let root = match root {
            Some(root) => root,
            None => {
                return self.fail(own("Not inside a git repository"));
            },
        };
        self.stage = Stage::Issue;
        self.root = root;
        if let Some(id) = request.issue() {
            return Action::FindIssue(id);
        }
        match request {
            Request::Feature(opts) => Action::CreateIssue(
                own(opts.description),
                own("Created by crosslink kickoff"),
                own("medium"),
                own("feature"),
            ),
            Request::Analysis(_) => self.look(request, None, None),
        }
    }

    fn issue_found(&mut self, request: &Request, id: i64, found: bool) -> (a: Action)
        ensures
            (final(self)@, a@) == on_issue_found(old(self)@, *request, id, found),
    {
        if found {
            return self.look(request, Some(id), None);
        }
        let mut message = own("Issue #");
        message.append(dec_i64(id).as_str());
        message.append(" not found");
        self.fail(message)
    }

    fn issue_created(&mut self, request: &Request, id: i64) -> (a: Action)
        ensures
            (final(self)@, a@) == on_issue_created(old(self)@, *request, id),
    {
        if request.quiet() {
            return self.look(request, Some(id), None);
        }
        let mut say = own("Created issue #");
        say.append(dec_i64(id).as_str());
        say.append("\n");
        self.look(request, Some(id), Some(say))
    }

    fn worktree_known(&mut self, request: &Request, exists: bool) -> (a: Action)
        ensures
            (final(self)@, a@) == on_worktree(old(self)@, *request, exists),
    {
        if !exists {
            let mut branch = own("feature/");
            branch.append(self.name_worktree(request).as_str());
            self.stage = Stage::Adding;
            self.branch = own(branch.as_str());
            return Action::AddWorktree(own(self.worktree.as_str()), branch, own("HEAD"));
        }
        match request.branch() {
            Some(given) => {
                self.stage = Stage::Files;
                self.branch = own(given);
                Action::ListFiles(own(self.root.as_str()))
            },
            None => {
                let mut message = own("Worktree already exists at ");
                message.append(self.worktree.as_str());
                message.append(
                    ". Remove it first or use --branch to target an existing branch.",
                );
                self.fail(message)
            },
        }
    }

    fn criteria_target(&self, request: &Request) -> (r: Option<(String, String)>)
        ensures
            match r {
                Some(c) => criteria_to_write(self@, *request) == Some((c.0@, c.1@)),
                None => criteria_to_write(self@, *request) is None,
            },
    {
        if let Request::Feature(opts) = request {
            if let Some(doc) = opts.design_doc {
                assert(doc@.acceptance_criteria.len() == doc.acceptance_criteria@.len());
                if doc.acceptance_criteria.len() > 0 {
                    let source = match opts.doc_path {
                        Some(path) => own(path),
                        None => own("unknown"),
                    };
                    return Some(
                        (join_path(self.worktree.as_str(), ".kickoff-criteria.json"), source),
                    );
                }
            }
        }
        None
    }

    fn write(&mut self, request: &Request, prompt: String, tools: String) -> (a: Action)
        ensures
            (final(self)@, a@) == write_prompt(old(self)@, *request, prompt@, tools@),
    {
        let path = join_path(self.worktree.as_str(), request.file());
        let criteria = self.criteria_target(request);
        self.stage = Stage::Writing;
        self.prompt = own(prompt.as_str());
        self.tools = tools;
        Action::Write(path, prompt, criteria)
    }

    fn worktree_added(&mut self, request: &Request, added: Result<(), String>) -> (a: Action)
        ensures
            (final(self)@, a@) == on_added(
                old(self)@,
                *request,
                match added {
                    Ok(_) => None,
                    Err(complaint) => Some(complaint@),
                },
            ),
    {
        if let Err(complaint) = added {
            let mut message = own("Failed to create worktree: ");
            message.append(trim_str(complaint.as_str()).as_str());
            return self.fail(message);
        }
        match request {
            Request::Feature(_) => {
                self.stage = Stage::Files;
                Action::ListFiles(own(self.root.as_str()))
            },
            Request::Analysis(opts) => {
                let prompt = build_plan_prompt(opts.doc, self.issue_id);
                self.write(request, prompt, build_allowed_tools_plan())
            },
        }
    }

    fn files_known(&mut self, request: &Request, opts: &KickoffOpts, id: i64, files: &Vec<String>) -> (a:
        Action)
        requires
            old(self).issue_id == Some(id),
        ensures
            (final(self)@, a@) == on_files(old(self)@, *request, *opts, text::strs(files@)),
    {
        let found = detect_conventions(files);
        let prompt = build_prompt(opts, id, self.branch.as_str(), &found);
        let tools = build_allowed_tools(&found, &opts.verify);
        self.write(request, prompt, tools)
    }

    fn files_written(&mut self, request: &Request, parent: Option<String>) -> (a: Action)
        ensures
            (final(self)@, a@) == on_written(old(self)@, *request, text::opt_str(parent)),
    {
        let agent_id = match &parent {
            Some(p) => child_agent_id(Some(p.as_str()), self.slug.as_str()),
            None => child_agent_id(None, self.slug.as_str()),
        };
        self.agent_id = own(agent_id.as_str());
        if request.dry() {
            let mut out = own(self.prompt.as_str());
            out.append("\n---\nWorktree: ");
            out.append(self.worktree.as_str());
            out.append("\nBranch:   ");
            out.append(self.branch.as_str());
            out.append("\nAgent:    ");
            out.append(self.agent_id.as_str());
            out.append("\n");
            self.stage = Stage::Done;
            return Action::Finish(out);
        }
        self.stage = Stage::Agent;
        let mut description = own("Kickoff agent for: ");
        description.append(self.slug.as_str());
        Action::InitAgent(agent_id, description)
    }

    fn agent_ready(&mut self, request: &Request) -> (a: Action)
        requires
            request.place() == ContainerMode::Local ==> naming::session_fits(old(self).slug@),
        ensures
            (final(self)@, a@) == on_agent(old(self)@, *request),
    {
        let place = request.container();
        if place == ContainerMode::Local {
            let session = tmux_session_name(self.slug.as_str());
            self.stage = Stage::Session;
            self.session = own(session.as_str());
            Action::FindSession(session)
        } else {
            self.stage = Stage::Host;
            Action::InspectHost(own(runtime_name(place)))
        }
    }

    fn session_known(
        &mut self,
        request: &Request,
        in_use: bool,
        subsec_nanos: u32,
        hook_config: Option<String>,
    ) -> (a: Action)
        requires
            in_use ==> naming::cuts_at(old(self).session@, naming::SESSION_STEM_BYTES as nat),
        ensures
            (final(self)@, a@) == on_session(
                old(self)@,
                *request,
                in_use,
                subsec_nanos,
                text::opt_str(hook_config),
            ),
    {
        if in_use {
            let suffix: u32 = rand_suffix(subsec_nanos);
            self.session = suffix_session_name(self.session.as_str(), suffix);
        }
        let config = match &hook_config {
            Some(content) => read_watchdog_config(Some(content.as_str())),
            None => read_watchdog_config(None),
        };
        let sandbox = match &self.sandbox_command {
            Some(command) => Some(command.as_str()),
            None => None,
        };
        let command = build_agent_command(
            self.timeout_cmd,
            request.timeout(),
            request.model(),
            self.tools.as_str(),
            request.file(),
            sandbox,
            self.worktree.as_str(),
            request.helper(),
        );
        let script = if config.enabled {
            Some(
                build_watchdog_script(self.session.as_str(), self.worktree.as_str(), &config),
            )
        } else {
            None
        };
        self.stage = Stage::Starting;
        Action::StartSession(
            own(self.session.as_str()),
            own(self.worktree.as_str()),
            command,
            script,
        )
    }

    fn feature_report(&self, id: i64, verify: VerifyLevel) -> (out: String)
        requires
            self.issue_id == Some(id),
        ensures
            out@ == feature_started(self@, verify),
    {
        let mut out = own("Feature agent launched.\n\n  Worktree: ");
        out.append(self.worktree.as_str());
        out.append("\n  Branch:   ");
        out.append(self.branch.as_str());
        out.append("\n  Issue:    #");
        out.append(dec_i64(id).as_str());
        out.append("\n  Agent:    ");
        out.append(self.agent_id.as_str());
        out.append("\n  Session:  ");
        out.append(self.session.as_str());
        out.append("\n  Verify:   ");
        out.append(label_of(verify));
        out.append("\n\n  Approve trust:  tmux attach -t ");
        out.append(self.session.as_str());
        out.append("\n  Check status:   crosslink kickoff status ");
        out.append(self.agent_id.as_str());
        out.append("\n");
        if verify == VerifyLevel::Ci || verify == VerifyLevel::Thorough {
            out.append(
                "\n  CI verification is enabled. The agent will push and open a draft PR after local tests pass.\n",
            );
        }
        out
    }

    fn analysis_report(&self) -> (out: String)
        ensures
            out@ == analysis_started(self@),
    {
        let mut out = own("Plan analysis agent launched (read-only mode).\n\n  Worktree: ");
        out.append(self.worktree.as_str());
        out.append("\n  Branch:   ");
        out.append(self.branch.as_str());
        out.append("\n");
        if let Some(id) = self.issue_id {
            out.append("  Issue:    #");
            out.append(dec_i64(id).as_str());
            out.append("\n");
        }
        out.append("  Agent:    ");
        out.append(self.agent_id.as_str());
        out.append("\n  Session:  ");
        out.append(self.session.as_str());
        out.append("\n\n  Approve trust:  tmux attach -t ");
        out.append(self.session.as_str());
        out.append("\n  Check status:   crosslink kickoff status ");
        out.append(self.agent_id.as_str());
        out.append("\n  View report:    crosslink kickoff show-plan ");
        out.append(self.agent_id.as_str());
        out.append("\n");
        out
    }

    fn started(&mut self, request: &Request) -> (a: Action)
        requires
            request is Feature ==> old(self).issue_id is Some,
        ensures
            (final(self)@, a@) == on_started(old(self)@, *request),
    {
        let out = if request.quiet() {
            let mut name = own(self.session.as_str());
            name.append("\n");
            name
        } else {
            match request {
                Request::Feature(opts) => self.feature_report(self.issue_id.unwrap(), opts.verify),
                Request::Analysis(_) => self.analysis_report(),
            }
        };
        self.stage = Stage::Done;
        Action::Finish(out)
    }

    fn complain(&mut self, what: &str, complaint: &str) -> (a: Action)
        ensures
            (final(self)@, a@) == ended(
                old(self)@,
                ActionView::Fail(what@ + text::trim(complaint@)),
            ),
    {
        let mut message = own(what);
        message.append(trim_str(complaint).as_str());
        self.fail(message)
    }

    fn host_known(
        &mut self,
        opts: &KickoffOpts,
        available: bool,
        home: Option<String>,
        uid: Option<String>,
        gid: Option<String>,
    ) -> (a: Action)
        requires
            opts.container != ContainerMode::Local,
        ensures
            (final(self)@, a@) == on_host(
                old(self)@,
                *opts,
                available,
                text::opt_str(home),
                text::opt_str(uid),
                text::opt_str(gid),
            ),
    {
        let runtime = runtime_name(opts.container);
        if !available {
            let mut message = own(runtime);
            message.append(
                " is not installed. Install it or use --container none for local mode.",
            );
            return self.fail(message);
        }
        let args = container_args(
            self.worktree.as_str(),
            opts.image,
            self.agent_id.as_str(),
            container::build_agent_script(
                opts.timeout,
                opts.model,
                self.tools.as_str(),
                opts.assistant.program,
            ),
            opts.assistant.dir,
            home,
            uid,
            gid,
        );
        self.stage = Stage::Container;
        Action::RunContainer(own(runtime), args)
    }

    fn container_report(&self, opts: &KickoffOpts, issue: i64, id: &str) -> (out: String)
        requires
            self.issue_id == Some(issue),
            opts.container != ContainerMode::Local,
        ensures
            out@ == container_started(self@, *opts, id@),
    {
        let short = cut_bytes(id, 12);
        let mut out = own("Feature agent launched in container.\n\n  Worktree:    ");
        out.append(self.worktree.as_str());
        out.append("\n  Branch:      ");
        out.append(self.branch.as_str());
        out.append("\n  Issue:       #");
        out.append(dec_i64(issue).as_str());
        out.append("\n  Agent:       ");
        out.append(self.agent_id.as_str());
        out.append("\n  Container:   ");
        out.append(short.as_str());
        out.append("\n  Verify:      ");
        out.append(label_of(opts.verify));
        out.append("\n\n  View logs:   ");
        out.append(runtime_name(opts.container));
        out.append(" logs -f ");
        out.append(short.as_str());
        out.append("\n  Check status: crosslink kickoff status ");
        out.append(self.agent_id.as_str());
        out.append("\n");
        out
    }

    fn container_running(&mut self, opts: &KickoffOpts, printed: &str) -> (a: Action)
        requires
            old(self).issue_id is Some,
            opts.container != ContainerMode::Local,
        ensures
            (final(self)@, a@) == on_container(old(self)@, *opts, printed@),
    {
        let id = trim_str(printed);
        let out = if opts.quiet {
            let mut line = own(id.as_str());
            line.append("\n");
            line
        } else {
            self.container_report(opts, self.issue_id.unwrap(), id.as_str())
        };
        self.stage = Stage::Done;
        Action::Finish(out)
    }

    /// Takes in what came of the last action, and says what is to be done next.
    pub fn advance(&mut self, request: &Request, event: Event) -> (a: Action)
        requires
            expects(old(self)@, *request, event),
        ensures
            (final(self)@, a@) == step(old(self)@, *request, event),
    {
        match event {
            Event::Root(root) => self.root_known(request, root),
            Event::IssueFound(found) => self.issue_found(request, request.issue().unwrap(), found),
            Event::IssueCreated(id) => self.issue_created(request, id),
            Event::WorktreeExists(exists) => self.worktree_known(request, exists),
            Event::WorktreeAdded(added) => self.worktree_added(request, added),
            Event::Files(files) => match request {
                Request::Feature(opts) => {
                    let id: i64 = self.issue_id.unwrap();
                    self.files_known(request, opts, id, &files)
                },
                Request::Analysis(_) => self.fail(String::new()),
            },
            Event::Written(parent) => self.files_written(request, parent),
            Event::AgentReady => self.agent_ready(request),
            Event::SessionKnown(in_use, nanos, hook_config) => self.session_known(
                request,
                in_use,
                nanos,
                hook_config,
            ),
            Event::Started => self.started(request),
            Event::NoSession(complaint) => self.complain(
                "Failed to create tmux session: ",
                complaint.as_str(),
            ),
            Event::NoKeys(complaint) => self.complain(
                "Failed to send keys to tmux: ",
                complaint.as_str(),
            ),
            Event::HostKnown(available, home, uid, gid) => match request {
                Request::Feature(opts) => self.host_known(opts, available, home, uid, gid),
                Request::Analysis(_) => self.fail(String::new()),
            },
            Event::ContainerStarted(printed) => match request {
                Request::Feature(opts) => self.container_running(opts, printed.as_str()),
                Request::Analysis(_) => self.fail(String::new()),
            },
            Event::NoContainer(complaint) => {
                let mut what = own(runtime_name(request.container()));
                what.append(" container launch failed: ");
                self.complain(what.as_str(), complaint.as_str())
            },
        }
    }
}

fn label_of(level: VerifyLevel) -> (r: &'static str)
    ensures
        r@ == level_label(level),
{
    match level {
        VerifyLevel::Local => "Local",
        VerifyLevel::Ci => "Ci",
        VerifyLevel::Thorough => "Thorough",
    }
}

// ---------------------------------------------------------------------------
// Laws
// ---------------------------------------------------------------------------

/// Whether an action gives an agent its identity or starts it.
pub open spec fn launches(action: ActionView) -> bool {
    action is InitAgent || action is FindSession || action is StartSession || action is InspectHost
        || action is RunContainer
}

/// Whether a stage comes before the agent.
pub open spec fn before_agent(stage: Stage) -> bool {
    stage == Stage::Root || stage == Stage::Issue || stage == Stage::Worktree || stage
        == Stage::Adding || stage == Stage::Files || stage == Stage::Writing || stage
        == Stage::Done
}

/// The launch after some events.
pub open spec fn after(s: LaunchView, request: Request, events: Seq<Event>) -> LaunchView
    decreases events.len(),
{
    if events.len() == 0 {
        s
    } else {
        step(after(s, request, events.drop_last()), request, events.last()).0
    }
}

/// Whether each of some events was expected when it came.
pub open spec fn orderly(s: LaunchView, request: Request, events: Seq<Event>) -> bool
    decreases events.len(),
{
    events.len() > 0 ==> orderly(s, request, events.drop_last()) && expects(
        after(s, request, events.drop_last()),
        request,
        events.last(),
    )
}

/// A dry run gives no agent an identity and starts none, whatever comes of its
/// actions.
pub proof fn law_dry_run_launches_nothing(
    slug: Seq<char>,
    request: Request,
    events: Seq<Event>,
    event: Event,
)
    requires
        request.is_dry(),
        orderly(fresh(slug, ""@, None), request, events.push(event)),
    ensures
        !launches(step(after(fresh(slug, ""@, None), request, events), request, event).1),
{
    assert(events.push(event).drop_last() =~= events);
    lemma_dry_stage(slug, request, events);
}

proof fn lemma_dry_stage(slug: Seq<char>, request: Request, events: Seq<Event>)
    requires
        request.is_dry(),
        orderly(fresh(slug, ""@, None), request, events),
    ensures
        before_agent(after(fresh(slug, ""@, None), request, events).stage),
    decreases events.len(),
{
    if events.len() > 0 {
        lemma_dry_stage(slug, request, events.drop_last());
    }
}

/// A launch keeps its slug, and its worktree and branch once they are settled: what
/// is written, started and reported belongs to one worktree.
pub proof fn law_worktree_is_settled(s: LaunchView, request: Request, event: Event)
    requires
        expects(s, request, event),
    ensures
        ({
            let t = step(s, request, event).0;
            &&& t.slug == s.slug
            &&& (s.stage != Stage::Root && s.stage != Stage::Issue ==> t.worktree == s.worktree)
            &&& (s.stage != Stage::Root && s.stage != Stage::Issue && s.stage != Stage::Worktree
                ==> t.branch == s.branch && t.issue_id == s.issue_id)
        }),
{
}

/// How far a launch has come.
pub open spec fn rank(stage: Stage) -> nat {
    match stage {
        Stage::Root => 0,
        Stage::Issue => 1,
        Stage::Worktree => 2,
        Stage::Adding => 3,
        Stage::Files => 4,
        Stage::Writing => 5,
        Stage::Agent => 6,
        Stage::Session => 7,
        Stage::Starting => 8,
        Stage::Host => 7,
        Stage::Container => 8,
        Stage::Done => 9,
    }
}

/// Every step brings a launch nearer to its end, and it is done exactly when it has
/// nothing more to do.
pub proof fn law_launch_makes_progress(s: LaunchView, request: Request, event: Event)
    requires
        expects(s, request, event),
    ensures
        rank(step(s, request, event).0.stage) > rank(s.stage),
        step(s, request, event).0.stage == Stage::Done <==> (step(s, request, event).1 is Finish
            || step(s, request, event).1 is Fail),
{
}

// ---------------------------------------------------------------------------
// What each step is for
// ---------------------------------------------------------------------------

/// Outside of a repository nothing is launched. A given issue is looked for; without one a
/// feature gets an issue that is called after it, and an analysis does without.
pub proof fn law_launch_has_an_issue(s: LaunchView, request: Request, root: Option<String>)
    requires
        s.stage == Stage::Root,
    ensures
        ({
            let (t, a) = step(s, request, Event::Root(root));
            &&& root is None <==> a is Fail
            &&& root matches Some(r) ==> t.root == r@ && t.slug == s.slug && {
                &&& request.given_issue() matches Some(id) ==> a == ActionView::FindIssue(id)
                &&& request.given_issue() is None && request is Feature ==> (a
                    matches ActionView::CreateIssue(title, _, priority, label) && title
                    == request->Feature_0.description@ && priority == "medium"@ && label
                    == "feature"@)
                &&& request.given_issue() is None && request is Analysis ==> a is CheckWorktree
                    && t.issue_id is None
            }
        }),
{
}

/// The issue that was found or created is the one that the launch works on. An issue that is not
/// there stops it, and the message names it.
pub proof fn law_issue_is_worked_on(s: LaunchView, request: Request, id: i64, found: bool)
    ensures
        ({
            let (t, a) = step(s, request, Event::IssueCreated(id));
            &&& t.issue_id == Some(id)
            &&& a matches ActionView::CheckWorktree(say, path) && path == t.worktree && (
            request.is_quiet() <==> say is None) && (say matches Some(text) ==> text::contains(
                text,
                "#"@ + text::dec_int(id as int),
            ))
        }),
        request.given_issue() == Some(id) ==> ({
            let (t, a) = step(s, request, Event::IssueFound(found));
            &&& found ==> t.issue_id == Some(id) && a is CheckWorktree
            &&& !found ==> (a matches ActionView::Fail(m) && text::contains(
                m,
                "#"@ + text::dec_int(id as int),
            ))
        }),
{
    broadcast use {text::lemma_contains_self, text::lemma_contains_first, text::lemma_contains_second};

    let n = text::dec_int(id as int);
    reveal_strlit("Created issue #");
    reveal_strlit("Created issue ");
    reveal_strlit("Issue #");
    reveal_strlit("Issue ");
    reveal_strlit("#");
    assert("Created issue #"@ =~= "Created issue "@ + "#"@);
    assert("Issue #"@ =~= "Issue "@ + "#"@);
    assert("Created issue #"@ + n + "\n"@ =~= "Created issue "@ + ("#"@ + n) + "\n"@);
    assert("Issue #"@ + n + " not found"@ =~= "Issue "@ + ("#"@ + n) + " not found"@);
}

/// The worktree lies under `.worktrees` in the repository and is called like the feature, or like
/// the branch that was given, without the word before it.
pub proof fn law_worktree_is_called_after_the_feature(
    s: LaunchView,
    request: Request,
    id: i64,
    name: Seq<char>,
)
    requires
        s.root.len() > 0 && s.root.last() != '/',
        name.len() > 0 && name[0] != '/',
    ensures
        ({
            let t = step(s, request, Event::IssueCreated(id)).0;
            &&& request.given_branch() is None && s.slug == name ==> t.worktree == s.root
                + "/.worktrees/"@ + name
            &&& request.given_branch() == Some("feature/"@ + name) ==> t.worktree == s.root
                + "/.worktrees/"@ + name
            &&& request.given_branch() == Some(name) && !text::has_prefix(name, "feature/"@)
                ==> t.worktree == s.root + "/.worktrees/"@ + name
        }),
{
    reveal_strlit("/");
    reveal_strlit(".worktrees");
    reveal_strlit("/.worktrees/");
    reveal_strlit("feature/");
    let full = "feature/"@ + name;
    assert(full.take(8) =~= "feature/"@ && full.skip(8) =~= name);
    assert(".worktrees"@.take(1)[0] == '.');
    assert("/"@[0] == '/');
    assert(!text::has_prefix(".worktrees"@, "/"@));
    assert(!text::has_prefix(name, "/"@)) by {
        if name.len() > 0 {
            assert(name.take(1)[0] == name[0]);
        }
    }
    let a = paths::joined(s.root, ".worktrees"@);
    assert(a == s.root + "/"@ + ".worktrees"@);
    assert(a.last() == 's');
    assert(a + "/"@ + name =~= s.root + "/.worktrees/"@ + name);
}

/// A worktree that is not there is added from the head, on a branch that is called like it. One
/// that is there is used only where its branch was given; otherwise the launch stops and says
/// where it is.
pub proof fn law_worktrees_are_not_taken_over(s: LaunchView, request: Request, exists: bool)
    ensures
        ({
            let (t, a) = step(s, request, Event::WorktreeExists(exists));
            &&& a is AddWorktree <==> !exists
            &&& a matches ActionView::AddWorktree(path, branch, base) ==> path == s.worktree && branch
                == t.branch && base == "HEAD"@ && branch == "feature/"@ + worktree_name(s, request)
            &&& exists && request.given_branch() is None ==> (a matches ActionView::Fail(m)
                && text::contains(m, s.worktree))
            &&& exists ==> (request.given_branch() matches Some(b) ==> t.branch == b && a
                == ActionView::ListFiles(s.root))
        }),
{
    broadcast use {text::lemma_contains_self, text::lemma_contains_first, text::lemma_contains_second};

}

/// A feature is written down for its agent together with the criteria that the agent is told to
/// report on: the criteria file is written exactly where there is a design document with
/// acceptance criteria, into the worktree and under the name of the document, and exactly then
/// the prompt asks for the report.
pub proof fn law_criteria_accompany_the_prompt<'a>(
    s: LaunchView,
    opts: &'a KickoffOpts<'a>,
    files: Vec<String>,
)
    requires
        expects(s, Request::Feature(opts), Event::Files(files)),
    ensures
        ({
            let (t, a) = step(s, Request::Feature(opts), Event::Files(files));
            let has_criteria = opts.design_doc matches Some(d) && d.acceptance_criteria@.len() > 0;
            &&& a matches ActionView::Write(path, content, criteria) && {
                &&& path == paths::joined(s.worktree, "KICKOFF.md"@)
                &&& content == t.prompt
                &&& criteria is Some <==> has_criteria
                &&& criteria matches Some(c) ==> c.0 == paths::joined(
                    s.worktree,
                    ".kickoff-criteria.json"@,
                ) && (opts.doc_path matches Some(p) ==> c.1 == p@) && (opts.doc_path is None ==> c.1
                    == "unknown"@)
                &&& criteria is Some ==> text::has_suffix(
                    content,
                    prompt::REPORTING_SECTION@ + prompt::FINAL_SECTION@,
                )
                &&& text::has_suffix(
                    content,
                    prompt::closing_sections(opts.verify, criteria is Some),
                )
                &&& text::contains(content, opts.description@)
                &&& text::contains(content, s.branch)
                &&& text::contains(content, text::dec_int(s.issue_id->0 as int))
            }
            &&& t.tools == conventions::allowed_tools(
                conventions::conventions_of(text::strs(files@)).allowed_tools,
                opts.verify,
            )
        }),
{
    let request = Request::Feature(opts);
    let found = conventions::conventions_of(text::strs(files@));
    let id = s.issue_id->0 as int;
    let (t, a) = step(s, request, Event::Files(files));
    if let Some(d) = opts.design_doc {
        assert(d@.acceptance_criteria.len() == d.acceptance_criteria@.len());
    }
    let has = opts.design_doc matches Some(d) && d.acceptance_criteria@.len() > 0;
    prompt::law_prompt_ends_as_asked(*opts, id, s.branch, found);
    prompt::law_prompt_tells_the_task(*opts, id, s.branch, found);
    let content = t.prompt;
    let close = prompt::closing_sections(opts.verify, has);
    let tests = prompt::test_lint_instructions(found, id);
    lemma_suffix_of_suffix(content, tests, close);
    if has {
        let last = prompt::REPORTING_SECTION@ + prompt::FINAL_SECTION@;
        let lead = close.take(close.len() - last.len());
        lemma_closing_has_report(opts.verify);
        lemma_suffix_of_suffix(content, lead, last);
        assert(lead + last =~= close);
    }
    let middle = prompt::PROMPT_1@ + text::dec_int(id) + prompt::PROMPT_2@ + s.branch
        + prompt::PROMPT_3@ + crate::commands::kickoff::options::level_name(opts.verify);
    text::lemma_contains_self(s.branch);
    text::lemma_contains_self(text::dec_int(id));
    lemma_middle(
        prompt::PROMPT_1@,
        text::dec_int(id),
        prompt::PROMPT_2@,
        s.branch,
        prompt::PROMPT_3@,
        crate::commands::kickoff::options::level_name(opts.verify),
    );
    text::lemma_contains_transitive(content, middle, s.branch);
    text::lemma_contains_transitive(content, middle, text::dec_int(id));
}

proof fn lemma_middle(
    a: Seq<char>,
    b: Seq<char>,
    c: Seq<char>,
    d: Seq<char>,
    e: Seq<char>,
    f: Seq<char>,
)
    ensures
        text::contains(a + b + c + d + e + f, b),
        text::contains(a + b + c + d + e + f, d),
{
    broadcast use {text::lemma_contains_self, text::lemma_contains_first, text::lemma_contains_second};

}

proof fn lemma_closing_has_report(level: VerifyLevel)
    ensures
        ({
            let close = prompt::closing_sections(level, true);
            let last = prompt::REPORTING_SECTION@ + prompt::FINAL_SECTION@;
            close.len() >= last.len() && close.take(close.len() - last.len()) + last == close
        }),
{
    let a = if level == VerifyLevel::Local {
        ""@
    } else {
        prompt::CI_SECTION@
    };
    let b = if level == VerifyLevel::Thorough {
        prompt::ADVERSARIAL_SECTION@
    } else {
        ""@
    };
    let last = prompt::REPORTING_SECTION@ + prompt::FINAL_SECTION@;
    let close = prompt::closing_sections(level, true);
    text::lemma_regroup(a + b, prompt::REPORTING_SECTION@, prompt::FINAL_SECTION@, a, a);
    assert(close == a + b + last);
    assert(close.take(close.len() - last.len()) =~= a + b);
}

proof fn lemma_suffix_of_suffix(s: Seq<char>, a: Seq<char>, b: Seq<char>)
    requires
        text::has_suffix(s, a + b),
    ensures
        text::has_suffix(s, b),
{
    let tail = s.skip(s.len() - (a + b).len());
    assert(s.skip(s.len() - b.len()) =~= tail.skip(a.len() as int));
    assert((a + b).skip(a.len() as int) =~= b);
}

/// An analysis is written down with the whole design and no criteria, and its agent gets only
/// the tools that change nothing.
pub proof fn law_analysis_is_written_down<'a>(s: LaunchView, opts: &'a PlanOpts<'a>)
    requires
        s.stage == Stage::Adding,
    ensures
        ({
            let (t, a) = step(s, Request::Analysis(opts), Event::WorktreeAdded(Ok(())));
            &&& a matches ActionView::Write(path, content, criteria) && path == paths::joined(
                s.worktree,
                "PLAN_KICKOFF.md"@,
            ) && criteria is None && content == t.prompt && text::contains(
                content,
                opts.doc@.title,
            )
            &&& t.tools == conventions::allowed_tools_plan()
        }),
{
    let issue = match s.issue_id {
        Some(id) => Some(id as int),
        None => None,
    };
    prompt::law_analysis_prompt_tells_the_design(opts.doc@, issue);
}

/// A dry run shows the prompt, the worktree, the branch and the agent, and ends. Any other gives
/// the agent its identity: its parent's name, or that of the driver, and the slug.
pub proof fn law_written_prompts_get_an_agent(
    s: LaunchView,
    request: Request,
    parent: Option<String>,
)
    ensures
        ({
            let (t, a) = step(s, request, Event::Written(parent));
            &&& parent matches Some(p) ==> t.agent_id == p@ + "--"@ + s.slug
            &&& parent is None ==> t.agent_id == "driver"@ + "--"@ + s.slug
            &&& request.is_dry() ==> (a matches ActionView::Finish(out) && text::has_prefix(
                out,
                s.prompt,
            ) && text::contains(out, s.worktree) && text::contains(out, s.branch) && text::contains(
                out,
                t.agent_id,
            ))
            &&& !request.is_dry() ==> (a matches ActionView::InitAgent(id, _) && id == t.agent_id)
        }),
{
    broadcast use {text::lemma_contains_self, text::lemma_contains_first, text::lemma_contains_second};

    let t = step(s, request, Event::Written(parent)).0;
    let tail = "\n---\nWorktree: "@ + s.worktree + "\nBranch:   "@ + s.branch + "\nAgent:    "@
        + t.agent_id + "\n"@;
    assert(dry_run_text(t) =~= s.prompt + tail);
    text::lemma_prefix_of_sum(s.prompt, tail);
}

/// An agent runs in a session of this machine, or in a container where one was asked for.
pub proof fn law_agents_run_where_asked(s: LaunchView, request: Request)
    ensures
        ({
            let (t, a) = step(s, request, Event::AgentReady);
            &&& request.place() == ContainerMode::Local ==> a == ActionView::FindSession(t.session)
                && t.session == naming::session_name(s.slug)
            &&& request.place() == ContainerMode::Docker ==> a == ActionView::InspectHost("docker"@)
            &&& request.place() == ContainerMode::Podman ==> a == ActionView::InspectHost("podman"@)
        }),
{
}

/// The session starts in the worktree, under the time limit, with the model and the tools of the
/// agent, on the prompt that was written. A name in use is not taken. The watchdog watches that
/// session in that worktree, unless it is switched off.
pub proof fn law_sessions_start_as_asked(
    s: LaunchView,
    request: Request,
    in_use: bool,
    nanos: u32,
    hook_config: Option<String>,
)
    ensures
        ({
            let (t, a) = step(s, request, Event::SessionKnown(in_use, nanos, hook_config));
            let config = match hook_config {
                Some(content) => watchdog::watchdog_config(content@),
                None => watchdog::default_config(),
            };
            &&& !in_use ==> t.session == s.session
            &&& in_use ==> text::has_suffix(t.session, "-"@ + text::dec((nanos % 10000) as nat))
            &&& a matches ActionView::StartSession(name, dir, command, script) && {
                &&& name == t.session
                &&& dir == s.worktree
                &&& text::has_prefix(
                    command,
                    s.timeout_cmd + " "@ + text::dec(request.limit()) + "s "@,
                )
                &&& text::has_suffix(command, "\"$(cat "@ + request.prompt_file() + ")\""@)
                &&& text::contains(command, " --model "@ + request.wanted_model())
                &&& text::contains(command, "--allowedTools '"@ + s.tools + "'"@)
                &&& script is Some <==> config.enabled
                &&& script matches Some(text) ==> text == watchdog::watchdog_script(
                    t.session,
                    s.worktree,
                    config,
                )
            }
        }),
{
    let command = watchdog::assistant_command(
        request.assistant(),
        request.wanted_model(),
        s.tools,
        request.prompt_file(),
    );
    watchdog::law_agents_run_as_asked(
        s.timeout_cmd,
        request.limit(),
        request.assistant(),
        request.wanted_model(),
        s.tools,
        request.prompt_file(),
        s.sandbox_command,
        s.worktree,
    );
    let out = watchdog::agent_command(
        s.timeout_cmd,
        request.limit(),
        command,
        s.sandbox_command,
        s.worktree,
    );
    lemma_suffix_is_held(out, command);
    let program = request.assistant().program@;
    let m = " --model "@ + request.wanted_model();
    text::lemma_regroup(program, " --model "@, request.wanted_model(), m, m);
    text::lemma_contains_self(m);
    text::lemma_contains_second(program, m, m);
    text::lemma_contains_transitive(out, command, program + m);
    text::lemma_contains_transitive(out, program + m, m);
    text::lemma_contains_transitive(out, command, "--allowedTools '"@ + s.tools + "'"@);
    let end = "\"$(cat "@ + request.prompt_file() + ")\""@;
    lemma_suffix_chain(out, command, end);
    if in_use {
        let stem = naming::cut(s.session, naming::SESSION_STEM_BYTES as nat);
        text::lemma_regroup(stem, "-"@, text::dec((nanos % 10000) as nat), stem, stem);
        text::lemma_suffix_of_sum(stem, "-"@ + text::dec((nanos % 10000) as nat));
    }
}

proof fn lemma_suffix_is_held(s: Seq<char>, p: Seq<char>)
    requires
        text::has_suffix(s, p),
    ensures
        text::contains(s, p),
{
    let i = s.len() - p.len();
    assert(s.subrange(i, i + p.len()) =~= s.skip(i));
    assert(text::occurs_at(s, p, i));
}

proof fn lemma_suffix_chain(s: Seq<char>, p: Seq<char>, q: Seq<char>)
    requires
        text::has_suffix(s, p),
        text::has_suffix(p, q),
    ensures
        text::has_suffix(s, q),
{
    assert(s.skip(s.len() - q.len()) =~= s.skip(s.len() - p.len()).skip(p.len() - q.len()));
}

/// Of an agent that was launched in a session it is told where it works, on which branch, who it
/// is and how to look at it; a quiet launch prints the session and nothing else.
pub proof fn law_started_agents_are_told(s: LaunchView, request: Request)
    ensures
        step(s, request, Event::Started).1 matches ActionView::Finish(out) && {
            &&& request.is_quiet() ==> out == s.session + "\n"@
            &&& !request.is_quiet() ==> text::contains(out, s.worktree) && text::contains(
                out,
                s.branch,
            ) && text::contains(out, s.agent_id) && text::contains(out, s.session)
            &&& !request.is_quiet() && (request is Feature || s.issue_id is Some) ==> text::contains(
                out,
                text::dec_int(s.issue_id->0 as int),
            )
        },
{
    broadcast use {text::lemma_contains_self, text::lemma_contains_first, text::lemma_contains_second};

}

/// A container is run with the runtime that was asked for, where it is available, on the
/// worktree, in the image, with the time limit, the model and the tools of the agent.
pub proof fn law_containers_start_as_asked<'a>(
    s: LaunchView,
    opts: &'a KickoffOpts<'a>,
    available: bool,
    home: Option<String>,
    uid: Option<String>,
    gid: Option<String>,
)
    ensures
        ({
            let (t, a) = step(
                s,
                Request::Feature(opts),
                Event::HostKnown(available, home, uid, gid),
            );
            &&& !available <==> a is Fail
            &&& available ==> (a matches ActionView::RunContainer(runtime, args) && {
                &&& opts.container == ContainerMode::Docker ==> runtime == "docker"@
                &&& opts.container == ContainerMode::Podman ==> runtime == "podman"@
                &&& args == container::run_args(
                    s.worktree,
                    opts.image@,
                    s.agent_id,
                    container::agent_script(
                        opts.timeout as nat,
                        opts.model@,
                        s.tools,
                        opts.assistant.program@,
                    ),
                    opts.assistant.dir@,
                    text::opt_str(home),
                    text::opt_str(uid),
                    text::opt_str(gid),
                )
            })
        }),
{
}

/// Of an agent in a container it is told where it works, on which branch, who it is and what the
/// container is called; a quiet launch prints the container and nothing else.
pub proof fn law_started_containers_are_told<'a>(
    s: LaunchView,
    opts: &'a KickoffOpts<'a>,
    printed: String,
)
    ensures
        step(s, Request::Feature(opts), Event::ContainerStarted(printed)).1
            matches ActionView::Finish(out) && {
            &&& opts.quiet ==> out == text::trim(printed@) + "\n"@
            &&& !opts.quiet ==> text::contains(out, s.worktree) && text::contains(out, s.branch)
                && text::contains(out, s.agent_id) && text::contains(
                out,
                naming::cut(text::trim(printed@), 12),
            ) && text::contains(out, text::dec_int(s.issue_id->0 as int))
        },
{
    broadcast use {text::lemma_contains_self, text::lemma_contains_first, text::lemma_contains_second};

}

/// What goes wrong stops the launch, with what the program complained of.
pub proof fn law_failures_are_told(s: LaunchView, request: Request, complaint: String)
    ensures
        step(s, request, Event::WorktreeAdded(Err(complaint))).1 matches ActionView::Fail(m)
            && text::has_suffix(m, text::trim(complaint@)),
        step(s, request, Event::NoSession(complaint)).1 matches ActionView::Fail(m)
            && text::has_suffix(m, text::trim(complaint@)),
        step(s, request, Event::NoKeys(complaint)).1 matches ActionView::Fail(m)
            && text::has_suffix(m, text::trim(complaint@)),
        step(s, request, Event::NoContainer(complaint)).1 matches ActionView::Fail(m)
            && text::has_suffix(m, text::trim(complaint@)),
{
    broadcast use text::lemma_suffix_of_sum;

}

/// A launch needs what the machine lacks only where something is launched: a dry run needs
/// nothing, and any other what the pre-flight check asks for.
pub proof fn law_dry_runs_need_nothing(
    request: Request,
    hook_config: Option<Seq<char>>,
    platform: Platform,
    available: Seq<Seq<char>>,
)
    ensures
        request.is_dry() ==> lacking(request, hook_config, platform, available).len() == 0,
        !request.is_dry() && request.place() == ContainerMode::Local && !text::has_name(
            available,
            "tmux"@,
        ) ==> lacking(request, hook_config, platform, available).len() > 0,
        !request.is_dry() && request.level() != VerifyLevel::Local && !text::has_name(
            available,
            "gh"@,
        ) ==> lacking(request, hook_config, platform, available).len() > 0,
{
}

/// What was asked for is what the launch goes by.
pub proof fn law_requests_are_kept<'a>(opts: &'a KickoffOpts<'a>, plan: &'a PlanOpts<'a>)
    ensures
        ({
            let r = Request::Feature(opts);
            &&& r.is_dry() == opts.dry_run && r.is_quiet() == opts.quiet && r.given_issue()
                == opts.issue
            &&& r.given_branch() == text::opt_view(opts.branch)
            &&& r.place() == opts.container && r.level() == opts.verify && r.assistant()
                == opts.assistant
            &&& r.wanted_model() == opts.model@ && r.limit() == opts.timeout && r.prompt_file()
                == "KICKOFF.md"@
        }),
        ({
            let r = Request::Analysis(plan);
            &&& r.is_dry() == plan.dry_run && r.is_quiet() == plan.quiet && r.given_issue()
                == plan.issue
            &&& r.given_branch() is None && r.place() == ContainerMode::Local && r.level()
                == VerifyLevel::Local
            &&& r.assistant() == plan.assistant && r.wanted_model() == plan.model@ && r.limit()
                == plan.timeout && r.prompt_file() == "PLAN_KICKOFF.md"@
            &&& r.slug() matches Some(slug) ==> text::has_prefix(slug, "plan-"@)
        }),
{
    broadcast use text::lemma_prefix_of_sum;

}

/// A launch begins exactly where nothing is missing and the feature has a name that can be cut. It
/// begins with nothing done yet; unless it is dry, it knows what limits its time and the sandbox.
pub proof fn law_launches_begin_with_what_is_there(
    request: &Request,
    hook_config: Option<&str>,
    platform: &Platform,
    available: &Vec<String>,
    r: Result<Option<Launch>, String>,
)
    requires
        call_ensures(begin, (request, hook_config, platform, available), r),
    ensures
        r is Err <==> lacking(
            *request,
            text::opt_view(hook_config),
            *platform,
            text::strs(available@),
        ).len() > 0,
        r matches Ok(Some(launch)) ==> {
            &&& Some(launch@.slug) == request.slug()
            &&& launch@.stage == Stage::Root
            &&& launch@.issue_id is None
            &&& launch@.prompt.len() == 0
            &&& !request.is_dry() ==> launch@.sandbox_command == platform::sandbox_command(
                text::opt_view(hook_config),
            )
        },
{
}

} // verus!
