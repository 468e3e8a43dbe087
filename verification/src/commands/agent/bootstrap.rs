//! Letting a container agent join a hub, step by step: clone the repository, give the
//! agent its identity, and register it on the hub branch.

use crate::commands::agent;
use crate::identity;
use crate::identity::{add_key, clone_config, AgentConfig, ConfigView, Keypair};
use crate::paths;
use crate::paths::join_path;
use crate::text;
use crate::text::{contains_str, eq_str, own, trim_str};
use vstd::prelude::*;

verus! {

/// What is asked for.
pub struct BootstrapOpts<'a> {
    pub target_dir: &'a str,
    pub repo_url: &'a str,
    pub agent_id: &'a str,
    pub branch: Option<&'a str>,
    pub description: Option<&'a str>,
    pub no_key: bool,
}

/// What a bootstrap waits for.
#[derive(Debug, Clone, Copy, PartialEq, Eq, Structural)]
pub enum Stage {
    /// Whether the target is missing or empty.
    Target,
    /// The clone.
    Clone,
    /// The remote of a repository that is there.
    Remote,
    /// The branch.
    Checkout,
    /// The configuration directory, and the configuration in it.
    Config,
    /// The configuration of a new agent.
    Identity,
    /// The key.
    Key,
    /// The configuration with its key.
    Saving,
    /// The cache of the hub.
    Hub,
    /// The heartbeat.
    Heartbeat,
    /// The heartbeat in the index.
    Adding,
    /// The commit.
    Committing,
    /// The push, the signing and the published key.
    Publishing,
    /// Nothing more.
    Done,
}

/// A bootstrap under way.
pub struct Bootstrap {
    pub stage: Stage,
    /// The configuration, once it is known.
    pub config: Option<AgentConfig>,
}

/// The model of a bootstrap.
#[verifier::ext_equal]
pub struct BootstrapView {
    pub stage: Stage,
    pub config: Option<ConfigView>,
}

impl View for Bootstrap {
    type V = BootstrapView;

    open spec fn view(&self) -> BootstrapView {
        BootstrapView {
            stage: self.stage,
            config: match self.config {
                Some(c) => Some(c@),
                None => None,
            },
        }
    }
}

/// What came of the last action.
pub enum Event {
    /// Whether the target is missing or empty.
    TargetEmpty(bool),
    /// The clone succeeded, or what git complained of.
    Cloned(Result<(), String>),
    /// The address of the origin; `None` where there is none.
    Origin(Option<String>),
    /// The checkout succeeded, or what git complained of.
    CheckedOut(Result<(), String>),
    /// The configuration that is there, if any.
    Loaded(Option<AgentConfig>),
    /// The key, or why there is none.
    KeyMade(Result<Keypair, String>),
    /// The last action is done.
    Ready,
    /// The last git command succeeded, or what git complained of.
    Git(Result<(), String>),
    /// The key was published, or why it was not.
    Published(Result<(), String>),
}

/// What is to be done next, after the text is printed.
pub enum Action {
    /// Clone the repository into the target.
    Clone(String, String),
    /// Ask the repository for the address of its origin.
    AskOrigin(String),
    /// Check the branch out.
    Checkout(String),
    /// Create the configuration directory and read the configuration in it.
    LoadConfig(String),
    /// Configure the agent of this name and description, and read it back.
    InitIdentity(String, Option<String>),
    /// Make a key for the agent on the machine.
    MakeKey(String, String),
    /// Write the configuration.
    SaveConfig(AgentConfig),
    /// Prepare the cache of the hub and fetch.
    PrepareHub(String),
    /// Write the heartbeat of the active agent to its directory on the hub.
    WriteHeartbeat(String),
    /// Run git in the cache with these arguments.
    RunGit(Vec<String>),
    /// Push and set up signing; publish the key, where there is one.
    Publish(Option<String>),
    /// All is done.
    Finish,
    /// Fail with the message.
    Fail(String),
}

/// The model of an action.
#[verifier::ext_equal]
pub enum ActionView {
    Clone(Seq<char>, Seq<char>),
    AskOrigin(Seq<char>),
    Checkout(Seq<char>),
    LoadConfig(Seq<char>),
    InitIdentity(Seq<char>, Option<Seq<char>>),
    MakeKey(Seq<char>, Seq<char>),
    SaveConfig(ConfigView),
    PrepareHub(Seq<char>),
    WriteHeartbeat(Seq<char>),
    RunGit(Seq<Seq<char>>),
    Publish(Option<Seq<char>>),
    Finish,
    Fail(Seq<char>),
}

impl View for Action {
    type V = ActionView;

    open spec fn view(&self) -> ActionView {
        match self {
            Action::Clone(url, target) => ActionView::Clone(url@, target@),
            Action::AskOrigin(target) => ActionView::AskOrigin(target@),
            Action::Checkout(branch) => ActionView::Checkout(branch@),
            Action::LoadConfig(dir) => ActionView::LoadConfig(dir@),
            Action::InitIdentity(id, description) => ActionView::InitIdentity(
                id@,
                text::opt_str(*description),
            ),
            Action::MakeKey(id, machine) => ActionView::MakeKey(id@, machine@),
            Action::SaveConfig(config) => ActionView::SaveConfig(config@),
            Action::PrepareHub(dir) => ActionView::PrepareHub(dir@),
            Action::WriteHeartbeat(dir) => ActionView::WriteHeartbeat(dir@),
            Action::RunGit(args) => ActionView::RunGit(text::strs(args@)),
            Action::Publish(key) => ActionView::Publish(text::opt_str(*key)),
            Action::Finish => ActionView::Finish,
            Action::Fail(message) => ActionView::Fail(message@),
        }
    }
}

/// What a step gives: the bootstrap, what is printed, and what is to be done next.
#[verifier::ext_equal]
pub struct StepView {
    pub state: BootstrapView,
    pub say: Seq<char>,
    pub action: ActionView,
}

/// A step that prints nothing.
pub open spec fn silent(state: BootstrapView, action: ActionView) -> StepView {
    StepView { state, say: ""@, action }
}

/// A step that fails.
pub open spec fn failed(s: BootstrapView, message: Seq<char>) -> StepView {
    silent(BootstrapView { stage: Stage::Done, ..s }, ActionView::Fail(message))
}

/// The configuration directory of the target.
pub open spec fn crosslink_dir(opts: BootstrapOpts) -> Seq<char> {
    paths::joined(opts.target_dir@, ".crosslink"@)
}

/// A target that is missing or empty is cloned into. Any other must be a clone of the
/// repository already.
pub open spec fn on_target(s: BootstrapView, opts: BootstrapOpts, empty: bool) -> StepView {
    if empty {
        silent(
            BootstrapView { stage: Stage::Clone, ..s },
            ActionView::Clone(opts.repo_url@, opts.target_dir@),
        )
    } else {
        silent(
            BootstrapView { stage: Stage::Remote, ..s },
            ActionView::AskOrigin(opts.target_dir@),
        )
    }
}

/// With the repository in place, a given branch is checked out.
pub open spec fn on_repository(s: BootstrapView, opts: BootstrapOpts) -> StepView {
    match opts.branch {
        Some(branch) => silent(
            BootstrapView { stage: Stage::Checkout, ..s },
            ActionView::Checkout(branch@),
        ),
        None => on_branch(s, opts),
    }
}

/// With the branch in place, the configuration is read.
pub open spec fn on_branch(s: BootstrapView, opts: BootstrapOpts) -> StepView {
    silent(
        BootstrapView { stage: Stage::Config, ..s },
        ActionView::LoadConfig(crosslink_dir(opts)),
    )
}

/// The origin must be the repository that was asked for.
pub open spec fn on_origin(s: BootstrapView, opts: BootstrapOpts, origin: Option<Seq<char>>) -> StepView {
    match origin {
        None => failed(
            s,
            "Directory '"@ + opts.target_dir@
                + "' exists but is not a git repository with an origin remote"@,
        ),
        Some(url) => if text::trim(url) == opts.repo_url@ {
            on_repository(s, opts)
        } else {
            failed(
                s,
                "Remote mismatch: existing origin is '"@ + text::trim(url) + "', expected '"@
                    + opts.repo_url@ + "'"@,
            )
        },
    }
}

/// With the configuration known, a key is made unless there is one or none is wanted.
pub open spec fn on_config(
    s: BootstrapView,
    opts: BootstrapOpts,
    config: ConfigView,
    say: Seq<char>,
) -> StepView {
    let t = BootstrapView { config: Some(config), ..s };
    if !opts.no_key && config.ssh_key_path is None {
        StepView {
            state: BootstrapView { stage: Stage::Key, ..t },
            say,
            action: ActionView::MakeKey(opts.agent_id@, config.machine_id),
        }
    } else {
        on_keyed(t, opts, say)
    }
}

/// With the key settled, the hub is prepared.
pub open spec fn on_keyed(s: BootstrapView, opts: BootstrapOpts, say: Seq<char>) -> StepView {
    StepView {
        state: BootstrapView { stage: Stage::Hub, ..s },
        say,
        action: ActionView::PrepareHub(crosslink_dir(opts)),
    }
}

/// An agent that is configured keeps its configuration.
pub open spec fn on_loaded(s: BootstrapView, opts: BootstrapOpts, config: Option<ConfigView>) -> StepView {
    match config {
        Some(c) => on_config(
            s,
            opts,
            c,
            "Agent already configured in this repo, skipping identity init.\n"@,
        ),
        None => silent(
            BootstrapView { stage: Stage::Identity, ..s },
            ActionView::InitIdentity(opts.agent_id@, text::opt_view(opts.description)),
        ),
    }
}

/// An agent that was just configured must have a configuration.
pub open spec fn on_identity(s: BootstrapView, opts: BootstrapOpts, config: Option<ConfigView>) -> StepView {
    match config {
        Some(c) => on_config(s, opts, c, ""@),
        None => failed(s, "Failed to load agent config after init"@),
    }
}

/// A key is noted in the configuration; without one the agent goes on unsigned.
pub open spec fn on_key(
    s: BootstrapView,
    opts: BootstrapOpts,
    key: Result<identity::KeypairView, Seq<char>>,
) -> StepView {
    match key {
        Ok(k) => {
            let config = identity::with_key(s.config->0, opts.agent_id@, k);
            silent(
                BootstrapView { stage: Stage::Saving, config: Some(config) },
                ActionView::SaveConfig(config),
            )
        },
        Err(e) => on_keyed(
            s,
            opts,
            "  Warning: Could not generate SSH key: "@ + e + "\n  Signing will be unavailable.\n"@,
        ),
    }
}

/// The argument under which the agent's directory is added to the index.
pub open spec fn agent_dir_argument(opts: BootstrapOpts) -> Seq<char> {
    "agents/"@ + opts.agent_id@ + "/"@
}

/// The message of the commit.
pub open spec fn commit_message(opts: BootstrapOpts) -> Seq<char> {
    "bootstrap: register agent '"@ + opts.agent_id@ + "'"@
}

/// The arguments with which git adds the agent's directory.
pub open spec fn add_args(opts: BootstrapOpts) -> Seq<Seq<char>> {
    seq!["add"@, agent_dir_argument(opts)]
}

/// The arguments with which git commits it.
pub open spec fn commit_args(opts: BootstrapOpts) -> Seq<Seq<char>> {
    seq!["commit"@, "-m"@, commit_message(opts)]
}

/// Whether a git command may be gone on from: it succeeded, or there was nothing to
/// commit.
pub open spec fn git_went_well(result: Result<(), Seq<char>>) -> bool {
    match result {
        Ok(_) => true,
        Err(complaint) => text::contains(complaint, "nothing to commit"@),
    }
}

/// What is said of a git command that failed, with its arguments listed.
pub open spec fn git_failure(arguments: Seq<char>, complaint: Seq<char>) -> Seq<char> {
    "git "@ + arguments + " failed: "@ + text::trim(complaint)
}

/// What is printed at the end.
pub open spec fn summary(acc: Seq<char>, opts: BootstrapOpts, config: ConfigView) -> Seq<char> {
    let a = acc + "Bootstrap complete:\n  Agent ID:  "@ + config.agent_id + "\n  Machine:   "@
        + config.machine_id + "\n"@;
    let b = agent::with_line(a, "  SSH key:   "@, config.ssh_fingerprint);
    b + "  Repo path: "@ + opts.target_dir@
        + "\n\nAsk your driver to approve this agent with `crosslink trust approve "@ + opts.agent_id@
        + "`\n"@
}

/// A key that could not be published is no reason to stop.
pub open spec fn on_published(
    s: BootstrapView,
    opts: BootstrapOpts,
    published: Result<(), Seq<char>>,
) -> StepView {
    let note = match published {
        Ok(_) => ""@,
        Err(e) => "  Note: Could not publish key to hub: "@ + e
            + "\n  The driver can manually copy your public key.\n"@,
    };
    StepView {
        state: BootstrapView { stage: Stage::Done, ..s },
        say: summary(note, opts, s.config->0),
        action: ActionView::Finish,
    }
}

/// The view of a result without a value.
pub open spec fn outcome(r: Result<(), String>) -> Result<(), Seq<char>> {
    match r {
        Ok(_) => Ok(()),
        Err(e) => Err(e@),
    }
}

/// Whether an event is one that the bootstrap waits for.
pub open spec fn expects(s: BootstrapView, event: Event) -> bool {
    match event {
        Event::TargetEmpty(_) => s.stage == Stage::Target,
        Event::Cloned(_) => s.stage == Stage::Clone,
        Event::Origin(_) => s.stage == Stage::Remote,
        Event::CheckedOut(_) => s.stage == Stage::Checkout,
        Event::Loaded(_) => s.stage == Stage::Config || s.stage == Stage::Identity,
        Event::KeyMade(_) => s.stage == Stage::Key && s.config is Some,
        Event::Ready => s.stage == Stage::Saving || s.stage == Stage::Hub || s.stage
            == Stage::Heartbeat,
        Event::Git(_) => (s.stage == Stage::Adding || s.stage == Stage::Committing)
            && s.config is Some,
        Event::Published(_) => s.stage == Stage::Publishing && s.config is Some,
    }
}

/// A step of a bootstrap.
pub open spec fn step(s: BootstrapView, opts: BootstrapOpts, event: Event) -> StepView {
    match event {
        Event::TargetEmpty(empty) => on_target(s, opts, empty),
        Event::Cloned(result) => match outcome(result) {
            Ok(_) => on_repository(s, opts),
            Err(complaint) => failed(s, "git clone failed: "@ + text::trim(complaint)),
        },
        Event::Origin(origin) => on_origin(s, opts, text::opt_str(origin)),
        Event::CheckedOut(result) => match outcome(result) {
            Ok(_) => on_branch(s, opts),
            Err(complaint) => failed(
                s,
                "git checkout '"@ + (match opts.branch {
                    Some(b) => b@,
                    None => ""@,
                }) + "' failed: "@ + text::trim(complaint),
            ),
        },
        Event::Loaded(config) => {
            let c = match config {
                Some(c) => Some(c@),
                None => None,
            };
            if s.stage == Stage::Config {
                on_loaded(s, opts, c)
            } else {
                on_identity(s, opts, c)
            }
        },
        Event::KeyMade(key) => on_key(
            s,
            opts,
            match key {
                Ok(k) => Ok(k@),
                Err(e) => Err(e@),
            },
        ),
        Event::Ready => if s.stage == Stage::Saving {
            on_keyed(s, opts, ""@)
        } else if s.stage == Stage::Hub {
            silent(
                BootstrapView { stage: Stage::Heartbeat, ..s },
                ActionView::WriteHeartbeat(paths::joined("agents"@, opts.agent_id@)),
            )
        } else {
            silent(
                BootstrapView { stage: Stage::Adding, ..s },
                ActionView::RunGit(add_args(opts)),
            )
        },
        Event::Git(result) => if s.stage == Stage::Adding {
            if git_went_well(outcome(result)) {
                silent(
                    BootstrapView { stage: Stage::Committing, ..s },
                    ActionView::RunGit(commit_args(opts)),
                )
            } else {
                failed(
                    s,
                    git_failure(listed(add_args(opts)), outcome(result)->Err_0),
                )
            }
        } else {
            if git_went_well(outcome(result)) {
                silent(
                    BootstrapView { stage: Stage::Publishing, ..s },
                    ActionView::Publish(s.config->0.ssh_public_key),
                )
            } else {
                failed(
                    s,
                    git_failure(listed(commit_args(opts)), outcome(result)->Err_0),
                )
            }
        },
        Event::Published(result) => on_published(s, opts, outcome(result)),
    }
}

/// A list of strings as it is printed for debugging.
pub uninterp spec fn listed(items: Seq<Seq<char>>) -> Seq<char>;

/// Formats a list of strings with `std`'s `Debug`: in square brackets, each in
/// quotes with its special characters escaped. What comes out depends on the
/// strings alone.
#[verifier::external_body]
fn debug_list(items: &Vec<String>) -> (r: String)
    ensures
        r@ == listed(text::strs(items@)),
{
    format!("{:?}", items)
}

/// Begins a bootstrap. What it waits for first is whether the target is empty.
pub fn begin() -> (r: Bootstrap)
    ensures
        r@ == (BootstrapView { stage: Stage::Target, config: None }),
{
    Bootstrap { stage: Stage::Target, config: None }
}

fn say_nothing() -> (r: String)
    ensures
        r@ == ""@,
{
    own("")
}

fn two(a: &str, b: &str) -> (r: String)
    ensures
        r@ == a@ + b@,
{
    let mut out = own(a);
    out.append(b);
    out
}

fn three(a: &str, b: &str, c: &str) -> (r: String)
    ensures
        r@ == a@ + b@ + c@,
{
    let mut out = own(a);
    out.append(b);
    out.append(c);
    out
}

impl Bootstrap {
    fn fail(&mut self, message: String) -> (r: (String, Action))
        ensures
            (StepView { state: final(self)@, say: r.0@, action: r.1@ }) == failed(
                old(self)@,
                message@,
            ),
    {
        self.stage = Stage::Done;
        (say_nothing(), Action::Fail(message))
    }

    fn repository_ready(&mut self, opts: &BootstrapOpts) -> (r: (String, Action))
        ensures
            (StepView { state: final(self)@, say: r.0@, action: r.1@ }) == on_repository(
                old(self)@,
                *opts,
            ),
    {
        match opts.branch {
            Some(branch) => {
                self.stage = Stage::Checkout;
                (say_nothing(), Action::Checkout(own(branch)))
            },
            None => self.branch_ready(opts),
        }
    }

    fn branch_ready(&mut self, opts: &BootstrapOpts) -> (r: (String, Action))
        ensures
            (StepView { state: final(self)@, say: r.0@, action: r.1@ }) == on_branch(
                old(self)@,
                *opts,
            ),
    {
        self.stage = Stage::Config;
        (say_nothing(), Action::LoadConfig(join_path(opts.target_dir, ".crosslink")))
    }

    fn origin_known(&mut self, opts: &BootstrapOpts, origin: Option<String>) -> (r: (String, Action))
        ensures
            (StepView { state: final(self)@, say: r.0@, action: r.1@ }) == on_origin(
                old(self)@,
                *opts,
                text::opt_str(origin),
            ),
    {
        let url = match origin {
            Some(url) => trim_str(url.as_str()),
            None => {
                return self.fail(
                    three(
                        "Directory '",
                        opts.target_dir,
                        "' exists but is not a git repository with an origin remote",
                    ),
                );
            },
        };
        if eq_str(url.as_str(), opts.repo_url) {
            return self.repository_ready(opts);
        }
        let mut message = own("Remote mismatch: existing origin is '");
        message.append(url.as_str());
        message.append("', expected '");
        message.append(opts.repo_url);
        message.append("'");
        self.fail(message)
    }

    fn keyed(&mut self, opts: &BootstrapOpts, say: String) -> (r: (String, Action))
        ensures
            (StepView { state: final(self)@, say: r.0@, action: r.1@ }) == on_keyed(
                old(self)@,
                *opts,
                say@,
            ),
    {
        self.stage = Stage::Hub;
        (say, Action::PrepareHub(join_path(opts.target_dir, ".crosslink")))
    }

    fn config_known(&mut self, opts: &BootstrapOpts, config: AgentConfig, say: String) -> (r: (
        String,
        Action,
    ))
        ensures
            (StepView { state: final(self)@, say: r.0@, action: r.1@ }) == on_config(
                old(self)@,
                *opts,
                config@,
                say@,
            ),
    {
        let make_key = !opts.no_key && config.ssh_key_path.is_none();
        let machine = own(config.machine_id.as_str());
        self.config = Some(config);
        if make_key {
            self.stage = Stage::Key;
            (say, Action::MakeKey(own(opts.agent_id), machine))
        } else {
            self.keyed(opts, say)
        }
    }

    fn loaded(&mut self, opts: &BootstrapOpts, config: Option<AgentConfig>) -> (r: (String, Action))
        requires
            expects(old(self)@, Event::Loaded(config)),
        ensures
            (StepView { state: final(self)@, say: r.0@, action: r.1@ }) == step(
                old(self)@,
                *opts,
                Event::Loaded(config),
            ),
    {
        if self.stage == Stage::Config {
            match config {
                Some(c) => self.config_known(
                    opts,
                    c,
                    own("Agent already configured in this repo, skipping identity init.\n"),
                ),
                None => {
                    self.stage = Stage::Identity;
                    (
                        say_nothing(),
                        Action::InitIdentity(own(opts.agent_id), text::own_opt(opts.description)),
                    )
                },
            }
        } else {
            match config {
                Some(c) => self.config_known(opts, c, say_nothing()),
                None => self.fail(own("Failed to load agent config after init")),
            }
        }
    }

    fn key_made(&mut self, opts: &BootstrapOpts, key: Result<Keypair, String>) -> (r: (
        String,
        Action,
    ))
        requires
            expects(old(self)@, Event::KeyMade(key)),
        ensures
            (StepView { state: final(self)@, say: r.0@, action: r.1@ }) == step(
                old(self)@,
                *opts,
                Event::KeyMade(key),
            ),
    {
        match key {
            Ok(k) => {
                let mut config = match &self.config {
                    Some(c) => clone_config(c),
                    None => {
                        return self.fail(String::new());
                    },
                };
                add_key(&mut config, opts.agent_id, &k);
                let copy = clone_config(&config);
                self.stage = Stage::Saving;
                self.config = Some(config);
                (say_nothing(), Action::SaveConfig(copy))
            },
            Err(e) => self.keyed(
                opts,
                three(
                    "  Warning: Could not generate SSH key: ",
                    e.as_str(),
                    "\n  Signing will be unavailable.\n",
                ),
            ),
        }
    }

    fn ready(&mut self, opts: &BootstrapOpts) -> (r: (String, Action))
        requires
            expects(old(self)@, Event::Ready),
        ensures
            (StepView { state: final(self)@, say: r.0@, action: r.1@ }) == step(
                old(self)@,
                *opts,
                Event::Ready,
            ),
    {
        if self.stage == Stage::Saving {
            self.keyed(opts, say_nothing())
        } else if self.stage == Stage::Hub {
            self.stage = Stage::Heartbeat;
            (say_nothing(), Action::WriteHeartbeat(join_path("agents", opts.agent_id)))
        } else {
            self.stage = Stage::Adding;
            let args = vec![own("add"), three("agents/", opts.agent_id, "/")];
            assert(text::strs(args@) =~= add_args(*opts));
            (say_nothing(), Action::RunGit(args))
        }
    }

    fn git_done(&mut self, opts: &BootstrapOpts, result: Result<(), String>) -> (r: (String, Action))
        requires
            expects(old(self)@, Event::Git(result)),
        ensures
            (StepView { state: final(self)@, say: r.0@, action: r.1@ }) == step(
                old(self)@,
                *opts,
                Event::Git(result),
            ),
    {
        let adding = self.stage == Stage::Adding;
        let message = three("bootstrap: register agent '", opts.agent_id, "'");
        let dir = three("agents/", opts.agent_id, "/");
        if let Err(complaint) = &result {
            if !contains_str(complaint.as_str(), "nothing to commit") {
                let items = if adding {
                    vec![own("add"), dir]
                } else {
                    vec![own("commit"), own("-m"), message]
                };
                assert(adding ==> text::strs(items@) =~= add_args(*opts));
                assert(!adding ==> text::strs(items@) =~= commit_args(*opts));
                let mut out = own("git ");
                out.append(debug_list(&items).as_str());
                out.append(" failed: ");
                out.append(trim_str(complaint.as_str()).as_str());
                return self.fail(out);
            }
        }
        if adding {
            self.stage = Stage::Committing;
            let args = vec![own("commit"), own("-m"), message];
            assert(text::strs(args@) =~= commit_args(*opts));
            (say_nothing(), Action::RunGit(args))
        } else {
            self.stage = Stage::Publishing;
            let key = match &self.config {
                Some(c) => identity::clone_opt(&c.ssh_public_key),
                None => None,
            };
            (say_nothing(), Action::Publish(key))
        }
    }

    fn published(&mut self, opts: &BootstrapOpts, result: Result<(), String>) -> (r: (
        String,
        Action,
    ))
        requires
            expects(old(self)@, Event::Published(result)),
        ensures
            (StepView { state: final(self)@, say: r.0@, action: r.1@ }) == step(
                old(self)@,
                *opts,
                Event::Published(result),
            ),
    {
        let mut out = match &result {
            Ok(_) => say_nothing(),
            Err(e) => three(
                "  Note: Could not publish key to hub: ",
                e.as_str(),
                "\n  The driver can manually copy your public key.\n",
            ),
        };
        if let Some(config) = &self.config {
            out.append("Bootstrap complete:\n  Agent ID:  ");
            out.append(config.agent_id.as_str());
            out.append("\n  Machine:   ");
            out.append(config.machine_id.as_str());
            out.append("\n");
            agent::push_line(&mut out, "  SSH key:   ", &config.ssh_fingerprint);
            out.append("  Repo path: ");
            out.append(opts.target_dir);
            out.append(
                "\n\nAsk your driver to approve this agent with `crosslink trust approve ",
            );
            out.append(opts.agent_id);
            out.append("`\n");
        }
        self.stage = Stage::Done;
        (out, Action::Finish)
    }

    /// Takes in what came of the last action; says what is printed and what is to be
    /// done next.
    pub fn advance(&mut self, opts: &BootstrapOpts, event: Event) -> (r: (String, Action))
        requires
            expects(old(self)@, event),
        ensures
            (StepView { state: final(self)@, say: r.0@, action: r.1@ }) == step(
                old(self)@,
                *opts,
                event,
            ),
    {
        match event {
            Event::TargetEmpty(empty) => if empty {
                self.stage = Stage::Clone;
                (say_nothing(), Action::Clone(own(opts.repo_url), own(opts.target_dir)))
            } else {
                self.stage = Stage::Remote;
                (say_nothing(), Action::AskOrigin(own(opts.target_dir)))
            },
            Event::Cloned(result) => match result {
                Ok(_) => self.repository_ready(opts),
                Err(complaint) => self.fail(
                    two("git clone failed: ", trim_str(complaint.as_str()).as_str()),
                ),
            },
            Event::Origin(origin) => self.origin_known(opts, origin),
            Event::CheckedOut(result) => match result {
                Ok(_) => self.branch_ready(opts),
                Err(complaint) => {
                    let mut message = own("git checkout '");
                    message.append(
                        match opts.branch {
                            Some(b) => b,
                            None => "",
                        },
                    );
                    message.append("' failed: ");
                    message.append(trim_str(complaint.as_str()).as_str());
                    self.fail(message)
                },
            },
            Event::Loaded(config) => self.loaded(opts, config),
            Event::KeyMade(key) => self.key_made(opts, key),
            Event::Ready => self.ready(opts),
            Event::Git(result) => self.git_done(opts, result),
            Event::Published(result) => self.published(opts, result),
        }
    }
}

// ---------------------------------------------------------------------------
// Laws
// ---------------------------------------------------------------------------

/// How far a bootstrap has come.
pub open spec fn rank(stage: Stage) -> nat {
    match stage {
        Stage::Target => 0,
        Stage::Clone => 1,
        Stage::Remote => 1,
        Stage::Checkout => 2,
        Stage::Config => 3,
        Stage::Identity => 4,
        Stage::Key => 5,
        Stage::Saving => 6,
        Stage::Hub => 7,
        Stage::Heartbeat => 8,
        Stage::Adding => 9,
        Stage::Committing => 10,
        Stage::Publishing => 11,
        Stage::Done => 12,
    }
}

/// Every step brings a bootstrap nearer to its end.
pub proof fn law_bootstrap_makes_progress(s: BootstrapView, opts: BootstrapOpts, event: Event)
    requires
        expects(s, event),
    ensures
        rank(step(s, opts, event).state.stage) > rank(s.stage),
{
}

/// An agent that is configured already keeps its name and description, and the key
/// that it has: only a missing key is added.
pub proof fn law_existing_agent_is_kept(
    s: BootstrapView,
    opts: BootstrapOpts,
    config: AgentConfig,
    event: Event,
)
    requires
        s.stage == Stage::Config,
        s.config is None,
    ensures
        step(s, opts, Event::Loaded(Some(config))).state.config == Some(config@),
        config.ssh_key_path is Some ==> step(s, opts, Event::Loaded(Some(config))).state.stage
            == Stage::Hub,
        ({
            let t = step(s, opts, Event::Loaded(Some(config))).state;
            expects(t, event) ==> {
                let u = step(t, opts, event).state.config->0;
                u.agent_id == config@.agent_id && u.machine_id == config@.machine_id
                    && u.description == config@.description
            }
        }),
{
}

/// A target whose origin is another repository is left alone.
pub proof fn law_other_repository_is_refused(s: BootstrapView, opts: BootstrapOpts, origin: String)
    requires
        s.stage == Stage::Remote,
        text::trim(origin@) != opts.repo_url@,
    ensures
        step(s, opts, Event::Origin(Some(origin))).action is Fail,
{
}

/// An empty target is cloned into from the repository that was asked for; of any other its origin
/// is asked.
pub proof fn law_only_empty_targets_are_cloned_into(
    s: BootstrapView,
    opts: BootstrapOpts,
    empty: bool,
)
    ensures
        empty ==> step(s, opts, Event::TargetEmpty(empty)).action == ActionView::Clone(
            opts.repo_url@,
            opts.target_dir@,
        ),
        !empty ==> step(s, opts, Event::TargetEmpty(empty)).action == ActionView::AskOrigin(
            opts.target_dir@,
        ),
{
}

/// A bootstrap fails where git fails to clone, to check out, to add or to commit, where the target
/// has another origin or none, and where a new identity cannot be read back. It fails for no other
/// reason; that there is nothing to commit is none.
pub proof fn law_bootstraps_fail_for_a_reason(s: BootstrapView, opts: BootstrapOpts, event: Event)
    requires
        expects(s, event),
    ensures
        step(s, opts, event).action is Fail <==> match event {
            Event::Cloned(result) => result is Err,
            Event::CheckedOut(result) => result is Err,
            Event::Origin(origin) => !(origin matches Some(url) && text::trim(url@)
                == opts.repo_url@),
            Event::Loaded(config) => s.stage == Stage::Identity && config is None,
            Event::Git(result) => result matches Err(complaint) && !text::contains(
                complaint@,
                "nothing to commit"@,
            ),
            _ => false,
        },
{
}

/// Why a bootstrap failed is told: what git complained of, and which branch or address it was
/// about.
pub proof fn law_failed_bootstraps_are_explained(
    s: BootstrapView,
    opts: BootstrapOpts,
    complaint: String,
    branch: &str,
    url: String,
)
    ensures
        step(s, opts, Event::Cloned(Err(complaint))).action matches ActionView::Fail(message)
            && text::has_suffix(message, text::trim(complaint@)),
        step(s, opts, Event::CheckedOut(Err(complaint))).action matches ActionView::Fail(message)
            && text::has_suffix(message, text::trim(complaint@)),
        opts.branch == Some(branch) ==> (step(
            s,
            opts,
            Event::CheckedOut(Err(complaint)),
        ).action matches ActionView::Fail(message) && text::contains(
            message,
            "git checkout '"@ + branch@,
        )),
        step(s, opts, Event::Origin(None)).action matches ActionView::Fail(message)
            && text::contains(message, "Directory '"@ + opts.target_dir@),
        text::trim(url@) != opts.repo_url@ ==> (step(
            s,
            opts,
            Event::Origin(Some(url)),
        ).action matches ActionView::Fail(message) && text::contains(
            message,
            "existing origin is '"@ + text::trim(url@),
        ) && text::contains(message, "', expected '"@ + opts.repo_url@)),
        s.stage == Stage::Adding || s.stage == Stage::Committing ==> (!text::contains(
            complaint@,
            "nothing to commit"@,
        ) ==> (step(s, opts, Event::Git(Err(complaint))).action matches ActionView::Fail(message)
            && text::has_suffix(message, text::trim(complaint@)))),
{
    broadcast use {
        text::lemma_contains_self,
        text::lemma_contains_first,
        text::lemma_contains_pair,
        text::lemma_suffix_of_sum,
    };

    let label = "Remote mismatch: existing origin is '"@;
    let short = "existing origin is '"@;
    reveal_strlit("Remote mismatch: existing origin is '");
    reveal_strlit("existing origin is '");
    assert(label =~= label.take(17) + short);
    text::lemma_contains_pair(label.take(17), short, text::trim(url@));
    assert(text::contains(label + text::trim(url@), short + text::trim(url@)));
}

/// With the repository in place, the branch that was asked for is checked out, and none where none
/// was asked for; then the configuration of the target is read.
pub proof fn law_branches_are_checked_out_as_asked(s: BootstrapView, opts: BootstrapOpts, url: String)
    ensures
        opts.branch matches Some(branch) ==> step(s, opts, Event::Cloned(Ok(()))).action
            == ActionView::Checkout(branch@),
        opts.branch is None ==> step(s, opts, Event::Cloned(Ok(()))).action
            == ActionView::LoadConfig(crosslink_dir(opts)),
        text::trim(url@) == opts.repo_url@ ==> step(s, opts, Event::Origin(Some(url))) == step(
            s,
            opts,
            Event::Cloned(Ok(())),
        ),
        step(s, opts, Event::CheckedOut(Ok(()))).action == ActionView::LoadConfig(
            crosslink_dir(opts),
        ),
        text::has_suffix(crosslink_dir(opts), ".crosslink"@),
{
    reveal_strlit(".crosslink");
    if opts.target_dir@.len() > 0 {
        paths::law_paths_lead_on(opts.target_dir@, ".crosslink"@);
    } else {
        assert(crosslink_dir(opts).skip(0) =~= ".crosslink"@);
    }
}

/// An agent without a configuration gets the identity that was asked for.
pub proof fn law_identities_are_as_asked(s: BootstrapView, opts: BootstrapOpts)
    requires
        s.stage == Stage::Config,
    ensures
        step(s, opts, Event::Loaded(None)).action == ActionView::InitIdentity(
            opts.agent_id@,
            text::opt_view(opts.description),
        ),
{
}

/// A key is made exactly where one is wanted and there is none, for the agent and its machine. A
/// key that was made is saved with the configuration; without one the agent goes on, and is warned.
pub proof fn law_keys_are_made_where_wanted(
    s: BootstrapView,
    opts: BootstrapOpts,
    config: AgentConfig,
    key: Keypair,
    e: String,
)
    requires
        s.stage == Stage::Config || s.stage == Stage::Identity,
    ensures
        ({
            let next = step(s, opts, Event::Loaded(Some(config)));
            &&& next.action is MakeKey <==> !opts.no_key && config@.ssh_key_path is None
            &&& next.action matches ActionView::MakeKey(id, machine) ==> id == opts.agent_id@
                && machine == config@.machine_id
            &&& !(next.action is MakeKey) ==> next.action == ActionView::PrepareHub(
                crosslink_dir(opts),
            )
        }),
        ({
            let t = BootstrapView { stage: Stage::Key, config: Some(config@) };
            let made = step(t, opts, Event::KeyMade(Ok(key)));
            let not_made = step(t, opts, Event::KeyMade(Err(e)));
            &&& made.action matches ActionView::SaveConfig(saved) && saved.ssh_fingerprint == Some(
                key@.fingerprint,
            ) && saved.agent_id == config@.agent_id && made.state.config == Some(saved)
            &&& not_made.action == ActionView::PrepareHub(crosslink_dir(opts))
            &&& not_made.state.config == Some(config@)
            &&& text::contains(
                not_made.say,
                "  Warning: Could not generate SSH key: "@ + e@,
            )
        }),
{
    broadcast use {text::lemma_contains_self, text::lemma_contains_first};

}

/// The agent is registered on the hub in its own directory: its heartbeat is written there, that
/// directory is added and committed under the agent's name, and the key is published.
pub proof fn law_agents_are_registered_on_the_hub(s: BootstrapView, opts: BootstrapOpts)
    ensures
        s.stage == Stage::Saving ==> step(s, opts, Event::Ready).action == ActionView::PrepareHub(
            crosslink_dir(opts),
        ),
        s.stage == Stage::Hub ==> (step(
            s,
            opts,
            Event::Ready,
        ).action matches ActionView::WriteHeartbeat(dir) && dir == paths::joined(
            "agents"@,
            opts.agent_id@,
        )),
        s.stage == Stage::Heartbeat ==> (step(s, opts, Event::Ready).action matches ActionView::RunGit(
            args,
        ) && args.len() == 2 && args[0] == "add"@ && args[1] == "agents/"@ + opts.agent_id@ + "/"@),
        s.stage == Stage::Adding ==> (step(s, opts, Event::Git(Ok(()))).action matches ActionView::RunGit(
            args,
        ) && args.len() == 3 && args[0] == "commit"@ && args[1] == "-m"@ && text::contains(
            args[2],
            "register agent '"@ + opts.agent_id@,
        )),
        s.stage == Stage::Committing ==> step(s, opts, Event::Git(Ok(()))).action
            == ActionView::Publish(s.config->0.ssh_public_key),
{
    broadcast use {text::lemma_contains_self, text::lemma_contains_first};

    let label = "bootstrap: register agent '"@;
    let short = "register agent '"@;
    reveal_strlit("bootstrap: register agent '");
    reveal_strlit("register agent '");
    assert(label =~= label.take(11) + short);
    text::lemma_contains_pair(label.take(11), short, opts.agent_id@);
    assert(text::contains(label + opts.agent_id@, short + opts.agent_id@));
}

/// Whether its key was published or not, a bootstrap ends well. Who the agent is, where it is and
/// how it is approved is told, and that the key was not published.
pub proof fn law_bootstraps_end_with_a_summary(
    s: BootstrapView,
    opts: BootstrapOpts,
    config: ConfigView,
    e: String,
)
    requires
        s.config == Some(config),
    ensures
        step(s, opts, Event::Published(Ok(()))).action == ActionView::Finish,
        step(s, opts, Event::Published(Err(e))).action == ActionView::Finish,
        text::contains(
            step(s, opts, Event::Published(Err(e))).say,
            "  Note: Could not publish key to hub: "@ + e@,
        ),
        text::contains(
            step(s, opts, Event::Published(Ok(()))).say,
            "Bootstrap complete:\n  Agent ID:  "@ + config.agent_id,
        ),
        text::contains(
            step(s, opts, Event::Published(Ok(()))).say,
            "\n  Machine:   "@ + config.machine_id,
        ),
        config.ssh_fingerprint matches Some(fp) ==> text::contains(
            step(s, opts, Event::Published(Ok(()))).say,
            "  SSH key:   "@ + fp,
        ),
        text::contains(
            step(s, opts, Event::Published(Ok(()))).say,
            "  Repo path: "@ + opts.target_dir@,
        ),
        text::contains(
            step(s, opts, Event::Published(Ok(()))).say,
            "\n\nAsk your driver to approve this agent with `crosslink trust approve "@
                + opts.agent_id@ + "`\n"@,
        ),
{
    broadcast use {
        text::lemma_contains_self,
        text::lemma_contains_first,
        text::lemma_contains_pair,
        text::lemma_contains_triple,
    };

    let note = "  Note: Could not publish key to hub: "@ + e@
        + "\n  The driver can manually copy your public key.\n"@;
    assert(text::contains(note, "  Note: Could not publish key to hub: "@ + e@));
    let a = note + "Bootstrap complete:\n  Agent ID:  "@ + config.agent_id + "\n  Machine:   "@
        + config.machine_id + "\n"@;
    assert(text::contains(a, "  Note: Could not publish key to hub: "@ + e@));
}

} // verus!
