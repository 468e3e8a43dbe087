//! Finding the Python of a project, and installing the clone detector with it.

use crate::text;
use crate::text::{
    clone_strings, contains_str, join_strs, own, replace_str, starts_with, to_ascii_lower, trim_str,
};
use vstd::prelude::*;

verus! {

// ---------------------------------------------------------------------------
// The toolchain
// ---------------------------------------------------------------------------

/// What a project holds of Python's toolchains.
pub struct Markers {
    pub uv_lock: bool,
    pub poetry_lock: bool,
    /// What stands in `pyproject.toml`, where it can be read.
    pub pyproject: Option<String>,
    /// Whether `.venv` is a directory.
    pub venv: bool,
    pub pipfile: bool,
    pub pipfile_lock: bool,
}

/// Whether the project file holds a section.
pub open spec fn has_section(pyproject: Option<Seq<char>>, section: Seq<char>) -> bool {
    match pyproject {
        Some(content) => text::contains(content, section),
        None => false,
    }
}

/// How Python is invoked in a project.
pub open spec fn python_prefix(m: Markers, windows: bool) -> Seq<char> {
    if m.uv_lock || has_section(text::opt_str(m.pyproject), "[tool.uv]"@) {
        "uv run python3"@
    } else if m.poetry_lock || has_section(text::opt_str(m.pyproject), "[tool.poetry]"@) {
        "poetry run python3"@
    } else if m.venv {
        if windows {
            ".venv\\Scripts\\python.exe"@
        } else {
            ".venv/bin/python3"@
        }
    } else if m.pipfile || m.pipfile_lock {
        "pipenv run python3"@
    } else {
        "python3"@
    }
}

fn section_in(pyproject: &Option<String>, section: &str) -> (r: bool)
    ensures
        r == has_section(text::opt_str(*pyproject), section@),
{
    match pyproject {
        Some(content) => contains_str(content.as_str(), section),
        None => false,
    }
}

/// How Python is invoked in a project: by uv, by poetry, out of a virtual
/// environment, by pipenv, or as it is, in that order.
pub fn detect_python_prefix(markers: &Markers, windows: bool) -> (r: String)
    ensures
        r@ == python_prefix(*markers, windows),
{
    if markers.uv_lock || section_in(&markers.pyproject, "[tool.uv]") {
        return own("uv run python3");
    }
    if markers.poetry_lock || section_in(&markers.pyproject, "[tool.poetry]") {
        return own("poetry run python3");
    }
    if markers.venv {
        if windows {
            return own(".venv\\Scripts\\python.exe");
        }
        return own(".venv/bin/python3");
    }
    if markers.pipfile || markers.pipfile_lock {
        return own("pipenv run python3");
    }
    own("python3")
}

// ---------------------------------------------------------------------------
// Commands that install
// ---------------------------------------------------------------------------

/// Where the clone detector's source is.
pub const CPITD_REPO_URL: &'static str = "https://github.com/scythia-marrow/cpitd.git";

/// Why an install command failed.
#[derive(Debug, Clone, Copy, PartialEq, Eq, Structural)]
pub enum InstallFailureKind {
    /// The environment is managed from outside, and pip refused to touch it.
    ExternallyManaged,
    /// Anything else.
    Other,
}

/// Why a command failed, by what it complained of.
pub open spec fn failure_kind(stderr: Seq<char>) -> InstallFailureKind {
    let lowered = text::ascii_lower(stderr);
    if text::contains(lowered, "externally-managed-environment"@) || text::contains(
        lowered,
        "externally managed environment"@,
    ) {
        InstallFailureKind::ExternallyManaged
    } else {
        InstallFailureKind::Other
    }
}

/// Why a command failed, by what it complained of; capital letters make no difference.
pub fn classify_install_failure(stderr: &str) -> (r: InstallFailureKind)
    ensures
        r == failure_kind(stderr@),
{
    let lowered = to_ascii_lower(stderr);
    if contains_str(lowered.as_str(), "externally-managed-environment") || contains_str(
        lowered.as_str(),
        "externally managed environment",
    ) {
        InstallFailureKind::ExternallyManaged
    } else {
        InstallFailureKind::Other
    }
}

/// A command that may install the clone detector.
#[derive(Debug, Clone, PartialEq, Eq)]
pub struct InstallCandidate {
    pub program: String,
    pub args: Vec<String>,
}

/// The model of a command.
#[verifier::ext_equal]
pub struct CandidateView {
    pub program: Seq<char>,
    pub args: Seq<Seq<char>>,
}

impl View for InstallCandidate {
    type V = CandidateView;

    open spec fn view(&self) -> CandidateView {
        CandidateView { program: self.program@, args: text::strs(self.args@) }
    }
}

/// The views of commands.
pub open spec fn candidate_views(v: Seq<InstallCandidate>) -> Seq<CandidateView> {
    v.map_values(|c: InstallCandidate| c@)
}

/// The pip that belongs to the Python of a virtual environment.
pub open spec fn pip_of(prefix: Seq<char>) -> Seq<char> {
    text::replace(
        text::replace(
            text::replace(prefix, "python3"@, "pip"@),
            "python.exe"@,
            "pip.exe"@,
        ),
        "python"@,
        "pip"@,
    )
}

/// The pip that belongs to the Python of a virtual environment.
pub fn venv_pip(python_prefix: &str) -> (r: String)
    ensures
        r@ == pip_of(python_prefix@),
{
    proof {
        reveal_strlit("python3");
        reveal_strlit("python.exe");
        reveal_strlit("python");
    }
    let a = replace_str(python_prefix, "python3", "pip");
    let b = replace_str(a.as_str(), "python.exe", "pip.exe");
    replace_str(b.as_str(), "python", "pip")
}

/// The toolchain that a prefix stands for.
#[derive(Debug, Clone, Copy, PartialEq, Eq, Structural)]
pub enum Toolchain {
    Uv,
    Poetry,
    Venv,
    Pipenv,
    System,
}

/// The toolchain that a prefix stands for.
pub open spec fn toolchain(prefix: Seq<char>) -> Toolchain {
    if text::has_prefix(prefix, "uv "@) {
        Toolchain::Uv
    } else if text::has_prefix(prefix, "poetry "@) {
        Toolchain::Poetry
    } else if text::has_prefix(prefix, ".venv/"@) || text::has_prefix(prefix, ".venv\\"@) {
        Toolchain::Venv
    } else if text::has_prefix(prefix, "pipenv "@) {
        Toolchain::Pipenv
    } else {
        Toolchain::System
    }
}

/// The toolchain that a prefix stands for.
pub fn toolchain_of(prefix: &str) -> (r: Toolchain)
    ensures
        r == toolchain(prefix@),
{
    if starts_with(prefix, "uv ") {
        Toolchain::Uv
    } else if starts_with(prefix, "poetry ") {
        Toolchain::Poetry
    } else if starts_with(prefix, ".venv/") || starts_with(prefix, ".venv\\") {
        Toolchain::Venv
    } else if starts_with(prefix, "pipenv ") {
        Toolchain::Pipenv
    } else {
        Toolchain::System
    }
}

/// The commands that may install the published package, in the order in which they
/// are tried. A toolchain of its own has one; the system's Python has several, with
/// pipx first where it is there.
pub open spec fn candidates(prefix: Seq<char>, pipx: bool) -> Seq<CandidateView> {
    match toolchain(prefix) {
        Toolchain::Uv => seq![
            CandidateView { program: "uv"@, args: seq!["pip"@, "install"@, "cpitd"@] },
        ],
        Toolchain::Poetry => seq![
            CandidateView {
                program: "poetry"@,
                args: seq!["add"@, "--group"@, "dev"@, "cpitd"@],
            },
        ],
        Toolchain::Venv => seq![
            CandidateView { program: pip_of(prefix), args: seq!["install"@, "cpitd"@] },
        ],
        Toolchain::Pipenv => seq![
            CandidateView { program: "pipenv"@, args: seq!["install"@, "--dev"@, "cpitd"@] },
        ],
        Toolchain::System => {
            let pip = seq![
                CandidateView {
                    program: "python3"@,
                    args: seq!["-m"@, "pip"@, "install"@, "--user"@, "cpitd"@],
                },
                CandidateView {
                    program: "python3"@,
                    args: seq!["-m"@, "pip"@, "install"@, "cpitd"@],
                },
            ];
            if pipx {
                seq![
                    CandidateView { program: "pipx"@, args: seq!["install"@, "cpitd"@] },
                ] + pip
            } else {
                pip
            }
        },
    }
}

/// The commands that may install the published package, in the order in which they
/// are tried.
pub fn build_install_candidates(python_prefix: &str, pipx_available: bool) -> (r: Vec<
    InstallCandidate,
>)
    ensures
        candidate_views(r@) == candidates(python_prefix@, pipx_available),
{
    match toolchain_of(python_prefix) {
        Toolchain::Uv => {
            let args = vec![own("pip"), own("install"), own("cpitd")];
            assert(text::strs(args@) =~= seq!["pip"@, "install"@, "cpitd"@]);
            let r = vec![InstallCandidate { program: own("uv"), args }];
            assert(candidate_views(r@) =~= candidates(python_prefix@, pipx_available));
            r
        },
        Toolchain::Poetry => {
            let args = vec![own("add"), own("--group"), own("dev"), own("cpitd")];
            assert(text::strs(args@) =~= seq!["add"@, "--group"@, "dev"@, "cpitd"@]);
            let r = vec![InstallCandidate { program: own("poetry"), args }];
            assert(candidate_views(r@) =~= candidates(python_prefix@, pipx_available));
            r
        },
        Toolchain::Venv => {
            let args = vec![own("install"), own("cpitd")];
            assert(text::strs(args@) =~= seq!["install"@, "cpitd"@]);
            let r = vec![InstallCandidate { program: venv_pip(python_prefix), args }];
            assert(candidate_views(r@) =~= candidates(python_prefix@, pipx_available));
            r
        },
        Toolchain::Pipenv => {
            let args = vec![own("install"), own("--dev"), own("cpitd")];
            assert(text::strs(args@) =~= seq!["install"@, "--dev"@, "cpitd"@]);
            let r = vec![InstallCandidate { program: own("pipenv"), args }];
            assert(candidate_views(r@) =~= candidates(python_prefix@, pipx_available));
            r
        },
        Toolchain::System => {
            let user = vec![own("-m"), own("pip"), own("install"), own("--user"), own("cpitd")];
            assert(text::strs(user@) =~= seq!["-m"@, "pip"@, "install"@, "--user"@, "cpitd"@]);
            let plain = vec![own("-m"), own("pip"), own("install"), own("cpitd")];
            assert(text::strs(plain@) =~= seq!["-m"@, "pip"@, "install"@, "cpitd"@]);
            let first = InstallCandidate { program: own("python3"), args: user };
            let second = InstallCandidate { program: own("python3"), args: plain };
            let r = if pipx_available {
                let args = vec![own("install"), own("cpitd")];
                assert(text::strs(args@) =~= seq!["install"@, "cpitd"@]);
                vec![InstallCandidate { program: own("pipx"), args }, first, second]
            } else {
                vec![first, second]
            };
            assert(candidate_views(r@) =~= candidates(python_prefix@, pipx_available));
            r
        },
    }
}

/// The command that installs a clone of the source.
pub open spec fn source_candidate(prefix: Seq<char>, dir: Seq<char>) -> CandidateView {
    match toolchain(prefix) {
        Toolchain::Uv => CandidateView { program: "uv"@, args: seq!["pip"@, "install"@, dir] },
        Toolchain::Poetry => CandidateView {
            program: "poetry"@,
            args: seq!["run"@, "pip"@, "install"@, dir],
        },
        Toolchain::Venv => CandidateView { program: pip_of(prefix), args: seq!["install"@, dir] },
        Toolchain::Pipenv => CandidateView {
            program: "pipenv"@,
            args: seq!["run"@, "pip"@, "install"@, dir],
        },
        Toolchain::System => CandidateView {
            program: "python3"@,
            args: seq!["-m"@, "pip"@, "install"@, dir],
        },
    }
}

/// The command that installs a clone of the source.
pub fn build_source_candidate(python_prefix: &str, dir: &str) -> (r: InstallCandidate)
    ensures
        r@ == source_candidate(python_prefix@, dir@),
{
    match toolchain_of(python_prefix) {
        Toolchain::Uv => {
            let args = vec![own("pip"), own("install"), own(dir)];
            assert(text::strs(args@) =~= seq!["pip"@, "install"@, dir@]);
            InstallCandidate { program: own("uv"), args }
        },
        Toolchain::Poetry => {
            let args = vec![own("run"), own("pip"), own("install"), own(dir)];
            assert(text::strs(args@) =~= seq!["run"@, "pip"@, "install"@, dir@]);
            InstallCandidate { program: own("poetry"), args }
        },
        Toolchain::Venv => {
            let args = vec![own("install"), own(dir)];
            assert(text::strs(args@) =~= seq!["install"@, dir@]);
            InstallCandidate { program: venv_pip(python_prefix), args }
        },
        Toolchain::Pipenv => {
            let args = vec![own("run"), own("pip"), own("install"), own(dir)];
            assert(text::strs(args@) =~= seq!["run"@, "pip"@, "install"@, dir@]);
            InstallCandidate { program: own("pipenv"), args }
        },
        Toolchain::System => {
            let args = vec![own("-m"), own("pip"), own("install"), own(dir)];
            assert(text::strs(args@) =~= seq!["-m"@, "pip"@, "install"@, dir@]);
            InstallCandidate { program: own("python3"), args }
        },
    }
}

/// What came of running a command.
pub enum RunOutcome {
    /// It could not be started, for this reason.
    NotStarted(String),
    /// It ran and failed, with this on its error output.
    Failed(String),
    /// It ran and succeeded.
    Succeeded,
}

/// A command that failed.
pub struct CommandFailure {
    pub message: String,
    pub kind: InstallFailureKind,
}

/// The model of a failure.
#[verifier::ext_equal]
pub struct FailureView {
    pub message: Seq<char>,
    pub kind: InstallFailureKind,
}

impl View for CommandFailure {
    type V = FailureView;

    open spec fn view(&self) -> FailureView {
        FailureView { message: self.message@, kind: self.kind }
    }
}

/// The view of a result.
pub open spec fn result_view(r: Result<(), CommandFailure>) -> Result<(), FailureView> {
    match r {
        Ok(_) => Ok(()),
        Err(f) => Err(f@),
    }
}

/// What an install command came to.
pub open spec fn installed(c: CandidateView, outcome: RunOutcome) -> Result<(), FailureView> {
    match outcome {
        RunOutcome::NotStarted(e) => Err(
            FailureView {
                message: "Failed to run "@ + c.program + " "@ + text::join(c.args, " "@) + ": "@
                    + e@,
                kind: InstallFailureKind::Other,
            },
        ),
        RunOutcome::Failed(stderr) => Err(
            FailureView {
                message: "cpitd install failed: "@ + text::trim(stderr@),
                kind: failure_kind(stderr@),
            },
        ),
        RunOutcome::Succeeded => Ok(()),
    }
}

/// What an install command came to.
pub fn run_install_command(candidate: &InstallCandidate, outcome: &RunOutcome) -> (r: Result<
    (),
    CommandFailure,
>)
    ensures
        result_view(r) == installed(candidate@, *outcome),
{
    match outcome {
        RunOutcome::NotStarted(e) => {
            let mut message = own("Failed to run ");
            message.append(candidate.program.as_str());
            message.append(" ");
            message.append(join_strs(&candidate.args, " ").as_str());
            message.append(": ");
            message.append(e.as_str());
            Err(CommandFailure { message, kind: InstallFailureKind::Other })
        },
        RunOutcome::Failed(stderr) => {
            let kind = classify_install_failure(stderr.as_str());
            let mut message = own("cpitd install failed: ");
            message.append(trim_str(stderr.as_str()).as_str());
            Err(CommandFailure { message, kind })
        },
        RunOutcome::Succeeded => Ok(()),
    }
}

/// What the clone of the source came to.
pub open spec fn cloned_source(outcome: RunOutcome) -> Result<(), FailureView> {
    match outcome {
        RunOutcome::NotStarted(e) => Err(
            FailureView {
                message: "Failed to run git clone for cpitd: "@ + e@,
                kind: InstallFailureKind::Other,
            },
        ),
        RunOutcome::Failed(stderr) => Err(
            FailureView {
                message: "git clone failed: "@ + text::trim(stderr@),
                kind: InstallFailureKind::Other,
            },
        ),
        RunOutcome::Succeeded => Ok(()),
    }
}

/// What the clone of the source came to.
pub fn clone_source(outcome: &RunOutcome) -> (r: Result<(), CommandFailure>)
    ensures
        result_view(r) == cloned_source(*outcome),
{
    match outcome {
        RunOutcome::NotStarted(e) => {
            let mut message = own("Failed to run git clone for cpitd: ");
            message.append(e.as_str());
            Err(CommandFailure { message, kind: InstallFailureKind::Other })
        },
        RunOutcome::Failed(stderr) => {
            let mut message = own("git clone failed: ");
            message.append(trim_str(stderr.as_str()).as_str());
            Err(CommandFailure { message, kind: InstallFailureKind::Other })
        },
        RunOutcome::Succeeded => Ok(()),
    }
}

// ---------------------------------------------------------------------------
// The installation
// ---------------------------------------------------------------------------

/// What an installation came to.
#[derive(Debug, Clone, Copy, PartialEq, Eq, Structural)]
pub enum CpitdResult {
    AlreadyInstalled,
    InstalledFromPypi,
    InstalledFromSource,
}

/// Why an installation failed.
pub struct CpitdInstallError {
    pub message: String,
    /// Whether any command was refused because the environment is managed from
    /// outside.
    pub externally_managed: bool,
}

/// The model of a failed installation.
#[verifier::ext_equal]
pub struct InstallErrorView {
    pub message: Seq<char>,
    pub externally_managed: bool,
}

/// What an installation waits for.
#[derive(Debug, Clone, Copy, PartialEq, Eq, Structural)]
pub enum Stage {
    /// Whether the clone detector is there already.
    Probe,
    /// Whether pipx is there.
    Pipx,
    /// The command of this number.
    Package(usize),
    /// The clone of the source.
    Cloning,
    /// The command that installs the clone.
    Source,
    /// Nothing more.
    Done,
}

/// An installation under way.
pub struct Install {
    pub stage: Stage,
    pub candidates: Vec<InstallCandidate>,
    /// Whether a command was refused because the environment is managed from outside.
    pub refused: bool,
}

/// The model of an installation.
#[verifier::ext_equal]
pub struct InstallView {
    pub stage: Stage,
    pub candidates: Seq<CandidateView>,
    pub refused: bool,
}

impl View for Install {
    type V = InstallView;

    open spec fn view(&self) -> InstallView {
        InstallView {
            stage: self.stage,
            candidates: candidate_views(self.candidates@),
            refused: self.refused,
        }
    }
}

/// What came of the last action.
pub enum Event {
    /// Whether the program was found.
    Found(bool),
    /// What came of the command.
    Ran(RunOutcome),
}

/// What is to be done next.
pub enum Action {
    /// Say whether the program is there: it answers when asked for its version.
    Probe(String),
    /// Run the command.
    Run(InstallCandidate),
    /// Clone the source of this address into the directory, which is emptied before.
    Clone(String, String),
    /// The installation has come to this. The directory is removed where the flag says
    /// so.
    Finish(Result<CpitdResult, CpitdInstallError>, bool),
}

/// The model of an action.
#[verifier::ext_equal]
pub enum ActionView {
    Probe(Seq<char>),
    Run(CandidateView),
    Clone(Seq<char>, Seq<char>),
    Finish(Result<CpitdResult, InstallErrorView>, bool),
}

impl View for Action {
    type V = ActionView;

    open spec fn view(&self) -> ActionView {
        match self {
            Action::Probe(program) => ActionView::Probe(program@),
            Action::Run(candidate) => ActionView::Run(candidate@),
            Action::Clone(url, dir) => ActionView::Clone(url@, dir@),
            Action::Finish(result, clean) => ActionView::Finish(
                match result {
                    Ok(r) => Ok(*r),
                    Err(e) => Err(
                        InstallErrorView {
                            message: e.message@,
                            externally_managed: e.externally_managed,
                        },
                    ),
                },
                *clean,
            ),
        }
    }
}

/// Whether an event is one that the installation waits for.
pub open spec fn expects(s: InstallView, event: Event) -> bool {
    match event {
        Event::Found(_) => s.stage == Stage::Probe || s.stage == Stage::Pipx,
        Event::Ran(_) => match s.stage {
            Stage::Package(i) => i < s.candidates.len(),
            Stage::Cloning => true,
            Stage::Source => true,
            _ => false,
        },
    }
}

/// The installation ends.
pub open spec fn finished(
    s: InstallView,
    result: Result<CpitdResult, InstallErrorView>,
    clean: bool,
) -> (InstallView, ActionView) {
    (InstallView { stage: Stage::Done, ..s }, ActionView::Finish(result, clean))
}

/// It is noted where a managed environment has refused.
pub open spec fn noting(s: InstallView, f: FailureView) -> InstallView {
    if f.kind == InstallFailureKind::ExternallyManaged {
        InstallView { refused: true, ..s }
    } else {
        s
    }
}

/// The command of a number is run; after the last, the source is cloned.
pub open spec fn trying(s: InstallView, i: nat, dir: Seq<char>) -> (InstallView, ActionView) {
    if i < s.candidates.len() {
        (
            InstallView { stage: Stage::Package(i as usize), ..s },
            ActionView::Run(s.candidates[i as int]),
        )
    } else {
        (
            InstallView { stage: Stage::Cloning, ..s },
            ActionView::Clone(CPITD_REPO_URL@, dir),
        )
    }
}

/// The last attempt failed, and its message is the one that is reported.
pub open spec fn given_up(s: InstallView, f: FailureView, clean: bool) -> (InstallView, ActionView) {
    let t = noting(s, f);
    finished(
        t,
        Err(
            InstallErrorView {
                message: f.message,
                externally_managed: t.refused,
            },
        ),
        clean,
    )
}

/// A step of an installation.
pub open spec fn step(
    s: InstallView,
    prefix: Seq<char>,
    dir: Seq<char>,
    event: Event,
) -> (InstallView, ActionView) {
    match event {
        Event::Found(found) => if s.stage == Stage::Probe {
            if found {
                finished(s, Ok(CpitdResult::AlreadyInstalled), false)
            } else {
                (InstallView { stage: Stage::Pipx, ..s }, ActionView::Probe("pipx"@))
            }
        } else {
            trying(InstallView { candidates: candidates(prefix, found), ..s }, 0, dir)
        },
        Event::Ran(outcome) => match s.stage {
            Stage::Package(i) => match installed(s.candidates[i as int], outcome) {
                Ok(_) => finished(s, Ok(CpitdResult::InstalledFromPypi), false),
                Err(f) => trying(noting(s, f), i as nat + 1, dir),
            },
            Stage::Cloning => match cloned_source(outcome) {
                Ok(_) => (
                    InstallView { stage: Stage::Source, ..s },
                    ActionView::Run(source_candidate(prefix, dir)),
                ),
                Err(f) => given_up(s, f, outcome is Failed),
            },
            _ => match installed(source_candidate(prefix, dir), outcome) {
                Ok(_) => finished(s, Ok(CpitdResult::InstalledFromSource), true),
                Err(f) => given_up(s, f, true),
            },
        },
    }
}

fn clone_candidate(c: &InstallCandidate) -> (r: InstallCandidate)
    ensures
        r@ == c@,
{
    InstallCandidate { program: own(c.program.as_str()), args: clone_strings(&c.args) }
}

/// Begins an installation, and asks whether the clone detector is there already.
pub fn install_cpitd() -> (r: (Install, Action))
    ensures
        r.0@ == (InstallView { stage: Stage::Probe, candidates: Seq::empty(), refused: false }),
        r.1@ == ActionView::Probe("cpitd"@),
{
    let state = Install { stage: Stage::Probe, candidates: Vec::new(), refused: false };
    assert(candidate_views(state.candidates@) =~= Seq::<CandidateView>::empty());
    (state, Action::Probe(own("cpitd")))
}

impl Install {
    fn note(&mut self, failure: &CommandFailure)
        ensures
            final(self)@ == noting(old(self)@, failure@),
            final(self).candidates == old(self).candidates,
            final(self).stage == old(self).stage,
    {
        if failure.kind == InstallFailureKind::ExternallyManaged {
            self.refused = true;
        }
    }

    fn attempt(&mut self, i: usize, dir: &str) -> (r: Action)
        requires
            i <= old(self).candidates@.len(),
        ensures
            (final(self)@, r@) == trying(old(self)@, i as nat, dir@),
    {
        if i < self.candidates.len() {
            self.stage = Stage::Package(i);
            Action::Run(clone_candidate(&self.candidates[i]))
        } else {
            self.stage = Stage::Cloning;
            Action::Clone(own(CPITD_REPO_URL), own(dir))
        }
    }

    fn give_up(&mut self, failure: CommandFailure, clean: bool) -> (r: Action)
        ensures
            (final(self)@, r@) == given_up(old(self)@, failure@, clean),
    {
        self.note(&failure);
        self.stage = Stage::Done;
        let externally_managed = self.refused;
        Action::Finish(
            Err(CpitdInstallError { message: failure.message, externally_managed }),
            clean,
        )
    }

    fn finish(&mut self, result: CpitdResult, clean: bool) -> (r: Action)
        ensures
            (final(self)@, r@) == finished(old(self)@, Ok(result), clean),
    {
        self.stage = Stage::Done;
        Action::Finish(Ok(result), clean)
    }

    /// Takes in what came of the last action, and says what is to be done next.
    pub fn advance(&mut self, python_prefix: &str, dir: &str, event: Event) -> (r: Action)
        requires
            expects(old(self)@, event),
        ensures
            (final(self)@, r@) == step(old(self)@, python_prefix@, dir@, event),
    {
        match event {
            Event::Found(found) => if self.stage == Stage::Probe {
                if found {
                    self.finish(CpitdResult::AlreadyInstalled, false)
                } else {
                    self.stage = Stage::Pipx;
                    Action::Probe(own("pipx"))
                }
            } else {
                self.candidates = build_install_candidates(python_prefix, found);
                self.attempt(0, dir)
            },
            Event::Ran(outcome) => match self.stage {
                Stage::Package(i) => match run_install_command(&self.candidates[i], &outcome) {
                    Ok(_) => self.finish(CpitdResult::InstalledFromPypi, false),
                    Err(failure) => {
                        self.note(&failure);
                        let count: usize = self.candidates.len();
                        assert(i < count);
                        self.attempt(i + 1, dir)
                    },
                },
                Stage::Cloning => match clone_source(&outcome) {
                    Ok(_) => {
                        self.stage = Stage::Source;
                        Action::Run(build_source_candidate(python_prefix, dir))
                    },
                    Err(failure) => {
                        let clean = matches!(outcome, RunOutcome::Failed(_));
                        self.give_up(failure, clean)
                    },
                },
                _ => {
                    let candidate = build_source_candidate(python_prefix, dir);
                    match run_install_command(&candidate, &outcome) {
                        Ok(_) => self.finish(CpitdResult::InstalledFromSource, true),
                        Err(failure) => self.give_up(failure, true),
                    }
                },
            },
        }
    }
}

// ---------------------------------------------------------------------------
// Laws
// ---------------------------------------------------------------------------

/// A toolchain of its own is never asked to install with pipx: whether pipx is there
/// makes no difference, and there is one command.
pub proof fn law_managed_toolchains_have_one_command(prefix: Seq<char>, pipx: bool)
    requires
        toolchain(prefix) != Toolchain::System,
    ensures
        candidates(prefix, pipx).len() == 1,
        candidates(prefix, pipx) == candidates(prefix, !pipx),
{
}

/// How far an installation has come, for a number of commands.
pub open spec fn rank(stage: Stage, commands: nat) -> nat {
    match stage {
        Stage::Probe => 0,
        Stage::Pipx => 1,
        Stage::Package(i) => 2 + i as nat,
        Stage::Cloning => 2 + commands,
        Stage::Source => 3 + commands,
        Stage::Done => 4 + commands,
    }
}

/// Every step brings an installation nearer to its end.
pub proof fn law_install_makes_progress(
    s: InstallView,
    prefix: Seq<char>,
    dir: Seq<char>,
    event: Event,
)
    requires
        expects(s, event),
        s.candidates.len() < usize::MAX,
    ensures
        ({
            let t = step(s, prefix, dir, event).0;
            rank(t.stage, t.candidates.len()) > rank(s.stage, s.candidates.len())
        }),
{
}

/// The failure that an event tells of, where it tells of one.
pub open spec fn failure_of(s: InstallView, prefix: Seq<char>, dir: Seq<char>, event: Event) -> Option<
    FailureView,
> {
    match event {
        Event::Found(_) => None,
        Event::Ran(outcome) => {
            let result = match s.stage {
                Stage::Package(i) => installed(s.candidates[i as int], outcome),
                Stage::Cloning => cloned_source(outcome),
                _ => installed(source_candidate(prefix, dir), outcome),
            };
            match result {
                Ok(_) => None,
                Err(f) => Some(f),
            }
        },
    }
}

/// A refusal of a managed environment is never lost: once one was seen, a failed
/// installation says so. Its message is that of the last failure.
pub proof fn law_refusal_is_reported(s: InstallView, prefix: Seq<char>, dir: Seq<char>, event: Event)
    requires
        expects(s, event),
    ensures
        s.refused ==> step(s, prefix, dir, event).0.refused,
        step(s, prefix, dir, event).1 matches ActionView::Finish(Err(e), _) ==> {
            &&& failure_of(s, prefix, dir, event) matches Some(f) && e.message == f.message
            &&& e.externally_managed == (s.refused || (failure_of(s, prefix, dir, event)->0).kind
                == InstallFailureKind::ExternallyManaged)
        },
{
}

/// uv comes first, then poetry, a virtual environment and pipenv; a project without any of them has
/// the system's Python.
pub proof fn law_first_python_is_taken(m: Markers, windows: bool)
    ensures
        ({
            let uv = m.uv_lock || (m.pyproject matches Some(c) && text::contains(
                c@,
                "[tool.uv]"@,
            ));
            let poetry = m.poetry_lock || (m.pyproject matches Some(c) && text::contains(
                c@,
                "[tool.poetry]"@,
            ));
            let pipenv = m.pipfile || m.pipfile_lock;
            let p = python_prefix(m, windows);
            &&& uv ==> p == "uv run python3"@
            &&& !uv && poetry ==> p == "poetry run python3"@
            &&& !uv && !poetry && m.venv && windows ==> p == ".venv\\Scripts\\python.exe"@
            &&& !uv && !poetry && m.venv && !windows ==> p == ".venv/bin/python3"@
            &&& !uv && !poetry && !m.venv && pipenv ==> p == "pipenv run python3"@
            &&& !uv && !poetry && !m.venv && !pipenv ==> p == "python3"@
        }),
{
}

/// The invocation that a project shows stands for the toolchain that it uses.
pub proof fn law_prefixes_stand_for_their_toolchain(m: Markers, windows: bool)
    ensures
        python_prefix(m, windows) == "uv run python3"@ ==> toolchain(python_prefix(m, windows))
            == Toolchain::Uv,
        python_prefix(m, windows) == "poetry run python3"@ ==> toolchain(python_prefix(m, windows))
            == Toolchain::Poetry,
        python_prefix(m, windows) == ".venv/bin/python3"@ ==> toolchain(python_prefix(m, windows))
            == Toolchain::Venv,
        python_prefix(m, windows) == "pipenv run python3"@ ==> toolchain(python_prefix(m, windows))
            == Toolchain::Pipenv,
        python_prefix(m, windows) == "python3"@ ==> toolchain(python_prefix(m, windows))
            == Toolchain::System,
{
    reveal_strlit("uv run python3");
    reveal_strlit("poetry run python3");
    reveal_strlit(".venv/bin/python3");
    reveal_strlit("pipenv run python3");
    reveal_strlit("python3");
    reveal_strlit("uv ");
    reveal_strlit("poetry ");
    reveal_strlit(".venv/");
    reveal_strlit(".venv\\");
    reveal_strlit("pipenv ");
    let a = "uv run python3"@;
    let b = "poetry run python3"@;
    let c = ".venv/bin/python3"@;
    let d = "pipenv run python3"@;
    let e = "python3"@;
    assert(a.take(3) =~= "uv "@);
    assert(b.take(3)[0] != "uv "@[0]);
    assert(b.take(7) =~= "poetry "@);
    assert(c.take(3)[0] != "uv "@[0]);
    assert(c.take(7)[0] != "poetry "@[0]);
    assert(c.take(6) =~= ".venv/"@);
    assert(d.take(3)[0] != "uv "@[0]);
    assert(d.take(7)[1] != "poetry "@[1]);
    assert(d.take(6)[0] != ".venv/"@[0]);
    assert(d.take(6)[0] != ".venv\\"@[0]);
    assert(d.take(7) =~= "pipenv "@);
    assert(e.take(3)[0] != "uv "@[0]);
    assert(e.take(7)[1] != "poetry "@[1]);
    assert(e.take(6)[0] != ".venv/"@[0]);
    assert(e.take(6)[0] != ".venv\\"@[0]);
    assert(e.take(7)[1] != "pipenv "@[1]);
}

/// Every command installs the clone detector: the last of its arguments is the package, or for a
/// clone its directory. Each toolchain installs with its own program.
pub proof fn law_commands_install_the_detector(
    prefix: Seq<char>,
    pipx: bool,
    dir: Seq<char>,
    i: int,
)
    ensures
        0 <= i < candidates(prefix, pipx).len() ==> candidates(prefix, pipx)[i].args.last()
            == "cpitd"@,
        candidates(prefix, pipx).len() > 0,
        source_candidate(prefix, dir).args.last() == dir,
        toolchain(prefix) == Toolchain::Uv ==> candidates(prefix, pipx)[0].program == "uv"@
            && source_candidate(prefix, dir).program == "uv"@,
        toolchain(prefix) == Toolchain::Poetry ==> candidates(prefix, pipx)[0].program
            == "poetry"@ && source_candidate(prefix, dir).program == "poetry"@,
        toolchain(prefix) == Toolchain::Pipenv ==> candidates(prefix, pipx)[0].program
            == "pipenv"@ && source_candidate(prefix, dir).program == "pipenv"@,
        toolchain(prefix) == Toolchain::Venv ==> candidates(prefix, pipx)[0].program == pip_of(
            prefix,
        ) && source_candidate(prefix, dir).program == pip_of(prefix),
        toolchain(prefix) == Toolchain::System && pipx ==> candidates(prefix, pipx)[0].program
            == "pipx"@,
        toolchain(prefix) == Toolchain::System && !pipx ==> candidates(prefix, pipx)[0].program
            == "python3"@ && candidates(prefix, pipx)[0].args.contains("--user"@),
{
    let c = candidates(prefix, pipx);
    if toolchain(prefix) == Toolchain::System {
        let user = seq!["-m"@, "pip"@, "install"@, "--user"@, "cpitd"@];
        assert(user[3] == "--user"@);
        assert(user.contains("--user"@));
    }
}

/// A refusal is one whatever the case of its letters, and nothing else is.
pub proof fn law_refusals_are_told_by_their_words(stderr: &str, r: InstallFailureKind)
    requires
        call_ensures(classify_install_failure, (stderr,), r),
    ensures
        r == InstallFailureKind::ExternallyManaged <==> text::contains(
            text::ascii_lower(stderr@),
            "externally-managed-environment"@,
        ) || text::contains(text::ascii_lower(stderr@), "externally managed environment"@),
{
}

/// A command succeeds exactly where it ran and succeeded; what it failed with is told.
pub proof fn law_failed_commands_are_explained(c: CandidateView, outcome: RunOutcome)
    ensures
        installed(c, outcome) is Ok <==> outcome is Succeeded,
        cloned_source(outcome) is Ok <==> outcome is Succeeded,
        outcome matches RunOutcome::NotStarted(e) ==> text::has_suffix(
            installed(c, outcome)->Err_0.message,
            e@,
        ) && text::contains(installed(c, outcome)->Err_0.message, "Failed to run "@ + c.program)
            && text::has_suffix(cloned_source(outcome)->Err_0.message, e@),
        outcome matches RunOutcome::Failed(stderr) ==> text::has_suffix(
            installed(c, outcome)->Err_0.message,
            text::trim(stderr@),
        ) && text::has_suffix(cloned_source(outcome)->Err_0.message, text::trim(stderr@))
            && installed(c, outcome)->Err_0.kind == failure_kind(stderr@),
{
    broadcast use {
        text::lemma_contains_self,
        text::lemma_contains_first,
        text::lemma_suffix_of_sum,
    };

}

/// What is there is not installed. The commands are tried in turn until one succeeds; after the last
/// the source is cloned and installed. What an installation comes to is what was done last.
pub proof fn law_commands_are_tried_in_turn(
    s: InstallView,
    prefix: Seq<char>,
    dir: Seq<char>,
    outcome: RunOutcome,
    found: bool,
    i: usize,
)
    requires
        s.candidates.len() < usize::MAX,
    ensures
        s.stage == Stage::Probe ==> step(s, prefix, dir, Event::Found(true)).1
            == ActionView::Finish(Ok(CpitdResult::AlreadyInstalled), false),
        s.stage == Stage::Probe ==> step(s, prefix, dir, Event::Found(false)).1
            == ActionView::Probe("pipx"@),
        s.stage == Stage::Pipx ==> step(s, prefix, dir, Event::Found(found)).1 == ActionView::Run(
            candidates(prefix, found)[0],
        ),
        s.stage == Stage::Package(i) && i < s.candidates.len() ==> {
            let next = step(s, prefix, dir, Event::Ran(outcome)).1;
            &&& outcome is Succeeded ==> next == ActionView::Finish(
                Ok(CpitdResult::InstalledFromPypi),
                false,
            )
            &&& !(outcome is Succeeded) && i + 1 < s.candidates.len() ==> next == ActionView::Run(
                s.candidates[i + 1],
            )
            &&& !(outcome is Succeeded) && i + 1 == s.candidates.len() ==> (
            next matches ActionView::Clone(_, to) && to == dir)
        },
        s.stage == Stage::Cloning && outcome is Succeeded ==> step(
            s,
            prefix,
            dir,
            Event::Ran(outcome),
        ).1 == ActionView::Run(source_candidate(prefix, dir)),
        s.stage == Stage::Source && outcome is Succeeded ==> step(
            s,
            prefix,
            dir,
            Event::Ran(outcome),
        ).1 == ActionView::Finish(Ok(CpitdResult::InstalledFromSource), true),
        s.stage == Stage::Source || s.stage == Stage::Cloning ==> (!(outcome is Succeeded) ==> (
        step(s, prefix, dir, Event::Ran(outcome)).1 matches ActionView::Finish(r, _) && r is Err)),
{
    law_commands_install_the_detector(prefix, found, dir, 0);
}

} // verus!
