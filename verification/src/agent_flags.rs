//! Local control flags that an agent loop looks at between ticks.
//!
//! Requests from afar become flag files in a directory of the project. The files are
//! local to the machine: each agent has a directory of its own.

use crate::paths;
use crate::paths::join_path;
use crate::text::own;
use vstd::prelude::*;

verus! {

/// Directory of the project that holds the flag files of an agent.
pub const FLAG_DIR: &'static str = "agent-flags";

/// The flag that is there while the agent is paused.
pub const PAUSED: &'static str = "paused";

/// The flag that is there once the agent is to exit.
pub const KILL: &'static str = "kill";

/// The file with a hint at what to do next.
pub const REPRIORITISE: &'static str = "reprioritise.json";

/// The path of a flag file.
pub fn flag_path(crosslink_dir: &str, flag: &str) -> (r: String)
    ensures
        r@ == paths::joined(paths::joined(crosslink_dir@, FLAG_DIR@), flag@),
{
    join_path(join_path(crosslink_dir, FLAG_DIR).as_str(), flag)
}

/// Hint at which issue to work on next.
#[derive(Debug, Clone, PartialEq, Eq)]
pub struct ReprioritiseHint {
    pub issue_id: i64,
    /// The request that produced the hint, by which an agent sees that it has it already.
    pub from_request_id: String,
}

/// The model of a hint.
pub open spec fn hint_view(hint: ReprioritiseHint) -> (i64, Seq<char>) {
    (hint.issue_id, hint.from_request_id@)
}

/// What the directory of flags holds.
#[derive(Debug, Clone, PartialEq)]
pub struct FlagDir {
    pub paused: bool,
    pub kill: bool,
    pub hint: Option<ReprioritiseHint>,
}

/// The model of a directory of flags.
#[verifier::ext_equal]
pub struct FlagView {
    pub paused: bool,
    pub kill: bool,
    pub hint: Option<(i64, Seq<char>)>,
}

impl View for FlagDir {
    type V = FlagView;

    open spec fn view(&self) -> FlagView {
        FlagView {
            paused: self.paused,
            kill: self.kill,
            hint: match self.hint {
                Some(h) => Some(hint_view(h)),
                None => None,
            },
        }
    }
}

impl FlagView {
    /// The flags with the agent paused.
    pub open spec fn pausing(self) -> FlagView {
        FlagView { paused: true, ..self }
    }

    /// The flags with the agent running.
    pub open spec fn resuming(self) -> FlagView {
        FlagView { paused: false, ..self }
    }

    /// The flags with the agent about to exit.
    pub open spec fn killing(self) -> FlagView {
        FlagView { kill: true, ..self }
    }

    /// The flags with a hint.
    pub open spec fn hinting(self, hint: (i64, Seq<char>)) -> FlagView {
        FlagView { hint: Some(hint), ..self }
    }

    /// The flags without a hint.
    pub open spec fn without_hint(self) -> FlagView {
        FlagView { hint: None, ..self }
    }
}

impl Default for FlagDir {
    fn default() -> (r: Self)
        ensures
            r@ == (FlagView { paused: false, kill: false, hint: None }),
    {
        FlagDir { paused: false, kill: false, hint: None }
    }
}

/// True when a `pause` request has landed and not been cleared.
pub fn is_paused(flags: &FlagDir) -> (r: bool)
    ensures
        r == flags@.paused,
{
    flags.paused
}

/// True when a `kill` request has landed. Long-running loops exit then, once the tool in
/// use is done.
pub fn should_exit(flags: &FlagDir) -> (r: bool)
    ensures
        r == flags@.kill,
{
    flags.kill
}

fn clone_hint(hint: &ReprioritiseHint) -> (r: ReprioritiseHint)
    ensures
        hint_view(r) == hint_view(*hint),
{
    ReprioritiseHint { issue_id: hint.issue_id, from_request_id: own(hint.from_request_id.as_str()) }
}

/// Latest hint, if any. Agents decide whether to follow it.
pub fn read_reprioritise_hint(flags: &FlagDir) -> (r: Option<ReprioritiseHint>)
    ensures
        match r {
            Some(h) => flags@.hint == Some(hint_view(h)),
            None => flags@.hint is None,
        },
{
    match &flags.hint {
        Some(h) => Some(clone_hint(h)),
        None => None,
    }
}

/// Record a pause. Idempotent.
pub fn set_paused(flags: &mut FlagDir)
    ensures
        final(flags)@ == old(flags)@.pausing(),
{
    flags.paused = true;
}

/// Clear a pause. Idempotent: a missing flag is no error.
pub fn clear_paused(flags: &mut FlagDir)
    ensures
        final(flags)@ == old(flags)@.resuming(),
{
    flags.paused = false;
}

/// Record a kill request. Idempotent.
pub fn set_kill(flags: &mut FlagDir)
    ensures
        final(flags)@ == old(flags)@.killing(),
{
    flags.kill = true;
}

/// Record a hint, replacing any earlier one.
pub fn set_reprioritise_hint(flags: &mut FlagDir, hint: &ReprioritiseHint)
    ensures
        final(flags)@ == old(flags)@.hinting(hint_view(*hint)),
{
    flags.hint = Some(clone_hint(hint));
}

/// Clear a hint, once the agent loop has acted on it.
pub fn clear_reprioritise_hint(flags: &mut FlagDir)
    ensures
        final(flags)@ == old(flags)@.without_hint(),
{
    flags.hint = None;
}

/// Setting or clearing a flag a second time changes nothing.
pub proof fn law_flags_are_idempotent(f: FlagView, hint: (i64, Seq<char>))
    ensures
        f.pausing().pausing() == f.pausing(),
        f.resuming().resuming() == f.resuming(),
        f.killing().killing() == f.killing(),
        f.hinting(hint).hinting(hint) == f.hinting(hint),
        f.without_hint().without_hint() == f.without_hint(),
{
}

/// Clearing undoes setting, the last hint is the one that counts, and no request to
/// pause, to resume or to work on something else takes back a request to exit.
pub proof fn law_flags_are_independent(f: FlagView, hint: (i64, Seq<char>), next: (i64, Seq<char>))
    ensures
        !f.paused ==> f.pausing().resuming() == f,
        f.hint is None ==> f.hinting(hint).without_hint() == f,
        f.hinting(hint).hinting(next) == f.hinting(next),
        f.killing().pausing().kill,
        f.killing().resuming().kill,
        f.killing().hinting(hint).kill,
        f.killing().without_hint().kill,
        f.pausing().hinting(hint) == f.hinting(hint).pausing(),
{
}

/// Each request does what it is called: a paused agent is paused until it resumes, a killed one
/// exits, and the hint that is read is the one that was left. No other flag is touched.
pub proof fn law_flags_do_what_they_are_called(f: FlagView, hint: (i64, Seq<char>))
    ensures
        f.pausing().paused && f.pausing().kill == f.kill && f.pausing().hint == f.hint,
        !f.resuming().paused && f.resuming().kill == f.kill && f.resuming().hint == f.hint,
        f.killing().kill && f.killing().paused == f.paused && f.killing().hint == f.hint,
        f.hinting(hint).hint == Some(hint) && f.hinting(hint).paused == f.paused,
        f.without_hint().hint is None && f.without_hint().paused == f.paused,
{
}

/// Each flag has a file of its own.
pub proof fn law_flag_files_differ()
    ensures
        PAUSED@ != KILL@,
        PAUSED@ != REPRIORITISE@,
        KILL@ != REPRIORITISE@,
{
    reveal_strlit("paused");
    reveal_strlit("kill");
    reveal_strlit("reprioritise.json");
    assert(PAUSED@.len() == 6 && KILL@.len() == 4 && REPRIORITISE@.len() == 17);
}

} // verus!
