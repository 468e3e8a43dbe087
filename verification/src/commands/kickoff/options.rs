//! What the user may ask of a launch, and how it is read from the command line.

use crate::assistant::Assistant;
use crate::commands::design_doc::DesignDoc;
use crate::text;
use crate::text::{chars_of, eq_str, own, parse_u64, string_of, to_lower, trim_str};
use vstd::prelude::*;
use vstd::slice::slice_subrange;

verus! {

/// Container runtime for agent execution.
#[derive(Debug, Clone, Copy, PartialEq, Eq, Structural)]
pub enum ContainerMode {
    /// Run as a local process in a tmux session.
    Local,
    /// Run inside a Docker container.
    Docker,
    /// Run inside a Podman container.
    Podman,
}

/// Post-implementation verification level.
#[derive(Debug, Clone, Copy, PartialEq, Eq, Structural)]
pub enum VerifyLevel {
    /// Local tests and the closing checklist only.
    Local,
    /// Push branch, open draft PR, wait for CI.
    Ci,
    /// CI plus a structured adversarial pass over the changes.
    Thorough,
}

/// Options for `crosslink kickoff run`.
pub struct KickoffOpts<'a> {
    pub description: &'a str,
    pub issue: Option<i64>,
    pub container: ContainerMode,
    pub verify: VerifyLevel,
    pub model: &'a str,
    pub image: &'a str,
    /// The time that the agent has, in seconds.
    pub timeout: u64,
    pub dry_run: bool,
    pub branch: Option<&'a str>,
    pub quiet: bool,
    pub design_doc: Option<&'a DesignDoc>,
    pub doc_path: Option<&'a str>,
    pub assistant: Assistant<'a>,
}

/// Options for `crosslink kickoff plan`.
pub struct PlanOpts<'a> {
    pub doc: &'a DesignDoc,
    pub model: &'a str,
    /// The time that the agent has, in seconds.
    pub timeout: u64,
    pub dry_run: bool,
    pub issue: Option<i64>,
    pub quiet: bool,
    pub assistant: Assistant<'a>,
}

/// The container mode that a name in lower case stands for.
pub open spec fn container_named(name: Seq<char>) -> Option<ContainerMode> {
    if name == "none"@ || name == "local"@ {
        Some(ContainerMode::Local)
    } else if name == "docker"@ {
        Some(ContainerMode::Docker)
    } else if name == "podman"@ {
        Some(ContainerMode::Podman)
    } else {
        None
    }
}

/// Looks up the container mode of a name that is in lower case already.
pub fn container_by_name(name: &str) -> (r: Option<ContainerMode>)
    ensures
        r == container_named(name@),
{
    if eq_str(name, "none") || eq_str(name, "local") {
        Some(ContainerMode::Local)
    } else if eq_str(name, "docker") {
        Some(ContainerMode::Docker)
    } else if eq_str(name, "podman") {
        Some(ContainerMode::Podman)
    } else {
        None
    }
}

/// What is said of a container mode that there is not.
pub open spec fn unknown_container(s: Seq<char>) -> Seq<char> {
    "Unknown container runtime '"@ + s + "'. Use: none, docker, podman"@
}

/// Parse a container mode string into the enum. Case does not matter.
pub fn parse_container_mode(s: &str) -> (r: Result<ContainerMode, String>)
    ensures
        match r {
            Ok(mode) => container_named(text::lower(s@)) == Some(mode),
            Err(e) => container_named(text::lower(s@)) is None && e@ == unknown_container(s@),
        },
{
    match container_by_name(to_lower(s).as_str()) {
        Some(mode) => Ok(mode),
        None => {
            let mut e = own("Unknown container runtime '");
            e.append(s);
            e.append("'. Use: none, docker, podman");
            Err(e)
        },
    }
}

/// The verification level that a name in lower case stands for.
pub open spec fn level_named(name: Seq<char>) -> Option<VerifyLevel> {
    if name == "local"@ {
        Some(VerifyLevel::Local)
    } else if name == "ci"@ {
        Some(VerifyLevel::Ci)
    } else if name == "thorough"@ {
        Some(VerifyLevel::Thorough)
    } else {
        None
    }
}

/// Looks up the verification level of a name that is in lower case already.
pub fn level_by_name(name: &str) -> (r: Option<VerifyLevel>)
    ensures
        r == level_named(name@),
{
    if eq_str(name, "local") {
        Some(VerifyLevel::Local)
    } else if eq_str(name, "ci") {
        Some(VerifyLevel::Ci)
    } else if eq_str(name, "thorough") {
        Some(VerifyLevel::Thorough)
    } else {
        None
    }
}

/// What is said of a verification level that there is not.
pub open spec fn unknown_level(s: Seq<char>) -> Seq<char> {
    "Unknown verification level '"@ + s + "'. Use: local, ci, thorough"@
}

/// Parse a verification level string into the enum. Case does not matter.
pub fn parse_verify_level(s: &str) -> (r: Result<VerifyLevel, String>)
    ensures
        match r {
            Ok(level) => level_named(text::lower(s@)) == Some(level),
            Err(e) => level_named(text::lower(s@)) is None && e@ == unknown_level(s@),
        },
{
    match level_by_name(to_lower(s).as_str()) {
        Some(level) => Ok(level),
        None => {
            let mut e = own("Unknown verification level '");
            e.append(s);
            e.append("'. Use: local, ci, thorough");
            Err(e)
        },
    }
}

/// The name of a verification level.
pub open spec fn level_name(level: VerifyLevel) -> Seq<char> {
    match level {
        VerifyLevel::Local => "local"@,
        VerifyLevel::Ci => "ci"@,
        VerifyLevel::Thorough => "thorough"@,
    }
}

/// Format the verification level as a display string.
pub fn verify_level_name(level: &VerifyLevel) -> (r: &'static str)
    ensures
        r@ == level_name(*level),
{
    match level {
        VerifyLevel::Local => "local",
        VerifyLevel::Ci => "ci",
        VerifyLevel::Thorough => "thorough",
    }
}

/// The name of a level reads back as that level.
pub proof fn law_level_name_reads_back(level: VerifyLevel)
    ensures
        level_named(level_name(level)) == Some(level),
{
    reveal_strlit("local");
    reveal_strlit("ci");
    reveal_strlit("thorough");
    assert("local"@.len() == 5 && "ci"@.len() == 2 && "thorough"@.len() == 8);
}

// ---------------------------------------------------------------------------
// Durations
// ---------------------------------------------------------------------------

/// The seconds that a unit letter stands for.
pub open spec fn unit_secs(c: char) -> Option<nat> {
    if c == 'h' {
        Some(3600)
    } else if c == 'm' {
        Some(60)
    } else if c == 's' {
        Some(1)
    } else {
        None
    }
}

/// The number of a trimmed duration, without its unit.
pub open spec fn duration_number(t: Seq<char>) -> Seq<char> {
    if t.len() > 0 && unit_secs(t.last()) is Some {
        t.drop_last()
    } else {
        t
    }
}

/// The seconds that the unit of a trimmed duration stands for. A bare number
/// counts seconds.
pub open spec fn duration_unit(t: Seq<char>) -> nat {
    if t.len() > 0 && unit_secs(t.last()) is Some {
        unit_secs(t.last())->0
    } else {
        1
    }
}

/// The count of units in a duration, where its number can be read.
pub open spec fn duration_count(s: Seq<char>) -> Option<nat> {
    text::parse_dec(duration_number(text::trim(s)), u64::MAX as nat)
}

/// The seconds of a duration, where its number can be read.
pub open spec fn duration_secs(s: Seq<char>) -> Option<nat> {
    match duration_count(s) {
        Some(n) => Some(n * duration_unit(text::trim(s))),
        None => None,
    }
}

/// Whether the seconds of a duration, where its number can be read, fit in 64 bits.
pub fn duration_fits(s: &str) -> (r: bool)
    ensures
        r == (duration_secs(s@) matches Some(n) ==> n <= u64::MAX),
{
    let (number, unit) = split_duration(trim_str(s).as_str());
    match parse_u64(number.as_str()) {
        Some(value) => {
            assert(value as u128 * unit as u128 <= u64::MAX as u128 * 3600) by (nonlinear_arith)
                requires
                    unit <= 3600,
            ;
            value as u128 * unit as u128 <= u64::MAX as u128
        },
        None => true,
    }
}

fn split_duration(trimmed: &str) -> (r: (String, u64))
    ensures
        r.0@ == duration_number(trimmed@),
        r.1 == duration_unit(trimmed@),
        r.1 <= 3600,
{
    let t = chars_of(trimmed);
    if t.len() == 0 {
        return (own(trimmed), 1);
    }
    let last: char = t[t.len() - 1];
    let mut n: usize = t.len() - 1;
    let mut unit: u64 = 1;
    if last == 'h' {
        unit = 3600;
    } else if last == 'm' {
        unit = 60;
    } else if last != 's' {
        n = t.len();
    }
    let number = string_of(slice_subrange(t.as_slice(), 0, n));
    assert(number@ =~= duration_number(trimmed@));
    (number, unit)
}

/// What is wrong with a duration, if anything is.
pub open spec fn duration_error(s: Seq<char>) -> Option<Seq<char>> {
    let t = text::trim(s);
    if t.len() == 0 {
        Some("Empty duration string"@)
    } else {
        match duration_secs(s) {
            None => Some("Invalid duration number: '"@ + duration_number(t) + "'"@),
            Some(n) => if n == 0 {
                Some("Duration must be greater than zero"@)
            } else {
                None
            },
        }
    }
}

/// Parse a human-readable duration string (e.g. "1h", "30m", "90s") into
/// seconds. The product of number and unit must fit in 64 bits.
pub fn parse_duration(s: &str) -> (r: Result<u64, String>)
    requires
        duration_secs(s@) matches Some(n) ==> n <= u64::MAX,
    ensures
        match r {
            Ok(secs) => duration_error(s@) is None && duration_secs(s@) == Some(secs as nat),
            Err(e) => duration_error(s@) == Some(e@),
        },
{
    let trimmed = trim_str(s);
    if trimmed.as_str().is_empty() {
        return Err(own("Empty duration string"));
    }
    let (number, unit) = split_duration(trimmed.as_str());
    match parse_u64(number.as_str()) {
        Some(value) => {
            assert(value * unit <= u64::MAX);
            let secs: u64 = value * unit;
            if secs == 0 {
                Err(own("Duration must be greater than zero"))
            } else {
                Ok(secs)
            }
        },
        None => {
            let mut e = own("Invalid duration number: '");
            e.append(number.as_str());
            e.append("'");
            Err(e)
        },
    }
}

/// Only a name that there is stands for a runtime or a level, each for its own.
pub proof fn law_names_stand_for_their_own(name: Seq<char>)
    ensures
        container_named(name) == Some(ContainerMode::Local) <==> name == "none"@ || name
            == "local"@,
        container_named(name) == Some(ContainerMode::Docker) <==> name == "docker"@,
        container_named(name) == Some(ContainerMode::Podman) <==> name == "podman"@,
        level_named(name) == Some(VerifyLevel::Local) <==> name == "local"@,
        level_named(name) == Some(VerifyLevel::Ci) <==> name == "ci"@,
        level_named(name) == Some(VerifyLevel::Thorough) <==> name == "thorough"@,
{
    reveal_strlit("none");
    reveal_strlit("local");
    reveal_strlit("docker");
    reveal_strlit("podman");
    reveal_strlit("ci");
    reveal_strlit("thorough");
    assert("docker"@[0] != "podman"@[0]);
    assert("none"@.len() == 4 && "local"@.len() == 5 && "docker"@.len() == 6 && "podman"@.len()
        == 6);
    assert("ci"@.len() == 2 && "thorough"@.len() == 8);
}

/// A number of hours, minutes or seconds is that many seconds; a bare number counts seconds, and
/// white space around it does not matter. Nothing but zero is refused.
pub proof fn law_durations_count_seconds(n: nat, lead: Seq<char>, tail: Seq<char>)
    requires
        n <= u64::MAX,
        forall|i: int| 0 <= i < lead.len() ==> text::is_ws(#[trigger] lead[i]),
        forall|i: int| 0 <= i < tail.len() ==> text::is_ws(#[trigger] tail[i]),
    ensures
        duration_secs(lead + (text::dec(n) + "h"@) + tail) == Some(n * 3600),
        duration_secs(lead + (text::dec(n) + "m"@) + tail) == Some(n * 60),
        duration_secs(lead + (text::dec(n) + "s"@) + tail) == Some(n),
        duration_secs(lead + text::dec(n) + tail) == Some(n),
        duration_error(lead + (text::dec(n) + "h"@) + tail) is None <==> n > 0,
        duration_error(lead + (text::dec(n) + "m"@) + tail) is None <==> n > 0,
        duration_error(lead + text::dec(n) + tail) is None <==> n > 0,
{
    let d = text::dec(n);
    text::lemma_dec_value(n);
    reveal_strlit("h");
    reveal_strlit("m");
    reveal_strlit("s");
    assert(text::is_digit(d[0]) && text::is_digit(d.last()));
    lemma_trim_around(lead, d + "h"@, tail);
    lemma_trim_around(lead, d + "m"@, tail);
    lemma_trim_around(lead, d + "s"@, tail);
    lemma_trim_around(lead, d, tail);
    assert((d + "h"@).last() == 'h' && (d + "h"@).drop_last() =~= d);
    assert((d + "m"@).last() == 'm' && (d + "m"@).drop_last() =~= d);
    assert((d + "s"@).last() == 's' && (d + "s"@).drop_last() =~= d);
    assert(unit_secs(d.last()) is None);
    assert(text::strip_plus(d) == d);
    assert(n * 1 == n);
}

proof fn lemma_trim_around(lead: Seq<char>, s: Seq<char>, tail: Seq<char>)
    requires
        s.len() > 0 && !text::is_ws(s[0]) && !text::is_ws(s.last()),
        forall|i: int| 0 <= i < lead.len() ==> text::is_ws(#[trigger] lead[i]),
        forall|i: int| 0 <= i < tail.len() ==> text::is_ws(#[trigger] tail[i]),
    ensures
        text::trim(lead + s + tail) == s,
    decreases lead.len() + tail.len(),
{
    let all = lead + s + tail;
    if lead.len() > 0 {
        assert(all[0] == lead[0]);
        assert(all.drop_first() =~= lead.drop_first() + s + tail);
        lemma_trim_around(lead.drop_first(), s, tail);
    } else {
        assert(all =~= s + tail);
        assert(all[0] == s[0]);
        assert(text::trim_start(all) == all);
        if tail.len() > 0 {
            assert(all.last() == tail.last());
            assert(all.drop_last() =~= lead + s + tail.drop_last());
            lemma_trim_around(lead, s, tail.drop_last());
            assert(text::trim_start(all.drop_last()) == all.drop_last());
        } else {
            assert(all =~= s);
        }
    }
}

/// What cannot be read as a number of units is refused, and the text is told.
pub proof fn law_other_durations_are_refused(s: Seq<char>)
    ensures
        text::trim(s).len() == 0 ==> duration_error(s) is Some,
        duration_secs(s) is None && text::trim(s).len() > 0 ==> (duration_error(s) matches Some(e)
            && text::contains(e, duration_number(text::trim(s)))),
        duration_error(s) is None <==> (duration_secs(s) matches Some(n) && n > 0),
{
    broadcast use {text::lemma_contains_self, text::lemma_contains_first, text::lemma_contains_second};

    if text::trim(s).len() == 0 {
        assert(duration_number(text::trim(s)).len() == 0);
    }
}

} // verus!
