//! Clock skew: events whose time differs from that of the git commit that brought them
//! to the hub.
//!
//! The committer date is a witness that is independent of the clock of the agent.

use crate::text;
use crate::text::{chars_of, dec_i64, find_char_in, lines_of, own, starts_with, string_of, trim_str};
use crate::time;
use crate::time::Moment;
use vstd::prelude::*;
use vstd::slice::slice_subrange;

verus! {

/// Events that differ by more seconds than this from their commit are flagged.
pub const SKEW_THRESHOLD_SECS: i64 = 60;

/// A clock skew violation: an event, and the commit that introduced it.
#[derive(Debug, Clone, PartialEq)]
pub struct SkewViolation {
    pub agent_id: String,
    pub event_description: String,
    pub event_timestamp: Moment,
    pub commit_timestamp: Moment,
    pub skew_seconds: i64,
}

/// The model of a violation.
#[verifier::ext_equal]
pub struct ViolationView {
    pub agent_id: Seq<char>,
    pub event_description: Seq<char>,
    pub event_timestamp: Moment,
    pub commit_timestamp: Moment,
    pub skew_seconds: int,
}

impl View for SkewViolation {
    type V = ViolationView;

    open spec fn view(&self) -> ViolationView {
        ViolationView {
            agent_id: self.agent_id@,
            event_description: self.event_description@,
            event_timestamp: self.event_timestamp,
            commit_timestamp: self.commit_timestamp,
            skew_seconds: self.skew_seconds as int,
        }
    }
}

// ---------------------------------------------------------------------------
// Events
// ---------------------------------------------------------------------------

/// What an agent has done. Issues are named by their UUID.
#[derive(Debug, Clone, PartialEq)]
pub enum Event {
    IssueCreated { uuid: String, title: String },
    IssueUpdated { uuid: String },
    StatusChanged { uuid: String, new_status: String },
    LockClaimed { issue_display_id: i64 },
    LockReleased { issue_display_id: i64 },
    DependencyAdded { blocked_uuid: String, blocker_uuid: String },
    DependencyRemoved { blocked_uuid: String, blocker_uuid: String },
    RelationAdded { uuid_a: String, uuid_b: String },
    RelationRemoved { uuid_a: String, uuid_b: String },
    MilestoneAssigned { issue_uuid: String },
    LabelAdded { issue_uuid: String, label: String },
    LabelRemoved { issue_uuid: String, label: String },
    ParentChanged { issue_uuid: String },
}

/// An event and when it happened.
#[derive(Debug, Clone, PartialEq)]
pub struct EventEnvelope {
    pub timestamp: Moment,
    pub event: Event,
}

/// A name with one argument.
pub open spec fn call1(name: Seq<char>, a: Seq<char>) -> Seq<char> {
    name + a + ")"@
}

/// A name with two arguments.
pub open spec fn call2(name: Seq<char>, a: Seq<char>, between: Seq<char>, b: Seq<char>) -> Seq<char> {
    name + a + between + b + ")"@
}

/// A brief description of an event.
pub open spec fn description(event: Event) -> Seq<char> {
    match event {
        Event::IssueCreated { uuid, title } => call2("IssueCreated("@, uuid@, ", "@, title@),
        Event::IssueUpdated { uuid } => call1("IssueUpdated("@, uuid@),
        Event::StatusChanged { uuid, new_status } => call2(
            "StatusChanged("@,
            uuid@,
            ", "@,
            new_status@,
        ),
        Event::LockClaimed { issue_display_id } => call1(
            "LockClaimed(#"@,
            text::dec_int(issue_display_id as int),
        ),
        Event::LockReleased { issue_display_id } => call1(
            "LockReleased(#"@,
            text::dec_int(issue_display_id as int),
        ),
        Event::DependencyAdded { blocked_uuid, blocker_uuid } => call2(
            "DependencyAdded("@,
            blocked_uuid@,
            " blocked by "@,
            blocker_uuid@,
        ),
        Event::DependencyRemoved { blocked_uuid, blocker_uuid } => call2(
            "DependencyRemoved("@,
            blocked_uuid@,
            " unblocked from "@,
            blocker_uuid@,
        ),
        Event::RelationAdded { uuid_a, uuid_b } => call2(
            "RelationAdded("@,
            uuid_a@,
            ", "@,
            uuid_b@,
        ),
        Event::RelationRemoved { uuid_a, uuid_b } => call2(
            "RelationRemoved("@,
            uuid_a@,
            ", "@,
            uuid_b@,
        ),
        Event::MilestoneAssigned { issue_uuid } => call1("MilestoneAssigned("@, issue_uuid@),
        Event::LabelAdded { issue_uuid, label } => call2(
            "LabelAdded("@,
            issue_uuid@,
            ", "@,
            label@,
        ),
        Event::LabelRemoved { issue_uuid, label } => call2(
            "LabelRemoved("@,
            issue_uuid@,
            ", "@,
            label@,
        ),
        Event::ParentChanged { issue_uuid } => call1("ParentChanged("@, issue_uuid@),
    }
}

fn one(name: &str, a: &str) -> (r: String)
    ensures
        r@ == call1(name@, a@),
{
    let mut out = own(name);
    out.append(a);
    out.append(")");
    out
}

fn two(name: &str, a: &str, between: &str, b: &str) -> (r: String)
    ensures
        r@ == call2(name@, a@, between@, b@),
{
    let mut out = own(name);
    out.append(a);
    out.append(between);
    out.append(b);
    out.append(")");
    out
}

/// Create a brief human-readable description of an event.
pub fn describe_event(event: &Event) -> (r: String)
    ensures
        r@ == description(*event),
{
    match event {
        Event::IssueCreated { uuid, title } => two(
            "IssueCreated(",
            uuid.as_str(),
            ", ",
            title.as_str(),
        ),
        Event::IssueUpdated { uuid } => one("IssueUpdated(", uuid.as_str()),
        Event::StatusChanged { uuid, new_status } => two(
            "StatusChanged(",
            uuid.as_str(),
            ", ",
            new_status.as_str(),
        ),
        Event::LockClaimed { issue_display_id } => one(
            "LockClaimed(#",
            dec_i64(*issue_display_id).as_str(),
        ),
        Event::LockReleased { issue_display_id } => one(
            "LockReleased(#",
            dec_i64(*issue_display_id).as_str(),
        ),
        Event::DependencyAdded { blocked_uuid, blocker_uuid } => two(
            "DependencyAdded(",
            blocked_uuid.as_str(),
            " blocked by ",
            blocker_uuid.as_str(),
        ),
        Event::DependencyRemoved { blocked_uuid, blocker_uuid } => two(
            "DependencyRemoved(",
            blocked_uuid.as_str(),
            " unblocked from ",
            blocker_uuid.as_str(),
        ),
        Event::RelationAdded { uuid_a, uuid_b } => two(
            "RelationAdded(",
            uuid_a.as_str(),
            ", ",
            uuid_b.as_str(),
        ),
        Event::RelationRemoved { uuid_a, uuid_b } => two(
            "RelationRemoved(",
            uuid_a.as_str(),
            ", ",
            uuid_b.as_str(),
        ),
        Event::MilestoneAssigned { issue_uuid } => one("MilestoneAssigned(", issue_uuid.as_str()),
        Event::LabelAdded { issue_uuid, label } => two(
            "LabelAdded(",
            issue_uuid.as_str(),
            ", ",
            label.as_str(),
        ),
        Event::LabelRemoved { issue_uuid, label } => two(
            "LabelRemoved(",
            issue_uuid.as_str(),
            ", ",
            label.as_str(),
        ),
        Event::ParentChanged { issue_uuid } => one("ParentChanged(", issue_uuid.as_str()),
    }
}

// ---------------------------------------------------------------------------
// What git prints
// ---------------------------------------------------------------------------

/// A git commit with its hash and committer timestamp.
#[derive(Debug, Clone, PartialEq)]
pub struct GitCommit {
    pub hash: String,
    pub timestamp: Moment,
}

/// The model of a commit: its hash, and the seconds and nanoseconds of its time.
pub open spec fn commit_view(c: GitCommit) -> (Seq<char>, i64, u32) {
    (c.hash@, c.timestamp.secs(), c.timestamp.nanos())
}

/// The models of some commits.
pub open spec fn commit_views(cs: Seq<GitCommit>) -> Seq<(Seq<char>, i64, u32)> {
    Seq::new(cs.len(), |i: int| commit_view(cs[i]))
}

/// The commit on a line: the hash in front of the first space and the time behind it.
/// A line without a space or without a time is no commit.
pub open spec fn commit_on(line: Seq<char>) -> Option<(Seq<char>, i64, u32)> {
    let t = text::trim(line);
    let at = text::find_char(t, ' ');
    if at >= t.len() {
        None
    } else {
        match time::rfc3339(t.skip(at as int + 1)) {
            Some((secs, nanos)) => Some((t.take(at as int), secs, nanos)),
            None => None,
        }
    }
}

/// The commits on the first `n` lines.
pub open spec fn commits_on(lines: Seq<Seq<char>>, n: nat) -> Seq<(Seq<char>, i64, u32)>
    decreases n,
{
    if n == 0 {
        Seq::empty()
    } else {
        let head = commits_on(lines, (n - 1) as nat);
        match commit_on(lines[n - 1]) {
            Some(c) => head.push(c),
            None => head,
        }
    }
}

fn read_commit(line: &str) -> (r: Option<GitCommit>)
    ensures
        match r {
            Some(c) => commit_on(line@) == Some(commit_view(c)),
            None => commit_on(line@) is None,
        },
{
    let t = trim_str(line);
    let cs = chars_of(t.as_str());
    let at = find_char_in(cs.as_slice(), ' ');
    if at >= cs.len() {
        return None;
    }
    let hash = string_of(slice_subrange(cs.as_slice(), 0, at));
    let when = string_of(slice_subrange(cs.as_slice(), at + 1, cs.len()));
    assert(hash@ =~= t@.take(at as int));
    assert(when@ =~= t@.skip(at + 1));
    match Moment::parse(when.as_str()) {
        Some(timestamp) => Some(GitCommit { hash, timestamp }),
        None => None,
    }
}

/// Reads the commits that modified a file off `git log --format="%H %cI"`, newest
/// first.
pub fn get_commits_for_file(log: &str) -> (r: Vec<GitCommit>)
    ensures
        commit_views(r@) == commits_on(text::lines(log@), text::lines(log@).len()),
{
    let lines = lines_of(log);
    let ghost views = text::lines(log@);
    let mut out: Vec<GitCommit> = Vec::new();
    let mut i: usize = 0;
    assert(commit_views(out@) =~= Seq::<(Seq<char>, i64, u32)>::empty());
    assert(views.len() == lines@.len());
    while i < lines.len()
        invariant
            i <= lines@.len(),
            views == text::strs(lines@),
            commit_views(out@) == commits_on(views, i as nat),
        decreases lines@.len() - i,
    {
        assert(views[i as int] == lines@[i as int]@);
        if let Some(c) = read_commit(lines[i].as_str()) {
            let ghost before = out@;
            out.push(c);
            assert(commit_views(out@) =~= commit_views(before).push(commit_view(c)));
        }
        i = i + 1;
    }
    out
}

/// Whether a line of a diff adds something: it starts with one plus and is not the
/// header of the file.
pub open spec fn is_added(line: Seq<char>) -> bool {
    text::has_prefix(line, "+"@) && !text::has_prefix(line, "+++"@)
}

/// The lines that a diff adds, among its first `n` lines.
pub open spec fn added_on(lines: Seq<Seq<char>>, n: nat) -> Seq<Seq<char>>
    decreases n,
{
    if n == 0 {
        Seq::empty()
    } else {
        let head = added_on(lines, (n - 1) as nat);
        if is_added(lines[n - 1]) {
            head.push(lines[n - 1].skip(1))
        } else {
            head
        }
    }
}

/// Extract the lines that a commit adds from the diff that git prints of it. Each is an
/// event, as far as it can be read.
pub fn added_lines(diff: &str) -> (r: Vec<String>)
    ensures
        text::strs(r@) == added_on(text::lines(diff@), text::lines(diff@).len()),
{
    let lines = lines_of(diff);
    let ghost views = text::lines(diff@);
    let mut out: Vec<String> = Vec::new();
    let mut i: usize = 0;
    assert(text::strs(out@) =~= Seq::<Seq<char>>::empty());
    assert(views.len() == lines@.len());
    proof {
        reveal_strlit("+");
    }
    while i < lines.len()
        invariant
            i <= lines@.len(),
            views == text::strs(lines@),
            "+"@.len() == 1,
            text::strs(out@) == added_on(views, i as nat),
        decreases lines@.len() - i,
    {
        assert(views[i as int] == lines@[i as int]@);
        let line = lines[i].as_str();
        if starts_with(line, "+") && !starts_with(line, "+++") {
            let cs = chars_of(line);
            let rest = string_of(slice_subrange(cs.as_slice(), 1, cs.len()));
            assert(rest@ =~= line@.skip(1));
            let ghost before = out@;
            out.push(rest);
            proof {
                text::lemma_strs_push(before, rest);
            }
        }
        i = i + 1;
    }
    out
}

// ---------------------------------------------------------------------------
// Detection
// ---------------------------------------------------------------------------

/// The events that a commit added to an agent's log.
pub struct CommitEvents {
    pub timestamp: Moment,
    pub events: Vec<EventEnvelope>,
}

/// The commits of an agent's log.
pub struct AgentLog {
    pub agent_id: String,
    pub commits: Vec<CommitEvents>,
}

/// The seconds by which an event differs from its commit.
pub open spec fn skew(event: Moment, commit: Moment) -> int {
    let d = time::seconds_from(event.secs(), event.nanos(), commit.secs(), commit.nanos());
    if d < 0 {
        -d
    } else {
        d
    }
}

/// Whether an event differs from its commit by more than the threshold, parts of a second
/// included.
pub open spec fn is_skewed(event: Moment, commit: Moment) -> bool {
    let span = time::span_from(event.secs(), event.nanos(), commit.secs(), commit.nanos());
    span > SKEW_THRESHOLD_SECS * 1_000_000_000 || -span > SKEW_THRESHOLD_SECS * 1_000_000_000
}

/// The violations among the first `n` events of a commit.
pub open spec fn event_violations(
    agent_id: Seq<char>,
    commit: Moment,
    events: Seq<EventEnvelope>,
    n: nat,
) -> Seq<ViolationView>
    decreases n,
{
    if n == 0 {
        Seq::empty()
    } else {
        let head = event_violations(agent_id, commit, events, (n - 1) as nat);
        let e = events[n - 1];
        if is_skewed(e.timestamp, commit) {
            head.push(
                ViolationView {
                    agent_id,
                    event_description: description(e.event),
                    event_timestamp: e.timestamp,
                    commit_timestamp: commit,
                    skew_seconds: skew(e.timestamp, commit),
                },
            )
        } else {
            head
        }
    }
}

/// The violations in the first `n` commits of a log.
pub open spec fn commit_violations(agent_id: Seq<char>, commits: Seq<CommitEvents>, n: nat) -> Seq<
    ViolationView,
>
    decreases n,
{
    if n == 0 {
        Seq::empty()
    } else {
        let c = commits[n - 1];
        commit_violations(agent_id, commits, (n - 1) as nat) + event_violations(
            agent_id,
            c.timestamp,
            c.events@,
            c.events@.len(),
        )
    }
}

/// The violations in the first `n` logs.
pub open spec fn log_violations(logs: Seq<AgentLog>, n: nat) -> Seq<ViolationView>
    decreases n,
{
    if n == 0 {
        Seq::empty()
    } else {
        let l = logs[n - 1];
        log_violations(logs, (n - 1) as nat) + commit_violations(
            l.agent_id@,
            l.commits@,
            l.commits@.len(),
        )
    }
}

/// The models of some violations.
pub open spec fn violation_views(vs: Seq<SkewViolation>) -> Seq<ViolationView> {
    Seq::new(vs.len(), |i: int| vs[i]@)
}

fn push_violations(out: &mut Vec<SkewViolation>, agent_id: &str, commit: &CommitEvents)
    ensures
        violation_views(final(out)@) == violation_views(old(out)@) + event_violations(
            agent_id@,
            commit.timestamp,
            commit.events@,
            commit.events@.len(),
        ),
{
    let ghost start = violation_views(out@);
    let events = &commit.events;
    let mut i: usize = 0;
    assert(violation_views(out@) =~= start + event_violations(
        agent_id@,
        commit.timestamp,
        events@,
        0,
    ));
    while i < events.len()
        invariant
            i <= events@.len(),
            violation_views(out@) == start + event_violations(
                agent_id@,
                commit.timestamp,
                events@,
                i as nat,
            ),
        decreases events@.len() - i,
    {
        let e = &events[i];
        let skewed = e.timestamp.is_farther_than(&commit.timestamp, SKEW_THRESHOLD_SECS as u32);
        let d = e.timestamp.seconds_since(&commit.timestamp);
        let diff: i64 = if d < 0 {
            -d
        } else {
            d
        };
        let ghost before = out@;
        let ghost found = event_violations(agent_id@, commit.timestamp, events@, i as nat);
        if skewed {
            let v = SkewViolation {
                agent_id: own(agent_id),
                event_description: describe_event(&e.event),
                event_timestamp: e.timestamp,
                commit_timestamp: commit.timestamp,
                skew_seconds: diff,
            };
            out.push(v);
            proof {
                assert(violation_views(out@) =~= violation_views(before).push(v@));
                assert(start + found.push(v@) =~= (start + found).push(v@));
            }
        }
        i = i + 1;
    }
}

/// Detect clock skew violations: the events of each agent's log whose time differs from
/// that of their commit by more than the threshold.
pub fn detect_git_skew_violations(logs: &Vec<AgentLog>) -> (r: Vec<SkewViolation>)
    ensures
        violation_views(r@) == log_violations(logs@, logs@.len()),
{
    let mut out: Vec<SkewViolation> = Vec::new();
    let mut i: usize = 0;
    assert(violation_views(out@) =~= Seq::<ViolationView>::empty());
    while i < logs.len()
        invariant
            i <= logs@.len(),
            violation_views(out@) == log_violations(logs@, i as nat),
        decreases logs@.len() - i,
    {
        let log = &logs[i];
        let ghost start = violation_views(out@);
        let mut j: usize = 0;
        assert(start =~= start + commit_violations(log.agent_id@, log.commits@, 0));
        while j < log.commits.len()
            invariant
                i < logs@.len(),
                *log == logs@[i as int],
                j <= log.commits@.len(),
                start == log_violations(logs@, i as nat),
                violation_views(out@) == start + commit_violations(
                    log.agent_id@,
                    log.commits@,
                    j as nat,
                ),
            decreases log.commits@.len() - j,
        {
            let ghost here = commit_violations(log.agent_id@, log.commits@, j as nat);
            let commit = &log.commits[j];
            push_violations(&mut out, log.agent_id.as_str(), commit);
            proof {
                let more = event_violations(
                    log.agent_id@,
                    commit.timestamp,
                    commit.events@,
                    commit.events@.len(),
                );
                assert((start + here) + more =~= start + (here + more));
            }
            j = j + 1;
        }
        i = i + 1;
    }
    out
}

// ---------------------------------------------------------------------------
// Laws
// ---------------------------------------------------------------------------

/// Every violation is beyond the threshold, by the exact difference of its two moments,
/// of which its seconds are the whole ones.
pub proof fn law_violations_are_beyond_the_threshold(
    agent_id: Seq<char>,
    commit: Moment,
    events: Seq<EventEnvelope>,
    n: nat,
    i: int,
)
    requires
        n <= events.len(),
        0 <= i < event_violations(agent_id, commit, events, n).len(),
    ensures
        ({
            let v = event_violations(agent_id, commit, events, n)[i];
            &&& is_skewed(v.event_timestamp, v.commit_timestamp)
            &&& v.skew_seconds == skew(v.event_timestamp, v.commit_timestamp)
            &&& v.skew_seconds >= SKEW_THRESHOLD_SECS
        }),
    decreases n,
{
    if n > 0 {
        let head = event_violations(agent_id, commit, events, (n - 1) as nat);
        if i < head.len() {
            law_violations_are_beyond_the_threshold(agent_id, commit, events, (n - 1) as nat, i);
        }
    }
}

/// A log whose events all lie within the threshold of their commit has no violation.
pub proof fn law_events_in_time_are_not_flagged(
    agent_id: Seq<char>,
    commit: Moment,
    events: Seq<EventEnvelope>,
    n: nat,
)
    requires
        n <= events.len(),
        forall|i: int|
            0 <= i < n ==> !is_skewed((#[trigger] events[i]).timestamp, commit),
    ensures
        event_violations(agent_id, commit, events, n).len() == 0,
    decreases n,
{
    if n > 0 {
        law_events_in_time_are_not_flagged(agent_id, commit, events, (n - 1) as nat);
        assert(!is_skewed(events[n - 1].timestamp, commit));
    }
}

/// Every event that lies beyond the threshold of its commit is flagged, with the moments
/// of both and the whole seconds between them.
pub proof fn law_skewed_events_are_flagged(
    agent_id: Seq<char>,
    commit: Moment,
    events: Seq<EventEnvelope>,
    n: nat,
    i: int,
)
    requires
        n <= events.len(),
        0 <= i < n,
        is_skewed(events[i].timestamp, commit),
    ensures
        event_violations(agent_id, commit, events, n).contains(
            (ViolationView {
                agent_id,
                event_description: description(events[i].event),
                event_timestamp: events[i].timestamp,
                commit_timestamp: commit,
                skew_seconds: skew(events[i].timestamp, commit),
            }),
        ),
    decreases n,
{
    let v = ViolationView {
        agent_id,
        event_description: description(events[i].event),
        event_timestamp: events[i].timestamp,
        commit_timestamp: commit,
        skew_seconds: skew(events[i].timestamp, commit),
    };
    let all = event_violations(agent_id, commit, events, n);
    if i < n - 1 {
        law_skewed_events_are_flagged(agent_id, commit, events, (n - 1) as nat, i);
        let head = event_violations(agent_id, commit, events, (n - 1) as nat);
        let k = choose|k: int| 0 <= k < head.len() && head[k] == v;
        assert(all[k] == v);
    } else {
        assert(all[all.len() - 1] == v);
    }
}

/// Leap seconds aside, an event is skewed exactly where it lies more than a minute before or
/// after its commit, to the nanosecond, and the skew is the whole seconds between the two, in
/// either direction.
pub proof fn law_skew_is_the_distance(event: Moment, commit: Moment)
    requires
        event.nanos() < 1_000_000_000,
        commit.nanos() < 1_000_000_000,
    ensures
        ({
            let span = (event.secs() - commit.secs()) * 1_000_000_000 + event.nanos()
                - commit.nanos();
            &&& is_skewed(event, commit) <==> (span > 60_000_000_000 || span < -60_000_000_000)
            &&& skew(event, commit) >= 0
            &&& span >= 0 ==> skew(event, commit) * 1_000_000_000 <= span < (skew(event, commit)
                + 1) * 1_000_000_000
            &&& span < 0 ==> skew(event, commit) * 1_000_000_000 <= -span < (skew(event, commit)
                + 1) * 1_000_000_000
        }),
        is_skewed(event, commit) == is_skewed(commit, event),
        skew(event, commit) == skew(commit, event),
{
}

/// Every event of every commit of every log is looked at: where it is skewed, it is told with its
/// agent, what it was, both moments and the skew.
pub proof fn law_all_logs_are_searched(logs: Seq<AgentLog>, l: int, c: int, e: int)
    requires
        0 <= l < logs.len(),
        0 <= c < logs[l].commits@.len(),
        0 <= e < logs[l].commits@[c].events@.len(),
        is_skewed(
            logs[l].commits@[c].events@[e].timestamp,
            logs[l].commits@[c].timestamp,
        ),
    ensures
        log_violations(logs, logs.len()).contains(
            (ViolationView {
                agent_id: logs[l].agent_id@,
                event_description: description(logs[l].commits@[c].events@[e].event),
                event_timestamp: logs[l].commits@[c].events@[e].timestamp,
                commit_timestamp: logs[l].commits@[c].timestamp,
                skew_seconds: skew(
                    logs[l].commits@[c].events@[e].timestamp,
                    logs[l].commits@[c].timestamp,
                ),
            }),
        ),
{
    let log = logs[l];
    let commit = log.commits@[c];
    let v = ViolationView {
        agent_id: log.agent_id@,
        event_description: description(commit.events@[e].event),
        event_timestamp: commit.events@[e].timestamp,
        commit_timestamp: commit.timestamp,
        skew_seconds: skew(commit.events@[e].timestamp, commit.timestamp),
    };
    law_skewed_events_are_flagged(
        log.agent_id@,
        commit.timestamp,
        commit.events@,
        commit.events@.len(),
        e,
    );
    lemma_commit_is_searched(log.agent_id@, log.commits@, log.commits@.len(), c, v);
    lemma_log_is_searched(logs, logs.len(), l, v);
}

proof fn lemma_commit_is_searched(
    agent_id: Seq<char>,
    commits: Seq<CommitEvents>,
    n: nat,
    c: int,
    v: ViolationView,
)
    requires
        0 <= c < n <= commits.len(),
        event_violations(
            agent_id,
            commits[c].timestamp,
            commits[c].events@,
            commits[c].events@.len(),
        ).contains(v),
    ensures
        commit_violations(agent_id, commits, n).contains(v),
    decreases n,
{
    let head = commit_violations(agent_id, commits, (n - 1) as nat);
    let last = event_violations(
        agent_id,
        commits[n - 1].timestamp,
        commits[n - 1].events@,
        commits[n - 1].events@.len(),
    );
    if c < n - 1 {
        lemma_commit_is_searched(agent_id, commits, (n - 1) as nat, c, v);
        let k = choose|k: int| 0 <= k < head.len() && head[k] == v;
        assert((head + last)[k] == v);
    } else {
        let k = choose|k: int| 0 <= k < last.len() && last[k] == v;
        assert((head + last)[head.len() + k] == v);
    }
}

proof fn lemma_log_is_searched(logs: Seq<AgentLog>, n: nat, l: int, v: ViolationView)
    requires
        0 <= l < n <= logs.len(),
        commit_violations(logs[l].agent_id@, logs[l].commits@, logs[l].commits@.len()).contains(v),
    ensures
        log_violations(logs, n).contains(v),
    decreases n,
{
    let head = log_violations(logs, (n - 1) as nat);
    let last = commit_violations(
        logs[n - 1].agent_id@,
        logs[n - 1].commits@,
        logs[n - 1].commits@.len(),
    );
    if l < n - 1 {
        lemma_log_is_searched(logs, (n - 1) as nat, l, v);
        let k = choose|k: int| 0 <= k < head.len() && head[k] == v;
        assert((head + last)[k] == v);
    } else {
        let k = choose|k: int| 0 <= k < last.len() && last[k] == v;
        assert((head + last)[head.len() + k] == v);
    }
}

/// Where no event of any commit is skewed, nothing is told.
pub proof fn law_logs_in_time_are_clean(logs: Seq<AgentLog>, n: nat)
    requires
        n <= logs.len(),
        forall|l: int, c: int, e: int|
            0 <= l < logs.len() && 0 <= c < logs[l].commits@.len() && 0 <= e
                < logs[l].commits@[c].events@.len() ==> !is_skewed(
                (#[trigger] logs[l].commits@[c].events@[e]).timestamp,
                logs[l].commits@[c].timestamp,
            ),
    ensures
        log_violations(logs, n).len() == 0,
    decreases n,
{
    if n > 0 {
        law_logs_in_time_are_clean(logs, (n - 1) as nat);
        let log = logs[n - 1];
        lemma_clean_commits(logs, n - 1, log.commits@.len());
    }
}

proof fn lemma_clean_commits(logs: Seq<AgentLog>, l: int, n: nat)
    requires
        0 <= l < logs.len(),
        n <= logs[l].commits@.len(),
        forall|l: int, c: int, e: int|
            0 <= l < logs.len() && 0 <= c < logs[l].commits@.len() && 0 <= e
                < logs[l].commits@[c].events@.len() ==> !is_skewed(
                (#[trigger] logs[l].commits@[c].events@[e]).timestamp,
                logs[l].commits@[c].timestamp,
            ),
    ensures
        commit_violations(logs[l].agent_id@, logs[l].commits@, n).len() == 0,
    decreases n,
{
    if n > 0 {
        lemma_clean_commits(logs, l, (n - 1) as nat);
        let commit = logs[l].commits@[n - 1];
        assert forall|i: int| 0 <= i < commit.events@.len() implies !is_skewed(
            (#[trigger] commit.events@[i]).timestamp,
            commit.timestamp,
        ) by {
            assert(logs[l].commits@[n - 1].events@[i] == commit.events@[i]);
        }
        law_events_in_time_are_not_flagged(
            logs[l].agent_id@,
            commit.timestamp,
            commit.events@,
            commit.events@.len(),
        );
    }
}

/// What an event is told as names the issues that it is about.
pub proof fn law_events_are_described(event: Event)
    ensures
        ({
            let d = description(event);
            match event {
                Event::IssueCreated { uuid, title } => text::has_prefix(d, "IssueCreated("@)
                    && text::contains(d, uuid@) && text::contains(d, title@),
                Event::IssueUpdated { uuid } => text::has_prefix(d, "IssueUpdated("@)
                    && text::contains(d, uuid@),
                Event::StatusChanged { uuid, new_status } => text::has_prefix(d, "StatusChanged("@)
                    && text::contains(d, uuid@) && text::contains(d, new_status@),
                Event::LockClaimed { issue_display_id } => text::has_prefix(d, "LockClaimed("@)
                    && text::contains(d, text::dec_int(issue_display_id as int)),
                Event::LockReleased { issue_display_id } => text::has_prefix(d, "LockReleased("@)
                    && text::contains(d, text::dec_int(issue_display_id as int)),
                Event::DependencyAdded { blocked_uuid, blocker_uuid } => text::has_prefix(
                    d,
                    "DependencyAdded("@ + blocked_uuid@,
                ) && text::has_suffix(d, blocker_uuid@ + ")"@),
                Event::DependencyRemoved { blocked_uuid, blocker_uuid } => text::has_prefix(
                    d,
                    "DependencyRemoved("@ + blocked_uuid@,
                ) && text::has_suffix(d, blocker_uuid@ + ")"@),
                Event::RelationAdded { uuid_a, uuid_b } => text::has_prefix(d, "RelationAdded("@)
                    && text::contains(d, uuid_a@) && text::contains(d, uuid_b@),
                Event::RelationRemoved { uuid_a, uuid_b } => text::has_prefix(
                    d,
                    "RelationRemoved("@,
                ) && text::contains(d, uuid_a@) && text::contains(d, uuid_b@),
                Event::MilestoneAssigned { issue_uuid } => text::has_prefix(
                    d,
                    "MilestoneAssigned("@,
                ) && text::contains(d, issue_uuid@),
                Event::LabelAdded { issue_uuid, label } => text::has_prefix(d, "LabelAdded("@)
                    && text::contains(d, issue_uuid@) && text::contains(d, label@),
                Event::LabelRemoved { issue_uuid, label } => text::has_prefix(d, "LabelRemoved("@)
                    && text::contains(d, issue_uuid@) && text::contains(d, label@),
                Event::ParentChanged { issue_uuid } => text::has_prefix(d, "ParentChanged("@)
                    && text::contains(d, issue_uuid@),
            }
        }),
{
    reveal_strlit("LockClaimed(#");
    reveal_strlit("LockClaimed(");
    reveal_strlit("LockReleased(#");
    reveal_strlit("LockReleased(");
    reveal_strlit("#");
    assert("LockClaimed(#"@ =~= "LockClaimed("@ + "#"@);
    assert("LockReleased(#"@ =~= "LockReleased("@ + "#"@);
    match event {
        Event::IssueCreated { uuid, title } => lemma_call2("IssueCreated("@, uuid@, ", "@, title@),
        Event::IssueUpdated { uuid } => lemma_call1("IssueUpdated("@, uuid@),
        Event::StatusChanged { uuid, new_status } => lemma_call2(
            "StatusChanged("@,
            uuid@,
            ", "@,
            new_status@,
        ),
        Event::LockClaimed { issue_display_id } => {
            let n = text::dec_int(issue_display_id as int);
            lemma_call1("LockClaimed(#"@, n);
            assert(call1("LockClaimed(#"@, n) =~= "LockClaimed("@ + ("#"@ + n + ")"@));
            text::lemma_prefix_of_sum("LockClaimed("@, "#"@ + n + ")"@);
        },
        Event::LockReleased { issue_display_id } => {
            let n = text::dec_int(issue_display_id as int);
            lemma_call1("LockReleased(#"@, n);
            assert(call1("LockReleased(#"@, n) =~= "LockReleased("@ + ("#"@ + n + ")"@));
            text::lemma_prefix_of_sum("LockReleased("@, "#"@ + n + ")"@);
        },
        Event::DependencyAdded { blocked_uuid, blocker_uuid } => lemma_call2(
            "DependencyAdded("@,
            blocked_uuid@,
            " blocked by "@,
            blocker_uuid@,
        ),
        Event::DependencyRemoved { blocked_uuid, blocker_uuid } => lemma_call2(
            "DependencyRemoved("@,
            blocked_uuid@,
            " unblocked from "@,
            blocker_uuid@,
        ),
        Event::RelationAdded { uuid_a, uuid_b } => lemma_call2(
            "RelationAdded("@,
            uuid_a@,
            ", "@,
            uuid_b@,
        ),
        Event::RelationRemoved { uuid_a, uuid_b } => lemma_call2(
            "RelationRemoved("@,
            uuid_a@,
            ", "@,
            uuid_b@,
        ),
        Event::MilestoneAssigned { issue_uuid } => lemma_call1("MilestoneAssigned("@, issue_uuid@),
        Event::LabelAdded { issue_uuid, label } => lemma_call2(
            "LabelAdded("@,
            issue_uuid@,
            ", "@,
            label@,
        ),
        Event::LabelRemoved { issue_uuid, label } => lemma_call2(
            "LabelRemoved("@,
            issue_uuid@,
            ", "@,
            label@,
        ),
        Event::ParentChanged { issue_uuid } => lemma_call1("ParentChanged("@, issue_uuid@),
    }
}

proof fn lemma_call1(name: Seq<char>, a: Seq<char>)
    ensures
        text::has_prefix(call1(name, a), name),
        text::contains(call1(name, a), a),
{
    text::lemma_regroup(name, a, ")"@, a, a);
    text::lemma_prefix_of_sum(name, a + ")"@);
    text::lemma_contains_self(a);
    text::lemma_contains_second(name, a, a);
    text::lemma_contains_first(name + a, ")"@, a);
}

proof fn lemma_call2(name: Seq<char>, a: Seq<char>, between: Seq<char>, b: Seq<char>)
    ensures
        text::has_prefix(call2(name, a, between, b), name),
        text::has_prefix(call2(name, a, between, b), name + a),
        text::has_suffix(call2(name, a, between, b), b + ")"@),
        text::contains(call2(name, a, between, b), a),
        text::contains(call2(name, a, between, b), b),
{
    text::lemma_regroup(name, a, between, b, ")"@);
    text::lemma_prefix_of_sum(name, a + between + b + ")"@);
    text::lemma_regroup(name + a, between, b, ")"@, a);
    text::lemma_prefix_of_sum(name + a, between + b + ")"@);
    text::lemma_regroup(name + a + between, b, ")"@, a, a);
    text::lemma_suffix_of_sum(name + a + between, b + ")"@);
    text::lemma_contains_self(a);
    text::lemma_contains_self(b);
    text::lemma_contains_second(name, a, a);
    text::lemma_contains_first(name + a, between, a);
    text::lemma_contains_first(name + a + between, b, a);
    text::lemma_contains_first(name + a + between + b, ")"@, a);
    text::lemma_contains_second(name + a + between, b, b);
    text::lemma_contains_first(name + a + between + b, ")"@, b);
}

/// A line of the log is read as its commit: what stands before the first blank is the hash, what
/// stands behind it the time. Every line that can be read counts.
pub proof fn law_commits_are_read(lines: Seq<Seq<char>>, k: int, hash: Seq<char>, stamp: Seq<char>)
    requires
        0 <= k < lines.len(),
        hash.len() > 0 && !hash.contains(' ') && !text::is_ws(hash[0]),
        stamp.len() > 0 && !text::is_ws(stamp.last()),
        lines[k] == hash + " "@ + stamp,
    ensures
        time::rfc3339(stamp) matches Some(t) ==> commits_on(lines, lines.len()).contains(
            (hash, t.0, t.1),
        ),
        time::rfc3339(stamp) is None ==> commit_on(lines[k]) is None,
{
    let line = lines[k];
    reveal_strlit(" ");
    assert(line[0] == hash[0]);
    assert(line.last() == stamp.last());
    assert(text::trim_start(line) == line);
    assert(text::trim(line) == line);
    text::lemma_find_char(line, ' ');
    let at = text::find_char(line, ' ') as int;
    assert(line[hash.len() as int] == ' ');
    if at < hash.len() {
        assert(line[at] == hash[at]);
        assert(hash.contains(hash[at]));
    }
    assert(line.take(at) =~= hash);
    assert(line.skip(at + 1) =~= stamp);
    if let Some(t) = time::rfc3339(stamp) {
        lemma_commit_counts(lines, lines.len(), k);
    }
}

proof fn lemma_commit_counts(lines: Seq<Seq<char>>, n: nat, k: int)
    requires
        0 <= k < n <= lines.len(),
        commit_on(lines[k]) is Some,
    ensures
        commits_on(lines, n).contains(commit_on(lines[k])->0),
    decreases n,
{
    let head = commits_on(lines, (n - 1) as nat);
    let all = commits_on(lines, n);
    if k < n - 1 {
        lemma_commit_counts(lines, (n - 1) as nat, k);
        let i = choose|i: int| 0 <= i < head.len() && head[i] == commit_on(lines[k])->0;
        assert(all[i] == commit_on(lines[k])->0);
    } else {
        assert(all[head.len() as int] == commit_on(lines[k])->0);
    }
}

/// Of a patch exactly the lines behind a single plus are new, without it; the header of a file
/// is none of them.
pub proof fn law_added_lines_are_read(lines: Seq<Seq<char>>, k: int, rest: Seq<char>)
    requires
        0 <= k < lines.len(),
    ensures
        lines[k] == "+"@ + rest && !text::has_prefix(rest, "++"@) ==> text::has_name(
            added_on(lines, lines.len()),
            rest,
        ),
        lines[k] == "+++"@ + rest ==> !is_added(lines[k]),
        !text::has_prefix(lines[k], "+"@) ==> !is_added(lines[k]),
        text::has_name(added_on(lines, lines.len()), rest) ==> exists|i: int|
            0 <= i < lines.len() && #[trigger] lines[i] == "+"@ + rest,
{
    reveal_strlit("+");
    reveal_strlit("++");
    reveal_strlit("+++");
    let line = lines[k];
    if line == "+"@ + rest {
        assert(line.take(1) =~= "+"@);
        assert(line.skip(1) =~= rest);
        if !text::has_prefix(rest, "++"@) {
            if text::has_prefix(line, "+++"@) {
                assert(line.take(3)[1] == '+' && line.take(3)[2] == '+');
                assert(rest.take(2) =~= "++"@);
            }
            lemma_added_counts(lines, lines.len(), k);
        }
    }
    if line == "+++"@ + rest {
        assert(line.take(3) =~= "+++"@);
    }
    if text::has_name(added_on(lines, lines.len()), rest) {
        lemma_added_only(lines, lines.len(), rest);
    }
}

proof fn lemma_added_counts(lines: Seq<Seq<char>>, n: nat, k: int)
    requires
        0 <= k < n <= lines.len(),
        is_added(lines[k]),
    ensures
        text::has_name(added_on(lines, n), lines[k].skip(1)),
    decreases n,
{
    let head = added_on(lines, (n - 1) as nat);
    let all = added_on(lines, n);
    if k < n - 1 {
        lemma_added_counts(lines, (n - 1) as nat, k);
        let i = choose|i: int| 0 <= i < head.len() && #[trigger] head[i] == lines[k].skip(1);
        assert(all[i] == lines[k].skip(1));
    } else {
        assert(all[head.len() as int] == lines[k].skip(1));
    }
}

proof fn lemma_added_only(lines: Seq<Seq<char>>, n: nat, rest: Seq<char>)
    requires
        n <= lines.len(),
        text::has_name(added_on(lines, n), rest),
    ensures
        exists|i: int| 0 <= i < lines.len() && #[trigger] lines[i] == "+"@ + rest,
    decreases n,
{
    reveal_strlit("+");
    if n > 0 {
        let head = added_on(lines, (n - 1) as nat);
        let all = added_on(lines, n);
        let i = choose|i: int| 0 <= i < all.len() && #[trigger] all[i] == rest;
        if i < head.len() {
            assert(head[i] == rest);
            lemma_added_only(lines, (n - 1) as nat, rest);
        } else {
            let line = lines[n - 1];
            assert(line.take(1)[0] == '+');
            assert(line =~= "+"@ + rest);
            assert(lines[n - 1] == "+"@ + rest);
        }
    }
}

} // verus!
