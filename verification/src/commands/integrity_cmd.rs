//! The integrity command: whether the hub, its cache and the database agree, and how
//! to bring them together again.

use crate::text;
use crate::text::{contains_name, dec_i64, dec_u64, ends_with, join_strs, own, pad_str, strip_suffix};
use vstd::prelude::*;

verus! {

// ---------------------------------------------------------------------------
// Results
// ---------------------------------------------------------------------------

/// What a check has found.
#[derive(Debug, Clone, PartialEq)]
pub enum CheckStatus {
    Pass,
    Fail(String),
    Repaired(String),
    Skipped(String),
}

/// The model of what a check has found.
#[verifier::ext_equal]
pub enum StatusView {
    Pass,
    Fail(Seq<char>),
    Repaired(Seq<char>),
    Skipped(Seq<char>),
}

impl View for CheckStatus {
    type V = StatusView;

    open spec fn view(&self) -> StatusView {
        match self {
            CheckStatus::Pass => StatusView::Pass,
            CheckStatus::Fail(d) => StatusView::Fail(d@),
            CheckStatus::Repaired(d) => StatusView::Repaired(d@),
            CheckStatus::Skipped(d) => StatusView::Skipped(d@),
        }
    }
}

/// A check and what it has found.
#[derive(Debug, Clone, PartialEq)]
pub struct CheckResult {
    pub name: String,
    pub status: CheckStatus,
}

/// The model of a check and what it has found.
#[verifier::ext_equal]
pub struct ResultView {
    pub name: Seq<char>,
    pub status: StatusView,
}

impl View for CheckResult {
    type V = ResultView;

    open spec fn view(&self) -> ResultView {
        ResultView { name: self.name@, status: self.status@ }
    }
}

fn result(name: &str, status: CheckStatus) -> (r: CheckResult)
    ensures
        r@ == (ResultView { name: name@, status: status@ }),
{
    CheckResult { name: own(name), status }
}

// ---------------------------------------------------------------------------
// The command line
// ---------------------------------------------------------------------------

/// The integrity subcommands.
#[derive(Debug, Clone, Copy, PartialEq, Eq, Structural)]
pub enum IntegrityCommands {
    Schema { repair: bool },
    Counters { repair: bool },
    Hydration { repair: bool },
    Locks { repair: bool },
    Layout { repair: bool },
}

/// The checks that a command makes: the one that it names, or all of them in turn,
/// with nothing repaired.
pub fn run(action: Option<&IntegrityCommands>) -> (r: Vec<IntegrityCommands>)
    ensures
        r@ == match action {
            Some(command) => seq![*command],
            None => seq![
                IntegrityCommands::Schema { repair: false },
                IntegrityCommands::Counters { repair: false },
                IntegrityCommands::Hydration { repair: false },
                IntegrityCommands::Locks { repair: false },
                IntegrityCommands::Layout { repair: false },
            ],
        },
{
    match action {
        Some(command) => vec![*command],
        None => vec![
            IntegrityCommands::Schema { repair: false },
            IntegrityCommands::Counters { repair: false },
            IntegrityCommands::Hydration { repair: false },
            IntegrityCommands::Locks { repair: false },
            IntegrityCommands::Layout { repair: false },
        ],
    }
}

// ---------------------------------------------------------------------------
// Schema
// ---------------------------------------------------------------------------

/// What the schema check finds.
pub open spec fn schema_status(version: int, expected: int) -> StatusView {
    if version == expected {
        StatusView::Pass
    } else {
        StatusView::Fail(
            "version "@ + text::dec_int(version) + " does not match expected "@ + text::dec_int(
                expected,
            ),
        )
    }
}

/// Compares the version of the database's schema with the one that is expected. The
/// database migrates itself when it is opened, so there is nothing to repair.
pub fn check_schema(version: i64, expected: i64) -> (r: CheckResult)
    ensures
        r@ == (ResultView {
            name: "schema"@,
            status: schema_status(version as int, expected as int),
        }),
{
    if version == expected {
        return result("schema", CheckStatus::Pass);
    }
    let mut d = own("version ");
    d.append(dec_i64(version).as_str());
    d.append(" does not match expected ");
    d.append(dec_i64(expected).as_str());
    result("schema", CheckStatus::Fail(d))
}

// ---------------------------------------------------------------------------
// Counters
// ---------------------------------------------------------------------------

/// The numbers that the hub gives out next.
#[derive(Debug, Clone, Copy, PartialEq, Eq, Structural)]
pub struct Counters {
    pub next_display_id: i64,
    pub next_comment_id: i64,
    pub next_milestone_id: i64,
}

/// Whether a counter is beyond every number that is in use.
pub open spec fn counters_ok(c: Counters, max_display: int, max_comment: int) -> bool {
    c.next_display_id >= max_display + 1 && c.next_comment_id >= max_comment + 1
}

/// What is wrong with the counters.
pub open spec fn counter_issues(c: Counters, max_display: int, max_comment: int) -> Seq<Seq<char>> {
    let a: Seq<Seq<char>> = if c.next_display_id < max_display + 1 {
        Seq::empty().push(
            "next_display_id is "@ + text::dec_int(c.next_display_id as int) + ", expected >= "@
                + text::dec_int(max_display + 1),
        )
    } else {
        Seq::empty()
    };
    if c.next_comment_id < max_comment + 1 {
        a.push(
            "next_comment_id is "@ + text::dec_int(c.next_comment_id as int) + ", expected >= "@
                + text::dec_int(max_comment + 1),
        )
    } else {
        a
    }
}

/// The counters, raised where they are too low.
pub open spec fn raised(c: Counters, max_display: int, max_comment: int) -> Counters {
    Counters {
        next_display_id: if c.next_display_id >= max_display + 1 {
            c.next_display_id
        } else {
            (max_display + 1) as i64
        },
        next_comment_id: if c.next_comment_id >= max_comment + 1 {
            c.next_comment_id
        } else {
            (max_comment + 1) as i64
        },
        next_milestone_id: c.next_milestone_id,
    }
}

/// What the counter check finds, and the counters to write, if any. Without a hub
/// cache there are no counters.
pub open spec fn counters_outcome(
    counters: Option<Counters>,
    max_display: int,
    max_comment: int,
    repair: bool,
) -> (StatusView, Option<Counters>) {
    match counters {
        None => (StatusView::Skipped("sync not configured"@), None),
        Some(c) => {
            let details = text::join(counter_issues(c, max_display, max_comment), "; "@);
            if counters_ok(c, max_display, max_comment) {
                (StatusView::Pass, None)
            } else if !repair {
                (StatusView::Fail(details), None)
            } else {
                (
                    StatusView::Repaired("fixed: "@ + details),
                    Some(raised(c, max_display, max_comment)),
                )
            }
        },
    }
}

fn push_issue(issues: &mut Vec<String>, issue: String)
    ensures
        text::strs(final(issues)@) == text::strs(old(issues)@).push(issue@),
        final(issues)@.len() == old(issues)@.len() + 1,
{
    proof {
        text::lemma_strs_push(issues@, issue);
    }
    issues.push(issue);
}

fn counter_issue(label: &str, next: i64, expected: i64) -> (r: String)
    ensures
        r@ == label@ + text::dec_int(next as int) + ", expected >= "@ + text::dec_int(
            expected as int,
        ),
{
    let mut out = own(label);
    out.append(dec_i64(next).as_str());
    out.append(", expected >= ");
    out.append(dec_i64(expected).as_str());
    out
}

/// Compares the counters of the hub with the numbers that are in use, and raises them
/// where that is asked for. The greatest numbers in use must have a successor.
pub fn check_counters(
    counters: Option<Counters>,
    max_display: i64,
    max_comment: i64,
    repair: bool,
) -> (r: (CheckResult, Option<Counters>))
    requires
        max_display < i64::MAX,
        max_comment < i64::MAX,
    ensures
        r.0@.name == "counters"@,
        (r.0@.status, r.1) == counters_outcome(
            counters,
            max_display as int,
            max_comment as int,
            repair,
        ),
{
    let c = match counters {
        Some(c) => c,
        None => {
            return (result("counters", CheckStatus::Skipped(own("sync not configured"))), None);
        },
    };
    let expected_display: i64 = max_display + 1;
    let expected_comment: i64 = max_comment + 1;
    let display_ok = c.next_display_id >= expected_display;
    let comment_ok = c.next_comment_id >= expected_comment;
    if display_ok && comment_ok {
        return (result("counters", CheckStatus::Pass), None);
    }
    let mut issues: Vec<String> = Vec::new();
    assert(text::strs(issues@) =~= Seq::<Seq<char>>::empty());
    if !display_ok {
        push_issue(
            &mut issues,
            counter_issue("next_display_id is ", c.next_display_id, expected_display),
        );
    }
    if !comment_ok {
        push_issue(
            &mut issues,
            counter_issue("next_comment_id is ", c.next_comment_id, expected_comment),
        );
    }
    let details = join_strs(&issues, "; ");
    if !repair {
        return (result("counters", CheckStatus::Fail(details)), None);
    }
    let repaired = Counters {
        next_display_id: if display_ok {
            c.next_display_id
        } else {
            expected_display
        },
        next_comment_id: if comment_ok {
            c.next_comment_id
        } else {
            expected_comment
        },
        next_milestone_id: c.next_milestone_id,
    };
    let mut d = own("fixed: ");
    d.append(details.as_str());
    (result("counters", CheckStatus::Repaired(d)), Some(repaired))
}

/// Counters that were repaired pass the check, and no counter is ever lowered.
pub proof fn law_repaired_counters_pass(c: Counters, max_display: int, max_comment: int)
    requires
        i64::MIN <= max_display < i64::MAX,
        i64::MIN <= max_comment < i64::MAX,
    ensures
        ({
            let (status, written) = counters_outcome(Some(c), max_display, max_comment, true);
            let after = match written {
                Some(w) => w,
                None => c,
            };
            &&& counters_outcome(Some(after), max_display, max_comment, false).0 == StatusView::Pass
            &&& after.next_display_id >= c.next_display_id
            &&& after.next_comment_id >= c.next_comment_id
            &&& after.next_milestone_id == c.next_milestone_id
            &&& status == StatusView::Pass <==> written is None
        }),
{
}

// ---------------------------------------------------------------------------
// Hydration
// ---------------------------------------------------------------------------

/// What the hub and the database hold.
pub struct Holdings {
    /// The number of each issue on the hub, where it has one.
    pub display_ids: Vec<Option<i64>>,
    /// The milestones on the hub, each in a file of its own.
    pub milestone_files: u64,
    /// The milestones in the single file of older hubs.
    pub legacy_milestones: u64,
    pub db_issues: i64,
    pub db_milestones: i64,
}

/// The issues on the hub that have a number, among the first `n`.
pub open spec fn numbered_issues(ids: Seq<Option<i64>>, n: nat) -> nat
    decreases n,
{
    if n == 0 {
        0
    } else {
        numbered_issues(ids, (n - 1) as nat) + (if ids[n - 1] is Some {
            1nat
        } else {
            0nat
        })
    }
}

/// The milestones on the hub: those in files of their own or, where there are none,
/// those in the single file.
pub open spec fn hub_milestones(h: Holdings) -> nat {
    if h.milestone_files == 0 {
        h.legacy_milestones as nat
    } else {
        h.milestone_files as nat
    }
}

/// Where the hub and the database differ.
pub open spec fn hydration_issues(h: Holdings) -> Seq<Seq<char>> {
    let issues = numbered_issues(h.display_ids@, h.display_ids@.len());
    let a: Seq<Seq<char>> = if issues != h.db_issues {
        Seq::empty().push(
            text::dec(issues) + " issues in JSON, "@ + text::dec_int(h.db_issues as int)
                + " in SQLite"@,
        )
    } else {
        Seq::empty()
    };
    if hub_milestones(h) != h.db_milestones {
        a.push(
            text::dec(hub_milestones(h)) + " milestones in JSON, "@ + text::dec_int(
                h.db_milestones as int,
            ) + " in SQLite"@,
        )
    } else {
        a
    }
}

/// A check that is done, or one that has to repair something first.
pub enum Outcome {
    Done(CheckResult),
    Repair,
}

/// The model of an outcome: `None` where there is something to repair.
pub open spec fn outcome(o: Outcome) -> Option<ResultView> {
    match o {
        Outcome::Done(r) => Some(r@),
        Outcome::Repair => None,
    }
}

/// What the hydration check finds; `None` where the database is to be filled anew.
/// Without a hub cache there is nothing to compare.
pub open spec fn hydration_outcome(holdings: Option<Holdings>, repair: bool) -> Option<ResultView> {
    let status = match holdings {
        None => Some(StatusView::Skipped("sync not configured"@)),
        Some(h) => if hydration_issues(h).len() == 0 {
            Some(StatusView::Pass)
        } else if !repair {
            Some(StatusView::Fail(text::join(hydration_issues(h), "; "@)))
        } else {
            None
        },
    };
    match status {
        Some(s) => Some(ResultView { name: "hydration"@, status: s }),
        None => None,
    }
}

fn count_numbered(ids: &Vec<Option<i64>>) -> (r: u64)
    ensures
        r == numbered_issues(ids@, ids@.len()),
        r <= ids@.len(),
{
    let mut n: u64 = 0;
    let mut i: usize = 0;
    while i < ids.len()
        invariant
            i <= ids@.len(),
            n == numbered_issues(ids@, i as nat),
            n <= i,
        decreases ids@.len() - i,
    {
        if ids[i].is_some() {
            n = n + 1;
        }
        i = i + 1;
    }
    n
}

fn differs(count: u64, db_count: i64) -> (r: bool)
    ensures
        r == (count != db_count),
{
    db_count < 0 || count != db_count as u64
}

fn difference(count: u64, what: &str, db_count: i64) -> (r: String)
    ensures
        r@ == text::dec(count as nat) + what@ + text::dec_int(db_count as int) + " in SQLite"@,
{
    let mut out = dec_u64(count);
    out.append(what);
    out.append(dec_i64(db_count).as_str());
    out.append(" in SQLite");
    out
}

/// Compares what the hub and the database hold.
pub fn check_hydration(holdings: Option<&Holdings>, repair: bool) -> (r: Outcome)
    ensures
        outcome(r) == hydration_outcome(
            match holdings {
                Some(h) => Some(*h),
                None => None,
            },
            repair,
        ),
{
    let h = match holdings {
        Some(h) => h,
        None => {
            return Outcome::Done(
                result("hydration", CheckStatus::Skipped(own("sync not configured"))),
            );
        },
    };
    let issue_count = count_numbered(&h.display_ids);
    let milestone_count = if h.milestone_files == 0 {
        h.legacy_milestones
    } else {
        h.milestone_files
    };
    let mut issues: Vec<String> = Vec::new();
    assert(text::strs(issues@) =~= Seq::<Seq<char>>::empty());
    if differs(issue_count, h.db_issues) {
        push_issue(&mut issues, difference(issue_count, " issues in JSON, ", h.db_issues));
    }
    if differs(milestone_count, h.db_milestones) {
        push_issue(
            &mut issues,
            difference(milestone_count, " milestones in JSON, ", h.db_milestones),
        );
    }
    assert(text::strs(issues@).len() == issues@.len());
    if issues.len() == 0 {
        return Outcome::Done(result("hydration", CheckStatus::Pass));
    }
    if !repair {
        return Outcome::Done(
            result("hydration", CheckStatus::Fail(join_strs(&issues, "; "))),
        );
    }
    Outcome::Repair
}

/// The end of a hydration check that has filled the database anew.
pub fn hydration_repaired(issues: u64, comments: u64) -> (r: CheckResult)
    ensures
        r@ == (ResultView {
            name: "hydration"@,
            status: StatusView::Repaired(
                "re-hydrated "@ + text::dec(issues as nat) + " issues, "@ + text::dec(
                    comments as nat,
                ) + " comments"@,
            ),
        }),
{
    let mut d = own("re-hydrated ");
    d.append(dec_u64(issues).as_str());
    d.append(" issues, ");
    d.append(dec_u64(comments).as_str());
    d.append(" comments");
    result("hydration", CheckStatus::Repaired(d))
}

// ---------------------------------------------------------------------------
// Locks
// ---------------------------------------------------------------------------

/// How far synchronization is set up.
#[derive(Debug, Clone, Copy, PartialEq, Eq, Structural)]
pub enum SyncState {
    NotConfigured,
    NotInitialized,
    Ready,
}

/// Stale locks, each with its issue and the agent that holds it.
pub open spec fn lock_names(stale: Seq<(i64, String)>) -> Seq<Seq<char>> {
    Seq::new(
        stale.len(),
        |i: int| "#"@ + text::dec_int(stale[i].0 as int) + " ("@ + stale[i].1@ + ")"@,
    )
}

/// What is said of stale locks.
pub open spec fn stale_details(stale: Seq<(i64, String)>) -> Seq<char> {
    text::dec(stale.len()) + " stale lock(s): "@ + text::join(lock_names(stale), ", "@)
}

/// What the lock check finds; `None` where the locks are to be released, which takes
/// an agent.
pub open spec fn locks_outcome(
    state: SyncState,
    stale: Seq<(i64, String)>,
    repair: bool,
    has_agent: bool,
) -> Option<ResultView> {
    let status = if state == SyncState::NotConfigured {
        Some(StatusView::Skipped("sync not configured"@))
    } else if state == SyncState::NotInitialized {
        Some(StatusView::Skipped("sync cache not initialized"@))
    } else if stale.len() == 0 {
        Some(StatusView::Pass)
    } else if !repair {
        Some(StatusView::Fail(stale_details(stale)))
    } else if !has_agent {
        Some(
            StatusView::Fail(stale_details(stale) + "; cannot repair without agent identity"@),
        )
    } else {
        None
    };
    match status {
        Some(s) => Some(ResultView { name: "locks"@, status: s }),
        None => None,
    }
}

fn name_locks(stale: &Vec<(i64, String)>) -> (r: Vec<String>)
    ensures
        text::strs(r@) == lock_names(stale@),
{
    let ghost all = lock_names(stale@);
    let mut out: Vec<String> = Vec::new();
    let mut i: usize = 0;
    while i < stale.len()
        invariant
            i <= stale@.len(),
            all == lock_names(stale@),
            text::strs(out@) == all.take(i as int),
        decreases stale@.len() - i,
    {
        let mut name = own("#");
        name.append(dec_i64(stale[i].0).as_str());
        name.append(" (");
        name.append(stale[i].1.as_str());
        name.append(")");
        let ghost before = out@;
        out.push(name);
        proof {
            text::lemma_strs_push(before, name);
            assert(all.take(i + 1) =~= all.take(i as int).push(name@));
        }
        i = i + 1;
    }
    assert(all.take(all.len() as int) =~= all);
    out
}

/// Looks at the stale locks of the hub. The locks are those that were found, where
/// synchronization is ready.
pub fn check_locks(state: SyncState, stale: &Vec<(i64, String)>, repair: bool, has_agent: bool) -> (r:
    Outcome)
    ensures
        outcome(r) == locks_outcome(state, stale@, repair, has_agent),
{
    if state == SyncState::NotConfigured {
        return Outcome::Done(result("locks", CheckStatus::Skipped(own("sync not configured"))));
    }
    if state == SyncState::NotInitialized {
        return Outcome::Done(
            result("locks", CheckStatus::Skipped(own("sync cache not initialized"))),
        );
    }
    if stale.len() == 0 {
        return Outcome::Done(result("locks", CheckStatus::Pass));
    }
    let mut details = dec_u64(stale.len() as u64);
    details.append(" stale lock(s): ");
    details.append(join_strs(&name_locks(stale), ", ").as_str());
    if !repair {
        return Outcome::Done(result("locks", CheckStatus::Fail(details)));
    }
    if !has_agent {
        details.append("; cannot repair without agent identity");
        return Outcome::Done(result("locks", CheckStatus::Fail(details)));
    }
    Outcome::Repair
}

/// How many of the first `n` flags are set.
pub open spec fn count_set(flags: Seq<bool>, n: nat) -> nat
    decreases n,
{
    if n == 0 {
        0
    } else {
        count_set(flags, (n - 1) as nat) + (if flags[n - 1] {
            1nat
        } else {
            0nat
        })
    }
}

fn count_flags(flags: &Vec<bool>) -> (r: u64)
    ensures
        r == count_set(flags@, flags@.len()),
{
    let mut n: u64 = 0;
    let mut i: usize = 0;
    while i < flags.len()
        invariant
            i <= flags@.len(),
            n == count_set(flags@, i as nat),
            n <= i,
        decreases flags@.len() - i,
    {
        if flags[i] {
            n = n + 1;
        }
        i = i + 1;
    }
    n
}

/// The end of a lock check that has tried to release the stale locks. The flags tell
/// of each attempt whether it succeeded.
pub fn locks_repaired(released: &Vec<bool>, stale: usize) -> (r: CheckResult)
    ensures
        r@ == (ResultView {
            name: "locks"@,
            status: StatusView::Repaired(
                "released "@ + text::dec(count_set(released@, released@.len())) + " of "@
                    + text::dec(stale as nat) + " stale lock(s)"@,
            ),
        }),
{
    let mut d = own("released ");
    d.append(dec_u64(count_flags(released)).as_str());
    d.append(" of ");
    d.append(dec_u64(stale as u64).as_str());
    d.append(" stale lock(s)");
    result("locks", CheckStatus::Repaired(d))
}

// ---------------------------------------------------------------------------
// Layout
// ---------------------------------------------------------------------------

/// What an entry of the issues directory is.
#[derive(Debug, Clone, Copy, PartialEq, Eq, Structural)]
pub enum EntryKind {
    File,
    /// A directory that holds an issue file.
    IssueDir,
    Other,
}

/// An entry of the issues directory.
pub struct LayoutEntry {
    pub name: String,
    pub kind: EntryKind,
}

/// A name without the endings that mark a flat file, however many there are.
pub open spec fn stem(name: Seq<char>) -> Seq<char>
    decreases name.len(),
{
    if text::has_suffix(name, ".json"@) && ".json"@.len() > 0 {
        stem(name.take(name.len() - ".json"@.len()))
    } else {
        name
    }
}

/// The issues in flat files, among the first `n` entries.
pub open spec fn flat_issues(entries: Seq<LayoutEntry>, n: nat) -> Seq<Seq<char>>
    decreases n,
{
    if n == 0 {
        Seq::empty()
    } else {
        let head = flat_issues(entries, (n - 1) as nat);
        let e = entries[n - 1];
        if e.kind == EntryKind::File && text::has_suffix(e.name@, ".json"@) {
            head.push(stem(e.name@))
        } else {
            head
        }
    }
}

/// The issues in directories, among the first `n` entries.
pub open spec fn dir_issues(entries: Seq<LayoutEntry>, n: nat) -> Seq<Seq<char>>
    decreases n,
{
    if n == 0 {
        Seq::empty()
    } else {
        let head = dir_issues(entries, (n - 1) as nat);
        let e = entries[n - 1];
        if e.kind == EntryKind::IssueDir {
            head.push(e.name@)
        } else {
            head
        }
    }
}

/// The issues, each once, that are both in flat files and in directories, among the
/// first `n` in flat files.
pub open spec fn doubled(flat: Seq<Seq<char>>, dirs: Seq<Seq<char>>, n: nat) -> Seq<Seq<char>>
    decreases n,
{
    if n == 0 {
        Seq::empty()
    } else {
        let head = doubled(flat, dirs, (n - 1) as nat);
        if text::has_name(dirs, flat[n - 1]) && !text::has_name(head, flat[n - 1]) {
            head.push(flat[n - 1])
        } else {
            head
        }
    }
}

/// The issues that are only in flat files, among the first `n`.
pub open spec fn flat_only(flat: Seq<Seq<char>>, dirs: Seq<Seq<char>>, n: nat) -> Seq<Seq<char>>
    decreases n,
{
    if n == 0 {
        Seq::empty()
    } else {
        let head = flat_only(flat, dirs, (n - 1) as nat);
        if text::has_name(dirs, flat[n - 1]) {
            head
        } else {
            head.push(flat[n - 1])
        }
    }
}

/// What is wrong with the layout. Flat files are in order only on hubs of the first
/// version.
pub open spec fn layout_issues(both: nat, flat: nat, version: int) -> Seq<Seq<char>> {
    let a: Seq<Seq<char>> = if both > 0 {
        Seq::empty().push(text::dec(both) + " UUID(s) have both V1 and V2 files"@)
    } else {
        Seq::empty()
    };
    if version >= 2 && flat > 0 {
        a.push(text::dec(flat) + " V1 flat file(s) on a V2 hub"@)
    } else {
        a
    }
}

/// A layout check that is done, or the repairs that it asks for.
pub enum LayoutOutcome {
    Done(CheckResult),
    /// Remove the flat files of the first issues; turn those of the second into
    /// directories; write the version of the layout where the flag says so.
    Repair { remove: Vec<String>, migrate: Vec<String>, write_version: bool },
}

/// The model of a layout check.
#[verifier::ext_equal]
pub enum LayoutView {
    Done(ResultView),
    Repair(Seq<Seq<char>>, Seq<Seq<char>>, bool),
}

impl View for LayoutOutcome {
    type V = LayoutView;

    open spec fn view(&self) -> LayoutView {
        match self {
            LayoutOutcome::Done(r) => LayoutView::Done(r@),
            LayoutOutcome::Repair { remove, migrate, write_version } => LayoutView::Repair(
                text::strs(remove@),
                text::strs(migrate@),
                *write_version,
            ),
        }
    }
}

/// What the layout check finds of the issues in flat files and in directories. A repair
/// writes the version where no file marks it.
pub open spec fn layout_of(
    flat: Seq<Seq<char>>,
    dirs: Seq<Seq<char>>,
    version: int,
    marked: bool,
    repair: bool,
) -> LayoutView {
    let both = doubled(flat, dirs, flat.len());
    let only = flat_only(flat, dirs, flat.len());
    let issues = layout_issues(both.len(), only.len(), version);
    if issues.len() == 0 {
        LayoutView::Done(ResultView { name: "layout"@, status: StatusView::Pass })
    } else if !repair {
        LayoutView::Done(
            ResultView { name: "layout"@, status: StatusView::Fail(text::join(issues, "; "@)) },
        )
    } else {
        LayoutView::Repair(
            both,
            if version >= 2 {
                only
            } else {
                Seq::empty()
            },
            !marked,
        )
    }
}

fn stem_of(name: &str) -> (r: String)
    ensures
        r@ == stem(name@),
{
    let mut s = own(name);
    loop
        invariant
            stem(name@) == stem(s@),
        ensures
            stem(name@) == stem(s@),
            stem(s@) == s@,
        decreases s@.len(),
    {
        proof {
            reveal_strlit(".json");
        }
        match strip_suffix(s.as_str(), ".json") {
            Some(rest) => {
                assert(rest@ =~= s@.take(s@.len() - ".json"@.len()));
                s = rest;
            },
            None => {
                break;
            },
        }
    }
    s
}

fn push_name(names: &mut Vec<String>, name: &str)
    ensures
        text::strs(final(names)@) == text::strs(old(names)@).push(name@),
{
    let s = own(name);
    proof {
        text::lemma_strs_push(names@, s);
    }
    names.push(s);
}

fn split_entries(entries: &Vec<LayoutEntry>) -> (r: (Vec<String>, Vec<String>))
    ensures
        text::strs(r.0@) == flat_issues(entries@, entries@.len()),
        text::strs(r.1@) == dir_issues(entries@, entries@.len()),
{
    let mut flat: Vec<String> = Vec::new();
    let mut dirs: Vec<String> = Vec::new();
    let mut i: usize = 0;
    assert(text::strs(flat@) =~= Seq::<Seq<char>>::empty());
    assert(text::strs(dirs@) =~= Seq::<Seq<char>>::empty());
    while i < entries.len()
        invariant
            i <= entries@.len(),
            text::strs(flat@) == flat_issues(entries@, i as nat),
            text::strs(dirs@) == dir_issues(entries@, i as nat),
        decreases entries@.len() - i,
    {
        let e = &entries[i];
        if e.kind == EntryKind::File && ends_with(e.name.as_str(), ".json") {
            push_name(&mut flat, stem_of(e.name.as_str()).as_str());
        } else if e.kind == EntryKind::IssueDir {
            push_name(&mut dirs, e.name.as_str());
        }
        i = i + 1;
    }
    (flat, dirs)
}

/// Looks for issues that are in flat files where they should not be. The entries are
/// those of the issues directory, where there is one; the version is that of the layout, and
/// the flag tells whether a file marks it.
pub fn check_layout(
    entries: Option<&Vec<LayoutEntry>>,
    version: u32,
    marked: bool,
    repair: bool,
) -> (r: LayoutOutcome)
    ensures
        r@ == match entries {
            None => LayoutView::Done(
                ResultView {
                    name: "layout"@,
                    status: StatusView::Skipped("no issues directory"@),
                },
            ),
            Some(list) => layout_of(
                flat_issues(list@, list@.len()),
                dir_issues(list@, list@.len()),
                version as int,
                marked,
                repair,
            ),
        },
{
    let list = match entries {
        Some(list) => list,
        None => {
            return LayoutOutcome::Done(
                result("layout", CheckStatus::Skipped(own("no issues directory"))),
            );
        },
    };
    let (flat, dirs) = split_entries(list);
    let ghost flat_view = text::strs(flat@);
    let ghost dirs_view = text::strs(dirs@);
    let mut both: Vec<String> = Vec::new();
    let mut only: Vec<String> = Vec::new();
    let mut i: usize = 0;
    assert(text::strs(both@) =~= Seq::<Seq<char>>::empty());
    assert(text::strs(only@) =~= Seq::<Seq<char>>::empty());
    assert(flat_view.len() == flat@.len());
    while i < flat.len()
        invariant
            i <= flat@.len(),
            flat_view == text::strs(flat@),
            dirs_view == text::strs(dirs@),
            text::strs(both@) == doubled(flat_view, dirs_view, i as nat),
            text::strs(only@) == flat_only(flat_view, dirs_view, i as nat),
        decreases flat@.len() - i,
    {
        assert(flat_view[i as int] == flat@[i as int]@);
        let uuid = flat[i].as_str();
        if contains_name(&dirs, uuid) {
            if !contains_name(&both, uuid) {
                push_name(&mut both, uuid);
            }
        } else {
            push_name(&mut only, uuid);
        }
        i = i + 1;
    }
    assert(text::strs(both@).len() == both@.len());
    assert(text::strs(only@).len() == only@.len());
    let mut issues: Vec<String> = Vec::new();
    assert(text::strs(issues@) =~= Seq::<Seq<char>>::empty());
    if both.len() > 0 {
        let mut d = dec_u64(both.len() as u64);
        d.append(" UUID(s) have both V1 and V2 files");
        push_issue(&mut issues, d);
    }
    if version >= 2 && only.len() > 0 {
        let mut d = dec_u64(only.len() as u64);
        d.append(" V1 flat file(s) on a V2 hub");
        push_issue(&mut issues, d);
    }
    assert(text::strs(issues@).len() == issues@.len());
    if issues.len() == 0 {
        return LayoutOutcome::Done(result("layout", CheckStatus::Pass));
    }
    if !repair {
        return LayoutOutcome::Done(
            result("layout", CheckStatus::Fail(join_strs(&issues, "; "))),
        );
    }
    let migrate = if version >= 2 {
        only
    } else {
        Vec::new()
    };
    assert(version < 2 ==> text::strs(migrate@) =~= Seq::<Seq<char>>::empty());
    LayoutOutcome::Repair { remove: both, migrate, write_version: !marked }
}

/// What a layout check has repaired.
pub open spec fn layout_repairs(cleaned: nat, migrated: nat) -> Seq<Seq<char>> {
    let a: Seq<Seq<char>> = if cleaned > 0 {
        Seq::empty().push(text::dec(cleaned) + " stale V1 duplicate(s) removed"@)
    } else {
        Seq::empty()
    };
    if migrated > 0 {
        a.push(text::dec(migrated) + " V1 file(s) migrated to V2"@)
    } else {
        a
    }
}

/// The end of a layout check that has made repairs. The flags tell of each repair
/// whether it was made.
pub fn layout_repaired(removed: &Vec<bool>, migrated: &Vec<bool>) -> (r: CheckResult)
    ensures
        r@ == (ResultView {
            name: "layout"@,
            status: StatusView::Repaired(
                text::join(
                    layout_repairs(
                        count_set(removed@, removed@.len()),
                        count_set(migrated@, migrated@.len()),
                    ),
                    "; "@,
                ),
            ),
        }),
{
    let cleaned = count_flags(removed);
    let moved = count_flags(migrated);
    let mut repairs: Vec<String> = Vec::new();
    assert(text::strs(repairs@) =~= Seq::<Seq<char>>::empty());
    if cleaned > 0 {
        let mut d = dec_u64(cleaned);
        d.append(" stale V1 duplicate(s) removed");
        push_issue(&mut repairs, d);
    }
    if moved > 0 {
        let mut d = dec_u64(moved);
        d.append(" V1 file(s) migrated to V2");
        push_issue(&mut repairs, d);
    }
    result("layout", CheckStatus::Repaired(join_strs(&repairs, "; ")))
}

/// The issues among the first `n` that are not in a list.
pub open spec fn without(issues: Seq<Seq<char>>, gone: Seq<Seq<char>>, n: nat) -> Seq<Seq<char>>
    decreases n,
{
    if n == 0 {
        Seq::empty()
    } else {
        let head = without(issues, gone, (n - 1) as nat);
        if text::has_name(gone, issues[n - 1]) {
            head
        } else {
            head.push(issues[n - 1])
        }
    }
}

proof fn lemma_without(issues: Seq<Seq<char>>, gone: Seq<Seq<char>>, n: nat, k: int)
    requires
        n <= issues.len(),
        0 <= k < without(issues, gone, n).len(),
    ensures
        !text::has_name(gone, without(issues, gone, n)[k]),
        exists|i: int|
            0 <= i < issues.len() && #[trigger] issues[i] == without(issues, gone, n)[k],
    decreases n,
{
    if n > 0 {
        let head = without(issues, gone, (n - 1) as nat);
        if k < head.len() {
            lemma_without(issues, gone, (n - 1) as nat, k);
        } else {
            assert(issues[n - 1] == without(issues, gone, n)[k]);
        }
    }
}

proof fn lemma_doubled_has(flat: Seq<Seq<char>>, dirs: Seq<Seq<char>>, n: nat, i: int)
    requires
        0 <= i < n <= flat.len(),
        text::has_name(dirs, flat[i]),
    ensures
        text::has_name(doubled(flat, dirs, n), flat[i]),
    decreases n,
{
    let head = doubled(flat, dirs, (n - 1) as nat);
    if i < n - 1 {
        lemma_doubled_has(flat, dirs, (n - 1) as nat, i);
        let k = choose|k: int| 0 <= k < head.len() && #[trigger] head[k] == flat[i];
        assert(doubled(flat, dirs, n)[k] == flat[i]);
    } else if !text::has_name(head, flat[i]) {
        assert(doubled(flat, dirs, n).last() == flat[i]);
        assert(doubled(flat, dirs, n)[head.len() as int] == flat[i]);
    }
}

proof fn lemma_flat_only_has(flat: Seq<Seq<char>>, dirs: Seq<Seq<char>>, n: nat, i: int)
    requires
        0 <= i < n <= flat.len(),
        !text::has_name(dirs, flat[i]),
    ensures
        text::has_name(flat_only(flat, dirs, n), flat[i]),
    decreases n,
{
    let head = flat_only(flat, dirs, (n - 1) as nat);
    if i < n - 1 {
        lemma_flat_only_has(flat, dirs, (n - 1) as nat, i);
        let k = choose|k: int| 0 <= k < head.len() && #[trigger] head[k] == flat[i];
        assert(flat_only(flat, dirs, n)[k] == flat[i]);
    } else {
        assert(flat_only(flat, dirs, n)[head.len() as int] == flat[i]);
    }
}

proof fn lemma_none_doubled(flat: Seq<Seq<char>>, dirs: Seq<Seq<char>>, n: nat)
    requires
        n <= flat.len(),
        forall|i: int| 0 <= i < n ==> !text::has_name(dirs, #[trigger] flat[i]),
    ensures
        doubled(flat, dirs, n).len() == 0,
    decreases n,
{
    if n > 0 {
        lemma_none_doubled(flat, dirs, (n - 1) as nat);
        assert(!text::has_name(dirs, flat[n - 1]));
    }
}

/// Once the flat files are removed and turned into directories as the check asks, it
/// passes.
pub proof fn law_repaired_layout_passes(
    flat: Seq<Seq<char>>,
    dirs: Seq<Seq<char>>,
    version: int,
    marked: bool,
)
    requires
        layout_of(flat, dirs, version, marked, true) is Repair,
    ensures
        ({
            let remove = layout_of(flat, dirs, version, marked, true)->Repair_0;
            let migrate = layout_of(flat, dirs, version, marked, true)->Repair_1;
            let gone = remove + migrate;
            layout_of(without(flat, gone, flat.len()), dirs + migrate, version, true, false)
                == LayoutView::Done(ResultView { name: "layout"@, status: StatusView::Pass })
        }),
{
    let remove = layout_of(flat, dirs, version, marked, true)->Repair_0;
    let migrate = layout_of(flat, dirs, version, marked, true)->Repair_1;
    let gone = remove + migrate;
    let left = without(flat, gone, flat.len());
    assert forall|k: int| 0 <= k < left.len() implies !text::has_name(dirs + migrate, #[trigger] left[k])
        && version < 2 by {
        lemma_without(flat, gone, flat.len(), k);
        let i = choose|i: int| 0 <= i < flat.len() && #[trigger] flat[i] == left[k];
        if text::has_name(dirs, flat[i]) {
            lemma_doubled_has(flat, dirs, flat.len(), i);
            let j = choose|j: int| 0 <= j < remove.len() && #[trigger] remove[j] == flat[i];
            assert(gone[j] == left[k]);
        } else {
            lemma_flat_only_has(flat, dirs, flat.len(), i);
            if version >= 2 {
                let j = choose|j: int| 0 <= j < migrate.len() && #[trigger] migrate[j] == flat[i];
                assert(gone[remove.len() + j] == left[k]);
            }
            if text::has_name(dirs + migrate, left[k]) {
                let j = choose|j: int|
                    0 <= j < (dirs + migrate).len() && #[trigger] (dirs + migrate)[j] == left[k];
                if j < dirs.len() {
                    assert(dirs[j] == flat[i]);
                }
            }
        }
    }
    lemma_none_doubled(left, dirs + migrate, left.len());
    if version >= 2 {
        if left.len() > 0 {
            assert(!text::has_name(dirs + migrate, left[0]) && version < 2);
        }
        assert(left.len() == 0);
        assert(flat_only(left, dirs + migrate, left.len()).len() == 0);
    }
}

// ---------------------------------------------------------------------------
// Output
// ---------------------------------------------------------------------------

/// The tag of a status.
pub open spec fn tag(status: StatusView) -> Seq<char> {
    match status {
        StatusView::Pass => "[PASS]"@,
        StatusView::Fail(_) => "[FAIL]"@,
        StatusView::Repaired(_) => "[REPAIRED]"@,
        StatusView::Skipped(_) => "[SKIPPED]"@,
    }
}

/// The details of a status.
pub open spec fn detail(status: StatusView) -> Seq<char> {
    match status {
        StatusView::Pass => ""@,
        StatusView::Fail(d) => d,
        StatusView::Repaired(d) => d,
        StatusView::Skipped(d) => d,
    }
}

/// The line of a result. Without details the name is not padded.
pub open spec fn result_line(r: ResultView) -> Seq<char> {
    let head = text::pad(tag(r.status), 12) + " "@;
    if detail(r.status).len() == 0 {
        head + r.name + "\n"@
    } else {
        head + text::pad(r.name, 12) + " "@ + detail(r.status) + "\n"@
    }
}

/// Formats a result.
pub fn print_result(result: &CheckResult) -> (out: String)
    ensures
        out@ == result_line(result@),
{
    proof {
        reveal_strlit("");
    }
    let (tag, detail) = match &result.status {
        CheckStatus::Pass => ("[PASS]", ""),
        CheckStatus::Fail(d) => ("[FAIL]", d.as_str()),
        CheckStatus::Repaired(d) => ("[REPAIRED]", d.as_str()),
        CheckStatus::Skipped(d) => ("[SKIPPED]", d.as_str()),
    };
    let mut out = pad_str(tag, 12);
    out.append(" ");
    if detail.is_empty() {
        out.append(result.name.as_str());
        out.append("\n");
    } else {
        out.append(pad_str(result.name.as_str(), 12).as_str());
        out.append(" ");
        out.append(detail);
        out.append("\n");
    }
    out
}

/// How many of the first `n` results have a tag.
pub open spec fn count_tag(results: Seq<CheckResult>, t: Seq<char>, n: nat) -> nat
    decreases n,
{
    if n == 0 {
        0
    } else {
        count_tag(results, t, (n - 1) as nat) + (if tag(results[n - 1]@.status) == t {
            1nat
        } else {
            0nat
        })
    }
}

/// A count, where it is not zero.
pub open spec fn with_count(parts: Seq<Seq<char>>, n: nat, label: Seq<char>) -> Seq<Seq<char>> {
    if n > 0 {
        parts.push(text::dec(n) + label)
    } else {
        parts
    }
}

/// The summary of some results.
pub open spec fn summary_line(results: Seq<CheckResult>) -> Seq<char> {
    let n = results.len();
    let a = with_count(Seq::empty(), count_tag(results, "[PASS]"@, n), " passed"@);
    let b = with_count(a, count_tag(results, "[FAIL]"@, n), " failed"@);
    let c = with_count(b, count_tag(results, "[REPAIRED]"@, n), " repaired"@);
    let d = with_count(c, count_tag(results, "[SKIPPED]"@, n), " skipped"@);
    "Integrity: "@ + text::join(d, ", "@) + "\n"@
}

fn push_count(parts: &mut Vec<String>, n: u64, label: &str)
    ensures
        text::strs(final(parts)@) == with_count(text::strs(old(parts)@), n as nat, label@),
{
    if n > 0 {
        let mut d = dec_u64(n);
        d.append(label);
        proof {
            text::lemma_strs_push(parts@, d);
        }
        parts.push(d);
    }
}

proof fn lemma_tags_differ()
    ensures
        "[PASS]"@ != "[FAIL]"@,
        "[PASS]"@ != "[REPAIRED]"@,
        "[PASS]"@ != "[SKIPPED]"@,
        "[FAIL]"@ != "[REPAIRED]"@,
        "[FAIL]"@ != "[SKIPPED]"@,
        "[REPAIRED]"@ != "[SKIPPED]"@,
{
    reveal_strlit("[PASS]");
    reveal_strlit("[FAIL]");
    reveal_strlit("[REPAIRED]");
    reveal_strlit("[SKIPPED]");
    assert("[PASS]"@[1] != "[FAIL]"@[1]);
    assert("[PASS]"@.len() == 6 && "[FAIL]"@.len() == 6);
    assert("[REPAIRED]"@.len() == 10 && "[SKIPPED]"@.len() == 9);
}

/// Formats the summary of some results.
pub fn print_summary(results: &[CheckResult]) -> (out: String)
    ensures
        out@ == summary_line(results@),
{
    let mut passed: u64 = 0;
    let mut failed: u64 = 0;
    let mut repaired: u64 = 0;
    let mut skipped: u64 = 0;
    let mut i: usize = 0;
    proof {
        lemma_tags_differ();
    }
    while i < results.len()
        invariant
            i <= results@.len(),
            passed == count_tag(results@, "[PASS]"@, i as nat),
            failed == count_tag(results@, "[FAIL]"@, i as nat),
            repaired == count_tag(results@, "[REPAIRED]"@, i as nat),
            skipped == count_tag(results@, "[SKIPPED]"@, i as nat),
            passed <= i,
            failed <= i,
            repaired <= i,
            skipped <= i,
            "[PASS]"@ != "[FAIL]"@,
            "[PASS]"@ != "[REPAIRED]"@,
            "[PASS]"@ != "[SKIPPED]"@,
            "[FAIL]"@ != "[REPAIRED]"@,
            "[FAIL]"@ != "[SKIPPED]"@,
            "[REPAIRED]"@ != "[SKIPPED]"@,
        decreases results@.len() - i,
    {
        match &results[i].status {
            CheckStatus::Pass => {
                passed = passed + 1;
            },
            CheckStatus::Fail(_) => {
                failed = failed + 1;
            },
            CheckStatus::Repaired(_) => {
                repaired = repaired + 1;
            },
            CheckStatus::Skipped(_) => {
                skipped = skipped + 1;
            },
        }
        i = i + 1;
    }
    let mut parts: Vec<String> = Vec::new();
    assert(text::strs(parts@) =~= Seq::<Seq<char>>::empty());
    push_count(&mut parts, passed, " passed");
    push_count(&mut parts, failed, " failed");
    push_count(&mut parts, repaired, " repaired");
    push_count(&mut parts, skipped, " skipped");
    let mut out = own("Integrity: ");
    out.append(join_strs(&parts, ", ").as_str());
    out.append("\n");
    out
}

/// The lines of the first `n` results.
pub open spec fn with_results(acc: Seq<char>, results: Seq<CheckResult>, n: nat) -> Seq<char>
    decreases n,
{
    if n == 0 {
        acc
    } else {
        with_results(acc, results, (n - 1) as nat) + result_line(results[n - 1]@)
    }
}

/// What is printed where all checks were made.
pub fn print_all(results: &[CheckResult]) -> (out: String)
    ensures
        out@ == with_results(
            "Running all integrity checks...\n\n"@,
            results@,
            results@.len(),
        ) + "\n"@ + summary_line(results@),
{
    let mut out = own("Running all integrity checks...\n\n");
    let ghost head = out@;
    let mut i: usize = 0;
    while i < results.len()
        invariant
            i <= results@.len(),
            out@ == with_results(head, results@, i as nat),
        decreases results@.len() - i,
    {
        out.append(print_result(&results[i]).as_str());
        i = i + 1;
    }
    out.append("\n");
    out.append(print_summary(results).as_str());
    out
}

// ---------------------------------------------------------------------------
// What the checks are for
// ---------------------------------------------------------------------------

/// The schema passes exactly where the versions are the same; otherwise both are named.
pub proof fn law_schema_passes_where_versions_agree(version: int, expected: int)
    ensures
        schema_status(version, expected) == StatusView::Pass <==> version == expected,
        version != expected ==> (schema_status(version, expected) matches StatusView::Fail(d)
            && text::contains(d, text::dec_int(version)) && text::contains(
            d,
            text::dec_int(expected),
        )),
{
    broadcast use {text::lemma_contains_self, text::lemma_contains_first, text::lemma_contains_second};

}

/// The counters pass exactly where no number in use would be given out again. Without a repair
/// nothing is written, and what is too low is named with the least that it must be.
pub proof fn law_low_counters_are_found(
    counters: Option<Counters>,
    max_display: int,
    max_comment: int,
    repair: bool,
)
    ensures
        ({
            let (status, written) = counters_outcome(counters, max_display, max_comment, repair);
            &&& counters is None <==> status is Skipped
            &&& counters matches Some(c) ==> {
                let low_display = c.next_display_id <= max_display;
                let low_comment = c.next_comment_id <= max_comment;
                &&& status == StatusView::Pass <==> !low_display && !low_comment
                &&& status is Fail <==> (low_display || low_comment) && !repair
                &&& status is Repaired <==> (low_display || low_comment) && repair
                &&& written is Some <==> status is Repaired
                &&& low_display && !(status is Pass) ==> text::contains(
                    detail(status),
                    text::dec_int(c.next_display_id as int) + ", expected >= "@ + text::dec_int(
                        max_display + 1,
                    ),
                )
                &&& low_comment && !(status is Pass) ==> text::contains(
                    detail(status),
                    text::dec_int(c.next_comment_id as int) + ", expected >= "@ + text::dec_int(
                        max_comment + 1,
                    ),
                )
            }
        }),
{
    broadcast use {text::lemma_contains_self, text::lemma_contains_first, text::lemma_contains_second};

    if let Some(c) = counters {
        let issues = counter_issues(c, max_display, max_comment);
        let a = text::dec_int(c.next_display_id as int) + ", expected >= "@ + text::dec_int(
            max_display + 1,
        );
        let b = text::dec_int(c.next_comment_id as int) + ", expected >= "@ + text::dec_int(
            max_comment + 1,
        );
        if c.next_display_id <= max_display {
            assert(issues[0] =~= "next_display_id is "@ + a);
            text::lemma_contains_second("next_display_id is "@, a, a);
            assert(text::contains(issues[0], a));
            text::lemma_part_in_joined(issues, "; "@, a);
        }
        if c.next_comment_id <= max_comment {
            let k = issues.len() - 1;
            assert(issues[k] =~= "next_comment_id is "@ + b);
            text::lemma_contains_second("next_comment_id is "@, b, b);
            assert(text::contains(issues[k], b));
            text::lemma_part_in_joined(issues, "; "@, b);
        }
    }
}

proof fn lemma_numbered_issues(ids: Seq<Option<i64>>, n: nat)
    requires
        n <= ids.len(),
    ensures
        numbered_issues(ids, n) == ids.take(n as int).filter(|id: Option<i64>| id is Some).len(),
    decreases n,
{
    let some = |id: Option<i64>| id is Some;
    reveal(Seq::filter);
    if n > 0 {
        lemma_numbered_issues(ids, (n - 1) as nat);
        assert(ids.take(n as int).drop_last() =~= ids.take(n - 1));
        assert(ids.take(n as int).last() == ids[n - 1]);
    }
}

/// The database passes exactly where it holds as many issues as have a number on the hub, and
/// as many milestones as the hub. Without a repair a difference fails, and both numbers are
/// told; with one the database is filled anew.
pub proof fn law_differences_are_found(h: Holdings, repair: bool)
    ensures
        ({
            let numbered = h.display_ids@.filter(|id: Option<i64>| id is Some).len();
            let milestones = if h.milestone_files > 0 {
                h.milestone_files
            } else {
                h.legacy_milestones
            };
            let same = numbered == h.db_issues && milestones == h.db_milestones;
            let r = hydration_outcome(Some(h), repair);
            &&& r is None <==> !same && repair
            &&& r matches Some(result) ==> result.name == "hydration"@ && (result.status
                == StatusView::Pass <==> same) && (result.status is Fail <==> !same)
            &&& numbered != h.db_issues && !repair ==> text::contains(
                detail(r->0.status),
                text::dec(numbered) + " issues in JSON, "@ + text::dec_int(h.db_issues as int),
            )
            &&& milestones != h.db_milestones && !repair ==> text::contains(
                detail(r->0.status),
                text::dec(milestones as nat) + " milestones in JSON, "@ + text::dec_int(
                    h.db_milestones as int,
                ),
            )
        }),
        hydration_outcome(None, repair) matches Some(result) && result.status is Skipped,
{
    broadcast use {text::lemma_contains_self, text::lemma_contains_first, text::lemma_contains_second};

    lemma_numbered_issues(h.display_ids@, h.display_ids@.len());
    assert(h.display_ids@.take(h.display_ids@.len() as int) =~= h.display_ids@);
    let numbered = h.display_ids@.filter(|id: Option<i64>| id is Some).len();
    let issues = hydration_issues(h);
    let a = text::dec(numbered) + " issues in JSON, "@ + text::dec_int(h.db_issues as int);
    let b = text::dec(hub_milestones(h)) + " milestones in JSON, "@ + text::dec_int(
        h.db_milestones as int,
    );
    if numbered != h.db_issues {
        assert(text::contains(issues[0], a));
        text::lemma_part_in_joined(issues, "; "@, a);
    }
    if hub_milestones(h) != h.db_milestones {
        assert(text::contains(issues[issues.len() - 1], b));
        text::lemma_part_in_joined(issues, "; "@, b);
    }
}

/// Where synchronization is ready, the locks pass exactly where none is stale, whether or not
/// a repair is asked for. Stale locks are released where a repair is asked for and there is an
/// agent; otherwise they are a failure, which names every one with its issue and its agent.
pub proof fn law_stale_locks_are_found(
    state: SyncState,
    stale: Seq<(i64, String)>,
    repair: bool,
    has_agent: bool,
)
    ensures
        ({
            let r = locks_outcome(state, stale, repair, has_agent);
            &&& r matches Some(result) ==> result.name == "locks"@
            &&& state != SyncState::Ready ==> (r matches Some(result) && result.status is Skipped)
            &&& state == SyncState::Ready ==> {
                &&& stale.len() == 0 <==> (r matches Some(result) && result.status
                    == StatusView::Pass)
                &&& r is None <==> stale.len() > 0 && repair && has_agent
                &&& stale.len() > 0 && !(repair && has_agent) ==> (r matches Some(result)
                    && result.status is Fail)
                &&& r matches Some(result) ==> forall|k: int|
                    0 <= k < stale.len() ==> text::contains(
                        detail(result.status),
                        "#"@ + text::dec_int((#[trigger] stale[k]).0 as int) + " ("@ + stale[k].1@
                            + ")"@,
                    )
            }
        }),
{
    broadcast use {text::lemma_contains_self, text::lemma_contains_first, text::lemma_contains_second};

    let names = lock_names(stale);
    assert forall|k: int| 0 <= k < stale.len() implies text::contains(
        stale_details(stale),
        "#"@ + text::dec_int((#[trigger] stale[k]).0 as int) + " ("@ + stale[k].1@ + ")"@,
    ) by {
        text::law_joined_text_holds_its_parts(names, ", "@, k);
        assert(names[k] == "#"@ + text::dec_int(stale[k].0 as int) + " ("@ + stale[k].1@ + ")"@);
    }
}

/// How many flags are set is how many of them are true.
pub proof fn law_repairs_are_counted(flags: Seq<bool>)
    ensures
        count_set(flags, flags.len()) == flags.filter(|b: bool| b).len(),
{
    lemma_count_set(flags, flags.len());
    assert(flags.take(flags.len() as int) =~= flags);
}

proof fn lemma_count_set(flags: Seq<bool>, n: nat)
    requires
        n <= flags.len(),
    ensures
        count_set(flags, n) == flags.take(n as int).filter(|b: bool| b).len(),
    decreases n,
{
    reveal(Seq::filter);
    if n > 0 {
        lemma_count_set(flags, (n - 1) as nat);
        assert(flags.take(n as int).drop_last() =~= flags.take(n - 1));
        assert(flags.take(n as int).last() == flags[n - 1]);
    }
}

proof fn lemma_doubled_only(flat: Seq<Seq<char>>, dirs: Seq<Seq<char>>, n: nat, k: int)
    requires
        n <= flat.len(),
        0 <= k < doubled(flat, dirs, n).len(),
    ensures
        text::has_name(dirs, doubled(flat, dirs, n)[k]),
        text::has_name(flat, doubled(flat, dirs, n)[k]),
    decreases n,
{
    if n > 0 {
        let head = doubled(flat, dirs, (n - 1) as nat);
        if k < head.len() {
            lemma_doubled_only(flat, dirs, (n - 1) as nat, k);
        } else {
            assert(flat[n - 1] == doubled(flat, dirs, n)[k]);
        }
    }
}

proof fn lemma_flat_only_is(flat: Seq<Seq<char>>, dirs: Seq<Seq<char>>, n: nat, k: int)
    requires
        n <= flat.len(),
        0 <= k < flat_only(flat, dirs, n).len(),
    ensures
        !text::has_name(dirs, flat_only(flat, dirs, n)[k]),
        text::has_name(flat, flat_only(flat, dirs, n)[k]),
    decreases n,
{
    if n > 0 {
        let head = flat_only(flat, dirs, (n - 1) as nat);
        if k < head.len() {
            lemma_flat_only_is(flat, dirs, (n - 1) as nat, k);
        } else {
            assert(flat[n - 1] == flat_only(flat, dirs, n)[k]);
        }
    }
}

/// The layout passes exactly where no issue in a flat file is in a directory too and, from the
/// second version on, there is no flat file at all. A repair removes exactly the flat files of
/// issues that have a directory, so that no issue is lost, turns the others into directories
/// from the second version on, and writes the version where it is not marked.
pub proof fn law_misplaced_files_are_found(
    flat: Seq<Seq<char>>,
    dirs: Seq<Seq<char>>,
    version: int,
    marked: bool,
    repair: bool,
)
    ensures
        ({
            let r = layout_of(flat, dirs, version, marked, repair);
            let in_order = (forall|i: int|
                0 <= i < flat.len() ==> !text::has_name(dirs, #[trigger] flat[i])) && (version >= 2
                ==> flat.len() == 0);
            &&& r == LayoutView::Done(ResultView { name: "layout"@, status: StatusView::Pass })
                <==> in_order
            &&& r is Repair <==> !in_order && repair
            &&& !in_order && !repair ==> (r matches LayoutView::Done(result) && result.status is Fail)
            &&& r matches LayoutView::Repair(remove, migrate, write_version) ==> {
                &&& forall|u: Seq<char>| #[trigger]
                    text::has_name(remove, u) <==> text::has_name(flat, u) && text::has_name(
                        dirs,
                        u,
                    )
                &&& forall|u: Seq<char>| #[trigger]
                    text::has_name(migrate, u) <==> version >= 2 && text::has_name(flat, u)
                        && !text::has_name(dirs, u)
                &&& write_version == !marked
            }
        }),
{
    let both = doubled(flat, dirs, flat.len());
    let only = flat_only(flat, dirs, flat.len());
    assert forall|u: Seq<char>| #[trigger] text::has_name(both, u) implies text::has_name(flat, u)
        && text::has_name(dirs, u) by {
        let k = choose|k: int| 0 <= k < both.len() && #[trigger] both[k] == u;
        lemma_doubled_only(flat, dirs, flat.len(), k);
    }
    assert forall|u: Seq<char>| text::has_name(flat, u) && text::has_name(dirs, u) implies #[trigger] text::has_name(
        both,
        u,
    ) by {
        let i = choose|i: int| 0 <= i < flat.len() && #[trigger] flat[i] == u;
        lemma_doubled_has(flat, dirs, flat.len(), i);
    }
    assert forall|u: Seq<char>| #[trigger] text::has_name(only, u) implies text::has_name(flat, u)
        && !text::has_name(dirs, u) by {
        let k = choose|k: int| 0 <= k < only.len() && #[trigger] only[k] == u;
        lemma_flat_only_is(flat, dirs, flat.len(), k);
    }
    assert forall|u: Seq<char>| text::has_name(flat, u) && !text::has_name(dirs, u) implies #[trigger] text::has_name(
        only,
        u,
    ) by {
        let i = choose|i: int| 0 <= i < flat.len() && #[trigger] flat[i] == u;
        lemma_flat_only_has(flat, dirs, flat.len(), i);
    }
    let in_order = (forall|i: int| 0 <= i < flat.len() ==> !text::has_name(dirs, #[trigger] flat[i]))
        && (version >= 2 ==> flat.len() == 0);
    if both.len() > 0 {
        assert(text::has_name(both, both[0]));
        let i = choose|i: int| 0 <= i < flat.len() && #[trigger] flat[i] == both[0];
        assert(text::has_name(dirs, flat[i]));
        assert(!in_order);
    } else {
        assert forall|i: int| 0 <= i < flat.len() implies !text::has_name(dirs, #[trigger] flat[i]) by {
            if text::has_name(dirs, flat[i]) {
                assert(text::has_name(flat, flat[i]));
                assert(text::has_name(both, flat[i]));
            }
        }
    }
    if only.len() > 0 {
        assert(text::has_name(only, only[0]));
        assert(flat.len() > 0);
    } else if flat.len() > 0 {
        assert(text::has_name(flat, flat[0]));
        if !text::has_name(dirs, flat[0]) {
            assert(text::has_name(only, flat[0]));
        } else {
            assert(text::has_name(both, flat[0]));
        }
    }
    if layout_of(flat, dirs, version, marked, repair) is Repair && version < 2 {
        let migrate = layout_of(flat, dirs, version, marked, repair)->Repair_1;
        assert forall|u: Seq<char>| !#[trigger] text::has_name(migrate, u) by {}
    }
}

/// A file counts as an issue exactly where it is a file whose name ends in `.json`, and a
/// directory exactly where it holds an issue.
pub proof fn law_entries_are_told_apart(entries: Seq<LayoutEntry>, name: Seq<char>)
    ensures
        text::has_name(flat_issues(entries, entries.len()), name) <==> exists|i: int|
            0 <= i < entries.len() && (#[trigger] entries[i]).kind == EntryKind::File
                && text::has_suffix(entries[i].name@, ".json"@) && stem(entries[i].name@) == name,
        text::has_name(dir_issues(entries, entries.len()), name) <==> exists|i: int|
            0 <= i < entries.len() && (#[trigger] entries[i]).kind == EntryKind::IssueDir
                && entries[i].name@ == name,
{
    lemma_entries(entries, entries.len(), name);
}

proof fn lemma_entries(entries: Seq<LayoutEntry>, n: nat, name: Seq<char>)
    requires
        n <= entries.len(),
    ensures
        text::has_name(flat_issues(entries, n), name) <==> exists|i: int|
            0 <= i < n && (#[trigger] entries[i]).kind == EntryKind::File && text::has_suffix(
                entries[i].name@,
                ".json"@,
            ) && stem(entries[i].name@) == name,
        text::has_name(dir_issues(entries, n), name) <==> exists|i: int|
            0 <= i < n && (#[trigger] entries[i]).kind == EntryKind::IssueDir && entries[i].name@
                == name,
    decreases n,
{
    if n > 0 {
        lemma_entries(entries, (n - 1) as nat, name);
        let e = entries[n - 1];
        lemma_has_name_push(flat_issues(entries, (n - 1) as nat), stem(e.name@), name);
        lemma_has_name_push(dir_issues(entries, (n - 1) as nat), e.name@, name);
    }
}

proof fn lemma_has_name_push(names: Seq<Seq<char>>, last: Seq<char>, name: Seq<char>)
    ensures
        text::has_name(names.push(last), name) <==> text::has_name(names, name) || last == name,
{
    let all = names.push(last);
    if text::has_name(names, name) {
        let k = choose|k: int| 0 <= k < names.len() && #[trigger] names[k] == name;
        assert(all[k] == name);
    }
    if last == name {
        assert(all[names.len() as int] == name);
    }
    if text::has_name(all, name) {
        let k = choose|k: int| 0 <= k < all.len() && #[trigger] all[k] == name;
        if k < names.len() {
            assert(names[k] == name);
        }
    }
}

/// A flat file stands for the issue whose name has no such ending: what is cut off is only the
/// ending, as often as it stands there.
pub proof fn law_stem_has_no_ending(name: Seq<char>)
    ensures
        !text::has_suffix(stem(name), ".json"@),
        text::has_prefix(name, stem(name)),
        !text::has_suffix(name, ".json"@) ==> stem(name) == name,
    decreases name.len(),
{
    reveal_strlit(".json");
    if text::has_suffix(name, ".json"@) {
        let rest = name.take(name.len() - ".json"@.len());
        law_stem_has_no_ending(rest);
        assert(name.take(stem(rest).len() as int) =~= rest.take(stem(rest).len() as int));
    } else {
        assert(name.take(name.len() as int) =~= name);
    }
}

/// A result is printed with its name, its details and the tag of its status, and different
/// statuses have different tags.
pub proof fn law_results_are_shown(r: ResultView, other: StatusView)
    ensures
        text::contains(result_line(r), r.name),
        text::contains(result_line(r), detail(r.status)),
        text::has_prefix(result_line(r), tag(r.status)),
        tag(r.status) == tag(other) <==> ((r.status is Pass && other is Pass) || (r.status is Fail
            && other is Fail) || (r.status is Repaired && other is Repaired) || (r.status is Skipped
            && other is Skipped)),
        tag(StatusView::Pass) == "[PASS]"@,
        r.status matches StatusView::Fail(d) ==> tag(r.status) == "[FAIL]"@ && detail(r.status) == d,
{
    broadcast use {text::lemma_contains_self, text::lemma_contains_first, text::lemma_contains_second};

    lemma_tags_differ();
    reveal_strlit("");
    text::law_padding_adds_only_blanks(tag(r.status), 12);
    text::law_padding_adds_only_blanks(r.name, 12);
    let line = result_line(r);
    assert(line.take(tag(r.status).len() as int) =~= tag(r.status));
    assert(text::contains(text::pad(r.name, 12), r.name));
    if detail(r.status).len() == 0 {
        assert(line.subrange(0, 0) =~= detail(r.status));
        assert(text::occurs_at(line, detail(r.status), 0));
    }
}

/// A command makes the check that it names, and all five where it names none; then nothing is
/// repaired.
pub proof fn law_all_checks_are_made(action: Option<&IntegrityCommands>, r: Vec<IntegrityCommands>)
    requires
        call_ensures(run, (action,), r),
    ensures
        action matches Some(command) ==> r@.len() == 1 && r@[0] == *command,
        action is None ==> {
            &&& r@.len() == 5
            &&& r@.contains(IntegrityCommands::Schema { repair: false })
            &&& r@.contains(IntegrityCommands::Counters { repair: false })
            &&& r@.contains(IntegrityCommands::Hydration { repair: false })
            &&& r@.contains(IntegrityCommands::Locks { repair: false })
            &&& r@.contains(IntegrityCommands::Layout { repair: false })
        },
{
    if action is None {
        assert(r@[0] == IntegrityCommands::Schema { repair: false });
        assert(r@[1] == IntegrityCommands::Counters { repair: false });
        assert(r@[2] == IntegrityCommands::Hydration { repair: false });
        assert(r@[3] == IntegrityCommands::Locks { repair: false });
        assert(r@[4] == IntegrityCommands::Layout { repair: false });
    }
}

/// The schema passes exactly where its version is the expected one.
pub proof fn law_schema_is_checked(version: i64, expected: i64, r: CheckResult)
    requires
        call_ensures(check_schema, (version, expected), r),
    ensures
        r@.name == "schema"@,
        r@.status is Pass <==> version == expected,
        r@.status is Fail <==> version != expected,
{
}

/// Stale locks fail the check unless they are repaired, and every one of them is named.
pub proof fn law_locks_are_checked(
    state: SyncState,
    stale: &Vec<(i64, String)>,
    repair: bool,
    has_agent: bool,
    r: Outcome,
    k: int,
)
    requires
        call_ensures(check_locks, (state, stale, repair, has_agent), r),
        state == SyncState::Ready,
    ensures
        stale@.len() == 0 <==> (r matches Outcome::Done(c) && c@.status is Pass),
        r is Repair <==> stale@.len() > 0 && repair && has_agent,
        stale@.len() > 0 && !repair ==> (r matches Outcome::Done(c) && c@.status is Fail),
        r matches Outcome::Done(c) ==> (0 <= k < stale@.len() ==> text::contains(
            detail(c@.status),
            "#"@ + text::dec_int(stale@[k].0 as int) + " ("@ + stale@[k].1@ + ")"@,
        )),
{
    law_stale_locks_are_found(state, stale@, repair, has_agent);
    assert(outcome(r) == locks_outcome(state, stale@, repair, has_agent));
    if let Outcome::Done(c) = r {
        assert(outcome(r) == Some(c@));
    }
}

/// What was repaired is told: how many issues and comments, how many of the stale locks, and how
/// many files.
pub proof fn law_repairs_are_told(
    issues: u64,
    comments: u64,
    a: CheckResult,
    released: &Vec<bool>,
    stale: usize,
    b: CheckResult,
)
    requires
        call_ensures(hydration_repaired, (issues, comments), a),
        call_ensures(locks_repaired, (released, stale), b),
    ensures
        a@.name == "hydration"@ && a@.status is Repaired,
        text::contains(detail(a@.status), "re-hydrated "@ + text::dec(issues as nat) + " issues, "@),
        text::contains(
            detail(a@.status),
            " issues, "@ + text::dec(comments as nat) + " comments"@,
        ),
        b@.name == "locks"@ && b@.status is Repaired,
        text::contains(
            detail(b@.status),
            "released "@ + text::dec(released@.filter(|set: bool| set).len()) + " of "@,
        ),
        text::contains(detail(b@.status), " of "@ + text::dec(stale as nat) + " stale lock(s)"@),
{
    broadcast use {
        text::lemma_contains_self,
        text::lemma_contains_first,
        text::lemma_contains_triple,
    };

    law_repairs_are_counted(released@);
    assert(released@.filter(|set: bool| set) == released@.filter(|b: bool| b));
}

/// Without an issues directory there is no layout to check.
pub proof fn law_missing_directories_are_skipped(
    version: u32,
    marked: bool,
    repair: bool,
    r: LayoutOutcome,
)
    requires
        call_ensures(check_layout, (None, version, marked, repair), r),
    ensures
        r@ matches LayoutView::Done(result) && result.status is Skipped && result.name
            == "layout"@,
{
}

/// Repairs of the layout are told by how many there were of each kind; a kind without any is not
/// told.
pub proof fn law_layout_repairs_are_told(cleaned: nat, migrated: nat)
    ensures
        layout_repairs(cleaned, migrated).len() == (if cleaned > 0 {
            1int
        } else {
            0
        }) + (if migrated > 0 {
            1int
        } else {
            0
        }),
        cleaned > 0 ==> layout_repairs(cleaned, migrated)[0] == text::dec(cleaned)
            + " stale V1 duplicate(s) removed"@,
        migrated > 0 ==> layout_repairs(cleaned, migrated).last() == text::dec(migrated)
            + " V1 file(s) migrated to V2"@,
{
}

/// A result counts under its own tag alone, and every result counts.
pub proof fn law_results_are_counted(results: Seq<CheckResult>, n: nat)
    requires
        n <= results.len(),
    ensures
        count_tag(results, "[PASS]"@, n) + count_tag(results, "[FAIL]"@, n) + count_tag(
            results,
            "[REPAIRED]"@,
            n,
        ) + count_tag(results, "[SKIPPED]"@, n) == n,
        (forall|i: int| 0 <= i < n ==> (#[trigger] results[i])@.status is Pass) ==> count_tag(
            results,
            "[PASS]"@,
            n,
        ) == n,
        (exists|i: int| 0 <= i < n && (#[trigger] results[i])@.status is Fail) ==> count_tag(
            results,
            "[FAIL]"@,
            n,
        ) > 0,
    decreases n,
{
    lemma_tags_differ();
    if n > 0 {
        law_results_are_counted(results, (n - 1) as nat);
    }
}

/// Every result is printed, and how many there were of each kind.
pub proof fn law_all_results_are_printed(results: &[CheckResult], out: String, k: int)
    requires
        call_ensures(print_all, (results,), out),
    ensures
        0 <= k < results@.len() ==> text::contains(out@, result_line(results@[k]@)),
        count_tag(results@, "[FAIL]"@, results@.len()) > 0 ==> text::contains(
            out@,
            text::dec(count_tag(results@, "[FAIL]"@, results@.len())) + " failed"@,
        ),
        count_tag(results@, "[PASS]"@, results@.len()) > 0 ==> text::contains(
            out@,
            text::dec(count_tag(results@, "[PASS]"@, results@.len())) + " passed"@,
        ),
{
    let n = results@.len();
    let body = with_results("Running all integrity checks...\n\n"@, results@, n);
    if 0 <= k < n {
        lemma_result_printed("Running all integrity checks...\n\n"@, results@, n, k);
        text::lemma_contains_first(body, "\n"@, result_line(results@[k]@));
        text::lemma_contains_first(
            body + "\n"@,
            summary_line(results@),
            result_line(results@[k]@),
        );
    }
    let a = with_count(Seq::empty(), count_tag(results@, "[PASS]"@, n), " passed"@);
    let b = with_count(a, count_tag(results@, "[FAIL]"@, n), " failed"@);
    let c = with_count(b, count_tag(results@, "[REPAIRED]"@, n), " repaired"@);
    let d = with_count(c, count_tag(results@, "[SKIPPED]"@, n), " skipped"@);
    let joined = text::join(d, ", "@);
    if count_tag(results@, "[PASS]"@, n) > 0 {
        let p = text::dec(count_tag(results@, "[PASS]"@, n)) + " passed"@;
        assert(d[0] == p);
        text::law_joined_text_holds_its_parts(d, ", "@, 0);
        text::lemma_contains_second("Integrity: "@, joined, p);
        text::lemma_contains_first("Integrity: "@ + joined, "\n"@, p);
        text::lemma_contains_second(body + "\n"@, summary_line(results@), p);
    }
    if count_tag(results@, "[FAIL]"@, n) > 0 {
        let p = text::dec(count_tag(results@, "[FAIL]"@, n)) + " failed"@;
        let i = a.len() as int;
        assert(d[i] == p);
        text::law_joined_text_holds_its_parts(d, ", "@, i);
        text::lemma_contains_second("Integrity: "@, joined, p);
        text::lemma_contains_first("Integrity: "@ + joined, "\n"@, p);
        text::lemma_contains_second(body + "\n"@, summary_line(results@), p);
    }
}

proof fn lemma_result_printed(acc: Seq<char>, results: Seq<CheckResult>, n: nat, k: int)
    requires
        0 <= k < n,
    ensures
        text::contains(with_results(acc, results, n), result_line(results[k]@)),
    decreases n,
{
    broadcast use {
        text::lemma_contains_self,
        text::lemma_contains_first,
        text::lemma_contains_second,
    };

    if k < n - 1 {
        lemma_result_printed(acc, results, (n - 1) as nat, k);
    }
}

} // verus!
