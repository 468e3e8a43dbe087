//! Exporting issues as JSON or as Markdown.

use crate::identity::clone_opt;
use crate::text;
use crate::text::{clone_strings, dec_i64, dec_u64, eq_str, join_strs, own};
use crate::time;
use crate::time::Moment;
use crate::uuids;
use crate::uuids::{fresh_uuid, parse_uuid};
use std::collections::HashMap;
use vstd::prelude::*;
use vstd::std_specs::hash::*;

verus! {

// ---------------------------------------------------------------------------
// The older format
// ---------------------------------------------------------------------------

/// An issue in the older format of exports.
#[derive(Debug, Clone, PartialEq)]
pub struct ExportedIssue {
    pub id: i64,
    pub title: String,
    pub description: Option<String>,
    pub status: String,
    pub priority: String,
    pub parent_id: Option<i64>,
    pub labels: Vec<String>,
    pub comments: Vec<ExportedComment>,
    pub created_at: String,
    pub updated_at: String,
    pub closed_at: Option<String>,
}

/// A comment in the older format of exports.
#[derive(Debug, Clone, PartialEq)]
pub struct ExportedComment {
    pub content: String,
    pub created_at: String,
}

/// An export in the older format.
#[derive(Debug, Clone, PartialEq)]
pub struct ExportData {
    pub version: i32,
    pub exported_at: String,
    pub issues: Vec<ExportedIssue>,
}

// ---------------------------------------------------------------------------
// UUIDs
// ---------------------------------------------------------------------------

/// The UUIDs of the first `n` issues, of which the number and the stored UUID are given.
/// An issue without a stored UUID, or with one that cannot be read, gets a fresh one.
pub open spec fn uuids_of(entries: Seq<(i64, Option<String>)>, fresh: Seq<u128>, n: nat) -> Map<
    i64,
    u128,
>
    decreases n,
{
    if n == 0 {
        Map::empty()
    } else {
        uuids_of(entries, fresh, (n - 1) as nat).insert(
            entries[n - 1].0,
            uuids::stored_or(text::opt_str(entries[n - 1].1), fresh[n - 1]),
        )
    }
}

fn stored_uuid(stored: &Option<String>, fresh: u128) -> (r: u128)
    ensures
        r == uuids::stored_or(text::opt_str(*stored), fresh),
{
    match stored {
        Some(s) => match parse_uuid(s.as_str()) {
            Some(u) => u,
            None => fresh,
        },
        None => fresh,
    }
}

/// Builds the map from issues to UUIDs, with a fresh UUID given for each.
pub fn build_uuid_map_from(entries: &Vec<(i64, Option<String>)>, fresh: &Vec<u128>) -> (map: HashMap<
    i64,
    u128,
>)
    requires
        fresh@.len() == entries@.len(),
    ensures
        map@ == uuids_of(entries@, fresh@, entries@.len()),
{
    broadcast use group_hash_axioms;

    let mut map: HashMap<i64, u128> = HashMap::new();
    let mut i: usize = 0;
    while i < entries.len()
        invariant
            i <= entries@.len(),
            fresh@.len() == entries@.len(),
            map@ == uuids_of(entries@, fresh@, i as nat),
        decreases entries@.len() - i,
    {
        broadcast use group_hash_axioms;

        map.insert(entries[i].0, stored_uuid(&entries[i].1, fresh[i]));
        i = i + 1;
    }
    map
}

/// Builds the map from issues to UUIDs, for consistent references. Issues without a UUID
/// get a fresh one.
pub fn build_uuid_map(entries: &Vec<(i64, Option<String>)>) -> (map: HashMap<i64, u128>)
    ensures
        exists|fresh: Seq<u128>|
            fresh.len() == entries@.len() && (forall|i: int|
                0 <= i < fresh.len() ==> uuids::is_random(#[trigger] fresh[i])) && map@
                == #[trigger] uuids_of(entries@, fresh, entries@.len()),
{
    let mut fresh: Vec<u128> = Vec::new();
    let mut i: usize = 0;
    while i < entries.len()
        invariant
            i <= entries@.len(),
            fresh@.len() == i,
            forall|k: int| 0 <= k < i ==> uuids::is_random(#[trigger] fresh@[k]),
        decreases entries@.len() - i,
    {
        fresh.push(fresh_uuid());
        i = i + 1;
    }
    build_uuid_map_from(entries, &fresh)
}

/// The UUID of an issue that is referred to: the one in the map, or else the stored one,
/// or else a given one.
pub open spec fn resolved(
    map: Map<i64, u128>,
    id: i64,
    stored: Option<Seq<char>>,
    fresh: u128,
) -> u128 {
    if map.dom().contains(id) {
        map[id]
    } else {
        uuids::stored_or(stored, fresh)
    }
}

/// An issue that another refers to, with the UUID that is stored for it.
#[derive(Debug, Clone, PartialEq)]
pub struct Reference {
    pub id: i64,
    pub stored: Option<String>,
}

/// Looks up the UUID of an issue that is referred to, with a fresh one given.
pub fn resolve_uuid_from(map: &HashMap<i64, u128>, reference: &Reference, fresh: u128) -> (r: u128)
    ensures
        r == resolved(map@, reference.id, text::opt_str(reference.stored), fresh),
{
    broadcast use group_hash_axioms;

    match map.get(&reference.id) {
        Some(u) => *u,
        None => stored_uuid(&reference.stored, fresh),
    }
}

/// Whether a UUID is that of an issue that is referred to: fresh only where it is neither
/// in the map nor stored.
pub open spec fn is_resolved(map: Map<i64, u128>, reference: Reference, r: u128) -> bool {
    exists|fresh: u128|
        uuids::is_random(fresh) && r == #[trigger] resolved(
            map,
            reference.id,
            text::opt_str(reference.stored),
            fresh,
        )
}

/// Looks up the UUID of an issue that is referred to.
pub fn resolve_uuid(map: &HashMap<i64, u128>, reference: &Reference) -> (r: u128)
    ensures
        is_resolved(map@, *reference, r),
{
    resolve_uuid_from(map, reference, fresh_uuid())
}

fn resolve_all(map: &HashMap<i64, u128>, references: &Vec<Reference>) -> (r: Vec<u128>)
    ensures
        r@.len() == references@.len(),
        forall|i: int| 0 <= i < r@.len() ==> is_resolved(map@, references@[i], #[trigger] r@[i]),
{
    let mut out: Vec<u128> = Vec::new();
    let mut i: usize = 0;
    while i < references.len()
        invariant
            i <= references@.len(),
            out@.len() == i,
            forall|k: int| 0 <= k < i ==> is_resolved(map@, references@[k], #[trigger] out@[k]),
        decreases references@.len() - i,
    {
        out.push(resolve_uuid(map, &references[i]));
        i = i + 1;
    }
    out
}

/// Every issue that is exported has a UUID, and one whose stored UUID can be read keeps
/// it.
pub proof fn law_exported_issues_have_uuids(
    entries: Seq<(i64, Option<String>)>,
    fresh: Seq<u128>,
    n: nat,
    i: int,
)
    requires
        n <= entries.len(),
        fresh.len() == entries.len(),
        0 <= i < n,
        forall|j: int, k: int|
            0 <= j < k < n ==> (#[trigger] entries[j]).0 != (#[trigger] entries[k]).0,
    ensures
        uuids_of(entries, fresh, n).dom().contains(entries[i].0),
        uuids_of(entries, fresh, n)[entries[i].0] == uuids::stored_or(
            text::opt_str(entries[i].1),
            fresh[i],
        ),
    decreases n,
{
    if i < n - 1 {
        law_exported_issues_have_uuids(entries, fresh, (n - 1) as nat, i);
        assert(entries[i].0 != entries[n - 1].0);
    }
}

// ---------------------------------------------------------------------------
// Issue files
// ---------------------------------------------------------------------------

/// An issue of the database.
#[derive(Debug, Clone, PartialEq)]
pub struct Issue {
    pub id: i64,
    pub title: String,
    pub description: Option<String>,
    pub status: String,
    pub priority: String,
    pub created_at: Moment,
    pub updated_at: Moment,
    pub closed_at: Option<Moment>,
}

/// A comment of the database. Its author may not be known.
#[derive(Debug, Clone, PartialEq)]
pub struct CommentRow {
    pub id: i64,
    pub author: Option<String>,
    pub content: String,
    pub created_at: Moment,
    pub kind: String,
    pub trigger_type: Option<String>,
    pub intervention_context: Option<String>,
}

/// A comment in an issue file.
#[derive(Debug, Clone, PartialEq)]
pub struct CommentEntry {
    pub id: i64,
    pub author: String,
    pub content: String,
    pub created_at: Moment,
    pub kind: String,
    pub trigger_type: Option<String>,
    pub intervention_context: Option<String>,
}

/// A span of time that was worked on an issue.
#[derive(Debug, Clone, Copy, PartialEq, Eq)]
pub struct TimeEntry {
    pub id: i64,
    pub started_at: Moment,
    pub ended_at: Option<Moment>,
    pub duration_seconds: Option<i64>,
}

/// All that the database holds of an issue.
pub struct IssueRecord {
    pub issue: Issue,
    pub created_by: Option<String>,
    pub parent: Option<Reference>,
    pub labels: Vec<String>,
    pub comments: Vec<CommentRow>,
    pub blockers: Vec<Reference>,
    pub related: Vec<Reference>,
    pub milestone: Option<String>,
    pub time_entries: Vec<TimeEntry>,
}

/// An issue in a file of its own.
pub struct IssueFile {
    pub uuid: u128,
    pub display_id: Option<i64>,
    pub title: String,
    pub description: Option<String>,
    pub status: String,
    pub priority: String,
    pub parent_uuid: Option<u128>,
    pub created_by: String,
    pub created_at: Moment,
    pub updated_at: Moment,
    pub closed_at: Option<Moment>,
    pub labels: Vec<String>,
    pub comments: Vec<CommentEntry>,
    pub blockers: Vec<u128>,
    pub related: Vec<u128>,
    pub milestone_uuid: Option<u128>,
    pub time_entries: Vec<TimeEntry>,
}

/// A name, or that it is unknown.
pub open spec fn known(name: Option<Seq<char>>) -> Seq<char> {
    match name {
        Some(n) => n,
        None => "unknown"@,
    }
}

/// Whether a comment in a file is the one of the database.
pub open spec fn same_comment(row: CommentRow, entry: CommentEntry) -> bool {
    &&& entry.id == row.id
    &&& entry.author@ == known(text::opt_str(row.author))
    &&& entry.content@ == row.content@
    &&& entry.created_at == row.created_at
    &&& entry.kind@ == row.kind@
    &&& text::opt_str(entry.trigger_type) == text::opt_str(row.trigger_type)
    &&& text::opt_str(entry.intervention_context) == text::opt_str(row.intervention_context)
}

/// Whether an issue file says what the database holds of an issue, with the UUIDs of the
/// issues that it refers to.
pub open spec fn is_file_of(file: IssueFile, record: IssueRecord, map: Map<i64, u128>) -> bool {
    &&& file.uuid == map[record.issue.id]
    &&& file.display_id == Some(record.issue.id)
    &&& file.title@ == record.issue.title@
    &&& text::opt_str(file.description) == text::opt_str(record.issue.description)
    &&& file.status@ == record.issue.status@
    &&& file.priority@ == record.issue.priority@
    &&& match record.parent {
        Some(p) => file.parent_uuid is Some && is_resolved(map, p, file.parent_uuid->0),
        None => file.parent_uuid is None,
    }
    &&& file.created_by@ == known(text::opt_str(record.created_by))
    &&& file.created_at == record.issue.created_at
    &&& file.updated_at == record.issue.updated_at
    &&& file.closed_at == record.issue.closed_at
    &&& text::strs(file.labels@) == text::strs(record.labels@)
    &&& file.comments@.len() == record.comments@.len()
    &&& forall|i: int|
        0 <= i < file.comments@.len() ==> same_comment(
            record.comments@[i],
            #[trigger] file.comments@[i],
        )
    &&& file.blockers@.len() == record.blockers@.len()
    &&& forall|i: int|
        0 <= i < file.blockers@.len() ==> is_resolved(
            map,
            record.blockers@[i],
            #[trigger] file.blockers@[i],
        )
    &&& file.related@.len() == record.related@.len()
    &&& forall|i: int|
        0 <= i < file.related@.len() ==> is_resolved(
            map,
            record.related@[i],
            #[trigger] file.related@[i],
        )
    &&& file.milestone_uuid == match record.milestone {
        Some(m) => uuids::uuid_value(m@),
        None => None,
    }
    &&& file.time_entries@ == record.time_entries@
}

fn known_or(name: &Option<String>) -> (r: String)
    ensures
        r@ == known(text::opt_str(*name)),
{
    match name {
        Some(n) => own(n.as_str()),
        None => own("unknown"),
    }
}

fn convert_comments(rows: &Vec<CommentRow>) -> (r: Vec<CommentEntry>)
    ensures
        r@.len() == rows@.len(),
        forall|i: int| 0 <= i < r@.len() ==> same_comment(rows@[i], #[trigger] r@[i]),
{
    let mut out: Vec<CommentEntry> = Vec::new();
    let mut i: usize = 0;
    while i < rows.len()
        invariant
            i <= rows@.len(),
            out@.len() == i,
            forall|k: int| 0 <= k < i ==> same_comment(rows@[k], #[trigger] out@[k]),
        decreases rows@.len() - i,
    {
        let row = &rows[i];
        let entry = CommentEntry {
            id: row.id,
            author: known_or(&row.author),
            content: own(row.content.as_str()),
            created_at: row.created_at,
            kind: own(row.kind.as_str()),
            trigger_type: clone_opt(&row.trigger_type),
            intervention_context: clone_opt(&row.intervention_context),
        };
        out.push(entry);
        i = i + 1;
    }
    out
}

fn copy_times(entries: &Vec<TimeEntry>) -> (r: Vec<TimeEntry>)
    ensures
        r@ == entries@,
{
    let mut out: Vec<TimeEntry> = Vec::new();
    let mut i: usize = 0;
    while i < entries.len()
        invariant
            i <= entries@.len(),
            out@ == entries@.take(i as int),
        decreases entries@.len() - i,
    {
        out.push(entries[i]);
        assert(entries@.take(i + 1) =~= entries@.take(i as int).push(entries@[i as int]));
        i = i + 1;
    }
    assert(entries@.take(entries@.len() as int) =~= entries@);
    out
}

/// Makes the file of an issue, whose UUID the map must have.
pub fn build_issue_file(record: &IssueRecord, map: &HashMap<i64, u128>) -> (r: Result<
    IssueFile,
    String,
>)
    ensures
        match r {
            Ok(file) => map@.dom().contains(record.issue.id) && is_file_of(file, *record, map@),
            Err(message) => !map@.dom().contains(record.issue.id) && message@ == "issue "@
                + text::dec_int(record.issue.id as int) + " missing from uuid_map"@,
        },
{
    broadcast use group_hash_axioms;

    let uuid = match map.get(&record.issue.id) {
        Some(u) => *u,
        None => {
            let mut message = own("issue ");
            message.append(dec_i64(record.issue.id).as_str());
            message.append(" missing from uuid_map");
            return Err(message);
        },
    };
    let parent_uuid = match &record.parent {
        Some(p) => Some(resolve_uuid(map, p)),
        None => None,
    };
    let milestone_uuid = match &record.milestone {
        Some(m) => parse_uuid(m.as_str()),
        None => None,
    };
    Ok(
        IssueFile {
            uuid,
            display_id: Some(record.issue.id),
            title: own(record.issue.title.as_str()),
            description: clone_opt(&record.issue.description),
            status: own(record.issue.status.as_str()),
            priority: own(record.issue.priority.as_str()),
            parent_uuid,
            created_by: known_or(&record.created_by),
            created_at: record.issue.created_at,
            updated_at: record.issue.updated_at,
            closed_at: record.issue.closed_at,
            labels: clone_strings(&record.labels),
            comments: convert_comments(&record.comments),
            blockers: resolve_all(map, &record.blockers),
            related: resolve_all(map, &record.related),
            milestone_uuid,
            time_entries: copy_times(&record.time_entries),
        },
    )
}

/// Tells how many issues were exported to a file.
pub fn report_exported(issues: usize, path: &str) -> (out: String)
    ensures
        out@ == "Exported "@ + text::dec(issues as nat) + " issues to "@ + path@,
{
    let mut out = own("Exported ");
    out.append(dec_u64(issues as u64).as_str());
    out.append(" issues to ");
    out.append(path);
    out
}

// ---------------------------------------------------------------------------
// Markdown
// ---------------------------------------------------------------------------

/// A comment in Markdown.
pub struct MarkdownComment {
    pub created_at: Moment,
    pub content: String,
}

/// An issue in Markdown. Its number and that of its parent are given as they are shown.
pub struct MarkdownIssue {
    pub number: String,
    pub title: String,
    pub status: String,
    pub priority: String,
    pub parent: Option<String>,
    pub labels: Vec<String>,
    pub created_at: Moment,
    pub description: Option<String>,
    pub comments: Vec<MarkdownComment>,
}

/// The first `n` comments in Markdown.
pub open spec fn with_comments(acc: Seq<char>, comments: Seq<MarkdownComment>, n: nat) -> Seq<char>
    decreases n,
{
    if n == 0 {
        acc
    } else {
        with_comments(acc, comments, (n - 1) as nat) + "- ["@ + comments[n - 1].created_at.shown(
            time::MINUTE@,
        ) + "] "@ + comments[n - 1].content@ + "\n"@
    }
}

/// An issue in Markdown, behind what is there already.
pub open spec fn with_issue(acc: Seq<char>, issue: MarkdownIssue) -> Seq<char> {
    let a = acc + "### "@ + (if issue.status@ == "closed"@ {
        "[x]"@
    } else {
        "[ ]"@
    }) + " "@ + issue.number@ + ": "@ + issue.title@ + "\n\n- **Priority:** "@ + issue.priority@
        + "\n- **Status:** "@ + issue.status@ + "\n"@;
    let b = match issue.parent {
        Some(p) => a + "- **Parent:** "@ + p@ + "\n"@,
        None => a,
    };
    let c = if issue.labels@.len() > 0 {
        b + "- **Labels:** "@ + text::join(text::strs(issue.labels@), ", "@) + "\n"@
    } else {
        b
    };
    let d = c + "- **Created:** "@ + issue.created_at.shown(time::DAY@) + "\n"@;
    let e = match issue.description {
        Some(description) => if description@.len() > 0 {
            d + "\n"@ + description@ + "\n"@
        } else {
            d
        },
        None => d,
    };
    let f = if issue.comments@.len() > 0 {
        with_comments(e + "\n**Comments:**\n"@, issue.comments@, issue.comments@.len())
    } else {
        e
    };
    f + "\n---\n\n"@
}

fn write_issue_md(md: &mut String, issue: &MarkdownIssue)
    ensures
        final(md)@ == with_issue(old(md)@, *issue),
{
    md.append("### ");
    md.append(
        if eq_str(issue.status.as_str(), "closed") {
            "[x]"
        } else {
            "[ ]"
        },
    );
    md.append(" ");
    md.append(issue.number.as_str());
    md.append(": ");
    md.append(issue.title.as_str());
    md.append("\n\n- **Priority:** ");
    md.append(issue.priority.as_str());
    md.append("\n- **Status:** ");
    md.append(issue.status.as_str());
    md.append("\n");
    if let Some(p) = &issue.parent {
        md.append("- **Parent:** ");
        md.append(p.as_str());
        md.append("\n");
    }
    if issue.labels.len() > 0 {
        md.append("- **Labels:** ");
        md.append(join_strs(&issue.labels, ", ").as_str());
        md.append("\n");
    }
    md.append("- **Created:** ");
    md.append(issue.created_at.day().as_str());
    md.append("\n");
    if let Some(description) = &issue.description {
        if !description.as_str().is_empty() {
            md.append("\n");
            md.append(description.as_str());
            md.append("\n");
        }
    }
    if issue.comments.len() > 0 {
        md.append("\n**Comments:**\n");
        let ghost acc = md@;
        let mut i: usize = 0;
        while i < issue.comments.len()
            invariant
                i <= issue.comments@.len(),
                md@ == with_comments(acc, issue.comments@, i as nat),
            decreases issue.comments@.len() - i,
        {
            md.append("- [");
            md.append(issue.comments[i].created_at.minute().as_str());
            md.append("] ");
            md.append(issue.comments[i].content.as_str());
            md.append("\n");
            i = i + 1;
        }
    }
    md.append("\n---\n\n");
}

/// The issues of a status, among the first `n`.
pub open spec fn with_status(
    acc: Seq<char>,
    issues: Seq<MarkdownIssue>,
    status: Seq<char>,
    n: nat,
) -> Seq<char>
    decreases n,
{
    if n == 0 {
        acc
    } else {
        let head = with_status(acc, issues, status, (n - 1) as nat);
        if issues[n - 1].status@ == status {
            with_issue(head, issues[n - 1])
        } else {
            head
        }
    }
}

/// Whether some issue has a status.
pub open spec fn any_status(issues: Seq<MarkdownIssue>, status: Seq<char>) -> bool {
    exists|i: int| 0 <= i < issues.len() && (#[trigger] issues[i]).status@ == status
}

/// The issues of a status under a heading, where there are any.
pub open spec fn with_section(
    acc: Seq<char>,
    issues: Seq<MarkdownIssue>,
    status: Seq<char>,
    heading: Seq<char>,
) -> Seq<char> {
    if any_status(issues, status) {
        with_status(acc + heading, issues, status, issues.len())
    } else {
        acc
    }
}

/// An export in Markdown.
pub open spec fn markdown(issues: Seq<MarkdownIssue>, now: Moment) -> Seq<char> {
    let head = "# Crosslink Issues Export\n\nExported: "@ + now.shown(time::SECOND@)
        + " UTC\n\n"@;
    let open_ones = with_section(head, issues, "open"@, "## Open Issues\n\n"@);
    let closed_ones = with_section(open_ones, issues, "closed"@, "## Closed Issues\n\n"@);
    with_section(closed_ones, issues, "archived"@, "## Archived Issues\n\n"@)
}

fn has_status(issues: &Vec<MarkdownIssue>, status: &str) -> (r: bool)
    ensures
        r == any_status(issues@, status@),
{
    let mut i: usize = 0;
    while i < issues.len()
        invariant
            i <= issues@.len(),
            forall|k: int| 0 <= k < i ==> (#[trigger] issues@[k]).status@ != status@,
        decreases issues@.len() - i,
    {
        if eq_str(issues[i].status.as_str(), status) {
            return true;
        }
        i = i + 1;
    }
    false
}

fn write_section(md: &mut String, issues: &Vec<MarkdownIssue>, status: &str, heading: &str)
    ensures
        final(md)@ == with_section(old(md)@, issues@, status@, heading@),
{
    if !has_status(issues, status) {
        return ;
    }
    md.append(heading);
    let ghost acc = md@;
    let mut i: usize = 0;
    while i < issues.len()
        invariant
            i <= issues@.len(),
            md@ == with_status(acc, issues@, status@, i as nat),
        decreases issues@.len() - i,
    {
        if eq_str(issues[i].status.as_str(), status) {
            write_issue_md(md, &issues[i]);
        }
        i = i + 1;
    }
}

/// Exports issues as Markdown: the open ones, the closed ones and the archived ones.
pub fn run_markdown(issues: &Vec<MarkdownIssue>, now: &Moment) -> (md: String)
    ensures
        md@ == markdown(issues@, *now),
{
    let mut md = own("# Crosslink Issues Export\n\nExported: ");
    md.append(now.second().as_str());
    md.append(" UTC\n\n");
    write_section(&mut md, issues, "open", "## Open Issues\n\n");
    write_section(&mut md, issues, "closed", "## Closed Issues\n\n");
    write_section(&mut md, issues, "archived", "## Archived Issues\n\n");
    md
}

// ---------------------------------------------------------------------------
// What exports hold
// ---------------------------------------------------------------------------

/// An issue that another refers to is known by the UUID of the map, and where the map has none by
/// the stored one; only where neither helps by a fresh one.
pub proof fn law_references_keep_their_uuid(map: Map<i64, u128>, reference: Reference, r: u128)
    requires
        is_resolved(map, reference, r),
    ensures
        map.dom().contains(reference.id) ==> r == map[reference.id],
        !map.dom().contains(reference.id) ==> (reference.stored matches Some(s) ==> (
        uuids::uuid_value(s@) matches Some(u) ==> r == u)),
        !map.dom().contains(reference.id) && (reference.stored is None || uuids::uuid_value(
            reference.stored->0@,
        ) is None) ==> uuids::is_random(r),
{
}

/// The file of an issue is made exactly where the map has a UUID for it. It holds the issue as it
/// is: its texts, its times, its labels and comments, all in their order.
pub proof fn law_issue_files_hold_the_issue(
    record: &IssueRecord,
    map: &HashMap<i64, u128>,
    r: Result<IssueFile, String>,
)
    requires
        call_ensures(build_issue_file, (record, map), r),
    ensures
        r is Ok <==> map@.dom().contains(record.issue.id),
        r matches Ok(file) ==> {
            &&& file.uuid == map@[record.issue.id]
            &&& file.display_id == Some(record.issue.id)
            &&& file.title@ == record.issue.title@
            &&& text::opt_str(file.description) == text::opt_str(record.issue.description)
            &&& file.status@ == record.issue.status@
            &&& file.priority@ == record.issue.priority@
            &&& file.created_at == record.issue.created_at
            &&& file.updated_at == record.issue.updated_at
            &&& file.closed_at == record.issue.closed_at
            &&& text::strs(file.labels@) == text::strs(record.labels@)
            &&& file.time_entries@ == record.time_entries@
            &&& record.created_by matches Some(by) ==> file.created_by@ == by@
            &&& record.created_by is None ==> file.created_by@ == "unknown"@
        },
{
}

/// The file of an issue refers to just the issues that the issue refers to, by their UUIDs.
pub proof fn law_issue_files_keep_the_references(
    record: &IssueRecord,
    map: &HashMap<i64, u128>,
    r: Result<IssueFile, String>,
    k: int,
)
    requires
        call_ensures(build_issue_file, (record, map), r),
        r is Ok,
    ensures
        ({
            let file = r->Ok_0;
            &&& file.parent_uuid is Some <==> record.parent is Some
            &&& record.parent matches Some(p) ==> (map@.dom().contains(p.id) ==> file.parent_uuid
                == Some(map@[p.id]))
            &&& file.blockers@.len() == record.blockers@.len()
            &&& file.related@.len() == record.related@.len()
            &&& 0 <= k < record.blockers@.len() && map@.dom().contains(record.blockers@[k].id)
                ==> file.blockers@[k] == map@[record.blockers@[k].id]
            &&& 0 <= k < record.related@.len() && map@.dom().contains(record.related@[k].id)
                ==> file.related@[k] == map@[record.related@[k].id]
            &&& record.milestone is None ==> file.milestone_uuid is None
            &&& record.milestone matches Some(m) ==> file.milestone_uuid == uuids::uuid_value(m@)
        }),
{
    let file = r->Ok_0;
    if let Some(p) = record.parent {
        law_references_keep_their_uuid(map@, p, file.parent_uuid->0);
    }
    if 0 <= k < record.blockers@.len() {
        assert(is_resolved(map@, record.blockers@[k], file.blockers@[k]));
    }
    if 0 <= k < record.related@.len() {
        assert(is_resolved(map@, record.related@[k], file.related@[k]));
    }
}

/// Every comment is in the file of its issue, as it is.
pub proof fn law_issue_files_keep_the_comments(
    record: &IssueRecord,
    map: &HashMap<i64, u128>,
    r: Result<IssueFile, String>,
    k: int,
)
    requires
        call_ensures(build_issue_file, (record, map), r),
        r is Ok,
        0 <= k < record.comments@.len(),
    ensures
        r->Ok_0.comments@.len() == record.comments@.len(),
        ({
            let entry = r->Ok_0.comments@[k];
            let row = record.comments@[k];
            &&& entry.id == row.id
            &&& entry.content@ == row.content@
            &&& entry.created_at == row.created_at
            &&& entry.kind@ == row.kind@
            &&& text::opt_str(entry.trigger_type) == text::opt_str(row.trigger_type)
            &&& text::opt_str(entry.intervention_context) == text::opt_str(
                row.intervention_context,
            )
            &&& row.author matches Some(a) ==> entry.author@ == a@
            &&& row.author is None ==> entry.author@ == "unknown"@
        }),
{
    assert(same_comment(record.comments@[k], r->Ok_0.comments@[k]));
}

/// How many issues were exported is told, and where to.
pub proof fn law_exports_are_told(issues: usize, path: &str, out: String)
    requires
        call_ensures(report_exported, (issues, path), out),
    ensures
        text::contains(out@, "Exported "@ + text::dec(issues as nat)),
        text::has_suffix(out@, path@),
{
    broadcast use {
        text::lemma_contains_self,
        text::lemma_contains_first,
        text::lemma_suffix_of_sum,
    };

}

proof fn lemma_comments_extend(acc: Seq<char>, comments: Seq<MarkdownComment>, n: nat, p: Seq<char>)
    requires
        text::contains(acc, p),
    ensures
        text::contains(with_comments(acc, comments, n), p),
    decreases n,
{
    broadcast use text::lemma_contains_first;

    if n > 0 {
        lemma_comments_extend(acc, comments, (n - 1) as nat, p);
    }
}

proof fn lemma_comment_shown(acc: Seq<char>, comments: Seq<MarkdownComment>, n: nat, k: int)
    requires
        0 <= k < n <= comments.len(),
    ensures
        text::contains(
            with_comments(acc, comments, n),
            "- ["@ + comments[k].created_at.shown(time::MINUTE@),
        ),
        text::contains(with_comments(acc, comments, n), "] "@ + comments[k].content@ + "\n"@),
    decreases n,
{
    broadcast use {
        text::lemma_contains_first,
        text::lemma_contains_pair,
        text::lemma_contains_triple,
    };

    if k < n - 1 {
        lemma_comment_shown(acc, comments, (n - 1) as nat, k);
    }
}

proof fn lemma_issue_keeps(acc: Seq<char>, issue: MarkdownIssue, p: Seq<char>)
    requires
        text::contains(acc, p),
    ensures
        text::contains(with_issue(acc, issue), p),
{
    broadcast use text::lemma_contains_first;

    let a = acc + "### "@ + (if issue.status@ == "closed"@ {
        "[x]"@
    } else {
        "[ ]"@
    }) + " "@ + issue.number@ + ": "@ + issue.title@ + "\n\n- **Priority:** "@ + issue.priority@
        + "\n- **Status:** "@ + issue.status@ + "\n"@;
    assert(text::contains(a, p));
    lemma_issue_end_keeps(a, issue, p);
}

spec fn issue_end(a: Seq<char>, issue: MarkdownIssue) -> Seq<char> {
    let b = match issue.parent {
        Some(p) => a + "- **Parent:** "@ + p@ + "\n"@,
        None => a,
    };
    let c = if issue.labels@.len() > 0 {
        b + "- **Labels:** "@ + text::join(text::strs(issue.labels@), ", "@) + "\n"@
    } else {
        b
    };
    let d = c + "- **Created:** "@ + issue.created_at.shown(time::DAY@) + "\n"@;
    let e = match issue.description {
        Some(description) => if description@.len() > 0 {
            d + "\n"@ + description@ + "\n"@
        } else {
            d
        },
        None => d,
    };
    let f = if issue.comments@.len() > 0 {
        with_comments(e + "\n**Comments:**\n"@, issue.comments@, issue.comments@.len())
    } else {
        e
    };
    f + "\n---\n\n"@
}

proof fn lemma_issue_end_keeps(a: Seq<char>, issue: MarkdownIssue, p: Seq<char>)
    requires
        text::contains(a, p),
    ensures
        text::contains(issue_end(a, issue), p),
{
    broadcast use text::lemma_contains_first;

    let b = match issue.parent {
        Some(p) => a + "- **Parent:** "@ + p@ + "\n"@,
        None => a,
    };
    assert(text::contains(b, p));
    let c = if issue.labels@.len() > 0 {
        b + "- **Labels:** "@ + text::join(text::strs(issue.labels@), ", "@) + "\n"@
    } else {
        b
    };
    assert(text::contains(c, p));
    let d = c + "- **Created:** "@ + issue.created_at.shown(time::DAY@) + "\n"@;
    assert(text::contains(d, p));
    lemma_issue_last_keeps(d, issue, p);
}

proof fn lemma_issue_last_keeps(d: Seq<char>, issue: MarkdownIssue, p: Seq<char>)
    requires
        text::contains(d, p),
    ensures
        ({
            let e = match issue.description {
                Some(description) => if description@.len() > 0 {
                    d + "\n"@ + description@ + "\n"@
                } else {
                    d
                },
                None => d,
            };
            let f = if issue.comments@.len() > 0 {
                with_comments(e + "\n**Comments:**\n"@, issue.comments@, issue.comments@.len())
            } else {
                e
            };
            text::contains(f + "\n---\n\n"@, p)
        }),
{
    broadcast use text::lemma_contains_first;

    let e = match issue.description {
        Some(description) => if description@.len() > 0 {
            d + "\n"@ + description@ + "\n"@
        } else {
            d
        },
        None => d,
    };
    assert(text::contains(e, p));
    lemma_comments_extend(e + "\n**Comments:**\n"@, issue.comments@, issue.comments@.len(), p);
}

/// An issue is shown with its number and title, a tick where it is closed and none otherwise, its
/// priority and its status.
pub proof fn law_issues_are_shown(acc: Seq<char>, issue: MarkdownIssue)
    ensures
        issue.status@ == "closed"@ ==> text::contains(
            with_issue(acc, issue),
            "### "@ + "[x]"@ + " "@,
        ),
        issue.status@ != "closed"@ ==> text::contains(
            with_issue(acc, issue),
            "### "@ + "[ ]"@ + " "@,
        ),
        text::contains(with_issue(acc, issue), " "@ + issue.number@ + ": "@),
        text::contains(with_issue(acc, issue), ": "@ + issue.title@),
        text::contains(with_issue(acc, issue), "\n\n- **Priority:** "@ + issue.priority@),
        text::contains(with_issue(acc, issue), "\n- **Status:** "@ + issue.status@ + "\n"@),
        text::contains(with_issue(acc, issue), acc),
{
    let tick = if issue.status@ == "closed"@ {
        "[x]"@
    } else {
        "[ ]"@
    };
    let a1 = acc + "### "@ + tick + " "@;
    let a2 = a1 + issue.number@ + ": "@;
    let a3 = a2 + issue.title@ + "\n\n- **Priority:** "@ + issue.priority@;
    let a = a3 + "\n- **Status:** "@ + issue.status@ + "\n"@;
    assert(with_issue(acc, issue) == issue_end(a, issue));
    assert(text::contains(a, "### "@ + tick + " "@) && text::contains(
        a,
        " "@ + issue.number@ + ": "@,
    ) && text::contains(a, ": "@ + issue.title@) && text::contains(
        a,
        "\n\n- **Priority:** "@ + issue.priority@,
    ) && text::contains(a, "\n- **Status:** "@ + issue.status@ + "\n"@) && text::contains(a, acc))
        by {
        broadcast use {
            text::lemma_contains_self,
            text::lemma_contains_first,
            text::lemma_contains_pair,
            text::lemma_contains_triple,
        };

    }
    lemma_issue_end_keeps(a, issue, "### "@ + tick + " "@);
    lemma_issue_end_keeps(a, issue, " "@ + issue.number@ + ": "@);
    lemma_issue_end_keeps(a, issue, ": "@ + issue.title@);
    lemma_issue_end_keeps(a, issue, "\n\n- **Priority:** "@ + issue.priority@);
    lemma_issue_end_keeps(a, issue, "\n- **Status:** "@ + issue.status@ + "\n"@);
    lemma_issue_end_keeps(a, issue, acc);
}

/// An issue is shown with its parent, its labels, the day on which it was made and its description.
pub proof fn law_details_are_shown(acc: Seq<char>, issue: MarkdownIssue, k: int)
    ensures
        issue.parent matches Some(p) ==> text::contains(
            with_issue(acc, issue),
            "- **Parent:** "@ + p@ + "\n"@,
        ),
        0 <= k < issue.labels@.len() ==> text::contains(
            with_issue(acc, issue),
            issue.labels@[k]@,
        ),
        text::contains(
            with_issue(acc, issue),
            "- **Created:** "@ + issue.created_at.shown(time::DAY@) + "\n"@,
        ),
        issue.description matches Some(d) ==> (d@.len() > 0 ==> text::contains(
            with_issue(acc, issue),
            "\n"@ + d@ + "\n"@,
        )),
{
    broadcast use {text::lemma_contains_first, text::lemma_contains_triple};

    let tick = if issue.status@ == "closed"@ {
        "[x]"@
    } else {
        "[ ]"@
    };
    let a = acc + "### "@ + tick + " "@ + issue.number@ + ": "@ + issue.title@
        + "\n\n- **Priority:** "@ + issue.priority@ + "\n- **Status:** "@ + issue.status@ + "\n"@;
    let b = match issue.parent {
        Some(p) => a + "- **Parent:** "@ + p@ + "\n"@,
        None => a,
    };
    let labels = text::join(text::strs(issue.labels@), ", "@);
    let c = if issue.labels@.len() > 0 {
        b + "- **Labels:** "@ + labels + "\n"@
    } else {
        b
    };
    let d = c + "- **Created:** "@ + issue.created_at.shown(time::DAY@) + "\n"@;
    if let Some(p) = issue.parent {
        let told = "- **Parent:** "@ + p@ + "\n"@;
        assert(text::contains(b, told));
        assert(text::contains(c, told));
        assert(text::contains(d, told));
        lemma_issue_last_keeps(d, issue, told);
    }
    if 0 <= k < issue.labels@.len() {
        let told = issue.labels@[k]@;
        assert(text::strs(issue.labels@)[k] == told);
        text::law_joined_text_holds_its_parts(text::strs(issue.labels@), ", "@, k);
        text::lemma_contains_second(b + "- **Labels:** "@, labels, told);
        assert(text::contains(c, told));
        assert(text::contains(d, told));
        lemma_issue_last_keeps(d, issue, told);
    }
    let made = "- **Created:** "@ + issue.created_at.shown(time::DAY@) + "\n"@;
    lemma_issue_last_keeps(d, issue, made);
    if let Some(description) = issue.description {
        if description@.len() > 0 {
            let told = "\n"@ + description@ + "\n"@;
            let e = d + "\n"@ + description@ + "\n"@;
            assert(text::contains(e, told));
            lemma_comments_extend(
                e + "\n**Comments:**\n"@,
                issue.comments@,
                issue.comments@.len(),
                told,
            );
        }
    }
}

/// Every comment of an issue is shown, with when it was made.
pub proof fn law_comments_are_shown(acc: Seq<char>, issue: MarkdownIssue, k: int)
    requires
        0 <= k < issue.comments@.len(),
    ensures
        text::contains(
            with_issue(acc, issue),
            "- ["@ + issue.comments@[k].created_at.shown(time::MINUTE@),
        ),
        text::contains(with_issue(acc, issue), "] "@ + issue.comments@[k].content@ + "\n"@),
{
    let tick = if issue.status@ == "closed"@ {
        "[x]"@
    } else {
        "[ ]"@
    };
    let a = acc + "### "@ + tick + " "@ + issue.number@ + ": "@ + issue.title@
        + "\n\n- **Priority:** "@ + issue.priority@ + "\n- **Status:** "@ + issue.status@ + "\n"@;
    let b = match issue.parent {
        Some(p) => a + "- **Parent:** "@ + p@ + "\n"@,
        None => a,
    };
    let c = if issue.labels@.len() > 0 {
        b + "- **Labels:** "@ + text::join(text::strs(issue.labels@), ", "@) + "\n"@
    } else {
        b
    };
    let d = c + "- **Created:** "@ + issue.created_at.shown(time::DAY@) + "\n"@;
    let e = match issue.description {
        Some(description) => if description@.len() > 0 {
            d + "\n"@ + description@ + "\n"@
        } else {
            d
        },
        None => d,
    };
    let head = e + "\n**Comments:**\n"@;
    let f = with_comments(head, issue.comments@, issue.comments@.len());
    lemma_comment_shown(head, issue.comments@, issue.comments@.len(), k);
    assert(with_issue(acc, issue) == f + "\n---\n\n"@);
    text::lemma_contains_first(
        f,
        "\n---\n\n"@,
        "- ["@ + issue.comments@[k].created_at.shown(time::MINUTE@),
    );
    text::lemma_contains_first(f, "\n---\n\n"@, "] "@ + issue.comments@[k].content@ + "\n"@);
}

proof fn lemma_status_keeps(
    acc: Seq<char>,
    issues: Seq<MarkdownIssue>,
    status: Seq<char>,
    n: nat,
    p: Seq<char>,
)
    requires
        text::contains(acc, p),
    ensures
        text::contains(with_status(acc, issues, status, n), p),
    decreases n,
{
    if n > 0 {
        lemma_status_keeps(acc, issues, status, (n - 1) as nat, p);
        lemma_issue_keeps(with_status(acc, issues, status, (n - 1) as nat), issues[n - 1], p);
    }
}

proof fn lemma_section_keeps(
    acc: Seq<char>,
    issues: Seq<MarkdownIssue>,
    status: Seq<char>,
    heading: Seq<char>,
    p: Seq<char>,
)
    requires
        text::contains(acc, p),
    ensures
        text::contains(with_section(acc, issues, status, heading), p),
{
    text::lemma_contains_first(acc, heading, p);
    lemma_status_keeps(acc + heading, issues, status, issues.len(), p);
}

proof fn lemma_status_shows(
    acc: Seq<char>,
    issues: Seq<MarkdownIssue>,
    status: Seq<char>,
    n: nat,
    k: int,
)
    requires
        0 <= k < n <= issues.len(),
        issues[k].status@ == status,
    ensures
        text::contains(with_status(acc, issues, status, n), ": "@ + issues[k].title@),
    decreases n,
{
    let head = with_status(acc, issues, status, (n - 1) as nat);
    if k == n - 1 {
        law_issues_are_shown(head, issues[k]);
    } else {
        lemma_status_shows(acc, issues, status, (n - 1) as nat, k);
        lemma_issue_keeps(head, issues[n - 1], ": "@ + issues[k].title@);
    }
}

/// An export shows every issue that is open, closed or archived, below the heading of its status,
/// and when it was made.
pub proof fn law_every_issue_is_exported(issues: Seq<MarkdownIssue>, now: Moment, k: int)
    requires
        0 <= k < issues.len(),
    ensures
        text::contains(
            markdown(issues, now),
            "# Crosslink Issues Export\n\nExported: "@ + now.shown(time::SECOND@),
        ),
        issues[k].status@ == "open"@ || issues[k].status@ == "closed"@ || issues[k].status@
            == "archived"@ ==> text::contains(markdown(issues, now), ": "@ + issues[k].title@),
        issues[k].status@ == "open"@ ==> text::contains(
            markdown(issues, now),
            "## Open Issues\n\n"@,
        ),
        issues[k].status@ == "closed"@ ==> text::contains(
            markdown(issues, now),
            "## Closed Issues\n\n"@,
        ),
        issues[k].status@ == "archived"@ ==> text::contains(
            markdown(issues, now),
            "## Archived Issues\n\n"@,
        ),
{
    let opening = "# Crosslink Issues Export\n\nExported: "@ + now.shown(time::SECOND@);
    let head = opening + " UTC\n\n"@;
    text::lemma_contains_self(opening);
    text::lemma_contains_first(opening, " UTC\n\n"@, opening);
    let a = with_section(head, issues, "open"@, "## Open Issues\n\n"@);
    let b = with_section(a, issues, "closed"@, "## Closed Issues\n\n"@);
    lemma_section_keeps(head, issues, "open"@, "## Open Issues\n\n"@, opening);
    lemma_section_keeps(a, issues, "closed"@, "## Closed Issues\n\n"@, opening);
    lemma_section_keeps(b, issues, "archived"@, "## Archived Issues\n\n"@, opening);
    let title = ": "@ + issues[k].title@;
    if issues[k].status@ == "open"@ {
        lemma_section_shows(head, issues, "open"@, "## Open Issues\n\n"@, k);
        lemma_section_keeps(a, issues, "closed"@, "## Closed Issues\n\n"@, title);
        lemma_section_keeps(b, issues, "archived"@, "## Archived Issues\n\n"@, title);
        lemma_section_keeps(a, issues, "closed"@, "## Closed Issues\n\n"@, "## Open Issues\n\n"@);
        lemma_section_keeps(
            b,
            issues,
            "archived"@,
            "## Archived Issues\n\n"@,
            "## Open Issues\n\n"@,
        );
    }
    if issues[k].status@ == "closed"@ {
        lemma_section_shows(a, issues, "closed"@, "## Closed Issues\n\n"@, k);
        lemma_section_keeps(b, issues, "archived"@, "## Archived Issues\n\n"@, title);
        lemma_section_keeps(
            b,
            issues,
            "archived"@,
            "## Archived Issues\n\n"@,
            "## Closed Issues\n\n"@,
        );
    }
    if issues[k].status@ == "archived"@ {
        lemma_section_shows(b, issues, "archived"@, "## Archived Issues\n\n"@, k);
    }
}

proof fn lemma_section_shows(
    acc: Seq<char>,
    issues: Seq<MarkdownIssue>,
    status: Seq<char>,
    heading: Seq<char>,
    k: int,
)
    requires
        0 <= k < issues.len(),
        issues[k].status@ == status,
    ensures
        text::contains(with_section(acc, issues, status, heading), heading),
        text::contains(with_section(acc, issues, status, heading), ": "@ + issues[k].title@),
{
    text::lemma_contains_self(heading);
    text::lemma_contains_second(acc, heading, heading);
    lemma_status_keeps(acc + heading, issues, status, issues.len(), heading);
    lemma_status_shows(acc + heading, issues, status, issues.len(), k);
}

} // verus!
