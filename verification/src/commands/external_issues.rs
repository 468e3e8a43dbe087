//! Issues of other repositories: listing, searching and showing them.

use crate::commands::external_knowledge;
use crate::commands::external_knowledge::{print_list, start};
use crate::json;
use crate::json::write_list;
use crate::json_object;
use crate::json_object::{make_value, parse_object, print_object, put_value, Json, Parts};
use crate::text;
use crate::text::{
    chars_of, contains_str, dec_u64, eq_str, join_strs, lines_of, own, pad_str, string_of, to_lower,
};
use crate::time;
use crate::time::Moment;
use vstd::prelude::*;

verus! {

/// A comment on an issue.
#[derive(Debug, Clone, PartialEq)]
pub struct ExternalComment {
    pub created_at: Moment,
    pub kind: String,
    pub content: String,
    pub trigger_type: Option<String>,
    pub intervention_context: Option<String>,
}

/// An issue of another repository. Its number, status and priority are given as they
/// are shown.
#[derive(Debug, Clone, PartialEq)]
pub struct ExternalIssue {
    pub number: Option<String>,
    pub title: String,
    pub status: String,
    pub is_closed: bool,
    pub priority: String,
    pub created_by: String,
    pub created_at: Moment,
    pub updated_at: Moment,
    pub closed_at: Option<Moment>,
    pub labels: Vec<String>,
    pub description: Option<String>,
    pub comments: Vec<ExternalComment>,
    pub blockers: Vec<String>,
}

/// The number of an issue, or a question mark.
pub open spec fn number_of(issue: ExternalIssue) -> Seq<char> {
    match issue.number {
        Some(n) => n@,
        None => "?"@,
    }
}

fn show_number(issue: &ExternalIssue) -> (r: String)
    ensures
        r@ == number_of(*issue),
{
    match &issue.number {
        Some(n) => own(n.as_str()),
        None => own("?"),
    }
}

// ---------------------------------------------------------------------------
// Listing
// ---------------------------------------------------------------------------

/// An issue in the columns of the list. The title is given as it fits in its column.
pub open spec fn issue_row(issue: ExternalIssue, title: Seq<char>) -> Seq<char> {
    text::pad(number_of(issue), 5) + " "@ + text::pad("["@ + issue.status@ + "]"@, 8) + " "@
        + text::pad(title, 40) + " "@ + text::pad(issue.priority@, 8) + " "@ + issue.created_at.shown(
        time::DAY@,
    ) + "\n"@
}

/// The rows of the first `n` issues.
pub open spec fn with_issue_rows(
    acc: Seq<char>,
    issues: Seq<ExternalIssue>,
    titles: Seq<String>,
    n: nat,
) -> Seq<char>
    decreases n,
{
    if n == 0 {
        acc
    } else {
        with_issue_rows(acc, issues, titles, (n - 1) as nat) + issue_row(
            issues[n - 1],
            titles[n - 1]@,
        )
    }
}

/// What a list prints.
pub open spec fn list_text(
    label: Seq<char>,
    issues: Seq<ExternalIssue>,
    titles: Seq<String>,
    quiet: bool,
) -> Seq<char> {
    if quiet {
        with_issue_rows(""@, issues, titles, issues.len())
    } else if issues.len() == 0 {
        external_knowledge::heading(label) + "No issues found.\n"@ + external_knowledge::closing()
    } else {
        with_issue_rows(external_knowledge::heading(label), issues, titles, issues.len())
            + external_knowledge::closing()
    }
}

fn write_row(issue: &ExternalIssue, title: &str) -> (r: String)
    ensures
        r@ == issue_row(*issue, title@),
{
    let mut status = own("[");
    status.append(issue.status.as_str());
    status.append("]");
    let mut row = pad_str(show_number(issue).as_str(), 5);
    row.append(" ");
    row.append(pad_str(status.as_str(), 8).as_str());
    row.append(" ");
    row.append(pad_str(title, 40).as_str());
    row.append(" ");
    row.append(pad_str(issue.priority.as_str(), 8).as_str());
    row.append(" ");
    row.append(issue.created_at.day().as_str());
    row.append("\n");
    row
}

/// `crosslink issue list --repo`. Of each issue the title is given as it fits in its
/// column.
pub fn list(label: &str, issues: &Vec<ExternalIssue>, titles: &Vec<String>, quiet: bool) -> (out: String)
    requires
        titles@.len() == issues@.len(),
    ensures
        out@ == list_text(label@, issues@, titles@, quiet),
{
    let mut out = if quiet {
        own("")
    } else {
        start(label)
    };
    if issues.len() == 0 && !quiet {
        out.append("No issues found.\n");
    }
    let ghost acc = out@;
    let mut i: usize = 0;
    while i < issues.len()
        invariant
            i <= issues@.len(),
            titles@.len() == issues@.len(),
            out@ == with_issue_rows(acc, issues@, titles@, i as nat),
        decreases issues@.len() - i,
    {
        out.append(write_row(&issues[i], titles[i].as_str()).as_str());
        i = i + 1;
    }
    if !quiet {
        out.append("\n--- End external results ---\n");
    }
    out
}

// ---------------------------------------------------------------------------
// Searching
// ---------------------------------------------------------------------------

/// A text on one line.
pub open spec fn on_one_line(s: Seq<char>) -> Seq<char> {
    Seq::new(s.len(), |i: int| if s[i] == '\n' { ' ' } else { s[i] })
}

/// The beginning of a description: sixty characters on one line, with dots where there
/// are more.
pub open spec fn preview(description: Seq<char>) -> Seq<char> {
    if description.len() > 60 {
        on_one_line(description.take(60)) + "..."@
    } else {
        on_one_line(description) + ""@
    }
}

/// Makes the beginning of a description.
pub fn preview_of(description: &str) -> (r: String)
    ensures
        r@ == preview(description@),
{
    let cs = chars_of(description);
    let n: usize = if cs.len() > 60 {
        60
    } else {
        cs.len()
    };
    let mut out: Vec<char> = Vec::new();
    let mut i: usize = 0;
    let ghost whole = on_one_line(description@.take(n as int));
    while i < n
        invariant
            i <= n <= cs@.len(),
            cs@ == description@,
            whole == on_one_line(description@.take(n as int)),
            out@ == whole.take(i as int),
        decreases n - i,
    {
        let c: char = cs[i];
        out.push(
            if c == '\n' {
                ' '
            } else {
                c
            },
        );
        i = i + 1;
        assert(whole.take(i as int) =~= whole.take(i - 1).push(whole[i - 1]));
    }
    assert(whole.take(whole.len() as int) =~= whole);
    assert(description@.take(description@.len() as int) =~= description@);
    let mut r = string_of(out.as_slice());
    r.append(
        if cs.len() > 60 {
            "..."
        } else {
            ""
        },
    );
    r
}

/// An issue that a search has found, with the beginning of its description where that
/// holds the query, whatever the case.
pub open spec fn hit_text(issue: ExternalIssue, query: Seq<char>) -> Seq<char> {
    let row = text::pad(number_of(issue), 5) + " ["@ + (if issue.is_closed {
        "✓"@
    } else {
        " "@
    }) + "] "@ + text::pad(issue.priority@, 8) + " "@ + issue.title@ + " "@ + (if issue.is_closed {
        "(closed)"@
    } else {
        ""@
    }) + "\n"@;
    match issue.description {
        Some(d) => if text::contains(text::lower(d@), text::lower(query)) {
            row + "      └─ "@ + preview(d@) + "\n"@
        } else {
            row
        },
        None => row,
    }
}

/// The first `n` issues that a search has found.
pub open spec fn with_hits(acc: Seq<char>, issues: Seq<ExternalIssue>, query: Seq<char>, n: nat) -> Seq<
    char,
>
    decreases n,
{
    if n == 0 {
        acc
    } else {
        with_hits(acc, issues, query, (n - 1) as nat) + hit_text(issues[n - 1], query)
    }
}

/// What a search prints.
pub open spec fn search_text(
    label: Seq<char>,
    query: Seq<char>,
    results: Seq<ExternalIssue>,
    quiet: bool,
) -> Seq<char> {
    if quiet {
        with_hits(""@, results, query, results.len())
    } else if results.len() == 0 {
        external_knowledge::heading(label) + "No issues found matching '"@ + query + "'\n"@
            + external_knowledge::closing()
    } else {
        with_hits(
            external_knowledge::heading(label) + "Found "@ + text::dec(results.len())
                + " issue(s) matching '"@ + query + "':\n\n"@,
            results,
            query,
            results.len(),
        ) + external_knowledge::closing()
    }
}

fn write_hit(issue: &ExternalIssue, query: &str) -> (r: String)
    ensures
        r@ == hit_text(*issue, query@),
{
    let mut out = pad_str(show_number(issue).as_str(), 5);
    out.append(" [");
    out.append(
        if issue.is_closed {
            "✓"
        } else {
            " "
        },
    );
    out.append("] ");
    out.append(pad_str(issue.priority.as_str(), 8).as_str());
    out.append(" ");
    out.append(issue.title.as_str());
    out.append(" ");
    out.append(
        if issue.is_closed {
            "(closed)"
        } else {
            ""
        },
    );
    out.append("\n");
    if let Some(d) = &issue.description {
        if contains_str(to_lower(d.as_str()).as_str(), to_lower(query).as_str()) {
            out.append("      └─ ");
            out.append(preview_of(d.as_str()).as_str());
            out.append("\n");
        }
    }
    out
}

/// `crosslink issue search --repo`.
pub fn search(label: &str, query: &str, results: &Vec<ExternalIssue>, quiet: bool) -> (out: String)
    ensures
        out@ == search_text(label@, query@, results@, quiet),
{
    let mut out = if quiet {
        own("")
    } else {
        start(label)
    };
    if !quiet {
        if results.len() == 0 {
            out.append("No issues found matching '");
            out.append(query);
            out.append("'\n");
        } else {
            out.append("Found ");
            out.append(dec_u64(results.len() as u64).as_str());
            out.append(" issue(s) matching '");
            out.append(query);
            out.append("':\n\n");
        }
    }
    let ghost acc = out@;
    let mut i: usize = 0;
    while i < results.len()
        invariant
            i <= results@.len(),
            out@ == with_hits(acc, results@, query@, i as nat),
        decreases results@.len() - i,
    {
        out.append(write_hit(&results[i], query).as_str());
        i = i + 1;
    }
    if !quiet {
        out.append("\n--- End external results ---\n");
    }
    out
}

// ---------------------------------------------------------------------------
// Showing
// ---------------------------------------------------------------------------

/// The first `n` lines of a description, indented.
pub open spec fn with_indented(acc: Seq<char>, lines: Seq<Seq<char>>, n: nat) -> Seq<char>
    decreases n,
{
    if n == 0 {
        acc
    } else {
        with_indented(acc, lines, (n - 1) as nat) + "  "@ + lines[n - 1] + "\n"@
    }
}

/// What triggered a comment, where something did.
pub open spec fn trigger_text(c: ExternalComment) -> Seq<char> {
    match c.trigger_type {
        Some(trigger) => match c.intervention_context {
            Some(context) => " (trigger: "@ + trigger@ + ", context: "@ + context@ + ")"@,
            None => " (trigger: "@ + trigger@ + ")"@,
        },
        None => ""@,
    }
}

/// A comment. Only a plain note does not name its kind.
pub open spec fn comment_text(c: ExternalComment) -> Seq<char> {
    "  ["@ + c.created_at.shown(time::MINUTE@) + "] "@ + (if c.kind@ == "note"@ {
        ""@
    } else {
        "["@ + c.kind@ + "] "@
    }) + c.content@ + trigger_text(c) + "\n"@
}

/// The first `n` comments.
pub open spec fn with_comments(acc: Seq<char>, comments: Seq<ExternalComment>, n: nat) -> Seq<char>
    decreases n,
{
    if n == 0 {
        acc
    } else {
        with_comments(acc, comments, (n - 1) as nat) + comment_text(comments[n - 1])
    }
}

/// What is printed of an issue, behind what is printed already.
pub open spec fn issue_text(acc: Seq<char>, issue: ExternalIssue) -> Seq<char> {
    let a = acc + "Issue "@ + number_of(issue) + ": "@ + issue.title@ + "\nStatus: "@ + issue.status@
        + "\nPriority: "@ + issue.priority@ + "\nCreated: "@ + issue.created_at.shown(time::SECOND@)
        + " by "@ + issue.created_by@ + "\nUpdated: "@ + issue.updated_at.shown(time::SECOND@)
        + "\n"@;
    let b = match issue.closed_at {
        Some(when) => a + "Closed: "@ + when.shown(time::SECOND@) + "\n"@,
        None => a,
    };
    let c = if issue.labels@.len() > 0 {
        b + "Labels: "@ + text::join(text::strs(issue.labels@), ", "@) + "\n"@
    } else {
        b
    };
    let d = match issue.description {
        Some(description) => if description@.len() > 0 {
            with_indented(
                c + "\nDescription:\n"@,
                text::lines(description@),
                text::lines(description@).len(),
            )
        } else {
            c
        },
        None => c,
    };
    let e = if issue.comments@.len() > 0 {
        with_comments(d + "\nComments:\n"@, issue.comments@, issue.comments@.len())
    } else {
        d
    };
    if issue.blockers@.len() > 0 {
        e + "\nBlocked by: "@ + text::join(text::strs(issue.blockers@), ", "@) + "\n"@
    } else {
        e
    }
}

fn write_trigger(c: &ExternalComment) -> (r: String)
    ensures
        r@ == trigger_text(*c),
{
    match &c.trigger_type {
        Some(trigger) => {
            let mut out = own(" (trigger: ");
            out.append(trigger.as_str());
            if let Some(context) = &c.intervention_context {
                out.append(", context: ");
                out.append(context.as_str());
            }
            out.append(")");
            out
        },
        None => own(""),
    }
}

fn write_comment(c: &ExternalComment) -> (r: String)
    ensures
        r@ == comment_text(*c),
{
    let mut out = own("  [");
    out.append(c.created_at.minute().as_str());
    out.append("] ");
    let mut kind = own("");
    if !eq_str(c.kind.as_str(), "note") {
        kind = own("[");
        kind.append(c.kind.as_str());
        kind.append("] ");
    }
    out.append(kind.as_str());
    out.append(c.content.as_str());
    out.append(write_trigger(c).as_str());
    out.append("\n");
    out
}

fn push_description(out: &mut String, description: &str)
    ensures
        final(out)@ == with_indented(
            old(out)@ + "\nDescription:\n"@,
            text::lines(description@),
            text::lines(description@).len(),
        ),
{
    out.append("\nDescription:\n");
    let ghost acc = out@;
    let lines = lines_of(description);
    let ghost views = text::lines(description@);
    assert(views.len() == lines@.len());
    let mut i: usize = 0;
    while i < lines.len()
        invariant
            i <= lines@.len(),
            views == text::strs(lines@),
            out@ == with_indented(acc, views, i as nat),
        decreases lines@.len() - i,
    {
        assert(views[i as int] == lines@[i as int]@);
        out.append("  ");
        out.append(lines[i].as_str());
        out.append("\n");
        i = i + 1;
    }
}

fn push_comments(out: &mut String, comments: &Vec<ExternalComment>)
    ensures
        final(out)@ == with_comments(old(out)@ + "\nComments:\n"@, comments@, comments@.len()),
{
    out.append("\nComments:\n");
    let ghost acc = out@;
    let mut i: usize = 0;
    while i < comments.len()
        invariant
            i <= comments@.len(),
            out@ == with_comments(acc, comments@, i as nat),
        decreases comments@.len() - i,
    {
        out.append(write_comment(&comments[i]).as_str());
        i = i + 1;
    }
}

fn push_issue(out: &mut String, issue: &ExternalIssue)
    ensures
        final(out)@ == issue_text(old(out)@, *issue),
{
    out.append("Issue ");
    out.append(show_number(issue).as_str());
    out.append(": ");
    out.append(issue.title.as_str());
    out.append("\nStatus: ");
    out.append(issue.status.as_str());
    out.append("\nPriority: ");
    out.append(issue.priority.as_str());
    out.append("\nCreated: ");
    out.append(issue.created_at.second().as_str());
    out.append(" by ");
    out.append(issue.created_by.as_str());
    out.append("\nUpdated: ");
    out.append(issue.updated_at.second().as_str());
    out.append("\n");
    if let Some(when) = &issue.closed_at {
        out.append("Closed: ");
        out.append(when.second().as_str());
        out.append("\n");
    }
    if issue.labels.len() > 0 {
        out.append("Labels: ");
        out.append(join_strs(&issue.labels, ", ").as_str());
        out.append("\n");
    }
    if let Some(description) = &issue.description {
        if !description.as_str().is_empty() {
            push_description(out, description.as_str());
        }
    }
    if issue.comments.len() > 0 {
        push_comments(out, &issue.comments);
    }
    if issue.blockers.len() > 0 {
        out.append("\nBlocked by: ");
        out.append(join_strs(&issue.blockers, ", ").as_str());
        out.append("\n");
    }
}

fn not_found(label: &str, number: &str) -> (r: String)
    ensures
        r@ == "Issue "@ + number@ + " not found in "@ + label@,
{
    let mut message = own("Issue ");
    message.append(number);
    message.append(" not found in ");
    message.append(label);
    message
}

/// `crosslink issue show --repo`. The issue is the one of the number, where there is
/// one.
pub fn show(label: &str, number: &str, issue: Option<&ExternalIssue>, quiet: bool) -> (r: Result<
    String,
    String,
>)
    ensures
        match r {
            Ok(out) => issue is Some && out@ == (if quiet {
                issue_text(""@, *issue->0)
            } else {
                issue_text(external_knowledge::heading(label@), *issue->0)
                    + external_knowledge::closing()
            }),
            Err(message) => issue is None && message@ == "Issue "@ + number@ + " not found in "@
                + label@,
        },
{
    let found = match issue {
        Some(found) => found,
        None => {
            return Err(not_found(label, number));
        },
    };
    let mut out = if quiet {
        own("")
    } else {
        start(label)
    };
    push_issue(&mut out, found);
    if !quiet {
        out.append("\n--- End external results ---\n");
    }
    Ok(out)
}

// ---------------------------------------------------------------------------
// JSON
// ---------------------------------------------------------------------------

/// The JSON object of an issue, with the repository that it comes from. What is no
/// object stays as it is.
pub open spec fn with_source(document: Seq<char>, source: Seq<char>) -> Seq<char> {
    match json_object::json_object(document) {
        Some(issue) => json_object::json_object_text(issue.insert("source"@, Json::Text(source))),
        None => document,
    }
}

/// The JSON objects of some issues, each with its source.
pub open spec fn all_with_source(issues: Seq<Seq<char>>, source: Seq<char>) -> Seq<Seq<char>> {
    Seq::new(issues.len(), |i: int| with_source(issues[i], source))
}

/// Puts the source into the JSON object of an issue.
pub fn add_source(document: &str, source: &str) -> (r: String)
    ensures
        r@ == with_source(document@, source@),
{
    match parse_object(document) {
        Ok(Some(issue)) => {
            let mut issue = issue;
            put_value(&mut issue, "source", make_value(Parts::Text(own(source))));
            print_object(issue)
        },
        _ => own(document),
    }
}

/// What `--json` prints of a list or a search. The issues are given as JSON.
pub fn print_issues_json(issues: &Vec<String>, source: &str) -> (out: String)
    ensures
        out@ == external_knowledge::printed_list(
            json::list_of(all_with_source(text::strs(issues@), source@)),
        ),
{
    let ghost all = all_with_source(text::strs(issues@), source@);
    let mut items: Vec<String> = Vec::new();
    let mut i: usize = 0;
    while i < issues.len()
        invariant
            i <= issues@.len(),
            all == all_with_source(text::strs(issues@), source@),
            text::strs(items@) == all.take(i as int),
        decreases issues@.len() - i,
    {
        let one = add_source(issues[i].as_str(), source);
        let ghost before = items@;
        items.push(one);
        proof {
            text::lemma_strs_push(before, one);
            assert(all.take(i + 1) =~= all.take(i as int).push(one@));
        }
        i = i + 1;
    }
    assert(all.take(all.len() as int) =~= all);
    print_list(write_list(&items).as_str())
}

/// `crosslink issue show --repo --json`. The issue is given as JSON, where there is one
/// of the number.
pub fn show_json(label: &str, number: &str, issue: Option<&str>) -> (r: Result<String, String>)
    ensures
        match r {
            Ok(out) => issue is Some && out@ == with_source(issue->0@, label@) + "\n"@,
            Err(message) => issue is None && message@ == "Issue "@ + number@ + " not found in "@
                + label@,
        },
{
    match issue {
        Some(document) => {
            let mut out = add_source(document, label);
            out.append("\n");
            Ok(out)
        },
        None => Err(not_found(label, number)),
    }
}

// ---------------------------------------------------------------------------
// What is shown of issues
// ---------------------------------------------------------------------------

/// The row of an issue shows its number, or a question mark, its status in brackets, the title that
/// fits, its priority and the day on which it was made.
pub proof fn law_rows_show_the_issue(issue: ExternalIssue, title: Seq<char>)
    ensures
        issue.number matches Some(n) ==> text::contains(issue_row(issue, title), n@),
        issue.number is None ==> text::contains(issue_row(issue, title), "?"@),
        text::contains(issue_row(issue, title), "["@ + issue.status@ + "]"@),
        text::contains(issue_row(issue, title), title),
        text::contains(issue_row(issue, title), issue.priority@),
        text::has_suffix(
            issue_row(issue, title),
            issue.created_at.shown(time::DAY@) + "\n"@,
        ),
{
    broadcast use {
        text::lemma_contains_self,
        text::lemma_contains_first,
        text::lemma_contains_second,
        text::lemma_suffix_of_pair,
    };

}

proof fn lemma_rows_keep(
    acc: Seq<char>,
    issues: Seq<ExternalIssue>,
    titles: Seq<String>,
    n: nat,
    p: Seq<char>,
)
    requires
        text::contains(acc, p),
    ensures
        text::contains(with_issue_rows(acc, issues, titles, n), p),
    decreases n,
{
    broadcast use text::lemma_contains_first;

    if n > 0 {
        lemma_rows_keep(acc, issues, titles, (n - 1) as nat, p);
    }
}

proof fn lemma_row_listed(
    acc: Seq<char>,
    issues: Seq<ExternalIssue>,
    titles: Seq<String>,
    n: nat,
    k: int,
)
    requires
        0 <= k < n,
    ensures
        text::contains(
            with_issue_rows(acc, issues, titles, n),
            issue_row(issues[k], titles[k]@),
        ),
    decreases n,
{
    broadcast use {
        text::lemma_contains_self,
        text::lemma_contains_first,
        text::lemma_contains_second,
    };

    if k < n - 1 {
        lemma_row_listed(acc, issues, titles, (n - 1) as nat, k);
    }
}

/// Every issue has its row in the list, quiet or not. The list names its repository, and says so
/// where there is nothing, unless it is quiet.
pub proof fn law_every_issue_is_listed(
    label: Seq<char>,
    issues: Seq<ExternalIssue>,
    titles: Seq<String>,
    quiet: bool,
    k: int,
)
    ensures
        0 <= k < issues.len() ==> text::contains(
            list_text(label, issues, titles, quiet),
            issue_row(issues[k], titles[k]@),
        ),
        !quiet ==> text::contains(
            list_text(label, issues, titles, quiet),
            external_knowledge::heading(label),
        ),
        !quiet && issues.len() == 0 ==> text::contains(
            list_text(label, issues, titles, quiet),
            "No issues found.\n"@,
        ),
        quiet && issues.len() == 0 ==> list_text(label, issues, titles, quiet) == ""@,
{
    broadcast use {
        text::lemma_contains_self,
        text::lemma_contains_first,
        text::lemma_contains_second,
    };

    let head = external_knowledge::heading(label);
    lemma_rows_keep(head, issues, titles, issues.len(), head);
    if 0 <= k < issues.len() {
        lemma_row_listed(""@, issues, titles, issues.len(), k);
        lemma_row_listed(head, issues, titles, issues.len(), k);
    }
}

/// A preview is on one line and the beginning of the description: all of it where it is short, else
/// sixty characters and dots.
pub proof fn law_previews_begin_the_description(description: Seq<char>)
    ensures
        !preview(description).contains('\n'),
        description.len() <= 60 ==> preview(description).len() == description.len(),
        description.len() > 60 ==> preview(description).len() == 63 && text::has_suffix(
            preview(description),
            "..."@,
        ),
        forall|i: int|
            0 <= i < description.len() && i < 60 && description[i] != '\n' ==> preview(
                description,
            )[i] == #[trigger] description[i],
        forall|i: int|
            0 <= i < description.len() && i < 60 && #[trigger] description[i] == '\n' ==> preview(
                description,
            )[i] == ' ',
{
    reveal_strlit("...");
    reveal_strlit("");
    let p = preview(description);
    assert forall|i: int| 0 <= i < p.len() implies p[i] != '\n' by {}
    if description.len() > 60 {
        text::lemma_suffix_of_sum(on_one_line(description.take(60)), "..."@);
    }
}

/// What a search has found is shown with its number, its title and a tick where it is closed. Its
/// description is looked into only where that holds the query.
pub proof fn law_hits_show_the_issue(issue: ExternalIssue, query: Seq<char>)
    ensures
        text::contains(hit_text(issue, query), number_of(issue)),
        issue.is_closed ==> text::contains(hit_text(issue, query), " ["@ + "✓"@ + "] "@),
        !issue.is_closed ==> text::contains(hit_text(issue, query), " ["@ + " "@ + "] "@),
        text::contains(hit_text(issue, query), issue.priority@),
        text::contains(hit_text(issue, query), " "@ + issue.title@ + " "@),
        issue.is_closed ==> text::contains(hit_text(issue, query), " "@ + "(closed)"@ + "\n"@),
        !issue.is_closed ==> text::contains(hit_text(issue, query), " "@ + ""@ + "\n"@),
        issue.description matches Some(d) ==> (text::contains(text::lower(d@), text::lower(query))
            ==> text::has_suffix(hit_text(issue, query), preview(d@) + "\n"@)),
{
    broadcast use {
        text::lemma_contains_self,
        text::lemma_contains_first,
        text::lemma_contains_second,
        text::lemma_contains_triple,
        text::lemma_suffix_of_pair,
    };

    let tick = if issue.is_closed {
        "✓"@
    } else {
        " "@
    };
    let end = if issue.is_closed {
        "(closed)"@
    } else {
        ""@
    };
    let a = text::pad(number_of(issue), 5) + " ["@ + tick + "] "@;
    let b = a + text::pad(issue.priority@, 8) + " "@ + issue.title@ + " "@;
    let row = b + end + "\n"@;
    assert(text::contains(a, " ["@ + tick + "] "@));
    assert(text::contains(b, " ["@ + tick + "] "@));
    assert(text::contains(row, " ["@ + tick + "] "@));
    assert(text::contains(row, " "@ + issue.title@ + " "@));
    assert(text::contains(row, " "@ + end + "\n"@)) by {
        text::lemma_contains_triple(
            a + text::pad(issue.priority@, 8) + " "@ + issue.title@,
            " "@,
            end,
            "\n"@,
        );
    }
}

proof fn lemma_hits_keep(
    acc: Seq<char>,
    issues: Seq<ExternalIssue>,
    query: Seq<char>,
    n: nat,
    p: Seq<char>,
)
    requires
        text::contains(acc, p),
    ensures
        text::contains(with_hits(acc, issues, query, n), p),
    decreases n,
{
    broadcast use text::lemma_contains_first;

    if n > 0 {
        lemma_hits_keep(acc, issues, query, (n - 1) as nat, p);
    }
}

proof fn lemma_hit_listed(
    acc: Seq<char>,
    issues: Seq<ExternalIssue>,
    query: Seq<char>,
    n: nat,
    k: int,
)
    requires
        0 <= k < n,
    ensures
        text::contains(with_hits(acc, issues, query, n), hit_text(issues[k], query)),
    decreases n,
{
    broadcast use {
        text::lemma_contains_self,
        text::lemma_contains_first,
        text::lemma_contains_second,
    };

    if k < n - 1 {
        lemma_hit_listed(acc, issues, query, (n - 1) as nat, k);
    }
}

/// Every issue that was found is shown, and, unless the search is quiet, how many there are and what
/// was searched for.
pub proof fn law_every_hit_is_shown(
    label: Seq<char>,
    query: Seq<char>,
    results: Seq<ExternalIssue>,
    quiet: bool,
    k: int,
)
    ensures
        0 <= k < results.len() ==> text::contains(
            search_text(label, query, results, quiet),
            hit_text(results[k], query),
        ),
        !quiet ==> text::contains(
            search_text(label, query, results, quiet),
            external_knowledge::heading(label),
        ),
        !quiet && results.len() > 0 ==> text::contains(
            search_text(label, query, results, quiet),
            "Found "@ + text::dec(results.len()) + " issue(s) matching '"@,
        ) && text::contains(
            search_text(label, query, results, quiet),
            " issue(s) matching '"@ + query,
        ),
        !quiet && results.len() == 0 ==> text::contains(
            search_text(label, query, results, quiet),
            "No issues found matching '"@ + query,
        ),
        quiet && results.len() == 0 ==> search_text(label, query, results, quiet) == ""@,
{
    broadcast use {
        text::lemma_contains_self,
        text::lemma_contains_first,
        text::lemma_contains_second,
        text::lemma_contains_pair,
        text::lemma_contains_triple,
    };

    let heading = external_knowledge::heading(label);
    let head = heading + "Found "@ + text::dec(results.len()) + " issue(s) matching '"@ + query
        + "':\n\n"@;
    let found = "Found "@ + text::dec(results.len()) + " issue(s) matching '"@;
    let what = " issue(s) matching '"@ + query;
    assert(text::contains(head, heading));
    assert(text::contains(head, found));
    assert(text::contains(head, what));
    lemma_hits_keep(head, results, query, results.len(), heading);
    lemma_hits_keep(head, results, query, results.len(), found);
    lemma_hits_keep(head, results, query, results.len(), what);
    if 0 <= k < results.len() {
        lemma_hit_listed(""@, results, query, results.len(), k);
        lemma_hit_listed(head, results, query, results.len(), k);
    }
}

/// A comment is shown with when it was made, what it says, what triggered it, and its kind unless
/// that is a plain note.
pub proof fn law_comments_are_told(c: ExternalComment)
    ensures
        text::has_prefix(comment_text(c), "  ["@ + c.created_at.shown(time::MINUTE@)),
        text::contains(comment_text(c), c.content@),
        c.kind@ != "note"@ ==> text::contains(comment_text(c), "["@ + c.kind@ + "] "@),
        c.trigger_type matches Some(t) ==> text::contains(comment_text(c), " (trigger: "@ + t@),
        c.trigger_type matches Some(_) ==> (c.intervention_context matches Some(x)
            ==> text::contains(comment_text(c), ", context: "@ + x@)),
        c.kind@ == "note"@ && c.trigger_type is None ==> comment_text(c) == "  ["@
            + c.created_at.shown(time::MINUTE@) + "] "@ + c.content@ + "\n"@,
{
    broadcast use {
        text::lemma_contains_self,
        text::lemma_contains_first,
        text::lemma_contains_second,
        text::lemma_contains_pair,
    };

    reveal_strlit("");
    let head = "  ["@ + c.created_at.shown(time::MINUTE@);
    assert(comment_text(c).take(head.len() as int) =~= head);
    if c.kind@ == "note"@ {
        assert(head + "] "@ + ""@ =~= head + "] "@);
    }
    if c.trigger_type is None {
        let told = head + "] "@ + (if c.kind@ == "note"@ {
            ""@
        } else {
            "["@ + c.kind@ + "] "@
        }) + c.content@;
        assert(told + ""@ =~= told);
    }
}

proof fn lemma_indented_keep(acc: Seq<char>, lines: Seq<Seq<char>>, n: nat, p: Seq<char>)
    requires
        text::contains(acc, p),
    ensures
        text::contains(with_indented(acc, lines, n), p),
    decreases n,
{
    broadcast use text::lemma_contains_first;

    if n > 0 {
        lemma_indented_keep(acc, lines, (n - 1) as nat, p);
    }
}

proof fn lemma_line_indented(acc: Seq<char>, lines: Seq<Seq<char>>, n: nat, k: int)
    requires
        0 <= k < n,
    ensures
        text::contains(with_indented(acc, lines, n), "  "@ + lines[k] + "\n"@),
    decreases n,
{
    broadcast use {text::lemma_contains_first, text::lemma_contains_triple};

    if k < n - 1 {
        lemma_line_indented(acc, lines, (n - 1) as nat, k);
    }
}

proof fn lemma_comments_keep(acc: Seq<char>, comments: Seq<ExternalComment>, n: nat, p: Seq<char>)
    requires
        text::contains(acc, p),
    ensures
        text::contains(with_comments(acc, comments, n), p),
    decreases n,
{
    broadcast use text::lemma_contains_first;

    if n > 0 {
        lemma_comments_keep(acc, comments, (n - 1) as nat, p);
    }
}

proof fn lemma_comment_listed(acc: Seq<char>, comments: Seq<ExternalComment>, n: nat, k: int)
    requires
        0 <= k < n,
    ensures
        text::contains(with_comments(acc, comments, n), comment_text(comments[k])),
    decreases n,
{
    broadcast use {
        text::lemma_contains_self,
        text::lemma_contains_first,
        text::lemma_contains_second,
    };

    if k < n - 1 {
        lemma_comment_listed(acc, comments, (n - 1) as nat, k);
    }
}

spec fn from_labels(b: Seq<char>, issue: ExternalIssue) -> Seq<char> {
    let c = if issue.labels@.len() > 0 {
        b + "Labels: "@ + text::join(text::strs(issue.labels@), ", "@) + "\n"@
    } else {
        b
    };
    from_description(c, issue)
}

spec fn from_description(c: Seq<char>, issue: ExternalIssue) -> Seq<char> {
    let d = match issue.description {
        Some(description) => if description@.len() > 0 {
            with_indented(
                c + "\nDescription:\n"@,
                text::lines(description@),
                text::lines(description@).len(),
            )
        } else {
            c
        },
        None => c,
    };
    from_comments(d, issue)
}

spec fn from_comments(d: Seq<char>, issue: ExternalIssue) -> Seq<char> {
    let e = if issue.comments@.len() > 0 {
        with_comments(d + "\nComments:\n"@, issue.comments@, issue.comments@.len())
    } else {
        d
    };
    if issue.blockers@.len() > 0 {
        e + "\nBlocked by: "@ + text::join(text::strs(issue.blockers@), ", "@) + "\n"@
    } else {
        e
    }
}

proof fn lemma_from_comments(d: Seq<char>, issue: ExternalIssue, p: Seq<char>)
    requires
        text::contains(d, p),
    ensures
        text::contains(from_comments(d, issue), p),
{
    broadcast use text::lemma_contains_first;

    lemma_comments_keep(d + "\nComments:\n"@, issue.comments@, issue.comments@.len(), p);
}

proof fn lemma_from_description(c: Seq<char>, issue: ExternalIssue, p: Seq<char>)
    requires
        text::contains(c, p),
    ensures
        text::contains(from_description(c, issue), p),
{
    broadcast use text::lemma_contains_first;

    if let Some(description) = issue.description {
        if description@.len() > 0 {
            let d = with_indented(
                c + "\nDescription:\n"@,
                text::lines(description@),
                text::lines(description@).len(),
            );
            lemma_indented_keep(
                c + "\nDescription:\n"@,
                text::lines(description@),
                text::lines(description@).len(),
                p,
            );
            lemma_from_comments(d, issue, p);
        } else {
            lemma_from_comments(c, issue, p);
        }
    } else {
        lemma_from_comments(c, issue, p);
    }
}

proof fn lemma_from_labels(b: Seq<char>, issue: ExternalIssue, p: Seq<char>)
    requires
        text::contains(b, p),
    ensures
        text::contains(from_labels(b, issue), p),
{
    broadcast use text::lemma_contains_first;

    let c = if issue.labels@.len() > 0 {
        b + "Labels: "@ + text::join(text::strs(issue.labels@), ", "@) + "\n"@
    } else {
        b
    };
    assert(text::contains(c, p));
    lemma_from_description(c, issue, p);
}

/// An issue is shown with its number and title, its status and priority, who made it, and when it
/// was made, last changed and closed.
pub proof fn law_issues_are_told(acc: Seq<char>, issue: ExternalIssue)
    ensures
        text::contains(issue_text(acc, issue), acc),
        text::contains(issue_text(acc, issue), "Issue "@ + number_of(issue) + ": "@),
        text::contains(issue_text(acc, issue), ": "@ + issue.title@),
        text::contains(issue_text(acc, issue), "\nStatus: "@ + issue.status@),
        text::contains(issue_text(acc, issue), "\nPriority: "@ + issue.priority@),
        text::contains(
            issue_text(acc, issue),
            "\nCreated: "@ + issue.created_at.shown(time::SECOND@) + " by "@,
        ),
        text::contains(issue_text(acc, issue), " by "@ + issue.created_by@),
        text::contains(
            issue_text(acc, issue),
            "\nUpdated: "@ + issue.updated_at.shown(time::SECOND@) + "\n"@,
        ),
        issue.closed_at matches Some(at) ==> text::contains(
            issue_text(acc, issue),
            "Closed: "@ + at.shown(time::SECOND@) + "\n"@,
        ),
{
    let a1 = acc + "Issue "@ + number_of(issue) + ": "@ + issue.title@ + "\nStatus: "@
        + issue.status@ + "\nPriority: "@ + issue.priority@;
    let a = a1 + "\nCreated: "@ + issue.created_at.shown(time::SECOND@) + " by "@
        + issue.created_by@ + "\nUpdated: "@ + issue.updated_at.shown(time::SECOND@) + "\n"@;
    let b = match issue.closed_at {
        Some(at) => a + "Closed: "@ + at.shown(time::SECOND@) + "\n"@,
        None => a,
    };
    assert(issue_text(acc, issue) == from_labels(b, issue));
    let p1 = "Issue "@ + number_of(issue) + ": "@;
    let p2 = ": "@ + issue.title@;
    let p3 = "\nStatus: "@ + issue.status@;
    let p4 = "\nPriority: "@ + issue.priority@;
    let p5 = "\nCreated: "@ + issue.created_at.shown(time::SECOND@) + " by "@;
    let p6 = " by "@ + issue.created_by@;
    let p7 = "\nUpdated: "@ + issue.updated_at.shown(time::SECOND@) + "\n"@;
    assert(text::contains(a1, acc) && text::contains(a1, p1) && text::contains(a1, p2)
        && text::contains(a1, p3) && text::contains(a1, p4)) by {
        broadcast use {
            text::lemma_contains_self,
            text::lemma_contains_first,
            text::lemma_contains_pair,
            text::lemma_contains_triple,
        };

    }
    broadcast use {
        text::lemma_contains_first,
        text::lemma_contains_pair,
        text::lemma_contains_triple,
    };

    assert(text::contains(a, acc) && text::contains(a, p1) && text::contains(a, p2)
        && text::contains(a, p3) && text::contains(a, p4) && text::contains(a, p5)
        && text::contains(a, p6) && text::contains(a, p7));
    assert(text::contains(b, acc) && text::contains(b, p1) && text::contains(b, p2)
        && text::contains(b, p3) && text::contains(b, p4) && text::contains(b, p5)
        && text::contains(b, p6) && text::contains(b, p7));
    lemma_from_labels(b, issue, acc);
    lemma_from_labels(b, issue, p1);
    lemma_from_labels(b, issue, p2);
    lemma_from_labels(b, issue, p3);
    lemma_from_labels(b, issue, p4);
    lemma_from_labels(b, issue, p5);
    lemma_from_labels(b, issue, p6);
    lemma_from_labels(b, issue, p7);
    if let Some(at) = issue.closed_at {
        lemma_from_labels(b, issue, "Closed: "@ + at.shown(time::SECOND@) + "\n"@);
    }
}

/// An issue is shown with every label, every line of its description, every comment and every issue
/// that blocks it.
pub proof fn law_all_of_an_issue_is_told(acc: Seq<char>, issue: ExternalIssue, k: int)
    requires
        k >= 0,
    ensures
        k < issue.labels@.len() ==> text::contains(issue_text(acc, issue), issue.labels@[k]@),
        issue.description matches Some(d) ==> (k < text::lines(d@).len() ==> text::contains(
            issue_text(acc, issue),
            "  "@ + text::lines(d@)[k] + "\n"@,
        )),
        k < issue.comments@.len() ==> text::contains(
            issue_text(acc, issue),
            comment_text(issue.comments@[k]),
        ),
        k < issue.blockers@.len() ==> text::contains(
            issue_text(acc, issue),
            issue.blockers@[k]@,
        ),
{
    broadcast use text::lemma_contains_first;

    let a = acc + "Issue "@ + number_of(issue) + ": "@ + issue.title@ + "\nStatus: "@
        + issue.status@ + "\nPriority: "@ + issue.priority@ + "\nCreated: "@
        + issue.created_at.shown(time::SECOND@) + " by "@ + issue.created_by@ + "\nUpdated: "@
        + issue.updated_at.shown(time::SECOND@) + "\n"@;
    let b = match issue.closed_at {
        Some(at) => a + "Closed: "@ + at.shown(time::SECOND@) + "\n"@,
        None => a,
    };
    let labels = text::join(text::strs(issue.labels@), ", "@);
    let c = if issue.labels@.len() > 0 {
        b + "Labels: "@ + labels + "\n"@
    } else {
        b
    };
    assert(issue_text(acc, issue) == from_description(c, issue));
    if k < issue.labels@.len() {
        let p = issue.labels@[k]@;
        assert(text::strs(issue.labels@)[k] == p);
        text::law_joined_text_holds_its_parts(text::strs(issue.labels@), ", "@, k);
        text::lemma_contains_second(b + "Labels: "@, labels, p);
        assert(text::contains(c, p));
        lemma_from_description(c, issue, p);
    }
    let d = match issue.description {
        Some(description) => if description@.len() > 0 {
            with_indented(
                c + "\nDescription:\n"@,
                text::lines(description@),
                text::lines(description@).len(),
            )
        } else {
            c
        },
        None => c,
    };
    assert(issue_text(acc, issue) == from_comments(d, issue));
    if let Some(description) = issue.description {
        let lines = text::lines(description@);
        if k < lines.len() {
            assert(description@.len() > 0);
            lemma_line_indented(c + "\nDescription:\n"@, lines, lines.len(), k);
            lemma_from_comments(d, issue, "  "@ + lines[k] + "\n"@);
        }
    }
    let e = if issue.comments@.len() > 0 {
        with_comments(d + "\nComments:\n"@, issue.comments@, issue.comments@.len())
    } else {
        d
    };
    if k < issue.comments@.len() {
        lemma_comment_listed(d + "\nComments:\n"@, issue.comments@, issue.comments@.len(), k);
        assert(text::contains(e, comment_text(issue.comments@[k])));
    }
    if k < issue.blockers@.len() {
        let p = issue.blockers@[k]@;
        assert(text::strs(issue.blockers@)[k] == p);
        text::law_joined_text_holds_its_parts(text::strs(issue.blockers@), ", "@, k);
        text::lemma_contains_second(
            e + "\nBlocked by: "@,
            text::join(text::strs(issue.blockers@), ", "@),
            p,
        );
    }
}

/// An issue is shown exactly where there is one of the number; where there is none, the number and
/// the repository are named.
pub proof fn law_issues_are_shown_where_there_are(
    label: &str,
    number: &str,
    issue: Option<&ExternalIssue>,
    quiet: bool,
    r: Result<String, String>,
)
    requires
        call_ensures(show, (label, number, issue, quiet), r),
    ensures
        r is Ok <==> issue is Some,
        r matches Ok(out) ==> text::contains(out@, ": "@ + issue->0.title@),
        r matches Ok(out) ==> (!quiet ==> text::contains(
            out@,
            external_knowledge::heading(label@),
        )),
        r matches Err(message) ==> text::contains(message@, "Issue "@ + number@)
            && text::has_suffix(message@, label@),
{
    broadcast use {
        text::lemma_contains_self,
        text::lemma_contains_first,
        text::lemma_suffix_of_sum,
    };

    if let Some(i) = issue {
        law_issues_are_told(""@, *i);
        law_issues_are_told(external_knowledge::heading(label@), *i);
    }
}

/// A JSON object gets the repository that it comes from under a key of its own, and keeps all else;
/// what is no object stays as it is.
pub proof fn law_sources_are_added(
    document: Seq<char>,
    source: Seq<char>,
    object: Map<Seq<char>, Json>,
    key: Seq<char>,
)
    ensures
        json_object::json_object(document) is None ==> with_source(document, source) == document,
        json_object::json_object(document) == Some(object) ==> exists|m: Map<Seq<char>, Json>|
            with_source(document, source) == #[trigger] json_object::json_object_text(m)
                && m.contains_key("source"@) && m["source"@] == Json::Text(source) && (key
                != "source"@ ==> m.contains_key(key) == object.contains_key(key) && m[key]
                == object[key]),
{
    if json_object::json_object(document) == Some(object) {
        let m = object.insert("source"@, Json::Text(source));
        assert(with_source(document, source) == json_object::json_object_text(m));
    }
}

/// Each of some issues gets the source, none is left out.
pub proof fn law_every_issue_gets_the_source(issues: Seq<Seq<char>>, source: Seq<char>, k: int)
    requires
        0 <= k < issues.len(),
    ensures
        all_with_source(issues, source).len() == issues.len(),
        all_with_source(issues, source)[k] == with_source(issues[k], source),
{
}

/// An issue is printed as JSON exactly where there is one of the number.
pub proof fn law_json_is_shown_where_there_is(
    label: &str,
    number: &str,
    issue: Option<&str>,
    r: Result<String, String>,
)
    requires
        call_ensures(show_json, (label, number, issue), r),
    ensures
        r is Ok <==> issue is Some,
        r matches Ok(out) ==> out@ == with_source(issue->0@, label@) + "\n"@,
        r matches Err(message) ==> text::contains(message@, "Issue "@ + number@)
            && text::has_suffix(message@, label@),
{
    broadcast use {
        text::lemma_contains_self,
        text::lemma_contains_first,
        text::lemma_suffix_of_sum,
    };

}

} // verus!
