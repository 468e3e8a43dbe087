//! Code clones: what cpitd reports, and the issues that keep track of it.

use crate::commands::create::{NewIssue, NewIssueView};
use crate::text;
use crate::text::{
    chars_of, contains_str, dec_u64, eq_str, own, own_words, pad_str, str_le, string_of, trim_str,
};
use vstd::prelude::*;
use vstd::slice::slice_subrange;

verus! {

// ---------------------------------------------------------------------------
// Reports
// ---------------------------------------------------------------------------

/// What cpitd reports.
#[derive(Debug, Clone, PartialEq)]
pub struct CpitdOutput {
    pub clone_reports: Vec<CpitdCloneReport>,
    pub total_pairs: usize,
}

/// The clones between two files.
#[derive(Debug, Clone, PartialEq)]
pub struct CpitdCloneReport {
    pub file_a: String,
    pub file_b: String,
    pub total_cloned_lines: usize,
    pub groups: Vec<CpitdCloneGroup>,
}

/// A clone: the first and last line of it in each file.
#[derive(Debug, Clone, PartialEq)]
pub struct CpitdCloneGroup {
    pub lines_a: Vec<usize>,
    pub lines_b: Vec<usize>,
    pub line_count: usize,
    pub token_count: usize,
}

/// Whether every group of a report names the lines where it begins and ends.
pub open spec fn has_ranges(report: CpitdCloneReport) -> bool {
    forall|i: int|
        0 <= i < report.groups@.len() ==> (#[trigger] report.groups@[i]).lines_a@.len() >= 2
            && report.groups@[i].lines_b@.len() >= 2
}

/// Tests whether every group of a report names its lines.
pub fn report_has_ranges(report: &CpitdCloneReport) -> (r: bool)
    ensures
        r == has_ranges(*report),
{
    let mut i: usize = 0;
    while i < report.groups.len()
        invariant
            i <= report.groups@.len(),
            forall|k: int|
                0 <= k < i ==> (#[trigger] report.groups@[k]).lines_a@.len() >= 2
                    && report.groups@[k].lines_b@.len() >= 2,
        decreases report.groups@.len() - i,
    {
        if report.groups[i].lines_a.len() < 2 || report.groups[i].lines_b.len() < 2 {
            return false;
        }
        i = i + 1;
    }
    true
}

// ---------------------------------------------------------------------------
// Running cpitd
// ---------------------------------------------------------------------------

/// Whether cpitd can be run: asking it for its version has succeeded.
pub fn cpitd_available(version_check: Option<bool>) -> (r: bool)
    ensures
        r == (version_check == Some(true)),
{
    match version_check {
        Some(succeeded) => succeeded,
        None => false,
    }
}

/// What is said where cpitd is not installed.
pub const NOT_INSTALLED: &'static str = "cpitd is not installed or not found in PATH.\n\ncpitd (Copy Paste Is The Devil) is a language-agnostic code clone\ndetector that integrates with crosslink to track duplicated code\nas issues.\n\nRun `crosslink init --force` to auto-install, or install manually:\n\n  pip install cpitd\n\nOr visit: https://github.com/scythia-marrow/cpitd";

/// The first `n` ignored patterns as arguments.
pub open spec fn with_ignored(acc: Seq<Seq<char>>, patterns: Seq<Seq<char>>, n: nat) -> Seq<Seq<char>>
    decreases n,
{
    if n == 0 {
        acc
    } else {
        with_ignored(acc, patterns, (n - 1) as nat).push("--ignore"@).push(patterns[n - 1])
    }
}

/// The arguments of cpitd: the paths, or the current directory; the format; the
/// threshold; and the patterns to ignore.
pub open spec fn scan_args(paths: Seq<Seq<char>>, min_tokens: nat, ignored: Seq<Seq<char>>) -> Seq<
    Seq<char>,
> {
    let targets = if paths.len() == 0 {
        seq!["."@]
    } else {
        paths
    };
    with_ignored(
        targets.push("--format"@).push("json"@).push("--min-tokens"@).push(text::dec(min_tokens)),
        ignored,
        ignored.len(),
    )
}

fn push_arg(args: &mut Vec<String>, arg: &str)
    ensures
        text::strs(final(args)@) == text::strs(old(args)@).push(arg@),
{
    let s = own(arg);
    proof {
        text::lemma_strs_push(args@, s);
    }
    args.push(s);
}

/// Builds the arguments of cpitd.
pub fn build_scan_args(paths: &Vec<String>, min_tokens: u32, ignored: &Vec<String>) -> (args: Vec<
    String,
>)
    ensures
        text::strs(args@) == scan_args(
            text::strs(paths@),
            min_tokens as nat,
            text::strs(ignored@),
        ),
{
    let mut args: Vec<String> = text::clone_strings(paths);
    assert(text::strs(paths@).len() == paths@.len());
    if paths.len() == 0 {
        assert(text::strs(args@) =~= Seq::<Seq<char>>::empty());
        push_arg(&mut args, ".");
        assert(text::strs(args@) =~= seq!["."@]);
    }
    push_arg(&mut args, "--format");
    push_arg(&mut args, "json");
    push_arg(&mut args, "--min-tokens");
    push_arg(&mut args, dec_u64(min_tokens as u64).as_str());
    let ghost acc = text::strs(args@);
    let ghost patterns = text::strs(ignored@);
    let mut i: usize = 0;
    while i < ignored.len()
        invariant
            i <= ignored@.len(),
            patterns == text::strs(ignored@),
            text::strs(args@) == with_ignored(acc, patterns, i as nat),
        decreases ignored@.len() - i,
    {
        assert(patterns[i as int] == ignored@[i as int]@);
        push_arg(&mut args, "--ignore");
        push_arg(&mut args, ignored[i].as_str());
        i = i + 1;
    }
    assert(patterns.len() == ignored@.len());
    args
}

/// What is to be made of what cpitd printed: `true` where there is a report to be read,
/// `false` where it printed nothing and found nothing. It fails where it only
/// complained.
pub fn classify_output(stdout: &str, stderr: &str) -> (r: Result<bool, String>)
    ensures
        match r {
            Ok(has_report) => has_report == (text::trim(stdout@).len() > 0) && (!has_report
                ==> text::trim(stderr@).len() == 0),
            Err(message) => text::trim(stdout@).len() == 0 && text::trim(stderr@).len() > 0
                && message@ == "cpitd produced no output. stderr: "@ + text::trim(stderr@),
        },
{
    if !trim_str(stdout).as_str().is_empty() {
        return Ok(true);
    }
    let complaint = trim_str(stderr);
    if complaint.as_str().is_empty() {
        return Ok(false);
    }
    let mut message = own("cpitd produced no output. stderr: ");
    message.append(complaint.as_str());
    Err(message)
}

// ---------------------------------------------------------------------------
// Issues
// ---------------------------------------------------------------------------

/// The mark by which the issue of two files is found again. The order of the files does
/// not matter.
pub open spec fn marker(file_a: Seq<char>, file_b: Seq<char>) -> Seq<char> {
    if text::lex_le(file_a, file_b) {
        "<!-- cpitd:file_a="@ + file_a + ":file_b="@ + file_b + " -->"@
    } else {
        "<!-- cpitd:file_a="@ + file_b + ":file_b="@ + file_a + " -->"@
    }
}

/// Makes the mark of two files.
pub fn dedup_marker(file_a: &str, file_b: &str) -> (r: String)
    ensures
        r@ == marker(file_a@, file_b@),
{
    let mut out = own("<!-- cpitd:file_a=");
    if str_le(file_a, file_b) {
        out.append(file_a);
        out.append(":file_b=");
        out.append(file_b);
    } else {
        out.append(file_b);
        out.append(":file_b=");
        out.append(file_a);
    }
    out.append(" -->");
    out
}

/// The mark of two files is that of the files in the other order.
pub proof fn law_marker_is_commutative(file_a: Seq<char>, file_b: Seq<char>)
    ensures
        marker(file_a, file_b) == marker(file_b, file_a),
{
    text::lemma_lex_total(file_a, file_b);
    if text::lex_le(file_a, file_b) && text::lex_le(file_b, file_a) {
        text::lemma_lex_antisymmetric(file_a, file_b);
    }
}

/// A path without the slashes and the single dots at its end.
pub open spec fn strip_end(path: Seq<char>) -> Seq<char>
    decreases path.len(),
{
    if path.len() > 0 && path.last() == '/' {
        strip_end(path.drop_last())
    } else if path.len() > 1 && path.last() == '.' && path[path.len() - 2] == '/' {
        strip_end(path.drop_last())
    } else {
        path
    }
}

/// The last part of a path.
pub open spec fn last_part(path: Seq<char>) -> Seq<char> {
    path.skip(text::rfind_char(path, '/') + 1)
}

/// The name of the file that a path leads to. A path that leads to none, such as one
/// that ends in two dots, is kept.
pub open spec fn file_name(path: Seq<char>) -> Seq<char> {
    let name = last_part(strip_end(path));
    if name.len() == 0 || name == "."@ || name == ".."@ {
        path
    } else {
        name
    }
}

/// Shortens a path to the name of its file.
pub fn shorten_path(path: &str) -> (r: String)
    ensures
        r@ == file_name(path@),
{
    let cs = chars_of(path);
    let mut n: usize = cs.len();
    assert(cs@.take(n as int) =~= cs@);
    while n > 0 && (cs[n - 1] == '/' || (n > 1 && cs[n - 1] == '.' && cs[n - 2] == '/'))
        invariant
            n <= cs@.len(),
            cs@ == path@,
            strip_end(path@) == strip_end(cs@.take(n as int)),
        decreases n,
    {
        assert(cs@.take(n as int).drop_last() =~= cs@.take(n - 1));
        n = n - 1;
    }
    let t = slice_subrange(cs.as_slice(), 0, n);
    assert(t@ =~= cs@.take(n as int));
    assert(strip_end(t@) == t@);
    let start: usize = match text::rfind_char_in(t, '/') {
        Some(i) => i + 1,
        None => 0,
    };
    let name = string_of(slice_subrange(t, start, t.len()));
    assert(name@ =~= last_part(t@));
    if name.as_str().is_empty() || eq_str(name.as_str(), ".") || eq_str(name.as_str(), "..") {
        own(path)
    } else {
        name
    }
}

/// The first `n` groups of a report.
pub open spec fn with_groups(acc: Seq<char>, groups: Seq<CpitdCloneGroup>, n: nat) -> Seq<char>
    decreases n,
{
    if n == 0 {
        acc
    } else {
        let g = groups[n - 1];
        with_groups(acc, groups, (n - 1) as nat) + text::dec(n) + ". Lines "@ + text::dec(
            g.lines_a@[0] as nat,
        ) + "-"@ + text::dec(g.lines_a@[1] as nat) + " <-> Lines "@ + text::dec(
            g.lines_b@[0] as nat,
        ) + "-"@ + text::dec(g.lines_b@[1] as nat) + " ("@ + text::dec(g.line_count as nat)
            + " lines, "@ + text::dec(g.token_count as nat) + " tokens)\n"@
    }
}

/// The description of the issue of a report. It begins with the mark of its files.
pub open spec fn clone_description(report: CpitdCloneReport) -> Seq<char> {
    with_groups(
        marker(report.file_a@, report.file_b@) + "\n\nDetected code clones between:\n- `"@
            + report.file_a@ + "`\n- `"@ + report.file_b@ + "`\n\nTotal cloned lines: "@ + text::dec(
            report.total_cloned_lines as nat,
        ) + "\n\nClone groups:\n"@,
        report.groups@,
        report.groups@.len(),
    ) + "\nConsider extracting shared logic into a common function or module."@
}

/// Describes the clones of a report.
pub fn format_clone_description(report: &CpitdCloneReport) -> (desc: String)
    requires
        has_ranges(*report),
    ensures
        desc@ == clone_description(*report),
{
    let mut desc = dedup_marker(report.file_a.as_str(), report.file_b.as_str());
    desc.append("\n\nDetected code clones between:\n- `");
    desc.append(report.file_a.as_str());
    desc.append("`\n- `");
    desc.append(report.file_b.as_str());
    desc.append("`\n\nTotal cloned lines: ");
    desc.append(dec_u64(report.total_cloned_lines as u64).as_str());
    desc.append("\n\nClone groups:\n");
    let ghost acc = desc@;
    let groups = &report.groups;
    let mut i: usize = 0;
    while i < groups.len()
        invariant
            i <= groups@.len(),
            groups@ == report.groups@,
            has_ranges(*report),
            desc@ == with_groups(acc, groups@, i as nat),
        decreases groups@.len() - i,
    {
        let g = &groups[i];
        assert(g.lines_a@.len() >= 2 && g.lines_b@.len() >= 2);
        desc.append(dec_u64((i + 1) as u64).as_str());
        desc.append(". Lines ");
        desc.append(dec_u64(g.lines_a[0] as u64).as_str());
        desc.append("-");
        desc.append(dec_u64(g.lines_a[1] as u64).as_str());
        desc.append(" <-> Lines ");
        desc.append(dec_u64(g.lines_b[0] as u64).as_str());
        desc.append("-");
        desc.append(dec_u64(g.lines_b[1] as u64).as_str());
        desc.append(" (");
        desc.append(dec_u64(g.line_count as u64).as_str());
        desc.append(" lines, ");
        desc.append(dec_u64(g.token_count as u64).as_str());
        desc.append(" tokens)\n");
        i = i + 1;
    }
    desc.append("\nConsider extracting shared logic into a common function or module.");
    desc
}

/// The title of the issue of a report.
pub open spec fn clone_title(report: CpitdCloneReport) -> Seq<char> {
    "Code clone: "@ + file_name(report.file_a@) + " <-> "@ + file_name(report.file_b@) + " ("@
        + text::dec(report.total_cloned_lines as nat) + " lines)"@
}

/// Makes the title of the issue of a report.
pub fn format_clone_title(report: &CpitdCloneReport) -> (r: String)
    ensures
        r@ == clone_title(*report),
{
    let mut out = own("Code clone: ");
    out.append(shorten_path(report.file_a.as_str()).as_str());
    out.append(" <-> ");
    out.append(shorten_path(report.file_b.as_str()).as_str());
    out.append(" (");
    out.append(dec_u64(report.total_cloned_lines as u64).as_str());
    out.append(" lines)");
    out
}

/// An open issue that tracks a clone.
#[derive(Debug, Clone, PartialEq)]
pub struct CloneIssue {
    pub id: i64,
    pub description: Option<String>,
}

/// Whether the description of an issue holds a mark.
pub open spec fn has_mark(description: Option<Seq<char>>, mark: Seq<char>) -> bool {
    match description {
        Some(d) => text::contains(d, mark),
        None => false,
    }
}

/// The model of open issues: the number and the description of each.
pub open spec fn issue_views(issues: Seq<CloneIssue>) -> Seq<(i64, Option<Seq<char>>)> {
    Seq::new(issues.len(), |i: int| (issues[i].id, text::opt_str(issues[i].description)))
}

/// The first issue with a mark, from the `n`-th on.
pub open spec fn marked_issue(
    issues: Seq<(i64, Option<Seq<char>>)>,
    mark: Seq<char>,
    n: nat,
) -> Option<i64>
    decreases issues.len() - n,
{
    if n >= issues.len() {
        None
    } else if has_mark(issues[n as int].1, mark) {
        Some(issues[n as int].0)
    } else {
        marked_issue(issues, mark, n + 1)
    }
}

/// Finds the open issue that tracks the clones of two files.
pub fn find_existing_clone_issue(issues: &Vec<CloneIssue>, file_a: &str, file_b: &str) -> (r: Option<
    i64,
>)
    ensures
        r == marked_issue(issue_views(issues@), marker(file_a@, file_b@), 0),
{
    let mark = dedup_marker(file_a, file_b);
    let ghost views = issue_views(issues@);
    let mut i: usize = 0;
    while i < issues.len()
        invariant
            i <= issues@.len(),
            views == issue_views(issues@),
            mark@ == marker(file_a@, file_b@),
            marked_issue(views, mark@, 0) == marked_issue(views, mark@, i as nat),
        decreases issues@.len() - i,
    {
        if let Some(d) = &issues[i].description {
            if contains_str(d.as_str(), mark.as_str()) {
                return Some(issues[i].id);
            }
        }
        i = i + 1;
    }
    None
}

/// The comment on an issue whose clones are still there.
pub open spec fn rescan_comment(report: CpitdCloneReport) -> Seq<char> {
    "[cpitd rescan] "@ + text::dec(report.total_cloned_lines as nat) + " total cloned lines, "@
        + text::dec(report.groups@.len()) + " group(s)"@
}

/// What is done with a report.
pub enum Filing {
    /// The issue gets a comment of this kind.
    Comment { id: i64, comment: String, kind: String },
    /// A new issue is created.
    Create(NewIssue),
}

/// The model of what is done with a report.
#[verifier::ext_equal]
pub enum FilingView {
    Comment(i64, Seq<char>, Seq<char>),
    Create(NewIssueView),
}

impl View for Filing {
    type V = FilingView;

    open spec fn view(&self) -> FilingView {
        match self {
            Filing::Comment { id, comment, kind } => FilingView::Comment(*id, comment@, kind@),
            Filing::Create(issue) => FilingView::Create(issue@),
        }
    }
}

/// The issue that is created for a report. By its first label it is found again.
pub open spec fn clone_issue(report: CpitdCloneReport) -> NewIssueView {
    NewIssueView {
        title: clone_title(report),
        description: Some(clone_description(report)),
        priority: "low"@,
        labels: seq!["cpitd"@, "refactor"@],
    }
}

/// Makes the issue for a report, which has to name its lines.
pub fn new_clone_issue(report: &CpitdCloneReport) -> (r: NewIssue)
    requires
        has_ranges(*report),
    ensures
        r@ == clone_issue(*report),
{
    let words: Vec<&'static str> = vec!["cpitd", "refactor"];
    let r = NewIssue {
        title: format_clone_title(report),
        description: Some(format_clone_description(report)),
        priority: own("low"),
        labels: own_words(&words),
    };
    assert(text::words(words@) =~= seq!["cpitd"@, "refactor"@]);
    r
}

/// What is done with a report: an open issue on the same files gets a note, or else a new
/// one is created.
pub open spec fn filing(issues: Seq<(i64, Option<Seq<char>>)>, report: CpitdCloneReport) -> FilingView {
    match marked_issue(issues, marker(report.file_a@, report.file_b@), 0) {
        Some(id) => FilingView::Comment(id, rescan_comment(report), "note"@),
        None => FilingView::Create(clone_issue(report)),
    }
}

/// Decides what is done with a report. Only the report of a new issue has to name its
/// lines.
pub fn file_report(issues: &Vec<CloneIssue>, report: &CpitdCloneReport) -> (r: Filing)
    requires
        filing(issue_views(issues@), *report) is Create ==> has_ranges(*report),
    ensures
        r@ == filing(issue_views(issues@), *report),
{
    match find_existing_clone_issue(issues, report.file_a.as_str(), report.file_b.as_str()) {
        Some(id) => {
            let mut comment = own("[cpitd rescan] ");
            comment.append(dec_u64(report.total_cloned_lines as u64).as_str());
            comment.append(" total cloned lines, ");
            comment.append(dec_u64(report.groups.len() as u64).as_str());
            comment.append(" group(s)");
            Filing::Comment { id, comment, kind: own("note") }
        },
        None => Filing::Create(new_clone_issue(report)),
    }
}

/// Outcome of a clone scan: the issues that were created or updated.
#[derive(Debug, Clone, PartialEq)]
pub struct ScanOutcome {
    /// Newly created clone issues: `(issue_id, file_a, file_b)`.
    pub created: Vec<(i64, String, String)>,
    /// Existing clone issues that were re-confirmed and commented on.
    pub updated: Vec<i64>,
}

impl Default for ScanOutcome {
    fn default() -> (r: Self)
        ensures
            r.created@.len() == 0,
            r.updated@.len() == 0,
    {
        ScanOutcome { created: Vec::new(), updated: Vec::new() }
    }
}

/// The model of a scan under way: the open issues, those that were created, with their
/// files, and those that were updated.
#[verifier::ext_equal]
pub struct ScanView {
    pub issues: Seq<(i64, Option<Seq<char>>)>,
    pub created: Seq<(i64, Seq<char>, Seq<char>)>,
    pub updated: Seq<i64>,
}

/// The model of created issues.
pub open spec fn created_views(created: Seq<(i64, String, String)>) -> Seq<
    (i64, Seq<char>, Seq<char>),
> {
    Seq::new(created.len(), |i: int| (created[i].0, created[i].1@, created[i].2@))
}

/// A scan after one more report. A new issue gets the number `id`.
pub open spec fn scan_step(s: ScanView, report: CpitdCloneReport, id: i64) -> ScanView {
    match filing(s.issues, report) {
        FilingView::Comment(existing, _, _) => ScanView { updated: s.updated.push(existing), ..s },
        FilingView::Create(issue) => ScanView {
            issues: s.issues.push((id, issue.description)),
            created: s.created.push((id, report.file_a@, report.file_b@)),
            updated: s.updated,
        },
    }
}

/// A scan after the first `n` reports. The numbers of new issues are given, one for
/// each report.
pub open spec fn scanned(
    issues: Seq<(i64, Option<Seq<char>>)>,
    reports: Seq<CpitdCloneReport>,
    ids: Seq<i64>,
    n: nat,
) -> ScanView
    decreases n,
{
    if n == 0 {
        ScanView { issues, created: Seq::empty(), updated: Seq::empty() }
    } else {
        scan_step(scanned(issues, reports, ids, (n - 1) as nat), reports[n - 1], ids[n - 1])
    }
}

/// Whether the `i`-th report names its lines, where a new issue is created for it.
pub open spec fn report_is_fileable(
    issues: Seq<(i64, Option<Seq<char>>)>,
    reports: Seq<CpitdCloneReport>,
    ids: Seq<i64>,
    i: int,
) -> bool {
    filing(scanned(issues, reports, ids, i as nat).issues, reports[i]) is Create ==> has_ranges(
        reports[i],
    )
}

/// Whether the reports for which new issues are created name their lines.
pub open spec fn new_reports_have_ranges(
    issues: Seq<(i64, Option<Seq<char>>)>,
    reports: Seq<CpitdCloneReport>,
    ids: Seq<i64>,
) -> bool {
    forall|i: int|
        0 <= i < reports.len() ==> #[trigger] report_is_fileable(issues, reports, ids, i)
}

/// A scan under way.
pub struct Scan {
    /// The open issues that track clones.
    pub issues: Vec<CloneIssue>,
    pub outcome: ScanOutcome,
}

impl View for Scan {
    type V = ScanView;

    open spec fn view(&self) -> ScanView {
        ScanView {
            issues: issue_views(self.issues@),
            created: created_views(self.outcome.created@),
            updated: self.outcome.updated@,
        }
    }
}

fn clone_issues(issues: &Vec<CloneIssue>) -> (r: Vec<CloneIssue>)
    ensures
        issue_views(r@) == issue_views(issues@),
{
    let ghost all = issue_views(issues@);
    let mut out: Vec<CloneIssue> = Vec::new();
    let mut i: usize = 0;
    while i < issues.len()
        invariant
            i <= issues@.len(),
            all == issue_views(issues@),
            issue_views(out@) == all.take(i as int),
        decreases issues@.len() - i,
    {
        let ghost before = out@;
        let copy = CloneIssue {
            id: issues[i].id,
            description: crate::identity::clone_opt(&issues[i].description),
        };
        out.push(copy);
        proof {
            assert(issue_views(out@) =~= issue_views(before).push(
                (copy.id, text::opt_str(copy.description)),
            ));
            assert(all.take(i + 1) =~= all.take(i as int).push(all[i as int]));
        }
        i = i + 1;
    }
    assert(all.take(all.len() as int) =~= all);
    out
}

impl Scan {
    /// Begins a scan with the issues that are open.
    pub fn new(issues: &Vec<CloneIssue>) -> (r: Scan)
        ensures
            r@ == scanned(issue_views(issues@), Seq::empty(), Seq::empty(), 0),
    {
        let r = Scan { issues: clone_issues(issues), outcome: ScanOutcome::default() };
        assert(created_views(r.outcome.created@) =~= Seq::<(i64, Seq<char>, Seq<char>)>::empty());
        assert(r.outcome.updated@ =~= Seq::<i64>::empty());
        r
    }

    /// Takes in that a report was filed as `file_report` decided. A new issue has got
    /// the number `id`.
    pub fn filed(&mut self, report: &CpitdCloneReport, decided: Filing, id: i64)
        requires
            decided@ == filing(old(self)@.issues, *report),
        ensures
            final(self)@ == scan_step(old(self)@, *report, id),
    {
        match decided {
            Filing::Comment { id: existing, comment: _, kind: _ } => {
                self.outcome.updated.push(existing);
            },
            Filing::Create(new) => {
                let ghost issues = self.issues@;
                let ghost created = self.outcome.created@;
                let issue = CloneIssue { id, description: new.description };
                let entry = (id, own(report.file_a.as_str()), own(report.file_b.as_str()));
                self.issues.push(issue);
                self.outcome.created.push(entry);
                proof {
                    assert(issue_views(self.issues@) =~= issue_views(issues).push(
                        (id, new@.description),
                    ));
                    assert(created_views(self.outcome.created@) =~= created_views(created).push(
                        (id, report.file_a@, report.file_b@),
                    ));
                }
            },
        }
    }
}

/// Core scan-and-file-issues logic: what a scan creates and updates, where the open
/// issues are given, and for each report the number that a new issue would get.
pub fn scan_and_file(
    issues: &Vec<CloneIssue>,
    reports: &Vec<CpitdCloneReport>,
    new_ids: &Vec<i64>,
) -> (r: ScanOutcome)
    requires
        new_reports_have_ranges(issue_views(issues@), reports@, new_ids@),
        new_ids@.len() == reports@.len(),
    ensures
        ({
            let s = scanned(issue_views(issues@), reports@, new_ids@, reports@.len());
            created_views(r.created@) == s.created && r.updated@ == s.updated
        }),
{
    let mut scan = Scan::new(issues);
    let ghost open = issue_views(issues@);
    let mut i: usize = 0;
    while i < reports.len()
        invariant
            i <= reports@.len(),
            new_reports_have_ranges(issue_views(issues@), reports@, new_ids@),
            new_ids@.len() == reports@.len(),
            open == issue_views(issues@),
            scan@ == scanned(open, reports@, new_ids@, i as nat),
        decreases reports@.len() - i,
    {
        assert(report_is_fileable(open, reports@, new_ids@, i as int));
        let decided = file_report(&scan.issues, &reports[i]);
        scan.filed(&reports[i], decided, new_ids[i]);
        i = i + 1;
    }
    scan.outcome
}

proof fn lemma_first_marked(issues: Seq<(i64, Option<Seq<char>>)>, mark: Seq<char>, n: nat, i: int)
    requires
        n <= i < issues.len(),
        has_mark(issues[i].1, mark),
    ensures
        marked_issue(issues, mark, n) is Some,
    decreases i - n,
{
    if !has_mark(issues[n as int].1, mark) {
        lemma_first_marked(issues, mark, n + 1, i);
    }
}

proof fn lemma_marked_position(issues: Seq<(i64, Option<Seq<char>>)>, mark: Seq<char>, n: nat)
    requires
        marked_issue(issues, mark, n) is Some,
    ensures
        exists|i: int| n <= i < issues.len() && has_mark((#[trigger] issues[i]).1, mark),
    decreases issues.len() - n,
{
    if has_mark(issues[n as int].1, mark) {
        assert(has_mark(issues[n as int].1, mark));
    } else {
        lemma_marked_position(issues, mark, n + 1);
    }
}

proof fn lemma_groups_behind(acc: Seq<char>, groups: Seq<CpitdCloneGroup>, n: nat)
    ensures
        text::has_prefix(with_groups(acc, groups, n), acc),
    decreases n,
{
    if n > 0 {
        lemma_groups_behind(acc, groups, (n - 1) as nat);
        let head = with_groups(acc, groups, (n - 1) as nat);
        let all = with_groups(acc, groups, n);
        assert(all.take(acc.len() as int) =~= head.take(acc.len() as int));
    } else {
        assert(acc.take(acc.len() as int) =~= acc);
    }
}

/// The description of an issue holds the mark of its files.
pub proof fn law_description_holds_marker(report: CpitdCloneReport)
    ensures
        text::contains(clone_description(report), marker(report.file_a@, report.file_b@)),
{
    let mark = marker(report.file_a@, report.file_b@);
    let acc = mark + "\n\nDetected code clones between:\n- `"@ + report.file_a@ + "`\n- `"@
        + report.file_b@ + "`\n\nTotal cloned lines: "@ + text::dec(
        report.total_cloned_lines as nat,
    ) + "\n\nClone groups:\n"@;
    let body = with_groups(acc, report.groups@, report.groups@.len());
    lemma_groups_behind(acc, report.groups@, report.groups@.len());
    let all = clone_description(report);
    assert(acc.take(mark.len() as int) =~= mark);
    assert(all.take(mark.len() as int) =~= body.take(acc.len() as int).take(mark.len() as int));
    assert(all.subrange(0, mark.len() as int) =~= mark);
    assert(text::occurs_at(all, mark, 0));
}

proof fn lemma_marked_after(
    issues: Seq<(i64, Option<Seq<char>>)>,
    reports: Seq<CpitdCloneReport>,
    ids: Seq<i64>,
    n: nat,
    k: int,
)
    requires
        0 <= k < n <= reports.len(),
    ensures
        marked_issue(
            scanned(issues, reports, ids, n).issues,
            marker(reports[k].file_a@, reports[k].file_b@),
            0,
        ) is Some,
    decreases n,
{
    let before = scanned(issues, reports, ids, (n - 1) as nat);
    let after = scanned(issues, reports, ids, n);
    let mark = marker(reports[k].file_a@, reports[k].file_b@);
    if k < n - 1 {
        lemma_marked_after(issues, reports, ids, (n - 1) as nat, k);
    }
    if marked_issue(before.issues, mark, 0) is Some {
        lemma_marked_position(before.issues, mark, 0);
        let i = choose|i: int|
            0 <= i < before.issues.len() && has_mark((#[trigger] before.issues[i]).1, mark);
        assert(after.issues[i] == before.issues[i]);
        lemma_first_marked(after.issues, mark, 0, i);
    } else {
        law_description_holds_marker(reports[k]);
        let i = before.issues.len() as int;
        assert(after.issues[i].1 == Some(clone_description(reports[k])));
        lemma_first_marked(after.issues, mark, 0, i);
    }
}

/// A report updates the open issue that holds the mark of its files, with a note; where there
/// is none, an issue of low priority is created, which holds the mark and is labelled so that
/// it is found again.
pub proof fn law_filing_keeps_track(issues: Seq<(i64, Option<Seq<char>>)>, report: CpitdCloneReport)
    ensures
        match filing(issues, report) {
            FilingView::Comment(id, _, kind) => kind == "note"@ && marked_issue(
                issues,
                marker(report.file_a@, report.file_b@),
                0,
            ) == Some(id),
            FilingView::Create(issue) => {
                &&& marked_issue(issues, marker(report.file_a@, report.file_b@), 0) is None
                &&& issue.priority == "low"@
                &&& issue.labels == seq!["cpitd"@, "refactor"@]
                &&& has_mark(issue.description, marker(report.file_a@, report.file_b@))
            },
        },
{
    law_description_holds_marker(report);
}

/// Every report is filed: it creates an issue or updates one.
pub proof fn law_every_report_is_filed(
    issues: Seq<(i64, Option<Seq<char>>)>,
    reports: Seq<CpitdCloneReport>,
    ids: Seq<i64>,
    n: nat,
)
    ensures
        ({
            let s = scanned(issues, reports, ids, n);
            s.created.len() + s.updated.len() == n && s.issues.len() == issues.len()
                + s.created.len()
        }),
    decreases n,
{
    if n > 0 {
        law_every_report_is_filed(issues, reports, ids, (n - 1) as nat);
    }
}

/// Scanning once more, with the same reports and the issues that the first scan left,
/// creates no issue: every report updates one.
pub proof fn law_rescan_creates_nothing(
    issues: Seq<(i64, Option<Seq<char>>)>,
    reports: Seq<CpitdCloneReport>,
    ids: Seq<i64>,
    more_ids: Seq<i64>,
)
    ensures
        ({
            let first = scanned(issues, reports, ids, reports.len());
            let second = scanned(first.issues, reports, more_ids, reports.len());
            &&& second.created.len() == 0
            &&& second.updated.len() == reports.len()
            &&& second.issues == first.issues
        }),
{
    lemma_rescan(issues, reports, ids, more_ids, reports.len());
}

proof fn lemma_rescan(
    issues: Seq<(i64, Option<Seq<char>>)>,
    reports: Seq<CpitdCloneReport>,
    ids: Seq<i64>,
    more_ids: Seq<i64>,
    n: nat,
)
    requires
        n <= reports.len(),
    ensures
        ({
            let first = scanned(issues, reports, ids, reports.len());
            let second = scanned(first.issues, reports, more_ids, n);
            &&& second.created.len() == 0
            &&& second.updated.len() == n
            &&& second.issues == first.issues
        }),
    decreases n,
{
    if n > 0 {
        lemma_rescan(issues, reports, ids, more_ids, (n - 1) as nat);
        lemma_marked_after(issues, reports, ids, reports.len(), n - 1);
    }
}

/// Whether two created issues have a file in common.
pub open spec fn share_file(a: (i64, Seq<char>, Seq<char>), b: (i64, Seq<char>, Seq<char>)) -> bool {
    a.1 == b.1 || a.1 == b.2 || a.2 == b.1 || a.2 == b.2
}

/// The relations of one created issue to the first `n` of those before it.
pub open spec fn relations_to(
    created: Seq<(i64, Seq<char>, Seq<char>)>,
    k: int,
    n: nat,
) -> Seq<(i64, i64)>
    decreases n,
{
    if n == 0 {
        Seq::empty()
    } else {
        let head = relations_to(created, k, (n - 1) as nat);
        if share_file(created[n - 1], created[k]) {
            head.push((created[n - 1].0, created[k].0))
        } else {
            head
        }
    }
}

/// The relations among the first `n` created issues: any two that have a file in common
/// are related, and an issue on a single file to itself.
pub open spec fn relations(created: Seq<(i64, Seq<char>, Seq<char>)>, n: nat) -> Seq<(i64, i64)>
    decreases n,
{
    if n == 0 {
        Seq::empty()
    } else {
        let c = created[n - 1];
        let head = relations(created, (n - 1) as nat) + relations_to(
            created,
            n - 1,
            (n - 1) as nat,
        );
        if c.1 == c.2 {
            head.push((c.0, c.0))
        } else {
            head
        }
    }
}

/// The relations to add between created issues. A single issue is related to none.
pub fn relate_clone_issues(created: &Vec<(i64, String, String)>) -> (r: Vec<(i64, i64)>)
    ensures
        r@ == (if created@.len() > 1 {
            relations(created_views(created@), created@.len())
        } else {
            Seq::empty()
        }),
{
    let mut out: Vec<(i64, i64)> = Vec::new();
    if created.len() <= 1 {
        assert(out@ =~= Seq::<(i64, i64)>::empty());
        return out;
    }
    let ghost views = created_views(created@);
    let mut k: usize = 0;
    assert(out@ =~= Seq::<(i64, i64)>::empty());
    while k < created.len()
        invariant
            k <= created@.len(),
            views == created_views(created@),
            out@ == relations(views, k as nat),
        decreases created@.len() - k,
    {
        let ghost before = out@;
        let mut i: usize = 0;
        assert(before + relations_to(views, k as int, 0) =~= before);
        while i < k
            invariant
                i <= k < created@.len(),
                views == created_views(created@),
                out@ == before + relations_to(views, k as int, i as nat),
            decreases k - i,
        {
            let a = &created[i];
            let b = &created[k];
            let shared = eq_str(a.1.as_str(), b.1.as_str()) || eq_str(a.1.as_str(), b.2.as_str())
                || eq_str(a.2.as_str(), b.1.as_str()) || eq_str(a.2.as_str(), b.2.as_str());
            if shared {
                let ghost so_far = relations_to(views, k as int, i as nat);
                out.push((a.0, b.0));
                assert(out@ =~= before + so_far.push((a.0, b.0)));
            }
            i = i + 1;
        }
        let c = &created[k];
        if eq_str(c.1.as_str(), c.2.as_str()) {
            out.push((c.0, c.0));
        }
        k = k + 1;
    }
    out
}

// ---------------------------------------------------------------------------
// Output
// ---------------------------------------------------------------------------

/// The lines on the first `n` reports of a dry run.
pub open spec fn with_reports(acc: Seq<char>, reports: Seq<CpitdCloneReport>, n: nat) -> Seq<char>
    decreases n,
{
    if n == 0 {
        acc
    } else {
        let r = reports[n - 1];
        with_reports(acc, reports, (n - 1) as nat) + "  Would create: "@ + r.file_a@ + " <-> "@
            + r.file_b@ + " ("@ + text::dec(r.total_cloned_lines as nat) + " lines, "@ + text::dec(
            r.groups@.len(),
        ) + " group(s))\n"@
    }
}

/// What a dry run prints.
pub open spec fn dry_run_text(output: CpitdOutput, quiet: bool) -> Seq<char> {
    if output.clone_reports@.len() == 0 {
        if quiet {
            ""@
        } else {
            "No code clones detected.\n"@
        }
    } else {
        with_reports(
            if quiet {
                ""@
            } else {
                "Found "@ + text::dec(output.total_pairs as nat) + " clone pair(s).\n\n"@
            },
            output.clone_reports@,
            output.clone_reports@.len(),
        )
    }
}

/// Tells what a scan would create.
pub fn dry_run(output: &CpitdOutput, quiet: bool) -> (out: String)
    ensures
        out@ == dry_run_text(*output, quiet),
{
    let reports = &output.clone_reports;
    if reports.len() == 0 {
        return if quiet {
            own("")
        } else {
            own("No code clones detected.\n")
        };
    }
    let mut out = own("");
    if !quiet {
        out = own("Found ");
        out.append(dec_u64(output.total_pairs as u64).as_str());
        out.append(" clone pair(s).\n\n");
    }
    let ghost acc = out@;
    let mut i: usize = 0;
    while i < reports.len()
        invariant
            i <= reports@.len(),
            out@ == with_reports(acc, reports@, i as nat),
        decreases reports@.len() - i,
    {
        let r = &reports[i];
        out.append("  Would create: ");
        out.append(r.file_a.as_str());
        out.append(" <-> ");
        out.append(r.file_b.as_str());
        out.append(" (");
        out.append(dec_u64(r.total_cloned_lines as u64).as_str());
        out.append(" lines, ");
        out.append(dec_u64(r.groups.len() as u64).as_str());
        out.append(" group(s))\n");
        i = i + 1;
    }
    out
}

/// Lines with a label in front of each name and another behind it.
pub open spec fn with_labelled(
    acc: Seq<char>,
    before: Seq<char>,
    names: Seq<Seq<char>>,
    behind: Seq<char>,
    n: nat,
) -> Seq<char>
    decreases n,
{
    if n == 0 {
        acc
    } else {
        with_labelled(acc, before, names, behind, (n - 1) as nat) + before + names[n - 1] + behind
    }
}

fn push_labelled(out: &mut String, before: &str, names: &Vec<String>, behind: &str)
    ensures
        final(out)@ == with_labelled(
            old(out)@,
            before@,
            text::strs(names@),
            behind@,
            names@.len(),
        ),
{
    let ghost acc = out@;
    let mut i: usize = 0;
    while i < names.len()
        invariant
            i <= names@.len(),
            out@ == with_labelled(acc, before@, text::strs(names@), behind@, i as nat),
        decreases names@.len() - i,
    {
        out.append(before);
        out.append(names[i].as_str());
        out.append(behind);
        i = i + 1;
    }
}

/// What a scan prints. Issues are named as they are shown.
pub open spec fn scan_text(created: Seq<Seq<char>>, updated: Seq<Seq<char>>, quiet: bool) -> Seq<char> {
    if quiet {
        ""@
    } else if created.len() == 0 && updated.len() == 0 {
        "No code clones detected.\n"@
    } else {
        with_labelled(
            with_labelled(""@, "  Created issue "@, created, "\n"@, created.len()),
            "  Updated issue "@,
            updated,
            " (clone still present)\n"@,
            updated.len(),
        ) + "\ncpitd scan complete: "@ + text::dec(created.len()) + " created, "@ + text::dec(
            updated.len(),
        ) + " updated\n"@
    }
}

/// Tells what a scan has created and updated.
pub fn report_scan(created: &Vec<String>, updated: &Vec<String>, quiet: bool) -> (out: String)
    ensures
        out@ == scan_text(text::strs(created@), text::strs(updated@), quiet),
{
    assert(text::strs(created@).len() == created@.len());
    assert(text::strs(updated@).len() == updated@.len());
    let mut out = own("");
    if quiet {
        return out;
    }
    if created.len() == 0 && updated.len() == 0 {
        return own("No code clones detected.\n");
    }
    push_labelled(&mut out, "  Created issue ", created, "\n");
    push_labelled(&mut out, "  Updated issue ", updated, " (clone still present)\n");
    out.append("\ncpitd scan complete: ");
    out.append(dec_u64(created.len() as u64).as_str());
    out.append(" created, ");
    out.append(dec_u64(updated.len() as u64).as_str());
    out.append(" updated\n");
    out
}

/// The lines of open clone issues.
pub open spec fn with_open(acc: Seq<char>, issues: Seq<(String, String)>, n: nat) -> Seq<char>
    decreases n,
{
    if n == 0 {
        acc
    } else {
        with_open(acc, issues, (n - 1) as nat) + "  "@ + text::pad(issues[n - 1].0@, 5) + " "@
            + issues[n - 1].1@ + "\n"@
    }
}

/// Lists the open clone issues, each by its number as it is shown and its title.
pub fn status(issues: &Vec<(String, String)>) -> (out: String)
    ensures
        out@ == (if issues@.len() == 0 {
            "No open cpitd clone issues.\n"@
        } else {
            with_open(
                text::dec(issues@.len()) + " open clone issue(s):\n\n"@,
                issues@,
                issues@.len(),
            )
        }),
{
    if issues.len() == 0 {
        return own("No open cpitd clone issues.\n");
    }
    let mut out = dec_u64(issues.len() as u64);
    out.append(" open clone issue(s):\n\n");
    let ghost acc = out@;
    let mut i: usize = 0;
    while i < issues.len()
        invariant
            i <= issues@.len(),
            out@ == with_open(acc, issues@, i as nat),
        decreases issues@.len() - i,
    {
        out.append("  ");
        out.append(pad_str(issues[i].0.as_str(), 5).as_str());
        out.append(" ");
        out.append(issues[i].1.as_str());
        out.append("\n");
        i = i + 1;
    }
    out
}

/// Tells how many clone issues were closed.
pub fn clear(closed: usize) -> (out: String)
    ensures
        out@ == (if closed == 0 {
            "No open cpitd clone issues to close.\n"@
        } else {
            "Closed "@ + text::dec(closed as nat) + " cpitd clone issue(s).\n"@
        }),
{
    if closed == 0 {
        return own("No open cpitd clone issues to close.\n");
    }
    let mut out = own("Closed ");
    out.append(dec_u64(closed as u64).as_str());
    out.append(" cpitd clone issue(s).\n");
    out
}

// ---------------------------------------------------------------------------
// The command line
// ---------------------------------------------------------------------------

/// The cpitd subcommands.
pub enum CpitdCommands {
    Scan { paths: Vec<String>, min_tokens: u32, ignore: Vec<String>, dry_run: bool },
    Status,
    Clear,
}

/// What a cpitd subcommand does.
pub enum CpitdTask {
    /// Run cpitd with the arguments, after the text is printed. In a dry run nothing is
    /// filed.
    Scan { say: String, args: Vec<String>, dry_run: bool },
    /// List the open clone issues.
    Status,
    /// Close the open clone issues.
    Clear,
}

/// Tells what a cpitd subcommand does. A scan needs cpitd.
pub fn run(command: &CpitdCommands, available: bool, quiet: bool) -> (r: Result<CpitdTask, String>)
    ensures
        match command {
            CpitdCommands::Scan { paths, min_tokens, ignore, dry_run } => if available {
                r matches Ok(CpitdTask::Scan { say, args, dry_run: dry }) && dry == *dry_run
                    && text::strs(args@) == scan_args(
                    text::strs(paths@),
                    *min_tokens as nat,
                    text::strs(ignore@),
                ) && say@ == (if quiet {
                    ""@
                } else {
                    "Running cpitd clone detection...\n"@
                })
            } else {
                r matches Err(message) && message@ == NOT_INSTALLED@
            },
            CpitdCommands::Status => r matches Ok(CpitdTask::Status),
            CpitdCommands::Clear => r matches Ok(CpitdTask::Clear),
        },
{
    match command {
        CpitdCommands::Scan { paths, min_tokens, ignore, dry_run } => {
            if !available {
                return Err(own(NOT_INSTALLED));
            }
            let say = if quiet {
                own("")
            } else {
                own("Running cpitd clone detection...\n")
            };
            Ok(
                CpitdTask::Scan {
                    say,
                    args: build_scan_args(paths, *min_tokens, ignore),
                    dry_run: *dry_run,
                },
            )
        },
        CpitdCommands::Status => Ok(CpitdTask::Status),
        CpitdCommands::Clear => Ok(CpitdTask::Clear),
    }
}

// ---------------------------------------------------------------------------
// What scans ask for and tell
// ---------------------------------------------------------------------------

/// cpitd can be run exactly where asking it for its version has succeeded.
pub proof fn law_cpitd_answers_where_it_is(version_check: Option<bool>, r: bool)
    requires
        call_ensures(cpitd_available, (version_check,), r),
    ensures
        r <==> version_check is Some && version_check->0,
{
}

/// A scan goes through the paths that are given, or the current directory, with the threshold that
/// is given.
pub proof fn law_scans_go_where_asked(
    paths: Seq<Seq<char>>,
    min_tokens: nat,
    ignored: Seq<Seq<char>>,
)
    ensures
        ({
            let args = scan_args(paths, min_tokens, ignored);
            let n = if paths.len() == 0 {
                1int
            } else {
                paths.len() as int
            };
            &&& args.len() == n + 4 + 2 * ignored.len()
            &&& paths.len() == 0 ==> args[0] == "."@
            &&& forall|i: int| 0 <= i < paths.len() ==> args[i] == #[trigger] paths[i]
            &&& args[n] == "--format"@ && args[n + 1] == "json"@
            &&& args[n + 2] == "--min-tokens"@ && args[n + 3] == text::dec(min_tokens)
        }),
{
    let targets = if paths.len() == 0 {
        seq!["."@]
    } else {
        paths
    };
    let acc = targets.push("--format"@).push("json"@).push("--min-tokens"@).push(
        text::dec(min_tokens),
    );
    lemma_ignored(acc, ignored, ignored.len());
    let n = targets.len() as int;
    assert(acc[n] == "--format"@ && acc[n + 1] == "json"@ && acc[n + 2] == "--min-tokens"@ && acc[n
        + 3] == text::dec(min_tokens));
    assert(acc[0] == targets[0]);
    assert forall|i: int| 0 <= i < paths.len() implies scan_args(paths, min_tokens, ignored)[i]
        == #[trigger] paths[i] by {
        assert(acc[i] == paths[i]);
    }
}

/// Every pattern is ignored.
pub proof fn law_patterns_are_ignored(
    paths: Seq<Seq<char>>,
    min_tokens: nat,
    ignored: Seq<Seq<char>>,
    k: int,
)
    requires
        0 <= k < ignored.len(),
    ensures
        exists|i: int|
            0 <= i < scan_args(paths, min_tokens, ignored).len() - 1 && #[trigger] scan_args(
                paths,
                min_tokens,
                ignored,
            )[i] == "--ignore"@ && scan_args(paths, min_tokens, ignored)[i + 1] == ignored[k],
{
    let targets = if paths.len() == 0 {
        seq!["."@]
    } else {
        paths
    };
    let acc = targets.push("--format"@).push("json"@).push("--min-tokens"@).push(
        text::dec(min_tokens),
    );
    lemma_ignored(acc, ignored, ignored.len());
    lemma_ignored_at(acc, ignored, ignored.len(), k);
    let i = acc.len() + 2 * k;
    assert(with_ignored(acc, ignored, ignored.len())[i + 1] == ignored[k]);
    assert(scan_args(paths, min_tokens, ignored)[i] == "--ignore"@);
}

proof fn lemma_ignored(acc: Seq<Seq<char>>, patterns: Seq<Seq<char>>, n: nat)
    ensures
        with_ignored(acc, patterns, n).len() == acc.len() + 2 * n,
        forall|i: int| 0 <= i < acc.len() ==> with_ignored(acc, patterns, n)[i] == #[trigger] acc[i],
    decreases n,
{
    if n > 0 {
        lemma_ignored(acc, patterns, (n - 1) as nat);
    }
}

proof fn lemma_ignored_at(acc: Seq<Seq<char>>, patterns: Seq<Seq<char>>, n: nat, k: int)
    requires
        0 <= k < n,
    ensures
        with_ignored(acc, patterns, n)[acc.len() + 2 * k] == "--ignore"@,
        with_ignored(acc, patterns, n)[acc.len() + 2 * k + 1] == patterns[k],
    decreases n,
{
    lemma_ignored(acc, patterns, (n - 1) as nat);
    if k < n - 1 {
        lemma_ignored_at(acc, patterns, (n - 1) as nat, k);
    }
}

/// What cpitd printed is read where it printed something. Where it printed nothing, it has found
/// nothing, unless it complained: then the complaint is told.
pub proof fn law_output_is_read(stdout: &str, stderr: &str, r: Result<bool, String>)
    requires
        call_ensures(classify_output, (stdout, stderr), r),
    ensures
        text::trim(stdout@).len() > 0 <==> r == Ok::<bool, String>(true),
        text::trim(stdout@).len() == 0 && text::trim(stderr@).len() == 0 <==> r
            == Ok::<bool, String>(false),
        r matches Err(message) ==> text::has_suffix(message@, text::trim(stderr@)),
{
    broadcast use text::lemma_suffix_of_sum;

}

/// The mark of two files names both, the lesser one first.
pub proof fn law_marker_names_both_files(file_a: Seq<char>, file_b: Seq<char>)
    ensures
        text::contains(marker(file_a, file_b), file_a),
        text::contains(marker(file_a, file_b), file_b),
        text::lex_le(file_a, file_b) ==> text::contains(
            marker(file_a, file_b),
            "<!-- cpitd:file_a="@ + file_a + ":file_b="@,
        ) && text::contains(marker(file_a, file_b), ":file_b="@ + file_b + " -->"@),
{
    broadcast use {
        text::lemma_contains_self,
        text::lemma_contains_first,
        text::lemma_contains_second,
        text::lemma_contains_triple,
    };

}

/// The name of a file is what stands behind the last slash of its path; slashes at the end do not
/// count.
pub proof fn law_file_names_end_paths(dir: Seq<char>, name: Seq<char>)
    requires
        name.len() > 0,
        !name.contains('/'),
        name != "."@,
        name != ".."@,
    ensures
        file_name(name) == name,
        file_name(dir + seq!['/'] + name) == name,
        file_name(dir + seq!['/'] + name + seq!['/']) == name,
{
    reveal_strlit(".");
    reveal_strlit("..");
    lemma_name_ends(Seq::empty(), name);
    assert(Seq::<char>::empty() + name =~= name);
    let whole = dir + seq!['/'] + name;
    lemma_name_ends(dir + seq!['/'], name);
    assert((whole + seq!['/']).drop_last() =~= whole);
}

proof fn lemma_name_ends(head: Seq<char>, name: Seq<char>)
    requires
        name.len() > 0,
        !name.contains('/'),
        name != "."@,
        head.len() == 0 || head.last() == '/',
    ensures
        strip_end(head + name) == head + name,
        last_part(head + name) == name,
{
    reveal_strlit(".");
    let whole = head + name;
    assert(whole.last() == name.last());
    assert(name.contains(name.last()));
    if whole.len() > 1 && whole.last() == '.' && whole[whole.len() - 2] == '/' {
        if name.len() == 1 {
            assert(name =~= "."@);
        } else {
            assert(whole[whole.len() - 2] == name[name.len() - 2]);
            assert(name.contains(name[name.len() - 2]));
        }
    }
    lemma_rfind_in(head, name, name.len());
    assert(whole.take(whole.len() as int) =~= whole);
    assert(name.take(name.len() as int) =~= name);
    assert(whole.skip(head.len() as int) =~= name);
}

proof fn lemma_rfind_in(head: Seq<char>, name: Seq<char>, n: nat)
    requires
        !name.contains('/'),
        n <= name.len(),
        head.len() == 0 || head.last() == '/',
    ensures
        text::rfind_char(head + name.take(n as int), '/') == head.len() - 1,
    decreases n,
{
    let s = head + name.take(n as int);
    if n > 0 {
        lemma_rfind_in(head, name, (n - 1) as nat);
        assert(s.last() == name[n - 1]);
        assert(name.contains(name[n - 1]));
        assert(s.drop_last() =~= head + name.take(n - 1));
    } else {
        assert(s =~= head);
    }
}

/// Every group of a report is described, by its number, its lines in both files and its size.
pub proof fn law_groups_are_described(
    acc: Seq<char>,
    groups: Seq<CpitdCloneGroup>,
    n: nat,
    k: int,
    p: Seq<char>,
)
    ensures
        text::contains(acc, p) ==> text::contains(with_groups(acc, groups, n), p),
        0 <= k < n ==> {
            let g = groups[k];
            let told = with_groups(acc, groups, n);
            &&& text::contains(
                told,
                text::dec((k + 1) as nat) + ". Lines "@ + text::dec(g.lines_a@[0] as nat),
            )
            &&& text::contains(told, "-"@ + text::dec(g.lines_a@[1] as nat) + " <-> Lines "@)
            &&& text::contains(told, " <-> Lines "@ + text::dec(g.lines_b@[0] as nat) + "-"@)
            &&& text::contains(told, "-"@ + text::dec(g.lines_b@[1] as nat) + " ("@)
            &&& text::contains(told, " ("@ + text::dec(g.line_count as nat) + " lines, "@)
            &&& text::contains(
                told,
                " lines, "@ + text::dec(g.token_count as nat) + " tokens)\n"@,
            )
        },
    decreases n,
{
    broadcast use {text::lemma_contains_first, text::lemma_contains_triple};

    if n > 0 {
        law_groups_are_described(acc, groups, (n - 1) as nat, k, p);
    }
}

/// The description of an issue names both files, how many lines are cloned, and all groups.
pub proof fn law_clones_are_described(report: CpitdCloneReport, k: int)
    ensures
        text::contains(clone_description(report), "`\n- `"@ + report.file_b@),
        text::contains(
            clone_description(report),
            "\n\nDetected code clones between:\n- `"@ + report.file_a@,
        ),
        text::contains(
            clone_description(report),
            "`\n\nTotal cloned lines: "@ + text::dec(report.total_cloned_lines as nat),
        ),
        0 <= k < report.groups@.len() ==> text::contains(
            clone_description(report),
            text::dec((k + 1) as nat) + ". Lines "@ + text::dec(
                report.groups@[k].lines_a@[0] as nat,
            ),
        ),
{
    let head = marker(report.file_a@, report.file_b@) + "\n\nDetected code clones between:\n- `"@
        + report.file_a@ + "`\n- `"@ + report.file_b@ + "`\n\nTotal cloned lines: "@ + text::dec(
        report.total_cloned_lines as nat,
    ) + "\n\nClone groups:\n"@;
    let a = "\n\nDetected code clones between:\n- `"@ + report.file_a@;
    let b = "`\n- `"@ + report.file_b@;
    let c = "`\n\nTotal cloned lines: "@ + text::dec(report.total_cloned_lines as nat);
    assert(text::contains(head, a) && text::contains(head, b) && text::contains(head, c)) by {
        broadcast use {text::lemma_contains_first, text::lemma_contains_pair};

    }
    let n = report.groups@.len();
    law_groups_are_described(head, report.groups@, n, k, a);
    law_groups_are_described(head, report.groups@, n, k, b);
    law_groups_are_described(head, report.groups@, n, k, c);
    broadcast use text::lemma_contains_first;

}

/// The title of an issue names both files, shortened, and how many lines are cloned.
pub proof fn law_titles_name_the_files(report: CpitdCloneReport)
    ensures
        text::has_prefix(clone_title(report), "Code clone: "@ + file_name(report.file_a@)),
        text::contains(clone_title(report), " <-> "@ + file_name(report.file_b@)),
        text::contains(
            clone_title(report),
            " ("@ + text::dec(report.total_cloned_lines as nat) + " lines)"@,
        ),
{
    broadcast use {
        text::lemma_contains_self,
        text::lemma_contains_first,
        text::lemma_contains_pair,
        text::lemma_contains_triple,
    };

    let head = "Code clone: "@ + file_name(report.file_a@);
    assert(clone_title(report).take(head.len() as int) =~= head);
}

/// The issue that is found is the first that holds the mark; none is found exactly where no issue
/// holds it.
pub proof fn law_first_marked_issue_is_found(
    issues: Seq<(i64, Option<Seq<char>>)>,
    mark: Seq<char>,
    n: nat,
)
    ensures
        marked_issue(issues, mark, n) matches Some(id) ==> exists|i: int|
            n <= i < issues.len() && (#[trigger] issues[i]).0 == id && has_mark(issues[i].1, mark)
                && forall|j: int| n <= j < i ==> !has_mark((#[trigger] issues[j]).1, mark),
        marked_issue(issues, mark, n) is None <==> forall|i: int|
            n <= i < issues.len() ==> !has_mark((#[trigger] issues[i]).1, mark),
    decreases issues.len() - n,
{
    if n < issues.len() {
        if has_mark(issues[n as int].1, mark) {
            assert(issues[n as int].0 == marked_issue(issues, mark, n)->0);
        } else {
            law_first_marked_issue_is_found(issues, mark, n + 1);
            if let Some(id) = marked_issue(issues, mark, n + 1) {
                let i = choose|i: int|
                    n + 1 <= i < issues.len() && (#[trigger] issues[i]).0 == id && has_mark(
                        issues[i].1,
                        mark,
                    ) && forall|j: int|
                        n + 1 <= j < i ==> !has_mark((#[trigger] issues[j]).1, mark);
                assert(issues[i].0 == id);
            }
        }
    }
}

/// The comment on an issue whose clones are still there tells how many lines and groups there are.
pub proof fn law_rescans_are_told(report: CpitdCloneReport)
    ensures
        text::contains(
            rescan_comment(report),
            text::dec(report.total_cloned_lines as nat) + " total cloned lines, "@,
        ),
        text::has_suffix(rescan_comment(report), text::dec(report.groups@.len()) + " group(s)"@),
{
    broadcast use {
        text::lemma_contains_first,
        text::lemma_contains_pair,
        text::lemma_suffix_of_pair,
    };

}

/// Two created issues are related exactly where they have a file in common.
pub proof fn law_issues_on_one_file_are_related(
    created: Seq<(i64, Seq<char>, Seq<char>)>,
    n: nat,
    j: int,
    k: int,
)
    requires
        0 <= j < k < n,
    ensures
        share_file(created[j], created[k]) ==> relations(created, n).contains(
            (created[j].0, created[k].0),
        ),
        forall|p: (i64, i64)| #[trigger]
            relations(created, n).contains(p) ==> exists|a: int, b: int|
                0 <= a <= b < n && p == ((#[trigger] created[a]).0, (#[trigger] created[b]).0)
                    && share_file(created[a], created[b]),
{
    if share_file(created[j], created[k]) {
        lemma_related(created, n, j, k);
    }
    lemma_only_related(created, n);
}

proof fn lemma_related_to(created: Seq<(i64, Seq<char>, Seq<char>)>, k: int, n: nat, j: int)
    requires
        0 <= j < n,
        share_file(created[j], created[k]),
    ensures
        relations_to(created, k, n).contains((created[j].0, created[k].0)),
    decreases n,
{
    let head = relations_to(created, k, (n - 1) as nat);
    let all = relations_to(created, k, n);
    let p = (created[j].0, created[k].0);
    if j == n - 1 {
        assert(all.last() == p);
    } else {
        lemma_related_to(created, k, (n - 1) as nat, j);
        let i = choose|i: int| 0 <= i < head.len() && head[i] == p;
        assert(all[i] == p);
    }
}

proof fn lemma_related(created: Seq<(i64, Seq<char>, Seq<char>)>, n: nat, j: int, k: int)
    requires
        0 <= j < k < n,
        share_file(created[j], created[k]),
    ensures
        relations(created, n).contains((created[j].0, created[k].0)),
    decreases n,
{
    let before = relations(created, (n - 1) as nat);
    let own = relations_to(created, n - 1, (n - 1) as nat);
    let all = relations(created, n);
    let p = (created[j].0, created[k].0);
    if k == n - 1 {
        lemma_related_to(created, k, (n - 1) as nat, j);
        let i = choose|i: int| 0 <= i < own.len() && own[i] == p;
        assert((before + own)[before.len() + i] == p);
        assert(all[before.len() + i] == p);
    } else {
        lemma_related(created, (n - 1) as nat, j, k);
        let i = choose|i: int| 0 <= i < before.len() && before[i] == p;
        assert((before + own)[i] == p);
        assert(all[i] == p);
    }
}

proof fn lemma_only_related_to(created: Seq<(i64, Seq<char>, Seq<char>)>, k: int, n: nat)
    ensures
        forall|p: (i64, i64)| #[trigger]
            relations_to(created, k, n).contains(p) ==> exists|a: int|
                0 <= a < n && p == ((#[trigger] created[a]).0, created[k].0) && share_file(
                    created[a],
                    created[k],
                ),
    decreases n,
{
    if n > 0 {
        lemma_only_related_to(created, k, (n - 1) as nat);
        let head = relations_to(created, k, (n - 1) as nat);
        let all = relations_to(created, k, n);
        assert forall|p: (i64, i64)| #[trigger] all.contains(p) implies exists|a: int|
            0 <= a < n && p == ((#[trigger] created[a]).0, created[k].0) && share_file(
                created[a],
                created[k],
            ) by {
            let i = choose|i: int| 0 <= i < all.len() && all[i] == p;
            if i < head.len() {
                assert(head[i] == p);
                assert(head.contains(p));
            } else {
                assert(p == (created[n - 1].0, created[k].0));
            }
        }
    }
}

proof fn lemma_only_related(created: Seq<(i64, Seq<char>, Seq<char>)>, n: nat)
    ensures
        forall|p: (i64, i64)| #[trigger]
            relations(created, n).contains(p) ==> exists|a: int, b: int|
                0 <= a <= b < n && p == ((#[trigger] created[a]).0, (#[trigger] created[b]).0)
                    && share_file(created[a], created[b]),
    decreases n,
{
    if n > 0 {
        lemma_only_related(created, (n - 1) as nat);
        lemma_only_related_to(created, n - 1, (n - 1) as nat);
        let before = relations(created, (n - 1) as nat);
        let own = relations_to(created, n - 1, (n - 1) as nat);
        let all = relations(created, n);
        assert forall|p: (i64, i64)| #[trigger] all.contains(p) implies exists|a: int, b: int|
            0 <= a <= b < n && p == ((#[trigger] created[a]).0, (#[trigger] created[b]).0)
                && share_file(created[a], created[b]) by {
            let i = choose|i: int| 0 <= i < all.len() && all[i] == p;
            if i < before.len() {
                assert(before[i] == p);
                assert(before.contains(p));
            } else if i < before.len() + own.len() {
                assert(own[i - before.len()] == p);
                assert(own.contains(p));
                let a = choose|a: int|
                    0 <= a < n - 1 && p == ((#[trigger] created[a]).0, created[n - 1].0)
                        && share_file(created[a], created[n - 1]);
                assert(p == (created[a].0, created[n - 1].0));
            } else {
                assert(p == (created[n - 1].0, created[n - 1].0));
            }
        }
    }
}

/// A single issue is related to none.
pub proof fn law_single_issues_are_not_related(
    created: &Vec<(i64, String, String)>,
    r: Vec<(i64, i64)>,
)
    requires
        call_ensures(relate_clone_issues, (created,), r),
    ensures
        created@.len() <= 1 ==> r@.len() == 0,
        created@.len() > 1 ==> r@ == relations(created_views(created@), created@.len()),
{
}

/// A dry run tells what would be created for every report, whether it is quiet or not.
pub proof fn law_dry_runs_tell_every_report(output: CpitdOutput, quiet: bool, k: int)
    ensures
        0 <= k < output.clone_reports@.len() ==> {
            let r = output.clone_reports@[k];
            &&& text::contains(
                dry_run_text(output, quiet),
                "  Would create: "@ + r.file_a@ + " <-> "@,
            )
            &&& text::contains(dry_run_text(output, quiet), " <-> "@ + r.file_b@ + " ("@)
            &&& text::contains(
                dry_run_text(output, quiet),
                " ("@ + text::dec(r.total_cloned_lines as nat) + " lines, "@,
            )
            &&& text::contains(
                dry_run_text(output, quiet),
                " lines, "@ + text::dec(r.groups@.len()) + " group(s))\n"@,
            )
        },
        output.clone_reports@.len() > 0 && !quiet ==> text::contains(
            dry_run_text(output, quiet),
            "Found "@ + text::dec(output.total_pairs as nat),
        ),
        output.clone_reports@.len() == 0 && !quiet ==> dry_run_text(output, quiet)
            == "No code clones detected.\n"@,
        output.clone_reports@.len() == 0 && quiet ==> dry_run_text(output, quiet) == ""@,
{
    let found = "Found "@ + text::dec(output.total_pairs as nat);
    let head = found + " clone pair(s).\n\n"@;
    text::lemma_contains_self(found);
    text::lemma_contains_first(found, " clone pair(s).\n\n"@, found);
    lemma_reports_told(head, output.clone_reports@, output.clone_reports@.len(), k, found);
    lemma_reports_told(""@, output.clone_reports@, output.clone_reports@.len(), k, found);
}

proof fn lemma_reports_told(
    acc: Seq<char>,
    reports: Seq<CpitdCloneReport>,
    n: nat,
    k: int,
    p: Seq<char>,
)
    ensures
        text::contains(acc, p) ==> text::contains(with_reports(acc, reports, n), p),
        0 <= k < n ==> {
            let r = reports[k];
            let told = with_reports(acc, reports, n);
            &&& text::contains(told, "  Would create: "@ + r.file_a@ + " <-> "@)
            &&& text::contains(told, " <-> "@ + r.file_b@ + " ("@)
            &&& text::contains(
                told,
                " ("@ + text::dec(r.total_cloned_lines as nat) + " lines, "@,
            )
            &&& text::contains(told, " lines, "@ + text::dec(r.groups@.len()) + " group(s))\n"@)
        },
    decreases n,
{
    broadcast use {text::lemma_contains_first, text::lemma_contains_triple};

    if n > 0 {
        lemma_reports_told(acc, reports, (n - 1) as nat, k, p);
    }
}

proof fn lemma_labelled(
    acc: Seq<char>,
    before: Seq<char>,
    names: Seq<Seq<char>>,
    behind: Seq<char>,
    n: nat,
    k: int,
    p: Seq<char>,
)
    ensures
        text::contains(acc, p) ==> text::contains(with_labelled(acc, before, names, behind, n), p),
        0 <= k < n ==> text::contains(
            with_labelled(acc, before, names, behind, n),
            before + names[k] + behind,
        ),
    decreases n,
{
    broadcast use {text::lemma_contains_first, text::lemma_contains_triple};

    if n > 0 {
        lemma_labelled(acc, before, names, behind, (n - 1) as nat, k, p);
    }
}

/// A scan tells every issue that it created or updated, and how many; a quiet one tells nothing.
pub proof fn law_scans_tell_every_issue(
    created: Seq<Seq<char>>,
    updated: Seq<Seq<char>>,
    k: int,
)
    ensures
        0 <= k < created.len() ==> text::contains(
            scan_text(created, updated, false),
            "  Created issue "@ + created[k] + "\n"@,
        ),
        0 <= k < updated.len() ==> text::contains(
            scan_text(created, updated, false),
            "  Updated issue "@ + updated[k] + " (clone still present)\n"@,
        ),
        created.len() + updated.len() > 0 ==> text::contains(
            scan_text(created, updated, false),
            "\ncpitd scan complete: "@ + text::dec(created.len()) + " created, "@,
        ) && text::contains(
            scan_text(created, updated, false),
            " created, "@ + text::dec(updated.len()) + " updated\n"@,
        ),
        scan_text(created, updated, true) == ""@,
        scan_text(Seq::empty(), Seq::empty(), false) == "No code clones detected.\n"@,
{
    let a = with_labelled(""@, "  Created issue "@, created, "\n"@, created.len());
    let b = with_labelled(
        a,
        "  Updated issue "@,
        updated,
        " (clone still present)\n"@,
        updated.len(),
    );
    if 0 <= k < created.len() {
        let told = "  Created issue "@ + created[k] + "\n"@;
        lemma_labelled(""@, "  Created issue "@, created, "\n"@, created.len(), k, told);
        lemma_labelled(
            a,
            "  Updated issue "@,
            updated,
            " (clone still present)\n"@,
            updated.len(),
            0,
            told,
        );
        assert(text::contains(b, told));
    }
    if 0 <= k < updated.len() {
        lemma_labelled(
            a,
            "  Updated issue "@,
            updated,
            " (clone still present)\n"@,
            updated.len(),
            k,
            ""@,
        );
    }
    broadcast use {text::lemma_contains_first, text::lemma_contains_triple};

}

/// Every open issue is listed with its number and title, and how many there are is told.
pub proof fn law_open_clones_are_listed(issues: &Vec<(String, String)>, out: String, k: int)
    requires
        call_ensures(status, (issues,), out),
    ensures
        issues@.len() == 0 ==> out@ == "No open cpitd clone issues.\n"@,
        issues@.len() > 0 ==> text::contains(
            out@,
            text::dec(issues@.len()) + " open clone issue(s):\n\n"@,
        ),
        0 <= k < issues@.len() ==> text::contains(
            out@,
            text::pad(issues@[k].0@, 5) + " "@ + issues@[k].1@,
        ),
{
    let head = text::dec(issues@.len()) + " open clone issue(s):\n\n"@;
    text::lemma_contains_self(head);
    lemma_open_listed(head, issues@, issues@.len(), k, head);
}

proof fn lemma_open_listed(
    acc: Seq<char>,
    issues: Seq<(String, String)>,
    n: nat,
    k: int,
    p: Seq<char>,
)
    ensures
        text::contains(acc, p) ==> text::contains(with_open(acc, issues, n), p),
        0 <= k < n ==> text::contains(
            with_open(acc, issues, n),
            text::pad(issues[k].0@, 5) + " "@ + issues[k].1@,
        ),
    decreases n,
{
    broadcast use {text::lemma_contains_first, text::lemma_contains_triple};

    if n > 0 {
        lemma_open_listed(acc, issues, (n - 1) as nat, k, p);
    }
}

/// How many issues were closed is told, or that there were none.
pub proof fn law_closed_clones_are_told(closed: usize, out: String)
    requires
        call_ensures(clear, (closed,), out),
    ensures
        closed == 0 ==> out@ == "No open cpitd clone issues to close.\n"@,
        closed > 0 ==> text::contains(out@, "Closed "@ + text::dec(closed as nat)),
{
    broadcast use {text::lemma_contains_self, text::lemma_contains_first};

}

/// Only a scan needs cpitd. It runs with what was asked for, and dry where that was asked for.
pub proof fn law_only_scans_need_cpitd(
    command: &CpitdCommands,
    available: bool,
    quiet: bool,
    r: Result<CpitdTask, String>,
)
    requires
        call_ensures(run, (command, available, quiet), r),
    ensures
        r is Err <==> *command is Scan && !available,
        *command is Status ==> r matches Ok(CpitdTask::Status),
        *command is Clear ==> r matches Ok(CpitdTask::Clear),
        *command matches CpitdCommands::Scan { paths, min_tokens, ignore, dry_run } ==> (available
            ==> (r matches Ok(CpitdTask::Scan { say, args, dry_run: dry }) && dry == dry_run
            && text::strs(args@) == scan_args(
            text::strs(paths@),
            min_tokens as nat,
            text::strs(ignore@),
        ) && (quiet ==> say@ == ""@))),
{
}

/// A report names its lines exactly where every group has a first and a last line in both files.
pub proof fn law_ranges_have_two_ends(report: &CpitdCloneReport, r: bool, k: int)
    requires
        call_ensures(report_has_ranges, (report,), r),
        0 <= k < report.groups@.len(),
    ensures
        r ==> report.groups@[k].lines_a@.len() >= 2 && report.groups@[k].lines_b@.len() >= 2,
        report.groups@[k].lines_a@.len() < 2 || report.groups@[k].lines_b@.len() < 2 ==> !r,
        (forall|i: int|
            0 <= i < report.groups@.len() ==> (#[trigger] report.groups@[i]).lines_a@.len() == 2
                && report.groups@[i].lines_b@.len() == 2) ==> r,
{
}

} // verus!
