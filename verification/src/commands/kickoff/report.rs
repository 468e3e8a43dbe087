//! The report that an agent leaves behind, and how it is shown.

use crate::text;
use crate::text::{dec_i64, dec_u64, eq_str, join_strs, own, pad_str, replace_str};
use vstd::prelude::*;

verus! {

/// A single criterion verdict in the validation report.
#[derive(Debug, Clone, PartialEq)]
pub struct CriterionVerdict {
    pub id: String,
    pub verdict: String,
    pub evidence: String,
}

/// Summary counts in the validation report.
#[derive(Debug, Clone, PartialEq)]
pub struct ReportSummary {
    pub total: usize,
    pub pass: usize,
    pub fail: usize,
    pub partial: usize,
    pub not_applicable: usize,
    pub needs_clarification: usize,
}

/// Timing and metrics for a single phase of agent work.
#[derive(Debug, Clone, PartialEq, Default)]
pub struct PhaseTiming {
    pub duration_s: u64,
    pub files_read: Option<u64>,
    pub files_modified: Option<u64>,
    pub lines_added: Option<u64>,
    pub lines_removed: Option<u64>,
    pub tests_run: Option<u64>,
    pub tests_passed: Option<u64>,
    pub tests_failed: Option<u64>,
    pub comments_added: Option<u64>,
    pub criteria_checked: Option<u64>,
    pub issues_found: Option<u64>,
    pub issues_fixed: Option<u64>,
}

/// Phase-level timing breakdown for a kickoff run.
#[derive(Debug, Clone, PartialEq, Default)]
pub struct PhaseTimings {
    pub exploration: Option<PhaseTiming>,
    pub planning: Option<PhaseTiming>,
    pub implementation: Option<PhaseTiming>,
    pub testing: Option<PhaseTiming>,
    pub validation: Option<PhaseTiming>,
    pub review: Option<PhaseTiming>,
}

/// The contents of a kickoff report file.
///
/// `validated_at`, `criteria` and `summary` are always there; the rest may be
/// missing in reports that older agents wrote.
#[derive(Debug, Clone, PartialEq)]
pub struct KickoffReport {
    pub validated_at: String,
    pub criteria: Vec<CriterionVerdict>,
    pub summary: ReportSummary,
    pub schema_version: Option<u32>,
    pub agent_id: Option<String>,
    pub issue_id: Option<i64>,
    pub status: Option<String>,
    pub started_at: Option<String>,
    pub completed_at: Option<String>,
    pub phases: Option<PhaseTimings>,
    pub unresolved_questions: Option<Vec<String>>,
    pub commits: Option<Vec<String>>,
    pub files_changed: Option<Vec<String>>,
}

/// Output format for the kickoff report command.
#[derive(Debug, Clone, Copy, PartialEq, Eq, Structural)]
pub enum ReportFormat {
    /// Human-readable table with symbols.
    Table,
    /// Raw JSON output.
    Json,
    /// Markdown that can go into a pull request.
    Markdown,
}

// ---------------------------------------------------------------------------
// Missing fields
// ---------------------------------------------------------------------------

/// The warnings about fields that a report should have and lacks, in order.
pub open spec fn report_warnings(report: KickoffReport) -> Seq<Seq<char>> {
    let a = if report.schema_version is None {
        seq!["Missing schema_version field"@]
    } else {
        Seq::empty()
    };
    let b = if report.agent_id is None {
        a.push("Missing agent_id field"@)
    } else {
        a
    };
    let c = if report.issue_id is None {
        b.push("Missing issue_id field"@)
    } else {
        b
    };
    if report.criteria@.len() == 0 {
        c.push("No criteria results in report"@)
    } else {
        c
    }
}

/// Check a kickoff report for missing recommended fields.
pub fn validate_kickoff_report(report: &KickoffReport) -> (warnings: Vec<String>)
    ensures
        text::strs(warnings@) == report_warnings(*report),
{
    let mut warnings: Vec<String> = Vec::new();
    if report.schema_version.is_none() {
        warnings.push(own("Missing schema_version field"));
    }
    if report.agent_id.is_none() {
        warnings.push(own("Missing agent_id field"));
    }
    if report.issue_id.is_none() {
        warnings.push(own("Missing issue_id field"));
    }
    if report.criteria.len() == 0 {
        warnings.push(own("No criteria results in report"));
    }
    assert(text::strs(warnings@) =~= report_warnings(*report));
    warnings
}

// ---------------------------------------------------------------------------
// Durations
// ---------------------------------------------------------------------------

/// A duration in words: hours and minutes, minutes and seconds, or seconds. The
/// second of two units is left out where it is zero.
pub open spec fn duration_text(secs: nat) -> Seq<char> {
    if secs >= 3600 {
        let h = text::dec(secs / 3600) + "h"@;
        let m = (secs % 3600) / 60;
        if m > 0 {
            h + " "@ + text::dec(m) + "m"@
        } else {
            h
        }
    } else if secs >= 60 {
        let m = text::dec(secs / 60) + "m"@;
        let s = secs % 60;
        if s > 0 {
            m + " "@ + text::dec(s) + "s"@
        } else {
            m
        }
    } else {
        text::dec(secs) + "s"@
    }
}

/// Format seconds as a human-readable duration string.
pub fn format_duration(secs: u64) -> (r: String)
    ensures
        r@ == duration_text(secs as nat),
{
    if secs >= 3600 {
        let mut out = dec_u64(secs / 3600);
        out.append("h");
        let m: u64 = (secs % 3600) / 60;
        if m > 0 {
            out.append(" ");
            out.append(dec_u64(m).as_str());
            out.append("m");
        }
        out
    } else if secs >= 60 {
        let mut out = dec_u64(secs / 60);
        out.append("m");
        let s: u64 = secs % 60;
        if s > 0 {
            out.append(" ");
            out.append(dec_u64(s).as_str());
            out.append("s");
        }
        out
    } else {
        let mut out = dec_u64(secs);
        out.append("s");
        out
    }
}

/// The duration of a phase, zero where the phase was not recorded.
pub open spec fn phase_secs(p: Option<PhaseTiming>) -> nat {
    match p {
        Some(t) => t.duration_s as nat,
        None => 0,
    }
}

/// The duration of all recorded phases together.
pub open spec fn total_secs(p: PhaseTimings) -> nat {
    phase_secs(p.exploration) + phase_secs(p.planning) + phase_secs(p.implementation) + phase_secs(
        p.testing,
    ) + phase_secs(p.validation) + phase_secs(p.review)
}

/// Whether the total duration of the phases can be added up in 64 bits.
pub open spec fn total_fits(report: KickoffReport) -> bool {
    report.phases matches Some(p) ==> total_secs(p) <= u64::MAX
}

fn secs_of(p: &Option<PhaseTiming>) -> (r: u64)
    ensures
        r == phase_secs(*p),
{
    match p {
        Some(t) => t.duration_s,
        None => 0,
    }
}

/// Whether the durations of the phases of a report can be added up.
pub fn durations_fit(report: &KickoffReport) -> (r: bool)
    ensures
        r == total_fits(*report),
{
    match &report.phases {
        Some(p) => {
            let total: u128 = secs_of(&p.exploration) as u128 + secs_of(&p.planning) as u128
                + secs_of(&p.implementation) as u128 + secs_of(&p.testing) as u128 + secs_of(
                &p.validation,
            ) as u128 + secs_of(&p.review) as u128;
            total <= u64::MAX as u128
        },
        None => true,
    }
}

/// Adds up the durations of the recorded phases.
pub fn total_duration(p: &PhaseTimings) -> (r: u64)
    requires
        total_secs(*p) <= u64::MAX,
    ensures
        r == total_secs(*p),
{
    secs_of(&p.exploration) + secs_of(&p.planning) + secs_of(&p.implementation) + secs_of(
        &p.testing,
    ) + secs_of(&p.validation) + secs_of(&p.review)
}

// ---------------------------------------------------------------------------
// Phase lines
// ---------------------------------------------------------------------------

/// What stands before the next metric: a comma where there is one before it.
pub open spec fn comma(detail: Seq<char>) -> Seq<char> {
    if detail.len() == 0 {
        detail
    } else {
        detail + ", "@
    }
}

/// The metrics of a phase, those that were recorded, with commas between them.
pub open spec fn phase_detail(t: PhaseTiming) -> Seq<char> {
    let a = match t.files_read {
        Some(n) => text::dec(n as nat) + " files read"@,
        None => Seq::empty(),
    };
    let b = match t.files_modified {
        Some(n) => {
            let files = comma(a) + text::dec(n as nat) + " files"@;
            match (t.lines_added, t.lines_removed) {
                (Some(added), Some(removed)) => files + ", +"@ + text::dec(added as nat) + "/-"@ + text::dec(
                    removed as nat,
                ) + " lines"@,
                _ => files,
            }
        },
        None => a,
    };
    let c = match t.tests_run {
        Some(run) => {
            let passed = match t.tests_passed {
                Some(n) => n as nat,
                None => 0,
            };
            comma(b) + text::dec(passed) + "/"@ + text::dec(run as nat) + " passed"@
        },
        None => b,
    };
    let d = match t.criteria_checked {
        Some(n) => comma(c) + text::dec(n as nat) + " criteria"@,
        None => c,
    };
    match (t.issues_found, t.issues_fixed) {
        (Some(found), Some(fixed)) => comma(d) + text::dec(found as nat) + " found/"@ + text::dec(fixed as nat)
            + " fixed"@,
        _ => d,
    }
}

/// One line of the phase table: the name in a column of sixteen characters, the
/// duration, and the metrics in brackets where there are any.
pub open spec fn phase_line(name: Seq<char>, t: PhaseTiming) -> Seq<char> {
    let head = "  "@ + text::pad(name, 16) + duration_text(t.duration_s as nat);
    let detail = phase_detail(t);
    if detail.len() == 0 {
        head + "\n"@
    } else {
        head + "  ("@ + detail + ")\n"@
    }
}

fn push_comma(detail: &mut String)
    ensures
        final(detail)@ == comma(old(detail)@),
{
    if !detail.as_str().is_empty() {
        detail.append(", ");
    }
}

fn push_number(out: &mut String, n: u64)
    ensures
        final(out)@ == old(out)@ + text::dec(n as nat),
{
    out.append(dec_u64(n).as_str());
}

/// Lists the recorded metrics of a phase.
pub fn format_phase_detail(timing: &PhaseTiming) -> (r: String)
    ensures
        r@ == phase_detail(*timing),
{
    let mut detail = String::new();
    if let Some(n) = timing.files_read {
        detail = dec_u64(n);
        detail.append(" files read");
    }
    if let Some(n) = timing.files_modified {
        push_comma(&mut detail);
        push_number(&mut detail, n);
        detail.append(" files");
        if let (Some(added), Some(removed)) = (timing.lines_added, timing.lines_removed) {
            detail.append(", +");
            push_number(&mut detail, added);
            detail.append("/-");
            push_number(&mut detail, removed);
            detail.append(" lines");
        }
    }
    if let Some(run) = timing.tests_run {
        push_comma(&mut detail);
        let passed: u64 = match timing.tests_passed {
            Some(n) => n,
            None => 0,
        };
        push_number(&mut detail, passed);
        detail.append("/");
        push_number(&mut detail, run);
        detail.append(" passed");
    }
    if let Some(n) = timing.criteria_checked {
        push_comma(&mut detail);
        push_number(&mut detail, n);
        detail.append(" criteria");
    }
    if let (Some(found), Some(fixed)) = (timing.issues_found, timing.issues_fixed) {
        push_comma(&mut detail);
        push_number(&mut detail, found);
        detail.append(" found/");
        push_number(&mut detail, fixed);
        detail.append(" fixed");
    }
    detail
}

/// Format a phase timing line with optional metrics.
pub fn format_phase_line(name: &str, timing: &PhaseTiming) -> (r: String)
    ensures
        r@ == phase_line(name@, *timing),
{
    let mut out = own("  ");
    out.append(pad_str(name, 16).as_str());
    out.append(format_duration(timing.duration_s).as_str());
    let detail = format_phase_detail(timing);
    if detail.as_str().is_empty() {
        out.append("\n");
    } else {
        out.append("  (");
        out.append(detail.as_str());
        out.append(")\n");
    }
    out
}

// ---------------------------------------------------------------------------
// The table of one report
// ---------------------------------------------------------------------------

/// The mark of a verdict in the table.
pub open spec fn verdict_symbol(verdict: Seq<char>) -> Seq<char> {
    if verdict == "pass"@ {
        "\u{2713}"@
    } else if verdict == "partial"@ {
        "~"@
    } else if verdict == "fail"@ {
        "\u{2717}"@
    } else if verdict == "not_applicable"@ {
        "-"@
    } else {
        "?"@
    }
}

/// The mark of a verdict in the table.
pub fn symbol_of(verdict: &str) -> (r: &'static str)
    ensures
        r@ == verdict_symbol(verdict@),
{
    if eq_str(verdict, "pass") {
        "\u{2713}"
    } else if eq_str(verdict, "partial") {
        "~"
    } else if eq_str(verdict, "fail") {
        "\u{2717}"
    } else if eq_str(verdict, "not_applicable") {
        "-"
    } else {
        "?"
    }
}

/// The parts of the line under the heading: issue, status and total duration,
/// each where it is known.
pub open spec fn report_meta(report: KickoffReport) -> Seq<Seq<char>> {
    let a = match report.issue_id {
        Some(id) => seq!["Issue: #"@ + text::dec_int(id as int)],
        None => Seq::empty(),
    };
    let b = match report.status {
        Some(s) => a.push("Status: "@ + s@),
        None => a,
    };
    match report.phases {
        Some(p) => if total_secs(p) > 0 {
            b.push("Duration: "@ + duration_text(total_secs(p)))
        } else {
            b
        },
        None => b,
    }
}

/// The line of a phase, where it was recorded.
pub open spec fn with_phase(acc: Seq<char>, name: Seq<char>, p: Option<PhaseTiming>) -> Seq<char> {
    match p {
        Some(t) => acc + phase_line(name, t),
        None => acc,
    }
}

/// The section on phases, where the report has one.
pub open spec fn with_phases(acc: Seq<char>, phases: Option<PhaseTimings>) -> Seq<char> {
    match phases {
        Some(p) => {
            let a = acc + "Phase Timing:\n"@;
            let b = with_phase(a, "exploration"@, p.exploration);
            let c = with_phase(b, "planning"@, p.planning);
            let d = with_phase(c, "implementation"@, p.implementation);
            let e = with_phase(d, "testing"@, p.testing);
            let f = with_phase(e, "validation"@, p.validation);
            with_phase(f, "review"@, p.review) + "\n"@
        },
        None => acc,
    }
}

/// One line for each of the first `n` criteria: mark, identifier and evidence.
pub open spec fn with_criteria(acc: Seq<char>, criteria: Seq<CriterionVerdict>, n: nat) -> Seq<char>
    decreases n,
{
    if n == 0 {
        acc
    } else {
        let c = criteria[n - 1];
        with_criteria(acc, criteria, (n - 1) as nat) + "  "@ + verdict_symbol(c.verdict@) + " "@
            + c.id@ + "  "@ + c.evidence@ + "\n"@
    }
}

/// The line that counts the verdicts.
pub open spec fn with_summary(acc: Seq<char>, s: ReportSummary) -> Seq<char> {
    let a = acc + text::dec(s.total as nat) + " criteria: "@ + text::dec(s.pass as nat) + " pass, "@ + text::dec(
        s.partial as nat,
    ) + " partial, "@ + text::dec(s.fail as nat) + " fail"@;
    let b = if s.not_applicable > 0 {
        a + ", "@ + text::dec(s.not_applicable as nat) + " n/a"@
    } else {
        a
    };
    let c = if s.needs_clarification > 0 {
        b + ", "@ + text::dec(s.needs_clarification as nat) + " unclear"@
    } else {
        b
    };
    c + "\n"@
}

/// A list of names after a label, where the report has a list and it is not empty.
pub open spec fn with_list(acc: Seq<char>, label: Seq<char>, list: Option<Vec<String>>) -> Seq<
    char,
> {
    match list {
        Some(v) => if v@.len() > 0 {
            acc + label + text::join(text::strs(v@), ", "@) + "\n"@
        } else {
            acc
        },
        None => acc,
    }
}

/// The table of a report.
pub open spec fn report_table(report: KickoffReport) -> Seq<char> {
    let a = match report.agent_id {
        Some(id) => "Kickoff Report"@ + ": "@ + id@,
        None => "Kickoff Report"@,
    };
    let b = a + "\n"@;
    let c = if report_meta(report).len() > 0 {
        b + text::join(report_meta(report), " | "@) + "\n"@
    } else {
        b
    };
    let d = with_phases(c + "\n"@, report.phases);
    let e = if report.criteria@.len() > 0 {
        with_summary(
            with_criteria(d + "Acceptance Criteria:\n"@, report.criteria@, report.criteria@.len())
                + "\n"@,
            report.summary,
        )
    } else {
        d
    };
    let f = with_list(e, "\nFiles changed: "@, report.files_changed);
    with_list(f, "Commits: "@, report.commits)
}

fn report_meta_parts(report: &KickoffReport) -> (meta: Vec<String>)
    requires
        total_fits(*report),
    ensures
        text::strs(meta@) == report_meta(*report),
{
    let mut meta: Vec<String> = Vec::new();
    if let Some(id) = report.issue_id {
        let mut part = own("Issue: #");
        part.append(dec_i64(id).as_str());
        meta.push(part);
    }
    if let Some(s) = &report.status {
        let mut part = own("Status: ");
        part.append(s.as_str());
        meta.push(part);
    }
    if let Some(p) = &report.phases {
        let total: u64 = total_duration(p);
        if total > 0 {
            let mut part = own("Duration: ");
            part.append(format_duration(total).as_str());
            meta.push(part);
        }
    }
    assert(text::strs(meta@) =~= report_meta(*report));
    meta
}

fn push_phase(out: &mut String, name: &str, p: &Option<PhaseTiming>)
    ensures
        final(out)@ == with_phase(old(out)@, name@, *p),
{
    if let Some(t) = p {
        out.append(format_phase_line(name, t).as_str());
    }
}

fn push_phases(out: &mut String, phases: &Option<PhaseTimings>)
    ensures
        final(out)@ == with_phases(old(out)@, *phases),
{
    if let Some(p) = phases {
        out.append("Phase Timing:\n");
        push_phase(out, "exploration", &p.exploration);
        push_phase(out, "planning", &p.planning);
        push_phase(out, "implementation", &p.implementation);
        push_phase(out, "testing", &p.testing);
        push_phase(out, "validation", &p.validation);
        push_phase(out, "review", &p.review);
        out.append("\n");
    }
}

fn push_criteria(out: &mut String, criteria: &Vec<CriterionVerdict>)
    ensures
        final(out)@ == with_criteria(old(out)@, criteria@, criteria@.len()),
{
    let ghost acc = out@;
    let mut i: usize = 0;
    while i < criteria.len()
        invariant
            i <= criteria.len(),
            out@ == with_criteria(acc, criteria@, i as nat),
        decreases criteria.len() - i,
    {
        let c = &criteria[i];
        out.append("  ");
        out.append(symbol_of(c.verdict.as_str()));
        out.append(" ");
        out.append(c.id.as_str());
        out.append("  ");
        out.append(c.evidence.as_str());
        out.append("\n");
        i = i + 1;
    }
}

fn push_summary(out: &mut String, s: &ReportSummary)
    ensures
        final(out)@ == with_summary(old(out)@, *s),
{
    push_number(out, s.total as u64);
    out.append(" criteria: ");
    push_number(out, s.pass as u64);
    out.append(" pass, ");
    push_number(out, s.partial as u64);
    out.append(" partial, ");
    push_number(out, s.fail as u64);
    out.append(" fail");
    if s.not_applicable > 0 {
        out.append(", ");
        push_number(out, s.not_applicable as u64);
        out.append(" n/a");
    }
    if s.needs_clarification > 0 {
        out.append(", ");
        push_number(out, s.needs_clarification as u64);
        out.append(" unclear");
    }
    out.append("\n");
}

fn push_list(out: &mut String, label: &str, list: &Option<Vec<String>>)
    ensures
        final(out)@ == with_list(old(out)@, label@, *list),
{
    if let Some(v) = list {
        if v.len() > 0 {
            out.append(label);
            out.append(join_strs(v, ", ").as_str());
            out.append("\n");
        }
    }
}

/// Format a kickoff report as a human-readable table.
pub fn format_report_table(report: &KickoffReport) -> (out: String)
    requires
        total_fits(*report),
    ensures
        out@ == report_table(*report),
{
    let mut out = own("Kickoff Report");
    if let Some(id) = &report.agent_id {
        out.append(": ");
        out.append(id.as_str());
    }
    out.append("\n");
    let meta = report_meta_parts(report);
    assert(meta@.len() == text::strs(meta@).len());
    if meta.len() > 0 {
        out.append(join_strs(&meta, " | ").as_str());
        out.append("\n");
    }
    out.append("\n");
    push_phases(&mut out, &report.phases);
    if report.criteria.len() > 0 {
        out.append("Acceptance Criteria:\n");
        push_criteria(&mut out, &report.criteria);
        out.append("\n");
        push_summary(&mut out, &report.summary);
    }
    push_list(&mut out, "\nFiles changed: ", &report.files_changed);
    push_list(&mut out, "Commits: ", &report.commits);
    out
}

// ---------------------------------------------------------------------------
// Markdown
// ---------------------------------------------------------------------------

/// A verdict as the markdown table shows it.
pub open spec fn verdict_text(verdict: Seq<char>) -> Seq<char> {
    if verdict == "pass"@ {
        "\u{2713} pass"@
    } else if verdict == "partial"@ {
        "~ partial"@
    } else if verdict == "fail"@ {
        "\u{2717} fail"@
    } else if verdict == "not_applicable"@ {
        "- n/a"@
    } else if verdict == "needs_clarification"@ {
        "? unclear"@
    } else {
        verdict
    }
}

/// A verdict as the markdown table shows it.
pub fn verdict_label(verdict: &str) -> (r: String)
    ensures
        r@ == verdict_text(verdict@),
{
    if eq_str(verdict, "pass") {
        own("\u{2713} pass")
    } else if eq_str(verdict, "partial") {
        own("~ partial")
    } else if eq_str(verdict, "fail") {
        own("\u{2717} fail")
    } else if eq_str(verdict, "not_applicable") {
        own("- n/a")
    } else if eq_str(verdict, "needs_clarification") {
        own("? unclear")
    } else {
        own(verdict)
    }
}

/// A line of a label and a value, where there is a value.
pub open spec fn with_field(acc: Seq<char>, label: Seq<char>, value: Option<String>) -> Seq<char> {
    match value {
        Some(v) => acc + label + v@ + "\n"@,
        None => acc,
    }
}

/// One table row for each of the first `n` criteria. A bar in the evidence is
/// escaped, since it would end the cell.
pub open spec fn with_rows(acc: Seq<char>, criteria: Seq<CriterionVerdict>, n: nat) -> Seq<char>
    decreases n,
{
    if n == 0 {
        acc
    } else {
        let c = criteria[n - 1];
        with_rows(acc, criteria, (n - 1) as nat) + "| "@ + c.id@ + " | "@ + verdict_text(c.verdict@)
            + " | "@ + text::replace(c.evidence@, "|"@, "\\|"@) + " |\n"@
    }
}

/// A report as markdown.
pub open spec fn report_markdown(report: KickoffReport) -> Seq<char> {
    let a = with_field("## Kickoff Report\n\n"@, "**Agent**: "@, report.agent_id);
    let b = match report.issue_id {
        Some(id) => a + "**Issue**: #"@ + text::dec_int(id as int) + "\n"@,
        None => a,
    };
    let c = with_field(b, "**Status**: "@, report.status) + "\n"@;
    if report.criteria@.len() > 0 {
        let s = report.summary;
        with_rows(
            c + "| ID | Verdict | Evidence |\n"@ + "|---|---|---|\n"@,
            report.criteria@,
            report.criteria@.len(),
        ) + "\n"@ + "**"@ + text::dec(s.total as nat) + " criteria**: "@ + text::dec(s.pass as nat)
            + " pass, "@ + text::dec(s.partial as nat) + " partial, "@ + text::dec(s.fail as nat)
            + " fail\n"@
    } else {
        c
    }
}

fn push_field(out: &mut String, label: &str, value: &Option<String>)
    ensures
        final(out)@ == with_field(old(out)@, label@, *value),
{
    if let Some(v) = value {
        out.append(label);
        out.append(v.as_str());
        out.append("\n");
    }
}

fn push_rows(out: &mut String, criteria: &Vec<CriterionVerdict>)
    ensures
        final(out)@ == with_rows(old(out)@, criteria@, criteria@.len()),
{
    let ghost acc = out@;
    proof {
        reveal_strlit("|");
    }
    let mut i: usize = 0;
    while i < criteria.len()
        invariant
            i <= criteria.len(),
            "|"@.len() > 0,
            out@ == with_rows(acc, criteria@, i as nat),
        decreases criteria.len() - i,
    {
        let c = &criteria[i];
        out.append("| ");
        out.append(c.id.as_str());
        out.append(" | ");
        out.append(verdict_label(c.verdict.as_str()).as_str());
        out.append(" | ");
        out.append(replace_str(c.evidence.as_str(), "|", "\\|").as_str());
        out.append(" |\n");
        i = i + 1;
    }
}

/// Format a kickoff report as markdown for a pull request.
pub fn format_report_markdown(report: &KickoffReport) -> (out: String)
    ensures
        out@ == report_markdown(*report),
{
    let mut out = own("## Kickoff Report\n\n");
    push_field(&mut out, "**Agent**: ", &report.agent_id);
    if let Some(id) = report.issue_id {
        out.append("**Issue**: #");
        out.append(dec_i64(id).as_str());
        out.append("\n");
    }
    push_field(&mut out, "**Status**: ", &report.status);
    out.append("\n");
    if report.criteria.len() > 0 {
        out.append("| ID | Verdict | Evidence |\n");
        out.append("|---|---|---|\n");
        push_rows(&mut out, &report.criteria);
        out.append("\n");
        out.append("**");
        push_number(&mut out, report.summary.total as u64);
        out.append(" criteria**: ");
        push_number(&mut out, report.summary.pass as u64);
        out.append(" pass, ");
        push_number(&mut out, report.summary.partial as u64);
        out.append(" partial, ");
        push_number(&mut out, report.summary.fail as u64);
        out.append(" fail\n");
    }
    out
}

// ---------------------------------------------------------------------------
// The table of all reports
// ---------------------------------------------------------------------------

/// The status of a report, `unknown` where it has none.
pub open spec fn status_text(report: KickoffReport) -> Seq<char> {
    match report.status {
        Some(s) => s@,
        None => "unknown"@,
    }
}

/// The number that an option holds, or zero.
pub open spec fn or_zero(n: Option<u64>) -> nat {
    match n {
        Some(v) => v as nat,
        None => 0,
    }
}

/// The tests of a report as passed and run, or a dash.
pub open spec fn tests_text(report: KickoffReport) -> Seq<char> {
    match report.phases {
        Some(p) => match p.testing {
            Some(t) => text::dec(or_zero(t.tests_passed)) + "/"@ + text::dec(or_zero(t.tests_run)),
            None => "-"@,
        },
        None => "-"@,
    }
}

/// The criteria of a report as passed and total, or a dash.
pub open spec fn criteria_text(report: KickoffReport) -> Seq<char> {
    if report.summary.total > 0 {
        text::dec(report.summary.pass as nat) + "/"@ + text::dec(report.summary.total as nat)
            + " pass"@
    } else {
        "-"@
    }
}

/// The duration of a report in words, or a dash.
pub open spec fn total_text(report: KickoffReport) -> Seq<char> {
    match report.phases {
        Some(p) => if total_secs(p) > 0 {
            duration_text(total_secs(p))
        } else {
            "-"@
        },
        None => "-"@,
    }
}

/// One row of five columns.
pub open spec fn row(
    acc: Seq<char>,
    a: Seq<char>,
    b: Seq<char>,
    c: Seq<char>,
    d: Seq<char>,
    e: Seq<char>,
) -> Seq<char> {
    acc + text::pad(a, 32) + " "@ + text::pad(b, 12) + " "@ + text::pad(c, 10) + " "@ + text::pad(
        d,
        14,
    ) + " "@ + e + "\n"@
}

/// One row for each of the first `n` agents.
pub open spec fn with_agents(acc: Seq<char>, reports: Seq<(&str, KickoffReport)>, n: nat) -> Seq<
    char,
>
    decreases n,
{
    if n == 0 {
        acc
    } else {
        let r = reports[n - 1].1;
        row(
            with_agents(acc, reports, (n - 1) as nat),
            reports[n - 1].0@,
            status_text(r),
            tests_text(r),
            criteria_text(r),
            total_text(r),
        )
    }
}

/// How many of the first `n` reports have the given status.
pub open spec fn count_status(
    reports: Seq<(&str, KickoffReport)>,
    status: Seq<char>,
    n: nat,
) -> nat
    decreases n,
{
    if n == 0 {
        0
    } else {
        count_status(reports, status, (n - 1) as nat) + if status_text(reports[n - 1].1) == status {
            1nat
        } else {
            0nat
        }
    }
}

/// The table of all reports.
pub open spec fn report_all_table(reports: Seq<(&str, KickoffReport)>) -> Seq<char> {
    let head = "Agent Kickoff Summary ("@ + text::dec(reports.len()) + " agents)\n\n"@;
    let columns = row(head, "Agent"@, "Status"@, "Tests"@, "Criteria"@, "Duration"@);
    with_agents(columns, reports, reports.len()) + "\nTotal: "@ + text::dec(
        count_status(reports, "completed"@, reports.len()),
    ) + " completed, "@ + text::dec(count_status(reports, "failed"@, reports.len())) + " failed\n"@
}

/// No status is counted more often than there are reports.
pub proof fn lemma_count_status_bound(
    reports: Seq<(&str, KickoffReport)>,
    status: Seq<char>,
    n: nat,
)
    requires
        n <= reports.len(),
    ensures
        count_status(reports, status, n) <= n,
    decreases n,
{
    if n > 0 {
        lemma_count_status_bound(reports, status, (n - 1) as nat);
    }
}

fn push_row(out: &mut String, a: &str, b: &str, c: &str, d: &str, e: &str)
    ensures
        final(out)@ == row(old(out)@, a@, b@, c@, d@, e@),
{
    out.append(pad_str(a, 32).as_str());
    out.append(" ");
    out.append(pad_str(b, 12).as_str());
    out.append(" ");
    out.append(pad_str(c, 10).as_str());
    out.append(" ");
    out.append(pad_str(d, 14).as_str());
    out.append(" ");
    out.append(e);
    out.append("\n");
}

fn number_or_zero(n: Option<u64>) -> (r: u64)
    ensures
        r == or_zero(n),
{
    match n {
        Some(v) => v,
        None => 0,
    }
}

fn status_of(report: &KickoffReport) -> (r: String)
    ensures
        r@ == status_text(*report),
{
    match &report.status {
        Some(s) => own(s.as_str()),
        None => own("unknown"),
    }
}

fn tests_of(report: &KickoffReport) -> (r: String)
    ensures
        r@ == tests_text(*report),
{
    if let Some(p) = &report.phases {
        if let Some(t) = &p.testing {
            let mut out = dec_u64(number_or_zero(t.tests_passed));
            out.append("/");
            push_number(&mut out, number_or_zero(t.tests_run));
            return out;
        }
    }
    own("-")
}

fn criteria_of(report: &KickoffReport) -> (r: String)
    ensures
        r@ == criteria_text(*report),
{
    if report.summary.total > 0 {
        let mut out = dec_u64(report.summary.pass as u64);
        out.append("/");
        push_number(&mut out, report.summary.total as u64);
        out.append(" pass");
        out
    } else {
        own("-")
    }
}

fn total_of(report: &KickoffReport) -> (r: String)
    requires
        total_fits(*report),
    ensures
        r@ == total_text(*report),
{
    if let Some(p) = &report.phases {
        let total: u64 = total_duration(p);
        if total > 0 {
            return format_duration(total);
        }
    }
    own("-")
}

/// Format an aggregated summary of all agent reports. The two counters are 32
/// bits wide.
pub fn format_report_all_table(reports: &[(&str, KickoffReport)]) -> (out: String)
    requires
        reports@.len() <= u32::MAX,
        forall|i: int| 0 <= i < reports@.len() ==> total_fits((#[trigger] reports@[i]).1),
    ensures
        out@ == report_all_table(reports@),
{
    let mut out = own("Agent Kickoff Summary (");
    push_number(&mut out, reports.len() as u64);
    out.append(" agents)\n\n");
    push_row(&mut out, "Agent", "Status", "Tests", "Criteria", "Duration");
    let ghost columns = out@;
    let mut completed: u32 = 0;
    let mut failed: u32 = 0;
    let mut i: usize = 0;
    proof {
        reveal_strlit("completed");
        reveal_strlit("failed");
    }
    while i < reports.len()
        invariant
            i <= reports.len(),
            reports@.len() <= u32::MAX,
            "completed"@.len() != "failed"@.len(),
            forall|k: int| 0 <= k < reports@.len() ==> total_fits((#[trigger] reports@[k]).1),
            out@ == with_agents(columns, reports@, i as nat),
            completed == count_status(reports@, "completed"@, i as nat),
            failed == count_status(reports@, "failed"@, i as nat),
        decreases reports.len() - i,
    {
        let entry = &reports[i];
        let report = &entry.1;
        let status = status_of(report);
        proof {
            lemma_count_status_bound(reports@, "completed"@, i as nat);
            lemma_count_status_bound(reports@, "failed"@, i as nat);
        }
        if eq_str(status.as_str(), "completed") {
            completed = completed + 1;
        } else if eq_str(status.as_str(), "failed") {
            failed = failed + 1;
        }
        push_row(
            &mut out,
            entry.0,
            status.as_str(),
            tests_of(report).as_str(),
            criteria_of(report).as_str(),
            total_of(report).as_str(),
        );
        i = i + 1;
    }
    out.append("\nTotal: ");
    push_number(&mut out, completed as u64);
    out.append(" completed, ");
    push_number(&mut out, failed as u64);
    out.append(" failed\n");
    out
}

// ---------------------------------------------------------------------------
// Laws
// ---------------------------------------------------------------------------

/// Whether a verdict is one of those that an agent is asked for.
pub open spec fn is_verdict(v: Seq<char>) -> bool {
    v == "pass"@ || v == "partial"@ || v == "fail"@ || v == "not_applicable"@ || v
        == "needs_clarification"@
}

proof fn lemma_verdicts_differ()
    ensures
        "pass"@.len() == 4,
        "partial"@.len() == 7,
        "fail"@.len() == 4,
        "not_applicable"@.len() == 14,
        "needs_clarification"@.len() == 19,
        "pass"@ != "fail"@,
{
    reveal_strlit("pass");
    reveal_strlit("partial");
    reveal_strlit("fail");
    reveal_strlit("not_applicable");
    reveal_strlit("needs_clarification");
    assert("pass"@[0] != "fail"@[0]);
}

/// Different verdicts are shown by different texts. The text of a criterion that passes, passes
/// in part or fails ends with the verdict's own name, and a verdict that is not known is shown as it is.
pub proof fn law_verdicts_are_told_apart(a: Seq<char>, b: Seq<char>)
    ensures
        is_verdict(a) && is_verdict(b) && a != b ==> verdict_text(a) != verdict_text(b),
        a == "pass"@ || a == "partial"@ || a == "fail"@ ==> text::has_suffix(verdict_text(a), a),
        !is_verdict(a) ==> verdict_text(a) == a,
{
    lemma_verdicts_differ();
    reveal_strlit("pass");
    reveal_strlit("partial");
    reveal_strlit("fail");
    reveal_strlit("\u{2713} pass");
    reveal_strlit("~ partial");
    reveal_strlit("\u{2717} fail");
    reveal_strlit("- n/a");
    reveal_strlit("? unclear");
    assert("\u{2713} pass"@[2] != "\u{2717} fail"@[2]);
    assert("~ partial"@[0] != "? unclear"@[0]);
    assert("\u{2713} pass"@.skip(2) =~= "pass"@);
    assert("~ partial"@.skip(2) =~= "partial"@);
    assert("\u{2717} fail"@.skip(2) =~= "fail"@);
}

/// In the table, verdicts that settle a criterion have marks of their own: nothing but a pass is
/// marked as one.
pub proof fn law_marks_are_told_apart(a: Seq<char>, b: Seq<char>)
    ensures
        is_verdict(a) && is_verdict(b) && a != b ==> verdict_symbol(a) != verdict_symbol(b),
        verdict_symbol(a) == verdict_symbol("pass"@) <==> a == "pass"@,
        verdict_symbol(a) == verdict_symbol("fail"@) <==> a == "fail"@,
{
    lemma_verdicts_differ();
    reveal_strlit("\u{2713}");
    reveal_strlit("~");
    reveal_strlit("\u{2717}");
    reveal_strlit("-");
    reveal_strlit("?");
    assert("\u{2713}"@[0] != "\u{2717}"@[0] && "\u{2713}"@[0] != "~"@[0] && "\u{2713}"@[0] != "-"@[0]
        && "\u{2713}"@[0] != "?"@[0]);
    assert("\u{2717}"@[0] != "~"@[0] && "\u{2717}"@[0] != "-"@[0] && "\u{2717}"@[0] != "?"@[0]);
    assert("~"@[0] != "-"@[0] && "~"@[0] != "?"@[0] && "-"@[0] != "?"@[0]);
}

/// A criterion as a row of the markdown table.
pub open spec fn markdown_row(c: CriterionVerdict) -> Seq<char> {
    "| "@ + c.id@ + " | "@ + verdict_text(c.verdict@) + " | "@ + text::replace(
        c.evidence@,
        "|"@,
        "\\|"@,
    ) + " |\n"@
}

proof fn lemma_rows(acc: Seq<char>, criteria: Seq<CriterionVerdict>, n: nat, k: int)
    requires
        0 <= k < n <= criteria.len(),
    ensures
        text::contains(with_rows(acc, criteria, n), markdown_row(criteria[k])),
        text::contains(with_rows(acc, criteria, n), acc),
    decreases n,
{
    broadcast use {text::lemma_contains_self, text::lemma_contains_first, text::lemma_contains_second};

    let head = with_rows(acc, criteria, (n - 1) as nat);
    let last = markdown_row(criteria[n - 1]);
    assert(with_rows(acc, criteria, n) =~= head + last);
    if n > 1 {
        lemma_rows(acc, criteria, (n - 1) as nat, if k < n - 1 { k } else { 0 });
    }
    if k < n - 1 {
        text::lemma_contains_first(head, last, markdown_row(criteria[k]));
    }
    text::lemma_contains_second(head, last, last);
    text::lemma_contains_first(head, last, acc);
}

/// The markdown of a report has a row for every criterion, with its identifier, its verdict and
/// its evidence, and tells the agent, the issue and the status.
pub proof fn law_markdown_shows_the_report(report: KickoffReport, k: int)
    ensures
        0 <= k < report.criteria@.len() ==> text::contains(
            report_markdown(report),
            "| "@ + report.criteria@[k].id@ + " | "@ + verdict_text(report.criteria@[k].verdict@)
                + " | "@ + text::replace(report.criteria@[k].evidence@, "|"@, "\\|"@) + " |\n"@,
        ),
        report.agent_id matches Some(id) ==> text::contains(report_markdown(report), id@),
        report.issue_id matches Some(id) ==> text::contains(
            report_markdown(report),
            "#"@ + text::dec_int(id as int),
        ),
        report.status matches Some(s) ==> text::contains(report_markdown(report), s@),
        report.criteria@.len() > 0 ==> text::contains(
            report_markdown(report),
            text::dec(report.summary.pass as nat) + " pass, "@ + text::dec(
                report.summary.partial as nat,
            ) + " partial, "@ + text::dec(report.summary.fail as nat) + " fail"@,
        ),
{
    broadcast use {text::lemma_contains_self, text::lemma_contains_first, text::lemma_contains_second};

    let a = with_field("## Kickoff Report\n\n"@, "**Agent**: "@, report.agent_id);
    let b = match report.issue_id {
        Some(id) => a + "**Issue**: #"@ + text::dec_int(id as int) + "\n"@,
        None => a,
    };
    if let Some(id) = report.issue_id {
        let n = "#"@ + text::dec_int(id as int);
        reveal_strlit("**Issue**: #");
        reveal_strlit("**Issue**: ");
        reveal_strlit("#");
        assert("**Issue**: #"@ =~= "**Issue**: "@ + "#"@);
        assert(b =~= a + "**Issue**: "@ + n + "\n"@);
        text::lemma_contains_second(a + "**Issue**: "@, n, n);
        text::lemma_contains_first(a + "**Issue**: "@ + n, "\n"@, n);
        assert(text::contains(b, n));
    }
    let c = with_field(b, "**Status**: "@, report.status) + "\n"@;
    if let Some(id) = report.agent_id {
        assert(text::contains(a, id@));
        assert(text::contains(b, id@));
        assert(text::contains(c, id@));
    }
    if let Some(s) = report.status {
        assert(text::contains(c, s@));
    }
    if let Some(id) = report.issue_id {
        assert(text::contains(c, "#"@ + text::dec_int(id as int)));
    }
    if report.criteria@.len() > 0 {
        let head = c + "| ID | Verdict | Evidence |\n"@ + "|---|---|---|\n"@;
        let n = report.criteria@.len();
        let rows = with_rows(head, report.criteria@, n);
        let i = if 0 <= k < n {
            k
        } else {
            0
        };
        lemma_rows(head, report.criteria@, n, i);
        let s = report.summary;
        let counts = text::dec(s.pass as nat) + " pass, "@ + text::dec(s.partial as nat)
            + " partial, "@ + text::dec(s.fail as nat) + " fail"@;
        reveal_strlit(" fail");
        reveal_strlit(" fail\n");
        reveal_strlit("\n");
        assert(" fail\n"@ =~= " fail"@ + "\n"@);
        let lead = rows + "\n"@ + "**"@ + text::dec(s.total as nat) + " criteria**: "@;
        assert(report_markdown(report) =~= lead + counts + "\n"@);
        text::lemma_contains_second(lead, counts, counts);
        text::lemma_contains_first(lead + counts, "\n"@, counts);
        lemma_head_stays(head, rows, lead, counts, report);
        assert(text::contains(rows, markdown_row(report.criteria@[i])));
        assert(text::contains(lead, markdown_row(report.criteria@[i])));
        text::lemma_contains_first(lead, counts, markdown_row(report.criteria@[i]));
        text::lemma_contains_first(lead + counts, "\n"@, markdown_row(report.criteria@[i]));
        if let Some(id) = report.agent_id {
            text::lemma_contains_transitive(report_markdown(report), c, id@);
        }
        if let Some(st) = report.status {
            text::lemma_contains_transitive(report_markdown(report), c, st@);
        }
        if let Some(id) = report.issue_id {
            text::lemma_contains_transitive(
                report_markdown(report),
                c,
                "#"@ + text::dec_int(id as int),
            );
        }
    }
}

proof fn lemma_head_stays(
    head: Seq<char>,
    rows: Seq<char>,
    lead: Seq<char>,
    counts: Seq<char>,
    report: KickoffReport,
)
    requires
        text::contains(rows, head),
        lead == rows + "\n"@ + "**"@ + text::dec(report.summary.total as nat) + " criteria**: "@,
        report_markdown(report) == lead + counts + "\n"@,
    ensures
        text::contains(report_markdown(report), head),
        forall|c: Seq<char>| text::contains(head, c) ==> #[trigger] text::contains(
            report_markdown(report),
            c,
        ),
{
    broadcast use {text::lemma_contains_self, text::lemma_contains_first, text::lemma_contains_second};

    assert(text::contains(lead, head));
    text::lemma_contains_first(lead, counts, head);
    text::lemma_contains_first(lead + counts, "\n"@, head);
    assert forall|c: Seq<char>| text::contains(head, c) implies #[trigger] text::contains(
        report_markdown(report),
        c,
    ) by {
        text::lemma_contains_transitive(report_markdown(report), head, c);
    }
}

proof fn lemma_criteria_lines(acc: Seq<char>, criteria: Seq<CriterionVerdict>, n: nat, k: int)
    requires
        0 <= k < n <= criteria.len(),
    ensures
        text::contains(
            with_criteria(acc, criteria, n),
            "  "@ + verdict_symbol(criteria[k].verdict@) + " "@ + criteria[k].id@ + "  "@
                + criteria[k].evidence@ + "\n"@,
        ),
    decreases n,
{
    let c = criteria[n - 1];
    let head = with_criteria(acc, criteria, (n - 1) as nat);
    let last = "  "@ + verdict_symbol(c.verdict@) + " "@ + c.id@ + "  "@ + c.evidence@ + "\n"@;
    assert(with_criteria(acc, criteria, n) =~= head + last);
    text::lemma_contains_self(last);
    text::lemma_contains_second(head, last, last);
    if k < n - 1 {
        lemma_criteria_lines(acc, criteria, (n - 1) as nat, k);
        text::lemma_contains_first(
            head,
            last,
            "  "@ + verdict_symbol(criteria[k].verdict@) + " "@ + criteria[k].id@ + "  "@
                + criteria[k].evidence@ + "\n"@,
        );
    }
}

/// The table of a report has a line for every criterion, with the mark of its verdict, its
/// identifier and its evidence, and counts the verdicts as the report does.
pub proof fn law_table_shows_every_criterion(report: KickoffReport, k: int)
    requires
        0 <= k < report.criteria@.len(),
    ensures
        text::contains(
            report_table(report),
            "  "@ + verdict_symbol(report.criteria@[k].verdict@) + " "@ + report.criteria@[k].id@
                + "  "@ + report.criteria@[k].evidence@ + "\n"@,
        ),
        text::contains(
            report_table(report),
            text::dec(report.summary.pass as nat) + " pass, "@ + text::dec(
                report.summary.partial as nat,
            ) + " partial, "@ + text::dec(report.summary.fail as nat) + " fail"@,
        ),
{
    broadcast use {text::lemma_contains_self, text::lemma_contains_first, text::lemma_contains_second};

    let a = match report.agent_id {
        Some(id) => "Kickoff Report"@ + ": "@ + id@,
        None => "Kickoff Report"@,
    };
    let b = a + "\n"@;
    let c = if report_meta(report).len() > 0 {
        b + text::join(report_meta(report), " | "@) + "\n"@
    } else {
        b
    };
    let d = with_phases(c + "\n"@, report.phases);
    let lines = with_criteria(
        d + "Acceptance Criteria:\n"@,
        report.criteria@,
        report.criteria@.len(),
    );
    lemma_criteria_lines(d + "Acceptance Criteria:\n"@, report.criteria@, report.criteria@.len(), k);
    let s = report.summary;
    let lead = lines + "\n"@ + text::dec(s.total as nat) + " criteria: "@;
    let counts = text::dec(s.pass as nat) + " pass, "@ + text::dec(s.partial as nat) + " partial, "@
        + text::dec(s.fail as nat) + " fail"@;
    let plain = lines + "\n"@ + text::dec(s.total as nat) + " criteria: "@ + text::dec(
        s.pass as nat,
    ) + " pass, "@ + text::dec(s.partial as nat) + " partial, "@ + text::dec(s.fail as nat)
        + " fail"@;
    assert(plain =~= lead + counts);
    text::lemma_contains_second(lead, counts, counts);
    let e = with_summary(lines + "\n"@, s);
    assert(text::contains(e, counts));
    let f = with_list(e, "\nFiles changed: "@, report.files_changed);
    assert(text::contains(f, counts));
    let line = "  "@ + verdict_symbol(report.criteria@[k].verdict@) + " "@ + report.criteria@[k].id@
        + "  "@ + report.criteria@[k].evidence@ + "\n"@;
    assert(text::contains(e, line));
    assert(text::contains(f, line));
}

/// The table of a report names its agent, its issue and its status, and each of the commits and
/// changed files that it lists.
pub proof fn law_table_shows_the_rest(report: KickoffReport, k: int)
    ensures
        report.agent_id matches Some(id) ==> text::contains(report_table(report), id@),
        report.issue_id matches Some(id) ==> text::in_one(
            report_meta(report),
            "#"@ + text::dec_int(id as int),
        ),
        report.status matches Some(s) ==> text::in_one(report_meta(report), s@),
        report_meta(report).len() > 0 ==> text::contains(
            report_table(report),
            text::join(report_meta(report), " | "@),
        ),
        report.commits matches Some(v) ==> (0 <= k < v@.len() ==> text::contains(
            report_table(report),
            v@[k]@,
        )),
        report.files_changed matches Some(v) ==> (0 <= k < v@.len() ==> text::contains(
            report_table(report),
            v@[k]@,
        )),
{
    broadcast use {text::lemma_contains_self, text::lemma_contains_first, text::lemma_contains_second};

    let a = match report.agent_id {
        Some(id) => "Kickoff Report"@ + ": "@ + id@,
        None => "Kickoff Report"@,
    };
    let b = a + "\n"@;
    let meta = report_meta(report);
    let c = if meta.len() > 0 {
        b + text::join(meta, " | "@) + "\n"@
    } else {
        b
    };
    if let Some(id) = report.issue_id {
        let n = "#"@ + text::dec_int(id as int);
        reveal_strlit("Issue: #");
        reveal_strlit("Issue: ");
        reveal_strlit("#");
        assert("Issue: #"@ =~= "Issue: "@ + "#"@);
        assert(meta[0] =~= "Issue: "@ + n);
        text::lemma_contains_second("Issue: "@, n, n);
        assert(text::contains(meta[0], n));
    }
    if let Some(s) = report.status {
        let i: int = if report.issue_id is Some {
            1
        } else {
            0
        };
        assert(meta[i] == "Status: "@ + s@);
        assert(text::contains(meta[i], s@));
    }
    let d = with_phases(c + "\n"@, report.phases);
    lemma_phases_keep(c + "\n"@, report.phases);
    let e = if report.criteria@.len() > 0 {
        let n = report.criteria@.len();
        let lines = with_criteria(d + "Acceptance Criteria:\n"@, report.criteria@, n);
        lemma_criteria_keep(d + "Acceptance Criteria:\n"@, report.criteria@, n);
        text::lemma_contains_transitive(lines, d + "Acceptance Criteria:\n"@, d);
        assert(text::contains(with_summary(lines + "\n"@, report.summary), lines));
        text::lemma_contains_transitive(with_summary(lines + "\n"@, report.summary), lines, d);
        with_summary(lines + "\n"@, report.summary)
    } else {
        d
    };
    assert(text::contains(e, d));
    let f = with_list(e, "\nFiles changed: "@, report.files_changed);
    let g = with_list(f, "Commits: "@, report.commits);
    assert(text::contains(f, e));
    assert(text::contains(g, f));
    text::lemma_contains_transitive(g, f, e);
    text::lemma_contains_transitive(g, e, d);
    text::lemma_contains_transitive(g, d, c);
    if let Some(id) = report.agent_id {
        assert(text::contains(b, id@));
        assert(text::contains(c, id@));
        text::lemma_contains_transitive(g, c, id@);
    }
    if meta.len() > 0 {
        assert(text::contains(c, text::join(meta, " | "@)));
        text::lemma_contains_transitive(g, c, text::join(meta, " | "@));
    }
    if let Some(v) = report.commits {
        if 0 <= k < v@.len() {
            text::law_joined_text_holds_its_parts(text::strs(v@), ", "@, k);
            assert(text::strs(v@)[k] == v@[k]@);
            assert(text::contains(g, v@[k]@));
        }
    }
    if let Some(v) = report.files_changed {
        if 0 <= k < v@.len() {
            text::law_joined_text_holds_its_parts(text::strs(v@), ", "@, k);
            assert(text::strs(v@)[k] == v@[k]@);
            assert(text::contains(f, v@[k]@));
            text::lemma_contains_transitive(g, f, v@[k]@);
        }
    }
}

proof fn lemma_phases_keep(acc: Seq<char>, phases: Option<PhaseTimings>)
    ensures
        text::contains(with_phases(acc, phases), acc),
        phases matches Some(p) ==> {
            let out = with_phases(acc, phases);
            &&& p.exploration matches Some(t) ==> text::contains(out, phase_line("exploration"@, t))
            &&& p.planning matches Some(t) ==> text::contains(out, phase_line("planning"@, t))
            &&& p.implementation matches Some(t) ==> text::contains(
                out,
                phase_line("implementation"@, t),
            )
            &&& p.testing matches Some(t) ==> text::contains(out, phase_line("testing"@, t))
            &&& p.validation matches Some(t) ==> text::contains(out, phase_line("validation"@, t))
            &&& p.review matches Some(t) ==> text::contains(out, phase_line("review"@, t))
        },
{
    broadcast use {text::lemma_contains_self, text::lemma_contains_first, text::lemma_contains_second};

}

proof fn lemma_criteria_keep(acc: Seq<char>, criteria: Seq<CriterionVerdict>, n: nat)
    ensures
        text::contains(with_criteria(acc, criteria, n), acc),
    decreases n,
{
    broadcast use {text::lemma_contains_self, text::lemma_contains_first, text::lemma_contains_second};

    if n > 0 {
        lemma_criteria_keep(acc, criteria, (n - 1) as nat);
    }
}

/// The table has a line for every phase that was recorded, with its name and its duration.
pub proof fn law_phases_are_shown(acc: Seq<char>, p: PhaseTimings, name: Seq<char>, t: PhaseTiming)
    requires
        (name == "exploration"@ && p.exploration == Some(t)) || (name == "planning"@ && p.planning
            == Some(t)) || (name == "implementation"@ && p.implementation == Some(t)) || (name
            == "testing"@ && p.testing == Some(t)) || (name == "validation"@ && p.validation
            == Some(t)) || (name == "review"@ && p.review == Some(t)),
    ensures
        text::contains(
            with_phases(acc, Some(p)),
            "  "@ + text::pad(name, 16) + duration_text(t.duration_s as nat),
        ),
{
    broadcast use {text::lemma_contains_self, text::lemma_contains_first, text::lemma_contains_second};

    lemma_phases_keep(acc, Some(p));
    let head = "  "@ + text::pad(name, 16) + duration_text(t.duration_s as nat);
    assert(text::contains(phase_line(name, t), head));
    text::lemma_contains_transitive(with_phases(acc, Some(p)), phase_line(name, t), head);
}

proof fn lemma_metric(acc: Seq<char>, m: Seq<char>, p: Seq<char>)
    ensures
        text::contains(comma(acc) + m, m),
        text::contains(acc, p) ==> text::contains(comma(acc) + m, p),
{
    text::lemma_contains_self(m);
    text::lemma_contains_second(comma(acc), m, m);
    if text::contains(acc, p) {
        if acc.len() > 0 {
            text::lemma_contains_first(acc, ", "@, p);
        }
        text::lemma_contains_first(comma(acc), m, p);
    }
}

proof fn lemma_tests_metric(b: Seq<char>, passed: Seq<char>, run: Seq<char>, p: Seq<char>)
    ensures
        text::contains(
            comma(b) + passed + "/"@ + run + " passed"@,
            passed + "/"@ + run + " passed"@,
        ),
        text::contains(b, p) ==> text::contains(comma(b) + passed + "/"@ + run + " passed"@, p),
{
    text::lemma_regroup(comma(b), passed, "/"@, run, " passed"@);
    lemma_metric(b, passed + "/"@ + run + " passed"@, p);
}

proof fn lemma_short_metric(b: Seq<char>, n: Seq<char>, label: Seq<char>, p: Seq<char>)
    ensures
        text::contains(comma(b) + n + label, n + label),
        text::contains(b, p) ==> text::contains(comma(b) + n + label, p),
{
    text::lemma_regroup(comma(b), n, label, label, label);
    lemma_metric(b, n + label, p);
}

proof fn lemma_found_metric(b: Seq<char>, found: Seq<char>, fixed: Seq<char>, p: Seq<char>)
    requires
        text::contains(b, p),
    ensures
        text::contains(comma(b) + found + " found/"@ + fixed + " fixed"@, p),
{
    text::lemma_regroup(comma(b), found, " found/"@, fixed, " fixed"@);
    lemma_metric(b, found + " found/"@ + fixed + " fixed"@, p);
}

/// The metrics that were recorded of a phase are told with their numbers: of tests, how many of
/// how many passed.
pub proof fn law_metrics_are_shown(t: PhaseTiming)
    ensures
        t.tests_run matches Some(run) ==> (t.tests_passed matches Some(passed) ==> text::contains(
            phase_detail(t),
            text::dec(passed as nat) + "/"@ + text::dec(run as nat) + " passed"@,
        )),
        t.criteria_checked matches Some(n) ==> text::contains(
            phase_detail(t),
            text::dec(n as nat) + " criteria"@,
        ),
        t.files_read matches Some(n) ==> text::contains(
            phase_detail(t),
            text::dec(n as nat) + " files read"@,
        ),
{
    let a = match t.files_read {
        Some(n) => text::dec(n as nat) + " files read"@,
        None => Seq::empty(),
    };
    text::lemma_contains_self(a);
    let b = match t.files_modified {
        Some(n) => {
            let files = comma(a) + text::dec(n as nat) + " files"@;
            lemma_short_metric(a, text::dec(n as nat), " files"@, a);
            match (t.lines_added, t.lines_removed) {
                (Some(added), Some(removed)) => {
                    let x = text::dec(added as nat);
                    let y = text::dec(removed as nat);
                    text::lemma_contains_first(files, ", +"@, a);
                    text::lemma_contains_first(files + ", +"@, x, a);
                    text::lemma_contains_first(files + ", +"@ + x, "/-"@, a);
                    text::lemma_contains_first(files + ", +"@ + x + "/-"@, y, a);
                    text::lemma_contains_first(files + ", +"@ + x + "/-"@ + y, " lines"@, a);
                    files + ", +"@ + x + "/-"@ + y + " lines"@
                },
                _ => files,
            }
        },
        None => a,
    };
    let c = match t.tests_run {
        Some(run) => {
            let passed = match t.tests_passed {
                Some(n) => n as nat,
                None => 0,
            };
            lemma_tests_metric(b, text::dec(passed), text::dec(run as nat), a);
            comma(b) + text::dec(passed) + "/"@ + text::dec(run as nat) + " passed"@
        },
        None => b,
    };
    let tests = match t.tests_run {
        Some(run) => text::dec(or_zero(t.tests_passed)) + "/"@ + text::dec(run as nat) + " passed"@,
        None => a,
    };
    assert(text::contains(c, tests) && text::contains(c, a));
    let d = match t.criteria_checked {
        Some(n) => {
            lemma_short_metric(c, text::dec(n as nat), " criteria"@, a);
            lemma_short_metric(c, text::dec(n as nat), " criteria"@, tests);
            comma(c) + text::dec(n as nat) + " criteria"@
        },
        None => c,
    };
    let criteria = match t.criteria_checked {
        Some(n) => text::dec(n as nat) + " criteria"@,
        None => a,
    };
    assert(text::contains(d, tests) && text::contains(d, a) && text::contains(d, criteria));
    match (t.issues_found, t.issues_fixed) {
        (Some(found), Some(fixed)) => {
            let x = text::dec(found as nat);
            let y = text::dec(fixed as nat);
            lemma_found_metric(d, x, y, a);
            lemma_found_metric(d, x, y, tests);
            lemma_found_metric(d, x, y, criteria);
        },
        _ => {},
    }
}

/// A duration is told in its two greatest units, none of them too large: whole hours and the
/// minutes beyond them, or whole minutes and the seconds beyond them.
pub proof fn law_durations_are_told(hours: nat, minutes: nat, seconds: nat)
    requires
        minutes < 60,
        seconds < 60,
    ensures
        hours > 0 && minutes > 0 ==> duration_text(3600 * hours + 60 * minutes + seconds)
            == text::dec(hours) + "h "@ + text::dec(minutes) + "m"@,
        hours > 0 && minutes == 0 ==> duration_text(3600 * hours + seconds) == text::dec(hours)
            + "h"@,
        minutes > 0 && seconds > 0 ==> duration_text(60 * minutes + seconds) == text::dec(minutes)
            + "m "@ + text::dec(seconds) + "s"@,
        minutes > 0 ==> duration_text(60 * minutes) == text::dec(minutes) + "m"@,
        duration_text(seconds) == text::dec(seconds) + "s"@,
{
    reveal_strlit("h");
    reveal_strlit("m");
    reveal_strlit(" ");
    reveal_strlit("h ");
    reveal_strlit("m ");
    assert("h "@ =~= "h"@ + " "@);
    assert("m "@ =~= "m"@ + " "@);
    let n = 3600 * hours + 60 * minutes + seconds;
    assert(n / 3600 == hours && n % 3600 == 60 * minutes + seconds) by (nonlinear_arith)
        requires
            n == 3600 * hours + 60 * minutes + seconds,
            minutes < 60,
            seconds < 60,
    ;
    assert((60 * minutes + seconds) / 60 == minutes && (60 * minutes + seconds) % 60 == seconds);
    let k = 3600 * hours + seconds;
    assert(k / 3600 == hours && k % 3600 == seconds) by (nonlinear_arith)
        requires
            k == 3600 * hours + seconds,
            seconds < 60,
    ;
    if hours > 0 {
        assert(n >= 3600 && k >= 3600) by (nonlinear_arith)
            requires
                n == 3600 * hours + 60 * minutes + seconds,
                k == 3600 * hours + seconds,
                hours > 0,
        ;
        assert(text::dec(hours) + "h"@ + " "@ + text::dec(minutes) + "m"@ =~= text::dec(hours)
            + ("h"@ + " "@) + text::dec(minutes) + "m"@);
    }
    assert(text::dec(minutes) + "m"@ + " "@ + text::dec(seconds) + "s"@ =~= text::dec(minutes) + (
    "m"@ + " "@) + text::dec(seconds) + "s"@);
}

/// What a report lacks is warned of, and nothing else.
pub proof fn law_gaps_are_warned_of(report: KickoffReport)
    ensures
        text::has_name(report_warnings(report), "Missing schema_version field"@)
            <==> report.schema_version is None,
        text::has_name(report_warnings(report), "Missing agent_id field"@)
            <==> report.agent_id is None,
        text::has_name(report_warnings(report), "Missing issue_id field"@)
            <==> report.issue_id is None,
        text::has_name(report_warnings(report), "No criteria results in report"@)
            <==> report.criteria@.len() == 0,
{
    reveal_strlit("Missing schema_version field");
    reveal_strlit("Missing agent_id field");
    reveal_strlit("Missing issue_id field");
    reveal_strlit("No criteria results in report");
    assert("Missing schema_version field"@.len() == 28 && "Missing agent_id field"@.len() == 22);
    assert("Missing issue_id field"@.len() == 22 && "No criteria results in report"@.len() == 29);
    assert("Missing agent_id field"@[8] != "Missing issue_id field"@[8]);
    let w = report_warnings(report);
    let b: int = if report.schema_version is None {
        1
    } else {
        0
    };
    let c = b + if report.agent_id is None {
        1int
    } else {
        0
    };
    let d = c + if report.issue_id is None {
        1int
    } else {
        0
    };
    if report.schema_version is None {
        assert(w[0] == "Missing schema_version field"@);
    }
    if report.agent_id is None {
        assert(w[b] == "Missing agent_id field"@);
    }
    if report.issue_id is None {
        assert(w[c] == "Missing issue_id field"@);
    }
    if report.criteria@.len() == 0 {
        assert(w[d] == "No criteria results in report"@);
    }
}

proof fn lemma_count_status(reports: Seq<(&str, KickoffReport)>, status: Seq<char>, n: nat)
    requires
        n <= reports.len(),
    ensures
        count_status(reports, status, n) == reports.take(n as int).filter(
            |r: (&str, KickoffReport)| status_text(r.1) == status,
        ).len(),
    decreases n,
{
    reveal(Seq::filter);
    if n > 0 {
        lemma_count_status(reports, status, (n - 1) as nat);
        assert(reports.take(n as int).drop_last() =~= reports.take(n - 1));
        assert(reports.take(n as int).last() == reports[n - 1]);
    }
}

proof fn lemma_agent_rows(acc: Seq<char>, reports: Seq<(&str, KickoffReport)>, n: nat, k: int)
    requires
        0 <= k < n <= reports.len(),
    ensures
        text::contains(
            with_agents(acc, reports, n),
            row(
                Seq::empty(),
                reports[k].0@,
                status_text(reports[k].1),
                tests_text(reports[k].1),
                criteria_text(reports[k].1),
                total_text(reports[k].1),
            ),
        ),
    decreases n,
{
    let r = reports[n - 1].1;
    let head = with_agents(acc, reports, (n - 1) as nat);
    let last = row(
        Seq::empty(),
        reports[n - 1].0@,
        status_text(r),
        tests_text(r),
        criteria_text(r),
        total_text(r),
    );
    assert(with_agents(acc, reports, n) =~= head + last);
    text::lemma_contains_self(last);
    text::lemma_contains_second(head, last, last);
    if k < n - 1 {
        lemma_agent_rows(acc, reports, (n - 1) as nat, k);
        text::lemma_contains_first(
            head,
            last,
            row(
                Seq::empty(),
                reports[k].0@,
                status_text(reports[k].1),
                tests_text(reports[k].1),
                criteria_text(reports[k].1),
                total_text(reports[k].1),
            ),
        );
    }
}

/// The table of all reports shows every agent with the status that it reports, and counts those
/// that completed and those that failed.
pub proof fn law_every_agent_is_shown(reports: Seq<(&str, KickoffReport)>, k: int)
    requires
        0 <= k < reports.len(),
    ensures
        text::contains(
            report_all_table(reports),
            text::pad(reports[k].0@, 32) + " "@ + text::pad(
                match reports[k].1.status {
                    Some(s) => s@,
                    None => "unknown"@,
                },
                12,
            ),
        ),
        text::has_suffix(
            report_all_table(reports),
            text::dec(
                reports.filter(
                    |r: (&str, KickoffReport)| status_text(r.1) == "completed"@,
                ).len(),
            ) + " completed, "@ + text::dec(
                reports.filter(|r: (&str, KickoffReport)| status_text(r.1) == "failed"@).len(),
            ) + " failed\n"@,
        ),
{
    broadcast use {text::lemma_contains_self, text::lemma_contains_first, text::lemma_contains_second};

    let n = reports.len();
    lemma_count_status(reports, "completed"@, n);
    lemma_count_status(reports, "failed"@, n);
    assert(reports.take(n as int) =~= reports);
    let head = "Agent Kickoff Summary ("@ + text::dec(n) + " agents)\n\n"@;
    let columns = row(head, "Agent"@, "Status"@, "Tests"@, "Criteria"@, "Duration"@);
    lemma_agent_rows(columns, reports, n, k);
    let r = reports[k].1;
    let all = with_agents(columns, reports, n);
    let line = row(
        Seq::empty(),
        reports[k].0@,
        status_text(r),
        tests_text(r),
        criteria_text(r),
        total_text(r),
    );
    let part = text::pad(reports[k].0@, 32) + " "@ + text::pad(status_text(r), 12);
    assert(Seq::<char>::empty() + text::pad(reports[k].0@, 32) + " "@ + text::pad(
        status_text(r),
        12,
    ) =~= part);
    assert(text::contains(line, part));
    text::lemma_contains_transitive(all, line, part);
    assert(text::contains(report_all_table(reports), part));
    let tail = text::dec(count_status(reports, "completed"@, n)) + " completed, "@ + text::dec(
        count_status(reports, "failed"@, n),
    ) + " failed\n"@;
    assert(report_all_table(reports) =~= all + "\nTotal: "@ + tail);
    text::lemma_suffix_of_sum(all + "\nTotal: "@, tail);
}

/// Of an agent in the table of all reports it is told how many of its tests and criteria
/// passed, of how many, and how long all of its phases took.
pub proof fn law_agents_are_summed_up(report: KickoffReport, t: PhaseTiming, p: PhaseTimings)
    ensures
        report.phases == Some(p) && p.testing == Some(t) && t.tests_passed is Some
            && t.tests_run is Some ==> tests_text(report) == text::dec(t.tests_passed->0 as nat)
            + "/"@ + text::dec(t.tests_run->0 as nat),
        report.summary.total > 0 ==> criteria_text(report) == text::dec(
            report.summary.pass as nat,
        ) + "/"@ + text::dec(report.summary.total as nat) + " pass"@,
        report.phases == Some(p) && total_secs(p) > 0 ==> total_text(report) == duration_text(
            total_secs(p),
        ),
        p == (PhaseTimings { testing: Some(t), ..p }) ==> total_secs(p) == total_secs(
            PhaseTimings { testing: None, ..p },
        ) + t.duration_s,
        p == (PhaseTimings { review: Some(t), ..p }) ==> total_secs(p) == total_secs(
            PhaseTimings { review: None, ..p },
        ) + t.duration_s,
        p == (PhaseTimings { exploration: Some(t), ..p }) ==> total_secs(p) == total_secs(
            PhaseTimings { exploration: None, ..p },
        ) + t.duration_s,
        p == (PhaseTimings { planning: Some(t), ..p }) ==> total_secs(p) == total_secs(
            PhaseTimings { planning: None, ..p },
        ) + t.duration_s,
        p == (PhaseTimings { implementation: Some(t), ..p }) ==> total_secs(p) == total_secs(
            PhaseTimings { implementation: None, ..p },
        ) + t.duration_s,
        p == (PhaseTimings { validation: Some(t), ..p }) ==> total_secs(p) == total_secs(
            PhaseTimings { validation: None, ..p },
        ) + t.duration_s,
{
}

/// A passed criterion is marked otherwise than a failed one, and every verdict ends with its name.
pub proof fn law_labels_show_the_verdict(verdict: &str, other: &str, r: String, s: String)
    requires
        call_ensures(verdict_label, (verdict,), r),
        call_ensures(verdict_label, (other,), s),
    ensures
        is_verdict(verdict@) && is_verdict(other@) && verdict@ != other@ ==> r@ != s@,
        verdict@ == "pass"@ || verdict@ == "partial"@ || verdict@ == "fail"@ ==> text::has_suffix(
            r@,
            verdict@,
        ),
{
    law_verdicts_are_told_apart(verdict@, other@);
}

} // verus!
