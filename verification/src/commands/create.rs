//! Creating issues and subissues.

use crate::text;
use crate::text::{clone_strings, contains_name, dec_i64, eq_str, join_strs, own, own_opt, own_words};
use vstd::prelude::*;

verus! {

// ---------------------------------------------------------------------------
// Priorities
// ---------------------------------------------------------------------------

/// The priorities that there are.
pub open spec fn priorities() -> Seq<Seq<char>> {
    seq!["low"@, "medium"@, "high"@, "critical"@]
}

fn all_priorities() -> (r: Vec<String>)
    ensures
        text::strs(r@) == priorities(),
{
    let words: Vec<&'static str> = vec!["low", "medium", "high", "critical"];
    assert(text::words(words@) =~= priorities());
    own_words(&words)
}

/// Whether a priority is one of those that there are. Case matters.
pub fn validate_priority(priority: &str) -> (r: bool)
    ensures
        r == text::has_name(priorities(), priority@),
{
    contains_name(&all_priorities(), priority)
}

/// What is said of a priority that there is not.
pub open spec fn invalid_priority(priority: Seq<char>) -> Seq<char> {
    "Invalid priority '"@ + priority + "'. Must be one of: "@ + text::join(priorities(), ", "@)
}

fn explain_priority(priority: &str) -> (r: String)
    ensures
        r@ == invalid_priority(priority@),
{
    let mut out = own("Invalid priority '");
    out.append(priority);
    out.append("'. Must be one of: ");
    out.append(join_strs(&all_priorities(), ", ").as_str());
    out
}

// ---------------------------------------------------------------------------
// Templates
// ---------------------------------------------------------------------------

/// Built-in issue templates.
#[derive(Debug, Clone, Copy, PartialEq, Eq)]
pub struct Template {
    pub name: &'static str,
    pub priority: &'static str,
    pub label: &'static str,
    pub description_prefix: Option<&'static str>,
}

/// The model of a template.
#[verifier::ext_equal]
pub struct TemplateView {
    pub name: Seq<char>,
    pub priority: Seq<char>,
    pub label: Seq<char>,
    pub description_prefix: Option<Seq<char>>,
}

impl View for Template {
    type V = TemplateView;

    open spec fn view(&self) -> TemplateView {
        TemplateView {
            name: self.name@,
            priority: self.priority@,
            label: self.label@,
            description_prefix: text::opt_view(self.description_prefix),
        }
    }
}

/// How many templates there are.
pub const TEMPLATES: usize = 7;

/// A template whose label is its name.
pub open spec fn named(name: Seq<char>, priority: Seq<char>, prefix: Seq<char>) -> TemplateView {
    TemplateView { name, priority, label: name, description_prefix: Some(prefix) }
}

/// The templates.
pub open spec fn template(i: int) -> TemplateView {
    if i == 0 {
        named("bug"@, "high"@, "Steps to reproduce:\n1. \n\nExpected: \nActual: "@)
    } else if i == 1 {
        named("feature"@, "medium"@, "Goal: \n\nAcceptance criteria:\n- "@)
    } else if i == 2 {
        named("refactor"@, "low"@, "Current state: \n\nDesired state: \n\nReason: "@)
    } else if i == 3 {
        named("research"@, "low"@, "Question: \n\nContext: \n\nFindings: "@)
    } else if i == 4 {
        named("audit"@, "high"@, "Scope: \n\nFiles to review: \n\nFindings: \n\nSeverity: "@)
    } else if i == 5 {
        named(
            "continuation"@,
            "high"@,
            "Previous session: \n\nCompleted: \n\nRemaining: \n\nBlockers: "@,
        )
    } else {
        named(
            "investigation"@,
            "medium"@,
            "Symptom: \n\nReproduction: \n\nHypotheses: \n\nRoot cause: \n\nFix: "@,
        )
    }
}

fn labelled(name: &'static str, priority: &'static str, prefix: &'static str) -> (r: Template)
    ensures
        r@ == named(name@, priority@, prefix@),
{
    Template { name, priority, label: name, description_prefix: Some(prefix) }
}

/// The template at a position.
pub fn template_at(i: usize) -> (r: Template)
    requires
        i < TEMPLATES,
    ensures
        r@ == template(i as int),
{
    match i {
        0 => labelled("bug", "high", "Steps to reproduce:\n1. \n\nExpected: \nActual: "),
        1 => labelled("feature", "medium", "Goal: \n\nAcceptance criteria:\n- "),
        2 => labelled("refactor", "low", "Current state: \n\nDesired state: \n\nReason: "),
        3 => labelled("research", "low", "Question: \n\nContext: \n\nFindings: "),
        4 => labelled(
            "audit",
            "high",
            "Scope: \n\nFiles to review: \n\nFindings: \n\nSeverity: ",
        ),
        5 => labelled(
            "continuation",
            "high",
            "Previous session: \n\nCompleted: \n\nRemaining: \n\nBlockers: ",
        ),
        _ => labelled(
            "investigation",
            "medium",
            "Symptom: \n\nReproduction: \n\nHypotheses: \n\nRoot cause: \n\nFix: ",
        ),
    }
}

/// The template of a name, from the `n`-th on.
pub open spec fn template_named(name: Seq<char>, n: nat) -> Option<TemplateView>
    decreases TEMPLATES - n,
{
    if n >= TEMPLATES {
        None
    } else if template(n as int).name == name {
        Some(template(n as int))
    } else {
        template_named(name, n + 1)
    }
}

/// Finds a template by its name. Case matters.
pub fn get_template(name: &str) -> (r: Option<Template>)
    ensures
        match r {
            Some(t) => template_named(name@, 0) == Some(t@),
            None => template_named(name@, 0) is None,
        },
{
    let mut i: usize = 0;
    while i < TEMPLATES
        invariant
            i <= TEMPLATES,
            template_named(name@, 0) == template_named(name@, i as nat),
        decreases TEMPLATES - i,
    {
        let t = template_at(i);
        if eq_str(t.name, name) {
            return Some(t);
        }
        i = i + 1;
    }
    None
}

/// The names of the templates.
pub open spec fn template_names() -> Seq<Seq<char>> {
    Seq::new(TEMPLATES as nat, |i: int| template(i).name)
}

/// Lists the names of the templates.
pub fn list_templates() -> (r: Vec<&'static str>)
    ensures
        text::words(r@) == template_names(),
{
    let mut out: Vec<&'static str> = Vec::new();
    let mut i: usize = 0;
    while i < TEMPLATES
        invariant
            i <= TEMPLATES,
            out@.len() == i,
            forall|k: int| 0 <= k < i ==> (#[trigger] out@[k])@ == template(k).name,
        decreases TEMPLATES - i,
    {
        out.push(template_at(i).name);
        i = i + 1;
    }
    assert(text::words(out@) =~= template_names());
    out
}

/// Every template has a priority that there is.
pub proof fn law_templates_are_valid(i: int)
    requires
        0 <= i < TEMPLATES,
    ensures
        text::has_name(priorities(), template(i).priority),
        template(i).label == template(i).name,
        template(i).description_prefix is Some,
{
    assert(priorities()[0] == "low"@);
    assert(priorities()[1] == "medium"@);
    assert(priorities()[2] == "high"@);
}

// ---------------------------------------------------------------------------
// Creating
// ---------------------------------------------------------------------------

/// Options shared by issues and subissues.
pub struct CreateOpts<'a> {
    pub labels: &'a Vec<String>,
    pub work: bool,
    pub quiet: bool,
    /// The project whose locks are enforced when the issue is worked on.
    pub crosslink_dir: Option<&'a str>,
    /// The number of the issue is assigned later.
    pub defer_id: bool,
}

/// An issue to be created, with its labels in the order in which they are added.
#[derive(Debug, Clone, PartialEq)]
pub struct NewIssue {
    pub title: String,
    pub description: Option<String>,
    pub priority: String,
    pub labels: Vec<String>,
}

/// The model of an issue to be created.
#[verifier::ext_equal]
pub struct NewIssueView {
    pub title: Seq<char>,
    pub description: Option<Seq<char>>,
    pub priority: Seq<char>,
    pub labels: Seq<Seq<char>>,
}

impl View for NewIssue {
    type V = NewIssueView;

    open spec fn view(&self) -> NewIssueView {
        NewIssueView {
            title: self.title@,
            description: text::opt_str(self.description),
            priority: self.priority@,
            labels: text::strs(self.labels@),
        }
    }
}

/// The description of a template in front of that of the user.
pub open spec fn combined(prefix: Option<Seq<char>>, description: Option<Seq<char>>) -> Option<
    Seq<char>,
> {
    match prefix {
        Some(p) => match description {
            Some(d) => Some(p + "\n\n"@ + d),
            None => Some(p),
        },
        None => description,
    }
}

/// What is said of a template that there is not.
pub open spec fn unknown_template(name: Seq<char>) -> Seq<char> {
    "Unknown template '"@ + name + "'. Available: "@ + text::join(template_names(), ", "@)
}

/// The issue that is asked for, or what is wrong. A template gives its description, its
/// label, and its priority where the user asks for the default one; the label of the
/// template comes before those of the user.
pub open spec fn new_issue(
    title: Seq<char>,
    description: Option<Seq<char>>,
    priority: Seq<char>,
    template: Option<Seq<char>>,
    labels: Seq<Seq<char>>,
) -> Result<NewIssueView, Seq<char>> {
    match template {
        None => if text::has_name(priorities(), priority) {
            Ok(NewIssueView { title, description, priority, labels })
        } else {
            Err(invalid_priority(priority))
        },
        Some(name) => match template_named(name, 0) {
            None => Err(unknown_template(name)),
            Some(t) => {
                let p = if priority == "medium"@ {
                    t.priority
                } else {
                    priority
                };
                if text::has_name(priorities(), p) {
                    Ok(
                        NewIssueView {
                            title,
                            description: combined(t.description_prefix, description),
                            priority: p,
                            labels: seq![t.label] + labels,
                        },
                    )
                } else {
                    Err(invalid_priority(p))
                }
            },
        },
    }
}

/// The model of an issue to be created or of what is wrong.
pub open spec fn outcome(r: Result<NewIssue, String>) -> Result<NewIssueView, Seq<char>> {
    match r {
        Ok(i) => Ok(i@),
        Err(e) => Err(e@),
    }
}

fn combine(prefix: Option<&str>, description: Option<&str>) -> (r: Option<String>)
    ensures
        text::opt_str(r) == combined(text::opt_view(prefix), text::opt_view(description)),
{
    match prefix {
        Some(p) => {
            let mut out = own(p);
            if let Some(d) = description {
                out.append("\n\n");
                out.append(d);
            }
            Some(out)
        },
        None => own_opt(description),
    }
}

fn explain_template(name: &str) -> (r: String)
    ensures
        r@ == unknown_template(name@),
{
    let mut out = own("Unknown template '");
    out.append(name);
    out.append("'. Available: ");
    out.append(join_strs(&own_words(&list_templates()), ", ").as_str());
    out
}

fn labels_with(label: &str, labels: &Vec<String>) -> (r: Vec<String>)
    ensures
        text::strs(r@) == seq![label@] + text::strs(labels@),
{
    let ghost all = text::strs(labels@);
    let mut out: Vec<String> = vec![own(label)];
    let mut i: usize = 0;
    assert(text::strs(out@) =~= seq![label@] + all.take(0));
    while i < labels.len()
        invariant
            i <= labels@.len(),
            all == text::strs(labels@),
            text::strs(out@) == seq![label@] + all.take(i as int),
        decreases labels@.len() - i,
    {
        let copy = own(labels[i].as_str());
        let ghost before = out@;
        out.push(copy);
        proof {
            text::lemma_strs_push(before, copy);
            assert(all.take(i + 1) =~= all.take(i as int).push(copy@));
            assert(text::strs(out@) =~= seq![label@] + all.take(i + 1));
        }
        i = i + 1;
    }
    assert(all.take(all.len() as int) =~= all);
    out
}

/// `crosslink create`: the issue that is asked for, or what is wrong.
pub fn run(
    title: &str,
    description: Option<&str>,
    priority: &str,
    template: Option<&str>,
    opts: &CreateOpts,
) -> (r: Result<NewIssue, String>)
    ensures
        outcome(r) == new_issue(
            title@,
            text::opt_view(description),
            priority@,
            text::opt_view(template),
            text::strs(opts.labels@),
        ),
{
    let name = match template {
        Some(name) => name,
        None => {
            if !validate_priority(priority) {
                return Err(explain_priority(priority));
            }
            return Ok(
                NewIssue {
                    title: own(title),
                    description: own_opt(description),
                    priority: own(priority),
                    labels: clone_strings(opts.labels),
                },
            );
        },
    };
    let t = match get_template(name) {
        Some(t) => t,
        None => {
            return Err(explain_template(name));
        },
    };
    let p = if eq_str(priority, "medium") {
        t.priority
    } else {
        priority
    };
    if !validate_priority(p) {
        return Err(explain_priority(p));
    }
    Ok(
        NewIssue {
            title: own(title),
            description: combine(t.description_prefix, description),
            priority: own(p),
            labels: labels_with(t.label, opts.labels),
        },
    )
}

/// What is printed of a new issue.
pub open spec fn created_text(
    id: int,
    shown: Seq<char>,
    template: Option<Seq<char>>,
    quiet: bool,
    defer_id: bool,
) -> Seq<char> {
    if defer_id && !quiet {
        "Created issue "@ + shown + " (display ID deferred — assigned on next compaction)\n"@
    } else if quiet {
        text::dec_int(id) + "\n"@
    } else {
        let line = "Created issue "@ + shown + "\n"@;
        match template {
            Some(t) => line + "  Applied template: "@ + t + "\n"@,
            None => line,
        }
    }
}

/// Tells of a new issue, whose number is given and as it is shown.
pub fn report_created(id: i64, shown: &str, template: Option<&str>, opts: &CreateOpts) -> (out: String)
    ensures
        out@ == created_text(
            id as int,
            shown@,
            text::opt_view(template),
            opts.quiet,
            opts.defer_id,
        ),
{
    if opts.defer_id && !opts.quiet {
        let mut out = own("Created issue ");
        out.append(shown);
        out.append(" (display ID deferred — assigned on next compaction)\n");
        return out;
    }
    if opts.quiet {
        let mut out = dec_i64(id);
        out.append("\n");
        return out;
    }
    let mut out = own("Created issue ");
    out.append(shown);
    out.append("\n");
    if let Some(t) = template {
        out.append("  Applied template: ");
        out.append(t);
        out.append("\n");
    }
    out
}

/// `crosslink subissue`: the issue that is asked for, or what is wrong. The priority is
/// looked at before the parent.
pub fn run_subissue(
    parent_found: bool,
    parent_shown: &str,
    title: &str,
    description: Option<&str>,
    priority: &str,
    opts: &CreateOpts,
) -> (r: Result<NewIssue, String>)
    ensures
        match r {
            Ok(issue) => parent_found && text::has_name(priorities(), priority@) && issue@ == (
            NewIssueView {
                title: title@,
                description: text::opt_view(description),
                priority: priority@,
                labels: text::strs(opts.labels@),
            }),
            Err(message) => if !text::has_name(priorities(), priority@) {
                message@ == invalid_priority(priority@)
            } else {
                !parent_found && message@ == "Parent issue "@ + parent_shown@ + " not found"@
            },
        },
{
    if !validate_priority(priority) {
        return Err(explain_priority(priority));
    }
    if !parent_found {
        let mut message = own("Parent issue ");
        message.append(parent_shown);
        message.append(" not found");
        return Err(message);
    }
    Ok(
        NewIssue {
            title: own(title),
            description: own_opt(description),
            priority: own(priority),
            labels: clone_strings(opts.labels),
        },
    )
}

/// Tells of a new subissue.
pub fn report_subissue(id: i64, shown: &str, parent_shown: &str, quiet: bool) -> (out: String)
    ensures
        out@ == (if quiet {
            text::dec_int(id as int) + "\n"@
        } else {
            "Created subissue "@ + shown@ + " under "@ + parent_shown@ + "\n"@
        }),
{
    if quiet {
        let mut out = dec_i64(id);
        out.append("\n");
        return out;
    }
    let mut out = own("Created subissue ");
    out.append(shown);
    out.append(" under ");
    out.append(parent_shown);
    out.append("\n");
    out
}

// ---------------------------------------------------------------------------
// Working on a new issue
// ---------------------------------------------------------------------------

/// What came of claiming the lock of an issue.
#[derive(Debug, Clone, PartialEq)]
pub enum ClaimResult {
    Claimed,
    AlreadyHeld,
    NotConfigured,
    Contended { winner_agent_id: String },
    Failed(String),
}

/// What is told of a claim: to the user, and as a warning.
pub struct ClaimReport {
    /// Whether the lock was free before.
    pub fresh: bool,
    pub say: Option<String>,
    pub warning: Option<String>,
}

/// Takes in what came of claiming the lock of an issue. No outcome keeps the issue from
/// being worked on.
pub fn report_claim(claim: &ClaimResult, shown: &str, quiet: bool) -> (r: ClaimReport)
    ensures
        r.fresh == (claim is Claimed),
        text::opt_str(r.say) == (if claim is Claimed && !quiet {
            Some("Auto-claimed lock on issue "@ + shown@ + "\n"@)
        } else {
            None
        }),
        text::opt_str(r.warning) == match claim {
            ClaimResult::Contended { winner_agent_id } => Some(
                "Lock on "@ + shown@ + " won by '"@ + winner_agent_id@ + "'"@,
            ),
            ClaimResult::Failed(e) => Some("Could not auto-claim lock: "@ + e@),
            _ => None,
        },
{
    match claim {
        ClaimResult::Claimed => {
            let say = if quiet {
                None
            } else {
                let mut out = own("Auto-claimed lock on issue ");
                out.append(shown);
                out.append("\n");
                Some(out)
            };
            ClaimReport { fresh: true, say, warning: None }
        },
        ClaimResult::AlreadyHeld => ClaimReport { fresh: false, say: None, warning: None },
        ClaimResult::NotConfigured => ClaimReport { fresh: false, say: None, warning: None },
        ClaimResult::Contended { winner_agent_id } => {
            let mut out = own("Lock on ");
            out.append(shown);
            out.append(" won by '");
            out.append(winner_agent_id.as_str());
            out.append("'");
            ClaimReport { fresh: false, say: None, warning: Some(out) }
        },
        ClaimResult::Failed(e) => {
            let mut out = own("Could not auto-claim lock: ");
            out.append(e.as_str());
            ClaimReport { fresh: false, say: None, warning: Some(out) }
        },
    }
}

/// What came of setting the issue of the session.
pub enum SessionOutcome {
    /// There is no session.
    NoSession,
    /// The session works on the issue.
    Working,
    /// The session could not be changed.
    Failed(String),
}

/// What is done at the end.
pub struct WorkReport {
    /// Whether the lock has to be given back.
    pub release: bool,
    /// Whether the issue is noted as the active one.
    pub note_active: bool,
    pub say: Option<String>,
    pub warning: Option<String>,
    pub error: Option<String>,
}

/// Takes in what came of setting the issue of the session. Where that failed, a lock
/// that was claimed for it is given back, so that no lock is left without a worker.
pub fn report_work(
    outcome: &SessionOutcome,
    freshly_claimed: bool,
    has_dir: bool,
    shown: &str,
    title: &str,
    quiet: bool,
) -> (r: WorkReport)
    ensures
        r.release == (outcome is Failed && freshly_claimed && has_dir),
        r.note_active == (outcome is Working && has_dir),
        text::opt_str(r.say) == (if outcome is Working && !quiet {
            Some("Now working on: "@ + shown@ + " "@ + title@ + "\n"@)
        } else {
            None
        }),
        text::opt_str(r.warning) == (if outcome is NoSession && !quiet {
            Some("--work specified but no active session"@)
        } else {
            None
        }),
        text::opt_str(r.error) == match outcome {
            SessionOutcome::Failed(e) => Some(e@),
            _ => None,
        },
{
    match outcome {
        SessionOutcome::NoSession => {
            let warning = if quiet {
                None
            } else {
                Some(own("--work specified but no active session"))
            };
            WorkReport { release: false, note_active: false, say: None, warning, error: None }
        },
        SessionOutcome::Working => {
            let say = if quiet {
                None
            } else {
                let mut out = own("Now working on: ");
                out.append(shown);
                out.append(" ");
                out.append(title);
                out.append("\n");
                Some(out)
            };
            WorkReport { release: false, note_active: has_dir, say, warning: None, error: None }
        },
        SessionOutcome::Failed(e) => WorkReport {
            release: freshly_claimed && has_dir,
            note_active: false,
            say: None,
            warning: None,
            error: Some(own(e.as_str())),
        },
    }
}

// ---------------------------------------------------------------------------
// Laws
// ---------------------------------------------------------------------------

/// An issue that is created has a priority that there is, and all of the user's labels.
pub proof fn law_new_issues_are_valid(
    title: Seq<char>,
    description: Option<Seq<char>>,
    priority: Seq<char>,
    template: Option<Seq<char>>,
    labels: Seq<Seq<char>>,
)
    ensures
        match new_issue(title, description, priority, template, labels) {
            Ok(issue) => text::has_name(priorities(), issue.priority) && (forall|i: int|
                0 <= i < labels.len() ==> text::has_name(issue.labels, #[trigger] labels[i])),
            Err(_) => true,
        },
{
    match new_issue(title, description, priority, template, labels) {
        Ok(issue) => {
            assert forall|i: int| 0 <= i < labels.len() implies text::has_name(
                issue.labels,
                #[trigger] labels[i],
            ) by {
                let at = if template is Some {
                    i + 1
                } else {
                    i
                };
                assert(issue.labels[at] == labels[i]);
            }
        },
        Err(_) => {},
    }
}

/// With the default priority, a template that there is always gives an issue.
pub proof fn law_templates_create_issues(
    title: Seq<char>,
    description: Option<Seq<char>>,
    name: Seq<char>,
    labels: Seq<Seq<char>>,
)
    requires
        template_named(name, 0) is Some,
    ensures
        new_issue(title, description, "medium"@, Some(name), labels) is Ok,
{
    lemma_named_is_template(name, 0);
    let i = choose|i: int| 0 <= i < TEMPLATES && template_named(name, 0) == Some(#[trigger] template(i));
    law_templates_are_valid(i);
}

proof fn lemma_named_is_template(name: Seq<char>, n: nat)
    requires
        template_named(name, n) is Some,
    ensures
        exists|i: int|
            n <= i < TEMPLATES && template_named(name, n) == Some(#[trigger] template(i)),
    decreases TEMPLATES - n,
{
    if template(n as int).name != name {
        lemma_named_is_template(name, n + 1);
    } else {
        assert(template_named(name, n) == Some(template(n as int)));
    }
}

/// An issue is what the user asks for. It has the title that was given. Without a template
/// the description, the priority and the labels are exactly those that were given, and only a
/// priority that there is not is refused.
pub proof fn law_plain_issues_are_as_asked(
    title: Seq<char>,
    description: Option<Seq<char>>,
    priority: Seq<char>,
    labels: Seq<Seq<char>>,
)
    ensures
        ({
            let r = new_issue(title, description, priority, None, labels);
            &&& r is Ok <==> (priority == "low"@ || priority == "medium"@ || priority == "high"@
                || priority == "critical"@)
            &&& r matches Ok(issue) ==> issue.title == title && issue.description == description
                && issue.priority == priority && issue.labels == labels
            &&& r matches Err(e) ==> text::contains(e, priority)
        }),
{
    broadcast use {text::lemma_contains_self, text::lemma_contains_first, text::lemma_contains_second};

    let p = priorities();
    assert(p[0] == "low"@ && p[1] == "medium"@ && p[2] == "high"@ && p[3] == "critical"@);
}

/// With a template the issue keeps the title and ends with the description that was given; the
/// labels are that of the template, which is its name, and then exactly those that were given;
/// a priority other than the default one is kept.
pub proof fn law_templates_add_to_what_is_asked(
    title: Seq<char>,
    description: Option<Seq<char>>,
    priority: Seq<char>,
    name: Seq<char>,
    labels: Seq<Seq<char>>,
)
    ensures
        match new_issue(title, description, priority, Some(name), labels) {
            Ok(issue) => {
                &&& issue.title == title
                &&& issue.description is Some
                &&& description matches Some(d) ==> text::has_suffix(issue.description->0, d)
                &&& issue.labels.len() == labels.len() + 1
                &&& issue.labels[0] == name
                &&& issue.labels.skip(1) == labels
                &&& priority != "medium"@ ==> issue.priority == priority
            },
            Err(e) => text::contains(e, name) || text::contains(e, priority),
        },
{
    broadcast use {text::lemma_contains_self, text::lemma_contains_first, text::lemma_contains_second};

    if template_named(name, 0) is Some {
        lemma_named_is_template(name, 0);
        let i = choose|i: int|
            0 <= i < TEMPLATES && template_named(name, 0) == Some(#[trigger] template(i));
        law_templates_are_valid(i);
        lemma_template_has_name(name, 0);
        let p = priorities();
        assert(p[1] == "medium"@);
        match new_issue(title, description, priority, Some(name), labels) {
            Ok(issue) => {
                assert(issue.labels.skip(1) =~= labels);
                if let Some(d) = description {
                    text::lemma_suffix_of_sum(template(i).description_prefix->0 + "\n\n"@, d);
                }
            },
            Err(e) => {
                if priority == "medium"@ {
                    assert(text::has_name(p, template(i).priority));
                }
            },
        }
    }
}

proof fn lemma_template_has_name(name: Seq<char>, n: nat)
    requires
        template_named(name, n) is Some,
    ensures
        template_named(name, n)->0.name == name,
        template_named(name, n)->0.label == name,
    decreases TEMPLATES - n,
{
    if template(n as int).name != name {
        lemma_template_has_name(name, n + 1);
    }
}

/// Where the default priority is asked for, an issue from a template has that of its kind: bugs,
/// audits and continuations are urgent, refactoring and research can wait.
pub proof fn law_templates_give_their_priority(
    title: Seq<char>,
    description: Option<Seq<char>>,
    labels: Seq<Seq<char>>,
    name: Seq<char>,
)
    ensures
        ({
            let r = new_issue(title, description, "medium"@, Some(name), labels);
            &&& (name == "bug"@ || name == "audit"@ || name == "continuation"@) ==> (r matches Ok(i)
                && i.priority == "high"@)
            &&& (name == "feature"@ || name == "investigation"@) ==> (r matches Ok(i) && i.priority
                == "medium"@)
            &&& (name == "refactor"@ || name == "research"@) ==> (r matches Ok(i) && i.priority
                == "low"@)
        }),
{
    reveal_strlit("bug");
    reveal_strlit("audit");
    reveal_strlit("continuation");
    reveal_strlit("feature");
    reveal_strlit("investigation");
    reveal_strlit("refactor");
    reveal_strlit("research");
    assert("refactor"@[2] != "research"@[2]);
    assert("bug"@.len() == 3 && "feature"@.len() == 7 && "refactor"@.len() == 8);
    assert("research"@.len() == 8 && "audit"@.len() == 5 && "continuation"@.len() == 12);
    assert("investigation"@.len() == 13);
    reveal_with_fuel(template_named, 8);
    assert(template_named("bug"@, 0) == Some(template(0)));
    assert(template_named("feature"@, 0) == Some(template(1)));
    assert(template_named("refactor"@, 0) == Some(template(2)));
    assert(template_named("research"@, 0) == Some(template(3)));
    assert(template_named("audit"@, 0) == Some(template(4)));
    assert(template_named("continuation"@, 0) == Some(template(5)));
    assert(template_named("investigation"@, 0) == Some(template(6)));
    let p = priorities();
    assert(p[0] == "low"@ && p[1] == "medium"@ && p[2] == "high"@);
    assert(text::has_name(p, "low"@) && text::has_name(p, "medium"@) && text::has_name(p, "high"@));
}

/// What is printed of a new issue names it: by its bare number where quiet is asked for, and
/// with the template that was applied.
pub proof fn law_created_issues_are_named(
    id: int,
    shown: Seq<char>,
    template: Option<Seq<char>>,
    quiet: bool,
    defer_id: bool,
)
    ensures
        ({
            let out = created_text(id, shown, template, quiet, defer_id);
            &&& quiet ==> out == text::dec_int(id) + "\n"@
            &&& !quiet ==> text::contains(out, shown)
            &&& !quiet && !defer_id ==> (template matches Some(t) ==> text::contains(out, t))
        }),
{
    broadcast use {text::lemma_contains_self, text::lemma_contains_first, text::lemma_contains_second};

}

/// An issue is created as it was asked for, and exactly where its priority is one.
pub proof fn law_issues_are_created_as_asked(
    title: &str,
    description: Option<&str>,
    priority: &str,
    opts: &CreateOpts,
    r: Result<NewIssue, String>,
)
    requires
        call_ensures(run, (title, description, priority, None, opts), r),
    ensures
        r is Ok <==> (priority@ == "low"@ || priority@ == "medium"@ || priority@ == "high"@
            || priority@ == "critical"@),
        r matches Ok(issue) ==> issue.title@ == title@ && text::opt_str(issue.description)
            == text::opt_view(description) && issue.priority@ == priority@ && text::strs(
            issue.labels@,
        ) == text::strs(opts.labels@),
        r matches Err(e) ==> text::contains(e@, priority@),
{
    law_plain_issues_are_as_asked(
        title@,
        text::opt_view(description),
        priority@,
        text::strs(opts.labels@),
    );
    if let Ok(issue) = r {
        assert(issue@.title == issue.title@);
    }
}

/// A subissue is created as it was asked for, exactly where its priority is one and its parent is
/// there; a parent that is not there is named.
pub proof fn law_subissues_are_created_as_asked(
    parent_found: bool,
    parent_shown: &str,
    title: &str,
    description: Option<&str>,
    priority: &str,
    opts: &CreateOpts,
    r: Result<NewIssue, String>,
)
    requires
        call_ensures(
            run_subissue,
            (parent_found, parent_shown, title, description, priority, opts),
            r,
        ),
    ensures
        ({
            let known = priority@ == "low"@ || priority@ == "medium"@ || priority@ == "high"@
                || priority@ == "critical"@;
            &&& r is Ok <==> known && parent_found
            &&& r matches Ok(issue) ==> issue.title@ == title@ && text::opt_str(issue.description)
                == text::opt_view(description) && issue.priority@ == priority@ && text::strs(
                issue.labels@,
            ) == text::strs(opts.labels@)
            &&& r matches Err(e) ==> (known ==> text::contains(e@, parent_shown@)) && (!known
                ==> text::contains(e@, priority@))
        }),
{
    law_plain_issues_are_as_asked(
        title@,
        text::opt_view(description),
        priority@,
        text::strs(opts.labels@),
    );
    broadcast use {
        text::lemma_contains_self,
        text::lemma_contains_first,
        text::lemma_contains_second,
    };

    if let Ok(issue) = r {
        assert(issue@.title == issue.title@);
    }
}

/// A subissue is told with its parent, or by its number alone where it is quiet.
pub proof fn law_created_subissues_are_told(
    id: i64,
    shown: &str,
    parent_shown: &str,
    quiet: bool,
    out: String,
)
    requires
        call_ensures(report_subissue, (id, shown, parent_shown, quiet), out),
    ensures
        quiet ==> out@ == text::dec_int(id as int) + "\n"@,
        !quiet ==> text::contains(out@, "Created subissue "@ + shown@) && text::contains(
            out@,
            " under "@ + parent_shown@,
        ),
{
    broadcast use {text::lemma_contains_self, text::lemma_contains_first, text::lemma_contains_pair};

}

/// A lock counts as fresh exactly where it was claimed now. That it was is told unless it is quiet;
/// that another agent has it, or why it could not be claimed, is always warned of.
pub proof fn law_claims_are_told(claim: &ClaimResult, shown: &str, quiet: bool, r: ClaimReport)
    requires
        call_ensures(report_claim, (claim, shown, quiet), r),
    ensures
        r.fresh <==> *claim is Claimed,
        r.say is Some <==> *claim is Claimed && !quiet,
        r.say matches Some(say) ==> text::contains(say@, shown@),
        r.warning is Some <==> *claim is Contended || *claim is Failed,
        *claim matches ClaimResult::Contended { winner_agent_id } ==> (r.warning matches Some(w)
            && text::contains(w@, winner_agent_id@) && text::contains(w@, shown@)),
        *claim matches ClaimResult::Failed(e) ==> (r.warning matches Some(w) && text::has_suffix(
            w@,
            e@,
        )),
{
    broadcast use {
        text::lemma_contains_self,
        text::lemma_contains_first,
        text::lemma_contains_second,
        text::lemma_suffix_of_sum,
    };

}

/// Work that has begun is told and noted. Where it could not begin for an error, the error comes
/// back, and a lock that was claimed for it is released; one that was held before is not.
pub proof fn law_work_is_told(
    outcome: &SessionOutcome,
    freshly_claimed: bool,
    has_dir: bool,
    shown: &str,
    title: &str,
    quiet: bool,
    r: WorkReport,
)
    requires
        call_ensures(report_work, (outcome, freshly_claimed, has_dir, shown, title, quiet), r),
    ensures
        r.error is Some <==> *outcome is Failed,
        *outcome matches SessionOutcome::Failed(e) ==> (r.error matches Some(m) && m@ == e@),
        r.release ==> *outcome is Failed && freshly_claimed,
        *outcome is Failed && freshly_claimed && has_dir ==> r.release,
        r.note_active <==> *outcome is Working && has_dir,
        r.say is Some <==> *outcome is Working && !quiet,
        r.say matches Some(say) ==> text::contains(
            say@,
            "Now working on: "@ + shown@ + " "@ + title@,
        ),
        r.warning is Some <==> *outcome is NoSession && !quiet,
{
    broadcast use {text::lemma_contains_self, text::lemma_contains_first};

}

} // verus!
