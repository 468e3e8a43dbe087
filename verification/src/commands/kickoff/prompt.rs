//! The prompts that agents start from.

use crate::commands::design_doc;
use crate::commands::design_doc::{
    build_design_doc_section, build_open_questions_escalation, DesignDoc, DocView,
};
use crate::commands::kickoff::conventions::{ConventionsView, ProjectConventions};
use crate::commands::kickoff::options;
use crate::commands::kickoff::options::{verify_level_name, KickoffOpts, VerifyLevel};
use crate::text;
use crate::text::{dec_i64, join_strs, own};
use vstd::prelude::*;

verus! {

// ---------------------------------------------------------------------------
// Fixed parts
// ---------------------------------------------------------------------------

/// How an agent waits for the checks of its pull request.
pub const CI_SECTION: &'static str = r#"
### CI Verification

16. **Push and open draft PR**:
    - Push the feature branch: `git push -u origin <branch>`
    - Open a draft PR: `gh pr create --draft --title "<feature title>" --body "Automated PR from kickoff agent"`
    - Record the PR URL for later reference.
17. **Wait for CI to pass**:
    - Poll CI status: `gh run list --branch <branch> --limit 1 --json status,conclusion,databaseId` every 30 seconds.
    - If the run's `status` is `completed` and `conclusion` is `success`, CI has passed. Proceed.
    - If the run's `status` is `completed` and `conclusion` is `failure`:
      - Read the failure logs: `gh run view <run-id> --log-failed`
      - Analyze the failures and fix the issues in the code.
      - Run the local test suite again to verify fixes.
      - Use `/commit` to commit the fixes.
      - Push again: `git push`
      - Wait for the new CI run to complete (repeat this loop).
    - If no CI runs appear after 2 minutes, note this in the status and proceed (the repo may not have CI configured).
    - Maximum 5 CI fix-and-retry cycles. If still failing after 5 attempts, write `CI_FAILED` to `.kickoff-status` and stop.
"#;

/// The closing pass over all changes that the highest level asks for.
pub const ADVERSARIAL_SECTION: &'static str = r#"
### Adversarial Self-Review

18. Before marking done, perform a thorough self-review of all changes:
    - All tests pass locally
    - CI is green
    - No unintended file changes (`git diff main...HEAD --stat`)
    - No debug/temporary code left behind (search for debugging macros and unfinished markers)
    - No commented-out code blocks
    - Commit messages are clean and descriptive
    - Changes match the feature description above
    - No new warnings in compiler/linter output
    - Error handling is complete (no unwrap() on fallible operations in non-test code)
    - Public API changes have appropriate documentation
    - Use `/commit` after any fixes from the review.
    - Push again if fixes were made: `git push`
"#;

/// How an agent reports on the acceptance criteria.
pub const REPORTING_SECTION: &'static str = r#"
### Spec Validation & Reporting

Before marking the implementation complete, validate every acceptance criterion from
`.kickoff-criteria.json` and produce a structured build report.

#### Criteria Validation

1. **Read the criteria file**: `cat .kickoff-criteria.json`
2. **For each criterion**, evaluate the implementation:
   - **pass**: The criterion is fully satisfied. Cite specific evidence (test name, file:line, behavior observed).
   - **fail**: The criterion is not satisfied. Explain what is missing or broken.
   - **partial**: Partially implemented. Describe what works and what does not.
   - **not_applicable**: The criterion does not apply to this implementation (e.g., environment-specific).
   - **needs_clarification**: The criterion is ambiguous and cannot be evaluated. Explain the ambiguity.
3. **Be strict**: Do NOT mark a criterion as `pass` without citing concrete evidence (a test name, a
   code path, or an observable behavior).
4. If any criterion is `fail`, attempt to fix the implementation before proceeding.
   After fixes, re-evaluate the criteria.

#### Build Metrics

Gather the following data for the report:
- **Phase timing**: Estimate seconds spent on each phase (exploration, planning, implementation, testing, validation, review).
  Use `crosslink session action "Phase: <name>"` breadcrumbs to track transitions.
- **Test results**: Record total tests run, passed, and failed from the test suite output.
- **Files changed**: List files you modified (from `git diff --name-only`).
- **Commits**: List commit SHAs you created (from `git log --oneline`).
- **Unresolved questions**: List any open questions from the design doc that remain unanswered.

#### Write the Report

Create `.kickoff-report.json` with this structure:

```json
{
  "schema_version": 1,
  "agent_id": "<your agent ID>",
  "issue_id": <issue number>,
  "status": "completed|failed|partial",
  "started_at": "ISO-8601 when you started",
  "completed_at": "ISO-8601 now",
  "validated_at": "ISO-8601 now",
  "phases": {
    "exploration": { "duration_s": 120, "files_read": 34 },
    "implementation": { "duration_s": 480, "files_modified": 8, "lines_added": 340, "lines_removed": 45 },
    "testing": { "duration_s": 90, "tests_run": 146, "tests_passed": 146, "tests_failed": 0 },
    "validation": { "duration_s": 30, "criteria_checked": 5 }
  },
  "criteria": [
    { "id": "AC-1", "verdict": "pass", "evidence": "test_upload passes with 100MB" }
  ],
  "summary": {
    "total": 1, "pass": 1, "fail": 0, "partial": 0,
    "not_applicable": 0, "needs_clarification": 0
  },
  "unresolved_questions": [],
  "commits": ["abc1234"],
  "files_changed": ["src/retry.rs"]
}
```

Required fields: `validated_at`, `criteria`, `summary`. All other fields are recommended but optional.
Write this file as the second-to-last step, just before writing `DONE` to `.kickoff-status`.
"#;

/// What an agent does last.
pub const FINAL_SECTION: &'static str = r#"
### Final Steps

**Self-review checklist** (verify each before marking done):
- All tests pass locally
- Linter and formatter checks pass (no warnings or formatting errors)
- No unintended file changes in the diff
- No debug/temporary code left behind
- Commit messages are clean and descriptive
- Changes match the original feature description
- All driver interventions have been logged via `crosslink intervene`

Then:
- **Final sync**: `crosslink sync` — push all comments and state to the coordination hub before ending
- **End session**: `crosslink session end --notes "Completed: <summary of what was delivered, any caveats or follow-ups>"`
- **Write status**: Write the word `DONE` to a file called `.kickoff-status` in the worktree root when completely finished
"#;

/// Part of the prompt between two values.
pub const PROMPT_0: &'static str = r#"# KICKOFF: "#;

/// Part of the prompt between two values.
pub const PROMPT_1: &'static str = r#"

## Context

- **Issue**: #"#;

/// Part of the prompt between two values.
pub const PROMPT_2: &'static str = r#"
- **Branch**: `"#;

/// Part of the prompt between two values.
pub const PROMPT_3: &'static str = r#"`
- **Verification level**: "#;

/// Part of the prompt between two values.
pub const PROMPT_4: &'static str = r#"

## Feature Description

"#;

/// Part of the prompt between two values.
pub const PROMPT_5: &'static str = r#"

## Environment

You are running in a git worktree — an isolated working directory that shares git objects with
the main repo. The `.crosslink/issues.db` is shared across all worktrees via the crosslink/hub
branch. Other agents may be working concurrently in different worktrees. If you need to see the
latest state from other agents, run `crosslink sync`.

## Blocked Actions

The following commands are blocked by project policy and will be rejected. If you need one of
these, ask the user to run it manually:

- `git push`, `git merge`, `git rebase`, `git cherry-pick` — remote/branch operations
- `git reset`, `git checkout .`, `git restore .`, `git clean` — destructive resets
- `git stash`, `git tag`, `git am`, `git apply` — stash/tag/patch operations
- `git branch -d`, `git branch -D`, `git branch -m` — branch deletion/renaming

**Gated** (require active crosslink issue): `git commit`
**Always allowed**: `git status`, `git diff`, `git log`, `git show`, `git branch` (listing)

## Instructions

1. **Verify agent setup**: Run `crosslink agent status` to confirm your agent identity is initialized and the
   database is connected. If it reports no agent, run `crosslink agent init` first. Then run `crosslink sync`
   to pull the latest coordination state from the hub.
2. **Start your crosslink session**: Run `crosslink session start` then `crosslink session work "#;

/// Part of the prompt between two values.
pub const PROMPT_6: &'static str = r#"`
3. **Read the project's "#;

/// Part of the prompt between two values.
pub const PROMPT_7: &'static str = r#"** (if it exists) for conventions before starting
4. Explore relevant code before making changes
5. **Check the knowledge repo** for relevant research before starting:
   `crosslink knowledge search '<relevant terms>'`
   Existing knowledge pages may save you from redundant research.
6. **Document your plan**: `crosslink comment "#;

/// Part of the prompt between two values.
pub const PROMPT_8: &'static str = r#" "Plan: <approach, key files, chosen strategy>" --kind plan`
7. Implement the feature fully (no stubs or placeholders)
   - Before each major step: `crosslink session action "Starting <description>..."`
   - **Save research**: If you perform web research, save results for future agents:
     `crosslink knowledge add <slug> --title '<topic>' --tag <category> --source '<url>' --content '<summary>'`
8. **Document decisions**: When choosing between approaches:
   `crosslink comment "#;

/// Part of the prompt between two values.
pub const PROMPT_9: &'static str = r#" "Decision: <chose X over Y because Z>" --kind decision`
9. **Document discoveries**: When finding something unexpected:
   `crosslink comment "#;

/// Part of the prompt between two values.
pub const PROMPT_10: &'static str = r#" "Found: <observation>" --kind observation`
10. **Sync periodically**: After adding comments or completing major milestones, run `crosslink sync` to push
    your changes to the coordination hub. Other agents and the driver cannot see your comments until you sync.
11. **Log interventions**: If a hook blocks you or a human redirects you, log it immediately:
    `crosslink intervene "#;

/// Part of the prompt between two values.
pub const PROMPT_11: &'static str = r#" "Description" --trigger <type> --context "what you were attempting"`
    **Handle blockers visibly**: Document with `crosslink comment "#;

/// Part of the prompt between two values.
pub const PROMPT_12: &'static str = r#" "Blocker: <desc>" --kind blocker`
    and resolutions with `crosslink comment "#;

/// Part of the prompt between two values.
pub const PROMPT_13: &'static str = r#" "Resolved: <how>" --kind resolution`
"#;

/// What an agent does with the results of its tests.
pub const RESULTS_HEAD: &'static str = "12. **Document results**: `crosslink comment ";

/// The steps from there to the last commit.
pub const RESULTS_FOOT: &'static str = r#" "Result: <summary>" --kind result`
13. Use `/commit` to commit the work when implementation is complete
14. Review the diff and fix any issues found
15. Use `/commit` again after any fixes
"#;

/// The instructions of a read-only analysis.
pub const ANALYSIS_SECTION: &'static str = r#"
## Analysis Instructions

You are in **read-only analysis mode**. Do NOT write or edit any code files. Your task is to
analyze the design document above against the existing codebase and produce a structured gap report.

### Steps

1. **Explore the codebase** — find files, patterns, and existing implementations relevant to
   each requirement in the design document.
2. **Assess each requirement** — for each one, determine:
   - Is it feasible with the current codebase?
   - What existing code supports or conflicts with it?
   - What information is missing?
3. **Address open questions** — attempt to answer each from codebase context (existing patterns,
   conventions, prior art).
4. **Identify conflicts** — flag any existing code that contradicts or complicates requirements.
5. **Estimate subtasks** — break the implementation into estimated subtasks with scope and risk.
6. **Write the gap report** — produce `.kickoff-plan.json` in the current directory.

### Output Format

Write a JSON file `.kickoff-plan.json` with exactly this structure:

```json
{
  "gaps": [
    {
      "section": "Requirements|Acceptance Criteria|Architecture|...",
      "item": "REQ-1 or null",
      "severity": "blocking|advisory",
      "detail": "description of the gap"
    }
  ],
  "assumptions": [
    {
      "about": "what this assumption relates to",
      "assumption": "what we're assuming"
    }
  ],
  "estimated_subtasks": [
    {
      "title": "subtask title",
      "scope": "~200 lines",
      "risk": "low|medium|high"
    }
  ],
  "conflicts": [
    {
      "file": "src/path/to/file.rs",
      "detail": "description of the conflict"
    }
  ]
}
```

### Final Steps

1. Write `.kickoff-plan.json` (valid JSON only)
2. Write the word `DONE` to `.kickoff-status`
"#;

/// Build the CI verification section of the prompt.
pub fn build_ci_verification_section() -> (r: &'static str)
    ensures
        r@ == CI_SECTION@,
{
    CI_SECTION
}

/// Build the adversarial section of the prompt.
pub fn build_adversarial_review_section() -> (r: &'static str)
    ensures
        r@ == ADVERSARIAL_SECTION@,
{
    ADVERSARIAL_SECTION
}

/// Build the reporting and validation section of the prompt.
///
/// Instructs the agent to validate acceptance criteria, capture timing and
/// metrics, and write a structured `.kickoff-report.json`.
pub fn build_reporting_section() -> (r: &'static str)
    ensures
        r@ == REPORTING_SECTION@,
{
    REPORTING_SECTION
}

/// Build the final steps section of the prompt.
pub fn build_final_steps_section() -> (r: &'static str)
    ensures
        r@ == FINAL_SECTION@,
{
    FINAL_SECTION
}

// ---------------------------------------------------------------------------
// Tests and lints
// ---------------------------------------------------------------------------

/// A command in backquotes.
pub open spec fn quoted(command: Seq<char>) -> Seq<char> {
    "`"@ + command + "`"@
}

/// The commands of a list in backquotes.
pub open spec fn quoted_all(commands: Seq<Seq<char>>) -> Seq<Seq<char>> {
    Seq::new(commands.len(), |i: int| quoted(commands[i]))
}

/// The instructions on tests and lints.
pub open spec fn test_lint_instructions(c: ConventionsView, issue_id: int) -> Seq<char> {
    let tests = match c.test_command {
        Some(command) => "10. **Run tests**: `"@ + command + "`\n"@,
        None => "10. **Run the project's test suite** to verify changes\n"@,
    };
    let lints = if c.lint_commands.len() > 0 {
        tests + "11. **Run lint/format checks**: "@ + text::join(
            quoted_all(c.lint_commands),
            ", "@,
        ) + "\n"@
    } else {
        tests + "11. **Run lint and format checks** before committing\n"@
    };
    lints + RESULTS_HEAD@ + text::dec_int(issue_id) + RESULTS_FOOT@
}

fn quote_all(commands: &Vec<String>) -> (r: Vec<String>)
    ensures
        text::strs(r@) == quoted_all(text::strs(commands@)),
{
    let ghost all = quoted_all(text::strs(commands@));
    let mut out: Vec<String> = Vec::new();
    let mut i: usize = 0;
    while i < commands.len()
        invariant
            i <= commands@.len(),
            all == quoted_all(text::strs(commands@)),
            text::strs(out@) == all.take(i as int),
        decreases commands@.len() - i,
    {
        let mut q = own("`");
        q.append(commands[i].as_str());
        q.append("`");
        let ghost before = out@;
        out.push(q);
        proof {
            text::lemma_strs_push(before, q);
            assert(all.take(i + 1) =~= all.take(i as int).push(q@));
        }
        i = i + 1;
    }
    assert(all.take(all.len() as int) =~= all);
    out
}

/// Build the test/lint instruction lines for the prompt.
pub fn build_test_lint_instructions(conventions: &ProjectConventions, issue_id: i64) -> (r: String)
    ensures
        r@ == test_lint_instructions(conventions@, issue_id as int),
{
    let mut section = match &conventions.test_command {
        Some(command) => {
            let mut line = own("10. **Run tests**: `");
            line.append(command.as_str());
            line.append("`\n");
            line
        },
        None => own("10. **Run the project's test suite** to verify changes\n"),
    };
    assert(conventions@.lint_commands.len() == conventions.lint_commands@.len());
    if conventions.lint_commands.len() > 0 {
        section.append("11. **Run lint/format checks**: ");
        section.append(join_strs(&quote_all(&conventions.lint_commands), ", ").as_str());
        section.append("\n");
    } else {
        section.append("11. **Run lint and format checks** before committing\n");
    }
    section.append(RESULTS_HEAD);
    section.append(dec_i64(issue_id).as_str());
    section.append(RESULTS_FOOT);
    section
}

// ---------------------------------------------------------------------------
// The prompt to implement a feature
// ---------------------------------------------------------------------------

/// The first part of the prompt: feature, issue, branch and level, and how to work.
pub open spec fn prompt_head(
    description: Seq<char>,
    issue_id: int,
    branch: Seq<char>,
    level: Seq<char>,
    guide: Seq<char>,
) -> Seq<char> {
    PROMPT_0@
        + description
        + PROMPT_1@
        + text::dec_int(issue_id)
        + PROMPT_2@
        + branch
        + PROMPT_3@
        + level
        + PROMPT_4@
        + description
        + PROMPT_5@
        + text::dec_int(issue_id)
        + PROMPT_6@
        + guide
        + PROMPT_7@
        + text::dec_int(issue_id)
        + PROMPT_8@
        + text::dec_int(issue_id)
        + PROMPT_9@
        + text::dec_int(issue_id)
        + PROMPT_10@
        + text::dec_int(issue_id)
        + PROMPT_11@
        + text::dec_int(issue_id)
        + PROMPT_12@
        + text::dec_int(issue_id)
        + PROMPT_13@
}

/// A text with a design document behind it, and with the instructions about its open
/// questions where it has any.
pub open spec fn with_design(acc: Seq<char>, doc: DocView) -> Seq<char> {
    let a = acc + design_doc::design_section(doc);
    match design_doc::escalation(doc.open_questions) {
        Some(escalation) => a + escalation,
        None => a,
    }
}

/// The model of an optional design document.
pub open spec fn opt_doc(doc: Option<&DesignDoc>) -> Option<DocView> {
    match doc {
        Some(d) => Some(d@),
        None => None,
    }
}

/// The prompt to implement a feature. The section on checks comes with the two higher
/// levels, the adversarial one with the highest, the one on reporting where the
/// design document has acceptance criteria.
pub open spec fn feature_prompt(
    opts: KickoffOpts,
    issue_id: int,
    branch: Seq<char>,
    conventions: ConventionsView,
) -> Seq<char> {
    let doc = opt_doc(opts.design_doc);
    let head = prompt_head(
        opts.description@,
        issue_id,
        branch,
        options::level_name(opts.verify),
        opts.assistant.guide@,
    );
    let a = match doc {
        Some(d) => with_design(head, d),
        None => head,
    };
    let b = a + test_lint_instructions(conventions, issue_id);
    let c = if opts.verify == VerifyLevel::Ci || opts.verify == VerifyLevel::Thorough {
        b + CI_SECTION@
    } else {
        b
    };
    let d = if opts.verify == VerifyLevel::Thorough {
        c + ADVERSARIAL_SECTION@
    } else {
        c
    };
    let e = match doc {
        Some(v) => if v.acceptance_criteria.len() > 0 {
            d + REPORTING_SECTION@
        } else {
            d
        },
        None => d,
    };
    e + FINAL_SECTION@
}

fn push_design(prompt: &mut String, doc: &DesignDoc)
    ensures
        final(prompt)@ == with_design(old(prompt)@, doc@),
{
    prompt.append(build_design_doc_section(doc).as_str());
    if let Some(escalation) = build_open_questions_escalation(doc) {
        prompt.append(escalation.as_str());
    }
}

/// Build the KICKOFF.md prompt for the agent.
pub fn build_prompt(
    opts: &KickoffOpts,
    issue_id: i64,
    branch_name: &str,
    conventions: &ProjectConventions,
) -> (prompt: String)
    ensures
        prompt@ == feature_prompt(*opts, issue_id as int, branch_name@, conventions@),
{
    let issue = dec_i64(issue_id);
    let mut prompt = own(PROMPT_0);
    prompt.append(opts.description);
    prompt.append(PROMPT_1);
    prompt.append(issue.as_str());
    prompt.append(PROMPT_2);
    prompt.append(branch_name);
    prompt.append(PROMPT_3);
    prompt.append(verify_level_name(&opts.verify));
    prompt.append(PROMPT_4);
    prompt.append(opts.description);
    prompt.append(PROMPT_5);
    prompt.append(issue.as_str());
    prompt.append(PROMPT_6);
    prompt.append(opts.assistant.guide);
    prompt.append(PROMPT_7);
    prompt.append(issue.as_str());
    prompt.append(PROMPT_8);
    prompt.append(issue.as_str());
    prompt.append(PROMPT_9);
    prompt.append(issue.as_str());
    prompt.append(PROMPT_10);
    prompt.append(issue.as_str());
    prompt.append(PROMPT_11);
    prompt.append(issue.as_str());
    prompt.append(PROMPT_12);
    prompt.append(issue.as_str());
    prompt.append(PROMPT_13);
    if let Some(doc) = opts.design_doc {
        push_design(&mut prompt, doc);
    }
    prompt.append(build_test_lint_instructions(conventions, issue_id).as_str());
    if opts.verify == VerifyLevel::Ci || opts.verify == VerifyLevel::Thorough {
        prompt.append(build_ci_verification_section());
    }
    if opts.verify == VerifyLevel::Thorough {
        prompt.append(build_adversarial_review_section());
    }
    if let Some(doc) = opts.design_doc {
        assert(text::strs(doc.acceptance_criteria@).len() == doc.acceptance_criteria@.len());
        if doc.acceptance_criteria.len() > 0 {
            prompt.append(build_reporting_section());
        }
    }
    prompt.append(build_final_steps_section());
    prompt
}

// ---------------------------------------------------------------------------
// The prompt to analyze a design
// ---------------------------------------------------------------------------

/// The prompt for a read-only analysis of a design document.
pub open spec fn analysis_prompt(doc: DocView, issue_id: Option<int>) -> Seq<char> {
    let a = "# KICKOFF PLAN: Gap Analysis — "@ + doc.title + "\n\n## Context\n\n"@;
    let b = match issue_id {
        Some(id) => a + "- **Issue**: #"@ + text::dec_int(id) + "\n"@,
        None => a,
    };
    with_design(b + "- **Mode**: Read-only analysis (no code changes)\n\n"@, doc)
        + ANALYSIS_SECTION@
}

/// Build the prompt for plan mode — read-only gap analysis.
pub fn build_plan_prompt(doc: &DesignDoc, issue_id: Option<i64>) -> (prompt: String)
    ensures
        prompt@ == analysis_prompt(
            doc@,
            match issue_id {
                Some(id) => Some(id as int),
                None => None,
            },
        ),
{
    let mut prompt = own("# KICKOFF PLAN: Gap Analysis — ");
    prompt.append(doc.title.as_str());
    prompt.append("\n\n## Context\n\n");
    if let Some(id) = issue_id {
        prompt.append("- **Issue**: #");
        prompt.append(dec_i64(id).as_str());
        prompt.append("\n");
    }
    prompt.append("- **Mode**: Read-only analysis (no code changes)\n\n");
    push_design(&mut prompt, doc);
    prompt.append(ANALYSIS_SECTION);
    prompt
}

// ---------------------------------------------------------------------------
// Laws
// ---------------------------------------------------------------------------

/// The prompt of a feature tells the agent what to build, for which issue, on which branch, how
/// far to verify it and which guide to read.
pub proof fn law_prompt_tells_the_task(
    opts: KickoffOpts,
    issue_id: int,
    branch: Seq<char>,
    conventions: ConventionsView,
)
    ensures
        ({
            let prompt = feature_prompt(opts, issue_id, branch, conventions);
            &&& text::contains(prompt, opts.description@)
            &&& text::contains(prompt, PROMPT_1@ + text::dec_int(issue_id) + PROMPT_2@ + branch
                + PROMPT_3@ + options::level_name(opts.verify))
            &&& text::contains(prompt, PROMPT_6@ + opts.assistant.guide@)
            &&& text::contains(prompt, test_lint_instructions(conventions, issue_id))
        }),
{
    let level = options::level_name(opts.verify);
    let guide = opts.assistant.guide@;
    let head = prompt_head(opts.description@, issue_id, branch, level, guide);
    lemma_prompt_grows(opts, issue_id, branch, conventions);
    let prompt = feature_prompt(opts, issue_id, branch, conventions);
    lemma_head_tells(opts.description@, issue_id, branch, level, guide);
    text::lemma_contains_transitive(prompt, head, opts.description@);
    text::lemma_contains_transitive(
        prompt,
        head,
        PROMPT_1@ + text::dec_int(issue_id) + PROMPT_2@ + branch + PROMPT_3@ + level,
    );
    text::lemma_contains_transitive(prompt, head, PROMPT_6@ + guide);
}

proof fn lemma_head_tells(
    description: Seq<char>,
    issue_id: int,
    branch: Seq<char>,
    level: Seq<char>,
    guide: Seq<char>,
)
    ensures
        ({
            let head = prompt_head(description, issue_id, branch, level, guide);
            &&& text::contains(head, description)
            &&& text::contains(
                head,
                PROMPT_1@ + text::dec_int(issue_id) + PROMPT_2@ + branch + PROMPT_3@ + level,
            )
            &&& text::contains(head, PROMPT_6@ + guide)
        }),
{
    let id = text::dec_int(issue_id);
    let a = PROMPT_0@ + description;
    let m = PROMPT_1@ + id + PROMPT_2@ + branch + PROMPT_3@ + level;
    let b = PROMPT_4@ + description + PROMPT_5@ + id;
    let g = PROMPT_6@ + guide;
    let tail = PROMPT_7@ + id + PROMPT_8@ + id + PROMPT_9@ + id + PROMPT_10@ + id + PROMPT_11@ + id
        + PROMPT_12@ + id + PROMPT_13@;
    let head = prompt_head(description, issue_id, branch, level, guide);
    assert(head =~= a + m + b + g + tail);
    text::lemma_contains_self(description);
    text::lemma_contains_self(m);
    text::lemma_contains_self(g);
    text::lemma_contains_second(PROMPT_0@, description, description);
    text::lemma_contains_first(a, m, description);
    text::lemma_contains_first(a + m, b, description);
    text::lemma_contains_first(a + m + b, g, description);
    text::lemma_contains_first(a + m + b + g, tail, description);
    text::lemma_contains_second(a, m, m);
    text::lemma_contains_first(a + m, b, m);
    text::lemma_contains_first(a + m + b, g, m);
    text::lemma_contains_first(a + m + b + g, tail, m);
    text::lemma_contains_second(a + m + b, g, g);
    text::lemma_contains_first(a + m + b + g, tail, g);
}

/// What stands behind the instructions on tests: how to wait for checks, where the level asks for
/// them; the adversarial pass, where it asks for that too; how to report, where there are
/// criteria to report on; and the last steps.
pub open spec fn closing_sections(level: VerifyLevel, has_criteria: bool) -> Seq<char> {
    (if level == VerifyLevel::Local {
        ""@
    } else {
        CI_SECTION@
    }) + (if level == VerifyLevel::Thorough {
        ADVERSARIAL_SECTION@
    } else {
        ""@
    }) + (if has_criteria {
        REPORTING_SECTION@
    } else {
        ""@
    }) + FINAL_SECTION@
}

proof fn lemma_closing(
    a: Seq<char>,
    t: Seq<char>,
    c: Seq<char>,
    d: Seq<char>,
    e: Seq<char>,
    f: Seq<char>,
)
    ensures
        a + t + c + d + e + f == a + (t + (c + d + e + f)),
{
    assert(a + t + c + d + e + f =~= a + (t + (c + d + e + f)));
}

proof fn lemma_nothing_added(a: Seq<char>)
    ensures
        a + ""@ == a,
{
    reveal_strlit("");
    assert(a + ""@ =~= a);
}

/// A prompt ends with the instructions on tests and exactly those sections that the level and the
/// design document ask for.
pub proof fn law_prompt_ends_as_asked(
    opts: KickoffOpts,
    issue_id: int,
    branch: Seq<char>,
    conventions: ConventionsView,
)
    ensures
        text::has_suffix(
            feature_prompt(opts, issue_id, branch, conventions),
            test_lint_instructions(conventions, issue_id) + closing_sections(
                opts.verify,
                opts.design_doc matches Some(d) && d.acceptance_criteria@.len() > 0,
            ),
        ),
{
    reveal_strlit("");
    let has = opts.design_doc matches Some(d) && d.acceptance_criteria@.len() > 0;
    if let Some(d) = opts.design_doc {
        assert(d@.acceptance_criteria.len() == d.acceptance_criteria@.len());
    }
    let head = prompt_head(
        opts.description@,
        issue_id,
        branch,
        options::level_name(opts.verify),
        opts.assistant.guide@,
    );
    let a = match opt_doc(opts.design_doc) {
        Some(d) => with_design(head, d),
        None => head,
    };
    let t = test_lint_instructions(conventions, issue_id);
    let close = closing_sections(opts.verify, has);
    let c = if opts.verify == VerifyLevel::Local {
        ""@
    } else {
        CI_SECTION@
    };
    let d = if opts.verify == VerifyLevel::Thorough {
        ADVERSARIAL_SECTION@
    } else {
        ""@
    };
    let e = if has {
        REPORTING_SECTION@
    } else {
        ""@
    };
    lemma_closing(a, t, c, d, e, FINAL_SECTION@);
    lemma_nothing_added(a + t);
    lemma_nothing_added(a + t + c);
    lemma_nothing_added(a + t + c + d);
    text::lemma_suffix_of_sum(a, t + close);
}

proof fn lemma_prompt_grows(
    opts: KickoffOpts,
    issue_id: int,
    branch: Seq<char>,
    conventions: ConventionsView,
)
    ensures
        ({
            let prompt = feature_prompt(opts, issue_id, branch, conventions);
            let head = prompt_head(
                opts.description@,
                issue_id,
                branch,
                options::level_name(opts.verify),
                opts.assistant.guide@,
            );
            &&& text::contains(prompt, head)
            &&& text::contains(prompt, test_lint_instructions(conventions, issue_id))
            &&& opts.design_doc matches Some(d) ==> text::contains(prompt, with_design(head, d@))
        }),
{
    broadcast use {text::lemma_contains_self, text::lemma_contains_first, text::lemma_contains_second};

}

/// A design document is part of the prompt, whole, with the instructions on its open questions.
pub proof fn law_prompt_tells_the_design(
    opts: KickoffOpts,
    issue_id: int,
    branch: Seq<char>,
    conventions: ConventionsView,
    doc: &DesignDoc,
)
    requires
        opts.design_doc == Some(doc),
    ensures
        ({
            let prompt = feature_prompt(opts, issue_id, branch, conventions);
            &&& text::contains(prompt, design_doc::design_section(doc@))
            &&& doc@.open_questions.len() > 0 ==> text::contains(
                prompt,
                design_doc::escalation(doc@.open_questions)->0,
            )
        }),
{
    broadcast use {text::lemma_contains_self, text::lemma_contains_first, text::lemma_contains_second};

    lemma_prompt_grows(opts, issue_id, branch, conventions);
    let head = prompt_head(
        opts.description@,
        issue_id,
        branch,
        options::level_name(opts.verify),
        opts.assistant.guide@,
    );
    let prompt = feature_prompt(opts, issue_id, branch, conventions);
    let whole = with_design(head, doc@);
    assert(text::contains(whole, design_doc::design_section(doc@)));
    text::lemma_contains_transitive(prompt, whole, design_doc::design_section(doc@));
    if doc@.open_questions.len() > 0 {
        let e = design_doc::escalation(doc@.open_questions)->0;
        assert(text::contains(whole, e));
        text::lemma_contains_transitive(prompt, whole, e);
    }
}

/// An agent is told the test command and every lint command of its project, and where to note
/// the results.
pub proof fn law_commands_are_told(c: ConventionsView, issue_id: int, k: int)
    ensures
        c.test_command matches Some(command) ==> text::contains(
            test_lint_instructions(c, issue_id),
            "`"@ + command + "`"@,
        ),
        0 <= k < c.lint_commands.len() ==> text::contains(
            test_lint_instructions(c, issue_id),
            "`"@ + c.lint_commands[k] + "`"@,
        ),
        text::contains(test_lint_instructions(c, issue_id), text::dec_int(issue_id)),
{
    broadcast use {text::lemma_contains_self, text::lemma_contains_first, text::lemma_contains_second};

    if let Some(command) = c.test_command {
        reveal_strlit("10. **Run tests**: `");
        reveal_strlit("10. **Run tests**: ");
        reveal_strlit("`");
        reveal_strlit("`\n");
        reveal_strlit("\n");
        let q = "`"@ + command + "`"@;
        let tests = "10. **Run tests**: `"@ + command + "`\n"@;
        assert(tests =~= "10. **Run tests**: "@ + q + "\n"@);
        text::lemma_contains_second("10. **Run tests**: "@, q, q);
        text::lemma_contains_first("10. **Run tests**: "@ + q, "\n"@, q);
        assert(text::contains(tests, q));
    }
    if 0 <= k < c.lint_commands.len() {
        text::law_joined_text_holds_its_parts(quoted_all(c.lint_commands), ", "@, k);
        assert(quoted_all(c.lint_commands)[k] == "`"@ + c.lint_commands[k] + "`"@);
    }
}

/// The prompt of an analysis tells the whole design, the issue where there is one, and that
/// nothing is to be changed.
pub proof fn law_analysis_prompt_tells_the_design(doc: DocView, issue_id: Option<int>)
    ensures
        text::contains(analysis_prompt(doc, issue_id), doc.title),
        text::contains(analysis_prompt(doc, issue_id), design_doc::design_section(doc)),
        text::contains(analysis_prompt(doc, issue_id), "Read-only analysis"@),
        text::has_suffix(analysis_prompt(doc, issue_id), ANALYSIS_SECTION@),
        issue_id matches Some(id) ==> text::contains(
            analysis_prompt(doc, issue_id),
            text::dec_int(id),
        ),
        doc.open_questions.len() > 0 ==> text::contains(
            analysis_prompt(doc, issue_id),
            design_doc::escalation(doc.open_questions)->0,
        ),
{
    broadcast use {text::lemma_contains_self, text::lemma_contains_first, text::lemma_contains_second};

    reveal_strlit("- **Mode**: Read-only analysis (no code changes)\n\n");
    reveal_strlit("Read-only analysis");
    let mode = "- **Mode**: Read-only analysis (no code changes)\n\n"@;
    assert(mode.subrange(12, 30) =~= "Read-only analysis"@);
    assert(text::occurs_at(mode, "Read-only analysis"@, 12));
    let a = "# KICKOFF PLAN: Gap Analysis — "@ + doc.title + "\n\n## Context\n\n"@;
    let b = match issue_id {
        Some(id) => a + "- **Issue**: #"@ + text::dec_int(id) + "\n"@,
        None => a,
    };
    let whole = with_design(b + mode, doc);
    text::lemma_suffix_of_sum(whole, ANALYSIS_SECTION@);
    assert(text::contains(whole, doc.title));
    assert(text::contains(whole, "Read-only analysis"@));
}

} // verus!
