//! How a project is tested, and which tools its agents may use.

use crate::commands::kickoff::options::VerifyLevel;
use crate::text;
use crate::text::{contains_name, eq_str, join_strs, lines_of, own, own_words, push_name, trim_str};
use vstd::prelude::*;

verus! {

/// Project conventions, as the files in the repository root show them.
#[derive(Debug, Clone, PartialEq)]
pub struct ProjectConventions {
    pub test_command: Option<String>,
    pub lint_commands: Vec<String>,
    pub allowed_tools: Vec<String>,
}

/// The model of project conventions.
#[verifier::ext_equal]
pub struct ConventionsView {
    pub test_command: Option<Seq<char>>,
    pub lint_commands: Seq<Seq<char>>,
    pub allowed_tools: Seq<Seq<char>>,
}

impl View for ProjectConventions {
    type V = ConventionsView;

    open spec fn view(&self) -> ConventionsView {
        ConventionsView {
            test_command: text::opt_str(self.test_command),
            lint_commands: text::strs(self.lint_commands@),
            allowed_tools: text::strs(self.allowed_tools@),
        }
    }
}

/// Conventions with a test command, unless they have one already.
pub open spec fn with_test(c: ConventionsView, command: Seq<char>) -> ConventionsView {
    match c.test_command {
        Some(_) => c,
        None => ConventionsView { test_command: Some(command), ..c },
    }
}

/// Conventions with one more lint command.
pub open spec fn with_lint(c: ConventionsView, command: Seq<char>) -> ConventionsView {
    ConventionsView { lint_commands: c.lint_commands.push(command), ..c }
}

/// Conventions with one more tool.
pub open spec fn with_tool(c: ConventionsView, tool: Seq<char>) -> ConventionsView {
    ConventionsView { allowed_tools: c.allowed_tools.push(tool), ..c }
}

/// The conventions of a project, from the files that are there. The first toolchain
/// found gives the test command; each adds its lints and tools.
pub open spec fn conventions_of(files: Seq<Seq<char>>) -> ConventionsView {
    let none = ConventionsView {
        test_command: None,
        lint_commands: Seq::empty(),
        allowed_tools: Seq::empty(),
    };
    let rust = if text::has_name(files, "Cargo.toml"@) || text::has_name(
        files,
        "crosslink/Cargo.toml"@,
    ) {
        with_tool(
            with_lint(
                with_lint(with_test(none, "cargo test"@), "cargo clippy -- -D warnings"@),
                "cargo fmt --check"@,
            ),
            "Bash(cargo *)"@,
        )
    } else {
        none
    };
    let node = if text::has_name(files, "package.json"@) {
        with_tool(with_tool(with_test(rust, "npm test"@), "Bash(npm *)"@), "Bash(npx *)"@)
    } else {
        rust
    };
    let python = if text::has_name(files, "pyproject.toml"@) || text::has_name(
        files,
        "requirements.txt"@,
    ) {
        with_tool(
            with_tool(
                with_lint(with_test(node, "uv run pytest"@), "ruff check ."@),
                "Bash(uv *)"@,
            ),
            "Bash(python3 *)"@,
        )
    } else {
        node
    };
    let go = if text::has_name(files, "go.mod"@) {
        with_tool(with_lint(with_test(python, "go test ./..."@), "go vet ./..."@), "Bash(go *)"@)
    } else {
        python
    };
    let just = if text::has_name(files, "justfile"@) || text::has_name(files, "Justfile"@) {
        with_tool(go, "Bash(just *)"@)
    } else {
        go
    };
    if text::has_name(files, "Makefile"@) || text::has_name(files, "makefile"@) {
        with_tool(just, "Bash(make *)"@)
    } else {
        just
    }
}

impl ProjectConventions {
    fn add_test(&mut self, command: &str)
        ensures
            final(self)@ == with_test(old(self)@, command@),
    {
        if self.test_command.is_none() {
            self.test_command = Some(own(command));
        }
    }

    fn add_lint(&mut self, command: &str)
        ensures
            final(self)@ == with_lint(old(self)@, command@),
    {
        let ghost before = self.lint_commands@;
        self.lint_commands.push(own(command));
        proof {
            text::lemma_strs_push(before, self.lint_commands@.last());
        }
    }

    fn add_tool(&mut self, tool: &str)
        ensures
            final(self)@ == with_tool(old(self)@, tool@),
    {
        let ghost before = self.allowed_tools@;
        self.allowed_tools.push(own(tool));
        proof {
            text::lemma_strs_push(before, self.allowed_tools@.last());
        }
    }
}

/// Detect project conventions from the files in the repo root. A file in a
/// subdirectory is named by its path from there.
pub fn detect_conventions(files: &Vec<String>) -> (conv: ProjectConventions)
    ensures
        conv@ == conventions_of(text::strs(files@)),
{
    let mut conv = ProjectConventions {
        test_command: None,
        lint_commands: Vec::new(),
        allowed_tools: Vec::new(),
    };
    assert(text::strs(conv.lint_commands@) =~= Seq::<Seq<char>>::empty());
    assert(text::strs(conv.allowed_tools@) =~= Seq::<Seq<char>>::empty());
    if contains_name(files, "Cargo.toml") || contains_name(files, "crosslink/Cargo.toml") {
        conv.add_test("cargo test");
        conv.add_lint("cargo clippy -- -D warnings");
        conv.add_lint("cargo fmt --check");
        conv.add_tool("Bash(cargo *)");
    }
    if contains_name(files, "package.json") {
        conv.add_test("npm test");
        conv.add_tool("Bash(npm *)");
        conv.add_tool("Bash(npx *)");
    }
    if contains_name(files, "pyproject.toml") || contains_name(files, "requirements.txt") {
        conv.add_test("uv run pytest");
        conv.add_lint("ruff check .");
        conv.add_tool("Bash(uv *)");
        conv.add_tool("Bash(python3 *)");
    }
    if contains_name(files, "go.mod") {
        conv.add_test("go test ./...");
        conv.add_lint("go vet ./...");
        conv.add_tool("Bash(go *)");
    }
    if contains_name(files, "justfile") || contains_name(files, "Justfile") {
        conv.add_tool("Bash(just *)");
    }
    if contains_name(files, "Makefile") || contains_name(files, "makefile") {
        conv.add_tool("Bash(make *)");
    }
    conv
}

// ---------------------------------------------------------------------------
// Tools
// ---------------------------------------------------------------------------

/// The tools of every agent that implements a feature.
pub open spec fn base_tools() -> Seq<Seq<char>> {
    seq![
        "Read"@,
        "Write"@,
        "Edit"@,
        "Glob"@,
        "Grep"@,
        "Skill"@,
        "Task"@,
        "WebSearch"@,
        "WebFetch"@,
        "Bash(git *)"@,
        "Bash(ls *)"@,
        "Bash(mkdir *)"@,
        "Bash(test *)"@,
        "Bash(which *)"@,
        "Bash(touch *)"@,
        "Bash(cat *)"@,
        "Bash(head *)"@,
        "Bash(tail *)"@,
        "Bash(wc *)"@,
        "Bash(diff *)"@,
        "Bash(echo *)"@,
        "Bash(crosslink *)"@,
    ]
}

/// The tools of an agent that only analyzes.
pub open spec fn plan_tools() -> Seq<Seq<char>> {
    seq![
        "Read"@,
        "Glob"@,
        "Grep"@,
        "WebSearch"@,
        "WebFetch"@,
        "Bash(git status *)"@,
        "Bash(git log *)"@,
        "Bash(git diff *)"@,
        "Bash(git show *)"@,
        "Bash(git branch *)"@,
        "Bash(ls *)"@,
        "Bash(cat *)"@,
        "Bash(head *)"@,
        "Bash(tail *)"@,
        "Bash(wc *)"@,
        "Bash(crosslink *)"@,
    ]
}

/// The tools to follow the checks of a pull request, where the level asks for them.
pub open spec fn check_tools(verify: VerifyLevel) -> Seq<Seq<char>> {
    if verify == VerifyLevel::Ci || verify == VerifyLevel::Thorough {
        seq!["Bash(gh *)"@, "Bash(sleep *)"@]
    } else {
        Seq::empty()
    }
}

/// The tools of an agent: those of every agent, those to follow checks, and those of the
/// project, in its order.
pub open spec fn tool_list(project_tools: Seq<Seq<char>>, verify: VerifyLevel) -> Seq<Seq<char>> {
    base_tools() + check_tools(verify) + project_tools
}

/// The tools of an agent as one argument, with commas between.
pub open spec fn allowed_tools(project_tools: Seq<Seq<char>>, verify: VerifyLevel) -> Seq<char> {
    text::join(tool_list(project_tools, verify), ","@)
}

/// Build the --allowedTools string for the assistant.
pub fn build_allowed_tools(conventions: &ProjectConventions, verify: &VerifyLevel) -> (out: String)
    ensures
        out@ == allowed_tools(conventions@.allowed_tools, *verify),
{
    let words: Vec<&'static str> = vec![
        "Read",
        "Write",
        "Edit",
        "Glob",
        "Grep",
        "Skill",
        "Task",
        "WebSearch",
        "WebFetch",
        "Bash(git *)",
        "Bash(ls *)",
        "Bash(mkdir *)",
        "Bash(test *)",
        "Bash(which *)",
        "Bash(touch *)",
        "Bash(cat *)",
        "Bash(head *)",
        "Bash(tail *)",
        "Bash(wc *)",
        "Bash(diff *)",
        "Bash(echo *)",
        "Bash(crosslink *)",
    ];
    assert(text::words(words@) =~= base_tools());
    let mut tools = own_words(&words);
    if *verify == VerifyLevel::Ci || *verify == VerifyLevel::Thorough {
        push_name(&mut tools, "Bash(gh *)");
        push_name(&mut tools, "Bash(sleep *)");
    }
    let ghost fixed = base_tools() + check_tools(*verify);
    assert(text::strs(tools@) =~= fixed);
    let of_project = &conventions.allowed_tools;
    let ghost own_tools = text::strs(of_project@);
    assert(fixed + own_tools.take(0) =~= fixed);
    let mut i: usize = 0;
    while i < of_project.len()
        invariant
            i <= of_project@.len(),
            own_tools == text::strs(of_project@),
            text::strs(tools@) == fixed + own_tools.take(i as int),
        decreases of_project@.len() - i,
    {
        push_name(&mut tools, of_project[i].as_str());
        assert(fixed + own_tools.take(i + 1) =~= (fixed + own_tools.take(i as int)).push(
            own_tools[i as int],
        ));
        i = i + 1;
    }
    assert(own_tools.take(own_tools.len() as int) =~= own_tools);
    join_strs(&tools, ",")
}

/// The tools of an agent that only analyzes, as one argument.
pub open spec fn allowed_tools_plan() -> Seq<char> {
    text::join(plan_tools(), ","@)
}

/// Build the allowed tools string for plan mode (read-only analysis).
pub fn build_allowed_tools_plan() -> (out: String)
    ensures
        out@ == allowed_tools_plan(),
{
    let words: Vec<&'static str> = vec![
        "Read",
        "Glob",
        "Grep",
        "WebSearch",
        "WebFetch",
        "Bash(git status *)",
        "Bash(git log *)",
        "Bash(git diff *)",
        "Bash(git show *)",
        "Bash(git branch *)",
        "Bash(ls *)",
        "Bash(cat *)",
        "Bash(head *)",
        "Bash(tail *)",
        "Bash(wc *)",
        "Bash(crosslink *)",
    ];
    assert(text::words(words@) =~= plan_tools());
    let tools = own_words(&words);
    join_strs(&tools, ",")
}

proof fn lemma_base_lacks(p: Seq<char>)
    requires
        p == "Bash(gh *)"@ || p == "Bash(sleep *)"@,
    ensures
        !text::in_one(base_tools(), p),
        !p.contains(','),
        p.len() > 0,
{
    reveal_strlit("Bash(gh *)");
    reveal_strlit("Bash(sleep *)");
    reveal_with_fuel(text::agrees, 8);
    reveal_with_fuel(text::begins_before, 9);
    let tools = base_tools();
    assert forall|k: int| 0 <= k < tools.len() implies !text::contains(#[trigger] tools[k], p) by {
        if k == 0 {
            reveal_strlit("Read");
            text::lemma_absent("Read"@, p);
        }
        if k == 1 {
            reveal_strlit("Write");
            text::lemma_absent("Write"@, p);
        }
        if k == 2 {
            reveal_strlit("Edit");
            text::lemma_absent("Edit"@, p);
        }
        if k == 3 {
            reveal_strlit("Glob");
            text::lemma_absent("Glob"@, p);
        }
        if k == 4 {
            reveal_strlit("Grep");
            text::lemma_absent("Grep"@, p);
        }
        if k == 5 {
            reveal_strlit("Skill");
            text::lemma_absent("Skill"@, p);
        }
        if k == 6 {
            reveal_strlit("Task");
            text::lemma_absent("Task"@, p);
        }
        if k == 7 {
            reveal_strlit("WebSearch");
            text::lemma_absent("WebSearch"@, p);
        }
        if k == 8 {
            reveal_strlit("WebFetch");
            text::lemma_absent("WebFetch"@, p);
        }
        if k == 9 {
            reveal_strlit("Bash(git *)");
            text::lemma_absent("Bash(git *)"@, p);
        }
        if k == 10 {
            reveal_strlit("Bash(ls *)");
            text::lemma_absent("Bash(ls *)"@, p);
        }
        if k == 11 {
            reveal_strlit("Bash(mkdir *)");
            text::lemma_absent("Bash(mkdir *)"@, p);
        }
        if k == 12 {
            reveal_strlit("Bash(test *)");
            text::lemma_absent("Bash(test *)"@, p);
        }
        if k == 13 {
            reveal_strlit("Bash(which *)");
            text::lemma_absent("Bash(which *)"@, p);
        }
        if k == 14 {
            reveal_strlit("Bash(touch *)");
            text::lemma_absent("Bash(touch *)"@, p);
        }
        if k == 15 {
            reveal_strlit("Bash(cat *)");
            text::lemma_absent("Bash(cat *)"@, p);
        }
        if k == 16 {
            reveal_strlit("Bash(head *)");
            text::lemma_absent("Bash(head *)"@, p);
        }
        if k == 17 {
            reveal_strlit("Bash(tail *)");
            text::lemma_absent("Bash(tail *)"@, p);
        }
        if k == 18 {
            reveal_strlit("Bash(wc *)");
            text::lemma_absent("Bash(wc *)"@, p);
        }
        if k == 19 {
            reveal_strlit("Bash(diff *)");
            text::lemma_absent("Bash(diff *)"@, p);
        }
        if k == 20 {
            reveal_strlit("Bash(echo *)");
            text::lemma_absent("Bash(echo *)"@, p);
        }
        if k == 21 {
            reveal_strlit("Bash(crosslink *)");
            text::lemma_absent("Bash(crosslink *)"@, p);
        }
    }
}

/// Each tool of the list stands in the argument.
pub proof fn law_listed_tools_are_allowed(
    project_tools: Seq<Seq<char>>,
    verify: VerifyLevel,
    tool: Seq<char>,
)
    requires
        tool_list(project_tools, verify).contains(tool),
    ensures
        text::contains(allowed_tools(project_tools, verify), tool),
{
    let list = tool_list(project_tools, verify);
    let k = list.index_of(tool);
    assert(tool.subrange(0, tool.len() as int) =~= tool);
    assert(text::occurs_at(list[k], tool, 0));
    assert(text::contains(list[k], tool));
    text::lemma_part_in_joined(list, ","@, tool);
}

/// Every agent may read, write, edit and track its work.
pub proof fn law_agents_can_work(project_tools: Seq<Seq<char>>, verify: VerifyLevel)
    ensures
        ({
            let tools = allowed_tools(project_tools, verify);
            text::contains(tools, "Read"@) && text::contains(tools, "Write"@) && text::contains(
                tools,
                "Edit"@,
            ) && text::contains(tools, "Bash(crosslink *)"@)
        }),
{
    let list = tool_list(project_tools, verify);
    assert(list[0] == "Read"@ && list[1] == "Write"@ && list[2] == "Edit"@);
    assert(list[21] == "Bash(crosslink *)"@);
    law_listed_tools_are_allowed(project_tools, verify, list[0]);
    law_listed_tools_are_allowed(project_tools, verify, list[1]);
    law_listed_tools_are_allowed(project_tools, verify, list[2]);
    law_listed_tools_are_allowed(project_tools, verify, list[21]);
}

/// The tools to follow the checks of a pull request are allowed exactly where the level asks
/// for them or a tool of the project holds them.
pub proof fn law_check_tools_are_for_checks(
    project_tools: Seq<Seq<char>>,
    verify: VerifyLevel,
    tool: Seq<char>,
)
    requires
        tool == "Bash(gh *)"@ || tool == "Bash(sleep *)"@,
    ensures
        text::contains(allowed_tools(project_tools, verify), tool) <==> verify
            != VerifyLevel::Local || text::in_one(project_tools, tool),
{
    let list = tool_list(project_tools, verify);
    let fixed = base_tools() + check_tools(verify);
    reveal_strlit(",");
    assert(","@ =~= seq![',']);
    lemma_base_lacks(tool);
    if verify != VerifyLevel::Local {
        assert(list[22] == "Bash(gh *)"@ && list[23] == "Bash(sleep *)"@);
        law_listed_tools_are_allowed(project_tools, verify, tool);
    } else {
        assert(list =~= base_tools() + project_tools);
        if text::in_one(project_tools, tool) {
            let k = choose|k: int|
                0 <= k < project_tools.len() && text::contains(#[trigger] project_tools[k], tool);
            assert(list[base_tools().len() + k] == project_tools[k]);
            text::lemma_part_in_joined(list, ","@, tool);
        }
        if text::contains(allowed_tools(project_tools, verify), tool) {
            text::lemma_in_joined(list, ',', tool);
            let k = choose|k: int| 0 <= k < list.len() && text::contains(#[trigger] list[k], tool);
            if k < base_tools().len() {
                assert(text::contains(base_tools()[k], tool));
            } else {
                assert(text::contains(project_tools[k - base_tools().len()], tool));
            }
        }
    }
}

/// Tools that change files or history.
pub open spec fn changing_tools() -> Seq<Seq<char>> {
    seq![
        "Write"@,
        "Edit"@,
        "Bash(mkdir"@,
        "Bash(touch"@,
        "Bash(echo"@,
        "Bash(git commit"@,
        "Bash(git push"@,
    ]
}

proof fn lemma_plan_lacks(p: Seq<char>)
    requires
        changing_tools().contains(p),
    ensures
        !text::in_one(plan_tools(), p),
        !p.contains(','),
        p.len() > 0,
{
    reveal_strlit("Write");
    reveal_strlit("Edit");
    reveal_strlit("Bash(mkdir");
    reveal_strlit("Bash(touch");
    reveal_strlit("Bash(echo");
    reveal_strlit("Bash(git commit");
    reveal_strlit("Bash(git push");
    reveal_with_fuel(text::agrees, 11);
    reveal_with_fuel(text::begins_before, 16);
    let tools = plan_tools();
    assert forall|k: int| 0 <= k < tools.len() implies !text::contains(#[trigger] tools[k], p) by {
        if k == 0 {
            reveal_strlit("Read");
            text::lemma_absent("Read"@, p);
        }
        if k == 1 {
            reveal_strlit("Glob");
            text::lemma_absent("Glob"@, p);
        }
        if k == 2 {
            reveal_strlit("Grep");
            text::lemma_absent("Grep"@, p);
        }
        if k == 3 {
            reveal_strlit("WebSearch");
            text::lemma_absent("WebSearch"@, p);
        }
        if k == 4 {
            reveal_strlit("WebFetch");
            text::lemma_absent("WebFetch"@, p);
        }
        if k == 5 {
            reveal_strlit("Bash(git status *)");
            text::lemma_absent("Bash(git status *)"@, p);
        }
        if k == 6 {
            reveal_strlit("Bash(git log *)");
            text::lemma_absent("Bash(git log *)"@, p);
        }
        if k == 7 {
            reveal_strlit("Bash(git diff *)");
            text::lemma_absent("Bash(git diff *)"@, p);
        }
        if k == 8 {
            reveal_strlit("Bash(git show *)");
            text::lemma_absent("Bash(git show *)"@, p);
        }
        if k == 9 {
            reveal_strlit("Bash(git branch *)");
            text::lemma_absent("Bash(git branch *)"@, p);
        }
        if k == 10 {
            reveal_strlit("Bash(ls *)");
            text::lemma_absent("Bash(ls *)"@, p);
        }
        if k == 11 {
            reveal_strlit("Bash(cat *)");
            text::lemma_absent("Bash(cat *)"@, p);
        }
        if k == 12 {
            reveal_strlit("Bash(head *)");
            text::lemma_absent("Bash(head *)"@, p);
        }
        if k == 13 {
            reveal_strlit("Bash(tail *)");
            text::lemma_absent("Bash(tail *)"@, p);
        }
        if k == 14 {
            reveal_strlit("Bash(wc *)");
            text::lemma_absent("Bash(wc *)"@, p);
        }
        if k == 15 {
            reveal_strlit("Bash(crosslink *)");
            text::lemma_absent("Bash(crosslink *)"@, p);
        }
    }
}

/// An agent that only analyzes gets no tool that changes files or history.
pub proof fn law_analysis_is_read_only(tool: Seq<char>)
    requires
        changing_tools().contains(tool),
    ensures
        !text::contains(allowed_tools_plan(), tool),
{
    lemma_plan_lacks(tool);
    reveal_strlit(",");
    assert(","@ =~= seq![',']);
    if text::contains(allowed_tools_plan(), tool) {
        text::lemma_in_joined(plan_tools(), ',', tool);
    }
}

// ---------------------------------------------------------------------------
// Files that git is to ignore
// ---------------------------------------------------------------------------

/// How many patterns there are.
pub const EXCLUDE_PATTERNS: usize = 6;

/// The files of a launch that git is to ignore.
pub open spec fn exclude_pattern(i: int) -> Seq<char> {
    if i == 0 {
        "KICKOFF.md"@
    } else if i == 1 {
        ".kickoff-status"@
    } else if i == 2 {
        "PLAN_KICKOFF.md"@
    } else if i == 3 {
        ".kickoff-plan.json"@
    } else if i == 4 {
        ".kickoff-criteria.json"@
    } else {
        ".kickoff-report.json"@
    }
}

/// The files of a launch that git is to ignore.
pub fn exclude_pattern_at(i: usize) -> (r: &'static str)
    requires
        i < EXCLUDE_PATTERNS,
    ensures
        r@ == exclude_pattern(i as int),
{
    match i {
        0 => "KICKOFF.md",
        1 => ".kickoff-status",
        2 => "PLAN_KICKOFF.md",
        3 => ".kickoff-plan.json",
        4 => ".kickoff-criteria.json",
        _ => ".kickoff-report.json",
    }
}

/// Whether an exclude file holds a pattern on a line of its own.
pub open spec fn excludes(content: Seq<char>, pattern: Seq<char>) -> bool {
    exists|i: int|
        0 <= i < text::lines(content).len() && text::trim(#[trigger] text::lines(content)[i])
            == pattern
}

/// The patterns among the first `n` that an exclude file lacks.
pub open spec fn missing_patterns(content: Seq<char>, n: nat) -> Seq<Seq<char>>
    decreases n,
{
    if n == 0 {
        Seq::empty()
    } else {
        let head = missing_patterns(content, (n - 1) as nat);
        if excludes(content, exclude_pattern(n - 1)) {
            head
        } else {
            head.push(exclude_pattern(n - 1))
        }
    }
}

fn line_is(lines: &Vec<String>, pattern: &str) -> (r: bool)
    ensures
        r == exists|i: int|
            0 <= i < lines@.len() && text::trim((#[trigger] lines@[i])@) == pattern@,
{
    let mut i: usize = 0;
    while i < lines.len()
        invariant
            i <= lines@.len(),
            forall|k: int| 0 <= k < i ==> text::trim((#[trigger] lines@[k])@) != pattern@,
        decreases lines@.len() - i,
    {
        if eq_str(trim_str(lines[i].as_str()).as_str(), pattern) {
            return true;
        }
        i = i + 1;
    }
    false
}

/// Compute which patterns need adding to a git exclude file.
pub fn missing_exclude_patterns(existing_content: &str) -> (r: Vec<&'static str>)
    ensures
        text::words(r@) == missing_patterns(existing_content@, EXCLUDE_PATTERNS as nat),
{
    let lines = lines_of(existing_content);
    let mut out: Vec<&'static str> = Vec::new();
    let mut i: usize = 0;
    assert(text::words(out@) =~= Seq::<Seq<char>>::empty());
    while i < EXCLUDE_PATTERNS
        invariant
            i <= EXCLUDE_PATTERNS,
            text::strs(lines@) == text::lines(existing_content@),
            text::words(out@) == missing_patterns(existing_content@, i as nat),
        decreases EXCLUDE_PATTERNS - i,
    {
        let pattern = exclude_pattern_at(i);
        let present = line_is(&lines, pattern);
        proof {
            let views = text::lines(existing_content@);
            assert(lines@.len() == views.len());
            if present {
                let k = choose|k: int|
                    0 <= k < lines@.len() && text::trim((#[trigger] lines@[k])@) == pattern@;
                assert(views[k] == lines@[k]@);
            } else {
                assert forall|k: int| 0 <= k < views.len() implies text::trim(
                    #[trigger] views[k],
                ) != pattern@ by {
                    assert(views[k] == lines@[k]@);
                }
            }
        }
        if !present {
            let ghost before = out@;
            out.push(pattern);
            assert(text::words(out@) =~= text::words(before).push(pattern@));
        }
        i = i + 1;
    }
    out
}

/// An exclude file with patterns added, each on a line of its own.
pub open spec fn with_patterns(content: Seq<char>, patterns: Seq<Seq<char>>, n: nat) -> Seq<char>
    decreases n,
{
    if n == 0 {
        content
    } else {
        with_patterns(content, patterns, (n - 1) as nat) + patterns[n - 1] + "\n"@
    }
}

/// The text to add to an exclude file.
pub open spec fn additions(content: Seq<char>) -> Seq<char> {
    let missing = missing_patterns(content, EXCLUDE_PATTERNS as nat);
    with_patterns(Seq::empty(), missing, missing.len())
}

/// The text to add to an exclude file, so that it holds every pattern.
pub fn exclude_additions(existing_content: &str) -> (r: String)
    ensures
        r@ == additions(existing_content@),
{
    let patterns = missing_exclude_patterns(existing_content);
    let ghost all = text::words(patterns@);
    let mut out = String::new();
    let mut i: usize = 0;
    while i < patterns.len()
        invariant
            i <= patterns@.len(),
            all == text::words(patterns@),
            out@ == with_patterns(Seq::empty(), all, i as nat),
        decreases patterns@.len() - i,
    {
        out.append(patterns[i]);
        out.append("\n");
        i = i + 1;
    }
    assert(all.len() == patterns@.len());
    out
}

proof fn lemma_pattern(i: int)
    requires
        0 <= i < EXCLUDE_PATTERNS,
    ensures
        text::trim(exclude_pattern(i)) == exclude_pattern(i),
        !exclude_pattern(i).contains('\n'),
        exclude_pattern(i).len() > 0,
        exclude_pattern(i).last() != '\r',
{
    reveal_strlit("KICKOFF.md");
    reveal_strlit(".kickoff-status");
    reveal_strlit("PLAN_KICKOFF.md");
    reveal_strlit(".kickoff-plan.json");
    reveal_strlit(".kickoff-criteria.json");
    reveal_strlit(".kickoff-report.json");
    let p = exclude_pattern(i);
    assert(!text::is_ws(p[0]) && !text::is_ws(p.last()));
    assert(text::trim_start(p) == p);
    assert(text::trim_end(p) == p);
}

proof fn lemma_excluded_stays(t: Seq<char>, l: Seq<char>, p: Seq<char>)
    requires
        text::lines(t + l + "\n"@) == text::lines(t).push(l),
        excludes(t, p),
    ensures
        excludes(t + l + "\n"@, p),
{
    let i = choose|i: int|
        0 <= i < text::lines(t).len() && text::trim(#[trigger] text::lines(t)[i]) == p;
    assert(text::lines(t + l + "\n"@)[i] == text::lines(t)[i]);
}

proof fn lemma_additions(content: Seq<char>, n: nat)
    requires
        text::whole_lines(content),
        n <= EXCLUDE_PATTERNS,
    ensures
        ({
            let missing = missing_patterns(content, n);
            let after = with_patterns(content, missing, missing.len());
            &&& text::whole_lines(after)
            &&& forall|i: int| 0 <= i < n ==> excludes(after, #[trigger] exclude_pattern(i))
            &&& forall|p: Seq<char>| excludes(content, p) ==> excludes(after, p)
        }),
    decreases n,
{
    if n > 0 {
        lemma_additions(content, (n - 1) as nat);
        let head = missing_patterns(content, (n - 1) as nat);
        let before = with_patterns(content, head, head.len());
        let missing = missing_patterns(content, n);
        let p = exclude_pattern(n - 1);
        if !excludes(content, p) {
            assert(missing == head.push(p));
            lemma_with_patterns_prefix(content, head, p, head.len());
            let after = before + p + "\n"@;
            assert(with_patterns(content, missing, missing.len()) == after);
            lemma_pattern(n - 1);
            reveal_strlit("\n");
            assert("\n"@ =~= seq!['\n']);
            text::lemma_lines_push(before, p);
            assert(text::lines(after).last() == p);
            assert(text::trim(text::lines(after)[text::lines(after).len() - 1]) == p);
            assert forall|q: Seq<char>| excludes(before, q) implies excludes(after, q) by {
                lemma_excluded_stays(before, p, q);
            }
        }
    }
}

proof fn lemma_with_patterns_prefix(
    content: Seq<char>,
    patterns: Seq<Seq<char>>,
    last: Seq<char>,
    n: nat,
)
    requires
        n <= patterns.len(),
    ensures
        with_patterns(content, patterns.push(last), n) == with_patterns(content, patterns, n),
    decreases n,
{
    if n > 0 {
        lemma_with_patterns_prefix(content, patterns, last, (n - 1) as nat);
    }
}

proof fn lemma_none_missing(content: Seq<char>, n: nat)
    requires
        forall|i: int| 0 <= i < n ==> excludes(content, #[trigger] exclude_pattern(i)),
    ensures
        missing_patterns(content, n) == Seq::<Seq<char>>::empty(),
    decreases n,
{
    if n > 0 {
        lemma_none_missing(content, (n - 1) as nat);
        assert(excludes(content, exclude_pattern(n - 1)));
    }
}

proof fn lemma_patterns_behind(content: Seq<char>, patterns: Seq<Seq<char>>, n: nat)
    ensures
        with_patterns(content, patterns, n) == content + with_patterns(Seq::empty(), patterns, n),
    decreases n,
{
    if n > 0 {
        lemma_patterns_behind(content, patterns, (n - 1) as nat);
        assert(with_patterns(content, patterns, n) =~= content + with_patterns(
            Seq::empty(),
            patterns,
            n,
        ));
    } else {
        assert(content + Seq::<char>::empty() =~= content);
    }
}

/// Once the missing patterns are added to an exclude file of whole lines, none is
/// missing any more, and every pattern that was there still is.
pub proof fn law_added_patterns_are_not_missing(content: Seq<char>)
    requires
        text::whole_lines(content),
    ensures
        ({
            let after = content + additions(content);
            &&& missing_patterns(after, EXCLUDE_PATTERNS as nat).len() == 0
            &&& forall|p: Seq<char>| excludes(content, p) ==> excludes(after, p)
        }),
{
    lemma_additions(content, EXCLUDE_PATTERNS as nat);
    let missing = missing_patterns(content, EXCLUDE_PATTERNS as nat);
    lemma_patterns_behind(content, missing, missing.len());
    lemma_none_missing(content + additions(content), EXCLUDE_PATTERNS as nat);
}

proof fn lemma_line_end_keeps_patterns(content: Seq<char>, p: Seq<char>)
    requires
        p.len() > 0,
    ensures
        excludes(content + "\n"@, p) <==> excludes(content, p),
{
    reveal_strlit("\n");
    assert("\n"@ =~= seq!['\n']);
    let after = content + "\n"@;
    text::lemma_lines_line_end(content);
    if excludes(content, p) {
        let i = choose|i: int|
            0 <= i < text::lines(content).len() && text::trim(#[trigger] text::lines(content)[i])
                == p;
        assert(text::trim(text::lines(after)[i]) == p);
    }
    if excludes(after, p) {
        let i = choose|i: int|
            0 <= i < text::lines(after).len() && text::trim(#[trigger] text::lines(after)[i]) == p;
        if i >= text::lines(content).len() {
            assert(text::lines(after)[i].len() == 0);
        }
        assert(text::trim(text::lines(content)[i]) == p);
    }
}

proof fn lemma_line_end_keeps_missing(content: Seq<char>, n: nat)
    requires
        n <= EXCLUDE_PATTERNS,
    ensures
        missing_patterns(content + "\n"@, n) == missing_patterns(content, n),
    decreases n,
{
    if n > 0 {
        lemma_line_end_keeps_missing(content, (n - 1) as nat);
        lemma_pattern(n - 1);
        lemma_line_end_keeps_patterns(content, exclude_pattern(n - 1));
    }
}

proof fn lemma_missing_are_patterns(content: Seq<char>, n: nat)
    requires
        n <= EXCLUDE_PATTERNS,
    ensures
        forall|k: int|
            0 <= k < missing_patterns(content, n).len() ==> exists|i: int|
                0 <= i < n && #[trigger] missing_patterns(content, n)[k]
                    == #[trigger] exclude_pattern(i),
    decreases n,
{
    if n > 0 {
        lemma_missing_are_patterns(content, (n - 1) as nat);
        let head = missing_patterns(content, (n - 1) as nat);
        assert forall|k: int| 0 <= k < missing_patterns(content, n).len() implies exists|i: int|
            0 <= i < n && #[trigger] missing_patterns(content, n)[k]
                == #[trigger] exclude_pattern(i) by {
            if k < head.len() {
                assert(missing_patterns(content, n)[k] == head[k]);
            } else {
                assert(missing_patterns(content, n)[k] == exclude_pattern(n - 1));
            }
        }
    }
}

proof fn lemma_joined_patterns(content: Seq<char>, patterns: Seq<Seq<char>>, n: nat)
    requires
        0 < n <= patterns.len(),
    ensures
        content + text::join(patterns.take(n as int), "\n"@) == with_patterns(
            content,
            patterns,
            (n - 1) as nat,
        ) + patterns[n - 1],
    decreases n,
{
    let head = patterns.take(n as int);
    if n > 1 {
        lemma_joined_patterns(content, patterns, (n - 1) as nat);
        assert(head.drop_last() =~= patterns.take(n - 1));
        assert(content + text::join(head, "\n"@) =~= content + text::join(
            head.drop_last(),
            "\n"@,
        ) + "\n"@ + patterns[n - 1]);
    }
}

/// Whatever an exclude file ends with, a line end and the missing patterns on lines of
/// their own complete it: none is missing any more, and every pattern that was there still
/// is. The last of them needs no line end.
pub proof fn law_patterns_behind_a_line_end_complete_the_file(content: Seq<char>)
    ensures
        ({
            let missing = missing_patterns(content, EXCLUDE_PATTERNS as nat);
            let after = content + "\n"@ + text::join(missing, "\n"@);
            &&& missing_patterns(after, EXCLUDE_PATTERNS as nat).len() == 0
            &&& forall|p: Seq<char>| p.len() > 0 && excludes(content, p) ==> excludes(after, p)
        }),
        ({
            let after = content + "\n"@ + additions(content);
            &&& missing_patterns(after, EXCLUDE_PATTERNS as nat).len() == 0
            &&& forall|p: Seq<char>| p.len() > 0 && excludes(content, p) ==> excludes(after, p)
        }),
{
    let n = EXCLUDE_PATTERNS as nat;
    let base = content + "\n"@;
    reveal_strlit("\n");
    assert("\n"@ =~= seq!['\n']);
    assert(text::whole_lines(base));
    lemma_line_end_keeps_missing(content, n);
    let missing = missing_patterns(content, n);
    law_added_patterns_are_not_missing(base);
    assert(additions(base) == additions(content));
    lemma_patterns_behind(base, missing, missing.len());
    let ended = base + additions(content);
    let after = base + text::join(missing, "\n"@);
    assert(text::lines(after) == text::lines(ended)) by {
        if missing.len() == 0 {
            assert(after =~= ended);
        } else {
            let m = (missing.len() - 1) as nat;
            let start = with_patterns(base, missing, m);
            let last = missing[m as int];
            assert(missing.take(missing.len() as int) =~= missing);
            lemma_joined_patterns(base, missing, missing.len());
            lemma_missing_are_patterns(content, n);
            let i = choose|i: int| 0 <= i < n && last == #[trigger] exclude_pattern(i);
            lemma_pattern(i);
            assert(text::whole_lines(start)) by {
                if m > 0 {
                    assert(start.last() == '\n');
                }
            }
            text::lemma_lines_push(start, last);
            text::lemma_lines_push_last(start, last);
        }
    }
    assert forall|p: Seq<char>| excludes(ended, p) implies excludes(after, p) by {
        let i = choose|i: int|
            0 <= i < text::lines(ended).len() && text::trim(#[trigger] text::lines(ended)[i]) == p;
        assert(text::trim(text::lines(after)[i]) == p);
    }
    assert forall|i: int| 0 <= i < n implies excludes(after, #[trigger] exclude_pattern(i)) by {
        lemma_additions(base, n);
        assert(excludes(ended, exclude_pattern(i)));
    }
    lemma_none_missing(after, n);
    assert forall|p: Seq<char>| p.len() > 0 && excludes(content, p) implies excludes(after, p)
        && excludes(ended, p) by {
        lemma_line_end_keeps_patterns(content, p);
        assert(excludes(base, p));
    }
}

// ---------------------------------------------------------------------------
// What the files of a project tell
// ---------------------------------------------------------------------------

/// The first toolchain that is found gives the test command: Rust before Node, Python and Go. A
/// project without any of them has none.
pub proof fn law_first_toolchain_gives_the_tests(files: Seq<Seq<char>>)
    ensures
        ({
            let c = conventions_of(files);
            let rust = text::has_name(files, "Cargo.toml"@) || text::has_name(
                files,
                "crosslink/Cargo.toml"@,
            );
            let node = text::has_name(files, "package.json"@);
            let python = text::has_name(files, "pyproject.toml"@) || text::has_name(
                files,
                "requirements.txt"@,
            );
            let go = text::has_name(files, "go.mod"@);
            &&& rust ==> c.test_command == Some("cargo test"@)
            &&& !rust && node ==> c.test_command == Some("npm test"@)
            &&& !rust && !node && python ==> c.test_command == Some("uv run pytest"@)
            &&& !rust && !node && !python && go ==> c.test_command == Some("go test ./..."@)
            &&& !rust && !node && !python && !go ==> c.test_command is None && c.lint_commands.len()
                == 0
        }),
{
}

/// Every toolchain that is found gives its agents its lints and its tools, whatever else is there;
/// one that is not found gives none.
pub proof fn law_each_toolchain_gives_its_own(files: Seq<Seq<char>>)
    ensures
        ({
            let c = conventions_of(files);
            let rust = text::has_name(files, "Cargo.toml"@) || text::has_name(
                files,
                "crosslink/Cargo.toml"@,
            );
            let node = text::has_name(files, "package.json"@);
            let python = text::has_name(files, "pyproject.toml"@) || text::has_name(
                files,
                "requirements.txt"@,
            );
            let go = text::has_name(files, "go.mod"@);
            let just = text::has_name(files, "justfile"@) || text::has_name(files, "Justfile"@);
            let make = text::has_name(files, "Makefile"@) || text::has_name(files, "makefile"@);
            let lints = (if rust {
                2int
            } else {
                0
            }) + (if python {
                1int
            } else {
                0
            }) + (if go {
                1int
            } else {
                0
            });
            let tools = (if rust {
                1int
            } else {
                0
            }) + (if node {
                2int
            } else {
                0
            }) + (if python {
                2int
            } else {
                0
            }) + (if go {
                1int
            } else {
                0
            }) + (if just {
                1int
            } else {
                0
            }) + (if make {
                1int
            } else {
                0
            });
            &&& c.lint_commands.len() == lints
            &&& c.allowed_tools.len() == tools
            &&& rust ==> text::has_name(c.lint_commands, "cargo clippy -- -D warnings"@)
                && text::has_name(c.lint_commands, "cargo fmt --check"@) && text::has_name(
                c.allowed_tools,
                "Bash(cargo *)"@,
            )
            &&& node ==> text::has_name(c.allowed_tools, "Bash(npm *)"@) && text::has_name(
                c.allowed_tools,
                "Bash(npx *)"@,
            )
            &&& python ==> text::has_name(c.lint_commands, "ruff check ."@) && text::has_name(
                c.allowed_tools,
                "Bash(uv *)"@,
            ) && text::has_name(c.allowed_tools, "Bash(python3 *)"@)
            &&& go ==> text::has_name(c.lint_commands, "go vet ./..."@) && text::has_name(
                c.allowed_tools,
                "Bash(go *)"@,
            )
            &&& just ==> text::has_name(c.allowed_tools, "Bash(just *)"@)
            &&& make ==> text::has_name(c.allowed_tools, "Bash(make *)"@)
        }),
{
    let c = conventions_of(files);
    let rust = text::has_name(files, "Cargo.toml"@) || text::has_name(
        files,
        "crosslink/Cargo.toml"@,
    );
    let node = text::has_name(files, "package.json"@);
    let python = text::has_name(files, "pyproject.toml"@) || text::has_name(
        files,
        "requirements.txt"@,
    );
    let go = text::has_name(files, "go.mod"@);
    let just = text::has_name(files, "justfile"@) || text::has_name(files, "Justfile"@);
    let r: int = if rust {
        1
    } else {
        0
    };
    let n = r + if node {
        2int
    } else {
        0
    };
    let p = n + if python {
        2int
    } else {
        0
    };
    let g = p + if go {
        1int
    } else {
        0
    };
    let j = g + if just {
        1int
    } else {
        0
    };
    let lr: int = if rust {
        2
    } else {
        0
    };
    let lp = lr + if python {
        1int
    } else {
        0
    };
    if rust {
        assert(c.lint_commands[0] == "cargo clippy -- -D warnings"@);
        assert(c.lint_commands[1] == "cargo fmt --check"@);
        assert(c.allowed_tools[0] == "Bash(cargo *)"@);
    }
    if node {
        assert(c.allowed_tools[r] == "Bash(npm *)"@);
        assert(c.allowed_tools[r + 1] == "Bash(npx *)"@);
    }
    if python {
        assert(c.lint_commands[lr] == "ruff check ."@);
        assert(c.allowed_tools[n] == "Bash(uv *)"@);
        assert(c.allowed_tools[n + 1] == "Bash(python3 *)"@);
    }
    if go {
        assert(c.lint_commands[lp] == "go vet ./..."@);
        assert(c.allowed_tools[p] == "Bash(go *)"@);
    }
    if just {
        assert(c.allowed_tools[g] == "Bash(just *)"@);
    }
    if text::has_name(files, "Makefile"@) || text::has_name(files, "makefile"@) {
        assert(c.allowed_tools[j] == "Bash(make *)"@);
    }
}

/// All that a launch writes beside the work is kept from git: the prompts, the status, the plan,
/// the criteria and the report.
pub proof fn law_launch_files_are_ignored(name: Seq<char>)
    requires
        name == "KICKOFF.md"@ || name == "PLAN_KICKOFF.md"@ || name == ".kickoff-status"@ || name
            == ".kickoff-plan.json"@ || name == ".kickoff-criteria.json"@ || name
            == ".kickoff-report.json"@,
    ensures
        exists|i: int| 0 <= i < EXCLUDE_PATTERNS && #[trigger] exclude_pattern(i) == name,
{
    assert(exclude_pattern(0) == "KICKOFF.md"@);
    assert(exclude_pattern(1) == ".kickoff-status"@);
    assert(exclude_pattern(2) == "PLAN_KICKOFF.md"@);
    assert(exclude_pattern(3) == ".kickoff-plan.json"@);
    assert(exclude_pattern(4) == ".kickoff-criteria.json"@);
    assert(exclude_pattern(5) == ".kickoff-report.json"@);
}

} // verus!
