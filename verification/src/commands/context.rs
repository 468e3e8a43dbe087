//! How much context an agent is given, and whether all files for it are in place.

use crate::assistant::Assistant;
use crate::json::parse_error;
use crate::json_object;
use crate::order;
use crate::order::order_of;
use crate::paths;
use crate::paths::join_path;
use crate::text;
use crate::text::{
    chars_of, contains_name, dec_u64, ends_with, eq_str, own, pad_before_str, pad_str, repeat_char,
    rfind_char_in, starts_with, string_of,
};
use vstd::prelude::*;
use vstd::slice::slice_subrange;

verus! {

// ---------------------------------------------------------------------------
// Tables
// ---------------------------------------------------------------------------

/// How many manifests are looked for.
pub const MANIFESTS: usize = 15;

/// The file by which a language is known.
pub open spec fn manifest_file(i: int) -> Seq<char> {
    if i == 0 {
        "Cargo.toml"@
    } else if i == 1 {
        "package.json"@
    } else if i == 2 {
        "tsconfig.json"@
    } else if i == 3 {
        "pyproject.toml"@
    } else if i == 4 {
        "requirements.txt"@
    } else if i == 5 {
        "go.mod"@
    } else if i == 6 {
        "pom.xml"@
    } else if i == 7 {
        "build.gradle"@
    } else if i == 8 {
        "Gemfile"@
    } else if i == 9 {
        "composer.json"@
    } else if i == 10 {
        "Package.swift"@
    } else if i == 11 {
        "CMakeLists.txt"@
    } else if i == 12 {
        "Makefile"@
    } else if i == 13 {
        "mix.exs"@
    } else {
        ".shellcheckrc"@
    }
}

/// The file by which a language is known.
pub fn manifest_file_at(i: usize) -> (r: &'static str)
    requires
        i < MANIFESTS,
    ensures
        r@ == manifest_file(i as int),
{
    match i {
        0 => "Cargo.toml",
        1 => "package.json",
        2 => "tsconfig.json",
        3 => "pyproject.toml",
        4 => "requirements.txt",
        5 => "go.mod",
        6 => "pom.xml",
        7 => "build.gradle",
        8 => "Gemfile",
        9 => "composer.json",
        10 => "Package.swift",
        11 => "CMakeLists.txt",
        12 => "Makefile",
        13 => "mix.exs",
        _ => ".shellcheckrc",
    }
}

/// The language that a manifest stands for.
pub open spec fn manifest_language(i: int) -> Seq<char> {
    if i == 0 {
        "Rust"@
    } else if i == 1 {
        "JavaScript"@
    } else if i == 2 {
        "TypeScript"@
    } else if i == 3 {
        "Python"@
    } else if i == 4 {
        "Python"@
    } else if i == 5 {
        "Go"@
    } else if i == 6 {
        "Java"@
    } else if i == 7 {
        "Java"@
    } else if i == 8 {
        "Ruby"@
    } else if i == 9 {
        "PHP"@
    } else if i == 10 {
        "Swift"@
    } else if i == 11 {
        "C/C++"@
    } else if i == 12 {
        "C/C++"@
    } else if i == 13 {
        "Elixir"@
    } else {
        "Shell"@
    }
}

/// The language that a manifest stands for.
pub fn manifest_language_at(i: usize) -> (r: &'static str)
    requires
        i < MANIFESTS,
    ensures
        r@ == manifest_language(i as int),
{
    match i {
        0 => "Rust",
        1 => "JavaScript",
        2 => "TypeScript",
        3 => "Python",
        4 => "Python",
        5 => "Go",
        6 => "Java",
        7 => "Java",
        8 => "Ruby",
        9 => "PHP",
        10 => "Swift",
        11 => "C/C++",
        12 => "C/C++",
        13 => "Elixir",
        _ => "Shell",
    }
}

/// The rule file of the language that a manifest stands for.
pub open spec fn manifest_rule(i: int) -> Seq<char> {
    if i == 0 {
        "rust.md"@
    } else if i == 1 {
        "javascript.md"@
    } else if i == 2 {
        "typescript.md"@
    } else if i == 3 {
        "python.md"@
    } else if i == 4 {
        "python.md"@
    } else if i == 5 {
        "go.md"@
    } else if i == 6 {
        "java.md"@
    } else if i == 7 {
        "java.md"@
    } else if i == 8 {
        "ruby.md"@
    } else if i == 9 {
        "php.md"@
    } else if i == 10 {
        "swift.md"@
    } else if i == 11 {
        "cpp.md"@
    } else if i == 12 {
        "c.md"@
    } else if i == 13 {
        "elixir.md"@
    } else {
        "shell.md"@
    }
}

/// The rule file of the language that a manifest stands for.
pub fn manifest_rule_at(i: usize) -> (r: &'static str)
    requires
        i < MANIFESTS,
    ensures
        r@ == manifest_rule(i as int),
{
    match i {
        0 => "rust.md",
        1 => "javascript.md",
        2 => "typescript.md",
        3 => "python.md",
        4 => "python.md",
        5 => "go.md",
        6 => "java.md",
        7 => "java.md",
        8 => "ruby.md",
        9 => "php.md",
        10 => "swift.md",
        11 => "cpp.md",
        12 => "c.md",
        13 => "elixir.md",
        _ => "shell.md",
    }
}

/// How many of them there are.
pub const EXPECTED_RULES: usize = 5;

/// The rule files that every deployment has.
pub open spec fn expected_rule(i: int) -> Seq<char> {
    if i == 0 {
        "global.md"@
    } else if i == 1 {
        "project.md"@
    } else if i == 2 {
        "tracking-strict.md"@
    } else if i == 3 {
        "tracking-normal.md"@
    } else {
        "tracking-relaxed.md"@
    }
}

/// The rule files that every deployment has.
pub fn expected_rule_at(i: usize) -> (r: &'static str)
    requires
        i < EXPECTED_RULES,
    ensures
        r@ == expected_rule(i as int),
{
    match i {
        0 => "global.md",
        1 => "project.md",
        2 => "tracking-strict.md",
        3 => "tracking-normal.md",
        _ => "tracking-relaxed.md",
    }
}

/// How many of them there are.
pub const RULE_FILES: usize = 27;

/// The rule files that are deployed.
pub open spec fn rule_file(i: int) -> Seq<char> {
    if i == 0 {
        "global.md"@
    } else if i == 1 {
        "project.md"@
    } else if i == 2 {
        "rust.md"@
    } else if i == 3 {
        "python.md"@
    } else if i == 4 {
        "javascript.md"@
    } else if i == 5 {
        "typescript.md"@
    } else if i == 6 {
        "typescript-react.md"@
    } else if i == 7 {
        "javascript-react.md"@
    } else if i == 8 {
        "go.md"@
    } else if i == 9 {
        "java.md"@
    } else if i == 10 {
        "c.md"@
    } else if i == 11 {
        "cpp.md"@
    } else if i == 12 {
        "csharp.md"@
    } else if i == 13 {
        "ruby.md"@
    } else if i == 14 {
        "php.md"@
    } else if i == 15 {
        "swift.md"@
    } else if i == 16 {
        "kotlin.md"@
    } else if i == 17 {
        "scala.md"@
    } else if i == 18 {
        "zig.md"@
    } else if i == 19 {
        "odin.md"@
    } else if i == 20 {
        "elixir.md"@
    } else if i == 21 {
        "elixir-phoenix.md"@
    } else if i == 22 {
        "web.md"@
    } else if i == 23 {
        "sanitize-patterns.txt"@
    } else if i == 24 {
        "tracking-strict.md"@
    } else if i == 25 {
        "tracking-normal.md"@
    } else {
        "tracking-relaxed.md"@
    }
}

/// The rule files that are deployed.
pub fn rule_file_at(i: usize) -> (r: &'static str)
    requires
        i < RULE_FILES,
    ensures
        r@ == rule_file(i as int),
{
    match i {
        0 => "global.md",
        1 => "project.md",
        2 => "rust.md",
        3 => "python.md",
        4 => "javascript.md",
        5 => "typescript.md",
        6 => "typescript-react.md",
        7 => "javascript-react.md",
        8 => "go.md",
        9 => "java.md",
        10 => "c.md",
        11 => "cpp.md",
        12 => "csharp.md",
        13 => "ruby.md",
        14 => "php.md",
        15 => "swift.md",
        16 => "kotlin.md",
        17 => "scala.md",
        18 => "zig.md",
        19 => "odin.md",
        20 => "elixir.md",
        21 => "elixir-phoenix.md",
        22 => "web.md",
        23 => "sanitize-patterns.txt",
        24 => "tracking-strict.md",
        25 => "tracking-normal.md",
        _ => "tracking-relaxed.md",
    }
}

/// How many of them there are.
pub const EXPECTED_HOOKS: usize = 6;

/// The hook files that every deployment has.
pub open spec fn expected_hook(i: int) -> Seq<char> {
    if i == 0 {
        "prompt-guard.py"@
    } else if i == 1 {
        "post-edit-check.py"@
    } else if i == 2 {
        "session-start.py"@
    } else if i == 3 {
        "pre-web-check.py"@
    } else if i == 4 {
        "work-check.py"@
    } else {
        "crosslink_config.py"@
    }
}

/// The hook files that every deployment has.
pub fn expected_hook_at(i: usize) -> (r: &'static str)
    requires
        i < EXPECTED_HOOKS,
    ensures
        r@ == expected_hook(i as int),
{
    match i {
        0 => "prompt-guard.py",
        1 => "post-edit-check.py",
        2 => "session-start.py",
        3 => "pre-web-check.py",
        4 => "work-check.py",
        _ => "crosslink_config.py",
    }
}

/// How many of them there are.
pub const EXPECTED_COMMANDS: usize = 9;

/// The command files that every deployment has.
pub open spec fn expected_command(i: int) -> Seq<char> {
    if i == 0 {
        "workflow.md"@
    } else if i == 1 {
        "feature.md"@
    } else if i == 2 {
        "featree.md"@
    } else if i == 3 {
        "kickoff.md"@
    } else if i == 4 {
        "check.md"@
    } else if i == 5 {
        "commit.md"@
    } else if i == 6 {
        "preflight.md"@
    } else if i == 7 {
        "review.md"@
    } else {
        "audit.md"@
    }
}

/// The command files that every deployment has.
pub fn expected_command_at(i: usize) -> (r: &'static str)
    requires
        i < EXPECTED_COMMANDS,
    ensures
        r@ == expected_command(i as int),
{
    match i {
        0 => "workflow.md",
        1 => "feature.md",
        2 => "featree.md",
        3 => "kickoff.md",
        4 => "check.md",
        5 => "commit.md",
        6 => "preflight.md",
        7 => "review.md",
        _ => "audit.md",
    }
}

// ---------------------------------------------------------------------------
// Names
// ---------------------------------------------------------------------------

/// The extension of a file name: what stands behind its last dot. A dot at the start
/// makes no extension.
pub open spec fn extension(name: Seq<char>) -> Option<Seq<char>> {
    let i = text::rfind_char(name, '.');
    if i > 0 {
        Some(name.skip(i + 1))
    } else {
        None
    }
}

/// Finds the extension of a file name.
pub fn extension_of(name: &str) -> (r: Option<String>)
    ensures
        text::opt_str(r) == extension(name@),
{
    let cs = chars_of(name);
    match rfind_char_in(cs.as_slice(), '.') {
        Some(i) => if i > 0 {
            assert(cs@.subrange(i + 1, cs@.len() as int) =~= cs@.skip(i + 1));
            Some(string_of(slice_subrange(cs.as_slice(), i + 1, cs.len())))
        } else {
            None
        },
        None => None,
    }
}

/// Whether a file is a rule file by its name.
pub open spec fn is_rule_name(name: Seq<char>) -> bool {
    extension(name) == Some("md"@) || extension(name) == Some("txt"@)
}

fn rule_name(name: &str) -> (r: bool)
    ensures
        r == is_rule_name(name@),
{
    let ext = extension_of(name);
    text::opt_is(&ext, "md") || text::opt_is(&ext, "txt")
}

// ---------------------------------------------------------------------------
// Languages
// ---------------------------------------------------------------------------

/// The languages found after the first `m` manifests have been looked for in a
/// directory, each once.
pub open spec fn languages_in(
    found: Seq<Seq<char>>,
    dir: Seq<Seq<char>>,
    m: nat,
) -> Seq<Seq<char>>
    decreases m,
{
    if m == 0 {
        found
    } else {
        let head = languages_in(found, dir, (m - 1) as nat);
        if text::has_name(dir, manifest_file(m - 1)) && !text::has_name(head, manifest_language(m - 1)) {
            head.push(manifest_language(m - 1))
        } else {
            head
        }
    }
}

/// The languages found after the first `d` directories.
pub open spec fn languages_of(dirs: Seq<Seq<Seq<char>>>, d: nat) -> Seq<Seq<char>>
    decreases d,
{
    if d == 0 {
        Seq::empty()
    } else {
        languages_in(languages_of(dirs, (d - 1) as nat), dirs[d - 1], MANIFESTS as nat)
    }
}

/// Whether a directory holds a shell script.
pub open spec fn has_script(dir: Seq<Seq<char>>) -> bool {
    exists|i: int|
        0 <= i < dir.len() && (text::has_suffix(#[trigger] dir[i], ".sh"@) || text::has_suffix(
            dir[i],
            ".bash"@,
        ))
}

/// The names in each directory.
pub open spec fn listings(dirs: Seq<Vec<String>>) -> Seq<Seq<Seq<char>>> {
    Seq::new(dirs.len(), |i: int| text::strs(dirs[i]@))
}

/// The languages of a project: those with a manifest in one of the directories, and
/// the shell where one of the script directories holds a script.
pub open spec fn active_languages(
    dirs: Seq<Seq<Seq<char>>>,
    script_dirs: Seq<Seq<Seq<char>>>,
) -> Seq<Seq<char>> {
    let found = languages_of(dirs, dirs.len());
    if !text::has_name(found, "Shell"@) && exists|i: int|
        0 <= i < script_dirs.len() && has_script(#[trigger] script_dirs[i]) {
        found.push("Shell"@)
    } else {
        found
    }
}

fn contains_script(dir: &Vec<String>) -> (r: bool)
    ensures
        r == has_script(text::strs(dir@)),
{
    let ghost views = text::strs(dir@);
    let mut i: usize = 0;
    while i < dir.len()
        invariant
            i <= dir@.len(),
            views == text::strs(dir@),
            forall|k: int|
                0 <= k < i ==> !(text::has_suffix(#[trigger] views[k], ".sh"@) || text::has_suffix(
                    views[k],
                    ".bash"@,
                )),
        decreases dir@.len() - i,
    {
        if ends_with(dir[i].as_str(), ".sh") || ends_with(dir[i].as_str(), ".bash") {
            assert(views[i as int] == dir@[i as int]@);
            return true;
        }
        i = i + 1;
    }
    false
}

/// Whether a directory in the project root may hold manifests: hidden ones are passed over.
pub fn is_searched(dir_name: &str) -> (r: bool)
    ensures
        r == !text::has_prefix(dir_name@, "."@),
{
    !starts_with(dir_name, ".")
}

/// Detects the languages of a project, from the names in the directories that may
/// hold manifests (the project root first) and in those that may hold scripts.
pub fn detect_active_languages(dirs: &Vec<Vec<String>>, script_dirs: &Vec<Vec<String>>) -> (r: Vec<
    String,
>)
    ensures
        text::strs(r@) == active_languages(listings(dirs@), listings(script_dirs@)),
{
    let ghost views = listings(dirs@);
    let mut found: Vec<String> = Vec::new();
    let mut d: usize = 0;
    assert(text::strs(found@) =~= Seq::<Seq<char>>::empty());
    while d < dirs.len()
        invariant
            d <= dirs@.len(),
            views == listings(dirs@),
            text::strs(found@) == languages_of(views, d as nat),
        decreases dirs@.len() - d,
    {
        let ghost start = text::strs(found@);
        let mut m: usize = 0;
        while m < MANIFESTS
            invariant
                d < dirs@.len(),
                m <= MANIFESTS,
                views == listings(dirs@),
                text::strs(found@) == languages_in(start, views[d as int], m as nat),
            decreases MANIFESTS - m,
        {
            assert(views[d as int] == text::strs(dirs@[d as int]@));
            if contains_name(&dirs[d], manifest_file_at(m)) && !contains_name(
                &found,
                manifest_language_at(m),
            ) {
                let ghost before = found@;
                found.push(own(manifest_language_at(m)));
                proof {
                    text::lemma_strs_push(before, found@.last());
                }
            }
            m = m + 1;
        }
        d = d + 1;
    }
    assert(views.len() == dirs@.len());
    let ghost scripts = listings(script_dirs@);
    if !contains_name(&found, "Shell") {
        let mut s: usize = 0;
        while s < script_dirs.len()
            invariant
                s <= script_dirs@.len(),
                scripts == listings(script_dirs@),
                views == listings(dirs@),
                text::strs(found@) == languages_of(views, views.len()),
                !text::has_name(text::strs(found@), "Shell"@),
                forall|k: int| 0 <= k < s ==> !has_script(#[trigger] scripts[k]),
            decreases script_dirs@.len() - s,
        {
            if contains_script(&script_dirs[s]) {
                assert(has_script(scripts[s as int]));
                let ghost before = found@;
                found.push(own("Shell"));
                proof {
                    text::lemma_strs_push(before, found@.last());
                }
                return found;
            }
            s = s + 1;
        }
    }
    found
}

/// Whether no name stands twice in a list.
pub open spec fn distinct(names: Seq<Seq<char>>) -> bool {
    forall|i: int, j: int| 0 <= i < j < names.len() ==> #[trigger] names[i] != #[trigger] names[j]
}

proof fn lemma_push_distinct(names: Seq<Seq<char>>, name: Seq<char>)
    requires
        distinct(names),
        !text::has_name(names, name),
    ensures
        distinct(names.push(name)),
{
}

proof fn lemma_languages_in_distinct(found: Seq<Seq<char>>, dir: Seq<Seq<char>>, m: nat)
    requires
        distinct(found),
    ensures
        distinct(languages_in(found, dir, m)),
    decreases m,
{
    if m > 0 {
        lemma_languages_in_distinct(found, dir, (m - 1) as nat);
    }
}

proof fn lemma_languages_of_distinct(dirs: Seq<Seq<Seq<char>>>, d: nat)
    ensures
        distinct(languages_of(dirs, d)),
    decreases d,
{
    if d > 0 {
        lemma_languages_of_distinct(dirs, (d - 1) as nat);
        lemma_languages_in_distinct(
            languages_of(dirs, (d - 1) as nat),
            dirs[d - 1],
            MANIFESTS as nat,
        );
    }
}

/// No language is listed twice.
pub proof fn law_languages_are_distinct(
    dirs: Seq<Seq<Seq<char>>>,
    script_dirs: Seq<Seq<Seq<char>>>,
)
    ensures
        distinct(active_languages(dirs, script_dirs)),
{
    lemma_languages_of_distinct(dirs, dirs.len());
    if !text::has_name(languages_of(dirs, dirs.len()), "Shell"@) {
        lemma_push_distinct(languages_of(dirs, dirs.len()), "Shell"@);
    }
}

// ---------------------------------------------------------------------------
// Rules
// ---------------------------------------------------------------------------

/// The rule files that apply to every project.
pub open spec fn always_active(name: Seq<char>) -> bool {
    ||| name == "global.md"@
    ||| name == "project.md"@
    ||| name == "tracking-strict.md"@
    ||| name == "tracking-normal.md"@
    ||| name == "tracking-relaxed.md"@
    ||| name == "sanitize-patterns.txt"@
    ||| name == "knowledge.md"@
    ||| name == "web.md"@
}

/// Whether a rule file applies: always, or because it is that of a language in use.
pub open spec fn rule_applies(name: Seq<char>, languages: Seq<Seq<char>>) -> bool {
    always_active(name) || exists|m: int|
        0 <= m < MANIFESTS && name == #[trigger] manifest_rule(m) && text::has_name(
            languages,
            manifest_language(m),
        )
}

/// Whether a rule file applies.
pub fn is_rule_active(filename: &str, active_langs: &Vec<String>) -> (r: bool)
    ensures
        r == rule_applies(filename@, text::strs(active_langs@)),
{
    if eq_str(filename, "global.md") || eq_str(filename, "project.md") || eq_str(
        filename,
        "tracking-strict.md",
    ) || eq_str(filename, "tracking-normal.md") || eq_str(filename, "tracking-relaxed.md")
        || eq_str(filename, "sanitize-patterns.txt") || eq_str(filename, "knowledge.md") || eq_str(
        filename,
        "web.md",
    ) {
        return true;
    }
    let mut m: usize = 0;
    while m < MANIFESTS
        invariant
            m <= MANIFESTS,
            forall|k: int|
                0 <= k < m ==> !(filename@ == #[trigger] manifest_rule(k) && text::has_name(
                    text::strs(active_langs@),
                    manifest_language(k),
                )),
        decreases MANIFESTS - m,
    {
        if eq_str(filename, manifest_rule_at(m)) && contains_name(
            active_langs,
            manifest_language_at(m),
        ) {
            assert(filename@ == manifest_rule(m as int));
            return true;
        }
        m = m + 1;
    }
    false
}

/// A file of a directory: its name and its size in bytes.
#[derive(Debug, Clone, PartialEq, Eq)]
pub struct FileEntry {
    pub name: String,
    pub size: usize,
}

/// The model of a file.
pub struct FileView {
    pub name: Seq<char>,
    pub size: nat,
}

impl View for FileEntry {
    type V = FileView;

    open spec fn view(&self) -> FileView {
        FileView { name: self.name@, size: self.size as nat }
    }
}

/// The models of a list of files.
pub open spec fn file_views(files: Seq<FileEntry>) -> Seq<FileView> {
    Seq::new(files.len(), |i: int| files[i]@)
}

/// The names of a list of files.
pub open spec fn file_names(files: Seq<FileView>) -> Seq<Seq<char>> {
    Seq::new(files.len(), |i: int| files[i].name)
}

/// A list of files in the order of their names.
pub open spec fn sorted_files(files: Seq<FileView>) -> Seq<FileView> {
    let positions = order::stable_order(file_names(files), files.len());
    Seq::new(files.len(), |i: int| files[positions[i] as int])
}

fn names_of(files: &Vec<FileEntry>) -> (r: Vec<String>)
    ensures
        text::strs(r@) == file_names(file_views(files@)),
{
    let ghost all = file_names(file_views(files@));
    let mut names: Vec<String> = Vec::new();
    let mut i: usize = 0;
    while i < files.len()
        invariant
            i <= files@.len(),
            all == file_names(file_views(files@)),
            text::strs(names@) == all.take(i as int),
        decreases files@.len() - i,
    {
        let ghost before = names@;
        names.push(own(files[i].name.as_str()));
        proof {
            text::lemma_strs_push(before, names@.last());
            assert(all.take(i + 1) =~= all.take(i as int).push(files@[i as int].name@));
        }
        i = i + 1;
    }
    assert(all.take(all.len() as int) =~= all);
    names
}

/// Sorts a list of files by name.
pub fn sort_files(files: &Vec<FileEntry>) -> (r: Vec<FileEntry>)
    ensures
        file_views(r@) == sorted_files(file_views(files@)),
{
    let names = names_of(files);
    let positions = order_of(&names);
    let ghost all = sorted_files(file_views(files@));
    let mut out: Vec<FileEntry> = Vec::new();
    let mut i: usize = 0;
    assert(names@.len() == files@.len()) by {
        assert(text::strs(names@).len() == names@.len());
    }
    while i < positions.len()
        invariant
            i <= positions@.len(),
            positions@.len() == files@.len(),
            order::is_permutation(positions@, files@.len()),
            positions@ == order::stable_order(file_names(file_views(files@)), files@.len()),
            all == sorted_files(file_views(files@)),
            file_views(out@) == all.take(i as int),
        decreases positions@.len() - i,
    {
        let p: usize = positions[i];
        let entry = FileEntry { name: own(files[p].name.as_str()), size: files[p].size };
        let ghost before = out@;
        out.push(entry);
        proof {
            assert(file_views(out@) =~= file_views(before).push(entry@));
            assert(all.take(i + 1) =~= all.take(i as int).push(all[i as int]));
        }
        i = i + 1;
    }
    assert(all.take(all.len() as int) =~= all);
    out
}

/// The size of the file of a given name among the files from `i` on.
pub open spec fn size_from(files: Seq<FileView>, name: Seq<char>, i: int) -> Option<nat>
    decreases files.len() - i,
{
    if i < 0 || i >= files.len() {
        None
    } else if files[i].name == name {
        Some(files[i].size)
    } else {
        size_from(files, name, i + 1)
    }
}

fn size_of(files: &Vec<FileEntry>, name: &str) -> (r: Option<usize>)
    ensures
        match r {
            Some(n) => size_from(file_views(files@), name@, 0) == Some(n as nat),
            None => size_from(file_views(files@), name@, 0) is None,
        },
{
    let mut i: usize = 0;
    while i < files.len()
        invariant
            i <= files@.len(),
            size_from(file_views(files@), name@, 0) == size_from(
                file_views(files@),
                name@,
                i as int,
            ),
        decreases files@.len() - i,
    {
        if eq_str(files[i].name.as_str(), name) {
            return Some(files[i].size);
        }
        i = i + 1;
    }
    None
}

/// A rule file as the measurement lists it.
#[derive(Debug, Clone, PartialEq, Eq)]
pub struct RuleLine {
    pub name: String,
    pub size: usize,
    pub active: bool,
    pub local: bool,
}

/// The model of a listed rule file.
pub struct RuleView {
    pub name: Seq<char>,
    pub size: nat,
    pub active: bool,
    pub local: bool,
}

impl View for RuleLine {
    type V = RuleView;

    open spec fn view(&self) -> RuleView {
        RuleView {
            name: self.name@,
            size: self.size as nat,
            active: self.active,
            local: self.local,
        }
    }
}

/// The models of the listed rule files.
pub open spec fn rule_views(rules: Seq<RuleLine>) -> Seq<RuleView> {
    Seq::new(rules.len(), |i: int| rules[i]@)
}

/// How a deployed rule file is listed: a local file of the same name takes its place.
pub open spec fn rule_line(
    file: FileView,
    local: Seq<FileView>,
    languages: Seq<Seq<char>>,
) -> RuleView {
    let over = size_from(local, file.name, 0);
    RuleView {
        name: file.name,
        size: match over {
            Some(n) => n,
            None => file.size,
        },
        active: rule_applies(file.name, languages),
        local: over is Some,
    }
}

/// The rule files among the first `n` files.
pub open spec fn rule_files(files: Seq<FileView>, n: nat) -> Seq<FileView>
    decreases n,
{
    if n == 0 {
        Seq::empty()
    } else {
        let head = rule_files(files, (n - 1) as nat);
        if is_rule_name(files[n - 1].name) {
            head.push(files[n - 1])
        } else {
            head
        }
    }
}

/// The rule files among the first `n` local files that stand for no deployed file.
pub open spec fn added_files(local: Seq<FileView>, base: Seq<FileView>, n: nat) -> Seq<FileView>
    decreases n,
{
    if n == 0 {
        Seq::empty()
    } else {
        let head = added_files(local, base, (n - 1) as nat);
        if is_rule_name(local[n - 1].name) && !text::has_name(file_names(base), local[n - 1].name) {
            head.push(local[n - 1])
        } else {
            head
        }
    }
}

/// The listed rule files: the deployed ones by name, and then the local ones that
/// stand for none of those, which are always active.
pub open spec fn measured_rules(
    base: Seq<FileView>,
    local: Seq<FileView>,
    languages: Seq<Seq<char>>,
) -> Seq<RuleView> {
    let deployed = sorted_files(rule_files(base, base.len()));
    let added = sorted_files(added_files(local, base, local.len()));
    Seq::new(deployed.len(), |i: int| rule_line(deployed[i], local, languages)) + Seq::new(
        added.len(),
        |i: int| RuleView { name: added[i].name, size: added[i].size, active: true, local: true },
    )
}

fn select_rule_files(files: &Vec<FileEntry>) -> (r: Vec<FileEntry>)
    ensures
        file_views(r@) == rule_files(file_views(files@), files@.len()),
{
    let mut out: Vec<FileEntry> = Vec::new();
    let mut i: usize = 0;
    assert(file_views(out@) =~= Seq::<FileView>::empty());
    while i < files.len()
        invariant
            i <= files@.len(),
            file_views(out@) == rule_files(file_views(files@), i as nat),
        decreases files@.len() - i,
    {
        if rule_name(files[i].name.as_str()) {
            let entry = FileEntry { name: own(files[i].name.as_str()), size: files[i].size };
            let ghost before = out@;
            out.push(entry);
            assert(file_views(out@) =~= file_views(before).push(entry@));
        }
        i = i + 1;
    }
    out
}

fn select_added_files(local: &Vec<FileEntry>, base: &Vec<FileEntry>) -> (r: Vec<FileEntry>)
    ensures
        file_views(r@) == added_files(file_views(local@), file_views(base@), local@.len()),
{
    let base_names = names_of(base);
    let mut out: Vec<FileEntry> = Vec::new();
    let mut i: usize = 0;
    assert(file_views(out@) =~= Seq::<FileView>::empty());
    while i < local.len()
        invariant
            i <= local@.len(),
            text::strs(base_names@) == file_names(file_views(base@)),
            file_views(out@) == added_files(file_views(local@), file_views(base@), i as nat),
        decreases local@.len() - i,
    {
        let name = local[i].name.as_str();
        if rule_name(name) && !contains_name(&base_names, name) {
            let entry = FileEntry { name: own(name), size: local[i].size };
            let ghost before = out@;
            out.push(entry);
            assert(file_views(out@) =~= file_views(before).push(entry@));
        }
        i = i + 1;
    }
    out
}

/// Lists the rule files of a deployment, from the files of the rule directory and of
/// the directory of local rules. A directory that is missing has no files.
pub fn measure_rules(
    base: &Vec<FileEntry>,
    local: &Vec<FileEntry>,
    languages: &Vec<String>,
) -> (r: Vec<RuleLine>)
    ensures
        rule_views(r@) == measured_rules(
            file_views(base@),
            file_views(local@),
            text::strs(languages@),
        ),
{
    let deployed = sort_files(&select_rule_files(base));
    let added = sort_files(&select_added_files(local, base));
    let ghost langs = text::strs(languages@);
    let ghost first = Seq::new(
        deployed@.len(),
        |i: int| rule_line(deployed@[i]@, file_views(local@), langs),
    );
    let ghost second = Seq::new(
        added@.len(),
        |i: int|
            RuleView {
                name: added@[i].name@,
                size: added@[i].size as nat,
                active: true,
                local: true,
            },
    );
    let mut out: Vec<RuleLine> = Vec::new();
    let mut i: usize = 0;
    while i < deployed.len()
        invariant
            i <= deployed@.len(),
            langs == text::strs(languages@),
            first == Seq::new(
                deployed@.len(),
                |i: int| rule_line(deployed@[i]@, file_views(local@), langs),
            ),
            rule_views(out@) == first.take(i as int),
        decreases deployed@.len() - i,
    {
        let name = deployed[i].name.as_str();
        let active = is_rule_active(name, languages);
        let line = match size_of(local, name) {
            Some(n) => RuleLine { name: own(name), size: n, active, local: true },
            None => RuleLine { name: own(name), size: deployed[i].size, active, local: false },
        };
        let ghost before = out@;
        out.push(line);
        proof {
            assert(rule_views(out@) =~= rule_views(before).push(line@));
            assert(first.take(i + 1) =~= first.take(i as int).push(first[i as int]));
        }
        i = i + 1;
    }
    assert(first.take(i as int) =~= first);
    let mut k: usize = 0;
    assert(first + second.take(0) =~= first);
    while k < added.len()
        invariant
            k <= added@.len(),
            second == Seq::new(
                added@.len(),
                |i: int|
                    RuleView {
                        name: added@[i].name@,
                        size: added@[i].size as nat,
                        active: true,
                        local: true,
                    },
            ),
            rule_views(out@) == first + second.take(k as int),
        decreases added@.len() - k,
    {
        let line = RuleLine {
            name: own(added[k].name.as_str()),
            size: added[k].size,
            active: true,
            local: true,
        };
        let ghost before = out@;
        out.push(line);
        proof {
            assert(rule_views(out@) =~= rule_views(before).push(line@));
            assert(first + second.take(k + 1) =~= (first + second.take(k as int)).push(
                second[k as int],
            ));
        }
        k = k + 1;
    }
    proof {
        assert(second.take(k as int) =~= second);
        let d = sorted_files(rule_files(file_views(base@), base@.len()));
        let a = sorted_files(added_files(file_views(local@), file_views(base@), local@.len()));
        assert(first =~= Seq::new(
            d.len(),
            |i: int| rule_line(d[i], file_views(local@), langs),
        )) by {
            assert(file_views(deployed@) == d);
        }
        assert(second =~= Seq::new(
            a.len(),
            |i: int| RuleView { name: a[i].name, size: a[i].size, active: true, local: true },
        )) by {
            assert(file_views(added@) == a);
        }
    }
    out
}

/// The files among the first `n` with the extension of markdown.
pub open spec fn skill_files(files: Seq<FileView>, n: nat) -> Seq<FileView>
    decreases n,
{
    if n == 0 {
        Seq::empty()
    } else {
        let head = skill_files(files, (n - 1) as nat);
        if extension(files[n - 1].name) == Some("md"@) {
            head.push(files[n - 1])
        } else {
            head
        }
    }
}

/// Lists the skill files of a deployment by name.
pub fn measure_skills(files: &Vec<FileEntry>) -> (r: Vec<FileEntry>)
    ensures
        file_views(r@) == sorted_files(skill_files(file_views(files@), files@.len())),
{
    let mut out: Vec<FileEntry> = Vec::new();
    let mut i: usize = 0;
    assert(file_views(out@) =~= Seq::<FileView>::empty());
    while i < files.len()
        invariant
            i <= files@.len(),
            file_views(out@) == skill_files(file_views(files@), i as nat),
        decreases files@.len() - i,
    {
        if text::opt_is(&extension_of(files[i].name.as_str()), "md") {
            let entry = FileEntry { name: own(files[i].name.as_str()), size: files[i].size };
            let ghost before = out@;
            out.push(entry);
            assert(file_views(out@) =~= file_views(before).push(entry@));
        }
        i = i + 1;
    }
    sort_files(&out)
}

// ---------------------------------------------------------------------------
// Totals
// ---------------------------------------------------------------------------

/// The bytes of the first `n` rule files.
pub open spec fn rule_bytes(rules: Seq<RuleView>, n: nat) -> nat
    decreases n,
{
    if n == 0 {
        0
    } else {
        rule_bytes(rules, (n - 1) as nat) + rules[n - 1].size
    }
}

/// The bytes of the active ones among the first `n` rule files.
pub open spec fn active_bytes(rules: Seq<RuleView>, n: nat) -> nat
    decreases n,
{
    if n == 0 {
        0
    } else {
        active_bytes(rules, (n - 1) as nat) + if rules[n - 1].active {
            rules[n - 1].size
        } else {
            0
        }
    }
}

/// The bytes of the first `n` files.
pub open spec fn file_bytes(files: Seq<FileView>, n: nat) -> nat
    decreases n,
{
    if n == 0 {
        0
    } else {
        file_bytes(files, (n - 1) as nat) + files[n - 1].size
    }
}

proof fn lemma_rule_bytes(rules: Seq<RuleView>, n: nat, m: nat)
    requires
        n <= m <= rules.len(),
    ensures
        active_bytes(rules, n) <= rule_bytes(rules, n) <= rule_bytes(rules, m),
    decreases m,
{
    if n < m {
        lemma_rule_bytes(rules, n, (m - 1) as nat);
    } else if n > 0 {
        lemma_rule_bytes(rules, (n - 1) as nat, (n - 1) as nat);
    }
}

proof fn lemma_file_bytes(files: Seq<FileView>, n: nat, m: nat)
    requires
        n <= m <= files.len(),
    ensures
        file_bytes(files, n) <= file_bytes(files, m),
    decreases m,
{
    if n < m {
        lemma_file_bytes(files, n, (m - 1) as nat);
    }
}

/// What a measurement found.
#[derive(Debug, Clone, PartialEq, Eq)]
pub struct Measurement {
    pub rules: Vec<RuleLine>,
    pub languages: Vec<String>,
    pub guide_size: usize,
    /// The skill files, where their directory exists.
    pub skills: Option<Vec<FileEntry>>,
}

/// The bytes of the project tree, the dependencies and the wrapper, estimated.
pub const TREE_BYTES: usize = 2000;

pub const DEPENDENCY_BYTES: usize = 1200;

pub const WRAPPER_BYTES: usize = 500;

/// The bytes of a condensed reminder, estimated.
pub const REMINDER_BYTES: usize = 500;

/// The prompts behind the first, over which savings are estimated.
pub const LATER_PROMPTS: usize = 49;

/// The prompts from one adaptive reminder to the next.
pub const REMINDER_EVERY: usize = 5;

/// How many hundredths of the whole a part is, rounded to the nearest number; what lies
/// in the middle goes to the even one.
pub open spec fn percent_of(part: nat, whole: nat) -> nat {
    let q = part * 100 / whole;
    let r = part * 100 % whole;
    if 2 * r > whole || (2 * r == whole && q % 2 == 1) {
        q + 1
    } else {
        q
    }
}

/// Computes how many hundredths of the whole a part is.
pub fn percent(part: usize, whole: usize) -> (r: usize)
    requires
        0 < whole,
        part <= whole,
    ensures
        r == percent_of(part as nat, whole as nat),
{
    let hundredfold: u128 = part as u128 * 100;
    let wide: u128 = whole as u128;
    proof {
        assert(hundredfold / wide <= 100) by (nonlinear_arith)
            requires
                hundredfold <= wide * 100,
                0 < wide,
        ;
    }
    let q: usize = (hundredfold / wide) as usize;
    let r: usize = (hundredfold % wide) as usize;
    let left: usize = whole - r;
    if r > left || (r == left && q % 2 == 1) {
        q + 1
    } else {
        q
    }
}

impl Measurement {
    /// The bytes of all rules.
    pub open spec fn total(self) -> nat {
        rule_bytes(rule_views(self.rules@), self.rules@.len())
    }

    /// The bytes of the active rules.
    pub open spec fn active(self) -> nat {
        active_bytes(rule_views(self.rules@), self.rules@.len())
    }

    /// The bytes of the first prompt.
    pub open spec fn full_guard(self) -> nat {
        (TREE_BYTES + DEPENDENCY_BYTES + self.active() + WRAPPER_BYTES) as nat
    }

    /// The bytes with a reminder at every prompt.
    pub open spec fn always(self) -> nat {
        (self.full_guard() + REMINDER_BYTES * LATER_PROMPTS) as nat
    }

    /// The bytes with adaptive reminders.
    pub open spec fn adaptive(self) -> nat {
        (self.full_guard() + REMINDER_BYTES * (LATER_PROMPTS / REMINDER_EVERY)) as nat
    }

    /// The share of the bytes that adaptive reminders save.
    pub open spec fn saved_percent(self) -> nat {
        percent_of((self.always() - self.adaptive()) as nat, self.always())
    }

    /// The bytes of the skills.
    pub open spec fn skill_total(self) -> nat {
        match self.skills {
            Some(files) => file_bytes(file_views(files@), files@.len()),
            None => 0,
        }
    }

    /// Whether all sums fit in a machine word.
    pub open spec fn fits(self) -> bool {
        self.total() + 30000 <= usize::MAX && self.skill_total() <= usize::MAX
    }

    /// Whether all sums fit in a machine word, so that the measurement can be shown.
    pub fn can_be_summed(&self) -> (r: bool)
        ensures
            r == self.fits(),
    {
        let ghost rules = rule_views(self.rules@);
        let mut total: usize = 30000;
        let mut i: usize = 0;
        while i < self.rules.len()
            invariant
                i <= self.rules@.len(),
                rules == rule_views(self.rules@),
                total == rule_bytes(rules, i as nat) + 30000,
            decreases self.rules@.len() - i,
        {
            proof {
                lemma_rule_bytes(rules, i as nat + 1, rules.len());
            }
            assert(rules[i as int].size == self.rules@[i as int].size);
            if self.rules[i].size > usize::MAX - total {
                return false;
            }
            total = total + self.rules[i].size;
            i = i + 1;
        }
        if let Some(files) = &self.skills {
            let ghost views = file_views(files@);
            let mut bytes: usize = 0;
            let mut k: usize = 0;
            while k < files.len()
                invariant
                    k <= files@.len(),
                    self.skills == Some(*files),
                    views == file_views(files@),
                    bytes == file_bytes(views, k as nat),
                decreases files@.len() - k,
            {
                proof {
                    lemma_file_bytes(views, k as nat + 1, views.len());
                }
                if files[k].size > usize::MAX - bytes {
                    return false;
                }
                bytes = bytes + files[k].size;
                k = k + 1;
            }
        }
        true
    }

    /// The totals: all rules, and the active ones.
    pub fn rule_totals(&self) -> (r: (usize, usize))
        requires
            self.fits(),
        ensures
            r.0 == self.total(),
            r.1 == self.active(),
            r.1 <= r.0,
    {
        let ghost rules = rule_views(self.rules@);
        let mut total: usize = 0;
        let mut active: usize = 0;
        let mut i: usize = 0;
        while i < self.rules.len()
            invariant
                i <= self.rules@.len(),
                rules == rule_views(self.rules@),
                self.fits(),
                total == rule_bytes(rules, i as nat),
                active == active_bytes(rules, i as nat),
                active <= total,
            decreases self.rules@.len() - i,
        {
            proof {
                lemma_rule_bytes(rules, i as nat + 1, rules.len());
            }
            assert(rules[i as int].size == self.rules@[i as int].size);
            total = total + self.rules[i].size;
            if self.rules[i].active {
                active = active + self.rules[i].size;
            }
            i = i + 1;
        }
        (total, active)
    }

    /// The bytes with a reminder at every prompt, with adaptive reminders, and the
    /// difference.
    pub fn savings(&self) -> (r: (usize, usize, usize))
        requires
            self.fits(),
        ensures
            r.0 == self.always(),
            r.1 == self.adaptive(),
            r.2 == self.always() - self.adaptive(),
    {
        let (total, active) = self.rule_totals();
        let full: usize = TREE_BYTES + DEPENDENCY_BYTES + active + WRAPPER_BYTES;
        let always: usize = full + REMINDER_BYTES * LATER_PROMPTS;
        let adaptive: usize = full + REMINDER_BYTES * (LATER_PROMPTS / REMINDER_EVERY);
        (always, adaptive, always - adaptive)
    }
}

/// Active and dormant rules make up all rules.
pub proof fn law_active_rules_are_part_of_all(m: Measurement)
    ensures
        m.active() <= m.total(),
{
    lemma_rule_bytes(rule_views(m.rules@), m.rules@.len(), m.rules@.len());
}

/// Adaptive reminders save the same for every project: forty reminders.
pub proof fn law_adaptive_savings(m: Measurement)
    ensures
        m.always() - m.adaptive() == 40 * REMINDER_BYTES,
{
}

// ---------------------------------------------------------------------------
// The text of a measurement
// ---------------------------------------------------------------------------

/// Bytes and tokens behind a label, in a column of the given width.
pub open spec fn bytes_line(
    acc: Seq<char>,
    label: Seq<char>,
    bytes: nat,
    width: nat,
    between: Seq<char>,
    end: Seq<char>,
) -> Seq<char> {
    acc + label + text::pad_before(text::dec(bytes), width) + between + text::dec(bytes / 4) + end
}

/// One line for each of the first `n` rules.
pub open spec fn with_rules(acc: Seq<char>, rules: Seq<RuleView>, n: nat) -> Seq<char>
    decreases n,
{
    if n == 0 {
        acc
    } else {
        let r = rules[n - 1];
        with_rules(acc, rules, (n - 1) as nat) + text::pad(r.name, 35) + " "@ + text::pad_before(
            text::dec(r.size),
            8,
        ) + " "@ + text::pad_before(text::dec(r.size / 4), 8) + "  "@ + if r.active {
            "active"@
        } else {
            "dormant"@
        } + if r.local {
            " (local)\n"@
        } else {
            "\n"@
        }
    }
}

/// One line for each of the first `n` languages.
pub open spec fn with_languages(acc: Seq<char>, languages: Seq<Seq<char>>, n: nat) -> Seq<char>
    decreases n,
{
    if n == 0 {
        acc
    } else {
        with_languages(acc, languages, (n - 1) as nat) + "  - "@ + languages[n - 1] + "\n"@
    }
}

/// One line for each of the first `n` skill files.
pub open spec fn with_skills(acc: Seq<char>, files: Seq<FileView>, n: nat) -> Seq<char>
    decreases n,
{
    if n == 0 {
        acc
    } else {
        with_skills(acc, files, (n - 1) as nat) + text::pad(files[n - 1].name, 35) + " "@
            + text::pad_before(text::dec(files[n - 1].size), 8) + " "@ + text::pad_before(
            text::dec(files[n - 1].size / 4),
            8,
        ) + "\n"@
    }
}

/// The section on rules.
pub open spec fn rules_section(m: Measurement) -> Seq<char> {
    let head = "Context injection measurement\n"@ + text::repeated('=', 60)
        + "\n\n## Rule files (.crosslink/rules/)\n"@ + text::pad("FILE"@, 35) + " "@
        + text::pad_before("BYTES"@, 8) + " "@ + text::pad_before("~TOKENS"@, 8) + "  STATUS\n"@
        + text::repeated('-', 65) + "\n"@;
    let a = with_rules(head, rule_views(m.rules@), m.rules@.len()) + "\n"@;
    let b = bytes_line(a, "  Total rules:   "@, m.total(), 8, " bytes ("@, " tokens)\n"@);
    let c = bytes_line(b, "  Active rules:  "@, m.active(), 8, " bytes ("@, " tokens)\n"@);
    bytes_line(
        c,
        "  Dormant rules: "@,
        (m.total() - m.active()) as nat,
        8,
        " bytes ("@,
        " tokens)\n"@,
    )
}

/// The section on languages.
pub open spec fn with_language_section(acc: Seq<char>, languages: Seq<Seq<char>>) -> Seq<char> {
    let head = acc + "\n## Detected languages\n"@;
    if languages.len() == 0 {
        head + "  (none detected)\n"@
    } else {
        with_languages(head, languages, languages.len())
    }
}

/// The section on the project's own instructions.
pub open spec fn with_instructions(acc: Seq<char>, guide: Seq<char>, size: nat) -> Seq<char> {
    let head = acc + "\n## "@ + guide + "\n"@;
    if size > 0 {
        bytes_line(head, "  "@, size, 8, " bytes ("@, " tokens)\n"@)
    } else {
        head + "  (not found)\n"@
    }
}

/// The section on skills.
pub open spec fn with_skill_section(acc: Seq<char>, m: Measurement, dir: Seq<char>) -> Seq<char> {
    let head = acc + "\n## Skill files ("@ + dir + "/commands/)\n"@;
    match m.skills {
        Some(files) => {
            let columns = head + text::pad("FILE"@, 35) + " "@ + text::pad_before("BYTES"@, 8)
                + " "@ + text::pad_before("~TOKENS"@, 8) + "\n"@ + text::repeated('-', 55) + "\n"@;
            bytes_line(
                with_skills(columns, file_views(files@), files@.len()) + "\n"@,
                "  Total skills: "@,
                m.skill_total(),
                8,
                " bytes ("@,
                " tokens)\n"@,
            )
        },
        None => head + "  (not found)\n"@,
    }
}

/// A line of an estimate, in a column of six.
pub open spec fn estimate_line(acc: Seq<char>, label: Seq<char>, bytes: nat) -> Seq<char> {
    acc + label + text::pad_before(text::dec(bytes), 6) + " bytes\n"@
}

/// The sections on estimates.
pub open spec fn with_estimates(acc: Seq<char>, m: Measurement) -> Seq<char> {
    let a = estimate_line(
        acc + "\n## Estimated first-prompt injection\n"@,
        "  Project tree:    ~"@,
        TREE_BYTES as nat,
    );
    let b = estimate_line(a, "  Dependencies:    ~"@, DEPENDENCY_BYTES as nat);
    let c = estimate_line(b, "  Active rules:     "@, m.active());
    let d = estimate_line(c, "  Wrapper/headers: ~"@, WRAPPER_BYTES as nat);
    let e = bytes_line(
        d + "  ─────────────────────────\n"@,
        "  Total:           ~"@,
        m.full_guard(),
        6,
        " bytes (~"@,
        " tokens)\n"@,
    );
    let f = bytes_line(
        e + "\n## Condensed reminder (subsequent prompts)\n"@,
        "  Estimated:       ~"@,
        REMINDER_BYTES as nat,
        6,
        " bytes (~"@,
        " tokens)\n"@,
    );
    let g = bytes_line(
        f + "\n## Adaptive reminder savings (over 50 prompts)\n"@,
        "  Always-inject:   ~"@,
        m.always(),
        8,
        " bytes ("@,
        " tokens)\n"@,
    );
    let h = bytes_line(g, "  Adaptive (t=5):  ~"@, m.adaptive(), 8, " bytes ("@, " tokens)\n"@);
    bytes_line(
        h,
        "  Saved:           ~"@,
        (m.always() - m.adaptive()) as nat,
        8,
        " bytes ("@,
        " tokens, "@,
    ) + text::dec(m.saved_percent()) + "%)\n"@
}

/// The text of a measurement.
pub open spec fn measurement_report(m: Measurement, assistant: Assistant) -> Seq<char> {
    let a = with_language_section(rules_section(m), text::strs(m.languages@));
    let b = with_instructions(a, assistant.guide@, m.guide_size as nat);
    with_estimates(with_skill_section(b, m, assistant.dir@), m)
}

fn push_bytes(out: &mut String, label: &str, bytes: usize, width: usize, between: &str, end: &str)
    ensures
        final(out)@ == bytes_line(
            old(out)@,
            label@,
            bytes as nat,
            width as nat,
            between@,
            end@,
        ),
{
    out.append(label);
    out.append(pad_before_str(dec_u64(bytes as u64).as_str(), width).as_str());
    out.append(between);
    out.append(dec_u64((bytes / 4) as u64).as_str());
    out.append(end);
}

fn push_estimate(out: &mut String, label: &str, bytes: usize)
    ensures
        final(out)@ == estimate_line(old(out)@, label@, bytes as nat),
{
    out.append(label);
    out.append(pad_before_str(dec_u64(bytes as u64).as_str(), 6).as_str());
    out.append(" bytes\n");
}

fn push_columns(out: &mut String, name: &str, bytes: &str, tokens: &str)
    ensures
        final(out)@ == old(out)@ + text::pad(name@, 35) + " "@ + text::pad_before(bytes@, 8) + " "@
            + text::pad_before(tokens@, 8),
{
    out.append(pad_str(name, 35).as_str());
    out.append(" ");
    out.append(pad_before_str(bytes, 8).as_str());
    out.append(" ");
    out.append(pad_before_str(tokens, 8).as_str());
}

fn push_file(out: &mut String, name: &str, size: usize)
    ensures
        final(out)@ == old(out)@ + text::pad(name@, 35) + " "@ + text::pad_before(
            text::dec(size as nat),
            8,
        ) + " "@ + text::pad_before(text::dec(size as nat / 4), 8),
{
    push_columns(
        out,
        name,
        dec_u64(size as u64).as_str(),
        dec_u64((size / 4) as u64).as_str(),
    );
}

fn rules_text(m: &Measurement) -> (out: String)
    requires
        m.fits(),
    ensures
        out@ == rules_section(*m),
{
    let mut out = own("Context injection measurement\n");
    out.append(repeat_char('=', 60).as_str());
    out.append("\n\n## Rule files (.crosslink/rules/)\n");
    push_columns(&mut out, "FILE", "BYTES", "~TOKENS");
    out.append("  STATUS\n");
    out.append(repeat_char('-', 65).as_str());
    out.append("\n");
    let ghost head = out@;
    let ghost rules = rule_views(m.rules@);
    let mut i: usize = 0;
    while i < m.rules.len()
        invariant
            i <= m.rules@.len(),
            rules == rule_views(m.rules@),
            out@ == with_rules(head, rules, i as nat),
        decreases m.rules@.len() - i,
    {
        let r = &m.rules[i];
        push_file(&mut out, r.name.as_str(), r.size);
        out.append("  ");
        if r.active {
            out.append("active");
        } else {
            out.append("dormant");
        }
        if r.local {
            out.append(" (local)\n");
        } else {
            out.append("\n");
        }
        i = i + 1;
    }
    out.append("\n");
    let (total, active) = m.rule_totals();
    push_bytes(&mut out, "  Total rules:   ", total, 8, " bytes (", " tokens)\n");
    push_bytes(&mut out, "  Active rules:  ", active, 8, " bytes (", " tokens)\n");
    push_bytes(&mut out, "  Dormant rules: ", total - active, 8, " bytes (", " tokens)\n");
    out
}

fn push_languages(out: &mut String, languages: &Vec<String>)
    ensures
        final(out)@ == with_language_section(old(out)@, text::strs(languages@)),
{
    out.append("\n## Detected languages\n");
    let ghost head = out@;
    if languages.len() == 0 {
        out.append("  (none detected)\n");
    } else {
        let mut i: usize = 0;
        while i < languages.len()
            invariant
                i <= languages@.len(),
                out@ == with_languages(head, text::strs(languages@), i as nat),
            decreases languages@.len() - i,
        {
            out.append("  - ");
            out.append(languages[i].as_str());
            out.append("\n");
            i = i + 1;
        }
    }
}

fn push_skills(out: &mut String, m: &Measurement, dir: &str)
    requires
        m.fits(),
    ensures
        final(out)@ == with_skill_section(old(out)@, *m, dir@),
{
    out.append("\n## Skill files (");
    out.append(dir);
    out.append("/commands/)\n");
    match &m.skills {
        Some(files) => {
            push_columns(out, "FILE", "BYTES", "~TOKENS");
            out.append("\n");
            out.append(repeat_char('-', 55).as_str());
            out.append("\n");
            let ghost head = out@;
            let ghost views = file_views(files@);
            let mut total: usize = 0;
            let mut i: usize = 0;
            while i < files.len()
                invariant
                    i <= files@.len(),
                    views == file_views(files@),
                    file_bytes(views, files@.len()) <= usize::MAX,
                    total == file_bytes(views, i as nat),
                    out@ == with_skills(head, views, i as nat),
                decreases files@.len() - i,
            {
                proof {
                    lemma_file_bytes(views, i as nat + 1, views.len());
                }
                assert(views[i as int].size == files@[i as int].size);
                total = total + files[i].size;
                push_file(out, files[i].name.as_str(), files[i].size);
                out.append("\n");
                i = i + 1;
            }
            out.append("\n");
            push_bytes(out, "  Total skills: ", total, 8, " bytes (", " tokens)\n");
        },
        None => {
            out.append("  (not found)\n");
        },
    }
}

fn push_estimates(out: &mut String, m: &Measurement)
    requires
        m.fits(),
    ensures
        final(out)@ == with_estimates(old(out)@, *m),
{
    let (total, active) = m.rule_totals();
    let (always, adaptive, saved) = m.savings();
    let full: usize = TREE_BYTES + DEPENDENCY_BYTES + active + WRAPPER_BYTES;
    out.append("\n## Estimated first-prompt injection\n");
    push_estimate(out, "  Project tree:    ~", TREE_BYTES);
    push_estimate(out, "  Dependencies:    ~", DEPENDENCY_BYTES);
    push_estimate(out, "  Active rules:     ", active);
    push_estimate(out, "  Wrapper/headers: ~", WRAPPER_BYTES);
    out.append("  ─────────────────────────\n");
    push_bytes(out, "  Total:           ~", full, 6, " bytes (~", " tokens)\n");
    out.append("\n## Condensed reminder (subsequent prompts)\n");
    push_bytes(out, "  Estimated:       ~", REMINDER_BYTES, 6, " bytes (~", " tokens)\n");
    out.append("\n## Adaptive reminder savings (over 50 prompts)\n");
    push_bytes(out, "  Always-inject:   ~", always, 8, " bytes (", " tokens)\n");
    push_bytes(out, "  Adaptive (t=5):  ~", adaptive, 8, " bytes (", " tokens)\n");
    push_bytes(out, "  Saved:           ~", saved, 8, " bytes (", " tokens, ");
    out.append(dec_u64(percent(saved, always) as u64).as_str());
    out.append("%)\n");
}

/// The text of a measurement: rules, languages, instructions, skills and estimates.
pub fn measure(m: &Measurement, assistant: Assistant) -> (out: String)
    requires
        m.fits(),
    ensures
        out@ == measurement_report(*m, assistant),
{
    let mut out = rules_text(m);
    push_languages(&mut out, &m.languages);
    out.append("\n## ");
    out.append(assistant.guide);
    out.append("\n");
    if m.guide_size > 0 {
        push_bytes(&mut out, "  ", m.guide_size, 8, " bytes (", " tokens)\n");
    } else {
        out.append("  (not found)\n");
    }
    push_skills(&mut out, m, assistant.dir);
    push_estimates(&mut out, m);
    out
}

/// The part of a verbose measurement on the hook configuration.
pub fn hook_config_section(content: Option<&str>) -> (out: String)
    ensures
        out@ == match content {
            Some(c) => "\n## Hook config\n"@ + c@ + "\n"@,
            None => "\n## Hook config\n"@ + "  (not found)\n"@,
        },
{
    let mut out = own("\n## Hook config\n");
    match content {
        Some(c) => {
            out.append(c);
            out.append("\n");
        },
        None => {
            out.append("  (not found)\n");
        },
    }
    out
}

// ---------------------------------------------------------------------------
// Checking a deployment
// ---------------------------------------------------------------------------

/// The report of a check and the number of problems that it found.
pub struct CheckView {
    pub report: Seq<char>,
    pub problems: nat,
}

/// A missing file: a line and a problem.
pub open spec fn missing(st: CheckView, name: Seq<char>) -> CheckView {
    CheckView {
        report: st.report + "  MISSING  "@ + name + "\n"@,
        problems: st.problems + 1,
    }
}

/// One of the expected files of a section.
pub open spec fn expected(section: int, i: int) -> Seq<char> {
    if section == 0 {
        expected_rule(i)
    } else if section == 1 {
        rule_file(i)
    } else if section == 2 {
        expected_hook(i)
    } else {
        expected_command(i)
    }
}

/// The report after the first `n` files of a section have been looked for. Deployed
/// rule files are mentioned only where they are missing.
pub open spec fn checked_files(
    st: CheckView,
    section: int,
    present: Seq<Seq<char>>,
    n: nat,
) -> CheckView
    decreases n,
{
    if n == 0 {
        st
    } else {
        let head = checked_files(st, section, present, (n - 1) as nat);
        let name = expected(section, n - 1);
        if text::has_name(present, name) {
            if section == 1 {
                head
            } else {
                CheckView { report: head.report + "  OK  "@ + name + "\n"@, ..head }
            }
        } else {
            missing(head, name)
        }
    }
}

/// The state of the hook configuration.
#[derive(Debug, Clone, PartialEq, Eq)]
pub enum ConfigFile {
    Missing,
    /// It cannot be read, for this reason.
    Unreadable(String),
    Content(String),
}

/// The report with the line on the hook configuration.
pub open spec fn checked_config(st: CheckView, config: ConfigFile) -> CheckView {
    match config {
        ConfigFile::Missing => missing(st, "hook-config.json"@),
        ConfigFile::Unreadable(e) => CheckView {
            report: st.report + "  ERROR  hook-config.json: "@ + e@ + "\n"@,
            problems: st.problems + 1,
        },
        ConfigFile::Content(c) => match json_object::json_error(c@) {
            None => CheckView {
                report: st.report + "  OK  hook-config.json (valid JSON)\n"@,
                ..st
            },
            Some(e) => CheckView {
                report: st.report + "  INVALID  hook-config.json: "@ + e + "\n"@,
                problems: st.problems + 1,
            },
        },
    }
}

/// The report with its last line.
pub open spec fn check_summary(st: CheckView) -> Seq<char> {
    if st.problems == 0 {
        st.report + "\nAll checks passed.\n"@
    } else {
        st.report + "\n"@ + text::dec(st.problems)
            + " problem(s) found. Run `crosslink init --force` to repair.\n"@
    }
}

/// The report on the files.
pub open spec fn checked_deployment(
    rules: Seq<Seq<char>>,
    hooks: Seq<Seq<char>>,
    commands: Seq<Seq<char>>,
) -> CheckView {
    let head = CheckView {
        report: "Crosslink deployment check\n"@ + text::repeated('=', 40) + "\n\n## Rule files\n"@,
        problems: 0,
    };
    let a = checked_files(head, 0, rules, EXPECTED_RULES as nat);
    let b = checked_files(a, 1, rules, RULE_FILES as nat);
    let c = checked_files(
        CheckView { report: b.report + "\n## Hook files\n"@, ..b },
        2,
        hooks,
        EXPECTED_HOOKS as nat,
    );
    let d = checked_files(
        CheckView { report: c.report + "\n## Command files\n"@, ..c },
        3,
        commands,
        EXPECTED_COMMANDS as nat,
    );
    CheckView { report: d.report + "\n## Configuration\n"@, ..d }
}

fn expected_at(section: usize, i: usize) -> (r: &'static str)
    requires
        section == 0 ==> i < EXPECTED_RULES,
        section == 1 ==> i < RULE_FILES,
        section == 2 ==> i < EXPECTED_HOOKS,
        section >= 3 ==> i < EXPECTED_COMMANDS,
    ensures
        r@ == expected(section as int, i as int),
{
    if section == 0 {
        expected_rule_at(i)
    } else if section == 1 {
        rule_file_at(i)
    } else if section == 2 {
        expected_hook_at(i)
    } else {
        expected_command_at(i)
    }
}

fn check_section(
    out: &mut String,
    problems: u32,
    section: usize,
    count: usize,
    present: &Vec<String>,
) -> (r: u32)
    requires
        problems <= 1000,
        count <= 100,
        section == 0 ==> count == EXPECTED_RULES,
        section == 1 ==> count == RULE_FILES,
        section == 2 ==> count == EXPECTED_HOOKS,
        section >= 3 ==> count == EXPECTED_COMMANDS,
    ensures
        checked_files(
            CheckView { report: old(out)@, problems: problems as nat },
            section as int,
            text::strs(present@),
            count as nat,
        ) == (CheckView { report: final(out)@, problems: r as nat }),
        r <= problems + count,
{
    let ghost st = CheckView { report: out@, problems: problems as nat };
    let mut found: u32 = problems;
    let mut i: usize = 0;
    while i < count
        invariant
            i <= count,
            count <= 100,
            problems <= 1000,
            found <= problems + i,
            section == 0 ==> count == EXPECTED_RULES,
            section == 1 ==> count == RULE_FILES,
            section == 2 ==> count == EXPECTED_HOOKS,
            section >= 3 ==> count == EXPECTED_COMMANDS,
            checked_files(st, section as int, text::strs(present@), i as nat) == (CheckView {
                report: out@,
                problems: found as nat,
            }),
        decreases count - i,
    {
        let name = expected_at(section, i);
        if contains_name(present, name) {
            if section != 1 {
                out.append("  OK  ");
                out.append(name);
                out.append("\n");
            }
        } else {
            out.append("  MISSING  ");
            out.append(name);
            out.append("\n");
            found = found + 1;
        }
        i = i + 1;
    }
    found
}

/// Checks a deployment: the names in the directories of rules, hooks and commands,
/// and the hook configuration. The result is the report and the number of problems.
pub fn check(
    rules: &Vec<String>,
    hooks: &Vec<String>,
    commands: &Vec<String>,
    config: &ConfigFile,
) -> (r: (String, u32))
    ensures
        r.0@ == check_summary(
            checked_config(
                checked_deployment(
                    text::strs(rules@),
                    text::strs(hooks@),
                    text::strs(commands@),
                ),
                *config,
            ),
        ),
        r.1 == checked_config(
            checked_deployment(text::strs(rules@), text::strs(hooks@), text::strs(commands@)),
            *config,
        ).problems,
{
    let mut out = own("Crosslink deployment check\n");
    out.append(repeat_char('=', 40).as_str());
    out.append("\n\n## Rule files\n");
    let a: u32 = check_section(&mut out, 0, 0, EXPECTED_RULES, rules);
    let b: u32 = check_section(&mut out, a, 1, RULE_FILES, rules);
    out.append("\n## Hook files\n");
    let c: u32 = check_section(&mut out, b, 2, EXPECTED_HOOKS, hooks);
    out.append("\n## Command files\n");
    let d: u32 = check_section(&mut out, c, 3, EXPECTED_COMMANDS, commands);
    out.append("\n## Configuration\n");
    let mut problems: u32 = d;
    match config {
        ConfigFile::Missing => {
            out.append("  MISSING  ");
            out.append("hook-config.json");
            out.append("\n");
            problems = problems + 1;
        },
        ConfigFile::Unreadable(e) => {
            out.append("  ERROR  hook-config.json: ");
            out.append(e.as_str());
            out.append("\n");
            problems = problems + 1;
        },
        ConfigFile::Content(text) => match parse_error(text.as_str()) {
            None => {
                out.append("  OK  hook-config.json (valid JSON)\n");
            },
            Some(e) => {
                out.append("  INVALID  hook-config.json: ");
                out.append(e.as_str());
                out.append("\n");
                problems = problems + 1;
            },
        },
    }
    if problems == 0 {
        out.append("\nAll checks passed.\n");
    } else {
        out.append("\n");
        out.append(dec_u64(problems as u64).as_str());
        out.append(" problem(s) found. Run `crosslink init --force` to repair.\n");
    }
    (out, problems)
}

// ---------------------------------------------------------------------------
// The command
// ---------------------------------------------------------------------------

/// The subcommands on context.
#[derive(Debug, Clone, Copy, PartialEq, Eq, Structural)]
pub enum ContextCommands {
    Measure { verbose: bool },
    Check,
}

/// What a subcommand comes to.
#[derive(Debug, Clone, PartialEq, Eq)]
pub enum ContextTask {
    Measure { project_root: String, verbose: bool },
    Check { settings_dir: String },
}

/// Decides what a subcommand comes to. Both need the project root, which is the
/// directory above that of crosslink.
pub fn run(command: ContextCommands, project_root: Option<&str>, assistant: Assistant) -> (r: Result<
    ContextTask,
    String,
>)
    ensures
        match r {
            Ok(ContextTask::Measure { project_root: root, verbose }) => command
                == (ContextCommands::Measure { verbose }) && text::opt_view(project_root) == Some(
                root@,
            ),
            Ok(ContextTask::Check { settings_dir }) => command == ContextCommands::Check && (
            project_root matches Some(root) && settings_dir@ == paths::joined(
                root@,
                assistant.dir@,
            )),
            Err(e) => project_root is None && e@ == "Cannot determine project root"@,
        },
        r is Ok <==> project_root is Some,
{
    match project_root {
        None => Err(own("Cannot determine project root")),
        Some(root) => match command {
            ContextCommands::Measure { verbose } => Ok(
                ContextTask::Measure { project_root: own(root), verbose },
            ),
            ContextCommands::Check => Ok(
                ContextTask::Check { settings_dir: join_path(root, assistant.dir) },
            ),
        },
    }
}

// ---------------------------------------------------------------------------
// What is found and told
// ---------------------------------------------------------------------------

/// The extension of a name is what stands behind its last dot; a name without a dot behind its
/// start has none.
pub proof fn law_extensions_end_names(stem: Seq<char>, ext: Seq<char>)
    requires
        stem.len() > 0,
        !ext.contains('.'),
    ensures
        extension(stem + seq!['.'] + ext) == Some(ext),
        !stem.contains('.') ==> extension(stem) is None,
        extension(seq!['.'] + ext) is None,
{
    lemma_last_dot(stem + seq!['.'], ext, ext.len());
    assert(ext.take(ext.len() as int) =~= ext);
    let whole = stem + seq!['.'] + ext;
    assert(whole.skip(stem.len() as int + 1) =~= ext);
    if !stem.contains('.') {
        lemma_last_dot(Seq::empty(), stem, stem.len());
        assert(Seq::<char>::empty() + stem.take(stem.len() as int) =~= stem);
    }
    lemma_last_dot(seq!['.'], ext, ext.len());
}

proof fn lemma_last_dot(head: Seq<char>, tail: Seq<char>, n: nat)
    requires
        !tail.contains('.'),
        n <= tail.len(),
        head.len() == 0 || head.last() == '.',
    ensures
        text::rfind_char(head + tail.take(n as int), '.') == head.len() - 1,
    decreases n,
{
    let s = head + tail.take(n as int);
    if n > 0 {
        lemma_last_dot(head, tail, (n - 1) as nat);
        assert(s.last() == tail[n - 1]);
        assert(tail.contains(tail[n - 1]));
        assert(s.drop_last() =~= head + tail.take(n - 1));
    } else {
        assert(s =~= head);
    }
}

proof fn lemma_languages_in(found: Seq<Seq<char>>, dir: Seq<Seq<char>>, m: nat)
    ensures
        found.len() <= languages_in(found, dir, m).len(),
        forall|i: int| 0 <= i < found.len() ==> languages_in(found, dir, m)[i] == #[trigger] found[i],
        forall|k: int|
            0 <= k < m && text::has_name(dir, #[trigger] manifest_file(k)) ==> text::has_name(
                languages_in(found, dir, m),
                manifest_language(k),
            ),
        forall|i: int|
            found.len() <= i < languages_in(found, dir, m).len() ==> exists|k: int|
                0 <= k < m && #[trigger] manifest_language(k) == #[trigger] languages_in(
                    found,
                    dir,
                    m,
                )[i] && text::has_name(dir, manifest_file(k)),
    decreases m,
{
    if m > 0 {
        lemma_languages_in(found, dir, (m - 1) as nat);
        let head = languages_in(found, dir, (m - 1) as nat);
        let all = languages_in(found, dir, m);
        assert forall|k: int|
            0 <= k < m && text::has_name(dir, #[trigger] manifest_file(k)) implies text::has_name(
            all,
            manifest_language(k),
        ) by {
            if k < m - 1 {
                let i = choose|i: int| 0 <= i < head.len() && head[i] == manifest_language(k);
                assert(all[i] == manifest_language(k));
            } else if !text::has_name(head, manifest_language(k)) {
                assert(all.last() == manifest_language(k));
            }
        }
        assert forall|i: int| found.len() <= i < all.len() implies exists|k: int|
            0 <= k < m && #[trigger] manifest_language(k) == #[trigger] all[i] && text::has_name(
                dir,
                manifest_file(k),
            ) by {
            if i < head.len() {
                assert(all[i] == head[i]);
                let k = choose|k: int|
                    0 <= k < m - 1 && #[trigger] manifest_language(k) == head[i] && text::has_name(
                        dir,
                        manifest_file(k),
                    );
                assert(manifest_language(k) == all[i]);
            } else {
                assert(manifest_language(m - 1) == all[i]);
            }
        }
    }
}

/// Whether one of the first `d` directories holds a manifest of a language.
pub open spec fn has_manifest(dirs: Seq<Seq<Seq<char>>>, d: nat, language: Seq<char>) -> bool {
    exists|j: int, k: int|
        0 <= j < d && 0 <= k < MANIFESTS && #[trigger] manifest_language(k) == language
            && text::has_name(#[trigger] dirs[j], manifest_file(k))
}

proof fn lemma_languages_of(dirs: Seq<Seq<Seq<char>>>, d: nat, language: Seq<char>)
    requires
        d <= dirs.len(),
    ensures
        text::has_name(languages_of(dirs, d), language) <==> has_manifest(dirs, d, language),
    decreases d,
{
    if d > 0 {
        lemma_languages_of(dirs, (d - 1) as nat, language);
        let head = languages_of(dirs, (d - 1) as nat);
        let all = languages_of(dirs, d);
        lemma_languages_in(head, dirs[d - 1], MANIFESTS as nat);
        if text::has_name(all, language) {
            let i = choose|i: int| 0 <= i < all.len() && all[i] == language;
            if i < head.len() {
                assert(head[i] == language);
                assert(text::has_name(head, language));
                let (j, k) = choose|j: int, k: int|
                    0 <= j < d - 1 && 0 <= k < MANIFESTS && #[trigger] manifest_language(k)
                        == language && text::has_name(#[trigger] dirs[j], manifest_file(k));
                assert(manifest_language(k) == language && text::has_name(
                    dirs[j],
                    manifest_file(k),
                ));
            } else {
                let k = choose|k: int|
                    0 <= k < MANIFESTS && #[trigger] manifest_language(k) == all[i]
                        && text::has_name(dirs[d - 1], manifest_file(k));
                assert(manifest_language(k) == language && text::has_name(
                    dirs[d - 1],
                    manifest_file(k),
                ));
            }
            assert(has_manifest(dirs, d, language));
        }
        if has_manifest(dirs, d, language) {
            let (j, k) = choose|j: int, k: int|
                0 <= j < d && 0 <= k < MANIFESTS && #[trigger] manifest_language(k) == language
                    && text::has_name(#[trigger] dirs[j], manifest_file(k));
            if j < d - 1 {
                assert(has_manifest(dirs, (d - 1) as nat, language));
                let i = choose|i: int| 0 <= i < head.len() && head[i] == language;
                assert(all[i] == head[i]);
            } else {
                assert(text::has_name(dirs[d - 1], manifest_file(k)));
            }
        }
    }
}

/// A language is found exactly where one of the directories holds a manifest of it; the shell also
/// where there is a script.
pub proof fn law_manifests_tell_the_languages(
    dirs: Seq<Seq<Seq<char>>>,
    script_dirs: Seq<Seq<Seq<char>>>,
    language: Seq<char>,
)
    ensures
        text::has_name(active_languages(dirs, script_dirs), language) <==> has_manifest(
            dirs,
            dirs.len(),
            language,
        ) || (language == "Shell"@ && exists|i: int|
            0 <= i < script_dirs.len() && has_script(#[trigger] script_dirs[i])),
{
    lemma_languages_of(dirs, dirs.len(), language);
    lemma_languages_of(dirs, dirs.len(), "Shell"@);
    let found = languages_of(dirs, dirs.len());
    let all = active_languages(dirs, script_dirs);
    if text::has_name(all, language) {
        let i = choose|i: int| 0 <= i < all.len() && all[i] == language;
        if i < found.len() {
            assert(found[i] == language);
        }
    }
    if text::has_name(found, language) {
        let i = choose|i: int| 0 <= i < found.len() && found[i] == language;
        assert(all[i] == language);
    }
    if language == "Shell"@ && exists|i: int|
        0 <= i < script_dirs.len() && has_script(#[trigger] script_dirs[i]) {
        if !text::has_name(found, "Shell"@) {
            assert(all.last() == "Shell"@);
        }
    }
}

/// Each manifest stands for its own language, and each language has its own rules.
pub proof fn law_manifests_stand_for_their_language()
    ensures
        manifest_of("Cargo.toml"@, "Rust"@, "rust.md"@),
        manifest_of("package.json"@, "JavaScript"@, "javascript.md"@),
        manifest_of("tsconfig.json"@, "TypeScript"@, "typescript.md"@),
        manifest_of("pyproject.toml"@, "Python"@, "python.md"@),
        manifest_of("requirements.txt"@, "Python"@, "python.md"@),
        manifest_of("go.mod"@, "Go"@, "go.md"@),
        manifest_of("pom.xml"@, "Java"@, "java.md"@),
        manifest_of("build.gradle"@, "Java"@, "java.md"@),
        manifest_of("Gemfile"@, "Ruby"@, "ruby.md"@),
        manifest_of("composer.json"@, "PHP"@, "php.md"@),
        manifest_of("Package.swift"@, "Swift"@, "swift.md"@),
        manifest_of("CMakeLists.txt"@, "C/C++"@, "cpp.md"@),
        manifest_of("Makefile"@, "C/C++"@, "c.md"@),
        manifest_of("mix.exs"@, "Elixir"@, "elixir.md"@),
        manifest_of(".shellcheckrc"@, "Shell"@, "shell.md"@),
{
    assert(manifest_file(0) == "Cargo.toml"@ && manifest_file(1) == "package.json"@
        && manifest_file(2) == "tsconfig.json"@ && manifest_file(3) == "pyproject.toml"@
        && manifest_file(4) == "requirements.txt"@ && manifest_file(5) == "go.mod"@
        && manifest_file(6) == "pom.xml"@ && manifest_file(7) == "build.gradle"@);
    assert(manifest_file(8) == "Gemfile"@ && manifest_file(9) == "composer.json"@ && manifest_file(
        10,
    ) == "Package.swift"@ && manifest_file(11) == "CMakeLists.txt"@ && manifest_file(12)
        == "Makefile"@ && manifest_file(13) == "mix.exs"@ && manifest_file(14)
        == ".shellcheckrc"@);
}

/// Whether some manifest is the file, and stands for the language and its rules.
pub open spec fn manifest_of(file: Seq<char>, language: Seq<char>, rule: Seq<char>) -> bool {
    exists|k: int|
        0 <= k < MANIFESTS && #[trigger] manifest_file(k) == file && manifest_language(k)
            == language && manifest_rule(k) == rule
}

/// The rules of a language apply exactly where it is in use; those for every project always do.
pub proof fn law_rules_apply_to_languages_in_use(languages: Seq<Seq<char>>, name: Seq<char>, k: int)
    requires
        0 <= k < MANIFESTS,
    ensures
        text::has_name(languages, manifest_language(k)) ==> rule_applies(
            manifest_rule(k),
            languages,
        ),
        rule_applies("global.md"@, languages),
        rule_applies("project.md"@, languages),
        rule_applies("tracking-strict.md"@, languages),
        rule_applies("tracking-normal.md"@, languages),
        rule_applies("tracking-relaxed.md"@, languages),
        rule_applies("sanitize-patterns.txt"@, languages),
        rule_applies("knowledge.md"@, languages),
        rule_applies("web.md"@, languages),
        languages.len() == 0 && rule_applies(name, languages) ==> always_active(name),
{
}

/// A hidden directory is passed over, and no other.
pub proof fn law_hidden_directories_are_passed_over(dir_name: &str, r: bool)
    requires
        call_ensures(is_searched, (dir_name,), r),
    ensures
        r <==> !(dir_name@.len() > 0 && dir_name@[0] == '.'),
{
    reveal_strlit(".");
    if dir_name@.len() > 0 {
        assert(dir_name@.take(1)[0] == dir_name@[0]);
        if dir_name@[0] == '.' {
            assert(dir_name@.take(1) =~= "."@);
        }
    }
}

/// Sorting keeps every file and puts the names in order.
pub proof fn law_sorted_files_are_the_same(files: Seq<FileView>)
    requires
        files.len() <= usize::MAX,
    ensures
        sorted_files(files).len() == files.len(),
        forall|i: int, j: int|
            0 <= i < j < files.len() ==> text::lex_le(
                (#[trigger] sorted_files(files)[i]).name,
                (#[trigger] sorted_files(files)[j]).name,
            ),
        forall|i: int| 0 <= i < files.len() ==> files.contains(#[trigger] sorted_files(files)[i]),
{
    let names = file_names(files);
    order::law_stable_order_sorts(names, files.len());
    let positions = order::stable_order(names, files.len());
    assert forall|i: int, j: int| 0 <= i < j < files.len() implies text::lex_le(
        (#[trigger] sorted_files(files)[i]).name,
        (#[trigger] sorted_files(files)[j]).name,
    ) by {
        assert(text::lex_le(names[positions[i] as int], names[positions[j] as int]));
    }
    assert forall|i: int| 0 <= i < files.len() implies files.contains(
        #[trigger] sorted_files(files)[i],
    ) by {
        assert(positions[i] < files.len());
        assert(files[positions[i] as int] == sorted_files(files)[i]);
    }
}

/// A local file takes the place of the deployed one of its name, with its own size; otherwise the
/// deployed one is listed as it is.
pub proof fn law_local_rules_take_the_place(
    file: FileView,
    local: Seq<FileView>,
    languages: Seq<Seq<char>>,
)
    ensures
        rule_line(file, local, languages).name == file.name,
        rule_line(file, local, languages).active == rule_applies(file.name, languages),
        rule_line(file, local, languages).local <==> text::has_name(file_names(local), file.name),
        !rule_line(file, local, languages).local ==> rule_line(file, local, languages).size
            == file.size,
        rule_line(file, local, languages).local ==> exists|i: int|
            0 <= i < local.len() && (#[trigger] local[i]).name == file.name && rule_line(
                file,
                local,
                languages,
            ).size == local[i].size,
{
    lemma_size_from(local, file.name, 0);
    let names = file_names(local);
    if text::has_name(names, file.name) {
        let i = choose|i: int| 0 <= i < names.len() && names[i] == file.name;
        assert(local[i].name == file.name);
    }
    if size_from(local, file.name, 0) is Some {
        let i = choose|i: int|
            0 <= i < local.len() && (#[trigger] local[i]).name == file.name && size_from(
                local,
                file.name,
                0,
            ) == Some(local[i].size);
        assert(names[i] == file.name);
    }
}

proof fn lemma_size_from(files: Seq<FileView>, name: Seq<char>, i: int)
    requires
        0 <= i,
    ensures
        size_from(files, name, i) is None ==> forall|j: int|
            i <= j < files.len() ==> (#[trigger] files[j]).name != name,
        size_from(files, name, i) is Some ==> exists|j: int|
            i <= j < files.len() && (#[trigger] files[j]).name == name && size_from(files, name, i)
                == Some(files[j].size),
    decreases files.len() - i,
{
    if i < files.len() {
        if files[i].name != name {
            lemma_size_from(files, name, i + 1);
        } else {
            assert(files[i].name == name);
        }
    }
}

/// Every rule file is listed, and nothing else; so is every local rule file that stands for no
/// deployed one, and every skill file.
pub proof fn law_rule_files_are_told_by_their_name(
    files: Seq<FileView>,
    base: Seq<FileView>,
    n: nat,
    k: int,
)
    requires
        0 <= k < n <= files.len(),
    ensures
        is_rule_name(files[k].name) ==> rule_files(files, n).contains(files[k]),
        is_rule_name(files[k].name) && !text::has_name(file_names(base), files[k].name)
            ==> added_files(files, base, n).contains(files[k]),
        extension(files[k].name) == Some("md"@) ==> skill_files(files, n).contains(files[k]),
        forall|f: FileView| #[trigger]
            rule_files(files, n).contains(f) ==> is_rule_name(f.name) && files.contains(f),
        forall|f: FileView| #[trigger]
            added_files(files, base, n).contains(f) ==> is_rule_name(f.name) && !text::has_name(
                file_names(base),
                f.name,
            ),
        forall|f: FileView| #[trigger]
            skill_files(files, n).contains(f) ==> extension(f.name) == Some("md"@),
{
    lemma_listed_files(files, base, n, k);
    lemma_only_listed_files(files, base, n);
}

proof fn lemma_listed_files(files: Seq<FileView>, base: Seq<FileView>, n: nat, k: int)
    requires
        0 <= k < n <= files.len(),
    ensures
        is_rule_name(files[k].name) ==> rule_files(files, n).contains(files[k]),
        is_rule_name(files[k].name) && !text::has_name(file_names(base), files[k].name)
            ==> added_files(files, base, n).contains(files[k]),
        extension(files[k].name) == Some("md"@) ==> skill_files(files, n).contains(files[k]),
    decreases n,
{
    let a = rule_files(files, n);
    let b = added_files(files, base, n);
    let c = skill_files(files, n);
    if k == n - 1 {
        if is_rule_name(files[k].name) {
            assert(a.last() == files[k]);
        }
        if is_rule_name(files[k].name) && !text::has_name(file_names(base), files[k].name) {
            assert(b.last() == files[k]);
        }
        if extension(files[k].name) == Some("md"@) {
            assert(c.last() == files[k]);
        }
    } else {
        lemma_listed_files(files, base, (n - 1) as nat, k);
        let a0 = rule_files(files, (n - 1) as nat);
        let b0 = added_files(files, base, (n - 1) as nat);
        let c0 = skill_files(files, (n - 1) as nat);
        if a0.contains(files[k]) {
            let i = choose|i: int| 0 <= i < a0.len() && a0[i] == files[k];
            assert(a[i] == files[k]);
        }
        if b0.contains(files[k]) {
            let i = choose|i: int| 0 <= i < b0.len() && b0[i] == files[k];
            assert(b[i] == files[k]);
        }
        if c0.contains(files[k]) {
            let i = choose|i: int| 0 <= i < c0.len() && c0[i] == files[k];
            assert(c[i] == files[k]);
        }
    }
}

proof fn lemma_only_listed_files(files: Seq<FileView>, base: Seq<FileView>, n: nat)
    requires
        n <= files.len(),
    ensures
        forall|f: FileView| #[trigger]
            rule_files(files, n).contains(f) ==> is_rule_name(f.name) && files.contains(f),
        forall|f: FileView| #[trigger]
            added_files(files, base, n).contains(f) ==> is_rule_name(f.name) && !text::has_name(
                file_names(base),
                f.name,
            ),
        forall|f: FileView| #[trigger]
            skill_files(files, n).contains(f) ==> extension(f.name) == Some("md"@),
    decreases n,
{
    if n > 0 {
        lemma_only_listed_files(files, base, (n - 1) as nat);
        let a0 = rule_files(files, (n - 1) as nat);
        let b0 = added_files(files, base, (n - 1) as nat);
        let c0 = skill_files(files, (n - 1) as nat);
        assert(files.contains(files[n - 1]));
        assert forall|f: FileView| #[trigger] rule_files(files, n).contains(f) implies is_rule_name(
            f.name,
        ) && files.contains(f) by {
            let a = rule_files(files, n);
            let i = choose|i: int| 0 <= i < a.len() && a[i] == f;
            if i < a0.len() {
                assert(a0[i] == f);
                assert(a0.contains(f));
            }
        }
        assert forall|f: FileView| #[trigger] added_files(files, base, n).contains(
            f,
        ) implies is_rule_name(f.name) && !text::has_name(file_names(base), f.name) by {
            let b = added_files(files, base, n);
            let i = choose|i: int| 0 <= i < b.len() && b[i] == f;
            if i < b0.len() {
                assert(b0[i] == f);
                assert(b0.contains(f));
            }
        }
        assert forall|f: FileView| #[trigger] skill_files(files, n).contains(f) implies extension(
            f.name,
        ) == Some("md"@) by {
            let c = skill_files(files, n);
            let i = choose|i: int| 0 <= i < c.len() && c[i] == f;
            if i < c0.len() {
                assert(c0[i] == f);
                assert(c0.contains(f));
            }
        }
    }
}

/// Rules are told by the ending of their name.
pub proof fn law_rules_end_in_md_or_txt(stem: Seq<char>, ext: Seq<char>)
    requires
        stem.len() > 0,
        !ext.contains('.'),
    ensures
        is_rule_name(stem + seq!['.'] + ext) <==> ext == "md"@ || ext == "txt"@,
{
    law_extensions_end_names(stem, ext);
}

/// The bytes of all rules are those of the active ones and of the dormant ones; where all are
/// active there are no others, and where none is the active ones have no bytes. Every rule counts.
pub proof fn law_bytes_are_summed(rules: Seq<RuleView>, n: nat, k: int)
    requires
        n <= rules.len(),
    ensures
        active_bytes(rules, n) <= rule_bytes(rules, n),
        (forall|i: int| 0 <= i < n ==> (#[trigger] rules[i]).active) ==> active_bytes(rules, n)
            == rule_bytes(rules, n),
        (forall|i: int| 0 <= i < n ==> !(#[trigger] rules[i]).active) ==> active_bytes(rules, n)
            == 0,
        0 <= k < n ==> rules[k].size <= rule_bytes(rules, n),
        0 <= k < n && rules[k].active ==> rules[k].size <= active_bytes(rules, n),
        0 <= k < n && !rules[k].active ==> rules[k].size <= rule_bytes(rules, n) - active_bytes(
            rules,
            n,
        ),
        (forall|i: int| 0 <= i < n ==> (#[trigger] rules[i]).size == 1) ==> rule_bytes(rules, n)
            == n,
    decreases n,
{
    if n > 0 {
        law_bytes_are_summed(rules, (n - 1) as nat, k);
    }
}

/// A share is rounded to the nearest hundredth, and never off by more than half of one.
pub proof fn law_shares_are_rounded(part: nat, whole: nat)
    requires
        0 < whole,
        part <= whole,
    ensures
        2 * (percent_of(part, whole) * whole - part * 100) <= whole,
        2 * (part * 100 - percent_of(part, whole) * whole) <= whole,
        percent_of(part, whole) <= 100,
        percent_of(whole, whole) == 100,
        percent_of(0, whole) == 0,
{
    let q = (part * 100) / whole;
    let r = (part * 100) % whole;
    assert(part * 100 == q * whole + r && 0 <= r < whole) by (nonlinear_arith)
        requires
            whole > 0,
            q == (part * 100) / whole,
            r == (part * 100) % whole,
    ;
    assert((q + 1) * whole == q * whole + whole) by (nonlinear_arith);
    assert(q <= 100) by (nonlinear_arith)
        requires
            part * 100 == q * whole + r,
            0 <= r,
            part <= whole,
            whole > 0,
    ;
    if q == 100 {
        assert(r == 0) by (nonlinear_arith)
            requires
                part * 100 == q * whole + r,
                0 <= r,
                part <= whole,
                q == 100,
        ;
    }
    assert((whole * 100) / whole == 100 && (whole * 100) % whole == 0) by (nonlinear_arith)
        requires
            whole > 0,
    ;
    let none: nat = 0;
    assert((none * 100) / whole == 0 && (none * 100) % whole == 0) by (nonlinear_arith)
        requires
            whole > 0,
            none == 0,
    ;
}

/// Every rule is listed with its name, its bytes, whether it is active and whether it is local.
pub proof fn law_rules_are_listed(acc: Seq<char>, rules: Seq<RuleView>, n: nat, k: int, p: Seq<char>)
    ensures
        text::contains(acc, p) ==> text::contains(with_rules(acc, rules, n), p),
        0 <= k < n ==> {
            let r = rules[k];
            let told = with_rules(acc, rules, n);
            &&& text::contains(
                told,
                text::pad(r.name, 35) + " "@ + text::pad_before(text::dec(r.size), 8),
            )
            &&& r.active && r.local ==> text::contains(told, "  "@ + "active"@ + " (local)\n"@)
            &&& r.active && !r.local ==> text::contains(told, "  "@ + "active"@ + "\n"@)
            &&& !r.active && r.local ==> text::contains(told, "  "@ + "dormant"@ + " (local)\n"@)
            &&& !r.active && !r.local ==> text::contains(told, "  "@ + "dormant"@ + "\n"@)
        },
    decreases n,
{
    broadcast use {text::lemma_contains_first, text::lemma_contains_triple};

    if n > 0 {
        law_rules_are_listed(acc, rules, (n - 1) as nat, k, p);
    }
}

/// Every language is listed; where there is none, that is told.
pub proof fn law_languages_are_listed(acc: Seq<char>, languages: Seq<Seq<char>>, k: int)
    ensures
        0 <= k < languages.len() ==> text::contains(
            with_language_section(acc, languages),
            "  - "@ + languages[k] + "\n"@,
        ),
        languages.len() == 0 ==> text::contains(
            with_language_section(acc, languages),
            "  (none detected)\n"@,
        ),
        text::contains(with_language_section(acc, languages), acc),
{
    broadcast use {
        text::lemma_contains_self,
        text::lemma_contains_first,
        text::lemma_contains_second,
    };

    let head = acc + "\n## Detected languages\n"@;
    lemma_languages_listed(head, languages, languages.len(), k, acc);
}

proof fn lemma_languages_listed(
    acc: Seq<char>,
    languages: Seq<Seq<char>>,
    n: nat,
    k: int,
    p: Seq<char>,
)
    ensures
        text::contains(acc, p) ==> text::contains(with_languages(acc, languages, n), p),
        0 <= k < n ==> text::contains(
            with_languages(acc, languages, n),
            "  - "@ + languages[k] + "\n"@,
        ),
    decreases n,
{
    broadcast use {text::lemma_contains_first, text::lemma_contains_triple};

    if n > 0 {
        lemma_languages_listed(acc, languages, (n - 1) as nat, k, p);
    }
}

/// A line of bytes tells them, and a quarter as many tokens.
pub proof fn law_tokens_are_a_quarter(
    acc: Seq<char>,
    label: Seq<char>,
    bytes: nat,
    width: nat,
    between: Seq<char>,
    end: Seq<char>,
)
    ensures
        text::contains(
            bytes_line(acc, label, bytes, width, between, end),
            label + text::pad_before(text::dec(bytes), width) + between,
        ),
        text::contains(
            bytes_line(acc, label, bytes, width, between, end),
            between + text::dec(bytes / 4) + end,
        ),
        text::contains(bytes_line(acc, label, bytes, width, between, end), acc),
{
    broadcast use {
        text::lemma_contains_self,
        text::lemma_contains_first,
        text::lemma_contains_triple,
    };

}

/// The section on rules tells the bytes of all rules, of the active ones and of the dormant ones,
/// which are the rest.
pub proof fn law_rule_totals_are_told(m: Measurement)
    ensures
        text::contains(
            rules_section(m),
            "  Total rules:   "@ + text::pad_before(text::dec(m.total()), 8) + " bytes ("@,
        ),
        text::contains(
            rules_section(m),
            "  Active rules:  "@ + text::pad_before(text::dec(m.active()), 8) + " bytes ("@,
        ),
        text::contains(
            rules_section(m),
            "  Dormant rules: "@ + text::pad_before(
                text::dec((m.total() - m.active()) as nat),
                8,
            ) + " bytes ("@,
        ),
{
    broadcast use {text::lemma_contains_first, text::lemma_contains_triple};

}

/// The instructions of the project are told by their size, or that there are none.
pub proof fn law_instructions_are_told(acc: Seq<char>, guide: Seq<char>, size: nat)
    ensures
        text::contains(with_instructions(acc, guide, size), "\n## "@ + guide + "\n"@),
        size > 0 ==> text::contains(
            with_instructions(acc, guide, size),
            "  "@ + text::pad_before(text::dec(size), 8) + " bytes ("@,
        ),
        size == 0 ==> text::contains(with_instructions(acc, guide, size), "  (not found)\n"@),
{
    broadcast use {
        text::lemma_contains_self,
        text::lemma_contains_first,
        text::lemma_contains_second,
        text::lemma_contains_triple,
    };

}

/// The first prompt takes the bytes of the active rules and of what is estimated for the project,
/// nothing of it less than once.
pub proof fn law_first_prompt_holds_all(m: Measurement)
    ensures
        m.full_guard() == 2000 + 1200 + m.active() + 500,
        m.always() == m.full_guard() + 49 * 500,
        m.adaptive() == m.full_guard() + 9 * 500,
{
}

/// What was checked before stays told, and no problem that was counted is forgotten. Nothing is
/// wrong with a section exactly where every expected file is there; a file that is missing is told.
pub proof fn law_missing_files_are_found(
    st: CheckView,
    section: int,
    present: Seq<Seq<char>>,
    n: nat,
    k: int,
    p: Seq<char>,
)
    ensures
        ({
            let now = checked_files(st, section, present, n);
            &&& now.problems >= st.problems
            &&& now.problems == st.problems <==> forall|i: int|
                0 <= i < n ==> text::has_name(present, #[trigger] expected(section, i))
            &&& text::contains(st.report, p) ==> text::contains(now.report, p)
            &&& 0 <= k < n && !text::has_name(present, expected(section, k)) ==> text::contains(
                now.report,
                "  MISSING  "@ + expected(section, k) + "\n"@,
            )
            &&& 0 <= k < n && section != 1 && text::has_name(present, expected(section, k))
                ==> text::contains(now.report, "  OK  "@ + expected(section, k) + "\n"@)
        }),
    decreases n,
{
    broadcast use {text::lemma_contains_first, text::lemma_contains_triple};

    if n > 0 {
        law_missing_files_are_found(st, section, present, (n - 1) as nat, k, p);
        let head = checked_files(st, section, present, (n - 1) as nat);
        let now = checked_files(st, section, present, n);
        let name = expected(section, n - 1);
        if forall|i: int| 0 <= i < n ==> text::has_name(present, #[trigger] expected(section, i)) {
            assert(text::has_name(present, name));
        }
        if now.problems == st.problems {
            assert(text::has_name(present, name));
            assert(head.problems == st.problems);
        }
    }
}

/// The configuration is in order exactly where it is there and is valid JSON; what is wrong with it
/// is told.
pub proof fn law_broken_configurations_are_found(st: CheckView, config: ConfigFile)
    ensures
        checked_config(st, config).problems == st.problems <==> config is Content
            && json_object::json_error(config->Content_0@) is None,
        checked_config(st, config).problems <= st.problems + 1,
        checked_config(st, config).problems >= st.problems,
        config is Missing ==> text::contains(
            checked_config(st, config).report,
            "  MISSING  "@ + "hook-config.json"@ + "\n"@,
        ),
        config matches ConfigFile::Unreadable(e) ==> text::contains(
            checked_config(st, config).report,
            "  ERROR  hook-config.json: "@ + e@ + "\n"@,
        ),
        config matches ConfigFile::Content(c) ==> (json_object::json_error(c@) matches Some(e)
            ==> text::contains(
            checked_config(st, config).report,
            "  INVALID  hook-config.json: "@ + e + "\n"@,
        )),
{
    broadcast use {
        text::lemma_contains_self,
        text::lemma_contains_second,
        text::lemma_contains_triple,
    };

}

/// A deployment passes exactly where every expected file is there and the configuration is valid
/// JSON, and the report says so; otherwise it says how many problems there are.
pub proof fn law_deployments_pass_where_all_is_there(
    rules: &Vec<String>,
    hooks: &Vec<String>,
    commands: &Vec<String>,
    config: &ConfigFile,
    r: (String, u32),
)
    requires
        call_ensures(check, (rules, hooks, commands, config), r),
    ensures
        r.1 == 0 <==> {
            &&& forall|i: int|
                0 <= i < EXPECTED_RULES ==> text::has_name(
                    text::strs(rules@),
                    #[trigger] expected_rule(i),
                )
            &&& forall|i: int|
                0 <= i < RULE_FILES ==> text::has_name(text::strs(rules@), #[trigger] rule_file(i))
            &&& forall|i: int|
                0 <= i < EXPECTED_HOOKS ==> text::has_name(
                    text::strs(hooks@),
                    #[trigger] expected_hook(i),
                )
            &&& forall|i: int|
                0 <= i < EXPECTED_COMMANDS ==> text::has_name(
                    text::strs(commands@),
                    #[trigger] expected_command(i),
                )
            &&& *config is Content && json_object::json_error(config->Content_0@) is None
        },
        r.1 == 0 ==> text::has_suffix(r.0@, "\nAll checks passed.\n"@),
        r.1 > 0 ==> text::contains(r.0@, "\n"@ + text::dec(r.1 as nat)),
{
    broadcast use {
        text::lemma_contains_first,
        text::lemma_contains_pair,
        text::lemma_suffix_of_sum,
    };

    let rs = text::strs(rules@);
    let hs = text::strs(hooks@);
    let cs = text::strs(commands@);
    let head = CheckView {
        report: "Crosslink deployment check\n"@ + text::repeated('=', 40) + "\n\n## Rule files\n"@,
        problems: 0,
    };
    let a = checked_files(head, 0, rs, EXPECTED_RULES as nat);
    let b = checked_files(a, 1, rs, RULE_FILES as nat);
    let c0 = CheckView { report: b.report + "\n## Hook files\n"@, ..b };
    let c = checked_files(c0, 2, hs, EXPECTED_HOOKS as nat);
    let d0 = CheckView { report: c.report + "\n## Command files\n"@, ..c };
    let d = checked_files(d0, 3, cs, EXPECTED_COMMANDS as nat);
    let e = checked_deployment(rs, hs, cs);
    law_missing_files_are_found(head, 0, rs, EXPECTED_RULES as nat, 0, ""@);
    law_missing_files_are_found(a, 1, rs, RULE_FILES as nat, 0, ""@);
    law_missing_files_are_found(c0, 2, hs, EXPECTED_HOOKS as nat, 0, ""@);
    law_missing_files_are_found(d0, 3, cs, EXPECTED_COMMANDS as nat, 0, ""@);
    law_broken_configurations_are_found(e, *config);
    assert forall|i: int| 0 <= i < EXPECTED_RULES implies expected(0, i) == #[trigger] expected_rule(
        i,
    ) by {}
    assert forall|i: int| 0 <= i < RULE_FILES implies expected(1, i) == #[trigger] rule_file(
        i,
    ) by {}
    assert forall|i: int| 0 <= i < EXPECTED_HOOKS implies expected(2, i) == #[trigger] expected_hook(
        i,
    ) by {}
    assert forall|i: int| 0 <= i < EXPECTED_COMMANDS implies expected(3, i)
        == #[trigger] expected_command(i) by {}
    assert(e.problems == d.problems);
    assert(r.1 == 0 <==> e.problems == 0 && *config is Content && json_object::json_error(
        config->Content_0@,
    ) is None);
    assert(e.problems == 0 <==> a.problems == 0 && b.problems == a.problems && c.problems
        == b.problems && d.problems == c.problems);
}

/// Both subcommands need the project root. A measurement is of the root; a check is of the
/// assistant's directory below it.
pub proof fn law_context_commands_need_the_root(
    command: ContextCommands,
    project_root: Option<&str>,
    assistant: Assistant,
    r: Result<ContextTask, String>,
)
    requires
        call_ensures(run, (command, project_root, assistant), r),
    ensures
        r is Ok <==> project_root is Some,
        project_root matches Some(root) ==> {
            &&& command == ContextCommands::Check ==> (r matches Ok(
                ContextTask::Check { settings_dir },
            ) && settings_dir@ == paths::joined(root@, assistant.dir@))
            &&& command matches ContextCommands::Measure { verbose } ==> (r matches Ok(
                ContextTask::Measure { project_root: p, verbose: v },
            ) && v == verbose && p@ == root@)
        },
{
}

/// The hook configuration is shown as it is, where there is one.
pub proof fn law_hook_configuration_is_shown(content: Option<&str>, out: String)
    requires
        call_ensures(hook_config_section, (content,), out),
    ensures
        content matches Some(c) ==> text::contains(out@, "\n## Hook config\n"@ + c@),
        content is None ==> text::has_suffix(out@, "  (not found)\n"@),
{
    broadcast use {
        text::lemma_contains_self,
        text::lemma_contains_first,
        text::lemma_suffix_of_sum,
    };

}

/// Every deployed rule file is listed, by itself or by the local one in its place, and every local
/// one that stands for none is listed behind them and is active.
pub proof fn law_all_rules_are_measured(
    base: Seq<FileView>,
    local: Seq<FileView>,
    languages: Seq<Seq<char>>,
    i: int,
)
    requires
        base.len() <= usize::MAX,
        local.len() <= usize::MAX,
        0 <= i < measured_rules(base, local, languages).len(),
    ensures
        ({
            let deployed = rule_files(base, base.len());
            let added = added_files(local, base, local.len());
            let all = measured_rules(base, local, languages);
            &&& all.len() == deployed.len() + added.len()
            &&& i < deployed.len() ==> exists|k: int|
                0 <= k < deployed.len() && all[i] == rule_line(
                    #[trigger] deployed[k],
                    local,
                    languages,
                )
            &&& i >= deployed.len() ==> all[i].active && all[i].local && exists|k: int|
                0 <= k < added.len() && all[i].name == (#[trigger] added[k]).name && all[i].size
                    == added[k].size
        }),
{
    let deployed = rule_files(base, base.len());
    let added = added_files(local, base, local.len());
    lemma_fewer(base, base, base.len());
    lemma_fewer(local, base, local.len());
    law_sorted_files_are_the_same(deployed);
    law_sorted_files_are_the_same(added);
    let all = measured_rules(base, local, languages);
    if i < deployed.len() {
        let f = sorted_files(deployed)[i];
        assert(deployed.contains(f));
        let k = choose|k: int| 0 <= k < deployed.len() && deployed[k] == f;
        assert(all[i] == rule_line(deployed[k], local, languages));
    } else {
        let f = sorted_files(added)[i - deployed.len()];
        assert(added.contains(f));
        let k = choose|k: int| 0 <= k < added.len() && added[k] == f;
        assert(all[i].name == added[k].name);
    }
}

proof fn lemma_fewer(files: Seq<FileView>, base: Seq<FileView>, n: nat)
    ensures
        rule_files(files, n).len() <= n,
        added_files(files, base, n).len() <= n,
    decreases n,
{
    if n > 0 {
        lemma_fewer(files, base, (n - 1) as nat);
    }
}

/// Every file counts towards the bytes of all.
pub proof fn law_file_bytes_are_summed(files: Seq<FileView>, n: nat, k: int)
    requires
        n <= files.len(),
    ensures
        0 <= k < n ==> files[k].size <= file_bytes(files, n),
        (forall|i: int| 0 <= i < n ==> (#[trigger] files[i]).size == 1) ==> file_bytes(files, n)
            == n,
        n > 0 ==> file_bytes(files, n) - file_bytes(files, (n - 1) as nat) == files[n - 1].size,
    decreases n,
{
    if n > 0 {
        law_file_bytes_are_summed(files, (n - 1) as nat, k);
    }
}

/// What adaptive reminders save is told as a share of the whole, within half of a hundredth.
pub proof fn law_savings_are_a_share(m: Measurement)
    ensures
        2 * (m.saved_percent() * m.always() - 20_000 * 100) <= m.always(),
        2 * (20_000 * 100 - m.saved_percent() * m.always()) <= m.always(),
        m.skills is None ==> m.skill_total() == 0,
{
    law_adaptive_savings(m);
    law_shares_are_rounded(20_000, m.always());
}

/// Every skill is listed with its bytes, and their sum is told; where there is no directory of
/// skills, that is told.
pub proof fn law_skills_are_listed(acc: Seq<char>, m: Measurement, dir: Seq<char>, k: int)
    ensures
        text::contains(with_skill_section(acc, m, dir), acc),
        m.skills is None ==> text::contains(with_skill_section(acc, m, dir), "  (not found)\n"@),
        m.skills matches Some(files) ==> text::contains(
            with_skill_section(acc, m, dir),
            "  Total skills: "@ + text::pad_before(text::dec(m.skill_total()), 8) + " bytes ("@,
        ),
        m.skills matches Some(files) ==> (0 <= k < files@.len() ==> text::contains(
            with_skill_section(acc, m, dir),
            text::pad(files@[k].name@, 35) + " "@ + text::pad_before(
                text::dec(files@[k].size as nat),
                8,
            ),
        )),
{
    let head = acc + "\n## Skill files ("@ + dir + "/commands/)\n"@;
    assert(text::contains(head, acc)) by {
        broadcast use {text::lemma_contains_self, text::lemma_contains_first};

    }
    if let Some(files) = m.skills {
        let columns = head + text::pad("FILE"@, 35) + " "@ + text::pad_before("BYTES"@, 8) + " "@
            + text::pad_before("~TOKENS"@, 8) + "\n"@ + text::repeated('-', 55) + "\n"@;
        assert(text::contains(columns, acc)) by {
            broadcast use text::lemma_contains_first;

        }
        let views = file_views(files@);
        lemma_skills_listed(columns, views, views.len(), k, acc);
        let listed = with_skills(columns, views, views.len()) + "\n"@;
        law_tokens_are_a_quarter(
            listed,
            "  Total skills: "@,
            m.skill_total(),
            8,
            " bytes ("@,
            " tokens)\n"@,
        );
        let all = with_skill_section(acc, m, dir);
        text::lemma_contains_first(with_skills(columns, views, views.len()), "\n"@, acc);
        text::lemma_contains_transitive(all, listed, acc);
        if 0 <= k < files@.len() {
            let line = text::pad(views[k].name, 35) + " "@ + text::pad_before(
                text::dec(views[k].size),
                8,
            );
            text::lemma_contains_first(with_skills(columns, views, views.len()), "\n"@, line);
            text::lemma_contains_transitive(all, listed, line);
        }
    } else {
        broadcast use {
            text::lemma_contains_self,
            text::lemma_contains_first,
            text::lemma_contains_second,
        };

    }
}

proof fn lemma_skills_listed(acc: Seq<char>, files: Seq<FileView>, n: nat, k: int, p: Seq<char>)
    ensures
        text::contains(acc, p) ==> text::contains(with_skills(acc, files, n), p),
        0 <= k < n ==> text::contains(
            with_skills(acc, files, n),
            text::pad(files[k].name, 35) + " "@ + text::pad_before(text::dec(files[k].size), 8),
        ),
    decreases n,
{
    broadcast use {text::lemma_contains_first, text::lemma_contains_triple};

    if n > 0 {
        lemma_skills_listed(acc, files, (n - 1) as nat, k, p);
    }
}

/// The estimates tell the bytes of the active rules, of the first prompt, with and without adaptive
/// reminders, and what is saved.
pub proof fn law_estimates_are_told(acc: Seq<char>, m: Measurement)
    ensures
        text::contains(
            with_estimates(acc, m),
            "  Active rules:     "@ + text::pad_before(text::dec(m.active()), 6) + " bytes\n"@,
        ),
        text::contains(
            with_estimates(acc, m),
            "  Total:           ~"@ + text::pad_before(text::dec(m.full_guard()), 6)
                + " bytes (~"@,
        ),
        text::contains(
            with_estimates(acc, m),
            "  Always-inject:   ~"@ + text::pad_before(text::dec(m.always()), 8) + " bytes ("@,
        ),
        text::contains(
            with_estimates(acc, m),
            "  Adaptive (t=5):  ~"@ + text::pad_before(text::dec(m.adaptive()), 8)
                + " bytes ("@,
        ),
        text::contains(
            with_estimates(acc, m),
            "  Saved:           ~"@ + text::pad_before(
                text::dec((m.always() - m.adaptive()) as nat),
                8,
            ) + " bytes ("@,
        ),
        text::contains(with_estimates(acc, m), " tokens, "@ + text::dec(m.saved_percent()) + "%)\n"@),
{
    broadcast use {text::lemma_contains_first, text::lemma_contains_triple};

}

/// A measurement tells the rules, the languages, the instructions, the skills and the estimates, all
/// of them.
pub proof fn law_measurements_tell_all_sections(m: Measurement, assistant: Assistant)
    ensures
        text::contains(measurement_report(m, assistant), rules_section(m)),
        text::contains(measurement_report(m, assistant), "\n## Detected languages\n"@),
        text::contains(
            measurement_report(m, assistant),
            "\n## "@ + assistant.guide@ + "\n"@,
        ),
        text::contains(
            measurement_report(m, assistant),
            "\n## Skill files ("@ + assistant.dir@ + "/commands/)\n"@,
        ),
        text::contains(
            measurement_report(m, assistant),
            "\n## Estimated first-prompt injection\n"@,
        ),
{
    let r = rules_section(m);
    let languages = text::strs(m.languages@);
    let a = with_language_section(r, languages);
    let b = with_instructions(a, assistant.guide@, m.guide_size as nat);
    let c = with_skill_section(b, m, assistant.dir@);
    let all = measurement_report(m, assistant);
    law_languages_are_listed(r, languages, 0);
    assert(text::contains(a, "\n## Detected languages\n"@)) by {
        let head = r + "\n## Detected languages\n"@;
        text::lemma_contains_self("\n## Detected languages\n"@);
        text::lemma_contains_second(r, "\n## Detected languages\n"@, "\n## Detected languages\n"@);
        lemma_languages_listed(head, languages, languages.len(), 0, "\n## Detected languages\n"@);
        text::lemma_contains_first(head, "  (none detected)\n"@, "\n## Detected languages\n"@);
    }
    law_instructions_are_told(a, assistant.guide@, m.guide_size as nat);
    assert(text::contains(b, a)) by {
        broadcast use {text::lemma_contains_self, text::lemma_contains_first};

    }
    law_skills_are_listed(b, m, assistant.dir@, 0);
    let skills = "\n## Skill files ("@ + assistant.dir@ + "/commands/)\n"@;
    assert(text::contains(c, skills)) by {
        let head = b + "\n## Skill files ("@ + assistant.dir@ + "/commands/)\n"@;
        text::lemma_contains_triple(
            b,
            "\n## Skill files ("@,
            assistant.dir@,
            "/commands/)\n"@,
        );
        assert(text::contains(head, skills));
        if let Some(files) = m.skills {
            let columns = head + text::pad("FILE"@, 35) + " "@ + text::pad_before("BYTES"@, 8)
                + " "@ + text::pad_before("~TOKENS"@, 8) + "\n"@ + text::repeated('-', 55)
                + "\n"@;
            assert(text::contains(columns, skills)) by {
                broadcast use text::lemma_contains_first;

            }
            let views = file_views(files@);
            lemma_skills_listed(columns, views, views.len(), 0, skills);
            broadcast use text::lemma_contains_first;

        } else {
            text::lemma_contains_first(head, "  (not found)\n"@, skills);
        }
    }
    assert(text::contains(all, c) && text::contains(
        all,
        "\n## Estimated first-prompt injection\n"@,
    )) by {
        broadcast use {
            text::lemma_contains_self,
            text::lemma_contains_first,
            text::lemma_contains_second,
        };

    }
    text::lemma_contains_transitive(all, c, skills);
    text::lemma_contains_transitive(all, c, b);
    text::lemma_contains_transitive(all, b, "\n## "@ + assistant.guide@ + "\n"@);
    text::lemma_contains_transitive(all, b, a);
    text::lemma_contains_transitive(all, a, "\n## Detected languages\n"@);
    text::lemma_contains_transitive(all, a, r);
}

} // verus!
