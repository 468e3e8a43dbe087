//! What a launch needs of the machine it runs on.

use crate::assistant::Assistant;
use crate::commands::kickoff::hints;
use crate::commands::kickoff::hints::install_hint;
use crate::commands::kickoff::options::{ContainerMode, VerifyLevel};
use crate::json;
use crate::json::inner_text_at;
use crate::json_object;
use crate::text;
use crate::text::{
    contains_name, contains_str, dec_u64, first_word_of, join_strs, own, own_words, push_name,
    to_lower,
};
use vstd::prelude::*;

verus! {

/// Platform for generating targeted install instructions.
#[derive(Debug, Clone, Copy, PartialEq, Eq, Structural)]
pub enum Platform {
    MacOS,
    Linux(LinuxDistro),
    Windows,
}

/// Known Linux distribution families.
#[derive(Debug, Clone, Copy, PartialEq, Eq, Structural)]
pub enum LinuxDistro {
    Debian,
    Fedora,
    Arch,
    Alpine,
    Other,
}

/// The family that an os-release file in lower case names. The families are looked
/// for in this order, so a file that names two belongs to the first.
pub open spec fn distro_of(content: Seq<char>) -> LinuxDistro {
    if text::contains(content, "id=debian"@) || text::contains(content, "id=ubuntu"@)
        || text::contains(content, "id_like=debian"@) || text::contains(
        content,
        "id_like=\"debian"@,
    ) {
        LinuxDistro::Debian
    } else if text::contains(content, "id=fedora"@) || text::contains(content, "id=rhel"@)
        || text::contains(content, "id=centos"@) || text::contains(content, "id_like=fedora"@)
        || text::contains(content, "id_like=\"fedora"@) || text::contains(
        content,
        "id_like=\"rhel"@,
    ) {
        LinuxDistro::Fedora
    } else if text::contains(content, "id=arch"@) || text::contains(content, "id_like=arch"@)
        || text::contains(content, "id_like=\"arch"@) {
        LinuxDistro::Arch
    } else if text::contains(content, "id=alpine"@) {
        LinuxDistro::Alpine
    } else {
        LinuxDistro::Other
    }
}

/// Reads the family off an os-release file in lower case.
pub fn distro_from_lowered(content: &str) -> (r: LinuxDistro)
    ensures
        r == distro_of(content@),
{
    if contains_str(content, "id=debian") || contains_str(content, "id=ubuntu") || contains_str(
        content,
        "id_like=debian",
    ) || contains_str(content, "id_like=\"debian") {
        LinuxDistro::Debian
    } else if contains_str(content, "id=fedora") || contains_str(content, "id=rhel")
        || contains_str(content, "id=centos") || contains_str(content, "id_like=fedora")
        || contains_str(content, "id_like=\"fedora") || contains_str(content, "id_like=\"rhel") {
        LinuxDistro::Fedora
    } else if contains_str(content, "id=arch") || contains_str(content, "id_like=arch")
        || contains_str(content, "id_like=\"arch") {
        LinuxDistro::Arch
    } else if contains_str(content, "id=alpine") {
        LinuxDistro::Alpine
    } else {
        LinuxDistro::Other
    }
}

/// Detect the Linux distribution from the content of /etc/os-release, where there is
/// such a file.
pub fn detect_linux_distro(os_release: Option<&str>) -> (r: LinuxDistro)
    ensures
        r == match os_release {
            Some(content) => distro_of(text::lower(content@)),
            None => LinuxDistro::Other,
        },
{
    match os_release {
        Some(content) => distro_from_lowered(to_lower(content).as_str()),
        None => LinuxDistro::Other,
    }
}

/// The platform of a machine: macOS, Windows, or else Linux.
pub fn detect_platform(macos: bool, windows: bool, os_release: Option<&str>) -> (r: Platform)
    ensures
        macos ==> r == Platform::MacOS,
        !macos && windows ==> r == Platform::Windows,
        !macos && !windows ==> r == Platform::Linux(
            match os_release {
                Some(content) => distro_of(text::lower(content@)),
                None => LinuxDistro::Other,
            },
        ),
{
    if macos {
        Platform::MacOS
    } else if windows {
        Platform::Windows
    } else {
        Platform::Linux(detect_linux_distro(os_release))
    }
}

// ---------------------------------------------------------------------------
// Commands
// ---------------------------------------------------------------------------

/// The command that limits the time of an agent, where there is one.
pub open spec fn timeout_command(available: Seq<Seq<char>>) -> Option<Seq<char>> {
    if text::has_name(available, "timeout"@) {
        Some("timeout"@)
    } else if text::has_name(available, "gtimeout"@) {
        Some("gtimeout"@)
    } else {
        None
    }
}

/// What is said where no command limits the time of an agent.
pub open spec fn no_timeout_message(platform: Platform) -> Seq<char> {
    "Neither `timeout` nor `gtimeout` found.\n"@ + hints::timeout_hint(platform)
}

/// Resolve the `timeout` command among the commands that are available.
///
/// On macOS, `timeout` is not there by default: GNU coreutils bring it as `gtimeout`.
pub fn resolve_timeout_command(platform: &Platform, available: &Vec<String>) -> (r: Result<
    &'static str,
    String,
>)
    ensures
        match r {
            Ok(cmd) => timeout_command(text::strs(available@)) == Some(cmd@),
            Err(message) => timeout_command(text::strs(available@)) is None && message@
                == no_timeout_message(*platform),
        },
{
    if contains_name(available, "timeout") {
        return Ok("timeout");
    }
    if contains_name(available, "gtimeout") {
        return Ok("gtimeout");
    }
    let mut message = own("Neither `timeout` nor `gtimeout` found.\n");
    message.append(hints::hint_for_timeout(*platform));
    Err(message)
}

/// The command that agents are wrapped in, out of `sandbox.command` in the hook
/// configuration: `None` where there is no such text or it is empty.
pub open spec fn sandbox_command(hook_config: Option<Seq<char>>) -> Option<Seq<char>> {
    match hook_config {
        Some(content) => match json_object::text_of(json::inner_at(content, "sandbox"@, "command"@)) {
            Some(command) => if command.len() > 0 {
                Some(command)
            } else {
                None
            },
            None => None,
        },
        None => None,
    }
}

/// Read the `sandbox.command` setting from the hook configuration, if configured.
pub fn read_sandbox_command(hook_config: Option<&str>) -> (r: Option<String>)
    ensures
        text::opt_str(r) == sandbox_command(text::opt_view(hook_config)),
{
    match hook_config {
        Some(content) => match inner_text_at(content, "sandbox", "command") {
            Some(command) => if command.as_str().is_empty() {
                None
            } else {
                Some(command)
            },
            None => None,
        },
        None => None,
    }
}

/// Result of a successful pre-flight check.
pub struct PreflightResult {
    /// The resolved timeout command (`timeout` or `gtimeout`).
    pub timeout_cmd: &'static str,
    /// Optional sandbox wrapper command.
    pub sandbox_command: Option<String>,
}

/// What a launch needs and the machine lacks.
pub open spec fn missing_commands(
    container: ContainerMode,
    verify: VerifyLevel,
    sandbox: Option<Seq<char>>,
    platform: Platform,
    available: Seq<Seq<char>>,
    assistant: Assistant,
) -> Seq<Seq<char>> {
    let a: Seq<Seq<char>> = if timeout_command(available) is None {
        Seq::empty().push(no_timeout_message(platform))
    } else {
        Seq::empty()
    };
    let b = if container == ContainerMode::Local && !text::has_name(available, "tmux"@) {
        a.push(hints::hint("tmux"@, platform, assistant))
    } else {
        a
    };
    let c = if container == ContainerMode::Local && !text::has_name(
        available,
        assistant.program@,
    ) {
        b.push(hints::hint(assistant.program@, platform, assistant))
    } else {
        b
    };
    let d = if (verify == VerifyLevel::Ci || verify == VerifyLevel::Thorough) && !text::has_name(
        available,
        "gh"@,
    ) {
        c.push(hints::hint("gh"@, platform, assistant))
    } else {
        c
    };
    let e = if container == ContainerMode::Docker && !text::has_name(available, "docker"@) {
        d.push(hints::hint("docker"@, platform, assistant))
    } else if container == ContainerMode::Podman && !text::has_name(available, "podman"@) {
        d.push(hints::hint("podman"@, platform, assistant))
    } else {
        d
    };
    match sandbox {
        Some(command) => if text::has_name(available, text::first_word(command)) {
            e
        } else {
            e.push(
                "`"@ + text::first_word(command)
                    + "` (configured in hook-config.json sandbox.command) not found on PATH"@,
            )
        },
        None => e,
    }
}

/// The lines of a list with their numbers.
pub open spec fn numbered(items: Seq<Seq<char>>) -> Seq<Seq<char>> {
    Seq::new(items.len(), |i: int| text::dec((i + 1) as nat) + ". "@ + items[i])
}

/// What is said of missing commands.
pub open spec fn missing_message(missing: Seq<Seq<char>>) -> Seq<char> {
    "Pre-flight check failed — "@ + text::dec(missing.len()) + " missing command"@ + (
    if missing.len() == 1 {
        ""@
    } else {
        "s"@
    }) + ":\n"@ + text::join(numbered(missing), "\n\n"@)
}

fn number_all(items: &Vec<String>) -> (r: Vec<String>)
    requires
        items@.len() < u64::MAX,
    ensures
        text::strs(r@) == numbered(text::strs(items@)),
{
    let ghost all = numbered(text::strs(items@));
    let mut out: Vec<String> = Vec::new();
    let mut i: usize = 0;
    while i < items.len()
        invariant
            i <= items@.len() < u64::MAX,
            all == numbered(text::strs(items@)),
            text::strs(out@) == all.take(i as int),
        decreases items@.len() - i,
    {
        let mut line = dec_u64((i + 1) as u64);
        line.append(". ");
        line.append(items[i].as_str());
        let ghost before = out@;
        out.push(line);
        proof {
            text::lemma_strs_push(before, line);
            assert(all.take(i + 1) =~= all.take(i as int).push(line@));
        }
        i = i + 1;
    }
    assert(all.take(all.len() as int) =~= all);
    out
}

fn missing_text(missing: &Vec<String>) -> (r: String)
    requires
        missing@.len() < u64::MAX,
    ensures
        r@ == missing_message(text::strs(missing@)),
{
    assert(text::strs(missing@).len() == missing@.len());
    let mut out = own("Pre-flight check failed — ");
    out.append(dec_u64(missing.len() as u64).as_str());
    out.append(" missing command");
    out.append(
        if missing.len() == 1 {
            ""
        } else {
            "s"
        },
    );
    out.append(":\n");
    out.append(join_strs(&number_all(missing), "\n\n").as_str());
    out
}

fn push_missing(missing: &mut Vec<String>, message: String)
    ensures
        text::strs(final(missing)@) == text::strs(old(missing)@).push(message@),
        final(missing)@.len() == old(missing)@.len() + 1,
{
    proof {
        text::lemma_strs_push(missing@, message);
    }
    missing.push(message);
}

/// Pre-flight check: verify all required commands are available before creating
/// worktrees, branches, or sessions. The error names every missing command, with
/// instructions to install it.
pub fn preflight_check(
    container: &ContainerMode,
    verify: &VerifyLevel,
    hook_config: Option<&str>,
    platform: &Platform,
    available: &Vec<String>,
    assistant: Assistant,
) -> (r: Result<PreflightResult, String>)
    ensures
        ({
            let sandbox = sandbox_command(text::opt_view(hook_config));
            let missing = missing_commands(
                *container,
                *verify,
                sandbox,
                *platform,
                text::strs(available@),
                assistant,
            );
            match r {
                Ok(found) => missing.len() == 0 && Some(found.timeout_cmd@) == timeout_command(
                    text::strs(available@),
                ) && text::opt_str(found.sandbox_command) == sandbox,
                Err(message) => missing.len() > 0 && message@ == missing_message(missing),
            }
        }),
{
    let mut missing: Vec<String> = Vec::new();
    assert(text::strs(missing@) =~= Seq::<Seq<char>>::empty());
    let timeout_cmd = match resolve_timeout_command(platform, available) {
        Ok(cmd) => cmd,
        Err(e) => {
            push_missing(&mut missing, e);
            "timeout"
        },
    };
    if *container == ContainerMode::Local && !contains_name(available, "tmux") {
        push_missing(&mut missing, install_hint("tmux", platform, assistant));
    }
    if *container == ContainerMode::Local && !contains_name(available, assistant.program) {
        push_missing(&mut missing, install_hint(assistant.program, platform, assistant));
    }
    if (*verify == VerifyLevel::Ci || *verify == VerifyLevel::Thorough) && !contains_name(
        available,
        "gh",
    ) {
        push_missing(&mut missing, install_hint("gh", platform, assistant));
    }
    if *container == ContainerMode::Docker && !contains_name(available, "docker") {
        push_missing(&mut missing, install_hint("docker", platform, assistant));
    } else if *container == ContainerMode::Podman && !contains_name(available, "podman") {
        push_missing(&mut missing, install_hint("podman", platform, assistant));
    }
    let sandbox = read_sandbox_command(hook_config);
    if let Some(command) = &sandbox {
        let binary = first_word_of(command.as_str());
        if !contains_name(available, binary.as_str()) {
            let mut message = own("`");
            message.append(binary.as_str());
            message.append("` (configured in hook-config.json sandbox.command) not found on PATH");
            push_missing(&mut missing, message);
        }
    }
    assert(text::strs(missing@).len() == missing@.len());
    if missing.len() > 0 {
        return Err(missing_text(&missing));
    }
    Ok(PreflightResult { timeout_cmd, sandbox_command: sandbox })
}

/// The commands that a launch may ask for.
pub open spec fn asked_commands(sandbox: Option<Seq<char>>, assistant: Assistant) -> Seq<Seq<char>> {
    let fixed = seq![
        "timeout"@,
        "gtimeout"@,
        "tmux"@,
        "gh"@,
        "docker"@,
        "podman"@,
        assistant.program@,
    ];
    match sandbox {
        Some(command) => fixed.push(text::first_word(command)),
        None => fixed,
    }
}

/// Lists the commands that a launch may ask for: those that have to be looked for before the
/// pre-flight check.
pub fn preflight_commands(hook_config: Option<&str>, assistant: Assistant) -> (r: Vec<String>)
    ensures
        text::strs(r@) == asked_commands(sandbox_command(text::opt_view(hook_config)), assistant),
{
    let words: Vec<&'static str> = vec!["timeout", "gtimeout", "tmux", "gh", "docker", "podman"];
    assert(text::words(words@) =~= seq![
        "timeout"@,
        "gtimeout"@,
        "tmux"@,
        "gh"@,
        "docker"@,
        "podman"@,
    ]);
    let mut r = own_words(&words);
    push_name(&mut r, assistant.program);
    assert(text::strs(r@) =~= asked_commands(None, assistant));
    if let Some(command) = read_sandbox_command(hook_config) {
        push_name(&mut r, first_word_of(command.as_str()).as_str());
    }
    r
}

/// A pre-flight check asks for no other commands: where two machines have the same of these,
/// the same are missing.
pub proof fn law_preflight_asks_for_these(
    container: ContainerMode,
    verify: VerifyLevel,
    sandbox: Option<Seq<char>>,
    platform: Platform,
    here: Seq<Seq<char>>,
    there: Seq<Seq<char>>,
    assistant: Assistant,
)
    requires
        forall|k: int|
            0 <= k < asked_commands(sandbox, assistant).len() ==> text::has_name(
                here,
                #[trigger] asked_commands(sandbox, assistant)[k],
            ) == text::has_name(there, asked_commands(sandbox, assistant)[k]),
    ensures
        timeout_command(here) == timeout_command(there),
        missing_commands(container, verify, sandbox, platform, here, assistant)
            == missing_commands(container, verify, sandbox, platform, there, assistant),
{
    let asked = asked_commands(sandbox, assistant);
    assert(asked[0] == "timeout"@ && asked[1] == "gtimeout"@ && asked[2] == "tmux"@);
    assert(asked[3] == "gh"@ && asked[4] == "docker"@ && asked[5] == "podman"@);
    assert(asked[6] == assistant.program@);
    if let Some(command) = sandbox {
        assert(asked[7] == text::first_word(command));
    }
}

/// A launch in a container needs neither `tmux` nor the assistant on the machine: it passes
/// with a time limit, the runtime and, where checks are watched, `gh`.
pub proof fn law_containers_need_no_session(
    container: ContainerMode,
    verify: VerifyLevel,
    platform: Platform,
    available: Seq<Seq<char>>,
    assistant: Assistant,
)
    requires
        container != ContainerMode::Local,
    ensures
        missing_commands(container, verify, None, platform, available, assistant).len() == 0 <==> (
        timeout_command(available) is Some && text::has_name(
            available,
            if container == ContainerMode::Docker {
                "docker"@
            } else {
                "podman"@
            },
        ) && (verify == VerifyLevel::Local || text::has_name(available, "gh"@))),
{
}

/// Nothing is missing exactly where all is there that the launch needs: a command that limits the
/// time; for a session `tmux` and the assistant, for a container its runtime; `gh` where checks
/// are watched; and the program of the sandbox, where there is one.
pub proof fn law_nothing_missing_where_all_is_there(
    container: ContainerMode,
    verify: VerifyLevel,
    sandbox: Option<Seq<char>>,
    platform: Platform,
    here: Seq<Seq<char>>,
    assistant: Assistant,
)
    ensures
        missing_commands(container, verify, sandbox, platform, here, assistant).len() == 0 <==> {
            &&& text::has_name(here, "timeout"@) || text::has_name(here, "gtimeout"@)
            &&& container == ContainerMode::Local ==> text::has_name(here, "tmux"@)
                && text::has_name(here, assistant.program@)
            &&& container == ContainerMode::Docker ==> text::has_name(here, "docker"@)
            &&& container == ContainerMode::Podman ==> text::has_name(here, "podman"@)
            &&& verify != VerifyLevel::Local ==> text::has_name(here, "gh"@)
            &&& sandbox matches Some(command) ==> text::has_name(here, text::first_word(command))
        },
{
}

/// The time is limited by `timeout` where that is there, and by `gtimeout` only where it is not.
pub proof fn law_timeout_comes_first(here: Seq<Seq<char>>)
    ensures
        text::has_name(here, "timeout"@) ==> timeout_command(here) == Some("timeout"@),
        !text::has_name(here, "timeout"@) && text::has_name(here, "gtimeout"@) ==> timeout_command(
            here,
        ) == Some("gtimeout"@),
        timeout_command(here) is Some ==> text::has_name(here, timeout_command(here)->0),
        !text::has_name(here, "timeout"@) && !text::has_name(here, "gtimeout"@) ==> timeout_command(
            here,
        ) is None,
{
}

/// All that is missing is told, each under its number, and how much it is.
pub proof fn law_all_that_is_missing_is_told(missing: Seq<Seq<char>>, k: int)
    requires
        0 <= k < missing.len(),
    ensures
        text::contains(
            missing_message(missing),
            text::dec((k + 1) as nat) + ". "@ + missing[k],
        ),
        text::contains(missing_message(missing), text::dec(missing.len()) + " missing command"@),
{
    let n = text::dec(missing.len());
    let items = text::join(numbered(missing), "\n\n"@);
    text::law_joined_text_holds_its_parts(numbered(missing), "\n\n"@, k);
    let item = text::dec((k + 1) as nat) + ". "@ + missing[k];
    assert(numbered(missing)[k] == item);
    let plural = if missing.len() == 1 {
        ""@
    } else {
        "s"@
    };
    let head = "Pre-flight check failed — "@ + n + " missing command"@;
    text::lemma_contains_second(head + plural + ":\n"@, items, item);
    let m = n + " missing command"@;
    text::lemma_regroup("Pre-flight check failed — "@, n, " missing command"@, n, n);
    text::lemma_contains_self(m);
    text::lemma_contains_second("Pre-flight check failed — "@, m, m);
    text::lemma_contains_first(head, plural, m);
    text::lemma_contains_first(head + plural, ":\n"@, m);
    text::lemma_contains_first(head + plural + ":\n"@, items, m);
}

/// A distribution is told by what its file says of it or of the family that it is like; a file that
/// names none of them is of another.
pub proof fn law_distributions_are_told(content: Seq<char>)
    ensures
        text::contains(content, "id=ubuntu"@) || text::contains(content, "id=debian"@)
            || text::contains(content, "id_like=debian"@) ==> distro_of(content)
            == LinuxDistro::Debian,
        distro_of(content) != LinuxDistro::Debian && (text::contains(content, "id=fedora"@)
            || text::contains(content, "id=rhel"@) || text::contains(content, "id=centos"@)
            || text::contains(content, "id_like=fedora"@)) ==> distro_of(content)
            == LinuxDistro::Fedora,
        distro_of(content) == LinuxDistro::Arch ==> text::contains(content, "arch"@),
        distro_of(content) == LinuxDistro::Alpine ==> text::contains(content, "id=alpine"@),
        distro_of(content) == LinuxDistro::Debian ==> text::contains(content, "debian"@)
            || text::contains(content, "ubuntu"@),
        distro_of(content) == LinuxDistro::Other && text::contains(content, "id=arch"@) ==> false,
        distro_of(content) == LinuxDistro::Other && text::contains(content, "id=alpine"@) ==> false,
{
    reveal_strlit("arch");
    reveal_strlit("id=arch");
    reveal_strlit("id_like=arch");
    reveal_strlit("id_like=\"arch");
    reveal_strlit("debian");
    reveal_strlit("ubuntu");
    reveal_strlit("id=debian");
    reveal_strlit("id=ubuntu");
    reveal_strlit("id_like=debian");
    reveal_strlit("id_like=\"debian");
    assert("id=arch"@.subrange(3, 7) =~= "arch"@);
    assert(text::occurs_at("id=arch"@, "arch"@, 3));
    assert("id_like=arch"@.subrange(8, 12) =~= "arch"@);
    assert(text::occurs_at("id_like=arch"@, "arch"@, 8));
    assert("id_like=\"arch"@.subrange(9, 13) =~= "arch"@);
    assert(text::occurs_at("id_like=\"arch"@, "arch"@, 9));
    assert("id=debian"@.subrange(3, 9) =~= "debian"@);
    assert(text::occurs_at("id=debian"@, "debian"@, 3));
    assert("id_like=debian"@.subrange(8, 14) =~= "debian"@);
    assert(text::occurs_at("id_like=debian"@, "debian"@, 8));
    assert("id_like=\"debian"@.subrange(9, 15) =~= "debian"@);
    assert(text::occurs_at("id_like=\"debian"@, "debian"@, 9));
    assert("id=ubuntu"@.subrange(3, 9) =~= "ubuntu"@);
    assert(text::occurs_at("id=ubuntu"@, "ubuntu"@, 3));
    if text::contains(content, "id=arch"@) {
        text::lemma_contains_transitive(content, "id=arch"@, "arch"@);
    }
    if text::contains(content, "id_like=arch"@) {
        text::lemma_contains_transitive(content, "id_like=arch"@, "arch"@);
    }
    if text::contains(content, "id_like=\"arch"@) {
        text::lemma_contains_transitive(content, "id_like=\"arch"@, "arch"@);
    }
    if text::contains(content, "id=debian"@) {
        text::lemma_contains_transitive(content, "id=debian"@, "debian"@);
    }
    if text::contains(content, "id_like=debian"@) {
        text::lemma_contains_transitive(content, "id_like=debian"@, "debian"@);
    }
    if text::contains(content, "id_like=\"debian"@) {
        text::lemma_contains_transitive(content, "id_like=\"debian"@, "debian"@);
    }
    if text::contains(content, "id=ubuntu"@) {
        text::lemma_contains_transitive(content, "id=ubuntu"@, "ubuntu"@);
    }
}

/// A sandbox is used exactly where its command is configured and not empty.
pub proof fn law_sandbox_is_what_is_configured(content: Seq<char>)
    ensures
        sandbox_command(None) is None,
        ({
            let configured = json_object::text_of(json::inner_at(content, "sandbox"@, "command"@));
            &&& configured matches Some(c) ==> (c.len() > 0 ==> sandbox_command(Some(content))
                == Some(c))
            &&& sandbox_command(Some(content)) matches Some(c) ==> c.len() > 0 && configured
                == Some(c)
        }),
{
}

/// macOS and Windows are told by what the program was built for; anything else is Linux, of the
/// distribution that its file tells, or of another where there is none.
pub proof fn law_platforms_are_told(
    macos: bool,
    windows: bool,
    os_release: Option<&str>,
    r: Platform,
)
    requires
        call_ensures(detect_platform, (macos, windows, os_release), r),
    ensures
        macos ==> r == Platform::MacOS,
        !macos && windows <==> r == Platform::Windows,
        !macos && !windows <==> r is Linux,
        !macos && !windows && os_release is None ==> r == Platform::Linux(LinuxDistro::Other),
        !macos && !windows ==> (os_release matches Some(c) ==> (text::contains(
            text::lower(c@),
            "id=ubuntu"@,
        ) ==> r == Platform::Linux(LinuxDistro::Debian))),
{
    if let Some(c) = os_release {
        law_distributions_are_told(text::lower(c@));
    }
}

/// A launch may begin exactly where nothing is missing; then it knows the command that limits its
/// time and the sandbox that is configured.
pub proof fn law_launches_begin_where_nothing_is_missing(
    container: &ContainerMode,
    verify: &VerifyLevel,
    hook_config: Option<&str>,
    platform: &Platform,
    available: &Vec<String>,
    assistant: Assistant,
    r: Result<PreflightResult, String>,
)
    requires
        call_ensures(
            preflight_check,
            (container, verify, hook_config, platform, available, assistant),
            r,
        ),
    ensures
        ({
            let here = text::strs(available@);
            let sandbox = sandbox_command(text::opt_view(hook_config));
            &&& r is Ok <==> {
                &&& text::has_name(here, "timeout"@) || text::has_name(here, "gtimeout"@)
                &&& *container == ContainerMode::Local ==> text::has_name(here, "tmux"@)
                    && text::has_name(here, assistant.program@)
                &&& *container == ContainerMode::Docker ==> text::has_name(here, "docker"@)
                &&& *container == ContainerMode::Podman ==> text::has_name(here, "podman"@)
                &&& *verify != VerifyLevel::Local ==> text::has_name(here, "gh"@)
                &&& sandbox matches Some(command) ==> text::has_name(
                    here,
                    text::first_word(command),
                )
            }
            &&& r matches Ok(found) ==> text::has_name(here, found.timeout_cmd@) && text::opt_str(
                found.sandbox_command,
            ) == sandbox
        }),
{
    let here = text::strs(available@);
    let sandbox = sandbox_command(text::opt_view(hook_config));
    law_nothing_missing_where_all_is_there(
        *container,
        *verify,
        sandbox,
        *platform,
        here,
        assistant,
    );
    law_timeout_comes_first(here);
}

} // verus!
