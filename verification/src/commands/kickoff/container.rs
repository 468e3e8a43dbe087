//! The container that an agent runs in.

use crate::commands::kickoff::options::ContainerMode;
use crate::text;
use crate::text::{dec_u64, own};
use vstd::prelude::*;

verus! {

/// The command of a container runtime.
pub open spec fn runtime(container: ContainerMode) -> Seq<char> {
    if container == ContainerMode::Docker {
        "docker"@
    } else {
        "podman"@
    }
}

/// The command of a container runtime.
pub fn runtime_name(container: ContainerMode) -> (r: &'static str)
    requires
        container != ContainerMode::Local,
    ensures
        r@ == runtime(container),
{
    if container == ContainerMode::Docker {
        "docker"
    } else {
        "podman"
    }
}

/// What a container runs.
pub open spec fn agent_script(
    timeout_secs: nat,
    model: Seq<char>,
    tools: Seq<char>,
    program: Seq<char>,
) -> Seq<char> {
    "cd /workspaces/repo && timeout "@ + text::dec(timeout_secs) + "s "@ + program + " --model "@
        + model + " --allowedTools '"@ + tools + "' -- \"$(cat KICKOFF.md)\""@
}

/// Builds what a container runs.
pub fn build_agent_script(timeout_secs: u64, model: &str, tools: &str, program: &str) -> (out:
    String)
    ensures
        out@ == agent_script(timeout_secs as nat, model@, tools@, program@),
{
    let mut out = own("cd /workspaces/repo && timeout ");
    out.append(dec_u64(timeout_secs).as_str());
    out.append("s ");
    out.append(program);
    out.append(" --model ");
    out.append(model);
    out.append(" --allowedTools '");
    out.append(tools);
    out.append("' -- \"$(cat KICKOFF.md)\"");
    out
}

/// A value, or what stands for it where it is not known.
pub open spec fn known_or(value: Option<Seq<char>>, otherwise: Seq<char>) -> Seq<char> {
    match value {
        Some(v) => v,
        None => otherwise,
    }
}

/// The arguments of the runtime: a container named after the agent, with the worktree
/// and the assistant's settings mounted, that runs the script in the image.
pub open spec fn run_args(
    worktree: Seq<char>,
    image: Seq<char>,
    agent_id: Seq<char>,
    script: Seq<char>,
    settings: Seq<char>,
    home: Option<Seq<char>>,
    uid: Option<Seq<char>>,
    gid: Option<Seq<char>>,
) -> Seq<Seq<char>> {
    seq![
        "run"@,
        "-d"@,
        "--name"@,
        "crosslink-agent-"@ + agent_id,
        "-v"@,
        worktree + ":/workspaces/repo"@,
        "-v"@,
        known_or(home, "/root"@) + "/"@ + settings + ":/host-auth:ro"@,
        "-e"@,
        "AGENT_ID="@ + agent_id,
        "-e"@,
        "HOST_UID="@ + known_or(uid, "1000"@),
        "-e"@,
        "HOST_GID="@ + known_or(gid, "1000"@),
        image,
        "bash"@,
        "-c"@,
        script,
    ]
}

fn or_else(value: Option<String>, otherwise: &str) -> (r: String)
    ensures
        r@ == known_or(text::opt_str(value), otherwise@),
{
    match value {
        Some(v) => v,
        None => own(otherwise),
    }
}

fn two(a: &str, b: &str) -> (r: String)
    ensures
        r@ == a@ + b@,
{
    let mut out = own(a);
    out.append(b);
    out
}

/// Builds the arguments of the runtime. Where the home directory is not known it is
/// that of the superuser; where the user and group are not known they are 1000.
pub fn container_args(
    worktree: &str,
    image: &str,
    agent_id: &str,
    script: String,
    settings: &str,
    home: Option<String>,
    uid: Option<String>,
    gid: Option<String>,
) -> (args: Vec<String>)
    ensures
        text::strs(args@) == run_args(
            worktree@,
            image@,
            agent_id@,
            script@,
            settings@,
            text::opt_str(home),
            text::opt_str(uid),
            text::opt_str(gid),
        ),
{
    let mut auth = two(or_else(home, "/root").as_str(), "/");
    auth.append(settings);
    let args = vec![
        own("run"),
        own("-d"),
        own("--name"),
        two("crosslink-agent-", agent_id),
        own("-v"),
        two(worktree, ":/workspaces/repo"),
        own("-v"),
        two(auth.as_str(), ":/host-auth:ro"),
        own("-e"),
        two("AGENT_ID=", agent_id),
        own("-e"),
        two("HOST_UID=", or_else(uid, "1000").as_str()),
        own("-e"),
        two("HOST_GID=", or_else(gid, "1000").as_str()),
        own(image),
        own("bash"),
        own("-c"),
        script,
    ];
    args
}

/// Each mode has the runtime of its name.
pub proof fn law_modes_have_their_runtime()
    ensures
        runtime(ContainerMode::Docker) == "docker"@,
        runtime(ContainerMode::Podman) == "podman"@,
{
}

/// A container is named after its agent and detached, sees the worktree, has the settings of the
/// assistant read-only, is told agent, user and group, and runs the script in the image.
pub proof fn law_containers_run_the_agent(
    worktree: Seq<char>,
    image: Seq<char>,
    agent_id: Seq<char>,
    script: Seq<char>,
    settings: Seq<char>,
    home: Option<Seq<char>>,
    uid: Option<Seq<char>>,
    gid: Option<Seq<char>>,
)
    ensures
        ({
            let args = run_args(worktree, image, agent_id, script, settings, home, uid, gid);
            let n = args.len() as int;
            &&& args[0] == "run"@ && args[1] == "-d"@
            &&& exists|i: int|
                0 <= i < n - 5 && #[trigger] args[i] == "--name"@ && args[i + 1]
                    == "crosslink-agent-"@ + agent_id
            &&& exists|i: int|
                0 <= i < n - 5 && #[trigger] args[i] == "-v"@ && args[i + 1] == worktree
                    + ":/workspaces/repo"@
            &&& home matches Some(h) ==> exists|i: int|
                0 <= i < n - 5 && #[trigger] args[i] == "-v"@ && args[i + 1] == h + "/"@ + settings
                    + ":/host-auth:ro"@
            &&& exists|i: int|
                0 <= i < n - 5 && #[trigger] args[i] == "-e"@ && args[i + 1] == "AGENT_ID="@
                    + agent_id
            &&& uid matches Some(u) ==> exists|i: int|
                0 <= i < n - 5 && #[trigger] args[i] == "-e"@ && args[i + 1] == "HOST_UID="@ + u
            &&& gid matches Some(g) ==> exists|i: int|
                0 <= i < n - 5 && #[trigger] args[i] == "-e"@ && args[i + 1] == "HOST_GID="@ + g
            &&& args[n - 4] == image && args[n - 3] == "bash"@ && args[n - 2] == "-c"@ && args[n - 1]
                == script
        }),
{
    let args = run_args(worktree, image, agent_id, script, settings, home, uid, gid);
    assert(args[2] == "--name"@ && args[3] == "crosslink-agent-"@ + agent_id);
    assert(args[4] == "-v"@ && args[5] == worktree + ":/workspaces/repo"@);
    assert(args[6] == "-v"@);
    assert(args[8] == "-e"@ && args[9] == "AGENT_ID="@ + agent_id);
    assert(args[10] == "-e"@);
    assert(args[12] == "-e"@);
}

/// The script in a container keeps to the time limit, the model and the tools, and starts from
/// the prompt.
pub proof fn law_container_script_runs_as_asked(
    secs: nat,
    model: Seq<char>,
    tools: Seq<char>,
    program: Seq<char>,
)
    ensures
        ({
            let s = agent_script(secs, model, tools, program);
            &&& text::contains(s, "timeout "@ + text::dec(secs) + "s "@ + program)
            &&& text::contains(s, " --model "@ + model + " --allowedTools '"@ + tools + "'"@)
            &&& text::has_suffix(s, "\"$(cat KICKOFF.md)\""@)
        }),
{
    reveal_strlit("cd /workspaces/repo && timeout ");
    reveal_strlit("cd /workspaces/repo && ");
    reveal_strlit("timeout ");
    reveal_strlit("' -- \"$(cat KICKOFF.md)\"");
    reveal_strlit("'");
    reveal_strlit(" -- ");
    reveal_strlit("\"$(cat KICKOFF.md)\"");
    assert("cd /workspaces/repo && timeout "@ =~= "cd /workspaces/repo && "@ + "timeout "@);
    assert("' -- \"$(cat KICKOFF.md)\""@ =~= "'"@ + " -- "@ + "\"$(cat KICKOFF.md)\""@);
    let a = "cd /workspaces/repo && "@;
    let b = "timeout "@ + text::dec(secs) + "s "@ + program;
    let c = " --model "@ + model + " --allowedTools '"@ + tools + "'"@;
    let d = "\"$(cat KICKOFF.md)\""@;
    let s = agent_script(secs, model, tools, program);
    assert(s =~= a + b + c + " -- "@ + d);
    text::lemma_suffix_of_sum(a + b + c + " -- "@, d);
    text::lemma_contains_self(b);
    text::lemma_contains_self(c);
    text::lemma_contains_second(a, b, b);
    text::lemma_contains_first(a + b, c, b);
    text::lemma_contains_first(a + b + c, " -- "@, b);
    text::lemma_contains_first(a + b + c + " -- "@, d, b);
    text::lemma_contains_second(a + b, c, c);
    text::lemma_contains_first(a + b + c, " -- "@, c);
    text::lemma_contains_first(a + b + c + " -- "@, d, c);
}

} // verus!
