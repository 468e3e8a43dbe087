//! Configuring agents, and letting them join a hub.

use crosslink::chainlink;
use crosslink::commands::agent::bootstrap::{begin, Action, Bootstrap, BootstrapOpts, Event, Stage};
use crosslink::commands::agent::{
    finish_init, init, needs_identity, publish_warning, run, status, AgentCommands, AgentTask,
    Existing, KeyOutcome,
};
use crosslink::identity::{adopt_key, AgentConfig, Keypair};

fn config(agent_id: &str, description: Option<&str>) -> AgentConfig {
    AgentConfig {
        agent_id: agent_id.to_string(),
        machine_id: "host".to_string(),
        description: description.map(|d| d.to_string()),
        ssh_key_path: None,
        ssh_fingerprint: None,
        ssh_public_key: None,
    }
}

fn opts<'a>(repo_url: &'a str, agent_id: &'a str, description: Option<&'a str>) -> BootstrapOpts<'a> {
    BootstrapOpts { target_dir: "cloned", repo_url, agent_id, branch: None, description, no_key: true }
}

#[test]
fn test_init_force_overwrites_valid_config() {
    let say = init(&Existing::Configured, true).unwrap().unwrap();
    assert!(say.contains("Overwriting existing agent configuration"));
    let mut written = config("worker-2", Some("New agent"));
    let out = finish_init(&mut written, "worker-2", &KeyOutcome::Skipped);
    assert_eq!(written.agent_id, "worker-2");
    assert_eq!(written.description, Some("New agent".to_string()));
    assert!(out.contains("worker-2"));
}

#[test]
fn test_init_overwrites_malformed_json() {
    let existing = Existing::Malformed("expected ident at line 1 column 2".to_string());
    let say = init(&existing, false).unwrap().unwrap();
    assert!(say.contains("malformed (expected ident at line 1 column 2)"));
}

#[test]
fn a_configured_agent_is_not_overwritten_without_force() {
    let result = init(&Existing::Configured, false);
    assert!(result.unwrap_err().contains("already configured"));
    assert!(init(&Existing::Nothing, false).unwrap().is_none());
    assert!(chainlink::may_init(true).unwrap_err().contains("already configured"));
    assert!(chainlink::may_init(false).is_ok());
}

#[test]
fn a_new_key_is_noted_in_the_configuration() {
    let mut written = config("worker-1", None);
    let key = Keypair {
        fingerprint: "SHA256:abc".to_string(),
        public_key: "ssh-ed25519 AAAA".to_string(),
    };
    let out = finish_init(&mut written, "worker-1", &KeyOutcome::Made(key, Some("offline".to_string())));
    assert_eq!(written.ssh_fingerprint.as_deref(), Some("SHA256:abc"));
    assert_eq!(written.ssh_public_key.as_deref(), Some("ssh-ed25519 AAAA"));
    assert!(written.ssh_key_path.is_some());
    assert!(out.contains("  SSH key: SHA256:abc\n"));
    assert!(out.contains("Could not publish key to hub: offline"));

    let mut unsigned = config("worker-1", None);
    let out = finish_init(&mut unsigned, "worker-1", &KeyOutcome::Failed("no ssh".to_string()));
    assert!(unsigned.ssh_key_path.is_none());
    assert!(out.contains("Could not generate SSH key: no ssh"));
}

#[test]
fn the_status_names_the_agent() {
    assert!(status(None, None).contains("No agent configured"));
    assert!(chainlink::status(None, None).contains("chainlink agent init"));
    let c = config("my-agent", Some("My agent"));
    let out = status(Some(&c), Some(&vec!["#4".to_string()]));
    assert!(out.starts_with("Agent: my-agent\nMachine: host\nDescription: My agent\n"));
    assert!(out.contains("signing disabled"));
    assert!(out.contains("#4"));
    assert!(!chainlink::status(Some(&c), None).contains("SSH key"));
    assert!(chainlink::init(&c).contains("  Description: My agent\n"));
}

#[test]
fn test_bootstrap_creates_crosslink_dir() {
    let o = opts("origin.git", "bot-001", Some("test bootstrap"));
    let mut b: Bootstrap = begin();
    let (_, a) = b.advance(&o, Event::TargetEmpty(true));
    assert!(matches!(a, Action::Clone(url, target) if url == "origin.git" && target == "cloned"));
    let (_, a) = b.advance(&o, Event::Cloned(Ok(())));
    assert!(matches!(a, Action::LoadConfig(dir) if dir == "cloned/.crosslink"));
    let (_, a) = b.advance(&o, Event::Loaded(None));
    match a {
        Action::InitIdentity(id, description) => {
            assert_eq!(id, "bot-001");
            assert_eq!(description, Some("test bootstrap".to_string()));
        }
        _ => panic!("expected an identity"),
    }
    let (_, a) = b.advance(&o, Event::Loaded(Some(config("bot-001", Some("test bootstrap")))));
    assert!(matches!(a, Action::PrepareHub(_)));
    let (_, a) = b.advance(&o, Event::Ready);
    assert!(matches!(a, Action::WriteHeartbeat(dir) if dir == "agents/bot-001"));
    let (_, a) = b.advance(&o, Event::Ready);
    assert!(matches!(a, Action::RunGit(args) if args == vec!["add", "agents/bot-001/"]));
    let (_, a) = b.advance(&o, Event::Git(Ok(())));
    assert!(matches!(a, Action::RunGit(args) if args == vec![
        "commit",
        "-m",
        "bootstrap: register agent 'bot-001'",
    ]));
    let (_, a) = b.advance(&o, Event::Git(Err("nothing to commit, working tree clean".to_string())));
    assert!(matches!(a, Action::Publish(None)));
    let (say, a) = b.advance(&o, Event::Published(Ok(())));
    assert!(matches!(a, Action::Finish));
    assert!(say.contains("crosslink trust approve bot-001"));
    assert_eq!(b.stage, Stage::Done);
}

#[test]
fn test_bootstrap_existing_agent_skips() {
    let o = opts("origin.git", "bot-002", Some("second"));
    let mut b = begin();
    b.advance(&o, Event::TargetEmpty(false));
    b.advance(&o, Event::Origin(Some("origin.git\n".to_string())));
    let (say, a) = b.advance(&o, Event::Loaded(Some(config("bot-002", Some("first")))));
    assert!(say.contains("already configured"));
    assert!(matches!(a, Action::PrepareHub(_)));
    // Config should still have the first description
    assert_eq!(b.config.unwrap().description, Some("first".to_string()));
}

#[test]
fn test_bootstrap_verifies_remote() {
    let o = opts("https://example.com/wrong-repo.git", "bot-003", None);
    let mut b = begin();
    b.advance(&o, Event::TargetEmpty(false));
    let (_, a) = b.advance(&o, Event::Origin(Some("origin.git\n".to_string())));
    match a {
        Action::Fail(message) => assert!(
            message.contains("Remote mismatch"),
            "Unexpected error: {}",
            message
        ),
        _ => panic!("expected a failure"),
    }
}

#[test]
fn a_git_failure_lists_the_arguments() {
    let o = opts("origin.git", "bot-004", None);
    let mut b = begin();
    b.advance(&o, Event::TargetEmpty(false));
    b.advance(&o, Event::Origin(Some("origin.git".to_string())));
    b.advance(&o, Event::Loaded(Some(config("bot-004", None))));
    b.advance(&o, Event::Ready);
    b.advance(&o, Event::Ready);
    let (_, a) = b.advance(&o, Event::Git(Err("fatal: no index\n".to_string())));
    match a {
        Action::Fail(message) => {
            assert_eq!(message, "git [\"add\", \"agents/bot-004/\"] failed: fatal: no index")
        }
        _ => panic!("expected a failure"),
    }
}

#[test]
fn a_failed_clone_ends_the_bootstrap() {
    let o = opts("origin.git", "bot-005", None);
    let mut b = begin();
    b.advance(&o, Event::TargetEmpty(true));
    let (_, a) = b.advance(&o, Event::Cloned(Err(" not found \n".to_string())));
    assert!(matches!(a, Action::Fail(message) if message == "git clone failed: not found"));
}

#[test]
fn a_child_adopts_the_key_of_its_parent() {
    let mut parent = config("parent", None);
    parent.ssh_key_path = Some("keys/parent_ed25519".to_string());
    parent.ssh_fingerprint = Some("SHA256:p".to_string());
    parent.ssh_public_key = Some("ssh-ed25519 P".to_string());
    let mut child = config("parent--child", None);
    assert!(adopt_key(&mut child, &parent));
    assert_eq!(child.ssh_fingerprint, parent.ssh_fingerprint);
    assert_eq!(child.agent_id, "parent--child");
    assert!(!adopt_key(&mut child, &config("keyless", None)));
}

#[test]
fn commands_are_dispatched() {
    let task = run(
        &AgentCommands::Init {
            agent_id: "a".to_string(),
            description: None,
            no_key: true,
            force: false,
        },
        ".crosslink",
    );
    assert!(matches!(task, AgentTask::Init { dir } if dir == ".crosslink"));
    assert!(needs_identity(true, false));
    assert!(!needs_identity(true, true));
    assert!(publish_warning("a", "offline").contains("offline"));
}
