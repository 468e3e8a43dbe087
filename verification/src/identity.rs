//! Who an agent is.

use crate::text;
use crate::text::own;
use vstd::prelude::*;

verus! {

/// The configuration of an agent.
#[derive(Debug, Clone, PartialEq)]
pub struct AgentConfig {
    pub agent_id: String,
    pub machine_id: String,
    pub description: Option<String>,
    pub ssh_key_path: Option<String>,
    pub ssh_fingerprint: Option<String>,
    pub ssh_public_key: Option<String>,
}

/// The model of an agent's configuration.
#[verifier::ext_equal]
pub struct ConfigView {
    pub agent_id: Seq<char>,
    pub machine_id: Seq<char>,
    pub description: Option<Seq<char>>,
    pub ssh_key_path: Option<Seq<char>>,
    pub ssh_fingerprint: Option<Seq<char>>,
    pub ssh_public_key: Option<Seq<char>>,
}

impl View for AgentConfig {
    type V = ConfigView;

    open spec fn view(&self) -> ConfigView {
        ConfigView {
            agent_id: self.agent_id@,
            machine_id: self.machine_id@,
            description: text::opt_str(self.description),
            ssh_key_path: text::opt_str(self.ssh_key_path),
            ssh_fingerprint: text::opt_str(self.ssh_fingerprint),
            ssh_public_key: text::opt_str(self.ssh_public_key),
        }
    }
}

/// A new key pair, as far as it may be told.
#[derive(Debug, Clone, PartialEq)]
pub struct Keypair {
    pub fingerprint: String,
    pub public_key: String,
}

/// The model of a key pair.
#[verifier::ext_equal]
pub struct KeypairView {
    pub fingerprint: Seq<char>,
    pub public_key: Seq<char>,
}

impl View for Keypair {
    type V = KeypairView;

    open spec fn view(&self) -> KeypairView {
        KeypairView { fingerprint: self.fingerprint@, public_key: self.public_key@ }
    }
}

/// A copy of an optional string.
pub fn clone_opt(s: &Option<String>) -> (r: Option<String>)
    ensures
        text::opt_str(r) == text::opt_str(*s),
{
    match s {
        Some(v) => Some(own(v.as_str())),
        None => None,
    }
}

/// A copy of a configuration.
pub fn clone_config(config: &AgentConfig) -> (r: AgentConfig)
    ensures
        r@ == config@,
{
    AgentConfig {
        agent_id: own(config.agent_id.as_str()),
        machine_id: own(config.machine_id.as_str()),
        description: clone_opt(&config.description),
        ssh_key_path: clone_opt(&config.ssh_key_path),
        ssh_fingerprint: clone_opt(&config.ssh_fingerprint),
        ssh_public_key: clone_opt(&config.ssh_public_key),
    }
}

/// Where the key of an agent lies, from the configuration directory.
pub open spec fn key_path(agent_id: Seq<char>) -> Seq<char> {
    "keys/"@ + agent_id + "_ed25519"@
}

/// A configuration with a new key.
pub open spec fn with_key(config: ConfigView, agent_id: Seq<char>, key: KeypairView) -> ConfigView {
    ConfigView {
        ssh_key_path: Some(key_path(agent_id)),
        ssh_fingerprint: Some(key.fingerprint),
        ssh_public_key: Some(key.public_key),
        ..config
    }
}

/// Notes a new key in a configuration.
pub fn add_key(config: &mut AgentConfig, agent_id: &str, key: &Keypair)
    ensures
        final(config)@ == with_key(old(config)@, agent_id@, key@),
{
    let mut path = own("keys/");
    path.append(agent_id);
    path.append("_ed25519");
    config.ssh_key_path = Some(path);
    config.ssh_fingerprint = Some(own(key.fingerprint.as_str()));
    config.ssh_public_key = Some(own(key.public_key.as_str()));
}

/// The configuration of an agent that signs with its parent's key, where the parent
/// has one.
pub open spec fn with_parent_key(child: ConfigView, parent: ConfigView) -> ConfigView {
    match parent.ssh_public_key {
        Some(public_key) => ConfigView {
            ssh_key_path: parent.ssh_key_path,
            ssh_fingerprint: parent.ssh_fingerprint,
            ssh_public_key: Some(public_key),
            ..child
        },
        None => child,
    }
}

/// Lets an agent sign with its parent's key. Whether there was one to take over.
pub fn adopt_key(child: &mut AgentConfig, parent: &AgentConfig) -> (r: bool)
    ensures
        final(child)@ == with_parent_key(old(child)@, parent@),
        r == parent.ssh_public_key is Some,
{
    match &parent.ssh_public_key {
        Some(public_key) => {
            child.ssh_key_path = clone_opt(&parent.ssh_key_path);
            child.ssh_fingerprint = clone_opt(&parent.ssh_fingerprint);
            child.ssh_public_key = Some(own(public_key.as_str()));
            true
        },
        None => false,
    }
}

/// An agent that takes over a key keeps its name, and its configuration names the
/// same key as the parent's.
pub proof fn law_adopted_key_is_the_parents(child: ConfigView, parent: ConfigView)
    requires
        parent.ssh_public_key is Some,
    ensures
        with_parent_key(child, parent).ssh_public_key == parent.ssh_public_key,
        with_parent_key(child, parent).ssh_key_path == parent.ssh_key_path,
        with_parent_key(child, parent).ssh_fingerprint == parent.ssh_fingerprint,
        with_parent_key(child, parent).agent_id == child.agent_id,
        with_parent_key(with_parent_key(child, parent), parent) == with_parent_key(child, parent),
{
}

/// A new key is noted with its fingerprint and its public part, under the name of the agent, and
/// changes nothing else; an agent whose parent has no key stays as it is.
pub proof fn law_new_keys_are_noted(config: ConfigView, agent_id: Seq<char>, key: KeypairView, parent: ConfigView)
    ensures
        ({
            let c = with_key(config, agent_id, key);
            &&& c.agent_id == config.agent_id && c.machine_id == config.machine_id && c.description
                == config.description
            &&& c.ssh_public_key == Some(key.public_key) && c.ssh_fingerprint == Some(
                key.fingerprint,
            )
            &&& c.ssh_key_path matches Some(p) && text::contains(p, agent_id) && text::has_prefix(
                p,
                "keys/"@,
            )
        }),
        parent.ssh_public_key is None ==> with_parent_key(config, parent) == config,
{
    broadcast use {text::lemma_contains_self, text::lemma_contains_first, text::lemma_contains_second};

    text::lemma_regroup("keys/"@, agent_id, "_ed25519"@, agent_id, agent_id);
    text::lemma_prefix_of_sum("keys/"@, agent_id + "_ed25519"@);
}

} // verus!
