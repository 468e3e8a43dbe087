//! Platforms, and how commands are installed on them.

use crosslink::assistant::Assistant;
use crosslink::commands::kickoff::hints::install_hint;
use crosslink::commands::kickoff::platform::{
    detect_platform, preflight_commands, LinuxDistro, Platform,
};

const ASSISTANT: Assistant<'static> = Assistant {
    program: "assistant",
    title: "The Assistant",
    brew_package: "assistant-cli",
    npm_package: "@example/assistant-cli",
    session_variable: "ASSISTANT_SESSION",
    dir: ".assistant",
    guide: "ASSISTANT.md",
};

#[test]
fn test_detect_platform_returns_valid_variant() {
    let platform = detect_platform(false, false, None);
    // On any platform, detect_platform should return a valid variant
    match platform {
        Platform::MacOS | Platform::Windows | Platform::Linux(_) => {}
    }
}

#[test]
fn a_launch_asks_for_its_commands() {
    let plain = preflight_commands(None, ASSISTANT);
    assert_eq!(
        plain,
        vec!["timeout", "gtimeout", "tmux", "gh", "docker", "podman", "assistant"]
    );
    let config = "{\"sandbox\": {\"command\": \" bwrap --ro-bind / / {{command}}\"}}";
    let wrapped = preflight_commands(Some(config), ASSISTANT);
    assert_eq!(wrapped.len(), 8);
    assert_eq!(wrapped[7], "bwrap");
    let empty = preflight_commands(Some("{\"sandbox\": {\"command\": \"\"}}"), ASSISTANT);
    assert_eq!(empty, plain);
}

#[test]
fn test_install_hint_timeout_macos() {
    let hint = install_hint("timeout", &Platform::MacOS, ASSISTANT);
    assert!(hint.contains("brew install coreutils"));
    assert!(hint.contains("gtimeout"));
}

#[test]
fn test_install_hint_timeout_debian() {
    let hint = install_hint("timeout", &Platform::Linux(LinuxDistro::Debian), ASSISTANT);
    assert!(hint.contains("sudo apt install coreutils"));
}

#[test]
fn test_install_hint_timeout_fedora() {
    let hint = install_hint("timeout", &Platform::Linux(LinuxDistro::Fedora), ASSISTANT);
    assert!(hint.contains("sudo dnf install coreutils"));
}

#[test]
fn test_install_hint_timeout_arch() {
    let hint = install_hint("timeout", &Platform::Linux(LinuxDistro::Arch), ASSISTANT);
    assert!(hint.contains("sudo pacman -S coreutils"));
}

#[test]
fn test_install_hint_tmux_macos() {
    let hint = install_hint("tmux", &Platform::MacOS, ASSISTANT);
    assert!(hint.contains("brew install tmux"));
    assert!(hint.contains("--container docker"));
}

#[test]
fn test_install_hint_tmux_debian() {
    let hint = install_hint("tmux", &Platform::Linux(LinuxDistro::Debian), ASSISTANT);
    assert!(hint.contains("sudo apt install tmux"));
}

#[test]
fn test_install_hint_tmux_windows() {
    let hint = install_hint("tmux", &Platform::Windows, ASSISTANT);
    assert!(hint.contains("not available on Windows"));
    assert!(hint.contains("--container docker"));
}

#[test]
fn test_install_hint_claude_macos() {
    let hint = install_hint("assistant", &Platform::MacOS, ASSISTANT);
    assert!(hint.contains("brew install assistant-cli"));
    assert!(hint.contains("npm install"));
}

#[test]
fn test_install_hint_claude_linux() {
    let hint = install_hint("assistant", &Platform::Linux(LinuxDistro::Other), ASSISTANT);
    assert!(hint.contains("npm install -g @example/assistant-cli"));
}

#[test]
fn test_install_hint_gh_macos() {
    let hint = install_hint("gh", &Platform::MacOS, ASSISTANT);
    assert!(hint.contains("brew install gh"));
}

#[test]
fn test_install_hint_gh_debian() {
    let hint = install_hint("gh", &Platform::Linux(LinuxDistro::Debian), ASSISTANT);
    assert!(hint.contains("sudo apt"));
    assert!(hint.contains("githubcli"));
}

#[test]
fn test_install_hint_gh_windows() {
    let hint = install_hint("gh", &Platform::Windows, ASSISTANT);
    assert!(hint.contains("winget install"));
}

#[test]
fn test_install_hint_docker_macos() {
    let hint = install_hint("docker", &Platform::MacOS, ASSISTANT);
    assert!(hint.contains("brew install --cask docker"));
    assert!(hint.contains("--container none"));
}

#[test]
fn test_install_hint_docker_debian() {
    let hint = install_hint("docker", &Platform::Linux(LinuxDistro::Debian), ASSISTANT);
    assert!(hint.contains("get.docker.com"));
    assert!(hint.contains("usermod"));
}

#[test]
fn test_install_hint_podman_macos() {
    let hint = install_hint("podman", &Platform::MacOS, ASSISTANT);
    assert!(hint.contains("brew install podman"));
}

#[test]
fn test_install_hint_podman_fedora() {
    let hint = install_hint("podman", &Platform::Linux(LinuxDistro::Fedora), ASSISTANT);
    assert!(hint.contains("sudo dnf install podman"));
}

#[test]
fn test_install_hint_podman_windows() {
    let hint = install_hint("podman", &Platform::Windows, ASSISTANT);
    assert!(hint.contains("winget install RedHat.Podman"));
}

#[test]
fn test_install_hint_unknown_command() {
    let hint = install_hint("unknown_tool", &Platform::MacOS, ASSISTANT);
    assert!(hint.contains("unknown_tool"));
    assert!(hint.contains("package manager"));
}
