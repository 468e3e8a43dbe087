//! How to install what a launch needs.

use crate::assistant::Assistant;
use crate::commands::kickoff::platform::{LinuxDistro, Platform};
use crate::text;
use crate::text::{eq_str, own};
use vstd::prelude::*;

verus! {

pub const TIMEOUT_ON_MACOS: &'static str = "On macOS, install GNU coreutils:\n\n  brew install coreutils\n\nThis provides `gtimeout` which crosslink will use automatically.";

pub const TIMEOUT_ON_DEBIAN: &'static str = "Install coreutils (provides `timeout`):\n\n  sudo apt install coreutils";

pub const TIMEOUT_ON_FEDORA: &'static str = "Install coreutils (provides `timeout`):\n\n  sudo dnf install coreutils";

pub const TIMEOUT_ON_ARCH: &'static str = "Install coreutils (provides `timeout`):\n\n  sudo pacman -S coreutils";

pub const TIMEOUT_ON_ALPINE: &'static str = "Install coreutils (provides `timeout`):\n\n  apk add coreutils";

pub const TIMEOUT_ON_OTHER: &'static str = "Install GNU coreutils to get the `timeout` command.\nUse your distribution's package manager (e.g. apt, dnf, pacman).";

pub const TIMEOUT_ON_WINDOWS: &'static str = "Install GNU coreutils via scoop or chocolatey:\n\n  scoop install coreutils\n  choco install gnuwin32-coreutils.install";

pub const TMUX_ON_MACOS: &'static str = "`tmux` is not installed.\n\n  brew install tmux\n\nAlternatively, use --container docker to avoid tmux.";

pub const TMUX_ON_DEBIAN: &'static str = "`tmux` is not installed.\n\n  sudo apt install tmux\n\nAlternatively, use --container docker to avoid tmux.";

pub const TMUX_ON_FEDORA: &'static str = "`tmux` is not installed.\n\n  sudo dnf install tmux\n\nAlternatively, use --container docker to avoid tmux.";

pub const TMUX_ON_ARCH: &'static str = "`tmux` is not installed.\n\n  sudo pacman -S tmux\n\nAlternatively, use --container docker to avoid tmux.";

pub const TMUX_ON_ALPINE: &'static str = "`tmux` is not installed.\n\n  apk add tmux\n\nAlternatively, use --container docker to avoid tmux.";

pub const TMUX_ON_OTHER: &'static str = "`tmux` is not installed.\nInstall with your distribution's package manager (e.g. apt, dnf, pacman).\n\nAlternatively, use --container docker to avoid tmux.";

pub const TMUX_ON_WINDOWS: &'static str = "`tmux` is not available on Windows.\nUse --container docker instead for containerized agent mode.";

pub const GH_ON_MACOS: &'static str = "`gh` (GitHub CLI) is required for --verify ci/thorough.\n\n  brew install gh";

pub const GH_ON_DEBIAN: &'static str = "`gh` (GitHub CLI) is required for --verify ci/thorough.\n\nInstall via apt (official repo):\n\n  sudo mkdir -p /etc/apt/keyrings\n  curl -fsSL https://cli.github.com/packages/githubcli-archive-keyring.gpg | sudo tee /etc/apt/keyrings/githubcli-archive-keyring.gpg > /dev/null\n  echo \"deb [arch=$(dpkg --print-architecture) signed-by=/etc/apt/keyrings/githubcli-archive-keyring.gpg] https://cli.github.com/packages stable main\" | sudo tee /etc/apt/sources.list.d/github-cli.list > /dev/null\n  sudo apt update && sudo apt install gh\n\nOr install a single binary from: https://cli.github.com";

pub const GH_ON_FEDORA: &'static str = "`gh` (GitHub CLI) is required for --verify ci/thorough.\n\n  sudo dnf install gh";

pub const GH_ON_ARCH: &'static str = "`gh` (GitHub CLI) is required for --verify ci/thorough.\n\n  sudo pacman -S github-cli";

pub const GH_ON_ALPINE: &'static str = "`gh` (GitHub CLI) is required for --verify ci/thorough.\n\n  apk add github-cli";

pub const GH_ON_OTHER: &'static str = "`gh` (GitHub CLI) is required for --verify ci/thorough.\nInstall from: https://cli.github.com";

pub const GH_ON_WINDOWS: &'static str = "`gh` (GitHub CLI) is required for --verify ci/thorough.\n\n  winget install GitHub.cli\n\nOr: scoop install gh";

pub const DOCKER_ON_MACOS: &'static str = "`docker` is not installed.\n\n  brew install --cask docker\n\nOr install Docker Desktop from: https://docs.docker.com/get-docker/\n\nAlternatively, use --container none for local mode.";

pub const DOCKER_ON_DEBIAN: &'static str = "`docker` is not installed.\n\nInstall Docker Engine:\n\n  curl -fsSL https://get.docker.com | sh\n  sudo usermod -aG docker $USER\n\nOr see: https://docs.docker.com/engine/install/\n\nAlternatively, use --container none for local mode.";

pub const DOCKER_ON_FEDORA: &'static str = "`docker` is not installed.\n\n  sudo dnf install docker-ce docker-ce-cli containerd.io\n\nOr: curl -fsSL https://get.docker.com | sh\n\nAlternatively, use --container none for local mode.";

pub const DOCKER_ON_ARCH: &'static str = "`docker` is not installed.\n\n  sudo pacman -S docker\n  sudo systemctl enable --now docker\n\nAlternatively, use --container none for local mode.";

pub const DOCKER_ON_ALPINE: &'static str = "`docker` is not installed.\n\n  apk add docker\n  rc-update add docker default\n  service docker start\n\nAlternatively, use --container none for local mode.";

pub const DOCKER_ON_OTHER: &'static str = "`docker` is not installed.\nInstall from: https://docs.docker.com/get-docker/\n\nAlternatively, use --container none for local mode.";

pub const PODMAN_ON_MACOS: &'static str = "`podman` is not installed.\n\n  brew install podman\n\nAlternatively, use --container none for local mode.";

pub const PODMAN_ON_DEBIAN: &'static str = "`podman` is not installed.\n\n  sudo apt install podman\n\nAlternatively, use --container none for local mode.";

pub const PODMAN_ON_FEDORA: &'static str = "`podman` is not installed.\n\n  sudo dnf install podman\n\nAlternatively, use --container none for local mode.";

pub const PODMAN_ON_ARCH: &'static str = "`podman` is not installed.\n\n  sudo pacman -S podman\n\nAlternatively, use --container none for local mode.";

pub const PODMAN_ON_ALPINE: &'static str = "`podman` is not installed.\n\n  apk add podman\n\nAlternatively, use --container none for local mode.";

pub const PODMAN_ON_OTHER: &'static str = "`podman` is not installed.\nInstall from: https://podman.io/getting-started/installation\n\nAlternatively, use --container none for local mode.";

pub const PODMAN_ON_WINDOWS: &'static str = "`podman` is not installed.\n\n  winget install RedHat.Podman\n\nAlternatively, use --container none for local mode.";

/// How to install `timeout`.
pub open spec fn timeout_hint(platform: Platform) -> Seq<char> {
    match platform {
        Platform::MacOS => TIMEOUT_ON_MACOS@,
        Platform::Linux(LinuxDistro::Debian) => TIMEOUT_ON_DEBIAN@,
        Platform::Linux(LinuxDistro::Fedora) => TIMEOUT_ON_FEDORA@,
        Platform::Linux(LinuxDistro::Arch) => TIMEOUT_ON_ARCH@,
        Platform::Linux(LinuxDistro::Alpine) => TIMEOUT_ON_ALPINE@,
        Platform::Linux(LinuxDistro::Other) => TIMEOUT_ON_OTHER@,
        Platform::Windows => TIMEOUT_ON_WINDOWS@,
    }
}

/// How to install `timeout`.
pub fn hint_for_timeout(platform: Platform) -> (r: &'static str)
    ensures
        r@ == timeout_hint(platform),
{
    match platform {
        Platform::MacOS => TIMEOUT_ON_MACOS,
        Platform::Linux(LinuxDistro::Debian) => TIMEOUT_ON_DEBIAN,
        Platform::Linux(LinuxDistro::Fedora) => TIMEOUT_ON_FEDORA,
        Platform::Linux(LinuxDistro::Arch) => TIMEOUT_ON_ARCH,
        Platform::Linux(LinuxDistro::Alpine) => TIMEOUT_ON_ALPINE,
        Platform::Linux(LinuxDistro::Other) => TIMEOUT_ON_OTHER,
        Platform::Windows => TIMEOUT_ON_WINDOWS,
    }
}

/// How to install `tmux`.
pub open spec fn tmux_hint(platform: Platform) -> Seq<char> {
    match platform {
        Platform::MacOS => TMUX_ON_MACOS@,
        Platform::Linux(LinuxDistro::Debian) => TMUX_ON_DEBIAN@,
        Platform::Linux(LinuxDistro::Fedora) => TMUX_ON_FEDORA@,
        Platform::Linux(LinuxDistro::Arch) => TMUX_ON_ARCH@,
        Platform::Linux(LinuxDistro::Alpine) => TMUX_ON_ALPINE@,
        Platform::Linux(LinuxDistro::Other) => TMUX_ON_OTHER@,
        Platform::Windows => TMUX_ON_WINDOWS@,
    }
}

fn hint_for_tmux(platform: Platform) -> (r: &'static str)
    ensures
        r@ == tmux_hint(platform),
{
    match platform {
        Platform::MacOS => TMUX_ON_MACOS,
        Platform::Linux(LinuxDistro::Debian) => TMUX_ON_DEBIAN,
        Platform::Linux(LinuxDistro::Fedora) => TMUX_ON_FEDORA,
        Platform::Linux(LinuxDistro::Arch) => TMUX_ON_ARCH,
        Platform::Linux(LinuxDistro::Alpine) => TMUX_ON_ALPINE,
        Platform::Linux(LinuxDistro::Other) => TMUX_ON_OTHER,
        Platform::Windows => TMUX_ON_WINDOWS,
    }
}

/// How to install the assistant.
pub open spec fn assistant_hint(platform: Platform, assistant: Assistant) -> Seq<char> {
    let head = "`"@ + assistant.program@ + "` CLI is not installed.\n\n"@;
    match platform {
        Platform::MacOS => head + "  brew install "@ + assistant.brew_package@
            + "\n\nOr install via npm:\n\n  npm install -g "@ + assistant.npm_package@,
        _ => head + "  npm install -g "@ + assistant.npm_package@,
    }
}

fn hint_for_assistant(platform: Platform, assistant: Assistant) -> (r: String)
    ensures
        r@ == assistant_hint(platform, assistant),
{
    let mut out = own("`");
    out.append(assistant.program);
    out.append("` CLI is not installed.\n\n");
    if let Platform::MacOS = platform {
        out.append("  brew install ");
        out.append(assistant.brew_package);
        out.append("\n\nOr install via npm:\n\n  npm install -g ");
        out.append(assistant.npm_package);
    } else {
        out.append("  npm install -g ");
        out.append(assistant.npm_package);
    }
    out
}

/// How to install `gh`.
pub open spec fn gh_hint(platform: Platform) -> Seq<char> {
    match platform {
        Platform::MacOS => GH_ON_MACOS@,
        Platform::Linux(LinuxDistro::Debian) => GH_ON_DEBIAN@,
        Platform::Linux(LinuxDistro::Fedora) => GH_ON_FEDORA@,
        Platform::Linux(LinuxDistro::Arch) => GH_ON_ARCH@,
        Platform::Linux(LinuxDistro::Alpine) => GH_ON_ALPINE@,
        Platform::Linux(LinuxDistro::Other) => GH_ON_OTHER@,
        Platform::Windows => GH_ON_WINDOWS@,
    }
}

fn hint_for_gh(platform: Platform) -> (r: &'static str)
    ensures
        r@ == gh_hint(platform),
{
    match platform {
        Platform::MacOS => GH_ON_MACOS,
        Platform::Linux(LinuxDistro::Debian) => GH_ON_DEBIAN,
        Platform::Linux(LinuxDistro::Fedora) => GH_ON_FEDORA,
        Platform::Linux(LinuxDistro::Arch) => GH_ON_ARCH,
        Platform::Linux(LinuxDistro::Alpine) => GH_ON_ALPINE,
        Platform::Linux(LinuxDistro::Other) => GH_ON_OTHER,
        Platform::Windows => GH_ON_WINDOWS,
    }
}

/// How to install `docker`.
pub open spec fn docker_hint(platform: Platform) -> Seq<char> {
    match platform {
        Platform::MacOS => DOCKER_ON_MACOS@,
        Platform::Linux(LinuxDistro::Debian) => DOCKER_ON_DEBIAN@,
        Platform::Linux(LinuxDistro::Fedora) => DOCKER_ON_FEDORA@,
        Platform::Linux(LinuxDistro::Arch) => DOCKER_ON_ARCH@,
        Platform::Linux(LinuxDistro::Alpine) => DOCKER_ON_ALPINE@,
        Platform::Linux(LinuxDistro::Other) | Platform::Windows => DOCKER_ON_OTHER@,
    }
}

fn hint_for_docker(platform: Platform) -> (r: &'static str)
    ensures
        r@ == docker_hint(platform),
{
    match platform {
        Platform::MacOS => DOCKER_ON_MACOS,
        Platform::Linux(LinuxDistro::Debian) => DOCKER_ON_DEBIAN,
        Platform::Linux(LinuxDistro::Fedora) => DOCKER_ON_FEDORA,
        Platform::Linux(LinuxDistro::Arch) => DOCKER_ON_ARCH,
        Platform::Linux(LinuxDistro::Alpine) => DOCKER_ON_ALPINE,
        Platform::Linux(LinuxDistro::Other) | Platform::Windows => DOCKER_ON_OTHER,
    }
}

/// How to install `podman`.
pub open spec fn podman_hint(platform: Platform) -> Seq<char> {
    match platform {
        Platform::MacOS => PODMAN_ON_MACOS@,
        Platform::Linux(LinuxDistro::Debian) => PODMAN_ON_DEBIAN@,
        Platform::Linux(LinuxDistro::Fedora) => PODMAN_ON_FEDORA@,
        Platform::Linux(LinuxDistro::Arch) => PODMAN_ON_ARCH@,
        Platform::Linux(LinuxDistro::Alpine) => PODMAN_ON_ALPINE@,
        Platform::Linux(LinuxDistro::Other) => PODMAN_ON_OTHER@,
        Platform::Windows => PODMAN_ON_WINDOWS@,
    }
}

fn hint_for_podman(platform: Platform) -> (r: &'static str)
    ensures
        r@ == podman_hint(platform),
{
    match platform {
        Platform::MacOS => PODMAN_ON_MACOS,
        Platform::Linux(LinuxDistro::Debian) => PODMAN_ON_DEBIAN,
        Platform::Linux(LinuxDistro::Fedora) => PODMAN_ON_FEDORA,
        Platform::Linux(LinuxDistro::Arch) => PODMAN_ON_ARCH,
        Platform::Linux(LinuxDistro::Alpine) => PODMAN_ON_ALPINE,
        Platform::Linux(LinuxDistro::Other) => PODMAN_ON_OTHER,
        Platform::Windows => PODMAN_ON_WINDOWS,
    }
}

/// How to install a command on a platform.
pub open spec fn hint(cmd: Seq<char>, platform: Platform, assistant: Assistant) -> Seq<char> {
    if cmd == "timeout"@ || cmd == "gtimeout"@ {
        timeout_hint(platform)
    } else if cmd == "tmux"@ {
        tmux_hint(platform)
    } else if cmd == assistant.program@ {
        assistant_hint(platform, assistant)
    } else if cmd == "gh"@ {
        gh_hint(platform)
    } else if cmd == "docker"@ {
        docker_hint(platform)
    } else if cmd == "podman"@ {
        podman_hint(platform)
    } else {
        "`"@ + cmd + "` is not installed. Install it using your system package manager."@
    }
}

/// Build a platform-specific install hint for a given command.
pub fn install_hint(cmd: &str, platform: &Platform, assistant: Assistant) -> (r: String)
    ensures
        r@ == hint(cmd@, *platform, assistant),
{
    if eq_str(cmd, "timeout") || eq_str(cmd, "gtimeout") {
        own(hint_for_timeout(*platform))
    } else if eq_str(cmd, "tmux") {
        own(hint_for_tmux(*platform))
    } else if eq_str(cmd, assistant.program) {
        hint_for_assistant(*platform, assistant)
    } else if eq_str(cmd, "gh") {
        own(hint_for_gh(*platform))
    } else if eq_str(cmd, "docker") {
        own(hint_for_docker(*platform))
    } else if eq_str(cmd, "podman") {
        own(hint_for_podman(*platform))
    } else {
        let mut out = own("`");
        out.append(cmd);
        out.append("` is not installed. Install it using your system package manager.");
        out
    }
}

/// Each platform is told how to get a command there, and no other way: what holds for the package
/// manager of one is not told on another.
pub proof fn law_hints_are_for_the_platform(assistant: Assistant)
    requires
        assistant.program@ != "gh"@,
        assistant.program@ != "docker"@,
        assistant.program@ != "podman"@,
    ensures
        hint("timeout"@, Platform::MacOS, assistant) == TIMEOUT_ON_MACOS@,
        hint("timeout"@, Platform::Linux(LinuxDistro::Debian), assistant) == TIMEOUT_ON_DEBIAN@,
        hint("timeout"@, Platform::Linux(LinuxDistro::Fedora), assistant) == TIMEOUT_ON_FEDORA@,
        hint("timeout"@, Platform::Linux(LinuxDistro::Arch), assistant) == TIMEOUT_ON_ARCH@,
        hint("timeout"@, Platform::Linux(LinuxDistro::Alpine), assistant) == TIMEOUT_ON_ALPINE@,
        hint("timeout"@, Platform::Linux(LinuxDistro::Other), assistant) == TIMEOUT_ON_OTHER@,
        hint("timeout"@, Platform::Windows, assistant) == TIMEOUT_ON_WINDOWS@,
        hint("gtimeout"@, Platform::MacOS, assistant) == TIMEOUT_ON_MACOS@,
        hint("gtimeout"@, Platform::Linux(LinuxDistro::Debian), assistant) == TIMEOUT_ON_DEBIAN@,
        hint("gtimeout"@, Platform::Linux(LinuxDistro::Fedora), assistant) == TIMEOUT_ON_FEDORA@,
        hint("gtimeout"@, Platform::Linux(LinuxDistro::Arch), assistant) == TIMEOUT_ON_ARCH@,
        hint("gtimeout"@, Platform::Linux(LinuxDistro::Alpine), assistant) == TIMEOUT_ON_ALPINE@,
        hint("gtimeout"@, Platform::Linux(LinuxDistro::Other), assistant) == TIMEOUT_ON_OTHER@,
        hint("gtimeout"@, Platform::Windows, assistant) == TIMEOUT_ON_WINDOWS@,
        hint("tmux"@, Platform::MacOS, assistant) == TMUX_ON_MACOS@,
        hint("tmux"@, Platform::Linux(LinuxDistro::Debian), assistant) == TMUX_ON_DEBIAN@,
        hint("tmux"@, Platform::Linux(LinuxDistro::Fedora), assistant) == TMUX_ON_FEDORA@,
        hint("tmux"@, Platform::Linux(LinuxDistro::Arch), assistant) == TMUX_ON_ARCH@,
        hint("tmux"@, Platform::Linux(LinuxDistro::Alpine), assistant) == TMUX_ON_ALPINE@,
        hint("tmux"@, Platform::Linux(LinuxDistro::Other), assistant) == TMUX_ON_OTHER@,
        hint("tmux"@, Platform::Windows, assistant) == TMUX_ON_WINDOWS@,
        hint("gh"@, Platform::MacOS, assistant) == GH_ON_MACOS@,
        hint("gh"@, Platform::Linux(LinuxDistro::Debian), assistant) == GH_ON_DEBIAN@,
        hint("gh"@, Platform::Linux(LinuxDistro::Fedora), assistant) == GH_ON_FEDORA@,
        hint("gh"@, Platform::Linux(LinuxDistro::Arch), assistant) == GH_ON_ARCH@,
        hint("gh"@, Platform::Linux(LinuxDistro::Alpine), assistant) == GH_ON_ALPINE@,
        hint("gh"@, Platform::Linux(LinuxDistro::Other), assistant) == GH_ON_OTHER@,
        hint("gh"@, Platform::Windows, assistant) == GH_ON_WINDOWS@,
        hint("docker"@, Platform::MacOS, assistant) == DOCKER_ON_MACOS@,
        hint("docker"@, Platform::Linux(LinuxDistro::Debian), assistant) == DOCKER_ON_DEBIAN@,
        hint("docker"@, Platform::Linux(LinuxDistro::Fedora), assistant) == DOCKER_ON_FEDORA@,
        hint("docker"@, Platform::Linux(LinuxDistro::Arch), assistant) == DOCKER_ON_ARCH@,
        hint("docker"@, Platform::Linux(LinuxDistro::Alpine), assistant) == DOCKER_ON_ALPINE@,
        hint("docker"@, Platform::Linux(LinuxDistro::Other), assistant) == DOCKER_ON_OTHER@,
        hint("docker"@, Platform::Windows, assistant) == DOCKER_ON_OTHER@,
        hint("podman"@, Platform::MacOS, assistant) == PODMAN_ON_MACOS@,
        hint("podman"@, Platform::Linux(LinuxDistro::Debian), assistant) == PODMAN_ON_DEBIAN@,
        hint("podman"@, Platform::Linux(LinuxDistro::Fedora), assistant) == PODMAN_ON_FEDORA@,
        hint("podman"@, Platform::Linux(LinuxDistro::Arch), assistant) == PODMAN_ON_ARCH@,
        hint("podman"@, Platform::Linux(LinuxDistro::Alpine), assistant) == PODMAN_ON_ALPINE@,
        hint("podman"@, Platform::Linux(LinuxDistro::Other), assistant) == PODMAN_ON_OTHER@,
        hint("podman"@, Platform::Windows, assistant) == PODMAN_ON_WINDOWS@,
{
    reveal_strlit("timeout");
    reveal_strlit("gtimeout");
    reveal_strlit("tmux");
    reveal_strlit("gh");
    reveal_strlit("docker");
    reveal_strlit("podman");
    assert("timeout"@.len() == 7 && "gtimeout"@.len() == 8 && "tmux"@.len() == 4 && "gh"@.len() == 2
        && "docker"@.len() == 6 && "podman"@.len() == 6);
    assert("docker"@[0] == 'd' && "podman"@[0] == 'p');
}

/// The assistant is got from npm on every platform, and on macOS from Homebrew too; what is missing
/// is named.
pub proof fn law_assistants_are_got_by_their_package(platform: Platform, assistant: Assistant)
    ensures
        text::has_prefix(assistant_hint(platform, assistant), "`"@ + assistant.program@),
        text::has_suffix(assistant_hint(platform, assistant), assistant.npm_package@),
        platform == Platform::MacOS ==> text::contains(
            assistant_hint(platform, assistant),
            "  brew install "@ + assistant.brew_package@,
        ),
        platform != Platform::MacOS ==> text::has_suffix(
            assistant_hint(platform, assistant),
            "  npm install -g "@ + assistant.npm_package@,
        ),
{
    broadcast use {
        text::lemma_contains_self,
        text::lemma_contains_first,
        text::lemma_contains_pair,
        text::lemma_suffix_of_sum,
        text::lemma_suffix_of_pair,
    };

    let told = assistant_hint(platform, assistant);
    let head = "`"@ + assistant.program@;
    assert(told.take(head.len() as int) =~= head);
}

/// A command without a hint of its own is named.
pub proof fn law_other_commands_are_named(cmd: Seq<char>, platform: Platform, assistant: Assistant)
    requires
        cmd != "timeout"@,
        cmd != "gtimeout"@,
        cmd != "tmux"@,
        cmd != "gh"@,
        cmd != "docker"@,
        cmd != "podman"@,
        cmd != assistant.program@,
    ensures
        text::contains(hint(cmd, platform, assistant), "`"@ + cmd),
{
    broadcast use {text::lemma_contains_self, text::lemma_contains_first};

}

} // verus!
