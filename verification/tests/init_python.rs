//! Finding Python, and installing the clone detector with it.

use crosslink::commands::init::python::{
    build_install_candidates, build_source_candidate, classify_install_failure,
    detect_python_prefix, install_cpitd, venv_pip, Action, CpitdResult, Event, Install,
    InstallFailureKind, Markers, RunOutcome,
};

const PEP668_STDERR: &str = "error: externally-managed-environment\n\
    \n\
    × This environment is externally managed\n\
    ╰─> To install Python packages system-wide, try apt install ...";

#[test]
fn classify_detects_pep668() {
    assert_eq!(
        classify_install_failure(PEP668_STDERR),
        InstallFailureKind::ExternallyManaged
    );
}

#[test]
fn classify_detects_pep668_case_insensitive() {
    assert_eq!(
        classify_install_failure("ERROR: Externally-Managed-Environment blah"),
        InstallFailureKind::ExternallyManaged
    );
    // Spaced variant some tooling prints.
    assert_eq!(
        classify_install_failure("this environment is externally managed environment"),
        InstallFailureKind::ExternallyManaged
    );
}

#[test]
fn classify_other_failures_are_other() {
    assert_eq!(
        classify_install_failure("ERROR: Could not find a version that satisfies cpitd"),
        InstallFailureKind::Other
    );
    assert_eq!(
        classify_install_failure("Network is unreachable"),
        InstallFailureKind::Other
    );
    assert_eq!(classify_install_failure(""), InstallFailureKind::Other);
}

#[test]
fn system_chain_pipx_first_then_pip_user_then_pip() {
    let candidates = build_install_candidates("python3", true);
    assert_eq!(candidates.len(), 3);
    assert_eq!(candidates[0].program, "pipx");
    assert_eq!(candidates[0].args, vec!["install", "cpitd"]);
    // pip --user before plain pip.
    assert_eq!(candidates[1].program, "python3");
    assert_eq!(
        candidates[1].args,
        vec!["-m", "pip", "install", "--user", "cpitd"]
    );
    assert_eq!(candidates[2].program, "python3");
    assert_eq!(candidates[2].args, vec!["-m", "pip", "install", "cpitd"]);
}

#[test]
fn system_chain_skips_pipx_when_absent() {
    let candidates = build_install_candidates("python3", false);
    assert_eq!(candidates.len(), 2);
    assert!(candidates.iter().all(|c| c.program != "pipx"));
    assert_eq!(
        candidates[0].args,
        vec!["-m", "pip", "install", "--user", "cpitd"]
    );
    assert_eq!(candidates[1].args, vec!["-m", "pip", "install", "cpitd"]);
}

#[test]
fn uv_toolchain_single_candidate() {
    let candidates = build_install_candidates("uv run python3", true);
    assert_eq!(candidates.len(), 1);
    assert_eq!(candidates[0].program, "uv");
    assert_eq!(candidates[0].args, vec!["pip", "install", "cpitd"]);
}

#[test]
fn poetry_toolchain_single_candidate() {
    let candidates = build_install_candidates("poetry run python3", false);
    assert_eq!(candidates.len(), 1);
    assert_eq!(candidates[0].program, "poetry");
    assert_eq!(candidates[0].args, vec!["add", "--group", "dev", "cpitd"]);
}

#[test]
fn pipenv_toolchain_single_candidate() {
    let candidates = build_install_candidates("pipenv run python3", true);
    assert_eq!(candidates.len(), 1);
    assert_eq!(candidates[0].program, "pipenv");
    assert_eq!(candidates[0].args, vec!["install", "--dev", "cpitd"]);
}

#[test]
fn venv_toolchain_uses_venv_pip() {
    let candidates = build_install_candidates(".venv/bin/python3", true);
    assert_eq!(candidates.len(), 1);
    assert_eq!(candidates[0].program, ".venv/bin/pip");
    assert_eq!(candidates[0].args, vec!["install", "cpitd"]);
}

#[test]
fn managed_toolchains_never_offer_pipx() {
    // pipx is only relevant for system python; managed envs are PEP 668 safe.
    for prefix in ["uv run python3", "poetry run python3", "pipenv run python3"] {
        let candidates = build_install_candidates(prefix, true);
        assert!(candidates.iter().all(|c| c.program != "pipx"), "{prefix}");
    }
}

fn nothing() -> Markers {
    Markers {
        uv_lock: false,
        poetry_lock: false,
        pyproject: None,
        venv: false,
        pipfile: false,
        pipfile_lock: false,
    }
}

#[test]
fn test_detect_python_prefix_default() {
    assert_eq!(detect_python_prefix(&nothing(), false), "python3");
}

#[test]
fn test_detect_python_prefix_uv_lock() {
    let m = Markers { uv_lock: true, ..nothing() };
    assert_eq!(detect_python_prefix(&m, false), "uv run python3");
}

#[test]
fn test_detect_python_prefix_uv_pyproject() {
    let content = "[project]\nname = \"foo\"\n\n[tool.uv]\ndev-dependencies = []\n";
    let m = Markers { pyproject: Some(content.to_string()), ..nothing() };
    assert_eq!(detect_python_prefix(&m, false), "uv run python3");
}

#[test]
fn test_detect_python_prefix_poetry_lock() {
    let m = Markers { poetry_lock: true, ..nothing() };
    assert_eq!(detect_python_prefix(&m, false), "poetry run python3");
}

#[test]
fn test_detect_python_prefix_poetry_pyproject() {
    let content = "[project]\nname = \"foo\"\n\n[tool.poetry]\nname = \"foo\"\n";
    let m = Markers { pyproject: Some(content.to_string()), ..nothing() };
    assert_eq!(detect_python_prefix(&m, false), "poetry run python3");
}

#[test]
fn test_detect_python_prefix_venv() {
    let m = Markers { venv: true, ..nothing() };
    assert_eq!(detect_python_prefix(&m, false), ".venv/bin/python3");
}

#[test]
fn test_detect_python_prefix_pipenv() {
    let m = Markers { pipfile: true, ..nothing() };
    assert_eq!(detect_python_prefix(&m, false), "pipenv run python3");
}

#[test]
fn test_detect_python_prefix_pipenv_lock() {
    let m = Markers { pipfile_lock: true, ..nothing() };
    assert_eq!(detect_python_prefix(&m, false), "pipenv run python3");
}

#[test]
fn test_detect_python_prefix_uv_beats_poetry() {
    let m = Markers { uv_lock: true, poetry_lock: true, ..nothing() };
    assert_eq!(detect_python_prefix(&m, false), "uv run python3");
}

#[test]
fn test_detect_python_prefix_poetry_beats_venv() {
    let m = Markers { poetry_lock: true, venv: true, ..nothing() };
    assert_eq!(detect_python_prefix(&m, false), "poetry run python3");
}

#[test]
fn test_detect_python_prefix_venv_beats_pipenv() {
    let m = Markers { venv: true, pipfile: true, ..nothing() };
    assert_eq!(detect_python_prefix(&m, false), ".venv/bin/python3");
}

#[test]
fn test_detect_python_prefix_pyproject_without_tools_is_default() {
    let content = "[project]\nname = \"foo\"\nversion = \"1.0\"\n";
    let m = Markers { pyproject: Some(content.to_string()), ..nothing() };
    assert_eq!(detect_python_prefix(&m, false), "python3");
}

#[test]
fn a_virtual_environment_on_windows_has_its_own_layout() {
    let m = Markers { venv: true, ..nothing() };
    let prefix = detect_python_prefix(&m, true);
    assert_eq!(prefix, ".venv\\Scripts\\python.exe");
    assert_eq!(venv_pip(&prefix), ".venv\\Scripts\\pip.exe");
    let candidates = build_install_candidates(&prefix, true);
    assert_eq!(candidates.len(), 1);
    assert_eq!(candidates[0].program, ".venv\\Scripts\\pip.exe");
}

#[test]
fn a_clone_is_installed_with_the_toolchain() {
    let c = build_source_candidate("poetry run python3", "/tmp/x");
    assert_eq!(c.program, "poetry");
    assert_eq!(c.args, vec!["run", "pip", "install", "/tmp/x"]);
    assert_eq!(build_source_candidate("python3", "/tmp/x").args, vec!["-m", "pip", "install", "/tmp/x"]);
}

fn started(pipx: bool) -> Install {
    let (mut install, action) = install_cpitd();
    assert!(matches!(action, Action::Probe(program) if program == "cpitd"));
    let action = install.advance("python3", "/tmp/x", Event::Found(false));
    assert!(matches!(action, Action::Probe(program) if program == "pipx"));
    let action = install.advance("python3", "/tmp/x", Event::Found(pipx));
    assert!(matches!(action, Action::Run(_)));
    install
}

fn refused() -> Event {
    Event::Ran(RunOutcome::Failed(PEP668_STDERR.to_string()))
}

#[test]
fn what_is_there_is_not_installed_again() {
    let (mut install, _) = install_cpitd();
    let action = install.advance("python3", "/tmp/x", Event::Found(true));
    assert!(matches!(action, Action::Finish(Ok(CpitdResult::AlreadyInstalled), false)));
}

#[test]
fn the_first_command_that_works_ends_the_installation() {
    let mut install = started(true);
    let action = install.advance("python3", "/tmp/x", Event::Ran(RunOutcome::Failed("no".to_string())));
    assert!(matches!(action, Action::Run(c) if c.program == "python3"));
    let action = install.advance("python3", "/tmp/x", Event::Ran(RunOutcome::Succeeded));
    assert!(matches!(action, Action::Finish(Ok(CpitdResult::InstalledFromPypi), false)));
}

#[test]
fn a_refusal_is_reported_with_the_message_of_the_last_failure() {
    let mut install = started(false);
    install.advance("python3", "/tmp/x", refused());
    let action = install.advance("python3", "/tmp/x", Event::Ran(RunOutcome::Failed("no".to_string())));
    assert!(matches!(action, Action::Clone(_, dir) if dir == "/tmp/x"));
    let action = install.advance("python3", "/tmp/x", Event::Ran(RunOutcome::NotStarted("git?".to_string())));
    match action {
        Action::Finish(Err(e), clean) => {
            assert!(e.externally_managed);
            assert!(e.message.contains("git?"));
            assert!(!e.message.contains("externally-managed"));
            assert!(!clean);
        }
        _ => panic!("expected a failure"),
    }
}

#[test]
fn the_source_is_the_last_resort() {
    let mut install = started(false);
    install.advance("python3", "/tmp/x", Event::Ran(RunOutcome::Failed("no".to_string())));
    install.advance("python3", "/tmp/x", Event::Ran(RunOutcome::Failed("no".to_string())));
    let action = install.advance("python3", "/tmp/x", Event::Ran(RunOutcome::Succeeded));
    assert!(matches!(action, Action::Run(c) if c.args.contains(&"/tmp/x".to_string())));
    let action = install.advance(
        "python3",
        "/tmp/x",
        Event::Ran(RunOutcome::NotStarted("denied".to_string())),
    );
    match action {
        Action::Finish(Err(e), clean) => {
            assert!(!e.externally_managed);
            assert_eq!(e.message, "Failed to run python3 -m pip install /tmp/x: denied");
            assert!(clean);
        }
        _ => panic!("expected a failure"),
    }
}
