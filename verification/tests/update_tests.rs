use prometheus_cli::update::{
    CheckStep, CommandOutcome, CopyOutcome, DirAccess, SudoDecision, UpdateManager, UpdateStatus,
    UpdateStep,
};
use std::path::{Path, PathBuf};

/// Test UpdateManager creation with valid installation
#[test]
fn test_update_manager_creation() {
    let manager = UpdateManager::new("/home/user/.prometheus".to_string());
    assert!(!manager.binary_name().is_empty());
    assert!(Path::new(manager.bin_dir()).exists() || Path::new(manager.bin_dir()) == Path::new("/usr/local/bin"));
}

/// Test UpdateStatus equality
#[test]
fn test_update_status_equality() {
    let status1 = UpdateStatus::UpToDate;
    let status2 = UpdateStatus::UpToDate;
    assert_eq!(status1, status2);

    let status3 = UpdateStatus::UpdatesAvailable {
        commits_behind: 5,
        changes: "Some changes".to_string(),
    };
    let status4 = UpdateStatus::UpdatesAvailable {
        commits_behind: 5,
        changes: "Some changes".to_string(),
    };
    assert_eq!(status3, status4);

    assert_ne!(status1, status3);
}

/// Test getters
#[test]
fn test_getters() {
    let install_dir = PathBuf::from("/test/install");
    let bin_dir = PathBuf::from("/test/bin");
    let binary_name = "test-binary".to_string();

    let manager = UpdateManager::with_paths(
        "/test/install".to_string(),
        "/test/bin".to_string(),
        binary_name.clone(),
    );

    assert_eq!(Path::new(manager.install_dir()), install_dir.as_path());
    assert_eq!(Path::new(manager.bin_dir()), bin_dir.as_path());
    assert_eq!(manager.binary_name(), binary_name);
}

fn ran(success: bool, stdout: &str, stderr: &str) -> CommandOutcome {
    CommandOutcome::Finished { success, stdout: stdout.to_string(), stderr: stderr.to_string() }
}

fn manager() -> UpdateManager {
    UpdateManager::with_paths("/opt/prom".to_string(), "/usr/local/bin".to_string(), "prometheus-cli".to_string())
}

#[test]
fn validation_messages() {
    let m = manager();
    assert_eq!(
        m.validate_installation(false, false, false),
        Err("Installation directory does not exist: /opt/prom".to_string())
    );
    assert!(m.validate_installation(true, false, true).unwrap_err().contains("not a git repository"));
    assert_eq!(
        m.validate_installation(true, true, false),
        Err("Invalid installation: Cargo.toml not found in /opt/prom".to_string())
    );
    assert_eq!(m.validate_installation(true, true, true), Ok(()));
}

#[test]
fn paths_are_joined() {
    let m = manager();
    assert_eq!(m.source_binary(), "/opt/prom/target/release/prometheus-cli");
    assert_eq!(m.dest_binary(), "/usr/local/bin/prometheus-cli");
    let slash = UpdateManager::with_paths("/opt/prom/".to_string(), "/bin/".to_string(), "x".to_string());
    assert_eq!(slash.source_binary(), "/opt/prom/target/release/x");
    assert_eq!(slash.dest_binary(), "/bin/x");
}

fn run_check(outcomes: Vec<CommandOutcome>) -> Result<UpdateStatus, String> {
    let mut step = CheckStep::Fetch;
    let mut it = outcomes.into_iter();
    loop {
        match step {
            CheckStep::Done(r) => return r,
            s => {
                let _args = UpdateManager::check_args(&s);
                step = UpdateManager::check_next(s, it.next().expect("an outcome per command"));
            }
        }
    }
}

#[test]
fn check_reports_up_to_date_when_no_commits_differ() {
    let r = run_check(vec![
        ran(true, "", ""),
        ran(true, "abc\n", ""),
        ran(true, "def\n", ""),
        ran(true, "0\n", ""),
    ]);
    assert_eq!(r, Ok(UpdateStatus::UpToDate));
}

#[test]
fn check_reports_commits_and_log() {
    let r = run_check(vec![
        ran(true, "", ""),
        ran(true, "abc\n", ""),
        ran(true, "def\n", ""),
        ran(true, " 12 \n", ""),
        ran(true, "def fix\nabc feat\n", ""),
    ]);
    assert_eq!(
        r,
        Ok(UpdateStatus::UpdatesAvailable {
            commits_behind: 12,
            changes: "def fix\nabc feat\n\n... and 2 more commit(s)".to_string(),
        })
    );
}

#[test]
fn check_without_log_still_reports_updates() {
    let r = run_check(vec![
        ran(true, "", ""),
        ran(true, "abc", ""),
        ran(true, "def", ""),
        ran(true, "3", ""),
        ran(false, "", "boom"),
    ]);
    assert_eq!(
        r,
        Ok(UpdateStatus::UpdatesAvailable {
            commits_behind: 3,
            changes: "Unable to retrieve change details. 3 commit(s) available.".to_string(),
        })
    );
}

#[test]
fn check_arguments_name_the_commit_range() {
    let s = CheckStep::CountCommits { current: "abc".to_string(), remote: "def".to_string() };
    assert_eq!(UpdateManager::check_args(&s), vec!["rev-list", "--count", "abc..def"]);
    assert_eq!(UpdateManager::check_args(&CheckStep::Fetch), vec!["fetch", "origin"]);
}

#[test]
fn check_errors_name_the_cause() {
    assert_eq!(
        run_check(vec![ran(false, "", "fatal: Could not resolve host: github.com")]),
        Err("Network error: Unable to reach the remote repository. Please check your internet connection.".to_string())
    );
    assert_eq!(
        run_check(vec![ran(false, "", "  weird failure \n")]),
        Err("Git fetch failed: weird failure".to_string())
    );
    assert_eq!(
        run_check(vec![CommandOutcome::NotStarted]),
        Err("Failed to execute git fetch. Please check your internet connection and ensure git is installed.".to_string())
    );
    assert_eq!(
        run_check(vec![ran(true, "", ""), ran(true, "a", ""), ran(false, "", "fatal: unknown revision")]),
        Err("Remote branch 'main' not found. The repository structure may have changed.".to_string())
    );
    assert_eq!(
        run_check(vec![ran(true, "", ""), ran(true, "a", ""), ran(true, "b", ""), ran(true, "-1", "")]),
        Err("Invalid commit count returned by git".to_string())
    );
}

fn next_after(m: &UpdateManager, step: &UpdateStep, outcome: CommandOutcome) -> UpdateStep {
    match step {
        UpdateStep::Pull => m.after_pull(outcome).next,
        UpdateStep::Build => m.after_build(outcome).next,
        UpdateStep::ProbeSudo => m.after_sudo_probe(outcome).next,
        UpdateStep::SudoCopy => m.after_sudo_copy(outcome).next,
        UpdateStep::Verify => m.after_verify(outcome).next,
        _ => panic!("not a command step"),
    }
}

#[test]
fn update_runs_pull_build_copy_verify() {
    let m = manager();
    let start = m.perform_update_start();
    assert_eq!(start.progress, vec!["🔄 Fetching latest changes from repository...".to_string()]);
    let (program, args, in_dir) = m.step_command(&start.next).unwrap();
    assert_eq!(program, "git");
    assert_eq!(args, vec!["pull", "origin", "main"]);
    assert!(in_dir);
    let build = next_after(&m, &start.next, ran(true, "", ""));
    assert!(matches!(build, UpdateStep::Build));
    let (program, args, _) = m.step_command(&build).unwrap();
    assert_eq!(program, "cargo");
    assert_eq!(args, vec!["build", "--release", "-p", "prometheus-cli"]);
    let check = next_after(&m, &build, ran(true, "", ""));
    assert!(matches!(check, UpdateStep::CheckSource));
    assert!(m.step_command(&check).is_none());
    assert!(matches!(m.after_source_check(true).next, UpdateStep::CheckSudo));
    assert!(matches!(m.after_sudo_check(false).next, UpdateStep::Copy));
    let verify = m.after_copy(CopyOutcome::Copied);
    assert_eq!(
        verify.progress,
        vec!["✅ Successfully installed updated binary".to_string(), "🔍 Verifying installation...".to_string()]
    );
    let (program, args, in_dir) = m.step_command(&verify.next).unwrap();
    assert_eq!(program, "/usr/local/bin/prometheus-cli");
    assert_eq!(args, vec!["--version"]);
    assert!(!in_dir);
    match next_after(&m, &verify.next, ran(true, "prometheus-cli 1.2.3\n", "")) {
        UpdateStep::Done(r) => assert_eq!(r, Ok("prometheus-cli 1.2.3".to_string())),
        other => panic!("unexpected {:?}", other),
    }
}

#[test]
fn update_stops_on_failures() {
    let m = manager();
    match m.after_pull(ran(false, "", "error: Your local changes would be overwritten")).next {
        UpdateStep::Done(Err(e)) => assert!(e.contains("git reset --hard' in /opt/prom before updating")),
        other => panic!("unexpected {:?}", other),
    }
    match m.after_build(ran(false, "out\n", "err\n")).next {
        UpdateStep::Done(Err(e)) => assert_eq!(
            e,
            "Cargo build failed: out\nerr. Your existing installation remains unchanged."
        ),
        other => panic!("unexpected {:?}", other),
    }
    match m.after_source_check(false).next {
        UpdateStep::Done(Err(e)) => assert_eq!(
            e,
            "Build completed but binary not found at /opt/prom/target/release/prometheus-cli. The build may have failed silently."
        ),
        other => panic!("unexpected {:?}", other),
    }
    match m.after_copy(CopyOutcome::PermissionDenied).next {
        UpdateStep::Done(Err(e)) => assert!(e.starts_with("Permission denied: Unable to install binary to /usr/local/bin/prometheus-cli")),
        other => panic!("unexpected {:?}", other),
    }
    match m.after_verify(ran(true, "  \n", "")).next {
        UpdateStep::Done(Err(e)) => assert!(e.contains("returned no version information")),
        other => panic!("unexpected {:?}", other),
    }
    match m.after_sudo_probe(CommandOutcome::NotStarted).next {
        UpdateStep::Done(Err(e)) => assert!(e.starts_with("Sudo command not found")),
        other => panic!("unexpected {:?}", other),
    }
}

#[test]
fn sudo_path() {
    let m = manager();
    let t = m.after_sudo_check(true);
    assert!(matches!(t.next, UpdateStep::ProbeSudo));
    assert_eq!(t.notices.len(), 4);
    assert_eq!(t.notices[0], "🔐 Administrator privileges required to install the binary to /usr/local/bin");
    let t = m.after_sudo_probe(ran(true, "", ""));
    assert_eq!(t.notices, vec!["✅ Sudo privileges confirmed".to_string()]);
    let (program, args, _) = m.step_command(&t.next).unwrap();
    assert_eq!(program, "sudo");
    assert_eq!(
        args,
        vec!["cp", "/opt/prom/target/release/prometheus-cli", "/usr/local/bin/prometheus-cli"]
    );
}

#[test]
fn sudo_decision_by_permission_bits() {
    let m = manager();
    let access = |mode, owner_uid, owner_gid| DirAccess { mode, owner_uid, owner_gid, uid: 1000, gid: 100 };
    assert_eq!(m.check_needs_sudo(false, None), SudoDecision::Needed(true));
    assert_eq!(m.check_needs_sudo(true, None), SudoDecision::ProbeWrite);
    assert_eq!(m.check_needs_sudo(true, Some(access(0o755, 1000, 0))), SudoDecision::Needed(false));
    assert_eq!(m.check_needs_sudo(true, Some(access(0o755, 0, 100))), SudoDecision::Needed(true));
    assert_eq!(m.check_needs_sudo(true, Some(access(0o775, 0, 100))), SudoDecision::Needed(false));
    assert_eq!(m.check_needs_sudo(true, Some(access(0o757, 0, 0))), SudoDecision::Needed(false));
    assert!(UpdateManager::needs_sudo_after_probe(false));
    assert!(!UpdateManager::needs_sudo_after_probe(true));
}
