use prometheus_cli::error::{LineKind, TerminalLine};
use prometheus_cli::session::{
    check_report, classify_input, model_choices, models_listing, select_model,
    setup_failure_report, unknown_command_message, update_precheck_report, update_result_report,
    validation_failure_report, welcome_lines, reply_to_keep, switch_target, InputKind,
};
use prometheus_cli::non_interactive::GenerationEnd;
use prometheus_cli::update::{UpdateManager, UpdateStatus};

fn texts(lines: &[TerminalLine]) -> Vec<String> {
    lines.iter().map(|l| l.text.clone()).collect()
}

fn manager() -> UpdateManager {
    UpdateManager::with_paths("/opt/prom".to_string(), "/usr/local/bin".to_string(), "prometheus-cli".to_string())
}

#[test]
fn typed_input_kinds() {
    assert_eq!(classify_input("   "), InputKind::Empty);
    assert_eq!(classify_input(""), InputKind::Empty);
    assert_eq!(classify_input("/help"), InputKind::Command);
    assert_eq!(classify_input(" /help"), InputKind::Prompt);
    assert_eq!(classify_input("hello"), InputKind::Prompt);
}

#[test]
fn model_selection() {
    assert_eq!(select_model(" 2 \n", 3), Ok(1));
    assert_eq!(select_model("1", 1), Ok(0));
    assert_eq!(
        select_model("0", 3),
        Err("Invalid selection. Please enter a number between 1 and 3".to_string())
    );
    assert_eq!(
        select_model("4", 3),
        Err("Invalid selection. Please enter a number between 1 and 3".to_string())
    );
    assert_eq!(select_model("two", 3), Err("Please enter a valid number".to_string()));
    assert_eq!(select_model("", 3), Err("Please enter a valid number".to_string()));
}

#[test]
fn model_lists() {
    let models = vec!["llama2".to_string(), "mistral".to_string()];
    assert_eq!(model_choices(&models), vec!["  1. llama2", "  2. mistral"]);
    assert_eq!(
        models_listing(&models),
        vec!["\nAvailable models:\n", "  - llama2\n", "  - mistral\n", "\n"]
    );
}

#[test]
fn welcome() {
    let lines = welcome_lines("0.1.0", "http://localhost:11434", "llama2");
    assert_eq!(
        texts(&lines),
        vec![
            "\n",
            "Prometheus CLI v0.1.0 - Terminal AI Chat",
            "Connected to: http://localhost:11434",
            "Model: llama2",
            "Type /help for available commands",
            "\n",
        ]
    );
    assert_eq!(lines[1].kind, LineKind::Info);
    assert_eq!(lines[0].kind, LineKind::Plain);
}

#[test]
fn unknown_command() {
    assert_eq!(unknown_command_message("foo"), "Unknown command: /foo. Type /help for available commands");
}

#[test]
fn check_reports() {
    let m = manager();
    let up = check_report(&Ok(UpdateStatus::UpToDate), &m);
    assert_eq!(
        texts(&up),
        vec![
            "✅ Your installation is up to date!",
            "   Installation directory: /opt/prom",
            "   Binary location: /usr/local/bin/prometheus-cli",
        ]
    );
    let avail = check_report(
        &Ok(UpdateStatus::UpdatesAvailable { commits_behind: 2, changes: "abc one\n\n  \ndef two\n".to_string() }),
        &m,
    );
    assert_eq!(
        texts(&avail),
        vec![
            "🆕 Updates available! 2 commit(s) behind the latest version.",
            "\n📋 Recent changes:",
            "   abc one",
            "   def two",
            "\n💡 Run '/update' to install these updates.",
            "   Note: The update process will require a few minutes to complete.",
        ]
    );
    let failed = check_report(&Err("boom".to_string()), &m);
    assert_eq!(failed[0].text, "Update check failed: boom");
    assert_eq!(failed[0].kind, LineKind::Error);
    assert_eq!(failed.last().unwrap().text, "  • Installation directory: /opt/prom");
    assert_eq!(failed.len(), 6);
}

#[test]
fn precheck_previews_three_lines() {
    let (lines, go) = update_precheck_report(&Ok(UpdateStatus::UpdatesAvailable {
        commits_behind: 5,
        changes: "a\nb\nc\nd\n".to_string(),
    }));
    assert!(go);
    assert_eq!(
        texts(&lines),
        vec![
            "📦 Found 5 commit(s) to update. Proceeding with installation...",
            "\n📋 Changes to be applied:",
            "   a",
            "   b",
            "   c",
            "   ... and more",
            "",
            "⚠️  Important: Do not interrupt the update process once it begins.",
            "   Interrupting during binary installation could leave your system in an inconsistent state.\n",
        ]
    );
    let (lines, go) = update_precheck_report(&Ok(UpdateStatus::UpToDate));
    assert!(!go);
    assert_eq!(lines.len(), 2);
    let (lines, go) = update_precheck_report(&Err("net".to_string()));
    assert!(!go);
    assert_eq!(lines[0].text, "Failed to check for updates: net");
    let (lines, go) = update_precheck_report(&Ok(UpdateStatus::UpdatesAvailable {
        commits_behind: 1,
        changes: "  ".to_string(),
    }));
    assert!(go);
    assert_eq!(lines.len(), 3);
}

#[test]
fn update_results() {
    let m = manager();
    let ok = update_result_report(&Ok("1.2.3".to_string()), &m);
    assert!(texts(&ok).contains(&"   New version: 1.2.3".to_string()));
    assert!(texts(&ok).contains(&"   Installation location: /usr/local/bin/prometheus-cli".to_string()));
    assert_eq!(ok.len(), 10);
    let err = update_result_report(&Err("disk".to_string()), &m);
    assert_eq!(err[1].text, "❌ Update failed: disk");
    assert_eq!(err[1].kind, LineKind::Error);
    assert_eq!(err.len(), 13);
}

#[test]
fn setup_and_validation_failures() {
    let r = setup_failure_report(true, "no home");
    assert_eq!(r[0].text, "Update initialization failed: no home");
    assert_eq!(r.len(), 5);
    let r = setup_failure_report(false, "no home");
    assert_eq!(r[0].text, "Update check failed: no home");
    let r = validation_failure_report("bad");
    assert_eq!(r[0].text, "Installation validation failed: bad");
    assert_eq!(r[1].text, "Troubleshooting tips:");
}

#[test]
fn test_reply_kept_after_generation() {
    assert_eq!(reply_to_keep(GenerationEnd::Completed, "Hello".to_string()), Some("Hello".to_string()));
    assert_eq!(reply_to_keep(GenerationEnd::Completed, String::new()), Some(String::new()));
    assert_eq!(reply_to_keep(GenerationEnd::Interrupted, "Hel".to_string()), Some("Hel".to_string()));
    assert_eq!(reply_to_keep(GenerationEnd::Interrupted, String::new()), None);
    assert_eq!(reply_to_keep(GenerationEnd::Failed, "partial".to_string()), Some("partial".to_string()));
    assert_eq!(reply_to_keep(GenerationEnd::Failed, String::new()), None);
}

#[test]
fn switch_target_resolves_urls_and_saved_names() {
    let saved = vec!["https://api.example.com".to_string(), "https://my-remote-server.com:11434".to_string()];
    assert_eq!(switch_target("https://other.example.com", &saved), Ok("https://other.example.com".to_string()));
    assert_eq!(switch_target("http://localhost:11434", &saved), Ok("http://localhost:11434".to_string()));
    assert_eq!(switch_target("my-remote-server", &saved), Ok("https://my-remote-server.com:11434".to_string()));
    let e = switch_target("nowhere", &saved).unwrap_err();
    assert!(e.contains("Invalid URL format"));
    let e = switch_target("http://remote.example.com", &saved).unwrap_err();
    assert!(e.contains("Invalid backend URL protocol"));
}
