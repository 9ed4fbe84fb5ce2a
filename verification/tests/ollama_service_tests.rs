use prometheus_cli::ollama_service::{OllamaServiceManager, OllamaServiceStatus, ReadinessWait, WaitAction};

#[test]
fn test_ollama_service_manager_creation() {
    let manager = OllamaServiceManager::new();
    assert_eq!(manager.local_url(), "http://localhost:11434");
    assert_eq!(manager.startup_timeout_secs(), 10);
}

#[test]
fn test_ollama_service_manager_default() {
    let manager = OllamaServiceManager::default();
    assert_eq!(manager.local_url(), "http://localhost:11434");
    assert_eq!(manager.startup_timeout_secs(), 10);
}

#[test]
fn test_ollama_service_status_equality() {
    assert_eq!(OllamaServiceStatus::Running, OllamaServiceStatus::Running);
    assert_eq!(OllamaServiceStatus::NotRunning, OllamaServiceStatus::NotRunning);
    assert_eq!(OllamaServiceStatus::NotResponding, OllamaServiceStatus::NotResponding);
    assert_eq!(
        OllamaServiceStatus::Unknown("test".to_string()),
        OllamaServiceStatus::Unknown("test".to_string())
    );
    assert_ne!(OllamaServiceStatus::Running, OllamaServiceStatus::NotRunning);
}

#[test]
fn test_ollama_service_status_clone() {
    let status = OllamaServiceStatus::Running;
    let cloned = status.clone();
    assert_eq!(status, cloned);

    let status = OllamaServiceStatus::Unknown("error".to_string());
    let cloned = status.clone();
    assert_eq!(status, cloned);
}

#[test]
fn test_ollama_service_status_debug() {
    let status = OllamaServiceStatus::Running;
    let debug_str = format!("{:?}", status);
    assert!(debug_str.contains("Running"));

    let status = OllamaServiceStatus::Unknown("test error".to_string());
    let debug_str = format!("{:?}", status);
    assert!(debug_str.contains("Unknown"));
    assert!(debug_str.contains("test error"));
}

#[test]
fn waiting_makes_two_checks_per_second() {
    let mut wait = ReadinessWait::new(1);
    assert!(matches!(wait.start(), WaitAction::CheckHealth));
    assert!(matches!(wait.after_check(false), WaitAction::Sleep));
    assert!(matches!(wait.after_sleep(), WaitAction::CheckHealth));
    assert!(matches!(wait.after_check(false), WaitAction::Sleep));
    match wait.after_sleep() {
        WaitAction::Finish(Err(e)) => assert_eq!(e, "Ollama did not become ready within 1 seconds"),
        other => panic!("unexpected {:?}", other),
    }
}

#[test]
fn waiting_ends_when_the_service_answers() {
    let wait = ReadinessWait::new(10);
    assert!(matches!(wait.after_check(true), WaitAction::Finish(Ok(()))));
}

#[test]
fn zero_timeout_gives_up_at_once() {
    let wait = ReadinessWait::new(0);
    assert!(matches!(wait.start(), WaitAction::Finish(Err(_))));
}

#[test]
fn overall_timeout_message() {
    let e = ReadinessWait::timed_out();
    assert!(e.starts_with("Timeout waiting for Ollama to start. Please check if:\n- Ollama is installed correctly"));
    assert!(e.ends_with("- You have permission to start the service"));
}
