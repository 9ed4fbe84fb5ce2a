use prometheus_cli::exit_codes::ExitCodes;
use prometheus_cli::non_interactive::{
    backend_url_choice, interrupt_exit_code, model_or_default, plan_end, processing_exit_code,
    GenerationEnd,
};

#[test]
fn completed_response_is_written() {
    let p = plan_end(GenerationEnd::Completed, true, false, true, 0);
    assert!(p.write_response);
    assert!(p.notice.is_none());
    assert!(p.exit_code.is_none());
}

#[test]
fn interrupted_run_saves_only_when_asked() {
    let p = plan_end(GenerationEnd::Interrupted, true, false, false, 0);
    assert!(!p.write_response);
    assert_eq!(p.exit_code, Some(ExitCodes::SIGINT));
    let p = plan_end(GenerationEnd::Interrupted, true, true, false, 143);
    assert!(p.write_response);
    assert_eq!(p.notice, Some("Saving partial response due to interruption...".to_string()));
    assert_eq!(p.exit_code, Some(143));
    let p = plan_end(GenerationEnd::Interrupted, false, true, false, 0);
    assert!(p.write_response);
    assert!(p.notice.is_none());
    let p = plan_end(GenerationEnd::Interrupted, true, true, true, 0);
    assert!(!p.write_response);
}

#[test]
fn failed_run_saves_partial_response_when_asked() {
    let p = plan_end(GenerationEnd::Failed, true, true, false, 0);
    assert!(p.write_response);
    assert_eq!(p.notice, Some("Saving partial response due to error...".to_string()));
    assert!(p.exit_code.is_none());
}

#[test]
fn processing_failure_codes() {
    assert_eq!(processing_exit_code("connection reset"), ExitCodes::BACKEND_UNREACHABLE);
    assert_eq!(processing_exit_code("authentication required"), ExitCodes::AUTH_FAILED);
    assert_eq!(processing_exit_code("model llama9 not found"), ExitCodes::MODEL_UNAVAILABLE);
    assert_eq!(processing_exit_code("bad file"), ExitCodes::FILE_ERROR);
    assert_eq!(processing_exit_code("Connection refused"), ExitCodes::BACKEND_UNREACHABLE);
    assert_eq!(processing_exit_code("Model not found"), ExitCodes::MODEL_UNAVAILABLE);
    let refused = prometheus_cli::backend::status_error(401, "Unauthorized");
    assert_eq!(processing_exit_code(&refused), ExitCodes::AUTH_FAILED);
}

#[test]
fn signal_exit_codes() {
    assert_eq!(interrupt_exit_code(0), 130);
    assert_eq!(interrupt_exit_code(143), 143);
}

#[test]
fn url_and_model_defaults() {
    assert_eq!(backend_url_choice(None, "http://localhost:11434"), "http://localhost:11434");
    assert_eq!(backend_url_choice(Some("http://x".to_string()), "http://localhost:11434"), "http://x");
    assert_eq!(
        backend_url_choice(Some("http://custom-server:8080/".to_string()), "http://localhost:11434"),
        "http://custom-server:8080"
    );
    assert_eq!(backend_url_choice(None, "http://localhost:11434//"), "http://localhost:11434");
    assert_eq!(model_or_default(None), "llama2");
    assert_eq!(model_or_default(Some("mistral".to_string())), "mistral");
}
