use prometheus_cli::exit_codes::{categorize_error, ExitCodes};

#[test]
fn test_exit_code_constants() {
    assert_eq!(ExitCodes::SUCCESS, 0);
    assert_eq!(ExitCodes::INVALID_ARGS, 1);
    assert_eq!(ExitCodes::BACKEND_UNREACHABLE, 2);
    assert_eq!(ExitCodes::AUTH_FAILED, 3);
    assert_eq!(ExitCodes::MODEL_UNAVAILABLE, 4);
    assert_eq!(ExitCodes::FILE_ERROR, 5);
    assert_eq!(ExitCodes::SIGINT, 130);
    assert_eq!(ExitCodes::SIGTERM, 143);
}

#[test]
fn test_categorize_backend_errors() {
    // Connection errors
    let error = "Failed to connect to http://localhost:11434";
    assert_eq!(categorize_error(&error), ExitCodes::BACKEND_UNREACHABLE);
    
    let error = "Connection refused";
    assert_eq!(categorize_error(&error), ExitCodes::BACKEND_UNREACHABLE);
    
    let error = "No route to host";
    assert_eq!(categorize_error(&error), ExitCodes::BACKEND_UNREACHABLE);
    
    let error = "Network is unreachable";
    assert_eq!(categorize_error(&error), ExitCodes::BACKEND_UNREACHABLE);
    
    // Timeout errors
    let error = "Request timed out";
    assert_eq!(categorize_error(&error), ExitCodes::BACKEND_UNREACHABLE);
    
    let error = "Connection timeout";
    assert_eq!(categorize_error(&error), ExitCodes::BACKEND_UNREACHABLE);
}

#[test]
fn test_categorize_auth_errors() {
    let error = "Unauthorized";
    assert_eq!(categorize_error(&error), ExitCodes::AUTH_FAILED);
    
    let error = "Authentication failed";
    assert_eq!(categorize_error(&error), ExitCodes::AUTH_FAILED);
    
    let error = "Invalid API key";
    assert_eq!(categorize_error(&error), ExitCodes::AUTH_FAILED);
    
    let error = "Permission denied";
    assert_eq!(categorize_error(&error), ExitCodes::AUTH_FAILED);
    
    let error = "Access denied";
    assert_eq!(categorize_error(&error), ExitCodes::AUTH_FAILED);
}

#[test]
fn test_categorize_model_errors() {
    let error = "Model not found";
    assert_eq!(categorize_error(&error), ExitCodes::MODEL_UNAVAILABLE);
    
    let error = "Model unavailable";
    assert_eq!(categorize_error(&error), ExitCodes::MODEL_UNAVAILABLE);
    
    let error = "Model loading failed";
    assert_eq!(categorize_error(&error), ExitCodes::MODEL_UNAVAILABLE);
    
    let error = "Unknown model: llama3";
    assert_eq!(categorize_error(&error), ExitCodes::MODEL_UNAVAILABLE);
}

#[test]
fn test_categorize_file_errors() {
    let error = "File not found: input.txt";
    assert_eq!(categorize_error(&error), ExitCodes::FILE_ERROR);
    
    let error = "No such file or directory";
    assert_eq!(categorize_error(&error), ExitCodes::FILE_ERROR);
    
    let error = "Cannot read file: permission denied";
    assert_eq!(categorize_error(&error), ExitCodes::FILE_ERROR);
    
    let error = "Cannot access file: input.txt";
    assert_eq!(categorize_error(&error), ExitCodes::FILE_ERROR);
    
    let error = "File appears to be binary: image.png";
    assert_eq!(categorize_error(&error), ExitCodes::FILE_ERROR);
    
    let error = "File too large: 5MB exceeds limit";
    assert_eq!(categorize_error(&error), ExitCodes::FILE_ERROR);
}

#[test]
fn test_categorize_argument_errors() {
    let error = "Prompt cannot be empty";
    assert_eq!(categorize_error(&error), ExitCodes::INVALID_ARGS);
    
    let error = "Invalid temperature: must be between 0.0 and 2.0";
    assert_eq!(categorize_error(&error), ExitCodes::INVALID_ARGS);
    
    let error = "Invalid max-tokens: must be positive integer";
    assert_eq!(categorize_error(&error), ExitCodes::INVALID_ARGS);
    
    let error = "Invalid argument: --unknown-flag";
    assert_eq!(categorize_error(&error), ExitCodes::INVALID_ARGS);
    
    let error = "Missing required argument";
    assert_eq!(categorize_error(&error), ExitCodes::INVALID_ARGS);
}

#[test]
fn test_categorize_unknown_errors() {
    // Unknown errors should default to INVALID_ARGS
    let error = "Some unknown error occurred";
    assert_eq!(categorize_error(&error), ExitCodes::INVALID_ARGS);
    
    let error = "Unexpected internal error";
    assert_eq!(categorize_error(&error), ExitCodes::INVALID_ARGS);
}

#[test]
fn test_case_insensitive_categorization() {
    // Test that error categorization is case-insensitive
    let error = "CONNECTION REFUSED";
    assert_eq!(categorize_error(&error), ExitCodes::BACKEND_UNREACHABLE);
    
    let error = "UNAUTHORIZED";
    assert_eq!(categorize_error(&error), ExitCodes::AUTH_FAILED);
    
    let error = "MODEL NOT FOUND";
    assert_eq!(categorize_error(&error), ExitCodes::MODEL_UNAVAILABLE);
    
    let error = "FILE NOT FOUND";
    assert_eq!(categorize_error(&error), ExitCodes::FILE_ERROR);
}

#[test]
fn test_error_message_substrings() {
    // Test that partial matches work correctly
    let error = "Backend connection failed to connect to server";
    assert_eq!(categorize_error(&error), ExitCodes::BACKEND_UNREACHABLE);
    
    let error = "User authentication failed due to invalid credentials";
    assert_eq!(categorize_error(&error), ExitCodes::AUTH_FAILED);
    
    let error = "The specified model not found in registry";
    assert_eq!(categorize_error(&error), ExitCodes::MODEL_UNAVAILABLE);
    
    let error = "Input file not found in current directory";
    assert_eq!(categorize_error(&error), ExitCodes::FILE_ERROR);
}

#[test]
fn test_multiple_error_indicators() {
    // Test errors that could match multiple categories
    // Should match the first category found in the order checked
    
    // This should match backend error (checked first) even though it mentions "permission"
    let error = "Failed to connect: permission denied by firewall";
    assert_eq!(categorize_error(&error), ExitCodes::BACKEND_UNREACHABLE);
    
    // This should match auth error even though it mentions "file"
    let error = "Permission denied when accessing file due to authentication failure";
    assert_eq!(categorize_error(&error), ExitCodes::AUTH_FAILED);
}

#[test]
fn test_signal_exit_codes() {
    // Test that signal exit codes follow Unix conventions
    assert_eq!(ExitCodes::SIGINT, 128 + 2);  // SIGINT is signal 2
    assert_eq!(ExitCodes::SIGTERM, 128 + 15); // SIGTERM is signal 15
}

#[test]
fn test_exit_code_ranges() {
    // Test that exit codes are in expected ranges
    assert!(ExitCodes::SUCCESS == 0);
    assert!(ExitCodes::INVALID_ARGS > 0 && ExitCodes::INVALID_ARGS < 128);
    assert!(ExitCodes::BACKEND_UNREACHABLE > 0 && ExitCodes::BACKEND_UNREACHABLE < 128);
    assert!(ExitCodes::AUTH_FAILED > 0 && ExitCodes::AUTH_FAILED < 128);
    assert!(ExitCodes::MODEL_UNAVAILABLE > 0 && ExitCodes::MODEL_UNAVAILABLE < 128);
    assert!(ExitCodes::FILE_ERROR > 0 && ExitCodes::FILE_ERROR < 128);
    assert!(ExitCodes::SIGINT >= 128);
    assert!(ExitCodes::SIGTERM >= 128);
}

#[test]
fn test_all_exit_codes_unique() {
    // Test that all exit codes are unique
    let codes = vec![
        ExitCodes::SUCCESS,
        ExitCodes::INVALID_ARGS,
        ExitCodes::BACKEND_UNREACHABLE,
        ExitCodes::AUTH_FAILED,
        ExitCodes::MODEL_UNAVAILABLE,
        ExitCodes::FILE_ERROR,
        ExitCodes::SIGINT,
        ExitCodes::SIGTERM,
    ];
    
    for (i, &code1) in codes.iter().enumerate() {
        for (j, &code2) in codes.iter().enumerate() {
            if i != j {
                assert_ne!(code1, code2, "Exit codes {} and {} are not unique", code1, code2);
            }
        }
    }
}

#[test]
fn file_permission_errors_without_authentication_are_file_errors() {
    assert_eq!(categorize_error("Cannot access file: permission denied"), ExitCodes::FILE_ERROR);
}

#[test]
fn file_too_large_anywhere_in_message_is_file_error() {
    assert_eq!(categorize_error("the file is too large"), ExitCodes::FILE_ERROR);
}

#[test]
fn categorized_codes_are_failures() {
    for e in ["", "x", "timeout", "access denied", "unknown model", "missing required"] {
        let code = categorize_error(e);
        assert!(code != ExitCodes::SUCCESS);
        assert!(code >= 1 && code <= 5);
    }
}

#[test]
fn exit_codes_ignore_letter_case() {
    assert_eq!(categorize_error("CONNECTION REFUSED"), ExitCodes::BACKEND_UNREACHABLE);
    assert_eq!(categorize_error("UNAUTHORIZED"), ExitCodes::AUTH_FAILED);
    assert_eq!(categorize_error("MODEL NOT FOUND"), ExitCodes::MODEL_UNAVAILABLE);
    assert_eq!(categorize_error("FILE NOT FOUND"), ExitCodes::FILE_ERROR);
    assert_eq!(categorize_error("Something Else"), ExitCodes::INVALID_ARGS);
    assert_eq!(categorize_error("Timed Out"), categorize_error("timed out"));
    assert_eq!(
        prometheus_cli::non_interactive::processing_exit_code("UNREACHABLE host"),
        prometheus_cli::non_interactive::processing_exit_code("unreachable HOST")
    );
}
