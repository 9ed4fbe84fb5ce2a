use prometheus_cli::error::{ErrorContext, ErrorDisplay};

#[test]
fn test_connection_error_display() {
    let mut display = ErrorDisplay::new();
    display.display_connection_error("http://localhost:11434", "Connection refused");

    let output = display.get_output();
    assert_eq!(output.len(), 1);
    assert!(output[0].contains("Failed to connect to http://localhost:11434"));
    assert!(output[0].contains("Connection refused"));
}

#[test]
fn test_timeout_error_display() {
    let mut display = ErrorDisplay::new();
    display.display_timeout_error(30);

    let output = display.get_output();
    assert_eq!(output.len(), 1);
    assert!(output[0].contains("Request timed out after 30s"));
}

#[test]
fn test_http_error_display() {
    let mut display = ErrorDisplay::new();
    display.display_http_error(404, "Model not found");

    let output = display.get_output();
    assert_eq!(output.len(), 1);
    assert!(output[0].contains("Backend error (404)"));
    assert!(output[0].contains("Model not found"));
}

#[test]
fn test_filesystem_error_display() {
    let mut display = ErrorDisplay::new();
    display.display_filesystem_error("save", "conversation.json", "Permission denied");

    let output = display.get_output();
    assert_eq!(output.len(), 1);
    assert!(output[0].contains("Failed to save conversation.json"));
    assert!(output[0].contains("Permission denied"));
}

#[test]
fn test_config_warning_display() {
    let mut display = ErrorDisplay::new();
    display.display_config_warning("File not found");

    let output = display.get_output();
    assert_eq!(output.len(), 1);
    assert!(output[0].contains("Warning: Failed to load configuration"));
    assert!(output[0].contains("File not found"));
    assert!(output[0].contains("Using default values"));
}

#[test]
fn test_markdown_fallback_display() {
    let mut display = ErrorDisplay::new();
    display.display_markdown_fallback();

    let output = display.get_output();
    assert_eq!(output.len(), 1);
    assert!(output[0].contains("Markdown rendering unavailable"));
    assert!(output[0].contains("displaying raw text"));
}

#[test]
fn test_multiple_errors() {
    let mut display = ErrorDisplay::new();
    display.display_connection_error("http://server1:8080", "Timeout");
    display.display_http_error(500, "Internal server error");
    display.display_filesystem_error("load", "config.toml", "Not found");

    let output = display.get_output();
    assert_eq!(output.len(), 3);
    assert!(output[0].contains("http://server1:8080"));
    assert!(output[1].contains("500"));
    assert!(output[2].contains("config.toml"));
}

#[test]
fn test_different_timeout_durations() {
    let mut display = ErrorDisplay::new();
    display.display_timeout_error(10);
    display.display_timeout_error(60);
    display.display_timeout_error(120);

    let output = display.get_output();
    assert_eq!(output.len(), 3);
    assert!(output[0].contains("10s"));
    assert!(output[1].contains("60s"));
    assert!(output[2].contains("120s"));
}

#[test]
fn test_different_http_status_codes() {
    let mut display = ErrorDisplay::new();
    display.display_http_error(400, "Bad request");
    display.display_http_error(401, "Unauthorized");
    display.display_http_error(404, "Not found");
    display.display_http_error(500, "Internal error");
    display.display_http_error(503, "Service unavailable");

    let output = display.get_output();
    assert_eq!(output.len(), 5);
    assert!(output[0].contains("400"));
    assert!(output[1].contains("401"));
    assert!(output[2].contains("404"));
    assert!(output[3].contains("500"));
    assert!(output[4].contains("503"));
}

#[test]
fn test_filesystem_operations() {
    let mut display = ErrorDisplay::new();
    display.display_filesystem_error("save", "file1.txt", "Disk full");
    display.display_filesystem_error("load", "file2.txt", "Not found");
    display.display_filesystem_error("delete", "file3.txt", "Permission denied");

    let output = display.get_output();
    assert_eq!(output.len(), 3);
    assert!(output[0].contains("save"));
    assert!(output[1].contains("load"));
    assert!(output[2].contains("delete"));
}

/// Test connection failure display
/// **Validates: Requirements 7.1**
#[test]
fn test_connection_failure_display() {
    let mut display = ErrorDisplay::new();
    
    // Test with localhost URL
    display.display_connection_error(
        "http://localhost:11434",
        "Connection refused"
    );
    
    let output = display.get_output();
    assert_eq!(output.len(), 1);
    assert!(output[0].contains("Failed to connect to http://localhost:11434"));
    assert!(output[0].contains("Connection refused"));
}

/// Test connection failure with different URLs
/// **Validates: Requirements 7.1**
#[test]
fn test_connection_failure_different_urls() {
    let mut display = ErrorDisplay::new();
    
    // Test with remote URL
    display.display_connection_error(
        "http://remote-server:8080",
        "Network is unreachable"
    );
    
    // Test with HTTPS URL
    display.display_connection_error(
        "https://api.example.com",
        "No route to host"
    );
    
    let output = display.get_output();
    assert_eq!(output.len(), 2);
    assert!(output[0].contains("remote-server:8080"));
    assert!(output[0].contains("Network is unreachable"));
    assert!(output[1].contains("api.example.com"));
    assert!(output[1].contains("No route to host"));
}

/// Test timeout display
/// **Validates: Requirements 7.3**
#[test]
fn test_timeout_display() {
    let mut display = ErrorDisplay::new();
    
    // Test with 30 second timeout
    display.display_timeout_error(30);
    
    let output = display.get_output();
    assert_eq!(output.len(), 1);
    assert!(output[0].contains("Request timed out after 30s"));
}

/// Test timeout display with different durations
/// **Validates: Requirements 7.3**
#[test]
fn test_timeout_different_durations() {
    let mut display = ErrorDisplay::new();
    
    display.display_timeout_error(10);
    display.display_timeout_error(60);
    display.display_timeout_error(120);
    
    let output = display.get_output();
    assert_eq!(output.len(), 3);
    assert!(output[0].contains("10s"));
    assert!(output[1].contains("60s"));
    assert!(output[2].contains("120s"));
}

/// Test config loading failure
/// **Validates: Requirements 7.4**
#[test]
fn test_config_loading_failure() {
    let mut display = ErrorDisplay::new();
    
    // Test with file not found error
    display.display_config_warning("File not found: config.toml");
    
    let output = display.get_output();
    assert_eq!(output.len(), 1);
    assert!(output[0].contains("Warning: Failed to load configuration"));
    assert!(output[0].contains("File not found: config.toml"));
    assert!(output[0].contains("Using default values"));
}

/// Test config loading failure with different errors
/// **Validates: Requirements 7.4**
#[test]
fn test_config_loading_different_errors() {
    let mut display = ErrorDisplay::new();
    
    display.display_config_warning("Permission denied");
    display.display_config_warning("Invalid TOML syntax");
    display.display_config_warning("Missing required field");
    
    let output = display.get_output();
    assert_eq!(output.len(), 3);
    assert!(output[0].contains("Permission denied"));
    assert!(output[1].contains("Invalid TOML syntax"));
    assert!(output[2].contains("Missing required field"));
    
    // All should mention using default values
    for line in &output {
        assert!(line.contains("Using default values"));
    }
}

/// Test conversation save failure
/// **Validates: Requirements 7.5**
#[test]
fn test_conversation_save_failure() {
    let mut display = ErrorDisplay::new();
    
    // Test with disk full error
    display.display_filesystem_error(
        "save",
        "conversation.json",
        "No space left on device"
    );
    
    let output = display.get_output();
    assert_eq!(output.len(), 1);
    assert!(output[0].contains("Failed to save conversation.json"));
    assert!(output[0].contains("No space left on device"));
}

/// Test conversation save failure with different errors
/// **Validates: Requirements 7.5**
#[test]
fn test_conversation_save_different_errors() {
    let mut display = ErrorDisplay::new();
    
    display.display_filesystem_error(
        "save",
        "conversation.json",
        "Permission denied"
    );
    
    display.display_filesystem_error(
        "save",
        "conversation.json",
        "Read-only file system"
    );
    
    display.display_filesystem_error(
        "save",
        "conversation.json",
        "I/O error"
    );
    
    let output = display.get_output();
    assert_eq!(output.len(), 3);
    assert!(output[0].contains("Permission denied"));
    assert!(output[1].contains("Read-only file system"));
    assert!(output[2].contains("I/O error"));
    
    // All should mention the operation and file
    for line in &output {
        assert!(line.contains("save"));
        assert!(line.contains("conversation.json"));
    }
}

/// Test filesystem error with different operations
/// **Validates: Requirements 7.4, 7.5**
#[test]
fn test_filesystem_different_operations() {
    let mut display = ErrorDisplay::new();
    
    display.display_filesystem_error("save", "file1.txt", "Error 1");
    display.display_filesystem_error("load", "file2.txt", "Error 2");
    display.display_filesystem_error("delete", "file3.txt", "Error 3");
    
    let output = display.get_output();
    assert_eq!(output.len(), 3);
    assert!(output[0].contains("save") && output[0].contains("file1.txt"));
    assert!(output[1].contains("load") && output[1].contains("file2.txt"));
    assert!(output[2].contains("delete") && output[2].contains("file3.txt"));
}

/// Test multiple error scenarios in sequence
/// **Validates: Requirements 7.1, 7.3, 7.4, 7.5**
#[test]
fn test_multiple_error_scenarios() {
    let mut display = ErrorDisplay::new();
    
    // Connection error
    display.display_connection_error("http://localhost:11434", "Connection refused");
    
    // Timeout error
    display.display_timeout_error(30);
    
    // Config error
    display.display_config_warning("File not found");
    
    // Filesystem error
    display.display_filesystem_error("save", "conversation.json", "Disk full");
    
    let output = display.get_output();
    assert_eq!(output.len(), 4);
    
    // Verify each error type is present
    assert!(output[0].contains("Failed to connect"));
    assert!(output[1].contains("timed out"));
    assert!(output[2].contains("Warning"));
    assert!(output[3].contains("Failed to save"));
}

/// Test error messages preserve special characters
/// **Validates: Requirements 7.1, 7.2, 7.3, 7.4, 7.5**
#[test]
fn test_error_messages_preserve_special_characters() {
    let mut display = ErrorDisplay::new();
    
    // Test with special characters in error message
    display.display_connection_error(
        "http://localhost:11434",
        "Connection refused: errno=111 (ECONNREFUSED)"
    );
    
    let output = display.get_output();
    assert!(output[0].contains("errno=111"));
    assert!(output[0].contains("ECONNREFUSED"));
}

/// Test error messages with long URLs
/// **Validates: Requirements 7.1**
#[test]
fn test_error_messages_with_long_urls() {
    let mut display = ErrorDisplay::new();
    
    let long_url = "http://very-long-hostname-that-exceeds-normal-length.example.com:8080/api/v1/endpoint";
    display.display_connection_error(long_url, "Connection timeout");
    
    let output = display.get_output();
    assert!(output[0].contains(long_url));
    assert!(output[0].contains("Connection timeout"));
}

/// Test error messages with unicode
/// **Validates: Requirements 7.1, 7.2, 7.3, 7.4, 7.5**
#[test]
fn test_error_messages_with_unicode() {
    let mut display = ErrorDisplay::new();
    
    display.display_filesystem_error(
        "save",
        "文件.json",
        "无法保存文件"
    );
    
    let output = display.get_output();
    assert!(output[0].contains("文件.json"));
    assert!(output[0].contains("无法保存文件"));
}

#[test]
fn context_names_backend_connection_failures() {
    let mut display = ErrorDisplay::new();
    display.display_error_with_context(
        "Failed to connect to http://localhost:11434",
        ErrorContext::Backend { url: "http://localhost:11434".to_string(), timeout_seconds: 30 },
    );
    let output = display.get_output();
    assert_eq!(
        output,
        vec!["Error: Failed to connect to http://localhost:11434: Failed to connect to http://localhost:11434".to_string()]
    );
}

#[test]
fn context_names_backend_timeouts() {
    let mut display = ErrorDisplay::new();
    display.display_error_with_context(
        "operation timed out",
        ErrorContext::Backend { url: "http://x".to_string(), timeout_seconds: 45 },
    );
    assert_eq!(display.get_output(), vec!["Error: Request timed out after 45s".to_string()]);
}

#[test]
fn context_reads_status_and_message_of_http_errors() {
    let mut display = ErrorDisplay::new();
    display.display_error_with_context(
        "Backend returned error status: 404 - model not found",
        ErrorContext::NoContext,
    );
    assert_eq!(display.get_output(), vec!["Error: Backend error (404): model not found".to_string()]);
}

#[test]
fn context_names_file_operations() {
    let mut display = ErrorDisplay::new();
    display.display_error_with_context(
        "Failed to save: disk full",
        ErrorContext::Filesystem { operation: "save".to_string(), path: "conversation".to_string() },
    );
    assert_eq!(
        display.get_output(),
        vec!["Error: Failed to save conversation: Failed to save: disk full".to_string()]
    );
}

#[test]
fn http_message_stops_at_the_next_separator() {
    let mut display = ErrorDisplay::new();
    display.display_error_with_context(
        "Backend returned error status: 500 - oops - more",
        ErrorContext::NoContext,
    );
    assert_eq!(display.get_output(), vec!["Error: Backend error (500): oops".to_string()]);
}

#[test]
fn context_without_match_shows_error_as_is() {
    let mut display = ErrorDisplay::new();
    display.display_error_with_context("something odd", ErrorContext::NoContext);
    assert_eq!(display.get_output(), vec!["Error: something odd".to_string()]);
}

#[test]
fn info_lines_are_prefixed_as_info() {
    let mut display = ErrorDisplay::new();
    display.display_markdown_fallback();
    assert_eq!(
        display.get_output(),
        vec!["Info: Note: Markdown rendering unavailable, displaying raw text".to_string()]
    );
}

#[test]
fn backend_status_error_is_shown_with_status_and_message() {
    let message = prometheus_cli::backend::status_error(503, "model is loading");
    let mut display = ErrorDisplay::new();
    display.display_error_with_context(&message, ErrorContext::NoContext);
    assert_eq!(display.get_output(), vec!["Error: Backend error (503): model is loading".to_string()]);
}
