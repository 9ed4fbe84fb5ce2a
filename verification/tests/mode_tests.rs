use prometheus_cli::mode::{ExecutionMode, ModeDetector, NonInteractiveOptions, TerminalState};
use std::io::{self, IsTerminal};

/// The terminal state of this process, as the application reads it.
fn term() -> TerminalState {
    TerminalState {
        stdin_is_terminal: io::stdin().is_terminal(),
        stdout_is_terminal: io::stdout().is_terminal(),
        stderr_is_terminal: io::stderr().is_terminal(),
    }
}

#[test]
fn test_non_interactive_options_creation() {
    let options = NonInteractiveOptions::new(true, false, true, false, true);
    assert!(options.quiet);
    assert!(!options.json);
    assert!(options.no_stream);
    assert!(!options.verbose);
    assert!(options.save_on_interrupt);
}

#[test]
fn test_mode_detection_with_prompt_arg() {
    let result = ModeDetector::detect_mode(
        Some("Hello world"),
        false,
        false,
        false,
        false,
        false,
    Ok(None),
    &term(),
).unwrap();
    
    match result {
        ExecutionMode::NonInteractive { prompt, options } => {
            assert_eq!(prompt, "Hello world");
            // Note: quiet may be automatically enabled if stdout is not a terminal (during tests)
            assert!(!options.json);
        }
        ExecutionMode::Interactive => panic!("Expected non-interactive mode"),
    }
}

#[test]
fn test_mode_detection_without_prompt_defaults_to_interactive() {
    let result = ModeDetector::detect_mode(
        None,
        false,
        false,
        false,
        false,
        false,
    Ok(None),
    &term(),
).unwrap();
    
    assert_eq!(result, ExecutionMode::Interactive);
}

#[test]
fn test_empty_prompt_still_creates_non_interactive_mode() {
    let result = ModeDetector::detect_mode(
        Some(""),
        false,
        false,
        false,
        false,
        false,
    Ok(None),
    &term(),
).unwrap();
    
    match result {
        ExecutionMode::NonInteractive { prompt, .. } => {
            assert_eq!(prompt, "");
        }
        ExecutionMode::Interactive => panic!("Expected non-interactive mode"),
    }
}

#[test]
fn test_whitespace_prompt_preserves_content() {
    let result = ModeDetector::detect_mode(
        Some("   \n  "),
        false,
        false,
        false,
        false,
        false,
    Ok(None),
    &term(),
).unwrap();
    
    match result {
        ExecutionMode::NonInteractive { prompt, .. } => {
            assert_eq!(prompt, "   \n  ");
        }
        ExecutionMode::Interactive => panic!("Expected non-interactive mode"),
    }
}

#[test]
fn test_options_are_passed_correctly() {
    let result = ModeDetector::detect_mode(
        Some("test"),
        true,  // quiet
        true,  // json
        true,  // no_stream
        true,  // verbose
        true,  // save_on_interrupt
    Ok(None),
    &term(),
).unwrap();
    
    match result {
        ExecutionMode::NonInteractive { options, .. } => {
            assert!(options.quiet);
            assert!(options.json);
            assert!(options.no_stream);
            assert!(options.verbose);
            assert!(options.save_on_interrupt);
        }
        ExecutionMode::Interactive => panic!("Expected non-interactive mode"),
    }
}

#[test]
fn test_binary_content_detection() {
    // Test with normal text
    assert!(!ModeDetector::contains_binary_content("Hello world\nThis is normal text\t"));
    
    // Test with binary content (control characters)
    assert!(ModeDetector::contains_binary_content("Hello\x00world"));
    assert!(ModeDetector::contains_binary_content("Text with \x1b[31mANSI\x1b[0m"));
    
    // Test with allowed control characters
    assert!(!ModeDetector::contains_binary_content("Line 1\nLine 2\r\nTabbed\ttext"));
}

#[test]
fn test_execution_mode_equality() {
    let mode1 = ExecutionMode::Interactive;
    let mode2 = ExecutionMode::Interactive;
    assert_eq!(mode1, mode2);

    let options = NonInteractiveOptions::new(false, false, false, false, false);
    let mode3 = ExecutionMode::NonInteractive {
        prompt: "test".to_string(),
        options: options.clone(),
    };
    let mode4 = ExecutionMode::NonInteractive {
        prompt: "test".to_string(),
        options,
    };
    assert_eq!(mode3, mode4);

    assert_ne!(mode1, mode3);
}

#[test]
fn mode_test_binary_content_detection_comprehensive() {
    // Test normal text content
    assert!(!ModeDetector::contains_binary_content("Hello world"));
    assert!(!ModeDetector::contains_binary_content("Multi\nline\ntext"));
    assert!(!ModeDetector::contains_binary_content("Text with\ttabs"));
    assert!(!ModeDetector::contains_binary_content("Windows\r\nline endings"));
    assert!(!ModeDetector::contains_binary_content(""));
    
    // Test with various Unicode characters
    assert!(!ModeDetector::contains_binary_content("Unicode: 你好 🌍 café"));
    assert!(!ModeDetector::contains_binary_content("Emojis: 🚀 💻 ⭐"));
    
    // Test binary content (control characters)
    assert!(ModeDetector::contains_binary_content("Null byte: \x00"));
    assert!(ModeDetector::contains_binary_content("Bell character: \x07"));
    assert!(ModeDetector::contains_binary_content("Escape sequence: \x1b[31m"));
    assert!(ModeDetector::contains_binary_content("Form feed: \x0c"));
    assert!(ModeDetector::contains_binary_content("Vertical tab: \x0b"));
    
    // Test mixed content
    assert!(ModeDetector::contains_binary_content("Normal text\x00with null"));
    assert!(ModeDetector::contains_binary_content("ANSI colors: \x1b[31mred\x1b[0m"));
}

#[test]
fn test_mode_detection_with_different_prompt_types() {
    // Test with various prompt types that might come from stdin
    let test_cases = vec![
        ("Simple prompt", "Simple prompt"),
        ("Multi\nline\nprompt", "Multi\nline\nprompt"),
        ("Prompt with\ttabs", "Prompt with\ttabs"),
        ("Unicode prompt: 你好", "Unicode prompt: 你好"),
        ("Empty string", ""),
        ("   Whitespace padded   ", "   Whitespace padded   "),
    ];

    for (description, prompt) in test_cases {
        let result = ModeDetector::detect_mode(
            Some(prompt),
            false, false, false, false, false,
    Ok(None),
    &term(),
).unwrap();
        
        match result {
            ExecutionMode::NonInteractive { prompt: detected, .. } => {
                assert_eq!(detected, prompt, "Failed for case: {}", description);
            }
            ExecutionMode::Interactive => {
                panic!("Expected non-interactive mode for case: {}", description);
            }
        }
    }
}

#[test]
fn test_mode_detection_preserves_prompt_exactly() {
    // Test that prompts are preserved exactly without modification
    let prompts = vec![
        "Leading spaces   ",
        "   Trailing spaces",
        "\nLeading newline",
        "Trailing newline\n",
        "\n\nMultiple newlines\n\n",
        "Mixed\n\twhitespace\r\n",
    ];

    for prompt in prompts {
        let result = ModeDetector::detect_mode(
            Some(prompt),
            false, false, false, false, false,
    Ok(None),
    &term(),
).unwrap();
        
        if let ExecutionMode::NonInteractive { prompt: detected, .. } = result {
            assert_eq!(detected, prompt, "Prompt was modified: '{}'", prompt);
        } else {
            panic!("Expected non-interactive mode");
        }
    }
}

#[test]
fn test_automatic_quiet_mode_detection() {
    // Test that quiet mode is automatically enabled when stdout is not a terminal
    // Note: In test environment, stdout.is_terminal() behavior may vary
    
    let result = ModeDetector::detect_mode(
        Some("test prompt"),
        false, // explicit quiet = false
        false, false, false, false,
    Ok(None),
    &term(),
).unwrap();
    
    if let ExecutionMode::NonInteractive { options, .. } = result {
        // The quiet flag should be set based on terminal detection
        // In tests, this might be true or false depending on test runner
        // We just verify the logic doesn't crash
        assert!(options.quiet || !options.quiet); // Always true, just checking no panic
    }
}

#[test]
fn test_options_combination_scenarios() {
    // Test various combinations of options
    let test_cases = vec![
        (true, true, true, true, true),   // All enabled
        (false, false, false, false, false), // All disabled
        (true, false, true, false, true),  // Mixed
        (false, true, false, true, false), // Mixed opposite
    ];

    for (quiet, json, no_stream, verbose, save_on_interrupt) in test_cases {
        let result = ModeDetector::detect_mode(
            Some("test"),
            quiet, json, no_stream, verbose, save_on_interrupt,
    Ok(None),
    &term(),
).unwrap();
        
        if let ExecutionMode::NonInteractive { options, .. } = result {
            assert_eq!(options.json, json);
            assert_eq!(options.no_stream, no_stream);
            assert_eq!(options.verbose, verbose);
            assert_eq!(options.save_on_interrupt, save_on_interrupt);
            // Note: quiet might be modified by terminal detection
        }
    }
}

#[test]
fn test_terminal_detection_functions() {
    // Test that terminal detection functions work without panicking
    let auto_quiet = ModeDetector::should_auto_quiet(&term());
    let stdout_redirected = ModeDetector::is_stdout_redirected(&term());
    let stderr_redirected = ModeDetector::is_stderr_redirected(&term());
    let is_piped = ModeDetector::is_piped(&term());
    
    // These should be consistent
    assert_eq!(auto_quiet, stdout_redirected);
    assert_eq!(is_piped, stdout_redirected);
    
    // All should return boolean values without panicking
    assert!(auto_quiet || !auto_quiet);
    assert!(stdout_redirected || !stdout_redirected);
    assert!(stderr_redirected || !stderr_redirected);
    assert!(is_piped || !is_piped);
}

/// Test terminal vs non-terminal detection
/// **Validates: Requirements 8.1, 8.2, 8.3, 8.4**
#[test]
fn test_terminal_vs_non_terminal_detection() {
    // Test that terminal detection functions are consistent
    let stdout_is_terminal = io::stdout().is_terminal();
    let stderr_is_terminal = io::stderr().is_terminal();
    
    // Our functions should match the underlying IsTerminal trait
    assert_eq!(ModeDetector::is_stdout_redirected(&term()), !stdout_is_terminal);
    assert_eq!(ModeDetector::is_stderr_redirected(&term()), !stderr_is_terminal);
    assert_eq!(ModeDetector::should_auto_quiet(&term()), !stdout_is_terminal);
    assert_eq!(ModeDetector::is_piped(&term()), !stdout_is_terminal);
    
    // Test that the functions are deterministic (calling multiple times gives same result)
    assert_eq!(ModeDetector::should_auto_quiet(&term()), ModeDetector::should_auto_quiet(&term()));
    assert_eq!(ModeDetector::is_stdout_redirected(&term()), ModeDetector::is_stdout_redirected(&term()));
    assert_eq!(ModeDetector::is_stderr_redirected(&term()), ModeDetector::is_stderr_redirected(&term()));
    assert_eq!(ModeDetector::is_piped(&term()), ModeDetector::is_piped(&term()));
}

/// Test automatic quiet mode activation
/// **Validates: Requirements 8.1, 8.2, 8.3, 8.4**
#[test]
fn test_automatic_quiet_mode_activation() {
    // Test that quiet mode is automatically enabled when stdout is not a terminal
    let should_auto_quiet = ModeDetector::should_auto_quiet(&term());
    
    // Test with explicit quiet = false
    let result = ModeDetector::detect_mode(
        Some("test prompt"),
        false, // explicit quiet = false
        false, false, false, false,
    Ok(None),
    &term(),
).unwrap();
    
    if let ExecutionMode::NonInteractive { options, .. } = result {
        // If stdout is not a terminal, quiet should be enabled automatically
        // If stdout IS a terminal, quiet should match the explicit setting (false)
        let expected_quiet = false || should_auto_quiet;
        assert_eq!(options.quiet, expected_quiet);
    } else {
        panic!("Expected non-interactive mode");
    }

    // Test with explicit quiet = true
    let result = ModeDetector::detect_mode(
        Some("test prompt"),
        true, // explicit quiet = true
        false, false, false, false,
    Ok(None),
    &term(),
).unwrap();
    
    if let ExecutionMode::NonInteractive { options, .. } = result {
        // Quiet should always be true when explicitly set
        assert!(options.quiet);
    } else {
        panic!("Expected non-interactive mode");
    }
}

/// Test output redirection handling
/// **Validates: Requirements 8.1, 8.2, 8.3, 8.4**
#[test]
fn test_output_redirection_handling() {
    // Test that we can detect output redirection
    let stdout_redirected = ModeDetector::is_stdout_redirected(&term());
    let stderr_redirected = ModeDetector::is_stderr_redirected(&term());
    
    // Test that redirection detection affects mode detection
    let result = ModeDetector::detect_mode(
        Some("test"),
        false, false, false, false, false,
    Ok(None),
    &term(),
).unwrap();
    
    if let ExecutionMode::NonInteractive { options, .. } = result {
        // If stdout is redirected, quiet should be automatically enabled
        if stdout_redirected {
            assert!(options.quiet, "Quiet mode should be auto-enabled when stdout is redirected");
        }
        // If stdout is not redirected, quiet should match the explicit setting (false)
        if !stdout_redirected {
            // Note: In test environments, this might still be true due to test runner behavior
            // We just verify the logic doesn't crash
            assert!(options.quiet || !options.quiet);
        }
    }
    
    // Test that stderr redirection doesn't affect quiet mode (only stdout does)
    // This is implicit in our implementation - stderr redirection is detected but doesn't
    // automatically enable quiet mode, only stdout redirection does
    assert!(stderr_redirected || !stderr_redirected); // Just verify it doesn't panic
}

/// Test pipe detection and behavior
/// **Validates: Requirements 8.1, 8.2, 8.3, 8.4**
#[test]
fn test_pipe_detection_and_behavior() {
    let is_piped = ModeDetector::is_piped(&term());
    let stdout_redirected = ModeDetector::is_stdout_redirected(&term());
    
    // Pipe detection should be equivalent to stdout redirection
    assert_eq!(is_piped, stdout_redirected);
    
    // Test that pipe detection affects mode behavior
    let result = ModeDetector::detect_mode(
        Some("test prompt for pipe"),
        false, false, false, false, false,
    Ok(None),
    &term(),
).unwrap();
    
    if let ExecutionMode::NonInteractive { options, .. } = result {
        // If we're in a pipe, quiet mode should be enabled
        if is_piped {
            assert!(options.quiet, "Quiet mode should be enabled in pipe chains");
        }
    }
}

/// Test terminal detection edge cases
/// **Validates: Requirements 8.1, 8.2, 8.3, 8.4**
#[test]
fn test_terminal_detection_edge_cases() {
    // Test that terminal detection works with different option combinations
    let test_cases = vec![
        (true, true, true, true, true),   // All options enabled
        (false, false, false, false, false), // All options disabled
        (true, false, true, false, true),  // Mixed options
    ];

    for (quiet, json, no_stream, verbose, save_on_interrupt) in test_cases {
        let result = ModeDetector::detect_mode(
            Some("test"),
            quiet, json, no_stream, verbose, save_on_interrupt,
    Ok(None),
    &term(),
).unwrap();
        
        if let ExecutionMode::NonInteractive { options, .. } = result {
            // Verify that auto-quiet logic is applied correctly
            let expected_quiet = quiet || ModeDetector::should_auto_quiet(&term());
            assert_eq!(options.quiet, expected_quiet);
            
            // Other options should be preserved
            assert_eq!(options.json, json);
            assert_eq!(options.no_stream, no_stream);
            assert_eq!(options.verbose, verbose);
            assert_eq!(options.save_on_interrupt, save_on_interrupt);
        }
    }
}

/// Test that terminal detection is consistent across calls
/// **Validates: Requirements 8.1, 8.2, 8.3, 8.4**
#[test]
fn test_terminal_detection_consistency() {
    // Call terminal detection functions multiple times and verify consistency
    let results1 = (
        ModeDetector::should_auto_quiet(&term()),
        ModeDetector::is_stdout_redirected(&term()),
        ModeDetector::is_stderr_redirected(&term()),
        ModeDetector::is_piped(&term()),
    );
    
    let results2 = (
        ModeDetector::should_auto_quiet(&term()),
        ModeDetector::is_stdout_redirected(&term()),
        ModeDetector::is_stderr_redirected(&term()),
        ModeDetector::is_piped(&term()),
    );
    
    let results3 = (
        ModeDetector::should_auto_quiet(&term()),
        ModeDetector::is_stdout_redirected(&term()),
        ModeDetector::is_stderr_redirected(&term()),
        ModeDetector::is_piped(&term()),
    );
    
    // All calls should return the same results
    assert_eq!(results1, results2);
    assert_eq!(results2, results3);
    assert_eq!(results1, results3);
    
    // Verify internal consistency
    assert_eq!(results1.0, results1.1); // should_auto_quiet == is_stdout_redirected
    assert_eq!(results1.1, results1.3); // is_stdout_redirected == is_piped
}

#[test]
fn test_stdin_content_validation() {
    // Test valid UTF-8 content that should be accepted
    let valid_contents = vec![
        "Simple text content",
        "Multi\nline\ncontent",
        "Content with\ttabs",
        "Unicode content: 你好 🌍",
        "Special chars: !@#$%^&*()",
        "JSON: {\"key\": \"value\"}",
        "Code: fn main() { println!(\"Hello\"); }",
    ];
    
    for content in valid_contents {
        assert!(!ModeDetector::contains_binary_content(content), 
               "Valid content rejected: {}", content);
    }
    
    // Test binary content that should be rejected
    let binary_contents = vec![
        "Null byte: \x00",
        "Bell character: \x07", 
        "Escape sequence: \x1b[31m",
        "Form feed: \x0c",
        "Vertical tab: \x0b",
        "Backspace: \x08",
    ];
    
    for content in binary_contents {
        assert!(ModeDetector::contains_binary_content(content),
               "Binary content accepted: {:?}", content);
    }
}

#[test]
fn test_stdin_processing_logic() {
    // Test the logic that would be used for stdin processing
    // Since we can't easily test actual stdin reading in unit tests,
    // we test the validation and processing logic
    
    // Test that valid content would be processed correctly
    let test_content = "Valid stdin content\nwith multiple lines";
    
    // Verify it passes binary detection
    assert!(!ModeDetector::contains_binary_content(test_content));
    
    // Test that if this content were from stdin, it would create non-interactive mode
    // We simulate this by testing mode detection with no prompt arg
    let result = ModeDetector::detect_mode(
        None, // No prompt argument
        false, false, false, false, false,
    Ok(None),
    &term(),
);
    
    // In test environment, this returns Interactive since no actual stdin
    // But it should not error
    assert!(result.is_ok());
    
    // Test that binary content would be rejected
    let binary_content = "Binary\x00content";
    assert!(ModeDetector::contains_binary_content(binary_content));
}

#[test]
fn test_large_stdin_content_handling() {
    // Test handling of large content (simulating what stdin processing would do)
    let large_content = "a".repeat(2_000_000); // 2MB content
    
    // Should not contain binary characters
    assert!(!ModeDetector::contains_binary_content(&large_content));
    
    // The actual stdin reading would warn about large content
    // We can't test the warning directly, but we can test that
    // large content doesn't break the binary detection
    assert!(!ModeDetector::contains_binary_content(&large_content));
}

#[test]
fn test_stdin_utf8_validation() {
    // Test UTF-8 validation (this is handled by read_to_string)
    // We test that our binary detection works with various UTF-8 content
    
    let utf8_contents = vec![
        "ASCII content",
        "Latin-1: café résumé",
        "Cyrillic: Привет мир", 
        "Chinese: 你好世界",
        "Japanese: こんにちは世界",
        "Arabic: مرحبا بالعالم",
        "Emoji: 🌍 🚀 💻 ⭐",
        "Mixed: Hello 世界 🌍",
    ];
    
    for content in utf8_contents {
        assert!(!ModeDetector::contains_binary_content(content),
               "UTF-8 content rejected: {}", content);
    }
}

#[test]
fn test_mode_detection_error_cases() {
    // Test that mode detection handles edge cases gracefully
    
    // Very long prompt (should not error)
    let long_prompt = "a".repeat(100_000);
    let result = ModeDetector::detect_mode(
        Some(&long_prompt),
        false, false, false, false, false,
    Ok(None),
    &term(),
);
    assert!(result.is_ok());
    
    // Prompt with special characters
    let special_prompt = "Prompt with special chars: !@#$%^&*()[]{}|\\:;\"'<>?,./";
    let result = ModeDetector::detect_mode(
        Some(special_prompt),
        false, false, false, false, false,
    Ok(None),
    &term(),
);
    assert!(result.is_ok());
}

/// Test that interactive mode still works when no arguments provided
/// **Validates: Requirements 1.1, 1.4**
#[test]
fn test_interactive_mode_activation() {
    // Test with no prompt argument - should default to interactive mode
    let mode = ModeDetector::detect_mode(
        None,    // no prompt
        false,   // quiet
        false,   // json
        false,   // no_stream
        false,   // verbose
        false,   // save_on_interrupt
    Ok(None),
    &term(),
).unwrap();

    match mode {
        ExecutionMode::Interactive => {
            // This is expected
        }
        ExecutionMode::NonInteractive { .. } => {
            panic!("Expected Interactive mode, got NonInteractive");
        }
    }
}

/// Test that non-interactive mode activates correctly with prompt argument
/// **Validates: Requirements 1.1, 1.4**
#[test]
fn test_non_interactive_mode_activation() {
    let test_prompt = "Test prompt for non-interactive mode";
    
    let mode = ModeDetector::detect_mode(
        Some(test_prompt),
        false,   // quiet
        false,   // json
        false,   // no_stream
        false,   // verbose
        false,   // save_on_interrupt
    Ok(None),
    &term(),
).unwrap();

    match mode {
        ExecutionMode::NonInteractive { prompt, options } => {
            assert_eq!(prompt, test_prompt);
            // Note: quiet may be automatically enabled if stdout is not a terminal (during tests)
            assert!(!options.json);
            assert!(!options.no_stream);
            assert!(!options.verbose);
            assert!(!options.save_on_interrupt);
        }
        ExecutionMode::Interactive => {
            panic!("Expected NonInteractive mode, got Interactive");
        }
    }
}

/// Test mode switching with different argument combinations
/// **Validates: Requirements 1.1, 1.4**
#[test]
fn test_mode_switching_combinations() {
    // Test 1: Empty prompt should still trigger non-interactive mode
    let mode = ModeDetector::detect_mode(
        Some(""),
        false, false, false, false, false,
    Ok(None),
    &term(),
).unwrap();

    match mode {
        ExecutionMode::NonInteractive { prompt, .. } => {
            assert_eq!(prompt, "");
        }
        ExecutionMode::Interactive => {
            panic!("Expected NonInteractive mode even with empty prompt");
        }
    }

    // Test 2: Whitespace-only prompt should trigger non-interactive mode
    let mode = ModeDetector::detect_mode(
        Some("   \t\n  "),
        false, false, false, false, false,
    Ok(None),
    &term(),
).unwrap();

    match mode {
        ExecutionMode::NonInteractive { prompt, .. } => {
            assert_eq!(prompt, "   \t\n  ");
        }
        ExecutionMode::Interactive => {
            panic!("Expected NonInteractive mode with whitespace prompt");
        }
    }

    // Test 3: All flags enabled
    let mode = ModeDetector::detect_mode(
        Some("test"),
        true, true, true, true, true,
    Ok(None),
    &term(),
).unwrap();

    match mode {
        ExecutionMode::NonInteractive { options, .. } => {
            assert!(options.quiet);
            assert!(options.json);
            assert!(options.no_stream);
            assert!(options.verbose);
            assert!(options.save_on_interrupt);
        }
        ExecutionMode::Interactive => {
            panic!("Expected NonInteractive mode with all flags");
        }
    }
}

fn redirected() -> TerminalState {
    TerminalState { stdin_is_terminal: false, stdout_is_terminal: false, stderr_is_terminal: true }
}

fn interactive_terminal() -> TerminalState {
    TerminalState { stdin_is_terminal: true, stdout_is_terminal: true, stderr_is_terminal: true }
}

#[test]
fn piped_input_is_appended_to_the_prompt_argument() {
    let mode = ModeDetector::detect_mode(
        Some("Explain"),
        false,
        false,
        false,
        false,
        false,
        Ok(Some("the log".to_string())),
        &interactive_terminal(),
    )
    .unwrap();
    match mode {
        ExecutionMode::NonInteractive { prompt, options } => {
            assert_eq!(prompt, "Explain\nthe log");
            assert!(!options.quiet);
        }
        ExecutionMode::Interactive => panic!("Expected non-interactive mode"),
    }
}

#[test]
fn piped_input_after_an_empty_prompt_gets_no_newline() {
    let mode = ModeDetector::detect_mode(
        Some(""),
        false,
        false,
        false,
        false,
        false,
        Ok(Some("only stdin".to_string())),
        &interactive_terminal(),
    )
    .unwrap();
    match mode {
        ExecutionMode::NonInteractive { prompt, .. } => assert_eq!(prompt, "only stdin"),
        ExecutionMode::Interactive => panic!("Expected non-interactive mode"),
    }
}

#[test]
fn piped_input_alone_is_the_prompt() {
    let mode = ModeDetector::detect_mode(
        None,
        false,
        true,
        false,
        false,
        false,
        Ok(Some("from a pipe".to_string())),
        &redirected(),
    )
    .unwrap();
    match mode {
        ExecutionMode::NonInteractive { prompt, options } => {
            assert_eq!(prompt, "from a pipe");
            assert!(options.quiet);
            assert!(options.json);
        }
        ExecutionMode::Interactive => panic!("Expected non-interactive mode"),
    }
}

#[test]
fn stdin_errors_fail_detection() {
    let r = ModeDetector::detect_mode(
        Some("x"),
        false,
        false,
        false,
        false,
        false,
        Err("Stdin contains invalid UTF-8 sequences".to_string()),
        &interactive_terminal(),
    );
    assert_eq!(r, Err("Stdin contains invalid UTF-8 sequences".to_string()));
}

#[test]
fn redirected_stdout_turns_quiet_on() {
    let mode = ModeDetector::detect_mode(
        Some("x"),
        false,
        false,
        false,
        false,
        false,
        Ok(None),
        &redirected(),
    )
    .unwrap();
    match mode {
        ExecutionMode::NonInteractive { options, .. } => assert!(options.quiet),
        ExecutionMode::Interactive => panic!("Expected non-interactive mode"),
    }
    assert!(ModeDetector::should_auto_quiet(&redirected()));
    assert!(!ModeDetector::should_auto_quiet(&interactive_terminal()));
    assert!(ModeDetector::is_piped(&redirected()));
    assert!(!ModeDetector::is_stderr_redirected(&redirected()));
}

#[test]
fn stdin_buffer_processing() {
    assert_eq!(ModeDetector::process_stdin_buffer(""), Ok(None));
    assert_eq!(
        ModeDetector::process_stdin_buffer("hello world  \n\n"),
        Ok(Some("hello world".to_string()))
    );
    assert_eq!(
        ModeDetector::process_stdin_buffer("  keep leading\n"),
        Ok(Some("  keep leading".to_string()))
    );
    assert_eq!(
        ModeDetector::process_stdin_buffer("bad\x00byte"),
        Err("Stdin contains binary or non-UTF8 data. Please provide text content only.".to_string())
    );
    assert_eq!(
        ModeDetector::process_stdin_buffer("bad \u{FFFD} char"),
        Err("Stdin contains invalid UTF-8 sequences".to_string())
    );
    assert_eq!(ModeDetector::process_stdin_buffer("   \n"), Ok(Some("".to_string())));
}

#[test]
fn stdin_size_warning_above_one_mebibyte() {
    assert_eq!(ModeDetector::stdin_size_warning(&"a".repeat(1_048_576)), None);
    assert_eq!(
        ModeDetector::stdin_size_warning(&"a".repeat(1_048_577)),
        Some("Warning: Stdin input is large (1048577 bytes)".to_string())
    );
}

#[test]
fn redirected_output_makes_piped_run_quiet() {
    let redirected =
        TerminalState { stdin_is_terminal: false, stdout_is_terminal: false, stderr_is_terminal: true };
    let mode = ModeDetector::detect_mode(
        None, false, true, false, true, false, Ok(Some("piped text".to_string())), &redirected,
    )
    .unwrap();
    match mode {
        ExecutionMode::NonInteractive { prompt, options } => {
            assert_eq!(prompt, "piped text");
            assert_eq!(options, NonInteractiveOptions::new(true, true, false, true, false));
        }
        ExecutionMode::Interactive => panic!("expected a single-prompt run"),
    }
    let terminal =
        TerminalState { stdin_is_terminal: false, stdout_is_terminal: true, stderr_is_terminal: true };
    let mode = ModeDetector::detect_mode(
        None, false, false, false, false, false, Ok(Some("piped text".to_string())), &terminal,
    )
    .unwrap();
    match mode {
        ExecutionMode::NonInteractive { options, .. } => assert!(!options.quiet),
        ExecutionMode::Interactive => panic!("expected a single-prompt run"),
    }
}
