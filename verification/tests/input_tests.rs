use prometheus_cli::input::InputProcessor;

#[test]
fn test_build_prompt_with_system_prompt() {
    let result = InputProcessor::build_prompt(
        "Main prompt".to_string(),
        &[],
        Some("You are a helpful assistant"),
    );
    
    assert!(result.contains("System: You are a helpful assistant"));
    assert!(result.contains("Main prompt"));
    assert!(result.starts_with("System:"));
}

#[test]
fn test_build_prompt_without_system_prompt() {
    let result = InputProcessor::build_prompt(
        "Main prompt".to_string(),
        &[],
        None,
    );
    
    assert_eq!(result, "Main prompt");
    assert!(!result.contains("System:"));
}

#[test]
fn test_is_binary_content() {
    // Normal text should not be detected as binary
    assert!(!InputProcessor::is_binary_content("Hello world"));
    assert!(!InputProcessor::is_binary_content("Multi\nline\ntext"));
    assert!(!InputProcessor::is_binary_content("Text with\ttabs"));
    assert!(!InputProcessor::is_binary_content("Windows\r\nline endings"));
    assert!(!InputProcessor::is_binary_content(""));
    
    // Unicode should not be detected as binary
    assert!(!InputProcessor::is_binary_content("Unicode: 你好 🌍"));
    
    // Binary content should be detected
    assert!(InputProcessor::is_binary_content("Text with\x00null"));
    assert!(InputProcessor::is_binary_content("ANSI\x1b[31mcolor\x1b[0m"));
    assert!(InputProcessor::is_binary_content("Bell\x07character"));
}

#[test]
fn test_validate_prompt_success() {
    assert!(InputProcessor::validate_prompt("Valid prompt").is_ok());
    assert!(InputProcessor::validate_prompt("Multi\nline\nprompt").is_ok());
    assert!(InputProcessor::validate_prompt("   Whitespace padded   ").is_ok());
}

#[test]
fn test_validate_prompt_empty() {
    assert!(InputProcessor::validate_prompt("").is_err());
    assert!(InputProcessor::validate_prompt("   ").is_err());
    assert!(InputProcessor::validate_prompt("\n\t\r").is_err());
}

#[test]
fn test_validate_prompt_large() {
    let large_prompt = "a".repeat(200_000);
    // Should succeed but warn
    assert!(InputProcessor::validate_prompt(&large_prompt).is_ok());
}

#[test]
fn test_validate_max_tokens_success() {
    assert!(InputProcessor::validate_max_tokens(1).is_ok());
    assert!(InputProcessor::validate_max_tokens(100).is_ok());
    assert!(InputProcessor::validate_max_tokens(1000).is_ok());
    assert!(InputProcessor::validate_max_tokens(50000).is_ok());
}

#[test]
fn test_validate_max_tokens_invalid() {
    assert!(InputProcessor::validate_max_tokens(0).is_err());
}

#[test]
fn test_validate_max_tokens_large() {
    // Should succeed but warn
    assert!(InputProcessor::validate_max_tokens(150000).is_ok());
}

#[test]
fn test_empty_whitespace_prompt_handling() {
    // Test empty prompt
    let result = InputProcessor::validate_prompt("");
    assert!(result.is_err());
    assert!(result.unwrap_err().to_string().contains("empty"));

    // Test whitespace-only prompts
    let whitespace_prompts = vec![
        " ",
        "  ",
        "\t",
        "\n",
        "\r",
        "\r\n",
        "   \t\n\r   ",
        "\n\n\n",
    ];

    for prompt in whitespace_prompts {
        let result = InputProcessor::validate_prompt(prompt);
        assert!(result.is_err(), "Should reject whitespace-only prompt: {:?}", prompt);
        assert!(result.unwrap_err().to_string().contains("empty"));
    }

    // Test prompts with content after trimming
    let valid_prompts = vec![
        "  hello  ",
        "\n\nvalid content\n\n",
        "\t\tprompt with tabs\t\t",
    ];

    for prompt in valid_prompts {
        let result = InputProcessor::validate_prompt(prompt);
        assert!(result.is_ok(), "Should accept prompt with content: {:?}", prompt);
    }
}

#[test]
fn input_test_binary_content_detection_comprehensive() {
    // Test various types of binary content
    let binary_test_cases = vec![
        ("Null byte", "Hello\x00World"),
        ("Control character", "Text\x01Control"),
        ("Bell character", "Ring\x07Bell"),
        ("Escape sequence", "Color\x1b[31mRed\x1b[0m"),
        ("Form feed", "Page\x0cBreak"),
        ("Vertical tab", "Line\x0bBreak"),
        ("Backspace", "Delete\x08Char"),
        ("Delete character", "Remove\x7fChar"),
    ];

    for (description, content) in binary_test_cases {
        assert!(InputProcessor::is_binary_content(content), 
               "Should detect binary content: {}", description);
    }

    // Test content that should NOT be detected as binary
    let text_test_cases = vec![
        ("Plain ASCII", "Hello World"),
        ("Newlines", "Line 1\nLine 2\nLine 3"),
        ("Tabs", "Column1\tColumn2\tColumn3"),
        ("Carriage returns", "Windows\r\nLine endings"),
        ("Mixed whitespace", "Text\n\twith\r\nmixed whitespace"),
        ("Unicode", "Unicode: 你好 🌍 café"),
        ("Special chars", "Special: !@#$%^&*()[]{}|\\:;\"'<>?,./"),
        ("Empty string", ""),
    ];

    for (description, content) in text_test_cases {
        assert!(!InputProcessor::is_binary_content(content),
               "Should NOT detect as binary: {}", description);
    }
}

#[test]
fn test_parameter_validation_max_tokens() {
    // Test valid max_tokens values
    let valid_tokens = vec![1, 10, 100, 1000, 4096, 8192, 50000];
    for tokens in valid_tokens {
        assert!(InputProcessor::validate_max_tokens(tokens).is_ok(),
               "Should accept valid max_tokens: {}", tokens);
    }

    // Test invalid max_tokens values
    assert!(InputProcessor::validate_max_tokens(0).is_err());
    let error = InputProcessor::validate_max_tokens(0).unwrap_err();
    assert!(error.to_string().contains("greater than 0"));

    // Test very large values (should succeed but warn)
    assert!(InputProcessor::validate_max_tokens(200_000).is_ok());
    assert!(InputProcessor::validate_max_tokens(u32::MAX).is_ok());
}

#[test]
fn test_prompt_validation_edge_cases() {
    // Test prompts with only special characters
    let special_prompts = vec![
        "!@#$%^&*()",
        "[]{}|\\:;\"'<>?,./",
        "~`+=_-",
        "(){}[]<>",
    ];

    for prompt in special_prompts {
        assert!(InputProcessor::validate_prompt(prompt).is_ok(),
               "Should accept special characters: {}", prompt);
    }

    // Test prompts with mixed content
    let mixed_prompts = vec![
        "Normal text with 123 numbers",
        "Text with\nnewlines\nand\ttabs",
        "Unicode: 你好 + ASCII + 🌍",
        "Code: fn main() { println!(\"Hello\"); }",
        "JSON: {\"key\": \"value\", \"number\": 42}",
        "URL: https://example.com/path?param=value",
        "Email: user@example.com",
    ];

    for prompt in mixed_prompts {
        assert!(InputProcessor::validate_prompt(prompt).is_ok(),
               "Should accept mixed content: {}", prompt);
    }

    // Test very long prompts
    let long_prompt = "word ".repeat(50_000); // ~250KB
    assert!(InputProcessor::validate_prompt(&long_prompt).is_ok());

    // Test extremely long prompts
    let very_long_prompt = "a".repeat(500_000); // 500KB
    assert!(InputProcessor::validate_prompt(&very_long_prompt).is_ok());
}

#[test]
fn files_are_included_in_order_between_system_and_prompt() {
    let files = vec![
        ("a.rs".to_string(), "first".to_string()),
        ("b.rs".to_string(), "second".to_string()),
    ];
    let result = InputProcessor::build_prompt("Review".to_string(), &files, Some("Be strict"));
    assert_eq!(
        result,
        "System: Be strict\n\nFile: a.rs\n```\nfirst\n```\n\nFile: b.rs\n```\nsecond\n```\n\nReview"
    );
    let a = result.find("first").unwrap();
    let b = result.find("second").unwrap();
    assert!(a < b);
}

#[test]
fn empty_file_still_gets_its_block() {
    let files = vec![("empty.txt".to_string(), String::new())];
    let result = InputProcessor::build_prompt("Prompt".to_string(), &files, None);
    assert_eq!(result, "File: empty.txt\n```\n\n```\n\nPrompt");
}

#[test]
fn file_size_limits() {
    assert_eq!(InputProcessor::check_file_size("f", 1_048_576), Ok(None));
    assert_eq!(
        InputProcessor::check_file_size("f", 1_048_577),
        Ok(Some("Warning: File 'f' is large (1048577 bytes). This may impact performance.".to_string()))
    );
    assert_eq!(InputProcessor::check_file_size("f", 10_485_760).unwrap().is_some(), true);
    assert_eq!(
        InputProcessor::check_file_size("f", 10_485_761),
        Err("File 'f' is too large (10485761 bytes). Maximum file size is 10MB.".to_string())
    );
}

#[test]
fn file_content_checks() {
    assert_eq!(InputProcessor::check_file_content("x.txt", "plain text\n"), Ok(()));
    assert_eq!(
        InputProcessor::check_file_content("x.bin", "a\x00b"),
        Err("File 'x.bin' appears to be binary. Please provide text files only.".to_string())
    );
    assert_eq!(
        InputProcessor::check_file_content("x.txt", "a\u{FFFD}b"),
        Err("File 'x.txt' contains invalid UTF-8 sequences".to_string())
    );
}

#[test]
fn prompt_validation_messages() {
    assert_eq!(
        InputProcessor::validate_prompt("  \t"),
        Err("Prompt cannot be empty or contain only whitespace".to_string())
    );
    assert_eq!(
        InputProcessor::validate_prompt("a\x07b"),
        Err("Prompt contains binary or control characters. Please provide text content only.".to_string())
    );
    assert_eq!(
        InputProcessor::validate_prompt("a\u{FFFD}b"),
        Err("Prompt contains invalid UTF-8 sequences".to_string())
    );
    assert_eq!(
        InputProcessor::validate_prompt(&"a".repeat(1_000_001)),
        Err("Prompt is too large (1000001 characters). Maximum prompt size is 1MB.".to_string())
    );
    assert_eq!(InputProcessor::validate_prompt(&"a".repeat(1_000_000)), Ok(()));
}

#[test]
fn size_warnings() {
    assert_eq!(InputProcessor::prompt_size_warning(&"a".repeat(100_000)), None);
    assert_eq!(
        InputProcessor::prompt_size_warning(&"a".repeat(100_001)),
        Some("Warning: Prompt is very large (100001 characters). This may impact performance.".to_string())
    );
    assert_eq!(InputProcessor::max_tokens_warning(100_000), None);
    assert_eq!(
        InputProcessor::max_tokens_warning(150_000),
        Some("Warning: Max tokens is very large (150000)".to_string())
    );
    assert_eq!(
        InputProcessor::validate_max_tokens(0),
        Err("Max tokens must be greater than 0, got: 0".to_string())
    );
}
