use prometheus_cli::markdown::{highlight_matches, parse_message, MessageSegment};

#[test]
fn test_code_block() {
    let input = "Here's some code:\n```rust\nfn main() {\n    println!(\"Hello\");\n}\n```\nThat's it!";
    let segments = parse_message(input);
    
    assert!(segments.iter().any(|s| matches!(s, MessageSegment::CodeBlock { .. })));
}

#[test]
fn test_inline_code() {
    let input = "Use `println!` to print.";
    let segments = parse_message(input);
    
    assert!(segments.iter().any(|s| matches!(s, MessageSegment::InlineCode(_))));
}

#[test]
fn test_bold() {
    let input = "This is **bold** text.";
    let segments = parse_message(input);
    
    assert!(segments.iter().any(|s| matches!(s, MessageSegment::Bold(_))));
}

#[test]
fn test_italic() {
    let input = "This is *italic* text.";
    let segments = parse_message(input);
    
    assert!(segments.iter().any(|s| matches!(s, MessageSegment::Italic(_))));
}

#[test]
fn test_list() {
    let input = "- Item 1\n- Item 2";
    let segments = parse_message(input);
    
    assert!(segments.iter().any(|s| matches!(s, MessageSegment::ListItem(_))));
}

#[test]
fn test_highlight_matches() {
    let text = "Hello world, hello again";
    let positions = vec![(0, 5), (13, 18)];
    let segments = highlight_matches(text, &positions);
    
    // Should have highlighted segments
    assert!(segments.iter().any(|s| matches!(s, MessageSegment::Highlighted(_))));
}

#[test]
fn test_highlight_matches_empty() {
    let text = "Hello world";
    let positions = vec![];
    let segments = highlight_matches(text, &positions);
    
    // Should return original text
    assert_eq!(segments.len(), 1);
    assert!(matches!(segments[0], MessageSegment::Text(_)));
}

#[test]
fn test_highlight_matches_overlapping() {
    let text = "Hello world";
    let positions = vec![(0, 5), (3, 8)];
    let segments = highlight_matches(text, &positions);
    
    // Should handle overlapping positions
    assert!(!segments.is_empty());
}

fn text_of(s: &MessageSegment) -> String {
    match s {
        MessageSegment::Text(t)
        | MessageSegment::InlineCode(t)
        | MessageSegment::Bold(t)
        | MessageSegment::Italic(t)
        | MessageSegment::ListItem(t)
        | MessageSegment::Highlighted(t) => t.clone(),
        MessageSegment::CodeBlock { code, .. } => code.clone(),
    }
}

#[test]
fn code_block_language_and_code() {
    let segments = parse_message("Here's some code:\n```rust\nfn main() {}\n```\nThat's it!");
    let blocks: Vec<_> = segments
        .iter()
        .filter_map(|s| match s {
            MessageSegment::CodeBlock { language, code } => Some((language.clone(), code.clone())),
            _ => None,
        })
        .collect();
    assert_eq!(blocks, vec![(Some("rust".to_string()), "fn main() {}".to_string())]);
}

#[test]
fn code_block_without_language() {
    let segments = parse_message("```\nplain\n```");
    assert!(matches!(
        &segments[0],
        MessageSegment::CodeBlock { language: None, code } if code == "plain"
    ));
    assert_eq!(segments.len(), 1);
}

#[test]
fn unclosed_fence_is_plain_text() {
    let segments = parse_message("```rust\nno end");
    assert!(!segments.iter().any(|s| matches!(s, MessageSegment::CodeBlock { .. })));
}

#[test]
fn inline_formatting_segments_in_order() {
    let segments = parse_message("a `b` **c** *d* e");
    let kinds: Vec<String> = segments
        .iter()
        .map(|s| match s {
            MessageSegment::Text(t) => format!("T:{}", t),
            MessageSegment::InlineCode(t) => format!("C:{}", t),
            MessageSegment::Bold(t) => format!("B:{}", t),
            MessageSegment::Italic(t) => format!("I:{}", t),
            other => format!("{:?}", other),
        })
        .collect();
    assert_eq!(kinds, vec!["T:a ", "C:b", "T: ", "B:c", "T: ", "I:d", "T: e"]);
}

#[test]
fn list_items_drop_their_markers() {
    let segments = parse_message("  - first\n* second\nplain");
    assert!(matches!(&segments[0], MessageSegment::ListItem(t) if t == "first"));
    assert!(matches!(&segments[1], MessageSegment::ListItem(t) if t == "second"));
    assert!(matches!(&segments[2], MessageSegment::Text(t) if t == "plain"));
    assert_eq!(segments.len(), 3);
}

#[test]
fn lines_are_separated_by_newline_segments() {
    let segments = parse_message("one\ntwo");
    assert_eq!(segments.len(), 3);
    assert!(matches!(&segments[1], MessageSegment::Text(t) if t == "\n"));
}

#[test]
fn empty_message_is_one_text_segment() {
    let segments = parse_message("");
    assert_eq!(segments.len(), 1);
    assert!(matches!(&segments[0], MessageSegment::Text(t) if t.is_empty()));
}

#[test]
fn highlight_segments_spell_the_text() {
    let text = "Hello world, hello again";
    let positions = vec![(13, 18), (0, 5), (3, 8), (30, 40)];
    let segments = highlight_matches(text, &positions);
    let joined: String = segments.iter().map(text_of).collect();
    assert_eq!(joined, text);
    assert!(matches!(&segments[0], MessageSegment::Highlighted(t) if t == "Hello wo"));
}

#[test]
fn highlight_merges_touching_ranges() {
    let segments = highlight_matches("abcdef", &[(0, 2), (2, 4)]);
    assert!(matches!(&segments[0], MessageSegment::Highlighted(t) if t == "abcd"));
    assert!(matches!(&segments[1], MessageSegment::Text(t) if t == "ef"));
    assert_eq!(segments.len(), 2);
}

#[test]
fn highlight_with_multibyte_text() {
    let text = "héllo wörld";
    let segments = highlight_matches(text, &[(7, 13)]);
    let joined: String = segments.iter().map(text_of).collect();
    assert_eq!(joined, text);
    assert!(matches!(&segments[1], MessageSegment::Highlighted(t) if t == "wörld"));
}
