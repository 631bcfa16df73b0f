use ollama_proxy::chunker::{chunk_text, find_break_point};

#[test]
fn test_empty_string() {
    let result = chunk_text("", 100);
    assert_eq!(result.len(), 0);
}

#[test]
fn test_single_char() {
    let result = chunk_text("a", 100);
    assert_eq!(result.len(), 1);
    assert_eq!(result[0], "a");
}

#[test]
fn test_short_text_no_chunking_needed() {
    let text = "Hello world";
    let result = chunk_text(text, 100);
    assert_eq!(result.len(), 1);
    assert_eq!(result[0], text);
}

#[test]
fn test_exact_boundary() {
    let text = "Hello";
    let result = chunk_text(text, 5);
    assert_eq!(result.len(), 1);
    assert_eq!(result[0], "Hello");
}

#[test]
fn test_sentence_boundary_split() {
    let text = "First sentence. Second sentence. Third sentence.";
    let result = chunk_text(text, 30);

    // Should split on sentence boundaries
    assert!(result.len() >= 2);

    // Each chunk should not exceed max length
    for chunk in &result {
        assert!(chunk.len() <= 30, "Chunk exceeded max length: {}", chunk.len());
    }
}

#[test]
fn test_word_boundary_fallback() {
    let text = "This is a very long sentence without proper punctuation that should split on word boundaries";
    let result = chunk_text(text, 40);

    assert!(result.len() >= 2);

    // Each chunk should not exceed max length
    for chunk in &result {
        assert!(chunk.len() <= 40);
    }

    // Should not split mid-word: a cut on a word boundary falls just
    // after the separating whitespace, so every chunk before the last
    // either ends with that whitespace or was hard-cut at the full
    // window width.
    for chunk in &result[..result.len() - 1] {
        assert!(chunk.ends_with(' ') || chunk.len() == 40);
    }
}

#[test]
fn test_overlap_preservation() {
    let text = "First part. Second part. Third part. Fourth part.";
    let result = chunk_text(text, 25);

    // With overlap, we should have some text repeated between chunks
    if result.len() > 1 {
        // Check that there's some overlap (at least one word)
        let last_words_of_first: Vec<&str> = result[0].split_whitespace().collect();
        let first_words_of_second: Vec<&str> = result[1].split_whitespace().collect();

        if !last_words_of_first.is_empty() && !first_words_of_second.is_empty() {
            // There should be some word overlap
            let overlap_found = last_words_of_first.iter().any(|word| {
                first_words_of_second.contains(word)
            });
            assert!(overlap_found, "Expected overlap between chunks");
        }
    }
}

#[test]
fn test_very_long_text() {
    let text = "a".repeat(10000);
    let result = chunk_text(&text, 500);

    // Should create multiple chunks
    assert!(result.len() > 1);

    // Each chunk should not exceed max length
    for chunk in &result {
        assert!(chunk.len() <= 500);
    }

    // Total length should roughly equal original (minus some overlap)
    let total_chars: usize = result.iter().map(|s| s.len()).sum();
    assert!(total_chars >= text.len());
}

#[test]
fn test_find_break_point_sentence() {
    let text = "Hello world. This is a test.";
    let break_point = find_break_point(text, 20);

    // Should break on a sentence boundary
    assert!(break_point <= 20);
    // The break should be at a sentence ending
    let chunk = &text[..break_point];
    assert!(chunk.contains('.'), "Should break on sentence boundary");
}

#[test]
fn test_find_break_point_word() {
    let text = "Hello world this is a test";
    let break_point = find_break_point(text, 15);

    // Should break on word boundary
    assert!(break_point <= 15);
    assert!(!text[..break_point].ends_with(" "));
}

#[test]
fn test_no_infinite_loop() {
    // Test with text that has no good break points
    let text = "abcdefghijklmnopqrstuvwxyz".repeat(100);
    let result = chunk_text(&text, 50);

    // Should complete without hanging
    assert!(!result.is_empty());
}
