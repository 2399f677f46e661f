//! Chunks, tokens and wrapped lines.

use sbobino_commands::artifacts::words::{
    chunk_text_by_words, normalize_whitespace, tokenize_for_search, truncate_chars,
    wrap_pdf_text_line,
};

#[test]
fn chunker_splits_and_progresses() {
    let input = "one two three four five six seven eight nine ten eleven twelve thirteen fourteen";
    let chunks = chunk_text_by_words(input, 20, 2);
    assert!(chunks.len() >= 3);
    assert!(chunks.iter().all(|chunk| !chunk.trim().is_empty()));
}

#[test]
fn chunks_overlap_by_whole_words_and_hold_every_word() {
    let input = "one two three four five six seven eight nine ten eleven twelve thirteen fourteen";
    let chunks = chunk_text_by_words(input, 20, 2);
    assert_eq!(chunks[0], "one two three four");
    assert_eq!(chunks[1], "three four five six");
    for word in input.split(' ') {
        assert!(chunks.iter().any(|chunk| chunk.split(' ').any(|w| w == word)));
    }
    assert!(chunks.iter().all(|chunk| chunk.chars().count() <= 20));
}

#[test]
fn a_word_longer_than_a_chunk_stands_alone() {
    assert_eq!(chunk_text_by_words("abcdefghij kl", 4, 3), vec!["abcdefghij", "kl"]);
    assert!(chunk_text_by_words("  \n ", 4, 3).is_empty());
    assert_eq!(chunk_text_by_words("a b", 0, 0), vec!["a", "b"]);
}

#[test]
fn pdf_line_wrapper_does_not_drop_words() {
    let line = "This transcript line is intentionally long so the PDF renderer wraps it into multiple visual lines without dropping words.";
    let wrapped = wrap_pdf_text_line(line, 36);

    assert!(wrapped.len() > 1);
    assert!(wrapped.iter().all(|part| part.chars().count() <= 36));
    assert_eq!(wrapped.join(" "), line);
}

#[test]
fn a_long_word_is_cut_and_a_blank_line_is_one_empty_line() {
    assert_eq!(wrap_pdf_text_line("ab cdefgh ij", 3), vec!["ab", "cde", "fgh", "ij"]);
    assert_eq!(wrap_pdf_text_line("   ", 3), vec![""]);
    assert_eq!(wrap_pdf_text_line("", 0), vec![""]);
}

#[test]
fn tokens_are_lower_case_and_of_three_letters_at_least() {
    assert_eq!(
        tokenize_for_search("What ABOUT  Ÿpres-2024, ok?"),
        vec!["what", "about", "ÿpres", "2024"]
    );
    assert!(tokenize_for_search("a b. c").is_empty());
}

#[test]
fn white_space_is_normalized_once_and_for_all() {
    let once = normalize_whitespace("  a\t b\n\nc\u{a0}d ");
    assert_eq!(once, "a b c d");
    assert_eq!(normalize_whitespace(&once), once);
    assert_eq!(truncate_chars("àèìòù", 3), "àèì");
    assert_eq!(truncate_chars("ab", 3), "ab");
}
