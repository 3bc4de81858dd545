use tenon::error::ErrorKind;
use tenon::tools::edit_file::{
    edit_with_matches, perform_edit, EditFile, EditFileArgs, ReplaceMode, SearchMode,
};

#[test]
fn test_edit_at_eof_adds_trailing_newline() {
    let (result, _) = perform_edit("hello world", "world", "universe", &ReplaceMode::One, &SearchMode::Literal).unwrap();
    assert_eq!(result, "hello universe\n");
}

#[test]
fn test_edit_at_eof_preserves_existing_newline() {
    let (result, _) = perform_edit("hello world\n", "world", "universe", &ReplaceMode::One, &SearchMode::Literal).unwrap();
    assert_eq!(result, "hello universe\n");
}

#[test]
fn test_edit_in_middle_does_not_add_newline() {
    let (result, _) = perform_edit("hello world foo", "hello", "hey", &ReplaceMode::One, &SearchMode::Literal).unwrap();
    assert_eq!(result, "hey world foo");
}

#[test]
fn test_edit_in_middle_preserves_existing_newline() {
    let (result, _) = perform_edit("hello world\n", "hello", "hey", &ReplaceMode::One, &SearchMode::Literal).unwrap();
    assert_eq!(result, "hey world\n");
}

#[test]
fn test_regex_edit_at_eof_adds_newline() {
    let (result, _) = perform_edit("hello world", "w.*d", "universe", &ReplaceMode::One, &SearchMode::Regex).unwrap();
    assert_eq!(result, "hello universe\n");
}

#[test]
fn test_replace_all_at_eof_adds_newline() {
    let (result, _) = perform_edit("foo bar foo", "foo", "baz", &ReplaceMode::All, &SearchMode::Literal).unwrap();
    assert_eq!(result, "baz bar baz\n");
}

#[test]
fn test_replace_all_in_middle_no_newline() {
    let (result, _) = perform_edit("foo bar foo baz", "foo", "baz", &ReplaceMode::All, &SearchMode::Literal).unwrap();
    assert_eq!(result, "baz bar baz baz");
}

#[test]
fn test_edit_eof_multiline() {
    let (result, _) = perform_edit("line1\nline2\nlast", "last", "final", &ReplaceMode::One, &SearchMode::Literal).unwrap();
    assert_eq!(result, "line1\nline2\nfinal\n");
}

#[test]
fn test_no_match_returns_error() {
    let result = perform_edit("hello world", "notfound", "replacement", &ReplaceMode::One, &SearchMode::Literal);
    assert!(result.is_err());
}

#[test]
fn test_multiple_matches_one_mode_error() {
    let result = perform_edit("foo foo foo", "foo", "bar", &ReplaceMode::One, &SearchMode::Literal);
    assert!(result.is_err());
}

#[test]
fn test_replace_all_multiple_matches() {
    let (result, _) = perform_edit("foo bar foo bar", "foo", "baz", &ReplaceMode::All, &SearchMode::Literal).unwrap();
    assert_eq!(result, "baz bar baz bar");
}

#[test]
fn test_empty_content_empty_search_creates_content() {
    let (result, _) = perform_edit("", "", "hello world", &ReplaceMode::One, &SearchMode::Literal).unwrap();
    assert_eq!(result, "hello world\n");
}

#[test]
fn test_empty_content_nonempty_search_no_match() {
    let result = perform_edit("", "foo", "bar", &ReplaceMode::One, &SearchMode::Literal);
    assert!(result.is_err());
}

#[test]
fn test_replace_all_exceeds_limit_returns_error() {
    let content = "foo ".repeat(21);
    let result = perform_edit(&content, "foo", "bar", &ReplaceMode::All, &SearchMode::Literal);
    assert!(result.is_err());
}

#[test]
fn test_literal_noop_not_counted() {
    let result = perform_edit("hello world", "hello", "hello", &ReplaceMode::One, &SearchMode::Literal);
    assert!(result.is_err());
}

#[test]
fn test_regex_noop_filtered_one_mode_succeeds() {
    let (result, edits) = perform_edit("foo bar foo", "foo|bar", "foo", &ReplaceMode::One, &SearchMode::Regex).unwrap();
    assert_eq!(edits.len(), 1);
    assert_eq!(result, "foo foo foo");
}

#[test]
fn test_regex_all_noop_returns_error() {
    let result = perform_edit("abc abc", "abc", "abc", &ReplaceMode::All, &SearchMode::Regex);
    assert!(result.is_err());
}

#[test]
fn test_replace_all_at_limit_succeeds() {
    let content = "foo ".repeat(20);
    let (result, edits) = perform_edit(&content, "foo", "bar", &ReplaceMode::All, &SearchMode::Literal).unwrap();
    assert_eq!(edits.len(), 20);
    assert_eq!(result, "bar ".repeat(20));
}

#[test]
fn error_messages_and_kinds() {
    let err = perform_edit("hello", "x", "y", &ReplaceMode::One, &SearchMode::Literal).unwrap_err();
    assert_eq!(err.kind(), ErrorKind::NotFound);
    assert_eq!(err.to_message(), "No match found");
    let err = perform_edit("hello", "hello", "hello", &ReplaceMode::One, &SearchMode::Literal).unwrap_err();
    assert_eq!(err.kind(), ErrorKind::NotFound);
    assert_eq!(err.to_message(), "Matched text equals replacement");
    let err = perform_edit("a a a", "a", "b", &ReplaceMode::One, &SearchMode::Literal).unwrap_err();
    assert_eq!(err.kind(), ErrorKind::InvalidInput);
    assert_eq!(err.to_message(), "3 matches. Use 'all' or narrow search");
    let content = "a ".repeat(21);
    let err = perform_edit(&content, "a", "b", &ReplaceMode::All, &SearchMode::Literal).unwrap_err();
    assert_eq!(err.to_message(), "21 matches exceed the 20-replacement limit for 'all' mode");
    let err = perform_edit("abc", "(", "x", &ReplaceMode::One, &SearchMode::Regex).unwrap_err();
    assert_eq!(err.kind(), ErrorKind::InvalidInput);
    assert!(err.to_message().starts_with("Bad regex: "));
}

#[test]
fn edits_report_lines_and_regex_text() {
    let (result, edits) = perform_edit("a\nb x\nc x", "x", "y", &ReplaceMode::All, &SearchMode::Literal).unwrap();
    assert_eq!(result, "a\nb y\nc y\n");
    assert_eq!(edits.len(), 2);
    assert_eq!(edits[0].line, 2);
    assert_eq!(edits[1].line, 3);
    assert!(edits[0].text_replaced.is_none());
    let (_, edits) = perform_edit("a\nb x1\n", "x\\d", "y", &ReplaceMode::One, &SearchMode::Regex).unwrap();
    assert_eq!(edits[0].line, 2);
    assert_eq!(edits[0].text_replaced.as_deref(), Some("x1"));
}

#[test]
fn multibyte_regex_edit_uses_character_positions() {
    let (result, _) = perform_edit("日本語 text", "本.", "X", &ReplaceMode::One, &SearchMode::Regex).unwrap();
    assert_eq!(result, "日X text");
}

#[test]
fn edit_with_given_matches_replaces_them() {
    let (result, edits) = edit_with_matches("abc abc", &vec![(0, 3), (4, 7)], "x", &ReplaceMode::All).unwrap();
    assert_eq!(result, "x x\n");
    assert_eq!(edits.len(), 2);
}

#[test]
fn edit_file_defaults_to_one_mode() {
    let args = EditFileArgs {
        filepath: "f".into(),
        search: "a".into(),
        replace: "b".into(),
        replace_mode: None,
        search_mode: SearchMode::Literal,
    };
    assert!(EditFile::apply(&args, "a a").is_err());
    assert_eq!(EditFile::apply(&args, "a c").unwrap().0, "b c");
}

#[test]
fn empty_search_inserts_between_characters_in_all_mode() {
    let (result, edits) = perform_edit("ab", "", "-", &ReplaceMode::All, &SearchMode::Literal).unwrap();
    assert_eq!(result, "-a-b-\n");
    assert_eq!(edits.len(), 3);
}

#[test]
fn literal_edit_away_from_the_end_adds_no_newline() {
    let (result, _) = perform_edit("aaa", "aa", "b", &ReplaceMode::One, &SearchMode::Literal).unwrap();
    assert_eq!(result, "ba");
    let (result, _) = perform_edit("xaa", "aa", "b", &ReplaceMode::One, &SearchMode::Literal).unwrap();
    assert_eq!(result, "xb\n");
}
