use tenon::pattern::Pattern;
use tenon::tools::files::{compile_glob, WalkEntry};
use tenon::tools::search_text::{
    build_search_pattern, file_text, SearchText, is_search_candidate, find_nonoverlapping_matches, find_overlapping_matches,
    next_char_boundary, perform_search, truncate_line, MATCH_LIMIT,
};

fn re(p: &str) -> Pattern {
    build_search_pattern(p, true, false).ok().unwrap()
}

#[test]
fn basic_search() {
    let files = vec![
        ("file1.txt".to_string(), "hello world\nfoo bar".to_string()),
        ("file2.txt".to_string(), "hello rust\nfoo baz".to_string()),
    ];
    let result = perform_search(files, false, &re("hello"), 0, None);
    assert_eq!(result.total_matches, 2);
    assert_eq!(result.files_with_matches, 2);
    assert_eq!(result.files[0].path, "file1.txt");
    assert_eq!(result.files[0].matches[0].line, "hello world");
}

#[test]
fn regex_search() {
    let files = vec![("file1.txt".to_string(), "123 hello\n456 world".to_string())];
    let result = perform_search(files, true, &re(r"\d+"), 0, None);
    assert_eq!(result.total_matches, 2);
    assert_eq!(result.files[0].matches[0].column_end, 3);
}

#[test]
fn search_text_context_lines() {
    let files = vec![(
        "file1.txt".to_string(),
        "line1\nline2\nline3\nline4\nline5".to_string(),
    )];
    let result = perform_search(files, false, &re("line3"), 1, None);
    let match_entry = &result.files[0].matches[0];
    assert_eq!(match_entry.context_before, vec!["line2".to_string()]);
    assert_eq!(match_entry.context_after, vec!["line4".to_string()]);
}

#[test]
fn max_files_truncation() {
    let files = vec![
        ("a.txt".to_string(), "match".to_string()),
        ("b.txt".to_string(), "match".to_string()),
        ("c.txt".to_string(), "match".to_string()),
    ];
    let result = perform_search(files, false, &re("match"), 0, Some(2));
    assert_eq!(result.files.len(), 2);
    assert_eq!(result.truncated_files, 1);
}

#[test]
fn match_limit_clears_matches() {
    let files = vec![("file1.txt".to_string(), "a\na\na".repeat(40).to_string())];
    let result = perform_search(files, false, &re("a"), 0, None);
    assert!(result.total_matches > MATCH_LIMIT);
    assert!(result.files[0].matches.is_empty());
}

#[test]
fn files_are_sorted_by_path() {
    let files = vec![
        ("b.txt".to_string(), "x".to_string()),
        ("a.txt".to_string(), "x".to_string()),
        ("c.txt".to_string(), "none".to_string()),
    ];
    let result = perform_search(files, false, &re("x"), 0, None);
    assert_eq!(result.files.len(), 2);
    assert_eq!(result.files[0].path, "a.txt");
    assert_eq!(result.files[1].path, "b.txt");
    assert_eq!(result.files_searched, 3);
}

#[test]
fn ascii_string() {
    assert_eq!(next_char_boundary("hello", 0), 1);
    assert_eq!(next_char_boundary("hello", 1), 2);
    assert_eq!(next_char_boundary("hello", 4), 5);
}

#[test]
fn utf8_multibyte() {
    assert_eq!(next_char_boundary("日本語", 0), 3);
    assert_eq!(next_char_boundary("日本語", 3), 6);
}

#[test]
fn at_end_of_string() {
    assert_eq!(next_char_boundary("a", 0), 1);
    assert_eq!(next_char_boundary("abc", 3), 3);
}

#[test]
fn mixed_ascii_and_multibyte() {
    assert_eq!(next_char_boundary("a日", 0), 1);
    assert_eq!(next_char_boundary("a日", 1), 4);
}

#[test]
fn emoji() {
    assert_eq!(next_char_boundary("😀😀", 0), 4);
    assert_eq!(next_char_boundary("😀😀", 4), 8);
}

#[test]
fn search_text_no_matches() {
    let matches = find_overlapping_matches(&re("foo"), "bar baz");
    assert!(matches.is_empty());
    let matches = find_nonoverlapping_matches(&re("foo"), "bar baz");
    assert!(matches.is_empty());
}

#[test]
fn single_match() {
    assert_eq!(find_overlapping_matches(&re("foo"), "foo bar"), vec![(0, 3)]);
}

#[test]
fn multiple_non_overlapping_matches() {
    assert_eq!(
        find_overlapping_matches(&re("foo"), "foo bar foo"),
        vec![(0, 3), (8, 11)]
    );
}

#[test]
fn overlapping_matches() {
    assert_eq!(find_overlapping_matches(&re("aa"), "aaa"), vec![(0, 2), (1, 3)]);
}

#[test]
fn complex_overlapping() {
    assert_eq!(
        find_overlapping_matches(&re("aa"), "aaaa"),
        vec![(0, 2), (1, 3), (2, 4)]
    );
}

#[test]
fn empty_match_skipped() {
    let matches = find_overlapping_matches(&re("a*"), "b");
    assert!(matches.iter().all(|(start, end)| start < end));
}

#[test]
fn utf8_boundaries() {
    assert_eq!(
        find_overlapping_matches(&re("日"), "日本語日"),
        vec![(0, 3), (9, 12)]
    );
}

#[test]
fn word_boundary() {
    assert_eq!(
        find_overlapping_matches(&re(r"\btest\b"), "test testing test"),
        vec![(0, 4), (13, 17)]
    );
}

#[test]
fn multiple_non_overlapping() {
    assert_eq!(
        find_nonoverlapping_matches(&re("foo"), "foo bar foo"),
        vec![(0, 3), (8, 11)]
    );
}

#[test]
fn overlapping_pattern_non_overlapping_result() {
    assert_eq!(find_nonoverlapping_matches(&re("aa"), "aaa"), vec![(0, 2)]);
}

#[test]
fn regex_captures() {
    assert_eq!(
        find_nonoverlapping_matches(&re(r"\d+"), "123 456 789"),
        vec![(0, 3), (4, 7), (8, 11)]
    );
}

#[test]
fn case_insensitive() {
    let re = build_search_pattern("foo", true, true).ok().unwrap();
    assert_eq!(
        find_nonoverlapping_matches(&re, "FOO bar foo"),
        vec![(0, 3), (8, 11)]
    );
}

#[test]
fn short_line_unchanged() {
    let line = "short line";
    assert_eq!(truncate_line(line), line);
}

#[test]
fn exactly_at_limit() {
    let line: String = "x".repeat(300);
    assert_eq!(truncate_line(&line), line);
    assert!(!truncate_line(&line).ends_with('…'));
}

#[test]
fn over_limit_truncated() {
    let line: String = "x".repeat(301);
    let result = truncate_line(&line);
    assert_eq!(result.len(), 303);
    assert!(result.ends_with('…'));
    assert_eq!(result.chars().count(), 301);
}

#[test]
fn multibyte_char_truncation() {
    let line: String = "日".repeat(400);
    let result = truncate_line(&line);
    assert_eq!(result.chars().count(), 301);
    assert!(result.ends_with('…'));
}

#[test]
fn no_truncation_when_under_char_limit() {
    let line: String = "日".repeat(101);
    let result = truncate_line(&line);
    assert_eq!(result, line);
    assert!(!result.ends_with('…'));
}

#[test]
fn empty_line() {
    assert_eq!(truncate_line(""), "");
}

#[test]
fn regex_special_chars_escaped_in_literal() {
    let re = build_search_pattern("foo.bar", false, false).ok().unwrap();
    assert!(!find_nonoverlapping_matches(&re, "foo.bar").is_empty());
    assert!(find_nonoverlapping_matches(&re, "fooxbar").is_empty());
}

#[test]
fn empty_pattern_matches_everything() {
    let matches = find_nonoverlapping_matches(&re(""), "test");
    assert!(!matches.is_empty());
}

#[test]
fn very_long_line_truncation_in_context() {
    let long_line: String = "x".repeat(500);
    assert_eq!(truncate_line(&long_line).chars().count(), 301);
}

#[test]
fn utf8_character_boundaries_in_overlap() {
    assert_eq!(
        find_overlapping_matches(&re("日本"), "日本日本"),
        vec![(0, 6), (6, 12)]
    );
}

#[test]
fn multiple_matches_on_same_line() {
    assert_eq!(
        find_overlapping_matches(&re("a"), "aaa"),
        vec![(0, 1), (1, 2), (2, 3)]
    );
}

#[test]
fn invalid_pattern_is_reported() {
    let err = build_search_pattern("(", true, false).err().unwrap();
    assert_eq!(err.kind(), tenon::error::ErrorKind::InvalidInput);
    assert!(err.to_message().starts_with("Invalid regex pattern '(': "));
    assert!(build_search_pattern("(", false, false).is_ok());
}

#[test]
fn search_reads_text_files_only() {
    assert_eq!(file_text(b"fn main() {}\n"), Some("fn main() {}\n".to_string()));
    assert_eq!(file_text(b"bin\0ary"), None);
    assert_eq!(file_text(&[0xff, 0xfe, b'a']), None);
}

#[test]
fn search_candidates_follow_glob_and_skip_git() {
    let glob = compile_glob("src/*.rs").ok().unwrap();
    let file = |p: &str| WalkEntry { path: p.to_string(), is_file: true };
    assert!(is_search_candidate(&file("/p/src/lib.rs"), "/p", Some(&glob)));
    assert!(!is_search_candidate(&file("/p/src/a/b.rs"), "/p", Some(&glob)));
    assert!(!is_search_candidate(&file("/p/.git/src/x.rs"), "/p", None));
    assert!(is_search_candidate(&file("/p/README"), "/p", None));
    assert!(!is_search_candidate(&WalkEntry { path: "/p/src".to_string(), is_file: false }, "/p", None));
}

#[test]
fn search_needs_an_existing_directory() {
    let err = SearchText::check_directory("nope", false).unwrap_err();
    assert_eq!(err.kind, tenon::error::ErrorKind::NotFound);
    assert_eq!(err.to_message(), "Directory 'nope' not found");
    assert!(SearchText::check_directory(".", true).is_ok());
}
