use tenon::error::ErrorKind;
use tenon::tools::files::{
    CreateFile, compile_glob, ListFiles, MovePath, ReadFile, RemovePath, WalkEntry, WriteFile,
    WriteFileArgs, MAX_MOVED_ENTRIES,
};

const TEXT: &str = "one\ntwo\nthree\nfour\n";

#[test]
fn read_whole_file_by_default() {
    assert_eq!(ReadFile::select_lines(TEXT, None, None).unwrap(), "one\ntwo\nthree\nfour");
}

#[test]
fn read_line_range_is_inclusive() {
    assert_eq!(ReadFile::select_lines(TEXT, Some(2), Some(3)).unwrap(), "two\nthree");
}

#[test]
fn read_reversed_range_is_swapped() {
    assert_eq!(ReadFile::select_lines(TEXT, Some(3), Some(2)).unwrap(), "two\nthree");
}

#[test]
fn read_equal_bounds_gives_one_line() {
    assert_eq!(ReadFile::select_lines(TEXT, Some(4), Some(4)).unwrap(), "four");
}

#[test]
fn read_end_past_last_line_is_clamped() {
    assert_eq!(ReadFile::select_lines(TEXT, Some(3), Some(99)).unwrap(), "three\nfour");
}

#[test]
fn read_start_past_end_is_an_error() {
    let err = ReadFile::select_lines(TEXT, Some(9), None).unwrap_err();
    assert_eq!(err.kind, ErrorKind::InvalidInput);
    assert_eq!(err.to_message(), "start_line 9 > file_len 4");
}

#[test]
fn read_empty_file_is_empty() {
    assert_eq!(ReadFile::select_lines("", Some(5), None).unwrap(), "");
}

#[test]
fn create_refuses_existing_file() {
    let err = CreateFile::check("a.txt", true).unwrap_err();
    assert_eq!(err.to_message(), "exists: 'a.txt'");
    assert!(CreateFile::check("a.txt", false).is_ok());
    assert_eq!(CreateFile::created_message("a.txt"), "created 'a.txt'");
}

#[test]
fn write_reports_bytes() {
    let args = WriteFileArgs { filepath: "b.txt".to_string(), content: "héllo".to_string() };
    assert_eq!(WriteFile::written_message(&args), "wrote 6B → 'b.txt'");
}

#[test]
fn remove_needs_existing_path() {
    let err = RemovePath::check("gone", false).unwrap_err();
    assert_eq!(err.kind, ErrorKind::NotFound);
    assert_eq!(err.to_message(), "not found: 'gone'");
    assert!(RemovePath::check("here", true).is_ok());
    assert_eq!(RemovePath::removed_message("here"), "removed 'here'");
}

fn entry(path: &str, is_file: bool) -> WalkEntry {
    WalkEntry { path: path.to_string(), is_file }
}

#[test]
fn list_matches_relative_paths_and_skips_git() {
    let glob = compile_glob("*.rs").ok().unwrap();
    let entries = vec![
        entry("/p/src", false),
        entry("/p/main.rs", true),
        entry("/p/src/lib.rs", true),
        entry("/p/.git/hooks.rs", true),
        entry("/p/build.rs", true),
    ];
    let listing = ListFiles::select(&entries, "/p", &glob, "*.rs", 10).unwrap();
    assert_eq!(listing.files, vec!["/p/main.rs".to_string(), "/p/build.rs".to_string()]);
    assert_eq!(listing.total_matched, 2);
    assert!(!listing.truncated);
}

#[test]
fn list_truncates_at_max_count() {
    let glob = compile_glob("**/*.rs").ok().unwrap();
    let entries = vec![entry("/p/a.rs", true), entry("/p/b/c.rs", true), entry("/p/d.rs", true)];
    let listing = ListFiles::select(&entries, "/p", &glob, "**/*.rs", 2).unwrap();
    assert_eq!(listing.files.len(), 2);
    assert_eq!(listing.total_matched, 3);
    assert!(listing.truncated);
}

#[test]
fn list_without_match_names_pattern() {
    let glob = compile_glob("*.py").ok().unwrap();
    let entries = vec![entry("/p/a.rs", true)];
    let err = ListFiles::select(&entries, "/p", &glob, "*.py", 10).unwrap_err();
    assert_eq!(err.kind, ErrorKind::NotFound);
    assert_eq!(err.to_message(), "No files found matching pattern '*.py'");
    assert_eq!(ListFiles::missing_directory("nope").to_message(), "Directory 'nope' not found");
}

#[test]
fn bad_glob_is_refused() {
    let err = compile_glob("a[").err().unwrap();
    assert_eq!(err.kind, ErrorKind::InvalidInput);
    assert!(err.to_message().starts_with("Invalid glob pattern 'a[': "));
}

#[test]
fn move_destination_rules() {
    assert_eq!(MovePath::destination("/d", true, true, "f.txt").unwrap(), "/d/f.txt");
    assert_eq!(MovePath::destination("/new", false, false, "f.txt").unwrap(), "/new");
    let err = MovePath::destination("/x.txt", true, false, "f.txt").unwrap_err();
    assert_eq!(err.to_message(), "dest exists: '/x.txt'");
    let same = MovePath::check_distinct("/a", "/a", "a").unwrap_err();
    assert_eq!(same.to_message(), "same path: 'a'");
    assert!(MovePath::check_distinct("/a", "/b", "a").is_ok());
}

#[test]
fn move_summary_of_directory() {
    let files = vec!["/src/dir/a.txt".to_string(), "/src/dir/sub/b.txt".to_string()];
    let summary = MovePath::summary(&files, true, "/src/dir", "/dst");
    assert_eq!(summary.count, 2);
    assert!(!summary.truncated);
    assert_eq!(summary.moved[0], ("/src/dir/a.txt".to_string(), "/dst/a.txt".to_string()));
    assert_eq!(summary.moved[1], ("/src/dir/sub/b.txt".to_string(), "/dst/sub/b.txt".to_string()));
}

#[test]
fn move_summary_is_capped() {
    let files: Vec<String> = (0..25).map(|i| format!("/s/f{}", i)).collect();
    let summary = MovePath::summary(&files, true, "/s", "/t");
    assert_eq!(summary.count, 25);
    assert!(summary.truncated);
    assert_eq!(summary.moved.len(), MAX_MOVED_ENTRIES);
    let single = MovePath::summary(&vec!["/s/one".to_string()], false, "/s/one", "/t/two");
    assert_eq!(single.moved[0].1, "/t/two");
}

#[test]
fn only_an_empty_file_reads_as_empty() {
    assert_eq!(ReadFile::select_lines("", None, None).unwrap(), "");
    assert_eq!(ReadFile::select_lines("\n", None, None).unwrap(), "\n");
    assert_eq!(ReadFile::select_lines("a\n\nb", Some(2), Some(2)).unwrap(), "\n");
    assert_eq!(ReadFile::select_lines("a\n\n\nb", Some(2), Some(3)).unwrap(), "\n");
}

#[test]
fn move_needs_an_existing_source() {
    let err = MovePath::check_source("gone.txt", false).unwrap_err();
    assert_eq!(err.kind, ErrorKind::NotFound);
    assert_eq!(err.to_message(), "not found: 'gone.txt'");
    assert!(MovePath::check_source("here.txt", true).is_ok());
}
