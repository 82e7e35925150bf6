use std::collections::BTreeSet;

use chat_cli::content_search::{
    collect_matches, EntryStep, FsSearch, FsSearchContent, RunningSearch, MAX_RESPONSE_SIZE,
};
use chat_cli::fs_search::{DirEntry, EntryKind, FsSearchName};
use chat_cli::matcher::Separators;

const TEST_CONTENT: &str = "// A test Rust file

use std::io::Write;

fn main() {
    println!(\"Hello, world!\");
    // TODO: Add more functionality
    println!(\"This is a test\"); // FIXME: Remove debug print
}

mod test_module {
    #[test]
    fn test_function() {
        assert_eq!(2 + 2, 4);
        // TODO: Add more tests
    }
}
";

fn machine() -> Separators {
    Separators::of_machine()
}

/// A tree of files, each with its path and its content.
struct Tree(Vec<(String, String)>);

impl Tree {
    fn new() -> Tree {
        let files = [
            ("/test_content.rs", TEST_CONTENT),
            ("/src/main.rs", "fn main() { println!(\"Hello\"); }"),
            ("/src/lib.rs", "pub mod utils;"),
            ("/src/utils/mod.rs", "pub fn helper() {}"),
            ("/tests/integration.rs", "// Integration tests"),
            ("/README.md", "# Test Project"),
            ("/Cargo.toml", "[package]\nname = \"test\""),
            ("/.git/config", "[core]\nrepositoryformatversion = 0"),
            ("/node_modules/package.json", "{}"),
        ];
        Tree(files.iter().map(|(p, c)| (p.to_string(), c.to_string())).collect())
    }

    fn with(mut self, path: &str, content: &str) -> Tree {
        self.0.push((path.to_string(), content.to_string()));
        self
    }

    fn kind(&self, path: &str) -> Result<EntryKind, String> {
        if self.0.iter().any(|(p, _)| p == path) {
            return Ok(EntryKind::File);
        }
        let dir = if path == "/" { "/".to_string() } else { format!("{path}/") };
        if self.0.iter().any(|(p, _)| p.starts_with(&dir)) {
            return Ok(EntryKind::Directory);
        }
        Err("No such file or directory (os error 2)".to_string())
    }

    fn entries(&self, path: &str) -> Result<Vec<DirEntry>, String> {
        match self.kind(path)? {
            EntryKind::Directory => {},
            _ => return Err("Not a directory (os error 20)".to_string()),
        }
        let dir = if path == "/" { "/".to_string() } else { format!("{path}/") };
        let names: BTreeSet<String> = self
            .0
            .iter()
            .filter_map(|(p, _)| p.strip_prefix(&dir))
            .map(|rest| rest.split('/').next().unwrap().to_string())
            .collect();
        Ok(names
            .into_iter()
            .map(|name| {
                let kind = self.kind(&format!("{dir}{name}")).unwrap();
                DirEntry { name, utf8: true, kind }
            })
            .collect())
    }

    fn content(&self, path: &str) -> (u64, Option<String>) {
        let (_, content) = self.0.iter().find(|(p, _)| p == path).unwrap();
        (content.len() as u64, Some(content.clone()))
    }

    /// Runs a search to its end, and gives what is shown and the result.
    fn run(&self, search: &FsSearch) -> Result<(String, String), String> {
        let path = match search {
            FsSearch::Name(s) => s.path.clone(),
            FsSearch::Content(s) => s.path.clone(),
        };
        let kind = self.kind(&path);
        match search.invoke(&path, &kind, &machine())? {
            RunningSearch::Name(mut run) => {
                while let Some(dir) = run.next_directory() {
                    for entry in self.entries(&dir)? {
                        run.visit(&entry);
                    }
                }
                let FsSearch::Name(asked) = search else { unreachable!() };
                let (report, text) = asked.results(&run.matching_files());
                Ok((report.text(), text))
            },
            RunningSearch::Content(mut run) => {
                if matches!(kind, Ok(EntryKind::File)) {
                    let (size, content) = self.content(&path);
                    let found = run.search_file_content(size, &content);
                    run.add_only_file(&path, found);
                }
                while let Some(dir) = run.next_directory() {
                    for entry in self.entries(&dir)? {
                        match run.visit(&entry) {
                            EntryStep::Stop => break,
                            EntryStep::Skip => {},
                            EntryStep::Search(file) => {
                                let (size, content) = self.content(&file);
                                let found = run.search_file_content(size, &content);
                                if !run.add_matches(&file, found) {
                                    break;
                                }
                            },
                        }
                    }
                }
                let (report, text) = run.results();
                Ok((report.text(), text))
            },
        }
    }

    fn text(&self, search: &FsSearch) -> String {
        self.run(search).unwrap().1
    }
}

fn by_name(path: &str, pattern: &str) -> FsSearch {
    FsSearch::Name(FsSearchName { path: path.to_string(), pattern: pattern.to_string(), include_ignored: false })
}

fn content(path: &str, pattern: &str) -> FsSearchContent {
    FsSearchContent {
        path: path.to_string(),
        pattern: pattern.to_string(),
        include_ignored: false,
        context_before: None,
        context_after: None,
        max_file_size: None,
        file_path: None,
    }
}

fn by_content(path: &str, pattern: &str) -> FsSearch {
    FsSearch::Content(content(path, pattern))
}

fn with_context(path: &str, pattern: &str, before: usize, after: usize) -> FsSearch {
    FsSearch::Content(FsSearchContent {
        context_before: Some(before),
        context_after: Some(after),
        ..content(path, pattern)
    })
}

fn filtered(path: &str, pattern: &str, file_path: &str) -> FsSearch {
    FsSearch::Content(FsSearchContent { file_path: Some(file_path.to_string()), ..content(path, pattern) })
}

#[test]
fn test_context_limits() {
    let content_search = FsSearchContent {
        path: "/test".to_string(),
        pattern: "test".to_string(),
        include_ignored: false,
        context_before: Some(25),
        context_after: Some(5),
        max_file_size: None,
        file_path: None,
    };

    assert_eq!(content_search.context_before_lines(), 20);
    assert_eq!(content_search.context_after_lines(), 5);
    assert_eq!(content_search.max_file_size_bytes(), 52_428_800);
}

#[test]
fn test_fs_search_name_absolute_paths() {
    for line in Tree::new().text(&by_name("/", "*.rs")).lines() {
        if line.trim().ends_with(".rs") {
            assert!(line.trim().starts_with('/'), "Path '{}' should be absolute", line.trim());
        }
    }
}

#[test]
fn test_fs_search_name_relative_starting_point() {
    let tree = Tree::new().with("/project/src/main.rs", "fn main() {}").with("/project/README.md", "# Project");
    let text = tree.text(&by_name("/project", "*.rs"));
    assert!(text.contains("  /project/src/main.rs\n"));
}

#[test]
fn test_fs_search_name_invoke() {
    let text = Tree::new().text(&by_name("/", "*.rs"));
    assert!(text.contains("Found 5 files"));
    assert!(text.contains("main.rs"));
    assert!(text.contains("lib.rs"));
    assert!(text.contains("mod.rs"));
    assert!(text.contains("test_content.rs"));
    assert!(text.contains("integration.rs"));
    assert!(!text.contains("README.md"));

    let text = Tree::new().text(&by_name("/", "*.md"));
    assert!(text.contains("Found 1 files"));
    assert!(text.contains("README.md"));
}

#[test]
fn test_fs_search_name_with_ignore() {
    let text = Tree::new().text(&by_name("/", "*"));
    assert!(!text.contains(".git"));
    assert!(!text.contains("node_modules"));
    assert!(text.contains("src"));

    let all = FsSearch::Name(FsSearchName {
        path: "/".to_string(),
        pattern: "*config*".to_string(),
        include_ignored: true,
    });
    assert!(Tree::new().text(&all).contains("config"));
}

#[test]
fn test_fs_search_content_invoke() {
    let text = Tree::new().text(&by_content("/", "TODO"));
    assert!(text.contains("Found matches in 1 files"));
    assert!(text.contains("test_content.rs"));
    assert!(text.contains("TODO"));
    assert!(text.lines().filter(|line| line.contains("TODO")).count() >= 2);

    let text = Tree::new().text(&by_content("/", "fn \\w+"));
    assert!(text.contains("fn main"));
    assert!(text.contains("fn test_function"));
}

#[test]
fn test_fs_search_content_with_context() {
    let text = Tree::new().text(&with_context("/", "TODO", 1, 1));
    assert!(text.contains("[match]"));
    assert!(text.contains("[context]"));
    assert!(text.contains("TODO"));
}

#[test]
fn test_fs_search_validation_errors() {
    assert!(by_name("/nonexistent", "*.rs").validate(false, &machine()).is_err());
    assert!(by_name("/", "[unclosed").validate(true, &machine()).is_err());
    assert!(by_content("/", "(").validate(true, &machine()).is_err());
    let wide = FsSearch::Content(FsSearchContent { context_before: Some(25), ..content("/", "test") });
    assert!(wide.validate(true, &machine()).is_err());
}

#[test]
fn test_file_vs_directory_search_errors() {
    let tree = Tree::new();
    let error_msg = tree.run(&by_name("/test_content.rs", "*.rs")).unwrap_err();
    assert!(error_msg.contains("Not a directory") || error_msg.contains("os error"));

    let text = tree.text(&by_content("/test_content.rs", "TODO"));
    assert!(text.contains("Found matches"));
    assert!(text.contains("test_content.rs"));
    assert!(text.contains("TODO"));

    assert!(tree.text(&by_content("/src", "fn")).contains("Found matches"));
}

#[test]
fn test_invalid_nonexistent_path_handling() {
    let error_msg = by_name("/does/not/exist/anywhere", "*.txt").validate(false, &machine()).unwrap_err();
    assert_eq!(error_msg, "Path does not exist: '/does/not/exist/anywhere'");
    let error_msg = by_content("/missing/directory", "anything").validate(false, &machine()).unwrap_err();
    assert!(error_msg.contains("Path does not exist"));
    assert!(by_name("/temp_dir", "*.txt").validate(true, &machine()).is_ok());
}

#[test]
fn test_malformed_glob_regex_pattern_errors() {
    let error_msg = by_name("/", "[unclosed_bracket").validate(true, &machine()).unwrap_err();
    assert!(error_msg.contains("Invalid glob pattern"));

    for pattern in ["(", "[", "*", "?+", "(?P<>test)", "(?i", "\\k<name>"] {
        let result = by_content("/", pattern).validate(true, &machine());
        assert!(result.is_err(), "Pattern '{}' should have failed validation", pattern);
        assert!(result.unwrap_err().contains("Invalid regex pattern"));
    }
}

#[test]
fn test_parameter_validation_edge_cases() {
    let before = FsSearch::Content(FsSearchContent { context_before: Some(21), ..content("/", "test") });
    assert_eq!(before.validate(true, &machine()).unwrap_err(), "Invalid value for context_before: '21'. Must be <= 20");
    let after = FsSearch::Content(FsSearchContent { context_after: Some(21), ..content("/", "test") });
    assert_eq!(after.validate(true, &machine()).unwrap_err(), "Invalid value for context_after: '21'. Must be <= 20");
    assert!(with_context("/", "test", 20, 20).validate(true, &machine()).is_ok());
    assert!(with_context("/", "test", 0, 0).validate(true, &machine()).is_ok());
}

#[test]
fn test_empty_and_whitespace_patterns() {
    assert!(by_name("/", "").validate(true, &machine()).is_ok());
    assert!(by_name("/", "   ").validate(true, &machine()).is_ok());
    assert!(by_content("/", "").validate(true, &machine()).is_ok());
}

#[test]
fn test_large_file_handling_errors() {
    let tree = Tree::new().with("/large_file.txt", &"x".repeat(100_000));
    let search = FsSearch::Content(FsSearchContent { max_file_size: Some(1000), ..content("/", "x") });
    let text = tree.text(&search);
    assert!(text.contains("Found matches in 0 files") || !text.contains("large_file.txt"));
}

#[test]
fn test_file_path_glob_filtering() {
    let tree = Tree::new()
        .with("/project/src/main.rs", "fn main() { println!(\"Hello\"); }")
        .with("/project/src/lib.rs", "pub mod utils;")
        .with("/project/src/utils.py", "def hello(): pass")
        .with("/project/tests/test.rs", "// Test file")
        .with("/project/tests/integration.py", "# Integration test")
        .with("/project/docs/README.md", "# Documentation")
        .with("/project/config.json", "{\"version\": \"1.0\"}");

    let text = tree.text(&filtered("/project", "fn|mod|Test", "*.rs"));
    assert!(text.contains("main.rs") || text.contains("lib.rs") || text.contains("test.rs"));
    assert!(!text.contains("utils.py"));
    assert!(!text.contains("integration.py"));
    assert!(!text.contains("README.md"));

    let text = tree.text(&filtered("/project", "def|#", "*.py"));
    assert!(text.contains("utils.py") || text.contains("integration.py"));
    assert!(!text.contains("main.rs"));
    assert!(!text.contains("README.md"));

    let text = tree.text(&filtered("/project", "test|Test", "**/test*"));
    assert!(text.contains("test.rs") || text.contains("integration.py"));
}

#[test]
fn test_file_path_validation() {
    assert!(filtered("/", "test", "*.rs").validate(true, &machine()).is_ok());
    assert!(filtered("/", "test", "**/*.py").validate(true, &machine()).is_ok());
    let error_msg = filtered("/", "test", "[unclosed").validate(true, &machine()).unwrap_err();
    assert!(error_msg.contains("Invalid glob pattern"));
}

#[test]
fn test_combined_filtering_and_context() {
    let rust = "\nfn main() {\n    // TODO: Implement main logic\n    println!(\"Hello\");\n    // FIXME: Handle errors properly\n}\n";
    let python = "\ndef main():\n    # TODO: Implement main logic\n    print(\"Hello\")\n    # FIXME: Handle errors properly\n";
    let tree = Tree::new().with("/filtered_test.rs", rust).with("/filtered_test.py", python);
    let search = FsSearch::Content(FsSearchContent {
        context_before: Some(1),
        context_after: Some(1),
        file_path: Some("*.rs".to_string()),
        ..content("/", "TODO")
    });
    let text = tree.text(&search);
    assert!(text.contains("filtered_test.rs"));
    assert!(text.contains("TODO"));
    assert!(text.contains("[context]") || text.contains("[match]"));
    assert!(!text.contains("filtered_test.py"));
}

#[test]
fn test_match_counting_display() {
    let tree = Tree::new()
        .with("/single_match.txt", "This has one TODO item")
        .with("/multiple_matches.txt", "TODO: First item\nTODO: Second item\nTODO: Third item")
        .with("/no_matches.txt", "This file has no target pattern");
    let text = tree.text(&by_content("/single_match.txt", "TODO"));
    assert!(text.contains("✔ Found: 1 match"));
    assert!(text.contains("single_match.txt"));
    let text = tree.text(&by_content("/multiple_matches.txt", "TODO"));
    assert!(text.contains("✔ Found: 3 matches"));
    assert!(text.contains("multiple_matches.txt"));
    let text = tree.text(&by_content("/no_matches.txt", "TODO"));
    assert!(text.contains("✘ Found: 0 matches"));
}

#[test]
fn test_cross_file_match_counting() {
    let tree = Tree::new()
        .with("/project/file1.txt", "TODO: First\nFIXME: Also first")
        .with("/project/file2.txt", "TODO: Second\nTODO: Another second")
        .with("/project/file3.txt", "No matches here")
        .with("/project/file4.txt", "TODO: Third");
    let text = tree.text(&by_content("/project", "TODO"));
    assert!(text.contains("✔ Found: 4 matches"));
    assert!(text.contains("Found matches in 3 files"));
}

#[test]
fn test_match_count_output_order() {
    let tree = Tree::new().with("/test_order.txt", "TODO: Test output order");
    let text = tree.text(&by_content("/test_order.txt", "TODO"));
    let count_pos = text.find("✔ Found: 1 match");
    let detail_pos = text.find("test_order.txt:");
    assert!(count_pos.is_some());
    assert!(detail_pos.is_some());
    assert!(count_pos.unwrap() < detail_pos.unwrap());
    assert_eq!(
        text,
        "✔ Found: 1 match\n\nFound matches in 1 files:\n\n/test_order.txt:\n  1: TODO: Test output order\n\n"
    );
}

#[test]
fn test_name_search_visual_feedback_display() {
    let (shown, text) = Tree::new().run(&by_name("/", "*.rs")).unwrap();
    assert!(text.contains("✔ Found:"));
    assert!(text.contains("files"));
    assert!(text.contains("Found") && text.contains("files matching pattern"));
    assert_eq!(shown, " ✔ Found: 5 files");
}

#[test]
fn test_name_search_no_matches_display() {
    let text = Tree::new().text(&by_name("/", "nonexistent*.xyz"));
    assert!(text.contains("✘ Found: 0 files"));
    assert!(text.contains("Found 0 files matching pattern"));
}

#[test]
fn test_name_search_singular_plural_formatting() {
    let text = Tree::new().with("/single_test.txt", "content").text(&by_name("/", "single_test.txt"));
    assert!(text.contains("✔ Found: 1 file"));
    assert!(text.contains("Found 1 files matching pattern"));
}

#[test]
fn test_name_search_output_order() {
    let text = Tree::new().with("/order_test.txt", "content").text(&by_name("/", "order_test.txt"));
    let visual_pos = text.find("✔ Found: 1 file");
    let detail_pos = text.find("order_test.txt");
    assert!(visual_pos.is_some());
    assert!(detail_pos.is_some());
    assert!(visual_pos.unwrap() < detail_pos.unwrap());
}

#[test]
fn test_context_lines_match_counting_accuracy() {
    let tree = Tree::new().with(
        "/context_test.txt",
        "Line 1: Some content\nLine 2: TODO: First item\nLine 3: More content\nLine 4: TODO: Second item\nLine 5: Final content",
    );
    let text = tree.text(&with_context("/context_test.txt", "TODO", 2, 2));
    assert!(text.contains("✔ Found: 2 matches"), "Expected '✔ Found: 2 matches' but got: {}", text);
    assert!(text.contains("context_test.txt"));
    assert!(text.contains("[match]"));
    assert!(text.contains("[context]"));
}

#[test]
fn test_no_context_vs_context_match_count_consistency() {
    let tree = Tree::new().with(
        "/consistency_test.txt",
        "TODO: First\nSome content\nTODO: Second\nMore content\nTODO: Third",
    );
    let text_no_context = tree.text(&by_content("/consistency_test.txt", "TODO"));
    let text_with_context = tree.text(&with_context("/consistency_test.txt", "TODO", 1, 1));
    assert!(
        text_no_context.contains("✔ Found: 3 matches"),
        "No context should show 3 matches: {}",
        text_no_context
    );
    assert!(
        text_with_context.contains("✔ Found: 3 matches"),
        "With context should show 3 matches: {}",
        text_with_context
    );
}

#[test]
fn test_directory_search_match_counting_accuracy() {
    let tree = Tree::new()
        .with("/count_test_dir/file1.txt", "TODO: One match here")
        .with("/count_test_dir/file2.txt", "TODO: First\nTODO: Second")
        .with("/count_test_dir/file3.txt", "No matches in this file");
    let text = tree.text(&with_context("/count_test_dir", "TODO", 1, 1));
    assert!(text.contains("✔ Found: 3 matches"), "Expected '✔ Found: 3 matches' but got: {}", text);
    assert!(text.contains("Found matches in 2 files"));
}

#[test]
fn test_single_file_vs_directory_search_consistency() {
    let tree = Tree::new().with("/single_vs_dir/test_file.txt", "TODO: Match one\nSome content\nTODO: Match two");
    let text_single = tree.text(&with_context("/single_vs_dir/test_file.txt", "TODO", 1, 1));
    let text_dir = tree.text(&with_context("/single_vs_dir", "TODO", 1, 1));
    assert!(
        text_single.contains("✔ Found: 2 matches"),
        "Single file should show 2 matches: {}",
        text_single
    );
    assert!(
        text_dir.contains("✔ Found: 2 matches"),
        "Directory search should show 2 matches: {}",
        text_dir
    );
}

#[test]
fn a_directory_that_matches_is_not_entered() {
    let tree = Tree::new().with("/rs/a.rs", "").with("/other/x.rs", "");
    let search = by_name("/", "rs");
    assert!(tree.text(&search).contains("Found 1 files"));
    let text = Tree::new().with("/src.rs/a.rs", "").text(&by_name("/", "src.rs*"));
    assert!(text.contains("  /src.rs\n"));
    assert!(!text.contains("a.rs\n"), "{text}");
}

#[test]
fn a_path_that_leads_nowhere_is_refused() {
    let search = content("/socket", "x");
    assert_eq!(
        search.invoke("/socket", &Ok(EntryKind::Other), &machine()).err(),
        Some("Path '/socket' is neither a file nor a directory".to_string())
    );
    assert_eq!(search.invoke("/socket", &Err("gone".to_string()), &machine()).err(), Some("gone".to_string()));
    assert!(content("/", "(").invoke("/", &Err("gone".to_string()), &machine()).err().unwrap().contains("regex parse error"));
}

#[test]
fn a_result_stays_within_its_limit() {
    let line = "x".repeat(1000);
    let file = format!("{line}\n").repeat(10);
    let mut tree = Tree::new();
    for i in 0..9 {
        tree = tree.with(&format!("/big/{i}.txt"), &file);
    }
    let text = tree.text(&by_content("/big", "x"));
    assert!(text.contains("✔ Found: 40 matches"), "{}", &text[..40]);
    assert!(text.contains("Found matches in 3 files"));
    assert!(text.len() < MAX_RESPONSE_SIZE + 1000);
    assert!(!text.contains("truncated"));
    let single = tree.text(&by_content("/big/0.txt", "x"));
    assert!(single.contains("✔ Found: 10 matches"));
}

#[test]
fn a_single_large_file_is_marked_as_truncated() {
    let file = format!("{}\n", "x".repeat(1000)).repeat(40);
    let text = Tree::new().with("/big.txt", &file).text(&by_content("/big.txt", "x"));
    assert!(text.ends_with("\n[Results truncated - response size limit reached]"));
}

#[test]
fn matches_are_shown_with_their_context() {
    let text: Vec<String> = ["a", "b", "c", "d"].iter().map(|s| s.to_string()).collect();
    let line = |n: usize, s: &str| (n, s.to_string());
    assert_eq!(
        collect_matches(&text, &vec![false, true, false, true], 1, 1),
        vec![
            line(1, "[context] a"),
            line(2, "[match] b"),
            line(3, "[context] c"),
            line(3, "[context] c"),
            line(4, "[match] d"),
        ]
    );
    assert_eq!(collect_matches(&text, &vec![true, false, false, false], 0, 0), vec![line(1, "a")]);
    let found = vec![line(1, "[context] a"), line(2, "[match] b"), line(3, "c")];
    assert_eq!(FsSearchContent::count_actual_matches(&found), 2);
    assert_eq!(FsSearchContent::estimate_matches_size(&vec![line(12, "ab")]), 9);
}

#[test]
fn hidden_names_are_passed_over() {
    let entry = |name: &str, utf8: bool| DirEntry { name: name.to_string(), utf8, kind: EntryKind::File };
    assert!(FsSearchName::should_ignore_entry(&entry(".hidden", true)));
    assert!(FsSearchName::should_ignore_entry(&entry("target", true)));
    assert!(!FsSearchName::should_ignore_entry(&entry("targets", true)));
    assert!(!FsSearchName::should_ignore_entry(&entry(".hidden", false)));
}

#[test]
fn searches_are_announced() {
    assert_eq!(
        by_name("/", "*.rs").queue_description().text(),
        "Searching for files matching pattern: *.rs in /\n"
    );
    assert_eq!(
        by_content("/", "TODO").queue_description().text(),
        "Searching for content matching pattern: TODO in /\n"
    );
}
