use markdowner::collect::{collect_files, language_for_path, WalkEntry};
use markdowner::document::{generate_markdown, LoadedFile};
use markdowner::extensions::SupportedExtensions;
use markdowner::headers::adjust_markdown_headers;
use markdowner::ignore::is_ignored;
use markdowner::paths::display_path;
use markdowner::section::{render_code_section, render_markdown_section};
use markdowner::settings::{Args, Config, Settings};
use markdowner::stamp::{file_info, format_timestamp, FileInfo, Timestamp};
use markdowner::toc::{build_table_of_contents, generate_anchor, toc_entry};
use markdowner::tree::{build_directory_tree, DirEntry};

fn stamp() -> Timestamp {
    Timestamp { year: 2024, month: 3, day: 7, hour: 9, minute: 5, second: 0 }
}

fn info(size: u64) -> FileInfo {
    FileInfo { modified: stamp(), size }
}

fn settings(dir: &str, toc: bool, file_info: bool, tree: bool, ignore: Vec<String>) -> Settings {
    Settings {
        input_dir: dir.to_string(),
        output_path: None,
        ignore_patterns: ignore,
        include_toc: toc,
        include_file_info: file_info,
        include_directory_tree: tree,
    }
}

fn loaded(path: &str, content: &str) -> LoadedFile {
    LoadedFile { path: path.to_string(), content: content.to_string(), info: info(11) }
}

fn file(name: &str, path: &str) -> DirEntry {
    DirEntry { name: name.to_string(), path: path.to_string(), is_dir: false, children: vec![] }
}

fn dir(name: &str, path: &str, children: Vec<DirEntry>) -> DirEntry {
    DirEntry { name: name.to_string(), path: path.to_string(), is_dir: true, children }
}

fn walk(path: &str, is_file: bool) -> WalkEntry {
    WalkEntry { path: path.to_string(), is_file }
}

#[test]
fn anchor_strips_and_lowercases() {
    assert_eq!(generate_anchor("src/main.rs"), "srcmainrs");
    assert_eq!(generate_anchor("A/B.TXT"), "abtxt");
    assert_eq!(generate_anchor(""), "");
    assert_eq!(generate_anchor("a-b_c d"), "abcd");
}

#[test]
fn anchor_collisions_are_kept() {
    assert_eq!(generate_anchor("a/b.rs"), generate_anchor("ab.rs"));
}

#[test]
fn code_section_adds_newline_before_fence() {
    let s = render_code_section("hello.py", "python", "print(\"hi\")", None);
    assert_eq!(s, "---\n\n# hello.py\n\n```python\nprint(\"hi\")\n```\n\n");
}

#[test]
fn code_section_keeps_existing_newline() {
    let s = render_code_section("a.rs", "rust", "fn main() {}\n", None);
    assert_eq!(s, "---\n\n# a.rs\n\n```rust\nfn main() {}\n```\n\n");
}

#[test]
fn code_section_of_empty_file() {
    let s = render_code_section("e.txt", "", "", None);
    assert_eq!(s, "---\n\n# e.txt\n\n```\n\n```\n\n");
}

#[test]
fn code_section_with_metadata() {
    let s = render_code_section("a.rs", "rust", "x\n", Some(info(1234)));
    assert_eq!(
        s,
        "---\n\n# a.rs\n\n*Last modified:* `2024-03-07 09:05:00` | *Size:* `1234` bytes\n\n```rust\nx\n```\n\n"
    );
}

#[test]
fn round_trip_single_python_file() {
    let s = settings("proj", false, false, false, vec![]);
    let ext = SupportedExtensions::new();
    let files = vec![loaded("proj/hello.py", "print(\"hi\")")];
    let doc = generate_markdown(&s, &ext, &vec![], &files);
    assert_eq!(doc, "---\n\n# hello.py\n\n```python\nprint(\"hi\")\n```\n\n");
    assert!(doc.contains("```python\nprint(\"hi\")\n```\n"));
}

#[test]
fn markdown_file_headers_are_shifted() {
    let s = settings("proj", false, false, false, vec![]);
    let ext = SupportedExtensions::new();
    let files = vec![loaded("proj/a.rs", "fn a() {}\n"), loaded("proj/notes.md", "# Title")];
    let doc = generate_markdown(&s, &ext, &vec![], &files);
    assert!(doc.contains("---\n\n# notes.md\n\n## Title\n\n"));
    assert!(!doc.contains("```markdown"));
    assert_eq!(
        render_markdown_section("notes.md", "# Title", None),
        "---\n\n# notes.md\n\n## Title\n\n"
    );
}

#[test]
fn unknown_extension_or_ignored_file_is_left_out() {
    let ext = SupportedExtensions::new();
    let pats = vec!["b.*".to_string()];
    let both = collect_files(&vec![walk("a.rs", true), walk("b.unknownext", true)], &pats, &ext);
    assert_eq!(both, vec!["a.rs".to_string()]);
    // only the extension excludes it
    let by_ext = collect_files(&vec![walk("a.rs", true), walk("b.unknownext", true)], &vec![], &ext);
    assert_eq!(by_ext, vec!["a.rs".to_string()]);
    // only the pattern excludes it
    let by_pattern = collect_files(&vec![walk("a.rs", true), walk("b.rs", true)], &pats, &ext);
    assert_eq!(by_pattern, vec!["a.rs".to_string()]);
    let neither = collect_files(&vec![walk("a.rs", true), walk("b.rs", true)], &vec![], &ext);
    assert_eq!(neither, vec!["a.rs".to_string(), "b.rs".to_string()]);
}

#[test]
fn document_holds_one_section_for_known_file() {
    let s = settings("proj", false, false, false, vec!["b.*".to_string()]);
    let ext = SupportedExtensions::new();
    let files = vec![loaded("proj/a.rs", "x"), loaded("proj/b.unknownext", "y")];
    let doc = generate_markdown(&s, &ext, &vec![], &files);
    assert_eq!(doc.matches("---\n\n# ").count(), 1);
    assert!(doc.contains("# a.rs"));
    assert!(!doc.contains("b.unknownext"));
}

#[test]
fn directories_are_not_collected() {
    let ext = SupportedExtensions::new();
    let got = collect_files(&vec![walk("src.rs", false), walk("m.go", true)], &vec![], &ext);
    assert_eq!(got, vec!["m.go".to_string()]);
}

#[test]
fn malformed_pattern_matches_nothing() {
    let path = "src/a.rs";
    assert!(!is_ignored(path, &vec!["[".to_string()]));
    assert!(!is_ignored(path, &vec!["a***".to_string()]));
    assert!(is_ignored(path, &vec!["[".to_string(), "*.rs".to_string()]));
    assert_eq!(
        is_ignored(path, &vec!["[".to_string(), "src/*".to_string()]),
        is_ignored(path, &vec!["src/*".to_string()])
    );
}

#[test]
fn glob_patterns_match_paths() {
    assert!(is_ignored("node_modules/x.js", &vec!["node_modules/*".to_string()]));
    assert!(is_ignored("a/b.rs", &vec!["a/?.rs".to_string()]));
    assert!(is_ignored("a/b.rs", &vec!["a/[abc].rs".to_string()]));
    assert!(!is_ignored("a/d.rs", &vec!["a/[abc].rs".to_string()]));
    assert!(!is_ignored("a.rs", &vec![]));
}

#[test]
fn level_six_headers_stay() {
    assert_eq!(adjust_markdown_headers("###### A\n###### B"), "###### A\n###### B");
    assert_eq!(adjust_markdown_headers("######"), "######");
}

#[test]
fn headers_shift_and_cap() {
    assert_eq!(adjust_markdown_headers("# A\n## B\nplain"), "## A\n### B\nplain");
    assert_eq!(adjust_markdown_headers("####### seven"), "###### seven");
    assert_eq!(adjust_markdown_headers("#"), "######");
    assert_eq!(adjust_markdown_headers("#tag"), "#tag");
    assert_eq!(adjust_markdown_headers(""), "");
    assert_eq!(adjust_markdown_headers("a\r\nb\n"), "a\nb");
    assert_eq!(adjust_markdown_headers("a\n\nb"), "a\n\nb");
}

#[test]
fn registry_lookup_is_exact() {
    let ext = SupportedExtensions::new();
    assert_eq!(ext.get_language("rs"), Some("rust"));
    assert_eq!(ext.get_language("h"), Some("c"));
    assert_eq!(ext.get_language("md"), Some("markdown"));
    assert_eq!(ext.get_language("txt"), Some(""));
    assert_eq!(ext.get_language("gd"), Some("gdscript"));
    assert_eq!(ext.get_language("C"), None);
    assert_eq!(ext.get_language(".rs"), None);
    assert_eq!(ext.get_language(""), None);
}

#[test]
fn language_by_path_extension() {
    let ext = SupportedExtensions::new();
    assert_eq!(language_for_path(&ext, "dir/x.py"), Some("python"));
    assert_eq!(language_for_path(&ext, "dir/x.tar.yml"), Some("yaml"));
    assert_eq!(language_for_path(&ext, "Makefile"), None);
    assert_eq!(language_for_path(&ext, "dir/.rs"), None);
}

#[test]
fn paths_are_shown_relative_to_base() {
    assert_eq!(display_path("proj/src/main.rs", "proj"), "src/main.rs");
    assert_eq!(display_path("other/main.rs", "proj"), "other/main.rs");
}

#[test]
fn table_of_contents_lines() {
    assert_eq!(toc_entry("src/main.rs"), "- [src/main.rs](#srcmainrs)");
    let paths = vec!["proj/src/main.rs".to_string(), "proj/A.TXT".to_string()];
    assert_eq!(
        build_table_of_contents(&paths, "proj"),
        "- [src/main.rs](#srcmainrs)\n- [A.TXT](#atxt)"
    );
    assert_eq!(build_table_of_contents(&vec![], "proj"), "");
    assert_eq!(
        build_table_of_contents(&vec!["elsewhere/x.rs".to_string()], "proj"),
        "- [elsewhere/x.rs](#elsewherexrs)"
    );
}

#[test]
fn document_with_tree_and_toc() {
    let s = settings("proj", true, false, true, vec![]);
    let ext = SupportedExtensions::new();
    let tree = vec![file("a.rs", "proj/a.rs")];
    let files = vec![loaded("proj/a.rs", "x")];
    let doc = generate_markdown(&s, &ext, &tree, &files);
    assert_eq!(
        doc,
        "```\nproj/\n└─ a.rs\n```\n\n## Table of Contents\n\n- [a.rs](#ars)\n\n---\n\n# a.rs\n\n```rust\nx\n```\n\n"
    );
}

#[test]
fn tree_sorts_directories_first() {
    let entries = vec![
        file("b.rs", "root/b.rs"),
        dir("zeta", "root/zeta", vec![file("z.rs", "root/zeta/z.rs")]),
        file("a.rs", "root/a.rs"),
        dir("alpha", "root/alpha", vec![dir("inner", "root/alpha/inner", vec![]), file("m.rs", "root/alpha/m.rs")]),
    ];
    let text = build_directory_tree("work/root", &entries, &vec![]);
    assert_eq!(
        text,
        "root/\n├─ alpha/\n│   ├─ inner/\n│   └─ m.rs\n├─ zeta/\n│   └─ z.rs\n├─ a.rs\n└─ b.rs\n"
    );
}

#[test]
fn tree_last_is_after_filtering() {
    let entries = vec![file("a.rs", "root/a.rs"), file("b.log", "root/b.log")];
    let text = build_directory_tree("root", &entries, &vec!["*.log".to_string()]);
    assert_eq!(text, "root/\n└─ a.rs\n");
}

#[test]
fn tree_order_is_case_sensitive() {
    let entries = vec![file("b", "r/b"), file("B", "r/B"), file("a", "r/a")];
    let text = build_directory_tree("r", &entries, &vec![]);
    assert_eq!(text, "r/\n├─ B\n├─ a\n└─ b\n");
}

#[test]
fn tree_is_same_whatever_listing_order() {
    let one = vec![file("b", "r/b"), dir("d", "r/d", vec![]), file("a", "r/a")];
    let two = vec![file("a", "r/a"), file("b", "r/b"), dir("d", "r/d", vec![])];
    let first = build_directory_tree("r", &one, &vec![]);
    assert_eq!(first, build_directory_tree("r", &one, &vec![]));
    assert_eq!(first, build_directory_tree("r", &two, &vec![]));
    let deep_one = vec![dir("d", "r/d", vec![file("y", "r/d/y"), file("x", "r/d/x")]), file("a", "r/a")];
    let deep_two = vec![file("a", "r/a"), dir("d", "r/d", vec![file("x", "r/d/x"), file("y", "r/d/y")])];
    let deep = build_directory_tree("r", &deep_one, &vec![]);
    assert_eq!(deep, "r/\n├─ d/\n│   ├─ x\n│   └─ y\n└─ a\n");
    assert_eq!(deep, build_directory_tree("r", &deep_two, &vec![]));
}

#[test]
fn tree_of_empty_directory() {
    assert_eq!(build_directory_tree("/", &vec![], &vec![]), "//\n");
    assert_eq!(build_directory_tree("proj", &vec![], &vec![]), "proj/\n");
}

#[test]
fn timestamps_are_zero_padded() {
    assert_eq!(format_timestamp(stamp()), "2024-03-07 09:05:00");
    let t = Timestamp { year: 12, month: 12, day: 31, hour: 23, minute: 59, second: 59 };
    assert_eq!(format_timestamp(t), "0012-12-31 23:59:59");
    let far = Timestamp { year: 12345, month: 1, day: 1, hour: 0, minute: 0, second: 0 };
    assert_eq!(format_timestamp(far), "+12345-01-01 00:00:00");
    let before = Timestamp { year: -1, month: 1, day: 1, hour: 0, minute: 0, second: 0 };
    assert_eq!(format_timestamp(before), "-0001-01-01 00:00:00");
}

#[test]
fn file_info_keeps_size() {
    let fi = file_info(86400 * 365, 42).unwrap();
    assert_eq!(fi.size, 42);
    assert!(fi.modified.year == 1970 || fi.modified.year == 1971);
    assert!(fi.modified.month >= 1 && fi.modified.month <= 12);
}

#[test]
fn settings_merge_arguments_and_defaults() {
    let args = Args {
        input_dir: "src".to_string(),
        output: None,
        ignore: vec!["a".to_string()],
        toc: true,
        file_info: false,
        directory_tree: false,
    };
    let config = Config {
        ignore_patterns: vec!["b".to_string()],
        default_output: Some("out.md".to_string()),
        include_directory_tree: true,
        include_toc: false,
        include_file_info: false,
    };
    let s = Settings::from_args_and_config(args, config);
    assert_eq!(s.input_dir, "src");
    assert_eq!(s.ignore_patterns, vec!["a".to_string(), "b".to_string()]);
    assert_eq!(s.output_path, Some("out.md".to_string()));
    assert!(s.include_toc);
    assert!(!s.include_file_info);
    assert!(s.include_directory_tree);
}

#[test]
fn argument_output_wins() {
    let args = Args {
        input_dir: "src".to_string(),
        output: Some("mine.md".to_string()),
        ignore: vec![],
        toc: false,
        file_info: false,
        directory_tree: false,
    };
    let s = Settings::from_args_and_config(args, Config::default());
    assert_eq!(s.output_path, Some("mine.md".to_string()));
    assert!(s.ignore_patterns.is_empty());
    assert!(!s.include_toc && !s.include_file_info && !s.include_directory_tree);
}

#[test]
fn default_config_is_empty() {
    let c = Config::default();
    assert!(c.ignore_patterns.is_empty());
    assert_eq!(c.default_output, None);
    assert!(!c.include_directory_tree && !c.include_toc && !c.include_file_info);
}

fn pipeline(dir: &str, names: &[(&str, &str)], ignore: Vec<String>) -> String {
    let ext = SupportedExtensions::new();
    let walked: Vec<WalkEntry> = names.iter().map(|(n, _)| walk(&format!("{}/{}", dir, n), true)).collect();
    let paths = collect_files(&walked, &ignore, &ext);
    let files: Vec<LoadedFile> = paths
        .iter()
        .map(|p| {
            let content = names.iter().find(|(n, _)| format!("{}/{}", dir, n) == *p).unwrap().1;
            loaded(p, content)
        })
        .collect();
    let s = settings(dir, false, false, false, ignore);
    generate_markdown(&s, &ext, &vec![], &files)
}

#[test]
fn pipeline_pattern_and_unknown_extension() {
    let doc = pipeline("proj", &[("a.rs", "x"), ("b.unknownext", "y")], vec!["proj/b.*".to_string()]);
    assert_eq!(doc.matches("---\n\n# ").count(), 1);
    assert!(doc.contains("# a.rs\n\n```rust\n"));
    assert!(!doc.contains("b.unknownext"));
}

#[test]
fn pipeline_unknown_extension_alone_excludes() {
    let doc = pipeline("proj", &[("a.rs", "x"), ("b.unknownext", "y")], vec![]);
    assert_eq!(doc.matches("---\n\n# ").count(), 1);
    assert!(doc.contains("# a.rs\n\n```rust\n"));
    assert!(!doc.contains("b.unknownext"));
}

#[test]
fn pipeline_pattern_alone_excludes() {
    let doc = pipeline("proj", &[("a.rs", "x"), ("b.rs", "y")], vec!["proj/b.*".to_string()]);
    assert_eq!(doc.matches("---\n\n# ").count(), 1);
    assert!(doc.contains("# a.rs\n\n```rust\n"));
    assert!(!doc.contains("b.rs"));
    let both = pipeline("proj", &[("a.rs", "x"), ("b.rs", "y")], vec![]);
    assert_eq!(both.matches("---\n\n# ").count(), 2);
}

#[test]
fn pipeline_markdown_is_shifted_not_fenced() {
    let doc = pipeline("proj", &[("notes.md", "# Title"), ("x.rs", "fn x() {}")], vec![]);
    assert!(doc.contains("# notes.md\n\n## Title"));
    assert!(!doc.contains("```markdown"));
}

#[test]
fn malformed_pattern_keeps_tree() {
    let entries = vec![file("a.rs", "r/a.rs"), file("b.log", "r/b.log"), file("[", "r/[")];
    let ps = vec!["*.log".to_string()];
    let with_bad = vec!["*.log".to_string(), "[".to_string()];
    assert_eq!(build_directory_tree("r", &entries, &with_bad), build_directory_tree("r", &entries, &ps));
    assert_eq!(build_directory_tree("r", &entries, &vec!["[".to_string()]), build_directory_tree("r", &entries, &vec![]));
}

#[test]
fn file_info_range_is_chrono_range() {
    assert!(file_info(8210266876799, 1).is_some());
    assert!(file_info(8210266876800, 1).is_none());
    assert!(file_info(-8334601228800, 1).is_some());
    assert!(file_info(-8334601228801, 1).is_none());
    assert!(file_info(0, 0).is_some());
}
