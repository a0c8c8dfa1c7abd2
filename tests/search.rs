use kemet::config::{ParsedArgs, USAGE};
use kemet::report::written_notice;
use kemet::scan::{Match, SearchEngine};
use kemet::config::Config;

fn strings(v: &[&str]) -> Vec<String> {
    v.iter().map(|s| s.to_string()).collect()
}

fn default_config(needle: &str) -> Config {
    let parsed = Config::parse_args(&strings(&["kemet", "-s", needle])).unwrap();
    Config::new(parsed, "root".to_string(), true, true).unwrap()
}

fn config_from(args: &[&str]) -> Config {
    let mut all = vec!["kemet"];
    all.extend_from_slice(args);
    let parsed = Config::parse_args(&strings(&all)).unwrap();
    Config::new(parsed, "root".to_string(), true, true).unwrap()
}

/// Feeds each file as the scanner would, lines split as `BufRead::lines` splits them.
fn run(config: &Config, files: &[(&str, &str)]) -> (Vec<String>, usize, usize) {
    let mut engine = SearchEngine::new(config);
    for (path, content) in files {
        if !engine.should_search_file(path) {
            continue;
        }
        let mut scan = engine.start_file(path.to_string());
        let mut pieces: Vec<&str> = content.split('\n').collect();
        if pieces.last() == Some(&"") {
            pieces.pop();
        }
        for p in pieces {
            let line = p.strip_suffix('\r').unwrap_or(p);
            engine.scan_line(&mut scan, line.to_string());
        }
    }
    let report = engine.render_report();
    (report, engine.matches.len(), engine.files_searched)
}

#[test]
fn single_match_report() {
    let c = default_config("hello");
    let (report, m, f) = run(&c, &[("root/a.txt", "hello\nworld\n")]);
    assert_eq!((m, f), (1, 1));
    assert!(report.contains(&"Found 1 matches in 1 files:".to_string()));
    let lines: Vec<&String> = report.iter().filter(|l| l.contains("(Line")).collect();
    assert_eq!(lines, vec!["root/a.txt (Line 1)"]);
    assert!(report.contains(&"Summary: 1 files searched, 1 matches found".to_string()));
    assert_eq!(
        report,
        strings(&[
            "Searching for \"hello\" in root and all subfolders...",
            "Extensions: .txt, .json, .cs, .sql, .config, .rs, .py, .js, .ts, .html, .css, .xml",
            "",
            "Found 1 matches in 1 files:",
            "",
            "root/a.txt (Line 1)",
            "",
            "Summary: 1 files searched, 1 matches found",
        ])
    );
}

#[test]
fn case_folding_and_case_sensitive_flag() {
    let c = default_config("hello");
    let (_, m, _) = run(&c, &[("root/a.txt", "Hello\n")]);
    assert_eq!(m, 1);
    let c = config_from(&["-s", "hello", "-c"]);
    let (report, m, f) = run(&c, &[("root/a.txt", "Hello\n")]);
    assert_eq!((m, f), (0, 1));
    assert!(report.contains(&"No matches found.".to_string()));
    assert!(report.contains(&"Case-sensitive search enabled".to_string()));
}

#[test]
fn only_listed_extensions_are_searched() {
    let c = default_config("fn");
    let (report, m, f) = run(&c, &[("root/a.rs", "fn x() {}\n"), ("root/a.md", "fn x() {}\n")]);
    assert_eq!((m, f), (1, 1));
    assert!(report.contains(&"root/a.rs (Line 1)".to_string()));
}

#[test]
fn shown_lines_keep_their_content() {
    let c = config_from(&["-s", "ab", "-l"]);
    let (report, m, _) = run(&c, &[("root/a.txt", "ab\nabc\nAB\n")]);
    assert_eq!(m, 3);
    assert!(report.contains(&"root/a.txt (Line 1): ab".to_string()));
    assert!(report.contains(&"root/a.txt (Line 2): abc".to_string()));
    let c = config_from(&["-s", "ab", "-l", "-c"]);
    let (report, m, _) = run(&c, &[("root/a.txt", "ab\nabc\nAB\n")]);
    assert_eq!(m, 2);
    assert!(report.contains(&"root/a.txt (Line 1): ab".to_string()));
    assert!(report.contains(&"root/a.txt (Line 2): abc".to_string()));
    assert!(!report.iter().any(|l| l.ends_with(": AB")));
}

#[test]
fn nested_file_is_reported_by_its_path() {
    let c = default_config("target");
    let (report, m, _) = run(&c, &[("root/sub/b.txt", "target\n")]);
    assert_eq!(m, 1);
    assert!(report.contains(&"root/sub/b.txt (Line 1)".to_string()));
}

#[test]
fn notice_names_the_output_file() {
    let c = config_from(&["-s", "needle", "-o", "out.txt"]);
    assert_eq!(c.output_file, Some("out.txt".to_string()));
    assert_eq!(written_notice("out.txt"), "Results have been written to: out.txt");
}

#[test]
fn extension_forms_are_equivalent() {
    let a = config_from(&["-s", "x", "-e", "rs"]);
    let b = config_from(&["-s", "x", "-e", ".rs"]);
    let c = config_from(&["-s", "x", "-e", "  rs  "]);
    assert_eq!(a.extensions, vec![".rs".to_string()]);
    assert_eq!(b.extensions, a.extensions);
    assert_eq!(c.extensions, a.extensions);
    for cfg in [&a, &b, &c] {
        let e = SearchEngine::new(cfg);
        assert!(e.should_search_file("d/main.RS"));
        assert!(!e.should_search_file("d/main.txt"));
    }
}

#[test]
fn extension_list_is_split_and_dotted() {
    let c = config_from(&["-s", "x", "-e", "rs, .PY ,js"]);
    assert_eq!(c.extensions, strings(&[".rs", ".PY", ".js"]));
    let e = SearchEngine::new(&c);
    assert!(e.should_search_file("a.py"));
    assert!(!e.should_search_file("rs"));
    assert!(!e.should_search_file(".rs"));
    assert!(!e.should_search_file("a.rs/b"));
}

#[test]
fn needle_case_is_ignored_by_default() {
    let c = default_config("Foo");
    let (_, m, _) = run(&c, &[("a.txt", "FOO\nfoo\nFoo\nbar\n")]);
    assert_eq!(m, 3);
    let c = config_from(&["-s", "Foo", "-c"]);
    let mut e = SearchEngine::new(&c);
    let mut scan = e.start_file("a.txt".to_string());
    for l in ["FOO", "foo", "Foo"] {
        e.scan_line(&mut scan, l.to_string());
    }
    assert_eq!(e.matches.len(), 1);
    assert_eq!(e.matches[0].line_number, 3);
}

#[test]
fn empty_tree_reports_nothing() {
    let c = default_config("x");
    let e = SearchEngine::new(&c);
    let report = e.render_report();
    assert_eq!(e.files_searched, 0);
    assert!(e.errors.is_empty());
    assert!(report.contains(&"No matches found.".to_string()));
    assert!(report.contains(&"Summary: 0 files searched, 0 matches found".to_string()));
    assert!(!report.contains(&"Errors encountered:".to_string()));
}

#[test]
fn empty_file_is_counted() {
    let c = default_config("x");
    let (_, m, f) = run(&c, &[("a.txt", "")]);
    assert_eq!((m, f), (0, 1));
}

#[test]
fn first_byte_match_is_line_one() {
    let c = default_config("n");
    let mut e = SearchEngine::new(&c);
    let mut scan = e.start_file("a.txt".to_string());
    e.scan_line(&mut scan, "needle".to_string());
    assert_eq!(e.matches[0].line_number, 1);
}

#[test]
fn long_line_gives_one_match() {
    let c = default_config("needle");
    let mut line = "x".repeat(70_000);
    line.push_str("needle");
    line.push_str(&"y".repeat(100));
    let content = format!("a\n{}\nb\n", line);
    let mut e = SearchEngine::new(&c);
    let mut scan = e.start_file("a.txt".to_string());
    for l in content.lines() {
        e.scan_line(&mut scan, l.to_string());
    }
    assert_eq!(e.matches.len(), 1);
    assert_eq!(e.matches[0].line_number, 2);
}

#[test]
fn shown_content_is_trimmed() {
    let c = config_from(&["-s", "needle", "-l"]);
    let mut e = SearchEngine::new(&c);
    let mut scan = e.start_file("a.txt".to_string());
    e.scan_line(&mut scan, " \t needle  \u{a0}".to_string());
    assert_eq!(e.matches[0].line_content, Some(" \t needle  \u{a0}".to_string()));
    assert_eq!(e.matches[0].format_output(&c), "a.txt (Line 1): needle");
}

#[test]
fn one_match_per_line() {
    let c = default_config("a");
    let (_, m, _) = run(&c, &[("a.txt", "aaaa\n")]);
    assert_eq!(m, 1);
}

#[test]
fn format_without_content() {
    let c = default_config("x");
    let m = Match::new("p/q.rs".to_string(), 1234, None);
    assert_eq!(m.format_output(&c), "p/q.rs (Line 1234)");
    let shown = config_from(&["-s", "x", "-l"]);
    let m = Match::new("q.rs".to_string(), 7, Some("  x y ".to_string()));
    assert_eq!(m.format_output(&shown), "q.rs (Line 7): x y");
    assert_eq!(m.format_output(&c), "q.rs (Line 7)");
}

#[test]
fn errors_are_listed_at_the_end() {
    let c = default_config("x");
    let mut e = SearchEngine::new(&c);
    e.dir_error("root/d", "denied");
    e.entry_error("root", "broken");
    e.open_error("root/a.txt", "denied");
    let scan = e.start_file("root/b.txt".to_string());
    e.line_error(&scan, "invalid UTF-8");
    let report = e.render_report();
    let n = report.len();
    assert_eq!(
        report[n - 6..].to_vec(),
        strings(&[
            "",
            "Errors encountered:",
            "  Could not read directory root/d: denied",
            "  Could not read entry in root: broken",
            "  Could not open file root/a.txt: denied",
            "  Could not read line 1 in file root/b.txt: invalid UTF-8",
        ])
    );
    assert!(report.contains(&"Summary: 1 files searched, 0 matches found".to_string()));
}

#[test]
fn line_error_names_the_failing_line() {
    let c = default_config("x");
    let mut e = SearchEngine::new(&c);
    let mut scan = e.start_file("f.txt".to_string());
    for _ in 0..11 {
        e.scan_line(&mut scan, "line".to_string());
    }
    e.line_error(&scan, "bad");
    assert_eq!(e.errors, strings(&["Could not read line 12 in file f.txt: bad"]));
}

#[test]
fn counts_over_several_files() {
    let c = default_config("k");
    let files = [("a.txt", "k\nk\n"), ("b.json", "x\n"), ("c.bin", "k\n"), ("d.xml", "k\n")];
    let (report, m, f) = run(&c, &files);
    assert_eq!((m, f), (3, 3));
    assert!(report.contains(&"Found 3 matches in 3 files:".to_string()));
}

#[test]
fn parse_reads_every_option() {
    let p = Config::parse_args(&strings(&[
        "kemet", "-l", "--path", "/tmp", "--search", "needle", "-c", "--output", "o.txt",
        "--extensions", "md",
    ]))
    .unwrap();
    assert_eq!(p.path, Some("/tmp".to_string()));
    assert_eq!(p.search_text, Some("needle".to_string()));
    assert_eq!(p.extensions, Some(strings(&[".md"])));
    assert!(p.case_sensitive && p.show_line_content);
    assert_eq!(p.output_file, Some("o.txt".to_string()));
}

#[test]
fn parse_failures() {
    let err = |v: &[&str]| Config::parse_args(&strings(v)).err().unwrap();
    assert_eq!(err(&["kemet", "-s"]), "Missing value for search text");
    assert_eq!(err(&["kemet", "-c", "-s"]), "Missing value for search text");
    assert_eq!(err(&["kemet", "-s", "   "]), "Empty search text provided");
    assert_eq!(err(&["kemet", "-s", "x", "-p"]), "Missing value for path");
    assert_eq!(err(&["kemet", "-s", "x", "-e", ""]), "Empty extensions provided");
    assert_eq!(err(&["kemet", "-s", "x", "-o", " "]), "Empty output file provided");
    assert_eq!(err(&["kemet", "-s", "x", "-h"]), USAGE);
    assert_eq!(err(&["kemet", "-x", "y"]), format!("Unknown argument: -x\n\n{}", USAGE));
    assert!(USAGE.starts_with("kemet - File Content Search Utility"));
    assert_eq!(Config::usage(), USAGE);
}

#[test]
fn next_arg_moves_past_the_value() {
    let args = strings(&["kemet", "-s", "v", "-l"]);
    let mut i: usize = 1;
    assert_eq!(Config::get_next_arg(&args, &mut i, "search text"), Ok(Some("v".to_string())));
    assert_eq!(i, 3);
    let mut j: usize = 3;
    assert_eq!(
        Config::get_next_arg(&args, &mut j, "x"),
        Err("Missing value for x".to_string())
    );
    assert_eq!(j, 3);
}

#[test]
fn root_checks_and_required_search() {
    let parse = |v: &[&str]| Config::parse_args(&strings(v)).unwrap();
    let p = parse(&["kemet", "-s", "x"]);
    assert_eq!(
        Config::new(p, "nowhere".to_string(), false, false).err(),
        Some("Path does not exist: nowhere".to_string())
    );
    let p = parse(&["kemet", "-s", "x"]);
    assert_eq!(
        Config::new(p, "f.txt".to_string(), true, false).err(),
        Some("Path is not a directory: f.txt".to_string())
    );
    let p = parse(&["kemet", "-c", "-l"]);
    assert_eq!(
        Config::new(p, ".".to_string(), true, true).err(),
        Some(format!("Search text is required\n\n{}", USAGE))
    );
}

#[test]
fn requested_root_defaults() {
    let r = |p: Option<&str>| Config::resolve_path(&p.map(|s| s.to_string()));
    assert_eq!(r(None), None);
    assert_eq!(r(Some(".")), None);
    assert_eq!(r(Some("*")), None);
    assert_eq!(r(Some("  ")), None);
    assert_eq!(r(Some("src")), Some("src".to_string()));
}

#[test]
fn parsed_defaults() {
    let p: ParsedArgs = Config::parse_args(&strings(&["kemet", "-s", "x"])).unwrap();
    assert!(p.path.is_none() && p.extensions.is_none() && p.output_file.is_none());
    assert!(!p.case_sensitive && !p.show_line_content);
    let c = Config::new(p, "r".to_string(), true, true).unwrap();
    assert_eq!(c.extensions.len(), 12);
    assert_eq!(c.path, "r");
}

#[test]
fn short_argument_lists() {
    let err = |v: &[&str]| Config::parse_args(&strings(v)).err().unwrap();
    assert_eq!(err(&["kemet", "-x"]), format!("Unknown argument: -x\n\n{}", USAGE));
    assert_eq!(err(&["kemet", "--help"]), USAGE);
    for v in [&["kemet"][..], &["kemet", "-c"][..]] {
        let p = Config::parse_args(&strings(v)).unwrap();
        assert_eq!(
            Config::new(p, "r".to_string(), true, true).err(),
            Some(format!("Search text is required\n\n{}", USAGE))
        );
    }
    let p = Config::parse_args(&strings(&["kemet"])).unwrap();
    assert_eq!(
        Config::new(p, "gone".to_string(), false, false).err(),
        Some("Path does not exist: gone".to_string())
    );
}

#[test]
fn file_scan_records_lines_and_matches() {
    let c = default_config("x");
    let mut e = SearchEngine::new(&c);
    let mut first = e.start_file("a.txt".to_string());
    e.scan_line(&mut first, "none".to_string());
    let mut scan = e.start_file("b.txt".to_string());
    for l in ["x", "y", "xx"] {
        e.scan_line(&mut scan, l.to_string());
    }
    assert_eq!(scan.lines_read, 3);
    assert_eq!(e.files_searched, 2);
    let nums: Vec<(String, usize)> =
        e.matches.iter().map(|m| (m.file_path.clone(), m.line_number)).collect();
    assert_eq!(nums, vec![("b.txt".to_string(), 1), ("b.txt".to_string(), 3)]);
}
