use std::io::Write;
use std::path::Path;

use ignore::WalkBuilder;
use soroban_cost_linter::cli::{dylint_arguments, dylint_rustflags, strip_subcommand};
use soroban_cost_linter::findings::{lint_message, LintFinding, LintMessage, Span};
use soroban_cost_linter::fixes::{apply_edits, extract_suggestion, plan_fixes, Edit};
use soroban_cost_linter::json::{parse, Json};
use soroban_cost_linter::sarif::sarif_report;
use soroban_cost_linter::session::{
    allowed_files, is_reportable, AllowedFiles, Output, OutputFormat, Session, WalkEntry,
};

/// A file that lives as long as the value.
fn write_file(dir: &Path, name: &str, contents: &str) -> tempfile::NamedTempFile {
    let mut file = tempfile::Builder::new()
        .prefix(name)
        .rand_bytes(0)
        .tempfile_in(dir)
        .unwrap();
    file.write_all(contents.as_bytes()).unwrap();
    file.flush().unwrap();
    file
}

fn canonical(path: &Path) -> Option<String> {
    path.canonicalize().ok().map(|p| p.to_str().unwrap().to_string())
}

fn reportable(file: &str, allowed: &AllowedFiles) -> bool {
    is_reportable(file, canonical(Path::new(file)).as_deref(), allowed)
}

fn walk(root: &Path) -> AllowedFiles {
    let entries: Vec<Option<WalkEntry>> = WalkBuilder::new(root)
        .git_ignore(true)
        .add_custom_ignore_filename(".lintignore")
        .build()
        .map(|entry| {
            entry.ok().map(|entry| WalkEntry {
                is_file: entry.file_type().map(|t| t.is_file()),
                canonical: canonical(entry.path()),
            })
        })
        .collect();
    allowed_files(&entries)
}

#[test]
fn allowed_files_excludes_lintignore_patterns() {
    let dir = tempfile::tempdir().unwrap();
    let root = dir.path();

    let _ignore = write_file(root, ".lintignore", "ignored.rs\n");
    let _keep = write_file(root, "keep.rs", "fn main() {}");
    let _ignored = write_file(root, "ignored.rs", "fn main() {}");

    let allowed = walk(root);

    let keep_canon = canonical(&root.join("keep.rs")).unwrap();
    let ignored_canon = canonical(&root.join("ignored.rs")).unwrap();

    assert!(allowed.contains(&keep_canon));
    assert!(!allowed.contains(&ignored_canon));
}

#[test]
fn allowed_files_respects_gitignore_too() {
    let dir = tempfile::tempdir().unwrap();
    let root = dir.path();

    let _git = tempfile::Builder::new()
        .prefix(".git")
        .rand_bytes(0)
        .tempdir_in(root)
        .unwrap();
    let _ignore = write_file(root, ".gitignore", "skip.rs\n");
    let _skip = write_file(root, "skip.rs", "fn main() {}");
    let _keep = write_file(root, "keep.rs", "fn main() {}");

    let allowed = walk(root);

    assert!(allowed.contains(&canonical(&root.join("keep.rs")).unwrap()));
    assert!(!allowed.contains(&canonical(&root.join("skip.rs")).unwrap()));
}

#[test]
fn is_reportable_keeps_files_in_allowed_set() {
    let dir = tempfile::tempdir().unwrap();
    let root = dir.path();
    let _a = write_file(root, "a.rs", "fn main() {}");

    let mut allowed = AllowedFiles::new();
    allowed.insert(canonical(&root.join("a.rs")).unwrap());

    let path_str = root.join("a.rs").to_string_lossy().to_string();
    assert!(reportable(&path_str, &allowed));
}

#[test]
fn is_reportable_filters_files_not_in_allowed_set() {
    let dir = tempfile::tempdir().unwrap();
    let root = dir.path();
    let _a = write_file(root, "a.rs", "fn main() {}");
    let _b = write_file(root, "b.rs", "fn main() {}");

    let mut allowed = AllowedFiles::new();
    allowed.insert(canonical(&root.join("a.rs")).unwrap());

    let path_str = root.join("b.rs").to_string_lossy().to_string();
    assert!(!reportable(&path_str, &allowed));
}

#[test]
fn is_reportable_defaults_to_keeping_unresolvable_paths() {
    let allowed = AllowedFiles::new();
    assert!(reportable("this/path/does/not/exist.rs", &allowed));
}

#[test]
fn is_reportable_keeps_empty_file_field() {
    let allowed = AllowedFiles::new();
    assert!(reportable("", &allowed));
    assert!(is_reportable("", Some("/somewhere/else"), &allowed));
}

#[test]
fn allowed_files_leaves_out_what_is_no_file() {
    let entries = vec![
        None,
        Some(WalkEntry { is_file: Some(false), canonical: Some("/dir".to_string()) }),
        Some(WalkEntry { is_file: None, canonical: Some("/unknown".to_string()) }),
        Some(WalkEntry { is_file: Some(true), canonical: None }),
        Some(WalkEntry { is_file: Some(true), canonical: Some("/file".to_string()) }),
    ];
    let allowed = allowed_files(&entries);
    assert!(allowed.contains("/file"));
    assert!(!allowed.contains("/dir"));
    assert!(!allowed.contains("/unknown"));
    assert!(!allowed.contains(""));
}

const LINE: &str = r#"{
  "reason": "compiler-message",
  "message": {
    "code": { "code": "symbol_new_for_short_literal", "explanation": null },
    "level": "warning",
    "message": "Symbol::new called",
    "spans": [
      { "is_primary": false, "file_name": "other.rs", "line_start": 1 },
      { "is_primary": true, "file_name": "src/lib.rs", "line_start": 7, "line_end": 8,
        "column_start": 3, "column_end": 21 },
      { "is_primary": true, "file_name": "late.rs", "line_start": 9 }
    ],
    "children": [
      { "level": "note", "message": "a note" },
      { "level": "help", "message": "write symbol_short!(\"abc\") instead" },
      { "level": "help", "message": "another" }
    ],
    "rendered": "warning: Symbol::new called\n"
  }
}"#;

fn read(line: &str, fix: bool) -> Option<LintMessage> {
    lint_message(&parse(line).unwrap(), fix)
}

#[test]
fn a_message_is_read_into_a_finding() {
    let message = read(LINE, true).unwrap();
    assert_eq!(message.rendered, "warning: Symbol::new called\n");
    let finding = message.finding;
    assert_eq!(finding.name, "symbol_new_for_short_literal");
    assert_eq!(finding.level, "warning");
    assert_eq!(finding.file, "src/lib.rs");
    assert_eq!(
        finding.span,
        Span { line_start: 7, line_end: 8, column_start: 3, column_end: 21 }
    );
    assert_eq!(finding.message, "Symbol::new called");
    assert_eq!(
        finding.help.as_deref(),
        Some("write symbol_short!(\"abc\") instead")
    );
    assert_eq!(finding.suggestion.as_deref(), Some("symbol_short!(\"abc\")"));
}

#[test]
fn suggestions_are_taken_only_for_fixes() {
    let finding = read(LINE, false).unwrap().finding;
    assert!(finding.help.is_some());
    assert_eq!(finding.suggestion, None);
}

#[test]
fn missing_fields_have_defaults() {
    let line = r#"{"reason":"compiler-message","message":{"code":{"code":"host_in_loop"}}}"#;
    let message = read(line, true).unwrap();
    assert_eq!(message.rendered, "");
    let finding = message.finding;
    assert_eq!(finding.level, "unknown");
    assert_eq!(finding.file, "");
    assert_eq!(finding.message, "");
    assert_eq!(
        finding.span,
        Span { line_start: 0, line_end: 0, column_start: 0, column_end: 0 }
    );
    assert_eq!(finding.help, None);
    assert_eq!(finding.suggestion, None);
}

#[test]
fn numbers_that_are_no_unsigned_integers_count_as_missing() {
    let line = r#"{"reason":"compiler-message","message":{"code":{"code":"host_in_loop"},
        "message":"shown","spans":[{"is_primary":true,"line_start":-1,"line_end":1.5,
        "column_start":"4","column_end":4}]}}"#;
    let message = read(line, true).unwrap();
    assert_eq!(
        message.finding.span,
        Span { line_start: 0, line_end: 0, column_start: 0, column_end: 4 }
    );
    assert_eq!(message.finding.file, "");
    assert_eq!(message.rendered, "shown");
}

#[test]
fn other_lines_hold_no_finding() {
    for line in [
        "{}",
        "[]",
        "null",
        r#"{"reason":"build-finished","success":true}"#,
        r#"{"reason":"compiler-message"}"#,
        r#"{"reason":"compiler-message","message":{}}"#,
        r#"{"reason":"compiler-message","message":{"code":null}}"#,
        r#"{"reason":"compiler-message","message":{"code":{"code":3}}}"#,
        r#"{"reason":"compiler-message","message":{"code":{"code":"unused_variables"}}}"#,
        r#"{"reason":"compiler-artifact","message":{"code":{"code":"host_in_loop"}}}"#,
    ] {
        assert!(read(line, true).is_none());
    }
}

#[test]
fn documents_are_parsed() {
    assert!(parse("warning: not JSON").is_none());
    assert!(parse("{} {}").is_none());
    let json = parse(r#"{"a": [true, null, 18446744073709551615, "x"], "a2": {"b": false}}"#).unwrap();
    let items = json.get_array("a").unwrap();
    assert_eq!(items.len(), 4);
    assert!(matches!(items[0], Json::Bool(true)));
    assert!(matches!(items[1], Json::Null));
    assert!(matches!(items[2], Json::Number(Some(u64::MAX))));
    assert!(matches!(&items[3], Json::Str(text) if text.as_str() == "x"));
    assert_eq!(json.get("a2").unwrap().get_bool("b"), Some(false));
    assert!(json.get("b").is_none());
    assert!(json.get_str("a").is_none());
    assert_eq!(parse(r#"{"n": 5, "n": 6}"#).unwrap().get_u64("n"), Some(6));
}

#[test]
fn suggestions_are_extracted() {
    let help = |text: &str| Some(text.to_string());
    let name = "symbol_new_for_short_literal";
    assert_eq!(
        extract_suggestion(&help("use symbol_short!(\"ab\") (or not)"), name).as_deref(),
        Some("symbol_short!(\"ab\")")
    );
    assert_eq!(
        extract_suggestion(&help("é) symbol_short!(x) symbol_short!(y)"), name).as_deref(),
        Some("symbol_short!(x)")
    );
    assert_eq!(extract_suggestion(&help("symbol_short!(x"), name), None);
    assert_eq!(extract_suggestion(&help("use symbol_short! here"), name), None);
    assert_eq!(extract_suggestion(&help("symbol_short!(x)"), "host_in_loop"), None);
    assert_eq!(extract_suggestion(&None, name), None);
}

fn finding(name: &str, level: &str, file: &str, line: usize, suggestion: Option<&str>) -> LintFinding {
    LintFinding {
        name: name.to_string(),
        level: level.to_string(),
        file: file.to_string(),
        span: Span { line_start: line, line_end: line, column_start: 2, column_end: 5 },
        message: format!("{name} on {line}"),
        help: None,
        suggestion: suggestion.map(|s| s.to_string()),
    }
}

#[test]
fn fixes_are_planned_by_file() {
    let findings = vec![
        finding("a", "warning", "b.rs", 4, Some("one")),
        finding("a", "warning", "a.rs", 1, Some("two")),
        finding("a", "warning", "", 1, Some("nowhere")),
        finding("a", "warning", "c.rs", 1, None),
        finding("a", "warning", "b.rs", 2, Some("three")),
    ];
    let plan = plan_fixes(&findings);
    assert_eq!(plan.len(), 2);
    assert_eq!(plan[0].file, "b.rs");
    assert_eq!(plan[0].edits.len(), 2);
    assert_eq!(plan[0].edits[0].line, 4);
    assert_eq!(plan[0].edits[0].suggestion, "one");
    assert_eq!(plan[0].edits[0].message, "a on 4");
    assert_eq!(plan[0].edits[1].line, 2);
    assert_eq!(plan[0].edits[1].suggestion, "three");
    assert_eq!(plan[1].file, "a.rs");
    assert_eq!(plan[1].edits.len(), 1);
    assert_eq!(plan[1].edits[0].suggestion, "two");
}

fn edit(line: usize, suggestion: &str) -> Edit {
    Edit { line, message: String::new(), suggestion: suggestion.to_string() }
}

#[test]
fn edits_replace_the_call() {
    let content = "let a = 1;\nlet b = Symbol::new(&env, \"ab\"); // ü (x)\nend\n";
    assert_eq!(
        apply_edits(content, &vec![edit(2, "symbol_short!(\"ab\")")]),
        "let a = 1;\nlet b = symbol_short!(\"ab\"); // ü (x)\nend"
    );
}

#[test]
fn edits_of_one_line_follow_each_other() {
    let content = "f(Symbol::new(1), Symbol::new(2))";
    assert_eq!(
        apply_edits(content, &vec![edit(1, "A"), edit(1, "B"), edit(1, "C")]),
        "f(A, B)"
    );
}

#[test]
fn edits_without_a_place_change_nothing() {
    let content = "one\nSymbol::new(\nf()";
    let edits = vec![edit(0, "x"), edit(1, "x"), edit(2, "x"), edit(3, "x"), edit(4, "x")];
    assert_eq!(apply_edits(content, &edits), content);
}

#[test]
fn line_ends_become_newlines() {
    assert_eq!(apply_edits("", &vec![]), "");
    assert_eq!(apply_edits("\n", &vec![]), "");
    assert_eq!(apply_edits("a\r\nb\rc\r\n\nd\r", &vec![]), "a\nb\rc\n\nd\r");
}

#[test]
fn a_session_records_what_is_reportable() {
    let mut allowed = AllowedFiles::new();
    allowed.insert("/w/src/lib.rs".to_string());
    let mut session = Session::new(OutputFormat::Text, false, allowed);
    assert_eq!(session.exit_code(true, Some(0)), 0);

    let message = session.read_line(LINE).unwrap();
    let output = session.record(message, Some("/w/src/lib.rs"));
    assert!(matches!(output, Output::Rendered(text) if text.as_str() == "warning: Symbol::new called\n"));
    assert_eq!(session.findings.len(), 1);
    assert_eq!(session.exit_code(true, Some(0)), 0);

    let failing = |file: &str, level: &str| LintMessage {
        finding: finding("host_in_loop", level, file, 1, None),
        rendered: "shown".to_string(),
    };
    let output = session.record(failing("src/skipped.rs", "error"), Some("/w/src/skipped.rs"));
    assert!(matches!(output, Output::Nothing));
    assert_eq!(session.findings.len(), 1);
    assert_eq!(session.exit_code(true, Some(0)), 0);

    session.record(failing("gone.rs", "deny"), None);
    assert_eq!(session.findings.len(), 2);
    assert_eq!(session.exit_code(true, Some(0)), 1);
    session.record(failing("src/lib.rs", "warning"), Some("/w/src/lib.rs"));
    assert_eq!(session.exit_code(true, Some(0)), 1);
    assert_eq!(session.exit_code(false, Some(101)), 101);
    assert_eq!(session.exit_code(false, None), 1);

    assert!(session.read_line("Compiling contract v0.1.0").is_none());
}

#[test]
fn formats_decide_what_is_printed() {
    let message = || LintMessage {
        finding: finding("host_in_loop", "error", "", 1, None),
        rendered: "shown".to_string(),
    };
    let mut json = Session::new(OutputFormat::Json, false, AllowedFiles::new());
    assert!(matches!(json.record(message(), None), Output::Finding));
    assert_eq!(json.exit_code(true, None), 1);
    let mut sarif = Session::new(OutputFormat::Sarif, false, AllowedFiles::new());
    assert!(matches!(sarif.record(message(), None), Output::Nothing));
    assert_eq!(sarif.findings.len(), 1);
}

#[test]
fn the_sarif_report_lists_rules_once() {
    let findings = vec![
        finding("host_in_loop", "warning", "a.rs", 3, None),
        finding("redundant_env_clone", "deny", "b.rs", 0, None),
        finding("host_in_loop", "error", "c.rs", 5, None),
    ];
    let report = sarif_report(&findings, "1.2.3");
    assert_eq!(report.schema, "https://json.schemastore.org/sarif-2.1.0");
    assert_eq!(report.version, "2.1.0");
    assert_eq!(report.runs.len(), 1);
    let driver = &report.runs[0].tool.driver;
    assert_eq!(driver.name, "cargo-cost-lint");
    assert_eq!(driver.version, "1.2.3");
    assert_eq!(
        driver.information_uri.as_deref(),
        Some("https://github.com/Tollcraft/soroban-cost-linter")
    );
    assert_eq!(driver.rules.len(), 2);
    assert_eq!(driver.rules[0].id, "host_in_loop");
    assert_eq!(driver.rules[0].short_description.text, "host_in_loop on 3");
    assert_eq!(driver.rules[1].id, "redundant_env_clone");

    let results = &report.runs[0].results;
    assert_eq!(results.len(), 3);
    let levels: Vec<&str> = results.iter().map(|r| r.level.as_str()).collect();
    assert_eq!(levels, ["warning", "error", "error"]);
    assert_eq!(results[2].rule_id, "host_in_loop");
    assert_eq!(results[2].message.text, "host_in_loop on 5");
    assert_eq!(results[2].locations.len(), 1);
    let place = &results[2].locations[0].physical_location;
    assert_eq!(place.artifact_location.uri, "c.rs");
    let region = place.region.as_ref().unwrap();
    assert_eq!(region.start_line, 5);
    assert_eq!(region.start_column, Some(2));
    assert_eq!(region.end_line, Some(5));
    assert_eq!(region.end_column, Some(5));
    assert!(results[1].locations[0].physical_location.region.is_none());
}

fn strings(parts: &[&str]) -> Vec<String> {
    parts.iter().map(|p| p.to_string()).collect()
}

#[test]
fn the_subcommand_is_stripped() {
    assert_eq!(
        strip_subcommand(strings(&["cargo-cost-lint", "cost-lint", "--fix"])),
        strings(&["cargo-cost-lint", "--fix"])
    );
    assert_eq!(
        strip_subcommand(strings(&["cargo-cost-lint", "--fix", "cost-lint"])),
        strings(&["cargo-cost-lint", "--fix", "cost-lint"])
    );
    assert_eq!(strip_subcommand(strings(&["cost-lint"])), strings(&["cost-lint"]));
    assert_eq!(strip_subcommand(vec![]), strings(&[]));
}

#[test]
fn cargo_is_run_with_json_messages() {
    assert_eq!(
        dylint_arguments(),
        ["dylint", "--lib", "soroban_cost_lints", "--", "--message-format=json"]
    );
}

#[test]
fn flags_are_added_with_spaces() {
    assert_eq!(dylint_rustflags("", &strings(&["-A", "-B"])), "-A -B");
    assert_eq!(dylint_rustflags("-X", &strings(&["-A", "-B"])), "-X -A -B");
    assert_eq!(dylint_rustflags("-X", &vec![]), "-X");
    assert_eq!(dylint_rustflags("", &strings(&["", "-B"])), "-B");
}

#[test]
fn a_run_fails_where_its_report_shows_an_error() {
    for (level, exit) in [("warning", 0), ("deny", 1), ("error", 1), ("unknown", 0)] {
        let mut session = Session::new(OutputFormat::Sarif, false, AllowedFiles::new());
        let message = LintMessage {
            finding: finding("host_in_loop", level, "", 1, None),
            rendered: String::new(),
        };
        session.record(message, None);
        let report = sarif_report(&session.findings, "0.1.0");
        assert_eq!(report.runs[0].results[0].level == "error", exit == 1);
        assert_eq!(session.exit_code(true, Some(0)), exit);
    }
}

#[test]
fn a_finding_is_read_and_fixed() {
    let mut session = Session::new(OutputFormat::Text, true, AllowedFiles::new());
    let message = session.read_line(LINE).unwrap();
    session.record(message, None);
    let plan = plan_fixes(&session.findings);
    assert_eq!(plan.len(), 1);
    assert_eq!(plan[0].file, "src/lib.rs");
    let content = "1\n2\n3\n4\n5\n6\n  Symbol::new(&env, \"abc\")\n8\n";
    assert_eq!(
        apply_edits(content, &plan[0].edits),
        "1\n2\n3\n4\n5\n6\n  symbol_short!(\"abc\")\n8"
    );
}
