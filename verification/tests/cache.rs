use nyx_scanner::analyzer::{Parsed, PatternHit};
use nyx_scanner::cache::{digest_file, issue_rows, FileRow, Indexer, IssueRow, SummaryRow};
use nyx_scanner::config::ScannerConfig;
use nyx_scanner::diag::Diag;
use nyx_scanner::errors::NyxError;
use nyx_scanner::patterns::Severity;
use nyx_scanner::scan::{needs_parse, scan_file};
use nyx_scanner::syntax::SyntaxNode;

fn hex(bytes: &[u8]) -> String {
    bytes.iter().map(|b| format!("{:02x}", b)).collect()
}

fn flat_tree(len: usize) -> SyntaxNode {
    SyntaxNode {
        kind: "source_file".to_string(),
        field: None,
        start_byte: 0,
        end_byte: len,
        start_row: 0,
        start_col: 0,
        children: Vec::new(),
    }
}

#[test]
fn digest_is_that_of_blake3() {
    assert_eq!(
        hex(&digest_file(b"")),
        "af1349b9f5f9a1a6a0404dea36dcc9499bcb25c9adc112b7cc9a93cae41f3262"
    );
    assert_eq!(digest_file(b"fn main() {}").len(), 32);
    assert_ne!(digest_file(b"fn main() {}"), digest_file(b"fn main() { }"));
    assert_eq!(digest_file(b"abc"), digest_file(b"abc"));
}

#[test]
fn a_file_is_scanned_until_it_is_stored_and_again_when_it_changes() {
    let mut idx = Indexer::new("proj");
    assert_eq!(idx.project(), "proj");
    let first = digest_file(b"fn main() {}");
    // nothing stored: the file is scanned
    assert!(idx.should_scan("sample.rs", &first, 100));
    let id = idx.upsert_file("sample.rs", &first, 100, 1000).unwrap();
    assert_eq!(id, 1);
    assert!(!idx.should_scan("sample.rs", &first, 100));
    // another modification time alone
    assert!(idx.should_scan("sample.rs", &first, 101));
    // another content alone
    let changed = digest_file(b"fn main() { /* changed */ }");
    assert!(idx.should_scan("sample.rs", &changed, 100));
    // another file
    assert!(idx.should_scan("other.rs", &first, 100));
    // the row keeps its identifier when it is updated
    assert_eq!(idx.upsert_file("sample.rs", &changed, 101, 2000).unwrap(), 1);
    assert!(!idx.should_scan("sample.rs", &changed, 101));
    assert!(idx.should_scan("sample.rs", &first, 100));
    assert_eq!(idx.upsert_file("other.rs", &first, 5, 2000).unwrap(), 2);
    assert_eq!(idx.get_files(), vec!["sample.rs", "other.rs"]);
}

#[test]
fn replaced_issues_are_read_back() {
    let mut idx = Indexer::new("proj");
    let fid = idx.upsert_file("code.go", &digest_file(b"package main"), 1, 2).unwrap();
    let issues = vec![
        IssueRow { rule_id: "X1", severity: "High", line: 3, col: 7 },
        IssueRow { rule_id: "X2", severity: "Low", line: 4, col: 1 },
        IssueRow { rule_id: "X3", severity: "whatever", line: -4, col: 0 },
    ];
    idx.replace_issues(fid, &issues).unwrap();
    let stored = idx.get_issues_from_file("code.go").unwrap();
    assert_eq!(stored.len(), 3);
    assert!(stored.iter().any(|d| d.id == "X1" && d.severity == Severity::High && d.line == 3 && d.col == 7));
    assert!(stored.iter().any(|d| d.id == "X2" && d.severity == Severity::Low && d.line == 4 && d.col == 1));
    assert!(stored.iter().any(|d| d.id == "X3" && d.severity == Severity::Low && d.line == 0 && d.col == 0));
    assert!(stored.iter().all(|d| d.path == "code.go"));
    // replacing means that nothing of the old issues stays
    idx.replace_issues(fid, &vec![IssueRow { rule_id: "Y", severity: "MEDIUM", line: 1, col: 1 }]).unwrap();
    let stored = idx.get_issues_from_file("code.go").unwrap();
    assert_eq!(stored.len(), 1);
    assert_eq!((stored[0].id.as_str(), stored[0].severity), ("Y", Severity::Medium));
    // updating the row of the file keeps its issues
    idx.upsert_file("code.go", &digest_file(b"package x"), 3, 4).unwrap();
    assert_eq!(idx.get_issues_from_file("code.go").unwrap().len(), 1);
    idx.replace_issues(fid, &Vec::new()).unwrap();
    assert!(idx.get_issues_from_file("code.go").unwrap().is_empty());
}

#[test]
fn the_cache_refuses_what_its_keys_forbid() {
    let mut idx = Indexer::new("proj");
    let fid = idx.upsert_file("a.rs", &[1, 2, 3], 1, 2).unwrap();
    idx.replace_issues(fid, &vec![IssueRow { rule_id: "keep", severity: "LOW", line: 1, col: 1 }]).unwrap();
    // two rows with the same rule at the same place
    let twice = vec![
        IssueRow { rule_id: "X", severity: "HIGH", line: 1, col: 2 },
        IssueRow { rule_id: "X", severity: "LOW", line: 1, col: 2 },
    ];
    let err = idx.replace_issues(fid, &twice).unwrap_err();
    assert!(matches!(err, NyxError::Sql(_)));
    // nothing was changed
    let stored = idx.get_issues_from_file("a.rs").unwrap();
    assert_eq!(stored.len(), 1);
    assert_eq!(stored[0].id, "keep");
    // rows for a file that is not there
    let err = idx
        .replace_issues(99, &vec![IssueRow { rule_id: "X", severity: "HIGH", line: 1, col: 2 }])
        .unwrap_err();
    assert!(matches!(err, NyxError::Sql(_)));
    assert!(idx.replace_issues(99, &Vec::new()).is_ok());
    // issues of a file that is not there
    let err = idx.get_issues_from_file("b.rs").unwrap_err();
    assert!(matches!(err, NyxError::Sql(_)));
}

#[test]
fn clearing_drops_every_row() {
    let mut idx = Indexer::new("proj");
    idx.upsert_file("f.rs", b"//", 1, 2).unwrap();
    idx.upsert_summary("src/f.rs", "h1", "f", "{}", 5);
    assert!(!idx.get_files().is_empty());
    idx.clear();
    assert!(idx.get_files().is_empty());
    assert!(idx.load_all_summaries().is_empty());
    assert_eq!(idx.project(), "proj");
    // identifiers begin anew
    assert_eq!(idx.upsert_file("g.rs", b"//", 1, 2).unwrap(), 1);
}

#[test]
fn summaries_are_stored_under_their_hash() {
    let mut idx = Indexer::new("proj");
    idx.upsert_summary("src/a.rs", "h1", "f", "first", 1);
    idx.upsert_summary("src/b.rs", "h2", "g", "second", 2);
    assert_eq!(idx.load_all_summaries(), vec!["first", "second"]);
    idx.upsert_summary("src/c.py", "h1", "renamed", "third", 3);
    assert_eq!(idx.load_all_summaries(), vec!["third", "second"]);
}

#[test]
fn diagnostics_become_rows_and_rows_diagnostics() {
    let diags = vec![
        Diag { path: "p".into(), line: 3, col: 7, severity: Severity::High, id: "a".into() },
        Diag { path: "p".into(), line: 4, col: 1, severity: Severity::Medium, id: "b".into() },
        Diag { path: "p".into(), line: usize::MAX, col: 1, severity: Severity::Low, id: "c".into() },
    ];
    let rows = issue_rows(&diags);
    assert_eq!(rows.len(), 3);
    assert_eq!((rows[0].rule_id, rows[0].severity, rows[0].line, rows[0].col), ("a", "HIGH", 3, 7));
    assert_eq!((rows[1].rule_id, rows[1].severity, rows[1].line, rows[1].col), ("b", "MEDIUM", 4, 1));
    assert_eq!((rows[2].severity, rows[2].line), ("LOW", i64::MAX));
    let mut idx = Indexer::new("proj");
    let fid = idx.upsert_file("p", b"x", 1, 2).unwrap();
    idx.replace_issues(fid, &rows).unwrap();
    let back = idx.get_issues_from_file("p").unwrap();
    for (d, b) in diags.iter().take(2).zip(back.iter()) {
        assert_eq!((d.path.as_str(), d.line, d.col, d.severity, d.id.as_str()), (b.path.as_str(), b.line, b.col, b.severity, b.id.as_str()));
    }
}

#[test]
fn an_unchanged_file_is_read_from_the_cache() {
    let bytes = b"fn main() {}";
    let hits = vec![PatternHit { id: "unwrap_call".into(), severity: Severity::Medium, row: 0, col: 3 }];
    let parsed = Parsed { tree: flat_tree(bytes.len()), hits };
    let cfg = ScannerConfig::default();
    let mut idx = Indexer::new("proj");
    assert_eq!(needs_parse(&idx, "main.rs", bytes, 7), Some("rust"));
    assert_eq!(needs_parse(&idx, "main.txt", bytes, 7), None);
    let first = scan_file(&mut idx, "main.rs", bytes, 7, 100, Some(&parsed), &cfg);
    assert_eq!(first.len(), 1);
    assert_eq!((first[0].line, first[0].col, first[0].id.as_str()), (1, 4, "unwrap_call"));
    assert!(!idx.should_scan("main.rs", &digest_file(bytes), 7));
    // the second scan needs no parse and gives the same
    assert_eq!(needs_parse(&idx, "main.rs", bytes, 7), None);
    let second = scan_file(&mut idx, "main.rs", bytes, 7, 200, None, &cfg);
    assert_eq!(first, second);
    // a changed file is scanned again; without a parse nothing is found, and that is stored
    assert_eq!(needs_parse(&idx, "main.rs", bytes, 8), Some("rust"));
    let third = scan_file(&mut idx, "main.rs", bytes, 8, 300, None, &cfg);
    assert!(third.is_empty());
    assert!(idx.get_issues_from_file("main.rs").unwrap().is_empty());
    assert!(!idx.should_scan("main.rs", &digest_file(bytes), 8));
}

#[test]
fn rows_are_put_back_as_they_were_kept() {
    let mut idx = Indexer::new("proj");
    let row = |id: i64, path: &str| FileRow { id, path: path.to_string(), hash: vec![1, 2], mtime: 3, scanned_at: 4 };
    idx.restore_file(row(7, "a.rs")).unwrap();
    idx.restore_file(row(2, "b.rs")).unwrap();
    // an identifier or a path that the cache holds already
    assert!(matches!(idx.restore_file(row(7, "c.rs")), Err(NyxError::Sql(_))));
    assert!(matches!(idx.restore_file(row(9, "a.rs")), Err(NyxError::Sql(_))));
    // an identifier that no file can have
    assert!(matches!(idx.restore_file(row(0, "d.rs")), Err(NyxError::Sql(_))));
    assert!(matches!(idx.restore_file(row(i64::MAX, "d.rs")), Err(NyxError::Sql(_))));
    let rows = idx.file_rows();
    assert_eq!(rows.len(), 2);
    assert_eq!((rows[0].id, rows[0].path.as_str(), rows[0].hash.clone(), rows[0].mtime, rows[0].scanned_at), (7, "a.rs", vec![1, 2], 3, 4));
    assert_eq!((rows[1].id, rows[1].path.as_str()), (2, "b.rs"));
    assert!(!idx.should_scan("a.rs", &[1, 2], 3));
    // new files get identifiers beyond those that were put back
    assert_eq!(idx.upsert_file("e.rs", &[1], 1, 1).unwrap(), 8);
    idx.put_summary(SummaryRow { hash: "h".into(), name: "f".into(), lang: "rs".into(), summary: "s".into(), updated_at: 5 });
    let sums = idx.summary_rows();
    assert_eq!(sums.len(), 1);
    assert_eq!((sums[0].hash.as_str(), sums[0].name.as_str(), sums[0].lang.as_str(), sums[0].summary.as_str(), sums[0].updated_at), ("h", "f", "rs", "s", 5));
    idx.upsert_summary("dir/x.PY", "h2", "g", "t", 6);
    idx.upsert_summary("dir/noext", "h3", "g", "t", 6);
    let sums = idx.summary_rows();
    assert_eq!(sums[1].lang, "PY");
    assert_eq!(sums[2].lang, "");
}

#[test]
fn a_cache_without_identifiers_left_takes_no_new_file() {
    let mut idx = Indexer::new("proj");
    idx.restore_file(FileRow { id: i64::MAX - 1, path: "a.rs".into(), hash: vec![], mtime: 0, scanned_at: 0 })
        .unwrap();
    // the file that has a row is updated still
    assert_eq!(idx.upsert_file("a.rs", &[9], 1, 1).unwrap(), i64::MAX - 1);
    let err = idx.upsert_file("b.rs", &[9], 1, 1).unwrap_err();
    assert!(matches!(err, NyxError::Sql(_)));
    assert_eq!(idx.get_files(), vec!["a.rs"]);
    // what was found is returned all the same, and the cache stays as it is
    let cfg = ScannerConfig::default();
    let hits = vec![PatternHit { id: "x".into(), severity: Severity::High, row: 0, col: 0 }];
    let parsed = Parsed { tree: flat_tree(1), hits };
    let found = scan_file(&mut idx, "b.rs", b"x", 1, 1, Some(&parsed), &cfg);
    assert_eq!(found.len(), 1);
    assert_eq!(idx.get_files(), vec!["a.rs"]);
}

#[test]
fn a_scan_that_the_cache_refuses_leaves_the_cache_as_it_was() {
    let bytes = b"fn main() {}";
    let cfg = ScannerConfig::default();
    let mut idx = Indexer::new("proj");
    let hits = vec![PatternHit { id: "a".into(), severity: Severity::Low, row: 2, col: 0 }];
    let parsed = Parsed { tree: flat_tree(bytes.len()), hits };
    let first = scan_file(&mut idx, "main.rs", bytes, 7, 100, Some(&parsed), &cfg);
    assert_eq!(first.len(), 1);
    // the file changes; two of its diagnostics now differ in nothing but their severity,
    // which the cache cannot hold
    let changed = b"fn main() { }";
    let hits = vec![
        PatternHit { id: "x".into(), severity: Severity::High, row: 0, col: 0 },
        PatternHit { id: "x".into(), severity: Severity::Low, row: 0, col: 0 },
    ];
    let parsed = Parsed { tree: flat_tree(changed.len()), hits };
    let second = scan_file(&mut idx, "main.rs", changed, 8, 200, Some(&parsed), &cfg);
    assert_eq!(second.len(), 2);
    // the row of the file is the old one: the file is scanned again the next time
    assert!(idx.should_scan("main.rs", &digest_file(changed), 8));
    assert!(!idx.should_scan("main.rs", &digest_file(bytes), 7));
    let rows = idx.file_rows();
    assert_eq!((rows[0].mtime, rows[0].scanned_at), (7, 100));
    assert_eq!(idx.get_issues_from_file("main.rs").unwrap(), first);
    let third = scan_file(&mut idx, "main.rs", changed, 8, 300, Some(&parsed), &cfg);
    assert_eq!(third, second);
}

#[test]
fn a_scan_is_recorded_whole_or_not_at_all() {
    let mut idx = Indexer::new("proj");
    let rows = vec![IssueRow { rule_id: "r", severity: "HIGH", line: 3, col: 4 }];
    assert_eq!(idx.record_scan("a.rs", &[1], 5, 6, &rows).unwrap(), 1);
    assert!(!idx.should_scan("a.rs", &[1], 5));
    let twice = vec![
        IssueRow { rule_id: "r", severity: "HIGH", line: 1, col: 1 },
        IssueRow { rule_id: "r", severity: "LOW", line: 1, col: 1 },
    ];
    let err = idx.record_scan("a.rs", &[2], 7, 8, &twice).unwrap_err();
    assert!(matches!(err, NyxError::Sql(_)));
    assert!(!idx.should_scan("a.rs", &[1], 5));
    assert!(idx.should_scan("a.rs", &[2], 7));
    let held = idx.get_issues_from_file("a.rs").unwrap();
    assert_eq!((held.len(), held[0].line, held[0].col, held[0].id.as_str()), (1, 3, 4, "r"));
    assert!(matches!(idx.record_scan("b.rs", &[2], 7, 8, &twice), Err(NyxError::Sql(_))));
    assert_eq!(idx.get_files(), vec!["a.rs"]);
    assert_eq!(idx.record_scan("b.rs", &[2], 7, 8, &Vec::new()).unwrap(), 2);
}
