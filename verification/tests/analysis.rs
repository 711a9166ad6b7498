use nyx_scanner::analyzer::{
    analyse_source, byte_offset_to_point, check_deadline, is_binary, plan_file,
    run_rules_on_file, Parsed, PatternHit, Plan,
};
use nyx_scanner::invariants::{flow_of, is_steady, Flow};
use nyx_scanner::cfg::{build_cfg, BuildError};
use nyx_scanner::config::{AnalysisMode, ScannerConfig};
use nyx_scanner::diag::{normalize, place_of, Diag};
use nyx_scanner::errors::NyxError;
use nyx_scanner::graph::{Cfg, EdgeKind, NodeInfo, StmtKind};
use nyx_scanner::labels::{classify, Cap, DataLabel, HTML_ESCAPE, SHELL_ESCAPE};
use nyx_scanner::lattice::Taint;
use nyx_scanner::patterns::Severity;
use nyx_scanner::scan::{count_by_severity, group_by_path, limit_results};
use nyx_scanner::summary::{FuncSummaries, FuncSummary};
use nyx_scanner::syntax::SyntaxNode;
use nyx_scanner::taint::{analyse_file, apply_taint, sink_check};
use nyx_scanner::text::Place;
use tree_sitter::Language;

fn walk_tree(cursor: &mut tree_sitter::TreeCursor) -> SyntaxNode {
    let node = cursor.node();
    let field = cursor.field_name().map(|f| f.to_string());
    let mut children = Vec::new();
    if cursor.goto_first_child() {
        loop {
            children.push(walk_tree(cursor));
            if !cursor.goto_next_sibling() {
                break;
            }
        }
        cursor.goto_parent();
    }
    SyntaxNode {
        kind: node.kind().to_string(),
        field,
        start_byte: node.start_byte(),
        end_byte: node.end_byte(),
        start_row: node.start_position().row,
        start_col: node.start_position().column,
        children,
    }
}

fn rust_tree(src: &[u8]) -> SyntaxNode {
    let mut parser = tree_sitter::Parser::new();
    parser
        .set_language(&Language::from(tree_sitter_rust::LANGUAGE))
        .unwrap();
    let tree = parser.parse(src, None).unwrap();
    let mut cursor = tree.walk();
    walk_tree(&mut cursor)
}

fn leaf(kind: &str, field: Option<&str>, start: usize, end: usize) -> SyntaxNode {
    SyntaxNode {
        kind: kind.to_string(),
        field: field.map(|f| f.to_string()),
        start_byte: start,
        end_byte: end,
        start_row: 0,
        start_col: start,
        children: Vec::new(),
    }
}

fn inner(kind: &str, field: Option<&str>, children: Vec<SyntaxNode>) -> SyntaxNode {
    let start = children.first().map(|c| c.start_byte).unwrap_or(0);
    let end = children.last().map(|c| c.end_byte).unwrap_or(0);
    SyntaxNode {
        kind: kind.to_string(),
        field: field.map(|f| f.to_string()),
        start_byte: start,
        end_byte: end,
        start_row: 0,
        start_col: start,
        children,
    }
}

fn node(kind: StmtKind, label: Option<DataLabel>, defines: Option<&str>, uses: &[&str]) -> NodeInfo {
    NodeInfo {
        kind,
        span: (0, 0),
        label,
        defines: defines.map(|d| d.to_string()),
        uses: uses.iter().map(|u| u.to_string()).collect(),
        callee: if kind == StmtKind::Call { Some("f".to_string()) } else { None },
    }
}

fn diag(path: &str, line: usize, col: usize, severity: Severity, id: &str) -> Diag {
    Diag { path: path.to_string(), line, col, severity, id: id.to_string() }
}

fn keys(diags: &[Diag]) -> Vec<(usize, usize, String, Severity)> {
    diags.iter().map(|d| (d.line, d.col, d.id.clone(), d.severity)).collect()
}

const ENV_TO_SHELL: &[u8] = b"use std::env; use std::process::Command;\nfn main() {\n    let x = env::var(\"DANGEROUS_ARG\").unwrap();\n    Command::new(\"sh\").arg(x).status().unwrap();\n}\n";

#[test]
fn binary_guard_counts_whole_percent_of_nul_bytes() {
    assert!(!is_binary(b""));
    assert!(!is_binary(b"fn main() {}"));
    let mut bytes = vec![b'a'; 100];
    bytes[0] = 0;
    assert!(!is_binary(&bytes)); // 1 * 100 / 100 = 1
    bytes[1] = 0;
    assert!(is_binary(&bytes)); // 2 * 100 / 100 = 2
    let mut bytes = vec![b'a'; 199];
    bytes[0] = 0;
    bytes[1] = 0;
    bytes[2] = 0;
    assert!(!is_binary(&bytes)); // 3 * 100 / 199 = 1
    assert!(is_binary(&[0u8]));
    assert!(is_binary(&vec![0u8; 2048]));
}

#[test]
fn binary_files_have_no_diagnostics_whatever_they_hold() {
    let mut bytes = ENV_TO_SHELL.to_vec();
    bytes.extend(std::iter::repeat(0u8).take(bytes.len()));
    let parsed = Parsed { tree: rust_tree(ENV_TO_SHELL), hits: Vec::new() };
    let cfg = ScannerConfig::default();
    assert_eq!(plan_file("main.rs", &bytes), Plan::Skip);
    let diags = run_rules_on_file("main.rs", &bytes, Some(&parsed), &cfg).unwrap();
    assert!(diags.is_empty());
    let diags = run_rules_on_file("junk.bin", &vec![0u8; 2048], None, &cfg).unwrap();
    assert!(diags.is_empty());
}

#[test]
fn files_of_no_supported_language_have_no_diagnostics() {
    let cfg = ScannerConfig::default();
    assert_eq!(plan_file("notes.txt", b"just some text"), Plan::Skip);
    let diags = run_rules_on_file("notes.txt", b"just some text", None, &cfg).unwrap();
    assert!(diags.is_empty());
    assert_eq!(plan_file("a/b.PY", b"x = 1"), Plan::Parse("python"));
    assert_eq!(plan_file("main.rs", b"fn main() {}"), Plan::Parse("rust"));
}

#[test]
fn a_file_without_a_parse_is_an_error() {
    let cfg = ScannerConfig::default();
    let err = run_rules_on_file("main.rs", ENV_TO_SHELL, None, &cfg).unwrap_err();
    assert!(matches!(err, NyxError::Other(ref m) if m == "tree-sitter failed"));
}

#[test]
fn env_to_shell_is_reported_at_the_line_of_the_source() {
    let parsed = Parsed { tree: rust_tree(ENV_TO_SHELL), hits: Vec::new() };
    let cfg = ScannerConfig::default();
    let diags = run_rules_on_file("src/main.rs", ENV_TO_SHELL, Some(&parsed), &cfg).unwrap();
    assert_eq!(diags.len(), 1);
    assert_eq!(diags[0].path, "src/main.rs");
    assert_eq!(diags[0].id, "taint-unsanitised-flow");
    assert_eq!(diags[0].severity, Severity::High);
    assert_eq!(diags[0].line, 3);
    assert_eq!(diags[0].col, 5);
}

#[test]
fn analysis_is_the_same_every_time() {
    let hits = vec![
        PatternHit { id: "unwrap_call".into(), severity: Severity::Medium, row: 2, col: 12 },
        PatternHit { id: "unwrap_call".into(), severity: Severity::Medium, row: 3, col: 4 },
    ];
    let cfg = ScannerConfig::default();
    let first = Parsed { tree: rust_tree(ENV_TO_SHELL), hits: hits.clone() };
    let second = Parsed { tree: rust_tree(ENV_TO_SHELL), hits };
    let a = run_rules_on_file("m.rs", ENV_TO_SHELL, Some(&first), &cfg).unwrap();
    let b = run_rules_on_file("m.rs", ENV_TO_SHELL, Some(&second), &cfg).unwrap();
    assert_eq!(keys(&a), keys(&b));
    assert_eq!(
        keys(&a),
        vec![
            (3, 5, "taint-unsanitised-flow".to_string(), Severity::High),
            (3, 13, "unwrap_call".to_string(), Severity::Medium),
            (4, 5, "unwrap_call".to_string(), Severity::Medium),
        ]
    );
}

#[test]
fn mode_and_least_severity_select_what_is_reported() {
    let tree = rust_tree(ENV_TO_SHELL);
    let hits = vec![
        PatternHit { id: "a".into(), severity: Severity::Low, row: 0, col: 0 },
        PatternHit { id: "b".into(), severity: Severity::Medium, row: 0, col: 1 },
        PatternHit { id: "c".into(), severity: Severity::High, row: 0, col: 2 },
    ];
    let mut cfg = ScannerConfig::default();
    let ids = |cfg: &ScannerConfig| -> Vec<String> {
        analyse_source("m.rs", &tree, ENV_TO_SHELL, "rust", cfg, &hits)
            .unwrap()
            .into_iter()
            .map(|d| d.id)
            .collect()
    };
    assert_eq!(ids(&cfg), vec!["a", "b", "c", "taint-unsanitised-flow"]);
    cfg.min_severity = Severity::Medium;
    assert_eq!(ids(&cfg), vec!["b", "c", "taint-unsanitised-flow"]);
    cfg.min_severity = Severity::High;
    assert_eq!(ids(&cfg), vec!["c", "taint-unsanitised-flow"]);
    cfg.mode = AnalysisMode::Ast;
    assert_eq!(ids(&cfg), vec!["c"]);
    cfg.mode = AnalysisMode::Taint;
    assert_eq!(ids(&cfg), vec!["taint-unsanitised-flow"]);
}

#[test]
fn diagnostics_are_ordered_and_none_is_reported_twice() {
    let raw = vec![
        diag("f", 2, 1, Severity::Low, "b"),
        diag("f", 1, 9, Severity::High, "z"),
        diag("f", 2, 1, Severity::Low, "a"),
        diag("f", 2, 1, Severity::Low, "b"),
        diag("g", 1, 9, Severity::High, "z"),
        diag("f", 2, 1, Severity::High, "b"),
        diag("f", 1, 10, Severity::High, "a"),
    ];
    let out = normalize(&raw);
    assert_eq!(
        keys(&out),
        vec![
            (1, 9, "z".to_string(), Severity::High),
            (1, 10, "a".to_string(), Severity::High),
            (2, 1, "a".to_string(), Severity::Low),
            (2, 1, "b".to_string(), Severity::High),
            (2, 1, "b".to_string(), Severity::Low),
        ]
    );
    // of those that are alike the first stays
    assert_eq!(out[0].path, "f");
    for i in 0..out.len() {
        for j in 0..out.len() {
            if i != j {
                assert_ne!(place_of(&out[i], &out[j]), Place::Same);
            }
        }
    }
    assert!(normalize(&Vec::new()).is_empty());
}

#[test]
fn results_are_grouped_counted_and_limited() {
    let raw = vec![
        diag("b.rs", 1, 1, Severity::Low, "x"),
        diag("a.rs", 9, 1, Severity::High, "y"),
        diag("b.rs", 0, 1, Severity::Medium, "z"),
        diag("a.rs", 2, 1, Severity::High, "w"),
    ];
    let grouped = group_by_path(&raw);
    let order: Vec<(&str, &str)> = grouped.iter().map(|d| (d.path.as_str(), d.id.as_str())).collect();
    assert_eq!(order, vec![("a.rs", "y"), ("a.rs", "w"), ("b.rs", "x"), ("b.rs", "z")]);
    assert_eq!(count_by_severity(&raw), (2, 1, 1));
    assert_eq!(count_by_severity(&Vec::new()), (0, 0, 0));
    assert_eq!(limit_results(group_by_path(&raw), Some(3)).len(), 3);
    assert_eq!(limit_results(group_by_path(&raw), Some(0)).len(), 0);
    assert_eq!(limit_results(group_by_path(&raw), Some(9)).len(), 4);
    assert_eq!(limit_results(group_by_path(&raw), None).len(), 4);
    let limited = limit_results(group_by_path(&raw), Some(1));
    assert_eq!(limited[0].id, "y");
}

#[test]
fn point_is_that_of_the_smallest_node_at_the_byte() {
    let tree = rust_tree(ENV_TO_SHELL);
    assert_eq!(byte_offset_to_point(&tree, 0), (0, 0));
    // the byte at which `let` begins, in the third line
    let at = ENV_TO_SHELL.windows(3).position(|w| w == b"let").unwrap();
    assert_eq!(byte_offset_to_point(&tree, at), (2, 4));
    // inside `env`, the identifier that holds the byte
    let at = ENV_TO_SHELL.windows(8).position(|w| w == b"env::var").unwrap();
    assert_eq!(byte_offset_to_point(&tree, at + 1), (2, 12));
    // beyond the file the root is the smallest node there is
    assert_eq!(byte_offset_to_point(&tree, 10_000), (0, 0));
}

#[test]
fn sources_add_sanitizers_take_away_and_others_pass_on() {
    let sums = FuncSummaries::new();
    let shell = Cap::from_bits(SHELL_ESCAPE);
    let html = Cap::from_bits(HTML_ESCAPE);
    let t0 = Taint::new();
    let src1 = node(StmtKind::Call, Some(DataLabel::Source(shell)), Some("x"), &[]);
    let src2 = node(StmtKind::Call, Some(DataLabel::Source(html)), Some("x"), &[]);
    let t1 = apply_taint(&src1, &t0, &sums);
    assert_eq!(t1.get("x"), shell);
    // a source followed by a source on the same variable: both
    let t2 = apply_taint(&src2, &t1, &sums);
    assert_eq!(t2.get("x").bits(), SHELL_ESCAPE | HTML_ESCAPE);
    // a sanitizer clears what it clears of the variable that it defines
    let clean = node(StmtKind::Call, Some(DataLabel::Sanitizer(html)), Some("x"), &["x"]);
    let t3 = apply_taint(&clean, &t2, &sums);
    assert_eq!(t3.get("x"), shell);
    // and changes nothing where the variable lacks it
    let t4 = apply_taint(&clean, &t3, &sums);
    assert!(t4.same(&t3));
    let gone = node(StmtKind::Call, Some(DataLabel::Sanitizer(Cap::all())), Some("x"), &[]);
    assert!(apply_taint(&gone, &t3, &sums).same(&t0));
    // a sanitizer that defines another variable leaves that one clean
    let other = node(StmtKind::Call, Some(DataLabel::Sanitizer(html)), Some("y"), &["x"]);
    assert!(apply_taint(&other, &t3, &sums).get("y").is_empty());
    // any other statement hands on what the variables that it uses carry
    let copy = node(StmtKind::Sequential, None, Some("z"), &["x", "q"]);
    let t5 = apply_taint(&copy, &t2, &sums);
    assert_eq!(t5.get("z").bits(), SHELL_ESCAPE | HTML_ESCAPE);
    let wipe = node(StmtKind::Sequential, None, Some("x"), &["q"]);
    assert!(apply_taint(&wipe, &t2, &sums).same(&t0));
    // a sink and a statement that defines nothing change nothing
    let sink = node(StmtKind::Call, Some(DataLabel::Sink(shell)), Some("x"), &["x"]);
    assert!(apply_taint(&sink, &t2, &sums).same(&t2));
    let read = node(StmtKind::Sequential, None, None, &["x"]);
    assert!(apply_taint(&read, &t2, &sums).same(&t2));
}

#[test]
fn a_call_of_a_summarized_function_acts_as_its_summary() {
    let mut sums = FuncSummaries::new();
    let shell = Cap::from_bits(SHELL_ESCAPE);
    sums.insert("f".to_string(), FuncSummary { entry: 2, exit: 3, label: Some(DataLabel::Source(shell)) });
    sums.insert("g".to_string(), FuncSummary { entry: 4, exit: 5, label: None });
    let call = node(StmtKind::Call, None, Some("x"), &["y"]);
    let t = apply_taint(&call, &Taint::new(), &sums);
    assert_eq!(t.get("x"), shell);
    // a later summary of the name replaces the earlier
    sums.insert("f".to_string(), FuncSummary { entry: 2, exit: 3, label: Some(DataLabel::Sanitizer(shell)) });
    assert!(apply_taint(&call, &t, &sums).get("x").is_empty());
    assert_eq!(sums.get("g"), Some(FuncSummary { entry: 4, exit: 5, label: None }));
    assert_eq!(sums.get("h"), None);
    // the label of the node itself comes first
    let own = node(StmtKind::Call, Some(DataLabel::Source(Cap::from_bits(HTML_ESCAPE))), Some("x"), &[]);
    assert_eq!(apply_taint(&own, &Taint::new(), &sums).get("x").bits(), HTML_ESCAPE);
}

#[test]
fn a_sink_fires_only_on_a_capability_that_it_consumes() {
    let shell = Cap::from_bits(SHELL_ESCAPE);
    let html = Cap::from_bits(HTML_ESCAPE);
    let mut t = Taint::new();
    t.set("x", html);
    let sink = node(StmtKind::Call, Some(DataLabel::Sink(shell)), None, &["a", "x"]);
    assert!(!sink_check(&sink, &t));
    t.set("x", Cap::all());
    assert!(sink_check(&sink, &t));
    t.set("x", Cap::empty());
    assert!(!sink_check(&sink, &t));
    assert!(t.same(&Taint::new()));
    let no_sink = node(StmtKind::Call, Some(DataLabel::Source(shell)), None, &["x"]);
    t.set("x", Cap::all());
    assert!(!sink_check(&no_sink, &t));
}

#[test]
fn search_visits_each_state_once_and_ends_on_loops() {
    let shell = Cap::from_bits(SHELL_ESCAPE);
    let mut g = Cfg::new();
    let entry = g.add_node(node(StmtKind::Entry, None, None, &[]));
    let exit = g.add_node(node(StmtKind::Exit, None, None, &[]));
    let head = g.add_node(node(StmtKind::Loop, None, None, &[]));
    let src = g.add_node(node(StmtKind::Call, Some(DataLabel::Source(shell)), Some("x"), &[]));
    let sink = g.add_node(node(StmtKind::Call, Some(DataLabel::Sink(shell)), None, &["x"]));
    g.add_edge(entry, head, EdgeKind::Sequential);
    g.add_edge(head, src, EdgeKind::Sequential);
    g.add_edge(src, sink, EdgeKind::Sequential);
    g.add_edge(sink, head, EdgeKind::Back);
    g.add_edge(head, exit, EdgeKind::Sequential);
    assert_eq!(g.node_count(), 5);
    assert_eq!(g.edge_count(), 5);
    assert_eq!(g.successors(head), vec![src, exit]);
    assert_eq!(g.edge(3), (sink, head, EdgeKind::Back));
    g.set_edge_kind(0, EdgeKind::True);
    assert_eq!(g.edge(0), (entry, head, EdgeKind::True));
    let findings = analyse_file(&g, entry, &FuncSummaries::new());
    // the sink is reached with the same taint on every round
    assert_eq!(findings, vec![vec![src, sink]]);
    // from a node that is no source the path begins at the start
    let findings = analyse_file(&g, src, &FuncSummaries::new());
    assert_eq!(findings, vec![vec![src, sink]]);
    let findings = analyse_file(&g, sink, &FuncSummaries::new());
    assert_eq!(findings, vec![vec![src, sink]]);
    assert!(analyse_file(&g, exit, &FuncSummaries::new()).is_empty());
}

#[test]
fn summaries_put_sinks_before_sanitizers_before_sources() {
    let src = b"fn a() { let x = env::var(\"A\").unwrap(); }\nfn b() { let y = html_escape::encode_safe(z); let x = env::var(\"A\").unwrap(); }\nfn c() { let x = env::var(\"A\").unwrap(); let y = html_escape::encode_safe(z); Command::new(\"sh\").arg(x).status(); }\nfn d() { let q = 1; }\n";
    let tree = rust_tree(src);
    let (cfg, _entry, sums) = build_cfg(&tree, src, "rust").unwrap();
    assert_eq!(sums.get("a").unwrap().label, Some(DataLabel::Source(Cap::all())));
    assert_eq!(sums.get("b").unwrap().label, Some(DataLabel::Sanitizer(Cap::from_bits(HTML_ESCAPE))));
    assert_eq!(sums.get("c").unwrap().label, Some(DataLabel::Sink(Cap::from_bits(SHELL_ESCAPE))));
    assert_eq!(sums.get("d").unwrap().label, None);
    let a = sums.get("a").unwrap();
    assert_eq!(cfg.node(a.entry).kind, StmtKind::Sequential);
    assert_eq!(cfg.node(a.exit).kind, StmtKind::Return);
    assert!(cfg.successors(a.exit).contains(&sums.get("b").unwrap().entry));
}

#[test]
fn statements_define_and_use_identifiers() {
    let src = b"fn f() { let (a, b) = g(c, d); a = b; h(a); }";
    let tree = rust_tree(src);
    let (cfg, _, _) = build_cfg(&tree, src, "rust").unwrap();
    let mut seen = Vec::new();
    for i in 0..cfg.node_count() {
        let n = cfg.node(i);
        if n.kind == StmtKind::Call || n.kind == StmtKind::Sequential {
            seen.push((n.kind, n.defines.clone(), n.uses.clone(), n.callee.clone()));
        }
    }
    let names = |v: &[&str]| v.iter().map(|s| s.to_string()).collect::<Vec<_>>();
    // the function itself, then its three statements
    assert_eq!(seen.len(), 4);
    assert_eq!(seen[1], (StmtKind::Call, Some("a".to_string()), names(&["g", "c", "d"]), Some("g".to_string())));
    assert_eq!(seen[2].0, StmtKind::Sequential);
    assert_eq!(seen[2].1, None);
    assert_eq!(seen[2].2, names(&["a", "b"]));
    assert_eq!(seen[3], (StmtKind::Call, None, names(&["h", "a"]), Some("h".to_string())));
}

#[test]
fn a_loop_or_function_without_body_cannot_be_lowered() {
    let code = b"loop";
    let tree = inner("source_file", None, vec![inner("loop_expression", None, vec![leaf("loop", None, 0, 4)])]);
    assert_eq!(build_cfg(&tree, code, "rust").err(), Some(BuildError::MissingBody));
    let tree = inner("source_file", None, vec![inner("function_item", None, vec![leaf("identifier", Some("name"), 0, 4)])]);
    assert_eq!(build_cfg(&tree, code, "rust").err(), Some(BuildError::MissingBody));
    // a loop with a condition takes its first block for a body
    let tree = inner(
        "source_file",
        None,
        vec![inner("while_statement", None, vec![leaf("loop", None, 0, 4), inner("block", None, vec![])])],
    );
    let (cfg, _, _) = build_cfg(&tree, code, "rust").unwrap();
    assert_eq!(cfg.node_count(), 3);
    assert_eq!(cfg.node(2).kind, StmtKind::Loop);
    assert_eq!(cfg.edge(1), (2, 2, EdgeKind::Back));
    assert_eq!(cfg.edge(2), (2, 1, EdgeKind::Sequential));
    // in a language without a table every node is one statement
    let (cfg, _, sums) = build_cfg(&tree, code, "cobol").unwrap();
    assert_eq!(cfg.node_count(), 3);
    assert_eq!(cfg.node(2).kind, StmtKind::Sequential);
    assert_eq!(sums.get("f"), None);
}

#[test]
fn what_follows_a_statement_that_ends_its_path_is_cut_off() {
    let src = b"fn f() { continue }";
    let tree = rust_tree(src);
    let (cfg, _, sums) = build_cfg(&tree, src, "rust").unwrap();
    let f = sums.get("f").unwrap();
    let mut entered = false;
    for j in 0..cfg.edge_count() {
        if cfg.edge(j).1 == f.exit {
            entered = true;
        }
    }
    assert!(!entered);
    let last = cfg.node_count() - 2;
    assert_eq!(cfg.node(last).kind, StmtKind::Continue);
    assert!(cfg.successors(last).is_empty());
}

#[test]
fn texts_that_are_no_utf8_are_no_text() {
    let code = [b'a', 0xff, b'b'];
    let bad = leaf("identifier", None, 0, 3);
    assert_eq!(bad.text_of(&code), None);
    let good = leaf("identifier", None, 2, 3);
    assert_eq!(good.text_of(&code), Some("b".to_string()));
    let beyond = leaf("identifier", None, 2, 9);
    assert_eq!(beyond.text_of(&code), None);
    let back = leaf("identifier", None, 2, 1);
    assert_eq!(back.text_of(&code), None);
    let tree = inner("x", None, vec![bad, good]);
    let mut out = Vec::new();
    tree.collect_idents(&code, &mut out);
    assert_eq!(out, vec!["b"]);
    assert!(tree.child_by_field_name("name").is_none());
}

#[test]
fn a_tree_that_cannot_be_lowered_is_an_error_of_the_file() {
    let code = b"loop";
    let tree = inner("source_file", None, vec![inner("loop_expression", None, vec![leaf("loop", None, 0, 4)])]);
    let parsed = Parsed { tree, hits: Vec::new() };
    let mut cfg = ScannerConfig::default();
    let err = run_rules_on_file("m.rs", code, Some(&parsed), &cfg).unwrap_err();
    assert!(matches!(err, NyxError::Msg(ref m) if m == "loop or function without body"));
    assert_eq!(err.to_string(), "loop or function without body");
    // without the taint analysis no graph is built
    cfg.mode = AnalysisMode::Ast;
    assert!(run_rules_on_file("m.rs", code, Some(&parsed), &cfg).unwrap().is_empty());
}

#[test]
fn a_statement_with_two_calls_is_labelled_by_its_own_text() {
    let code = b"f(a) g(b)";
    let call = |start: usize| {
        let mut arguments = inner("arguments", Some("arguments"), vec![leaf("identifier", None, start + 2, start + 3)]);
        arguments.start_byte = start + 1;
        arguments.end_byte = start + 4;
        inner("call_expression", None, vec![leaf("identifier", Some("function"), start, start + 1), arguments])
    };
    let one = inner("source_file", None, vec![inner("expression_statement", None, vec![call(0)])]);
    let (cfg, _, _) = build_cfg(&one, code, "rust").unwrap();
    assert_eq!(cfg.node(2).kind, StmtKind::Call);
    assert_eq!(cfg.node(2).callee.as_deref(), Some("f"));
    let two = inner("source_file", None, vec![inner("expression_statement", None, vec![call(0), call(5)])]);
    let (cfg, _, _) = build_cfg(&two, code, "rust").unwrap();
    assert_eq!(cfg.node(2).kind, StmtKind::Call);
    assert_eq!(cfg.node(2).callee.as_deref(), Some("f(a) g(b)"));
    assert_eq!(cfg.node(2).uses, vec!["f", "a", "g", "b"]);
}

#[test]
fn a_method_call_is_named_by_what_it_has_of_receiver_and_method() {
    let code = b"recv.meth";
    let stmt = |parts: Vec<SyntaxNode>| {
        inner(
            "source_file",
            None,
            vec![inner("expression_statement", None, vec![inner("method_call_expression", None, parts)])],
        )
    };
    let recv = || leaf("identifier", Some("object"), 0, 4);
    let meth = |field: &str| leaf("identifier", Some(field), 5, 9);
    let callee = |tree: SyntaxNode| {
        let (cfg, _, _) = build_cfg(&tree, code, "rust").unwrap();
        assert_eq!(cfg.node(2).kind, StmtKind::Call);
        cfg.node(2).callee.clone()
    };
    assert_eq!(callee(stmt(vec![recv(), meth("method")])).as_deref(), Some("recv::meth"));
    assert_eq!(callee(stmt(vec![recv(), meth("name")])).as_deref(), Some("recv::meth"));
    assert_eq!(callee(stmt(vec![meth("method")])).as_deref(), Some("meth"));
    assert_eq!(callee(stmt(vec![recv()])).as_deref(), Some("recv"));
}

#[test]
fn points_are_those_of_the_smallest_node_of_the_parse() {
    let sources: [&[u8]; 3] = [
        ENV_TO_SHELL,
        b"\n\n   fn f() { if cond() { return; } do_something(\"\"); }  \n",
        b"",
    ];
    for src in sources {
        let mut parser = tree_sitter::Parser::new();
        parser
            .set_language(&Language::from(tree_sitter_rust::LANGUAGE))
            .unwrap();
        let parse = parser.parse(src, None).unwrap();
        let mut cursor = parse.walk();
        let tree = walk_tree(&mut cursor);
        for byte in 0..src.len() + 3 {
            let want = parse
                .root_node()
                .descendant_for_byte_range(byte, byte)
                .map(|n| (n.start_position().row, n.start_position().column))
                .unwrap_or((0, 0));
            assert_eq!(byte_offset_to_point(&tree, byte), want, "byte {}", byte);
        }
    }
}

#[test]
fn a_node_is_labelled_by_its_own_text() {
    let sources: [&[u8]; 3] = [
        ENV_TO_SHELL,
        b"fn f() { let y = env::var(\"A\").unwrap(); let c = html_escape::encode_safe(&y); }",
        b"fn f() { if cond() { return; } do_something(); }",
    ];
    for src in sources {
        let tree = rust_tree(src);
        let (cfg, _, summaries) = build_cfg(&tree, src, "rust").unwrap();
        let mut labelled = 0;
        for i in 0..cfg.node_count() {
            let n = cfg.node(i);
            let synthetic = n.label.is_none() && n.defines.is_none() && n.uses.is_empty() && n.callee.is_none();
            if i < 2 {
                assert!(synthetic);
                continue;
            }
            let own = match &n.callee {
                Some(c) => c.clone(),
                None => String::from_utf8(src[n.span.0..n.span.1].to_vec()).unwrap(),
            };
            if n.label.is_some() {
                labelled += 1;
                assert_eq!(n.label, classify("rust", &own));
            }
        }
        if src.len() == ENV_TO_SHELL.len() {
            assert!(labelled >= 2);
        }
        if let Some(f) = summaries.get("f") {
            let exit = cfg.node(f.exit);
            assert_eq!(exit.kind, StmtKind::Return);
            assert!(exit.label.is_none() && exit.uses.is_empty() && exit.callee.is_none());
        }
    }
}

#[test]
fn steady_trees_have_connected_graphs() {
    let sources: [&[u8]; 6] = [
        ENV_TO_SHELL,
        b"fn f() { if cond() { return; } do_something(); }",
        b"fn f() { loop { let x = env::var(\"A\").unwrap(); break; } }",
        b"fn a() {} fn b() { if c { x(); } else { y(); } z(); } // done\n",
        b"fn f() { while x.len() < 3 { x.push(1); } for i in v { g(i); } }",
        b"",
    ];
    for src in sources {
        let tree = rust_tree(src);
        assert!(is_steady(&tree, "rust"));
        let (cfg, entry, _) = build_cfg(&tree, src, "rust").unwrap();
        let mut seen = vec![false; cfg.node_count()];
        let mut work = vec![entry];
        seen[entry] = true;
        while let Some(n) = work.pop() {
            for m in cfg.successors(n) {
                if !seen[m] {
                    seen[m] = true;
                    work.push(m);
                }
            }
        }
        assert!(seen.iter().all(|s| *s));
        let mut entered = vec![false; cfg.node_count()];
        let mut left = vec![false; cfg.node_count()];
        for j in 0..cfg.edge_count() {
            let (a, b, kind) = cfg.edge(j);
            left[a] = true;
            entered[b] = true;
            assert_ne!(a, 1);
            match kind {
                EdgeKind::True | EdgeKind::False => assert_eq!(cfg.node(a).kind, StmtKind::If),
                EdgeKind::Back => assert_eq!(cfg.node(b).kind, StmtKind::Loop),
                EdgeKind::Sequential => {}
            }
        }
        for i in 0..cfg.node_count() {
            let n = cfg.node(i);
            assert_eq!(n.kind == StmtKind::Call, n.callee.is_some());
            assert!(i == entry || entered[i]);
            let ends = matches!(n.kind, StmtKind::Return | StmtKind::Break | StmtKind::Continue);
            assert!(i == 1 || ends || left[i]);
        }
    }
}

#[test]
fn trees_with_statements_that_are_cut_off_are_not_steady() {
    let tree = rust_tree(b"fn f() { continue }");
    assert!(!is_steady(&tree, "rust"));
    assert_eq!(flow_of(&tree, "rust", true), Flow { ok: false, out: true });
    let tree = rust_tree(b"fn f() { loop { break } }");
    assert!(is_steady(&tree, "rust"));
    // a statement that ends its path, and one behind it
    let ends = inner("source_file", None, vec![leaf("break_expression", None, 0, 1), leaf("x", None, 1, 2)]);
    assert_eq!(flow_of(&ends, "rust", true), Flow { ok: false, out: true });
    let last = inner("source_file", None, vec![leaf("x", None, 0, 1), leaf("return_statement", None, 1, 2)]);
    assert_eq!(flow_of(&last, "rust", true), Flow { ok: true, out: false });
    assert!(!is_steady(&last, "rust"));
    assert_eq!(flow_of(&last, "rust", false), Flow { ok: false, out: false });
}

#[test]
fn the_deadline_passes_when_more_seconds_than_allowed_have_gone() {
    assert!(check_deadline("f.rs", 1_000_000, None).is_ok());
    assert!(check_deadline("f.rs", 5, Some(5)).is_ok());
    let err = check_deadline("f.rs", 6, Some(5)).unwrap_err();
    assert!(matches!(err, NyxError::CancelledFile(ref p) if p == "f.rs"));
    assert_eq!(err.to_string(), "cancelled: f.rs");
    assert!(check_deadline("f.rs", 1, Some(0)).is_err());
}

#[test]
fn unknown_extension_returns_empty() {
    let diags = run_rules_on_file("notes.txt", b"just some text", None, &ScannerConfig::default())
        .expect("function should never error on plain text");

    assert!(diags.is_empty());
}

#[test]
fn binary_file_guard_triggers() {
    let mut data = vec![0_u8; 2048];
    for i in (0..data.len()).step_by(3) {
        data[i] = 0;
    }

    let diags = run_rules_on_file("junk.bin", &data, None, &ScannerConfig::default()).unwrap();
    assert!(diags.is_empty(), "binary files are skipped");
}
