use nyx_scanner::cfg::build_cfg;
use nyx_scanner::graph::{Cfg, EdgeKind, StmtKind};
use nyx_scanner::labels::DataLabel;
use nyx_scanner::summary::FuncSummaries;
use nyx_scanner::syntax::SyntaxNode;
use nyx_scanner::taint::analyse_file;
use tree_sitter::Language;

fn convert(cursor: &mut tree_sitter::TreeCursor) -> SyntaxNode {
    let node = cursor.node();
    let field = cursor.field_name().map(|f| f.to_string());
    let mut children = Vec::new();
    if cursor.goto_first_child() {
        loop {
            children.push(convert(cursor));
            if !cursor.goto_next_sibling() {
                break;
            }
        }
        cursor.goto_parent();
    }
    SyntaxNode {
        kind: node.kind().to_string(),
        field,
        start_byte: node.start_byte(),
        end_byte: node.end_byte(),
        start_row: node.start_position().row,
        start_col: node.start_position().column,
        children,
    }
}

fn parse_rust(src: &[u8]) -> SyntaxNode {
    let mut parser = tree_sitter::Parser::new();
    parser
        .set_language(&Language::from(tree_sitter_rust::LANGUAGE))
        .unwrap();
    let tree = parser.parse(src, None).unwrap();
    let mut cursor = tree.walk();
    convert(&mut cursor)
}

fn build(src: &[u8]) -> (Cfg, usize, FuncSummaries) {
    let tree = parse_rust(src);
    build_cfg(&tree, src, "rust").unwrap()
}

fn reachable_from(cfg: &Cfg, entry: usize) -> Vec<bool> {
    let mut seen = vec![false; cfg.node_count()];
    let mut work = vec![entry];
    seen[entry] = true;
    while let Some(n) = work.pop() {
        for m in cfg.successors(n) {
            if !seen[m] {
                seen[m] = true;
                work.push(m);
            }
        }
    }
    seen
}

#[test]
fn env_to_arg_is_flagged() {
    let src = br#"
        use std::env; use std::process::Command;
        fn main() {
            let x = env::var("DANGEROUS_ARG").unwrap();
            Command::new("sh").arg(x).status().unwrap();
        }"#;

    let (cfg, entry, summaries) = build(src);
    let findings = analyse_file(&cfg, entry, &summaries);

    assert_eq!(findings.len(), 1); // exactly one unsanitised Source→Sink
}

#[test]
fn taint_through_if_else() {
    let src = br#"
        use std::env; use std::process::Command;
        fn main() {
            let x = env::var("DANGEROUS").unwrap();
            let safe = html_escape::encode_safe(&x);

            if x.len() > 5 {
                Command::new("sh").arg(&x).status().unwrap();   // UNSAFE
            } else {
                Command::new("sh").arg(&safe).status().unwrap(); // SAFE
            }
        }"#;

    let (cfg, entry, summaries) = build(src);
    let findings = analyse_file(&cfg, entry, &summaries);

    // exactly one path (via the True branch) should be flagged
    assert_eq!(findings.len(), 1);
}

#[test]
fn taint_through_while_loop() {
    let src = br#"
        use std::{env, process::Command};
        fn main() {
            let mut x = env::var("DANGEROUS").unwrap();
            while x.len() < 100 {                       // Loop header (Loop)
                x.push_str("a");
            }
            Command::new("sh").arg(x).status().unwrap(); // Should be flagged
        }"#;

    let (cfg, entry, summaries) = build(src);
    let findings = analyse_file(&cfg, entry, &summaries);
    assert_eq!(findings.len(), 1);
}

#[test]
fn taint_killed_by_sanitizer() {
    let src = br#"
        use std::{env, process::Command};
        fn main() {
            let x = env::var("DANGEROUS").unwrap();
            let clean = html_escape::encode_safe(&x);    // sanitizer node
            Command::new("sh").arg(clean).status().unwrap();  // SAFE
        }"#;

    let (cfg, entry, summaries) = build(src);
    let findings = analyse_file(&cfg, entry, &summaries);
    assert!(findings.is_empty());
}

#[test]
fn taint_breaks_out_of_loop() {
    let src = br#"
        use std::{env, process::Command};
        fn main() {
            loop {
                let x = env::var("DANGEROUS").unwrap();
                Command::new("sh").arg(&x).status().unwrap(); // vulnerable
                break;
            }
        }"#;

    let (cfg, entry, summaries) = build(src);
    let findings = analyse_file(&cfg, entry, &summaries);
    assert_eq!(findings.len(), 1);
}

#[test]
fn test_two_sources() {
    let src = br#"
        use std::{env, process::Command};
        fn main() {
            let x = env::var("DANGEROUS").unwrap();
            let y = env::var("SAFE").unwrap();
            let clean = html_escape::encode_safe(&y);
            Command::new("sh").arg(x).status().unwrap();
            Command::new("sh").arg(clean).status().unwrap();
        }"#;

    let (cfg, entry, summaries) = build(src);
    let findings = analyse_file(&cfg, entry, &summaries);
    assert_eq!(findings.len(), 1);
}

#[test]
fn test_should_not_panic_on_empty_function() {
    let src = br#"
        use std::{env, process::Command};
        fn f() {
            if cond() {
                return;
            }
            do_something();
        }"#;

    let (cfg, entry, summaries) = build(src);
    let findings = analyse_file(&cfg, entry, &summaries);
    assert!(findings.is_empty());
}

#[test]
fn finding_starts_at_the_source_and_ends_at_the_sink() {
    let src = br#"
        use std::env; use std::process::Command;
        fn main() {
            let x = env::var("DANGEROUS_ARG").unwrap();
            let y = x;
            Command::new("sh").arg(y).status().unwrap();
        }"#;

    let (cfg, entry, summaries) = build(src);
    let findings = analyse_file(&cfg, entry, &summaries);
    assert_eq!(findings.len(), 1);
    let path = &findings[0];
    assert_eq!(path.len(), 3);
    let first = cfg.node(path[0]);
    let last = cfg.node(path[2]);
    assert!(matches!(first.label, Some(DataLabel::Source(_))));
    assert!(matches!(last.label, Some(DataLabel::Sink(_))));
    assert_eq!(first.defines.as_deref(), Some("x"));
    assert_eq!(cfg.node(path[1]).defines.as_deref(), Some("y"));
    for w in path.windows(2) {
        assert!(cfg.successors(w[0]).contains(&w[1]));
    }
}

#[test]
fn graph_of_the_early_return_example_is_reachable_and_well_formed() {
    let src = br#"
        use std::{env, process::Command};
        fn f() {
            if cond() {
                return;
            }
            do_something();
        }"#;

    let (cfg, entry, summaries) = build(src);
    assert_eq!(entry, 0);
    assert_eq!(cfg.node(0).kind, StmtKind::Entry);
    assert_eq!(cfg.node(1).kind, StmtKind::Exit);
    let seen = reachable_from(&cfg, entry);
    assert!(seen.iter().all(|s| *s));
    let mut incoming = vec![0usize; cfg.node_count()];
    for j in 0..cfg.edge_count() {
        let (a, b, kind) = cfg.edge(j);
        incoming[b] += 1;
        match kind {
            EdgeKind::True | EdgeKind::False => assert_eq!(cfg.node(a).kind, StmtKind::If),
            EdgeKind::Back => assert_eq!(cfg.node(b).kind, StmtKind::Loop),
            EdgeKind::Sequential => {}
        }
    }
    for i in 0..cfg.node_count() {
        let n = cfg.node(i);
        assert_eq!(n.kind == StmtKind::Call, n.callee.is_some());
        if i != entry {
            assert!(incoming[i] >= 1);
        }
    }
    let f = summaries.get("f").unwrap();
    assert_eq!(cfg.node(f.exit).kind, StmtKind::Return);
    assert_eq!(f.label, None);
}

#[test]
fn the_first_edge_into_a_branch_is_a_true_edge() {
    let src = br#"
        fn f() {
            if c {
                a();
                b();
            }
            d();
        }"#;
    let (cfg, _entry, _summaries) = build(src);
    let mut cond = None;
    for i in 0..cfg.node_count() {
        if cfg.node(i).kind == StmtKind::If {
            cond = Some(i);
        }
    }
    let cond = cond.unwrap();
    let mut kinds = Vec::new();
    for j in 0..cfg.edge_count() {
        let (a, _b, kind) = cfg.edge(j);
        if a == cond {
            kinds.push(kind);
        }
    }
    assert_eq!(kinds, vec![EdgeKind::True, EdgeKind::False]);
}
