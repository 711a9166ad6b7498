use nyx_scanner::cli::{handle_command, must_build_index, wants_console, Commands, IndexAction, Task};
use nyx_scanner::config::{
    AnalysisMode, Config, DatabaseConfig, OutputConfig, PerformanceConfig, ScannerConfig,
    merge_configs,
};
use nyx_scanner::errors::NyxError;
use nyx_scanner::patterns::{load, Severity};
use nyx_scanner::walk::{
    accepts_file, build_overrides, channel_capacity, keeps_entry, max_bytes, worker_count,
    BatchSender,
};

#[test]
fn every_error_shows_its_message() {
    assert_eq!(NyxError::Io("x".into()).to_string(), "I/O error: x");
    assert_eq!(NyxError::Toml("x".into()).to_string(), "TOML parse error: x");
    assert_eq!(NyxError::Sql("x".into()).to_string(), "SQLite error: x");
    assert_eq!(NyxError::TreeSitter("x".into()).to_string(), "tree-sitter error: x");
    assert_eq!(NyxError::Pool("x".into()).to_string(), "connection-pool error: x");
    assert_eq!(NyxError::Time("x".into()).to_string(), "time error: x");
    assert_eq!(NyxError::Poison("x".into()).to_string(), "poisoned lock: x");
    assert_eq!(NyxError::Other("x".into()).to_string(), "x");
    assert_eq!(NyxError::Msg("x".into()).to_string(), "x");
    let owned: NyxError = String::from("owned").into();
    assert!(matches!(owned, NyxError::Msg(ref s) if s == "owned"));
}

#[test]
fn severities_read_back_from_any_case_and_default_to_low() {
    assert_eq!(Severity::parse("HiGh"), Severity::High);
    assert_eq!(Severity::parse("medium"), Severity::Medium);
    assert_eq!(Severity::parse("low"), Severity::Low);
    assert_eq!(Severity::parse("critical"), Severity::Low);
    assert_eq!(Severity::parse(""), Severity::Low);
    assert!(Severity::High < Severity::Medium);
    assert!(Severity::Medium < Severity::Low);
}

#[test]
fn pattern_tables_hold_the_rules_of_each_language() {
    let rust = load("rust");
    assert_eq!(rust.len(), 15);
    assert_eq!(rust[0].id, "unsafe_block");
    assert_eq!(rust[0].query, "(unsafe_block) @vuln");
    assert_eq!(rust[0].severity, Severity::High);
    assert_eq!(rust[5].id, "unwrap_call");
    assert_eq!(rust[5].severity, Severity::Medium);
    assert_eq!(rust[14].id, "dbg_macro");
    assert_eq!(rust[14].severity, Severity::Low);
    assert_eq!(load("c").len(), 6);
    assert_eq!(load("cpp"), load("c++"));
    assert_eq!(load("py"), load("python"));
    assert_eq!(load("python").len(), 3);
    assert_eq!(load("js"), load("JavaScript"));
    assert_eq!(load("rb"), load("ruby"));
    assert_eq!(load("go").len(), 5);
    assert_eq!(load("java").len(), 6);
    assert_eq!(load("php").len(), 6);
    assert_eq!(load("ts").len(), 17);
    // `rs` is no key of the pattern registry
    assert!(load("rs").is_empty());
}

#[test]
fn defaults_are_as_documented() {
    let s = ScannerConfig::default();
    assert_eq!(s.mode, AnalysisMode::Full);
    assert_eq!(s.min_severity, Severity::Low);
    assert_eq!(s.max_file_size_mb, None);
    assert_eq!(
        s.excluded_extensions,
        vec!["jpg", "png", "gif", "mp4", "avi", "mkv", "zip", "tar", "gz", "exe", "dll", "so"]
    );
    assert_eq!(
        s.excluded_directories,
        vec!["node_modules", ".git", "target", ".vscode", ".idea", "build", "dist"]
    );
    assert!(s.excluded_files.is_empty());
    assert!(!s.read_global_ignore && s.read_vcsignore && s.require_git_to_read_vcsignore);
    assert!(!s.one_file_system && !s.follow_symlinks && !s.scan_hidden_files);
    let d = DatabaseConfig::default();
    assert_eq!((d.path.as_str(), d.auto_cleanup_days, d.max_db_size_mb, d.vacuum_on_startup), ("", 30, 1024, false));
    let o = OutputConfig::default();
    assert_eq!((o.default_format.as_str(), o.quiet, o.max_results), ("console", false, None));
    let p = PerformanceConfig::default();
    assert_eq!(p.batch_size, 100);
    assert_eq!(p.channel_multiplier, 4);
    assert_eq!(p.rayon_thread_stack_size, 8 * 1024 * 1024);
    assert_eq!(p.memory_limit_mb, 512);
    assert_eq!((p.max_depth, p.min_depth, p.worker_threads, p.scan_timeout_secs), (None, None, None, None));
    assert!(!p.prune);
    assert_eq!(AnalysisMode::default(), AnalysisMode::Full);
}

#[test]
fn merge_takes_the_users_options_and_unites_the_exclusions() {
    let mut default_cfg = Config::default();
    default_cfg.scanner.excluded_directories = vec!["target".into(), ".git".into()];
    default_cfg.scanner.excluded_files = vec!["keep.me".into()];
    let mut user = Config::default();
    user.scanner.excluded_directories = vec!["vendor".into(), "target".into()];
    user.scanner.excluded_files = vec!["dropped".into()];
    user.scanner.mode = AnalysisMode::Taint;
    user.scanner.min_severity = Severity::High;
    user.scanner.max_file_size_mb = Some(7);
    user.scanner.follow_symlinks = true;
    user.database.path = "/tmp/db".into();
    user.output.quiet = true;
    user.output.max_results = Some(3);
    user.performance.batch_size = 9;
    user.performance.worker_threads = Some(2);
    let merged = merge_configs(default_cfg, user);
    assert_eq!(merged.scanner.excluded_directories, vec![".git", "target", "vendor"]);
    assert_eq!(merged.scanner.excluded_files, vec!["keep.me"]);
    assert_eq!(merged.scanner.mode, AnalysisMode::Taint);
    assert_eq!(merged.scanner.min_severity, Severity::High);
    assert_eq!(merged.scanner.max_file_size_mb, Some(7));
    assert!(merged.scanner.follow_symlinks);
    assert_eq!(merged.database.path, "/tmp/db");
    assert!(merged.output.quiet);
    assert_eq!(merged.output.max_results, Some(3));
    assert_eq!(merged.performance.batch_size, 9);
    assert_eq!(merged.performance.worker_threads, Some(2));
}

#[test]
fn scan_flags_change_severity_and_mode() {
    let scan = |high_only, ast_only, cfg_only, all_targets| Commands::Scan {
        path: ".".into(),
        no_index: true,
        rebuild_index: false,
        format: "console".into(),
        high_only,
        ast_only,
        cfg_only,
        all_targets,
    };
    let mut cfg = Config::default();
    let task = handle_command(scan(true, true, false, false), &mut cfg);
    assert!(matches!(task, Task::Scan { ref path, no_index: true, rebuild_index: false, ref format } if path == "." && format == "console"));
    assert_eq!(cfg.scanner.min_severity, Severity::High);
    assert_eq!(cfg.scanner.mode, AnalysisMode::Ast);
    let mut cfg = Config::default();
    handle_command(scan(false, true, true, false), &mut cfg);
    assert_eq!(cfg.scanner.min_severity, Severity::Low);
    assert_eq!(cfg.scanner.mode, AnalysisMode::Taint);
    handle_command(scan(false, false, false, false), &mut cfg);
    assert_eq!(cfg.scanner.mode, AnalysisMode::Taint);
    handle_command(scan(false, true, true, true), &mut cfg);
    assert_eq!(cfg.scanner.mode, AnalysisMode::Full);
    let task = handle_command(Commands::List { verbose: true }, &mut cfg);
    assert!(matches!(task, Task::List { verbose: true }));
    let task = handle_command(Commands::Clean { project: Some("p".into()), all: false }, &mut cfg);
    assert!(matches!(task, Task::Clean { project: Some(ref p), all: false } if p == "p"));
    let task = handle_command(
        Commands::Index { action: IndexAction::Build { path: "x".into(), force: true } },
        &mut cfg,
    );
    assert!(matches!(task, Task::Index { action: IndexAction::Build { ref path, force: true } } if path == "x"));
}

#[test]
fn index_is_built_when_asked_or_missing() {
    assert!(must_build_index(true, true));
    assert!(must_build_index(false, false));
    assert!(must_build_index(true, false));
    assert!(!must_build_index(false, true));
    assert!(wants_console("console", "json"));
    assert!(wants_console("", "console"));
    assert!(!wants_console("", "json"));
    assert!(!wants_console("json", "console"));
}

#[test]
fn walk_limits_are_computed_without_overflow() {
    assert_eq!(max_bytes(None), 0);
    assert_eq!(max_bytes(Some(2)), 2_097_152);
    assert_eq!(max_bytes(Some(u64::MAX)), u64::MAX);
    assert_eq!(channel_capacity(8, 4), 32);
    assert_eq!(channel_capacity(usize::MAX, 2), usize::MAX);
    assert_eq!(worker_count(None, 8), 8);
    assert_eq!(worker_count(Some(2), 8), 2);
    assert_eq!(worker_count(Some(16), 8), 8);
}

#[test]
fn walk_keeps_files_within_the_limit() {
    assert!(accepts_file(true, Some(10), 0));
    assert!(accepts_file(true, Some(10), 10));
    assert!(!accepts_file(true, Some(11), 10));
    assert!(accepts_file(true, None, 10));
    assert!(!accepts_file(false, Some(1), 10));
    assert!(keeps_entry(None));
    assert!(keeps_entry(Some((true, false))));
    assert!(keeps_entry(Some((false, true))));
    assert!(!keeps_entry(Some((false, false))));
}

#[test]
fn exclusions_become_override_patterns() {
    let mut cfg = Config::default();
    cfg.scanner.excluded_extensions = vec!["txt".into(), "md".into()];
    cfg.scanner.excluded_directories = vec!["target".into()];
    assert_eq!(build_overrides(&cfg), vec!["!*.txt", "!*.md", "!**/target/**"]);
}

#[test]
fn batches_are_handed_out_when_full_and_on_flush() {
    let mut bs = BatchSender::new(2);
    assert_eq!(bs.push("a".into()), None);
    assert_eq!(bs.push("b".into()), Some(vec!["a".to_string(), "b".to_string()]));
    assert_eq!(bs.push("c".into()), None);
    assert_eq!(bs.flush(), Some(vec!["c".to_string()]));
    assert_eq!(bs.flush(), None);
    let mut each = BatchSender::new(0);
    assert_eq!(each.push("x".into()), Some(vec!["x".to_string()]));
}
