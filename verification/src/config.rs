//! Scanner configuration: the options, their defaults, and how a user's
//! configuration is laid over the defaults.

use crate::patterns::Severity;
use crate::text::{sort_dedup, sorted_names, texts};
use vstd::prelude::*;
use vstd::string::StringExecFns;

verus! {

/// Which analyses run.
#[derive(Debug, Clone, Copy, PartialEq, Eq, Structural)]
pub enum AnalysisMode {
    /// Structural patterns and taint tracking.
    Full,
    /// Structural patterns only.
    Ast,
    /// Taint tracking only.
    Taint,
}

impl Default for AnalysisMode {
    fn default() -> (r: Self)
        ensures
            r == AnalysisMode::Full,
    {
        AnalysisMode::Full
    }
}

/// What is scanned and what is reported.
#[derive(Debug, Clone)]
pub struct ScannerConfig {
    /// The analysis mode to use.
    pub mode: AnalysisMode,
    /// The least severity that is reported.
    pub min_severity: Severity,
    /// The largest file that is scanned, in megabytes.
    pub max_file_size_mb: Option<u64>,
    /// File extensions that are not scanned.
    pub excluded_extensions: Vec<String>,
    /// Directories that are not scanned.
    pub excluded_directories: Vec<String>,
    /// Files that are not scanned.
    pub excluded_files: Vec<String>,
    /// Whether the global ignore file is honoured.
    pub read_global_ignore: bool,
    /// Whether the ignore files of version control are honoured.
    pub read_vcsignore: bool,
    /// Whether those are honoured only inside a repository.
    pub require_git_to_read_vcsignore: bool,
    /// Whether the walk stays on the file system on which it starts.
    pub one_file_system: bool,
    /// Whether symbolic links are followed.
    pub follow_symlinks: bool,
    /// Whether hidden files are scanned.
    pub scan_hidden_files: bool,
}

/// Where the result cache is kept and how it is looked after.
#[derive(Debug, Clone)]
pub struct DatabaseConfig {
    /// A path for the database other than the usual one.
    pub path: String,
    /// For how many days database files are kept.
    pub auto_cleanup_days: u32,
    /// The largest size of the database, in megabytes.
    pub max_db_size_mb: u64,
    /// Whether storage is reclaimed on startup.
    pub vacuum_on_startup: bool,
}

/// How results are shown.
#[derive(Debug, Clone)]
pub struct OutputConfig {
    /// The output format used when none is asked for.
    pub default_format: String,
    /// Whether nothing is printed.
    pub quiet: bool,
    /// The largest number of results that are shown.
    pub max_results: Option<u32>,
}

/// How much the scan may use of the machine.
#[derive(Debug, Clone)]
pub struct PerformanceConfig {
    /// The greatest depth to which directories are entered.
    pub max_depth: Option<usize>,
    /// The least depth of entries that are reported.
    pub min_depth: Option<usize>,
    /// Whether matching directories are not entered.
    pub prune: bool,
    /// The number of worker threads; found out when absent.
    pub worker_threads: Option<usize>,
    /// How many paths travel together in one batch.
    pub batch_size: usize,
    /// The channel holds this many batches for each worker.
    pub channel_multiplier: usize,
    /// The stack size of a worker thread, in bytes.
    pub rayon_thread_stack_size: usize,
    /// After how many seconds the analysis of a file is given up.
    pub scan_timeout_secs: Option<u64>,
    /// The most memory to use, in megabytes.
    pub memory_limit_mb: u64,
}

/// The configuration as a whole.
#[derive(Debug, Clone)]
pub struct Config {
    pub scanner: ScannerConfig,
    pub database: DatabaseConfig,
    pub output: OutputConfig,
    pub performance: PerformanceConfig,
}

/// The extensions that are excluded unless the user says otherwise.
pub open spec fn default_excluded_extensions() -> Seq<Seq<char>> {
    seq![
        "jpg"@,
        "png"@,
        "gif"@,
        "mp4"@,
        "avi"@,
        "mkv"@,
        "zip"@,
        "tar"@,
        "gz"@,
        "exe"@,
        "dll"@,
        "so"@,
    ]
}

/// The directories that are excluded unless the user says otherwise.
pub open spec fn default_excluded_directories() -> Seq<Seq<char>> {
    seq!["node_modules"@, ".git"@, "target"@, ".vscode"@, ".idea"@, "build"@, "dist"@]
}

fn owned(names: Vec<&'static str>) -> (r: Vec<String>)
    ensures
        r@.len() == names@.len(),
        forall|i: int| 0 <= i < r@.len() ==> r@[i]@ == names@[i]@,
{
    let mut r: Vec<String> = Vec::new();
    let mut i: usize = 0;
    while i < names.len()
        invariant
            i <= names.len(),
            r@.len() == i,
            forall|j: int| 0 <= j < i ==> r@[j]@ == names@[j]@,
        decreases names.len() - i,
    {
        r.push(String::from_str(names[i]));
        i += 1;
    }
    r
}

impl Default for ScannerConfig {
    fn default() -> (r: Self)
        ensures
            r.mode == AnalysisMode::Full,
            r.min_severity == Severity::Low,
            r.max_file_size_mb is None,
            texts(r.excluded_extensions@) == default_excluded_extensions(),
            texts(r.excluded_directories@) == default_excluded_directories(),
            r.excluded_files@.len() == 0,
            !r.read_global_ignore,
            r.read_vcsignore,
            r.require_git_to_read_vcsignore,
            !r.one_file_system,
            !r.follow_symlinks,
            !r.scan_hidden_files,
    {
        let excluded_extensions = owned(
            vec!["jpg", "png", "gif", "mp4", "avi", "mkv", "zip", "tar", "gz", "exe", "dll", "so"],
        );
        let excluded_directories = owned(
            vec!["node_modules", ".git", "target", ".vscode", ".idea", "build", "dist"],
        );
        ScannerConfig {
            mode: AnalysisMode::Full,
            min_severity: Severity::Low,
            max_file_size_mb: None,
            excluded_extensions,
            excluded_directories,
            excluded_files: Vec::new(),
            read_global_ignore: false,
            read_vcsignore: true,
            require_git_to_read_vcsignore: true,
            one_file_system: false,
            follow_symlinks: false,
            scan_hidden_files: false,
        }
    }
}

impl Default for DatabaseConfig {
    fn default() -> (r: Self)
        ensures
            r.path@.len() == 0,
            r.auto_cleanup_days == 30,
            r.max_db_size_mb == 1024,
            !r.vacuum_on_startup,
    {
        DatabaseConfig {
            path: String::new(),
            auto_cleanup_days: 30,
            max_db_size_mb: 1024,
            vacuum_on_startup: false,
        }
    }
}

impl Default for OutputConfig {
    fn default() -> (r: Self)
        ensures
            r.default_format@ == "console"@,
            !r.quiet,
            r.max_results is None,
    {
        OutputConfig { default_format: String::from_str("console"), quiet: false, max_results: None }
    }
}

impl Default for PerformanceConfig {
    fn default() -> (r: Self)
        ensures
            r.max_depth is None,
            r.min_depth is None,
            !r.prune,
            r.worker_threads is None,
            r.batch_size == 100,
            r.channel_multiplier == 4,
            r.rayon_thread_stack_size == 8 * 1024 * 1024,
            r.scan_timeout_secs is None,
            r.memory_limit_mb == 512,
    {
        PerformanceConfig {
            max_depth: None,
            min_depth: None,
            prune: false,
            worker_threads: None,
            batch_size: 100,
            channel_multiplier: 4,
            rayon_thread_stack_size: 8388608,
            scan_timeout_secs: None,
            memory_limit_mb: 512,
        }
    }
}

impl Default for Config {
    fn default() -> (r: Self)
        ensures
            r.scanner.mode == AnalysisMode::Full,
            r.scanner.min_severity == Severity::Low,
            texts(r.scanner.excluded_extensions@) == default_excluded_extensions(),
            texts(r.scanner.excluded_directories@) == default_excluded_directories(),
            r.scanner.max_file_size_mb is None,
            r.scanner.excluded_files@.len() == 0,
            !r.scanner.read_global_ignore,
            r.scanner.read_vcsignore,
            r.scanner.require_git_to_read_vcsignore,
            !r.scanner.one_file_system,
            !r.scanner.follow_symlinks,
            !r.scanner.scan_hidden_files,
            r.database.path@.len() == 0,
            r.database.auto_cleanup_days == 30,
            r.database.max_db_size_mb == 1024,
            !r.database.vacuum_on_startup,
            r.output.default_format@ == "console"@,
            !r.output.quiet,
            r.output.max_results is None,
            r.performance.max_depth is None,
            r.performance.min_depth is None,
            !r.performance.prune,
            r.performance.worker_threads is None,
            r.performance.batch_size == 100,
            r.performance.channel_multiplier == 4,
            r.performance.rayon_thread_stack_size == 8 * 1024 * 1024,
            r.performance.scan_timeout_secs is None,
            r.performance.memory_limit_mb == 512,
    {
        Config {
            scanner: ScannerConfig::default(),
            database: DatabaseConfig::default(),
            output: OutputConfig::default(),
            performance: PerformanceConfig::default(),
        }
    }
}

fn chained(a: Vec<String>, b: Vec<String>) -> (r: Vec<String>)
    ensures
        texts(r@) == texts(a@) + texts(b@),
{
    let mut r = a;
    let mut b = b;
    r.append(&mut b);
    r
}

/// Lays the user's configuration over the defaults. Every option is the
/// user's, but for the excluded extensions and directories, which are those
/// of both, in order and each once, and the excluded files, which stay the
/// defaults'.
pub fn merge_configs(default: Config, user: Config) -> (r: Config)
    ensures
        r.scanner.mode == user.scanner.mode,
        r.scanner.min_severity == user.scanner.min_severity,
        r.scanner.max_file_size_mb == user.scanner.max_file_size_mb,
        r.scanner.read_global_ignore == user.scanner.read_global_ignore,
        r.scanner.read_vcsignore == user.scanner.read_vcsignore,
        r.scanner.require_git_to_read_vcsignore == user.scanner.require_git_to_read_vcsignore,
        r.scanner.one_file_system == user.scanner.one_file_system,
        r.scanner.follow_symlinks == user.scanner.follow_symlinks,
        r.scanner.scan_hidden_files == user.scanner.scan_hidden_files,
        texts(r.scanner.excluded_extensions@) == sorted_names(
            texts(default.scanner.excluded_extensions@) + texts(user.scanner.excluded_extensions@),
        ),
        texts(r.scanner.excluded_directories@) == sorted_names(
            texts(default.scanner.excluded_directories@) + texts(
                user.scanner.excluded_directories@,
            ),
        ),
        texts(r.scanner.excluded_files@) == texts(default.scanner.excluded_files@),
        r.database.path@ == user.database.path@,
        r.database.auto_cleanup_days == user.database.auto_cleanup_days,
        r.database.max_db_size_mb == user.database.max_db_size_mb,
        r.database.vacuum_on_startup == user.database.vacuum_on_startup,
        r.output.default_format@ == user.output.default_format@,
        r.output.quiet == user.output.quiet,
        r.output.max_results == user.output.max_results,
        r.performance.max_depth == user.performance.max_depth,
        r.performance.min_depth == user.performance.min_depth,
        r.performance.prune == user.performance.prune,
        r.performance.worker_threads == user.performance.worker_threads,
        r.performance.batch_size == user.performance.batch_size,
        r.performance.channel_multiplier == user.performance.channel_multiplier,
        r.performance.rayon_thread_stack_size == user.performance.rayon_thread_stack_size,
        r.performance.scan_timeout_secs == user.performance.scan_timeout_secs,
        r.performance.memory_limit_mb == user.performance.memory_limit_mb,
{
    let Config { scanner: ds, database: _, output: _, performance: _ } = default;
    let Config { scanner: us, database, output, performance } = user;
    let extensions = chained(ds.excluded_extensions, us.excluded_extensions);
    let directories = chained(ds.excluded_directories, us.excluded_directories);
    Config {
        scanner: ScannerConfig {
            mode: us.mode,
            min_severity: us.min_severity,
            max_file_size_mb: us.max_file_size_mb,
            excluded_extensions: sort_dedup(&extensions),
            excluded_directories: sort_dedup(&directories),
            excluded_files: ds.excluded_files,
            read_global_ignore: us.read_global_ignore,
            read_vcsignore: us.read_vcsignore,
            require_git_to_read_vcsignore: us.require_git_to_read_vcsignore,
            one_file_system: us.one_file_system,
            follow_symlinks: us.follow_symlinks,
            scan_hidden_files: us.scan_hidden_files,
        },
        database,
        output,
        performance,
    }
}

} // verus!
