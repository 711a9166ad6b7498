//! The commands of the scanner and what each asks for.

use crate::config::{AnalysisMode, Config};
use crate::patterns::Severity;
use crate::text::str_eq;
use vstd::prelude::*;

verus! {

/// The command line as a whole.
#[derive(Debug)]
pub struct Cli {
    pub command: Commands,
}

/// What the scanner can be asked to do.
#[derive(Debug)]
pub enum Commands {
    /// Scan a project for vulnerabilities.
    Scan {
        /// The path to scan.
        path: String,
        /// Scan directly, without the index.
        no_index: bool,
        /// Rebuild the index before scanning.
        rebuild_index: bool,
        /// The output format.
        format: String,
        /// Report only issues of high severity.
        high_only: bool,
        /// Run only the structural patterns.
        ast_only: bool,
        /// Run only the taint analysis.
        cfg_only: bool,
        /// Run every analysis.
        all_targets: bool,
    },
    /// Manage the index of a project.
    Index { action: IndexAction },
    /// List all indexed projects.
    List {
        /// Show details of each.
        verbose: bool,
    },
    /// Remove a project from the index.
    Clean {
        /// The name of the project to clean.
        project: Option<String>,
        /// Clean all projects.
        all: bool,
    },
}

/// What can be done with the index of a project.
#[derive(Debug)]
pub enum IndexAction {
    /// Build or update the index of a project.
    Build {
        /// The path to index.
        path: String,
        /// Rebuild even where an index exists.
        force: bool,
    },
    /// Show the state of the index of a project.
    Status {
        /// The path of the project.
        path: String,
    },
}

/// The least severity that is reported after the flags of a scan were
/// applied.
pub open spec fn flagged_severity(before: Severity, high_only: bool) -> Severity {
    if high_only {
        Severity::High
    } else {
        before
    }
}

/// The mode after the flags of a scan were applied: of the flags that are
/// set, the last of `ast_only`, `cfg_only` and `all_targets` decides.
pub open spec fn flagged_mode(
    before: AnalysisMode,
    ast_only: bool,
    cfg_only: bool,
    all_targets: bool,
) -> AnalysisMode {
    if all_targets {
        AnalysisMode::Full
    } else if cfg_only {
        AnalysisMode::Taint
    } else if ast_only {
        AnalysisMode::Ast
    } else {
        before
    }
}

/// What is left to do for a command once it has been applied to the
/// configuration.
#[derive(Debug)]
pub enum Task {
    Scan { path: String, no_index: bool, rebuild_index: bool, format: String },
    Index { action: IndexAction },
    List { verbose: bool },
    Clean { project: Option<String>, all: bool },
}

/// Applies a command to the configuration and says what is left to do. Only
/// a scan changes the configuration, and of it only the least severity and
/// the mode, as the flags of the scan say.
pub fn handle_command(command: Commands, config: &mut Config) -> (task: Task)
    ensures
        match command {
            Commands::Scan {
                path,
                no_index,
                rebuild_index,
                format,
                high_only,
                ast_only,
                cfg_only,
                all_targets,
            } => {
                &&& task == (Task::Scan { path, no_index, rebuild_index, format })
                &&& final(config).scanner.min_severity == flagged_severity(
                    old(config).scanner.min_severity,
                    high_only,
                )
                &&& final(config).scanner.mode == flagged_mode(
                    old(config).scanner.mode,
                    ast_only,
                    cfg_only,
                    all_targets,
                )
                &&& final(config).scanner.max_file_size_mb == old(config).scanner.max_file_size_mb
                &&& final(config).scanner.excluded_extensions == old(config).scanner.excluded_extensions
                &&& final(config).scanner.excluded_directories == old(config).scanner.excluded_directories
                &&& final(config).scanner.excluded_files == old(config).scanner.excluded_files
                &&& final(config).database == old(config).database
                &&& final(config).output == old(config).output
                &&& final(config).performance == old(config).performance
            },
            Commands::Index { action } => task == (Task::Index { action }) && *final(config)
                == *old(config),
            Commands::List { verbose } => task == (Task::List { verbose }) && *final(config)
                == *old(config),
            Commands::Clean { project, all } => task == (Task::Clean { project, all }) && *final(config) == *old(config),
        },
{
    match command {
        Commands::Scan {
            path,
            no_index,
            rebuild_index,
            format,
            high_only,
            ast_only,
            cfg_only,
            all_targets,
        } => {
            if high_only {
                config.scanner.min_severity = Severity::High;
            }
            if ast_only {
                config.scanner.mode = AnalysisMode::Ast;
            }
            if cfg_only {
                config.scanner.mode = AnalysisMode::Taint;
            }
            if all_targets {
                config.scanner.mode = AnalysisMode::Full;
            }
            Task::Scan { path, no_index, rebuild_index, format }
        },
        Commands::Index { action } => Task::Index { action },
        Commands::List { verbose } => Task::List { verbose },
        Commands::Clean { project, all } => Task::Clean { project, all },
    }
}

/// Whether the index of a project is built: when that is asked for, and
/// when there is none.
pub fn must_build_index(asked: bool, exists: bool) -> (r: bool)
    ensures
        r == (asked || !exists),
{
    asked || !exists
}

/// Whether the diagnostics are printed to the console: when that format is
/// asked for, and when none is asked for and it is the usual one.
pub fn wants_console(format: &str, default_format: &str) -> (r: bool)
    ensures
        r == (format@ == "console"@ || (format@.len() == 0 && default_format@ == "console"@)),
{
    str_eq(format, "console") || (format.is_empty() && str_eq(default_format, "console"))
}

} // verus!
