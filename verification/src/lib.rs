//! A reproducibility wrapper's core: where a run is archived, what is
//! recorded of it, and how the record is put together.
//!
//! The library computes on plain values. Whoever uses it reads the disk,
//! starts the script and writes the record.

pub mod config;
pub mod decimal;
pub mod git;
pub mod hashing;
pub mod launch;
pub mod lines;
pub mod naming;
pub mod numbering;
pub mod paths;
pub mod record;
pub mod run;
pub mod string_map;
pub mod text;

pub use config::{candidate_paths, FastsaveConfig};
pub use git::{find_git_root, get_git_info, Ancestor, GitInfo, GitQueries};
pub use hashing::{calculate_file_hash, get_file_hashes, EntryKind, HashError, OutputEntry};
pub use launch::{execute_script, plan_launch, ExecutionError, LaunchPlan, ProcessOutcome};
pub use naming::{
    create_run_dir, get_next_run_number, get_output_dir, get_script_basename, NamingError,
};
pub use record::{Cli, ExecutionResult, Timestamp, TimingError};
pub use run::{run_script, RunError, RunRecord};
pub use string_map::StringMap;
