//! One run from end to end: the record with its file digests, and the
//! file it is written to.

use crate::config::FastsaveConfig;
use crate::git::GitInfo;
use crate::hashing::{
    all_digests,
    any_unreadable,
    get_file_hashes,
    hashes_of,
    is_hash_failure,
    HashError,
    OutputEntry,
};
use crate::launch::{
    command_string_of,
    execute_script,
    is_resolution_error,
    resolved_program,
    text_of,
    ExecutionError,
    ProcessOutcome,
};
use crate::paths::{join_path, path_join};
use crate::record::{
    elapsed_ms,
    joined_lines,
    recorded_exit_code,
    Cli,
    ExecutionResult,
};
use crate::text::texts;
use vstd::prelude::*;

verus! {

/// Why a run that was started left no record.
#[derive(Debug, Clone, PartialEq, Eq)]
pub enum RunError {
    /// The run itself could not be recorded.
    Execution(ExecutionError),
    /// A file in the output directory could not be hashed.
    Hashing(HashError),
}

impl RunError {
    /// The one-line diagnostic for this error.
    pub open spec fn message_text(self) -> Seq<char> {
        match self {
            RunError::Execution(error) => error.message_text(),
            RunError::Hashing(error) => error.message_text(),
        }
    }

    /// The one-line diagnostic for this error.
    pub fn message(&self) -> (out: String)
        ensures
            out@ == self.message_text(),
    {
        match self {
            RunError::Execution(error) => error.message(),
            RunError::Hashing(error) => error.message(),
        }
    }
}

/// What is written at the end of a run, and where.
#[derive(Debug)]
pub struct RunRecord {
    /// The path of the file that holds the record.
    pub output_file: String,
    /// The record.
    pub result: ExecutionResult,
}

/// The name of the file that holds the record.
pub open spec fn result_file_name() -> Seq<char> {
    "fastsave.yaml"@
}

/// The interpreter override of an invocation, as text.
pub open spec fn override_of(cli: Cli) -> Option<Seq<char>> {
    match cli.interpreter {
        Some(program) => Some(program@),
        None => None,
    }
}

/// The path of the file that holds the record of a run, inside the run's
/// output directory.
pub fn result_file_path(output_dir: &str) -> (out: String)
    ensures
        out@ == path_join(output_dir@, result_file_name()),
{
    join_path(output_dir, "fastsave.yaml")
}

/// The record of the run that `cli` asked for, complete with the digests
/// of the files in the output directory, and the path of the file to
/// write it to.
///
/// `output_entries` are the immediate entries of the output directory as
/// they are once the process has ended and all of its output has been read.
/// A run that cannot be recorded fails as a whole: first for the reasons
/// for which [`execute_script`] fails, then if any file could not be read.
pub fn run_script(
    cli: &Cli,
    output_dir: &str,
    config: &FastsaveConfig,
    git_info: Option<GitInfo>,
    outcome: ProcessOutcome,
    output_entries: &Vec<OutputEntry>,
) -> (out: Result<RunRecord, RunError>)
    ensures
        match out {
            Ok(record) => {
                &&& record.output_file@ == path_join(output_dir@, result_file_name())
                &&& record.result.well_formed()
                &&& record.result.script_path@ == cli.script@
                &&& record.result.start_time == outcome.start_time
                &&& record.result.end_time == outcome.end_time
                &&& record.result.exit_code == recorded_exit_code(outcome.exit_code)
                &&& record.result.stdout@ == joined_lines(texts(outcome.stdout_lines@))
                &&& record.result.stderr@ == joined_lines(texts(outcome.stderr_lines@))
                &&& record.result.message == cli.message
                &&& record.result.git_info == git_info
                &&& !any_unreadable(output_entries@)
                &&& record.result.file_hashes@ == hashes_of(output_entries@)
                &&& all_digests(record.result.file_hashes@)
                &&& resolved_program(cli.script@, override_of(*cli), config@) is Some
                &&& record.result.command_string@ == command_string_of(
                    resolved_program(cli.script@, override_of(*cli), config@)->0,
                    cli.script@,
                )
            },
            Err(RunError::Execution(error)) => if resolved_program(
                cli.script@,
                override_of(*cli),
                config@,
            ) is None {
                is_resolution_error(cli.script@, error)
            } else if outcome.end_time.total_nanos() < outcome.start_time.total_nanos() {
                error is EndBeforeStart
            } else {
                error is TooLong && elapsed_ms(outcome.start_time, outcome.end_time) > u64::MAX
            },
            Err(RunError::Hashing(error)) => {
                &&& resolved_program(cli.script@, override_of(*cli), config@) is Some
                &&& outcome.start_time.total_nanos() <= outcome.end_time.total_nanos()
                &&& elapsed_ms(outcome.start_time, outcome.end_time) <= u64::MAX
                &&& any_unreadable(output_entries@)
                &&& is_hash_failure(output_entries@, error)
            },
        },
{
    let message = match &cli.message {
        Some(text) => Some(text.clone()),
        None => None,
    };
    let interpreter_override = match &cli.interpreter {
        Some(program) => Some(program),
        None => None,
    };
    assert(text_of(interpreter_override) == override_of(*cli));
    let executed = execute_script(
        cli.script.as_str(),
        message,
        interpreter_override,
        config,
        git_info,
        outcome,
    );
    let mut result = match executed {
        Ok(result) => result,
        Err(error) => {
            return Err(RunError::Execution(error));
        },
    };
    let hashes = match get_file_hashes(output_entries) {
        Ok(hashes) => hashes,
        Err(error) => {
            return Err(RunError::Hashing(error));
        },
    };
    result.file_hashes = hashes;
    Ok(RunRecord { output_file: result_file_path(output_dir), result })
}

} // verus!
