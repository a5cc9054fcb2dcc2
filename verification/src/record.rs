//! The record of one run, and the invocation it came from.

use crate::git::GitInfo;
use crate::string_map::StringMap;
use crate::text::{chars_of, push_all, string_of, texts};
use vstd::prelude::*;

verus! {

/// What the caller asked for on the command line.
#[derive(Debug, Clone, PartialEq, Eq)]
pub struct Cli {
    /// Path to the script to execute.
    pub script: String,
    /// Archive directory path.
    pub archive_dir: String,
    /// Optional message to include in the results.
    pub message: Option<String>,
    /// Use the archive directory itself, without a subfolder per run.
    pub no_subfolder: bool,
    /// Additional arguments to pass to the script.
    pub script_args: Vec<String>,
    /// Override the interpreter for the script.
    pub interpreter: Option<String>,
    /// Override the config file path.
    pub config_path: Option<String>,
}

/// A point in time: whole seconds since the Unix epoch, which may be
/// negative, and the nanoseconds into that second.
#[derive(Debug, Clone, Copy, PartialEq, Eq)]
pub struct Timestamp {
    secs: i64,
    nanos: u32,
}

impl Timestamp {
    #[verifier::type_invariant]
    closed spec fn in_range(&self) -> bool {
        self.nanos < 1_000_000_000
    }

    /// Seconds since the Unix epoch.
    pub closed spec fn spec_secs(&self) -> int {
        self.secs as int
    }

    /// Nanoseconds into the second.
    pub closed spec fn spec_nanos(&self) -> int {
        self.nanos as int
    }

    /// Nanoseconds since the Unix epoch.
    pub open spec fn total_nanos(&self) -> int {
        self.spec_secs() * 1_000_000_000 + self.spec_nanos()
    }

    /// The point in time `nanos` nanoseconds after second `secs`; `None`
    /// where `nanos` does not lie within one second.
    pub fn new(secs: i64, nanos: u32) -> (out: Option<Timestamp>)
        ensures
            out is Some <==> nanos < 1_000_000_000,
            out is Some ==> out->0.spec_secs() == secs && out->0.spec_nanos() == nanos,
    {
        if nanos < 1_000_000_000 {
            Some(Timestamp { secs, nanos })
        } else {
            None
        }
    }

    /// Seconds since the Unix epoch.
    pub fn secs(&self) -> (out: i64)
        ensures
            out == self.spec_secs(),
    {
        self.secs
    }

    /// Nanoseconds into the second, below one thousand million.
    pub fn nanos(&self) -> (out: u32)
        ensures
            out == self.spec_nanos(),
            out < 1_000_000_000,
    {
        proof {
            use_type_invariant(self);
        }
        self.nanos
    }
}

/// Why no duration could be recorded.
#[derive(Debug, PartialEq, Eq)]
pub enum TimingError {
    /// The end lies before the start.
    EndBeforeStart,
    /// The duration in milliseconds does not fit 64 bits.
    TooLong,
}

/// The whole milliseconds from `start` to `end`, for `end` not before `start`.
pub open spec fn elapsed_ms(start: Timestamp, end: Timestamp) -> int {
    (end.total_nanos() - start.total_nanos()) / 1_000_000
}

/// The whole milliseconds that passed from `start` to `end`. Fails if
/// `end` lies before `start`, or if the number does not fit 64 bits.
pub fn elapsed_millis(start: &Timestamp, end: &Timestamp) -> (out: Result<u64, TimingError>)
    ensures
        match out {
            Ok(ms) => {
                &&& start.total_nanos() <= end.total_nanos()
                &&& ms == elapsed_ms(*start, *end)
                &&& ms * 1_000_000 <= end.total_nanos() - start.total_nanos() < (ms + 1) * 1_000_000
            },
            Err(TimingError::EndBeforeStart) => end.total_nanos() < start.total_nanos(),
            Err(TimingError::TooLong) => start.total_nanos() <= end.total_nanos() && elapsed_ms(
                *start,
                *end,
            ) > u64::MAX,
        },
{
    proof {
        use_type_invariant(start);
        use_type_invariant(end);
    }
    let from: i128 = (start.secs as i128) * 1_000_000_000 + (start.nanos as i128);
    let to: i128 = (end.secs as i128) * 1_000_000_000 + (end.nanos as i128);
    if to < from {
        return Err(TimingError::EndBeforeStart);
    }
    let ms: i128 = (to - from) / 1_000_000;
    if ms > 0xffff_ffff_ffff_ffff {
        return Err(TimingError::TooLong);
    }
    Ok(ms as u64)
}

/// The exit code to record: the code that the process gave, or -1 where
/// it ended without one.
pub open spec fn recorded_exit_code(code: Option<i32>) -> i32 {
    match code {
        Some(c) => c,
        None => -1i32,
    }
}

/// The exit code to record for a process that ended with `code`.
pub fn exit_code_or_sentinel(code: Option<i32>) -> (out: i32)
    ensures
        out == recorded_exit_code(code),
{
    match code {
        Some(c) => c,
        None => -1,
    }
}

/// The text made of the given lines, each followed by a line feed.
pub open spec fn joined_lines(lines: Seq<Seq<char>>) -> Seq<char>
    decreases lines.len(),
{
    if lines.len() == 0 {
        Seq::empty()
    } else {
        joined_lines(lines.drop_last()) + lines.last() + seq!['\n']
    }
}

/// The captured text of a stream that was read line by line.
pub fn join_lines(lines: &Vec<String>) -> (out: String)
    ensures
        out@ == joined_lines(texts(lines@)),
{
    let mut all: Vec<char> = Vec::new();
    let mut i: usize = 0;
    let ghost list = texts(lines@);
    while i < lines.len()
        invariant
            i <= lines.len(),
            list == texts(lines@),
            all@ == joined_lines(list.take(i as int)),
        decreases lines.len() - i,
    {
        assert(list.take(i + 1).drop_last() =~= list.take(i as int));
        let line = chars_of(lines[i].as_str());
        push_all(&mut all, &line);
        all.push('\n');
        assert(all@ =~= joined_lines(list.take(i as int)) + list[i as int] + seq!['\n']);
        i += 1;
    }
    assert(list.take(lines.len() as int) =~= list);
    string_of(&all)
}

/// The single persisted record of a run.
#[derive(Debug)]
pub struct ExecutionResult {
    /// The invoked script's path as given.
    pub script_path: String,
    /// When the child process was about to start.
    pub start_time: Timestamp,
    /// When the child process and its output had ended.
    pub end_time: Timestamp,
    /// The whole milliseconds from `start_time` to `end_time`.
    pub duration_ms: u64,
    /// The exit code, or -1 where the process ended without one.
    pub exit_code: i32,
    /// The full captured text of standard output.
    pub stdout: String,
    /// The full captured text of standard error.
    pub stderr: String,
    /// The caller's annotation.
    pub message: Option<String>,
    /// The repository snapshot, present exactly if a repository was found.
    pub git_info: Option<GitInfo>,
    /// The digest of each file in the output directory, by file name.
    pub file_hashes: StringMap,
    /// The resolved invocation: interpreter and script path.
    pub command_string: String,
}

impl ExecutionResult {
    /// The end is not before the start, and the duration is the whole
    /// milliseconds between them.
    pub open spec fn well_formed(&self) -> bool {
        &&& self.start_time.total_nanos() <= self.end_time.total_nanos()
        &&& self.duration_ms == elapsed_ms(self.start_time, self.end_time)
    }
}

} // verus!
