//! From a script to the command that runs it, and from what the command
//! did to the record of the run.
//!
//! Starting the process and reading its output is the caller's part. The
//! caller asks [`plan_launch`] what to start, starts it, and hands what
//! happened to [`execute_script`].

use crate::config::{extension_key, FastsaveConfig};
use crate::git::GitInfo;
use crate::paths::{extension_of, path_extension};
use crate::record::{
    elapsed_millis,
    elapsed_ms,
    exit_code_or_sentinel,
    join_lines,
    joined_lines,
    recorded_exit_code,
    ExecutionResult,
    Timestamp,
    TimingError,
};
use crate::string_map::StringMap;
use crate::text::{lowercase, same_text, texts, to_lowercase};
use vstd::prelude::*;
use vstd::string::StringExecFns;

verus! {

/// Why a script was not run, or why its run left no record.
#[derive(Debug, Clone, PartialEq, Eq)]
pub enum ExecutionError {
    /// The script's path has no file extension.
    NoExtension,
    /// No interpreter is known for the script's extension.
    UnsupportedScriptType { extension: String },
    /// The clock read an end before the start.
    EndBeforeStart,
    /// The run took more milliseconds than fit 64 bits.
    TooLong,
}

impl ExecutionError {
    /// The one-line diagnostic for this error.
    pub open spec fn message_text(self) -> Seq<char> {
        match self {
            ExecutionError::NoExtension => "Unable to determine script type: no file extension"@,
            ExecutionError::UnsupportedScriptType { extension } => "Unsupported script type: "@
                + extension@,
            ExecutionError::EndBeforeStart => "The run ended before it started: the clock was set back"@,
            ExecutionError::TooLong => "The run took longer than can be recorded"@,
        }
    }

    /// The one-line diagnostic for this error.
    pub fn message(&self) -> (out: String)
        ensures
            out@ == self.message_text(),
    {
        match self {
            ExecutionError::NoExtension => String::from_str(
                "Unable to determine script type: no file extension",
            ),
            ExecutionError::UnsupportedScriptType { extension } => {
                let mut out = String::from_str("Unsupported script type: ");
                out.append(extension.as_str());
                out
            },
            ExecutionError::EndBeforeStart => String::from_str(
                "The run ended before it started: the clock was set back",
            ),
            ExecutionError::TooLong => String::from_str("The run took longer than can be recorded"),
        }
    }
}

/// The interpreter that is built in for an extension in lower case.
pub open spec fn builtin_interpreter(key: Seq<char>) -> Option<Seq<char>> {
    if key == "py"@ {
        Some("python3"@)
    } else if key == "sh"@ {
        Some("sh"@)
    } else if key == "jl"@ {
        Some("julia"@)
    } else if key == "m"@ {
        Some("matlab"@)
    } else {
        None
    }
}

/// The interpreter for a script of the given extension: the caller's
/// override; else what the configuration maps the extension to; else the
/// built-in default; else none.
pub open spec fn interpreter_for(
    extension: Seq<char>,
    interpreter_override: Option<Seq<char>>,
    config: Map<Seq<char>, Seq<char>>,
) -> Option<Seq<char>> {
    match interpreter_override {
        Some(program) => Some(program),
        None => if config.dom().contains(extension_key(extension)) {
            Some(config[extension_key(extension)])
        } else {
            builtin_interpreter(lowercase(extension))
        },
    }
}

/// The built-in defaults one by one: `py` runs under `python3`, `sh` under
/// `sh`, `jl` under `julia` and `m` under `matlab`.
pub proof fn lemma_builtin_defaults()
    ensures
        builtin_interpreter("py"@) == Some("python3"@),
        builtin_interpreter("sh"@) == Some("sh"@),
        builtin_interpreter("jl"@) == Some("julia"@),
        builtin_interpreter("m"@) == Some("matlab"@),
{
    reveal_strlit("py");
    reveal_strlit("sh");
    reveal_strlit("jl");
    reveal_strlit("m");
    assert("py"@[0] == 'p' && "sh"@[0] == 's' && "jl"@[0] == 'j');
    assert("py"@.len() == 2 && "sh"@.len() == 2 && "jl"@.len() == 2 && "m"@.len() == 1);
}

/// With no override and no entry in the configuration, a script whose
/// extension is one of the four built-in ones, in any case, runs under
/// the built-in interpreter, and the recorded command is that
/// interpreter, a space and the script's path.
pub proof fn lemma_default_command(
    extension: Seq<char>,
    script_path: Seq<char>,
    config: Map<Seq<char>, Seq<char>>,
)
    requires
        !config.dom().contains(extension_key(extension)),
        builtin_interpreter(lowercase(extension)) is Some,
    ensures
        interpreter_for(extension, None, config) == builtin_interpreter(lowercase(extension)),
        command_string_of(interpreter_for(extension, None, config)->0, script_path)
            == builtin_interpreter(lowercase(extension))->0 + seq![' '] + script_path,
{
}

/// The order in which an interpreter is picked: an override beats the
/// configuration, whatever the configuration holds; an entry of the
/// configuration beats the built-in default; and without any of the three
/// there is no interpreter.
pub proof fn lemma_interpreter_precedence(
    extension: Seq<char>,
    interpreter_override: Option<Seq<char>>,
    config: Map<Seq<char>, Seq<char>>,
)
    ensures
        interpreter_override is Some ==> interpreter_for(extension, interpreter_override, config)
            == interpreter_override,
        interpreter_override is None && config.dom().contains(extension_key(extension))
            ==> interpreter_for(extension, interpreter_override, config) == Some(
            config[extension_key(extension)],
        ),
        interpreter_override is None && !config.dom().contains(extension_key(extension))
            ==> interpreter_for(extension, interpreter_override, config) == builtin_interpreter(
            lowercase(extension),
        ),
        interpreter_for(extension, interpreter_override, config) is None <==> (interpreter_override
            is None && !config.dom().contains(extension_key(extension)) && builtin_interpreter(
            lowercase(extension),
        ) is None),
{
}

/// The recorded command begins with the interpreter and a space.
pub proof fn lemma_command_begins_with_interpreter(program: Seq<char>, script_path: Seq<char>)
    ensures
        (program + seq![' ']).is_prefix_of(command_string_of(program, script_path)),
{
    let head = program + seq![' '];
    let whole = command_string_of(program, script_path);
    assert(whole.subrange(0, head.len() as int) =~= head);
}

/// The command as it is recorded: interpreter, a space, the script's path.
pub open spec fn command_string_of(program: Seq<char>, script_path: Seq<char>) -> Seq<char> {
    program + seq![' '] + script_path
}

/// The arguments that the interpreter is started with: the script's path,
/// the flag that carries the output directory, the output directory, and
/// then the caller's own arguments as they were given.
pub open spec fn child_arguments_of(
    script_path: Seq<char>,
    output_dir: Seq<char>,
    script_args: Seq<Seq<char>>,
) -> Seq<Seq<char>> {
    seq![script_path, "--output_dir"@, output_dir] + script_args
}

/// The text of an optional string.
pub open spec fn text_of(s: Option<&String>) -> Option<Seq<char>> {
    match s {
        Some(t) => Some(t@),
        None => None,
    }
}

/// The built-in interpreter for an extension, which must be in lower case.
pub fn default_interpreter(key: &str) -> (out: Option<String>)
    ensures
        match out {
            Some(program) => builtin_interpreter(key@) == Some(program@),
            None => builtin_interpreter(key@) is None,
        },
{
    if same_text(key, "py") {
        Some(String::from_str("python3"))
    } else if same_text(key, "sh") {
        Some(String::from_str("sh"))
    } else if same_text(key, "jl") {
        Some(String::from_str("julia"))
    } else if same_text(key, "m") {
        Some(String::from_str("matlab"))
    } else {
        None
    }
}

/// The interpreter for a script whose extension is `extension`, or the
/// error that names the extension where none is known. The configuration
/// is consulted only where there is no override.
pub fn resolve_for_extension(
    extension: &str,
    interpreter_override: Option<&String>,
    config: &FastsaveConfig,
) -> (out: Result<String, ExecutionError>)
    ensures
        match interpreter_for(extension@, text_of(interpreter_override), config@) {
            Some(program) => out is Ok && out->Ok_0@ == program,
            None => out matches Err(ExecutionError::UnsupportedScriptType { extension: named })
                && named@ == extension@,
        },
{
    match interpreter_override {
        Some(program) => Ok(program.clone()),
        None => match config.get_interpreter(extension) {
            Some(program) => Ok(program.clone()),
            None => {
                let key = to_lowercase(extension);
                match default_interpreter(key.as_str()) {
                    Some(program) => Ok(program),
                    None => Err(
                        ExecutionError::UnsupportedScriptType {
                            extension: String::from_str(extension),
                        },
                    ),
                }
            },
        },
    }
}

/// The interpreter for the script at `script_path`. A path without an
/// extension fails at once, whatever the override says.
pub fn resolve_interpreter(
    script_path: &str,
    interpreter_override: Option<&String>,
    config: &FastsaveConfig,
) -> (out: Result<String, ExecutionError>)
    ensures
        match path_extension(script_path@) {
            None => out matches Err(ExecutionError::NoExtension),
            Some(extension) => match interpreter_for(
                extension,
                text_of(interpreter_override),
                config@,
            ) {
                Some(program) => out is Ok && out->Ok_0@ == program,
                None => out matches Err(ExecutionError::UnsupportedScriptType { extension: named })
                    && named@ == extension,
            },
        },
{
    match extension_of(script_path) {
        None => Err(ExecutionError::NoExtension),
        Some(extension) => resolve_for_extension(
            extension.as_str(),
            interpreter_override,
            config,
        ),
    }
}

/// The command as it is recorded for audit.
pub fn command_string(program: &str, script_path: &str) -> (out: String)
    ensures
        out@ == command_string_of(program@, script_path@),
{
    let mut out = String::from_str(program);
    proof {
        reveal_strlit(" ");
        assert(" "@ =~= seq![' ']);
    }
    out.append(" ");
    out.append(script_path);
    out
}

/// The arguments that the interpreter is started with.
pub fn child_arguments(script_path: &str, output_dir: &str, script_args: &Vec<String>) -> (out: Vec<
    String,
>)
    ensures
        texts(out@) == child_arguments_of(script_path@, output_dir@, texts(script_args@)),
{
    let mut out: Vec<String> = Vec::new();
    out.push(String::from_str(script_path));
    out.push(String::from_str("--output_dir"));
    out.push(String::from_str(output_dir));
    let ghost head = texts(out@);
    assert(head =~= seq![script_path@, "--output_dir"@, output_dir@]);
    let mut i: usize = 0;
    while i < script_args.len()
        invariant
            i <= script_args.len(),
            texts(out@) == head + texts(script_args@).take(i as int),
        decreases script_args.len() - i,
    {
        let ghost before = texts(out@);
        out.push(script_args[i].clone());
        assert(texts(out@) =~= before.push(script_args@[i as int]@));
        assert(texts(script_args@).take(i + 1) =~= texts(script_args@).take(i as int).push(
            script_args@[i as int]@,
        ));
        i += 1;
    }
    assert(texts(script_args@).take(script_args.len() as int) =~= texts(script_args@));
    out
}

/// What to start for a script.
#[derive(Debug, Clone, PartialEq, Eq)]
pub struct LaunchPlan {
    /// The interpreter.
    pub program: String,
    /// Its arguments, in order.
    pub arguments: Vec<String>,
    /// The command as it is recorded.
    pub command_string: String,
}

/// What starting the interpreter led to.
#[derive(Debug, Clone)]
pub struct ProcessOutcome {
    /// The time just before the process was started.
    pub start_time: Timestamp,
    /// The time after the process had ended and both of its output
    /// streams had been read to their end.
    pub end_time: Timestamp,
    /// The exit code; `None` where the process ended without one, as one
    /// that a signal killed.
    pub exit_code: Option<i32>,
    /// The lines of standard output, without their line endings.
    pub stdout_lines: Vec<String>,
    /// The lines of standard error, without their line endings.
    pub stderr_lines: Vec<String>,
}

/// The interpreter for the script at `script_path`, if the path has an
/// extension and an interpreter is known for it.
pub open spec fn resolved_program(
    script_path: Seq<char>,
    interpreter_override: Option<Seq<char>>,
    config: Map<Seq<char>, Seq<char>>,
) -> Option<Seq<char>> {
    match path_extension(script_path) {
        Some(extension) => interpreter_for(extension, interpreter_override, config),
        None => None,
    }
}

/// Whether `error` is the one that a script without a known interpreter
/// fails with: the missing extension, or else the unsupported extension
/// by its name.
pub open spec fn is_resolution_error(script_path: Seq<char>, error: ExecutionError) -> bool {
    match path_extension(script_path) {
        None => error is NoExtension,
        Some(extension) => error matches ExecutionError::UnsupportedScriptType { extension: named }
            && named@ == extension,
    }
}

/// What to start for the script at `script_path`. Fails, before anything
/// is started or written, exactly if no interpreter is known for the script.
pub fn plan_launch(
    script_path: &str,
    output_dir: &str,
    script_args: &Vec<String>,
    interpreter_override: Option<&String>,
    config: &FastsaveConfig,
) -> (out: Result<LaunchPlan, ExecutionError>)
    ensures
        match out {
            Ok(plan) => {
                &&& resolved_program(script_path@, text_of(interpreter_override), config@) == Some(
                    plan.program@,
                )
                &&& texts(plan.arguments@) == child_arguments_of(
                    script_path@,
                    output_dir@,
                    texts(script_args@),
                )
                &&& plan.command_string@ == command_string_of(plan.program@, script_path@)
            },
            Err(error) => {
                &&& resolved_program(script_path@, text_of(interpreter_override), config@) is None
                &&& is_resolution_error(script_path@, error)
            },
        },
{
    match resolve_interpreter(script_path, interpreter_override, config) {
        Ok(program) => {
            let arguments = child_arguments(script_path, output_dir, script_args);
            let command_string = command_string(program.as_str(), script_path);
            Ok(LaunchPlan { program, arguments, command_string })
        },
        Err(error) => Err(error),
    }
}

/// The record of a run of the script at `script_path`, from what starting
/// it led to. The record holds no file digests yet.
///
/// Fails as [`plan_launch`] does where no interpreter is known for the
/// script; otherwise fails exactly if the end lies before the start or
/// the duration does not fit.
pub fn execute_script(
    script_path: &str,
    message: Option<String>,
    interpreter_override: Option<&String>,
    config: &FastsaveConfig,
    git_info: Option<GitInfo>,
    outcome: ProcessOutcome,
) -> (out: Result<ExecutionResult, ExecutionError>)
    ensures
        match out {
            Ok(result) => {
                &&& result.well_formed()
                &&& result.script_path@ == script_path@
                &&& result.start_time == outcome.start_time
                &&& result.end_time == outcome.end_time
                &&& result.exit_code == recorded_exit_code(outcome.exit_code)
                &&& result.stdout@ == joined_lines(texts(outcome.stdout_lines@))
                &&& result.stderr@ == joined_lines(texts(outcome.stderr_lines@))
                &&& result.message == message
                &&& result.git_info == git_info
                &&& result.file_hashes@ == Map::<Seq<char>, Seq<char>>::empty()
                &&& resolved_program(script_path@, text_of(interpreter_override), config@) is Some
                &&& result.command_string@ == command_string_of(
                    resolved_program(script_path@, text_of(interpreter_override), config@)->0,
                    script_path@,
                )
            },
            Err(error) => if resolved_program(
                script_path@,
                text_of(interpreter_override),
                config@,
            ) is None {
                is_resolution_error(script_path@, error)
            } else if outcome.end_time.total_nanos() < outcome.start_time.total_nanos() {
                error is EndBeforeStart
            } else {
                error is TooLong && elapsed_ms(outcome.start_time, outcome.end_time) > u64::MAX
            },
        },
{
    let program = match resolve_interpreter(script_path, interpreter_override, config) {
        Ok(program) => program,
        Err(error) => {
            return Err(error);
        },
    };
    let command_string = command_string(program.as_str(), script_path);
    let duration_ms = match elapsed_millis(&outcome.start_time, &outcome.end_time) {
        Ok(ms) => ms,
        Err(TimingError::EndBeforeStart) => {
            return Err(ExecutionError::EndBeforeStart);
        },
        Err(TimingError::TooLong) => {
            return Err(ExecutionError::TooLong);
        },
    };
    let stdout = join_lines(&outcome.stdout_lines);
    let stderr = join_lines(&outcome.stderr_lines);
    Ok(
        ExecutionResult {
            script_path: String::from_str(script_path),
            start_time: outcome.start_time,
            end_time: outcome.end_time,
            duration_ms,
            exit_code: exit_code_or_sentinel(outcome.exit_code),
            stdout,
            stderr,
            message,
            git_info,
            file_hashes: StringMap::new(),
            command_string,
        },
    )
}

} // verus!
