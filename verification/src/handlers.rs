//! What each kind of step does to a run: variables, asset groups, secrets,
//! scans, scripts and reports. A step either ends with an outcome or asks the
//! host for something and ends when the answer comes.

use crate::artifact::{
    asset_group_json, scan_json, script_json, tool_run_json, ArtifactKind, ArtifactView,
    AssetGroupArtifact, AssetGroupView, ScriptArtifact, ScriptView, StoredArtifact,
};
use crate::assoc::{inserted, lookup};
use crate::command::{
    artifact_file, artifact_path, code_chars, code_text, get, lossy_text, shell_error_text,
    shell_words_of, split_command, truncate_output, truncated, utf8_lossy,
};
use crate::execution::{ExecutionStatus, StepExecution, StepKind};
use crate::expression::{literal_text, Literal, LiteralValue};
use crate::json::{json_pretty, pretty_text, Json, JsonView};
use crate::machine::{
    failure, finished, plain, waiting, with_used, Action, ActionView, Event, EventView, Outcome,
    Pending, PendingView, ProcessView, Run, RunView, StepOutcome, unexpected,
};
use crate::nmap::{nmap_scan, parse_nmap_xml};
use crate::resolve::{resolve_literal_value, resolve_map, resolved_literal, resolved_table, Scope};
use crate::scenario::{
    copy_option, copy_table, ScanStep, ScriptStep, SecretOrigin, SecretSource, SecretStep,
};
use crate::secrets::{kept_or_inserted, SecretsView};
use crate::text::{
    append, append_str, chars_of, decimal, decimal_text, same_str, string_of, trim, trimmed,
};
use vstd::prelude::*;

verus! {

/// What a placeholder can stand for in a run.
pub open spec fn scope(state: RunView) -> Scope {
    Scope { variables: state.variables, secrets: state.secrets.values }
}

/// The run with other secret values.
pub open spec fn with_secrets(state: RunView, values: Seq<(Seq<char>, Seq<char>)>) -> RunView {
    RunView { secrets: SecretsView { values, ..state.secrets }, ..state }
}

// ---------------------------------------------------------------------------
// Variables
// ---------------------------------------------------------------------------

/// A variable is declared: the override of its name, if there is one, else
/// its literal, is resolved and bound to the name.
pub open spec fn variable_step(state: RunView, name: Seq<char>, value: Literal) -> (
    RunView,
    ActionView,
) {
    let found = lookup(state.overrides, name);
    let r = resolved_literal(
        match found {
            Some(o) => o,
            None => value,
        },
        scope(state),
        state.secrets.usage,
    );
    let next = with_used(state, r.used);
    match r.outcome {
        Err(e) => finished(
            next,
            failure(
                name,
                StepKind::Variable,
                (if found is Some {
                    "failed to resolve override: "@
                } else {
                    "failed to resolve variables: "@
                }) + e,
            ),
        ),
        Ok(v) => finished(
            RunView { variables: inserted(state.variables, name, v), ..next },
            plain(
                name,
                StepKind::Variable,
                ExecutionStatus::Completed,
                name + " = "@ + literal_text(v) + (if found is Some {
                    " (override)"@
                } else {
                    Seq::empty()
                }),
            ),
        ),
    }
}

// ---------------------------------------------------------------------------
// Asset groups
// ---------------------------------------------------------------------------

/// The name under which an asset group is stored.
pub open spec fn asset_group_label(name: Seq<char>) -> Seq<char> {
    "asset_group:"@ + name
}

/// An asset group is declared: its properties are resolved and stored.
pub open spec fn asset_group_step(
    state: RunView,
    name: Seq<char>,
    properties: Seq<(Seq<char>, Seq<char>)>,
) -> (RunView, ActionView) {
    let r = resolved_table(properties, 0, scope(state), state.secrets.usage, Seq::empty());
    let next = with_used(state, r.used);
    match r.outcome {
        Err(e) => finished(
            next,
            failure(name, StepKind::AssetGroup, "failed to resolve variables: "@ + e),
        ),
        Ok(resolved) => finished(
            next,
            Outcome {
                artifact: Some(
                    ArtifactView {
                        name: asset_group_label(name),
                        kind: ArtifactKind::AssetGroup,
                        path: None,
                        data: asset_group_json(AssetGroupView { name, properties: resolved }),
                    },
                ),
                ..plain(
                    name,
                    StepKind::AssetGroup,
                    ExecutionStatus::Skipped,
                    "stored asset group definition"@,
                )
            },
        ),
    }
}

// ---------------------------------------------------------------------------
// Secrets
// ---------------------------------------------------------------------------

/// The key of one value of a secret.
pub open spec fn scoped_key(name: Seq<char>, alias: Seq<char>) -> Seq<char> {
    name + "."@ + alias
}

/// The message of a secret that was loaded from the environment.
pub open spec fn env_loaded(name: Seq<char>, count: nat) -> Seq<char> {
    if count == 1 {
        "secret '"@ + name + "' loaded from env (1 value)"@
    } else {
        "secret '"@ + name + "' loaded from env ("@ + decimal(count) + " values)"@
    }
}

/// The mappings of a secret from index `index` on: a value that the store
/// holds under the scoped key is taken from there; for the first one that it
/// does not hold, the host is asked. When all are done, a secret of one value
/// is stored under its bare name too, unless that holds a value.
pub open spec fn env_progress(
    state: RunView,
    name: Seq<char>,
    mappings: Seq<(Seq<char>, Seq<char>)>,
    index: int,
    aggregated: Seq<(Seq<char>, Seq<char>)>,
) -> (RunView, ActionView)
    decreases mappings.len() - index,
{
    if index < 0 || index >= mappings.len() {
        finished(
            if aggregated.len() == 1 {
                with_secrets(state, kept_or_inserted(state.secrets.values, name, aggregated[0].1))
            } else {
                state
            },
            plain(
                name,
                StepKind::Secret,
                ExecutionStatus::Completed,
                env_loaded(name, aggregated.len()),
            ),
        )
    } else {
        match lookup(state.secrets.values, scoped_key(name, mappings[index].0)) {
            Some(existing) => env_progress(
                state,
                name,
                mappings,
                index + 1,
                inserted(aggregated, mappings[index].0, existing),
            ),
            None => waiting(
                state,
                PendingView::Env { name, mappings, index, aggregated },
                ActionView::ReadEnv { name: mappings[index].1 },
            ),
        }
    }
}

/// The answer to the question for an environment variable.
pub open spec fn env_answer(event: EventView) -> Result<Seq<char>, Seq<char>> {
    match event {
        EventView::Env(r) => r,
        _ => Err(unexpected()),
    }
}

/// The value of an environment variable has come, or has not.
pub open spec fn env_event(
    state: RunView,
    name: Seq<char>,
    mappings: Seq<(Seq<char>, Seq<char>)>,
    index: int,
    aggregated: Seq<(Seq<char>, Seq<char>)>,
    event: EventView,
) -> (RunView, ActionView) {
    if index < 0 || index >= mappings.len() {
        env_progress(state, name, mappings, index, aggregated)
    } else {
        match env_answer(event) {
            Err(e) => finished(
                state,
                failure(
                    name,
                    StepKind::Secret,
                    "failed to read environment variable "@ + mappings[index].1 + ": "@ + e,
                ),
            ),
            Ok(value) => env_progress(
                with_secrets(
                    state,
                    kept_or_inserted(
                        state.secrets.values,
                        scoped_key(name, mappings[index].0),
                        value,
                    ),
                ),
                name,
                mappings,
                index + 1,
                inserted(aggregated, mappings[index].0, value),
            ),
        }
    }
}

/// The answer to the question for a file.
pub open spec fn file_answer(event: EventView) -> Result<Seq<char>, Seq<char>> {
    match event {
        EventView::File(r) => r,
        _ => Err(unexpected()),
    }
}

/// The content of a secret's file has come, or has not.
pub open spec fn file_event(state: RunView, name: Seq<char>, path: Seq<char>, event: EventView)
    -> (RunView, ActionView) {
    match file_answer(event) {
        Ok(contents) => finished(
            with_secrets(state, kept_or_inserted(state.secrets.values, name, contents)),
            plain(
                name,
                StepKind::Secret,
                ExecutionStatus::Completed,
                "secret '"@ + name + "' loaded from file"@,
            ),
        ),
        Err(e) => finished(
            state,
            failure(name, StepKind::Secret, "failed to read file "@ + path + ": "@ + e),
        ),
    }
}

/// A secret is declared.
pub open spec fn secret_step(state: RunView, name: Seq<char>, source: SecretOrigin) -> (
    RunView,
    ActionView,
) {
    match source {
        SecretOrigin::Env { mappings } => env_progress(state, name, mappings, 0, Seq::empty()),
        SecretOrigin::File { path } => waiting(
            state,
            PendingView::File { name, path },
            ActionView::ReadFile { path },
        ),
        SecretOrigin::Vault { path } => finished(
            state,
            plain(
                name,
                StepKind::Secret,
                ExecutionStatus::NotImplemented,
                "vault provider is not implemented yet"@,
            ),
        ),
    }
}

// ---------------------------------------------------------------------------
// Writing artifacts
// ---------------------------------------------------------------------------

/// The host is asked to write an artifact as indented JSON; the step ends
/// when the answer comes, and does not fail where the file was not written.
pub open spec fn write_artifact(
    state: RunView,
    name: Seq<char>,
    kind: StepKind,
    status: ExecutionStatus,
    prefix: Seq<char>,
    label: Seq<char>,
    artifact_kind: ArtifactKind,
    data: JsonView,
    print: Option<Seq<char>>,
) -> (RunView, ActionView) {
    let path = artifact_path(state.directory, label);
    waiting(
        state,
        PendingView::Write {
            name,
            kind,
            status,
            prefix,
            artifact: ArtifactView { name: label, kind: artifact_kind, path: Some(path), data },
            strict: false,
            extension: Seq::empty(),
            print,
        },
        ActionView::Write { path, contents: json_pretty(data) },
    )
}

/// The answer to the request to write a file.
pub open spec fn write_answer(event: EventView) -> Result<(), Seq<char>> {
    match event {
        EventView::Written(r) => r,
        _ => Err(unexpected()),
    }
}

/// What is to be done behind a step that printed something.
pub open spec fn print_action(print: Option<Seq<char>>) -> ActionView {
    match print {
        Some(text) => ActionView::Print { text },
        None => ActionView::Continue,
    }
}

/// The path of the artifact of a step that is ending.
pub open spec fn written_path(artifact: ArtifactView) -> Seq<char> {
    match artifact.path {
        Some(p) => p,
        None => Seq::empty(),
    }
}

/// A file was written, or was not. Where the step is strict, a failure
/// fails it and its artifact is dropped; else the artifact is kept without a
/// path and the message names `<memory>` in place of the path.
pub open spec fn write_event(
    state: RunView,
    name: Seq<char>,
    kind: StepKind,
    status: ExecutionStatus,
    prefix: Seq<char>,
    artifact: ArtifactView,
    strict: bool,
    extension: Seq<char>,
    print: Option<Seq<char>>,
    event: EventView,
) -> (RunView, ActionView) {
    let outcome = match write_answer(event) {
        Ok(_) => Outcome {
            artifact: Some(artifact),
            ..plain(name, kind, status, prefix + written_path(artifact))
        },
        Err(e) => if strict {
            failure(name, kind, "failed to write "@ + extension + " report: "@ + e)
        } else {
            Outcome {
                artifact: Some(ArtifactView { path: None, ..artifact }),
                ..plain(name, kind, status, prefix + "<memory>"@)
            }
        },
    };
    (finished(state, outcome).0, print_action(print))
}

// ---------------------------------------------------------------------------
// Scans
// ---------------------------------------------------------------------------

/// The words of a parameter that holds a part of a command line; no words
/// where the parameter is absent, nothing where its value cannot be split.
pub open spec fn words_of_param(params: Seq<(Seq<char>, Seq<char>)>, key: Seq<char>) -> Option<
    Seq<Seq<char>>,
> {
    match lookup(params, key) {
        Some(value) => shell_words_of(value),
        None => Some(Seq::empty()),
    }
}

/// A value that is present and not empty.
pub open spec fn filled(value: Option<Seq<char>>) -> Option<Seq<char>> {
    match value {
        Some(v) => if v.len() > 0 {
            Some(v)
        } else {
            None
        },
        None => None,
    }
}

/// The arguments of a scanning tool: the words of its flags, the words of
/// its arguments, and the target, if it has one that is not empty.
pub open spec fn tool_arguments(
    flags: Seq<Seq<char>>,
    args: Seq<Seq<char>>,
    target: Option<Seq<char>>,
) -> Seq<Seq<char>> {
    flags + args + match filled(target) {
        Some(word) => seq![word],
        None => Seq::empty(),
    }
}

/// The arguments of nmap: the words of its flags, then `-oX - <target>`, so
/// that the scan is written as XML to the standard output.
pub open spec fn nmap_arguments(flags: Seq<Seq<char>>, target: Seq<char>) -> Seq<Seq<char>> {
    flags + seq!["-oX"@, "-"@, target]
}

/// The command line of a script: the words of its command, then the words
/// of its arguments.
pub open spec fn script_invocation(command: Seq<Seq<char>>, args: Seq<Seq<char>>) -> Seq<
    Seq<char>,
> {
    command + args
}

/// A scan by a tool that the library does not know: the command line is the
/// tool, the words of `flags`, the words of `args` and the target.
pub open spec fn tool_step(
    state: RunView,
    name: Seq<char>,
    tool: Seq<char>,
    params: Seq<(Seq<char>, Seq<char>)>,
    output: Option<Seq<char>>,
) -> (RunView, ActionView) {
    match words_of_param(params, "flags"@) {
        None => finished(
            state,
            failure(name, StepKind::Scan, "failed to parse flags: "@ + shell_error_text()),
        ),
        Some(flags) => match words_of_param(params, "args"@) {
            None => finished(
                state,
                failure(name, StepKind::Scan, "failed to parse args: "@ + shell_error_text()),
            ),
            Some(args) => {
                let arguments = tool_arguments(flags, args, lookup(params, "target"@));
                waiting(
                    state,
                    PendingView::Tool {
                        name,
                        tool,
                        params,
                        invocation: seq![tool] + arguments,
                        output,
                    },
                    ActionView::Run {
                        program: tool,
                        args: arguments,
                        cwd: filled(lookup(params, "cwd"@)),
                    },
                )
            },
        },
    }
}

/// A scan by nmap: the command line is `nmap`, the words of `flags`, and
/// `-oX - <target>`.
pub open spec fn nmap_step(
    state: RunView,
    name: Seq<char>,
    tool: Seq<char>,
    params: Seq<(Seq<char>, Seq<char>)>,
    output: Option<Seq<char>>,
) -> (RunView, ActionView) {
    match lookup(params, "target"@) {
        None => finished(
            state,
            failure(name, StepKind::Scan, "missing required parameter: target"@),
        ),
        Some(target) => match words_of_param(params, "flags"@) {
            None => finished(
                state,
                failure(name, StepKind::Scan, "failed to parse flags: "@ + shell_error_text()),
            ),
            Some(flags) => waiting(
                state,
                PendingView::Nmap { name, tool, target, output },
                ActionView::Run {
                    program: tool,
                    args: nmap_arguments(flags, target),
                    cwd: None,
                },
            ),
        },
    }
}

/// A scan is declared.
pub open spec fn scan_step(
    state: RunView,
    name: Seq<char>,
    tool: Seq<char>,
    params: Seq<(Seq<char>, Seq<char>)>,
    output: Option<Seq<char>>,
) -> (RunView, ActionView) {
    let r = resolved_table(params, 0, scope(state), state.secrets.usage, Seq::empty());
    let next = with_used(state, r.used);
    match r.outcome {
        Err(e) => finished(next, failure(name, StepKind::Scan, "failed to resolve variables: "@ + e)),
        Ok(resolved) => if tool == "nmap"@ {
            nmap_step(next, name, tool, resolved, output)
        } else {
            tool_step(next, name, tool, resolved, output)
        },
    }
}

/// The answer to the request to run a program.
pub open spec fn run_answer(event: EventView) -> Result<ProcessView, Seq<char>> {
    match event {
        EventView::Ran(r) => r,
        _ => Err(unexpected()),
    }
}

/// The name under which the artifact of a step is stored: the output name
/// of the step, else `default` and the step's name.
pub open spec fn label_of(output: Option<Seq<char>>, default: Seq<char>, name: Seq<char>) -> Seq<
    char,
> {
    match output {
        Some(label) => label,
        None => default + name,
    }
}

/// The status of a step that ran a program.
pub open spec fn run_status(process: ProcessView) -> ExecutionStatus {
    if process.success {
        ExecutionStatus::Completed
    } else {
        ExecutionStatus::Failed
    }
}

/// nmap has ended, or has not started.
pub open spec fn nmap_event(
    state: RunView,
    name: Seq<char>,
    tool: Seq<char>,
    target: Seq<char>,
    output: Option<Seq<char>>,
    event: EventView,
) -> (RunView, ActionView) {
    match run_answer(event) {
        Err(e) => finished(
            state,
            failure(name, StepKind::Scan, "failed to spawn '"@ + tool + "': "@ + e),
        ),
        Ok(process) => if !process.success {
            finished(
                state,
                failure(
                    name,
                    StepKind::Scan,
                    tool + " exited with code "@ + code_text(process.code) + "\nstdout:\n"@
                        + truncated(utf8_lossy(process.stdout)) + "\nstderr:\n"@ + truncated(
                        utf8_lossy(process.stderr),
                    ),
                ),
            )
        } else {
            match nmap_scan(process.stdout, target) {
                Err(e) => finished(
                    state,
                    failure(name, StepKind::Scan, "failed to parse nmap output: "@ + e),
                ),
                Ok(scan) => write_artifact(
                    state,
                    name,
                    StepKind::Scan,
                    ExecutionStatus::Completed,
                    tool + " completed for target "@ + target + ".\nartifact: "@,
                    label_of(output, "findings_"@, name),
                    ArtifactKind::Scan,
                    scan_json(scan),
                    None,
                ),
            }
        },
    }
}

/// Another scanning tool has ended, or has not started.
pub open spec fn tool_event(
    state: RunView,
    name: Seq<char>,
    tool: Seq<char>,
    params: Seq<(Seq<char>, Seq<char>)>,
    invocation: Seq<Seq<char>>,
    output: Option<Seq<char>>,
    event: EventView,
) -> (RunView, ActionView) {
    match run_answer(event) {
        Err(e) => finished(
            state,
            failure(name, StepKind::Scan, "failed to execute tool '"@ + tool + "': "@ + e),
        ),
        Ok(process) => write_artifact(
            state,
            name,
            StepKind::Scan,
            run_status(process),
            tool + " executed. exit: "@ + code_text(process.code) + ". artifact: "@,
            label_of(output, "scan_"@, name),
            ArtifactKind::Scan,
            tool_run_json(
                tool,
                params,
                invocation,
                utf8_lossy(process.stdout),
                utf8_lossy(process.stderr),
                process.code,
                process.started_at,
                process.duration_ms,
            ),
            None,
        ),
    }
}

// ---------------------------------------------------------------------------
// Scripts
// ---------------------------------------------------------------------------

/// A script is declared: the command line is the words of `run` and the
/// words of `args`.
pub open spec fn script_step(
    state: RunView,
    name: Seq<char>,
    params: Seq<(Seq<char>, Seq<char>)>,
    output: Option<Seq<char>>,
) -> (RunView, ActionView) {
    let r = resolved_table(params, 0, scope(state), state.secrets.usage, Seq::empty());
    let next = with_used(state, r.used);
    match r.outcome {
        Err(e) => finished(
            next,
            failure(name, StepKind::Script, "failed to resolve variables: "@ + e),
        ),
        Ok(resolved) => match lookup(resolved, "run"@) {
            None => finished(
                next,
                failure(name, StepKind::Script, "missing required parameter: run"@),
            ),
            Some(run) => if trimmed(run).len() == 0 {
                finished(next, failure(name, StepKind::Script, "missing required parameter: run"@))
            } else {
                match shell_words_of(run) {
                    None => finished(
                        next,
                        failure(
                            name,
                            StepKind::Script,
                            "failed to parse 'run' command: "@ + shell_error_text(),
                        ),
                    ),
                    Some(command) => if command.len() == 0 {
                        finished(
                            next,
                            failure(name, StepKind::Script, "run command produced no executable"@),
                        )
                    } else {
                        match words_of_param(resolved, "args"@) {
                            None => finished(
                                next,
                                failure(
                                    name,
                                    StepKind::Script,
                                    "failed to parse 'args' value: "@ + shell_error_text(),
                                ),
                            ),
                            Some(args) => waiting(
                                next,
                                PendingView::Script {
                                    name,
                                    invocation: script_invocation(command, args),
                                    output,
                                },
                                ActionView::Run {
                                    program: command[0],
                                    args: script_invocation(command, args).skip(1),
                                    cwd: lookup(resolved, "cwd"@),
                                },
                            ),
                        }
                    },
                }
            },
        },
    }
}

/// A script has ended, or has not started.
pub open spec fn script_event(
    state: RunView,
    name: Seq<char>,
    invocation: Seq<Seq<char>>,
    output: Option<Seq<char>>,
    event: EventView,
) -> (RunView, ActionView) {
    match run_answer(event) {
        Err(e) => finished(
            state,
            failure(name, StepKind::Script, "failed to execute script '"@ + name + "': "@ + e),
        ),
        Ok(process) => write_artifact(
            state,
            name,
            StepKind::Script,
            run_status(process),
            "script '"@ + label_of(output, "script_"@, name) + "' executed with code "@ + code_text(
                process.code,
            ) + ". artifact: "@,
            label_of(output, "script_"@, name),
            ArtifactKind::Script,
            script_json(
                ScriptView {
                    name,
                    command: invocation,
                    stdout: utf8_lossy(process.stdout),
                    stderr: utf8_lossy(process.stderr),
                    exit_code: process.code,
                    started_at: process.started_at,
                    duration_ms: process.duration_ms,
                },
            ),
            None,
        ),
    }
}

// ---------------------------------------------------------------------------
// Executable handlers
// ---------------------------------------------------------------------------

fn text_of(prefix: &str, middle: &str, suffix: &str) -> (r: Vec<char>)
    ensures
        r@ == prefix@ + middle@ + suffix@,
{
    let mut out = chars_of(prefix);
    append_str(&mut out, middle);
    append_str(&mut out, suffix);
    out
}

fn pair_of(first: &str, second: &str) -> (r: Vec<char>)
    ensures
        r@ == first@ + second@,
{
    let mut out = chars_of(first);
    append_str(&mut out, second);
    out
}

fn label_for(output: &Option<String>, default: &str, name: &String) -> (r: String)
    ensures
        r@ == label_of(output.deep_view(), default@, name@),
{
    match output {
        Some(label) => label.clone(),
        None => string_of(&pair_of(default, name.as_str())),
    }
}

fn words_for(params: &Vec<(String, String)>, key: &str) -> (r: Option<Vec<String>>)
    ensures
        r.deep_view() == words_of_param(params.deep_view(), key@),
{
    match get(params, key) {
        Some(value) => match split_command(value.as_str()) {
            Ok(words) => Some(words),
            Err(_) => None,
        },
        None => {
            let empty: Vec<String> = Vec::new();
            assert(empty.deep_view() =~= Seq::empty());
            Some(empty)
        },
    }
}

fn filled_value(value: Option<String>) -> (r: Option<String>)
    ensures
        r.deep_view() == filled(value.deep_view()),
{
    match value {
        Some(v) => if v.as_str().unicode_len() > 0 {
            Some(v)
        } else {
            None
        },
        None => None,
    }
}

/// Puts copies of the strings of `from` behind `to`.
fn extend(to: &mut Vec<String>, from: &Vec<String>)
    ensures
        final(to).deep_view() == old(to).deep_view() + from.deep_view(),
{
    let ghost start = to.deep_view();
    let mut i: usize = 0;
    assert(start + from.deep_view().take(0) =~= start);
    while i < from.len()
        invariant
            i <= from.len(),
            to.deep_view() == start + from.deep_view().take(i as int),
        decreases from.len() - i,
    {
        let item = from[i].clone();
        let ghost before = to.deep_view();
        to.push(item);
        assert(to.deep_view() =~= before.push(item@));
        assert(from.deep_view()[i as int] == from[i as int]@);
        assert(start + from.deep_view().take(i + 1) =~= (start + from.deep_view().take(
            i as int,
        )).push(from[i as int]@));
        i += 1;
    }
    assert(from.deep_view().take(from.len() as int) =~= from.deep_view());
}

/// The arguments of a scanning tool, from the words of its flags and of
/// its arguments and from its target.
pub fn tool_command(flags: &Vec<String>, args: &Vec<String>, target: Option<String>) -> (r: Vec<
    String,
>)
    ensures
        r.deep_view() == tool_arguments(flags.deep_view(), args.deep_view(), target.deep_view()),
{
    let mut arguments: Vec<String> = Vec::new();
    assert(arguments.deep_view() =~= Seq::empty());
    extend(&mut arguments, flags);
    extend(&mut arguments, args);
    match filled_value(target) {
        Some(word) => {
            let ghost before = arguments.deep_view();
            arguments.push(word);
            assert(arguments.deep_view() =~= before + seq![word@]);
        },
        None => {
            assert(arguments.deep_view() + Seq::<Seq<char>>::empty() =~= arguments.deep_view());
        },
    }
    assert(arguments.deep_view() =~= tool_arguments(
        flags.deep_view(),
        args.deep_view(),
        target.deep_view(),
    ));
    arguments
}

/// The arguments of nmap, from the words of its flags and from its target.
pub fn nmap_command(flags: Vec<String>, target: &String) -> (r: Vec<String>)
    ensures
        r.deep_view() == nmap_arguments(flags.deep_view(), target@),
{
    let mut arguments = flags;
    let ghost given = arguments.deep_view();
    arguments.push(String::from_str("-oX"));
    arguments.push(String::from_str("-"));
    arguments.push(target.clone());
    assert(arguments.deep_view() =~= given + seq!["-oX"@, "-"@, target@]);
    arguments
}

/// The command line of a script, from the words of its command and of its
/// arguments.
pub fn script_command(command: &Vec<String>, args: &Vec<String>) -> (r: Vec<String>)
    ensures
        r.deep_view() == script_invocation(command.deep_view(), args.deep_view()),
{
    let mut invocation: Vec<String> = Vec::new();
    assert(invocation.deep_view() =~= Seq::empty());
    extend(&mut invocation, command);
    extend(&mut invocation, args);
    assert(invocation.deep_view() =~= command.deep_view() + args.deep_view());
    invocation
}

fn tail(words: &Vec<String>) -> (r: Vec<String>)
    requires
        words.len() > 0,
    ensures
        r.deep_view() == words.deep_view().skip(1),
{
    let mut out: Vec<String> = Vec::new();
    let mut i: usize = 1;
    assert(out.deep_view() =~= words.deep_view().subrange(1, 1));
    while i < words.len()
        invariant
            1 <= i <= words.len(),
            out.deep_view() == words.deep_view().subrange(1, i as int),
        decreases words.len() - i,
    {
        let item = words[i].clone();
        let ghost before = out.deep_view();
        out.push(item);
        assert(out.deep_view() =~= before.push(item@));
        assert(words.deep_view()[i as int] == words[i as int]@);
        assert(words.deep_view().subrange(1, i + 1) =~= words.deep_view().subrange(
            1,
            i as int,
        ).push(words[i as int]@));
        i += 1;
    }
    assert(words.deep_view().subrange(1, words.len() as int) =~= words.deep_view().skip(1));
    out
}

impl Run {
    /// Declares a variable.
    pub fn process_variable(&mut self, name: &String, value: &LiteralValue) -> (r: Action)
        ensures
            (final(self).deep_view(), r.deep_view()) == variable_step(
                old(self).deep_view(),
                name@,
                value.deep_view(),
            ),
    {
        let key = chars_of(name.as_str());
        let found = crate::assoc::position(&self.overrides, &key);
        let resolved = match found {
            Some(i) => {
                assert(self.overrides.deep_view()[i as int].1
                    == self.overrides[i as int].1.deep_view());
                resolve_literal_value(&self.overrides[i].1, &self.variables, &mut self.secrets)
            },
            None => resolve_literal_value(value, &self.variables, &mut self.secrets),
        };
        match resolved {
            Err(e) => {
                let outcome = if found.is_some() {
                    StepOutcome::failure(
                        name,
                        StepKind::Variable,
                        "failed to resolve override: ",
                        e.as_str(),
                    )
                } else {
                    StepOutcome::failure(
                        name,
                        StepKind::Variable,
                        "failed to resolve variables: ",
                        e.as_str(),
                    )
                };
                self.finish(outcome)
            },
            Ok(v) => {
                let mut message = chars_of(name.as_str());
                append_str(&mut message, " = ");
                append(&mut message, &v.display_chars());
                if found.is_some() {
                    append_str(&mut message, " (override)");
                } else {
                    assert(message@ + Seq::<char>::empty() =~= message@);
                }
                crate::assoc::insert(&mut self.variables, name.clone(), v);
                let outcome = StepOutcome::plain(
                    name,
                    StepKind::Variable,
                    ExecutionStatus::Completed,
                    &message,
                );
                self.finish(outcome)
            },
        }
    }

    /// Stores an asset group.
    pub fn process_asset_group(&mut self, name: &String, properties: &Vec<(String, String)>) -> (r:
        Action)
        ensures
            (final(self).deep_view(), r.deep_view()) == asset_group_step(
                old(self).deep_view(),
                name@,
                properties.deep_view(),
            ),
    {
        match resolve_map(properties, &self.variables, &mut self.secrets) {
            Err(e) => {
                let outcome = StepOutcome::failure(
                    name,
                    StepKind::AssetGroup,
                    "failed to resolve variables: ",
                    e.as_str(),
                );
                self.finish(outcome)
            },
            Ok(resolved) => {
                let group = AssetGroupArtifact { name: name.clone(), properties: resolved };
                let artifact = StoredArtifact {
                    name: string_of(&pair_of("asset_group:", name.as_str())),
                    kind: ArtifactKind::AssetGroup,
                    path: None,
                    data: group.to_json(),
                };
                let outcome = StepOutcome {
                    execution: StepExecution::skipped(
                        name.clone(),
                        StepKind::AssetGroup,
                        Some(String::from_str("stored asset group definition")),
                    ),
                    artifact: Some(artifact),
                };
                self.finish(outcome)
            },
        }
    }

    /// Goes on with the mappings of a secret from `start` on.
    pub fn env_progress(
        &mut self,
        name: String,
        mappings: Vec<(String, String)>,
        start: usize,
        given: Vec<(String, String)>,
    ) -> (r: Action)
        ensures
            (final(self).deep_view(), r.deep_view()) == env_progress(
                old(self).deep_view(),
                name@,
                mappings.deep_view(),
                start as int,
                given.deep_view(),
            ),
    {
        let mut index = start;
        let mut aggregated = copy_table(&given);
        let ghost goal = env_progress(
            self.deep_view(),
            name@,
            mappings.deep_view(),
            index as int,
            aggregated.deep_view(),
        );
        while index < mappings.len()
            invariant
                self.deep_view() == old(self).deep_view(),
                goal == env_progress(
                    old(self).deep_view(),
                    name@,
                    mappings.deep_view(),
                    start as int,
                    given.deep_view(),
                ),
                goal == env_progress(
                    self.deep_view(),
                    name@,
                    mappings.deep_view(),
                    index as int,
                    aggregated.deep_view(),
                ),
            decreases mappings.len() - index,
        {
            assert(mappings.deep_view()[index as int] == (
                mappings[index as int].0@,
                mappings[index as int].1@,
            ));
            let scoped = text_of(name.as_str(), ".", mappings[index].0.as_str());
            match self.secrets.peek(&scoped) {
                Some(existing) => {
                    crate::assoc::insert(&mut aggregated, mappings[index].0.clone(), existing);
                    index += 1;
                },
                None => {
                    let action = Action::ReadEnv { name: mappings[index].1.clone() };
                    return self.wait(Pending::Env { name, mappings, index, aggregated }, action);
                },
            }
        }
        let count = aggregated.len();
        if count == 1 {
            assert(aggregated.deep_view()[0] == (aggregated[0].0@, aggregated[0].1@));
            self.secrets.insert(name.clone(), aggregated[0].1.clone());
        }
        let mut message = chars_of("secret '");
        append_str(&mut message, name.as_str());
        if count == 1 {
            append_str(&mut message, "' loaded from env (1 value)");
        } else {
            append_str(&mut message, "' loaded from env (");
            append(&mut message, &decimal_text(count as u64));
            append_str(&mut message, " values)");
        }
        let outcome = StepOutcome::plain(
            &name,
            StepKind::Secret,
            ExecutionStatus::Completed,
            &message,
        );
        self.finish(outcome)
    }

    /// Takes up the answer to the question for an environment variable.
    pub fn env_event(
        &mut self,
        name: String,
        mappings: Vec<(String, String)>,
        index: usize,
        aggregated: Vec<(String, String)>,
        event: Event,
    ) -> (r: Action)
        ensures
            (final(self).deep_view(), r.deep_view()) == env_event(
                old(self).deep_view(),
                name@,
                mappings.deep_view(),
                index as int,
                aggregated.deep_view(),
                event.deep_view(),
            ),
    {
        if index >= mappings.len() {
            return self.env_progress(name, mappings, index, aggregated);
        }
        assert(mappings.deep_view()[index as int] == (
            mappings[index as int].0@,
            mappings[index as int].1@,
        ));
        let answer = match event {
            Event::Env(r) => r,
            _ => Err(String::from_str("unexpected event")),
        };
        match answer {
            Err(e) => {
                let mut message = chars_of("failed to read environment variable ");
                append_str(&mut message, mappings[index].1.as_str());
                append_str(&mut message, ": ");
                append_str(&mut message, e.as_str());
                let outcome = StepOutcome::plain(
                    &name,
                    StepKind::Secret,
                    ExecutionStatus::Failed,
                    &message,
                );
                self.finish(outcome)
            },
            Ok(value) => {
                let scoped = text_of(name.as_str(), ".", mappings[index].0.as_str());
                self.secrets.insert(string_of(&scoped), value.clone());
                let mut aggregated = aggregated;
                crate::assoc::insert(&mut aggregated, mappings[index].0.clone(), value);
                self.env_progress(name, mappings, index + 1, aggregated)
            },
        }
    }

    /// Takes up the answer to the question for a secret's file.
    pub fn file_event(&mut self, name: String, path: String, event: Event) -> (r: Action)
        ensures
            (final(self).deep_view(), r.deep_view()) == file_event(
                old(self).deep_view(),
                name@,
                path@,
                event.deep_view(),
            ),
    {
        let answer = match event {
            Event::File(r) => r,
            _ => Err(String::from_str("unexpected event")),
        };
        match answer {
            Ok(contents) => {
                self.secrets.insert(name.clone(), contents);
                let message = text_of("secret '", name.as_str(), "' loaded from file");
                let outcome = StepOutcome::plain(
                    &name,
                    StepKind::Secret,
                    ExecutionStatus::Completed,
                    &message,
                );
                self.finish(outcome)
            },
            Err(e) => {
                let mut message = chars_of("failed to read file ");
                append_str(&mut message, path.as_str());
                append_str(&mut message, ": ");
                append_str(&mut message, e.as_str());
                let outcome = StepOutcome::plain(
                    &name,
                    StepKind::Secret,
                    ExecutionStatus::Failed,
                    &message,
                );
                self.finish(outcome)
            },
        }
    }

    /// Loads a secret, or asks the host for it.
    pub fn process_secret(&mut self, secret: &SecretStep) -> (r: Action)
        ensures
            (final(self).deep_view(), r.deep_view()) == secret_step(
                old(self).deep_view(),
                secret.name@,
                secret.source.deep_view(),
            ),
    {
        match &secret.source {
            SecretSource::Env { mappings } => {
                let aggregated: Vec<(String, String)> = Vec::new();
                assert(aggregated.deep_view() =~= Seq::empty());
                self.env_progress(secret.name.clone(), copy_table(mappings), 0, aggregated)
            },
            SecretSource::File { path } => {
                let action = Action::ReadFile { path: path.clone() };
                self.wait(Pending::File { name: secret.name.clone(), path: path.clone() }, action)
            },
            SecretSource::Vault { path } => {
                let outcome = StepOutcome::plain(
                    &secret.name,
                    StepKind::Secret,
                    ExecutionStatus::NotImplemented,
                    &chars_of("vault provider is not implemented yet"),
                );
                self.finish(outcome)
            },
        }
    }

    /// Asks the host to write an artifact.
    pub fn write_artifact(
        &mut self,
        name: String,
        kind: StepKind,
        status: ExecutionStatus,
        prefix: String,
        label: String,
        artifact_kind: ArtifactKind,
        data: Json,
        print: Option<String>,
    ) -> (r: Action)
        ensures
            (final(self).deep_view(), r.deep_view()) == write_artifact(
                old(self).deep_view(),
                name@,
                kind,
                status,
                prefix@,
                label@,
                artifact_kind,
                data.deep_view(),
                print.deep_view(),
            ),
    {
        let path = artifact_file(self.directory.as_str(), label.as_str());
        let contents = pretty_text(&data);
        let action = Action::Write { path: path.clone(), contents };
        let artifact = StoredArtifact { name: label, kind: artifact_kind, path: Some(path), data };
        self.wait(
            Pending::Write {
                name,
                kind,
                status,
                prefix,
                artifact,
                strict: false,
                extension: String::new(),
                print,
            },
            action,
        )
    }

    /// Takes up the answer to the request to write a file.
    pub fn write_event(
        &mut self,
        name: String,
        kind: StepKind,
        status: ExecutionStatus,
        prefix: String,
        artifact: StoredArtifact,
        strict: bool,
        extension: String,
        print: Option<String>,
        event: Event,
    ) -> (r: Action)
        ensures
            (final(self).deep_view(), r.deep_view()) == write_event(
                old(self).deep_view(),
                name@,
                kind,
                status,
                prefix@,
                artifact.deep_view(),
                strict,
                extension@,
                print.deep_view(),
                event.deep_view(),
            ),
    {
        let answer = match event {
            Event::Written(r) => r,
            _ => Err(String::from_str("unexpected event")),
        };
        let outcome = match answer {
            Ok(_) => {
                let mut message = chars_of(prefix.as_str());
                match &artifact.path {
                    Some(p) => {
                        append_str(&mut message, p.as_str());
                    },
                    None => {
                        assert(message@ + Seq::<char>::empty() =~= message@);
                    },
                }
                StepOutcome {
                    execution: StepExecution {
                        name,
                        kind,
                        status,
                        message: Some(string_of(&message)),
                    },
                    artifact: Some(artifact),
                }
            },
            Err(e) => {
                if strict {
                    let mut message = chars_of("failed to write ");
                    append_str(&mut message, extension.as_str());
                    append_str(&mut message, " report: ");
                    append_str(&mut message, e.as_str());
                    StepOutcome::plain(&name, kind, ExecutionStatus::Failed, &message)
                } else {
                    let message = pair_of(prefix.as_str(), "<memory>");
                    let StoredArtifact { name: label, kind: artifact_kind, path: _, data } =
                        artifact;
                    StepOutcome {
                        execution: StepExecution {
                            name,
                            kind,
                            status,
                            message: Some(string_of(&message)),
                        },
                        artifact: Some(
                            StoredArtifact { name: label, kind: artifact_kind, path: None, data },
                        ),
                    }
                }
            },
        };
        self.finish(outcome);
        match print {
            Some(text) => Action::Print { text },
            None => Action::Continue,
        }
    }

    fn tool_step(
        &mut self,
        name: &String,
        tool: &String,
        params: Vec<(String, String)>,
        output: &Option<String>,
    ) -> (r: Action)
        ensures
            (final(self).deep_view(), r.deep_view()) == tool_step(
                old(self).deep_view(),
                name@,
                tool@,
                params.deep_view(),
                output.deep_view(),
            ),
    {
        let flags = match words_for(&params, "flags") {
            Some(words) => words,
            None => {
                let outcome = StepOutcome::failure(
                    name,
                    StepKind::Scan,
                    "failed to parse flags: ",
                    "missing closing quote",
                );
                return self.finish(outcome);
            },
        };
        let args = match words_for(&params, "args") {
            Some(words) => words,
            None => {
                let outcome = StepOutcome::failure(
                    name,
                    StepKind::Scan,
                    "failed to parse args: ",
                    "missing closing quote",
                );
                return self.finish(outcome);
            },
        };
        let arguments = tool_command(&flags, &args, get(&params, "target"));
        let mut invocation: Vec<String> = Vec::new();
        invocation.push(tool.clone());
        assert(invocation.deep_view() =~= seq![tool@]);
        extend(&mut invocation, &arguments);
        let cwd = filled_value(get(&params, "cwd"));
        let action = Action::Run { program: tool.clone(), args: arguments, cwd };
        self.wait(
            Pending::Tool {
                name: name.clone(),
                tool: tool.clone(),
                params,
                invocation,
                output: copy_option(output),
            },
            action,
        )
    }

    fn nmap_step(
        &mut self,
        name: &String,
        tool: &String,
        params: Vec<(String, String)>,
        output: &Option<String>,
    ) -> (r: Action)
        ensures
            (final(self).deep_view(), r.deep_view()) == nmap_step(
                old(self).deep_view(),
                name@,
                tool@,
                params.deep_view(),
                output.deep_view(),
            ),
    {
        let target = match get(&params, "target") {
            Some(target) => target,
            None => {
                let outcome = StepOutcome::failure(
                    name,
                    StepKind::Scan,
                    "missing required parameter: target",
                    "",
                );
                assert("missing required parameter: target"@ + ""@
                    =~= "missing required parameter: target"@) by {
                    reveal_strlit("");
                }
                return self.finish(outcome);
            },
        };
        let flags = match words_for(&params, "flags") {
            Some(words) => words,
            None => {
                let outcome = StepOutcome::failure(
                    name,
                    StepKind::Scan,
                    "failed to parse flags: ",
                    "missing closing quote",
                );
                return self.finish(outcome);
            },
        };
        let arguments = nmap_command(flags, &target);
        let action = Action::Run { program: tool.clone(), args: arguments, cwd: None };
        self.wait(
            Pending::Nmap {
                name: name.clone(),
                tool: tool.clone(),
                target,
                output: copy_option(output),
            },
            action,
        )
    }

    /// Prepares a scan and asks the host to run its tool.
    pub fn process_scan(&mut self, scan: &ScanStep) -> (r: Action)
        ensures
            (final(self).deep_view(), r.deep_view()) == scan_step(
                old(self).deep_view(),
                scan.name@,
                scan.tool@,
                scan.params.deep_view(),
                scan.output.deep_view(),
            ),
    {
        match resolve_map(&scan.params, &self.variables, &mut self.secrets) {
            Err(e) => {
                let outcome = StepOutcome::failure(
                    &scan.name,
                    StepKind::Scan,
                    "failed to resolve variables: ",
                    e.as_str(),
                );
                self.finish(outcome)
            },
            Ok(resolved) => {
                if same_str(&chars_of(scan.tool.as_str()), "nmap") {
                    self.nmap_step(&scan.name, &scan.tool, resolved, &scan.output)
                } else {
                    self.tool_step(&scan.name, &scan.tool, resolved, &scan.output)
                }
            },
        }
    }

    /// Takes up the end of nmap.
    pub fn nmap_event(
        &mut self,
        name: String,
        tool: String,
        target: String,
        output: Option<String>,
        event: Event,
    ) -> (r: Action)
        ensures
            (final(self).deep_view(), r.deep_view()) == nmap_event(
                old(self).deep_view(),
                name@,
                tool@,
                target@,
                output.deep_view(),
                event.deep_view(),
            ),
    {
        let answer = match event {
            Event::Ran(r) => r,
            _ => Err(String::from_str("unexpected event")),
        };
        match answer {
            Err(e) => {
                let mut message = chars_of("failed to spawn '");
                append_str(&mut message, tool.as_str());
                append_str(&mut message, "': ");
                append_str(&mut message, e.as_str());
                let outcome = StepOutcome::plain(
                    &name,
                    StepKind::Scan,
                    ExecutionStatus::Failed,
                    &message,
                );
                self.finish(outcome)
            },
            Ok(process) => {
                if !process.success {
                    let mut message = chars_of(tool.as_str());
                    append_str(&mut message, " exited with code ");
                    append(&mut message, &code_chars(process.code));
                    append_str(&mut message, "\nstdout:\n");
                    append_str(&mut message, truncate_output(&process.stdout).as_str());
                    append_str(&mut message, "\nstderr:\n");
                    append_str(&mut message, truncate_output(&process.stderr).as_str());
                    let outcome = StepOutcome::plain(
                        &name,
                        StepKind::Scan,
                        ExecutionStatus::Failed,
                        &message,
                    );
                    return self.finish(outcome);
                }
                match parse_nmap_xml(&process.stdout, target.as_str()) {
                    Err(e) => {
                        let outcome = StepOutcome::failure(
                            &name,
                            StepKind::Scan,
                            "failed to parse nmap output: ",
                            e.as_str(),
                        );
                        self.finish(outcome)
                    },
                    Ok(scan) => {
                        let mut prefix = chars_of(tool.as_str());
                        append_str(&mut prefix, " completed for target ");
                        append_str(&mut prefix, target.as_str());
                        append_str(&mut prefix, ".\nartifact: ");
                        let label = label_for(&output, "findings_", &name);
                        self.write_artifact(
                            name,
                            StepKind::Scan,
                            ExecutionStatus::Completed,
                            string_of(&prefix),
                            label,
                            ArtifactKind::Scan,
                            scan.to_json(),
                            None,
                        )
                    },
                }
            },
        }
    }

    /// Takes up the end of a scanning tool.
    pub fn tool_event(
        &mut self,
        name: String,
        tool: String,
        params: Vec<(String, String)>,
        invocation: Vec<String>,
        output: Option<String>,
        event: Event,
    ) -> (r: Action)
        ensures
            (final(self).deep_view(), r.deep_view()) == tool_event(
                old(self).deep_view(),
                name@,
                tool@,
                params.deep_view(),
                invocation.deep_view(),
                output.deep_view(),
                event.deep_view(),
            ),
    {
        let answer = match event {
            Event::Ran(r) => r,
            _ => Err(String::from_str("unexpected event")),
        };
        match answer {
            Err(e) => {
                let mut message = chars_of("failed to execute tool '");
                append_str(&mut message, tool.as_str());
                append_str(&mut message, "': ");
                append_str(&mut message, e.as_str());
                let outcome = StepOutcome::plain(
                    &name,
                    StepKind::Scan,
                    ExecutionStatus::Failed,
                    &message,
                );
                self.finish(outcome)
            },
            Ok(process) => {
                let mut prefix = chars_of(tool.as_str());
                append_str(&mut prefix, " executed. exit: ");
                append(&mut prefix, &code_chars(process.code));
                append_str(&mut prefix, ". artifact: ");
                let label = label_for(&output, "scan_", &name);
                let data = crate::artifact::tool_run_to_json(
                    &tool,
                    &params,
                    &invocation,
                    &lossy_text(&process.stdout),
                    &lossy_text(&process.stderr),
                    process.code,
                    &process.started_at,
                    process.duration_ms,
                );
                let status = if process.success {
                    ExecutionStatus::Completed
                } else {
                    ExecutionStatus::Failed
                };
                self.write_artifact(
                    name,
                    StepKind::Scan,
                    status,
                    string_of(&prefix),
                    label,
                    ArtifactKind::Scan,
                    data,
                    None,
                )
            },
        }
    }

    /// Prepares a script and asks the host to run it.
    pub fn process_script(&mut self, script: &ScriptStep) -> (r: Action)
        ensures
            (final(self).deep_view(), r.deep_view()) == script_step(
                old(self).deep_view(),
                script.name@,
                script.params.deep_view(),
                script.output.deep_view(),
            ),
    {
        let name = &script.name;
        let resolved = match resolve_map(&script.params, &self.variables, &mut self.secrets) {
            Err(e) => {
                let outcome = StepOutcome::failure(
                    name,
                    StepKind::Script,
                    "failed to resolve variables: ",
                    e.as_str(),
                );
                return self.finish(outcome);
            },
            Ok(resolved) => resolved,
        };
        let run = match get(&resolved, "run") {
            Some(run) => run,
            None => {
                let outcome = StepOutcome::plain(
                    name,
                    StepKind::Script,
                    ExecutionStatus::Failed,
                    &chars_of("missing required parameter: run"),
                );
                return self.finish(outcome);
            },
        };
        if trim(&chars_of(run.as_str())).len() == 0 {
            let outcome = StepOutcome::plain(
                name,
                StepKind::Script,
                ExecutionStatus::Failed,
                &chars_of("missing required parameter: run"),
            );
            return self.finish(outcome);
        }
        let command = match split_command(run.as_str()) {
            Ok(words) => words,
            Err(_) => {
                let outcome = StepOutcome::failure(
                    name,
                    StepKind::Script,
                    "failed to parse 'run' command: ",
                    "missing closing quote",
                );
                return self.finish(outcome);
            },
        };
        if command.len() == 0 {
            let outcome = StepOutcome::plain(
                name,
                StepKind::Script,
                ExecutionStatus::Failed,
                &chars_of("run command produced no executable"),
            );
            return self.finish(outcome);
        }
        let args = match words_for(&resolved, "args") {
            Some(words) => words,
            None => {
                let outcome = StepOutcome::failure(
                    name,
                    StepKind::Script,
                    "failed to parse 'args' value: ",
                    "missing closing quote",
                );
                return self.finish(outcome);
            },
        };
        assert(command.deep_view()[0] == command[0]@);
        let invocation = script_command(&command, &args);
        assert(invocation.deep_view().len() == command.deep_view().len() + args.deep_view().len());
        let action = Action::Run {
            program: command[0].clone(),
            args: tail(&invocation),
            cwd: get(&resolved, "cwd"),
        };
        self.wait(
            Pending::Script { name: name.clone(), invocation, output: copy_option(&script.output) },
            action,
        )
    }

    /// Takes up the end of a script.
    pub fn script_event(
        &mut self,
        name: String,
        invocation: Vec<String>,
        output: Option<String>,
        event: Event,
    ) -> (r: Action)
        ensures
            (final(self).deep_view(), r.deep_view()) == script_event(
                old(self).deep_view(),
                name@,
                invocation.deep_view(),
                output.deep_view(),
                event.deep_view(),
            ),
    {
        let answer = match event {
            Event::Ran(r) => r,
            _ => Err(String::from_str("unexpected event")),
        };
        match answer {
            Err(e) => {
                let mut message = chars_of("failed to execute script '");
                append_str(&mut message, name.as_str());
                append_str(&mut message, "': ");
                append_str(&mut message, e.as_str());
                let outcome = StepOutcome::plain(
                    &name,
                    StepKind::Script,
                    ExecutionStatus::Failed,
                    &message,
                );
                self.finish(outcome)
            },
            Ok(process) => {
                let label = label_for(&output, "script_", &name);
                let mut prefix = chars_of("script '");
                append_str(&mut prefix, label.as_str());
                append_str(&mut prefix, "' executed with code ");
                append(&mut prefix, &code_chars(process.code));
                append_str(&mut prefix, ". artifact: ");
                let status = if process.success {
                    ExecutionStatus::Completed
                } else {
                    ExecutionStatus::Failed
                };
                let artifact = ScriptArtifact {
                    name: name.clone(),
                    command: invocation,
                    stdout: lossy_text(&process.stdout),
                    stderr: lossy_text(&process.stderr),
                    exit_code: process.code,
                    started_at: process.started_at,
                    duration_ms: process.duration_ms,
                };
                self.write_artifact(
                    name,
                    StepKind::Script,
                    status,
                    string_of(&prefix),
                    label,
                    ArtifactKind::Script,
                    artifact.to_json(),
                    None,
                )
            },
        }
    }
}

} // verus!
