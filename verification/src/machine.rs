//! The state of a run between two steps: what the host is asked to do, what
//! it answers, and what the run remembers meanwhile.

use crate::artifact::{ArtifactView, StoredArtifact};
use crate::assoc::{ascending, inserted};
use crate::execution::{Execution, ExecutionStatus, StepExecution, StepKind};
use crate::expression::{Literal, LiteralValue};
use crate::scenario::{Step, StepView};
use crate::secrets::{masked, SecretStore, SecretsView};
use crate::text::chars_of;
use vstd::prelude::*;

verus! {

// ---------------------------------------------------------------------------
// What the host is asked and what it answers
// ---------------------------------------------------------------------------

/// What the host is to do before the run goes on.
#[derive(Debug)]
pub enum Action {
    /// Nothing: the run goes on at once.
    Continue,
    /// Read an environment variable.
    ReadEnv { name: String },
    /// Read a file as text.
    ReadFile { path: String },
    /// Run a program and wait for its end.
    Run { program: String, args: Vec<String>, cwd: Option<String> },
    /// Write a file, and the directories above it.
    Write { path: String, contents: String },
    /// Print a text.
    Print { text: String },
    /// Nothing more: the run has ended.
    Finished,
}

/// The mathematical value of an `Action`.
pub enum ActionView {
    Continue,
    ReadEnv { name: Seq<char> },
    ReadFile { path: Seq<char> },
    Run { program: Seq<char>, args: Seq<Seq<char>>, cwd: Option<Seq<char>> },
    Write { path: Seq<char>, contents: Seq<char> },
    Print { text: Seq<char> },
    Finished,
}

impl DeepView for Action {
    type V = ActionView;

    open spec fn deep_view(&self) -> ActionView {
        match self {
            Action::Continue => ActionView::Continue,
            Action::ReadEnv { name } => ActionView::ReadEnv { name: name@ },
            Action::ReadFile { path } => ActionView::ReadFile { path: path@ },
            Action::Run { program, args, cwd } => ActionView::Run {
                program: program@,
                args: args.deep_view(),
                cwd: cwd.deep_view(),
            },
            Action::Write { path, contents } => ActionView::Write {
                path: path@,
                contents: contents@,
            },
            Action::Print { text } => ActionView::Print { text: text@ },
            Action::Finished => ActionView::Finished,
        }
    }
}

/// How a program ended.
#[derive(Debug)]
pub struct ProcessOutput {
    pub stdout: Vec<u8>,
    pub stderr: Vec<u8>,
    pub code: Option<i32>,
    pub success: bool,
    /// When the program was started, as text.
    pub started_at: String,
    pub duration_ms: u64,
}

/// The mathematical value of a `ProcessOutput`.
pub struct ProcessView {
    pub stdout: Seq<u8>,
    pub stderr: Seq<u8>,
    pub code: Option<i32>,
    pub success: bool,
    pub started_at: Seq<char>,
    pub duration_ms: u64,
}

impl DeepView for ProcessOutput {
    type V = ProcessView;

    open spec fn deep_view(&self) -> ProcessView {
        ProcessView {
            stdout: self.stdout@,
            stderr: self.stderr@,
            code: self.code,
            success: self.success,
            started_at: self.started_at@,
            duration_ms: self.duration_ms,
        }
    }
}

/// What the host answers. An error is the host's message.
#[derive(Debug)]
pub enum Event {
    /// Nothing was asked.
    Resume,
    /// The value of the environment variable.
    Env(Result<String, String>),
    /// The content of the file.
    File(Result<String, String>),
    /// How the program ended, or why it did not start.
    Ran(Result<ProcessOutput, String>),
    /// Whether the file was written.
    Written(Result<(), String>),
}

/// The mathematical value of an `Event`.
pub enum EventView {
    Resume,
    Env(Result<Seq<char>, Seq<char>>),
    File(Result<Seq<char>, Seq<char>>),
    Ran(Result<ProcessView, Seq<char>>),
    Written(Result<(), Seq<char>>),
}

impl DeepView for Event {
    type V = EventView;

    open spec fn deep_view(&self) -> EventView {
        match self {
            Event::Resume => EventView::Resume,
            Event::Env(r) => EventView::Env(
                match r {
                    Ok(v) => Ok(v@),
                    Err(e) => Err(e@),
                },
            ),
            Event::File(r) => EventView::File(
                match r {
                    Ok(v) => Ok(v@),
                    Err(e) => Err(e@),
                },
            ),
            Event::Ran(r) => EventView::Ran(
                match r {
                    Ok(v) => Ok(v.deep_view()),
                    Err(e) => Err(e@),
                },
            ),
            Event::Written(r) => EventView::Written(
                match r {
                    Ok(_) => Ok(()),
                    Err(e) => Err(e@),
                },
            ),
        }
    }
}

/// What is said of an answer that fits no question.
pub open spec fn unexpected() -> Seq<char> {
    "unexpected event"@
}

// ---------------------------------------------------------------------------
// Outcomes
// ---------------------------------------------------------------------------

/// What a step leaves: its record, and the artifact it produced.
#[derive(Debug)]
pub struct StepOutcome {
    pub execution: StepExecution,
    pub artifact: Option<StoredArtifact>,
}

/// The mathematical value of a `StepOutcome`.
pub struct Outcome {
    pub execution: Execution,
    pub artifact: Option<ArtifactView>,
}

impl DeepView for StepOutcome {
    type V = Outcome;

    open spec fn deep_view(&self) -> Outcome {
        Outcome { execution: self.execution.deep_view(), artifact: self.artifact.deep_view() }
    }
}

/// The outcome of a step that left no artifact.
pub open spec fn plain(name: Seq<char>, kind: StepKind, status: ExecutionStatus, message: Seq<char>)
    -> Outcome {
    Outcome { execution: Execution { name, kind, status, message: Some(message) }, artifact: None }
}

/// The outcome of a step that failed.
pub open spec fn failure(name: Seq<char>, kind: StepKind, message: Seq<char>) -> Outcome {
    plain(name, kind, ExecutionStatus::Failed, message)
}

impl StepOutcome {
    /// The outcome of a step that left its record alone.
    pub fn from_execution(execution: StepExecution) -> (r: StepOutcome)
        ensures
            r.deep_view() == (Outcome { execution: execution.deep_view(), artifact: None }),
    {
        StepOutcome { execution, artifact: None }
    }

    /// The outcome of a step that left a record and an artifact.
    pub fn with_artifact(execution: StepExecution, artifact: StoredArtifact) -> (r: StepOutcome)
        ensures
            r.deep_view() == (Outcome {
                execution: execution.deep_view(),
                artifact: Some(artifact.deep_view()),
            }),
    {
        StepOutcome { execution, artifact: Some(artifact) }
    }

    /// The outcome of a step that left no artifact.
    pub fn plain(name: &String, kind: StepKind, status: ExecutionStatus, message: &Vec<char>) -> (r:
        StepOutcome)
        ensures
            r.deep_view() == plain(name@, kind, status, message@),
    {
        StepOutcome {
            execution: StepExecution {
                name: name.clone(),
                kind,
                status,
                message: Some(crate::text::string_of(message)),
            },
            artifact: None,
        }
    }

    /// The outcome of a step that failed.
    pub fn failure(name: &String, kind: StepKind, prefix: &str, detail: &str) -> (r: StepOutcome)
        ensures
            r.deep_view() == failure(name@, kind, prefix@ + detail@),
    {
        let mut message = chars_of(prefix);
        crate::text::append_str(&mut message, detail);
        StepOutcome::plain(name, kind, ExecutionStatus::Failed, &message)
    }
}

// ---------------------------------------------------------------------------
// Frames
// ---------------------------------------------------------------------------

/// One level of the run: a list of steps and the index of the next one, or
/// a loop and the index of its next item.
#[derive(Debug)]
pub enum Frame {
    Block { steps: Vec<Step>, next: usize },
    Walk {
        name: String,
        iterator: String,
        items: Vec<LiteralValue>,
        next: usize,
        body: Vec<Step>,
        previous: Option<LiteralValue>,
    },
}

/// The mathematical value of a `Frame`.
pub enum FrameView {
    Block { steps: Seq<StepView>, next: int },
    Walk {
        name: Seq<char>,
        iterator: Seq<char>,
        items: Seq<Literal>,
        next: int,
        body: Seq<StepView>,
        previous: Option<Literal>,
    },
}

impl DeepView for Frame {
    type V = FrameView;

    open spec fn deep_view(&self) -> FrameView {
        match self {
            Frame::Block { steps, next } => FrameView::Block {
                steps: steps.deep_view(),
                next: *next as int,
            },
            Frame::Walk { name, iterator, items, next, body, previous } => FrameView::Walk {
                name: name@,
                iterator: iterator@,
                items: items.deep_view(),
                next: *next as int,
                body: body.deep_view(),
                previous: previous.deep_view(),
            },
        }
    }
}

// ---------------------------------------------------------------------------
// What the run waits for
// ---------------------------------------------------------------------------

/// What the run waits for, with what it needs to go on.
#[derive(Debug)]
pub enum Pending {
    /// Nothing.
    Idle,
    /// The value of the environment variable of the mapping `index`.
    Env { name: String, mappings: Vec<(String, String)>, index: usize, aggregated: Vec<
        (String, String),
    > },
    /// The content of a secret's file.
    File { name: String, path: String },
    /// The end of nmap.
    Nmap { name: String, tool: String, target: String, output: Option<String> },
    /// The end of another scanning tool.
    Tool {
        name: String,
        tool: String,
        params: Vec<(String, String)>,
        invocation: Vec<String>,
        output: Option<String>,
    },
    /// The end of a script.
    Script { name: String, invocation: Vec<String>, output: Option<String> },
    /// The writing of a file. The message of the step is `prefix` and the
    /// path; where `strict` holds, a failure to write fails the step.
    Write {
        name: String,
        kind: StepKind,
        status: ExecutionStatus,
        prefix: String,
        artifact: StoredArtifact,
        strict: bool,
        extension: String,
        print: Option<String>,
    },
}

/// The mathematical value of a `Pending`.
pub enum PendingView {
    Idle,
    Env {
        name: Seq<char>,
        mappings: Seq<(Seq<char>, Seq<char>)>,
        index: int,
        aggregated: Seq<(Seq<char>, Seq<char>)>,
    },
    File { name: Seq<char>, path: Seq<char> },
    Nmap { name: Seq<char>, tool: Seq<char>, target: Seq<char>, output: Option<Seq<char>> },
    Tool {
        name: Seq<char>,
        tool: Seq<char>,
        params: Seq<(Seq<char>, Seq<char>)>,
        invocation: Seq<Seq<char>>,
        output: Option<Seq<char>>,
    },
    Script { name: Seq<char>, invocation: Seq<Seq<char>>, output: Option<Seq<char>> },
    Write {
        name: Seq<char>,
        kind: StepKind,
        status: ExecutionStatus,
        prefix: Seq<char>,
        artifact: ArtifactView,
        strict: bool,
        extension: Seq<char>,
        print: Option<Seq<char>>,
    },
}

impl DeepView for Pending {
    type V = PendingView;

    open spec fn deep_view(&self) -> PendingView {
        match self {
            Pending::Idle => PendingView::Idle,
            Pending::Env { name, mappings, index, aggregated } => PendingView::Env {
                name: name@,
                mappings: mappings.deep_view(),
                index: *index as int,
                aggregated: aggregated.deep_view(),
            },
            Pending::File { name, path } => PendingView::File { name: name@, path: path@ },
            Pending::Nmap { name, tool, target, output } => PendingView::Nmap {
                name: name@,
                tool: tool@,
                target: target@,
                output: output.deep_view(),
            },
            Pending::Tool { name, tool, params, invocation, output } => PendingView::Tool {
                name: name@,
                tool: tool@,
                params: params.deep_view(),
                invocation: invocation.deep_view(),
                output: output.deep_view(),
            },
            Pending::Script { name, invocation, output } => PendingView::Script {
                name: name@,
                invocation: invocation.deep_view(),
                output: output.deep_view(),
            },
            Pending::Write {
                name,
                kind,
                status,
                prefix,
                artifact,
                strict,
                extension,
                print,
            } => PendingView::Write {
                name: name@,
                kind: *kind,
                status: *status,
                prefix: prefix@,
                artifact: artifact.deep_view(),
                strict: *strict,
                extension: extension@,
                print: print.deep_view(),
            },
        }
    }
}

// ---------------------------------------------------------------------------
// The run
// ---------------------------------------------------------------------------

/// A run in progress. The variables, the secrets and the artifacts belong
/// to the run alone.
#[derive(Debug)]
pub struct Run {
    pub directory: String,
    pub overrides: Vec<(String, LiteralValue)>,
    pub variables: Vec<(String, LiteralValue)>,
    pub secrets: SecretStore,
    pub store: Vec<(String, StoredArtifact)>,
    pub report: Vec<StepExecution>,
    pub stack: Vec<Frame>,
    pub pending: Pending,
}

/// The mathematical value of a `Run`.
pub struct RunView {
    pub directory: Seq<char>,
    pub overrides: Seq<(Seq<char>, Literal)>,
    pub variables: Seq<(Seq<char>, Literal)>,
    pub secrets: SecretsView,
    pub store: Seq<(Seq<char>, ArtifactView)>,
    pub report: Seq<Execution>,
    pub stack: Seq<FrameView>,
    pub pending: PendingView,
}

impl DeepView for Run {
    type V = RunView;

    open spec fn deep_view(&self) -> RunView {
        RunView {
            directory: self.directory@,
            overrides: self.overrides.deep_view(),
            variables: self.variables.deep_view(),
            secrets: self.secrets.deep_view(),
            store: self.store.deep_view(),
            report: self.report.deep_view(),
            stack: self.stack.deep_view(),
            pending: self.pending.deep_view(),
        }
    }
}

/// The record as the report keeps it: with every secret value masked in its
/// message.
pub open spec fn masked_record(secrets: Seq<(Seq<char>, Seq<char>)>, execution: Execution)
    -> Execution {
    Execution {
        message: match execution.message {
            Some(message) => Some(masked(secrets, message)),
            None => None,
        },
        ..execution
    }
}

/// The run after an outcome was recorded: the artifact is stored under its
/// name, in place of one of that name, and the record, masked, ends the
/// report.
pub open spec fn recorded(state: RunView, outcome: Outcome) -> RunView {
    RunView {
        store: match outcome.artifact {
            Some(artifact) => inserted(state.store, artifact.name, artifact),
            None => state.store,
        },
        report: state.report.push(masked_record(state.secrets.values, outcome.execution)),
        ..state
    }
}

/// Whether the tables of a run stand in the order of their keys, each key
/// once: the variables, the secret values, the secret keys that were used
/// and the stored artifacts.
pub open spec fn run_ordered(state: RunView) -> bool {
    ascending(state.variables) && state.secrets.ordered() && ascending(state.store)
}

/// The run with other secret keys marked as used.
pub open spec fn with_used(state: RunView, used: Seq<(Seq<char>, ())>) -> RunView {
    RunView { secrets: SecretsView { usage: used, ..state.secrets }, ..state }
}

/// The run goes on after the outcome of a step.
pub open spec fn finished(state: RunView, outcome: Outcome) -> (RunView, ActionView) {
    (recorded(RunView { pending: PendingView::Idle, ..state }, outcome), ActionView::Continue)
}

/// The run waits for the host.
pub open spec fn waiting(state: RunView, pending: PendingView, action: ActionView) -> (
    RunView,
    ActionView,
) {
    (RunView { pending, ..state }, action)
}

impl Run {
    /// Records the outcome of a step.
    pub fn record_outcome(&mut self, outcome: StepOutcome)
        ensures
            final(self).deep_view() == recorded(old(self).deep_view(), outcome.deep_view()),
    {
        let StepOutcome { execution, artifact } = outcome;
        match artifact {
            Some(found) => {
                let name = found.name.clone();
                crate::assoc::insert(&mut self.store, name, found);
            },
            None => {},
        }
        let StepExecution { name, kind, status, message } = execution;
        let shown = match message {
            Some(text) => Some(self.secrets.mask(text.as_str())),
            None => None,
        };
        let record = StepExecution { name, kind, status, message: shown };
        let ghost before = self.report.deep_view();
        let ghost view = record.deep_view();
        self.report.push(record);
        assert(self.report.deep_view() =~= before.push(view));
    }

    /// The run goes on after the outcome of a step.
    pub fn finish(&mut self, outcome: StepOutcome) -> (r: Action)
        ensures
            (final(self).deep_view(), r.deep_view()) == finished(
                old(self).deep_view(),
                outcome.deep_view(),
            ),
    {
        self.pending = Pending::Idle;
        self.record_outcome(outcome);
        Action::Continue
    }

    /// The run waits for the host.
    pub fn wait(&mut self, pending: Pending, action: Action) -> (r: Action)
        ensures
            (final(self).deep_view(), r.deep_view()) == waiting(
                old(self).deep_view(),
                pending.deep_view(),
                action.deep_view(),
            ),
    {
        self.pending = pending;
        action
    }
}

/// Puts a frame on the stack.
pub fn push_frame(stack: &mut Vec<Frame>, frame: Frame)
    ensures
        final(stack).deep_view() == old(stack).deep_view().push(frame.deep_view()),
{
    let ghost before = stack.deep_view();
    let ghost view = frame.deep_view();
    stack.push(frame);
    assert(stack.deep_view() =~= before.push(view));
}

/// Takes the top frame off the stack.
pub fn pop_frame(stack: &mut Vec<Frame>) -> (r: Frame)
    requires
        old(stack).len() > 0,
    ensures
        final(stack).deep_view() == old(stack).deep_view().drop_last(),
        r.deep_view() == old(stack).deep_view().last(),
        old(stack).deep_view().len() > 0,
{
    let ghost before = stack.deep_view();
    assert(before.last() == stack[stack.len() - 1].deep_view());
    let frame = stack.pop().unwrap();
    assert(stack.deep_view() =~= before.drop_last());
    frame
}

} // verus!
