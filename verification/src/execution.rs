//! What a run reports: one record for each step that was processed.

use crate::text::{append, append_str, chars_of, lines, lines_of, string_of, views};
use vstd::prelude::*;

verus! {

/// The kinds of step that leave a record.
#[derive(Clone, Copy, Debug, PartialEq, Eq, Structural)]
pub enum StepKind {
    AssetGroup,
    Scan,
    Variable,
    Secret,
    Script,
    Report,
    Conditional,
    Loop,
}

/// How a step ended.
#[derive(Clone, Copy, Debug, PartialEq, Eq, Structural)]
pub enum ExecutionStatus {
    Completed,
    Skipped,
    Failed,
    NotImplemented,
}

/// The record of one processed step.
#[derive(Debug)]
pub struct StepExecution {
    pub name: String,
    pub kind: StepKind,
    pub status: ExecutionStatus,
    pub message: Option<String>,
}

/// The mathematical value of a `StepExecution`.
pub struct Execution {
    pub name: Seq<char>,
    pub kind: StepKind,
    pub status: ExecutionStatus,
    pub message: Option<Seq<char>>,
}

impl DeepView for StepExecution {
    type V = Execution;

    open spec fn deep_view(&self) -> Execution {
        Execution {
            name: self.name@,
            kind: self.kind,
            status: self.status,
            message: self.message.deep_view(),
        }
    }
}

impl StepExecution {
    /// The record of a step that completed.
    pub fn completed(name: String, kind: StepKind, message: Option<String>) -> (r: StepExecution)
        ensures
            r.deep_view() == (Execution {
                name: name@,
                kind,
                status: ExecutionStatus::Completed,
                message: message.deep_view(),
            }),
    {
        StepExecution { name, kind, status: ExecutionStatus::Completed, message }
    }

    /// The record of a step that failed.
    pub fn failed(name: String, kind: StepKind, message: Option<String>) -> (r: StepExecution)
        ensures
            r.deep_view() == (Execution {
                name: name@,
                kind,
                status: ExecutionStatus::Failed,
                message: message.deep_view(),
            }),
    {
        StepExecution { name, kind, status: ExecutionStatus::Failed, message }
    }

    /// The record of a step that was skipped.
    pub fn skipped(name: String, kind: StepKind, message: Option<String>) -> (r: StepExecution)
        ensures
            r.deep_view() == (Execution {
                name: name@,
                kind,
                status: ExecutionStatus::Skipped,
                message: message.deep_view(),
            }),
    {
        StepExecution { name, kind, status: ExecutionStatus::Skipped, message }
    }

    /// The record of a step that the library cannot serve.
    pub fn not_implemented(name: String, kind: StepKind, message: Option<String>) -> (r:
        StepExecution)
        ensures
            r.deep_view() == (Execution {
                name: name@,
                kind,
                status: ExecutionStatus::NotImplemented,
                message: message.deep_view(),
            }),
    {
        StepExecution { name, kind, status: ExecutionStatus::NotImplemented, message }
    }

    /// A copy of the record.
    pub fn copy(&self) -> (r: StepExecution)
        ensures
            r.deep_view() == self.deep_view(),
    {
        StepExecution {
            name: self.name.clone(),
            kind: self.kind,
            status: self.status,
            message: crate::scenario::copy_option(&self.message),
        }
    }
}

/// The records of a run, in the order in which the steps were processed.
#[derive(Debug)]
pub struct ExecutionReport {
    pub steps: Vec<StepExecution>,
}

impl DeepView for ExecutionReport {
    type V = Seq<Execution>;

    open spec fn deep_view(&self) -> Seq<Execution> {
        self.steps.deep_view()
    }
}

/// Whether a step failed.
pub open spec fn any_failed(steps: Seq<Execution>) -> bool {
    exists|i: int| 0 <= i < steps.len() && (#[trigger] steps[i]).status == ExecutionStatus::Failed
}

/// The word for a status in the report text.
pub open spec fn status_text(status: ExecutionStatus) -> Seq<char> {
    match status {
        ExecutionStatus::Completed => "completed"@,
        ExecutionStatus::Skipped => "skipped"@,
        ExecutionStatus::Failed => "failed"@,
        ExecutionStatus::NotImplemented => "not implemented"@,
    }
}

/// The name of a kind of step.
pub open spec fn kind_text(kind: StepKind) -> Seq<char> {
    match kind {
        StepKind::AssetGroup => "AssetGroup"@,
        StepKind::Scan => "Scan"@,
        StepKind::Variable => "Variable"@,
        StepKind::Secret => "Secret"@,
        StepKind::Script => "Script"@,
        StepKind::Report => "Report"@,
        StepKind::Conditional => "Conditional"@,
        StepKind::Loop => "Loop"@,
    }
}

/// The lines from index `i` on, each indented by six spaces and ended by a
/// line feed.
pub open spec fn indented_from(message_lines: Seq<Seq<char>>, i: int) -> Seq<char>
    decreases message_lines.len() - i,
{
    if i < 0 || i >= message_lines.len() {
        Seq::empty()
    } else {
        "      "@ + message_lines[i] + "\n"@ + indented_from(message_lines, i + 1)
    }
}

/// The text of one record: a line with status, name and kind, and the lines
/// of the message below it.
pub open spec fn record_text(step: Execution) -> Seq<char> {
    "  - ["@ + status_text(step.status) + "] "@ + step.name + " ("@ + kind_text(step.kind) + ")\n"@
        + match step.message {
        Some(message) => indented_from(lines_of(message), 0),
        None => Seq::empty(),
    }
}

/// The texts of the records from index `i` on.
pub open spec fn records_from(steps: Seq<Execution>, i: int) -> Seq<char>
    decreases steps.len() - i,
{
    if i < 0 || i >= steps.len() {
        Seq::empty()
    } else {
        record_text(steps[i]) + records_from(steps, i + 1)
    }
}

/// The text of a report.
pub open spec fn report_text(steps: Seq<Execution>) -> Seq<char> {
    if steps.len() == 0 {
        "No steps to execute.\n"@
    } else {
        "Execution results:\n"@ + records_from(steps, 0)
    }
}

/// The word for a status in the report text.
pub fn status_word(status: ExecutionStatus) -> (r: &'static str)
    ensures
        r@ == status_text(status),
{
    match status {
        ExecutionStatus::Completed => "completed",
        ExecutionStatus::Skipped => "skipped",
        ExecutionStatus::Failed => "failed",
        ExecutionStatus::NotImplemented => "not implemented",
    }
}

/// The name of a kind of step.
pub fn kind_name(kind: StepKind) -> (r: &'static str)
    ensures
        r@ == kind_text(kind),
{
    match kind {
        StepKind::AssetGroup => "AssetGroup",
        StepKind::Scan => "Scan",
        StepKind::Variable => "Variable",
        StepKind::Secret => "Secret",
        StepKind::Script => "Script",
        StepKind::Report => "Report",
        StepKind::Conditional => "Conditional",
        StepKind::Loop => "Loop",
    }
}

fn record_chars(step: &StepExecution) -> (r: Vec<char>)
    ensures
        r@ == record_text(step.deep_view()),
{
    let mut out = chars_of("  - [");
    append_str(&mut out, status_word(step.status));
    append_str(&mut out, "] ");
    append_str(&mut out, step.name.as_str());
    append_str(&mut out, " (");
    append_str(&mut out, kind_name(step.kind));
    append_str(&mut out, ")\n");
    let ghost head = out@;
    match &step.message {
        Some(message) => {
            let all = lines(&chars_of(message.as_str()));
            let mut body: Vec<char> = Vec::new();
            let mut i: usize = all.len();
            assert(indented_from(views(all@), all.len() as int) =~= Seq::empty());
            while i > 0
                invariant
                    i <= all.len(),
                    body@ == indented_from(views(all@), i as int),
                decreases i,
            {
                i -= 1;
                assert(views(all@)[i as int] == all[i as int]@);
                let mut line = chars_of("      ");
                append(&mut line, &all[i]);
                append_str(&mut line, "\n");
                append(&mut line, &body);
                body = line;
            }
            append(&mut out, &body);
        },
        None => {
            assert(head + Seq::<char>::empty() =~= head);
        },
    }
    out
}

impl ExecutionReport {
    /// Whether a step failed.
    pub fn has_failures(&self) -> (r: bool)
        ensures
            r == any_failed(self.deep_view()),
    {
        let mut i: usize = 0;
        while i < self.steps.len()
            invariant
                i <= self.steps.len(),
                forall|k: int|
                    0 <= k < i ==> (#[trigger] self.steps.deep_view()[k]).status
                        != ExecutionStatus::Failed,
            decreases self.steps.len() - i,
        {
            assert(self.steps.deep_view()[i as int] == self.steps[i as int].deep_view());
            if self.steps[i].status == ExecutionStatus::Failed {
                return true;
            }
            i += 1;
        }
        false
    }

    /// The text of the report.
    pub fn to_text(&self) -> (r: String)
        ensures
            r@ == report_text(self.deep_view()),
    {
        if self.steps.len() == 0 {
            return String::from_str("No steps to execute.\n");
        }
        let mut body: Vec<char> = Vec::new();
        let mut i: usize = self.steps.len();
        assert(records_from(self.deep_view(), self.steps.len() as int) =~= Seq::empty());
        while i > 0
            invariant
                i <= self.steps.len(),
                body@ == records_from(self.deep_view(), i as int),
            decreases i,
        {
            i -= 1;
            assert(self.steps.deep_view()[i as int] == self.steps[i as int].deep_view());
            let mut record = record_chars(&self.steps[i]);
            append(&mut record, &body);
            body = record;
        }
        let mut out = chars_of("Execution results:\n");
        append(&mut out, &body);
        string_of(&out)
    }
}

} // verus!
