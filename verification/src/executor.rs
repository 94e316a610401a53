//! The interpreter: a run walks the steps of a scenario in order, one step
//! at a time. Whatever needs the world outside (a program, a file, the
//! environment) is asked of the host, and the run goes on with the answer.

use crate::artifact::{
    report_json, ArtifactKind, ArtifactView, ReportArtifact, ReportView, StoredArtifact,
    TableArtifact, TableView,
};
use crate::assoc::{inserted, inserted_all, lookup, removed};
use crate::command::{get, report_path, resolve_report_path};
use crate::execution::{Execution, ExecutionReport, ExecutionStatus, StepExecution, StepKind};
use crate::expression::{
    bool_chars, bool_text, condition_text, iterable_text, Literal, LiteralValue,
};
use crate::handlers::{
    asset_group_step, env_event, file_event, nmap_event, scan_step, scope, script_event,
    script_step, secret_step, tool_event, variable_step, write_artifact, write_event,
};
use crate::json::{json_elements, json_member, json_pretty, pretty_text, Json, JsonView};
use crate::machine::{
    failure, finished, plain, pop_frame, push_frame, run_ordered, waiting, with_used, Action,
    ActionView, Event, EventView, Frame, FrameView, Pending, PendingView, Run, RunView,
    StepOutcome,
};
use crate::render::{
    console_table, html_report, markdown_report, render_html_report, render_markdown_report,
    render_table,
};
use crate::resolve::{
    condition_value, evaluate_condition, iterable_items, resolve_iterable, resolve_list,
    resolve_map, resolved_list, resolved_table,
};
use crate::sarif::{render_sarif_report, sarif_report};
use crate::scenario::{
    copy_steps, copy_table, ConditionalStep, LoopStep, ReportFormat, ReportStep, Scenario, Step,
    StepView,
};
use crate::secrets::{SecretStore, SecretsView};
use crate::statements::format_name;
use crate::text::{append, append_str, chars_of, decimal, decimal_text, string_of};
use vstd::prelude::*;

verus! {

// ---------------------------------------------------------------------------
// Reports
// ---------------------------------------------------------------------------

/// The columns of a table of findings.
pub open spec fn finding_columns() -> Seq<Seq<char>> {
    seq![
        "asset_id"@,
        "port"@,
        "protocol"@,
        "service"@,
        "state"@,
        "severity"@,
        "description"@,
    ]
}

/// The member of a finding under a column, or `null`.
pub open spec fn finding_cell(finding: JsonView, column: Seq<char>) -> JsonView {
    match json_member(finding, column) {
        Some(value) => value,
        None => JsonView::Null,
    }
}

/// The row of a finding: its cells in the order of the names of the
/// columns.
pub open spec fn finding_row(finding: JsonView) -> Seq<(Seq<char>, JsonView)> {
    seq![
        ("asset_id"@, finding_cell(finding, "asset_id"@)),
        ("description"@, finding_cell(finding, "description"@)),
        ("port"@, finding_cell(finding, "port"@)),
        ("protocol"@, finding_cell(finding, "protocol"@)),
        ("service"@, finding_cell(finding, "service"@)),
        ("severity"@, finding_cell(finding, "severity"@)),
        ("state"@, finding_cell(finding, "state"@)),
    ]
}

/// The table of the findings of a scan artifact: one row for each item of
/// its member `findings`; nothing where that is no array or holds nothing.
pub open spec fn findings_table(data: JsonView) -> Option<TableView> {
    match json_member(data, "findings"@) {
        None => None,
        Some(member) => match json_elements(member) {
            None => None,
            Some(findings) => if findings.len() == 0 {
                None
            } else {
                Some(
                    TableView {
                        columns: finding_columns(),
                        rows: Seq::new(findings.len(), |i: int| finding_row(findings[i])),
                    },
                )
            },
        },
    }
}

fn cell_of(finding: &Json, column: &str) -> (r: Json)
    ensures
        r.deep_view() == finding_cell(finding.deep_view(), column@),
{
    match finding.get(column) {
        Some(value) => value.copy(),
        None => Json::Null,
    }
}

fn row_of(finding: &Json) -> (r: Vec<(String, Json)>)
    ensures
        r.deep_view() == finding_row(finding.deep_view()),
{
    let mut row: Vec<(String, Json)> = Vec::new();
    assert(row.deep_view() =~= Seq::empty());
    crate::artifact::member(&mut row, "asset_id", cell_of(finding, "asset_id"));
    crate::artifact::member(&mut row, "description", cell_of(finding, "description"));
    crate::artifact::member(&mut row, "port", cell_of(finding, "port"));
    crate::artifact::member(&mut row, "protocol", cell_of(finding, "protocol"));
    crate::artifact::member(&mut row, "service", cell_of(finding, "service"));
    crate::artifact::member(&mut row, "severity", cell_of(finding, "severity"));
    crate::artifact::member(&mut row, "state", cell_of(finding, "state"));
    assert(row.deep_view() =~= finding_row(finding.deep_view()));
    row
}

/// The table of the findings of a scan artifact.
pub fn build_table_from_scan(data: &Json) -> (r: Option<TableArtifact>)
    ensures
        r.deep_view() == findings_table(data.deep_view()),
{
    let findings = match data.get("findings") {
        Some(member) => match member.as_array() {
            Some(items) => items,
            None => {
                return None;
            },
        },
        None => {
            return None;
        },
    };
    if findings.len() == 0 {
        return None;
    }
    let mut columns: Vec<String> = Vec::new();
    columns.push(String::from_str("asset_id"));
    columns.push(String::from_str("port"));
    columns.push(String::from_str("protocol"));
    columns.push(String::from_str("service"));
    columns.push(String::from_str("state"));
    columns.push(String::from_str("severity"));
    columns.push(String::from_str("description"));
    assert(columns.deep_view() =~= finding_columns());
    let mut rows: Vec<Vec<(String, Json)>> = Vec::new();
    let mut i: usize = 0;
    while i < findings.len()
        invariant
            i <= findings.len(),
            rows.deep_view() == Seq::new(i as nat, |k: int| finding_row(findings.deep_view()[k])),
        decreases findings.len() - i,
    {
        assert(findings.deep_view()[i as int] == findings[i as int].deep_view());
        let row = row_of(&findings[i]);
        let ghost before = rows.deep_view();
        let ghost view = row.deep_view();
        rows.push(row);
        assert(rows.deep_view() =~= before.push(view));
        assert(rows.deep_view() =~= Seq::new(
            (i + 1) as nat,
            |k: int| finding_row(findings.deep_view()[k]),
        ));
        i += 1;
    }
    Some(TableArtifact { columns, rows })
}

/// What a report takes up: the artifacts it includes, and the tables of
/// those that are scans, under their names.
pub struct Gathered {
    pub includes: Seq<(Seq<char>, JsonView)>,
    pub tables: Seq<(Seq<char>, TableView)>,
}

/// The gathered with the artifact `name` of the store added.
pub open spec fn with_artifact(done: Gathered, name: Seq<char>, artifact: ArtifactView) -> Gathered {
    Gathered {
        includes: inserted(done.includes, name, artifact.data),
        tables: if artifact.kind == ArtifactKind::Scan {
            match findings_table(artifact.data) {
                Some(table) => inserted(done.tables, name, table),
                None => done.tables,
            }
        } else {
            done.tables
        },
    }
}

/// The artifacts of the names from index `i` on, added to `done`; the
/// message for the first name that the store does not hold.
pub open spec fn gathered_from(
    store: Seq<(Seq<char>, ArtifactView)>,
    names: Seq<Seq<char>>,
    i: int,
    done: Gathered,
) -> Result<Gathered, Seq<char>>
    decreases names.len() - i,
{
    if i < 0 || i >= names.len() {
        Ok(done)
    } else {
        match lookup(store, names[i]) {
            None => Err("missing artifact '"@ + names[i] + "'"@),
            Some(artifact) => gathered_from(
                store,
                names,
                i + 1,
                with_artifact(done, names[i], artifact),
            ),
        }
    }
}

/// What the console shows of the first `n` tables: each that has rows,
/// under its name.
pub open spec fn tables_text(tables: Seq<(Seq<char>, TableView)>, n: nat) -> Seq<char>
    decreases n,
{
    if 0 < n <= tables.len() {
        tables_text(tables, (n - 1) as nat) + (if tables[n - 1].1.rows.len() == 0 {
            Seq::empty()
        } else {
            "\n[table] "@ + tables[n - 1].0 + "\n"@ + console_table(tables[n - 1].1) + "\n"@
        })
    } else {
        Seq::empty()
    }
}

/// The title of a report: its option `title`, else its name.
pub open spec fn report_title(options: Seq<(Seq<char>, Seq<char>)>, name: Seq<char>) -> Seq<char> {
    match lookup(options, "title"@) {
        Some(title) => title,
        None => name,
    }
}

/// The name under which a report is stored.
pub open spec fn report_label(name: Seq<char>) -> Seq<char> {
    "report:"@ + name
}

/// The extension of the file of a report.
pub open spec fn extension_of(format: ReportFormat) -> Seq<char> {
    match format {
        ReportFormat::Stdout => "json"@,
        ReportFormat::Html => "html"@,
        ReportFormat::Markdown => "md"@,
        ReportFormat::Sarif => "sarif"@,
    }
}

/// The text of a report that goes to a file.
pub open spec fn rendered(
    format: ReportFormat,
    title: Seq<char>,
    now: Seq<char>,
    gathered: Gathered,
    options: Seq<(Seq<char>, Seq<char>)>,
) -> Seq<char> {
    match format {
        ReportFormat::Stdout => Seq::empty(),
        ReportFormat::Html => html_report(title, now, gathered.includes, gathered.tables),
        ReportFormat::Markdown => markdown_report(title, now, gathered.includes, gathered.tables),
        ReportFormat::Sarif => sarif_report(title, now, gathered.includes, options),
    }
}

/// The artifact of a report.
pub open spec fn report_data(
    name: Seq<char>,
    format: ReportFormat,
    now: Seq<char>,
    gathered: Gathered,
    options: Seq<(Seq<char>, Seq<char>)>,
    output_path: Option<Seq<char>>,
) -> JsonView {
    report_json(
        ReportView {
            target: name,
            format: format_name(format),
            generated_at: now,
            includes: gathered.includes,
            tables: gathered.tables,
            output_path,
            options,
        },
    )
}

/// A report is made of what was gathered. A report for the console is
/// stored as an artifact and printed; any other is rendered and written to
/// its file, and fails where that cannot be written.
pub open spec fn report_write(
    state: RunView,
    name: Seq<char>,
    format: ReportFormat,
    gathered: Gathered,
    options: Seq<(Seq<char>, Seq<char>)>,
    output: Option<Seq<char>>,
    now: Seq<char>,
) -> (RunView, ActionView) {
    if format == ReportFormat::Stdout {
        let data = report_data(name, format, now, gathered, options, None);
        write_artifact(
            state,
            name,
            StepKind::Report,
            ExecutionStatus::Completed,
            "report generated for target '"@ + name + "'. artifact: "@,
            report_label(name),
            ArtifactKind::Report,
            data,
            Some(json_pretty(data) + "\n"@ + tables_text(gathered.tables, gathered.tables.len())),
        )
    } else {
        let path = report_path(state.directory, name, output, extension_of(format));
        waiting(
            state,
            PendingView::Write {
                name,
                kind: StepKind::Report,
                status: ExecutionStatus::Completed,
                prefix: format_name(format) + " report written to "@,
                artifact: ArtifactView {
                    name: report_label(name),
                    kind: ArtifactKind::Report,
                    path: Some(path),
                    data: report_data(name, format, now, gathered, options, Some(path)),
                },
                strict: true,
                extension: extension_of(format),
                print: None,
            },
            ActionView::Write {
                path,
                contents: rendered(format, report_title(options, name), now, gathered, options),
            },
        )
    }
}

/// A report is declared: the names it includes are resolved, the artifacts
/// are taken from the store, and its options are resolved.
pub open spec fn report_step(
    state: RunView,
    name: Seq<char>,
    format: ReportFormat,
    includes: Seq<Seq<char>>,
    options: Seq<(Seq<char>, Seq<char>)>,
    output: Option<Seq<char>>,
    now: Seq<char>,
) -> (RunView, ActionView) {
    let names = resolved_list(includes, 0, scope(state), state.secrets.usage, Seq::empty());
    let named = with_used(state, names.used);
    match names.outcome {
        Err(e) => finished(
            named,
            failure(name, StepKind::Report, "failed to resolve variables: "@ + e),
        ),
        Ok(list) => match gathered_from(
            state.store,
            list,
            0,
            Gathered { includes: Seq::empty(), tables: Seq::empty() },
        ) {
            Err(e) => finished(named, failure(name, StepKind::Report, e)),
            Ok(gathered) => {
                let resolved = resolved_table(options, 0, scope(state), names.used, Seq::empty());
                let next = with_used(state, resolved.used);
                match resolved.outcome {
                    Err(e) => finished(
                        next,
                        failure(name, StepKind::Report, "failed to resolve report options: "@ + e),
                    ),
                    Ok(opts) => report_write(next, name, format, gathered, opts, output, now),
                }
            },
        },
    }
}

/// What a report has taken up so far.
pub struct Taken {
    pub includes: Vec<(String, Json)>,
    pub tables: Vec<(String, TableArtifact)>,
}

impl DeepView for Taken {
    type V = Gathered;

    open spec fn deep_view(&self) -> Gathered {
        Gathered { includes: self.includes.deep_view(), tables: self.tables.deep_view() }
    }
}

fn artifact_of<'a>(store: &'a Vec<(String, StoredArtifact)>, name: &String) -> (r: Option<
    &'a StoredArtifact,
>)
    ensures
        r.deep_view() == lookup(store.deep_view(), name@),
{
    match crate::assoc::position(store, &chars_of(name.as_str())) {
        Some(i) => {
            assert(store.deep_view()[i as int].1 == store[i as int].1.deep_view());
            Some(&store[i].1)
        },
        None => None,
    }
}

fn gather(store: &Vec<(String, StoredArtifact)>, names: &Vec<String>) -> (r: Result<Taken, String>)
    ensures
        match r {
            Ok(taken) => gathered_from(
                store.deep_view(),
                names.deep_view(),
                0,
                Gathered { includes: Seq::empty(), tables: Seq::empty() },
            ) == Ok::<Gathered, Seq<char>>(taken.deep_view()),
            Err(e) => gathered_from(
                store.deep_view(),
                names.deep_view(),
                0,
                Gathered { includes: Seq::empty(), tables: Seq::empty() },
            ) == Err::<Gathered, Seq<char>>(e@),
        },
{
    let mut taken = Taken { includes: Vec::new(), tables: Vec::new() };
    assert(taken.includes.deep_view() =~= Seq::empty());
    assert(taken.tables.deep_view() =~= Seq::empty());
    let mut i: usize = 0;
    while i < names.len()
        invariant
            i <= names.len(),
            gathered_from(
                store.deep_view(),
                names.deep_view(),
                0,
                Gathered { includes: Seq::empty(), tables: Seq::empty() },
            ) == gathered_from(store.deep_view(), names.deep_view(), i as int, taken.deep_view()),
        decreases names.len() - i,
    {
        assert(names.deep_view()[i as int] == names[i as int]@);
        match artifact_of(store, &names[i]) {
            None => {
                let mut message = chars_of("missing artifact '");
                append_str(&mut message, names[i].as_str());
                append_str(&mut message, "'");
                return Err(string_of(&message));
            },
            Some(artifact) => {
                crate::assoc::insert(&mut taken.includes, names[i].clone(), artifact.data.copy());
                if artifact.kind == ArtifactKind::Scan {
                    match build_table_from_scan(&artifact.data) {
                        Some(table) => {
                            crate::assoc::insert(&mut taken.tables, names[i].clone(), table);
                        },
                        None => {},
                    }
                }
            },
        }
        i += 1;
    }
    Ok(taken)
}

fn tables_chars(tables: &Vec<(String, TableArtifact)>) -> (r: Vec<char>)
    ensures
        r@ == tables_text(tables.deep_view(), tables.deep_view().len()),
{
    let mut out: Vec<char> = Vec::new();
    let mut i: usize = 0;
    while i < tables.len()
        invariant
            i <= tables.len(),
            out@ == tables_text(tables.deep_view(), i as nat),
        decreases tables.len() - i,
    {
        assert(tables.deep_view()[i as int] == (
            tables[i as int].0@,
            tables[i as int].1.deep_view(),
        ));
        if tables[i].1.rows.len() > 0 {
            let ghost before = out@;
            append_str(&mut out, "\n[table] ");
            append_str(&mut out, tables[i].0.as_str());
            append_str(&mut out, "\n");
            let drawn = render_table(&tables[i].1);
            append_str(&mut out, drawn.as_str());
            append_str(&mut out, "\n");
            assert(out@ =~= before + ("\n[table] "@ + tables[i as int].0@ + "\n"@ + drawn@
                + "\n"@));
        } else {
            assert(out@ + Seq::<char>::empty() =~= out@);
        }
        i += 1;
    }
    out
}

fn copy_tables(tables: &Vec<(String, TableArtifact)>) -> (r: Vec<(String, TableArtifact)>)
    ensures
        r.deep_view() == tables.deep_view(),
{
    let mut out: Vec<(String, TableArtifact)> = Vec::new();
    let mut i: usize = 0;
    while i < tables.len()
        invariant
            i <= tables.len(),
            out.deep_view() == tables.deep_view().take(i as int),
        decreases tables.len() - i,
    {
        let key = tables[i].0.clone();
        let item = tables[i].1.copy();
        let ghost before = out.deep_view();
        out.push((key, item));
        assert(out.deep_view() =~= before.push((key@, item.deep_view())));
        assert(tables.deep_view().take(i + 1) =~= tables.deep_view().take(i as int).push(
            (tables[i as int].0@, tables[i as int].1.deep_view()),
        ));
        i += 1;
    }
    assert(tables.deep_view().take(tables.len() as int) =~= tables.deep_view());
    out
}

fn extension_for(format: ReportFormat) -> (r: &'static str)
    ensures
        r@ == extension_of(format),
{
    match format {
        ReportFormat::Stdout => "json",
        ReportFormat::Html => "html",
        ReportFormat::Markdown => "md",
        ReportFormat::Sarif => "sarif",
    }
}

fn data_for(
    name: &String,
    format: ReportFormat,
    now: &str,
    taken: &Taken,
    options: &Vec<(String, String)>,
    output_path: Option<String>,
) -> (r: Json)
    ensures
        r.deep_view() == report_data(
            name@,
            format,
            now@,
            taken.deep_view(),
            options.deep_view(),
            output_path.deep_view(),
        ),
{
    let artifact = ReportArtifact {
        target: name.clone(),
        format: String::from_str(format.as_str()),
        generated_at: String::from_str(now),
        includes: crate::artifact::copy_members(&taken.includes),
        tables: copy_tables(&taken.tables),
        output_path,
        options: copy_table(options),
    };
    artifact.to_json()
}

impl Run {
    fn report_write(
        &mut self,
        name: &String,
        format: ReportFormat,
        taken: Taken,
        options: Vec<(String, String)>,
        output: &Option<String>,
        now: &str,
    ) -> (r: Action)
        ensures
            (final(self).deep_view(), r.deep_view()) == report_write(
                old(self).deep_view(),
                name@,
                format,
                taken.deep_view(),
                options.deep_view(),
                output.deep_view(),
                now@,
            ),
    {
        let mut label = chars_of("report:");
        append_str(&mut label, name.as_str());
        match format {
            ReportFormat::Stdout => {
                let data = data_for(name, format, now, &taken, &options, None);
                let mut prefix = chars_of("report generated for target '");
                append_str(&mut prefix, name.as_str());
                append_str(&mut prefix, "'. artifact: ");
                let mut printed = chars_of(pretty_text(&data).as_str());
                append_str(&mut printed, "\n");
                append(&mut printed, &tables_chars(&taken.tables));
                self.write_artifact(
                    name.clone(),
                    StepKind::Report,
                    ExecutionStatus::Completed,
                    string_of(&prefix),
                    string_of(&label),
                    ArtifactKind::Report,
                    data,
                    Some(string_of(&printed)),
                )
            },
            _ => {
                let extension = extension_for(format);
                let path = resolve_report_path(
                    self.directory.as_str(),
                    name.as_str(),
                    output,
                    extension,
                );
                let title = match get(&options, "title") {
                    Some(title) => title,
                    None => name.clone(),
                };
                let contents = match format {
                    ReportFormat::Html => render_html_report(
                        title.as_str(),
                        now,
                        &taken.includes,
                        &taken.tables,
                    ),
                    ReportFormat::Markdown => render_markdown_report(
                        title.as_str(),
                        now,
                        &taken.includes,
                        &taken.tables,
                    ),
                    _ => render_sarif_report(title.as_str(), now, &taken.includes, &options),
                };
                let data = data_for(name, format, now, &taken, &options, Some(path.clone()));
                let mut prefix = chars_of(format.as_str());
                append_str(&mut prefix, " report written to ");
                let action = Action::Write { path: path.clone(), contents };
                self.wait(
                    Pending::Write {
                        name: name.clone(),
                        kind: StepKind::Report,
                        status: ExecutionStatus::Completed,
                        prefix: string_of(&prefix),
                        artifact: StoredArtifact {
                            name: string_of(&label),
                            kind: ArtifactKind::Report,
                            path: Some(path),
                            data,
                        },
                        strict: true,
                        extension: String::from_str(extension),
                        print: None,
                    },
                    action,
                )
            },
        }
    }

    /// Makes a report of the artifacts it includes.
    pub fn process_report(&mut self, report: &ReportStep, now: &str) -> (r: Action)
        ensures
            (final(self).deep_view(), r.deep_view()) == report_step(
                old(self).deep_view(),
                report.name@,
                report.format,
                report.includes.deep_view(),
                report.options.deep_view(),
                report.output.deep_view(),
                now@,
            ),
    {
        let names = match resolve_list(&report.includes, &self.variables, &mut self.secrets) {
            Err(e) => {
                let outcome = StepOutcome::failure(
                    &report.name,
                    StepKind::Report,
                    "failed to resolve variables: ",
                    e.as_str(),
                );
                return self.finish(outcome);
            },
            Ok(names) => names,
        };
        let taken = match gather(&self.store, &names) {
            Err(e) => {
                let outcome = StepOutcome::plain(
                    &report.name,
                    StepKind::Report,
                    ExecutionStatus::Failed,
                    &chars_of(e.as_str()),
                );
                return self.finish(outcome);
            },
            Ok(taken) => taken,
        };
        let options = match resolve_map(&report.options, &self.variables, &mut self.secrets) {
            Err(e) => {
                let outcome = StepOutcome::failure(
                    &report.name,
                    StepKind::Report,
                    "failed to resolve report options: ",
                    e.as_str(),
                );
                return self.finish(outcome);
            },
            Ok(options) => options,
        };
        self.report_write(&report.name, report.format, taken, options, &report.output, now)
    }
}

// ---------------------------------------------------------------------------
// Conditions and loops
// ---------------------------------------------------------------------------

/// The name of a conditional in the report.
pub open spec fn conditional_name(condition: crate::expression::Condition) -> Seq<char> {
    "if "@ + condition_text(condition)
}

/// The stack with a block of steps on it, unless there are no steps.
pub open spec fn with_block(stack: Seq<FrameView>, steps: Seq<StepView>) -> Seq<FrameView> {
    if steps.len() > 0 {
        stack.push(FrameView::Block { steps, next: 0 })
    } else {
        stack
    }
}

/// The branch that a condition chooses.
pub open spec fn branch_of(chosen: bool, then_steps: Seq<StepView>, else_steps: Seq<StepView>)
    -> Seq<StepView> {
    if chosen {
        then_steps
    } else {
        else_steps
    }
}

/// A conditional is met: its condition is evaluated and recorded, and the
/// steps of one branch are the next to run. Where the condition cannot be
/// evaluated, the step fails and no branch runs.
pub open spec fn conditional_step(
    state: RunView,
    condition: crate::expression::Condition,
    then_steps: Seq<StepView>,
    else_steps: Seq<StepView>,
) -> (RunView, ActionView) {
    let r = condition_value(condition, scope(state), state.secrets.usage);
    let next = with_used(state, r.used);
    match r.outcome {
        Err(e) => finished(next, failure(conditional_name(condition), StepKind::Conditional, e)),
        Ok(chosen) => {
            let after = finished(
                next,
                plain(
                    conditional_name(condition),
                    StepKind::Conditional,
                    ExecutionStatus::Completed,
                    "condition evaluated to "@ + bool_text(chosen),
                ),
            ).0;
            (
                RunView {
                    stack: with_block(after.stack, branch_of(chosen, then_steps, else_steps)),
                    ..after
                },
                ActionView::Continue,
            )
        },
    }
}

/// The name of a loop in the report.
pub open spec fn loop_name(iterator: Seq<char>, iterable: crate::expression::Iterable) -> Seq<
    char,
> {
    "for "@ + iterator + " in "@ + iterable_text(iterable)
}

/// A loop is met: its items are resolved and the loop is the next to run,
/// with what the iterator was bound to kept for the end. Where the items
/// cannot be resolved, the step fails.
pub open spec fn loop_step(
    state: RunView,
    iterator: Seq<char>,
    iterable: crate::expression::Iterable,
    body: Seq<StepView>,
) -> (RunView, ActionView) {
    let r = iterable_items(iterable, scope(state), state.secrets.usage);
    let next = with_used(state, r.used);
    match r.outcome {
        Err(e) => finished(next, failure(loop_name(iterator, iterable), StepKind::Loop, e)),
        Ok(items) => (
            RunView {
                stack: next.stack.push(
                    FrameView::Walk {
                        name: loop_name(iterator, iterable),
                        iterator,
                        items,
                        next: 0,
                        body,
                        previous: lookup(state.variables, iterator),
                    },
                ),
                pending: PendingView::Idle,
                ..next
            },
            ActionView::Continue,
        ),
    }
}

/// The variables with the iterator of a loop bound as it was before the
/// loop, or unbound if it was.
pub open spec fn restored(
    variables: Seq<(Seq<char>, Literal)>,
    iterator: Seq<char>,
    previous: Option<Literal>,
) -> Seq<(Seq<char>, Literal)> {
    match previous {
        Some(value) => inserted(variables, iterator, value),
        None => removed(variables, iterator),
    }
}

/// What a step does to a run.
pub open spec fn dispatch(state: RunView, step: StepView, now: Seq<char>) -> (RunView, ActionView) {
    match step {
        StepView::Import { path } => (state, ActionView::Continue),
        StepView::Variable { name, value } => variable_step(state, name, value),
        StepView::AssetGroup { name, properties } => asset_group_step(state, name, properties),
        StepView::Scan { name, tool, params, output } => scan_step(
            state,
            name,
            tool,
            params,
            output,
        ),
        StepView::Script { name, params, output } => script_step(state, name, params, output),
        StepView::Secret { name, source } => secret_step(state, name, source),
        StepView::Report { name, format, includes, options, output } => report_step(
            state,
            name,
            format,
            includes,
            options,
            output,
            now,
        ),
        StepView::Conditional { condition, then_steps, else_steps } => conditional_step(
            state,
            condition,
            then_steps,
            else_steps,
        ),
        StepView::Loop { iterator, iterable, body } => loop_step(state, iterator, iterable, body),
    }
}

/// What a run that waits for nothing does next: the next step of the block
/// on top of the stack, or the next item of the loop on top of it. A block
/// without a next step leaves the stack. A loop without a next item restores
/// its iterator, is recorded with the number of its items, and leaves the
/// stack. With an empty stack the run has ended.
pub open spec fn advance(state: RunView, now: Seq<char>) -> (RunView, ActionView) {
    if state.stack.len() == 0 {
        (state, ActionView::Finished)
    } else {
        let below = state.stack.drop_last();
        match state.stack.last() {
            FrameView::Block { steps, next } => if 0 <= next < steps.len() {
                dispatch(
                    RunView {
                        stack: below.push(FrameView::Block { steps, next: next + 1 }),
                        ..state
                    },
                    steps[next],
                    now,
                )
            } else {
                (RunView { stack: below, ..state }, ActionView::Continue)
            },
            FrameView::Walk { name, iterator, items, next, body, previous } => if 0 <= next
                < items.len() {
                (
                    RunView {
                        variables: inserted(state.variables, iterator, items[next]),
                        stack: below.push(
                            FrameView::Walk {
                                name,
                                iterator,
                                items,
                                next: next + 1,
                                body,
                                previous,
                            },
                        ).push(FrameView::Block { steps: body, next: 0 }),
                        ..state
                    },
                    ActionView::Continue,
                )
            } else {
                finished(
                    RunView {
                        variables: restored(state.variables, iterator, previous),
                        stack: below,
                        ..state
                    },
                    plain(
                        name,
                        StepKind::Loop,
                        ExecutionStatus::Completed,
                        "executed "@ + decimal(items.len()) + " iteration(s)"@,
                    ),
                )
            },
        }
    }
}

/// One step of a run: where it waits for the host, the answer is taken up;
/// else it goes on by itself.
pub open spec fn advanced(state: RunView, event: EventView, now: Seq<char>) -> (RunView, ActionView) {
    let idle = RunView { pending: PendingView::Idle, ..state };
    match state.pending {
        PendingView::Idle => advance(state, now),
        PendingView::Env { name, mappings, index, aggregated } => env_event(
            idle,
            name,
            mappings,
            index,
            aggregated,
            event,
        ),
        PendingView::File { name, path } => file_event(idle, name, path, event),
        PendingView::Nmap { name, tool, target, output } => nmap_event(
            idle,
            name,
            tool,
            target,
            output,
            event,
        ),
        PendingView::Tool { name, tool, params, invocation, output } => tool_event(
            idle,
            name,
            tool,
            params,
            invocation,
            output,
            event,
        ),
        PendingView::Script { name, invocation, output } => script_event(
            idle,
            name,
            invocation,
            output,
            event,
        ),
        PendingView::Write {
            name,
            kind,
            status,
            prefix,
            artifact,
            strict,
            extension,
            print,
        } => write_event(
            idle,
            name,
            kind,
            status,
            prefix,
            artifact,
            strict,
            extension,
            print,
            event,
        ),
    }
}

fn take_pending(run: &mut Run) -> (r: Pending)
    ensures
        r.deep_view() == old(run).deep_view().pending,
        final(run).deep_view() == (RunView { pending: PendingView::Idle, ..old(run).deep_view() }),
{
    let mut taken = Pending::Idle;
    core::mem::swap(&mut run.pending, &mut taken);
    taken
}

impl Run {
    /// Evaluates a condition and chooses a branch.
    pub fn process_conditional(&mut self, block: &ConditionalStep) -> (r: Action)
        ensures
            (final(self).deep_view(), r.deep_view()) == conditional_step(
                old(self).deep_view(),
                block.condition.deep_view(),
                block.then_steps.deep_view(),
                block.else_steps.deep_view(),
            ),
    {
        let mut name = chars_of("if ");
        append(&mut name, &block.condition.display_chars());
        let name = string_of(&name);
        match evaluate_condition(&block.condition, &self.variables, &mut self.secrets) {
            Err(e) => {
                let outcome = StepOutcome::plain(
                    &name,
                    StepKind::Conditional,
                    ExecutionStatus::Failed,
                    &chars_of(e.as_str()),
                );
                self.finish(outcome)
            },
            Ok(chosen) => {
                let mut message = chars_of("condition evaluated to ");
                append(&mut message, &bool_chars(chosen));
                let outcome = StepOutcome::plain(
                    &name,
                    StepKind::Conditional,
                    ExecutionStatus::Completed,
                    &message,
                );
                self.finish(outcome);
                let branch = if chosen {
                    &block.then_steps
                } else {
                    &block.else_steps
                };
                if branch.len() > 0 {
                    push_frame(&mut self.stack, Frame::Block { steps: copy_steps(branch), next: 0 });
                }
                Action::Continue
            },
        }
    }

    /// Resolves the items of a loop and begins it.
    pub fn process_loop(&mut self, step: &LoopStep) -> (r: Action)
        ensures
            (final(self).deep_view(), r.deep_view()) == loop_step(
                old(self).deep_view(),
                step.iterator@,
                step.iterable.deep_view(),
                step.body.deep_view(),
            ),
    {
        let mut name = chars_of("for ");
        append_str(&mut name, step.iterator.as_str());
        append_str(&mut name, " in ");
        append(&mut name, &step.iterable.display_chars());
        let name = string_of(&name);
        match resolve_iterable(&step.iterable, &self.variables, &mut self.secrets) {
            Err(e) => {
                let outcome = StepOutcome::plain(
                    &name,
                    StepKind::Loop,
                    ExecutionStatus::Failed,
                    &chars_of(e.as_str()),
                );
                self.finish(outcome)
            },
            Ok(items) => {
                let previous = match crate::resolve::variable(
                    &self.variables,
                    &chars_of(step.iterator.as_str()),
                ) {
                    Some(value) => Some(value.copy()),
                    None => None,
                };
                self.pending = Pending::Idle;
                push_frame(
                    &mut self.stack,
                    Frame::Walk {
                        name,
                        iterator: step.iterator.clone(),
                        items,
                        next: 0,
                        body: copy_steps(&step.body),
                        previous,
                    },
                );
                Action::Continue
            },
        }
    }

    /// What a step does to the run.
    pub fn dispatch(&mut self, step: &Step, now: &str) -> (r: Action)
        ensures
            (final(self).deep_view(), r.deep_view()) == dispatch(
                old(self).deep_view(),
                step.deep_view(),
                now@,
            ),
    {
        match step {
            Step::Import(_) => Action::Continue,
            Step::Variable(s) => self.process_variable(&s.name, &s.value),
            Step::AssetGroup(s) => self.process_asset_group(&s.name, &s.properties),
            Step::Scan(s) => self.process_scan(s),
            Step::Script(s) => self.process_script(s),
            Step::Secret(s) => self.process_secret(s),
            Step::Report(s) => self.process_report(s, now),
            Step::Conditional(s) => {
                proof {
                    crate::scenario::lemma_conditional_view(*s);
                }
                self.process_conditional(s)
            },
            Step::Loop(s) => {
                proof {
                    crate::scenario::lemma_loop_view(*s);
                }
                self.process_loop(s)
            },
        }
    }

    /// What the run does next when it waits for nothing.
    pub fn advance(&mut self, now: &str) -> (r: Action)
        ensures
            (final(self).deep_view(), r.deep_view()) == advance(old(self).deep_view(), now@),
    {
        if self.stack.len() == 0 {
            return Action::Finished;
        }
        let frame = pop_frame(&mut self.stack);
        match frame {
            Frame::Block { steps, next } => {
                if next < steps.len() {
                    assert(steps.deep_view()[next as int] == steps[next as int].deep_view());
                    let step = steps[next].copy();
                    push_frame(&mut self.stack, Frame::Block { steps, next: next + 1 });
                    self.dispatch(&step, now)
                } else {
                    Action::Continue
                }
            },
            Frame::Walk { name, iterator, items, next, body, previous } => {
                if next < items.len() {
                    assert(items.deep_view()[next as int] == items[next as int].deep_view());
                    crate::assoc::insert(&mut self.variables, iterator.clone(), items[next].copy());
                    let steps = copy_steps(&body);
                    push_frame(
                        &mut self.stack,
                        Frame::Walk { name, iterator, items, next: next + 1, body, previous },
                    );
                    push_frame(&mut self.stack, Frame::Block { steps, next: 0 });
                    Action::Continue
                } else {
                    match previous {
                        Some(value) => {
                            crate::assoc::insert(&mut self.variables, iterator, value);
                        },
                        None => {
                            crate::assoc::remove(
                                &mut self.variables,
                                &chars_of(iterator.as_str()),
                            );
                        },
                    }
                    let mut message = chars_of("executed ");
                    append(&mut message, &decimal_text(items.len() as u64));
                    append_str(&mut message, " iteration(s)");
                    let outcome = StepOutcome::plain(
                        &name,
                        StepKind::Loop,
                        ExecutionStatus::Completed,
                        &message,
                    );
                    self.finish(outcome)
                }
            },
        }
    }

    /// One step of the run. `event` is the host's answer to what the step
    /// before asked for, `now` the time of the call as text.
    pub fn step(&mut self, event: Event, now: &str) -> (r: Action)
        ensures
            (final(self).deep_view(), r.deep_view()) == advanced(
                old(self).deep_view(),
                event.deep_view(),
                now@,
            ),
            run_ordered(old(self).deep_view()) ==> run_ordered(final(self).deep_view()),
    {
        proof {
            if run_ordered(self.deep_view()) {
                crate::laws::law_run_stays_ordered(self.deep_view(), event.deep_view(), now@);
            }
        }
        let pending = take_pending(self);
        match pending {
            Pending::Idle => self.advance(now),
            Pending::Env { name, mappings, index, aggregated } => self.env_event(
                name,
                mappings,
                index,
                aggregated,
                event,
            ),
            Pending::File { name, path } => self.file_event(name, path, event),
            Pending::Nmap { name, tool, target, output } => self.nmap_event(
                name,
                tool,
                target,
                output,
                event,
            ),
            Pending::Tool { name, tool, params, invocation, output } => self.tool_event(
                name,
                tool,
                params,
                invocation,
                output,
                event,
            ),
            Pending::Script { name, invocation, output } => self.script_event(
                name,
                invocation,
                output,
                event,
            ),
            Pending::Write {
                name,
                kind,
                status,
                prefix,
                artifact,
                strict,
                extension,
                print,
            } => self.write_event(
                name,
                kind,
                status,
                prefix,
                artifact,
                strict,
                extension,
                print,
                event,
            ),
        }
    }
}

// ---------------------------------------------------------------------------
// The executor
// ---------------------------------------------------------------------------

/// Where runs keep their artifacts.
#[derive(Debug)]
pub struct Executor {
    pub artifacts_dir: String,
}

/// What a run leaves: its report, and its artifacts in the order of their
/// names.
#[derive(Debug)]
pub struct ExecutionOutcome {
    pub report: ExecutionReport,
    pub artifacts: Vec<StoredArtifact>,
}

/// The mathematical value of an `ExecutionOutcome`.
pub struct OutcomeView {
    pub report: Seq<Execution>,
    pub artifacts: Seq<ArtifactView>,
}

impl DeepView for ExecutionOutcome {
    type V = OutcomeView;

    open spec fn deep_view(&self) -> OutcomeView {
        OutcomeView { report: self.report.deep_view(), artifacts: self.artifacts.deep_view() }
    }
}

/// The run of a scenario before its first step: the variables are the
/// overrides, the secrets are the given ones, each stored under its name,
/// and the steps of the scenario are the next to run.
pub open spec fn started(
    directory: Seq<char>,
    steps: Seq<StepView>,
    overrides: Seq<(Seq<char>, Literal)>,
    secrets: Seq<(Seq<char>, Seq<char>)>,
) -> RunView {
    RunView {
        directory,
        overrides: inserted_all(overrides, 0, Seq::empty()),
        variables: inserted_all(overrides, 0, Seq::empty()),
        secrets: SecretsView {
            values: inserted_all(secrets, 0, Seq::empty()),
            usage: Seq::empty(),
        },
        store: Seq::empty(),
        report: Seq::empty(),
        stack: seq![FrameView::Block { steps, next: 0 }],
        pending: PendingView::Idle,
    }
}

/// The table of the bindings, each stored under its name.
pub fn table_of_bindings(bindings: &Vec<(String, LiteralValue)>) -> (r: Vec<(String, LiteralValue)>)
    ensures
        r.deep_view() == inserted_all(bindings.deep_view(), 0, Seq::empty()),
{
    let mut out: Vec<(String, LiteralValue)> = Vec::new();
    assert(out.deep_view() =~= Seq::empty());
    let mut i: usize = 0;
    while i < bindings.len()
        invariant
            i <= bindings.len(),
            inserted_all(bindings.deep_view(), 0, Seq::empty()) == inserted_all(
                bindings.deep_view(),
                i as int,
                out.deep_view(),
            ),
        decreases bindings.len() - i,
    {
        assert(bindings.deep_view()[i as int] == (
            bindings[i as int].0@,
            bindings[i as int].1.deep_view(),
        ));
        crate::assoc::insert(&mut out, bindings[i].0.clone(), bindings[i].1.copy());
        i += 1;
    }
    out
}

impl Executor {
    /// An executor that keeps artifacts in the directory `artifacts`.
    pub fn new() -> (r: Executor)
        ensures
            r.artifacts_dir@ == "artifacts"@,
    {
        Executor { artifacts_dir: String::from_str("artifacts") }
    }

    /// The file that a report is written to: the path that the report
    /// names, below the directory of the artifacts unless it begins at the
    /// root; without one, `reports/<name>.<extension>` below that directory.
    pub fn resolve_report_path(&self, report: &ReportStep, extension: &str) -> (r: String)
        ensures
            r@ == report_path(
                self.artifacts_dir@,
                report.name@,
                report.output.deep_view(),
                extension@,
            ),
    {
        resolve_report_path(
            self.artifacts_dir.as_str(),
            report.name.as_str(),
            &report.output,
            extension,
        )
    }

    /// The run of a scenario without overrides, before its first step.
    pub fn execute(&self, scenario: &Scenario) -> (r: Run)
        ensures
            r.deep_view() == started(
                self.artifacts_dir@,
                scenario.steps.deep_view(),
                Seq::empty(),
                Seq::empty(),
            ),
            run_ordered(r.deep_view()),
    {
        let overrides: Vec<(String, LiteralValue)> = Vec::new();
        let secrets: Vec<(String, String)> = Vec::new();
        assert(overrides.deep_view() =~= Seq::empty());
        assert(secrets.deep_view() =~= Seq::empty());
        self.execute_with_vars(scenario, &overrides, &secrets)
    }

    /// The run of a scenario before its first step.
    pub fn execute_with_vars(
        &self,
        scenario: &Scenario,
        overrides: &Vec<(String, LiteralValue)>,
        secret_overrides: &Vec<(String, String)>,
    ) -> (r: Run)
        ensures
            r.deep_view() == started(
                self.artifacts_dir@,
                scenario.steps.deep_view(),
                overrides.deep_view(),
                secret_overrides.deep_view(),
            ),
            run_ordered(r.deep_view()),
    {
        proof {
            crate::laws::law_run_begins_ordered(
                self.artifacts_dir@,
                scenario.steps.deep_view(),
                overrides.deep_view(),
                secret_overrides.deep_view(),
            );
        }
        let mut secrets = SecretStore::new();
        let mut i: usize = 0;
        while i < secret_overrides.len()
            invariant
                i <= secret_overrides.len(),
                secrets.deep_view().usage == Seq::<(Seq<char>, ())>::empty(),
                inserted_all(secret_overrides.deep_view(), 0, Seq::empty()) == inserted_all(
                    secret_overrides.deep_view(),
                    i as int,
                    secrets.deep_view().values,
                ),
            decreases secret_overrides.len() - i,
        {
            assert(secret_overrides.deep_view()[i as int] == (
                secret_overrides[i as int].0@,
                secret_overrides[i as int].1@,
            ));
            secrets.set(secret_overrides[i].0.clone(), secret_overrides[i].1.clone());
            i += 1;
        }
        let mut stack: Vec<Frame> = Vec::new();
        assert(stack.deep_view() =~= Seq::empty());
        push_frame(&mut stack, Frame::Block { steps: copy_steps(&scenario.steps), next: 0 });
        assert(stack.deep_view() =~= seq![
            FrameView::Block { steps: scenario.steps.deep_view(), next: 0 },
        ]);
        let store: Vec<(String, StoredArtifact)> = Vec::new();
        let report: Vec<StepExecution> = Vec::new();
        assert(store.deep_view() =~= Seq::empty());
        assert(report.deep_view() =~= Seq::empty());
        Run {
            directory: self.artifacts_dir.clone(),
            overrides: table_of_bindings(overrides),
            variables: table_of_bindings(overrides),
            secrets,
            store,
            report,
            stack,
            pending: Pending::Idle,
        }
    }
}

/// The artifacts of a store, in the order of their names.
pub open spec fn stored(store: Seq<(Seq<char>, ArtifactView)>) -> Seq<ArtifactView> {
    Seq::new(store.len(), |i: int| store[i].1)
}

impl Run {
    /// Whether the run has ended.
    pub fn is_finished(&self) -> (r: bool)
        ensures
            r == (self.deep_view().stack.len() == 0 && self.deep_view().pending is Idle),
    {
        let idle = match &self.pending {
            Pending::Idle => true,
            _ => false,
        };
        self.stack.len() == 0 && idle
    }

    /// What the run has left so far.
    pub fn outcome(self) -> (r: ExecutionOutcome)
        ensures
            r.deep_view() == (OutcomeView {
                report: self.deep_view().report,
                artifacts: stored(self.deep_view().store),
            }),
    {
        let Run { directory, overrides, variables, secrets, store, report, stack, pending } = self;
        let mut artifacts: Vec<StoredArtifact> = Vec::new();
        let mut i: usize = 0;
        while i < store.len()
            invariant
                i <= store.len(),
                artifacts.deep_view() == stored(store.deep_view()).take(i as int),
            decreases store.len() - i,
        {
            let item = store[i].1.copy();
            let ghost before = artifacts.deep_view();
            artifacts.push(item);
            assert(artifacts.deep_view() =~= before.push(item.deep_view()));
            assert(store.deep_view()[i as int] == (store[i as int].0@, store[i as int].1.deep_view()));
            assert(artifacts.deep_view() =~= stored(store.deep_view()).take(i + 1));
            i += 1;
        }
        assert(stored(store.deep_view()).take(store.len() as int) =~= stored(store.deep_view()));
        ExecutionOutcome { report: ExecutionReport { steps: report }, artifacts }
    }
}

} // verus!
