//! What a scenario holds, for a plan: the number of its steps, and its
//! imports, variables, asset groups, scans, scripts and reports.

use crate::assoc::{inserted, lookup};
use crate::expression::{literal_text, Literal, LiteralValue};
use crate::scenario::{
    copy_list, copy_option, copy_table, lemma_conditional_view, lemma_loop_view, Scenario,
    ScenarioView, Step, StepView,
};
use crate::text::{append, append_str, chars_of, decimal, decimal_text, string_of};
use vstd::prelude::*;

verus! {

/// An asset group in a summary.
#[derive(Debug)]
pub struct AssetGroupSummary {
    pub name: String,
    pub properties: Vec<(String, String)>,
}

/// A scan in a summary.
#[derive(Debug)]
pub struct ScanSummary {
    pub name: String,
    pub tool: String,
    pub output: Option<String>,
}

/// A script in a summary.
#[derive(Debug)]
pub struct ScriptSummary {
    pub name: String,
    pub run: String,
    pub output: Option<String>,
}

/// A report in a summary.
#[derive(Debug)]
pub struct ReportSummary {
    pub name: String,
    pub includes: Vec<String>,
}

/// A variable in a summary.
#[derive(Debug)]
pub struct VariableSummary {
    pub name: String,
    pub value: LiteralValue,
}

/// What a scenario holds: the number of its steps, and what it declares, by
/// kind.
#[derive(Debug)]
pub struct ScenarioSummary {
    pub total_steps: usize,
    pub imports: Vec<String>,
    pub variables: Vec<VariableSummary>,
    pub asset_groups: Vec<AssetGroupSummary>,
    pub scans: Vec<ScanSummary>,
    pub scripts: Vec<ScriptSummary>,
    pub reports: Vec<ReportSummary>,
}

/// The mathematical value of an `AssetGroupSummary`.
pub struct GroupLine {
    pub name: Seq<char>,
    pub properties: Seq<(Seq<char>, Seq<char>)>,
}

/// The mathematical value of a `ScanSummary`.
pub struct ScanLine {
    pub name: Seq<char>,
    pub tool: Seq<char>,
    pub output: Option<Seq<char>>,
}

/// The mathematical value of a `ScriptSummary`.
pub struct ScriptLine {
    pub name: Seq<char>,
    pub run: Seq<char>,
    pub output: Option<Seq<char>>,
}

/// The mathematical value of a `ReportSummary`.
pub struct ReportLine {
    pub name: Seq<char>,
    pub includes: Seq<Seq<char>>,
}

/// The mathematical value of a `VariableSummary`.
pub struct VariableLine {
    pub name: Seq<char>,
    pub value: Literal,
}

/// The mathematical value of a `ScenarioSummary`.
pub struct SummaryView {
    pub total_steps: nat,
    pub imports: Seq<Seq<char>>,
    pub variables: Seq<VariableLine>,
    pub asset_groups: Seq<GroupLine>,
    pub scans: Seq<ScanLine>,
    pub scripts: Seq<ScriptLine>,
    pub reports: Seq<ReportLine>,
}

impl DeepView for AssetGroupSummary {
    type V = GroupLine;

    open spec fn deep_view(&self) -> GroupLine {
        GroupLine { name: self.name@, properties: self.properties.deep_view() }
    }
}

impl DeepView for ScanSummary {
    type V = ScanLine;

    open spec fn deep_view(&self) -> ScanLine {
        ScanLine { name: self.name@, tool: self.tool@, output: self.output.deep_view() }
    }
}

impl DeepView for ScriptSummary {
    type V = ScriptLine;

    open spec fn deep_view(&self) -> ScriptLine {
        ScriptLine { name: self.name@, run: self.run@, output: self.output.deep_view() }
    }
}

impl DeepView for ReportSummary {
    type V = ReportLine;

    open spec fn deep_view(&self) -> ReportLine {
        ReportLine { name: self.name@, includes: self.includes.deep_view() }
    }
}

impl DeepView for VariableSummary {
    type V = VariableLine;

    open spec fn deep_view(&self) -> VariableLine {
        VariableLine { name: self.name@, value: self.value.deep_view() }
    }
}

/// The most steps that a summary counts.
pub open spec fn most_steps() -> nat {
    usize::MAX as nat
}

impl DeepView for ScenarioSummary {
    type V = SummaryView;

    open spec fn deep_view(&self) -> SummaryView {
        SummaryView {
            total_steps: self.total_steps as nat,
            imports: self.imports.deep_view(),
            variables: self.variables.deep_view(),
            asset_groups: self.asset_groups.deep_view(),
            scans: self.scans.deep_view(),
            scripts: self.scripts.deep_view(),
            reports: self.reports.deep_view(),
        }
    }
}

/// The summary of no steps.
pub open spec fn nothing() -> SummaryView {
    SummaryView {
        total_steps: 0,
        imports: Seq::empty(),
        variables: Seq::empty(),
        asset_groups: Seq::empty(),
        scans: Seq::empty(),
        scripts: Seq::empty(),
        reports: Seq::empty(),
    }
}

/// One more step, up to the most that is counted.
pub open spec fn counted(total: nat) -> nat {
    if total < most_steps() {
        total + 1
    } else {
        total
    }
}

/// The summary with the first `n` steps, and the steps they hold, taken
/// up in the order of the text.
pub open spec fn summed(steps: Seq<StepView>, n: nat, done: SummaryView) -> SummaryView
    decreases steps, n,
{
    if 0 < n <= steps.len() {
        summed_step(steps[n - 1], summed(steps, (n - 1) as nat, done))
    } else {
        done
    }
}

/// The summary with one step taken up: the step is counted and noted by
/// its kind; a script is noted with its `run` parameter, if it has one; a
/// conditional and a loop are counted and the steps they hold are taken up.
pub open spec fn summed_step(step: StepView, done: SummaryView) -> SummaryView
    decreases step, 0nat,
{
    let one = SummaryView { total_steps: counted(done.total_steps), ..done };
    match step {
        StepView::Import { path } => one,
        StepView::Secret { name, source } => one,
        StepView::Variable { name, value } => SummaryView {
            variables: one.variables.push(VariableLine { name, value }),
            ..one
        },
        StepView::AssetGroup { name, properties } => SummaryView {
            asset_groups: one.asset_groups.push(GroupLine { name, properties }),
            ..one
        },
        StepView::Scan { name, tool, params, output } => SummaryView {
            scans: one.scans.push(ScanLine { name, tool, output }),
            ..one
        },
        StepView::Script { name, params, output } => match lookup(params, "run"@) {
            Some(run) => SummaryView {
                scripts: one.scripts.push(ScriptLine { name, run, output }),
                ..one
            },
            None => one,
        },
        StepView::Report { name, format, includes, options, output } => SummaryView {
            reports: one.reports.push(ReportLine { name, includes }),
            ..one
        },
        StepView::Conditional { condition, then_steps, else_steps } => summed(
            else_steps,
            else_steps.len(),
            summed(then_steps, then_steps.len(), one),
        ),
        StepView::Loop { iterator, iterable, body } => summed(body, body.len(), one),
    }
}

/// The paths from index `i` on, each put into `done` once, in ascending
/// order.
pub open spec fn sorted_imports(imports: Seq<Seq<char>>, i: int, done: Seq<(Seq<char>, ())>)
    -> Seq<(Seq<char>, ())>
    decreases imports.len() - i,
{
    if i < 0 || i >= imports.len() {
        done
    } else {
        sorted_imports(imports, i + 1, inserted(done, imports[i], ()))
    }
}

/// The keys of a table.
pub open spec fn keys_of(table: Seq<(Seq<char>, ())>) -> Seq<Seq<char>> {
    Seq::new(table.len(), |i: int| table[i].0)
}

/// The summary of a scenario: its steps taken up in order, and its imports,
/// each once, in ascending order.
pub open spec fn summary_of(scenario: ScenarioView) -> SummaryView {
    SummaryView {
        imports: keys_of(sorted_imports(scenario.imports, 0, Seq::empty())),
        ..summed(scenario.steps, scenario.steps.len(), nothing())
    }
}

/// Takes up the steps, and the steps they hold, in the order of the text.
pub fn collect_summary_steps(steps: &Vec<Step>, acc: &mut ScenarioSummary)
    ensures
        final(acc).deep_view() == summed(
            steps.deep_view(),
            steps.deep_view().len(),
            old(acc).deep_view(),
        ),
    decreases steps,
{
    let mut i: usize = 0;
    while i < steps.len()
        invariant
            i <= steps.len(),
            acc.deep_view() == summed(steps.deep_view(), i as nat, old(acc).deep_view()),
        decreases steps.len() - i,
    {
        let ghost before = acc.deep_view();
        proof {
            vstd::std_specs::vec::axiom_vec_index_decreases(*steps, i as int);
            assert(steps.deep_view()[i as int] == steps[i as int].deep_view());
            assert(summed(steps.deep_view(), (i + 1) as nat, old(acc).deep_view()) == summed_step(
                steps[i as int].deep_view(),
                before,
            ));
        }
        if acc.total_steps < usize::MAX {
            acc.total_steps += 1;
        }
        match &steps[i] {
            Step::Import(_) => {},
            Step::Secret(_) => {},
            Step::Variable(var) => {
                let line = VariableSummary { name: var.name.clone(), value: var.value.copy() };
                let ghost before = acc.variables.deep_view();
                acc.variables.push(line);
                assert(acc.variables.deep_view() =~= before.push(line.deep_view()));
            },
            Step::AssetGroup(group) => {
                let line = AssetGroupSummary {
                    name: group.name.clone(),
                    properties: copy_table(&group.properties),
                };
                let ghost before = acc.asset_groups.deep_view();
                acc.asset_groups.push(line);
                assert(acc.asset_groups.deep_view() =~= before.push(line.deep_view()));
            },
            Step::Scan(scan) => {
                let line = ScanSummary {
                    name: scan.name.clone(),
                    tool: scan.tool.clone(),
                    output: copy_option(&scan.output),
                };
                let ghost before = acc.scans.deep_view();
                acc.scans.push(line);
                assert(acc.scans.deep_view() =~= before.push(line.deep_view()));
            },
            Step::Script(script) => {
                match crate::command::get(&script.params, "run") {
                    Some(run) => {
                        let line = ScriptSummary {
                            name: script.name.clone(),
                            run,
                            output: copy_option(&script.output),
                        };
                        let ghost before = acc.scripts.deep_view();
                        acc.scripts.push(line);
                        assert(acc.scripts.deep_view() =~= before.push(line.deep_view()));
                    },
                    None => {},
                }
            },
            Step::Report(report) => {
                let line = ReportSummary {
                    name: report.name.clone(),
                    includes: copy_list(&report.includes),
                };
                let ghost before = acc.reports.deep_view();
                acc.reports.push(line);
                assert(acc.reports.deep_view() =~= before.push(line.deep_view()));
            },
            Step::Conditional(block) => {
                proof {
                    assert(steps[i as int]->Conditional_0 == *block);
                    lemma_conditional_view(*block);
                }
                collect_summary_steps(&block.then_steps, acc);
                collect_summary_steps(&block.else_steps, acc);
            },
            Step::Loop(loop_step) => {
                proof {
                    assert(steps[i as int]->Loop_0 == *loop_step);
                    lemma_loop_view(*loop_step);
                }
                collect_summary_steps(&loop_step.body, acc);
            },
        }
        i += 1;
    }
}

impl Scenario {
    /// The summary of the scenario.
    pub fn summary(&self) -> (r: ScenarioSummary)
        ensures
            r.deep_view() == summary_of(self.deep_view()),
    {
        let mut sorted: Vec<(String, ())> = Vec::new();
        assert(sorted.deep_view() =~= Seq::empty());
        let mut i: usize = 0;
        while i < self.imports.len()
            invariant
                i <= self.imports.len(),
                sorted_imports(self.imports.deep_view(), 0, Seq::empty()) == sorted_imports(
                    self.imports.deep_view(),
                    i as int,
                    sorted.deep_view(),
                ),
            decreases self.imports.len() - i,
        {
            assert(self.imports.deep_view()[i as int] == self.imports[i as int]@);
            crate::assoc::insert(&mut sorted, self.imports[i].clone(), ());
            i += 1;
        }
        let mut imports: Vec<String> = Vec::new();
        let mut k: usize = 0;
        while k < sorted.len()
            invariant
                k <= sorted.len(),
                imports.deep_view() == keys_of(sorted.deep_view()).take(k as int),
            decreases sorted.len() - k,
        {
            let key = sorted[k].0.clone();
            let ghost before = imports.deep_view();
            imports.push(key);
            assert(imports.deep_view() =~= before.push(key@));
            assert(sorted.deep_view()[k as int] == (sorted[k as int].0@, ()));
            assert(imports.deep_view() =~= keys_of(sorted.deep_view()).take(k + 1));
            k += 1;
        }
        assert(keys_of(sorted.deep_view()).take(sorted.len() as int) =~= keys_of(
            sorted.deep_view(),
        ));
        let mut acc = ScenarioSummary {
            total_steps: 0,
            imports: Vec::new(),
            variables: Vec::new(),
            asset_groups: Vec::new(),
            scans: Vec::new(),
            scripts: Vec::new(),
            reports: Vec::new(),
        };
        assert(acc.imports.deep_view() =~= Seq::empty());
        assert(acc.variables.deep_view() =~= Seq::empty());
        assert(acc.asset_groups.deep_view() =~= Seq::empty());
        assert(acc.scans.deep_view() =~= Seq::empty());
        assert(acc.scripts.deep_view() =~= Seq::empty());
        assert(acc.reports.deep_view() =~= Seq::empty());
        collect_summary_steps(&self.steps, &mut acc);
        acc.imports = imports;
        acc
    }
}

// ---------------------------------------------------------------------------
// The summary as text
// ---------------------------------------------------------------------------

/// The first `n` items, each as a line of a list.
pub open spec fn import_lines(imports: Seq<Seq<char>>, n: nat) -> Seq<char>
    decreases n,
{
    if 0 < n <= imports.len() {
        import_lines(imports, (n - 1) as nat) + "  - "@ + imports[n - 1] + "\n"@
    } else {
        Seq::empty()
    }
}

/// The first `n` variables, each as a line of a list.
pub open spec fn variable_lines(variables: Seq<VariableLine>, n: nat) -> Seq<char>
    decreases n,
{
    if 0 < n <= variables.len() {
        variable_lines(variables, (n - 1) as nat) + "  - "@ + variables[n - 1].name + " = "@
            + literal_text(variables[n - 1].value) + "\n"@
    } else {
        Seq::empty()
    }
}

/// The first `n` properties as `key=value`, with `, ` between them.
pub open spec fn properties_text(properties: Seq<(Seq<char>, Seq<char>)>, n: nat) -> Seq<char>
    decreases n,
{
    if 0 < n <= properties.len() {
        properties_text(properties, (n - 1) as nat) + (if n > 1 {
            ", "@
        } else {
            Seq::empty()
        }) + properties[n - 1].0 + "="@ + properties[n - 1].1
    } else {
        Seq::empty()
    }
}

/// The first `n` asset groups, each as a line of a list.
pub open spec fn group_lines(groups: Seq<GroupLine>, n: nat) -> Seq<char>
    decreases n,
{
    if 0 < n <= groups.len() {
        group_lines(groups, (n - 1) as nat) + "  - "@ + groups[n - 1].name + " ("@
            + properties_text(groups[n - 1].properties, groups[n - 1].properties.len()) + ")\n"@
    } else {
        Seq::empty()
    }
}

/// An output name, or `<none>`.
pub open spec fn output_text(output: Option<Seq<char>>) -> Seq<char> {
    match output {
        Some(name) => name,
        None => "<none>"@,
    }
}

/// The first `n` scans, each as a line of a list.
pub open spec fn scan_lines(scans: Seq<ScanLine>, n: nat) -> Seq<char>
    decreases n,
{
    if 0 < n <= scans.len() {
        scan_lines(scans, (n - 1) as nat) + "  - "@ + scans[n - 1].name + " via "@ + scans[n
            - 1].tool + " -> "@ + output_text(scans[n - 1].output) + "\n"@
    } else {
        Seq::empty()
    }
}

/// The first `n` scripts, each as a line of a list.
pub open spec fn script_lines(scripts: Seq<ScriptLine>, n: nat) -> Seq<char>
    decreases n,
{
    if 0 < n <= scripts.len() {
        script_lines(scripts, (n - 1) as nat) + "  - "@ + scripts[n - 1].name + " run "@
            + scripts[n - 1].run + " -> "@ + output_text(scripts[n - 1].output) + "\n"@
    } else {
        Seq::empty()
    }
}

/// The first `n` names, with `, ` between them.
pub open spec fn names_text(names: Seq<Seq<char>>, n: nat) -> Seq<char>
    decreases n,
{
    if 0 < n <= names.len() {
        names_text(names, (n - 1) as nat) + (if n > 1 {
            ", "@
        } else {
            Seq::empty()
        }) + names[n - 1]
    } else {
        Seq::empty()
    }
}

/// The first `n` reports, each as a line of a list.
pub open spec fn report_lines(reports: Seq<ReportLine>, n: nat) -> Seq<char>
    decreases n,
{
    if 0 < n <= reports.len() {
        report_lines(reports, (n - 1) as nat) + "  - "@ + reports[n - 1].name + " (includes: "@
            + names_text(reports[n - 1].includes, reports[n - 1].includes.len()) + ")\n"@
    } else {
        Seq::empty()
    }
}

/// A heading and the lines below it; nothing where there are no lines.
pub open spec fn section(heading: Seq<char>, count: nat, body: Seq<char>) -> Seq<char> {
    if count > 0 {
        heading + body
    } else {
        Seq::empty()
    }
}

/// The summary as text: the number of steps, and a list for each kind of
/// which the scenario holds something.
pub open spec fn summary_text(summary: SummaryView) -> Seq<char> {
    "Steps: "@ + decimal(summary.total_steps) + "\n"@ + section(
        "Imports:\n"@,
        summary.imports.len(),
        import_lines(summary.imports, summary.imports.len()),
    ) + section(
        "Variables:\n"@,
        summary.variables.len(),
        variable_lines(summary.variables, summary.variables.len()),
    ) + section(
        "Asset groups:\n"@,
        summary.asset_groups.len(),
        group_lines(summary.asset_groups, summary.asset_groups.len()),
    ) + section(
        "Scans:\n"@,
        summary.scans.len(),
        scan_lines(summary.scans, summary.scans.len()),
    ) + section(
        "Scripts:\n"@,
        summary.scripts.len(),
        script_lines(summary.scripts, summary.scripts.len()),
    ) + section(
        "Reports:\n"@,
        summary.reports.len(),
        report_lines(summary.reports, summary.reports.len()),
    )
}

fn output_chars(output: &Option<String>) -> (r: Vec<char>)
    ensures
        r@ == output_text(output.deep_view()),
{
    match output {
        Some(name) => chars_of(name.as_str()),
        None => chars_of("<none>"),
    }
}

fn properties_chars(properties: &Vec<(String, String)>) -> (r: Vec<char>)
    ensures
        r@ == properties_text(properties.deep_view(), properties.deep_view().len()),
{
    let mut out: Vec<char> = Vec::new();
    let mut i: usize = 0;
    while i < properties.len()
        invariant
            i <= properties.len(),
            out@ == properties_text(properties.deep_view(), i as nat),
        decreases properties.len() - i,
    {
        assert(properties.deep_view()[i as int] == (
            properties[i as int].0@,
            properties[i as int].1@,
        ));
        let ghost before = out@;
        if i > 0 {
            append_str(&mut out, ", ");
        } else {
            assert(out@ + Seq::<char>::empty() =~= out@);
        }
        append_str(&mut out, properties[i].0.as_str());
        append_str(&mut out, "=");
        append_str(&mut out, properties[i].1.as_str());
        i += 1;
    }
    out
}

fn names_chars(names: &Vec<String>) -> (r: Vec<char>)
    ensures
        r@ == names_text(names.deep_view(), names.deep_view().len()),
{
    let mut out: Vec<char> = Vec::new();
    let mut i: usize = 0;
    while i < names.len()
        invariant
            i <= names.len(),
            out@ == names_text(names.deep_view(), i as nat),
        decreases names.len() - i,
    {
        assert(names.deep_view()[i as int] == names[i as int]@);
        if i > 0 {
            append_str(&mut out, ", ");
        } else {
            assert(out@ + Seq::<char>::empty() =~= out@);
        }
        append_str(&mut out, names[i].as_str());
        i += 1;
    }
    out
}

fn headed(heading: &str, count: usize, body: &Vec<char>) -> (r: Vec<char>)
    ensures
        r@ == section(heading@, count as nat, body@),
{
    if count > 0 {
        let mut out = chars_of(heading);
        append(&mut out, body);
        out
    } else {
        Vec::new()
    }
}

fn imports_section(imports: &Vec<String>) -> (r: Vec<char>)
    ensures
        r@ == section(
            "Imports:\n"@,
            imports.deep_view().len(),
            import_lines(imports.deep_view(), imports.deep_view().len()),
        ),
{
    let mut lines: Vec<char> = Vec::new();
    let mut i: usize = 0;
    while i < imports.len()
        invariant
            i <= imports.len(),
            lines@ == import_lines(imports.deep_view(), i as nat),
        decreases imports.len() - i,
    {
        assert(imports.deep_view()[i as int] == imports[i as int]@);
        append_str(&mut lines, "  - ");
        append_str(&mut lines, imports[i].as_str());
        append_str(&mut lines, "\n");
        i += 1;
    }
    headed("Imports:\n", imports.len(), &lines)
}

fn variables_section(variables: &Vec<VariableSummary>) -> (r: Vec<char>)
    ensures
        r@ == section(
            "Variables:\n"@,
            variables.deep_view().len(),
            variable_lines(variables.deep_view(), variables.deep_view().len()),
        ),
{
    let mut lines: Vec<char> = Vec::new();
    let mut i: usize = 0;
    while i < variables.len()
        invariant
            i <= variables.len(),
            lines@ == variable_lines(variables.deep_view(), i as nat),
        decreases variables.len() - i,
    {
        assert(variables.deep_view()[i as int] == variables[i as int].deep_view());
        append_str(&mut lines, "  - ");
        append_str(&mut lines, variables[i].name.as_str());
        append_str(&mut lines, " = ");
        append(&mut lines, &variables[i].value.display_chars());
        append_str(&mut lines, "\n");
        i += 1;
    }
    headed("Variables:\n", variables.len(), &lines)
}

fn groups_section(groups: &Vec<AssetGroupSummary>) -> (r: Vec<char>)
    ensures
        r@ == section(
            "Asset groups:\n"@,
            groups.deep_view().len(),
            group_lines(groups.deep_view(), groups.deep_view().len()),
        ),
{
    let mut lines: Vec<char> = Vec::new();
    let mut i: usize = 0;
    while i < groups.len()
        invariant
            i <= groups.len(),
            lines@ == group_lines(groups.deep_view(), i as nat),
        decreases groups.len() - i,
    {
        assert(groups.deep_view()[i as int] == groups[i as int].deep_view());
        append_str(&mut lines, "  - ");
        append_str(&mut lines, groups[i].name.as_str());
        append_str(&mut lines, " (");
        append(&mut lines, &properties_chars(&groups[i].properties));
        append_str(&mut lines, ")\n");
        i += 1;
    }
    headed("Asset groups:\n", groups.len(), &lines)
}

fn scans_section(scans: &Vec<ScanSummary>) -> (r: Vec<char>)
    ensures
        r@ == section(
            "Scans:\n"@,
            scans.deep_view().len(),
            scan_lines(scans.deep_view(), scans.deep_view().len()),
        ),
{
    let mut lines: Vec<char> = Vec::new();
    let mut i: usize = 0;
    while i < scans.len()
        invariant
            i <= scans.len(),
            lines@ == scan_lines(scans.deep_view(), i as nat),
        decreases scans.len() - i,
    {
        assert(scans.deep_view()[i as int] == scans[i as int].deep_view());
        append_str(&mut lines, "  - ");
        append_str(&mut lines, scans[i].name.as_str());
        append_str(&mut lines, " via ");
        append_str(&mut lines, scans[i].tool.as_str());
        append_str(&mut lines, " -> ");
        append(&mut lines, &output_chars(&scans[i].output));
        append_str(&mut lines, "\n");
        i += 1;
    }
    headed("Scans:\n", scans.len(), &lines)
}

fn scripts_section(scripts: &Vec<ScriptSummary>) -> (r: Vec<char>)
    ensures
        r@ == section(
            "Scripts:\n"@,
            scripts.deep_view().len(),
            script_lines(scripts.deep_view(), scripts.deep_view().len()),
        ),
{
    let mut lines: Vec<char> = Vec::new();
    let mut i: usize = 0;
    while i < scripts.len()
        invariant
            i <= scripts.len(),
            lines@ == script_lines(scripts.deep_view(), i as nat),
        decreases scripts.len() - i,
    {
        assert(scripts.deep_view()[i as int] == scripts[i as int].deep_view());
        append_str(&mut lines, "  - ");
        append_str(&mut lines, scripts[i].name.as_str());
        append_str(&mut lines, " run ");
        append_str(&mut lines, scripts[i].run.as_str());
        append_str(&mut lines, " -> ");
        append(&mut lines, &output_chars(&scripts[i].output));
        append_str(&mut lines, "\n");
        i += 1;
    }
    headed("Scripts:\n", scripts.len(), &lines)
}

fn reports_section(reports: &Vec<ReportSummary>) -> (r: Vec<char>)
    ensures
        r@ == section(
            "Reports:\n"@,
            reports.deep_view().len(),
            report_lines(reports.deep_view(), reports.deep_view().len()),
        ),
{
    let mut lines: Vec<char> = Vec::new();
    let mut i: usize = 0;
    while i < reports.len()
        invariant
            i <= reports.len(),
            lines@ == report_lines(reports.deep_view(), i as nat),
        decreases reports.len() - i,
    {
        assert(reports.deep_view()[i as int] == reports[i as int].deep_view());
        append_str(&mut lines, "  - ");
        append_str(&mut lines, reports[i].name.as_str());
        append_str(&mut lines, " (includes: ");
        append(&mut lines, &names_chars(&reports[i].includes));
        append_str(&mut lines, ")\n");
        i += 1;
    }
    headed("Reports:\n", reports.len(), &lines)
}

impl ScenarioSummary {
    /// The summary as text.
    pub fn to_text(&self) -> (r: String)
        ensures
            r@ == summary_text(self.deep_view()),
    {
        let mut out = chars_of("Steps: ");
        append(&mut out, &decimal_text(self.total_steps as u64));
        append_str(&mut out, "\n");
        append(&mut out, &imports_section(&self.imports));
        append(&mut out, &variables_section(&self.variables));
        append(&mut out, &groups_section(&self.asset_groups));
        append(&mut out, &scans_section(&self.scans));
        append(&mut out, &scripts_section(&self.scripts));
        append(&mut out, &reports_section(&self.reports));
        string_of(&out)
    }
}

} // verus!
