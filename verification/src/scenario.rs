//! The parsed program: a scenario is an ordered list of steps, some of which
//! hold steps of their own.

use crate::assoc::ascending;
use crate::expression::{
    condition_ordered, iterable_ordered, literal_ordered, Condition, ConditionExpr, Iterable,
    Literal, LiteralValue, LoopIterable,
};
use vstd::prelude::*;

verus! {

/// `import <path>`: another scenario file is to be read in place of the step.
#[derive(Debug)]
pub struct ImportStep {
    pub path: String,
}

/// `asset_group <name> { .. }`: a named group of assets with its properties.
#[derive(Debug)]
pub struct AssetGroupStep {
    pub name: String,
    pub properties: Vec<(String, String)>,
}

/// `scan <name> using <tool> { .. }`: a scanning tool is run with parameters.
#[derive(Debug)]
pub struct ScanStep {
    pub name: String,
    pub tool: String,
    pub params: Vec<(String, String)>,
    pub output: Option<String>,
}

/// `script <name> { .. }`: a command is run.
#[derive(Debug)]
pub struct ScriptStep {
    pub name: String,
    pub params: Vec<(String, String)>,
    pub output: Option<String>,
}

/// `let <name> = <literal>`: a variable is bound.
#[derive(Debug)]
pub struct VariableDecl {
    pub name: String,
    pub value: LiteralValue,
}

/// Where a secret comes from.
#[derive(Debug)]
pub enum SecretSource {
    /// Environment variables, each under an alias.
    Env { mappings: Vec<(String, String)> },
    /// The whole content of a file.
    File { path: String },
    /// A vault; recognised, and not served.
    Vault { path: String },
}

/// `secret <name> from <source>`: a secret is loaded.
#[derive(Debug)]
pub struct SecretStep {
    pub name: String,
    pub source: SecretSource,
}

/// The form of a report.
#[derive(Clone, Copy, Debug, PartialEq, Eq, Structural)]
pub enum ReportFormat {
    Stdout,
    Html,
    Markdown,
    Sarif,
}

/// `report <name> using <format> { .. }`: artifacts are gathered into a
/// report.
#[derive(Debug)]
pub struct ReportStep {
    pub name: String,
    pub format: ReportFormat,
    pub includes: Vec<String>,
    pub options: Vec<(String, String)>,
    pub output: Option<String>,
}

/// `if <condition> { .. } else { .. }`: one of two lists of steps is run.
#[derive(Debug)]
pub struct ConditionalStep {
    pub condition: ConditionExpr,
    pub then_steps: Vec<Step>,
    pub else_steps: Vec<Step>,
}

/// `for <iterator> in <source> { .. }`: a list of steps is run once for each
/// item.
#[derive(Debug)]
pub struct LoopStep {
    pub iterator: String,
    pub iterable: LoopIterable,
    pub body: Vec<Step>,
}

/// One statement of a scenario.
#[derive(Debug)]
pub enum Step {
    Import(ImportStep),
    AssetGroup(AssetGroupStep),
    Scan(ScanStep),
    Variable(VariableDecl),
    Secret(SecretStep),
    Script(ScriptStep),
    Report(ReportStep),
    Conditional(ConditionalStep),
    Loop(LoopStep),
}

/// A parsed scenario: its steps in order, and the paths of all its imports.
#[derive(Debug)]
pub struct Scenario {
    pub steps: Vec<Step>,
    pub imports: Vec<String>,
}

// ---------------------------------------------------------------------------
// Views
// ---------------------------------------------------------------------------

/// The mathematical value of a `SecretSource`.
pub enum SecretOrigin {
    Env { mappings: Seq<(Seq<char>, Seq<char>)> },
    File { path: Seq<char> },
    Vault { path: Seq<char> },
}

/// The mathematical value of a step.
pub enum StepView {
    Import { path: Seq<char> },
    AssetGroup { name: Seq<char>, properties: Seq<(Seq<char>, Seq<char>)> },
    Scan {
        name: Seq<char>,
        tool: Seq<char>,
        params: Seq<(Seq<char>, Seq<char>)>,
        output: Option<Seq<char>>,
    },
    Variable { name: Seq<char>, value: Literal },
    Secret { name: Seq<char>, source: SecretOrigin },
    Script { name: Seq<char>, params: Seq<(Seq<char>, Seq<char>)>, output: Option<Seq<char>> },
    Report {
        name: Seq<char>,
        format: ReportFormat,
        includes: Seq<Seq<char>>,
        options: Seq<(Seq<char>, Seq<char>)>,
        output: Option<Seq<char>>,
    },
    Conditional { condition: Condition, then_steps: Seq<StepView>, else_steps: Seq<StepView> },
    Loop { iterator: Seq<char>, iterable: Iterable, body: Seq<StepView> },
}

/// The mathematical value of a `Scenario`.
pub struct ScenarioView {
    pub steps: Seq<StepView>,
    pub imports: Seq<Seq<char>>,
}

impl DeepView for ImportStep {
    type V = StepView;

    open spec fn deep_view(&self) -> StepView {
        StepView::Import { path: self.path@ }
    }
}

impl DeepView for AssetGroupStep {
    type V = StepView;

    open spec fn deep_view(&self) -> StepView {
        StepView::AssetGroup { name: self.name@, properties: self.properties.deep_view() }
    }
}

impl DeepView for ScanStep {
    type V = StepView;

    open spec fn deep_view(&self) -> StepView {
        StepView::Scan {
            name: self.name@,
            tool: self.tool@,
            params: self.params.deep_view(),
            output: self.output.deep_view(),
        }
    }
}

impl DeepView for ScriptStep {
    type V = StepView;

    open spec fn deep_view(&self) -> StepView {
        StepView::Script {
            name: self.name@,
            params: self.params.deep_view(),
            output: self.output.deep_view(),
        }
    }
}

impl DeepView for VariableDecl {
    type V = StepView;

    open spec fn deep_view(&self) -> StepView {
        StepView::Variable { name: self.name@, value: self.value.deep_view() }
    }
}

impl DeepView for SecretSource {
    type V = SecretOrigin;

    open spec fn deep_view(&self) -> SecretOrigin {
        match self {
            SecretSource::Env { mappings } => SecretOrigin::Env { mappings: mappings.deep_view() },
            SecretSource::File { path } => SecretOrigin::File { path: path@ },
            SecretSource::Vault { path } => SecretOrigin::Vault { path: path@ },
        }
    }
}

impl DeepView for SecretStep {
    type V = StepView;

    open spec fn deep_view(&self) -> StepView {
        StepView::Secret { name: self.name@, source: self.source.deep_view() }
    }
}

impl DeepView for ReportStep {
    type V = StepView;

    open spec fn deep_view(&self) -> StepView {
        StepView::Report {
            name: self.name@,
            format: self.format,
            includes: self.includes.deep_view(),
            options: self.options.deep_view(),
            output: self.output.deep_view(),
        }
    }
}

/// The mathematical value of a step.
pub open spec fn step_view(step: Step) -> StepView
    decreases step, 0nat,
{
    match step {
        Step::Import(s) => s.deep_view(),
        Step::AssetGroup(s) => s.deep_view(),
        Step::Scan(s) => s.deep_view(),
        Step::Variable(s) => s.deep_view(),
        Step::Secret(s) => s.deep_view(),
        Step::Script(s) => s.deep_view(),
        Step::Report(s) => s.deep_view(),
        Step::Conditional(s) => StepView::Conditional {
            condition: s.condition.deep_view(),
            then_steps: steps_view(s.then_steps, s.then_steps.len() as nat),
            else_steps: steps_view(s.else_steps, s.else_steps.len() as nat),
        },
        Step::Loop(s) => StepView::Loop {
            iterator: s.iterator@,
            iterable: s.iterable.deep_view(),
            body: steps_view(s.body, s.body.len() as nat),
        },
    }
}

/// The views of the first `n` steps.
pub open spec fn steps_view(steps: Vec<Step>, n: nat) -> Seq<StepView>
    decreases steps, n,
{
    if 0 < n <= steps.len() {
        steps_view(steps, (n - 1) as nat).push(step_view(steps[n - 1]))
    } else {
        Seq::empty()
    }
}

impl DeepView for Step {
    type V = StepView;

    open spec fn deep_view(&self) -> StepView {
        step_view(*self)
    }
}

impl DeepView for ConditionalStep {
    type V = StepView;

    open spec fn deep_view(&self) -> StepView {
        StepView::Conditional {
            condition: self.condition.deep_view(),
            then_steps: self.then_steps.deep_view(),
            else_steps: self.else_steps.deep_view(),
        }
    }
}

impl DeepView for LoopStep {
    type V = StepView;

    open spec fn deep_view(&self) -> StepView {
        StepView::Loop {
            iterator: self.iterator@,
            iterable: self.iterable.deep_view(),
            body: self.body.deep_view(),
        }
    }
}

impl DeepView for Scenario {
    type V = ScenarioView;

    open spec fn deep_view(&self) -> ScenarioView {
        ScenarioView { steps: self.steps.deep_view(), imports: self.imports.deep_view() }
    }
}

proof fn lemma_steps_view_prefix(steps: Vec<Step>, n: nat)
    requires
        n <= steps.len(),
    ensures
        steps_view(steps, n) == steps.deep_view().take(n as int),
    decreases n,
{
    if n > 0 {
        lemma_steps_view_prefix(steps, (n - 1) as nat);
        assert(steps.deep_view().take(n as int) =~= steps.deep_view().take(n - 1).push(
            step_view(steps[n - 1]),
        ));
    } else {
        assert(steps.deep_view().take(0) =~= Seq::empty());
    }
}

/// The views of all steps of a vector are the view of the vector.
pub proof fn lemma_steps_view(steps: Vec<Step>)
    ensures
        steps_view(steps, steps.len() as nat) == steps.deep_view(),
{
    lemma_steps_view_prefix(steps, steps.len() as nat);
    assert(steps.deep_view().take(steps.len() as int) =~= steps.deep_view());
}

/// The view of a conditional step is the view of what it holds.
pub proof fn lemma_conditional_view(step: ConditionalStep)
    ensures
        Step::Conditional(step).deep_view() == step.deep_view(),
{
    lemma_steps_view(step.then_steps);
    lemma_steps_view(step.else_steps);
}

/// The view of a loop step is the view of what it holds.
pub proof fn lemma_loop_view(step: LoopStep)
    ensures
        Step::Loop(step).deep_view() == step.deep_view(),
{
    lemma_steps_view(step.body);
}

// ---------------------------------------------------------------------------
// Well-formed steps
// ---------------------------------------------------------------------------

/// Whether the tables of a step, and of the steps and literals it holds,
/// stand in the order of their keys, each key once.
pub open spec fn step_well_formed(step: StepView) -> bool
    decreases step, 0nat,
{
    match step {
        StepView::Import { .. } => true,
        StepView::AssetGroup { properties, .. } => ascending(properties),
        StepView::Scan { params, .. } => ascending(params),
        StepView::Variable { value, .. } => literal_ordered(value),
        StepView::Secret { source, .. } => match source {
            SecretOrigin::Env { mappings } => ascending(mappings),
            _ => true,
        },
        StepView::Script { params, .. } => ascending(params),
        StepView::Report { options, .. } => ascending(options),
        StepView::Conditional { condition, then_steps, else_steps } => condition_ordered(condition)
            && steps_well_formed(then_steps, then_steps.len()) && steps_well_formed(
            else_steps,
            else_steps.len(),
        ),
        StepView::Loop { iterable, body, .. } => iterable_ordered(iterable) && steps_well_formed(
            body,
            body.len(),
        ),
    }
}

/// Whether the first `n` steps are well formed.
pub open spec fn steps_well_formed(steps: Seq<StepView>, n: nat) -> bool
    decreases steps, n,
{
    if 0 < n <= steps.len() {
        steps_well_formed(steps, (n - 1) as nat) && step_well_formed(steps[n - 1])
    } else {
        true
    }
}

/// Whether the steps of a scenario are well formed.
pub open spec fn scenario_well_formed(scenario: ScenarioView) -> bool {
    steps_well_formed(scenario.steps, scenario.steps.len())
}

/// The first `n` steps are well formed where each of them is.
pub proof fn lemma_steps_well_formed(steps: Seq<StepView>, n: nat)
    requires
        n <= steps.len(),
    ensures
        steps_well_formed(steps, n) <==> forall|i: int|
            0 <= i < n ==> step_well_formed(#[trigger] steps[i]),
    decreases n,
{
    if n > 0 {
        lemma_steps_well_formed(steps, (n - 1) as nat);
    }
}

/// Well-formed steps with a well-formed step behind them are well formed.
pub proof fn lemma_pushed_well_formed(steps: Seq<StepView>, step: StepView)
    requires
        steps_well_formed(steps, steps.len()),
        step_well_formed(step),
    ensures
        steps_well_formed(steps.push(step), steps.len() + 1),
{
    let after = steps.push(step);
    lemma_steps_well_formed(steps, steps.len());
    lemma_steps_well_formed(after, after.len());
    assert forall|i: int| 0 <= i < after.len() implies step_well_formed(#[trigger] after[i]) by {
        if i < steps.len() {
            assert(after[i] == steps[i]);
        }
    }
}

// ---------------------------------------------------------------------------
// Copies
// ---------------------------------------------------------------------------

/// A copy of a text that may be absent.
pub fn copy_option(value: &Option<String>) -> (r: Option<String>)
    ensures
        r.deep_view() == value.deep_view(),
{
    match value {
        Some(text) => Some(text.clone()),
        None => None,
    }
}

/// A copy of a table of strings.
pub fn copy_table(table: &Vec<(String, String)>) -> (r: Vec<(String, String)>)
    ensures
        r.deep_view() == table.deep_view(),
{
    let mut out: Vec<(String, String)> = Vec::new();
    let mut i: usize = 0;
    while i < table.len()
        invariant
            i <= table.len(),
            out.deep_view() == table.deep_view().take(i as int),
        decreases table.len() - i,
    {
        let key = table[i].0.clone();
        let value = table[i].1.clone();
        let ghost before = out.deep_view();
        out.push((key, value));
        assert(out.deep_view() =~= before.push((key@, value@)));
        assert(table.deep_view().take(i + 1) =~= table.deep_view().take(i as int).push(
            (table[i as int].0@, table[i as int].1@),
        ));
        i += 1;
    }
    assert(table.deep_view().take(table.len() as int) =~= table.deep_view());
    out
}

/// A copy of a list of strings.
pub fn copy_list(list: &Vec<String>) -> (r: Vec<String>)
    ensures
        r.deep_view() == list.deep_view(),
{
    let mut out: Vec<String> = Vec::new();
    let mut i: usize = 0;
    while i < list.len()
        invariant
            i <= list.len(),
            out.deep_view() == list.deep_view().take(i as int),
        decreases list.len() - i,
    {
        let item = list[i].clone();
        let ghost before = out.deep_view();
        out.push(item);
        assert(out.deep_view() =~= before.push(item@));
        assert(list.deep_view().take(i + 1) =~= list.deep_view().take(i as int).push(
            list[i as int]@,
        ));
        i += 1;
    }
    assert(list.deep_view().take(list.len() as int) =~= list.deep_view());
    out
}

impl SecretSource {
    /// A copy of the source.
    pub fn copy(&self) -> (r: SecretSource)
        ensures
            r.deep_view() == self.deep_view(),
    {
        match self {
            SecretSource::Env { mappings } => SecretSource::Env { mappings: copy_table(mappings) },
            SecretSource::File { path } => SecretSource::File { path: path.clone() },
            SecretSource::Vault { path } => SecretSource::Vault { path: path.clone() },
        }
    }
}

impl Step {
    /// A copy of the step, with copies of the steps it holds.
    pub fn copy(&self) -> (r: Step)
        ensures
            r.deep_view() == self.deep_view(),
        decreases self, 0nat,
    {
        match self {
            Step::Import(s) => Step::Import(ImportStep { path: s.path.clone() }),
            Step::AssetGroup(s) => Step::AssetGroup(
                AssetGroupStep { name: s.name.clone(), properties: copy_table(&s.properties) },
            ),
            Step::Scan(s) => Step::Scan(
                ScanStep {
                    name: s.name.clone(),
                    tool: s.tool.clone(),
                    params: copy_table(&s.params),
                    output: copy_option(&s.output),
                },
            ),
            Step::Variable(s) => Step::Variable(
                VariableDecl { name: s.name.clone(), value: s.value.copy() },
            ),
            Step::Secret(s) => Step::Secret(
                SecretStep { name: s.name.clone(), source: s.source.copy() },
            ),
            Step::Script(s) => Step::Script(
                ScriptStep {
                    name: s.name.clone(),
                    params: copy_table(&s.params),
                    output: copy_option(&s.output),
                },
            ),
            Step::Report(s) => Step::Report(
                ReportStep {
                    name: s.name.clone(),
                    format: s.format,
                    includes: copy_list(&s.includes),
                    options: copy_table(&s.options),
                    output: copy_option(&s.output),
                },
            ),
            Step::Conditional(s) => {
                proof {
                    assert((*self)->Conditional_0 == *s);
                    lemma_conditional_view(*s);
                }
                let copied = ConditionalStep {
                    condition: s.condition.copy(),
                    then_steps: copy_steps(&s.then_steps),
                    else_steps: copy_steps(&s.else_steps),
                };
                proof {
                    lemma_conditional_view(copied);
                }
                Step::Conditional(copied)
            },
            Step::Loop(s) => {
                proof {
                    assert((*self)->Loop_0 == *s);
                    lemma_loop_view(*s);
                }
                let copied = LoopStep {
                    iterator: s.iterator.clone(),
                    iterable: s.iterable.copy(),
                    body: copy_steps(&s.body),
                };
                proof {
                    lemma_loop_view(copied);
                }
                Step::Loop(copied)
            },
        }
    }
}

/// Copies of the steps, in order.
pub fn copy_steps(steps: &Vec<Step>) -> (r: Vec<Step>)
    ensures
        r.deep_view() == steps.deep_view(),
    decreases steps, 1nat,
{
    let mut out: Vec<Step> = Vec::new();
    let mut i: usize = 0;
    while i < steps.len()
        invariant
            i <= steps.len(),
            out.deep_view() == steps.deep_view().take(i as int),
        decreases steps.len() - i,
    {
        proof {
            vstd::std_specs::vec::axiom_vec_index_decreases(*steps, i as int);
        }
        let item = steps[i].copy();
        let ghost before = out.deep_view();
        out.push(item);
        assert(out.deep_view() =~= before.push(item.deep_view()));
        assert(steps.deep_view().take(i + 1) =~= steps.deep_view().take(i as int).push(
            steps[i as int].deep_view(),
        ));
        i += 1;
    }
    assert(steps.deep_view().take(steps.len() as int) =~= steps.deep_view());
    out
}

} // verus!
