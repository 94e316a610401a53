//! What holds of every run: its tables stay in the order of their keys, a
//! conditional runs one branch, a loop gives its iterator back, an output
//! name is the name of the artifact, and a report shows no secret.

use crate::artifact::ArtifactView;
use crate::assoc::{
    ascending, inserted, lemma_inserted_all_ascending, lemma_inserted_ascending,
    lemma_inserting_keeps_order, lemma_lookup_inserted_same, lemma_lookup_removed, lookup,
};
use crate::execution::{Execution, ExecutionStatus, StepKind};
use crate::executor::{
    advanced, conditional_step, dispatch, loop_step, report_step, restored, started, with_block,
};
use crate::expression::{Condition, Iterable, Literal};
use crate::handlers::{
    env_event, env_progress, nmap_event, scan_step, scope, script_event, script_step, tool_event,
};
use crate::machine::{
    masked_record, recorded, run_ordered, ActionView, EventView, FrameView, Outcome, PendingView,
    ProcessView, RunView,
};
use crate::nmap::nmap_scan;
use crate::parser::scenario_of;
use crate::resolve::{condition_value, lemma_resolving_keeps_usage};
use crate::scenario::StepView;
use crate::secrets::{lemma_masked_hides, star_free};
use crate::text::occurs_in;
use vstd::prelude::*;

verus! {

// ---------------------------------------------------------------------------
// Parsing
// ---------------------------------------------------------------------------

/// Parsing is deterministic: what a text denotes, a scenario or a failure,
/// depends on the text alone, so that parsing the same text twice gives
/// scenarios that are equal step by step, or the same failure.
pub proof fn law_parse_deterministic(first: Seq<char>, second: Seq<char>)
    requires
        first == second,
    ensures
        scenario_of(first) == scenario_of(second),
{
}

// ---------------------------------------------------------------------------
// Conditionals
// ---------------------------------------------------------------------------

/// A conditional runs one branch: it leaves one record, and the steps that
/// run next are those of the branch that its condition chooses and no
/// others. Where the condition cannot be evaluated, no branch runs.
pub proof fn law_conditional_runs_one_branch(
    state: RunView,
    condition: Condition,
    then_steps: Seq<StepView>,
    else_steps: Seq<StepView>,
)
    ensures
        ({
            let after = conditional_step(state, condition, then_steps, else_steps);
            &&& after.1 == ActionView::Continue
            &&& after.0.report.len() == state.report.len() + 1
            &&& after.0.report.take(state.report.len() as int) == state.report
            &&& after.0.report.last().kind == StepKind::Conditional
            &&& match condition_value(condition, scope(state), state.secrets.usage).outcome {
                Ok(chosen) => after.0.stack == with_block(
                    state.stack,
                    if chosen {
                        then_steps
                    } else {
                        else_steps
                    },
                ) && after.0.report.last().status == ExecutionStatus::Completed,
                Err(_) => after.0.stack == state.stack && after.0.report.last().status
                    == ExecutionStatus::Failed,
            }
        }),
{
    let after = conditional_step(state, condition, then_steps, else_steps);
    assert(after.0.report.take(state.report.len() as int) =~= state.report);
}

// ---------------------------------------------------------------------------
// Loops
// ---------------------------------------------------------------------------

/// What was bound to the iterator before a loop is bound to it again when
/// the variables are restored; it is unbound if it was.
pub proof fn lemma_restored_binding(
    variables: Seq<(Seq<char>, Literal)>,
    iterator: Seq<char>,
    previous: Option<Literal>,
)
    requires
        ascending(variables),
    ensures
        lookup(restored(variables, iterator, previous), iterator) == previous,
        ascending(restored(variables, iterator, previous)),
{
    match previous {
        Some(value) => {
            lemma_lookup_inserted_same(variables, iterator, value);
            lemma_inserted_ascending(variables, iterator, value);
        },
        None => {
            lemma_lookup_removed(variables, iterator);
        },
    }
}

/// A loop that begins keeps what its iterator is bound to.
pub proof fn law_loop_keeps_binding(
    state: RunView,
    iterator: Seq<char>,
    iterable: Iterable,
    body: Seq<StepView>,
)
    ensures
        ({
            let after = loop_step(state, iterator, iterable, body).0;
            after.stack.len() > state.stack.len() ==> after.stack.len() == state.stack.len() + 1
                && after.variables == state.variables && (after.stack.last() matches FrameView::Walk {
                iterator: i,
                previous: p,
                ..
            } && i == iterator && p == lookup(state.variables, iterator))
        }),
{
}

/// The state of a run after the first `n` of the host's answers.
pub open spec fn run_for(state: RunView, answers: Seq<(EventView, Seq<char>)>, n: nat) -> RunView
    decreases n,
{
    if 0 < n <= answers.len() {
        advanced(run_for(state, answers, (n - 1) as nat), answers[n - 1].0, answers[n - 1].1).0
    } else {
        state
    }
}

/// The frame at `depth` is a loop over `iterator` that keeps `previous`.
pub open spec fn loop_at(
    stack: Seq<FrameView>,
    depth: int,
    iterator: Seq<char>,
    previous: Option<Literal>,
) -> bool {
    0 <= depth < stack.len() && (stack[depth] matches FrameView::Walk {
        iterator: i,
        previous: p,
        ..
    } && i == iterator && p == previous)
}

proof fn lemma_env_progress_frames(
    state: RunView,
    name: Seq<char>,
    mappings: Seq<(Seq<char>, Seq<char>)>,
    index: int,
    aggregated: Seq<(Seq<char>, Seq<char>)>,
)
    ensures
        env_progress(state, name, mappings, index, aggregated).0.stack == state.stack,
        env_progress(state, name, mappings, index, aggregated).0.variables == state.variables,
    decreases mappings.len() - index,
{
    if 0 <= index < mappings.len() {
        match lookup(state.secrets.values, crate::handlers::scoped_key(name, mappings[index].0)) {
            Some(existing) => {
                lemma_env_progress_frames(
                    state,
                    name,
                    mappings,
                    index + 1,
                    inserted(aggregated, mappings[index].0, existing),
                );
            },
            None => {},
        }
    }
}

proof fn lemma_env_event_frames(
    state: RunView,
    name: Seq<char>,
    mappings: Seq<(Seq<char>, Seq<char>)>,
    index: int,
    aggregated: Seq<(Seq<char>, Seq<char>)>,
    event: EventView,
)
    ensures
        env_event(state, name, mappings, index, aggregated, event).0.stack == state.stack,
        env_event(state, name, mappings, index, aggregated, event).0.variables == state.variables,
{
    lemma_env_progress_frames(state, name, mappings, index, aggregated);
    if 0 <= index < mappings.len() {
        match crate::handlers::env_answer(event) {
            Ok(value) => {
                lemma_env_progress_frames(
                    crate::handlers::with_secrets(
                        state,
                        crate::secrets::kept_or_inserted(
                            state.secrets.values,
                            crate::handlers::scoped_key(name, mappings[index].0),
                            value,
                        ),
                    ),
                    name,
                    mappings,
                    index + 1,
                    inserted(aggregated, mappings[index].0, value),
                );
            },
            Err(_) => {},
        }
    }
}

proof fn lemma_scan_step_frames(
    state: RunView,
    name: Seq<char>,
    tool: Seq<char>,
    params: Seq<(Seq<char>, Seq<char>)>,
    output: Option<Seq<char>>,
)
    ensures
        scan_step(state, name, tool, params, output).0.stack == state.stack,
        scan_step(state, name, tool, params, output).0.variables == state.variables,
{
}

proof fn lemma_script_step_frames(
    state: RunView,
    name: Seq<char>,
    params: Seq<(Seq<char>, Seq<char>)>,
    output: Option<Seq<char>>,
)
    ensures
        script_step(state, name, params, output).0.stack == state.stack,
        script_step(state, name, params, output).0.variables == state.variables,
{
}

proof fn lemma_report_step_frames(
    state: RunView,
    name: Seq<char>,
    format: crate::scenario::ReportFormat,
    includes: Seq<Seq<char>>,
    options: Seq<(Seq<char>, Seq<char>)>,
    output: Option<Seq<char>>,
    now: Seq<char>,
)
    ensures
        report_step(state, name, format, includes, options, output, now).0.stack == state.stack,
        report_step(state, name, format, includes, options, output, now).0.variables
            == state.variables,
{
}

/// A step leaves the frames below the topmost as they are, takes at most
/// one frame off the stack, and keeps the variables a table without double
/// keys.
proof fn lemma_dispatch_frames(state: RunView, step: StepView, now: Seq<char>)
    requires
        ascending(state.variables),
    ensures
        ({
            let after = dispatch(state, step, now).0;
            &&& after.stack.len() >= state.stack.len()
            &&& after.stack.take(state.stack.len() as int) == state.stack
            &&& ascending(after.variables)
        }),
{
    let after = dispatch(state, step, now).0;
    match step {
        StepView::Import { path } => {},
        StepView::Variable { name, value } => {
            let found = lookup(state.overrides, name);
            let r = crate::resolve::resolved_literal(
                match found {
                    Some(o) => o,
                    None => value,
                },
                scope(state),
                state.secrets.usage,
            );
            match r.outcome {
                Ok(v) => {
                    lemma_inserted_ascending(state.variables, name, v);
                },
                Err(_) => {},
            }
        },
        StepView::AssetGroup { name, properties } => {},
        StepView::Scan { name, tool, params, output } => {
            lemma_scan_step_frames(state, name, tool, params, output);
        },
        StepView::Script { name, params, output } => {
            lemma_script_step_frames(state, name, params, output);
        },
        StepView::Secret { name, source } => {
            match source {
                crate::scenario::SecretOrigin::Env { mappings } => {
                    lemma_env_progress_frames(state, name, mappings, 0, Seq::empty());
                },
                _ => {},
            }
        },
        StepView::Report { name, format, includes, options, output } => {
            lemma_report_step_frames(state, name, format, includes, options, output, now);
        },
        StepView::Conditional { condition, then_steps, else_steps } => {},
        StepView::Loop { iterator, iterable, body } => {},
    }
    assert(after.stack.take(state.stack.len() as int) =~= state.stack);
}

/// One step of a run with a loop on its stack: the loop stays where it is,
/// or it was on top and has left the stack, and then its iterator is bound
/// as it was before the loop.
proof fn lemma_step_keeps_loop(
    state: RunView,
    event: EventView,
    now: Seq<char>,
    depth: int,
    iterator: Seq<char>,
    previous: Option<Literal>,
)
    requires
        ascending(state.variables),
        loop_at(state.stack, depth, iterator, previous),
    ensures
        ({
            let after = advanced(state, event, now).0;
            &&& ascending(after.variables)
            &&& after.stack.len() >= depth
            &&& after.stack.len() > depth ==> loop_at(after.stack, depth, iterator, previous)
            &&& after.stack.len() == depth ==> lookup(after.variables, iterator) == previous
        }),
{
    let idle = RunView { pending: PendingView::Idle, ..state };
    let after = advanced(state, event, now).0;
    match state.pending {
        PendingView::Idle => {
            let below = state.stack.drop_last();
            match state.stack.last() {
                FrameView::Block { steps, next } => {
                    if 0 <= next < steps.len() {
                        let entered = RunView {
                            stack: below.push(FrameView::Block { steps, next: next + 1 }),
                            ..state
                        };
                        lemma_dispatch_frames(entered, steps[next], now);
                        assert(after.stack.take(entered.stack.len() as int)[depth]
                            == after.stack[depth]);
                    }
                },
                FrameView::Walk { name, iterator: i, items, next, body, previous: p } => {
                    if 0 <= next < items.len() {
                        lemma_inserted_ascending(state.variables, i, items[next]);
                    } else {
                        lemma_restored_binding(state.variables, i, p);
                    }
                },
            }
        },
        PendingView::Env { name, mappings, index, aggregated } => {
            lemma_env_event_frames(idle, name, mappings, index, aggregated, event);
        },
        PendingView::File { name, path } => {},
        PendingView::Nmap { name, tool, target, output } => {},
        PendingView::Tool { name, tool, params, invocation, output } => {},
        PendingView::Script { name, invocation, output } => {},
        PendingView::Write {
            name,
            kind,
            status,
            prefix,
            artifact,
            strict,
            extension,
            print,
        } => {},
    }
}

/// The variables of a run stay a table in the order of its keys, in which no
/// key occurs twice.
pub proof fn law_variables_stay_ordered(state: RunView, event: EventView, now: Seq<char>)
    requires
        ascending(state.variables),
    ensures
        ascending(advanced(state, event, now).0.variables),
{
    let idle = RunView { pending: PendingView::Idle, ..state };
    match state.pending {
        PendingView::Idle => {
            if state.stack.len() > 0 {
                let below = state.stack.drop_last();
                match state.stack.last() {
                    FrameView::Block { steps, next } => {
                        if 0 <= next < steps.len() {
                            let entered = RunView {
                                stack: below.push(FrameView::Block { steps, next: next + 1 }),
                                ..state
                            };
                            lemma_dispatch_frames(entered, steps[next], now);
                        }
                    },
                    FrameView::Walk { name, iterator, items, next, body, previous } => {
                        if 0 <= next < items.len() {
                            lemma_inserted_ascending(state.variables, iterator, items[next]);
                        } else {
                            lemma_restored_binding(state.variables, iterator, previous);
                        }
                    },
                }
            }
        },
        PendingView::Env { name, mappings, index, aggregated } => {
            lemma_env_event_frames(idle, name, mappings, index, aggregated, event);
        },
        _ => {},
    }
}

proof fn lemma_env_progress_ordered(
    state: RunView,
    name: Seq<char>,
    mappings: Seq<(Seq<char>, Seq<char>)>,
    index: int,
    aggregated: Seq<(Seq<char>, Seq<char>)>,
)
    requires
        run_ordered(state),
    ensures
        run_ordered(env_progress(state, name, mappings, index, aggregated).0),
    decreases mappings.len() - index,
{
    lemma_inserting_keeps_order::<Seq<char>>();
    lemma_inserting_keeps_order::<ArtifactView>();
    lemma_resolving_keeps_usage();
    if 0 <= index < mappings.len() {
        match lookup(state.secrets.values, crate::handlers::scoped_key(name, mappings[index].0)) {
            Some(existing) => {
                lemma_env_progress_ordered(
                    state,
                    name,
                    mappings,
                    index + 1,
                    inserted(aggregated, mappings[index].0, existing),
                );
            },
            None => {},
        }
    }
}

proof fn lemma_env_event_ordered(
    state: RunView,
    name: Seq<char>,
    mappings: Seq<(Seq<char>, Seq<char>)>,
    index: int,
    aggregated: Seq<(Seq<char>, Seq<char>)>,
    event: EventView,
)
    requires
        run_ordered(state),
    ensures
        run_ordered(env_event(state, name, mappings, index, aggregated, event).0),
{
    lemma_inserting_keeps_order::<Seq<char>>();
    lemma_inserting_keeps_order::<ArtifactView>();
    lemma_resolving_keeps_usage();
    lemma_env_progress_ordered(state, name, mappings, index, aggregated);
    if 0 <= index < mappings.len() {
        match crate::handlers::env_answer(event) {
            Ok(value) => {
                lemma_env_progress_ordered(
                    crate::handlers::with_secrets(
                        state,
                        crate::secrets::kept_or_inserted(
                            state.secrets.values,
                            crate::handlers::scoped_key(name, mappings[index].0),
                            value,
                        ),
                    ),
                    name,
                    mappings,
                    index + 1,
                    inserted(aggregated, mappings[index].0, value),
                );
            },
            Err(_) => {},
        }
    }
}

proof fn lemma_orders()
    ensures
        forall|entries: Seq<(Seq<char>, Seq<char>)>, key: Seq<char>, value: Seq<char>|
            ascending(entries) ==> ascending(#[trigger] inserted(entries, key, value)),
        forall|entries: Seq<(Seq<char>, ArtifactView)>, key: Seq<char>, value: ArtifactView|
            ascending(entries) ==> ascending(#[trigger] inserted(entries, key, value)),
        forall|entries: Seq<(Seq<char>, Literal)>, key: Seq<char>, value: Literal|
            ascending(entries) ==> ascending(#[trigger] inserted(entries, key, value)),
{
    lemma_inserting_keeps_order::<Seq<char>>();
    lemma_inserting_keeps_order::<ArtifactView>();
    lemma_inserting_keeps_order::<Literal>();
}

proof fn lemma_variable_ordered(state: RunView, name: Seq<char>, value: Literal)
    requires
        run_ordered(state),
    ensures
        run_ordered(crate::handlers::variable_step(state, name, value).0),
{
    lemma_orders();
    lemma_resolving_keeps_usage();
}

proof fn lemma_asset_group_ordered(
    state: RunView,
    name: Seq<char>,
    properties: Seq<(Seq<char>, Seq<char>)>,
)
    requires
        run_ordered(state),
    ensures
        run_ordered(crate::handlers::asset_group_step(state, name, properties).0),
{
    lemma_orders();
    lemma_resolving_keeps_usage();
}

proof fn lemma_scan_ordered(
    state: RunView,
    name: Seq<char>,
    tool: Seq<char>,
    params: Seq<(Seq<char>, Seq<char>)>,
    output: Option<Seq<char>>,
)
    requires
        run_ordered(state),
    ensures
        run_ordered(scan_step(state, name, tool, params, output).0),
{
    lemma_orders();
    lemma_resolving_keeps_usage();
}

proof fn lemma_script_ordered(
    state: RunView,
    name: Seq<char>,
    params: Seq<(Seq<char>, Seq<char>)>,
    output: Option<Seq<char>>,
)
    requires
        run_ordered(state),
    ensures
        run_ordered(script_step(state, name, params, output).0),
{
    lemma_orders();
    lemma_resolving_keeps_usage();
}

proof fn lemma_report_ordered(
    state: RunView,
    name: Seq<char>,
    format: crate::scenario::ReportFormat,
    includes: Seq<Seq<char>>,
    options: Seq<(Seq<char>, Seq<char>)>,
    output: Option<Seq<char>>,
    now: Seq<char>,
)
    requires
        run_ordered(state),
    ensures
        run_ordered(report_step(state, name, format, includes, options, output, now).0),
{
    lemma_orders();
    lemma_resolving_keeps_usage();
}

proof fn lemma_branching_ordered(state: RunView, step: StepView)
    requires
        run_ordered(state),
    ensures
        step matches StepView::Conditional { condition, then_steps, else_steps } ==> run_ordered(
            conditional_step(state, condition, then_steps, else_steps).0,
        ),
        step matches StepView::Loop { iterator, iterable, body } ==> run_ordered(
            loop_step(state, iterator, iterable, body).0,
        ),
{
    lemma_orders();
    lemma_resolving_keeps_usage();
}

proof fn lemma_dispatch_ordered(state: RunView, step: StepView, now: Seq<char>)
    requires
        run_ordered(state),
    ensures
        run_ordered(dispatch(state, step, now).0),
{
    match step {
        StepView::Import { path } => {},
        StepView::Variable { name, value } => lemma_variable_ordered(state, name, value),
        StepView::AssetGroup { name, properties } => lemma_asset_group_ordered(
            state,
            name,
            properties,
        ),
        StepView::Scan { name, tool, params, output } => lemma_scan_ordered(
            state,
            name,
            tool,
            params,
            output,
        ),
        StepView::Script { name, params, output } => lemma_script_ordered(
            state,
            name,
            params,
            output,
        ),
        StepView::Secret { name, source } => {
            lemma_orders();
            match source {
                crate::scenario::SecretOrigin::Env { mappings } => {
                    lemma_env_progress_ordered(state, name, mappings, 0, Seq::empty());
                },
                _ => {},
            }
        },
        StepView::Report { name, format, includes, options, output } => lemma_report_ordered(
            state,
            name,
            format,
            includes,
            options,
            output,
            now,
        ),
        StepView::Conditional { .. } => lemma_branching_ordered(state, step),
        StepView::Loop { .. } => lemma_branching_ordered(state, step),
    }
}

/// A run begins with its tables in the order of their keys, each key once,
/// whatever overrides it is given.
pub proof fn law_run_begins_ordered(
    directory: Seq<char>,
    steps: Seq<StepView>,
    overrides: Seq<(Seq<char>, Literal)>,
    secrets: Seq<(Seq<char>, Seq<char>)>,
)
    ensures
        run_ordered(started(directory, steps, overrides, secrets)),
{
    lemma_inserted_all_ascending(overrides, 0, Seq::empty());
    lemma_inserted_all_ascending(secrets, 0, Seq::empty());
}

/// The tables of a run stay in the order of their keys, each key once,
/// whatever the host answers.
pub proof fn law_run_stays_ordered(state: RunView, event: EventView, now: Seq<char>)
    requires
        run_ordered(state),
    ensures
        run_ordered(advanced(state, event, now).0),
{
    law_variables_stay_ordered(state, event, now);
    lemma_inserting_keeps_order::<Seq<char>>();
    lemma_inserting_keeps_order::<ArtifactView>();
    lemma_resolving_keeps_usage();
    let idle = RunView { pending: PendingView::Idle, ..state };
    match state.pending {
        PendingView::Env { name, mappings, index, aggregated } => {
            lemma_env_event_ordered(idle, name, mappings, index, aggregated, event);
        },
        PendingView::Idle => {
            if state.stack.len() > 0 {
                let below = state.stack.drop_last();
                match state.stack.last() {
                    FrameView::Block { steps, next } => {
                        if 0 <= next < steps.len() {
                            let entered = RunView {
                                stack: below.push(FrameView::Block { steps, next: next + 1 }),
                                ..state
                            };
                            lemma_dispatch_ordered(entered, steps[next], now);
                        }
                    },
                    FrameView::Walk { name, iterator, items, next, body, previous } => {},
                }
            }
        },
        _ => {},
    }
}

/// A loop gives its iterator back: when the loop has left the stack, the
/// iterator is bound to what it was bound to when the loop began, and is
/// unbound if it was unbound then, whatever the steps of the loop did to the
/// variables. `depth` is the place of the loop on the stack; the loop leaves
/// the stack with the `n`-th answer.
pub proof fn law_loop_restores_iterator(
    state: RunView,
    answers: Seq<(EventView, Seq<char>)>,
    n: nat,
    depth: int,
    iterator: Seq<char>,
    previous: Option<Literal>,
)
    requires
        ascending(state.variables),
        loop_at(state.stack, depth, iterator, previous),
        n <= answers.len(),
        forall|k: nat| k < n ==> (#[trigger] run_for(state, answers, k)).stack.len() > depth,
        run_for(state, answers, n).stack.len() == depth,
    ensures
        lookup(run_for(state, answers, n).variables, iterator) == previous,
{
    lemma_loop_stays(state, answers, (n - 1) as nat, depth, iterator, previous);
    let before = run_for(state, answers, (n - 1) as nat);
    assert(n > 0) by {
        if n == 0 {
            assert(run_for(state, answers, 0).stack.len() > depth);
        }
    }
    lemma_step_keeps_loop(before, answers[n - 1].0, answers[n - 1].1, depth, iterator, previous);
}

/// While the loop is on the stack, it keeps its iterator and what the
/// iterator was bound to.
proof fn lemma_loop_stays(
    state: RunView,
    answers: Seq<(EventView, Seq<char>)>,
    n: nat,
    depth: int,
    iterator: Seq<char>,
    previous: Option<Literal>,
)
    requires
        ascending(state.variables),
        loop_at(state.stack, depth, iterator, previous),
        n <= answers.len(),
        forall|k: nat| k <= n ==> (#[trigger] run_for(state, answers, k)).stack.len() > depth,
    ensures
        ascending(run_for(state, answers, n).variables),
        loop_at(run_for(state, answers, n).stack, depth, iterator, previous),
    decreases n,
{
    if n > 0 {
        lemma_loop_stays(state, answers, (n - 1) as nat, depth, iterator, previous);
        let before = run_for(state, answers, (n - 1) as nat);
        lemma_step_keeps_loop(
            before,
            answers[n - 1].0,
            answers[n - 1].1,
            depth,
            iterator,
            previous,
        );
        assert(run_for(state, answers, n).stack.len() > depth);
    }
}

// ---------------------------------------------------------------------------
// Output names
// ---------------------------------------------------------------------------

/// The run waits for the writing of an artifact that is named `label`.
pub open spec fn writes_artifact(state: RunView, label: Seq<char>) -> bool {
    state.pending matches PendingView::Write { artifact, strict, .. } && artifact.name == label
        && !strict
}

/// The output name of a script or a scan is the name of its artifact: when
/// the program has ended, the run waits for the writing of an artifact of
/// that name, and the artifact is stored under that name whether the file
/// was written or not.
pub proof fn law_output_names_artifact(
    state: RunView,
    name: Seq<char>,
    tool: Seq<char>,
    target: Seq<char>,
    params: Seq<(Seq<char>, Seq<char>)>,
    invocation: Seq<Seq<char>>,
    output: Seq<char>,
    process: ProcessView,
    answer: EventView,
    now: Seq<char>,
)
    ensures
        writes_artifact(
            script_event(state, name, invocation, Some(output), EventView::Ran(Ok(process))).0,
            output,
        ),
        process.success && nmap_scan(process.stdout, target) is Ok ==> writes_artifact(
            nmap_event(state, name, tool, target, Some(output), EventView::Ran(Ok(process))).0,
            output,
        ),
        writes_artifact(
            tool_event(state, name, tool, params, invocation, Some(output), EventView::Ran(
                Ok(process),
            )).0,
            output,
        ),
        forall|waits: RunView| #[trigger]
            writes_artifact(waits, output) ==> (lookup(advanced(waits, answer, now).0.store, output)
                matches Some(artifact) && artifact.name == output),
{
    assert forall|waits: RunView| #[trigger] writes_artifact(waits, output) implies (lookup(
        advanced(waits, answer, now).0.store,
        output,
    ) matches Some(artifact) && artifact.name == output) by {
        match waits.pending {
            PendingView::Write {
                name: n,
                kind,
                status,
                prefix,
                artifact,
                strict,
                extension,
                print,
            } => {
                let kept = match crate::handlers::write_answer(answer) {
                    Ok(_) => artifact,
                    Err(_) => ArtifactView { path: None, ..artifact },
                };
                lemma_lookup_inserted_same(waits.store, output, kept);
            },
            _ => {},
        }
    }
}

// ---------------------------------------------------------------------------
// Secrets
// ---------------------------------------------------------------------------

/// A report shows no secret: the message of a record, as the report keeps
/// it, holds no value of the store that is not empty and holds no asterisk.
pub proof fn law_records_hide_secrets(state: RunView, outcome: Outcome, which: int)
    requires
        0 <= which < state.secrets.values.len(),
        state.secrets.values[which].1.len() > 0,
        star_free(state.secrets.values[which].1),
    ensures
        match recorded(state, outcome).report.last().message {
            Some(message) => !occurs_in(state.secrets.values[which].1, message),
            None => true,
        },
{
    match outcome.execution.message {
        Some(message) => {
            lemma_masked_hides(state.secrets.values, message, which);
        },
        None => {},
    }
}

/// Whether a record shows none of the values that are not empty and hold
/// no asterisk.
pub open spec fn hides(values: Seq<(Seq<char>, Seq<char>)>, record: Execution) -> bool {
    forall|which: int|
        0 <= which < values.len() && (#[trigger] values[which]).1.len() > 0 && star_free(
            values[which].1,
        ) ==> match record.message {
            Some(message) => !occurs_in(values[which].1, message),
            None => true,
        }
}

/// Whether the report of `after` is `before`, or `before` and one record
/// behind it that was masked with the secrets that `after` holds.
pub open spec fn adds_one_masked(before: Seq<Execution>, after: RunView) -> bool {
    after.report == before || exists|execution: Execution|
        after.report == before.push(#[trigger] masked_record(after.secrets.values, execution))
}

/// A masked record hides the values it was masked with.
pub proof fn lemma_masked_record_hides(values: Seq<(Seq<char>, Seq<char>)>, execution: Execution)
    ensures
        hides(values, masked_record(values, execution)),
{
    assert forall|which: int|
        0 <= which < values.len() && (#[trigger] values[which]).1.len() > 0 && star_free(
            values[which].1,
        ) implies match masked_record(values, execution).message {
        Some(message) => !occurs_in(values[which].1, message),
        None => true,
    } by {
        match execution.message {
            Some(message) => lemma_masked_hides(values, message, which),
            None => {},
        }
    }
}

proof fn lemma_recording()
    ensures
        forall|state: RunView, outcome: Outcome|
            adds_one_masked(state.report, #[trigger] recorded(state, outcome)),
{
    assert forall|state: RunView, outcome: Outcome|
        adds_one_masked(state.report, #[trigger] recorded(state, outcome)) by {
        let after = recorded(state, outcome);
        assert(after.report == state.report.push(
            masked_record(after.secrets.values, outcome.execution),
        ));
    }
}

proof fn lemma_env_progress_records(
    state: RunView,
    name: Seq<char>,
    mappings: Seq<(Seq<char>, Seq<char>)>,
    index: int,
    aggregated: Seq<(Seq<char>, Seq<char>)>,
)
    ensures
        adds_one_masked(state.report, env_progress(state, name, mappings, index, aggregated).0),
    decreases mappings.len() - index,
{
    lemma_recording();
    if 0 <= index < mappings.len() {
        match lookup(state.secrets.values, crate::handlers::scoped_key(name, mappings[index].0)) {
            Some(existing) => {
                lemma_env_progress_records(
                    state,
                    name,
                    mappings,
                    index + 1,
                    inserted(aggregated, mappings[index].0, existing),
                );
            },
            None => {},
        }
    }
}

proof fn lemma_env_event_records(
    state: RunView,
    name: Seq<char>,
    mappings: Seq<(Seq<char>, Seq<char>)>,
    index: int,
    aggregated: Seq<(Seq<char>, Seq<char>)>,
    event: EventView,
)
    ensures
        adds_one_masked(
            state.report,
            env_event(state, name, mappings, index, aggregated, event).0,
        ),
{
    lemma_recording();
    lemma_env_progress_records(state, name, mappings, index, aggregated);
    if 0 <= index < mappings.len() {
        match crate::handlers::env_answer(event) {
            Ok(value) => {
                lemma_env_progress_records(
                    crate::handlers::with_secrets(
                        state,
                        crate::secrets::kept_or_inserted(
                            state.secrets.values,
                            crate::handlers::scoped_key(name, mappings[index].0),
                            value,
                        ),
                    ),
                    name,
                    mappings,
                    index + 1,
                    inserted(aggregated, mappings[index].0, value),
                );
            },
            Err(_) => {},
        }
    }
}

proof fn lemma_variable_records(state: RunView, name: Seq<char>, value: Literal)
    ensures
        adds_one_masked(state.report, crate::handlers::variable_step(state, name, value).0),
{
    lemma_recording();
}

proof fn lemma_asset_group_records(
    state: RunView,
    name: Seq<char>,
    properties: Seq<(Seq<char>, Seq<char>)>,
)
    ensures
        adds_one_masked(
            state.report,
            crate::handlers::asset_group_step(state, name, properties).0,
        ),
{
    lemma_recording();
}

proof fn lemma_scan_records(
    state: RunView,
    name: Seq<char>,
    tool: Seq<char>,
    params: Seq<(Seq<char>, Seq<char>)>,
    output: Option<Seq<char>>,
)
    ensures
        adds_one_masked(state.report, scan_step(state, name, tool, params, output).0),
{
    lemma_recording();
}

proof fn lemma_script_records(
    state: RunView,
    name: Seq<char>,
    params: Seq<(Seq<char>, Seq<char>)>,
    output: Option<Seq<char>>,
)
    ensures
        adds_one_masked(state.report, script_step(state, name, params, output).0),
{
    lemma_recording();
}

proof fn lemma_report_records(
    state: RunView,
    name: Seq<char>,
    format: crate::scenario::ReportFormat,
    includes: Seq<Seq<char>>,
    options: Seq<(Seq<char>, Seq<char>)>,
    output: Option<Seq<char>>,
    now: Seq<char>,
)
    ensures
        adds_one_masked(
            state.report,
            report_step(state, name, format, includes, options, output, now).0,
        ),
{
    lemma_recording();
}

proof fn lemma_branching_records(state: RunView, step: StepView)
    ensures
        step matches StepView::Conditional { condition, then_steps, else_steps }
            ==> adds_one_masked(
            state.report,
            conditional_step(state, condition, then_steps, else_steps).0,
        ),
        step matches StepView::Loop { iterator, iterable, body } ==> adds_one_masked(
            state.report,
            loop_step(state, iterator, iterable, body).0,
        ),
{
    lemma_recording();
}

proof fn lemma_dispatch_records(state: RunView, step: StepView, now: Seq<char>)
    ensures
        adds_one_masked(state.report, dispatch(state, step, now).0),
{
    match step {
        StepView::Import { path } => {},
        StepView::Variable { name, value } => lemma_variable_records(state, name, value),
        StepView::AssetGroup { name, properties } => lemma_asset_group_records(
            state,
            name,
            properties,
        ),
        StepView::Scan { name, tool, params, output } => lemma_scan_records(
            state,
            name,
            tool,
            params,
            output,
        ),
        StepView::Script { name, params, output } => lemma_script_records(
            state,
            name,
            params,
            output,
        ),
        StepView::Secret { name, source } => {
            lemma_recording();
            match source {
                crate::scenario::SecretOrigin::Env { mappings } => {
                    lemma_env_progress_records(state, name, mappings, 0, Seq::empty());
                },
                _ => {},
            }
        },
        StepView::Report { name, format, includes, options, output } => lemma_report_records(
            state,
            name,
            format,
            includes,
            options,
            output,
            now,
        ),
        StepView::Conditional { .. } => lemma_branching_records(state, step),
        StepView::Loop { .. } => lemma_branching_records(state, step),
    }
}

proof fn lemma_answer_records(state: RunView, event: EventView, now: Seq<char>)
    requires
        !(state.pending is Idle),
        !(state.pending is Env),
    ensures
        adds_one_masked(state.report, advanced(state, event, now).0),
{
    lemma_recording();
}

/// One step of a run leaves the records of the report as they are and adds
/// at most one, which is masked with the secrets that the run then holds.
pub proof fn law_step_adds_one_masked_record(state: RunView, event: EventView, now: Seq<char>)
    ensures
        adds_one_masked(state.report, advanced(state, event, now).0),
{
    let idle = RunView { pending: PendingView::Idle, ..state };
    match state.pending {
        PendingView::Idle => {
            lemma_recording();
            if state.stack.len() > 0 {
                let below = state.stack.drop_last();
                match state.stack.last() {
                    FrameView::Block { steps, next } => {
                        if 0 <= next < steps.len() {
                            let entered = RunView {
                                stack: below.push(FrameView::Block { steps, next: next + 1 }),
                                ..state
                            };
                            lemma_dispatch_records(entered, steps[next], now);
                        }
                    },
                    FrameView::Walk { name, iterator, items, next, body, previous } => {},
                }
            }
        },
        PendingView::Env { name, mappings, index, aggregated } => {
            lemma_env_event_records(idle, name, mappings, index, aggregated, event);
        },
        _ => lemma_answer_records(state, event, now),
    }
}

proof fn lemma_report_grows(
    state: RunView,
    answers: Seq<(EventView, Seq<char>)>,
    k: nat,
    n: nat,
)
    requires
        k <= n <= answers.len(),
    ensures
        run_for(state, answers, k).report.len() <= run_for(state, answers, n).report.len(),
        forall|i: int|
            0 <= i < run_for(state, answers, k).report.len() ==> run_for(state, answers, n).report[i]
                == #[trigger] run_for(state, answers, k).report[i],
    decreases n - k,
{
    if k < n {
        let before = run_for(state, answers, (n - 1) as nat);
        lemma_report_grows(state, answers, k, (n - 1) as nat);
        law_step_adds_one_masked_record(before, answers[n - 1].0, answers[n - 1].1);
    }
}

/// Every record of a run hides every secret that the run held when the
/// record was made. The record at index `i`, which the run has added to the
/// report within its first `n` steps, was added by the step `k` that the
/// law gives, and it is still what it was then; its message holds no value
/// that the store held after that step, if the value is not empty and holds
/// no asterisk.
pub proof fn law_run_hides_secrets(
    state: RunView,
    answers: Seq<(EventView, Seq<char>)>,
    n: nat,
    i: int,
) -> (k: nat)
    requires
        n <= answers.len(),
        state.report.len() <= i < run_for(state, answers, n).report.len(),
    ensures
        0 < k <= n,
        run_for(state, answers, (k - 1) as nat).report.len() == i,
        run_for(state, answers, k).report.len() == i + 1,
        run_for(state, answers, n).report[i] == run_for(state, answers, k).report[i],
        hides(run_for(state, answers, k).secrets.values, run_for(state, answers, n).report[i]),
    decreases n,
{
    let before = run_for(state, answers, (n - 1) as nat);
    let after = run_for(state, answers, n);
    law_step_adds_one_masked_record(before, answers[n - 1].0, answers[n - 1].1);
    if i < before.report.len() {
        let k = law_run_hides_secrets(state, answers, (n - 1) as nat, i);
        lemma_report_grows(state, answers, k, n);
        k
    } else {
        let execution = choose|execution: Execution|
            after.report == before.report.push(
                #[trigger] masked_record(after.secrets.values, execution),
            );
        lemma_masked_record_hides(after.secrets.values, execution);
        n
    }
}

} // verus!
