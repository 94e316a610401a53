//! The parser: a scenario text becomes an ordered list of steps. The text
//! is read line by line; a block reads on until the line that closes it, and
//! the steps of a block are read as the steps of the scenario are.

use crate::scenario::{
    lemma_conditional_view, lemma_loop_view, lemma_pushed_well_formed, scenario_well_formed,
    step_well_formed, steps_well_formed, ConditionalStep, ImportStep, LoopStep, Scenario,
    ScenarioView, Step, StepView,
};
use crate::statements::{
    asset_group_at, header_and_body, import_of, lemma_group_block_ascending,
    lemma_params_ascending, lemma_report_ascending, lemma_variable_of_ordered, next_content,
    next_non_empty, parse_asset_group, parse_import, parse_report, parse_scan, parse_script,
    parse_secret, parse_variable, report_at, scan_at, script_at, secret_at, split_header_body,
    variable_of, ReportBody,
};
use crate::syntax::{
    condition_of, invalid_syntax, iterable_of, lemma_condition_of_ordered,
    lemma_iterable_of_ordered, parse_condition_expr, parse_loop_iterable, ParseError,
    ParseFailure,
};
use crate::text::{
    chars_of, find, has_prefix, identifier, index_of, is_identifier, lines, lines_of, same_str,
    starts_with, string_of, subrange, trim, trim_start, trimmed, trimmed_start, views,
};
use vstd::prelude::*;

verus! {

/// Whether `pos` is an index of `lines` or their number.
pub open spec fn within(lines: Seq<Seq<char>>, pos: int) -> bool {
    0 <= pos <= lines.len()
}

/// What follows a closing brace on its line, trimmed; nothing where nothing
/// follows.
pub open spec fn trailing_of(closing: Seq<char>) -> Option<Seq<char>> {
    let rest = trimmed(closing.skip(1));
    if rest.len() == 0 {
        None
    } else {
        Some(rest)
    }
}

/// The step that begins with the trimmed line `first_line`, where `pos` is
/// the index of the line behind it, and the index of the line behind the
/// step. The keyword at the start of the line decides.
pub open spec fn step_at(first_line: Seq<char>, lines: Seq<Seq<char>>, pos: int) -> Result<
    (StepView, int),
    ParseFailure,
>
    decreases lines.len() - pos, 2nat,
{
    if !within(lines, pos) {
        Err(ParseFailure::UnexpectedEof("block"@))
    } else if has_prefix(first_line, "import "@) {
        match import_of(first_line) {
            Ok(path) => Ok((StepView::Import { path }, pos)),
            Err(e) => Err(e),
        }
    } else if has_prefix(first_line, "asset_group "@) || has_prefix(first_line, "group "@) {
        asset_group_at(first_line, lines, pos)
    } else if has_prefix(first_line, "scan "@) {
        scan_at(first_line, lines, pos)
    } else if has_prefix(first_line, "let "@) {
        match variable_of(first_line) {
            Ok(step) => Ok((step, pos)),
            Err(e) => Err(e),
        }
    } else if has_prefix(first_line, "secret "@) {
        secret_at(first_line, lines, pos)
    } else if has_prefix(first_line, "script "@) {
        script_at(first_line, lines, pos)
    } else if has_prefix(first_line, "report "@) {
        report_at(first_line, lines, pos)
    } else if has_prefix(first_line, "if "@) {
        if_at(first_line, lines, pos)
    } else if has_prefix(first_line, "for "@) {
        for_at(first_line, lines, pos)
    } else {
        Err(ParseFailure::InvalidDirective(first_line))
    }
}

/// The steps of a block from line `pos` up to the line that begins with
/// `}`, behind `done`; what follows the brace on that line; and the index
/// behind it.
pub open spec fn block_steps(lines: Seq<Seq<char>>, pos: int, done: Seq<StepView>) -> Result<
    (Seq<StepView>, Option<Seq<char>>, int),
    ParseFailure,
>
    decreases lines.len() - pos, 0nat,
{
    let p = next_content(lines, pos);
    if !within(lines, pos) || p < pos || p >= lines.len() {
        Err(ParseFailure::UnexpectedEof("block"@))
    } else {
        let t = trimmed(lines[p]);
        if t.len() > 0 && t[0] == '}' {
            Ok((done, trailing_of(t), p + 1))
        } else {
            match step_at(t, lines, p + 1) {
                Err(e) => Err(e),
                Ok((step, next)) => if p < next <= lines.len() {
                    block_steps(lines, next, done.push(step))
                } else {
                    Err(ParseFailure::UnexpectedEof("block"@))
                },
            }
        }
    }
}

/// The clause behind a block: what followed its closing brace, or the next
/// line with content where that begins with `else`; and the index of the
/// line to read next.
pub open spec fn else_clause(trailing: Option<Seq<char>>, lines: Seq<Seq<char>>, after: int) -> (
    Option<Seq<char>>,
    int,
) {
    match trailing {
        Some(t) => (Some(t), after),
        None => {
            let p = next_content(lines, after);
            if after <= p < lines.len() && has_prefix(trimmed(lines[p]), "else"@) {
                (Some(trimmed(lines[p])), p + 1)
            } else if after <= p <= lines.len() {
                (None, p)
            } else {
                (None, after)
            }
        },
    }
}

/// The statement `if <condition> {`, its block, and an `else {` block or an
/// `else if` statement behind it. An `else if` is a conditional that is the
/// one step of the `else` branch.
pub open spec fn if_at(first_line: Seq<char>, lines: Seq<Seq<char>>, pos: int) -> Result<
    (StepView, int),
    ParseFailure,
>
    decreases lines.len() - pos, 1nat,
{
    if !within(lines, pos) {
        Err(ParseFailure::UnexpectedEof("block"@))
    } else {
        match header_and_body(first_line) {
            Err(e) => Err(e),
            Ok((header, body)) => if !has_prefix(header, "if"@) || trimmed(header.skip(2)).len()
                == 0 {
                Err(ParseFailure::InvalidSyntax(first_line))
            } else if body is Some {
                Err(ParseFailure::InvalidSyntax(body->0))
            } else {
                match condition_of(trimmed(header.skip(2))) {
                    Err(e) => Err(e),
                    Ok(condition) => match block_steps(lines, pos, Seq::empty()) {
                        Err(e) => Err(e),
                        Ok((then_steps, trailing, after)) => if !(pos < after <= lines.len()) {
                            Err(ParseFailure::UnexpectedEof("block"@))
                        } else {
                            let (clause, next) = else_clause(trailing, lines, after);
                            match clause {
                                None => Ok(
                                    (
                                        StepView::Conditional {
                                            condition,
                                            then_steps,
                                            else_steps: Seq::empty(),
                                        },
                                        next,
                                    ),
                                ),
                                Some(c) => if !(pos < next <= lines.len()) {
                                    Err(ParseFailure::UnexpectedEof("block"@))
                                } else if has_prefix(c, "else if "@) {
                                    match if_at(trimmed_start(c.skip(5)), lines, next) {
                                        Err(e) => Err(e),
                                        Ok((nested, end)) => Ok(
                                            (
                                                StepView::Conditional {
                                                    condition,
                                                    then_steps,
                                                    else_steps: seq![nested],
                                                },
                                                end,
                                            ),
                                        ),
                                    }
                                } else if has_prefix(c, "else"@) {
                                    match header_and_body(c) {
                                        Err(e) => Err(e),
                                        Ok((word, remainder)) => if word != "else"@ {
                                            Err(ParseFailure::InvalidSyntax(c))
                                        } else if remainder is Some {
                                            Err(ParseFailure::InvalidSyntax(remainder->0))
                                        } else {
                                            match block_steps(lines, next, Seq::empty()) {
                                                Err(e) => Err(e),
                                                Ok((else_steps, rest, end)) => match rest {
                                                    Some(r) => Err(ParseFailure::InvalidSyntax(r)),
                                                    None => Ok(
                                                        (
                                                            StepView::Conditional {
                                                                condition,
                                                                then_steps,
                                                                else_steps,
                                                            },
                                                            end,
                                                        ),
                                                    ),
                                                },
                                            }
                                        },
                                    }
                                } else {
                                    Err(ParseFailure::InvalidSyntax(c))
                                },
                            }
                        },
                    },
                }
            },
        }
    }
}

/// The iterator and the source of a loop header `for <iterator> in
/// <source>`, which stands in `header` before the brace.
pub open spec fn loop_header(first_line: Seq<char>, header: Seq<char>) -> Result<
    (Seq<char>, Seq<char>),
    ParseFailure,
> {
    if !has_prefix(header, "for"@) {
        Err(ParseFailure::InvalidSyntax(first_line))
    } else {
        let rest = trimmed(header.skip(3));
        match index_of(rest, " in "@) {
            None => Err(ParseFailure::InvalidSyntax(first_line)),
            Some(at) => if 0 <= at && at + 4 <= rest.len() {
                let iterator = trimmed(rest.take(at));
                let source = trimmed(rest.skip(at + 4));
                if !is_identifier(iterator) {
                    Err(ParseFailure::InvalidSyntax(iterator))
                } else if source.len() == 0 {
                    Err(ParseFailure::InvalidSyntax(first_line))
                } else {
                    Ok((iterator, source))
                }
            } else {
                Err(ParseFailure::InvalidSyntax(first_line))
            },
        }
    }
}

/// The statement `for <iterator> in <source> {` and its block.
pub open spec fn for_at(first_line: Seq<char>, lines: Seq<Seq<char>>, pos: int) -> Result<
    (StepView, int),
    ParseFailure,
>
    decreases lines.len() - pos, 1nat,
{
    if !within(lines, pos) {
        Err(ParseFailure::UnexpectedEof("block"@))
    } else {
        match header_and_body(first_line) {
            Err(e) => Err(e),
            Ok((header, body)) => match loop_header(first_line, header) {
                Err(e) => Err(e),
                Ok((iterator, source)) => if body is Some {
                    Err(ParseFailure::InvalidSyntax(body->0))
                } else {
                    match iterable_of(source) {
                        Err(e) => Err(e),
                        Ok(iterable) => match block_steps(lines, pos, Seq::empty()) {
                            Err(e) => Err(e),
                            Ok((body_steps, trailing, next)) => match trailing {
                                Some(rest) => Err(ParseFailure::InvalidSyntax(rest)),
                                None => Ok(
                                    (StepView::Loop { iterator, iterable, body: body_steps }, next),
                                ),
                            },
                        },
                    }
                },
            },
        }
    }
}

/// The steps of a scenario from line `pos` on, behind `done`.
pub open spec fn scenario_steps(lines: Seq<Seq<char>>, pos: int, done: Seq<StepView>) -> Result<
    Seq<StepView>,
    ParseFailure,
>
    decreases lines.len() - pos,
{
    let p = next_content(lines, pos);
    if !within(lines, pos) || p < pos || p >= lines.len() {
        Ok(done)
    } else {
        match step_at(trimmed(lines[p]), lines, p + 1) {
            Err(e) => Err(e),
            Ok((step, next)) => if p < next <= lines.len() {
                scenario_steps(lines, next, done.push(step))
            } else {
                Ok(done)
            },
        }
    }
}

/// The paths of the imports among the first `n` steps and among the steps
/// they hold, in the order of the text.
pub open spec fn imports_among(steps: Seq<StepView>, n: nat) -> Seq<Seq<char>>
    decreases steps, n,
{
    if 0 < n <= steps.len() {
        imports_among(steps, (n - 1) as nat) + imports_in(steps[n - 1])
    } else {
        Seq::empty()
    }
}

/// The paths of the imports in a step.
pub open spec fn imports_in(step: StepView) -> Seq<Seq<char>>
    decreases step, 0nat,
{
    match step {
        StepView::Import { path } => seq![path],
        StepView::Conditional { then_steps, else_steps, .. } => imports_among(
            then_steps,
            then_steps.len(),
        ) + imports_among(else_steps, else_steps.len()),
        StepView::Loop { body, .. } => imports_among(body, body.len()),
        _ => Seq::empty(),
    }
}

/// The scenario that a text denotes: its steps in order, and the paths of
/// all its imports.
pub open spec fn scenario_of(source: Seq<char>) -> Result<ScenarioView, ParseFailure> {
    match scenario_steps(lines_of(source), 0, Seq::empty()) {
        Err(e) => Err(e),
        Ok(steps) => Ok(ScenarioView { steps, imports: imports_among(steps, steps.len()) }),
    }
}

// ---------------------------------------------------------------------------
// What is read is well formed
// ---------------------------------------------------------------------------

/// A step that was read from text is well formed.
pub proof fn lemma_step_at_well_formed(first_line: Seq<char>, lines: Seq<Seq<char>>, pos: int)
    ensures
        match step_at(first_line, lines, pos) {
            Ok((step, _)) => step_well_formed(step),
            Err(_) => true,
        },
    decreases lines.len() - pos, 2nat,
{
    let none = Seq::<(Seq<char>, Seq<char>)>::empty();
    if !within(lines, pos) {
    } else if has_prefix(first_line, "import "@) {
    } else if has_prefix(first_line, "asset_group "@) || has_prefix(first_line, "group "@) {
        if let Ok((header, body)) = header_and_body(first_line) {
            lemma_group_block_ascending(body, lines, pos, false, "asset_group block"@);
        }
    } else if has_prefix(first_line, "scan "@) {
        lemma_params_ascending(lines, pos, none, "scan block"@);
    } else if has_prefix(first_line, "let "@) {
        lemma_variable_of_ordered(first_line);
    } else if has_prefix(first_line, "secret "@) {
        if let Ok((header, body)) = header_and_body(first_line) {
            lemma_group_block_ascending(body, lines, pos, true, "secret block"@);
        }
    } else if has_prefix(first_line, "script "@) {
        lemma_params_ascending(lines, pos, none, "script block"@);
    } else if has_prefix(first_line, "report "@) {
        lemma_report_ascending(
            lines,
            pos,
            ReportBody { includes: Seq::empty(), options: Seq::empty() },
        );
    } else if has_prefix(first_line, "if "@) {
        lemma_if_at_well_formed(first_line, lines, pos);
    } else if has_prefix(first_line, "for "@) {
        lemma_for_at_well_formed(first_line, lines, pos);
    }
}

proof fn lemma_block_steps_well_formed(lines: Seq<Seq<char>>, pos: int, done: Seq<StepView>)
    requires
        steps_well_formed(done, done.len()),
    ensures
        match block_steps(lines, pos, done) {
            Ok((steps, _, _)) => steps_well_formed(steps, steps.len()),
            Err(_) => true,
        },
    decreases lines.len() - pos, 0nat,
{
    let p = next_content(lines, pos);
    if !(!within(lines, pos) || p < pos || p >= lines.len()) {
        let t = trimmed(lines[p]);
        if !(t.len() > 0 && t[0] == '}') {
            lemma_step_at_well_formed(t, lines, p + 1);
            if let Ok((step, next)) = step_at(t, lines, p + 1) {
                if p < next <= lines.len() {
                    lemma_pushed_well_formed(done, step);
                    lemma_block_steps_well_formed(lines, next, done.push(step));
                }
            }
        }
    }
}

proof fn lemma_if_at_well_formed(first_line: Seq<char>, lines: Seq<Seq<char>>, pos: int)
    ensures
        match if_at(first_line, lines, pos) {
            Ok((step, _)) => step_well_formed(step),
            Err(_) => true,
        },
    decreases lines.len() - pos, 1nat,
{
    if within(lines, pos) {
        if let Ok((header, body)) = header_and_body(first_line) {
            lemma_condition_of_ordered(trimmed(header.skip(2)));
            lemma_block_steps_well_formed(lines, pos, Seq::empty());
            if let Ok((then_steps, trailing, after)) = block_steps(lines, pos, Seq::empty()) {
                if pos < after <= lines.len() {
                    let (clause, next) = else_clause(trailing, lines, after);
                    if let Some(c) = clause {
                        if pos < next <= lines.len() {
                            if has_prefix(c, "else if "@) {
                                let nested_line = trimmed_start(c.skip(5));
                                lemma_if_at_well_formed(nested_line, lines, next);
                                if let Ok((nested, end)) = if_at(nested_line, lines, next) {
                                    lemma_pushed_well_formed(Seq::empty(), nested);
                                    assert(Seq::<StepView>::empty().push(nested) =~= seq![nested]);
                                }
                            } else {
                                lemma_block_steps_well_formed(lines, next, Seq::empty());
                            }
                        }
                    }
                }
            }
        }
    }
}

proof fn lemma_for_at_well_formed(first_line: Seq<char>, lines: Seq<Seq<char>>, pos: int)
    ensures
        match for_at(first_line, lines, pos) {
            Ok((step, _)) => step_well_formed(step),
            Err(_) => true,
        },
    decreases lines.len() - pos, 1nat,
{
    if within(lines, pos) {
        if let Ok((header, body)) = header_and_body(first_line) {
            if let Ok((iterator, source)) = loop_header(first_line, header) {
                lemma_iterable_of_ordered(source);
                lemma_block_steps_well_formed(lines, pos, Seq::empty());
            }
        }
    }
}

proof fn lemma_scenario_steps_well_formed(lines: Seq<Seq<char>>, pos: int, done: Seq<StepView>)
    requires
        steps_well_formed(done, done.len()),
    ensures
        match scenario_steps(lines, pos, done) {
            Ok(steps) => steps_well_formed(steps, steps.len()),
            Err(_) => true,
        },
    decreases lines.len() - pos,
{
    let p = next_content(lines, pos);
    if !(!within(lines, pos) || p < pos || p >= lines.len()) {
        lemma_step_at_well_formed(trimmed(lines[p]), lines, p + 1);
        if let Ok((step, next)) = step_at(trimmed(lines[p]), lines, p + 1) {
            if p < next <= lines.len() {
                lemma_pushed_well_formed(done, step);
                lemma_scenario_steps_well_formed(lines, next, done.push(step));
            }
        }
    }
}

/// A scenario that was read from text is well formed: each table in it
/// stands in the order of its keys and holds each key once.
pub proof fn lemma_scenario_of_well_formed(source: Seq<char>)
    ensures
        match scenario_of(source) {
            Ok(scenario) => scenario_well_formed(scenario),
            Err(_) => true,
        },
{
    lemma_scenario_steps_well_formed(lines_of(source), 0, Seq::empty());
}

// ---------------------------------------------------------------------------
// Executable parser
// ---------------------------------------------------------------------------

/// The first character of a trimmed line is a closing brace.
fn closes(t: &Vec<char>) -> (r: bool)
    ensures
        r == (t@.len() > 0 && t@[0] == '}'),
{
    t.len() > 0 && t[0] == '}'
}

fn trailing(t: &Vec<char>) -> (r: Option<String>)
    requires
        t@.len() > 0,
    ensures
        r.deep_view() == trailing_of(t@),
{
    let rest = trim(&subrange(t, 1, t.len()));
    if rest.len() == 0 {
        None
    } else {
        Some(string_of(&rest))
    }
}

/// Parses the step that begins with the trimmed line `first_line`.
pub fn parse_step_internal(first_line: &Vec<char>, lines: &Vec<Vec<char>>, pos: usize) -> (r:
    Result<(Step, usize), ParseError>)
    requires
        pos <= lines.len(),
    ensures
        match r {
            Ok(pair) => step_at(first_line@, views(lines@), pos as int) == Ok::<
                (StepView, int),
                ParseFailure,
            >((pair.0.deep_view(), pair.1 as int)) && pos <= pair.1 <= lines.len(),
            Err(e) => step_at(first_line@, views(lines@), pos as int) == Err::<
                (StepView, int),
                ParseFailure,
            >(e.deep_view()),
        },
    decreases lines.len() - pos, 2nat,
{
    if starts_with(first_line, "import ") {
        match parse_import(first_line) {
            Ok(path) => Ok((Step::Import(ImportStep { path }), pos)),
            Err(e) => Err(e),
        }
    } else if starts_with(first_line, "asset_group ") || starts_with(first_line, "group ") {
        match parse_asset_group(first_line, lines, pos) {
            Ok((step, next)) => Ok((Step::AssetGroup(step), next)),
            Err(e) => Err(e),
        }
    } else if starts_with(first_line, "scan ") {
        match parse_scan(first_line, lines, pos) {
            Ok((step, next)) => Ok((Step::Scan(step), next)),
            Err(e) => Err(e),
        }
    } else if starts_with(first_line, "let ") {
        match parse_variable(first_line) {
            Ok(step) => Ok((Step::Variable(step), pos)),
            Err(e) => Err(e),
        }
    } else if starts_with(first_line, "secret ") {
        match parse_secret(first_line, lines, pos) {
            Ok((step, next)) => Ok((Step::Secret(step), next)),
            Err(e) => Err(e),
        }
    } else if starts_with(first_line, "script ") {
        match parse_script(first_line, lines, pos) {
            Ok((step, next)) => Ok((Step::Script(step), next)),
            Err(e) => Err(e),
        }
    } else if starts_with(first_line, "report ") {
        match parse_report(first_line, lines, pos) {
            Ok((step, next)) => Ok((Step::Report(step), next)),
            Err(e) => Err(e),
        }
    } else if starts_with(first_line, "if ") {
        match parse_if(first_line, lines, pos) {
            Ok((step, next)) => {
                proof {
                    lemma_conditional_view(step);
                }
                Ok((Step::Conditional(step), next))
            },
            Err(e) => Err(e),
        }
    } else if starts_with(first_line, "for ") {
        match parse_for(first_line, lines, pos) {
            Ok((step, next)) => {
                proof {
                    lemma_loop_view(step);
                }
                Ok((Step::Loop(step), next))
            },
            Err(e) => Err(e),
        }
    } else {
        Err(ParseError::InvalidDirective(string_of(first_line)))
    }
}

/// Parses the steps of a block up to the line that closes it.
pub fn parse_block_steps(lines: &Vec<Vec<char>>, pos: usize) -> (r: Result<
    (Vec<Step>, Option<String>, usize),
    ParseError,
>)
    requires
        pos <= lines.len(),
    ensures
        match r {
            Ok(triple) => block_steps(views(lines@), pos as int, Seq::empty()) == Ok::<
                (Seq<StepView>, Option<Seq<char>>, int),
                ParseFailure,
            >((triple.0.deep_view(), triple.1.deep_view(), triple.2 as int)) && pos < triple.2
                <= lines.len(),
            Err(e) => block_steps(views(lines@), pos as int, Seq::empty()) == Err::<
                (Seq<StepView>, Option<Seq<char>>, int),
                ParseFailure,
            >(e.deep_view()),
        },
    decreases lines.len() - pos, 0nat,
{
    let mut steps: Vec<Step> = Vec::new();
    assert(steps.deep_view() =~= Seq::empty());
    let mut at: usize = pos;
    loop
        invariant
            pos <= at <= lines.len(),
            block_steps(views(lines@), pos as int, Seq::empty()) == block_steps(
                views(lines@),
                at as int,
                steps.deep_view(),
            ),
        decreases lines.len() - at,
    {
        let p = next_non_empty(lines, at);
        if p >= lines.len() {
            return Err(ParseError::UnexpectedEof("block"));
        }
        assert(views(lines@)[p as int] == lines[p as int]@);
        let t = trim(&lines[p]);
        if closes(&t) {
            return Ok((steps, trailing(&t), p + 1));
        }
        match parse_step_internal(&t, lines, p + 1) {
            Err(e) => {
                return Err(e);
            },
            Ok((step, next)) => {
                let ghost before = steps.deep_view();
                steps.push(step);
                assert(steps.deep_view() =~= before.push(step.deep_view()));
                at = next;
            },
        }
    }
}

/// Parses a conditional, with what follows its block.
pub fn parse_if(first_line: &Vec<char>, lines: &Vec<Vec<char>>, pos: usize) -> (r: Result<
    (ConditionalStep, usize),
    ParseError,
>)
    requires
        pos <= lines.len(),
    ensures
        match r {
            Ok(pair) => if_at(first_line@, views(lines@), pos as int) == Ok::<
                (StepView, int),
                ParseFailure,
            >((pair.0.deep_view(), pair.1 as int)) && pos <= pair.1 <= lines.len(),
            Err(e) => if_at(first_line@, views(lines@), pos as int) == Err::<
                (StepView, int),
                ParseFailure,
            >(e.deep_view()),
        },
    decreases lines.len() - pos, 1nat,
{
    let (header, body) = match split_header_body(first_line) {
        Ok(pair) => pair,
        Err(e) => {
            return Err(e);
        },
    };
    proof {
        reveal_strlit("if");
        reveal_strlit("else ");
        reveal_strlit("else if ");
    }
    if !starts_with(&header, "if") {
        return Err(invalid_syntax(first_line));
    }
    let condition_raw = trim(&subrange(&header, 2, header.len()));
    if condition_raw.len() == 0 {
        return Err(invalid_syntax(first_line));
    }
    match body {
        Some(content) => {
            return Err(invalid_syntax(&content));
        },
        None => {},
    }
    let condition = match parse_condition_expr(&condition_raw) {
        Ok(c) => c,
        Err(e) => {
            return Err(e);
        },
    };
    let (then_steps, trailing, after) = match parse_block_steps(lines, pos) {
        Ok(triple) => triple,
        Err(e) => {
            return Err(e);
        },
    };
    let mut next: usize = after;
    let clause: Option<Vec<char>> = match trailing {
        Some(t) => Some(chars_of(t.as_str())),
        None => {
            let p = next_non_empty(lines, after);
            next = p;
            if p < lines.len() {
                assert(views(lines@)[p as int] == lines[p as int]@);
                let t = trim(&lines[p]);
                if starts_with(&t, "else") {
                    next = p + 1;
                    Some(t)
                } else {
                    None
                }
            } else {
                None
            }
        },
    };
    assert((
        match clause {
            Some(c) => Some(c@),
            None => None,
        },
        next as int,
    ) == else_clause(trailing.deep_view(), views(lines@), after as int));
    match clause {
        None => {
            let step = ConditionalStep { condition, then_steps, else_steps: Vec::new() };
            assert(step.else_steps.deep_view() =~= Seq::empty());
            Ok((step, next))
        },
        Some(c) => {
            if starts_with(&c, "else if ") {
                let nested_line = trim_start(&subrange(&c, 5, c.len()));
                match parse_if(&nested_line, lines, next) {
                    Err(e) => Err(e),
                    Ok((nested, end)) => {
                        let mut else_steps: Vec<Step> = Vec::new();
                        proof {
                            lemma_conditional_view(nested);
                        }
                        let ghost nested_view = nested.deep_view();
                        else_steps.push(Step::Conditional(nested));
                        assert(else_steps.deep_view() =~= seq![nested_view]);
                        Ok((ConditionalStep { condition, then_steps, else_steps }, end))
                    },
                }
            } else if starts_with(&c, "else") {
                let (word, remainder) = match split_header_body(&c) {
                    Ok(pair) => pair,
                    Err(e) => {
                        return Err(e);
                    },
                };
                if !same_str(&word, "else") {
                    return Err(invalid_syntax(&c));
                }
                match remainder {
                    Some(content) => {
                        return Err(invalid_syntax(&content));
                    },
                    None => {},
                }
                match parse_block_steps(lines, next) {
                    Err(e) => Err(e),
                    Ok((else_steps, rest, end)) => match rest {
                        Some(r) => Err(ParseError::InvalidSyntax(r)),
                        None => Ok((ConditionalStep { condition, then_steps, else_steps }, end)),
                    },
                }
            } else {
                Err(invalid_syntax(&c))
            }
        },
    }
}

/// The iterator and the source of a loop header.
pub fn parse_loop_header(first_line: &Vec<char>, header: &Vec<char>) -> (r: Result<
    (Vec<char>, Vec<char>),
    ParseError,
>)
    ensures
        match r {
            Ok(pair) => loop_header(first_line@, header@) == Ok::<
                (Seq<char>, Seq<char>),
                ParseFailure,
            >((pair.0@, pair.1@)),
            Err(e) => loop_header(first_line@, header@) == Err::<
                (Seq<char>, Seq<char>),
                ParseFailure,
            >(e.deep_view()),
        },
{
    proof {
        reveal_strlit("for");
        reveal_strlit(" in ");
    }
    if !starts_with(header, "for") {
        return Err(invalid_syntax(first_line));
    }
    let rest = trim(&subrange(header, 3, header.len()));
    let n = rest.len();
    match find(&rest, " in ") {
        None => Err(invalid_syntax(first_line)),
        Some(at) => {
            proof {
                crate::text::lemma_index_of_from(rest@, " in "@, 0);
            }
            assert(at + 4 <= n);
            let iterator = trim(&subrange(&rest, 0, at));
            let source = trim(&subrange(&rest, at + 4, n));
            if !identifier(&iterator) {
                return Err(invalid_syntax(&iterator));
            }
            if source.len() == 0 {
                return Err(invalid_syntax(first_line));
            }
            Ok((iterator, source))
        },
    }
}

/// Parses a loop.
pub fn parse_for(first_line: &Vec<char>, lines: &Vec<Vec<char>>, pos: usize) -> (r: Result<
    (LoopStep, usize),
    ParseError,
>)
    requires
        pos <= lines.len(),
    ensures
        match r {
            Ok(pair) => for_at(first_line@, views(lines@), pos as int) == Ok::<
                (StepView, int),
                ParseFailure,
            >((pair.0.deep_view(), pair.1 as int)) && pos <= pair.1 <= lines.len(),
            Err(e) => for_at(first_line@, views(lines@), pos as int) == Err::<
                (StepView, int),
                ParseFailure,
            >(e.deep_view()),
        },
    decreases lines.len() - pos, 1nat,
{
    let (header, body) = match split_header_body(first_line) {
        Ok(pair) => pair,
        Err(e) => {
            return Err(e);
        },
    };
    let (iterator, source) = match parse_loop_header(first_line, &header) {
        Ok(pair) => pair,
        Err(e) => {
            return Err(e);
        },
    };
    match body {
        Some(content) => {
            return Err(invalid_syntax(&content));
        },
        None => {},
    }
    let iterable = match parse_loop_iterable(&source) {
        Ok(i) => i,
        Err(e) => {
            return Err(e);
        },
    };
    match parse_block_steps(lines, pos) {
        Err(e) => Err(e),
        Ok((body_steps, trailing, next)) => match trailing {
            Some(rest) => Err(ParseError::InvalidSyntax(rest)),
            None => Ok((LoopStep { iterator: string_of(&iterator), iterable, body: body_steps }, next)),
        },
    }
}

/// Adds the paths of the imports in the steps, and in the steps they hold,
/// to `out`, in the order of the text.
pub fn collect_imports(steps: &Vec<Step>, out: &mut Vec<String>)
    ensures
        final(out).deep_view() == old(out).deep_view() + imports_among(
            steps.deep_view(),
            steps.deep_view().len(),
        ),
    decreases steps,
{
    let ghost start = out.deep_view();
    let mut i: usize = 0;
    assert(start + Seq::<Seq<char>>::empty() =~= start);
    while i < steps.len()
        invariant
            i <= steps.len(),
            out.deep_view() == start + imports_among(steps.deep_view(), i as nat),
        decreases steps.len() - i,
    {
        proof {
            vstd::std_specs::vec::axiom_vec_index_decreases(*steps, i as int);
        }
        let ghost before = out.deep_view();
        let ghost so_far = imports_among(steps.deep_view(), i as nat);
        proof {
            assert(steps.deep_view()[i as int] == steps[i as int].deep_view());
            assert(imports_among(steps.deep_view(), (i + 1) as nat) == so_far + imports_in(
                steps[i as int].deep_view(),
            ));
        }
        match &steps[i] {
            Step::Import(s) => {
                let path = s.path.clone();
                out.push(path);
                assert(out.deep_view() =~= before.push(path@));
                assert(start + (so_far + seq![path@]) =~= (start + so_far).push(path@));
            },
            Step::Conditional(s) => {
                proof {
                    assert(steps[i as int]->Conditional_0 == *s);
                    lemma_conditional_view(*s);
                }
                collect_imports(&s.then_steps, out);
                collect_imports(&s.else_steps, out);
                assert(start + (so_far + (imports_among(
                    s.then_steps.deep_view(),
                    s.then_steps.deep_view().len(),
                ) + imports_among(s.else_steps.deep_view(), s.else_steps.deep_view().len())))
                    =~= out.deep_view());
            },
            Step::Loop(s) => {
                proof {
                    assert(steps[i as int]->Loop_0 == *s);
                    lemma_loop_view(*s);
                }
                collect_imports(&s.body, out);
                assert(start + (so_far + imports_among(
                    s.body.deep_view(),
                    s.body.deep_view().len(),
                )) =~= out.deep_view());
            },
            Step::AssetGroup(_) | Step::Scan(_) | Step::Variable(_) | Step::Secret(_)
            | Step::Script(_) | Step::Report(_) => {
                assert(imports_in(steps[i as int].deep_view()) =~= Seq::empty());
                assert(start + (so_far + Seq::<Seq<char>>::empty()) =~= out.deep_view());
            },
        }
        i += 1;
    }
}

/// Parses a scenario text.
pub fn parse_scenario(source: &str) -> (r: Result<Scenario, ParseError>)
    ensures
        match r {
            Ok(scenario) => scenario_of(source@) == Ok::<ScenarioView, ParseFailure>(
                scenario.deep_view(),
            ),
            Err(e) => scenario_of(source@) == Err::<ScenarioView, ParseFailure>(e.deep_view()),
        },
        r matches Ok(scenario) ==> scenario_well_formed(scenario.deep_view()),
{
    proof {
        lemma_scenario_of_well_formed(source@);
    }
    let chars = chars_of(source);
    let all = lines(&chars);
    let mut steps: Vec<Step> = Vec::new();
    assert(steps.deep_view() =~= Seq::empty());
    let mut at: usize = 0;
    loop
        invariant_except_break
            scenario_steps(lines_of(source@), 0, Seq::empty()) == scenario_steps(
                views(all@),
                at as int,
                steps.deep_view(),
            ),
        invariant
            at <= all.len(),
            views(all@) == lines_of(source@),
        ensures
            scenario_steps(lines_of(source@), 0, Seq::empty()) == Ok::<
                Seq<StepView>,
                ParseFailure,
            >(steps.deep_view()),
        decreases all.len() - at,
    {
        let p = next_non_empty(&all, at);
        if p >= all.len() {
            break ;
        }
        assert(views(all@)[p as int] == all[p as int]@);
        let t = trim(&all[p]);
        match parse_step_internal(&t, &all, p + 1) {
            Err(e) => {
                return Err(e);
            },
            Ok((step, next)) => {
                let ghost before = steps.deep_view();
                steps.push(step);
                assert(steps.deep_view() =~= before.push(step.deep_view()));
                at = next;
            },
        }
    }
    let mut imports: Vec<String> = Vec::new();
    assert(imports.deep_view() =~= Seq::empty());
    collect_imports(&steps, &mut imports);
    assert(Seq::<Seq<char>>::empty() + imports_among(steps.deep_view(), steps.deep_view().len())
        =~= imports_among(steps.deep_view(), steps.deep_view().len()));
    Ok(Scenario { steps, imports })
}

} // verus!
