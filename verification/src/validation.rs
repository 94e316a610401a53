//! The validator: it walks a scenario without running it and says what is
//! wrong with it (errors) and what is doubtful (warnings).

use crate::assoc::lookup;
use crate::expression::{literal_text, Iterable, Literal, LiteralValue, LoopIterable};
use crate::scenario::{
    lemma_conditional_view, lemma_loop_view, LoopStep, ReportStep, ScanStep, Scenario, ScriptStep,
    SecretOrigin, SecretSource, SecretStep, Step, StepView,
};
use crate::text::{append, append_str, chars_of, same_str, string_of, trim, trimmed};
use vstd::prelude::*;

verus! {

/// How grave a diagnostic is.
#[derive(Clone, Copy, Debug, PartialEq, Eq, Structural)]
pub enum DiagnosticLevel {
    Error,
    Warning,
}

/// One finding of the validator: how grave it is, where in the scenario it
/// was met, and what it is.
#[derive(Debug)]
pub struct Diagnostic {
    pub level: DiagnosticLevel,
    pub location: Option<String>,
    pub message: String,
}

/// The mathematical value of a `Diagnostic`.
pub struct Note {
    pub level: DiagnosticLevel,
    pub location: Option<Seq<char>>,
    pub message: Seq<char>,
}

impl DeepView for Diagnostic {
    type V = Note;

    open spec fn deep_view(&self) -> Note {
        Note { level: self.level, location: self.location.deep_view(), message: self.message@ }
    }
}

impl Diagnostic {
    /// A diagnostic that is an error.
    pub fn error(location: Option<String>, message: String) -> (r: Diagnostic)
        ensures
            r.deep_view() == (Note {
                level: DiagnosticLevel::Error,
                location: location.deep_view(),
                message: message@,
            }),
    {
        Diagnostic { level: DiagnosticLevel::Error, location, message }
    }

    /// A diagnostic that is a warning.
    pub fn warning(location: Option<String>, message: String) -> (r: Diagnostic)
        ensures
            r.deep_view() == (Note {
                level: DiagnosticLevel::Warning,
                location: location.deep_view(),
                message: message@,
            }),
    {
        Diagnostic { level: DiagnosticLevel::Warning, location, message }
    }

    /// Whether the diagnostic is an error.
    pub fn is_error(&self) -> (r: bool)
        ensures
            r == (self.deep_view().level == DiagnosticLevel::Error),
    {
        self.level == DiagnosticLevel::Error
    }
}

// ---------------------------------------------------------------------------
// Tool schemas
// ---------------------------------------------------------------------------

/// What a tool takes: the parameters it needs, those it may have, and
/// whether it takes others too.
#[derive(Debug)]
pub struct ToolSchema {
    pub name: String,
    pub kind: Option<String>,
    pub description: Option<String>,
    pub required: Vec<String>,
    pub optional: Vec<String>,
    pub allow_additional: bool,
}

/// The mathematical value of a `ToolSchema`.
pub struct SchemaView {
    pub name: Seq<char>,
    pub kind: Option<Seq<char>>,
    pub description: Option<Seq<char>>,
    pub required: Seq<Seq<char>>,
    pub optional: Seq<Seq<char>>,
    pub allow_additional: bool,
}

impl DeepView for ToolSchema {
    type V = SchemaView;

    open spec fn deep_view(&self) -> SchemaView {
        SchemaView {
            name: self.name@,
            kind: self.kind.deep_view(),
            description: self.description.deep_view(),
            required: self.required.deep_view(),
            optional: self.optional.deep_view(),
            allow_additional: self.allow_additional,
        }
    }
}

/// The schemas with their version and the time at which they were asked for.
#[derive(Debug)]
pub struct ToolSchemaBundle {
    pub version: String,
    pub generated_at: String,
    pub tools: Vec<ToolSchema>,
}

/// The mathematical value of a `ToolSchemaBundle`.
pub struct BundleView {
    pub version: Seq<char>,
    pub generated_at: Seq<char>,
    pub tools: Seq<SchemaView>,
}

impl DeepView for ToolSchemaBundle {
    type V = BundleView;

    open spec fn deep_view(&self) -> BundleView {
        BundleView {
            version: self.version@,
            generated_at: self.generated_at@,
            tools: self.tools.deep_view(),
        }
    }
}

/// The schema of nmap.
pub open spec fn nmap_schema() -> SchemaView {
    SchemaView {
        name: "nmap"@,
        kind: Some("scan"@),
        description: Some("Nmap TCP/UDP scanner"@),
        required: seq!["target"@],
        optional: seq!["flags"@],
        allow_additional: false,
    }
}

/// The schema of gobuster.
pub open spec fn gobuster_schema() -> SchemaView {
    SchemaView {
        name: "gobuster"@,
        kind: Some("scan"@),
        description: Some("Gobuster content discovery"@),
        required: seq!["target"@, "args"@],
        optional: seq!["flags"@, "wordlist"@, "mode"@],
        allow_additional: false,
    }
}

/// The schema of a script.
pub open spec fn script_schema() -> SchemaView {
    SchemaView {
        name: "script"@,
        kind: Some("script"@),
        description: Some("Generic script execution"@),
        required: seq!["run"@],
        optional: seq!["args"@, "cwd"@],
        allow_additional: false,
    }
}

/// The schemas that the library knows.
pub open spec fn builtin_schemas() -> Seq<SchemaView> {
    seq![nmap_schema(), gobuster_schema(), script_schema()]
}

/// The version of the schemas.
pub open spec fn schema_version() -> Seq<char> {
    "1.0.0"@
}

fn words(list: &[&str]) -> (r: Vec<String>)
    ensures
        r.deep_view() == Seq::new(list@.len(), |i: int| list@[i]@),
{
    let mut out: Vec<String> = Vec::new();
    let mut i: usize = 0;
    while i < list.len()
        invariant
            i <= list.len(),
            out.deep_view() == Seq::new(i as nat, |k: int| list@[k]@),
        decreases list.len() - i,
    {
        let item = String::from_str(list[i]);
        let ghost before = out.deep_view();
        out.push(item);
        assert(out.deep_view() =~= before.push(item@));
        assert(out.deep_view() =~= Seq::new((i + 1) as nat, |k: int| list@[k]@));
        i += 1;
    }
    out
}

fn schema(
    name: &str,
    kind: &str,
    description: &str,
    required: Vec<String>,
    optional: Vec<String>,
) -> (r: ToolSchema)
    ensures
        r.deep_view() == (SchemaView {
            name: name@,
            kind: Some(kind@),
            description: Some(description@),
            required: required.deep_view(),
            optional: optional.deep_view(),
            allow_additional: false,
        }),
{
    ToolSchema {
        name: String::from_str(name),
        kind: Some(String::from_str(kind)),
        description: Some(String::from_str(description)),
        required,
        optional,
        allow_additional: false,
    }
}

fn nmap_tool() -> (r: ToolSchema)
    ensures
        r.deep_view() == nmap_schema(),
{
    let target = ["target"];
    let flags = ["flags"];
    let r = schema("nmap", "scan", "Nmap TCP/UDP scanner", words(&target), words(&flags));
    assert(r.required.deep_view() =~= seq!["target"@]);
    assert(r.optional.deep_view() =~= seq!["flags"@]);
    r
}

fn gobuster_tool() -> (r: ToolSchema)
    ensures
        r.deep_view() == gobuster_schema(),
{
    let needed = ["target", "args"];
    let others = ["flags", "wordlist", "mode"];
    let r = schema(
        "gobuster",
        "scan",
        "Gobuster content discovery",
        words(&needed),
        words(&others),
    );
    assert(r.required.deep_view() =~= seq!["target"@, "args"@]);
    assert(r.optional.deep_view() =~= seq!["flags"@, "wordlist"@, "mode"@]);
    r
}

fn script_tool() -> (r: ToolSchema)
    ensures
        r.deep_view() == script_schema(),
{
    let run = ["run"];
    let more = ["args", "cwd"];
    let r = schema("script", "script", "Generic script execution", words(&run), words(&more));
    assert(r.required.deep_view() =~= seq!["run"@]);
    assert(r.optional.deep_view() =~= seq!["args"@, "cwd"@]);
    r
}

/// The schemas that the library knows.
pub fn builtin_tool_schemas() -> (r: Vec<ToolSchema>)
    ensures
        r.deep_view() == builtin_schemas(),
{
    let mut out: Vec<ToolSchema> = Vec::new();
    let nmap = nmap_tool();
    let gobuster = gobuster_tool();
    let script = script_tool();
    let ghost a = nmap.deep_view();
    let ghost b = gobuster.deep_view();
    let ghost c = script.deep_view();
    out.push(nmap);
    out.push(gobuster);
    out.push(script);
    assert(out.deep_view() =~= seq![a, b, c]);
    out
}

/// The schemas that the library knows, with their version and the time at
/// which they were asked for.
pub fn builtin_tool_schema_bundle(generated_at: &str) -> (r: ToolSchemaBundle)
    ensures
        r.deep_view() == (BundleView {
            version: schema_version(),
            generated_at: generated_at@,
            tools: builtin_schemas(),
        }),
{
    ToolSchemaBundle {
        version: String::from_str("1.0.0"),
        generated_at: String::from_str(generated_at),
        tools: builtin_tool_schemas(),
    }
}

/// The schema of a tool, if the library knows the tool.
pub open spec fn schema_of(tool: Seq<char>) -> Option<SchemaView> {
    if tool == "nmap"@ {
        Some(nmap_schema())
    } else if tool == "gobuster"@ {
        Some(gobuster_schema())
    } else if tool == "script"@ {
        Some(script_schema())
    } else {
        None
    }
}

/// The schema of a tool, if the library knows the tool.
pub fn lookup_schema(tool: &str) -> (r: Option<ToolSchema>)
    ensures
        r.deep_view() == schema_of(tool@),
{
    let name = chars_of(tool);
    if same_str(&name, "nmap") {
        Some(nmap_tool())
    } else if same_str(&name, "gobuster") {
        Some(gobuster_tool())
    } else if same_str(&name, "script") {
        Some(script_tool())
    } else {
        None
    }
}

/// Whether a schema names a parameter.
pub open spec fn allows(schema: SchemaView, key: Seq<char>) -> bool {
    schema.required.contains(key) || schema.optional.contains(key)
}

fn among(list: &Vec<String>, key: &Vec<char>) -> (r: bool)
    ensures
        r == list.deep_view().contains(key@),
{
    let mut i: usize = 0;
    while i < list.len()
        invariant
            i <= list.len(),
            forall|k: int| 0 <= k < i ==> list.deep_view()[k] != key@,
        decreases list.len() - i,
    {
        assert(list.deep_view()[i as int] == list[i as int]@);
        if crate::text::same(&chars_of(list[i].as_str()), key) {
            return true;
        }
        i += 1;
    }
    false
}

impl ToolSchema {
    /// Whether the schema names a parameter.
    pub fn allows(&self, key: &str) -> (r: bool)
        ensures
            r == allows(self.deep_view(), key@),
    {
        let k = chars_of(key);
        among(&self.required, &k) || among(&self.optional, &k)
    }
}

// ---------------------------------------------------------------------------
// The walk
// ---------------------------------------------------------------------------

/// Where the walk is, and what it has found.
pub struct ValidationContext {
    pub stack: Vec<String>,
    pub diagnostics: Vec<Diagnostic>,
}

/// The mathematical value of a `ValidationContext`.
pub struct ContextView {
    pub stack: Seq<Seq<char>>,
    pub diagnostics: Seq<Note>,
}

impl DeepView for ValidationContext {
    type V = ContextView;

    open spec fn deep_view(&self) -> ContextView {
        ContextView { stack: self.stack.deep_view(), diagnostics: self.diagnostics.deep_view() }
    }
}

/// The first `n` labels, with ` > ` between them.
pub open spec fn trail(stack: Seq<Seq<char>>, n: nat) -> Seq<char>
    decreases n,
{
    if 0 < n <= stack.len() {
        trail(stack, (n - 1) as nat) + (if n > 1 {
            " > "@
        } else {
            Seq::empty()
        }) + stack[n - 1]
    } else {
        Seq::empty()
    }
}

/// Where the walk is: the labels from the outermost step to the innermost;
/// nowhere at the top of the scenario.
pub open spec fn location_of(stack: Seq<Seq<char>>) -> Option<Seq<char>> {
    if stack.len() == 0 {
        None
    } else {
        Some(trail(stack, stack.len()))
    }
}

/// The walk one step deeper, under `label`.
pub open spec fn pushed(ctx: ContextView, label: Seq<char>) -> ContextView {
    ContextView { stack: ctx.stack.push(label), ..ctx }
}

/// The walk one step less deep.
pub open spec fn popped(ctx: ContextView) -> ContextView {
    ContextView {
        stack: if ctx.stack.len() > 0 {
            ctx.stack.drop_last()
        } else {
            ctx.stack
        },
        ..ctx
    }
}

/// The walk with one more diagnostic, at the place where it is.
pub open spec fn noted(ctx: ContextView, level: DiagnosticLevel, message: Seq<char>) -> ContextView {
    ContextView {
        diagnostics: ctx.diagnostics.push(
            Note { level, location: location_of(ctx.stack), message },
        ),
        ..ctx
    }
}

/// The walk with one more error.
pub open spec fn with_error(ctx: ContextView, message: Seq<char>) -> ContextView {
    noted(ctx, DiagnosticLevel::Error, message)
}

/// The walk with one more warning.
pub open spec fn with_warning(ctx: ContextView, message: Seq<char>) -> ContextView {
    noted(ctx, DiagnosticLevel::Warning, message)
}

/// A text of whitespace alone.
pub open spec fn is_blank(text: Seq<char>) -> bool {
    trimmed(text).len() == 0
}

fn blank(text: &String) -> (r: bool)
    ensures
        r == is_blank(text@),
{
    trim(&chars_of(text.as_str())).len() == 0
}

impl ValidationContext {
    /// A walk at the top of a scenario that has found nothing.
    pub fn new() -> (r: ValidationContext)
        ensures
            r.deep_view() == (ContextView { stack: Seq::empty(), diagnostics: Seq::empty() }),
    {
        let r = ValidationContext { stack: Vec::new(), diagnostics: Vec::new() };
        assert(r.stack.deep_view() =~= Seq::empty());
        assert(r.diagnostics.deep_view() =~= Seq::empty());
        r
    }

    /// Goes one step deeper, under `label`.
    pub fn push(&mut self, label: String)
        ensures
            final(self).deep_view() == pushed(old(self).deep_view(), label@),
    {
        let ghost before = self.stack.deep_view();
        self.stack.push(label);
        assert(self.stack.deep_view() =~= before.push(label@));
    }

    /// Goes one step less deep.
    pub fn pop(&mut self)
        ensures
            final(self).deep_view() == popped(old(self).deep_view()),
    {
        let ghost before = self.stack.deep_view();
        if self.stack.len() > 0 {
            self.stack.pop();
            assert(self.stack.deep_view() =~= before.drop_last());
        }
    }

    /// Where the walk is.
    pub fn location(&self) -> (r: Option<String>)
        ensures
            r.deep_view() == location_of(self.deep_view().stack),
    {
        if self.stack.len() == 0 {
            return None;
        }
        let mut out: Vec<char> = Vec::new();
        let mut i: usize = 0;
        while i < self.stack.len()
            invariant
                i <= self.stack.len(),
                out@ == trail(self.stack.deep_view(), i as nat),
            decreases self.stack.len() - i,
        {
            assert(self.stack.deep_view()[i as int] == self.stack[i as int]@);
            if i > 0 {
                append_str(&mut out, " > ");
            } else {
                assert(out@ + Seq::<char>::empty() =~= out@);
            }
            append_str(&mut out, self.stack[i].as_str());
            i += 1;
        }
        Some(string_of(&out))
    }

    /// Notes an error at the place where the walk is.
    pub fn error(&mut self, message: String)
        ensures
            final(self).deep_view() == with_error(old(self).deep_view(), message@),
    {
        let diag = Diagnostic::error(self.location(), message);
        let ghost before = self.diagnostics.deep_view();
        let ghost view = diag.deep_view();
        self.diagnostics.push(diag);
        assert(self.diagnostics.deep_view() =~= before.push(view));
    }

    /// Notes a warning at the place where the walk is.
    pub fn warning(&mut self, message: String)
        ensures
            final(self).deep_view() == with_warning(old(self).deep_view(), message@),
    {
        let diag = Diagnostic::warning(self.location(), message);
        let ghost before = self.diagnostics.deep_view();
        let ghost view = diag.deep_view();
        self.diagnostics.push(diag);
        assert(self.diagnostics.deep_view() =~= before.push(view));
    }

    /// What the walk has found.
    pub fn finish(self) -> (r: Vec<Diagnostic>)
        ensures
            r.deep_view() == self.deep_view().diagnostics,
    {
        self.diagnostics
    }
}

/// The message for a parameter that no schema names.
pub open spec fn unknown_parameter(key: Seq<char>, tool: Seq<char>) -> Seq<char> {
    "unknown parameter '"@ + key + "' for tool '"@ + tool + "'; it will be ignored"@
}

fn unknown_message(key: &str, tool: &str) -> (r: String)
    ensures
        r@ == unknown_parameter(key@, tool@),
{
    let mut out = chars_of("unknown parameter '");
    append_str(&mut out, key);
    append_str(&mut out, "' for tool '");
    append_str(&mut out, tool);
    append_str(&mut out, "'; it will be ignored");
    string_of(&out)
}

/// The required parameters from index `i` on: one that is absent is an
/// error, and so is one that is blank.
pub open spec fn required_checked(
    params: Seq<(Seq<char>, Seq<char>)>,
    required: Seq<Seq<char>>,
    tool: Seq<char>,
    i: int,
    ctx: ContextView,
) -> ContextView
    decreases required.len() - i,
{
    if i < 0 || i >= required.len() {
        ctx
    } else {
        required_checked(
            params,
            required,
            tool,
            i + 1,
            match lookup(params, required[i]) {
                Some(value) => if is_blank(value) {
                    with_error(
                        ctx,
                        "parameter '"@ + required[i] + "' for tool '"@ + tool + "' cannot be empty"@,
                    )
                } else {
                    ctx
                },
                None => with_error(
                    ctx,
                    "missing required parameter '"@ + required[i] + "' for tool '"@ + tool + "'"@,
                ),
            },
        )
    }
}

/// Checks that the required parameters are present and not blank.
pub fn check_required(
    params: &Vec<(String, String)>,
    required: &Vec<String>,
    ctx: &mut ValidationContext,
    tool: &str,
)
    ensures
        final(ctx).deep_view() == required_checked(
            params.deep_view(),
            required.deep_view(),
            tool@,
            0,
            old(ctx).deep_view(),
        ),
{
    let mut i: usize = 0;
    while i < required.len()
        invariant
            i <= required.len(),
            required_checked(
                params.deep_view(),
                required.deep_view(),
                tool@,
                0,
                old(ctx).deep_view(),
            ) == required_checked(
                params.deep_view(),
                required.deep_view(),
                tool@,
                i as int,
                ctx.deep_view(),
            ),
        decreases required.len() - i,
    {
        assert(required.deep_view()[i as int] == required[i as int]@);
        match crate::command::get(params, required[i].as_str()) {
            Some(value) => {
                if blank(&value) {
                    let mut out = chars_of("parameter '");
                    append_str(&mut out, required[i].as_str());
                    append_str(&mut out, "' for tool '");
                    append_str(&mut out, tool);
                    append_str(&mut out, "' cannot be empty");
                    ctx.error(string_of(&out));
                }
            },
            None => {
                let mut out = chars_of("missing required parameter '");
                append_str(&mut out, required[i].as_str());
                append_str(&mut out, "' for tool '");
                append_str(&mut out, tool);
                append_str(&mut out, "'");
                ctx.error(string_of(&out));
            },
        }
        i += 1;
    }
}

/// The parameters from index `i` on: one that is not among `allowed` is a
/// warning.
pub open spec fn known_enforced(
    params: Seq<(Seq<char>, Seq<char>)>,
    allowed: Seq<Seq<char>>,
    tool: Seq<char>,
    i: int,
    ctx: ContextView,
) -> ContextView
    decreases params.len() - i,
{
    if i < 0 || i >= params.len() {
        ctx
    } else {
        known_enforced(
            params,
            allowed,
            tool,
            i + 1,
            if allowed.contains(params[i].0) {
                ctx
            } else {
                with_warning(ctx, unknown_parameter(params[i].0, tool))
            },
        )
    }
}

/// Warns of each parameter that is not among `allowed`.
pub fn enforce_known(
    params: &Vec<(String, String)>,
    allowed: &Vec<String>,
    ctx: &mut ValidationContext,
    tool: &str,
)
    ensures
        final(ctx).deep_view() == known_enforced(
            params.deep_view(),
            allowed.deep_view(),
            tool@,
            0,
            old(ctx).deep_view(),
        ),
{
    let mut i: usize = 0;
    while i < params.len()
        invariant
            i <= params.len(),
            known_enforced(params.deep_view(), allowed.deep_view(), tool@, 0, old(ctx).deep_view())
                == known_enforced(
                params.deep_view(),
                allowed.deep_view(),
                tool@,
                i as int,
                ctx.deep_view(),
            ),
        decreases params.len() - i,
    {
        assert(params.deep_view()[i as int] == (params[i as int].0@, params[i as int].1@));
        if !among(allowed, &chars_of(params[i].0.as_str())) {
            ctx.warning(unknown_message(params[i].0.as_str(), tool));
        }
        i += 1;
    }
}

/// Whether a parameter is present and blank.
pub open spec fn blank_param(params: Seq<(Seq<char>, Seq<char>)>, key: Seq<char>) -> bool {
    match lookup(params, key) {
        Some(value) => is_blank(value),
        None => false,
    }
}

fn param_is_blank(params: &Vec<(String, String)>, key: &str) -> (r: bool)
    ensures
        r == blank_param(params.deep_view(), key@),
{
    match crate::command::get(params, key) {
        Some(value) => blank(&value),
        None => false,
    }
}

/// What the particular rules add: `args` of gobuster, `target` of any tool
/// and `run` of a script may not be blank.
pub open spec fn particular_checked(
    tool: Seq<char>,
    params: Seq<(Seq<char>, Seq<char>)>,
    ctx: ContextView,
) -> ContextView {
    let first = if tool == "gobuster"@ && blank_param(params, "args"@) {
        with_error(ctx, "parameter 'args' cannot be empty for tool 'gobuster'"@)
    } else {
        ctx
    };
    let second = if blank_param(params, "target"@) {
        with_error(first, "parameter 'target' cannot be empty"@)
    } else {
        first
    };
    if tool == "script"@ && blank_param(params, "run"@) {
        with_error(second, "parameter 'run' cannot be empty"@)
    } else {
        second
    }
}

/// The parameters of a tool held against its schema.
pub open spec fn schema_checked(
    tool: Seq<char>,
    params: Seq<(Seq<char>, Seq<char>)>,
    schema: SchemaView,
    ctx: ContextView,
) -> ContextView {
    let checked = particular_checked(
        tool,
        params,
        required_checked(params, schema.required, tool, 0, ctx),
    );
    if schema.allow_additional {
        checked
    } else {
        known_enforced(params, schema.required + schema.optional, tool, 0, checked)
    }
}

/// Holds the parameters of a tool against its schema.
pub fn validate_with_schema(
    tool: &str,
    params: &Vec<(String, String)>,
    schema: &ToolSchema,
    ctx: &mut ValidationContext,
)
    ensures
        final(ctx).deep_view() == schema_checked(
            tool@,
            params.deep_view(),
            schema.deep_view(),
            old(ctx).deep_view(),
        ),
{
    check_required(params, &schema.required, ctx, tool);
    let name = chars_of(tool);
    if same_str(&name, "gobuster") && param_is_blank(params, "args") {
        ctx.error(String::from_str("parameter 'args' cannot be empty for tool 'gobuster'"));
    }
    if param_is_blank(params, "target") {
        ctx.error(String::from_str("parameter 'target' cannot be empty"));
    }
    if same_str(&name, "script") && param_is_blank(params, "run") {
        ctx.error(String::from_str("parameter 'run' cannot be empty"));
    }
    if !schema.allow_additional {
        let mut allowed = crate::scenario::copy_list(&schema.required);
        let ghost first = allowed.deep_view();
        let mut i: usize = 0;
        assert(first + schema.optional.deep_view().take(0) =~= first);
        while i < schema.optional.len()
            invariant
                i <= schema.optional.len(),
                allowed.deep_view() == first + schema.optional.deep_view().take(i as int),
            decreases schema.optional.len() - i,
        {
            let item = schema.optional[i].clone();
            let ghost before = allowed.deep_view();
            allowed.push(item);
            assert(allowed.deep_view() =~= before.push(item@));
            assert(schema.optional.deep_view()[i as int] == schema.optional[i as int]@);
            assert(first + schema.optional.deep_view().take(i + 1) =~= (first
                + schema.optional.deep_view().take(i as int)).push(schema.optional[i as int]@));
            i += 1;
        }
        assert(schema.optional.deep_view().take(schema.optional.len() as int)
            =~= schema.optional.deep_view());
        enforce_known(params, &allowed, ctx, tool);
    }
}

/// The parameters that a scan by an unknown tool may have.
pub open spec fn generic_parameters() -> Seq<Seq<char>> {
    seq!["target"@, "flags"@, "args"@, "cwd"@]
}

/// A scan is held against the schema of its tool; a scan by a tool that the
/// library does not know should have a target and may have flags, arguments
/// and a directory.
pub open spec fn scan_checked(tool: Seq<char>, params: Seq<(Seq<char>, Seq<char>)>, ctx: ContextView)
    -> ContextView {
    match schema_of(tool) {
        Some(schema) => schema_checked(tool, params, schema, ctx),
        None => known_enforced(
            params,
            generic_parameters(),
            tool,
            0,
            match lookup(params, "target"@) {
                Some(value) => if is_blank(value) {
                    with_error(ctx, "parameter 'target' cannot be empty"@)
                } else {
                    ctx
                },
                None => with_warning(
                    ctx,
                    "parameter 'target' is not set; scans may rely on tool defaults"@,
                ),
            },
        ),
    }
}

/// Checks a scan.
pub fn validate_scan(scan: &ScanStep, ctx: &mut ValidationContext)
    ensures
        final(ctx).deep_view() == scan_checked(
            scan.tool@,
            scan.params.deep_view(),
            old(ctx).deep_view(),
        ),
{
    match lookup_schema(scan.tool.as_str()) {
        Some(schema) => {
            validate_with_schema(scan.tool.as_str(), &scan.params, &schema, ctx);
        },
        None => {
            match crate::command::get(&scan.params, "target") {
                Some(value) => {
                    if blank(&value) {
                        ctx.error(String::from_str("parameter 'target' cannot be empty"));
                    }
                },
                None => {
                    ctx.warning(
                        String::from_str(
                            "parameter 'target' is not set; scans may rely on tool defaults",
                        ),
                    );
                },
            }
            let names = ["target", "flags", "args", "cwd"];
            let allowed = words(&names);
            assert(allowed.deep_view() =~= generic_parameters());
            enforce_known(&scan.params, &allowed, ctx, scan.tool.as_str());
        },
    }
}

/// Checks a script.
pub fn validate_script(script: &ScriptStep, ctx: &mut ValidationContext)
    ensures
        final(ctx).deep_view() == schema_checked(
            "script"@,
            script.params.deep_view(),
            script_schema(),
            old(ctx).deep_view(),
        ),
{
    validate_with_schema("script", &script.params, &script_tool(), ctx);
}

/// A report that includes nothing is doubtful.
pub open spec fn report_checked(includes: Seq<Seq<char>>, ctx: ContextView) -> ContextView {
    if includes.len() == 0 {
        with_warning(ctx, "report does not include any artifacts"@)
    } else {
        ctx
    }
}

/// Checks a report.
pub fn validate_report(report: &ReportStep, ctx: &mut ValidationContext)
    ensures
        final(ctx).deep_view() == report_checked(report.includes.deep_view(), old(ctx).deep_view()),
{
    if report.includes.len() == 0 {
        ctx.warning(String::from_str("report does not include any artifacts"));
    }
}

/// The mappings of a secret from index `i` on: neither the alias nor the
/// name of the variable may be blank.
pub open spec fn mappings_checked(mappings: Seq<(Seq<char>, Seq<char>)>, i: int, ctx: ContextView)
    -> ContextView
    decreases mappings.len() - i,
{
    if i < 0 || i >= mappings.len() {
        ctx
    } else {
        let first = if is_blank(mappings[i].0) {
            with_error(ctx, "env secret mapping name cannot be empty"@)
        } else {
            ctx
        };
        mappings_checked(
            mappings,
            i + 1,
            if is_blank(mappings[i].1) {
                with_error(
                    first,
                    "env secret mapping '"@ + mappings[i].0
                        + "' references an empty variable name"@,
                )
            } else {
                first
            },
        )
    }
}

/// A secret needs a name and a source that says where it comes from; a
/// vault is not served.
pub open spec fn secret_checked(name: Seq<char>, source: SecretOrigin, ctx: ContextView)
    -> ContextView {
    let named = if is_blank(name) {
        with_error(ctx, "secret name cannot be empty"@)
    } else {
        ctx
    };
    match source {
        SecretOrigin::Env { mappings } => mappings_checked(
            mappings,
            0,
            if mappings.len() == 0 {
                with_error(named, "env secret requires at least one mapping"@)
            } else {
                named
            },
        ),
        SecretOrigin::File { path } => if is_blank(path) {
            with_error(named, "file secret path cannot be empty"@)
        } else {
            named
        },
        SecretOrigin::Vault { path } => with_warning(
            if is_blank(path) {
                with_error(named, "vault secret requires a path"@)
            } else {
                named
            },
            "vault provider is not implemented yet; this step will be skipped at runtime"@,
        ),
    }
}

/// Checks a secret.
pub fn validate_secret(secret: &SecretStep, ctx: &mut ValidationContext)
    ensures
        final(ctx).deep_view() == secret_checked(
            secret.name@,
            secret.source.deep_view(),
            old(ctx).deep_view(),
        ),
{
    if blank(&secret.name) {
        ctx.error(String::from_str("secret name cannot be empty"));
    }
    match &secret.source {
        SecretSource::Env { mappings } => {
            if mappings.len() == 0 {
                ctx.error(String::from_str("env secret requires at least one mapping"));
            }
            let ghost start = ctx.deep_view();
            let mut i: usize = 0;
            while i < mappings.len()
                invariant
                    i <= mappings.len(),
                    mappings_checked(mappings.deep_view(), 0, start) == mappings_checked(
                        mappings.deep_view(),
                        i as int,
                        ctx.deep_view(),
                    ),
                decreases mappings.len() - i,
            {
                assert(mappings.deep_view()[i as int] == (
                    mappings[i as int].0@,
                    mappings[i as int].1@,
                ));
                if blank(&mappings[i].0) {
                    ctx.error(String::from_str("env secret mapping name cannot be empty"));
                }
                if blank(&mappings[i].1) {
                    let mut out = chars_of("env secret mapping '");
                    append_str(&mut out, mappings[i].0.as_str());
                    append_str(&mut out, "' references an empty variable name");
                    ctx.error(string_of(&out));
                }
                i += 1;
            }
        },
        SecretSource::File { path } => {
            if blank(path) {
                ctx.error(String::from_str("file secret path cannot be empty"));
            }
        },
        SecretSource::Vault { path } => {
            if blank(path) {
                ctx.error(String::from_str("vault secret requires a path"));
            }
            ctx.warning(
                String::from_str(
                    "vault provider is not implemented yet; this step will be skipped at runtime",
                ),
            );
        },
    }
}

/// A loop over a literal needs an array or a string.
pub open spec fn loop_checked(iterable: Iterable, ctx: ContextView) -> ContextView {
    match iterable {
        Iterable::Literal(Literal::List(_)) => ctx,
        Iterable::Literal(Literal::Text(_)) => ctx,
        Iterable::Literal(other) => with_error(
            ctx,
            "loop iterable must be an array or string literal, found "@ + literal_text(other),
        ),
        Iterable::Variable(_) => ctx,
    }
}

/// Checks the source of a loop.
pub fn validate_loop(step: &LoopStep, ctx: &mut ValidationContext)
    ensures
        final(ctx).deep_view() == loop_checked(step.iterable.deep_view(), old(ctx).deep_view()),
{
    match &step.iterable {
        LoopIterable::Literal(literal) => {
            match literal {
                LiteralValue::Array(items) => {
                    proof {
                        crate::expression::lemma_literal_array(*items);
                    }
                },
                LiteralValue::String(_) => {},
                other => {
                    let mut out = chars_of(
                        "loop iterable must be an array or string literal, found ",
                    );
                    append(&mut out, &other.display_chars());
                    ctx.error(string_of(&out));
                },
            }
        },
        LoopIterable::Variable(_) => {},
    }
}

/// What the walk has found behind the first `n` steps.
pub open spec fn steps_checked(steps: Seq<StepView>, n: nat, ctx: ContextView) -> ContextView
    decreases steps, n,
{
    if 0 < n <= steps.len() {
        step_checked(steps[n - 1], steps_checked(steps, (n - 1) as nat, ctx))
    } else {
        ctx
    }
}

/// What the walk has found behind a step. Each step is checked under its
/// own label; the steps of a branch or of a loop are checked under the label
/// of what holds them.
pub open spec fn step_checked(step: StepView, ctx: ContextView) -> ContextView
    decreases step, 0nat,
{
    match step {
        StepView::Import { path } => ctx,
        StepView::Variable { name, value } => ctx,
        StepView::Secret { name, source } => popped(
            secret_checked(name, source, pushed(ctx, "secret "@ + name)),
        ),
        StepView::AssetGroup { name, properties } => popped(pushed(ctx, "asset_group "@ + name)),
        StepView::Scan { name, tool, params, output } => popped(
            scan_checked(tool, params, pushed(ctx, "scan "@ + name)),
        ),
        StepView::Script { name, params, output } => popped(
            schema_checked("script"@, params, script_schema(), pushed(ctx, "script "@ + name)),
        ),
        StepView::Report { name, format, includes, options, output } => popped(
            report_checked(includes, pushed(ctx, "report "@ + name)),
        ),
        StepView::Conditional { condition, then_steps, else_steps } => {
            let first = popped(
                steps_checked(
                    then_steps,
                    then_steps.len(),
                    pushed(ctx, "if "@ + crate::expression::condition_text(condition)),
                ),
            );
            if else_steps.len() > 0 {
                popped(steps_checked(else_steps, else_steps.len(), pushed(first, "else"@)))
            } else {
                first
            }
        },
        StepView::Loop { iterator, iterable, body } => popped(
            steps_checked(
                body,
                body.len(),
                loop_checked(iterable, pushed(ctx, "for "@ + iterator)),
            ),
        ),
    }
}

fn label(prefix: &str, name: &str) -> (r: String)
    ensures
        r@ == prefix@ + name@,
{
    let mut out = chars_of(prefix);
    append_str(&mut out, name);
    string_of(&out)
}

/// Checks the steps, and the steps they hold, in the order of the text.
pub fn validate_steps(steps: &Vec<Step>, ctx: &mut ValidationContext)
    ensures
        final(ctx).deep_view() == steps_checked(
            steps.deep_view(),
            steps.deep_view().len(),
            old(ctx).deep_view(),
        ),
    decreases steps,
{
    let mut i: usize = 0;
    while i < steps.len()
        invariant
            i <= steps.len(),
            ctx.deep_view() == steps_checked(steps.deep_view(), i as nat, old(ctx).deep_view()),
        decreases steps.len() - i,
    {
        let ghost before = ctx.deep_view();
        proof {
            vstd::std_specs::vec::axiom_vec_index_decreases(*steps, i as int);
            assert(steps.deep_view()[i as int] == steps[i as int].deep_view());
            assert(steps_checked(steps.deep_view(), (i + 1) as nat, old(ctx).deep_view())
                == step_checked(steps[i as int].deep_view(), before));
        }
        match &steps[i] {
            Step::Import(_) => {},
            Step::Variable(_) => {},
            Step::Secret(secret) => {
                ctx.push(label("secret ", secret.name.as_str()));
                validate_secret(secret, ctx);
                ctx.pop();
            },
            Step::AssetGroup(group) => {
                ctx.push(label("asset_group ", group.name.as_str()));
                ctx.pop();
            },
            Step::Scan(scan) => {
                ctx.push(label("scan ", scan.name.as_str()));
                validate_scan(scan, ctx);
                ctx.pop();
            },
            Step::Script(script) => {
                ctx.push(label("script ", script.name.as_str()));
                validate_script(script, ctx);
                ctx.pop();
            },
            Step::Report(report) => {
                ctx.push(label("report ", report.name.as_str()));
                validate_report(report, ctx);
                ctx.pop();
            },
            Step::Conditional(block) => {
                proof {
                    assert(steps[i as int]->Conditional_0 == *block);
                    lemma_conditional_view(*block);
                }
                ctx.push(label("if ", block.condition.display().as_str()));
                validate_steps(&block.then_steps, ctx);
                ctx.pop();
                if block.else_steps.len() > 0 {
                    ctx.push(String::from_str("else"));
                    validate_steps(&block.else_steps, ctx);
                    ctx.pop();
                }
            },
            Step::Loop(loop_step) => {
                proof {
                    assert(steps[i as int]->Loop_0 == *loop_step);
                    lemma_loop_view(*loop_step);
                }
                ctx.push(label("for ", loop_step.iterator.as_str()));
                validate_loop(loop_step, ctx);
                validate_steps(&loop_step.body, ctx);
                ctx.pop();
            },
        }
        i += 1;
    }
}

/// The findings of the validator for a scenario, in the order of the text.
pub open spec fn diagnostics_of(scenario: crate::scenario::ScenarioView) -> Seq<Note> {
    steps_checked(
        scenario.steps,
        scenario.steps.len(),
        ContextView { stack: Seq::empty(), diagnostics: Seq::empty() },
    ).diagnostics
}

/// Validates a scenario.
pub fn validate_scenario(scenario: &Scenario) -> (r: Vec<Diagnostic>)
    ensures
        r.deep_view() == diagnostics_of(scenario.deep_view()),
{
    let mut ctx = ValidationContext::new();
    validate_steps(&scenario.steps, &mut ctx);
    ctx.finish()
}

} // verus!
