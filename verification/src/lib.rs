//! Axion: a small language for reconnaissance workflows, and its interpreter.
//!
//! A scenario text declares asset groups, scans, scripts, secrets, variables
//! and reports, and branches and loops over them. `parse_scenario` turns the
//! text into a `Scenario`; `validate_scenario` says what is wrong with one;
//! `Scenario::summary` says what it holds; an `Executor` begins a `Run`, which
//! walks the steps one at a time and asks its host for whatever needs the
//! world outside: a program to run, a file to read or write, a variable of
//! the environment. What each function returns is stated over the
//! mathematical values of its arguments, and proved.

pub mod artifact;
pub mod assoc;
pub mod command;
pub mod execution;
pub mod executor;
pub mod expression;
pub mod handlers;
pub mod json;
pub mod laws;
pub mod machine;
pub mod nmap;
pub mod parser;
pub mod render;
pub mod resolve;
pub mod sarif;
pub mod scenario;
pub mod secrets;
pub mod statements;
pub mod summary;
pub mod syntax;
pub mod text;
pub mod validation;

pub use artifact::{
    ArtifactKind, Asset, AssetGroupArtifact, Finding, ReportArtifact, ScanArtifacts,
    ScriptArtifact, StoredArtifact, TableArtifact,
};
pub use execution::{ExecutionReport, ExecutionStatus, StepExecution, StepKind};
pub use executor::{ExecutionOutcome, Executor};
pub use expression::{
    ConditionExpr, ConditionOperand, Decimal, LiteralValue, LoopIterable,
};
pub use json::Json;
pub use machine::{Action, Event, ProcessOutput, Run};
pub use parser::parse_scenario;
pub use scenario::{
    AssetGroupStep, ConditionalStep, ImportStep, LoopStep, ReportFormat, ReportStep, ScanStep,
    Scenario, ScriptStep, SecretSource, SecretStep, Step, VariableDecl,
};
pub use secrets::SecretStore;
pub use summary::{
    AssetGroupSummary, ReportSummary, ScanSummary, ScenarioSummary, ScriptSummary,
    VariableSummary,
};
pub use syntax::{parse_literal_expression, ParseError};
pub use validation::{
    builtin_tool_schema_bundle, builtin_tool_schemas, validate_scenario, Diagnostic,
    DiagnosticLevel, ToolSchema, ToolSchemaBundle,
};
