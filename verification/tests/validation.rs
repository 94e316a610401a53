use axion_core::validation::{lookup_schema, ValidationContext};
use axion_core::{
    builtin_tool_schema_bundle, builtin_tool_schemas, parse_scenario, validate_scenario,
    Diagnostic, DiagnosticLevel, Scenario,
};

fn parsed(source: &str) -> Scenario {
    match parse_scenario(source) {
        Ok(scenario) => scenario,
        Err(error) => panic!("failed to parse scenario: {}", error.message()),
    }
}

fn shown(diagnostics: &Vec<Diagnostic>) -> Vec<String> {
    diagnostics
        .iter()
        .map(|d| {
            format!(
                "{}|{}|{}",
                if d.is_error() { "error" } else { "warning" },
                d.location.as_deref().unwrap_or("-"),
                d.message
            )
        })
        .collect()
}

fn validated(source: &str) -> Vec<String> {
    shown(&validate_scenario(&parsed(source)))
}

#[test]
fn a_sound_scenario_has_no_diagnostics() {
    let source = "let t = \"x\"\nasset_group corp {\n  scope demo\n}\nscan web using nmap {\n  target ${t}\n  flags -sV\n}\nscript build {\n  run make\n  args all\n  cwd /tmp\n}\nreport r using html {\n  include findings_web\n}\nsecret api from env {\n  token = TOKEN\n}\nfor i in [1] {\n  let x = 1\n}\n";
    assert_eq!(validated(source), Vec::<String>::new());
}

#[test]
fn nmap_needs_a_target() {
    assert_eq!(
        validated("scan web using nmap {\n  flags -sV\n  speed fast\n}\n"),
        vec![
            "error|scan web|missing required parameter 'target' for tool 'nmap'",
            "warning|scan web|unknown parameter 'speed' for tool 'nmap'; it will be ignored",
        ]
    );
}

#[test]
fn blank_target_is_reported_twice_for_a_known_tool() {
    assert_eq!(
        validated("scan web using nmap {\n  target \"  \"\n}\n"),
        vec![
            "error|scan web|parameter 'target' for tool 'nmap' cannot be empty",
            "error|scan web|parameter 'target' cannot be empty",
        ]
    );
}

#[test]
fn gobuster_needs_arguments() {
    assert_eq!(
        validated("scan dirs using gobuster {\n  target x\n  args \"\"\n  mode dir\n}\n"),
        vec![
            "error|scan dirs|parameter 'args' for tool 'gobuster' cannot be empty",
            "error|scan dirs|parameter 'args' cannot be empty for tool 'gobuster'",
        ]
    );
    assert_eq!(
        validated("scan dirs using gobuster {\n  target x\n}\n"),
        vec!["error|scan dirs|missing required parameter 'args' for tool 'gobuster'"]
    );
}

#[test]
fn unknown_tool_should_have_a_target() {
    assert_eq!(
        validated("scan x using nikto {\n  flags -h\n  tuning 1\n}\n"),
        vec![
            "warning|scan x|parameter 'target' is not set; scans may rely on tool defaults",
            "warning|scan x|unknown parameter 'tuning' for tool 'nikto'; it will be ignored",
        ]
    );
    assert_eq!(
        validated("scan x using nikto {\n  target \"\"\n  args a\n  cwd /\n}\n"),
        vec!["error|scan x|parameter 'target' cannot be empty"]
    );
}

#[test]
fn script_parameters() {
    assert_eq!(
        validated("script s {\n  run \" \"\n  shell bash\n}\n"),
        vec![
            "error|script s|parameter 'run' for tool 'script' cannot be empty",
            "error|script s|parameter 'run' cannot be empty",
            "warning|script s|unknown parameter 'shell' for tool 'script'; it will be ignored",
        ]
    );
}

#[test]
fn report_without_includes() {
    assert_eq!(
        validated("report r {\n}\n"),
        vec!["warning|report r|report does not include any artifacts"]
    );
}

#[test]
fn secrets() {
    assert_eq!(
        validated("secret v from vault kv/x\n"),
        vec![
            "warning|secret v|vault provider is not implemented yet; this step will be skipped at runtime"
        ]
    );
    assert_eq!(
        validated("secret e from env {\n}\n"),
        vec!["error|secret e|env secret requires at least one mapping"]
    );
    assert_eq!(
        validated("secret e from env {\n  a = \"\"\n  = B\n}\n"),
        vec![
            "error|secret e|env secret mapping name cannot be empty",
            "error|secret e|env secret mapping 'a' references an empty variable name",
        ]
    );
}

#[test]
fn loop_over_a_literal_that_is_no_list() {
    assert_eq!(
        validated("for i in 3.5 {\n  report r {\n  }\n}\nfor j in \"text with space\" {\n}\nfor k in name {\n}\n"),
        vec![
            "error|for i|loop iterable must be an array or string literal, found 3.5",
            "warning|for i > report r|report does not include any artifacts",
        ]
    );
}

#[test]
fn locations_follow_the_nesting() {
    let source = "if ready {\n  report a {\n  }\n  for i in [1] {\n    report b {\n    }\n  }\n} else {\n  if !ready {\n    report c {\n    }\n  }\n}\nreport d {\n}\n";
    assert_eq!(
        validated(source),
        vec![
            "warning|if ready > report a|report does not include any artifacts",
            "warning|if ready > for i > report b|report does not include any artifacts",
            "warning|else > if !ready > report c|report does not include any artifacts",
            "warning|report d|report does not include any artifacts",
        ]
    );
}

#[test]
fn context_keeps_a_trail() {
    let mut ctx = ValidationContext::new();
    assert_eq!(ctx.location(), None);
    ctx.warning("top".to_string());
    ctx.push("a".to_string());
    ctx.push("b".to_string());
    assert_eq!(ctx.location().as_deref(), Some("a > b"));
    ctx.error("deep".to_string());
    ctx.pop();
    ctx.pop();
    ctx.pop();
    assert_eq!(ctx.location(), None);
    let diagnostics = ctx.finish();
    assert_eq!(shown(&diagnostics), vec!["warning|-|top", "error|a > b|deep"]);
    assert_eq!(diagnostics[0].level, DiagnosticLevel::Warning);
    assert!(!diagnostics[0].is_error());
    assert!(diagnostics[1].is_error());
}

#[test]
fn builtin_schemas() {
    let schemas = builtin_tool_schemas();
    let names: Vec<&str> = schemas.iter().map(|s| s.name.as_str()).collect();
    assert_eq!(names, vec!["nmap", "gobuster", "script"]);
    assert_eq!(schemas[0].kind.as_deref(), Some("scan"));
    assert_eq!(schemas[0].description.as_deref(), Some("Nmap TCP/UDP scanner"));
    assert_eq!(schemas[0].required, vec!["target"]);
    assert_eq!(schemas[0].optional, vec!["flags"]);
    assert!(!schemas[0].allow_additional);
    assert_eq!(schemas[1].description.as_deref(), Some("Gobuster content discovery"));
    assert_eq!(schemas[1].required, vec!["target", "args"]);
    assert_eq!(schemas[1].optional, vec!["flags", "wordlist", "mode"]);
    assert_eq!(schemas[2].kind.as_deref(), Some("script"));
    assert_eq!(schemas[2].description.as_deref(), Some("Generic script execution"));
    assert_eq!(schemas[2].required, vec!["run"]);
    assert_eq!(schemas[2].optional, vec!["args", "cwd"]);
    assert!(schemas[1].allows("wordlist"));
    assert!(schemas[1].allows("target"));
    assert!(!schemas[1].allows("run"));
    assert!(lookup_schema("nmap").is_some());
    assert!(lookup_schema("Nmap").is_none());
}

#[test]
fn schema_bundle() {
    let bundle = builtin_tool_schema_bundle("2024-05-01T12:00:00Z");
    assert_eq!(bundle.version, "1.0.0");
    assert_eq!(bundle.generated_at, "2024-05-01T12:00:00Z");
    assert_eq!(bundle.tools.len(), 3);
}

#[test]
fn summary_counts_and_lists() {
    let source = "import b.ax\nimport a.ax\nimport b.ax\nlet x = [1, 2]\nasset_group corp {\n  scope demo\n  owner me\n}\nscan web using nmap {\n  target t\n} -> found\nscript build {\n  run \"make all\"\n}\nreport r using html {\n  include found\n  include asset_group:corp\n}\nsecret api from env {\n  token = T\n}\nif x == x {\n  let y = 1\n  scan inner using nmap {\n    target t\n  }\n} else {\n  for i in x {\n    let z = \"${i}\"\n  }\n}\n";
    let summary = parsed(source).summary();
    assert_eq!(summary.total_steps, 14);
    assert_eq!(summary.imports, vec!["a.ax", "b.ax"]);
    let variables: Vec<&str> = summary.variables.iter().map(|v| v.name.as_str()).collect();
    assert_eq!(variables, vec!["x", "y", "z"]);
    assert_eq!(summary.asset_groups.len(), 1);
    assert_eq!(summary.asset_groups[0].name, "corp");
    let scans: Vec<&str> = summary.scans.iter().map(|s| s.name.as_str()).collect();
    assert_eq!(scans, vec!["web", "inner"]);
    assert_eq!(summary.scans[0].output.as_deref(), Some("found"));
    assert_eq!(summary.scripts.len(), 1);
    assert_eq!(summary.scripts[0].run, "make all");
    assert_eq!(summary.reports.len(), 1);
    assert_eq!(summary.reports[0].includes, vec!["found", "asset_group:corp"]);
    assert_eq!(
        summary.to_text(),
        "Steps: 14\nImports:\n  - a.ax\n  - b.ax\nVariables:\n  - x = [1.0,2.0]\n  - y = 1\n  - z = ${i}\nAsset groups:\n  - corp (owner=me, scope=demo)\nScans:\n  - web via nmap -> found\n  - inner via nmap -> <none>\nScripts:\n  - build run make all -> <none>\nReports:\n  - r (includes: found, asset_group:corp)\n"
    );
}

#[test]
fn summary_of_nothing() {
    let summary = parsed("").summary();
    assert_eq!(summary.total_steps, 0);
    assert_eq!(summary.to_text(), "Steps: 0\n");
}
