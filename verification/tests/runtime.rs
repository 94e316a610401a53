use axion_core::{
    parse_scenario, Action, ArtifactKind, Decimal, Event, ExecutionOutcome, ExecutionStatus,
    Executor, Json, LiteralValue, ProcessOutput, Scenario, SecretStore, StepExecution, StepKind,
};

const NOW: &str = "2024-05-01T12:00:00Z";

/// A host that answers from what it was given and keeps what it was asked.
struct Host {
    env: Vec<(String, String)>,
    files: Vec<(String, String)>,
    programs: Vec<(String, Result<ProcessOutput, String>)>,
    read_only: bool,
    commands: Vec<(String, Vec<String>, Option<String>)>,
    written: Vec<(String, String)>,
    printed: Vec<String>,
    steps: usize,
}

fn host() -> Host {
    Host {
        env: Vec::new(),
        files: Vec::new(),
        programs: Vec::new(),
        read_only: false,
        commands: Vec::new(),
        written: Vec::new(),
        printed: Vec::new(),
        steps: 0,
    }
}

fn process(stdout: &str, stderr: &str, code: i32) -> Result<ProcessOutput, String> {
    Ok(ProcessOutput {
        stdout: stdout.as_bytes().to_vec(),
        stderr: stderr.as_bytes().to_vec(),
        code: Some(code),
        success: code == 0,
        started_at: "2024-05-01T11:59:59Z".to_string(),
        duration_ms: 12,
    })
}

impl Host {
    fn answer(&mut self, action: Action) -> Option<Event> {
        Some(match action {
            Action::Continue => Event::Resume,
            Action::Finished => return None,
            Action::ReadEnv { name } => Event::Env(
                match self.env.iter().find(|(key, _)| *key == name) {
                    Some((_, value)) => Ok(value.clone()),
                    None => Err("environment variable not found".to_string()),
                },
            ),
            Action::ReadFile { path } => Event::File(
                match self.files.iter().find(|(key, _)| *key == path) {
                    Some((_, value)) => Ok(value.clone()),
                    None => Err("No such file or directory (os error 2)".to_string()),
                },
            ),
            Action::Run { program, args, cwd } => {
                let index = self.programs.iter().position(|(name, _)| *name == program);
                self.commands.push((program, args, cwd));
                Event::Ran(match index {
                    Some(i) => self.programs.remove(i).1,
                    None => Err("No such file or directory (os error 2)".to_string()),
                })
            }
            Action::Write { path, contents } => {
                if self.read_only {
                    Event::Written(Err("Read-only file system (os error 30)".to_string()))
                } else {
                    self.written.push((path, contents));
                    Event::Written(Ok(()))
                }
            }
            Action::Print { text } => {
                self.printed.push(text);
                Event::Resume
            }
        })
    }

    fn run(
        &mut self,
        scenario: &Scenario,
        overrides: &Vec<(String, LiteralValue)>,
        secrets: &Vec<(String, String)>,
    ) -> ExecutionOutcome {
        let mut run = Executor::new().execute_with_vars(scenario, overrides, secrets);
        let mut event = Event::Resume;
        loop {
            self.steps += 1;
            assert!(self.steps < 100_000, "the run does not end");
            let action = run.step(event, NOW);
            match self.answer(action) {
                Some(next) => event = next,
                None => break,
            }
        }
        assert!(run.is_finished());
        run.outcome()
    }

    fn file(&self, path: &str) -> &str {
        match self.written.iter().find(|(name, _)| name == path) {
            Some((_, contents)) => contents,
            None => panic!("{} was not written; written: {:?}", path, self.paths()),
        }
    }

    fn paths(&self) -> Vec<&str> {
        self.written.iter().map(|(name, _)| name.as_str()).collect()
    }
}

fn parsed(source: &str) -> Scenario {
    match parse_scenario(source) {
        Ok(scenario) => scenario,
        Err(error) => panic!("failed to parse scenario: {}", error.message()),
    }
}

fn execute(source: &str, host: &mut Host) -> ExecutionOutcome {
    host.run(&parsed(source), &Vec::new(), &Vec::new())
}

fn step<'a>(outcome: &'a ExecutionOutcome, name: &str) -> &'a StepExecution {
    match outcome.report.steps.iter().find(|step| step.name == name) {
        Some(step) => step,
        None => panic!("no step {} in {:?}", name, outcome.report.steps),
    }
}

fn message<'a>(outcome: &'a ExecutionOutcome, name: &str) -> &'a str {
    step(outcome, name).message.as_deref().unwrap_or_default()
}

fn names(outcome: &ExecutionOutcome) -> Vec<&str> {
    outcome.report.steps.iter().map(|step| step.name.as_str()).collect()
}

fn text(json: &Json, key: &str) -> String {
    match json.get(key) {
        Some(Json::String(value)) => value.clone(),
        other => panic!("member {} is {:?}", key, other),
    }
}

#[test]
fn resolves_secret_placeholders_and_masks_messages() {
    let env_key = "AXION_TEST_SECRET_VALUE";
    let source = format!(
        "\nsecret api from env {{\n  token = \"{env_key}\"\n}}\n\nlet header = \"Bearer ${{secret:api.token}}\"\n"
    );
    let mut host = host();
    host.env.push((env_key.to_string(), "super-secret-token".to_string()));
    let outcome = execute(&source, &mut host);

    let secret_step = step(&outcome, "api");
    assert_eq!(secret_step.status, ExecutionStatus::Completed);

    let variable_step = step(&outcome, "header");
    assert_eq!(variable_step.status, ExecutionStatus::Completed);
    let message = variable_step.message.as_deref().unwrap_or_default();
    assert!(message.contains("Bearer ***"));
    assert!(!message.contains("super-secret-token"));
}

#[test]
fn secret_override_allows_missing_env() {
    let source = "\nsecret token from env {\n  value = \"AXION_TEST_MISSING_ENV\"\n}\n\nlet captured = \"${secret:token.value}\"\n";
    let mut host = host();
    let secret_overrides = vec![("token.value".to_string(), "override-secret".to_string())];
    let outcome = host.run(&parsed(source), &Vec::new(), &secret_overrides);

    let secret_step = step(&outcome, "token");
    assert_eq!(secret_step.status, ExecutionStatus::Completed);

    let variable_step = step(&outcome, "captured");
    assert_eq!(variable_step.status, ExecutionStatus::Completed);
    let message = variable_step.message.as_deref().unwrap_or_default();
    assert!(message.contains("***"));
    assert!(!message.contains("override-secret"));
}

#[test]
fn html_report_produces_file() {
    let source = "\nasset_group corp {\n  scope demo\n}\n\nreport summary using html {\n  include asset_group:corp\n}\n";
    let mut host = host();
    let outcome = execute(source, &mut host);

    let report_step = step(&outcome, "summary");
    assert_eq!(report_step.status, ExecutionStatus::Completed);

    let artifact = outcome
        .artifacts
        .iter()
        .find(|artifact| artifact.name == "report:summary")
        .expect("report artifact present");
    let path = artifact.path.as_ref().expect("html path present");
    assert!(path.ends_with(".html"), "expected html extension, got {:?}", path);

    let contents = host.file(path);
    assert!(contents.contains("Axion Report"));
    assert!(contents.contains("asset_group:corp"));
}

#[test]
fn markdown_report_produces_file() {
    let source = "\nasset_group corp {\n  scope demo\n}\n\nreport summary_md using markdown {\n  include asset_group:corp\n}\n";
    let mut host = host();
    let outcome = execute(source, &mut host);

    let report_step = step(&outcome, "summary_md");
    assert_eq!(report_step.status, ExecutionStatus::Completed);

    let artifact = outcome
        .artifacts
        .iter()
        .find(|artifact| artifact.name == "report:summary_md")
        .expect("markdown report artifact present");
    let path = artifact.path.as_ref().expect("markdown path present");
    assert!(path.ends_with(".md"), "expected markdown extension, got {:?}", path);

    let contents = host.file(path);
    assert!(contents.contains("Axion Report"));
    assert!(contents.contains("asset_group:corp"));
}

#[test]
fn sarif_report_produces_file() {
    let source = "\nasset_group corp {\n  scope demo\n}\n\nreport summary_sarif using sarif {\n  include asset_group:corp\n  option tool_name \"Axion Test Suite\"\n}\n";
    let mut host = host();
    let outcome = execute(source, &mut host);

    let report_step = step(&outcome, "summary_sarif");
    assert_eq!(report_step.status, ExecutionStatus::Completed);

    let artifact = outcome
        .artifacts
        .iter()
        .find(|artifact| artifact.name == "report:summary_sarif")
        .expect("sarif report artifact present");
    let path = artifact.path.as_ref().expect("sarif path present");
    assert!(path.ends_with(".sarif"), "expected sarif extension, got {:?}", path);

    let contents = host.file(path);
    assert!(contents.contains("\"version\": \"2.1.0\""));
    assert!(contents.contains("Axion Test Suite"));
}

#[test]
fn variable_resolves_to_the_display_form_of_another() {
    let mut host = host();
    let outcome = execute("let x = 5\nlet y = \"${x}\"\n", &mut host);
    assert_eq!(message(&outcome, "x"), "x = 5");
    assert_eq!(message(&outcome, "y"), "y = 5");
    assert_eq!(step(&outcome, "y").status, ExecutionStatus::Completed);
    assert_eq!(step(&outcome, "y").kind, StepKind::Variable);
}

#[test]
fn bearer_header_shows_no_secret() {
    let mut host = host();
    host.env.push(("MY_ENV".to_string(), "abc123".to_string()));
    let outcome = execute(
        "secret api from env { token = \"MY_ENV\" }\nlet h = \"Bearer ${secret:api.token}\"\n",
        &mut host,
    );
    assert_eq!(message(&outcome, "api"), "secret 'api' loaded from env (1 value)");
    assert_eq!(step(&outcome, "h").status, ExecutionStatus::Completed);
    assert_eq!(message(&outcome, "h"), "h = Bearer ***");
    assert!(!message(&outcome, "h").contains("abc123"));
}

#[test]
fn no_record_of_a_run_shows_a_secret() {
    let mut host = host();
    host.env.push(("MY_ENV".to_string(), "abc123".to_string()));
    host.files.push(("key.txt".to_string(), "s3cr3t".to_string()));
    host.programs.push(("echo".to_string(), process("abc123 s3cr3t", "", 1)));
    let outcome = execute(
        "let early = \"abc123 is no secret yet\"\nsecret api from env { token = \"MY_ENV\" }\nsecret disk from file key.txt\nlet h = \"Bearer ${secret:api.token} and ${secret:disk}\"\nlet again = \"${h}\"\nscript s {\n  run \"echo ${secret:api.token}\"\n}\nscan t using other {\n  target \"${secret:disk}\"\n}\nif h == \"Bearer abc123 and s3cr3t\" {\n  let inner = \"${h}\"\n}\nlet list = [\"${secret:api.token}\"]\nfor item in list {\n  let seen = \"${item}\"\n}\nlet missing = \"${abc123}\"\n",
        &mut host,
    );
    assert_eq!(message(&outcome, "early"), "early = abc123 is no secret yet");
    assert_eq!(message(&outcome, "h"), "h = Bearer *** and ***");
    assert_eq!(message(&outcome, "inner"), "inner = Bearer *** and ***");
    assert_eq!(message(&outcome, "seen"), "seen = ***");
    assert_eq!(message(&outcome, "missing"), "failed to resolve variables: undefined variable '***'");
    let mut later = false;
    for record in &outcome.report.steps {
        if later {
            if let Some(message) = &record.message {
                assert!(!message.contains("abc123"), "{}", message);
                assert!(!message.contains("s3cr3t"), "{}", message);
            }
        }
        later = later || record.name == "disk";
    }
    assert!(later);
    assert_eq!(host.commands[0].1, vec!["abc123".to_string()]);
}

#[test]
fn secret_of_one_value_is_known_by_its_bare_name() {
    let mut host = host();
    host.env.push(("MY_ENV".to_string(), "abc123".to_string()));
    let outcome = execute(
        "secret api from env { token = \"MY_ENV\" }\nlet a = \"${secret:api}\"\nlet b = \"${secret:api.other}\"\n",
        &mut host,
    );
    assert_eq!(message(&outcome, "a"), "a = ***");
    assert_eq!(step(&outcome, "b").status, ExecutionStatus::Failed);
    assert_eq!(message(&outcome, "b"), "failed to resolve variables: undefined secret 'api.other'");
}

#[test]
fn secret_of_two_values() {
    let mut host = host();
    host.env.push(("A".to_string(), "first".to_string()));
    host.env.push(("B".to_string(), "second".to_string()));
    let outcome = execute(
        "secret pair from env {\n  a = A\n  b = B\n}\nlet both = \"${secret:pair.a}/${secret:pair.b}\"\nlet bare = \"${secret:pair}\"\n",
        &mut host,
    );
    assert_eq!(message(&outcome, "pair"), "secret 'pair' loaded from env (2 values)");
    assert_eq!(message(&outcome, "both"), "both = ***/***");
    assert_eq!(step(&outcome, "bare").status, ExecutionStatus::Failed);
}

#[test]
fn missing_environment_variable_fails_the_secret() {
    let mut host = host();
    let outcome = execute("secret api from env { token = \"NOT_SET\" }\nlet after = 1\n", &mut host);
    assert_eq!(step(&outcome, "api").status, ExecutionStatus::Failed);
    assert_eq!(step(&outcome, "api").kind, StepKind::Secret);
    assert_eq!(
        message(&outcome, "api"),
        "failed to read environment variable NOT_SET: environment variable not found"
    );
    assert_eq!(step(&outcome, "after").status, ExecutionStatus::Completed);
    assert!(outcome.report.has_failures());
}

#[test]
fn secret_from_file() {
    let mut host = host();
    host.files.push(("/run/key".to_string(), "file-secret".to_string()));
    let outcome = execute(
        "secret key from file /run/key\nsecret gone from file /run/none\nlet k = \"<${secret:key}>\"\n",
        &mut host,
    );
    assert_eq!(message(&outcome, "key"), "secret 'key' loaded from file");
    assert_eq!(step(&outcome, "gone").status, ExecutionStatus::Failed);
    assert_eq!(
        message(&outcome, "gone"),
        "failed to read file /run/none: No such file or directory (os error 2)"
    );
    assert_eq!(message(&outcome, "k"), "k = <***>");
}

#[test]
fn secret_from_vault_is_not_implemented() {
    let mut host = host();
    let outcome = execute("secret db from vault kv/db\n", &mut host);
    assert_eq!(step(&outcome, "db").status, ExecutionStatus::NotImplemented);
    assert_eq!(message(&outcome, "db"), "vault provider is not implemented yet");
    assert!(!outcome.report.has_failures());
}

#[test]
fn loop_reports_its_iterations() {
    let mut host = host();
    let outcome = execute("for i in [1,2,3] {\n  let doubled = \"${i}\"\n}\n", &mut host);
    assert_eq!(names(&outcome), vec!["doubled", "doubled", "doubled", "for i in [1.0,2.0,3.0]"]);
    let last = outcome.report.steps.last().unwrap();
    assert_eq!(last.kind, StepKind::Loop);
    assert_eq!(last.status, ExecutionStatus::Completed);
    assert_eq!(last.message.as_deref(), Some("executed 3 iteration(s)"));
    assert_eq!(outcome.report.steps[0].message.as_deref(), Some("doubled = 1"));
    assert_eq!(outcome.report.steps[2].message.as_deref(), Some("doubled = 3"));
}

#[test]
fn loop_restores_its_iterator() {
    let mut host = host();
    let outcome = execute(
        "let x = \"before\"\nfor x in [1, 2] {\n  let seen = \"${x}\"\n  let other = \"changed\"\n}\nlet after = \"${x} ${other}\"\nfor y in [1] {\n}\nlet gone = \"${y}\"\n",
        &mut host,
    );
    assert_eq!(message(&outcome, "after"), "after = before changed");
    assert_eq!(step(&outcome, "gone").status, ExecutionStatus::Failed);
    assert_eq!(message(&outcome, "gone"), "failed to resolve variables: undefined variable 'y'");
}

#[test]
fn loop_over_a_string_and_over_nothing_iterable() {
    let mut host = host();
    let outcome = execute(
        "let one = \"only\"\nfor s in one {\n  let got = \"${s}\"\n}\nlet n = 3\nfor s in n {\n}\nfor s in missing {\n}\nfor s in 3.5 {\n}\n",
        &mut host,
    );
    assert_eq!(message(&outcome, "got"), "got = only");
    assert_eq!(message(&outcome, "for s in one"), "executed 1 iteration(s)");
    assert_eq!(message(&outcome, "for s in n"), "variable 'n' is not iterable (found 3)");
    assert_eq!(message(&outcome, "for s in missing"), "undefined variable 'missing'");
    assert_eq!(
        message(&outcome, "for s in 3.5"),
        "loop iterable must be array or string, found 3.5"
    );
}

#[test]
fn nested_loops() {
    let mut host = host();
    let outcome = execute(
        "for a in [1, 2] {\n  for b in [\"x\", \"y\"] {\n    let pair = \"${a}${b}\"\n  }\n}\n",
        &mut host,
    );
    let pairs: Vec<&str> = outcome
        .report
        .steps
        .iter()
        .filter(|step| step.name == "pair")
        .map(|step| step.message.as_deref().unwrap())
        .collect();
    assert_eq!(pairs, vec!["pair = 1x", "pair = 1y", "pair = 2x", "pair = 2y"]);
    assert_eq!(outcome.report.steps.len(), 7);
}

#[test]
fn conditional_runs_one_branch() {
    let mut host = host();
    let outcome = execute(
        "let env = \"prod\"\nif env == \"prod\" {\n  let chosen = \"then\"\n} else {\n  let rejected = \"else\"\n}\nif env != \"prod\" {\n  let rejected = \"then\"\n} else {\n  let second = \"else\"\n}\n",
        &mut host,
    );
    assert_eq!(
        names(&outcome),
        vec!["env", "if env == prod", "chosen", "if env != prod", "second"]
    );
    assert_eq!(step(&outcome, "if env == prod").status, ExecutionStatus::Completed);
    assert_eq!(message(&outcome, "if env == prod"), "condition evaluated to true");
    assert_eq!(message(&outcome, "if env != prod"), "condition evaluated to false");
    assert_eq!(step(&outcome, "if env == prod").kind, StepKind::Conditional);
}

#[test]
fn conditional_that_cannot_be_evaluated_runs_no_branch() {
    let mut host = host();
    let outcome = execute(
        "let n = 1\nif n {\n  let a = 1\n} else {\n  let b = 2\n}\nif missing {\n  let c = 3\n}\nif !true {\n  let d = 4\n}\n",
        &mut host,
    );
    assert_eq!(names(&outcome), vec!["n", "if n", "if missing", "if !true"]);
    assert_eq!(step(&outcome, "if n").status, ExecutionStatus::Failed);
    assert_eq!(message(&outcome, "if n"), "variable 'n' is not boolean (found 1)");
    assert_eq!(message(&outcome, "if missing"), "undefined variable 'missing'");
    assert_eq!(message(&outcome, "if !true"), "condition evaluated to false");
}

#[test]
fn else_if_chain() {
    let mut host = host();
    let outcome = execute(
        "let a = 2\nif a == 1.0 {\n  let x = \"one\"\n} else if a == 2.0 {\n  let x = \"two\"\n} else {\n  let x = \"many\"\n}\n",
        &mut host,
    );
    assert_eq!(names(&outcome), vec!["a", "if a == 1", "if a == 2", "x"]);
    assert_eq!(message(&outcome, "if a == 1"), "condition evaluated to false");
    assert_eq!(message(&outcome, "x"), "x = two");
}

#[test]
fn overrides_replace_declared_values() {
    let mut host = host();
    let overrides = vec![
        ("target".to_string(), LiteralValue::text("10.0.0.9")),
        ("unused".to_string(), LiteralValue::Number(Decimal::from_integer(7))),
    ];
    let outcome = host.run(
        &parsed("let target = \"127.0.0.1\"\nlet other = \"${target}:${unused}\"\n"),
        &overrides,
        &Vec::new(),
    );
    assert_eq!(message(&outcome, "target"), "target = 10.0.0.9 (override)");
    assert_eq!(message(&outcome, "other"), "other = 10.0.0.9:7");
}

#[test]
fn overrides_in_any_order_become_a_table() {
    let overrides = vec![
        ("zone".to_string(), LiteralValue::text("dmz")),
        ("port".to_string(), LiteralValue::Number(Decimal::from_integer(80))),
        ("zone".to_string(), LiteralValue::text("lan")),
    ];
    let run = Executor::new().execute_with_vars(&parsed(""), &overrides, &Vec::new());
    let names: Vec<&str> = run.variables.iter().map(|entry| entry.0.as_str()).collect();
    assert_eq!(names, vec!["port", "zone"]);
    assert_eq!(run.variables[1].1.display(), "lan");
    let mut host = host();
    let outcome = host.run(
        &parsed("let zone = \"wan\"\nlet where = \"${zone}:${port}\"\n"),
        &overrides,
        &Vec::new(),
    );
    assert_eq!(message(&outcome, "zone"), "zone = lan (override)");
    assert_eq!(message(&outcome, "where"), "where = lan:80");
}

#[test]
fn placeholder_errors() {
    let mut host = host();
    let outcome = execute(
        "let a = \"${missing}\"\nlet b = \"${open\"\nlet c = \"${ }\"\nlet d = \"${secret: }\"\nlet e = \"${secret:none}\"\nlet f = [\"ok\", {k: \"${missing}\"}]\n",
        &mut host,
    );
    assert_eq!(message(&outcome, "a"), "failed to resolve variables: undefined variable 'missing'");
    assert_eq!(message(&outcome, "b"), "failed to resolve variables: unterminated variable placeholder");
    assert_eq!(message(&outcome, "c"), "failed to resolve variables: empty variable placeholder");
    assert_eq!(message(&outcome, "d"), "failed to resolve variables: empty secret placeholder");
    assert_eq!(message(&outcome, "e"), "failed to resolve variables: undefined secret 'none'");
    assert_eq!(message(&outcome, "f"), "failed to resolve variables: undefined variable 'missing'");
    assert!(outcome.report.steps.iter().all(|step| step.status == ExecutionStatus::Failed));
}

#[test]
fn placeholders_in_arrays_and_objects() {
    let mut host = host();
    let outcome = execute(
        "let host = \"web\"\nlet list = [\"${host}-1\", 2, {name: \"${host}\"}]\nlet shown = \"${list}\"\n",
        &mut host,
    );
    assert_eq!(message(&outcome, "list"), "list = [\"web-1\",2.0,{\"name\":\"web\"}]");
    assert_eq!(message(&outcome, "shown"), "shown = [\"web-1\",2.0,{\"name\":\"web\"}]");
}

#[test]
fn asset_group_is_stored_and_skipped() {
    let mut host = host();
    let outcome = execute(
        "asset_group corp {\n  scope dmz\n  owner \"me\"\n}\n",
        &mut host,
    );
    assert_eq!(step(&outcome, "corp").status, ExecutionStatus::Skipped);
    assert_eq!(step(&outcome, "corp").kind, StepKind::AssetGroup);
    assert_eq!(message(&outcome, "corp"), "stored asset group definition");
    assert_eq!(outcome.artifacts.len(), 1);
    let artifact = &outcome.artifacts[0];
    assert_eq!(artifact.name, "asset_group:corp");
    assert_eq!(artifact.kind, ArtifactKind::AssetGroup);
    assert_eq!(artifact.path, None);
    assert_eq!(text(&artifact.data, "name"), "corp");
    assert_eq!(text(artifact.data.get("properties").unwrap(), "scope"), "dmz");
    assert_eq!(text(artifact.data.get("properties").unwrap(), "owner"), "me");
    assert!(host.written.is_empty());
}

#[test]
fn script_runs_and_stores_its_artifact_under_its_output_name() {
    let mut host = host();
    host.programs.push(("echo".to_string(), process("hello\n", "", 0)));
    let outcome = execute(
        "script greet {\n  run \"echo 'hello world'\"\n  args \"-n --flag\"\n  cwd /tmp\n} -> greeting\n",
        &mut host,
    );
    assert_eq!(
        host.commands,
        vec![(
            "echo".to_string(),
            vec!["hello world".to_string(), "-n".to_string(), "--flag".to_string()],
            Some("/tmp".to_string())
        )]
    );
    assert_eq!(step(&outcome, "greet").status, ExecutionStatus::Completed);
    assert_eq!(
        message(&outcome, "greet"),
        "script 'greeting' executed with code Some(0). artifact: artifacts/greeting.json"
    );
    let artifact = &outcome.artifacts[0];
    assert_eq!(artifact.name, "greeting");
    assert_eq!(artifact.kind, ArtifactKind::Script);
    assert_eq!(artifact.path.as_deref(), Some("artifacts/greeting.json"));
    assert_eq!(text(&artifact.data, "stdout"), "hello\n");
    assert_eq!(text(&artifact.data, "name"), "greet");
    assert_eq!(text(&artifact.data, "started_at"), "2024-05-01T11:59:59Z");
    assert!(matches!(artifact.data.get("exit_code"), Some(Json::Integer(0))));
    assert!(matches!(artifact.data.get("duration_ms"), Some(Json::Integer(12))));
    let written = host.file("artifacts/greeting.json");
    assert!(written.contains("\"stdout\": \"hello\\n\""));
    assert!(written.contains("\"command\": [\n    \"echo\",\n    \"hello world\","));
}

#[test]
fn script_without_output_name_is_stored_under_a_default() {
    let mut host = host();
    host.programs.push(("true".to_string(), process("", "", 0)));
    let outcome = execute("script noop {\n  run true\n}\n", &mut host);
    assert_eq!(outcome.artifacts[0].name, "script_noop");
    assert_eq!(host.paths(), vec!["artifacts/script_noop.json"]);
}

#[test]
fn script_that_fails_keeps_its_artifact() {
    let mut host = host();
    host.programs.push(("false".to_string(), process("", "boom", 3)));
    let outcome = execute("script bad {\n  run false\n}\nlet after = 1\n", &mut host);
    assert_eq!(step(&outcome, "bad").status, ExecutionStatus::Failed);
    assert_eq!(
        message(&outcome, "bad"),
        "script 'script_bad' executed with code Some(3). artifact: artifacts/script_bad.json"
    );
    assert_eq!(outcome.artifacts.len(), 1);
    assert_eq!(text(&outcome.artifacts[0].data, "stderr"), "boom");
    assert_eq!(step(&outcome, "after").status, ExecutionStatus::Completed);
}

#[test]
fn script_that_cannot_start() {
    let mut host = host();
    let outcome = execute("script ghost {\n  run /no/such/program\n}\n", &mut host);
    assert_eq!(step(&outcome, "ghost").status, ExecutionStatus::Failed);
    assert_eq!(
        message(&outcome, "ghost"),
        "failed to execute script 'ghost': No such file or directory (os error 2)"
    );
    assert!(outcome.artifacts.is_empty());
}

#[test]
fn script_command_errors() {
    let mut host = host();
    let outcome = execute(
        "let empty = \"\"\nscript a {\n  run \"${empty}\"\n}\nscript b {\n  run \"echo 'open\"\n}\nscript c {\n  run echo\n  args \"'open\"\n}\nscript d {\n  run \"${missing}\"\n}\n",
        &mut host,
    );
    assert_eq!(message(&outcome, "a"), "missing required parameter: run");
    assert_eq!(message(&outcome, "b"), "failed to parse 'run' command: missing closing quote");
    assert_eq!(message(&outcome, "c"), "failed to parse 'args' value: missing closing quote");
    assert_eq!(message(&outcome, "d"), "failed to resolve variables: undefined variable 'missing'");
    assert!(host.commands.is_empty());
}

#[test]
fn artifact_that_cannot_be_written_stays_in_memory() {
    let mut host = host();
    host.read_only = true;
    host.programs.push(("true".to_string(), process("", "", 0)));
    let outcome = execute("script noop {\n  run true\n}\n", &mut host);
    assert_eq!(step(&outcome, "noop").status, ExecutionStatus::Completed);
    assert_eq!(
        message(&outcome, "noop"),
        "script 'script_noop' executed with code Some(0). artifact: <memory>"
    );
    assert_eq!(outcome.artifacts[0].path, None);
}

#[test]
fn report_that_cannot_be_written_fails() {
    let mut host = host();
    host.read_only = true;
    let outcome = execute(
        "asset_group corp {\n  scope demo\n}\nreport summary using html {\n  include asset_group:corp\n}\n",
        &mut host,
    );
    assert_eq!(step(&outcome, "summary").status, ExecutionStatus::Failed);
    assert_eq!(
        message(&outcome, "summary"),
        "failed to write html report: Read-only file system (os error 30)"
    );
    assert!(outcome.artifacts.iter().all(|artifact| artifact.name != "report:summary"));
}

#[test]
fn generic_scan_builds_its_command_line() {
    let mut host = host();
    host.programs.push(("gobuster".to_string(), process("found /admin", "", 0)));
    let outcome = execute(
        "scan dirs using gobuster {\n  flags \"-q -t 10\"\n  args \"dir -w 'word list.txt'\"\n  target http://example.test\n  cwd /work\n}\n",
        &mut host,
    );
    assert_eq!(
        host.commands,
        vec![(
            "gobuster".to_string(),
            vec!["-q", "-t", "10", "dir", "-w", "word list.txt", "http://example.test"]
                .into_iter()
                .map(String::from)
                .collect(),
            Some("/work".to_string())
        )]
    );
    assert_eq!(
        message(&outcome, "dirs"),
        "gobuster executed. exit: Some(0). artifact: artifacts/scan_dirs.json"
    );
    let artifact = &outcome.artifacts[0];
    assert_eq!(artifact.name, "scan_dirs");
    assert_eq!(artifact.kind, ArtifactKind::Scan);
    assert_eq!(text(&artifact.data, "tool"), "gobuster");
    assert_eq!(text(&artifact.data, "stdout"), "found /admin");
    match artifact.data.get("invocation") {
        Some(Json::Array(items)) => assert_eq!(items.len(), 8),
        other => panic!("unexpected invocation {:?}", other),
    }
}

#[test]
fn generic_scan_tolerates_a_missing_target() {
    let mut host = host();
    host.programs.push(("whoami".to_string(), process("root", "", 1)));
    let outcome = execute("scan who using whoami {\n  cwd \"\"\n} -> who_out\n", &mut host);
    assert_eq!(host.commands, vec![("whoami".to_string(), Vec::<String>::new(), None)]);
    assert_eq!(step(&outcome, "who").status, ExecutionStatus::Failed);
    assert_eq!(outcome.artifacts[0].name, "who_out");
    assert_eq!(
        message(&outcome, "who"),
        "whoami executed. exit: Some(1). artifact: artifacts/who_out.json"
    );
}

#[test]
fn generic_scan_that_cannot_start() {
    let mut host = host();
    let outcome = execute("scan x using nothing {\n  flags \"'open\"\n}\nscan y using nothing {\n}\n", &mut host);
    assert_eq!(message(&outcome, "x"), "failed to parse flags: missing closing quote");
    assert_eq!(
        message(&outcome, "y"),
        "failed to execute tool 'nothing': No such file or directory (os error 2)"
    );
}

const NMAP_XML: &str = "<?xml version=\"1.0\"?>\n<nmaprun scanner=\"nmap\">\n<host><status state=\"up\"/>\n<address addr=\"10.0.0.5\" addrtype=\"ipv4\"/>\n<address addr=\"AA:BB:CC:DD:EE:FF\"/>\n<hostnames><hostname name=\"web.test\" type=\"user\"/></hostnames>\n<ports>\n<port protocol=\"tcp\" portid=\"22\"><state state=\"open\" reason=\"syn-ack\"></state><service name=\"ssh\"></service></port>\n<port protocol=\"tcp\" portid=\"80\"><state state=\"closed\"></state><service name=\"http\"></service></port>\n<port portid=\"443\"><state state=\"open\"></state></port>\n<port protocol=\"udp\" portid=\"53\"><state state=\"open\"/><service name=\"domain\"/></port>\n</ports>\n</host>\n<host><ports><port protocol=\"tcp\" portid=\"25\"><state state=\"open\"></state></port></ports></host>\n</nmaprun>\n";

#[test]
fn nmap_scan_stores_findings() {
    let mut host = host();
    host.programs.push(("nmap".to_string(), process(NMAP_XML, "", 0)));
    let outcome = execute(
        "scan s using nmap {\n  target 10.0.0.5\n  flags \"-p22,80 -sV\"\n}\n",
        &mut host,
    );
    assert_eq!(
        host.commands,
        vec![(
            "nmap".to_string(),
            vec!["-p22,80", "-sV", "-oX", "-", "10.0.0.5"].into_iter().map(String::from).collect(),
            None
        )]
    );
    assert_eq!(step(&outcome, "s").status, ExecutionStatus::Completed);
    assert_eq!(
        message(&outcome, "s"),
        "nmap completed for target 10.0.0.5.\nartifact: artifacts/findings_s.json"
    );
    let artifact = &outcome.artifacts[0];
    assert_eq!(artifact.name, "findings_s");
    assert_eq!(artifact.kind, ArtifactKind::Scan);
    assert_eq!(text(&artifact.data, "tool"), "nmap");
    assert_eq!(text(&artifact.data, "target"), "10.0.0.5");
    assert_eq!(text(&artifact.data, "raw_xml"), NMAP_XML);
    match artifact.data.get("findings") {
        Some(Json::Array(findings)) => {
            assert_eq!(findings.len(), 3);
            assert_eq!(text(&findings[0], "id"), "finding://10.0.0.5/tcp-22");
            assert_eq!(text(&findings[1], "id"), "finding://10.0.0.5/tcp-443");
            assert_eq!(text(&findings[2], "id"), "finding://10.0.0.5/udp-53");
            assert_eq!(text(&findings[2], "service"), "domain");
        }
        other => panic!("unexpected findings {:?}", other),
    }
    match artifact.data.get("assets") {
        Some(Json::Array(assets)) => assert_eq!(assets.len(), 1),
        other => panic!("unexpected assets {:?}", other),
    }
}

#[test]
fn nmap_that_exits_nonzero_fails_without_findings() {
    let mut host = host();
    let long = "x".repeat(600);
    host.programs.push(("nmap".to_string(), process(&long, "no route to host", 1)));
    let outcome = execute("scan s nmap {\n  target \"x\"\n  flags \"-p80\"\n}\n", &mut host);
    assert_eq!(step(&outcome, "s").status, ExecutionStatus::Failed);
    let expected = format!(
        "nmap exited with code Some(1)\nstdout:\n{}\u{e2}\u{20ac}\u{a6}\nstderr:\nno route to host",
        "x".repeat(512)
    );
    assert_eq!(message(&outcome, "s"), expected);
    assert!(outcome.artifacts.is_empty());
    assert!(host.written.is_empty());
}

#[test]
fn nmap_needs_a_target_and_a_program() {
    let mut host = host();
    let outcome = execute(
        "scan a nmap {\n  flags -sV\n}\nscan b nmap {\n  target x\n}\nscan c nmap {\n  target x\n  flags \"'\"\n}\n",
        &mut host,
    );
    assert_eq!(message(&outcome, "a"), "missing required parameter: target");
    assert_eq!(
        message(&outcome, "b"),
        "failed to spawn 'nmap': No such file or directory (os error 2)"
    );
    assert_eq!(message(&outcome, "c"), "failed to parse flags: missing closing quote");
}

#[test]
fn nmap_output_that_is_no_xml_fails() {
    let mut host = host();
    host.programs.push(("nmap".to_string(), process("<nmaprun><host></nmaprun>", "", 0)));
    let outcome = execute("scan s nmap {\n  target x\n}\n", &mut host);
    assert_eq!(step(&outcome, "s").status, ExecutionStatus::Failed);
    assert!(message(&outcome, "s").starts_with("failed to parse nmap output: XML parsing error: "));
    assert!(outcome.artifacts.is_empty());
}

#[test]
fn report_of_a_missing_artifact_fails_alone() {
    let mut host = host();
    let outcome = execute(
        "report r using markdown {\n  include nowhere\n}\nlet after = 1\n",
        &mut host,
    );
    assert_eq!(step(&outcome, "r").status, ExecutionStatus::Failed);
    assert_eq!(step(&outcome, "r").kind, StepKind::Report);
    assert_eq!(message(&outcome, "r"), "missing artifact 'nowhere'");
    assert_eq!(step(&outcome, "after").status, ExecutionStatus::Completed);
}

#[test]
fn report_for_the_console_is_stored_and_printed() {
    let mut host = host();
    host.programs.push(("nmap".to_string(), process(NMAP_XML, "", 0)));
    let outcome = execute(
        "scan s using nmap {\n  target 10.0.0.5\n} -> found\nreport r {\n  include found\n  option title Weekly\n}\n",
        &mut host,
    );
    assert_eq!(step(&outcome, "r").status, ExecutionStatus::Completed);
    assert_eq!(
        message(&outcome, "r"),
        "report generated for target 'r'. artifact: artifacts/report_r.json"
    );
    let artifact = outcome.artifacts.iter().find(|a| a.name == "report:r").unwrap();
    assert_eq!(artifact.kind, ArtifactKind::Report);
    assert_eq!(text(&artifact.data, "format"), "stdout");
    assert_eq!(text(&artifact.data, "target"), "r");
    assert_eq!(text(&artifact.data, "generated_at"), NOW);
    assert!(matches!(artifact.data.get("output_path"), Some(Json::Null)));
    assert_eq!(text(artifact.data.get("options").unwrap(), "title"), "Weekly");
    assert_eq!(host.printed.len(), 1);
    let printed = &host.printed[0];
    assert!(printed.starts_with("{\n  \"format\": \"stdout\","));
    assert!(printed.contains("\n[table] found\n+"));
    assert!(printed.contains("| asset_id"));
    assert!(printed.contains("asset://host/10.0.0.5"));
    assert_eq!(host.file("artifacts/report_r.json"), &printed[..printed.find("\n\n[table]").unwrap()]);
}

#[test]
fn report_file_paths() {
    let mut host = host();
    let outcome = execute(
        "asset_group corp {\n  scope demo\n}\nreport weekly:1 using markdown {\n  include asset_group:corp\n}\nreport custom using html {\n  include asset_group:corp\n} -> out/custom.htm\nreport rooted using sarif {\n  include asset_group:corp\n} -> /var/reports/r.sarif\n",
        &mut host,
    );
    assert!(!outcome.report.has_failures());
    assert_eq!(
        host.paths(),
        vec![
            "artifacts/reports/weekly_1.md",
            "artifacts/out/custom.htm",
            "/var/reports/r.sarif"
        ]
    );
    assert_eq!(
        message(&outcome, "custom"),
        "html report written to artifacts/out/custom.htm"
    );
    assert_eq!(message(&outcome, "rooted"), "sarif report written to /var/reports/r.sarif");
    let artifact = outcome.artifacts.iter().find(|a| a.name == "report:custom").unwrap();
    assert_eq!(text(&artifact.data, "output_path"), "artifacts/out/custom.htm");
    assert_eq!(text(&artifact.data, "format"), "html");
}

#[test]
fn report_options_are_resolved() {
    let mut host = host();
    let outcome = execute(
        "let who = \"team\"\nasset_group corp {\n  scope demo\n}\nreport a using markdown {\n  include asset_group:corp\n  option title \"For ${who}\"\n}\nreport b using markdown {\n  include asset_group:corp\n  option title \"${nobody}\"\n}\nreport c using markdown {\n  include \"${nobody}\"\n}\n",
        &mut host,
    );
    assert!(host.file("artifacts/reports/a.md").contains("**Title:** For team\n"));
    assert_eq!(
        message(&outcome, "b"),
        "failed to resolve report options: undefined variable 'nobody'"
    );
    assert_eq!(message(&outcome, "c"), "failed to resolve variables: undefined variable 'nobody'");
}

#[test]
fn sarif_threshold_drops_informational_findings() {
    let mut host = host();
    host.programs.push(("nmap".to_string(), process(NMAP_XML, "", 0)));
    let outcome = execute(
        "scan scan_x using nmap {\n  target t\n} -> scan_x\nreport r using sarif {\n  include scan_x\n  option severity_threshold \"high\"\n}\nreport all using sarif {\n  include scan_x\n}\n",
        &mut host,
    );
    assert!(!outcome.report.has_failures());
    let filtered = host.file("artifacts/reports/r.sarif");
    assert!(filtered.contains("\"results\": []"));
    assert!(!filtered.contains("\"artifacts\""));
    let all = host.file("artifacts/reports/all.sarif");
    assert_eq!(all.matches("\"ruleId\": \"nmap\"").count(), 3);
    assert_eq!(all.matches("\"level\": \"note\"").count(), 3);
    assert_eq!(all.matches("\"location\": {").count(), 1);
}

#[test]
fn import_steps_leave_no_record() {
    let mut host = host();
    let outcome = execute("import other.ax\nlet x = 1\n", &mut host);
    assert_eq!(names(&outcome), vec!["x"]);
}

#[test]
fn empty_scenario_ends_at_once() {
    let mut host = host();
    let outcome = execute("", &mut host);
    assert!(outcome.report.steps.is_empty());
    assert!(outcome.artifacts.is_empty());
    assert_eq!(outcome.report.to_text(), "No steps to execute.\n");
}

#[test]
fn an_answer_that_fits_no_question_fails_the_step() {
    let scenario = parsed("secret key from file /k\nlet after = 1\n");
    let mut run = Executor::new().execute(&scenario);
    assert!(matches!(run.step(Event::Resume, NOW), Action::ReadFile { .. }));
    assert!(matches!(run.step(Event::Resume, NOW), Action::Continue));
    assert!(matches!(run.step(Event::Resume, NOW), Action::Continue));
    assert!(matches!(run.step(Event::Resume, NOW), Action::Continue));
    assert!(matches!(run.step(Event::Resume, NOW), Action::Finished));
    assert!(matches!(run.step(Event::Resume, NOW), Action::Finished));
    let outcome = run.outcome();
    assert_eq!(message(&outcome, "key"), "failed to read file /k: unexpected event");
    assert_eq!(step(&outcome, "after").status, ExecutionStatus::Completed);
}

#[test]
fn report_text_lists_the_steps() {
    let mut host = host();
    host.programs.push(("nmap".to_string(), process("", "", 0)));
    let outcome = execute("let x = 1\nscan s nmap {\n  target t\n}\nsecret v from vault p\n", &mut host);
    assert_eq!(
        outcome.report.to_text(),
        "Execution results:\n  - [completed] x (Variable)\n      x = 1\n  - [completed] s (Scan)\n      nmap completed for target t.\n      artifact: artifacts/findings_s.json\n  - [not implemented] v (Secret)\n      vault provider is not implemented yet\n"
    );
}

#[test]
fn step_execution_builders() {
    let done = StepExecution::completed("a".to_string(), StepKind::Scan, None);
    assert_eq!(done.status, ExecutionStatus::Completed);
    assert_eq!(done.kind, StepKind::Scan);
    assert_eq!(done.message, None);
    let failed = StepExecution::failed("b".to_string(), StepKind::Script, Some("m".to_string()));
    assert_eq!(failed.status, ExecutionStatus::Failed);
    assert_eq!(failed.message.as_deref(), Some("m"));
    assert_eq!(
        StepExecution::skipped("c".to_string(), StepKind::Loop, None).status,
        ExecutionStatus::Skipped
    );
    assert_eq!(
        StepExecution::not_implemented("d".to_string(), StepKind::Secret, None).status,
        ExecutionStatus::NotImplemented
    );
}

#[test]
fn secret_store_keeps_the_first_insert_and_the_last_set() {
    let mut store = SecretStore::new();
    store.insert("k".to_string(), "first".to_string());
    store.insert("k".to_string(), "second".to_string());
    assert_eq!(store.peek(&"k".chars().collect()).as_deref(), Some("first"));
    assert!(store.usage.is_empty());
    store.set("k".to_string(), "third".to_string());
    assert_eq!(store.resolve(&"k".chars().collect()).as_deref(), Some("third"));
    assert_eq!(store.resolve(&"none".chars().collect()), None);
    assert_eq!(store.usage.len(), 1);
    assert_eq!(store.usage[0].0, "k");
}

#[test]
fn masking_replaces_every_occurrence_of_every_value() {
    let mut store = SecretStore::new();
    store.set("a".to_string(), "tok".to_string());
    store.set("b".to_string(), "pw".to_string());
    store.set("c".to_string(), String::new());
    assert_eq!(store.mask("tok pw toktok p w"), "*** *** ****** p w");
    assert_eq!(store.mask("nothing here"), "nothing here");
    assert_eq!(store.mask(""), "");
}

#[test]
fn masking_a_value_with_asterisks_may_leave_it() {
    let mut store = SecretStore::new();
    store.set("a".to_string(), "*".to_string());
    assert_eq!(store.mask("*"), "***");
}

#[test]
fn a_bare_number_in_a_comparison_is_a_variable() {
    let mut host = host();
    let outcome = execute("let a = 1\nif a == 1 {\n  let x = 1\n}\n", &mut host);
    assert_eq!(names(&outcome), vec!["a", "if a == 1"]);
    assert_eq!(step(&outcome, "if a == 1").status, ExecutionStatus::Failed);
    assert_eq!(message(&outcome, "if a == 1"), "undefined variable '1'");
}

#[test]
fn a_brace_in_a_property_closes_the_asset_group() {
    assert!(parse_scenario("asset_group corp {\n  scope ${zone}\n}\n").is_err());
}

#[test]
fn executor_resolves_report_paths() {
    let scenario = parsed("report weekly using html {\n}\nreport custom using html {\n} -> out/c.html\n");
    let executor = Executor::new();
    assert_eq!(executor.artifacts_dir, "artifacts");
    match (&scenario.steps[0], &scenario.steps[1]) {
        (axion_core::Step::Report(first), axion_core::Step::Report(second)) => {
            assert_eq!(executor.resolve_report_path(first, "html"), "artifacts/reports/weekly.html");
            assert_eq!(executor.resolve_report_path(second, "html"), "artifacts/out/c.html");
        }
        other => panic!("unexpected steps {:?}", other),
    }
}
