use axion_core::syntax::{
    find_operator, parse_condition_expr, parse_object_key, parse_quoted, split_key_value,
    split_top_level,
};
use axion_core::text::{chars_of, string_of};
use axion_core::{
    parse_literal_expression, parse_scenario, ConditionExpr, ConditionOperand, Decimal,
    LiteralValue, LoopIterable, ParseError, ReportFormat, Scenario, SecretSource, Step,
};

fn parsed(source: &str) -> Scenario {
    match parse_scenario(source) {
        Ok(scenario) => scenario,
        Err(error) => panic!("failed to parse scenario: {}", error.message()),
    }
}

fn refused(source: &str) -> ParseError {
    match parse_scenario(source) {
        Ok(_) => panic!("the scenario should have been refused"),
        Err(error) => error,
    }
}

fn literal(text: &str) -> LiteralValue {
    match parse_literal_expression(text) {
        Ok(value) => value,
        Err(error) => panic!("failed to parse literal: {}", error.message()),
    }
}

fn chars(text: &str) -> Vec<char> {
    chars_of(text)
}

fn table(entries: &[(&str, &str)]) -> Vec<(String, String)> {
    entries.iter().map(|(k, v)| (k.to_string(), v.to_string())).collect()
}

#[test]
fn empty_text_is_an_empty_scenario() {
    let scenario = parsed("");
    assert!(scenario.steps.is_empty());
    assert!(scenario.imports.is_empty());
}

#[test]
fn comments_and_blank_lines_are_skipped() {
    let scenario = parsed("\n// a comment\n# another\n   \nlet x = 1\n");
    assert_eq!(scenario.steps.len(), 1);
}

#[test]
fn parse_is_deterministic() {
    let source = "let a = [1, 2]\nif a == a {\n  let b = \"x\"\n}\n";
    let first = parsed(source);
    let second = parsed(source);
    assert_eq!(format!("{:?}", first), format!("{:?}", second));
}

#[test]
fn variable_declaration() {
    let scenario = parsed("let answer = 42;");
    match &scenario.steps[0] {
        Step::Variable(decl) => {
            assert_eq!(decl.name, "answer");
            assert!(decl.value.same_value(&LiteralValue::Number(Decimal::from_integer(42))));
        }
        other => panic!("unexpected step {:?}", other),
    }
}

#[test]
fn variable_name_must_be_a_word() {
    let error = refused("let a-b = 1");
    assert!(matches!(error, ParseError::InvalidSyntax(ref text) if text == "a-b"));
}

#[test]
fn variable_without_equals_is_invalid() {
    let error = refused("let x 5");
    assert!(matches!(error, ParseError::InvalidSyntax(ref text) if text == "let x 5"));
}

#[test]
fn import_is_recorded() {
    let scenario = parsed("import \"common.ax\";\nlet x = 1\n");
    assert_eq!(scenario.imports, vec!["common.ax".to_string()]);
    assert!(matches!(&scenario.steps[0], Step::Import(step) if step.path == "common.ax"));
}

#[test]
fn nested_imports_are_listed_in_the_order_of_the_text() {
    let source = "import a\nif true {\n  import b\n} else {\n  import c\n}\nfor i in [1] {\n  import d\n}\n";
    let scenario = parsed(source);
    assert_eq!(scenario.imports, vec!["a", "b", "c", "d"]);
}

#[test]
fn import_without_path_is_missing_value() {
    let error = refused("import ;");
    assert!(matches!(error, ParseError::MissingValue("import path")));
    assert_eq!(error.message(), "missing required value: import path");
}

#[test]
fn unknown_keyword_is_invalid_directive() {
    let error = refused("launch rockets");
    assert!(matches!(error, ParseError::InvalidDirective(ref line) if line == "launch rockets"));
    assert_eq!(error.message(), "invalid directive: launch rockets");
}

#[test]
fn stray_else_is_invalid_directive() {
    let error = refused("else {\n}\n");
    assert!(matches!(error, ParseError::InvalidDirective(_)));
}

#[test]
fn asset_group_on_several_lines() {
    let scenario = parsed("asset_group corp {\n  scope demo\n  owner \"security team\"\n}\n");
    match &scenario.steps[0] {
        Step::AssetGroup(group) => {
            assert_eq!(group.name, "corp");
            assert_eq!(group.properties, table(&[("owner", "security team"), ("scope", "demo")]));
        }
        other => panic!("unexpected step {:?}", other),
    }
}

#[test]
fn asset_group_on_one_line() {
    let scenario = parsed("group web { cidr 10.0.0.0/24; env 'prod' }");
    match &scenario.steps[0] {
        Step::AssetGroup(group) => {
            assert_eq!(group.name, "web");
            assert_eq!(group.properties, table(&[("cidr", "10.0.0.0/24"), ("env", "prod")]));
        }
        other => panic!("unexpected step {:?}", other),
    }
}

#[test]
fn asset_group_property_without_value() {
    let error = refused("asset_group corp {\n  scope\n}\n");
    assert!(matches!(error, ParseError::MissingValue("asset_group value")));
}

#[test]
fn asset_group_without_end() {
    let error = refused("asset_group corp {\n  scope demo\n");
    assert!(matches!(error, ParseError::UnexpectedEof("asset_group block")));
    assert_eq!(error.message(), "unexpected end of input while parsing asset_group block");
}

#[test]
fn asset_group_with_text_behind_the_brace() {
    let error = refused("asset_group corp {\n  scope demo\n} trailing\n");
    assert!(matches!(error, ParseError::InvalidSyntax(ref text) if text == " trailing"));
}

#[test]
fn scan_with_output_name() {
    let scenario = parsed("scan web using nmap {\n  target 10.0.0.1\n  flags \"-p80 -sV\"\n} -> web_findings\n");
    match &scenario.steps[0] {
        Step::Scan(scan) => {
            assert_eq!(scan.name, "web");
            assert_eq!(scan.tool, "nmap");
            assert_eq!(scan.params, table(&[("flags", "-p80 -sV"), ("target", "10.0.0.1")]));
            assert_eq!(scan.output.as_deref(), Some("web_findings"));
        }
        other => panic!("unexpected step {:?}", other),
    }
}

#[test]
fn scan_without_using() {
    let scenario = parsed("scan web gobuster {\n  target x\n}\n");
    match &scenario.steps[0] {
        Step::Scan(scan) => {
            assert_eq!(scan.tool, "gobuster");
            assert_eq!(scan.output, None);
        }
        other => panic!("unexpected step {:?}", other),
    }
}

#[test]
fn scan_header_needs_a_tool() {
    let error = refused("scan web {\n}\n");
    assert!(matches!(error, ParseError::InvalidSyntax(ref text) if text == "scan web {"));
}

#[test]
fn scan_parameter_without_value() {
    let error = refused("scan web nmap {\n  target\n}\n");
    assert!(matches!(error, ParseError::InvalidSyntax(ref text) if text == "target"));
}

#[test]
fn scan_without_end() {
    let error = refused("scan web nmap {\n  target x\n");
    assert!(matches!(error, ParseError::UnexpectedEof("scan block")));
}

#[test]
fn mismatched_quote_is_invalid() {
    let error = refused("scan web nmap {\n  target \"x\n}\n");
    assert!(matches!(error, ParseError::InvalidSyntax(ref text) if text == "\"x"));
}

#[test]
fn script_needs_run() {
    let error = refused("script build {\n  args \"-v\"\n}\n");
    assert!(matches!(error, ParseError::MissingValue("script run")));
}

#[test]
fn script_with_output_name() {
    let scenario = parsed("script build {\n  run \"make all\"\n  cwd /tmp\n} -> build_log\n");
    match &scenario.steps[0] {
        Step::Script(script) => {
            assert_eq!(script.name, "build");
            assert_eq!(script.params, table(&[("cwd", "/tmp"), ("run", "make all")]));
            assert_eq!(script.output.as_deref(), Some("build_log"));
        }
        other => panic!("unexpected step {:?}", other),
    }
}

#[test]
fn script_without_end() {
    let error = refused("script build {\n  run x\n");
    assert!(matches!(error, ParseError::UnexpectedEof("script block")));
}

#[test]
fn report_with_format_and_options() {
    let source = "report summary using sarif {\n  include scan_x\n  include asset_group:corp\n  option severity_threshold \"high\"\n  option title Weekly\n}\n";
    let scenario = parsed(source);
    match &scenario.steps[0] {
        Step::Report(report) => {
            assert_eq!(report.name, "summary");
            assert_eq!(report.format, ReportFormat::Sarif);
            assert_eq!(report.includes, vec!["scan_x", "asset_group:corp"]);
            assert_eq!(
                report.options,
                table(&[("severity_threshold", "high"), ("title", "Weekly")])
            );
            assert_eq!(report.output, None);
        }
        other => panic!("unexpected step {:?}", other),
    }
}

#[test]
fn report_without_format_goes_to_the_console() {
    let scenario = parsed("report summary {\n  include a\n} -> out/summary.json\n");
    match &scenario.steps[0] {
        Step::Report(report) => {
            assert_eq!(report.format, ReportFormat::Stdout);
            assert_eq!(report.output.as_deref(), Some("out/summary.json"));
        }
        other => panic!("unexpected step {:?}", other),
    }
}

#[test]
fn report_with_unknown_format() {
    let error = refused("report summary using pdf {\n}\n");
    assert!(matches!(error, ParseError::InvalidSyntax(_)));
}

#[test]
fn report_with_unknown_line() {
    let error = refused("report summary {\n  exclude a\n}\n");
    assert!(matches!(error, ParseError::InvalidSyntax(ref text) if text == "exclude a"));
}

#[test]
fn report_without_end() {
    let error = refused("report summary {\n  include a\n");
    assert!(matches!(error, ParseError::UnexpectedEof("report block")));
}

#[test]
fn secret_from_env_on_several_lines() {
    let scenario = parsed("secret api from env {\n  token = \"MY_ENV\"\n  user = OTHER\n}\n");
    match &scenario.steps[0] {
        Step::Secret(secret) => {
            assert_eq!(secret.name, "api");
            match &secret.source {
                SecretSource::Env { mappings } => {
                    assert_eq!(mappings, &table(&[("token", "MY_ENV"), ("user", "OTHER")]));
                }
                other => panic!("unexpected source {:?}", other),
            }
        }
        other => panic!("unexpected step {:?}", other),
    }
}

#[test]
fn secret_from_env_on_one_line() {
    let scenario = parsed("secret api from env { token = \"MY_ENV\" }");
    match &scenario.steps[0] {
        Step::Secret(secret) => match &secret.source {
            SecretSource::Env { mappings } => {
                assert_eq!(mappings, &table(&[("token", "MY_ENV")]));
            }
            other => panic!("unexpected source {:?}", other),
        },
        other => panic!("unexpected step {:?}", other),
    }
}

#[test]
fn secret_from_file_and_vault() {
    let scenario = parsed("secret key from file \"/etc/my key\"\nsecret db from vault kv/db;\n");
    assert!(matches!(
        &scenario.steps[0],
        Step::Secret(secret) if matches!(&secret.source, SecretSource::File { path } if path == "/etc/my key")
    ));
    assert!(matches!(
        &scenario.steps[1],
        Step::Secret(secret) if matches!(&secret.source, SecretSource::Vault { path } if path == "kv/db")
    ));
}

#[test]
fn secret_with_unknown_provider() {
    let error = refused("secret key from moon base");
    assert!(matches!(error, ParseError::InvalidSyntax(_)));
}

#[test]
fn secret_mapping_without_equals() {
    let error = refused("secret api from env {\n  token MY_ENV\n}\n");
    assert!(matches!(error, ParseError::InvalidSyntax(ref text) if text == "token MY_ENV"));
}

#[test]
fn secret_without_end() {
    let error = refused("secret api from env {\n  token = A\n");
    assert!(matches!(error, ParseError::UnexpectedEof("secret block")));
}

#[test]
fn conditional_with_else() {
    let source = "if enabled {\n  let a = 1\n} else {\n  let b = 2\n  let c = 3\n}\n";
    let scenario = parsed(source);
    match &scenario.steps[0] {
        Step::Conditional(block) => {
            assert!(matches!(&block.condition, ConditionExpr::Variable(name) if name == "enabled"));
            assert_eq!(block.then_steps.len(), 1);
            assert_eq!(block.else_steps.len(), 2);
        }
        other => panic!("unexpected step {:?}", other),
    }
}

#[test]
fn else_on_its_own_line() {
    let source = "if false {\n  let a = 1\n}\n\n// comment\nelse {\n  let b = 2\n}\nlet c = 3\n";
    let scenario = parsed(source);
    assert_eq!(scenario.steps.len(), 2);
    match &scenario.steps[0] {
        Step::Conditional(block) => assert_eq!(block.else_steps.len(), 1),
        other => panic!("unexpected step {:?}", other),
    }
}

#[test]
fn else_if_is_a_conditional_in_the_else_branch() {
    let source = "if a == 1 {\n  let x = 1\n} else if a == 2 {\n  let x = 2\n} else {\n  let x = 3\n}\n";
    let scenario = parsed(source);
    match &scenario.steps[0] {
        Step::Conditional(block) => {
            assert_eq!(block.else_steps.len(), 1);
            match &block.else_steps[0] {
                Step::Conditional(nested) => {
                    assert_eq!(nested.then_steps.len(), 1);
                    assert_eq!(nested.else_steps.len(), 1);
                }
                other => panic!("unexpected step {:?}", other),
            }
        }
        other => panic!("unexpected step {:?}", other),
    }
}

#[test]
fn conditional_without_end() {
    let error = refused("if true {\n  let a = 1\n");
    assert!(matches!(error, ParseError::UnexpectedEof("block")));
}

#[test]
fn conditional_without_condition() {
    let error = refused("if  {\n}\n");
    assert!(matches!(error, ParseError::InvalidDirective(_) | ParseError::InvalidSyntax(_)));
}

#[test]
fn conditional_with_text_behind_the_brace() {
    let error = refused("if true { let a = 1\n}\n");
    assert!(matches!(error, ParseError::InvalidSyntax(ref text) if text == "let a = 1"));
}

#[test]
fn text_behind_the_end_of_a_block() {
    let error = refused("if true {\n} otherwise\n");
    assert!(matches!(error, ParseError::InvalidSyntax(ref text) if text == "otherwise"));
}

#[test]
fn loop_over_a_literal_and_a_variable() {
    let scenario = parsed("for i in [1, 2, 3] {\n  let d = \"${i}\"\n}\nfor host in hosts {\n}\n");
    match &scenario.steps[0] {
        Step::Loop(step) => {
            assert_eq!(step.iterator, "i");
            assert!(matches!(&step.iterable, LoopIterable::Literal(LiteralValue::Array(items)) if items.len() == 3));
            assert_eq!(step.body.len(), 1);
        }
        other => panic!("unexpected step {:?}", other),
    }
    assert!(matches!(
        &scenario.steps[1],
        Step::Loop(step) if matches!(&step.iterable, LoopIterable::Variable(name) if name == "hosts")
    ));
}

#[test]
fn loop_iterator_must_be_a_word() {
    let error = refused("for a-b in [1] {\n}\n");
    assert!(matches!(error, ParseError::InvalidSyntax(ref text) if text == "a-b"));
}

#[test]
fn loop_without_in() {
    let error = refused("for x of [1] {\n}\n");
    assert!(matches!(error, ParseError::InvalidSyntax(_)));
}

#[test]
fn loop_with_else_behind_it() {
    let error = refused("for x in [1] {\n} else {\n}\n");
    assert!(matches!(error, ParseError::InvalidSyntax(ref text) if text == "else {"));
}

#[test]
fn literal_kinds() {
    assert!(matches!(literal(""), LiteralValue::String(ref s) if s.is_empty()));
    assert!(matches!(literal("true"), LiteralValue::Boolean(true)));
    assert!(matches!(literal(" false "), LiteralValue::Boolean(false)));
    assert!(matches!(literal("\"quoted text\""), LiteralValue::String(ref s) if s == "quoted text"));
    assert!(matches!(literal("'single'"), LiteralValue::String(ref s) if s == "single"));
    assert!(matches!(literal("bare words"), LiteralValue::String(ref s) if s == "bare words"));
    assert!(matches!(literal("\"open"), LiteralValue::String(ref s) if s == "\"open"));
}

#[test]
fn number_literals() {
    assert_eq!(literal("5").display(), "5");
    assert_eq!(literal("5.0").display(), "5");
    assert_eq!(literal("+5").display(), "5");
    assert_eq!(literal("-5.50").display(), "-5.5");
    assert_eq!(literal("007").display(), "7");
    assert_eq!(literal(".5").display(), "0.5");
    assert_eq!(literal("5.").display(), "5");
    assert_eq!(literal("-0").display(), "0");
    assert_eq!(literal("0.125").display(), "0.125");
    assert!(matches!(literal("1.2.3"), LiteralValue::String(ref s) if s == "1.2.3"));
    assert!(matches!(literal("-"), LiteralValue::String(ref s) if s == "-"));
    assert!(matches!(literal("1-2"), LiteralValue::String(ref s) if s == "1-2"));
    assert!(matches!(literal("."), LiteralValue::String(ref s) if s == "."));
}

#[test]
fn number_literals_are_equal_by_value() {
    assert!(literal("1.0").same_value(&literal("1")));
    assert!(literal("+2.50").same_value(&literal("2.5")));
    assert!(!literal("1").same_value(&literal("2")));
    assert!(!literal("1").same_value(&literal("\"1\"")));
}

#[test]
fn array_literal() {
    let value = literal("[1, \"two, three\", [4, 5], {k: 6}, ]");
    match &value {
        LiteralValue::Array(items) => {
            assert_eq!(items.len(), 4);
            assert!(matches!(&items[1], LiteralValue::String(s) if s == "two, three"));
            assert!(matches!(&items[2], LiteralValue::Array(inner) if inner.len() == 2));
            assert!(matches!(&items[3], LiteralValue::Object(inner) if inner.len() == 1));
        }
        other => panic!("unexpected literal {:?}", other),
    }
    assert_eq!(value.display(), "[1.0,\"two, three\",[4.0,5.0],{\"k\":6.0}]");
}

#[test]
fn array_literal_displays_as_compact_json() {
    assert_eq!(literal("[1, 2, \"x\"]").display(), "[1.0,2.0,\"x\"]");
    assert_eq!(literal("[]").display(), "[]");
}

#[test]
fn object_literal_is_in_the_order_of_its_keys() {
    let value = literal("{b: 2, \"a key\": true, 'c': [1], b: 3}");
    match &value {
        LiteralValue::Object(entries) => {
            let keys: Vec<&str> = entries.iter().map(|e| e.0.as_str()).collect();
            assert_eq!(keys, vec!["a key", "b", "c"]);
            assert!(entries[1].1.same_value(&LiteralValue::Number(Decimal::from_integer(3))));
        }
        other => panic!("unexpected literal {:?}", other),
    }
    assert_eq!(value.display(), "{\"a key\":true,\"b\":3.0,\"c\":[1.0]}");
}

#[test]
fn unbalanced_literals_are_invalid() {
    for text in ["[1, 2", "[1, [2]", "[1]]", "{a: 1", "[\"open]", "{a 1}", "{a-b: 1}", "[1]x"] {
        match parse_literal_expression(text) {
            Err(ParseError::InvalidSyntax(_)) => {}
            other => panic!("{} should be invalid, got {:?}", text, other),
        }
    }
}

#[test]
fn invalid_array_reports_what_stands_between_the_brackets() {
    match parse_literal_expression("[1, [2]") {
        Err(ParseError::InvalidSyntax(text)) => assert_eq!(text, "1, [2"),
        other => panic!("unexpected {:?}", other),
    }
}

#[test]
fn split_top_level_splits_outside_brackets_and_quotes() {
    let items = split_top_level(&chars("a, [b, c], \"d, e\", {f: g, h: i},, 'j\\', k' "), ',').unwrap();
    let texts: Vec<String> = items.iter().map(|item| string_of(item)).collect();
    assert_eq!(texts, vec!["a", "[b, c]", "\"d, e\"", "{f: g, h: i}", "'j\\', k'"]);
    assert!(split_top_level(&chars("a]"), ',').is_none());
    assert!(split_top_level(&chars("[a"), ',').is_none());
    assert!(split_top_level(&chars("\"a"), ',').is_none());
    assert!(split_top_level(&chars(""), ',').unwrap().is_empty());
}

#[test]
fn split_key_value_finds_the_first_top_level_colon() {
    let (key, value) = split_key_value(&chars(" \"a:b\" : {c: d} ")).ok().unwrap();
    assert_eq!(string_of(&key), "\"a:b\"");
    assert_eq!(string_of(&value), "{c: d}");
    assert!(split_key_value(&chars("no colon")).is_err());
    assert!(split_key_value(&chars("[a: b]")).is_err());
}

#[test]
fn split_key_value_keeps_an_escaped_quote_inside_the_key() {
    let (key, value) = split_key_value(&chars(r#""a\":b": 1"#)).ok().unwrap();
    assert_eq!(string_of(&key), r#""a\":b""#);
    assert_eq!(string_of(&value), "1");
    let (key, value) = split_key_value(&chars(r#"'it\'s: here': "x\\": 2"#)).ok().unwrap();
    assert_eq!(string_of(&key), r#"'it\'s: here'"#);
    assert_eq!(string_of(&value), r#""x\\": 2"#);
    // a backslash outside quotes hides nothing
    let (key, value) = split_key_value(&chars(r#"a\: b"#)).ok().unwrap();
    assert_eq!(string_of(&key), "a\\");
    assert_eq!(string_of(&value), "b");
    // a backslash that ends the text inside a quote
    assert!(split_key_value(&chars(r#""a: b\"#)).is_err());
    let value = parse_literal_expression(r#"{"a\":b": 1}"#).ok().unwrap();
    match &value {
        LiteralValue::Object(entries) => {
            assert_eq!(entries.len(), 1);
            assert_eq!(entries[0].0, r#"a\":b"#);
        }
        other => panic!("unexpected literal {:?}", other),
    }
}

#[test]
fn object_keys() {
    assert_eq!(parse_object_key(&chars("\"a b\"")).ok().unwrap(), "a b");
    assert_eq!(parse_object_key(&chars("'c'")).ok().unwrap(), "c");
    assert_eq!(parse_object_key(&chars("word_1")).ok().unwrap(), "word_1");
    assert!(parse_object_key(&chars("")).is_err());
    assert!(parse_object_key(&chars("a b")).is_err());
}

#[test]
fn quoted_values() {
    assert_eq!(parse_quoted(&chars("  \"a b\"  ")).ok().unwrap(), "a b");
    assert_eq!(parse_quoted(&chars("'a'")).ok().unwrap(), "a");
    assert_eq!(parse_quoted(&chars(" bare ")).ok().unwrap(), "bare");
    assert_eq!(parse_quoted(&chars("   ")).ok().unwrap(), "");
    assert_eq!(parse_quoted(&chars("'a b'")).ok().unwrap(), "a b");
    assert_eq!(parse_quoted(&chars("\"\"")).ok().unwrap(), "");
    assert_eq!(parse_quoted(&chars("it's")).ok().unwrap(), "it's");
}

#[test]
fn quotes_that_do_not_match_are_invalid() {
    for text in ["\"open", "close\"", "'abc", "abc'", "\"abc'", "'abc\"", "\"", "'", " 'a "] {
        match parse_quoted(&chars(text)) {
            Err(ParseError::InvalidSyntax(line)) => assert_eq!(line, text),
            other => panic!("unexpected result {:?} for {}", other, text),
        }
    }
    match parse_scenario("scan s nmap {\n  target 'abc\n}\n") {
        Err(ParseError::InvalidSyntax(line)) => assert_eq!(line, "'abc"),
        other => panic!("unexpected result {:?}", other),
    }
}

#[test]
fn find_operator_skips_brackets_and_quotes() {
    assert_eq!(find_operator(&chars("a == b"), "=="), Some(2));
    assert_eq!(find_operator(&chars("\"a == b\" == c"), "=="), Some(9));
    assert_eq!(find_operator(&chars("[a == b] != c"), "=="), None);
    assert_eq!(find_operator(&chars("[a == b] != c"), "!="), Some(9));
    assert_eq!(find_operator(&chars("(x) == 'y\\' == z'"), "=="), Some(4));
    assert_eq!(find_operator(&chars("a = b"), "=="), None);
    assert_eq!(find_operator(&chars("a == b"), ""), None);
}

#[test]
fn conditions() {
    let expr = parse_condition_expr(&chars("env == \"prod\"")).ok().unwrap();
    match &expr {
        ConditionExpr::Equals(ConditionOperand::Variable(name), ConditionOperand::Literal(value)) => {
            assert_eq!(name, "env");
            assert!(matches!(value, LiteralValue::String(s) if s == "prod"));
        }
        other => panic!("unexpected condition {:?}", other),
    }
    assert_eq!(expr.display(), "env == prod");

    let expr = parse_condition_expr(&chars("count != 3")).ok().unwrap();
    assert!(matches!(expr, ConditionExpr::NotEquals(_, _)));
    assert_eq!(expr.display(), "count != 3");

    let expr = parse_condition_expr(&chars("! ready")).ok().unwrap();
    assert!(matches!(&expr, ConditionExpr::Not(inner) if matches!(**inner, ConditionExpr::Variable(_))));
    assert_eq!(expr.display(), "!ready");

    assert!(matches!(parse_condition_expr(&chars("true")), Ok(ConditionExpr::Literal(true))));
    assert!(matches!(parse_condition_expr(&chars("false")), Ok(ConditionExpr::Literal(false))));
    assert!(matches!(parse_condition_expr(&chars("")), Err(ParseError::InvalidSyntax(_))));
    assert!(matches!(parse_condition_expr(&chars("a b")), Err(ParseError::InvalidSyntax(_))));
    assert!(matches!(parse_condition_expr(&chars("== b")), Err(ParseError::InvalidSyntax(_))));
}

#[test]
fn parse_error_messages() {
    assert_eq!(
        ParseError::UnexpectedEof("block").message(),
        "unexpected end of input while parsing block"
    );
    assert_eq!(
        ParseError::InvalidSyntax("x y".to_string()).message(),
        "invalid syntax in line: x y"
    );
}
