use axion_core::assoc;
use axion_core::handlers::{nmap_command, script_command, tool_command};
use axion_core::command::{
    artifact_file, code_chars, join_path, resolve_report_path, sanitize_label, split_command,
    truncate_output, truncate_text,
};
use axion_core::text::{
    chars_of, contains, decimal_text, ends_with, find, identifier, less, lines, replace, same,
    signed_decimal_text, split_whitespace, starts_with, string_of, trim, trim_end, trim_end_matches,
    trim_start, whitespace,
};
use axion_core::{Decimal, Json, LiteralValue};

fn chars(text: &str) -> Vec<char> {
    text.chars().collect()
}

fn text(chars: &Vec<char>) -> String {
    chars.iter().collect()
}

#[test]
fn characters_and_strings() {
    assert_eq!(chars_of("a\u{e9}\u{4e16}"), vec!['a', '\u{e9}', '\u{4e16}']);
    assert_eq!(string_of(&vec!['a', '\u{e9}', '\u{4e16}']), "a\u{e9}\u{4e16}");
    assert!(chars_of("").is_empty());
}

#[test]
fn trimming() {
    assert_eq!(text(&trim(&chars("  a b \t\n"))), "a b");
    assert_eq!(text(&trim(&chars("\u{a0}\u{3000}x\u{2028}"))), "x");
    assert_eq!(text(&trim_start(&chars("  a "))), "a ");
    assert_eq!(text(&trim_end(&chars("  a "))), "  a");
    assert_eq!(text(&trim(&chars("   "))), "");
    assert_eq!(text(&trim_end_matches(&chars("a;;;"), ';')), "a");
    assert_eq!(text(&trim_end_matches(&chars(";;"), ';')), "");
    assert!(whitespace(' ') && whitespace('\u{85}') && !whitespace('\u{200b}') && !whitespace('a'));
}

#[test]
fn searching() {
    assert!(starts_with(&chars("import x"), "import "));
    assert!(!starts_with(&chars("import"), "import "));
    assert!(ends_with(&chars("a.json"), ".json"));
    assert!(!ends_with(&chars("json"), ".json"));
    assert_eq!(find(&chars("a -> b -> c"), "->"), Some(2));
    assert_eq!(find(&chars("a > b"), "->"), None);
    assert!(contains(&chars("abc"), &chars("bc")));
    assert!(contains(&chars("abc"), &chars("")));
    assert!(!contains(&chars("abc"), &chars("cb")));
    assert!(same(&chars("x"), &chars("x")) && !same(&chars("x"), &chars("xy")));
    assert!(identifier(&chars("a_1")) && !identifier(&chars("")) && !identifier(&chars("a-1")));
}

#[test]
fn order_of_strings() {
    assert!(less(&chars("a"), &chars("b")));
    assert!(less(&chars("a"), &chars("ab")));
    assert!(less(&chars(""), &chars("a")));
    assert!(less(&chars("Z"), &chars("a")));
    assert!(!less(&chars("a"), &chars("a")));
    assert!(!less(&chars("b"), &chars("a")));
    let mut words = vec!["b", "ab", "", "a", "B", "\u{e9}", "z"];
    let mut sorted = words.clone();
    sorted.sort();
    words.sort_by(|x, y| {
        if less(&chars(x), &chars(y)) {
            std::cmp::Ordering::Less
        } else if less(&chars(y), &chars(x)) {
            std::cmp::Ordering::Greater
        } else {
            std::cmp::Ordering::Equal
        }
    });
    assert_eq!(words, sorted);
}

#[test]
fn words_and_lines() {
    let words: Vec<String> = split_whitespace(&chars("  scan  web\tusing nmap { ")).iter().map(text).collect();
    assert_eq!(words, vec!["scan", "web", "using", "nmap", "{"]);
    assert!(split_whitespace(&chars(" \t ")).is_empty());
    for source in ["a\nb\r\nc", "a\n\nb\n", "", "\n", "a\r", "a\r\n\r\n", "x\ny\n\n"] {
        let ours: Vec<String> = lines(&chars(source)).iter().map(text).collect();
        let theirs: Vec<String> = source.lines().map(String::from).collect();
        assert_eq!(ours, theirs, "lines of {:?}", source);
    }
}

#[test]
fn replacing() {
    assert_eq!(text(&replace(&chars("aaa"), &chars("aa"), &chars("b"))), "ba");
    assert_eq!(text(&replace(&chars("abcabc"), &chars("bc"), &chars("***"))), "a***a***");
    assert_eq!(text(&replace(&chars("abc"), &chars(""), &chars("x"))), "abc");
    assert_eq!(text(&replace(&chars("abc"), &chars("abcd"), &chars("x"))), "abc");
    for (source, pattern) in [("aaaa", "aa"), ("abab", "ab"), ("xyz", "y"), ("", "a"), ("aXbXc", "X")] {
        assert_eq!(
            text(&replace(&chars(source), &chars(pattern), &chars("--"))),
            source.replace(pattern, "--")
        );
    }
}

#[test]
fn numbers_as_text() {
    assert_eq!(text(&decimal_text(0)), "0");
    assert_eq!(text(&decimal_text(1234567890)), "1234567890");
    assert_eq!(text(&decimal_text(u64::MAX)), "18446744073709551615");
    assert_eq!(text(&signed_decimal_text(-1)), "-1");
    assert_eq!(text(&signed_decimal_text(i64::MIN)), "-9223372036854775808");
    assert_eq!(text(&signed_decimal_text(42)), "42");
    assert_eq!(text(&code_chars(Some(0))), "Some(0)");
    assert_eq!(text(&code_chars(Some(-15))), "Some(-15)");
    assert_eq!(text(&code_chars(None)), "None");
}

#[test]
fn decimals() {
    let shown = |notation: &str| Decimal::parse(&chars(notation)).map(|d| d.text);
    assert_eq!(shown("0").as_deref(), Some("0"));
    assert_eq!(shown("-0.0").as_deref(), Some("0"));
    assert_eq!(shown("+00012.3400").as_deref(), Some("12.34"));
    assert_eq!(shown("-.5").as_deref(), Some("-0.5"));
    assert_eq!(shown("12345678901234567890123").as_deref(), Some("12345678901234567890123"));
    assert_eq!(shown(""), None);
    assert_eq!(shown("-"), None);
    assert_eq!(shown("."), None);
    assert_eq!(shown("1.2.3"), None);
    assert_eq!(shown("1e5"), None);
    assert_eq!(shown("--1"), None);
    assert_eq!(Decimal::from_integer(-7).text, "-7");
    for (notation, value) in [("5", 5.0f64), ("5.0", 5.0), ("-2.50", -2.5), ("0.125", 0.125), ("100", 100.0)] {
        let expected = if value.fract() == 0.0 { format!("{:.0}", value) } else { value.to_string() };
        assert_eq!(shown(notation), Some(expected));
    }
}

#[test]
fn literal_as_json() {
    let value = LiteralValue::Array(vec![
        LiteralValue::Number(Decimal::from_integer(1)),
        LiteralValue::Number(Decimal::parse(&chars("2.5")).unwrap()),
        LiteralValue::Boolean(true),
        LiteralValue::text("a\"b"),
        LiteralValue::Object(vec![("k".to_string(), LiteralValue::Array(Vec::new()))]),
    ]);
    assert_eq!(value.display(), "[1.0,2.5,true,\"a\\\"b\",{\"k\":[]}]");
    assert!(matches!(value.to_json(), Json::Array(items) if items.len() == 5));
    assert!(value.copy().same_value(&value));
    assert_eq!(LiteralValue::Boolean(false).display(), "false");
    assert_eq!(LiteralValue::text("plain").display(), "plain");
}

#[test]
fn json_members_and_copies() {
    let json = Json::Object(vec![
        ("a".to_string(), Json::Integer(1)),
        ("b".to_string(), Json::Array(vec![Json::Null, Json::Bool(true)])),
    ]);
    assert!(matches!(json.get("a"), Some(Json::Integer(1))));
    assert!(json.get("c").is_none());
    assert!(Json::Null.get("a").is_none());
    assert_eq!(json.get("b").unwrap().as_array().unwrap().len(), 2);
    assert!(json.as_array().is_none());
    assert_eq!(format!("{:?}", json.copy()), format!("{:?}", json));
}

#[test]
fn tables_keep_their_keys_in_order() {
    let mut table: Vec<(String, i32)> = Vec::new();
    for (key, value) in [("m", 1), ("a", 2), ("z", 3), ("m", 4), ("b", 5)] {
        assoc::insert(&mut table, key.to_string(), value);
    }
    let entries: Vec<(&str, i32)> = table.iter().map(|e| (e.0.as_str(), e.1)).collect();
    assert_eq!(entries, vec![("a", 2), ("b", 5), ("m", 4), ("z", 3)]);
    assert_eq!(assoc::position(&table, &chars("m")), Some(2));
    assert_eq!(assoc::position(&table, &chars("x")), None);
    assert!(assoc::contains_key(&table, "z"));
    assoc::remove(&mut table, &chars("a"));
    assoc::remove(&mut table, &chars("nothing"));
    assert_eq!(table.len(), 3);
    assert!(!assoc::contains_key(&table, "a"));
}

#[test]
fn labels_and_paths() {
    assert_eq!(sanitize_label("report:weekly summary/1.v2_x-y"), "report_weekly_summary_1.v2_x-y");
    assert_eq!(sanitize_label("\u{e9}t\u{e9}"), "_t_");
    assert_eq!(sanitize_label(""), "");
    assert_eq!(text(&join_path(&chars("artifacts"), &chars("a.json"))), "artifacts/a.json");
    assert_eq!(text(&join_path(&chars("artifacts/"), &chars("a.json"))), "artifacts/a.json");
    assert_eq!(text(&join_path(&chars("artifacts"), &chars("/abs/a"))), "/abs/a");
    assert_eq!(text(&join_path(&chars(""), &chars("a"))), "a");
    assert_eq!(artifact_file("artifacts", "report:r"), "artifacts/report_r.json");
    assert_eq!(
        resolve_report_path("artifacts", "my report", &None, "html"),
        "artifacts/reports/my_report.html"
    );
    assert_eq!(
        resolve_report_path("artifacts", "r", &Some("out/r.md".to_string()), "md"),
        "artifacts/out/r.md"
    );
    assert_eq!(resolve_report_path("artifacts", "r", &Some("/tmp/r".to_string()), "md"), "/tmp/r");
}

#[test]
fn output_is_cut_at_512_bytes() {
    let mark = "\u{e2}\u{20ac}\u{a6}";
    assert_eq!(truncate_output(&b"short".to_vec()), "short");
    assert_eq!(truncate_output(&vec![b'a'; 512]), "a".repeat(512));
    assert_eq!(truncate_output(&vec![b'a'; 513]), format!("{}{}", "a".repeat(512), mark));
    let wide: String = "\u{e9}".repeat(300);
    assert_eq!(truncate_output(&wide.as_bytes().to_vec()), format!("{}{}", "\u{e9}".repeat(256), mark));
    let odd = format!("a{}", "\u{e9}".repeat(300));
    assert_eq!(text(&truncate_text(&chars(&odd))), format!("a{}{}", "\u{e9}".repeat(255), mark));
    assert_eq!(truncate_output(&vec![0xff, b'a']), "\u{fffd}a");
}

#[test]
fn command_lines() {
    assert_eq!(
        split_command("nmap -p '80 443' \"a b\" c\\ d").ok(),
        Some(vec!["nmap".to_string(), "-p".to_string(), "80 443".to_string(), "a b".to_string(), "c d".to_string()])
    );
    assert_eq!(split_command("   ").ok(), Some(Vec::new()));
    assert_eq!(split_command("echo 'open").err().as_deref(), Some("missing closing quote"));
}

#[test]
fn arguments_of_tools() {
    let words = |list: &[&str]| -> Vec<String> { list.iter().map(|w| w.to_string()).collect() };
    assert_eq!(
        nmap_command(words(&["-p80", "-sV"]), &"10.0.0.1".to_string()),
        words(&["-p80", "-sV", "-oX", "-", "10.0.0.1"])
    );
    assert_eq!(nmap_command(Vec::new(), &String::new()), words(&["-oX", "-", ""]));
    assert_eq!(
        tool_command(&words(&["-q"]), &words(&["dir", "-w", "list"]), Some("http://x".to_string())),
        words(&["-q", "dir", "-w", "list", "http://x"])
    );
    assert_eq!(tool_command(&words(&["-q"]), &Vec::new(), Some(String::new())), words(&["-q"]));
    assert_eq!(tool_command(&Vec::new(), &words(&["a"]), None), words(&["a"]));
    assert_eq!(
        script_command(&words(&["make", "all"]), &words(&["-j", "4"])),
        words(&["make", "all", "-j", "4"])
    );
}
