use axion_core::artifact::{member, object};
use axion_core::executor::build_table_from_scan;
use axion_core::nmap::{hosts_from_events, parse_nmap_xml, parse_port, scan_from_hosts, XmlEvent};
use axion_core::render::{
    escape_html, render_html_report, render_markdown_report, render_table, sanitize_markdown_cell,
    value_to_string,
};
use axion_core::sarif::{
    level_of_lowered, rank_of_lowered, render_sarif_report, sarif_level, scan_of_json,
    severity_rank,
};
use axion_core::{Finding, Json, ScanArtifacts, TableArtifact};

fn text(value: &str) -> Json {
    Json::String(value.to_string())
}

fn finding(id: &str, asset: &str, port: u16, severity: &str, title: &str) -> Finding {
    Finding {
        id: id.to_string(),
        asset_id: asset.to_string(),
        port,
        protocol: "tcp".to_string(),
        state: "open".to_string(),
        service: Some("http".to_string()),
        title: title.to_string(),
        description: format!("port {} is open", port),
        severity: severity.to_string(),
        evidence: vec![("port".to_string(), Json::Integer(port as i128))],
    }
}

fn scan(findings: Vec<Finding>) -> Json {
    ScanArtifacts {
        tool: "nmap".to_string(),
        target: "10.0.0.0/24".to_string(),
        assets: Vec::new(),
        findings,
        raw_xml: String::new(),
    }
    .to_json()
}

fn asset_group() -> Json {
    let mut properties = Vec::new();
    member(&mut properties, "scope", text("demo"));
    let mut members = Vec::new();
    member(&mut members, "name", text("corp"));
    member(&mut members, "properties", object(properties));
    object(members)
}

fn options(entries: &[(&str, &str)]) -> Vec<(String, String)> {
    entries.iter().map(|(k, v)| (k.to_string(), v.to_string())).collect()
}

#[test]
fn sarif_threshold_keeps_the_graver_finding() {
    let includes = vec![(
        "scan_x".to_string(),
        scan(vec![
            finding("f1", "asset://host/a", 80, "low", "low one"),
            finding("f2", "asset://host/b", 443, "critical", "critical one"),
        ]),
    )];
    let sarif = render_sarif_report("r", "now", &includes, &options(&[("severity_threshold", "high")]));
    assert_eq!(sarif.matches("\"ruleId\"").count(), 1);
    assert!(sarif.contains("\"text\": \"critical one\""));
    assert!(!sarif.contains("low one"));
    assert!(sarif.contains("\"level\": \"error\""));
    assert!(sarif.contains("\"uri\": \"asset://host/b\""));
    assert!(!sarif.contains("asset://host/a"));
}

#[test]
fn sarif_without_threshold_keeps_every_finding() {
    let includes = vec![
        ("asset_group:corp".to_string(), asset_group()),
        (
            "scan_a".to_string(),
            scan(vec![
                finding("f1", "asset://host/a", 80, "low", "one"),
                finding("f2", "asset://host/a", 443, "Medium", "two"),
            ]),
        ),
        ("scan_b".to_string(), scan(vec![finding("f3", "asset://host/a", 22, "HIGH", "three")])),
    ];
    let sarif = render_sarif_report("weekly", "2024-05-01T12:00:00Z", &includes, &options(&[
        ("tool", "Scanner"),
        ("tool_uri", "https://example.test"),
        ("tool_version", "1.2"),
    ]));
    assert_eq!(sarif.matches("\"ruleId\": \"nmap\"").count(), 3);
    assert_eq!(sarif.matches("\"level\": \"note\"").count(), 1);
    assert_eq!(sarif.matches("\"level\": \"warning\"").count(), 1);
    assert_eq!(sarif.matches("\"level\": \"error\"").count(), 1);
    assert_eq!(sarif.matches("\"location\": {").count(), 1);
    assert_eq!(sarif.matches("\"shortDescription\"").count(), 1);
    assert!(sarif.contains("\"text\": \"Findings emitted by nmap\""));
    assert!(sarif.contains("\"name\": \"Scanner\""));
    assert!(sarif.contains("\"informationUri\": \"https://example.test\""));
    assert!(sarif.contains("\"version\": \"1.2\""));
    assert!(sarif.contains("\"id\": \"axion::weekly\""));
    assert!(sarif.contains("\"text\": \"Axion SARIF report weekly\""));
    assert!(sarif.contains("\"endTimeUtc\": \"2024-05-01T12:00:00Z\""));
    assert!(sarif.contains("\"executionSuccessful\": true"));
    assert!(sarif.starts_with("{\n  \"$schema\": \"https://json.schemastore.org/sarif-2.1.0.json\",\n  \"runs\": ["));
    assert!(sarif.ends_with("  ],\n  \"version\": \"2.1.0\"\n}"));
}

#[test]
fn sarif_of_nothing() {
    let sarif = render_sarif_report("empty", "now", &Vec::new(), &Vec::new());
    assert!(sarif.contains("\"results\": []"));
    assert!(sarif.contains("\"name\": \"Axion\""));
    assert!(!sarif.contains("\"rules\""));
    assert!(!sarif.contains("\"artifacts\""));
    assert!(!sarif.contains("informationUri"));
}

#[test]
fn severity_ranks_and_levels() {
    assert_eq!(severity_rank("critical"), 4);
    assert_eq!(severity_rank("HIGH"), 3);
    assert_eq!(severity_rank("Medium"), 2);
    assert_eq!(severity_rank("moderate"), 2);
    assert_eq!(severity_rank("low"), 1);
    assert_eq!(severity_rank("informational"), 0);
    assert_eq!(severity_rank("info"), 0);
    assert_eq!(severity_rank("note"), 0);
    assert_eq!(severity_rank("anything"), 0);
    assert_eq!(severity_rank(""), 0);
    assert_eq!(rank_of_lowered("HIGH"), 0);
    assert_eq!(rank_of_lowered("high"), 3);
    assert_eq!(sarif_level("Critical"), "error");
    assert_eq!(sarif_level("high"), "error");
    assert_eq!(sarif_level("MODERATE"), "warning");
    assert_eq!(sarif_level("medium"), "warning");
    assert_eq!(sarif_level("low"), "note");
    assert_eq!(sarif_level("unknown"), "note");
    assert_eq!(level_of_lowered("HIGH"), "note");
}

#[test]
fn scan_results_out_of_json() {
    let json = scan(vec![finding("f1", "asset://host/a", 80, "low", "one")]);
    let back = scan_of_json(&json).expect("a scan result");
    assert_eq!(back.tool, "nmap");
    assert_eq!(back.findings.len(), 1);
    assert_eq!(back.findings[0].port, 80);
    assert_eq!(back.findings[0].service.as_deref(), Some("http"));
    assert!(scan_of_json(&asset_group()).is_none());
    assert!(scan_of_json(&Json::Null).is_none());
    assert!(scan_of_json(&Json::Array(Vec::new())).is_none());

    let mut members = Vec::new();
    member(&mut members, "assets", Json::Array(Vec::new()));
    member(&mut members, "findings", Json::Array(vec![{
        let mut f = Vec::new();
        member(&mut f, "asset_id", text("a"));
        member(&mut f, "description", text("d"));
        member(&mut f, "id", text("i"));
        member(&mut f, "port", Json::Integer(70000));
        member(&mut f, "protocol", text("tcp"));
        member(&mut f, "severity", text("low"));
        member(&mut f, "state", text("open"));
        member(&mut f, "title", text("t"));
        object(f)
    }]));
    member(&mut members, "raw_xml", text(""));
    member(&mut members, "target", text("t"));
    member(&mut members, "tool", text("x"));
    assert!(scan_of_json(&object(members)).is_none());
}

#[test]
fn finding_without_service_and_evidence() {
    let mut f = Vec::new();
    member(&mut f, "asset_id", text("a"));
    member(&mut f, "description", text("d"));
    member(&mut f, "id", text("i"));
    member(&mut f, "port", Json::Integer(65535));
    member(&mut f, "protocol", text("tcp"));
    member(&mut f, "severity", text("low"));
    member(&mut f, "state", text("open"));
    member(&mut f, "title", text("t"));
    let mut members = Vec::new();
    member(&mut members, "assets", Json::Array(Vec::new()));
    member(&mut members, "findings", Json::Array(vec![object(f)]));
    member(&mut members, "raw_xml", text(""));
    member(&mut members, "target", text("t"));
    member(&mut members, "tool", text("x"));
    let back = scan_of_json(&object(members)).expect("a scan result");
    assert_eq!(back.findings[0].port, 65535);
    assert_eq!(back.findings[0].service, None);
    assert!(back.findings[0].evidence.is_empty());
}

#[test]
fn html_escapes_what_it_shows() {
    assert_eq!(escape_html("a & b < c > d \"e\" 'f'"), "a &amp; b &lt; c &gt; d &quot;e&quot; &#39;f&#39;");
    assert_eq!(escape_html(""), "");
    assert_eq!(escape_html("plain"), "plain");
}

#[test]
fn html_report_of_nothing() {
    let html = render_html_report("T <1>", "now", &Vec::new(), &Vec::new());
    assert!(html.starts_with("<!DOCTYPE html>\n<html lang=\"en\">\n<head>\n<meta charset=\"utf-8\" />\n"));
    assert!(html.contains("<title>Axion Report \u{e2}\u{20ac}\u{201c} T &lt;1&gt;</title>\n"));
    assert!(html.contains("<header><h1>Axion Report: T &lt;1&gt;</h1><p>Generated at now</p></header>\n<main>\n<section><p>No artifacts were included in this report.</p></section></main>\n"));
    assert!(html.ends_with("<footer>Generated by axion-core</footer>\n</body>\n</html>"));
    assert!(html.contains("<style>body{font-family:system-ui,"));
    assert!(html.contains("font-size:13px;}</style>\n</head>\n<body>\n"));
}

fn table() -> TableArtifact {
    let json = scan(vec![
        finding("f1", "asset://host/a", 80, "low", "one"),
        finding("f2", "asset://host/b", 443, "high", "two | three"),
    ]);
    build_table_from_scan(&json).expect("a table")
}

#[test]
fn table_of_findings() {
    let table = table();
    assert_eq!(
        table.columns,
        vec!["asset_id", "port", "protocol", "service", "state", "severity", "description"]
    );
    assert_eq!(table.rows.len(), 2);
    let keys: Vec<&str> = table.rows[0].iter().map(|cell| cell.0.as_str()).collect();
    assert_eq!(
        keys,
        vec!["asset_id", "description", "port", "protocol", "service", "severity", "state"]
    );
    assert!(build_table_from_scan(&scan(Vec::new())).is_none());
    assert!(build_table_from_scan(&asset_group()).is_none());
    assert!(build_table_from_scan(&Json::Null).is_none());
}

#[test]
fn table_row_of_something_that_is_no_finding() {
    let mut members = Vec::new();
    member(&mut members, "findings", Json::Array(vec![Json::Integer(1)]));
    let table = build_table_from_scan(&object(members)).expect("a table");
    assert_eq!(table.rows.len(), 1);
    assert!(table.rows[0].iter().all(|cell| matches!(cell.1, Json::Null)));
}

#[test]
fn html_report_with_a_table() {
    let includes = vec![("scan \"x\"".to_string(), Json::Bool(true))];
    let tables = vec![("scan \"x\"".to_string(), table())];
    let html = render_html_report("t", "now", &includes, &tables);
    assert!(html.contains("<section><h2>scan &quot;x&quot;</h2><table><thead><tr><th>asset_id</th><th>port</th><th>protocol</th><th>service</th><th>state</th><th>severity</th><th>description</th></tr></thead><tbody><tr><td>asset://host/a</td><td>80</td><td>tcp</td><td>http</td><td>open</td><td>low</td><td>port 80 is open</td></tr><tr>"));
    assert!(html.contains("</tbody></table><details><summary>Raw JSON</summary><pre><code>true</code></pre></details></section>\n</main>"));
    assert!(!html.contains("No artifacts were included"));
}

#[test]
fn markdown_report_with_a_table() {
    let includes = vec![
        ("asset_group:corp".to_string(), asset_group()),
        ("scan_x".to_string(), Json::Null),
    ];
    let tables = vec![("scan_x".to_string(), table())];
    let markdown = render_markdown_report("Weekly", "now", &includes, &tables);
    let expected = "# Axion Report\n\n**Title:** Weekly\n\n_Generated at now_\n\n## asset_group:corp\n\n```json\n{\n  \"name\": \"corp\",\n  \"properties\": {\n    \"scope\": \"demo\"\n  }\n}\n```\n\n## scan_x\n\n| asset_id | port | protocol | service | state | severity | description |\n| --- | --- | --- | --- | --- | --- | --- |\n| asset://host/a | 80 | tcp | http | open | low | port 80 is open |\n| asset://host/b | 443 | tcp | http | open | high | port 443 is open |\n\n```json\nnull\n```\n\n";
    assert_eq!(markdown, expected);
}

#[test]
fn markdown_report_of_nothing() {
    assert_eq!(
        render_markdown_report("t", "now", &Vec::new(), &Vec::new()),
        "# Axion Report\n\n**Title:** t\n\n_Generated at now_\n\nNo artifacts were included in this report.\n"
    );
}

#[test]
fn markdown_cells() {
    let cell: String = sanitize_markdown_cell(&"a|b\nc".chars().collect()).into_iter().collect();
    assert_eq!(cell, "a\\|b<br>c");
}

#[test]
fn cells_show_values() {
    let shown = |value: Option<&Json>| -> String { value_to_string(value).into_iter().collect() };
    assert_eq!(shown(None), "");
    assert_eq!(shown(Some(&Json::Null)), "");
    assert_eq!(shown(Some(&text("plain"))), "plain");
    assert_eq!(shown(Some(&Json::Integer(-42))), "-42");
    assert_eq!(shown(Some(&Json::Bool(false))), "false");
    assert_eq!(shown(Some(&Json::Decimal("1.50".to_string()))), "1.5");
    assert_eq!(shown(Some(&Json::Array(vec![Json::Integer(1), text("a\"b")]))), "[1,\"a\\\"b\"]");
    assert_eq!(shown(Some(&asset_group())), "{\"name\":\"corp\",\"properties\":{\"scope\":\"demo\"}}");
}

#[test]
fn console_table() {
    let table = TableArtifact {
        columns: vec!["port".to_string(), "state".to_string()],
        rows: vec![
            vec![("port".to_string(), Json::Integer(80)), ("state".to_string(), text("open"))],
            vec![("port".to_string(), Json::Integer(443))],
        ],
    };
    assert_eq!(
        render_table(&table),
        "+------+-------+\n| port | state |\n+==============+\n| 80   | open  |\n|------+-------|\n| 443  |       |\n+------+-------+"
    );
}

const NMAP_XML: &str = "<?xml version=\"1.0\"?>\n<nmaprun>\n<host>\n<address addr=\"10.0.0.5\" addrtype=\"ipv4\"/>\n<address addr=\"AA:BB\"/>\n<address addrtype=\"none\"/>\n<hostnames><hostname name=\"web.test\"/><hostname name=\"alias.test\"></hostname></hostnames>\n<ports>\n<port protocol=\"tcp\" portid=\"22\"><state state=\"open\"></state><service name=\"ssh\" product=\"OpenSSH\"></service></port>\n<port protocol=\"tcp\" portid=\"80\"><state state=\"filtered\"></state></port>\n<port portid=\"notaport\"><state state=\"open\"></state></port>\n<port protocol=\"udp\" portid=\"53\"><state state=\"open\"/></port>\n</ports>\n</host>\n<host><ports><port portid=\"25\"><state state=\"open\"></state></port></ports></host>\n<host><address addr=\"10.0.0.6\"/></host>\n</nmaprun>\n";

#[test]
fn nmap_xml_becomes_assets_and_findings() {
    let scan = parse_nmap_xml(&NMAP_XML.as_bytes().to_vec(), "10.0.0.0/24").expect("a scan");
    assert_eq!(scan.tool, "nmap");
    assert_eq!(scan.target, "10.0.0.0/24");
    assert_eq!(scan.raw_xml, NMAP_XML);
    assert_eq!(scan.assets.len(), 2);
    assert_eq!(scan.assets[0].id, "asset://host/10.0.0.5");
    assert_eq!(scan.assets[0].addresses, vec!["10.0.0.5", "AA:BB"]);
    assert_eq!(scan.assets[0].hostnames, vec!["web.test", "alias.test"]);
    assert!(scan.assets[0].labels.is_empty());
    assert_eq!(scan.assets[1].id, "asset://host/10.0.0.6");
    assert_eq!(scan.findings.len(), 3);
    let first = &scan.findings[0];
    assert_eq!(first.id, "finding://10.0.0.5/tcp-22");
    assert_eq!(first.asset_id, "asset://host/10.0.0.5");
    assert_eq!(first.port, 22);
    assert_eq!(first.protocol, "tcp");
    assert_eq!(first.state, "open");
    assert_eq!(first.service.as_deref(), Some("ssh"));
    assert_eq!(first.title, "10.0.0.5:22 tcp open");
    assert_eq!(first.description, "Port 22 tcp is open on asset 10.0.0.5 with service Some(\"ssh\")");
    assert_eq!(first.severity, "informational");
    let keys: Vec<&str> = first.evidence.iter().map(|e| e.0.as_str()).collect();
    assert_eq!(keys, vec!["port", "service", "state"]);
    let second = &scan.findings[1];
    assert_eq!(second.id, "finding://10.0.0.5/tcp-0");
    assert_eq!(second.port, 0);
    assert_eq!(second.service, None);
    assert_eq!(second.description, "Port 0 tcp is open on asset 10.0.0.5 with service None");
    let third = &scan.findings[2];
    assert_eq!(third.id, "finding://10.0.0.5/udp-53");
    assert_eq!(third.port, 53);
    assert_eq!(third.protocol, "udp");
    assert_eq!(third.state, "open");
    assert_eq!(third.service, None);
}

#[test]
fn nmap_tags_without_content_count_as_tags_with_content() {
    let xml = "<nmaprun><host><address addr='10.0.0.2' addrtype='ipv4'/><ports><port protocol='tcp' portid='443'><state state='open'/><service name='https'/></port></ports></host></nmaprun>";
    let scan = parse_nmap_xml(&xml.as_bytes().to_vec(), "t").expect("a scan");
    assert_eq!(scan.assets.len(), 1);
    assert_eq!(scan.assets[0].id, "asset://host/10.0.0.2");
    assert_eq!(scan.findings.len(), 1);
    assert_eq!(scan.findings[0].id, "finding://10.0.0.2/tcp-443");
    assert_eq!(scan.findings[0].asset_id, "asset://host/10.0.0.2");
    assert_eq!(scan.findings[0].service.as_deref(), Some("https"));
    assert_eq!(scan.findings[0].state, "open");

    // the same document with each tag opened and closed
    let long = "<nmaprun><host><address addr='10.0.0.2' addrtype='ipv4'></address><ports><port protocol='tcp' portid='443'><state state='open'></state><service name='https'></service></port></ports></host></nmaprun>";
    let same = parse_nmap_xml(&long.as_bytes().to_vec(), "t").expect("a scan");
    assert_eq!(same.findings.len(), 1);
    assert_eq!(same.findings[0].id, scan.findings[0].id);
    assert_eq!(same.findings[0].service, scan.findings[0].service);

    // a port and a host without content are opened and closed at once
    let bare = "<nmaprun><host/><host><address addr='10.0.0.3'/><ports><port protocol='tcp' portid='80'/><port protocol='tcp' portid='81'><state state='closed'/></port></ports></host></nmaprun>";
    let none = parse_nmap_xml(&bare.as_bytes().to_vec(), "t").expect("a scan");
    assert_eq!(none.assets.len(), 1);
    assert_eq!(none.assets[0].id, "asset://host/10.0.0.3");
    assert!(none.findings.is_empty());
}

#[test]
fn nmap_xml_that_is_broken() {
    match parse_nmap_xml(&b"<nmaprun><host></nmaprun>".to_vec(), "t") {
        Err(message) => assert!(message.starts_with("XML parsing error: "), "{}", message),
        Ok(scan) => panic!("unexpected scan {:?}", scan),
    }
    let empty = parse_nmap_xml(&Vec::new(), "t").expect("a scan");
    assert!(empty.assets.is_empty());
    assert!(empty.findings.is_empty());
}

fn element(name: &str, attributes: &[(&str, &str)]) -> XmlEvent {
    XmlEvent::Element {
        empty: false,
        name: name.to_string(),
        attributes: attributes.iter().map(|(k, v)| Some((k.to_string(), v.to_string()))).collect(),
    }
}

fn end(name: &str) -> XmlEvent {
    XmlEvent::End { name: name.to_string() }
}

#[test]
fn hosts_out_of_events() {
    let events = vec![
        element("address", &[("addr", "ignored")]),
        element("host", &[]),
        XmlEvent::Element {
            empty: true,
            name: "address".to_string(),
            attributes: vec![
                None,
                Some(("addr".to_string(), "first".to_string())),
                Some(("addr".to_string(), "10.1.1.1".to_string())),
            ],
        },
        element("port", &[("portid", "70000"), ("portid", "+8080"), ("portid", "x")]),
        element("state", &[("state", "open")]),
        element("service", &[("name", "http-alt")]),
        XmlEvent::Other,
        end("port"),
        XmlEvent::Element { empty: true, name: "port".to_string(), attributes: Vec::new() },
        end("port"),
        end("host"),
        end("host"),
        XmlEvent::Eof,
        element("host", &[]),
        end("host"),
    ];
    let hosts = hosts_from_events(&events).expect("hosts");
    assert_eq!(hosts.len(), 1);
    assert_eq!(hosts[0].addresses, vec![("10.1.1.1".to_string(), "unknown".to_string())]);
    assert_eq!(hosts[0].ports.len(), 2);
    assert_eq!(hosts[0].ports[0].port, Some(8080));
    assert_eq!(hosts[0].ports[0].protocol, None);
    assert_eq!(hosts[0].ports[1].port, None);
    assert_eq!(hosts[0].ports[1].state, None);
    let scan = scan_from_hosts(&hosts, "t", "raw".to_string());
    assert_eq!(scan.findings.len(), 1);
    assert_eq!(scan.findings[0].id, "finding://10.1.1.1/tcp-8080");
    assert_eq!(scan.raw_xml, "raw");

    let empty = |name: &str, attributes: &[(&str, &str)]| match element(name, attributes) {
        XmlEvent::Element { name, attributes, .. } => {
            XmlEvent::Element { empty: true, name, attributes }
        }
        other => other,
    };
    let short = vec![
        element("host", &[]),
        empty("address", &[("addr", "10.1.1.2")]),
        element("port", &[("protocol", "udp"), ("portid", "53")]),
        empty("state", &[("state", "open")]),
        empty("service", &[("name", "domain")]),
        end("port"),
        end("host"),
        empty("host", &[]),
    ];
    let hosts = hosts_from_events(&short).expect("hosts");
    assert_eq!(hosts.len(), 2);
    assert_eq!(hosts[0].ports[0].state.as_deref(), Some("open"));
    assert_eq!(hosts[0].ports[0].service.as_deref(), Some("domain"));
    assert!(hosts[1].addresses.is_empty());
    let scan = scan_from_hosts(&hosts, "t", String::new());
    assert_eq!(scan.assets.len(), 1);
    assert_eq!(scan.findings.len(), 1);
    assert_eq!(scan.findings[0].id, "finding://10.1.1.2/udp-53");
    assert_eq!(scan.findings[0].service.as_deref(), Some("domain"));

    let failed = hosts_from_events(&vec![element("host", &[]), XmlEvent::Failed("bad".to_string())]);
    assert_eq!(failed.err().as_deref(), Some("XML parsing error: bad"));
    assert!(hosts_from_events(&Vec::new()).expect("hosts").is_empty());
}

#[test]
fn port_numbers() {
    assert_eq!(parse_port("0"), Some(0));
    assert_eq!(parse_port("080"), Some(80));
    assert_eq!(parse_port("+443"), Some(443));
    assert_eq!(parse_port("65535"), Some(65535));
    assert_eq!(parse_port("65536"), None);
    assert_eq!(parse_port("99999999999999999999"), None);
    assert_eq!(parse_port(""), None);
    assert_eq!(parse_port("+"), None);
    assert_eq!(parse_port("-1"), None);
    assert_eq!(parse_port("8o"), None);
    assert_eq!(parse_port(" 80"), None);
}
