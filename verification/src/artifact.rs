//! The artifacts of a run: what steps produce and later steps, chiefly
//! reports, take up by name. Each has a typed form and a JSON form.

use crate::json::{lemma_array_view, lemma_object_view, Json, JsonView};
use crate::scenario::{copy_list, copy_option};
use vstd::prelude::*;

verus! {

/// The kind of step that produced an artifact.
#[derive(Clone, Copy, Debug, PartialEq, Eq, Structural)]
pub enum ArtifactKind {
    AssetGroup,
    Scan,
    Script,
    Report,
}

/// An artifact as the run keeps it: a name, a kind, the file it was written
/// to, and its JSON form.
#[derive(Debug)]
pub struct StoredArtifact {
    pub name: String,
    pub kind: ArtifactKind,
    pub path: Option<String>,
    pub data: Json,
}

/// The mathematical value of a `StoredArtifact`.
pub struct ArtifactView {
    pub name: Seq<char>,
    pub kind: ArtifactKind,
    pub path: Option<Seq<char>>,
    pub data: JsonView,
}

impl DeepView for StoredArtifact {
    type V = ArtifactView;

    open spec fn deep_view(&self) -> ArtifactView {
        ArtifactView {
            name: self.name@,
            kind: self.kind,
            path: self.path.deep_view(),
            data: self.data.deep_view(),
        }
    }
}

impl StoredArtifact {
    /// A copy of the artifact.
    pub fn copy(&self) -> (r: StoredArtifact)
        ensures
            r.deep_view() == self.deep_view(),
    {
        StoredArtifact {
            name: self.name.clone(),
            kind: self.kind,
            path: copy_option(&self.path),
            data: self.data.copy(),
        }
    }
}

/// A host that a scan has seen: an identifier, its addresses and names, and
/// free labels.
#[derive(Debug)]
pub struct Asset {
    pub id: String,
    pub addresses: Vec<String>,
    pub hostnames: Vec<String>,
    pub labels: Vec<(String, String)>,
}

/// The mathematical value of an `Asset`.
pub struct AssetView {
    pub id: Seq<char>,
    pub addresses: Seq<Seq<char>>,
    pub hostnames: Seq<Seq<char>>,
    pub labels: Seq<(Seq<char>, Seq<char>)>,
}

impl DeepView for Asset {
    type V = AssetView;

    open spec fn deep_view(&self) -> AssetView {
        AssetView {
            id: self.id@,
            addresses: self.addresses.deep_view(),
            hostnames: self.hostnames.deep_view(),
            labels: self.labels.deep_view(),
        }
    }
}

/// An open port on an asset.
#[derive(Debug)]
pub struct Finding {
    pub id: String,
    pub asset_id: String,
    pub port: u16,
    pub protocol: String,
    pub state: String,
    pub service: Option<String>,
    pub title: String,
    pub description: String,
    pub severity: String,
    pub evidence: Vec<(String, Json)>,
}

/// The mathematical value of a `Finding`.
pub struct FindingView {
    pub id: Seq<char>,
    pub asset_id: Seq<char>,
    pub port: u16,
    pub protocol: Seq<char>,
    pub state: Seq<char>,
    pub service: Option<Seq<char>>,
    pub title: Seq<char>,
    pub description: Seq<char>,
    pub severity: Seq<char>,
    pub evidence: Seq<(Seq<char>, JsonView)>,
}

impl DeepView for Finding {
    type V = FindingView;

    open spec fn deep_view(&self) -> FindingView {
        FindingView {
            id: self.id@,
            asset_id: self.asset_id@,
            port: self.port,
            protocol: self.protocol@,
            state: self.state@,
            service: self.service.deep_view(),
            title: self.title@,
            description: self.description@,
            severity: self.severity@,
            evidence: self.evidence.deep_view(),
        }
    }
}

/// The result of a scan: the assets and the findings, and the XML they were
/// read from.
#[derive(Debug)]
pub struct ScanArtifacts {
    pub tool: String,
    pub target: String,
    pub assets: Vec<Asset>,
    pub findings: Vec<Finding>,
    pub raw_xml: String,
}

/// The mathematical value of a `ScanArtifacts`.
pub struct ScanView {
    pub tool: Seq<char>,
    pub target: Seq<char>,
    pub assets: Seq<AssetView>,
    pub findings: Seq<FindingView>,
    pub raw_xml: Seq<char>,
}

impl DeepView for ScanArtifacts {
    type V = ScanView;

    open spec fn deep_view(&self) -> ScanView {
        ScanView {
            tool: self.tool@,
            target: self.target@,
            assets: self.assets.deep_view(),
            findings: self.findings.deep_view(),
            raw_xml: self.raw_xml@,
        }
    }
}

/// The result of a script: its command line, what it wrote, how it ended and
/// how long it took.
#[derive(Debug)]
pub struct ScriptArtifact {
    pub name: String,
    pub command: Vec<String>,
    pub stdout: String,
    pub stderr: String,
    pub exit_code: Option<i32>,
    pub started_at: String,
    pub duration_ms: u64,
}

/// The mathematical value of a `ScriptArtifact`.
pub struct ScriptView {
    pub name: Seq<char>,
    pub command: Seq<Seq<char>>,
    pub stdout: Seq<char>,
    pub stderr: Seq<char>,
    pub exit_code: Option<i32>,
    pub started_at: Seq<char>,
    pub duration_ms: u64,
}

impl DeepView for ScriptArtifact {
    type V = ScriptView;

    open spec fn deep_view(&self) -> ScriptView {
        ScriptView {
            name: self.name@,
            command: self.command.deep_view(),
            stdout: self.stdout@,
            stderr: self.stderr@,
            exit_code: self.exit_code,
            started_at: self.started_at@,
            duration_ms: self.duration_ms,
        }
    }
}

/// An asset group with its properties resolved.
#[derive(Debug)]
pub struct AssetGroupArtifact {
    pub name: String,
    pub properties: Vec<(String, String)>,
}

/// The mathematical value of an `AssetGroupArtifact`.
pub struct AssetGroupView {
    pub name: Seq<char>,
    pub properties: Seq<(Seq<char>, Seq<char>)>,
}

impl DeepView for AssetGroupArtifact {
    type V = AssetGroupView;

    open spec fn deep_view(&self) -> AssetGroupView {
        AssetGroupView { name: self.name@, properties: self.properties.deep_view() }
    }
}

/// A table of findings: the names of the columns, and one table of cells
/// for each row.
#[derive(Debug)]
pub struct TableArtifact {
    pub columns: Vec<String>,
    pub rows: Vec<Vec<(String, Json)>>,
}

/// The mathematical value of a `TableArtifact`.
pub struct TableView {
    pub columns: Seq<Seq<char>>,
    pub rows: Seq<Seq<(Seq<char>, JsonView)>>,
}

impl DeepView for TableArtifact {
    type V = TableView;

    open spec fn deep_view(&self) -> TableView {
        TableView { columns: self.columns.deep_view(), rows: self.rows.deep_view() }
    }
}

/// A report: what it includes, the tables of its scans, and where it was
/// written.
#[derive(Debug)]
pub struct ReportArtifact {
    pub target: String,
    pub format: String,
    pub generated_at: String,
    pub includes: Vec<(String, Json)>,
    pub tables: Vec<(String, TableArtifact)>,
    pub output_path: Option<String>,
    pub options: Vec<(String, String)>,
}

/// The mathematical value of a `ReportArtifact`.
pub struct ReportView {
    pub target: Seq<char>,
    pub format: Seq<char>,
    pub generated_at: Seq<char>,
    pub includes: Seq<(Seq<char>, JsonView)>,
    pub tables: Seq<(Seq<char>, TableView)>,
    pub output_path: Option<Seq<char>>,
    pub options: Seq<(Seq<char>, Seq<char>)>,
}

impl DeepView for ReportArtifact {
    type V = ReportView;

    open spec fn deep_view(&self) -> ReportView {
        ReportView {
            target: self.target@,
            format: self.format@,
            generated_at: self.generated_at@,
            includes: self.includes.deep_view(),
            tables: self.tables.deep_view(),
            output_path: self.output_path.deep_view(),
            options: self.options.deep_view(),
        }
    }
}

// ---------------------------------------------------------------------------
// JSON forms
// ---------------------------------------------------------------------------

/// The JSON array of the strings.
pub open spec fn texts_json(list: Seq<Seq<char>>) -> JsonView {
    JsonView::List(Seq::new(list.len(), |i: int| JsonView::Text(list[i])))
}

/// The JSON object of a table of strings.
pub open spec fn table_json(table: Seq<(Seq<char>, Seq<char>)>) -> JsonView {
    JsonView::Record(Seq::new(table.len(), |i: int| (table[i].0, JsonView::Text(table[i].1))))
}

/// The JSON string, or `null` where there is none.
pub open spec fn optional_text_json(text: Option<Seq<char>>) -> JsonView {
    match text {
        Some(t) => JsonView::Text(t),
        None => JsonView::Null,
    }
}

/// The JSON number of an exit code, or `null` where there is none.
pub open spec fn optional_code_json(code: Option<i32>) -> JsonView {
    match code {
        Some(c) => JsonView::Integer(c as int),
        None => JsonView::Null,
    }
}

/// The JSON array of the strings.
pub fn strings_to_json(list: &Vec<String>) -> (r: Json)
    ensures
        r.deep_view() == texts_json(list.deep_view()),
{
    let mut out: Vec<Json> = Vec::new();
    let mut i: usize = 0;
    while i < list.len()
        invariant
            i <= list.len(),
            out.deep_view() == Seq::new(i as nat, |k: int| JsonView::Text(list.deep_view()[k])),
        decreases list.len() - i,
    {
        let item = Json::String(list[i].clone());
        let ghost before = out.deep_view();
        out.push(item);
        assert(out.deep_view() =~= before.push(item.deep_view()));
        assert(list.deep_view()[i as int] == list[i as int]@);
        assert(out.deep_view() =~= Seq::new(
            (i + 1) as nat,
            |k: int| JsonView::Text(list.deep_view()[k]),
        ));
        i += 1;
    }
    proof {
        lemma_array_view(out);
    }
    Json::Array(out)
}

/// The JSON object of a table of strings.
pub fn table_to_json(table: &Vec<(String, String)>) -> (r: Json)
    ensures
        r.deep_view() == table_json(table.deep_view()),
{
    let mut out: Vec<(String, Json)> = Vec::new();
    let mut i: usize = 0;
    while i < table.len()
        invariant
            i <= table.len(),
            out.deep_view() == Seq::new(
                i as nat,
                |k: int| (table.deep_view()[k].0, JsonView::Text(table.deep_view()[k].1)),
            ),
        decreases table.len() - i,
    {
        let key = table[i].0.clone();
        let item = Json::String(table[i].1.clone());
        let ghost before = out.deep_view();
        out.push((key, item));
        assert(out.deep_view() =~= before.push((key@, item.deep_view())));
        assert(table.deep_view()[i as int] == (table[i as int].0@, table[i as int].1@));
        assert(out.deep_view() =~= Seq::new(
            (i + 1) as nat,
            |k: int| (table.deep_view()[k].0, JsonView::Text(table.deep_view()[k].1)),
        ));
        i += 1;
    }
    proof {
        lemma_object_view(out);
    }
    Json::Object(out)
}

/// The JSON string, or `null` where there is none.
pub fn optional_text_to_json(text: &Option<String>) -> (r: Json)
    ensures
        r.deep_view() == optional_text_json(text.deep_view()),
{
    match text {
        Some(t) => Json::String(t.clone()),
        None => Json::Null,
    }
}

/// The JSON number of an exit code, or `null` where there is none.
pub fn optional_code_to_json(code: Option<i32>) -> (r: Json)
    ensures
        r.deep_view() == optional_code_json(code),
{
    match code {
        Some(c) => Json::Integer(c as i128),
        None => Json::Null,
    }
}

/// Puts a member behind the members of an object under construction.
pub fn member(members: &mut Vec<(String, Json)>, key: &str, value: Json)
    ensures
        final(members).deep_view() == old(members).deep_view().push((key@, value.deep_view())),
{
    let ghost before = members.deep_view();
    let ghost view = value.deep_view();
    members.push((String::from_str(key), value));
    assert(members.deep_view() =~= before.push((key@, view)));
}

/// The object with the members.
pub fn object(members: Vec<(String, Json)>) -> (r: Json)
    ensures
        r.deep_view() == JsonView::Record(members.deep_view()),
{
    proof {
        lemma_object_view(members);
    }
    Json::Object(members)
}

/// The array with the items.
pub fn array(items: Vec<Json>) -> (r: Json)
    ensures
        r.deep_view() == JsonView::List(items.deep_view()),
{
    proof {
        lemma_array_view(items);
    }
    Json::Array(items)
}

/// Copies of the members of an object.
pub fn copy_members(members: &Vec<(String, Json)>) -> (r: Vec<(String, Json)>)
    ensures
        r.deep_view() == members.deep_view(),
{
    let mut out: Vec<(String, Json)> = Vec::new();
    let mut i: usize = 0;
    while i < members.len()
        invariant
            i <= members.len(),
            out.deep_view() == members.deep_view().take(i as int),
        decreases members.len() - i,
    {
        let key = members[i].0.clone();
        let item = members[i].1.copy();
        let ghost before = out.deep_view();
        out.push((key, item));
        assert(out.deep_view() =~= before.push((key@, item.deep_view())));
        assert(members.deep_view().take(i + 1) =~= members.deep_view().take(i as int).push(
            (members[i as int].0@, members[i as int].1.deep_view()),
        ));
        i += 1;
    }
    assert(members.deep_view().take(members.len() as int) =~= members.deep_view());
    out
}

/// The JSON form of an asset group.
pub open spec fn asset_group_json(group: AssetGroupView) -> JsonView {
    JsonView::Record(
        seq![("name"@, JsonView::Text(group.name)), ("properties"@, table_json(group.properties))],
    )
}

impl AssetGroupArtifact {
    /// The JSON form of the asset group.
    pub fn to_json(&self) -> (r: Json)
        ensures
            r.deep_view() == asset_group_json(self.deep_view()),
    {
        let mut members: Vec<(String, Json)> = Vec::new();
        assert(members.deep_view() =~= Seq::empty());
        member(&mut members, "name", Json::String(self.name.clone()));
        member(&mut members, "properties", table_to_json(&self.properties));
        assert(members.deep_view() =~= seq![
            ("name"@, JsonView::Text(self.name@)),
            ("properties"@, table_json(self.properties.deep_view())),
        ]);
        object(members)
    }
}

/// The JSON form of the result of a script.
pub open spec fn script_json(script: ScriptView) -> JsonView {
    JsonView::Record(
        seq![
            ("command"@, texts_json(script.command)),
            ("duration_ms"@, JsonView::Integer(script.duration_ms as int)),
            ("exit_code"@, optional_code_json(script.exit_code)),
            ("name"@, JsonView::Text(script.name)),
            ("started_at"@, JsonView::Text(script.started_at)),
            ("stderr"@, JsonView::Text(script.stderr)),
            ("stdout"@, JsonView::Text(script.stdout)),
        ],
    )
}

impl ScriptArtifact {
    /// The JSON form of the result.
    pub fn to_json(&self) -> (r: Json)
        ensures
            r.deep_view() == script_json(self.deep_view()),
    {
        let mut members: Vec<(String, Json)> = Vec::new();
        assert(members.deep_view() =~= Seq::empty());
        member(&mut members, "command", strings_to_json(&self.command));
        member(&mut members, "duration_ms", Json::Integer(self.duration_ms as i128));
        member(&mut members, "exit_code", optional_code_to_json(self.exit_code));
        member(&mut members, "name", Json::String(self.name.clone()));
        member(&mut members, "started_at", Json::String(self.started_at.clone()));
        member(&mut members, "stderr", Json::String(self.stderr.clone()));
        member(&mut members, "stdout", Json::String(self.stdout.clone()));
        assert(members.deep_view() =~= script_json(self.deep_view())->Record_0);
        object(members)
    }
}

/// The JSON form of the result of a scan by a tool that the library does
/// not know.
pub open spec fn tool_run_json(
    tool: Seq<char>,
    params: Seq<(Seq<char>, Seq<char>)>,
    invocation: Seq<Seq<char>>,
    stdout: Seq<char>,
    stderr: Seq<char>,
    exit_code: Option<i32>,
    started_at: Seq<char>,
    duration_ms: u64,
) -> JsonView {
    JsonView::Record(
        seq![
            ("duration_ms"@, JsonView::Integer(duration_ms as int)),
            ("exit_code"@, optional_code_json(exit_code)),
            ("invocation"@, texts_json(invocation)),
            ("params"@, table_json(params)),
            ("started_at"@, JsonView::Text(started_at)),
            ("stderr"@, JsonView::Text(stderr)),
            ("stdout"@, JsonView::Text(stdout)),
            ("tool"@, JsonView::Text(tool)),
        ],
    )
}

/// The JSON form of the result of a scan by a tool that the library does not
/// know.
pub fn tool_run_to_json(
    tool: &String,
    params: &Vec<(String, String)>,
    invocation: &Vec<String>,
    stdout: &String,
    stderr: &String,
    exit_code: Option<i32>,
    started_at: &String,
    duration_ms: u64,
) -> (r: Json)
    ensures
        r.deep_view() == tool_run_json(
            tool@,
            params.deep_view(),
            invocation.deep_view(),
            stdout@,
            stderr@,
            exit_code,
            started_at@,
            duration_ms,
        ),
{
    let mut members: Vec<(String, Json)> = Vec::new();
    assert(members.deep_view() =~= Seq::empty());
    member(&mut members, "duration_ms", Json::Integer(duration_ms as i128));
    member(&mut members, "exit_code", optional_code_to_json(exit_code));
    member(&mut members, "invocation", strings_to_json(invocation));
    member(&mut members, "params", table_to_json(params));
    member(&mut members, "started_at", Json::String(started_at.clone()));
    member(&mut members, "stderr", Json::String(stderr.clone()));
    member(&mut members, "stdout", Json::String(stdout.clone()));
    member(&mut members, "tool", Json::String(tool.clone()));
    assert(members.deep_view() =~= tool_run_json(
        tool@,
        params.deep_view(),
        invocation.deep_view(),
        stdout@,
        stderr@,
        exit_code,
        started_at@,
        duration_ms,
    )->Record_0);
    object(members)
}

/// The JSON form of an asset.
pub open spec fn asset_json(asset: AssetView) -> JsonView {
    JsonView::Record(
        seq![
            ("addresses"@, texts_json(asset.addresses)),
            ("hostnames"@, texts_json(asset.hostnames)),
            ("id"@, JsonView::Text(asset.id)),
            ("labels"@, table_json(asset.labels)),
        ],
    )
}

/// The JSON form of a finding.
pub open spec fn finding_json(finding: FindingView) -> JsonView {
    JsonView::Record(
        seq![
            ("asset_id"@, JsonView::Text(finding.asset_id)),
            ("description"@, JsonView::Text(finding.description)),
            ("evidence"@, JsonView::Record(finding.evidence)),
            ("id"@, JsonView::Text(finding.id)),
            ("port"@, JsonView::Integer(finding.port as int)),
            ("protocol"@, JsonView::Text(finding.protocol)),
            ("service"@, optional_text_json(finding.service)),
            ("severity"@, JsonView::Text(finding.severity)),
            ("state"@, JsonView::Text(finding.state)),
            ("title"@, JsonView::Text(finding.title)),
        ],
    )
}

/// The JSON form of the result of a scan.
pub open spec fn scan_json(scan: ScanView) -> JsonView {
    JsonView::Record(
        seq![
            ("assets"@, JsonView::List(Seq::new(scan.assets.len(), |i: int| asset_json(scan.assets[i])))),
            (
                "findings"@,
                JsonView::List(Seq::new(scan.findings.len(), |i: int| finding_json(scan.findings[i]))),
            ),
            ("raw_xml"@, JsonView::Text(scan.raw_xml)),
            ("target"@, JsonView::Text(scan.target)),
            ("tool"@, JsonView::Text(scan.tool)),
        ],
    )
}

impl Asset {
    /// The JSON form of the asset.
    pub fn to_json(&self) -> (r: Json)
        ensures
            r.deep_view() == asset_json(self.deep_view()),
    {
        let mut members: Vec<(String, Json)> = Vec::new();
        assert(members.deep_view() =~= Seq::empty());
        member(&mut members, "addresses", strings_to_json(&self.addresses));
        member(&mut members, "hostnames", strings_to_json(&self.hostnames));
        member(&mut members, "id", Json::String(self.id.clone()));
        member(&mut members, "labels", table_to_json(&self.labels));
        assert(members.deep_view() =~= asset_json(self.deep_view())->Record_0);
        object(members)
    }
}

impl Finding {
    /// The JSON form of the finding.
    pub fn to_json(&self) -> (r: Json)
        ensures
            r.deep_view() == finding_json(self.deep_view()),
    {
        let mut members: Vec<(String, Json)> = Vec::new();
        assert(members.deep_view() =~= Seq::empty());
        member(&mut members, "asset_id", Json::String(self.asset_id.clone()));
        member(&mut members, "description", Json::String(self.description.clone()));
        member(&mut members, "evidence", object(copy_members(&self.evidence)));
        member(&mut members, "id", Json::String(self.id.clone()));
        member(&mut members, "port", Json::Integer(self.port as i128));
        member(&mut members, "protocol", Json::String(self.protocol.clone()));
        member(&mut members, "service", optional_text_to_json(&self.service));
        member(&mut members, "severity", Json::String(self.severity.clone()));
        member(&mut members, "state", Json::String(self.state.clone()));
        member(&mut members, "title", Json::String(self.title.clone()));
        assert(members.deep_view() =~= finding_json(self.deep_view())->Record_0);
        object(members)
    }
}

impl ScanArtifacts {
    /// The JSON form of the result.
    pub fn to_json(&self) -> (r: Json)
        ensures
            r.deep_view() == scan_json(self.deep_view()),
    {
        let mut assets: Vec<Json> = Vec::new();
        let mut i: usize = 0;
        while i < self.assets.len()
            invariant
                i <= self.assets.len(),
                assets.deep_view() == Seq::new(
                    i as nat,
                    |k: int| asset_json(self.assets.deep_view()[k]),
                ),
            decreases self.assets.len() - i,
        {
            let item = self.assets[i].to_json();
            let ghost before = assets.deep_view();
            assets.push(item);
            assert(assets.deep_view() =~= before.push(item.deep_view()));
            assert(self.assets.deep_view()[i as int] == self.assets[i as int].deep_view());
            assert(assets.deep_view() =~= Seq::new(
                (i + 1) as nat,
                |k: int| asset_json(self.assets.deep_view()[k]),
            ));
            i += 1;
        }
        let mut findings: Vec<Json> = Vec::new();
        let mut j: usize = 0;
        while j < self.findings.len()
            invariant
                j <= self.findings.len(),
                findings.deep_view() == Seq::new(
                    j as nat,
                    |k: int| finding_json(self.findings.deep_view()[k]),
                ),
            decreases self.findings.len() - j,
        {
            let item = self.findings[j].to_json();
            let ghost before = findings.deep_view();
            findings.push(item);
            assert(findings.deep_view() =~= before.push(item.deep_view()));
            assert(self.findings.deep_view()[j as int] == self.findings[j as int].deep_view());
            assert(findings.deep_view() =~= Seq::new(
                (j + 1) as nat,
                |k: int| finding_json(self.findings.deep_view()[k]),
            ));
            j += 1;
        }
        let mut members: Vec<(String, Json)> = Vec::new();
        assert(members.deep_view() =~= Seq::empty());
        member(&mut members, "assets", array(assets));
        member(&mut members, "findings", array(findings));
        member(&mut members, "raw_xml", Json::String(self.raw_xml.clone()));
        member(&mut members, "target", Json::String(self.target.clone()));
        member(&mut members, "tool", Json::String(self.tool.clone()));
        assert(members.deep_view() =~= scan_json(self.deep_view())->Record_0);
        object(members)
    }
}

/// The JSON array of the rows of a table.
pub open spec fn rows_json(rows: Seq<Seq<(Seq<char>, JsonView)>>) -> JsonView {
    JsonView::List(Seq::new(rows.len(), |i: int| JsonView::Record(rows[i])))
}

/// The JSON form of a table.
pub open spec fn table_artifact_json(table: TableView) -> JsonView {
    JsonView::Record(
        seq![("columns"@, texts_json(table.columns)), ("rows"@, rows_json(table.rows))],
    )
}

/// The JSON object of the tables of a report.
pub open spec fn tables_json(tables: Seq<(Seq<char>, TableView)>) -> JsonView {
    JsonView::Record(Seq::new(tables.len(), |i: int| (tables[i].0, table_artifact_json(tables[i].1))))
}

/// The JSON form of a report.
pub open spec fn report_json(report: ReportView) -> JsonView {
    JsonView::Record(
        seq![
            ("format"@, JsonView::Text(report.format)),
            ("generated_at"@, JsonView::Text(report.generated_at)),
            ("includes"@, JsonView::Record(report.includes)),
            ("options"@, table_json(report.options)),
            ("output_path"@, optional_text_json(report.output_path)),
            ("tables"@, tables_json(report.tables)),
            ("target"@, JsonView::Text(report.target)),
        ],
    )
}

impl TableArtifact {
    /// The JSON form of the table.
    pub fn to_json(&self) -> (r: Json)
        ensures
            r.deep_view() == table_artifact_json(self.deep_view()),
    {
        let mut rows: Vec<Json> = Vec::new();
        let mut i: usize = 0;
        while i < self.rows.len()
            invariant
                i <= self.rows.len(),
                rows.deep_view() == Seq::new(
                    i as nat,
                    |k: int| JsonView::Record(self.rows.deep_view()[k]),
                ),
            decreases self.rows.len() - i,
        {
            let item = object(copy_members(&self.rows[i]));
            let ghost before = rows.deep_view();
            rows.push(item);
            assert(rows.deep_view() =~= before.push(item.deep_view()));
            assert(self.rows.deep_view()[i as int] == self.rows[i as int].deep_view());
            assert(rows.deep_view() =~= Seq::new(
                (i + 1) as nat,
                |k: int| JsonView::Record(self.rows.deep_view()[k]),
            ));
            i += 1;
        }
        let mut members: Vec<(String, Json)> = Vec::new();
        assert(members.deep_view() =~= Seq::empty());
        member(&mut members, "columns", strings_to_json(&self.columns));
        member(&mut members, "rows", array(rows));
        assert(members.deep_view() =~= table_artifact_json(self.deep_view())->Record_0);
        object(members)
    }

    /// A copy of the table.
    pub fn copy(&self) -> (r: TableArtifact)
        ensures
            r.deep_view() == self.deep_view(),
    {
        let mut rows: Vec<Vec<(String, Json)>> = Vec::new();
        let mut i: usize = 0;
        while i < self.rows.len()
            invariant
                i <= self.rows.len(),
                rows.deep_view() == self.rows.deep_view().take(i as int),
            decreases self.rows.len() - i,
        {
            let item = copy_members(&self.rows[i]);
            let ghost before = rows.deep_view();
            rows.push(item);
            assert(rows.deep_view() =~= before.push(item.deep_view()));
            assert(self.rows.deep_view().take(i + 1) =~= self.rows.deep_view().take(i as int).push(
                self.rows[i as int].deep_view(),
            ));
            i += 1;
        }
        assert(self.rows.deep_view().take(self.rows.len() as int) =~= self.rows.deep_view());
        TableArtifact { columns: copy_list(&self.columns), rows }
    }
}

/// The JSON object of the tables of a report.
pub fn tables_to_json(tables: &Vec<(String, TableArtifact)>) -> (r: Json)
    ensures
        r.deep_view() == tables_json(tables.deep_view()),
{
    let mut out: Vec<(String, Json)> = Vec::new();
    let mut i: usize = 0;
    while i < tables.len()
        invariant
            i <= tables.len(),
            out.deep_view() == Seq::new(
                i as nat,
                |k: int| (tables.deep_view()[k].0, table_artifact_json(tables.deep_view()[k].1)),
            ),
        decreases tables.len() - i,
    {
        let key = tables[i].0.clone();
        let item = tables[i].1.to_json();
        let ghost before = out.deep_view();
        out.push((key, item));
        assert(out.deep_view() =~= before.push((key@, item.deep_view())));
        assert(tables.deep_view()[i as int] == (tables[i as int].0@, tables[i as int].1.deep_view()));
        assert(out.deep_view() =~= Seq::new(
            (i + 1) as nat,
            |k: int| (tables.deep_view()[k].0, table_artifact_json(tables.deep_view()[k].1)),
        ));
        i += 1;
    }
    object(out)
}

impl ReportArtifact {
    /// The JSON form of the report.
    pub fn to_json(&self) -> (r: Json)
        ensures
            r.deep_view() == report_json(self.deep_view()),
    {
        let mut members: Vec<(String, Json)> = Vec::new();
        assert(members.deep_view() =~= Seq::empty());
        member(&mut members, "format", Json::String(self.format.clone()));
        member(&mut members, "generated_at", Json::String(self.generated_at.clone()));
        member(&mut members, "includes", object(copy_members(&self.includes)));
        member(&mut members, "options", table_to_json(&self.options));
        member(&mut members, "output_path", optional_text_to_json(&self.output_path));
        member(&mut members, "tables", tables_to_json(&self.tables));
        member(&mut members, "target", Json::String(self.target.clone()));
        assert(members.deep_view() =~= report_json(self.deep_view())->Record_0);
        object(members)
    }
}

} // verus!
