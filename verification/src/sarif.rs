//! The SARIF report: one run made of every included artifact that has the
//! shape of a scan result.

use crate::artifact::{
    array, member, object, Asset, AssetView, Finding, FindingView, ScanArtifacts, ScanView,
};
use crate::assoc::{has_key, inserted, lookup};
use crate::json::{json_member, json_pretty, pretty_text, Json, JsonView};
use crate::text::{append_str, chars_of, same_str, string_of};
use vstd::prelude::*;

verus! {

// ---------------------------------------------------------------------------
// Severities
// ---------------------------------------------------------------------------

/// What `str::to_lowercase` makes of a text.
pub uninterp spec fn lowered(text: Seq<char>) -> Seq<char>;

/// `str::to_lowercase`: the text in lower case, which depends on the text
/// alone.
#[verifier::external_body]
pub(crate) fn lowercase(text: &str) -> (r: String)
    ensures
        r@ == lowered(text@),
{
    text.to_lowercase()
}

/// The rank of a severity in lower case: `critical` is 4, `high` 3,
/// `medium` and `moderate` 2, `low` 1, anything else 0.
pub open spec fn rank_of(label: Seq<char>) -> u8 {
    if label == "critical"@ {
        4
    } else if label == "high"@ {
        3
    } else if label == "medium"@ || label == "moderate"@ {
        2
    } else if label == "low"@ {
        1
    } else {
        0
    }
}

/// The SARIF level of a severity in lower case.
pub open spec fn level_of(label: Seq<char>) -> Seq<char> {
    if label == "critical"@ || label == "high"@ {
        "error"@
    } else if label == "medium"@ || label == "moderate"@ {
        "warning"@
    } else {
        "note"@
    }
}

/// The rank of a severity that is in lower case already.
pub fn rank_of_lowered(label: &str) -> (r: u8)
    ensures
        r == rank_of(label@),
{
    let l = chars_of(label);
    if same_str(&l, "critical") {
        4
    } else if same_str(&l, "high") {
        3
    } else if same_str(&l, "medium") || same_str(&l, "moderate") {
        2
    } else if same_str(&l, "low") {
        1
    } else {
        0
    }
}

/// The SARIF level of a severity that is in lower case already.
pub fn level_of_lowered(label: &str) -> (r: &'static str)
    ensures
        r@ == level_of(label@),
{
    let l = chars_of(label);
    if same_str(&l, "critical") || same_str(&l, "high") {
        "error"
    } else if same_str(&l, "medium") || same_str(&l, "moderate") {
        "warning"
    } else {
        "note"
    }
}

/// The rank of a severity, whatever its case.
pub fn severity_rank(label: &str) -> (r: u8)
    ensures
        r == rank_of(lowered(label@)),
{
    rank_of_lowered(lowercase(label).as_str())
}

/// The SARIF level of a severity, whatever its case.
pub fn sarif_level(label: &str) -> (r: &'static str)
    ensures
        r@ == level_of(lowered(label@)),
{
    level_of_lowered(lowercase(label).as_str())
}

// ---------------------------------------------------------------------------
// Scan results out of JSON
// ---------------------------------------------------------------------------

/// The string that a JSON value is.
pub open spec fn text_of(value: Option<JsonView>) -> Option<Seq<char>> {
    match value {
        Some(JsonView::Text(text)) => Some(text),
        _ => None,
    }
}

/// Whether every item is a string.
pub open spec fn all_texts(items: Seq<JsonView>) -> bool {
    forall|i: int| 0 <= i < items.len() ==> #[trigger] items[i] is Text
}

/// The strings of a JSON array of strings.
pub open spec fn texts_of(value: JsonView) -> Option<Seq<Seq<char>>> {
    match value {
        JsonView::List(items) => if all_texts(items) {
            Some(Seq::new(items.len(), |i: int| items[i]->Text_0))
        } else {
            None
        },
        _ => None,
    }
}

/// Whether every member is a string.
pub open spec fn all_text_members(entries: Seq<(Seq<char>, JsonView)>) -> bool {
    forall|i: int| 0 <= i < entries.len() ==> (#[trigger] entries[i]).1 is Text
}

/// The table of a JSON object of strings.
pub open spec fn text_table_of(value: JsonView) -> Option<Seq<(Seq<char>, Seq<char>)>> {
    match value {
        JsonView::Record(entries) => if all_text_members(entries) {
            Some(Seq::new(entries.len(), |i: int| (entries[i].0, entries[i].1->Text_0)))
        } else {
            None
        },
        _ => None,
    }
}

/// The strings of a member that may be absent: no strings where it is.
pub open spec fn optional_texts(value: Option<JsonView>) -> Option<Seq<Seq<char>>> {
    match value {
        None => Some(Seq::empty()),
        Some(v) => texts_of(v),
    }
}

/// The table of a member that may be absent: an empty table where it is.
pub open spec fn optional_text_table(value: Option<JsonView>) -> Option<
    Seq<(Seq<char>, Seq<char>)>,
> {
    match value {
        None => Some(Seq::empty()),
        Some(v) => text_table_of(v),
    }
}

/// The asset that a JSON object with a string `id` and an array of strings
/// `addresses` is; `hostnames` and `labels` may be absent.
pub open spec fn asset_from_json(value: JsonView) -> Option<AssetView> {
    match value {
        JsonView::Record(_) => match (
            text_of(json_member(value, "id"@)),
            match json_member(value, "addresses"@) {
                Some(v) => texts_of(v),
                None => None,
            },
            optional_texts(json_member(value, "hostnames"@)),
            optional_text_table(json_member(value, "labels"@)),
        ) {
            (Some(id), Some(addresses), Some(hostnames), Some(labels)) => Some(
                AssetView { id, addresses, hostnames, labels },
            ),
            _ => None,
        },
        _ => None,
    }
}

/// The port number that a JSON value is: a whole number from 0 to 65535.
pub open spec fn port_from_json(value: Option<JsonView>) -> Option<u16> {
    match value {
        Some(JsonView::Integer(n)) => if 0 <= n <= 65535 {
            Some(n as u16)
        } else {
            None
        },
        _ => None,
    }
}

/// The service name that a member is: none where the member is absent or
/// `null`; a value of another kind than a string fits nowhere.
pub open spec fn service_from_json(value: Option<JsonView>) -> Option<Option<Seq<char>>> {
    match value {
        None => Some(None),
        Some(JsonView::Null) => Some(None),
        Some(JsonView::Text(text)) => Some(Some(text)),
        _ => None,
    }
}

/// The evidence that a member is: nothing where the member is absent.
pub open spec fn evidence_from_json(value: Option<JsonView>) -> Option<Seq<(Seq<char>, JsonView)>> {
    match value {
        None => Some(Seq::empty()),
        Some(JsonView::Record(entries)) => Some(entries),
        _ => None,
    }
}

/// The finding that a JSON object with the members of a finding is.
pub open spec fn finding_from_json(value: JsonView) -> Option<FindingView> {
    match value {
        JsonView::Record(_) => match (
            (
                text_of(json_member(value, "id"@)),
                text_of(json_member(value, "asset_id"@)),
                port_from_json(json_member(value, "port"@)),
                text_of(json_member(value, "protocol"@)),
                text_of(json_member(value, "state"@)),
            ),
            (
                service_from_json(json_member(value, "service"@)),
                text_of(json_member(value, "title"@)),
                text_of(json_member(value, "description"@)),
                text_of(json_member(value, "severity"@)),
                evidence_from_json(json_member(value, "evidence"@)),
            ),
        ) {
            (
                (Some(id), Some(asset_id), Some(port), Some(protocol), Some(state)),
                (Some(service), Some(title), Some(description), Some(severity), Some(evidence)),
            ) => Some(
                FindingView {
                    id,
                    asset_id,
                    port,
                    protocol,
                    state,
                    service,
                    title,
                    description,
                    severity,
                    evidence,
                },
            ),
            _ => None,
        },
        _ => None,
    }
}

/// Whether every item is an asset.
pub open spec fn all_assets(items: Seq<JsonView>) -> bool {
    forall|i: int| 0 <= i < items.len() ==> asset_from_json(#[trigger] items[i]) is Some
}

/// Whether every item is a finding.
pub open spec fn all_findings(items: Seq<JsonView>) -> bool {
    forall|i: int| 0 <= i < items.len() ==> finding_from_json(#[trigger] items[i]) is Some
}

/// The assets of a JSON array of assets.
pub open spec fn assets_from_json(value: Option<JsonView>) -> Option<Seq<AssetView>> {
    match value {
        Some(JsonView::List(items)) => if all_assets(items) {
            Some(Seq::new(items.len(), |i: int| asset_from_json(items[i])->0))
        } else {
            None
        },
        _ => None,
    }
}

/// The findings of a JSON array of findings.
pub open spec fn findings_from_json(value: Option<JsonView>) -> Option<Seq<FindingView>> {
    match value {
        Some(JsonView::List(items)) => if all_findings(items) {
            Some(Seq::new(items.len(), |i: int| finding_from_json(items[i])->0))
        } else {
            None
        },
        _ => None,
    }
}

/// The scan result that a JSON object with the members `tool`, `target`,
/// `assets`, `findings` and `raw_xml` is; nothing for any other value.
pub open spec fn scan_from_json(value: JsonView) -> Option<ScanView> {
    match value {
        JsonView::Record(_) => match (
            text_of(json_member(value, "tool"@)),
            text_of(json_member(value, "target"@)),
            assets_from_json(json_member(value, "assets"@)),
            findings_from_json(json_member(value, "findings"@)),
            text_of(json_member(value, "raw_xml"@)),
        ) {
            (Some(tool), Some(target), Some(assets), Some(findings), Some(raw_xml)) => Some(
                ScanView { tool, target, assets, findings, raw_xml },
            ),
            _ => None,
        },
        _ => None,
    }
}

fn read_text(value: Option<&Json>) -> (r: Option<String>)
    ensures
        r.deep_view() == text_of(value.deep_view()),
{
    match value {
        Some(Json::String(text)) => Some(text.clone()),
        _ => None,
    }
}

fn read_texts(value: &Json) -> (r: Option<Vec<String>>)
    ensures
        r.deep_view() == texts_of(value.deep_view()),
{
    match value.as_array() {
        Some(items) => {
            let mut out: Vec<String> = Vec::new();
            let mut i: usize = 0;
            while i < items.len()
                invariant
                    i <= items.len(),
                    value.deep_view() == JsonView::List(items.deep_view()),
                    forall|k: int| 0 <= k < i ==> #[trigger] items.deep_view()[k] is Text,
                    out.deep_view() == Seq::new(i as nat, |k: int| items.deep_view()[k]->Text_0),
                decreases items.len() - i,
            {
                assert(items.deep_view()[i as int] == items[i as int].deep_view());
                match &items[i] {
                    Json::String(text) => {
                        let item = text.clone();
                        let ghost before = out.deep_view();
                        out.push(item);
                        assert(out.deep_view() =~= before.push(item@));
                        assert(out.deep_view() =~= Seq::new(
                            (i + 1) as nat,
                            |k: int| items.deep_view()[k]->Text_0,
                        ));
                    },
                    _ => {
                        return None;
                    },
                }
                i += 1;
            }
            Some(out)
        },
        None => None,
    }
}

fn read_text_table(value: &Json) -> (r: Option<Vec<(String, String)>>)
    ensures
        r.deep_view() == text_table_of(value.deep_view()),
{
    match value {
        Json::Object(entries) => {
            proof {
                crate::json::lemma_object_view(*entries);
            }
            let mut out: Vec<(String, String)> = Vec::new();
            let mut i: usize = 0;
            while i < entries.len()
                invariant
                    i <= entries.len(),
                    value.deep_view() == JsonView::Record(entries.deep_view()),
                    forall|k: int| 0 <= k < i ==> (#[trigger] entries.deep_view()[k]).1 is Text,
                    out.deep_view() == Seq::new(
                        i as nat,
                        |k: int| (entries.deep_view()[k].0, entries.deep_view()[k].1->Text_0),
                    ),
                decreases entries.len() - i,
            {
                assert(entries.deep_view()[i as int] == (
                    entries[i as int].0@,
                    entries[i as int].1.deep_view(),
                ));
                match &entries[i].1 {
                    Json::String(text) => {
                        let key = entries[i].0.clone();
                        let item = text.clone();
                        let ghost before = out.deep_view();
                        out.push((key, item));
                        assert(out.deep_view() =~= before.push((key@, item@)));
                        assert(out.deep_view() =~= Seq::new(
                            (i + 1) as nat,
                            |k: int| (entries.deep_view()[k].0, entries.deep_view()[k].1->Text_0),
                        ));
                    },
                    _ => {
                        return None;
                    },
                }
                i += 1;
            }
            Some(out)
        },
        _ => None,
    }
}

fn is_object(value: &Json) -> (r: bool)
    ensures
        r == (value.deep_view() is Record),
{
    match value {
        Json::Object(_) => true,
        _ => false,
    }
}

/// The asset that a JSON value is.
pub fn asset_of_json(value: &Json) -> (r: Option<Asset>)
    ensures
        r.deep_view() == asset_from_json(value.deep_view()),
{
    if !is_object(value) {
        return None;
    }
    let id = match read_text(value.get("id")) {
        Some(v) => v,
        None => {
            return None;
        },
    };
    let addresses = match value.get("addresses") {
        Some(v) => match read_texts(v) {
            Some(v) => v,
            None => {
                return None;
            },
        },
        None => {
            return None;
        },
    };
    let hostnames = match value.get("hostnames") {
        Some(v) => match read_texts(v) {
            Some(v) => v,
            None => {
                return None;
            },
        },
        None => {
            let empty: Vec<String> = Vec::new();
            assert(empty.deep_view() =~= Seq::empty());
            empty
        },
    };
    let labels = match value.get("labels") {
        Some(v) => match read_text_table(v) {
            Some(v) => v,
            None => {
                return None;
            },
        },
        None => {
            let empty: Vec<(String, String)> = Vec::new();
            assert(empty.deep_view() =~= Seq::empty());
            empty
        },
    };
    Some(Asset { id, addresses, hostnames, labels })
}

fn read_port(value: Option<&Json>) -> (r: Option<u16>)
    ensures
        r == port_from_json(value.deep_view()),
{
    match value {
        Some(Json::Integer(n)) => {
            if 0 <= *n && *n <= 65535 {
                Some(*n as u16)
            } else {
                None
            }
        },
        _ => None,
    }
}

fn read_service(value: Option<&Json>) -> (r: Option<Option<String>>)
    ensures
        r.deep_view() == service_from_json(value.deep_view()),
{
    match value {
        None => Some(None),
        Some(Json::Null) => Some(None),
        Some(Json::String(text)) => Some(Some(text.clone())),
        _ => None,
    }
}

fn read_evidence(value: Option<&Json>) -> (r: Option<Vec<(String, Json)>>)
    ensures
        r.deep_view() == evidence_from_json(value.deep_view()),
{
    match value {
        None => {
            let empty: Vec<(String, Json)> = Vec::new();
            assert(empty.deep_view() =~= Seq::empty());
            Some(empty)
        },
        Some(Json::Object(entries)) => {
            proof {
                crate::json::lemma_object_view(*entries);
            }
            Some(crate::artifact::copy_members(entries))
        },
        _ => None,
    }
}

/// The finding that a JSON value is.
pub fn finding_of_json(value: &Json) -> (r: Option<Finding>)
    ensures
        r.deep_view() == finding_from_json(value.deep_view()),
{
    if !is_object(value) {
        return None;
    }
    let id = match read_text(value.get("id")) {
        Some(v) => v,
        None => {
            return None;
        },
    };
    let asset_id = match read_text(value.get("asset_id")) {
        Some(v) => v,
        None => {
            return None;
        },
    };
    let port = match read_port(value.get("port")) {
        Some(v) => v,
        None => {
            return None;
        },
    };
    let protocol = match read_text(value.get("protocol")) {
        Some(v) => v,
        None => {
            return None;
        },
    };
    let state = match read_text(value.get("state")) {
        Some(v) => v,
        None => {
            return None;
        },
    };
    let service = match read_service(value.get("service")) {
        Some(v) => v,
        None => {
            return None;
        },
    };
    let title = match read_text(value.get("title")) {
        Some(v) => v,
        None => {
            return None;
        },
    };
    let description = match read_text(value.get("description")) {
        Some(v) => v,
        None => {
            return None;
        },
    };
    let severity = match read_text(value.get("severity")) {
        Some(v) => v,
        None => {
            return None;
        },
    };
    let evidence = match read_evidence(value.get("evidence")) {
        Some(v) => v,
        None => {
            return None;
        },
    };
    Some(
        Finding {
            id,
            asset_id,
            port,
            protocol,
            state,
            service,
            title,
            description,
            severity,
            evidence,
        },
    )
}

fn read_assets(value: Option<&Json>) -> (r: Option<Vec<Asset>>)
    ensures
        r.deep_view() == assets_from_json(value.deep_view()),
{
    let items = match value {
        Some(v) => match v.as_array() {
            Some(items) => items,
            None => {
                return None;
            },
        },
        None => {
            return None;
        },
    };
    let mut out: Vec<Asset> = Vec::new();
    let mut i: usize = 0;
    while i < items.len()
        invariant
            i <= items.len(),
            value.deep_view() == Some(JsonView::List(items.deep_view())),
            forall|k: int| 0 <= k < i ==> asset_from_json(#[trigger] items.deep_view()[k]) is Some,
            out.deep_view() == Seq::new(
                i as nat,
                |k: int| asset_from_json(items.deep_view()[k])->0,
            ),
        decreases items.len() - i,
    {
        assert(items.deep_view()[i as int] == items[i as int].deep_view());
        match asset_of_json(&items[i]) {
            Some(asset) => {
                let ghost before = out.deep_view();
                let ghost view = asset.deep_view();
                out.push(asset);
                assert(out.deep_view() =~= before.push(view));
                assert(out.deep_view() =~= Seq::new(
                    (i + 1) as nat,
                    |k: int| asset_from_json(items.deep_view()[k])->0,
                ));
            },
            None => {
                return None;
            },
        }
        i += 1;
    }
    Some(out)
}

fn read_findings(value: Option<&Json>) -> (r: Option<Vec<Finding>>)
    ensures
        r.deep_view() == findings_from_json(value.deep_view()),
{
    let items = match value {
        Some(v) => match v.as_array() {
            Some(items) => items,
            None => {
                return None;
            },
        },
        None => {
            return None;
        },
    };
    let mut out: Vec<Finding> = Vec::new();
    let mut i: usize = 0;
    while i < items.len()
        invariant
            i <= items.len(),
            value.deep_view() == Some(JsonView::List(items.deep_view())),
            forall|k: int|
                0 <= k < i ==> finding_from_json(#[trigger] items.deep_view()[k]) is Some,
            out.deep_view() == Seq::new(
                i as nat,
                |k: int| finding_from_json(items.deep_view()[k])->0,
            ),
        decreases items.len() - i,
    {
        assert(items.deep_view()[i as int] == items[i as int].deep_view());
        match finding_of_json(&items[i]) {
            Some(finding) => {
                let ghost before = out.deep_view();
                let ghost view = finding.deep_view();
                out.push(finding);
                assert(out.deep_view() =~= before.push(view));
                assert(out.deep_view() =~= Seq::new(
                    (i + 1) as nat,
                    |k: int| finding_from_json(items.deep_view()[k])->0,
                ));
            },
            None => {
                return None;
            },
        }
        i += 1;
    }
    Some(out)
}

/// The scan result that a JSON value is.
pub fn scan_of_json(value: &Json) -> (r: Option<ScanArtifacts>)
    ensures
        r.deep_view() == scan_from_json(value.deep_view()),
{
    if !is_object(value) {
        return None;
    }
    let tool = match read_text(value.get("tool")) {
        Some(v) => v,
        None => {
            return None;
        },
    };
    let target = match read_text(value.get("target")) {
        Some(v) => v,
        None => {
            return None;
        },
    };
    let assets = match read_assets(value.get("assets")) {
        Some(v) => v,
        None => {
            return None;
        },
    };
    let findings = match read_findings(value.get("findings")) {
        Some(v) => v,
        None => {
            return None;
        },
    };
    let raw_xml = match read_text(value.get("raw_xml")) {
        Some(v) => v,
        None => {
            return None;
        },
    };
    Some(ScanArtifacts { tool, target, assets, findings, raw_xml })
}

// ---------------------------------------------------------------------------
// The document
// ---------------------------------------------------------------------------

/// What a run collects: its rules under the names of the tools, the
/// locations it names, each once, and its results.
pub struct SarifParts {
    pub rules: Seq<(Seq<char>, JsonView)>,
    pub locations: Seq<Seq<char>>,
    pub results: Seq<JsonView>,
}

/// What a run has collected before the first artifact.
pub open spec fn no_parts() -> SarifParts {
    SarifParts { rules: Seq::empty(), locations: Seq::empty(), results: Seq::empty() }
}

/// A JSON object with the one member `text`.
pub open spec fn text_object(text: Seq<char>) -> JsonView {
    JsonView::Record(seq![("text"@, JsonView::Text(text))])
}

/// The rule of a tool.
pub open spec fn rule_json(tool: Seq<char>) -> JsonView {
    JsonView::Record(
        seq![
            ("id"@, JsonView::Text(tool)),
            ("name"@, JsonView::Text(tool)),
            ("shortDescription"@, text_object("Findings emitted by "@ + tool)),
        ],
    )
}

/// A JSON object with the one member `uri`.
pub open spec fn uri_object(uri: Seq<char>) -> JsonView {
    JsonView::Record(seq![("uri"@, JsonView::Text(uri))])
}

/// The result of a finding of a scan.
pub open spec fn result_json(scan: ScanView, finding: FindingView) -> JsonView {
    JsonView::Record(
        seq![
            ("level"@, JsonView::Text(level_of(lowered(finding.severity)))),
            (
                "locations"@,
                JsonView::List(
                    seq![
                        JsonView::Record(
                            seq![
                                (
                                    "physicalLocation"@,
                                    JsonView::Record(
                                        seq![("artifactLocation"@, uri_object(finding.asset_id))],
                                    ),
                                ),
                            ],
                        ),
                    ],
                ),
            ),
            ("message"@, text_object(finding.title)),
            (
                "properties"@,
                JsonView::Record(
                    seq![
                        ("description"@, JsonView::Text(finding.description)),
                        ("evidence"@, JsonView::Record(finding.evidence)),
                        ("port"@, JsonView::Integer(finding.port as int)),
                        ("protocol"@, JsonView::Text(finding.protocol)),
                        ("service"@, crate::artifact::optional_text_json(finding.service)),
                        ("severity"@, JsonView::Text(finding.severity)),
                        ("state"@, JsonView::Text(finding.state)),
                        ("target"@, JsonView::Text(scan.target)),
                    ],
                ),
            ),
            ("ruleId"@, JsonView::Text(scan.tool)),
        ],
    )
}

/// The locations with `uri` behind them, unless it is among them.
pub open spec fn with_location(locations: Seq<Seq<char>>, uri: Seq<char>) -> Seq<Seq<char>> {
    if locations.contains(uri) {
        locations
    } else {
        locations.push(uri)
    }
}

/// The rules with the rule of `tool`, unless the tool has one.
pub open spec fn with_rule(rules: Seq<(Seq<char>, JsonView)>, tool: Seq<char>) -> Seq<
    (Seq<char>, JsonView),
> {
    if has_key(rules, tool) {
        rules
    } else {
        inserted(rules, tool, rule_json(tool))
    }
}

/// What the first `n` findings of a scan add: one result for each finding
/// whose rank is not below `least`, and its location.
pub open spec fn with_findings(parts: SarifParts, scan: ScanView, n: nat, least: u8) -> SarifParts
    decreases n,
{
    if 0 < n <= scan.findings.len() {
        let before = with_findings(parts, scan, (n - 1) as nat, least);
        let finding = scan.findings[n - 1];
        if rank_of(lowered(finding.severity)) < least {
            before
        } else {
            SarifParts {
                locations: with_location(before.locations, finding.asset_id),
                results: before.results.push(result_json(scan, finding)),
                ..before
            }
        }
    } else {
        parts
    }
}

/// What the first `n` included artifacts make: each that is a scan result
/// adds its rule and its findings.
pub open spec fn parts_of(includes: Seq<(Seq<char>, JsonView)>, n: nat, least: u8) -> SarifParts
    decreases n,
{
    if 0 < n <= includes.len() {
        let before = parts_of(includes, (n - 1) as nat, least);
        match scan_from_json(includes[n - 1].1) {
            None => before,
            Some(scan) => with_findings(
                SarifParts { rules: with_rule(before.rules, scan.tool), ..before },
                scan,
                scan.findings.len(),
                least,
            ),
        }
    } else {
        no_parts()
    }
}

/// The name of the tool that the options give: `tool_name`, else `tool`,
/// else `Axion`.
pub open spec fn tool_name(options: Seq<(Seq<char>, Seq<char>)>) -> Seq<char> {
    match lookup(options, "tool_name"@) {
        Some(name) => name,
        None => match lookup(options, "tool"@) {
            Some(name) => name,
            None => "Axion"@,
        },
    }
}

/// The least rank that the options let through: that of
/// `severity_threshold`, else 0.
pub open spec fn least_rank(options: Seq<(Seq<char>, Seq<char>)>) -> u8 {
    match lookup(options, "severity_threshold"@) {
        Some(label) => rank_of(lowered(label)),
        None => 0,
    }
}

/// The members that may be absent, each under its key.
pub open spec fn optional_member(key: Seq<char>, value: Option<JsonView>) -> Seq<
    (Seq<char>, JsonView),
> {
    match value {
        Some(v) => seq![(key, v)],
        None => Seq::empty(),
    }
}

/// The JSON string of a text that may be absent.
pub open spec fn optional_string(value: Option<Seq<char>>) -> Option<JsonView> {
    match value {
        Some(v) => Some(JsonView::Text(v)),
        None => None,
    }
}

/// The values of a table, in the order of its keys.
pub open spec fn values_of(table: Seq<(Seq<char>, JsonView)>) -> Seq<JsonView> {
    Seq::new(table.len(), |i: int| table[i].1)
}

/// The driver of the run.
pub open spec fn driver_json(options: Seq<(Seq<char>, Seq<char>)>, rules: Seq<
    (Seq<char>, JsonView),
>) -> JsonView {
    JsonView::Record(
        optional_member("informationUri"@, optional_string(lookup(options, "tool_uri"@))) + seq![
            ("name"@, JsonView::Text(tool_name(options))),
        ] + optional_member(
            "rules"@,
            if rules.len() > 0 {
                Some(JsonView::List(values_of(rules)))
            } else {
                None
            },
        ) + optional_member("version"@, optional_string(lookup(options, "tool_version"@))),
    )
}

/// The locations as the run lists them.
pub open spec fn locations_json(locations: Seq<Seq<char>>) -> JsonView {
    JsonView::List(
        Seq::new(
            locations.len(),
            |i: int| JsonView::Record(seq![("location"@, uri_object(locations[i]))]),
        ),
    )
}

/// The run.
pub open spec fn run_json(
    title: Seq<char>,
    generated_at: Seq<char>,
    options: Seq<(Seq<char>, Seq<char>)>,
    parts: SarifParts,
) -> JsonView {
    JsonView::Record(
        optional_member(
            "artifacts"@,
            if parts.locations.len() > 0 {
                Some(locations_json(parts.locations))
            } else {
                None
            },
        ) + seq![
            (
                "automationDetails"@,
                JsonView::Record(
                    seq![
                        ("description"@, text_object("Axion SARIF report "@ + title)),
                        ("id"@, JsonView::Text("axion::"@ + title)),
                    ],
                ),
            ),
            (
                "invocations"@,
                JsonView::List(
                    seq![
                        JsonView::Record(
                            seq![
                                ("endTimeUtc"@, JsonView::Text(generated_at)),
                                ("executionSuccessful"@, JsonView::Bool(true)),
                            ],
                        ),
                    ],
                ),
            ),
            ("results"@, JsonView::List(parts.results)),
            (
                "tool"@,
                JsonView::Record(seq![("driver"@, driver_json(options, parts.rules))]),
            ),
        ],
    )
}

/// The SARIF document of a report.
pub open spec fn sarif_json(
    title: Seq<char>,
    generated_at: Seq<char>,
    includes: Seq<(Seq<char>, JsonView)>,
    options: Seq<(Seq<char>, Seq<char>)>,
) -> JsonView {
    JsonView::Record(
        seq![
            ("$schema"@, JsonView::Text("https://json.schemastore.org/sarif-2.1.0.json"@)),
            (
                "runs"@,
                JsonView::List(
                    seq![
                        run_json(
                            title,
                            generated_at,
                            options,
                            parts_of(includes, includes.len(), least_rank(options)),
                        ),
                    ],
                ),
            ),
            ("version"@, JsonView::Text("2.1.0"@)),
        ],
    )
}

/// The SARIF report as text.
pub open spec fn sarif_report(
    title: Seq<char>,
    generated_at: Seq<char>,
    includes: Seq<(Seq<char>, JsonView)>,
    options: Seq<(Seq<char>, Seq<char>)>,
) -> Seq<char> {
    json_pretty(sarif_json(title, generated_at, includes, options))
}

/// What is collected while the document is built.
pub struct Parts {
    pub rules: Vec<(String, Json)>,
    pub locations: Vec<String>,
    pub results: Vec<Json>,
}

impl DeepView for Parts {
    type V = SarifParts;

    open spec fn deep_view(&self) -> SarifParts {
        SarifParts {
            rules: self.rules.deep_view(),
            locations: self.locations.deep_view(),
            results: self.results.deep_view(),
        }
    }
}

fn single(key: &str, value: Json) -> (r: Json)
    ensures
        r.deep_view() == JsonView::Record(seq![(key@, value.deep_view())]),
{
    let mut members: Vec<(String, Json)> = Vec::new();
    assert(members.deep_view() =~= Seq::empty());
    member(&mut members, key, value);
    assert(members.deep_view() =~= seq![(key@, value.deep_view())]);
    object(members)
}

fn one(value: Json) -> (r: Json)
    ensures
        r.deep_view() == JsonView::List(seq![value.deep_view()]),
{
    let mut items: Vec<Json> = Vec::new();
    let ghost view = value.deep_view();
    items.push(value);
    assert(items.deep_view() =~= seq![view]);
    array(items)
}

fn rule_for(tool: &String) -> (r: Json)
    ensures
        r.deep_view() == rule_json(tool@),
{
    let mut text = chars_of("Findings emitted by ");
    append_str(&mut text, tool.as_str());
    let mut members: Vec<(String, Json)> = Vec::new();
    assert(members.deep_view() =~= Seq::empty());
    member(&mut members, "id", Json::String(tool.clone()));
    member(&mut members, "name", Json::String(tool.clone()));
    member(&mut members, "shortDescription", single("text", Json::String(string_of(&text))));
    assert(members.deep_view() =~= rule_json(tool@)->Record_0);
    object(members)
}

fn result_for(scan: &ScanArtifacts, finding: &Finding) -> (r: Json)
    ensures
        r.deep_view() == result_json(scan.deep_view(), finding.deep_view()),
{
    let mut properties: Vec<(String, Json)> = Vec::new();
    assert(properties.deep_view() =~= Seq::empty());
    member(&mut properties, "description", Json::String(finding.description.clone()));
    member(
        &mut properties,
        "evidence",
        object(crate::artifact::copy_members(&finding.evidence)),
    );
    member(&mut properties, "port", Json::Integer(finding.port as i128));
    member(&mut properties, "protocol", Json::String(finding.protocol.clone()));
    member(
        &mut properties,
        "service",
        crate::artifact::optional_text_to_json(&finding.service),
    );
    member(&mut properties, "severity", Json::String(finding.severity.clone()));
    member(&mut properties, "state", Json::String(finding.state.clone()));
    member(&mut properties, "target", Json::String(scan.target.clone()));
    let ghost expected = result_json(scan.deep_view(), finding.deep_view())->Record_0;
    assert(properties.deep_view() =~= expected[3].1->Record_0);

    let location = single(
        "physicalLocation",
        single("artifactLocation", single("uri", Json::String(finding.asset_id.clone()))),
    );
    let mut members: Vec<(String, Json)> = Vec::new();
    assert(members.deep_view() =~= Seq::empty());
    member(&mut members, "level", Json::text(sarif_level(finding.severity.as_str())));
    member(&mut members, "locations", one(location));
    member(&mut members, "message", single("text", Json::String(finding.title.clone())));
    member(&mut members, "properties", object(properties));
    member(&mut members, "ruleId", Json::String(scan.tool.clone()));
    assert(members.deep_view() =~= expected);
    object(members)
}

fn knows(locations: &Vec<String>, uri: &String) -> (r: bool)
    ensures
        r == locations.deep_view().contains(uri@),
{
    let mut i: usize = 0;
    while i < locations.len()
        invariant
            i <= locations.len(),
            forall|k: int| 0 <= k < i ==> locations.deep_view()[k] != uri@,
        decreases locations.len() - i,
    {
        assert(locations.deep_view()[i as int] == locations[i as int]@);
        if crate::text::same(&chars_of(locations[i].as_str()), &chars_of(uri.as_str())) {
            return true;
        }
        i += 1;
    }
    false
}

impl Parts {
    /// Adds the rule and the findings of a scan.
    pub fn add_scan(&mut self, scan: &ScanArtifacts, least: u8)
        ensures
            final(self).deep_view() == with_findings(
                SarifParts {
                    rules: with_rule(old(self).deep_view().rules, scan.deep_view().tool),
                    ..old(self).deep_view()
                },
                scan.deep_view(),
                scan.deep_view().findings.len(),
                least,
            ),
    {
        if !crate::assoc::contains_key(&self.rules, scan.tool.as_str()) {
            crate::assoc::insert(&mut self.rules, scan.tool.clone(), rule_for(&scan.tool));
        }
        let ghost start = self.deep_view();
        let mut i: usize = 0;
        while i < scan.findings.len()
            invariant
                i <= scan.findings.len(),
                self.deep_view() == with_findings(start, scan.deep_view(), i as nat, least),
            decreases scan.findings.len() - i,
        {
            assert(scan.findings.deep_view()[i as int] == scan.findings[i as int].deep_view());
            let finding = &scan.findings[i];
            if severity_rank(finding.severity.as_str()) >= least {
                if !knows(&self.locations, &finding.asset_id) {
                    let uri = finding.asset_id.clone();
                    let ghost before = self.locations.deep_view();
                    self.locations.push(uri);
                    assert(self.locations.deep_view() =~= before.push(uri@));
                }
                let result = result_for(scan, finding);
                let ghost before = self.results.deep_view();
                self.results.push(result);
                assert(self.results.deep_view() =~= before.push(result.deep_view()));
            }
            i += 1;
        }
    }
}

fn locations_to_json(locations: &Vec<String>) -> (r: Json)
    ensures
        r.deep_view() == locations_json(locations.deep_view()),
{
    let mut out: Vec<Json> = Vec::new();
    let mut i: usize = 0;
    while i < locations.len()
        invariant
            i <= locations.len(),
            out.deep_view() == Seq::new(
                i as nat,
                |k: int| JsonView::Record(seq![("location"@, uri_object(locations.deep_view()[k]))]),
            ),
        decreases locations.len() - i,
    {
        assert(locations.deep_view()[i as int] == locations[i as int]@);
        let item = single("location", single("uri", Json::String(locations[i].clone())));
        let ghost before = out.deep_view();
        out.push(item);
        assert(out.deep_view() =~= before.push(item.deep_view()));
        assert(out.deep_view() =~= Seq::new(
            (i + 1) as nat,
            |k: int| JsonView::Record(seq![("location"@, uri_object(locations.deep_view()[k]))]),
        ));
        i += 1;
    }
    array(out)
}

fn rules_to_json(rules: &Vec<(String, Json)>) -> (r: Json)
    ensures
        r.deep_view() == JsonView::List(values_of(rules.deep_view())),
{
    let mut out: Vec<Json> = Vec::new();
    let mut i: usize = 0;
    while i < rules.len()
        invariant
            i <= rules.len(),
            out.deep_view() == values_of(rules.deep_view()).take(i as int),
        decreases rules.len() - i,
    {
        assert(rules.deep_view()[i as int] == (rules[i as int].0@, rules[i as int].1.deep_view()));
        let item = rules[i].1.copy();
        let ghost before = out.deep_view();
        out.push(item);
        assert(out.deep_view() =~= before.push(item.deep_view()));
        assert(out.deep_view() =~= values_of(rules.deep_view()).take(i + 1));
        i += 1;
    }
    assert(values_of(rules.deep_view()).take(rules.len() as int) =~= values_of(rules.deep_view()));
    array(out)
}

/// The SARIF document of a report.
pub fn sarif_document(
    title: &str,
    generated_at: &str,
    includes: &Vec<(String, Json)>,
    options: &Vec<(String, String)>,
) -> (r: Json)
    ensures
        r.deep_view() == sarif_json(title@, generated_at@, includes.deep_view(), options.deep_view()),
{
    let least: u8 = match crate::command::get(options, "severity_threshold") {
        Some(label) => severity_rank(label.as_str()),
        None => 0,
    };
    let mut parts = Parts { rules: Vec::new(), locations: Vec::new(), results: Vec::new() };
    assert(parts.rules.deep_view() =~= Seq::empty());
    assert(parts.locations.deep_view() =~= Seq::empty());
    assert(parts.results.deep_view() =~= Seq::empty());
    let mut i: usize = 0;
    while i < includes.len()
        invariant
            i <= includes.len(),
            parts.deep_view() == parts_of(includes.deep_view(), i as nat, least),
        decreases includes.len() - i,
    {
        assert(includes.deep_view()[i as int] == (
            includes[i as int].0@,
            includes[i as int].1.deep_view(),
        ));
        match scan_of_json(&includes[i].1) {
            Some(scan) => {
                parts.add_scan(&scan, least);
            },
            None => {},
        }
        i += 1;
    }
    let ghost collected = parts.deep_view();

    let name = match crate::command::get(options, "tool_name") {
        Some(name) => name,
        None => match crate::command::get(options, "tool") {
            Some(name) => name,
            None => String::from_str("Axion"),
        },
    };
    let mut driver: Vec<(String, Json)> = Vec::new();
    assert(driver.deep_view() =~= Seq::empty());
    match crate::command::get(options, "tool_uri") {
        Some(uri) => {
            member(&mut driver, "informationUri", Json::String(uri));
        },
        None => {},
    }
    member(&mut driver, "name", Json::String(name));
    if parts.rules.len() > 0 {
        member(&mut driver, "rules", rules_to_json(&parts.rules));
    }
    match crate::command::get(options, "tool_version") {
        Some(version) => {
            member(&mut driver, "version", Json::String(version));
        },
        None => {},
    }
    assert(driver.deep_view() =~= driver_json(options.deep_view(), collected.rules)->Record_0);

    let mut details: Vec<(String, Json)> = Vec::new();
    assert(details.deep_view() =~= Seq::empty());
    let mut description = chars_of("Axion SARIF report ");
    append_str(&mut description, title);
    let mut id = chars_of("axion::");
    append_str(&mut id, title);
    member(&mut details, "description", single("text", Json::String(string_of(&description))));
    member(&mut details, "id", Json::String(string_of(&id)));
    assert(details.deep_view() =~= seq![
        ("description"@, text_object("Axion SARIF report "@ + title@)),
        ("id"@, JsonView::Text("axion::"@ + title@)),
    ]);

    let mut invocation: Vec<(String, Json)> = Vec::new();
    assert(invocation.deep_view() =~= Seq::empty());
    member(&mut invocation, "endTimeUtc", Json::text(generated_at));
    member(&mut invocation, "executionSuccessful", Json::Bool(true));
    assert(invocation.deep_view() =~= seq![
        ("endTimeUtc"@, JsonView::Text(generated_at@)),
        ("executionSuccessful"@, JsonView::Bool(true)),
    ]);

    let mut run: Vec<(String, Json)> = Vec::new();
    assert(run.deep_view() =~= Seq::empty());
    if parts.locations.len() > 0 {
        member(&mut run, "artifacts", locations_to_json(&parts.locations));
    }
    member(&mut run, "automationDetails", object(details));
    member(&mut run, "invocations", one(object(invocation)));
    member(&mut run, "results", array(parts.results));
    member(&mut run, "tool", single("driver", object(driver)));
    assert(run.deep_view() =~= run_json(
        title@,
        generated_at@,
        options.deep_view(),
        collected,
    )->Record_0);

    let mut document: Vec<(String, Json)> = Vec::new();
    assert(document.deep_view() =~= Seq::empty());
    member(&mut document, "$schema", Json::text("https://json.schemastore.org/sarif-2.1.0.json"));
    member(&mut document, "runs", one(object(run)));
    member(&mut document, "version", Json::text("2.1.0"));
    assert(document.deep_view() =~= sarif_json(
        title@,
        generated_at@,
        includes.deep_view(),
        options.deep_view(),
    )->Record_0);
    object(document)
}

/// The SARIF report as text.
pub fn render_sarif_report(
    title: &str,
    generated_at: &str,
    includes: &Vec<(String, Json)>,
    options: &Vec<(String, String)>,
) -> (r: String)
    ensures
        r@ == sarif_report(title@, generated_at@, includes.deep_view(), options.deep_view()),
{
    pretty_text(&sarif_document(title, generated_at, includes, options))
}

} // verus!
