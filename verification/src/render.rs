//! Reports as text: an HTML document, a Markdown document, and the table
//! that the console shows. Each is a function of what the report includes.

use crate::artifact::{TableArtifact, TableView};
use crate::assoc::lookup;
use crate::json::{compact_text, json_compact, json_pretty, pretty_text, Json, JsonView};
use crate::text::{append, append_str, chars_of, replace, replaced, string_of};
use vstd::prelude::*;

verus! {

// ---------------------------------------------------------------------------
// Cells
// ---------------------------------------------------------------------------

/// The text of a cell: nothing for no value and for `null`, a string as it
/// is, any other value as compact JSON.
pub open spec fn cell_text(value: Option<JsonView>) -> Seq<char> {
    match value {
        None => Seq::empty(),
        Some(JsonView::Null) => Seq::empty(),
        Some(JsonView::Text(text)) => text,
        Some(other) => json_compact(other),
    }
}

/// The text of a cell.
pub fn value_to_string(value: Option<&Json>) -> (r: Vec<char>)
    ensures
        r@ == cell_text(value.deep_view()),
{
    match value {
        None => Vec::new(),
        Some(Json::Null) => Vec::new(),
        Some(Json::String(text)) => chars_of(text.as_str()),
        Some(other) => chars_of(compact_text(other).as_str()),
    }
}

/// The cell of a row under a column.
pub fn cell(row: &Vec<(String, Json)>, column: &String) -> (r: Vec<char>)
    ensures
        r@ == cell_text(lookup(row.deep_view(), column@)),
{
    match crate::assoc::position(row, &chars_of(column.as_str())) {
        Some(i) => {
            assert(row.deep_view()[i as int].1 == row[i as int].1.deep_view());
            value_to_string(Some(&row[i].1))
        },
        None => value_to_string(None),
    }
}

// ---------------------------------------------------------------------------
// HTML
// ---------------------------------------------------------------------------

/// What stands for a character in HTML.
pub open spec fn escaped_char(c: char) -> Seq<char> {
    if c == '&' {
        "&amp;"@
    } else if c == '<' {
        "&lt;"@
    } else if c == '>' {
        "&gt;"@
    } else if c == '"' {
        "&quot;"@
    } else if c == '\'' {
        "&#39;"@
    } else {
        seq![c]
    }
}

/// The first `n` characters, each as it stands in HTML.
pub open spec fn escaped_upto(s: Seq<char>, n: nat) -> Seq<char>
    decreases n,
{
    if 0 < n <= s.len() {
        escaped_upto(s, (n - 1) as nat) + escaped_char(s[n - 1])
    } else {
        Seq::empty()
    }
}

/// The text with `&`, `<`, `>`, `"` and `'` escaped for HTML.
pub open spec fn escaped_html(s: Seq<char>) -> Seq<char> {
    escaped_upto(s, s.len())
}

/// The characters with `&`, `<`, `>`, `"` and `'` escaped for HTML.
pub fn escape_chars(input: &Vec<char>) -> (r: Vec<char>)
    ensures
        r@ == escaped_html(input@),
{
    let mut out: Vec<char> = Vec::new();
    let mut i: usize = 0;
    while i < input.len()
        invariant
            i <= input.len(),
            out@ == escaped_upto(input@, i as nat),
        decreases input.len() - i,
    {
        let c = input[i];
        if c == '&' {
            append_str(&mut out, "&amp;");
        } else if c == '<' {
            append_str(&mut out, "&lt;");
        } else if c == '>' {
            append_str(&mut out, "&gt;");
        } else if c == '"' {
            append_str(&mut out, "&quot;");
        } else if c == '\'' {
            append_str(&mut out, "&#39;");
        } else {
            let ghost before = out@;
            out.push(c);
            assert(out@ =~= before + seq![c]);
        }
        i += 1;
    }
    out
}

/// The text with `&`, `<`, `>`, `"` and `'` escaped for HTML.
pub fn escape_html(input: &str) -> (r: String)
    ensures
        r@ == escaped_html(input@),
{
    string_of(&escape_chars(&chars_of(input)))
}

/// The header cells of the first `n` columns.
pub open spec fn html_header_cells(columns: Seq<Seq<char>>, n: nat) -> Seq<char>
    decreases n,
{
    if 0 < n <= columns.len() {
        html_header_cells(columns, (n - 1) as nat) + "<th>"@ + escaped_html(columns[n - 1])
            + "</th>"@
    } else {
        Seq::empty()
    }
}

/// The cells of a row under the first `n` columns.
pub open spec fn html_row_cells(columns: Seq<Seq<char>>, row: Seq<(Seq<char>, JsonView)>, n: nat)
    -> Seq<char>
    decreases n,
{
    if 0 < n <= columns.len() {
        html_row_cells(columns, row, (n - 1) as nat) + "<td>"@ + escaped_html(
            cell_text(lookup(row, columns[n - 1])),
        ) + "</td>"@
    } else {
        Seq::empty()
    }
}

/// The first `n` rows.
pub open spec fn html_rows(table: TableView, n: nat) -> Seq<char>
    decreases n,
{
    if 0 < n <= table.rows.len() {
        html_rows(table, (n - 1) as nat) + "<tr>"@ + html_row_cells(
            table.columns,
            table.rows[n - 1],
            table.columns.len(),
        ) + "</tr>"@
    } else {
        Seq::empty()
    }
}

/// A table as HTML.
pub open spec fn html_table(table: TableView) -> Seq<char> {
    "<table><thead><tr>"@ + html_header_cells(table.columns, table.columns.len())
        + "</tr></thead><tbody>"@ + html_rows(table, table.rows.len()) + "</tbody></table>"@
}

/// A table as HTML.
pub fn render_html_table(table: &TableArtifact) -> (r: Vec<char>)
    ensures
        r@ == html_table(table.deep_view()),
{
    let mut head: Vec<char> = Vec::new();
    let mut i: usize = 0;
    while i < table.columns.len()
        invariant
            i <= table.columns.len(),
            head@ == html_header_cells(table.deep_view().columns, i as nat),
        decreases table.columns.len() - i,
    {
        assert(table.columns.deep_view()[i as int] == table.columns[i as int]@);
        let ghost before = head@;
        append_str(&mut head, "<th>");
        let name = escape_chars(&chars_of(table.columns[i].as_str()));
        append(&mut head, &name);
        append_str(&mut head, "</th>");
        assert(head@ =~= before + "<th>"@ + name@ + "</th>"@);
        i += 1;
    }
    let mut body: Vec<char> = Vec::new();
    let mut r: usize = 0;
    while r < table.rows.len()
        invariant
            r <= table.rows.len(),
            body@ == html_rows(table.deep_view(), r as nat),
        decreases table.rows.len() - r,
    {
        assert(table.rows.deep_view()[r as int] == table.rows[r as int].deep_view());
        let mut cells: Vec<char> = Vec::new();
        let mut c: usize = 0;
        while c < table.columns.len()
            invariant
                c <= table.columns.len(),
                r < table.rows.len(),
                cells@ == html_row_cells(
                    table.deep_view().columns,
                    table.rows[r as int].deep_view(),
                    c as nat,
                ),
            decreases table.columns.len() - c,
        {
            assert(table.columns.deep_view()[c as int] == table.columns[c as int]@);
            let ghost before = cells@;
            append_str(&mut cells, "<td>");
            let value = escape_chars(&cell(&table.rows[r], &table.columns[c]));
            append(&mut cells, &value);
            append_str(&mut cells, "</td>");
            assert(cells@ =~= before + "<td>"@ + value@ + "</td>"@);
            c += 1;
        }
        let ghost before = body@;
        append_str(&mut body, "<tr>");
        append(&mut body, &cells);
        append_str(&mut body, "</tr>");
        assert(body@ =~= before + "<tr>"@ + cells@ + "</tr>"@);
        r += 1;
    }
    let mut out = chars_of("<table><thead><tr>");
    append(&mut out, &head);
    append_str(&mut out, "</tr></thead><tbody>");
    append(&mut out, &body);
    append_str(&mut out, "</tbody></table>");
    out
}

/// The style sheet of the HTML report.
pub const HTML_STYLE: &'static str =
    "body{font-family:system-ui,-apple-system,\"Segoe UI\",sans-serif;background:#0f172a;color:#e2e8f0;margin:0;padding:0;}header{background:#1e293b;padding:24px 32px;border-bottom:1px solid rgba(148,163,184,0.2);}h1{margin:0;font-size:28px;}h2{margin-top:32px;margin-bottom:12px;font-size:22px;}main{padding:32px;}section{margin-bottom:40px;background:#111c34;padding:24px;border-radius:12px;border:1px solid rgba(148,163,184,0.1);}table{width:100%;border-collapse:collapse;margin-top:16px;font-size:14px;}th,td{border:1px solid rgba(148,163,184,0.2);padding:8px 10px;text-align:left;}th{background:#1e293b;font-weight:600;}tr:nth-child(even){background:rgba(148,163,184,0.05);}code,pre{font-family:\"Fira Code\",Consolas,monospace;background:#0b1120;color:#f8fafc;border-radius:8px;}pre{padding:16px;overflow:auto;}details{margin-top:16px;}details>summary{cursor:pointer;color:#38bdf8;font-weight:600;}footer{padding:16px 32px;border-top:1px solid rgba(148,163,184,0.2);color:#94a3b8;font-size:13px;}";

/// The style sheet of the HTML report, as characters.
pub open spec fn html_style() -> Seq<char> {
    HTML_STYLE@
}

/// The table of an artifact as HTML, or nothing where it has none.
pub open spec fn html_table_of(tables: Seq<(Seq<char>, TableView)>, name: Seq<char>) -> Seq<char> {
    match lookup(tables, name) {
        Some(table) => html_table(table),
        None => Seq::empty(),
    }
}

/// The section of one artifact: its name, its table, and its indented JSON.
pub open spec fn html_section(
    name: Seq<char>,
    value: JsonView,
    tables: Seq<(Seq<char>, TableView)>,
) -> Seq<char> {
    "<section><h2>"@ + escaped_html(name) + "</h2>"@ + html_table_of(tables, name)
        + "<details><summary>Raw JSON</summary><pre><code>"@ + escaped_html(json_pretty(value))
        + "</code></pre></details></section>\n"@
}

/// The sections of the first `n` artifacts.
pub open spec fn html_sections(
    includes: Seq<(Seq<char>, JsonView)>,
    tables: Seq<(Seq<char>, TableView)>,
    n: nat,
) -> Seq<char>
    decreases n,
{
    if 0 < n <= includes.len() {
        html_sections(includes, tables, (n - 1) as nat) + html_section(
            includes[n - 1].0,
            includes[n - 1].1,
            tables,
        )
    } else {
        Seq::empty()
    }
}

/// What the head of the document shows of the title.
pub open spec fn html_title(title: Seq<char>) -> Seq<char> {
    "<title>Axion Report \u{e2}\u{20ac}\u{201c} "@ + escaped_html(title) + "</title>\n"@
}

/// The HTML report: a document of its own, with one section for each
/// artifact, in the order of their names.
pub open spec fn html_report(
    title: Seq<char>,
    generated_at: Seq<char>,
    includes: Seq<(Seq<char>, JsonView)>,
    tables: Seq<(Seq<char>, TableView)>,
) -> Seq<char> {
    "<!DOCTYPE html>\n<html lang=\"en\">\n<head>\n<meta charset=\"utf-8\" />\n"@
        + "<meta name=\"viewport\" content=\"width=device-width, initial-scale=1\" />\n"@
        + html_title(title) + "<style>"@ + html_style() + "</style>\n</head>\n<body>\n"@
        + "<header>"@ + "<h1>Axion Report: "@ + escaped_html(title) + "</h1>"@
        + "<p>Generated at "@ + escaped_html(generated_at) + "</p>"@ + "</header>\n<main>\n"@
        + html_sections(includes, tables, includes.len()) + (if includes.len() == 0 {
        "<section><p>No artifacts were included in this report.</p></section>"@
    } else {
        Seq::empty()
    }) + "</main>\n<footer>Generated by axion-core</footer>\n</body>\n</html>"@
}

/// The table of an artifact, if it has one.
pub fn table_of<'a>(tables: &'a Vec<(String, TableArtifact)>, name: &String) -> (r: Option<
    &'a TableArtifact,
>)
    ensures
        r.deep_view() == lookup(tables.deep_view(), name@),
{
    match crate::assoc::position(tables, &chars_of(name.as_str())) {
        Some(i) => {
            assert(tables.deep_view()[i as int].1 == tables[i as int].1.deep_view());
            Some(&tables[i].1)
        },
        None => None,
    }
}

fn html_section_chars(name: &String, value: &Json, tables: &Vec<(String, TableArtifact)>) -> (r:
    Vec<char>)
    ensures
        r@ == html_section(name@, value.deep_view(), tables.deep_view()),
{
    let mut out = chars_of("<section><h2>");
    append(&mut out, &escape_chars(&chars_of(name.as_str())));
    append_str(&mut out, "</h2>");
    match table_of(tables, name) {
        Some(table) => {
            append(&mut out, &render_html_table(table));
        },
        None => {
            assert(out@ + Seq::<char>::empty() =~= out@);
        },
    }
    append_str(&mut out, "<details><summary>Raw JSON</summary><pre><code>");
    append(&mut out, &escape_chars(&chars_of(pretty_text(value).as_str())));
    append_str(&mut out, "</code></pre></details></section>\n");
    out
}

/// The HTML report.
pub fn render_html_report(
    title: &str,
    generated_at: &str,
    includes: &Vec<(String, Json)>,
    tables: &Vec<(String, TableArtifact)>,
) -> (r: String)
    ensures
        r@ == html_report(title@, generated_at@, includes.deep_view(), tables.deep_view()),
{
    let mut sections: Vec<char> = Vec::new();
    let mut i: usize = 0;
    while i < includes.len()
        invariant
            i <= includes.len(),
            sections@ == html_sections(includes.deep_view(), tables.deep_view(), i as nat),
        decreases includes.len() - i,
    {
        assert(includes.deep_view()[i as int] == (
            includes[i as int].0@,
            includes[i as int].1.deep_view(),
        ));
        let section = html_section_chars(&includes[i].0, &includes[i].1, tables);
        append(&mut sections, &section);
        i += 1;
    }
    let escaped_title = escape_chars(&chars_of(title));
    let mut out = chars_of("<!DOCTYPE html>\n<html lang=\"en\">\n<head>\n<meta charset=\"utf-8\" />\n");
    append_str(
        &mut out,
        "<meta name=\"viewport\" content=\"width=device-width, initial-scale=1\" />\n",
    );
    append_str(&mut out, "<title>Axion Report \u{e2}\u{20ac}\u{201c} ");
    append(&mut out, &escaped_title);
    append_str(&mut out, "</title>\n");
    append_str(&mut out, "<style>");
    append_str(&mut out, HTML_STYLE);
    append_str(&mut out, "</style>\n</head>\n<body>\n");
    append_str(&mut out, "<header>");
    append_str(&mut out, "<h1>Axion Report: ");
    append(&mut out, &escaped_title);
    append_str(&mut out, "</h1>");
    append_str(&mut out, "<p>Generated at ");
    append(&mut out, &escape_chars(&chars_of(generated_at)));
    append_str(&mut out, "</p>");
    append_str(&mut out, "</header>\n<main>\n");
    append(&mut out, &sections);
    if includes.len() == 0 {
        append_str(&mut out, "<section><p>No artifacts were included in this report.</p></section>");
    } else {
        assert(out@ + Seq::<char>::empty() =~= out@);
    }
    append_str(&mut out, "</main>\n<footer>Generated by axion-core</footer>\n</body>\n</html>");
    string_of(&out)
}

// ---------------------------------------------------------------------------
// Markdown
// ---------------------------------------------------------------------------

/// The text of a cell of a Markdown table: a line feed becomes `<br>`, a
/// bar gets a backslash before it.
pub open spec fn markdown_cell(value: Seq<char>) -> Seq<char> {
    replaced(replaced(value, seq!['\n'], "<br>"@), seq!['|'], "\\|"@)
}

/// The text of a cell of a Markdown table.
pub fn sanitize_markdown_cell(value: &Vec<char>) -> (r: Vec<char>)
    ensures
        r@ == markdown_cell(value@),
{
    let mut feed: Vec<char> = Vec::new();
    feed.push('\n');
    let mut bar: Vec<char> = Vec::new();
    bar.push('|');
    assert(feed@ =~= seq!['\n']);
    assert(bar@ =~= seq!['|']);
    let first = replace(value, &feed, &chars_of("<br>"));
    replace(&first, &bar, &chars_of("\\|"))
}

/// The header cells of the first `n` columns.
pub open spec fn markdown_header_cells(columns: Seq<Seq<char>>, n: nat) -> Seq<char>
    decreases n,
{
    if 0 < n <= columns.len() {
        markdown_header_cells(columns, (n - 1) as nat) + " "@ + markdown_cell(columns[n - 1])
            + " |"@
    } else {
        Seq::empty()
    }
}

/// The cells of the rule below the header, one for each of `n` columns.
pub open spec fn markdown_rule_cells(n: nat) -> Seq<char>
    decreases n,
{
    if n > 0 {
        markdown_rule_cells((n - 1) as nat) + " --- |"@
    } else {
        Seq::empty()
    }
}

/// The cells of a row under the first `n` columns.
pub open spec fn markdown_row_cells(
    columns: Seq<Seq<char>>,
    row: Seq<(Seq<char>, JsonView)>,
    n: nat,
) -> Seq<char>
    decreases n,
{
    if 0 < n <= columns.len() {
        markdown_row_cells(columns, row, (n - 1) as nat) + " "@ + markdown_cell(
            cell_text(lookup(row, columns[n - 1])),
        ) + " |"@
    } else {
        Seq::empty()
    }
}

/// The first `n` rows, a line each.
pub open spec fn markdown_rows(table: TableView, n: nat) -> Seq<char>
    decreases n,
{
    if 0 < n <= table.rows.len() {
        markdown_rows(table, (n - 1) as nat) + "|"@ + markdown_row_cells(
            table.columns,
            table.rows[n - 1],
            table.columns.len(),
        ) + "\n"@
    } else {
        Seq::empty()
    }
}

/// A table as Markdown: the header, the rule, and the rows.
pub open spec fn markdown_table(table: TableView) -> Seq<char> {
    "|"@ + markdown_header_cells(table.columns, table.columns.len()) + "\n"@ + "|"@
        + markdown_rule_cells(table.columns.len()) + "\n"@ + markdown_rows(table, table.rows.len())
}

/// A table as Markdown.
pub fn render_markdown_table(table: &TableArtifact) -> (r: Vec<char>)
    ensures
        r@ == markdown_table(table.deep_view()),
{
    let mut head: Vec<char> = Vec::new();
    let mut rule: Vec<char> = Vec::new();
    let mut i: usize = 0;
    while i < table.columns.len()
        invariant
            i <= table.columns.len(),
            head@ == markdown_header_cells(table.deep_view().columns, i as nat),
            rule@ == markdown_rule_cells(i as nat),
        decreases table.columns.len() - i,
    {
        assert(table.columns.deep_view()[i as int] == table.columns[i as int]@);
        let ghost before = head@;
        append_str(&mut head, " ");
        let name = sanitize_markdown_cell(&chars_of(table.columns[i].as_str()));
        append(&mut head, &name);
        append_str(&mut head, " |");
        assert(head@ =~= before + " "@ + name@ + " |"@);
        append_str(&mut rule, " --- |");
        i += 1;
    }
    let mut body: Vec<char> = Vec::new();
    let mut r: usize = 0;
    while r < table.rows.len()
        invariant
            r <= table.rows.len(),
            body@ == markdown_rows(table.deep_view(), r as nat),
        decreases table.rows.len() - r,
    {
        assert(table.rows.deep_view()[r as int] == table.rows[r as int].deep_view());
        let mut cells: Vec<char> = Vec::new();
        let mut c: usize = 0;
        while c < table.columns.len()
            invariant
                c <= table.columns.len(),
                r < table.rows.len(),
                cells@ == markdown_row_cells(
                    table.deep_view().columns,
                    table.rows[r as int].deep_view(),
                    c as nat,
                ),
            decreases table.columns.len() - c,
        {
            assert(table.columns.deep_view()[c as int] == table.columns[c as int]@);
            let ghost before = cells@;
            append_str(&mut cells, " ");
            let value = sanitize_markdown_cell(&cell(&table.rows[r], &table.columns[c]));
            append(&mut cells, &value);
            append_str(&mut cells, " |");
            assert(cells@ =~= before + " "@ + value@ + " |"@);
            c += 1;
        }
        let ghost before = body@;
        append_str(&mut body, "|");
        append(&mut body, &cells);
        append_str(&mut body, "\n");
        assert(body@ =~= before + "|"@ + cells@ + "\n"@);
        r += 1;
    }
    let mut out = chars_of("|");
    append(&mut out, &head);
    append_str(&mut out, "\n");
    append_str(&mut out, "|");
    append(&mut out, &rule);
    append_str(&mut out, "\n");
    append(&mut out, &body);
    out
}

/// The table of an artifact as Markdown with an empty line behind it, or
/// nothing where it has no table or the table has no columns.
pub open spec fn markdown_table_of(tables: Seq<(Seq<char>, TableView)>, name: Seq<char>) -> Seq<
    char,
> {
    match lookup(tables, name) {
        Some(table) => if table.columns.len() > 0 {
            markdown_table(table) + "\n"@
        } else {
            Seq::empty()
        },
        None => Seq::empty(),
    }
}

/// The section of one artifact: a heading, its table, and its indented JSON
/// in a fenced block.
pub open spec fn markdown_section(
    name: Seq<char>,
    value: JsonView,
    tables: Seq<(Seq<char>, TableView)>,
) -> Seq<char> {
    "## "@ + name + "\n\n"@ + markdown_table_of(tables, name) + "```json\n"@ + json_pretty(value)
        + "\n```\n\n"@
}

/// The sections of the first `n` artifacts.
pub open spec fn markdown_sections(
    includes: Seq<(Seq<char>, JsonView)>,
    tables: Seq<(Seq<char>, TableView)>,
    n: nat,
) -> Seq<char>
    decreases n,
{
    if 0 < n <= includes.len() {
        markdown_sections(includes, tables, (n - 1) as nat) + markdown_section(
            includes[n - 1].0,
            includes[n - 1].1,
            tables,
        )
    } else {
        Seq::empty()
    }
}

/// The Markdown report.
pub open spec fn markdown_report(
    title: Seq<char>,
    generated_at: Seq<char>,
    includes: Seq<(Seq<char>, JsonView)>,
    tables: Seq<(Seq<char>, TableView)>,
) -> Seq<char> {
    "# Axion Report\n\n"@ + "**Title:** "@ + title + "\n\n"@ + "_Generated at "@ + generated_at
        + "_\n\n"@ + (if includes.len() == 0 {
        "No artifacts were included in this report.\n"@
    } else {
        markdown_sections(includes, tables, includes.len())
    })
}

fn markdown_section_chars(name: &String, value: &Json, tables: &Vec<(String, TableArtifact)>) -> (r:
    Vec<char>)
    ensures
        r@ == markdown_section(name@, value.deep_view(), tables.deep_view()),
{
    let mut out = chars_of("## ");
    append_str(&mut out, name.as_str());
    append_str(&mut out, "\n\n");
    let ghost head = out@;
    match table_of(tables, name) {
        Some(table) => {
            if table.columns.len() > 0 {
                let rendered = render_markdown_table(table);
                append(&mut out, &rendered);
                append_str(&mut out, "\n");
                assert(out@ =~= head + (rendered@ + "\n"@));
            } else {
                assert(out@ + Seq::<char>::empty() =~= out@);
            }
        },
        None => {
            assert(out@ + Seq::<char>::empty() =~= out@);
        },
    }
    append_str(&mut out, "```json\n");
    append_str(&mut out, pretty_text(value).as_str());
    append_str(&mut out, "\n```\n\n");
    out
}

/// The Markdown report.
pub fn render_markdown_report(
    title: &str,
    generated_at: &str,
    includes: &Vec<(String, Json)>,
    tables: &Vec<(String, TableArtifact)>,
) -> (r: String)
    ensures
        r@ == markdown_report(title@, generated_at@, includes.deep_view(), tables.deep_view()),
{
    let mut out = chars_of("# Axion Report\n\n");
    append_str(&mut out, "**Title:** ");
    append_str(&mut out, title);
    append_str(&mut out, "\n\n");
    append_str(&mut out, "_Generated at ");
    append_str(&mut out, generated_at);
    append_str(&mut out, "_\n\n");
    if includes.len() == 0 {
        append_str(&mut out, "No artifacts were included in this report.\n");
        return string_of(&out);
    }
    let mut sections: Vec<char> = Vec::new();
    let mut i: usize = 0;
    while i < includes.len()
        invariant
            i <= includes.len(),
            sections@ == markdown_sections(includes.deep_view(), tables.deep_view(), i as nat),
        decreases includes.len() - i,
    {
        assert(includes.deep_view()[i as int] == (
            includes[i as int].0@,
            includes[i as int].1.deep_view(),
        ));
        let section = markdown_section_chars(&includes[i].0, &includes[i].1, tables);
        append(&mut sections, &section);
        i += 1;
    }
    append(&mut out, &sections);
    string_of(&out)
}

// ---------------------------------------------------------------------------
// The console
// ---------------------------------------------------------------------------

/// What `comfy_table` draws for a header and rows with the preset
/// `ASCII_FULL`.
pub uninterp spec fn table_text(columns: Seq<Seq<char>>, rows: Seq<Seq<Seq<char>>>) -> Seq<char>;

/// `comfy_table::Table`: a new table with the preset `ASCII_FULL`, the
/// header `columns` and the rows `rows`, drawn by `to_string`. What it draws
/// depends on those alone.
#[verifier::external_body]
pub(crate) fn draw_table(columns: &Vec<String>, rows: &Vec<Vec<String>>) -> (r: String)
    ensures
        r@ == table_text(columns.deep_view(), rows.deep_view()),
{
    let mut table = comfy_table::Table::new();
    table.load_preset(comfy_table::presets::ASCII_FULL);
    table.set_header(columns.clone());
    table.add_rows(rows.clone());
    table.to_string()
}

/// The cells of a row under the columns.
pub open spec fn row_cells(columns: Seq<Seq<char>>, row: Seq<(Seq<char>, JsonView)>) -> Seq<
    Seq<char>,
> {
    Seq::new(columns.len(), |i: int| cell_text(lookup(row, columns[i])))
}

/// The cells of the rows of a table.
pub open spec fn table_cells(table: TableView) -> Seq<Seq<Seq<char>>> {
    Seq::new(table.rows.len(), |i: int| row_cells(table.columns, table.rows[i]))
}

/// A table as the console shows it.
pub open spec fn console_table(table: TableView) -> Seq<char> {
    table_text(table.columns, table_cells(table))
}

/// A table as the console shows it.
pub fn render_table(table: &TableArtifact) -> (r: String)
    ensures
        r@ == console_table(table.deep_view()),
{
    let mut rows: Vec<Vec<String>> = Vec::new();
    let mut r: usize = 0;
    while r < table.rows.len()
        invariant
            r <= table.rows.len(),
            rows.deep_view() == table_cells(table.deep_view()).take(r as int),
        decreases table.rows.len() - r,
    {
        assert(table.rows.deep_view()[r as int] == table.rows[r as int].deep_view());
        let mut cells: Vec<String> = Vec::new();
        let mut c: usize = 0;
        while c < table.columns.len()
            invariant
                c <= table.columns.len(),
                r < table.rows.len(),
                cells.deep_view() == row_cells(
                    table.deep_view().columns,
                    table.rows[r as int].deep_view(),
                ).take(c as int),
            decreases table.columns.len() - c,
        {
            assert(table.columns.deep_view()[c as int] == table.columns[c as int]@);
            let value = string_of(&cell(&table.rows[r], &table.columns[c]));
            let ghost before = cells.deep_view();
            cells.push(value);
            assert(cells.deep_view() =~= before.push(value@));
            assert(cells.deep_view() =~= row_cells(
                table.deep_view().columns,
                table.rows[r as int].deep_view(),
            ).take(c + 1));
            c += 1;
        }
        assert(cells.deep_view() =~= row_cells(
            table.deep_view().columns,
            table.rows[r as int].deep_view(),
        ));
        let ghost before = rows.deep_view();
        let ghost view = cells.deep_view();
        rows.push(cells);
        assert(rows.deep_view() =~= before.push(view));
        assert(rows.deep_view() =~= table_cells(table.deep_view()).take(r + 1));
        r += 1;
    }
    assert(rows.deep_view() =~= table_cells(table.deep_view()));
    draw_table(&table.columns, &rows)
}

} // verus!
