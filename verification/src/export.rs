//! Export formatting: default columns, file names, CSV cells and NDJSON
//! lines of selected columns, and the HTML report's pieces.

use vstd::prelude::*;
use crate::text::{chars_of, string_of, push_lit, str_eq, strs_view};
use crate::order::{seq_less, str_less};
use crate::urls::{parse_url, url_parse_result};
use crate::words::{decimal_int, i64_to_decimal};

verus! {

/// Export formats.
#[derive(Debug, Clone)]
pub enum ExportFormat {
    Csv,
    Json,
    Html,
    Pdf,
    Xlsx,
    /// Plugin-provided export format, by plugin name.
    Plugin(String),
}

/// What kind of data to export.
#[derive(Debug, Clone, Copy, PartialEq, Eq, Structural)]
pub enum ExportDataType {
    Pages,
    Issues,
    Links,
    Images,
    AiAnalyses,
    FullReport,
}

/// Request payload of an export.
#[derive(Debug, Clone)]
pub struct ExportRequest {
    pub crawl_id: String,
    pub format: ExportFormat,
    pub data_type: ExportDataType,
    pub columns: Option<Vec<String>>,
}

/// Result of a successful export.
#[derive(Debug, Clone)]
pub struct ExportResult {
    pub file_path: String,
    pub rows_exported: u64,
}

/// Default column keys per data type (camelCase, as rows serialize).
pub open spec fn default_columns_spec(t: ExportDataType) -> Seq<Seq<char>> {
    match t {
        ExportDataType::Pages => seq![
            "url"@,
            "statusCode"@,
            "title"@,
            "metaDesc"@,
            "h1"@,
            "canonical"@,
            "contentType"@,
            "responseTimeMs"@,
            "bodySize"@,
            "depth"@,
            "state"@,
            "robotsDirectives"@,
            "fetchedAt"@,
            "errorMessage"@,
        ],
        ExportDataType::Issues => seq![
            "ruleId"@,
            "severity"@,
            "category"@,
            "message"@,
            "pageId"@,
            "detailJson"@,
        ],
        ExportDataType::Links => seq![
            "sourcePage"@,
            "targetUrl"@,
            "anchorText"@,
            "linkType"@,
            "isInternal"@,
            "nofollow"@,
        ],
        ExportDataType::Images => seq!["sourcePage"@, "targetUrl"@, "anchorText"@, "isInternal"@],
        ExportDataType::AiAnalyses => seq![
            "pageId"@,
            "analysisType"@,
            "provider"@,
            "model"@,
            "resultJson"@,
            "inputTokens"@,
            "outputTokens"@,
            "costUsd"@,
            "latencyMs"@,
            "createdAt"@,
        ],
        ExportDataType::FullReport => Seq::empty(),
    }
}

fn push_owned(v: &mut Vec<String>, s: &str)
    ensures
        strs_view(final(v)@) == strs_view(old(v)@).push(s@),
{
    let ghost b = strs_view(v@);
    let t = string_of(&chars_of(s));
    v.push(t);
    assert(strs_view(v@) =~= b.push(s@));
}

/// Default column keys for each data type.
pub fn default_columns(data_type: ExportDataType) -> (r: Vec<String>)
    ensures
        strs_view(r@) == default_columns_spec(data_type),
{
    let mut v: Vec<String> = Vec::new();
    let names: &[&str] = match data_type {
        ExportDataType::Pages => &[
            "url",
            "statusCode",
            "title",
            "metaDesc",
            "h1",
            "canonical",
            "contentType",
            "responseTimeMs",
            "bodySize",
            "depth",
            "state",
            "robotsDirectives",
            "fetchedAt",
            "errorMessage",
        ],
        ExportDataType::Issues => &["ruleId", "severity", "category", "message", "pageId", "detailJson"],
        ExportDataType::Links => &["sourcePage", "targetUrl", "anchorText", "linkType", "isInternal", "nofollow"],
        ExportDataType::Images => &["sourcePage", "targetUrl", "anchorText", "isInternal"],
        ExportDataType::AiAnalyses => &[
            "pageId",
            "analysisType",
            "provider",
            "model",
            "resultJson",
            "inputTokens",
            "outputTokens",
            "costUsd",
            "latencyMs",
            "createdAt",
        ],
        ExportDataType::FullReport => &[],
    };
    let ghost spec_names = default_columns_spec(data_type);
    assert(names@.map_values(|s: &str| s@) =~= spec_names);
    let mut i: usize = 0;
    while i < names.len()
        invariant
            i <= names@.len(),
            names@.map_values(|s: &str| s@) == spec_names,
            strs_view(v@) == spec_names.take(i as int),
        decreases names.len() - i,
    {
        assert(names@.map_values(|s: &str| s@)[i as int] == names@[i as int]@);
        push_owned(&mut v, names[i]);
        assert(spec_names.take(i + 1) =~= spec_names.take(i as int).push(spec_names[i as int]));
        i = i + 1;
    }
    assert(spec_names.take(names@.len() as int) =~= spec_names);
    v
}

/// The label of a data type in file names.
pub open spec fn data_type_label_spec(t: ExportDataType) -> Seq<char> {
    match t {
        ExportDataType::Pages => "pages"@,
        ExportDataType::Issues => "issues"@,
        ExportDataType::Links => "links"@,
        ExportDataType::Images => "images"@,
        ExportDataType::AiAnalyses => "ai-analyses"@,
        ExportDataType::FullReport => "report"@,
    }
}

pub fn data_type_label(data_type: ExportDataType) -> (r: &'static str)
    ensures
        r@ == data_type_label_spec(data_type),
{
    match data_type {
        ExportDataType::Pages => "pages",
        ExportDataType::Issues => "issues",
        ExportDataType::Links => "links",
        ExportDataType::Images => "images",
        ExportDataType::AiAnalyses => "ai-analyses",
        ExportDataType::FullReport => "report",
    }
}

/// The domain part of export file names: the host of the crawl's start URL,
/// or `export`.
pub open spec fn export_domain_spec(start_url: Option<Seq<char>>) -> Seq<char> {
    match start_url {
        Some(u) => match url_parse_result(u) {
            Ok(p) => match p.host {
                Some(h) => h,
                None => "export"@,
            },
            Err(_) => "export"@,
        },
        None => "export"@,
    }
}

pub fn export_domain(start_url: Option<&str>) -> (r: String)
    ensures
        r@ == export_domain_spec(match start_url { Some(s) => Some(s@), None => None }),
{
    match start_url {
        Some(u) => match parse_url(u) {
            Ok(p) => match p.host_str() {
                Some(h) => string_of(&chars_of(h)),
                None => string_of(&chars_of("export")),
            },
            Err(_) => string_of(&chars_of("export")),
        },
        None => string_of(&chars_of("export")),
    }
}

/// A default file name like `example.com-pages-2026-04-05.csv`.
pub fn export_filename(domain: &str, data_type: ExportDataType, date: &str, ext: &str) -> (r: String)
    ensures
        r@ == domain@ + "-"@ + data_type_label_spec(data_type) + "-"@ + date@ + "."@ + ext@,
{
    let mut v: Vec<char> = Vec::new();
    push_lit(&mut v, domain);
    push_lit(&mut v, "-");
    push_lit(&mut v, data_type_label(data_type));
    push_lit(&mut v, "-");
    push_lit(&mut v, date);
    push_lit(&mut v, ".");
    push_lit(&mut v, ext);
    string_of(&v)
}

// ---------------------------------------------------------------------------
// Rows as columns
// ---------------------------------------------------------------------------

/// A serialized field of a row: null, a string, or any other JSON value as
/// its JSON text.
#[derive(Debug, Clone)]
pub enum FieldValue {
    Null,
    Text(String),
    Json(String),
}

pub enum FieldValueV {
    Null,
    Text(Seq<char>),
    Json(Seq<char>),
}

pub open spec fn field_view(v: FieldValue) -> FieldValueV {
    match v {
        FieldValue::Null => FieldValueV::Null,
        FieldValue::Text(t) => FieldValueV::Text(t@),
        FieldValue::Json(t) => FieldValueV::Json(t@),
    }
}

pub open spec fn fields_view(f: Seq<(String, FieldValue)>) -> Seq<(Seq<char>, FieldValueV)> {
    f.map_values(|x: (String, FieldValue)| (x.0@, field_view(x.1)))
}

/// The value of the field named `key` (the first with that name).
pub open spec fn field_of(fields: Seq<(Seq<char>, FieldValueV)>, key: Seq<char>) -> Option<FieldValueV>
    decreases fields.len(),
{
    if fields.len() == 0 {
        None
    } else if fields[0].0 == key {
        Some(fields[0].1)
    } else {
        field_of(fields.drop_first(), key)
    }
}

/// A CSV cell: empty for a missing or null field, the text of a string,
/// the JSON text of anything else.
pub open spec fn csv_cell(v: Option<FieldValueV>) -> Seq<char> {
    match v {
        None => Seq::empty(),
        Some(FieldValueV::Null) => Seq::empty(),
        Some(FieldValueV::Text(t)) => t,
        Some(FieldValueV::Json(t)) => t,
    }
}

fn find_field(fields: &Vec<(String, FieldValue)>, key: &str) -> (r: Option<usize>)
    ensures
        match r {
            Some(i) => i < fields@.len() && field_of(fields_view(fields@), key@) == Some(
                field_view(fields@[i as int].1),
            ),
            None => field_of(fields_view(fields@), key@) is None,
        },
{
    let ghost fv = fields_view(fields@);
    let mut i: usize = 0;
    assert(fv.skip(0) =~= fv);
    while i < fields.len()
        invariant
            i <= fields@.len(),
            fv == fields_view(fields@),
            field_of(fv, key@) == field_of(fv.skip(i as int), key@),
        decreases fields.len() - i,
    {
        assert(fv.skip(i as int)[0] == (fields@[i as int].0@, field_view(fields@[i as int].1)));
        if str_eq(fields[i].0.as_str(), key) {
            return Some(i);
        }
        assert(fv.skip(i as int).drop_first() =~= fv.skip(i + 1));
        i = i + 1;
    }
    None
}

/// The CSV record of a row: one cell per requested column.
pub fn csv_record(fields: &Vec<(String, FieldValue)>, columns: &Vec<String>) -> (r: Vec<String>)
    ensures
        r@.len() == columns@.len(),
        forall|k: int|
            0 <= k < columns@.len() ==> (#[trigger] r@[k])@ == csv_cell(
                field_of(fields_view(fields@), columns@[k]@),
            ),
{
    let mut out: Vec<String> = Vec::new();
    let mut k: usize = 0;
    while k < columns.len()
        invariant
            k <= columns@.len(),
            out@.len() == k,
            forall|j: int|
                0 <= j < k ==> (#[trigger] out@[j])@ == csv_cell(field_of(fields_view(fields@), columns@[j]@)),
        decreases columns.len() - k,
    {
        let cell = match find_field(fields, columns[k].as_str()) {
            None => String::new(),
            Some(i) => match &fields[i].1 {
                FieldValue::Null => String::new(),
                FieldValue::Text(t) => t.clone(),
                FieldValue::Json(t) => t.clone(),
            },
        };
        out.push(cell);
        k = k + 1;
    }
    out
}

/// The JSON text of a field value.
pub open spec fn json_text(v: FieldValueV) -> Seq<char> {
    match v {
        FieldValueV::Null => "null"@,
        FieldValueV::Text(t) => json_string_of(t),
        FieldValueV::Json(t) => t,
    }
}

/// A text as a JSON string literal (quoted and escaped).
pub uninterp spec fn json_string_of(s: Seq<char>) -> Seq<char>;

/// Calls `serde_json::to_string` on a text (which cannot fail for a
/// string). The contract names the literal as a function of the text.
#[verifier::external_body]
pub(crate) fn json_string(s: &str) -> (r: String)
    ensures
        r@ == json_string_of(s@),
{
    serde_json::to_string(s).unwrap_or_default()
}

/// The requested columns a row has, in key order (byte order), each once.
pub open spec fn present_keys(fields: Seq<(Seq<char>, FieldValueV)>, columns: Seq<Seq<char>>) -> Seq<Seq<char>>
    decreases columns.len(),
{
    if columns.len() == 0 {
        Seq::empty()
    } else {
        let ks = present_keys(fields, columns.drop_last());
        let c = columns.last();
        if field_of(fields, c) is None || ks.contains(c) {
            ks
        } else {
            ks.insert(key_pos(ks, c) as int, c)
        }
    }
}

/// Where a key goes among sorted keys.
pub open spec fn key_pos(ks: Seq<Seq<char>>, c: Seq<char>) -> nat
    decreases ks.len(),
{
    if ks.len() == 0 {
        0
    } else if seq_less(c, ks[0]) {
        0
    } else {
        1 + key_pos(ks.drop_first(), c)
    }
}

/// The members of an NDJSON object.
pub open spec fn members(fields: Seq<(Seq<char>, FieldValueV)>, ks: Seq<Seq<char>>) -> Seq<char>
    decreases ks.len(),
{
    if ks.len() == 0 {
        Seq::empty()
    } else {
        let m = json_string_of(ks.last()) + ":"@ + json_text(field_of(fields, ks.last())->0);
        if ks.len() == 1 {
            m
        } else {
            members(fields, ks.drop_last()) + ","@ + m
        }
    }
}

/// The NDJSON line of a row: a JSON object of the requested columns the
/// row has, keys in order, followed by a newline.
pub open spec fn ndjson_line_spec(fields: Seq<(Seq<char>, FieldValueV)>, columns: Seq<Seq<char>>) -> Seq<char> {
    "{"@ + members(fields, present_keys(fields, columns)) + "}\n"@
}

fn keys_have(ks: &Vec<String>, c: &str) -> (r: bool)
    ensures
        r == strs_view(ks@).contains(c@),
{
    let mut i: usize = 0;
    while i < ks.len()
        invariant
            i <= ks@.len(),
            forall|m: int| 0 <= m < i ==> (#[trigger] ks@[m])@ != c@,
        decreases ks.len() - i,
    {
        if str_eq(ks[i].as_str(), c) {
            assert(strs_view(ks@)[i as int] == c@);
            return true;
        }
        i = i + 1;
    }
    assert forall|m: int| 0 <= m < strs_view(ks@).len() implies strs_view(ks@)[m] != c@ by {
        assert(strs_view(ks@)[m] == ks@[m]@);
    }
    false
}

/// The NDJSON line of a row.
pub fn ndjson_line(fields: &Vec<(String, FieldValue)>, columns: &Vec<String>) -> (r: String)
    ensures
        r@ == ndjson_line_spec(fields_view(fields@), strs_view(columns@)),
{
    let ghost fv = fields_view(fields@);
    let ghost cv = strs_view(columns@);
    let mut ks: Vec<String> = Vec::new();
    let mut k: usize = 0;
    while k < columns.len()
        invariant
            k <= columns@.len(),
            fv == fields_view(fields@),
            cv == strs_view(columns@),
            strs_view(ks@) == present_keys(fv, cv.take(k as int)),
            forall|m: int| 0 <= m < ks@.len() ==> field_of(fv, (#[trigger] ks@[m])@) is Some,
        decreases columns.len() - k,
    {
        assert(cv.take(k + 1).drop_last() =~= cv.take(k as int));
        assert(cv.take(k + 1).last() == columns@[k as int]@);
        let c = columns[k].as_str();
        let present = find_field(fields, c).is_some();
        if present && !keys_have(&ks, c) {
            let ghost before = strs_view(ks@);
            let mut j: usize = 0;
            assert(before.skip(0) =~= before);
            while j < ks.len() && !str_less(c, ks[j].as_str())
                invariant
                    j <= ks@.len(),
                    strs_view(ks@) == before,
                    key_pos(before, c@) == j + key_pos(before.skip(j as int), c@),
                decreases ks.len() - j,
            {
                assert(before.skip(j as int)[0] == ks@[j as int]@);
                assert(before.skip(j as int).drop_first() =~= before.skip(j + 1));
                j = j + 1;
            }
            proof {
                if j < ks@.len() {
                    assert(before.skip(j as int)[0] == ks@[j as int]@);
                }
            }
            let ghost ks0 = ks@;
            ks.insert(j, string_of(&chars_of(c)));
            assert(strs_view(ks@) =~= before.insert(j as int, c@));
            assert forall|m: int| 0 <= m < ks@.len() implies field_of(fv, (#[trigger] ks@[m])@) is Some by {
                if m < j {
                    assert(ks@[m] == ks0[m]);
                } else if m > j {
                    assert(ks@[m] == ks0[m - 1]);
                }
            }
        }
        k = k + 1;
    }
    assert(cv.take(columns@.len() as int) =~= cv);
    let ghost keys = strs_view(ks@);
    assert forall|m: int| 0 <= m < keys.len() implies field_of(fv, #[trigger] keys[m]) is Some by {
        assert(keys[m] == ks@[m]@);
    }
    let mut out: Vec<char> = Vec::new();
    push_lit(&mut out, "{");
    let mut i: usize = 0;
    while i < ks.len()
        invariant
            i <= ks@.len(),
            keys == strs_view(ks@),
            fv == fields_view(fields@),
            keys == present_keys(fv, cv),
            forall|m: int| 0 <= m < keys.len() ==> field_of(fv, #[trigger] keys[m]) is Some,
            out@ == "{"@ + members(fv, keys.take(i as int)),
        decreases ks.len() - i,
    {
        let ghost before = out@;
        if i > 0 {
            push_lit(&mut out, ",");
        }
        let key = ks[i].as_str();
        assert(keys[i as int] == key@);
        let ks_json = json_string(key);
        push_lit(&mut out, ks_json.as_str());
        push_lit(&mut out, ":");
        let idx = find_field(fields, key).unwrap();
        match &fields[idx].1 {
            FieldValue::Null => push_lit(&mut out, "null"),
            FieldValue::Text(t) => {
                let js = json_string(t.as_str());
                push_lit(&mut out, js.as_str());
            },
            FieldValue::Json(t) => push_lit(&mut out, t.as_str()),
        }
        proof {
            let t = keys.take(i + 1);
            assert(t.drop_last() =~= keys.take(i as int));
            assert(t.last() == key@);
            reveal_strlit("{");
            if i == 0 {
                assert(out@ =~= "{"@ + members(fv, t));
            } else {
                assert(out@ =~= "{"@ + members(fv, t));
            }
        }
        i = i + 1;
    }
    assert(keys.take(ks@.len() as int) =~= keys);
    push_lit(&mut out, "}\n");
    string_of(&out)
}

// ---------------------------------------------------------------------------
// HTML report
// ---------------------------------------------------------------------------

/// The HTML-escaped form of a character.
pub open spec fn escape_char(c: char) -> Seq<char> {
    if c == '&' {
        "&amp;"@
    } else if c == '<' {
        "&lt;"@
    } else if c == '>' {
        "&gt;"@
    } else if c == '"' {
        "&quot;"@
    } else {
        seq![c]
    }
}

/// Text with `&`, `<`, `>` and `"` escaped for HTML.
pub open spec fn html_escaped(s: Seq<char>) -> Seq<char>
    decreases s.len(),
{
    if s.len() == 0 {
        Seq::empty()
    } else {
        html_escaped(s.drop_last()) + escape_char(s.last())
    }
}

/// Escape text for HTML.
pub fn html_escape(s: &str) -> (r: String)
    ensures
        r@ == html_escaped(s@),
{
    let cs = chars_of(s);
    let mut out: Vec<char> = Vec::new();
    let mut i: usize = 0;
    while i < cs.len()
        invariant
            i <= cs@.len(),
            cs@ == s@,
            out@ == html_escaped(cs@.take(i as int)),
        decreases cs.len() - i,
    {
        let c = cs[i];
        assert(cs@.take(i + 1).drop_last() =~= cs@.take(i as int));
        assert(cs@.take(i + 1).last() == c);
        if c == '&' {
            push_lit(&mut out, "&amp;");
        } else if c == '<' {
            push_lit(&mut out, "&lt;");
        } else if c == '>' {
            push_lit(&mut out, "&gt;");
        } else if c == '"' {
            push_lit(&mut out, "&quot;");
        } else {
            out.push(c);
        }
        i = i + 1;
    }
    assert(cs@.take(cs@.len() as int) =~= cs@);
    string_of(&out)
}

/// The badge class of a severity.
pub open spec fn badge_class(severity: Seq<char>) -> Seq<char> {
    if severity == "error"@ {
        "badge-error"@
    } else if severity == "warning"@ {
        "badge-warning"@
    } else {
        "badge-info"@
    }
}

/// A severity badge: `<span class="badge CLASS">SEVERITY</span>`.
pub fn severity_badge(severity: &str) -> (r: String)
    ensures
        r@ == "<span class=\"badge "@ + badge_class(severity@) + "\">"@ + severity@ + "</span>"@,
{
    let class = if str_eq(severity, "error") {
        "badge-error"
    } else if str_eq(severity, "warning") {
        "badge-warning"
    } else {
        "badge-info"
    };
    let mut v: Vec<char> = Vec::new();
    push_lit(&mut v, "<span class=\"badge ");
    push_lit(&mut v, class);
    push_lit(&mut v, "\">");
    push_lit(&mut v, severity);
    push_lit(&mut v, "</span>");
    string_of(&v)
}

/// A rule among the most frequent issues of a crawl.
#[derive(Debug, Clone)]
pub struct TopIssueEntry {
    pub rule_id: String,
    pub severity: String,
    pub category: String,
    pub count: i64,
}

/// The table row of a top issue.
pub open spec fn top_issue_row(e: TopIssueEntry) -> Seq<char> {
    "<tr><td>"@ + html_escaped(e.rule_id@) + "</td><td>"@ + "<span class=\"badge "@ + badge_class(
        e.severity@,
    ) + "\">"@ + e.severity@ + "</span>"@ + "</td><td>"@ + html_escaped(e.category@) + "</td><td>"@
        + decimal_int(e.count as int) + "</td></tr>\n"@
}

pub open spec fn top_issue_rows(s: Seq<TopIssueEntry>) -> Seq<char>
    decreases s.len(),
{
    if s.len() == 0 {
        Seq::empty()
    } else {
        top_issue_rows(s.drop_last()) + top_issue_row(s.last())
    }
}

fn push_top_issue_row(v: &mut Vec<char>, e: &TopIssueEntry)
    ensures
        final(v)@ == old(v)@ + top_issue_row(*e),
{
    push_lit(v, "<tr><td>");
    push_lit(v, html_escape(e.rule_id.as_str()).as_str());
    push_lit(v, "</td><td>");
    push_lit(v, severity_badge(e.severity.as_str()).as_str());
    push_lit(v, "</td><td>");
    push_lit(v, html_escape(e.category.as_str()).as_str());
    push_lit(v, "</td><td>");
    push_lit(v, i64_to_decimal(e.count).as_str());
    push_lit(v, "</td></tr>\n");
    assert(v@ =~= old(v)@ + top_issue_row(*e));
}

/// Head of the top issues table.
pub const TOP_ISSUES_HEAD: &'static str = "<table>\n<thead><tr><th>Rule</th><th>Severity</th><th>Category</th><th>Count</th></tr></thead>\n<tbody>\n";

/// The top issues table, or a note when there are none.
pub fn build_top_issues_table(issues: &Vec<TopIssueEntry>) -> (r: String)
    ensures
        r@ == if issues@.len() == 0 {
            "<p>No issues found.</p>"@
        } else {
            TOP_ISSUES_HEAD@ + top_issue_rows(issues@) + "</tbody></table>"@
        },
{
    if issues.len() == 0 {
        return string_of(&chars_of("<p>No issues found.</p>"));
    }
    let mut v: Vec<char> = Vec::new();
    push_lit(&mut v, TOP_ISSUES_HEAD);
    let mut i: usize = 0;
    while i < issues.len()
        invariant
            i <= issues@.len(),
            v@ == TOP_ISSUES_HEAD@ + top_issue_rows(issues@.take(i as int)),
        decreases issues.len() - i,
    {
        let e = &issues[i];
        push_top_issue_row(&mut v, e);
        assert(issues@.take(i + 1).drop_last() =~= issues@.take(i as int));
        assert(issues@.take(i + 1).last() == *e);
        assert(v@ =~= TOP_ISSUES_HEAD@ + top_issue_rows(issues@.take(i + 1)));
        i = i + 1;
    }
    assert(issues@.take(issues@.len() as int) =~= issues@);
    push_lit(&mut v, "</tbody></table>");
    string_of(&v)
}

// ---------------------------------------------------------------------------
// Template filling
// ---------------------------------------------------------------------------

/// `s` with every occurrence of `pat` (left to right, not overlapping)
/// replaced by `rep`, as `str::replace` does. `pat` is not empty.
pub open spec fn replace_all(s: Seq<char>, pat: Seq<char>, rep: Seq<char>) -> Seq<char>
    recommends
        pat.len() > 0,
    decreases s.len(),
{
    if pat.len() == 0 || s.len() < pat.len() {
        s
    } else if s.take(pat.len() as int) == pat {
        rep + replace_all(s.skip(pat.len() as int), pat, rep)
    } else {
        seq![s[0]] + replace_all(s.drop_first(), pat, rep)
    }
}

/// Replace every occurrence of a non-empty placeholder.
pub fn replace_text(s: &str, pat: &str, rep: &str) -> (r: String)
    requires
        pat@.len() > 0,
    ensures
        r@ == replace_all(s@, pat@, rep@),
{
    let cs = chars_of(s);
    let ps = chars_of(pat);
    let mut out: Vec<char> = Vec::new();
    let mut i: usize = 0;
    assert(cs@.skip(0) =~= cs@);
    while i < cs.len()
        invariant
            i <= cs@.len(),
            cs@ == s@,
            ps@ == pat@,
            ps@.len() > 0,
            out@ + replace_all(cs@.skip(i as int), ps@, rep@) == replace_all(cs@, ps@, rep@),
        decreases cs.len() - i,
    {
        let ghost t = cs@.skip(i as int);
        if cs.len() - i >= ps.len() && crate::text::occurs_at_exec(&cs, &ps, i) {
            assert(t.take(ps@.len() as int) =~= ps@);
            push_lit(&mut out, rep);
            assert(t.skip(ps@.len() as int) =~= cs@.skip(i + ps@.len()));
            i = i + ps.len();
        } else {
            proof {
                if t.len() >= ps@.len() {
                    assert(t.take(ps@.len() as int) =~= cs@.subrange(i as int, i + ps@.len()));
                }
            }
            out.push(cs[i]);
            assert(t.drop_first() =~= cs@.skip(i + 1));
            i = i + 1;
        }
    }
    assert(out@ =~= replace_all(cs@, ps@, rep@));
    string_of(&out)
}

/// Fill a template: each `(placeholder, value)` pair in order replaces all
/// occurrences of its placeholder.
pub open spec fn filled(template: Seq<char>, pairs: Seq<(Seq<char>, Seq<char>)>) -> Seq<char>
    decreases pairs.len(),
{
    if pairs.len() == 0 {
        template
    } else {
        replace_all(filled(template, pairs.drop_last()), pairs.last().0, pairs.last().1)
    }
}

/// Fill a report template with non-empty placeholders.
pub fn fill_template(template: &str, pairs: &Vec<(String, String)>) -> (r: String)
    requires
        forall|k: int| 0 <= k < pairs@.len() ==> (#[trigger] pairs@[k]).0@.len() > 0,
    ensures
        r@ == filled(template@, pairs@.map_values(|p: (String, String)| (p.0@, p.1@))),
{
    let ghost pv = pairs@.map_values(|p: (String, String)| (p.0@, p.1@));
    let mut cur = string_of(&chars_of(template));
    let mut i: usize = 0;
    while i < pairs.len()
        invariant
            i <= pairs@.len(),
            pv == pairs@.map_values(|p: (String, String)| (p.0@, p.1@)),
            forall|k: int| 0 <= k < pairs@.len() ==> (#[trigger] pairs@[k]).0@.len() > 0,
            cur@ == filled(template@, pv.take(i as int)),
        decreases pairs.len() - i,
    {
        assert(pv.take(i + 1).drop_last() =~= pv.take(i as int));
        assert(pv.take(i + 1).last() == (pairs@[i as int].0@, pairs@[i as int].1@));
        cur = replace_text(cur.as_str(), pairs[i].0.as_str(), pairs[i].1.as_str());
        i = i + 1;
    }
    assert(pv.take(pairs@.len() as int) =~= pv);
    cur
}

// ---------------------------------------------------------------------------
// Crawl files
// ---------------------------------------------------------------------------

/// The suggested name of a saved crawl: `<domain>-<crawl id>.seocrawl`.
pub fn crawl_file_name(domain: &str, crawl_id: &str) -> (r: String)
    ensures
        r@ == domain@ + "-"@ + crawl_id@ + ".seocrawl"@,
{
    let mut v: Vec<char> = Vec::new();
    push_lit(&mut v, domain);
    push_lit(&mut v, "-");
    push_lit(&mut v, crawl_id);
    push_lit(&mut v, ".seocrawl");
    string_of(&v)
}

/// The statement that attaches a database file under `alias`, the path
/// quoted as an SQL string literal (each `'` doubled).
pub fn attach_statement(path: &str, alias: &str) -> (r: String)
    ensures
        r@ == "ATTACH DATABASE '"@ + replace_all(path@, "'"@, "''"@) + "' AS "@ + alias@,
{
    proof {
        reveal_strlit("'");
    }
    let quoted = replace_text(path, "'", "''");
    let mut v: Vec<char> = Vec::new();
    push_lit(&mut v, "ATTACH DATABASE '");
    push_lit(&mut v, quoted.as_str());
    push_lit(&mut v, "' AS ");
    push_lit(&mut v, alias);
    string_of(&v)
}


/// The columns that say which row a record stands for: a page's URL; an
/// issue's rule and page; a link's or an image's source page and target
/// URL; an analysis's page and type.
pub open spec fn identifying_columns(t: ExportDataType) -> Seq<Seq<char>> {
    match t {
        ExportDataType::Pages => seq!["url"@],
        ExportDataType::Issues => seq!["ruleId"@, "pageId"@],
        ExportDataType::Links => seq!["sourcePage"@, "targetUrl"@],
        ExportDataType::Images => seq!["sourcePage"@, "targetUrl"@],
        ExportDataType::AiAnalyses => seq!["pageId"@, "analysisType"@],
        ExportDataType::FullReport => Seq::empty(),
    }
}

/// An export without chosen columns still names each row: the default
/// columns of every data type include its identifying columns, and links
/// and images start with where they are found and where they point.
pub proof fn law_default_columns_identify_rows(t: ExportDataType)
    ensures
        forall|k: int| 0 <= k < identifying_columns(t).len() ==> default_columns_spec(t).contains(
            #[trigger] identifying_columns(t)[k],
        ),
        (t == ExportDataType::Links || t == ExportDataType::Images) ==> default_columns_spec(t).take(2)
            == seq!["sourcePage"@, "targetUrl"@],
{
    let d = default_columns_spec(t);
    match t {
        ExportDataType::Pages => {
            assert(d[0] == "url"@);
        },
        ExportDataType::Issues => {
            assert(d[0] == "ruleId"@);
            assert(d[4] == "pageId"@);
        },
        ExportDataType::Links => {
            assert(d[0] == "sourcePage"@);
            assert(d[1] == "targetUrl"@);
            assert(d.take(2) =~= seq!["sourcePage"@, "targetUrl"@]);
        },
        ExportDataType::Images => {
            assert(d[0] == "sourcePage"@);
            assert(d[1] == "targetUrl"@);
            assert(d.take(2) =~= seq!["sourcePage"@, "targetUrl"@]);
        },
        ExportDataType::AiAnalyses => {
            assert(d[0] == "pageId"@);
            assert(d[1] == "analysisType"@);
        },
        ExportDataType::FullReport => {},
    }
}

/// Every link exported with the default columns names where it is found
/// and where it points: in a CSV record of a link row under those columns
/// (as `csv_record` gives it), the first cell is the row's source page and
/// the second its target URL.
pub proof fn law_link_record_names_target(fields: Seq<(Seq<char>, FieldValueV)>, record: Seq<Seq<char>>)
    requires
        record.len() == default_columns_spec(ExportDataType::Links).len(),
        forall|k: int| 0 <= k < record.len() ==> #[trigger] record[k] == csv_cell(
            field_of(fields, default_columns_spec(ExportDataType::Links)[k]),
        ),
    ensures
        record[0] == csv_cell(field_of(fields, "sourcePage"@)),
        record[1] == csv_cell(field_of(fields, "targetUrl"@)),
{
    law_default_columns_identify_rows(ExportDataType::Links);
    assert(default_columns_spec(ExportDataType::Links).take(2)[1] == default_columns_spec(ExportDataType::Links)[1]);
    assert(record[0] == csv_cell(field_of(fields, default_columns_spec(ExportDataType::Links)[0])));
    assert(record[1] == csv_cell(field_of(fields, default_columns_spec(ExportDataType::Links)[1])));
}

} // verus!
