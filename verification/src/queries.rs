//! SQL for the paginated result queries: allowlisted sort columns, the
//! filter clauses with their parameters, the assembled queries, and the
//! folding of per-severity counts.

use vstd::prelude::*;
use crate::text::{chars_of, string_of, str_eq, push_lit, push_str_of};

verus! {

/// A bound SQL parameter.
#[derive(Debug, Clone)]
pub enum SqlValue {
    Integer(i64),
    Text(String),
}

pub enum SqlValueV {
    Integer(i64),
    Text(Seq<char>),
}

pub open spec fn sql_view(v: SqlValue) -> SqlValueV {
    match v {
        SqlValue::Integer(i) => SqlValueV::Integer(i),
        SqlValue::Text(t) => SqlValueV::Text(t@),
    }
}

pub open spec fn sqls_view(s: Seq<SqlValue>) -> Seq<SqlValueV> {
    s.map_values(|v: SqlValue| sql_view(v))
}

/// Base query for paginated pages; filters and ordering are appended.
pub const SELECT_PAGES_BASE: &'static str = r#"
    SELECT id, crawl_id, url, depth, status_code, content_type,
           response_time_ms, body_size, title, meta_desc, h1, canonical,
           robots_directives, state, fetched_at, error_message
    FROM pages
    WHERE crawl_id = ?1
"#;

/// Base query for paginated issues.
pub const SELECT_ISSUES_BASE: &'static str = r#"
    SELECT id, crawl_id, page_id, rule_id, severity, category, message, detail_json
    FROM issues
    WHERE crawl_id = ?1
"#;

/// Base query for paginated links.
pub const SELECT_LINKS_BASE: &'static str = r#"
    SELECT id, crawl_id, source_page, target_url, anchor_text,
           link_type, is_internal, nofollow
    FROM links
    WHERE crawl_id = ?1
"#;

pub open spec fn opt_str(o: Option<&str>) -> Option<Seq<char>> {
    match o {
        Some(s) => Some(s@),
        None => None,
    }
}

/// The column pages are ordered by for a requested sort key; unknown keys
/// order by id.
pub open spec fn pages_sort_column(sort_by: Option<Seq<char>>) -> Seq<char> {
    match sort_by {
        Some(k) => if k == "url"@ {
            "url"@
        } else if k == "statusCode"@ {
            "status_code"@
        } else if k == "title"@ {
            "title"@
        } else if k == "responseTimeMs"@ {
            "response_time_ms"@
        } else if k == "bodySize"@ {
            "body_size"@
        } else if k == "depth"@ {
            "depth"@
        } else if k == "state"@ {
            "state"@
        } else {
            "id"@
        },
        None => "id"@,
    }
}

/// Allowlisted sort column for pages.
pub fn pages_sort_col(sort_by: Option<&str>) -> (r: &'static str)
    ensures
        r@ == pages_sort_column(opt_str(sort_by)),
{
    match sort_by {
        Some(k) => if str_eq(k, "url") {
            "url"
        } else if str_eq(k, "statusCode") {
            "status_code"
        } else if str_eq(k, "title") {
            "title"
        } else if str_eq(k, "responseTimeMs") {
            "response_time_ms"
        } else if str_eq(k, "bodySize") {
            "body_size"
        } else if str_eq(k, "depth") {
            "depth"
        } else if str_eq(k, "state") {
            "state"
        } else {
            "id"
        },
        None => "id",
    }
}

/// The column issues are ordered by for a requested sort key.
pub open spec fn issues_sort_column(sort_by: Option<Seq<char>>) -> Seq<char> {
    match sort_by {
        Some(k) => if k == "severity"@ {
            "severity"@
        } else if k == "category"@ {
            "category"@
        } else if k == "ruleId"@ {
            "rule_id"@
        } else if k == "message"@ {
            "message"@
        } else if k == "pageId"@ {
            "page_id"@
        } else {
            "id"@
        },
        None => "id"@,
    }
}

/// Allowlisted sort column for issues.
pub fn issues_sort_col(sort_by: Option<&str>) -> (r: &'static str)
    ensures
        r@ == issues_sort_column(opt_str(sort_by)),
{
    match sort_by {
        Some(k) => if str_eq(k, "severity") {
            "severity"
        } else if str_eq(k, "category") {
            "category"
        } else if str_eq(k, "ruleId") {
            "rule_id"
        } else if str_eq(k, "message") {
            "message"
        } else if str_eq(k, "pageId") {
            "page_id"
        } else {
            "id"
        },
        None => "id",
    }
}

/// The column links are ordered by for a requested sort key.
pub open spec fn links_sort_column(sort_by: Option<Seq<char>>) -> Seq<char> {
    match sort_by {
        Some(k) => if k == "sourcePage"@ {
            "source_page"@
        } else if k == "targetUrl"@ {
            "target_url"@
        } else if k == "linkType"@ {
            "link_type"@
        } else if k == "anchorText"@ {
            "anchor_text"@
        } else {
            "id"@
        },
        None => "id"@,
    }
}

/// Allowlisted sort column for links.
pub fn links_sort_col(sort_by: Option<&str>) -> (r: &'static str)
    ensures
        r@ == links_sort_column(opt_str(sort_by)),
{
    match sort_by {
        Some(k) => if str_eq(k, "sourcePage") {
            "source_page"
        } else if str_eq(k, "targetUrl") {
            "target_url"
        } else if str_eq(k, "linkType") {
            "link_type"
        } else if str_eq(k, "anchorText") {
            "anchor_text"
        } else {
            "id"
        },
        None => "id",
    }
}

/// `n` placeholders `?` separated by commas.
pub open spec fn placeholders(n: nat) -> Seq<char>
    decreases n,
{
    if n == 0 {
        Seq::empty()
    } else if n == 1 {
        "?"@
    } else {
        placeholders((n - 1) as nat) + ",?"@
    }
}

/// A present, non-empty text filter.
pub open spec fn given(o: Option<Seq<char>>) -> bool {
    o matches Some(s) && s.len() > 0
}

/// The WHERE clauses of the page filters.
pub open spec fn page_filter_clauses(url_search: Option<Seq<char>>, codes: Option<Seq<u16>>, content_type: Option<Seq<char>>) -> Seq<char> {
    (if given(url_search) { " AND url LIKE ?"@ } else { Seq::empty() })
    + (match codes {
        Some(c) => if c.len() > 0 {
            " AND status_code IN ("@ + placeholders(c.len()) + ")"@
        } else {
            Seq::empty()
        },
        None => Seq::empty(),
    })
    + (if given(content_type) { " AND content_type LIKE ?"@ } else { Seq::empty() })
}

/// The parameters of the page filters, in clause order.
pub open spec fn page_filter_values(url_search: Option<Seq<char>>, codes: Option<Seq<u16>>, content_type: Option<Seq<char>>) -> Seq<SqlValueV> {
    (if given(url_search) {
        seq![SqlValueV::Text("%"@ + url_search->0 + "%"@)]
    } else {
        Seq::empty()
    })
    + (match codes {
        Some(c) => c.map_values(|x: u16| SqlValueV::Integer(x as i64)),
        None => Seq::empty(),
    })
    + (if given(content_type) {
        seq![SqlValueV::Text(content_type->0 + "%"@)]
    } else {
        Seq::empty()
    })
}

fn is_given(o: Option<&str>) -> (r: bool)
    ensures
        r == given(opt_str(o)),
{
    match o {
        Some(s) => !s.is_empty(),
        None => false,
    }
}

fn push_value(values: &mut Vec<SqlValue>, v: SqlValue)
    ensures
        sqls_view(final(values)@) == sqls_view(old(values)@).push(sql_view(v)),
{
    let ghost b = sqls_view(values@);
    let ghost vv = sql_view(v);
    values.push(v);
    assert(sqls_view(values@) =~= b.push(vv));
}

/// Build the WHERE clauses and parameter values for page filters.
pub fn build_page_filters(url_search: Option<&str>, status_codes: Option<&Vec<u16>>, content_type: Option<&str>) -> (r: (String, Vec<SqlValue>))
    ensures
        r.0@ == page_filter_clauses(
            opt_str(url_search),
            match status_codes { Some(c) => Some(c@), None => None },
            opt_str(content_type),
        ),
        sqls_view(r.1@) == page_filter_values(
            opt_str(url_search),
            match status_codes { Some(c) => Some(c@), None => None },
            opt_str(content_type),
        ),
{
    let mut clauses: Vec<char> = Vec::new();
    let mut values: Vec<SqlValue> = Vec::new();
    let ghost c1;
    let ghost v1;
    if is_given(url_search) {
        let s = url_search.unwrap();
        push_lit(&mut clauses, " AND url LIKE ?");
        let mut t: Vec<char> = Vec::new();
        push_lit(&mut t, "%");
        push_lit(&mut t, s);
        push_lit(&mut t, "%");
        push_value(&mut values, SqlValue::Text(string_of(&t)));
    }
    proof {
        c1 = clauses@;
        v1 = sqls_view(values@);
    }
    match status_codes {
        Some(codes) => {
            if codes.len() > 0 {
                push_lit(&mut clauses, " AND status_code IN (");
                let ghost base_c = clauses@;
                let ghost base_v = sqls_view(values@);
                let mut i: usize = 0;
                while i < codes.len()
                    invariant
                        i <= codes@.len(),
                        clauses@ == base_c + placeholders(i as nat),
                        sqls_view(values@) == base_v + codes@.take(i as int).map_values(
                            |x: u16| SqlValueV::Integer(x as i64),
                        ),
                    decreases codes.len() - i,
                {
                    if i == 0 {
                        push_lit(&mut clauses, "?");
                    } else {
                        push_lit(&mut clauses, ",?");
                    }
                    let ghost before = sqls_view(values@);
                    push_value(&mut values, SqlValue::Integer(codes[i] as i64));
                    assert(codes@.take(i + 1).map_values(|x: u16| SqlValueV::Integer(x as i64))
                        =~= codes@.take(i as int).map_values(|x: u16| SqlValueV::Integer(x as i64)).push(
                        SqlValueV::Integer(codes@[i as int] as i64),
                    ));
                    proof {
                        reveal_strlit("?");
                        reveal_strlit(",?");
                    }
                    i = i + 1;
                }
                assert(codes@.take(codes@.len() as int) =~= codes@);
                push_lit(&mut clauses, ")");
            }
        },
        None => {},
    }
    let ghost c2 = clauses@;
    let ghost v2 = sqls_view(values@);
    if is_given(content_type) {
        let s = content_type.unwrap();
        push_lit(&mut clauses, " AND content_type LIKE ?");
        let mut t: Vec<char> = Vec::new();
        push_lit(&mut t, s);
        push_lit(&mut t, "%");
        push_value(&mut values, SqlValue::Text(string_of(&t)));
    }
    proof {
        let codes_v = match status_codes { Some(c) => Some(c@), None => None };
        assert(clauses@ =~= page_filter_clauses(opt_str(url_search), codes_v, opt_str(content_type)));
        assert(sqls_view(values@) =~= page_filter_values(opt_str(url_search), codes_v, opt_str(content_type)));
    }
    (string_of(&clauses), values)
}

/// The WHERE clauses of the issue filters.
pub open spec fn issue_filter_clauses(severity: Option<Seq<char>>, category: Option<Seq<char>>, rule_id: Option<Seq<char>>) -> Seq<char> {
    (if given(severity) { " AND severity = ?"@ } else { Seq::empty() })
    + (if given(category) { " AND category = ?"@ } else { Seq::empty() })
    + (if given(rule_id) { " AND rule_id = ?"@ } else { Seq::empty() })
}

/// The parameter a given text filter binds.
pub open spec fn text_value(o: Option<Seq<char>>) -> Seq<SqlValueV> {
    if given(o) {
        seq![SqlValueV::Text(o->0)]
    } else {
        Seq::empty()
    }
}

fn push_text_filter(clauses: &mut Vec<char>, values: &mut Vec<SqlValue>, o: Option<&str>, clause: &str)
    ensures
        final(clauses)@ == old(clauses)@ + (if given(opt_str(o)) { clause@ } else { Seq::empty() }),
        sqls_view(final(values)@) == sqls_view(old(values)@) + text_value(opt_str(o)),
{
    if is_given(o) {
        push_lit(clauses, clause);
        push_value(values, SqlValue::Text(string_of(&chars_of(o.unwrap()))));
        assert(sqls_view(values@) =~= sqls_view(old(values)@) + text_value(opt_str(o)));
    } else {
        assert(clauses@ =~= old(clauses)@ + Seq::<char>::empty());
        assert(sqls_view(values@) =~= sqls_view(old(values)@) + text_value(opt_str(o)));
    }
}

/// Build the WHERE clauses and parameter values for issue filters.
pub fn build_issue_filters(severity: Option<&str>, category: Option<&str>, rule_id: Option<&str>) -> (r: (String, Vec<SqlValue>))
    ensures
        r.0@ == issue_filter_clauses(opt_str(severity), opt_str(category), opt_str(rule_id)),
        sqls_view(r.1@) == text_value(opt_str(severity)) + text_value(opt_str(category)) + text_value(opt_str(rule_id)),
{
    let mut clauses: Vec<char> = Vec::new();
    let mut values: Vec<SqlValue> = Vec::new();
    push_text_filter(&mut clauses, &mut values, severity, " AND severity = ?");
    push_text_filter(&mut clauses, &mut values, category, " AND category = ?");
    push_text_filter(&mut clauses, &mut values, rule_id, " AND rule_id = ?");
    assert(clauses@ =~= issue_filter_clauses(opt_str(severity), opt_str(category), opt_str(rule_id)));
    assert(sqls_view(values@) =~= text_value(opt_str(severity)) + text_value(opt_str(category)) + text_value(opt_str(rule_id)));
    (string_of(&clauses), values)
}

/// Only internal links whose target is a crawled page with status 400 or
/// more (only internal links can be checked).
pub const BROKEN_LINKS_CLAUSE: &'static str = " AND is_internal = 1 AND target_url IN (SELECT url FROM pages WHERE crawl_id = links.crawl_id AND status_code >= 400)";

/// External links, and internal links whose target is not such a page.
pub const UNBROKEN_LINKS_CLAUSE: &'static str = " AND (is_internal = 0 OR target_url NOT IN (SELECT url FROM pages WHERE crawl_id = links.crawl_id AND status_code >= 400))";

/// The WHERE clauses of the link filters.
pub open spec fn link_filter_clauses(link_type: Option<Seq<char>>, is_internal: Option<bool>, is_broken: Option<bool>, anchor_text_missing: Option<bool>) -> Seq<char> {
    (if given(link_type) { " AND link_type = ?"@ } else { Seq::empty() })
    + (if is_internal is Some { " AND is_internal = ?"@ } else { Seq::empty() })
    + (if anchor_text_missing == Some(true) { " AND (anchor_text IS NULL OR anchor_text = '')"@ } else { Seq::empty() })
    + (match is_broken {
        Some(true) => BROKEN_LINKS_CLAUSE@,
        Some(false) => UNBROKEN_LINKS_CLAUSE@,
        None => Seq::empty(),
    })
}

/// The parameters of the link filters.
pub open spec fn link_filter_values(link_type: Option<Seq<char>>, is_internal: Option<bool>) -> Seq<SqlValueV> {
    text_value(link_type) + match is_internal {
        Some(b) => seq![SqlValueV::Integer(if b { 1 } else { 0 })],
        None => Seq::empty(),
    }
}

/// Build the WHERE clauses and parameter values for link filters.
pub fn build_link_filters(link_type: Option<&str>, is_internal: Option<bool>, is_broken: Option<bool>, anchor_text_missing: Option<bool>) -> (r: (String, Vec<SqlValue>))
    ensures
        r.0@ == link_filter_clauses(opt_str(link_type), is_internal, is_broken, anchor_text_missing),
        sqls_view(r.1@) == link_filter_values(opt_str(link_type), is_internal),
{
    let mut clauses: Vec<char> = Vec::new();
    let mut values: Vec<SqlValue> = Vec::new();
    push_text_filter(&mut clauses, &mut values, link_type, " AND link_type = ?");
    let ghost c1 = clauses@;
    let ghost v1 = sqls_view(values@);
    if let Some(internal) = is_internal {
        push_lit(&mut clauses, " AND is_internal = ?");
        push_value(&mut values, SqlValue::Integer(if internal { 1 } else { 0 }));
    }
    let ghost c2 = clauses@;
    if anchor_text_missing == Some(true) {
        push_lit(&mut clauses, " AND (anchor_text IS NULL OR anchor_text = '')");
    }
    let ghost c3 = clauses@;
    match is_broken {
        Some(true) => {
            push_lit(&mut clauses, BROKEN_LINKS_CLAUSE);
        },
        Some(false) => {
            push_lit(&mut clauses, UNBROKEN_LINKS_CLAUSE);
        },
        None => {},
    }
    assert(clauses@ =~= link_filter_clauses(opt_str(link_type), is_internal, is_broken, anchor_text_missing));
    assert(sqls_view(values@) =~= link_filter_values(opt_str(link_type), is_internal));
    (string_of(&clauses), values)
}

/// A paginated query: the base query, the filter clauses, then ordering and
/// paging, with its parameters (the crawl id, the filter values, the limit
/// and the offset).
pub open spec fn paged_query(base: Seq<char>, clauses: Seq<char>, order_col: Seq<char>, desc: bool) -> Seq<char> {
    base + clauses + " ORDER BY "@ + order_col + " "@ + (if desc { "DESC"@ } else { "ASC"@ }) + " LIMIT ? OFFSET ?"@
}

/// Assemble a paginated query and its parameters.
pub fn paged_query_with_params(
    base: &str,
    filters: (String, Vec<SqlValue>),
    order_col: &str,
    desc: bool,
    crawl_id: &str,
    limit: i64,
    offset: i64,
) -> (r: (String, Vec<SqlValue>))
    ensures
        r.0@ == paged_query(base@, filters.0@, order_col@, desc),
        sqls_view(r.1@) == seq![SqlValueV::Text(crawl_id@)] + sqls_view(filters.1@) + seq![
            SqlValueV::Integer(limit),
            SqlValueV::Integer(offset),
        ],
{
    let (clauses, fvals) = filters;
    let mut q: Vec<char> = Vec::new();
    push_lit(&mut q, base);
    push_lit(&mut q, clauses.as_str());
    push_lit(&mut q, " ORDER BY ");
    push_lit(&mut q, order_col);
    push_lit(&mut q, " ");
    if desc {
        push_lit(&mut q, "DESC");
    } else {
        push_lit(&mut q, "ASC");
    }
    push_lit(&mut q, " LIMIT ? OFFSET ?");
    let mut values: Vec<SqlValue> = Vec::new();
    push_value(&mut values, SqlValue::Text(string_of(&chars_of(crawl_id))));
    let mut fv = fvals;
    let ghost fvv = sqls_view(fv@);
    let ghost before = values@;
    values.append(&mut fv);
    assert(sqls_view(values@) =~= sqls_view(before) + fvv);
    push_value(&mut values, SqlValue::Integer(limit));
    push_value(&mut values, SqlValue::Integer(offset));
    assert(sqls_view(values@) =~= seq![SqlValueV::Text(crawl_id@)] + fvv + seq![
        SqlValueV::Integer(limit),
        SqlValueV::Integer(offset),
    ]);
    (string_of(&q), values)
}

/// A count query over a table for a crawl, with filter clauses.
pub open spec fn count_query(table: Seq<char>, clauses: Seq<char>) -> Seq<char> {
    "SELECT COUNT(*) FROM "@ + table + " WHERE crawl_id = ?"@ + clauses
}

/// Assemble a count query and its parameters (the crawl id, then the
/// filter values).
pub fn count_query_with_params(table: &str, filters: (String, Vec<SqlValue>), crawl_id: &str) -> (r: (String, Vec<SqlValue>))
    ensures
        r.0@ == count_query(table@, filters.0@),
        sqls_view(r.1@) == seq![SqlValueV::Text(crawl_id@)] + sqls_view(filters.1@),
{
    let (clauses, fvals) = filters;
    let mut q: Vec<char> = Vec::new();
    push_lit(&mut q, "SELECT COUNT(*) FROM ");
    push_lit(&mut q, table);
    push_lit(&mut q, " WHERE crawl_id = ?");
    push_lit(&mut q, clauses.as_str());
    let mut values: Vec<SqlValue> = Vec::new();
    push_value(&mut values, SqlValue::Text(string_of(&chars_of(crawl_id))));
    let mut fv = fvals;
    let ghost fvv = sqls_view(fv@);
    let ghost before = values@;
    values.append(&mut fv);
    assert(sqls_view(values@) =~= sqls_view(before) + fvv);
    (string_of(&q), values)
}

/// Issue counts by severity from `(severity, count)` rows: the last row of
/// each of `error`, `warning` and `info` counts (reinterpreted as
/// unsigned); other severities are ignored.
pub open spec fn severity_totals(rows: Seq<(Seq<char>, i64)>) -> (u64, u64, u64)
    decreases rows.len(),
{
    if rows.len() == 0 {
        (0, 0, 0)
    } else {
        let (e, w, i) = severity_totals(rows.drop_last());
        let (s, c) = rows.last();
        if s == "error"@ {
            (c as u64, w, i)
        } else if s == "warning"@ {
            (e, c as u64, i)
        } else if s == "info"@ {
            (e, w, c as u64)
        } else {
            (e, w, i)
        }
    }
}

/// Fold `(severity, count)` rows into (errors, warnings, info).
pub fn count_issues_by_severity(rows: &Vec<(String, i64)>) -> (r: (u64, u64, u64))
    ensures
        r == severity_totals(rows@.map_values(|x: (String, i64)| (x.0@, x.1))),
{
    let ghost v = rows@.map_values(|x: (String, i64)| (x.0@, x.1));
    let mut errors: u64 = 0;
    let mut warnings: u64 = 0;
    let mut info: u64 = 0;
    let mut i: usize = 0;
    while i < rows.len()
        invariant
            i <= rows@.len(),
            v == rows@.map_values(|x: (String, i64)| (x.0@, x.1)),
            (errors, warnings, info) == severity_totals(v.take(i as int)),
        decreases rows.len() - i,
    {
        let s = rows[i].0.as_str();
        let c = rows[i].1;
        assert(v.take(i + 1).drop_last() =~= v.take(i as int));
        assert(v.take(i + 1).last() == (s@, c));
        if str_eq(s, "error") {
            errors = c as u64;
        } else if str_eq(s, "warning") {
            warnings = c as u64;
        } else if str_eq(s, "info") {
            info = c as u64;
        }
        i = i + 1;
    }
    assert(v.take(rows@.len() as int) =~= v);
    (errors, warnings, info)
}

} // verus!
