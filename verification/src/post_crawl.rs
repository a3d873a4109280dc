//! Cross-page analysis after a crawl: issues for duplicate titles,
//! descriptions and H1s, broken internal links and orphan pages, made from
//! the rows the crawl database reports; and the external link checker's
//! decisions.

use vstd::prelude::*;
use crate::export::{json_string, json_string_of};
use crate::models::IssueRow;
use crate::text::{chars_of, string_of, push_lit, opt_view, str_eq};
use crate::types::{category_code, severity_code, RuleCategory, Severity};
use crate::urls::{parse_url, domain_of};
use crate::words::{decimal_int, i64_to_decimal, trim, trim_chars, push_decimal};

verus! {

// ---------------------------------------------------------------------------
// Reading integers
// ---------------------------------------------------------------------------

pub open spec fn digit_value(c: char) -> int {
    (c as int) - ('0' as int)
}

pub open spec fn all_digits(s: Seq<char>) -> bool {
    forall|i: int| 0 <= i < s.len() ==> '0' <= #[trigger] s[i] <= '9'
}

/// The number a string of decimal digits denotes.
pub open spec fn digits_value(s: Seq<char>) -> int
    decreases s.len(),
{
    if s.len() == 0 {
        0
    } else {
        digits_value(s.drop_last()) * 10 + digit_value(s.last())
    }
}

/// What `str::parse::<i64>` makes of a text: an optional sign and at least
/// one digit, within range.
pub open spec fn parsed_i64(s: Seq<char>) -> Option<i64> {
    let (neg, body) = if s.len() > 0 && s[0] == '-' {
        (true, s.drop_first())
    } else if s.len() > 0 && s[0] == '+' {
        (false, s.drop_first())
    } else {
        (false, s)
    };
    if body.len() == 0 || !all_digits(body) {
        None
    } else {
        let v = if neg { -digits_value(body) } else { digits_value(body) };
        if i64::MIN <= v <= i64::MAX {
            Some(v as i64)
        } else {
            None
        }
    }
}

proof fn lemma_digits_value_nonneg(s: Seq<char>)
    requires
        all_digits(s),
    ensures
        digits_value(s) >= 0,
    decreases s.len(),
{
    if s.len() > 0 {
        lemma_digits_value_nonneg(s.drop_last());
    }
}

/// Parse a decimal integer as `str::parse::<i64>` does.
pub fn parse_i64(s: &str) -> (r: Option<i64>)
    ensures
        r == parsed_i64(s@),
{
    let cs = chars_of(s);
    let mut start: usize = 0;
    let mut neg = false;
    if cs.len() > 0 && cs[0] == '-' {
        neg = true;
        start = 1;
    } else if cs.len() > 0 && cs[0] == '+' {
        start = 1;
    }
    let ghost body = cs@.skip(start as int);
    assert(start == 1 ==> body =~= cs@.drop_first());
    assert(start == 0 ==> body =~= cs@);
    if start >= cs.len() {
        return None;
    }
    // Accumulate the magnitude, stopping once it is out of range.
    let limit: i128 = 9223372036854775808;
    let mut v: i128 = 0;
    let mut i: usize = start;
    while i < cs.len()
        invariant
            start <= i <= cs@.len(),
            start < cs@.len(),
            cs@ == s@,
            body == cs@.skip(start as int),
            start == 1 ==> body =~= cs@.drop_first(),
            start == 0 ==> body =~= cs@,
            start <= 1,
            neg <==> (cs@.len() > 0 && cs@[0] == '-'),
            start == 1 <==> (cs@.len() > 0 && (cs@[0] == '-' || cs@[0] == '+')),
            all_digits(body.take(i - start)),
            v == digits_value(body.take(i - start)),
            0 <= v <= limit,
            limit == 9223372036854775808,
        decreases cs.len() - i,
    {
        let c = cs[i];
        assert(body.take(i + 1 - start).drop_last() =~= body.take(i - start));
        assert(body.take(i + 1 - start).last() == c);
        if !('0' <= c && c <= '9') {
            assert(!all_digits(body)) by {
                assert(body[i - start] == c);
            }
            return None;
        }
        let d = (c as u32 - '0' as u32) as i128;
        let nv = v * 10 + d;
        if nv > limit {
            proof {
                // The whole number is at least this prefix's value.
                assert(body.take(i + 1 - start) =~= body.take(i + 1 - start));
            }
            // Out of range for any sign once past the limit.
            let mut k: usize = i + 1;
            while k < cs.len()
                invariant
                    start <= i,
                    i + 1 <= k <= cs@.len(),
                    start < cs@.len(),
                    cs@ == s@,
                    body == cs@.skip(start as int),
                    start == 1 ==> body =~= cs@.drop_first(),
                    start == 0 ==> body =~= cs@,
                    start <= 1,
                    neg <==> (cs@.len() > 0 && cs@[0] == '-'),
                    start == 1 <==> (cs@.len() > 0 && (cs@[0] == '-' || cs@[0] == '+')),
                    all_digits(body.take(i + 1 - start)) ==> digits_value(body.take(i + 1 - start)) > limit,
                    all_digits(body.take(k - start)) ==> digits_value(body.take(k - start)) > limit,
                    limit == 9223372036854775808,
                decreases cs.len() - k,
            {
                assert(body.take(k + 1 - start).drop_last() =~= body.take(k - start));
                proof {
                    let t1 = body.take(k + 1 - start);
                    let t0 = body.take(k - start);
                    if all_digits(t1) {
                        assert forall|j: int| 0 <= j < t0.len() implies '0' <= #[trigger] t0[j] <= '9' by {
                            assert(t0[j] == t1[j]);
                        }
                        assert('0' <= t1[t1.len() - 1] <= '9');
                        assert(digit_value(t1.last()) >= 0);
                    }
                }
                k = k + 1;
            }
            assert(body.take(cs@.len() - start) =~= body);
            return None;
        }
        v = nv;
        i = i + 1;
    }
    assert(body.take(cs@.len() - start) =~= body);
    if neg {
        Some((0 - v) as i64)
    } else if v > 9223372036854775807 {
        None
    } else {
        Some(v as i64)
    }
}

/// What `str::parse::<u64>` makes of a text: an optional `+` and at least
/// one digit, within range.
pub open spec fn parsed_u64(s: Seq<char>) -> Option<u64> {
    let body = if s.len() > 0 && s[0] == '+' { s.drop_first() } else { s };
    if body.len() == 0 || !all_digits(body) {
        None
    } else if digits_value(body) <= u64::MAX {
        Some(digits_value(body) as u64)
    } else {
        None
    }
}

/// The value of the digits of `cs` from `start` on when they are all
/// digits and the value is at most `limit`.
fn read_digits(cs: &Vec<char>, start: usize, limit: u128) -> (r: Option<u128>)
    requires
        start <= cs@.len(),
        limit <= u64::MAX,
    ensures
        match r {
            Some(v) => all_digits(cs@.skip(start as int)) && v == digits_value(cs@.skip(start as int)) && v <= limit,
            None => !all_digits(cs@.skip(start as int)) || digits_value(cs@.skip(start as int)) > limit,
        },
{
    let ghost body = cs@.skip(start as int);
    let mut v: u128 = 0;
    let mut i: usize = start;
    while i < cs.len()
        invariant
            start <= i <= cs@.len(),
            body == cs@.skip(start as int),
            limit <= u64::MAX,
            all_digits(body.take(i - start)),
            v == digits_value(body.take(i - start)),
            v <= limit,
        decreases cs.len() - i,
    {
        let c = cs[i];
        let ghost t1 = body.take(i + 1 - start);
        assert(t1.drop_last() =~= body.take(i - start));
        assert(t1.last() == c);
        if !('0' <= c && c <= '9') {
            assert(!all_digits(body)) by {
                assert(body[i - start] == c);
            }
            return None;
        }
        let d = (c as u32 - '0' as u32) as u128;
        let nv = v * 10 + d;
        if nv > limit {
            // The value only grows with more digits.
            let mut k: usize = i + 1;
            while k < cs.len()
                invariant
                    start <= i,
                    i + 1 <= k <= cs@.len(),
                    body == cs@.skip(start as int),
                    all_digits(body.take(k - start)) ==> digits_value(body.take(k - start)) > limit,
                decreases cs.len() - k,
            {
                proof {
                    let u1 = body.take(k + 1 - start);
                    let u0 = body.take(k - start);
                    assert(u1.drop_last() =~= u0);
                    if all_digits(u1) {
                        assert forall|j: int| 0 <= j < u0.len() implies '0' <= #[trigger] u0[j] <= '9' by {
                            assert(u0[j] == u1[j]);
                        }
                        assert('0' <= u1[u1.len() - 1] <= '9');
                    }
                }
                k = k + 1;
            }
            assert(body.take(cs@.len() - start) =~= body);
            return None;
        }
        v = nv;
        i = i + 1;
    }
    assert(body.take(cs@.len() - start) =~= body);
    Some(v)
}

/// Parse a decimal integer as `str::parse::<u64>` does.
pub fn parse_u64(s: &str) -> (r: Option<u64>)
    ensures
        r == parsed_u64(s@),
{
    let cs = chars_of(s);
    let start: usize = if cs.len() > 0 && cs[0] == '+' { 1 } else { 0 };
    assert(start == 1 ==> cs@.skip(1) =~= cs@.drop_first());
    assert(cs@.skip(0) =~= cs@);
    if start >= cs.len() {
        return None;
    }
    match read_digits(&cs, start, 18446744073709551615) {
        Some(v) => Some(v as u64),
        None => None,
    }
}

/// The page ids of a comma-separated list: each part trimmed and read as an
/// integer; parts that are not integers are skipped.
pub open spec fn csv_ids(parts: Seq<Seq<char>>) -> Seq<i64>
    decreases parts.len(),
{
    if parts.len() == 0 {
        Seq::empty()
    } else {
        let ids = csv_ids(parts.drop_last());
        match parsed_i64(trim(parts.last())) {
            Some(v) => ids.push(v),
            None => ids,
        }
    }
}

/// Splitting on a separator, keeping empty parts (`str::split`).
pub open spec fn split_on(s: Seq<char>, sep: char) -> Seq<Seq<char>>
    decreases s.len(),
{
    if s.len() == 0 {
        seq![Seq::empty()]
    } else {
        let parts = split_on(s.drop_last(), sep);
        if s.last() == sep {
            parts.push(Seq::empty())
        } else {
            parts.update(parts.len() - 1, parts.last().push(s.last()))
        }
    }
}

proof fn lemma_split_nonempty(s: Seq<char>, sep: char)
    ensures
        split_on(s, sep).len() >= 1,
    decreases s.len(),
{
    if s.len() > 0 {
        lemma_split_nonempty(s.drop_last(), sep);
    }
}

/// The page ids of a comma-separated id list.
pub fn page_ids_of(csv: &str) -> (r: Vec<i64>)
    ensures
        r@ == csv_ids(split_on(csv@, ',')),
{
    let cs = chars_of(csv);
    let mut ids: Vec<i64> = Vec::new();
    let mut cur: Vec<char> = Vec::new();
    let mut i: usize = 0;
    proof {
        lemma_split_nonempty(cs@.take(0), ',');
    }
    while i < cs.len()
        invariant
            i <= cs@.len(),
            cs@ == csv@,
            split_on(cs@.take(i as int), ',').len() >= 1,
            ids@ == csv_ids(split_on(cs@.take(i as int), ',').drop_last()),
            cur@ == split_on(cs@.take(i as int), ',').last(),
        decreases cs.len() - i,
    {
        let c = cs[i];
        let ghost before = split_on(cs@.take(i as int), ',');
        assert(cs@.take(i + 1).drop_last() =~= cs@.take(i as int));
        assert(cs@.take(i + 1).last() == c);
        if c == ',' {
            let t = trim_chars(&cur);
            let ts = string_of(&t);
            let ghost ids0 = ids@;
            match parse_i64(ts.as_str()) {
                Some(v) => ids.push(v),
                None => {},
            }
            assert(before.push(Seq::empty()).drop_last() =~= before);
            assert(before =~= before.drop_last().push(before.last()));
            cur = Vec::new();
        } else {
            cur.push(c);
            assert(before.update(before.len() - 1, before.last().push(c)).drop_last() =~= before.drop_last());
        }
        i = i + 1;
    }
    assert(cs@.take(cs@.len() as int) =~= cs@);
    let ghost whole = split_on(cs@, ',');
    let t = trim_chars(&cur);
    let ts = string_of(&t);
    match parse_i64(ts.as_str()) {
        Some(v) => ids.push(v),
        None => {},
    }
    assert(whole =~= whole.drop_last().push(whole.last()));
    ids
}

// ---------------------------------------------------------------------------
// Duplicate values
// ---------------------------------------------------------------------------

/// A value as shown in a message: cut to 77 characters plus `...` when it
/// is longer than 80.
pub open spec fn shown_value(v: Seq<char>) -> Seq<char> {
    if v.len() > 80 {
        v.take(77) + "..."@
    } else {
        v
    }
}

/// A JSON array of integers.
pub open spec fn json_int_items(ids: Seq<i64>) -> Seq<char>
    decreases ids.len(),
{
    if ids.len() == 0 {
        Seq::empty()
    } else if ids.len() == 1 {
        decimal_int(ids[0] as int)
    } else {
        json_int_items(ids.drop_last()) + ","@ + decimal_int(ids.last() as int)
    }
}

/// The message of a duplicate-value issue.
pub open spec fn duplicate_message(field: Seq<char>, value: Seq<char>, count: i64) -> Seq<char> {
    "Duplicate "@ + field + ": \""@ + shown_value(value) + "\" is shared by "@ + decimal_int(count as int)
        + " page(s)."@
}

/// The detail of a duplicate-value issue: count, page ids and value.
pub open spec fn duplicate_detail(value: Seq<char>, ids: Seq<i64>, count: i64) -> Seq<char> {
    "{\"count\":"@ + decimal_int(count as int) + ",\"duplicate_page_ids\":["@ + json_int_items(ids)
        + "],\"value\":"@ + json_string_of(value) + "}"@
}

/// What a duplicate finder reports: which rule, field and severity.
pub struct DuplicateKind {
    pub rule_id: &'static str,
    pub category: RuleCategory,
    pub severity: Severity,
    pub field_name: &'static str,
}

/// Duplicate titles.
pub fn duplicate_titles() -> (r: DuplicateKind)
    ensures
        r.rule_id@ == "meta.title_duplicate"@,
        r.category == RuleCategory::Meta,
        r.severity == Severity::Warning,
        r.field_name@ == "title"@,
{
    DuplicateKind { rule_id: "meta.title_duplicate", category: RuleCategory::Meta, severity: Severity::Warning, field_name: "title" }
}

/// Duplicate meta descriptions.
pub fn duplicate_descriptions() -> (r: DuplicateKind)
    ensures
        r.rule_id@ == "meta.desc_duplicate"@,
        r.category == RuleCategory::Meta,
        r.severity == Severity::Warning,
        r.field_name@ == "meta description"@,
{
    DuplicateKind { rule_id: "meta.desc_duplicate", category: RuleCategory::Meta, severity: Severity::Warning, field_name: "meta description" }
}

/// Duplicate H1 headings.
pub fn duplicate_h1s() -> (r: DuplicateKind)
    ensures
        r.rule_id@ == "content.h1_duplicate"@,
        r.category == RuleCategory::Content,
        r.severity == Severity::Warning,
        r.field_name@ == "H1"@,
{
    DuplicateKind { rule_id: "content.h1_duplicate", category: RuleCategory::Content, severity: Severity::Warning, field_name: "H1" }
}

/// An issue row of the crawl for a page.
pub open spec fn post_issue(r: IssueRow, crawl_id: Seq<char>, page_id: i64, rule_id: Seq<char>, severity: Severity,
    category: RuleCategory, message: Seq<char>, detail: Seq<char>) -> bool {
    &&& r.id == 0
    &&& r.crawl_id@ == crawl_id
    &&& r.page_id == page_id
    &&& r.rule_id@ == rule_id
    &&& r.severity@ == severity_code(severity)
    &&& r.category@ == category_code(category)
    &&& r.message@ == message
    &&& opt_view(r.detail_json) == Some(detail)
}

fn make_issue(crawl_id: &str, page_id: i64, rule_id: &str, severity: Severity, category: RuleCategory, message: &Vec<char>, detail: &Vec<char>) -> (r: IssueRow)
    ensures
        post_issue(r, crawl_id@, page_id, rule_id@, severity, category, message@, detail@),
{
    IssueRow {
        id: 0,
        crawl_id: string_of(&chars_of(crawl_id)),
        page_id,
        rule_id: string_of(&chars_of(rule_id)),
        severity: string_of(&chars_of(severity.as_str())),
        category: string_of(&chars_of(category.as_str())),
        message: string_of(message),
        detail_json: Some(string_of(detail)),
    }
}

fn push_int_items(out: &mut Vec<char>, ids: &Vec<i64>)
    ensures
        final(out)@ == old(out)@ + json_int_items(ids@),
{
    let ghost start = out@;
    let mut i: usize = 0;
    while i < ids.len()
        invariant
            i <= ids@.len(),
            out@ == start + json_int_items(ids@.take(i as int)),
        decreases ids.len() - i,
    {
        if i > 0 {
            push_lit(out, ",");
        }
        push_lit(out, i64_to_decimal(ids[i]).as_str());
        proof {
            let t = ids@.take(i + 1);
            assert(t.drop_last() =~= ids@.take(i as int));
            assert(t.last() == ids@[i as int]);
            assert(out@ =~= start + json_int_items(t));
        }
        i = i + 1;
    }
    assert(ids@.take(ids@.len() as int) =~= ids@);
}

/// The issues of one duplicate group `(value, page ids, count)`: one per
/// page id, in order.
pub fn duplicate_group_issues(crawl_id: &str, kind: &DuplicateKind, value: &str, page_ids_csv: &str, count: i64) -> (r: Vec<IssueRow>)
    ensures
        r@.len() == csv_ids(split_on(page_ids_csv@, ',')).len(),
        forall|k: int|
            0 <= k < r@.len() ==> post_issue(
                #[trigger] r@[k],
                crawl_id@,
                csv_ids(split_on(page_ids_csv@, ','))[k],
                kind.rule_id@,
                kind.severity,
                kind.category,
                duplicate_message(kind.field_name@, value@, count),
                duplicate_detail(value@, csv_ids(split_on(page_ids_csv@, ',')), count),
            ),
{
    let ids = page_ids_of(page_ids_csv);
    let vc = chars_of(value);
    let mut shown: Vec<char> = Vec::new();
    if vc.len() > 80 {
        let mut k: usize = 0;
        while k < 77
            invariant
                k <= 77,
                vc@.len() > 80,
                shown@ == vc@.take(k as int),
            decreases 77 - k,
        {
            shown.push(vc[k]);
            assert(vc@.take(k + 1) =~= vc@.take(k as int).push(vc@[k as int]));
            k = k + 1;
        }
        push_lit(&mut shown, "...");
    } else {
        push_lit(&mut shown, value);
        assert(shown@ =~= vc@);
    }
    let mut msg: Vec<char> = Vec::new();
    push_lit(&mut msg, "Duplicate ");
    push_lit(&mut msg, kind.field_name);
    push_lit(&mut msg, ": \"");
    let sv = string_of(&shown);
    push_lit(&mut msg, sv.as_str());
    push_lit(&mut msg, "\" is shared by ");
    push_lit(&mut msg, i64_to_decimal(count).as_str());
    push_lit(&mut msg, " page(s).");
    let mut detail: Vec<char> = Vec::new();
    push_lit(&mut detail, "{\"count\":");
    push_lit(&mut detail, i64_to_decimal(count).as_str());
    push_lit(&mut detail, ",\"duplicate_page_ids\":[");
    push_int_items(&mut detail, &ids);
    push_lit(&mut detail, "],\"value\":");
    push_lit(&mut detail, json_string(value).as_str());
    push_lit(&mut detail, "}");
    assert(msg@ =~= duplicate_message(kind.field_name@, value@, count));
    assert(detail@ =~= duplicate_detail(value@, ids@, count));
    let mut out: Vec<IssueRow> = Vec::new();
    let mut i: usize = 0;
    while i < ids.len()
        invariant
            i <= ids@.len(),
            out@.len() == i,
            ids@ == csv_ids(split_on(page_ids_csv@, ',')),
            msg@ == duplicate_message(kind.field_name@, value@, count),
            detail@ == duplicate_detail(value@, ids@, count),
            forall|k: int|
                0 <= k < i ==> post_issue(#[trigger] out@[k], crawl_id@, ids@[k], kind.rule_id@, kind.severity,
                    kind.category, msg@, detail@),
        decreases ids.len() - i,
    {
        out.push(make_issue(crawl_id, ids[i], kind.rule_id, kind.severity, kind.category, &msg, &detail));
        i = i + 1;
    }
    out
}

/// The issue of an internal link to a page that answered with an error
/// status.
pub fn broken_internal_issue(crawl_id: &str, source_page: i64, target_url: &str, status_code: i32) -> (r: IssueRow)
    ensures
        post_issue(
            r,
            crawl_id@,
            source_page,
            "links.broken_internal"@,
            Severity::Error,
            RuleCategory::Links,
            "Internal link to \""@ + target_url@ + "\" returned status "@ + decimal_int(status_code as int) + "."@,
            "{\"status_code\":"@ + decimal_int(status_code as int) + ",\"target_url\":"@ + json_string_of(target_url@) + "}"@,
        ),
{
    let mut msg: Vec<char> = Vec::new();
    push_lit(&mut msg, "Internal link to \"");
    push_lit(&mut msg, target_url);
    push_lit(&mut msg, "\" returned status ");
    push_lit(&mut msg, i64_to_decimal(status_code as i64).as_str());
    push_lit(&mut msg, ".");
    let mut detail: Vec<char> = Vec::new();
    push_lit(&mut detail, "{\"status_code\":");
    push_lit(&mut detail, i64_to_decimal(status_code as i64).as_str());
    push_lit(&mut detail, ",\"target_url\":");
    push_lit(&mut detail, json_string(target_url).as_str());
    push_lit(&mut detail, "}");
    make_issue(crawl_id, source_page, "links.broken_internal", Severity::Error, RuleCategory::Links, &msg, &detail)
}

/// The issue of a page without inbound internal links.
pub fn orphan_page_issue(crawl_id: &str, page_id: i64, url: &str) -> (r: IssueRow)
    ensures
        post_issue(
            r,
            crawl_id@,
            page_id,
            "links.orphan_page"@,
            Severity::Warning,
            RuleCategory::Links,
            "Page \""@ + url@ + "\" has no inbound internal links."@,
            "{\"url\":"@ + json_string_of(url@) + "}"@,
        ),
{
    let mut msg: Vec<char> = Vec::new();
    push_lit(&mut msg, "Page \"");
    push_lit(&mut msg, url);
    push_lit(&mut msg, "\" has no inbound internal links.");
    let mut detail: Vec<char> = Vec::new();
    push_lit(&mut detail, "{\"url\":");
    push_lit(&mut detail, json_string(url).as_str());
    push_lit(&mut detail, "}");
    make_issue(crawl_id, page_id, "links.orphan_page", Severity::Warning, RuleCategory::Links, &msg, &detail)
}

// ---------------------------------------------------------------------------
// External links
// ---------------------------------------------------------------------------

/// An external link to check.
#[derive(Debug, Clone)]
pub struct ExternalLinkEntry {
    pub crawl_id: String,
    pub source_page_url: String,
    pub target_url: String,
}

/// Minimum spacing of requests to one external domain.
pub const EXTERNAL_DOMAIN_SPACING_MS: u64 = 2000;

/// The external checker's memory: targets already taken, and per domain the
/// earliest time the next request may start.
pub struct ExternalCheckState {
    seen: Vec<String>,
    schedule: Vec<(String, u64)>,
}

/// The latest scheduled time of a domain.
pub open spec fn scheduled(log: Seq<(Seq<char>, u64)>, domain: Seq<char>) -> Option<u64>
    decreases log.len(),
{
    if log.len() == 0 {
        None
    } else if log.last().0 == domain {
        Some(log.last().1)
    } else {
        scheduled(log.drop_last(), domain)
    }
}

/// Requests to one domain are spaced: once a request is scheduled to start
/// at `start`, the next request to that domain, made at any time `now`,
/// starts no earlier than `start` plus the spacing.
pub proof fn law_domain_spacing(log: Seq<(Seq<char>, u64)>, domain: Seq<char>, start: u64, now: u64)
    requires
        start <= u64::MAX - EXTERNAL_DOMAIN_SPACING_MS,
    ensures
        ({
            let next = match scheduled(log.push((domain, (start + EXTERNAL_DOMAIN_SPACING_MS) as u64)), domain) {
                Some(t) => if t > now { t } else { now },
                None => now,
            };
            next >= start + EXTERNAL_DOMAIN_SPACING_MS
        }),
{
    assert(log.push((domain, (start + EXTERNAL_DOMAIN_SPACING_MS) as u64)).drop_last() =~= log);
}

impl ExternalCheckState {
    pub closed spec fn taken(self) -> Seq<Seq<char>> {
        self.seen@.map_values(|s: String| s@)
    }

    pub closed spec fn slots(self) -> Seq<(Seq<char>, u64)> {
        self.schedule@.map_values(|p: (String, u64)| (p.0@, p.1))
    }

    pub fn new() -> (r: Self)
        ensures
            r.taken().len() == 0,
            r.slots().len() == 0,
    {
        let r = ExternalCheckState { seen: Vec::new(), schedule: Vec::new() };
        assert(r.taken() =~= Seq::<Seq<char>>::empty());
        assert(r.slots() =~= Seq::<(Seq<char>, u64)>::empty());
        r
    }

    /// Take a target: `false` when it was taken before (each target is
    /// checked once).
    pub fn take(&mut self, target: &str) -> (r: bool)
        ensures
            r == !old(self).taken().contains(target@),
            r ==> final(self).taken() == old(self).taken().push(target@),
            !r ==> final(self).taken() == old(self).taken(),
            final(self).slots() == old(self).slots(),
    {
        let mut i: usize = 0;
        while i < self.seen.len()
            invariant
                i <= self.seen@.len(),
                self.seen@ == old(self).seen@,
                self.schedule@ == old(self).schedule@,
                forall|k: int| 0 <= k < i ==> (#[trigger] self.seen@[k])@ != target@,
            decreases self.seen.len() - i,
        {
            if str_eq(self.seen[i].as_str(), target) {
                assert(self.taken()[i as int] == target@);
                return false;
            }
            i = i + 1;
        }
        assert forall|k: int| 0 <= k < self.taken().len() implies self.taken()[k] != target@ by {
            assert(self.taken()[k] == self.seen@[k]@);
        }
        self.seen.push(string_of(&chars_of(target)));
        assert(self.taken() =~= old(self).taken().push(target@));
        true
    }

    /// Schedule a request to `domain` at `now_ms`: it may start at the
    /// domain's scheduled time or now, whichever is later, and the next one
    /// two seconds after that. Returns how long to wait.
    pub fn schedule(&mut self, domain: &str, now_ms: u64) -> (wait_ms: u64)
        requires
            scheduled(old(self).slots(), domain@) matches Some(t) ==> t <= u64::MAX - EXTERNAL_DOMAIN_SPACING_MS,
            now_ms <= u64::MAX - EXTERNAL_DOMAIN_SPACING_MS,
        ensures
            ({
                let start = match scheduled(old(self).slots(), domain@) {
                    Some(t) => if t > now_ms { t } else { now_ms },
                    None => now_ms,
                };
                &&& wait_ms == start - now_ms
                &&& final(self).slots() == old(self).slots().push((domain@, (start + EXTERNAL_DOMAIN_SPACING_MS) as u64))
            }),
            final(self).taken() == old(self).taken(),
    {
        let mut i: usize = self.schedule.len();
        let mut found: Option<u64> = None;
        assert(self.slots().take(i as int) =~= self.slots());
        while i > 0 && found.is_none()
            invariant
                i <= self.schedule@.len(),
                self.schedule@ == old(self).schedule@,
                found is None ==> scheduled(self.slots(), domain@) == scheduled(self.slots().take(i as int), domain@),
                found is Some ==> scheduled(self.slots(), domain@) == found,
            decreases i + (if found is None { 1int } else { 0int }),
        {
            let ghost t = self.slots().take(i as int);
            assert(t.drop_last() =~= self.slots().take(i - 1));
            assert(t.last() == self.slots()[i - 1]);
            if str_eq(self.schedule[i - 1].0.as_str(), domain) {
                found = Some(self.schedule[i - 1].1);
            } else {
                i = i - 1;
            }
        }
        let start = match found {
            Some(t) => if t > now_ms { t } else { now_ms },
            None => now_ms,
        };
        self.schedule.push((string_of(&chars_of(domain)), start + EXTERNAL_DOMAIN_SPACING_MS));
        assert(self.slots() =~= old(self).slots().push((domain@, (start + EXTERNAL_DOMAIN_SPACING_MS) as u64)));
        start - now_ms
    }
}

/// Whether a checked external link is broken: the request failed or the
/// status is 400 or more.
pub fn external_is_broken(status_code: Option<i32>, error: &Option<String>) -> (r: bool)
    ensures
        r == (error is Some || (status_code matches Some(c) && c >= 400)),
{
    error.is_some() || match status_code {
        Some(c) => c >= 400,
        None => false,
    }
}

/// The message of a broken external link.
pub open spec fn broken_external_message(target: Seq<char>, status_code: Option<i32>, error: Option<Seq<char>>) -> Seq<char> {
    match error {
        Some(e) => "External link to \""@ + target + "\" failed: "@ + e,
        None => "External link to \""@ + target + "\" returned status "@ + decimal_int(
            match status_code {
                Some(c) => c as int,
                None => 0,
            },
        ) + "."@,
    }
}

pub fn broken_external_message_of(target: &str, status_code: Option<i32>, error: &Option<String>) -> (r: String)
    ensures
        r@ == broken_external_message(target@, status_code, opt_view(*error)),
{
    let mut v: Vec<char> = Vec::new();
    push_lit(&mut v, "External link to \"");
    push_lit(&mut v, target);
    match error {
        Some(e) => {
            push_lit(&mut v, "\" failed: ");
            push_lit(&mut v, e.as_str());
        },
        None => {
            push_lit(&mut v, "\" returned status ");
            let c: i64 = match status_code {
                Some(c) => c as i64,
                None => 0,
            };
            push_lit(&mut v, i64_to_decimal(c).as_str());
            push_lit(&mut v, ".");
        },
    }
    string_of(&v)
}

/// The detail of a broken external link: its error (or null), status code
/// (or null) and target, with the keys in order.
pub open spec fn broken_external_detail(target: Seq<char>, status_code: Option<i32>, error: Option<Seq<char>>) -> Seq<char> {
    "{\"error\":"@ + match error {
        Some(e) => json_string_of(e),
        None => "null"@,
    } + ",\"status_code\":"@ + match status_code {
        Some(c) => decimal_int(c as int),
        None => "null"@,
    } + ",\"target_url\":"@ + json_string_of(target) + "}"@
}

/// The issue of an external link whose request failed or answered with an
/// error status, filed on the page that links to it.
pub fn broken_external_issue(
    crawl_id: &str,
    source_page: i64,
    target_url: &str,
    status_code: Option<i32>,
    error: &Option<String>,
) -> (r: IssueRow)
    ensures
        post_issue(
            r,
            crawl_id@,
            source_page,
            "links.broken_external"@,
            Severity::Warning,
            RuleCategory::Links,
            broken_external_message(target_url@, status_code, opt_view(*error)),
            broken_external_detail(target_url@, status_code, opt_view(*error)),
        ),
{
    let m = broken_external_message_of(target_url, status_code, error);
    let msg = chars_of(m.as_str());
    let mut detail: Vec<char> = Vec::new();
    push_lit(&mut detail, "{\"error\":");
    match error {
        Some(e) => push_lit(&mut detail, json_string(e.as_str()).as_str()),
        None => push_lit(&mut detail, "null"),
    }
    push_lit(&mut detail, ",\"status_code\":");
    match status_code {
        Some(c) => push_lit(&mut detail, i64_to_decimal(c as i64).as_str()),
        None => push_lit(&mut detail, "null"),
    }
    push_lit(&mut detail, ",\"target_url\":");
    push_lit(&mut detail, json_string(target_url).as_str());
    push_lit(&mut detail, "}");
    make_issue(crawl_id, source_page, "links.broken_external", Severity::Warning, RuleCategory::Links, &msg, &detail)
}

/// The domain external requests are spaced by: the target's host, or empty.
pub fn external_domain(target_url: &str) -> (r: String)
    ensures
        r@ == domain_of(target_url@),
{
    crate::urls::extract_domain(target_url)
}

} // verus!
