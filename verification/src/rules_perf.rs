//! Performance rules: page size, response time and render-blocking
//! resources; with the exact rendering of a byte count in megabytes to one
//! decimal place.

use vstd::prelude::*;
use crate::issue::{Issue, IssueDetail, IssueV, DetailV, CrawlContext, issues_view};
use crate::page::ParsedPage;
use crate::rules_meta::{single_issue, no_issues};
use crate::text::{string_of, push_lit};
use crate::types::{RuleCategory, Severity};
use crate::words::{decimal, push_decimal, push_decimal_u128, digit_char};

verus! {

// ---------------------------------------------------------------------------
// Megabytes with one decimal, as `format!("{:.1}", n as f64 / 1_000_000.0)`
// prints them: the integer is rounded to the nearest double (53 significant
// bits, ties to even), divided by a million with round-to-nearest-even,
// and the quotient is rounded to tenths, ties to even.
// ---------------------------------------------------------------------------

/// 2 to the power `k`.
pub open spec fn p2(k: nat) -> nat
    decreases k,
{
    if k == 0 {
        1
    } else {
        2 * p2((k - 1) as nat)
    }
}

/// The number of low bits dropped when `x` is rounded to 53 significant bits.
pub open spec fn sig_shift(x: nat) -> nat
    decreases x,
{
    if x < 0x20_0000_0000_0000 {
        0
    } else {
        1 + sig_shift(x / 2)
    }
}

/// Round `q` up when the dropped remainder `r` out of `d` is above one
/// half, or exactly one half and `q` is odd.
pub open spec fn round_even(q: nat, r: nat, d: nat) -> nat {
    if 2 * r > d || (2 * r == d && q % 2 == 1) {
        q + 1
    } else {
        q
    }
}

/// `x` rounded to the nearest double (an integer).
pub open spec fn to_double(x: nat) -> nat {
    let k = sig_shift(x);
    round_even(x / p2(k), x % p2(k), p2(k)) * p2(k)
}

/// 2^52 * 10^6: the quotient by a million reaches 53 bits from here on.
pub open spec fn scale_limit() -> nat {
    4503599627370496000000
}

/// Double `n` until it reaches `scale_limit`; the result and the number
/// of doublings.
pub open spec fn scaled(n: nat, e: nat) -> (nat, nat)
    decreases (if n == 0 || n >= scale_limit() { 0 } else { scale_limit() - n }),
{
    if n == 0 || n >= scale_limit() {
        (n, e)
    } else {
        scaled(2 * n, e + 1)
    }
}

/// The quotient `x / 10^6` as a double: significand and binary exponent
/// (the value is `sig / 2^exp`).
pub open spec fn div_million(x: nat) -> (nat, nat) {
    let (n, e) = scaled(x, 0);
    (round_even(n / 1000000, n % 1000000, 1000000), e)
}

/// Tenths of a megabyte in `{:.1}` rendering of `bytes as f64 / 1e6`.
pub open spec fn mb_tenths(bytes: nat) -> nat {
    let (sig, e) = div_million(to_double(bytes));
    round_even((sig * 10) / p2(e), (sig * 10) % p2(e), p2(e))
}

/// `{:.1}` rendering of `bytes as f64 / 1e6`.
pub open spec fn mb_text(bytes: nat) -> Seq<char> {
    let t = mb_tenths(bytes);
    decimal(t / 10) + seq!['.', digit_char((t % 10) as int)]
}

proof fn lemma_p2_mono(a: nat, b: nat)
    requires
        a <= b,
    ensures
        p2(a) <= p2(b),
    decreases b,
{
    if a < b {
        lemma_p2_mono(a, (b - 1) as nat);
    }
}

proof fn lemma_p2_pos(k: nat)
    ensures
        p2(k) >= 1,
    decreases k,
{
    if k > 0 {
        lemma_p2_pos((k - 1) as nat);
    }
}

proof fn lemma_p2_add10(k: nat)
    ensures
        p2(k + 10) == 1024 * p2(k),
{
    reveal_with_fuel(p2, 11);
}

proof fn lemma_p2_values()
    ensures
        p2(11) == 2048,
        p2(73) == 0x200_0000_0000_0000_0000,
        p2(120) == 0x100_0000_0000_0000_0000_0000_0000_0000,
{
    reveal_with_fuel(p2, 12);
    assert(p2(10) == 1024);
    assert(p2(11) == 2048);
    lemma_p2_add10(3);
    lemma_p2_add10(13);
    lemma_p2_add10(23);
    lemma_p2_add10(33);
    lemma_p2_add10(43);
    lemma_p2_add10(53);
    lemma_p2_add10(63);
    assert(p2(3) == 8);
    assert(p2(73) == 0x200_0000_0000_0000_0000);
    lemma_p2_add10(10);
    lemma_p2_add10(20);
    lemma_p2_add10(30);
    lemma_p2_add10(40);
    lemma_p2_add10(50);
    lemma_p2_add10(60);
    lemma_p2_add10(70);
    lemma_p2_add10(80);
    lemma_p2_add10(90);
    lemma_p2_add10(100);
    lemma_p2_add10(110);
    assert(p2(120) == 0x100_0000_0000_0000_0000_0000_0000_0000);
}

fn p2_exec(k: u32) -> (r: u128)
    requires
        k <= 120,
    ensures
        r == p2(k as nat),
        r >= 1,
    decreases k,
{
    proof {
        lemma_p2_pos(k as nat);
        lemma_p2_mono(k as nat, 120);
        lemma_p2_values();
    }
    if k == 0 {
        1
    } else {
        let h = p2_exec(k - 1);
        2 * h
    }
}

proof fn lemma_sig_shift_bound(y: nat, j: nat)
    requires
        y < 0x20_0000_0000_0000 * p2(j),
    ensures
        sig_shift(y) <= j,
    decreases y,
{
    if y >= 0x20_0000_0000_0000 {
        if j == 0 {
            assert(false);
        } else {
            let pj = p2((j - 1) as nat);
            assert(p2(j) == 2 * pj);
            assert(y / 2 < 0x20_0000_0000_0000 * pj) by (nonlinear_arith)
                requires
                    y < 0x20_0000_0000_0000 * (2 * pj),
            ;
            lemma_sig_shift_bound(y / 2, (j - 1) as nat);
        }
    }
}

fn sig_shift_exec(x: u64) -> (r: u32)
    ensures
        r as nat == sig_shift(x as nat),
        r <= 11,
    decreases x,
{
    proof {
        lemma_p2_values();
        lemma_sig_shift_bound(x as nat, 11);
    }
    if x < 0x20_0000_0000_0000 {
        0
    } else {
        let s = sig_shift_exec(x / 2);
        1 + s
    }
}

fn round_even_exec(q: u128, r: u128, d: u128) -> (res: u128)
    requires
        q < 0xFFFF_FFFF_FFFF_FFFF_FFFF_FFFF_FFFF_FFFF,
        r < d,
        d <= 0x100_0000_0000_0000_0000_0000_0000_0000,
    ensures
        res == round_even(q as nat, r as nat, d as nat),
{
    if 2 * r > d || (2 * r == d && q % 2 == 1) {
        q + 1
    } else {
        q
    }
}

/// `x` rounded to the nearest double, as an integer.
fn to_double_exec(x: u64) -> (r: u128)
    ensures
        r == to_double(x as nat),
        r <= 0x1_0000_0000_0000_0800,
{
    let k = sig_shift_exec(x);
    proof {
        lemma_p2_mono(k as nat, 11);
        lemma_p2_values();
    }
    let d = p2_exec(k);
    let xx = x as u128;
    let q = xx / d;
    let rem = xx % d;
    let q2 = round_even_exec(q, rem, d);
    assert(q2 * d <= xx + d) by (nonlinear_arith)
        requires
            q2 <= q + 1,
            q == xx / d,
            d >= 1,
    ;
    q2 * d
}

fn scaled_exec(n: u128, e: u32) -> (r: (u128, u32))
    requires
        n < 2 * scale_limit(),
        n >= 1 ==> p2(e as nat) <= n,
        e <= 73,
    ensures
        (r.0 as nat, r.1 as nat) == scaled(n as nat, e as nat),
        r.0 < 2 * scale_limit(),
        r.1 <= 73,
        n >= 1 ==> p2(r.1 as nat) <= r.0,
    decreases (if n == 0 || n >= scale_limit() { 0 } else { scale_limit() - n }),
{
    if n == 0 || n >= 4503599627370496000000u128 {
        (n, e)
    } else {
        proof {
            lemma_p2_values();
            if e >= 73 {
                lemma_p2_mono(73, e as nat);
            }
        }
        scaled_exec(2 * n, e + 1)
    }
}

/// Tenths of a megabyte in the `{:.1}` rendering of `bytes as f64 / 1e6`.
pub fn mb_tenths_exec(bytes: u64) -> (t: u128)
    ensures
        t == mb_tenths(bytes as nat),
{
    let x = to_double_exec(bytes);
    proof {
        lemma_p2_values();
    }
    let (n, e) = scaled_exec(x, 0);
    let m = n / 1000000;
    let f = n % 1000000;
    let sig = round_even_exec(m, f, 1000000);
    proof {
        lemma_p2_mono(e as nat, 120);
    }
    let d = p2_exec(e);
    let t0 = (sig * 10) / d;
    let rm = (sig * 10) % d;
    round_even_exec(t0, rm, d)
}

fn push_mb_text(m: &mut Vec<char>, bytes: u64)
    ensures
        final(m)@ == old(m)@ + mb_text(bytes as nat),
{
    let t = mb_tenths_exec(bytes);
    let whole = t / 10;
    push_decimal_u128(m, whole);
    m.push('.');
    let d = (t % 10) as u64;
    m.push(digit_of(d));
}

fn digit_of(d: u64) -> (c: char)
    requires
        d < 10,
    ensures
        c == digit_char(d as int),
{
    if d == 0 {
        '0'
    } else if d == 1 {
        '1'
    } else if d == 2 {
        '2'
    } else if d == 3 {
        '3'
    } else if d == 4 {
        '4'
    } else if d == 5 {
        '5'
    } else if d == 6 {
        '6'
    } else if d == 7 {
        '7'
    } else if d == 8 {
        '8'
    } else {
        '9'
    }
}


// ---------------------------------------------------------------------------
// perf.large_page
// ---------------------------------------------------------------------------

/// Flags a page whose body exceeds `max_bytes`.
#[derive(Debug, Clone, Copy)]
pub struct LargePage {
    pub max_bytes: usize,
}

impl Default for LargePage {
    fn default() -> (r: Self)
        ensures
            r.max_bytes == 3_000_000,
    {
        LargePage { max_bytes: 3_000_000 }
    }
}

/// Issues of `perf.large_page`.
pub open spec fn large_page_issues(rule: LargePage, page: ParsedPage) -> Seq<IssueV> {
    match page.body_size {
        Some(size) => if size > rule.max_bytes {
            seq![IssueV {
                rule_id: "perf.large_page"@,
                severity: Severity::Warning,
                category: RuleCategory::Performance,
                message: "Page size is "@ + decimal(size as nat) + " bytes ("@ + mb_text(
                    size as nat,
                ) + " MB), exceeds "@ + decimal(rule.max_bytes as nat) + " byte threshold."@,
                detail: Some(
                    DetailV::BodySize { body_size: size as nat, threshold: rule.max_bytes as nat },
                ),
            }]
        } else {
            Seq::empty()
        },
        None => Seq::empty(),
    }
}

impl LargePage {
    pub fn id(&self) -> (r: &'static str)
        ensures
            r@ == "perf.large_page"@,
    {
        "perf.large_page"
    }

    pub fn name(&self) -> (r: &'static str)
        ensures
            r@ == "Large Page Size"@,
    {
        "Large Page Size"
    }

    pub fn category(&self) -> (r: RuleCategory)
        ensures
            r == RuleCategory::Performance,
    {
        RuleCategory::Performance
    }

    pub fn default_severity(&self) -> (r: Severity)
        ensures
            r == Severity::Warning,
    {
        Severity::Warning
    }

    pub fn evaluate(&self, page: &ParsedPage, _ctx: &CrawlContext) -> (r: Vec<Issue>)
        ensures
            issues_view(r@) == large_page_issues(*self, *page),
    {
        match page.body_size {
            Some(size) => {
                if size > self.max_bytes {
                    let mut m: Vec<char> = Vec::new();
                    push_lit(&mut m, "Page size is ");
                    push_decimal(&mut m, size as u64);
                    push_lit(&mut m, " bytes (");
                    push_mb_text(&mut m, size as u64);
                    push_lit(&mut m, " MB), exceeds ");
                    push_decimal(&mut m, self.max_bytes as u64);
                    push_lit(&mut m, " byte threshold.");
                    let msg = string_of(&m);
                    let r = single_issue(
                        "perf.large_page",
                        Severity::Warning,
                        RuleCategory::Performance,
                        msg,
                        Some(IssueDetail::BodySize { body_size: size, threshold: self.max_bytes }),
                    );
                    assert(issues_view(r@) =~= large_page_issues(*self, *page));
                    r
                } else {
                    no_issues()
                }
            },
            None => no_issues(),
        }
    }
}

// ---------------------------------------------------------------------------
// perf.slow_response
// ---------------------------------------------------------------------------

/// Flags a response slower than `max_ms` milliseconds.
#[derive(Debug, Clone, Copy)]
pub struct SlowResponse {
    pub max_ms: u32,
}

impl Default for SlowResponse {
    fn default() -> (r: Self)
        ensures
            r.max_ms == 3000,
    {
        SlowResponse { max_ms: 3000 }
    }
}

/// Issues of `perf.slow_response`.
pub open spec fn slow_response_issues(rule: SlowResponse, page: ParsedPage) -> Seq<IssueV> {
    match page.response_time_ms {
        Some(ms) => if ms > rule.max_ms {
            seq![IssueV {
                rule_id: "perf.slow_response"@,
                severity: Severity::Warning,
                category: RuleCategory::Performance,
                message: "Response time is "@ + decimal(ms as nat) + "ms, exceeds "@ + decimal(
                    rule.max_ms as nat,
                ) + "ms threshold."@,
                detail: Some(
                    DetailV::ResponseTime {
                        response_time_ms: ms as nat,
                        threshold_ms: rule.max_ms as nat,
                    },
                ),
            }]
        } else {
            Seq::empty()
        },
        None => Seq::empty(),
    }
}

impl SlowResponse {
    pub fn id(&self) -> (r: &'static str)
        ensures
            r@ == "perf.slow_response"@,
    {
        "perf.slow_response"
    }

    pub fn name(&self) -> (r: &'static str)
        ensures
            r@ == "Slow Response Time"@,
    {
        "Slow Response Time"
    }

    pub fn category(&self) -> (r: RuleCategory)
        ensures
            r == RuleCategory::Performance,
    {
        RuleCategory::Performance
    }

    pub fn default_severity(&self) -> (r: Severity)
        ensures
            r == Severity::Warning,
    {
        Severity::Warning
    }

    pub fn evaluate(&self, page: &ParsedPage, _ctx: &CrawlContext) -> (r: Vec<Issue>)
        ensures
            issues_view(r@) == slow_response_issues(*self, *page),
    {
        match page.response_time_ms {
            Some(ms) => {
                if ms > self.max_ms {
                    let mut m: Vec<char> = Vec::new();
                    push_lit(&mut m, "Response time is ");
                    push_decimal(&mut m, ms as u64);
                    push_lit(&mut m, "ms, exceeds ");
                    push_decimal(&mut m, self.max_ms as u64);
                    push_lit(&mut m, "ms threshold.");
                    let msg = string_of(&m);
                    let r = single_issue(
                        "perf.slow_response",
                        Severity::Warning,
                        RuleCategory::Performance,
                        msg,
                        Some(IssueDetail::ResponseTime { response_time_ms: ms, threshold_ms: self.max_ms }),
                    );
                    assert(issues_view(r@) =~= slow_response_issues(*self, *page));
                    r
                } else {
                    no_issues()
                }
            },
            None => no_issues(),
        }
    }
}

// ---------------------------------------------------------------------------
// perf.render_blocking
// ---------------------------------------------------------------------------

/// Flags pages with too many render-blocking scripts or stylesheets.
#[derive(Debug, Clone, Copy)]
pub struct RenderBlocking {
    pub max_blocking_scripts: u32,
    pub max_blocking_stylesheets: u32,
}

impl Default for RenderBlocking {
    fn default() -> (r: Self)
        ensures
            r.max_blocking_scripts == 2 && r.max_blocking_stylesheets == 3,
    {
        RenderBlocking { max_blocking_scripts: 2, max_blocking_stylesheets: 3 }
    }
}

/// Issues of `perf.render_blocking`: one for scripts, then one for
/// stylesheets, each when over its threshold.
pub open spec fn render_blocking_issues(rule: RenderBlocking, page: ParsedPage) -> Seq<IssueV> {
    let scripts = if page.render_blocking_scripts > rule.max_blocking_scripts {
        seq![IssueV {
            rule_id: "perf.render_blocking"@,
            severity: Severity::Warning,
            category: RuleCategory::Performance,
            message: "Page has "@ + decimal(page.render_blocking_scripts as nat)
                + " render-blocking scripts (without async/defer), exceeds "@ + decimal(
                rule.max_blocking_scripts as nat,
            ) + " threshold."@,
            detail: Some(
                DetailV::BlockingScripts {
                    count: page.render_blocking_scripts as nat,
                    threshold: rule.max_blocking_scripts as nat,
                },
            ),
        }]
    } else {
        Seq::empty()
    };
    let sheets = if page.render_blocking_stylesheets > rule.max_blocking_stylesheets {
        seq![IssueV {
            rule_id: "perf.render_blocking"@,
            severity: Severity::Warning,
            category: RuleCategory::Performance,
            message: "Page has "@ + decimal(page.render_blocking_stylesheets as nat)
                + " render-blocking stylesheets (without media query), exceeds "@ + decimal(
                rule.max_blocking_stylesheets as nat,
            ) + " threshold."@,
            detail: Some(
                DetailV::BlockingStylesheets {
                    count: page.render_blocking_stylesheets as nat,
                    threshold: rule.max_blocking_stylesheets as nat,
                },
            ),
        }]
    } else {
        Seq::empty()
    };
    scripts + sheets
}

impl RenderBlocking {
    pub fn id(&self) -> (r: &'static str)
        ensures
            r@ == "perf.render_blocking"@,
    {
        "perf.render_blocking"
    }

    pub fn name(&self) -> (r: &'static str)
        ensures
            r@ == "Render-Blocking Resources"@,
    {
        "Render-Blocking Resources"
    }

    pub fn category(&self) -> (r: RuleCategory)
        ensures
            r == RuleCategory::Performance,
    {
        RuleCategory::Performance
    }

    pub fn default_severity(&self) -> (r: Severity)
        ensures
            r == Severity::Warning,
    {
        Severity::Warning
    }

    pub fn evaluate(&self, page: &ParsedPage, _ctx: &CrawlContext) -> (r: Vec<Issue>)
        ensures
            issues_view(r@) == render_blocking_issues(*self, *page),
    {
        let mut issues: Vec<Issue> = Vec::new();
        if page.render_blocking_scripts > self.max_blocking_scripts {
            let mut m: Vec<char> = Vec::new();
            push_lit(&mut m, "Page has ");
            push_decimal(&mut m, page.render_blocking_scripts as u64);
            push_lit(&mut m, " render-blocking scripts (without async/defer), exceeds ");
            push_decimal(&mut m, self.max_blocking_scripts as u64);
            push_lit(&mut m, " threshold.");
            let msg = string_of(&m);
            issues = single_issue(
                "perf.render_blocking",
                Severity::Warning,
                RuleCategory::Performance,
                msg,
                Some(IssueDetail::BlockingScripts {
                    count: page.render_blocking_scripts,
                    threshold: self.max_blocking_scripts,
                }),
            );
        }
        let ghost first = issues_view(issues@);
        if page.render_blocking_stylesheets > self.max_blocking_stylesheets {
            let mut m: Vec<char> = Vec::new();
            push_lit(&mut m, "Page has ");
            push_decimal(&mut m, page.render_blocking_stylesheets as u64);
            push_lit(&mut m, " render-blocking stylesheets (without media query), exceeds ");
            push_decimal(&mut m, self.max_blocking_stylesheets as u64);
            push_lit(&mut m, " threshold.");
            let msg = string_of(&m);
            let more = single_issue(
                "perf.render_blocking",
                Severity::Warning,
                RuleCategory::Performance,
                msg,
                Some(IssueDetail::BlockingStylesheets {
                    count: page.render_blocking_stylesheets,
                    threshold: self.max_blocking_stylesheets,
                }),
            );
            crate::issue::append_issues(&mut issues, more);
        }
        assert(issues_view(issues@) =~= render_blocking_issues(*self, *page));
        issues
    }
}

} // verus!
