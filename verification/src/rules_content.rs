//! Content rules: heading structure and thin content detection.

use vstd::prelude::*;
use crate::issue::{Issue, IssueDetail, IssueV, DetailV, CrawlContext, issues_view, plain_issue};
use crate::page::ParsedPage;
use crate::rules_meta::{single_issue, plain, no_issues};
use crate::text::{string_of, push_lit, strs_view, clone_strs};
use crate::types::{RuleCategory, Severity};
use crate::words::{decimal, push_decimal};

verus! {

// ---------------------------------------------------------------------------
// content.h1_missing
// ---------------------------------------------------------------------------

/// Flags a page without any H1 heading.
#[derive(Debug, Clone, Copy)]
pub struct H1Missing;

/// Issues of `content.h1_missing`.
pub open spec fn h1_missing_issues(page: ParsedPage) -> Seq<IssueV> {
    if page.h1s@.len() == 0 {
        seq![
            plain_issue(
                "content.h1_missing"@,
                Severity::Warning,
                RuleCategory::Content,
                "Page has no H1 tag."@,
            ),
        ]
    } else {
        Seq::empty()
    }
}

impl H1Missing {
    pub fn id(&self) -> (r: &'static str)
        ensures
            r@ == "content.h1_missing"@,
    {
        "content.h1_missing"
    }

    pub fn name(&self) -> (r: &'static str)
        ensures
            r@ == "Missing H1 Tag"@,
    {
        "Missing H1 Tag"
    }

    pub fn category(&self) -> (r: RuleCategory)
        ensures
            r == RuleCategory::Content,
    {
        RuleCategory::Content
    }

    pub fn default_severity(&self) -> (r: Severity)
        ensures
            r == Severity::Warning,
    {
        Severity::Warning
    }

    pub fn evaluate(&self, page: &ParsedPage, _ctx: &CrawlContext) -> (r: Vec<Issue>)
        ensures
            issues_view(r@) == h1_missing_issues(*page),
    {
        if page.h1s.len() == 0 {
            plain("content.h1_missing", Severity::Warning, RuleCategory::Content,
                "Page has no H1 tag.")
        } else {
            no_issues()
        }
    }
}

// ---------------------------------------------------------------------------
// content.h1_multiple
// ---------------------------------------------------------------------------

/// Flags a page with more than one H1 heading.
#[derive(Debug, Clone, Copy)]
pub struct H1Multiple;

/// Issues of `content.h1_multiple`.
pub open spec fn h1_multiple_issues(page: ParsedPage) -> Seq<IssueV> {
    if page.h1s@.len() > 1 {
        seq![IssueV {
            rule_id: "content.h1_multiple"@,
            severity: Severity::Warning,
            category: RuleCategory::Content,
            message: "Page has "@ + decimal(page.h1s@.len()) + " H1 tags (expected 1)."@,
            detail: Some(DetailV::H1s { h1s: strs_view(page.h1s@) }),
        }]
    } else {
        Seq::empty()
    }
}

impl H1Multiple {
    pub fn id(&self) -> (r: &'static str)
        ensures
            r@ == "content.h1_multiple"@,
    {
        "content.h1_multiple"
    }

    pub fn name(&self) -> (r: &'static str)
        ensures
            r@ == "Multiple H1 Tags"@,
    {
        "Multiple H1 Tags"
    }

    pub fn category(&self) -> (r: RuleCategory)
        ensures
            r == RuleCategory::Content,
    {
        RuleCategory::Content
    }

    pub fn default_severity(&self) -> (r: Severity)
        ensures
            r == Severity::Warning,
    {
        Severity::Warning
    }

    pub fn evaluate(&self, page: &ParsedPage, _ctx: &CrawlContext) -> (r: Vec<Issue>)
        ensures
            issues_view(r@) == h1_multiple_issues(*page),
    {
        if page.h1s.len() > 1 {
            let mut m: Vec<char> = Vec::new();
            push_lit(&mut m, "Page has ");
            push_decimal(&mut m, page.h1s.len() as u64);
            push_lit(&mut m, " H1 tags (expected 1).");
            let msg = string_of(&m);
            let h1s = clone_strs(&page.h1s);
            let r = single_issue(
                "content.h1_multiple",
                Severity::Warning,
                RuleCategory::Content,
                msg,
                Some(IssueDetail::H1s { h1s }),
            );
            assert(issues_view(r@) =~= h1_multiple_issues(*page));
            r
        } else {
            no_issues()
        }
    }
}

// ---------------------------------------------------------------------------
// content.heading_hierarchy
// ---------------------------------------------------------------------------

/// Notes heading levels that are skipped (e.g. H1 followed by H3).
#[derive(Debug, Clone, Copy)]
pub struct HeadingHierarchy;

/// Which of the heading levels H1..H6 occur on the page.
pub open spec fn levels_present(page: ParsedPage) -> Seq<bool> {
    seq![
        page.h1s@.len() > 0,
        page.h2s@.len() > 0,
        page.h3s@.len() > 0,
        page.h4s@.len() > 0,
        page.h5s@.len() > 0,
        page.h6s@.len() > 0,
    ]
}

/// Walk over the first `n` levels: the skips found, as (from, to) heading
/// numbers, and the index of the last level seen (starting at H1).
pub open spec fn skip_scan(present: Seq<bool>, n: int) -> (Seq<(nat, nat)>, int)
    decreases n,
{
    if n <= 0 {
        (Seq::empty(), 0)
    } else {
        let (skips, last) = skip_scan(present, n - 1);
        let i = n - 1;
        if present[i] {
            if i > last + 1 {
                (skips.push(((last + 1) as nat, (i + 1) as nat)), i)
            } else {
                (skips, i)
            }
        } else {
            (skips, last)
        }
    }
}

/// "H<from> to H<to>".
pub open spec fn skip_text(s: (nat, nat)) -> Seq<char> {
    seq!['H'] + decimal(s.0) + " to H"@ + decimal(s.1)
}

/// Skip texts joined by ", ".
pub open spec fn join_skips(skips: Seq<(nat, nat)>) -> Seq<char>
    decreases skips.len(),
{
    if skips.len() == 0 {
        Seq::empty()
    } else if skips.len() == 1 {
        skip_text(skips[0])
    } else {
        join_skips(skips.drop_last()) + ", "@ + skip_text(skips.last())
    }
}

/// Issues of `content.heading_hierarchy`.
pub open spec fn heading_hierarchy_issues(page: ParsedPage) -> Seq<IssueV> {
    let skips = skip_scan(levels_present(page), 6).0;
    if skips.len() > 0 {
        seq![
            plain_issue(
                "content.heading_hierarchy"@,
                Severity::Info,
                RuleCategory::Content,
                "Heading levels skipped: "@ + join_skips(skips) + "."@,
            ),
        ]
    } else {
        Seq::empty()
    }
}

impl HeadingHierarchy {
    pub fn id(&self) -> (r: &'static str)
        ensures
            r@ == "content.heading_hierarchy"@,
    {
        "content.heading_hierarchy"
    }

    pub fn name(&self) -> (r: &'static str)
        ensures
            r@ == "Heading Hierarchy Skip"@,
    {
        "Heading Hierarchy Skip"
    }

    pub fn category(&self) -> (r: RuleCategory)
        ensures
            r == RuleCategory::Content,
    {
        RuleCategory::Content
    }

    pub fn default_severity(&self) -> (r: Severity)
        ensures
            r == Severity::Info,
    {
        Severity::Info
    }

    pub fn evaluate(&self, page: &ParsedPage, _ctx: &CrawlContext) -> (r: Vec<Issue>)
        ensures
            issues_view(r@) == heading_hierarchy_issues(*page),
    {
        let mut has_level: Vec<bool> = Vec::new();
        has_level.push(page.h1s.len() > 0);
        has_level.push(page.h2s.len() > 0);
        has_level.push(page.h3s.len() > 0);
        has_level.push(page.h4s.len() > 0);
        has_level.push(page.h5s.len() > 0);
        has_level.push(page.h6s.len() > 0);
        let ghost present = levels_present(*page);
        assert(has_level@ =~= present);

        let mut skips: Vec<(usize, usize)> = Vec::new();
        let mut last_present: usize = 0;
        let mut i: usize = 0;
        while i < 6
            invariant
                i <= 6,
                has_level@ == present,
                present.len() == 6,
                last_present < 6,
                last_present <= i || i == 0,
                skips@.len() == skip_scan(present, i as int).0.len(),
                forall|k: int|
                    0 <= k < skips@.len() ==> (skips@[k].0 as nat, skips@[k].1 as nat)
                        == skip_scan(present, i as int).0[k] && skips@[k].0 < 10 && skips@[k].1
                        < 10,
                last_present as int == skip_scan(present, i as int).1,
            decreases 6 - i,
        {
            if has_level[i] && i > last_present + 1 {
                skips.push((last_present + 1, i + 1));
            }
            if has_level[i] {
                last_present = i;
            }
            i = i + 1;
        }
        if skips.len() > 0 {
            let mut m: Vec<char> = Vec::new();
            push_lit(&mut m, "Heading levels skipped: ");
            let ghost base = m@;
            let mut k: usize = 0;
            while k < skips.len()
                invariant
                    k <= skips@.len(),
                    skips@.len() == skip_scan(present, 6).0.len(),
                    forall|j: int|
                        0 <= j < skips@.len() ==> (skips@[j].0 as nat, skips@[j].1 as nat)
                            == skip_scan(present, 6).0[j],
                    m@ == base + join_skips(skip_scan(present, 6).0.take(k as int)),
                decreases skips.len() - k,
            {
                let ghost before = m@;
                let ghost all = skip_scan(present, 6).0;
                if k > 0 {
                    push_lit(&mut m, ", ");
                }
                m.push('H');
                push_decimal(&mut m, skips[k].0 as u64);
                push_lit(&mut m, " to H");
                push_decimal(&mut m, skips[k].1 as u64);
                assert(all.take(k + 1).drop_last() =~= all.take(k as int));
                assert(all.take(k + 1).last() == all[k as int]);
                if k == 0 {
                    assert(all.take(1).len() == 1);
                    assert(m@ =~= base + join_skips(all.take(k + 1)));
                } else {
                    assert(m@ =~= base + join_skips(all.take(k + 1)));
                }
                k = k + 1;
            }
            assert(skip_scan(present, 6).0.take(skips.len() as int) =~= skip_scan(present, 6).0);
            push_lit(&mut m, ".");
            let msg = string_of(&m);
            let r = single_issue("content.heading_hierarchy", Severity::Info,
                RuleCategory::Content, msg, None);
            assert(issues_view(r@) =~= heading_hierarchy_issues(*page));
            r
        } else {
            no_issues()
        }
    }
}

// ---------------------------------------------------------------------------
// content.thin_content
// ---------------------------------------------------------------------------

/// Flags a page with some, but fewer than `min_words`, words.
#[derive(Debug, Clone, Copy)]
pub struct ThinContent {
    pub min_words: u32,
}

impl Default for ThinContent {
    fn default() -> (r: Self)
        ensures
            r.min_words == 200,
    {
        ThinContent { min_words: 200 }
    }
}

/// Issues of `content.thin_content`.
pub open spec fn thin_content_issues(rule: ThinContent, page: ParsedPage) -> Seq<IssueV> {
    if page.word_count > 0 && page.word_count < rule.min_words {
        seq![IssueV {
            rule_id: "content.thin_content"@,
            severity: Severity::Warning,
            category: RuleCategory::Content,
            message: "Page has thin content ("@ + decimal(page.word_count as nat)
                + " words, minimum "@ + decimal(rule.min_words as nat) + " recommended)."@,
            detail: Some(
                DetailV::WordCount {
                    word_count: page.word_count as nat,
                    min_words: rule.min_words as nat,
                },
            ),
        }]
    } else {
        Seq::empty()
    }
}

impl ThinContent {
    pub fn id(&self) -> (r: &'static str)
        ensures
            r@ == "content.thin_content"@,
    {
        "content.thin_content"
    }

    pub fn name(&self) -> (r: &'static str)
        ensures
            r@ == "Thin Content"@,
    {
        "Thin Content"
    }

    pub fn category(&self) -> (r: RuleCategory)
        ensures
            r == RuleCategory::Content,
    {
        RuleCategory::Content
    }

    pub fn default_severity(&self) -> (r: Severity)
        ensures
            r == Severity::Warning,
    {
        Severity::Warning
    }

    pub fn evaluate(&self, page: &ParsedPage, _ctx: &CrawlContext) -> (r: Vec<Issue>)
        ensures
            issues_view(r@) == thin_content_issues(*self, *page),
    {
        if page.word_count > 0 && page.word_count < self.min_words {
            let mut m: Vec<char> = Vec::new();
            push_lit(&mut m, "Page has thin content (");
            push_decimal(&mut m, page.word_count as u64);
            push_lit(&mut m, " words, minimum ");
            push_decimal(&mut m, self.min_words as u64);
            push_lit(&mut m, " recommended).");
            let msg = string_of(&m);
            let r = single_issue(
                "content.thin_content",
                Severity::Warning,
                RuleCategory::Content,
                msg,
                Some(IssueDetail::WordCount { word_count: page.word_count, min_words: self.min_words }),
            );
            assert(issues_view(r@) =~= thin_content_issues(*self, *page));
            r
        } else {
            no_issues()
        }
    }
}


/// Heading level `b` (0 for H1) is on the page and `a` is the nearest level
/// above it that is, the top level counting as present.
pub open spec fn heading_gap(present: Seq<bool>, a: int, b: int) -> bool {
    &&& 0 <= a < b < present.len()
    &&& present[b]
    &&& (a == 0 || present[a])
    &&& forall|k: int| a < k < b ==> !present[k]
}

/// `w` is the skip from the nearest used level above `b` to `b`, for some
/// used level `b` below `n`, by heading numbers.
pub open spec fn is_skip(present: Seq<bool>, n: int, w: (nat, nat)) -> bool {
    exists|a: int, b: int|
        b < n && #[trigger] heading_gap(present, a, b) && b > a + 1 && w == ((a + 1) as nat, (b + 1) as nat)
}

/// `w` occurs in `m`.
pub open spec fn lists(m: Seq<char>, w: Seq<char>) -> bool {
    exists|p: int| 0 <= p && p + w.len() <= m.len() && #[trigger] m.subrange(p, p + w.len()) == w
}

proof fn lemma_skip_scan(present: Seq<bool>, n: int)
    requires
        0 <= n <= present.len(),
    ensures
        ({
            let (sk, last) = skip_scan(present, n);
            &&& 0 <= last
            &&& (n == 0 ==> last == 0)
            &&& (n > 0 ==> last < n)
            &&& (last == 0 || present[last])
            &&& forall|k: int| last < k < n ==> !present[k]
            &&& forall|a: int, b: int|
                b < n && #[trigger] heading_gap(present, a, b) && b > a + 1 ==> sk.contains(
                    ((a + 1) as nat, (b + 1) as nat),
                )
            &&& forall|j: int| 0 <= j < sk.len() ==> #[trigger] is_skip(present, n, sk[j])
        }),
    decreases n,
{
    if n > 0 {
        lemma_skip_scan(present, n - 1);
        let (sk0, last0) = skip_scan(present, n - 1);
        let i = n - 1;
        assert forall|a: int| #[trigger] heading_gap(present, a, i) implies a == last0 by {
            if a < last0 {
                assert(!present[last0]);
            } else if a > last0 {
                assert(!present[a]);
            }
        }
        let (sk, last) = skip_scan(present, n);
        assert forall|a: int, b: int|
            b < n && #[trigger] heading_gap(present, a, b) && b > a + 1 implies sk.contains(
            ((a + 1) as nat, (b + 1) as nat),
        ) by {
            if b < i {
                let w = ((a + 1) as nat, (b + 1) as nat);
                assert(sk0.contains(w));
                let q = choose|q: int| 0 <= q < sk0.len() && sk0[q] == w;
                assert(sk[q] == w);
            } else {
                assert(a == last0);
                assert(sk.last() == ((a + 1) as nat, (b + 1) as nat));
            }
        }
        assert forall|j: int| 0 <= j < sk.len() implies #[trigger] is_skip(present, n, sk[j]) by {
            if j < sk0.len() {
                assert(sk[j] == sk0[j]);
                assert(is_skip(present, n - 1, sk0[j]));
                let (a, b) = choose|a: int, b: int|
                    b < n - 1 && #[trigger] heading_gap(present, a, b) && b > a + 1 && sk0[j] == (
                        (a + 1) as nat,
                        (b + 1) as nat,
                    );
                assert(heading_gap(present, a, b));
            } else {
                assert(heading_gap(present, last0, i));
            }
        }
    }
}

proof fn lemma_join_lists(skips: Seq<(nat, nat)>, j: int)
    requires
        0 <= j < skips.len(),
    ensures
        lists(join_skips(skips), skip_text(skips[j])),
    decreases skips.len(),
{
    let w = skip_text(skips[j]);
    let m = join_skips(skips);
    if skips.len() == 1 {
        assert(m == w);
        let z: int = 0;
        assert(m.subrange(z, z + w.len()) =~= w);
    } else if j == skips.len() - 1 {
        let pre = join_skips(skips.drop_last()) + ", "@;
        assert(m == pre + w);
        let p = pre.len() as int;
        assert(m.subrange(p, p + w.len()) =~= w);
    } else {
        lemma_join_lists(skips.drop_last(), j);
        let m0 = join_skips(skips.drop_last());
        assert(skips.drop_last()[j] == skips[j]);
        let p = choose|p: int| 0 <= p && p + w.len() <= m0.len() && #[trigger] m0.subrange(p, p + w.len()) == w;
        assert(m == m0 + (", "@ + skip_text(skips.last())));
        assert(m.subrange(p, p + w.len()) =~= m0.subrange(p, p + w.len()));
    }
}

/// The heading-hierarchy rule reports a page exactly when some heading
/// level is used with a level missing between it and the nearest level
/// above it (H1 counting as used): then it reports one Info issue whose
/// message names every such skip as "H<from> to H<to>" by heading number;
/// a page whose used levels follow on without a gap gets no issue.
pub proof fn law_heading_skips_reported(page: ParsedPage)
    ensures
        ({
            let present = levels_present(page);
            let issues = heading_hierarchy_issues(page);
            &&& issues.len() <= 1
            &&& (issues.len() == 1 <==> exists|a: int, b: int| #[trigger] heading_gap(present, a, b) && b > a + 1)
            &&& forall|a: int, b: int|
                #[trigger] heading_gap(present, a, b) && b > a + 1 ==> {
                    &&& issues.len() == 1
                    &&& issues[0].rule_id == "content.heading_hierarchy"@
                    &&& issues[0].severity == Severity::Info
                    &&& issues[0].category == RuleCategory::Content
                    &&& lists(
                        issues[0].message,
                        seq!['H'] + decimal((a + 1) as nat) + " to H"@ + decimal((b + 1) as nat),
                    )
                }
        }),
{
    let present = levels_present(page);
    lemma_skip_scan(present, 6);
    let sk = skip_scan(present, 6).0;
    let issues = heading_hierarchy_issues(page);
    if exists|a: int, b: int| #[trigger] heading_gap(present, a, b) && b > a + 1 {
        let (a, b) = choose|a: int, b: int| #[trigger] heading_gap(present, a, b) && b > a + 1;
        assert(sk.contains(((a + 1) as nat, (b + 1) as nat)));
    }
    if sk.len() > 0 {
        assert(is_skip(present, 6, sk[0]));
        let (a, b) = choose|a: int, b: int|
            b < 6 && #[trigger] heading_gap(present, a, b) && b > a + 1 && sk[0] == ((a + 1) as nat, (b + 1) as nat);
        assert(heading_gap(present, a, b) && b > a + 1);
    }
    assert forall|a: int, b: int|
        #[trigger] heading_gap(present, a, b) && b > a + 1 implies issues.len() == 1 && lists(
        issues[0].message,
        seq!['H'] + decimal((a + 1) as nat) + " to H"@ + decimal((b + 1) as nat),
    ) by {
        let w = ((a + 1) as nat, (b + 1) as nat);
        assert(sk.contains(w));
        let j = choose|j: int| 0 <= j < sk.len() && sk[j] == w;
        lemma_join_lists(sk, j);
        let jt = join_skips(sk);
        let t = skip_text(w);
        let pre = "Heading levels skipped: "@;
        let m = pre + jt + "."@;
        assert(issues[0].message == m);
        let p = choose|p: int| 0 <= p && p + t.len() <= jt.len() && #[trigger] jt.subrange(p, p + t.len()) == t;
        assert(m.subrange(pre.len() + p, pre.len() + p + t.len()) =~= jt.subrange(p, p + t.len()));
        assert(t == seq!['H'] + decimal((a + 1) as nat) + " to H"@ + decimal((b + 1) as nat));
    }
}

} // verus!
