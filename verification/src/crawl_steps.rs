//! The decisions of the crawl loop: which discovered URLs are queued and
//! how, when the loop stops or pauses, when progress is reported, how long
//! to wait before a request, and the crawl's final status.

use vstd::prelude::*;
use crate::config::{CompiledPatterns, filtered, regexes_view, rules_view};
use crate::frontier::{FrontierEntry, UrlFrontier, hash_url, blake3_digest_of};
use crate::page::ExtractedLink;
use crate::sitemap::SitemapEntry;
use crate::types::CrawlState;
use crate::urls::{normalize_url, normalized, UrlParseError};

verus! {

/// The URL a discovered URL is queued under: normalized (trailing slash
/// stripped), rewritten and filtered; none when it does not normalize or is
/// filtered out.
pub open spec fn queue_url(p: CompiledPatterns, url: Seq<char>) -> Option<Seq<char>> {
    match normalized(url, true) {
        Ok(n) => filtered(regexes_view(p.includes@), regexes_view(p.exclude@), rules_view(p.rewrite_rules@), n),
        Err(_) => None,
    }
}

/// The URL to queue for a discovered one.
pub fn queue_url_of(patterns: &CompiledPatterns, url: &str) -> (r: Option<String>)
    ensures
        match r {
            Some(u) => queue_url(*patterns, url@) == Some(u@),
            None => queue_url(*patterns, url@) is None,
        },
{
    match normalize_url(url, true) {
        Ok(n) => patterns.filter_and_rewrite(n.as_str()),
        Err(_) => None,
    }
}

/// Links a page's crawl follows: internal ones without `nofollow`.
pub open spec fn followed(l: ExtractedLink) -> bool {
    l.is_internal && !l.is_nofollow
}

/// The targets to queue from a page's links, in link order.
pub open spec fn link_targets(p: CompiledPatterns, links: Seq<ExtractedLink>) -> Seq<Seq<char>>
    decreases links.len(),
{
    if links.len() == 0 {
        Seq::empty()
    } else {
        let t = link_targets(p, links.drop_last());
        let l = links.last();
        if followed(l) {
            match queue_url(p, l.href@) {
                Some(u) => t.push(u),
                None => t,
            }
        } else {
            t
        }
    }
}

/// The URLs to queue from a page's links.
pub fn targets_of_links(patterns: &CompiledPatterns, links: &Vec<ExtractedLink>) -> (r: Vec<String>)
    ensures
        r@.map_values(|s: String| s@) == link_targets(*patterns, links@),
{
    let mut out: Vec<String> = Vec::new();
    let mut i: usize = 0;
    while i < links.len()
        invariant
            i <= links@.len(),
            out@.map_values(|s: String| s@) == link_targets(*patterns, links@.take(i as int)),
        decreases links.len() - i,
    {
        assert(links@.take(i + 1).drop_last() =~= links@.take(i as int));
        assert(links@.take(i + 1).last() == links@[i as int]);
        let l = &links[i];
        if l.is_internal && !l.is_nofollow {
            match queue_url_of(patterns, l.href.as_str()) {
                Some(u) => {
                    let ghost before = out@.map_values(|s: String| s@);
                    let ghost uv = u@;
                    out.push(u);
                    assert(out@.map_values(|s: String| s@) =~= before.push(uv));
                },
                None => {},
            }
        }
        i = i + 1;
    }
    assert(links@.take(links@.len() as int) =~= links@);
    out
}

/// The targets of the external links of a page, for the link checker.
pub open spec fn external_hrefs(links: Seq<ExtractedLink>) -> Seq<Seq<char>>
    decreases links.len(),
{
    if links.len() == 0 {
        Seq::empty()
    } else {
        let rest = external_hrefs(links.drop_last());
        if links.last().is_internal {
            rest
        } else {
            rest.push(links.last().href@)
        }
    }
}

/// The targets of a page's external links, in order.
pub fn external_targets(links: &Vec<ExtractedLink>) -> (r: Vec<String>)
    ensures
        r@.map_values(|s: String| s@) == external_hrefs(links@),
{
    let mut out: Vec<String> = Vec::new();
    let mut i: usize = 0;
    while i < links.len()
        invariant
            i <= links@.len(),
            out@.map_values(|s: String| s@) == external_hrefs(links@.take(i as int)),
        decreases links.len() - i,
    {
        assert(links@.take(i + 1).drop_last() =~= links@.take(i as int));
        assert(links@.take(i + 1).last() == links@[i as int]);
        let l = &links[i];
        if !l.is_internal {
            let ghost before = out@.map_values(|s: String| s@);
            out.push(l.href.clone());
            assert(out@.map_values(|s: String| s@) =~= before.push(l.href@));
        }
        i = i + 1;
    }
    assert(links@.take(links@.len() as int) =~= links@);
    out
}

/// The priority of a link found at `parent_depth`: `100 - (depth + 1)`,
/// saturating.
pub open spec fn child_priority(parent_depth: u32) -> i32 {
    let p = 100 - (parent_depth + 1);
    if p < i32::MIN {
        i32::MIN
    } else {
        p as i32
    }
}

/// An entry queued for one of `targets`, found at `parent_depth`: one
/// level deeper, ranked by `child_priority`, keyed by the URL's hash.
pub open spec fn child_entry(e: FrontierEntry, parent_depth: u32, targets: Seq<String>) -> bool {
    &&& e.depth == parent_depth + 1
    &&& e.priority == child_priority(parent_depth)
    &&& e.source_page_id is None
    &&& e.url_hash@ == blake3_digest_of(e.url@)
    &&& exists|j: int| 0 <= j < targets.len() && e.url@ == (#[trigger] targets[j])@
}

/// `a` continued by entries that are all children of `parent_depth`.
pub open spec fn grown_by_children(a: Seq<FrontierEntry>, b: Seq<FrontierEntry>, parent_depth: u32, targets: Seq<String>) -> bool {
    &&& a.len() <= b.len()
    &&& forall|k: int| 0 <= k < a.len() ==> b[k] == a[k]
    &&& forall|k: int| a.len() <= k < b.len() ==> child_entry(#[trigger] b[k], parent_depth, targets)
}

/// Queue targets found on a page at `parent_depth` (one level deeper).
/// Returns how many were new.
pub fn enqueue_targets(frontier: &mut UrlFrontier, targets: Vec<String>, parent_depth: u32) -> (added: u64)
    requires
        old(frontier).wf(),
        parent_depth < i32::MAX,
        old(frontier).discovered() + targets@.len() < u64::MAX,
    ensures
        final(frontier).wf(),
        final(frontier).seen() == old(frontier).seen().union(
            Set::new(|h: Seq<u8>| exists|k: int| 0 <= k < targets@.len() && h == blake3_digest_of(#[trigger] targets@[k]@)),
        ),
        final(frontier).discovered() == old(frontier).discovered() + added,
        added <= targets@.len(),
        grown_by_children(old(frontier).queue(), final(frontier).queue(), parent_depth, targets@),
        grown_by_children(old(frontier).pending(), final(frontier).pending(), parent_depth, targets@),
{
    let priority: i32 = 100 - (parent_depth as i32 + 1);
    assert(priority == child_priority(parent_depth));
    let mut added: u64 = 0;
    let mut rest = targets;
    let ghost orig = rest@;
    let total: usize = rest.len();
    let mut done: usize = 0;
    let ghost hashes = Set::new(|h: Seq<u8>| exists|k: int| 0 <= k < orig.len() && h == blake3_digest_of(#[trigger] orig[k]@));
    assert(rest@ =~= orig.skip(0));
    while rest.len() > 0
        invariant
            total == orig.len(),
            done + rest@.len() == total,
            rest@ == orig.skip(done as int),
            frontier.wf(),
            added <= done,
            frontier.discovered() == old(frontier).discovered() + added,
            old(frontier).discovered() + total < u64::MAX,
            parent_depth < i32::MAX,
            frontier.seen() == old(frontier).seen().union(
                Set::new(|h: Seq<u8>| exists|k: int| 0 <= k < done && h == blake3_digest_of(#[trigger] orig[k]@)),
            ),
            priority == child_priority(parent_depth),
            orig == targets@,
            grown_by_children(old(frontier).queue(), frontier.queue(), parent_depth, orig),
            grown_by_children(old(frontier).pending(), frontier.pending(), parent_depth, orig),
        decreases rest.len(),
    {
        let url = rest.remove(0);
        assert(url == orig[done as int]);
        assert(rest@ =~= orig.skip(done + 1));
        let h = hash_url(url.as_str());
        let ghost s0 = frontier.seen();
        let ghost q0 = frontier.queue();
        let ghost p0 = frontier.pending();
        let ghost entry = FrontierEntry { url, url_hash: h, depth: (parent_depth + 1) as u32, priority, source_page_id: None };
        assert(child_entry(entry, parent_depth, orig)) by {
            assert(entry.url@ == orig[done as int]@);
        }
        let is_new = frontier.push(FrontierEntry { url, url_hash: h, depth: parent_depth + 1, priority, source_page_id: None });
        proof {
            let q1 = frontier.queue();
            let p1 = frontier.pending();
            assert forall|k: int| old(frontier).queue().len() <= k < q1.len() implies child_entry(#[trigger] q1[k], parent_depth, orig) by {
                if k < q0.len() {
                    assert(q1[k] == q0[k]);
                } else {
                    assert(q1[k] == entry);
                }
            }
            assert forall|k: int| old(frontier).pending().len() <= k < p1.len() implies child_entry(#[trigger] p1[k], parent_depth, orig) by {
                if k < p0.len() {
                    assert(p1[k] == p0[k]);
                } else {
                    assert(p1[k] == entry);
                }
            }
            assert forall|k: int| 0 <= k < old(frontier).queue().len() implies q1[k] == old(frontier).queue()[k] by {
                assert(q0[k] == old(frontier).queue()[k]);
            }
            assert forall|k: int| 0 <= k < old(frontier).pending().len() implies p1[k] == old(frontier).pending()[k] by {
                assert(p0[k] == old(frontier).pending()[k]);
            }
        }
        if is_new {
            added = added + 1;
        }
        proof {
            let a = Set::new(|g: Seq<u8>| exists|k: int| 0 <= k < done && g == blake3_digest_of(#[trigger] orig[k]@));
            let b = Set::new(|g: Seq<u8>| exists|k: int| 0 <= k < done + 1 && g == blake3_digest_of(#[trigger] orig[k]@));
            assert(b =~= a.insert(h@)) by {
                assert forall|g: Seq<u8>| b.contains(g) implies a.insert(h@).contains(g) by {
                    let k = choose|k: int| 0 <= k < done + 1 && g == blake3_digest_of(#[trigger] orig[k]@);
                    if k < done {
                        assert(a.contains(g));
                    }
                }
                assert forall|g: Seq<u8>| a.insert(h@).contains(g) implies b.contains(g) by {
                    if g == h@ {
                        assert(g == blake3_digest_of(orig[done as int]@));
                    } else {
                        let k = choose|k: int| 0 <= k < done && g == blake3_digest_of(#[trigger] orig[k]@);
                        assert(0 <= k < done + 1);
                    }
                }
            }
            assert(frontier.seen() =~= old(frontier).seen().union(b));
        }
        done = done + 1;
    }
    added
}

/// The sitemap URLs to queue, in order: each normalized and filtered like a
/// link.
pub open spec fn sitemap_targets(p: CompiledPatterns, entries: Seq<SitemapEntry>) -> Seq<Seq<char>>
    decreases entries.len(),
{
    if entries.len() == 0 {
        Seq::empty()
    } else {
        let t = sitemap_targets(p, entries.drop_last());
        match queue_url(p, entries.last().url@) {
            Some(u) => t.push(u),
            None => t,
        }
    }
}

/// The URLs to queue from sitemap entries.
pub fn targets_of_sitemap(patterns: &CompiledPatterns, entries: &Vec<SitemapEntry>) -> (r: Vec<String>)
    ensures
        r@.map_values(|s: String| s@) == sitemap_targets(*patterns, entries@),
{
    let mut out: Vec<String> = Vec::new();
    let mut i: usize = 0;
    while i < entries.len()
        invariant
            i <= entries@.len(),
            out@.map_values(|s: String| s@) == sitemap_targets(*patterns, entries@.take(i as int)),
        decreases entries.len() - i,
    {
        assert(entries@.take(i + 1).drop_last() =~= entries@.take(i as int));
        assert(entries@.take(i + 1).last() == entries@[i as int]);
        match queue_url_of(patterns, entries[i].url.as_str()) {
            Some(u) => {
                let ghost before = out@.map_values(|s: String| s@);
                let ghost uv = u@;
                out.push(u);
                assert(out@.map_values(|s: String| s@) =~= before.push(uv));
            },
            None => {},
        }
        i = i + 1;
    }
    assert(entries@.take(entries@.len() as int) =~= entries@);
    out
}

/// Priority of URLs found in sitemaps: above any link.
pub const SITEMAP_PRIORITY: i32 = 150;

/// The frontier entry of a sitemap URL: depth 0, priority 150.
pub fn sitemap_entry(url: String) -> (r: FrontierEntry)
    ensures
        r.url@ == url@,
        r.url_hash@ == blake3_digest_of(url@),
        r.depth == 0,
        r.priority == SITEMAP_PRIORITY,
        r.source_page_id is None,
{
    let h = hash_url(url.as_str());
    FrontierEntry { url, url_hash: h, depth: 0, priority: SITEMAP_PRIORITY, source_page_id: None }
}

/// The frontier entry of the seed URL: depth 0, priority 100.
pub fn seed_entry(url: String) -> (r: FrontierEntry)
    ensures
        r.url@ == url@,
        r.url_hash@ == blake3_digest_of(url@),
        r.depth == 0,
        r.priority == 100,
        r.source_page_id is None,
{
    let h = hash_url(url.as_str());
    FrontierEntry { url, url_hash: h, depth: 0, priority: 100, source_page_id: None }
}

/// What the crawl loop does next.
#[derive(Debug, Clone, Copy, PartialEq, Eq, Structural)]
pub enum LoopStep {
    /// Stopped by the user.
    Stop,
    /// Wait until the state changes.
    Pause,
    /// The page limit is reached.
    LimitReached,
    /// Take the next URL.
    Continue,
}

/// The loop's next step: a stop request ends it, a pause waits, the page
/// limit (when not 0) ends it once reached.
pub fn next_loop_step(state: CrawlState, max_pages: u32, urls_crawled: u64) -> (r: LoopStep)
    ensures
        r == if state == CrawlState::Stopped {
            LoopStep::Stop
        } else if state == CrawlState::Paused {
            LoopStep::Pause
        } else if max_pages > 0 && urls_crawled >= max_pages {
            LoopStep::LimitReached
        } else {
            LoopStep::Continue
        },
{
    match state {
        CrawlState::Stopped => LoopStep::Stop,
        CrawlState::Paused => LoopStep::Pause,
        _ => if max_pages > 0 && urls_crawled >= max_pages as u64 {
            LoopStep::LimitReached
        } else {
            LoopStep::Continue
        },
    }
}

/// Whether the loop takes another URL from the frontier: fewer requests
/// in flight than the concurrency limit (at least 1), and the dequeue
/// counter not exhausted.
pub fn may_dequeue(in_flight: usize, max_concurrency: u32, dequeued: u64) -> (r: bool)
    ensures
        r == (in_flight < (if max_concurrency == 0 { 1 } else { max_concurrency as int }) && dequeued < u64::MAX),
{
    let limit: u64 = if max_concurrency == 0 { 1 } else { max_concurrency as u64 };
    (in_flight as u128) < (limit as u128) && dequeued < u64::MAX
}

/// With the frontier empty, the crawl is complete when nothing is in
/// flight; otherwise it waits for requests to finish.
pub fn crawl_complete(frontier_empty: bool, in_flight: usize) -> (r: bool)
    ensures
        r == (frontier_empty && in_flight == 0),
{
    frontier_empty && in_flight == 0
}

/// How many stored overflow entries to move back into memory: a batch
/// (at most what is stored) when the frontier asks for a refill or is
/// empty while entries are stored, else none.
pub fn refill_count(needs_refill: bool, frontier_empty: bool, stored: usize, batch_size: usize) -> (r: usize)
    ensures
        r == (if needs_refill || (frontier_empty && stored > 0) {
            if batch_size < stored { batch_size } else { stored }
        } else {
            0
        }),
{
    if needs_refill || (frontier_empty && stored > 0) {
        if batch_size < stored { batch_size } else { stored }
    } else {
        0
    }
}

/// Whether robots.txt must be fetched for a host before its next URL: when
/// robots.txt is respected and no live entry is cached.
pub fn needs_robots_fetch(respect_robots: bool, cached: bool) -> (r: bool)
    ensures
        r == (respect_robots && !cached),
{
    respect_robots && !cached
}

/// Whether a URL taken from the frontier is fetched: always when robots.txt
/// is not respected, else when robots.txt allows it.
pub fn may_fetch(respect_robots: bool, robots_allowed: bool) -> (r: bool)
    ensures
        r == (!respect_robots || robots_allowed),
{
    !respect_robots || robots_allowed
}

/// Whether the links of a page at `depth` are followed: only below the
/// maximum depth (and within the depths the frontier's priorities hold).
pub fn follows_links(depth: u32, max_depth: u32) -> (r: bool)
    ensures
        r == (depth < max_depth && depth < i32::MAX),
        r ==> depth + 1 <= max_depth,
{
    depth < max_depth && depth < i32::MAX as u32
}

/// Whether to report progress: at least 250 ms since the last report, or at
/// least 50 more URLs crawled.
pub fn should_emit_progress(ms_since_last: u64, urls_crawled: u64, last_count: u64) -> (r: bool)
    ensures
        r == (ms_since_last >= 250 || (if urls_crawled >= last_count { urls_crawled - last_count } else { 0 }) >= 50),
{
    ms_since_last >= 250 || urls_crawled.saturating_sub(last_count) >= 50
}

/// The final state and status text of a finished crawl: stopped when it was
/// stopped, else completed.
pub fn final_state(state: CrawlState) -> (r: (CrawlState, &'static str))
    ensures
        state == CrawlState::Stopped ==> r.0 == CrawlState::Stopped && r.1@ == "stopped"@,
        state != CrawlState::Stopped ==> r.0 == CrawlState::Completed && r.1@ == "completed"@,
{
    match state {
        CrawlState::Stopped => (CrawlState::Stopped, "stopped"),
        _ => (CrawlState::Completed, "completed"),
    }
}

/// How long to wait before the next request to a host, in nanoseconds:
/// the host's delay (its robots.txt crawl delay, else the default) minus
/// the time since its last request; nothing for a host not requested yet.
pub fn politeness_wait_ns(default_delay_ns: u64, override_ns: Option<u64>, elapsed_ns: Option<u64>) -> (r: u64)
    ensures
        r == ({
            let delay = match override_ns {
                Some(d) => d,
                None => default_delay_ns,
            };
            match elapsed_ns {
                Some(e) => if e < delay { (delay - e) as u64 } else { 0 },
                None => 0,
            }
        }),
{
    let delay = match override_ns {
        Some(d) => d,
        None => default_delay_ns,
    };
    match elapsed_ns {
        Some(e) => if e < delay {
            delay - e
        } else {
            0
        },
        None => 0,
    }
}


/// Crawl statistics shared with status queries: pages crawled and pages
/// that failed. Counters wrap as atomic adds do.
#[derive(Debug, Clone, Copy)]
pub struct CrawlStats {
    pub urls_crawled: u64,
    pub urls_errored: u64,
}

impl CrawlStats {
    pub fn new() -> (r: Self)
        ensures
            r.urls_crawled == 0,
            r.urls_errored == 0,
    {
        CrawlStats { urls_crawled: 0, urls_errored: 0 }
    }

    /// Count a crawled page.
    pub fn record_crawled(&mut self)
        ensures
            final(self).urls_crawled == (if old(self).urls_crawled == u64::MAX { 0 } else { old(self).urls_crawled + 1 }),
            final(self).urls_errored == old(self).urls_errored,
    {
        self.urls_crawled = self.urls_crawled.wrapping_add(1);
    }

    /// Count a page that failed.
    pub fn record_errored(&mut self)
        ensures
            final(self).urls_errored == (if old(self).urls_errored == u64::MAX { 0 } else { old(self).urls_errored + 1 }),
            final(self).urls_crawled == old(self).urls_crawled,
    {
        self.urls_errored = self.urls_errored.wrapping_add(1);
    }
}

/// A progress sink that drops every event.
pub struct NoopEmitter;

} // verus!
