//! robots.txt rules per domain, parsed with `texting_robots` and kept for a
//! time-to-live. Times are milliseconds on a clock the caller supplies.

use vstd::prelude::*;
use crate::text::{chars_of, string_of, str_eq, push_lit, strs_view, clone_strs};
use crate::urls::{parse_url, url_parse_result};

verus! {

#[verifier::external_type_specification]
#[verifier::external_body]
pub struct ExRobot(texting_robots::Robot);

/// Whether `texting_robots` accepts a robots.txt text for a user agent.
pub uninterp spec fn robots_accepts(agent: Seq<char>, content: Seq<u8>) -> bool;

/// Whether the rules `texting_robots` reads from a robots.txt text for a
/// user agent allow a URL.
pub uninterp spec fn robots_allows(agent: Seq<char>, content: Seq<u8>, url: Seq<char>) -> bool;

/// The sitemap URLs `texting_robots` reads from a robots.txt text.
pub uninterp spec fn robots_sitemap_list(agent: Seq<char>, content: Seq<u8>) -> Seq<Seq<char>>;

/// The crawl delay, in nanoseconds, `texting_robots` reads from a
/// robots.txt text for a user agent.
pub uninterp spec fn robots_delay(agent: Seq<char>, content: Seq<u8>) -> Option<u64>;

/// Rules parsed from a robots.txt text for a user agent, with the text and
/// agent they were parsed from.
pub struct ParsedRobots {
    robot: texting_robots::Robot,
    agent: Ghost<Seq<char>>,
    content: Ghost<Seq<u8>>,
}

impl ParsedRobots {
    /// The user agent and text the rules were parsed from.
    pub closed spec fn source(self) -> (Seq<char>, Seq<u8>) {
        (self.agent@, self.content@)
    }
}

/// Calls `texting_robots::Robot::new` for the user agent; `None` where the
/// crate refuses the text. The outcome is named as a function of the agent
/// and the text, and the rules remember both.
#[verifier::external_body]
fn parse_robots(user_agent: &str, content: &[u8]) -> (r: Option<ParsedRobots>)
    ensures
        r is Some <==> robots_accepts(user_agent@, content@),
        r matches Some(p) ==> p.source() == (user_agent@, content@),
{
    texting_robots::Robot::new(user_agent, content)
        .ok()
        .map(|robot| ParsedRobots { robot, agent: Ghost(user_agent@), content: Ghost(content@) })
}

/// Calls `texting_robots::Robot::allowed`; the answer is named as a
/// function of the rules' source and the URL.
#[verifier::external_body]
fn robot_allows(robots: &ParsedRobots, url: &str) -> (r: bool)
    ensures
        r == robots_allows(robots.source().0, robots.source().1, url@),
{
    robots.robot.allowed(url)
}

/// Reads the `sitemaps` field of parsed rules; named as a function of the
/// rules' source.
#[verifier::external_body]
fn robot_sitemaps(robots: &ParsedRobots) -> (r: Vec<String>)
    ensures
        strs_view(r@) == robots_sitemap_list(robots.source().0, robots.source().1),
{
    robots.robot.sitemaps.clone()
}

/// Reads the `delay` field (seconds) of parsed rules and converts it with
/// `Duration::try_from_secs_f32` to nanoseconds (an exact conversion of
/// the value, rounded to the nanosecond); `None` when there is no
/// delay, it is negative or not finite, or it exceeds what a `u64` of
/// nanoseconds holds. Named as a function of the rules' source.
#[verifier::external_body]
fn robot_delay_ns(robots: &ParsedRobots) -> (r: Option<u64>)
    ensures
        r == robots_delay(robots.source().0, robots.source().1),
{
    let d = std::time::Duration::try_from_secs_f32(robots.robot.delay?).ok()?;
    u64::try_from(d.as_nanos()).ok()
}

/// Cached robots.txt information for one domain.
struct RobotsEntry {
    domain: String,
    /// Parsed rules (none when robots.txt was unavailable or refused).
    robot: Option<ParsedRobots>,
    /// Crawl-delay directive, in nanoseconds.
    crawl_delay_ns: Option<u64>,
    /// Sitemap URLs declared in the robots.txt.
    sitemaps: Vec<String>,
    /// When the entry was cached.
    cached_at_ms: u64,
}

/// What is known of a cached entry: the source of its rules, if it has
/// any, its crawl delay, its sitemaps and when it was cached.
pub struct RobotsEntryV {
    pub rules: Option<(Seq<char>, Seq<u8>)>,
    pub crawl_delay_ns: Option<u64>,
    pub sitemaps: Seq<Seq<char>>,
    pub cached_at_ms: u64,
}

spec fn entry_view(e: RobotsEntry) -> (Seq<char>, RobotsEntryV) {
    (
        e.domain@,
        RobotsEntryV {
            rules: match e.robot {
                Some(p) => Some(p.source()),
                None => None,
            },
            crawl_delay_ns: e.crawl_delay_ns,
            sitemaps: strs_view(e.sitemaps@),
            cached_at_ms: e.cached_at_ms,
        },
    )
}

/// The entry cached last for `domain`.
pub open spec fn latest_entry(log: Seq<(Seq<char>, RobotsEntryV)>, domain: Seq<char>) -> Option<RobotsEntryV>
    decreases log.len(),
{
    if log.len() == 0 {
        None
    } else if log.last().0 == domain {
        Some(log.last().1)
    } else {
        latest_entry(log.drop_last(), domain)
    }
}

/// An entry cached at `cached_at` is still fresh at `now`: less than the
/// time-to-live has elapsed (a clock that went back counts as no time).
pub open spec fn fresh(cached_at: u64, now: u64, ttl_secs: u64) -> bool {
    (if now >= cached_at { now - cached_at } else { 0 }) < ttl_secs * 1000
}

/// Whether `url` may be fetched at `now`: a URL without a host, a domain
/// without an entry, a stale entry and an entry without rules all allow;
/// otherwise the entry's rules decide.
pub open spec fn url_allowed(log: Seq<(Seq<char>, RobotsEntryV)>, ttl_secs: u64, url: Seq<char>, now: u64) -> bool {
    match url_parse_result(url) {
        Ok(u) => match u.host {
            Some(d) => match latest_entry(log, d) {
                Some(e) => match e.rules {
                    Some(src) => !fresh(e.cached_at_ms, now, ttl_secs) || robots_allows(src.0, src.1, url),
                    None => true,
                },
                None => true,
            },
            None => true,
        },
        Err(_) => true,
    }
}

/// The entry cached for a robots.txt text read with `agent` at `now`: the
/// parsed rules, delay and sitemaps, or nothing when the text is refused.
pub open spec fn entry_for(agent: Seq<char>, content: Seq<u8>, now: u64) -> RobotsEntryV {
    if robots_accepts(agent, content) {
        RobotsEntryV {
            rules: Some((agent, content)),
            crawl_delay_ns: robots_delay(agent, content),
            sitemaps: robots_sitemap_list(agent, content),
            cached_at_ms: now,
        }
    } else {
        allow_all_entry(now)
    }
}

/// The entry of a domain whose robots.txt could not be read: no rules.
pub open spec fn allow_all_entry(now: u64) -> RobotsEntryV {
    RobotsEntryV { rules: None, crawl_delay_ns: None, sitemaps: Seq::empty(), cached_at_ms: now }
}

/// Cache of robots.txt rules per domain.
pub struct RobotsCache {
    entries: Vec<RobotsEntry>,
    ttl_secs: u64,
    user_agent: String,
}

impl RobotsCache {
    /// The entries cached so far, in order; the latest per domain counts.
    pub closed spec fn log(self) -> Seq<(Seq<char>, RobotsEntryV)> {
        self.entries@.map_values(|e: RobotsEntry| entry_view(e))
    }

    pub closed spec fn ttl(self) -> u64 {
        self.ttl_secs
    }

    pub closed spec fn agent(self) -> Seq<char> {
        self.user_agent@
    }

    pub fn new(user_agent: &str, ttl_secs: u64) -> (r: Self)
        ensures
            r.log().len() == 0,
            r.ttl() == ttl_secs,
            r.agent() == user_agent@,
    {
        let r = RobotsCache {
            entries: Vec::new(),
            ttl_secs,
            user_agent: string_of(&chars_of(user_agent)),
        };
        assert(r.log() =~= Seq::<(Seq<char>, RobotsEntryV)>::empty());
        r
    }

    /// Position of the latest entry for `domain`.
    fn find(&self, domain: &str) -> (r: Option<usize>)
        ensures
            match r {
                Some(i) => i < self.entries@.len() && latest_entry(self.log(), domain@) == Some(
                    entry_view(self.entries@[i as int]).1,
                ),
                None => latest_entry(self.log(), domain@) is None,
            },
    {
        let mut i: usize = self.entries.len();
        assert(self.log().take(i as int) =~= self.log());
        while i > 0
            invariant
                i <= self.entries@.len(),
                latest_entry(self.log(), domain@) == latest_entry(self.log().take(i as int), domain@),
            decreases i,
        {
            let ghost t = self.log().take(i as int);
            assert(t.drop_last() =~= self.log().take(i - 1));
            assert(t.last() == entry_view(self.entries@[i - 1]));
            if str_eq(self.entries[i - 1].domain.as_str(), domain) {
                return Some(i - 1);
            }
            i = i - 1;
        }
        None
    }

    fn is_fresh(&self, cached_at_ms: u64, now_ms: u64) -> (r: bool)
        ensures
            r == fresh(cached_at_ms, now_ms, self.ttl()),
    {
        let elapsed: u64 = if now_ms >= cached_at_ms { now_ms - cached_at_ms } else { 0 };
        (elapsed as u128) < (self.ttl_secs as u128) * 1000
    }

    /// Whether there is a fresh entry for this domain at `now_ms`.
    pub fn has_cached(&self, domain: &str, now_ms: u64) -> (r: bool)
        ensures
            r == match latest_entry(self.log(), domain@) {
                Some(e) => fresh(e.cached_at_ms, now_ms, self.ttl()),
                None => false,
            },
    {
        match self.find(domain) {
            Some(i) => self.is_fresh(self.entries[i].cached_at_ms, now_ms),
            None => false,
        }
    }

    /// Whether a URL may be fetched. A URL without a host, a domain without
    /// a fresh entry, and an entry without parsed rules all allow; only
    /// parsed rules can refuse.
    pub fn is_allowed(&self, url: &str, now_ms: u64) -> (r: bool)
        ensures
            r == url_allowed(self.log(), self.ttl(), url@, now_ms),
    {
        let u = match parse_url(url) {
            Ok(u) => u,
            Err(_) => return true,
        };
        let domain = match u.host_str() {
            Some(h) => h,
            None => return true,
        };
        match self.find(domain) {
            Some(i) => {
                if !self.is_fresh(self.entries[i].cached_at_ms, now_ms) {
                    return true;
                }
                match &self.entries[i].robot {
                    Some(robot) => {
                        robot_allows(robot, url)
                    },
                    None => true,
                }
            },
            None => true,
        }
    }

    /// Sitemap URLs declared in the domain's robots.txt (none when not
    /// cached).
    pub fn sitemaps(&self, domain: &str) -> (r: Vec<String>)
        ensures
            strs_view(r@) == match latest_entry(self.log(), domain@) {
                Some(e) => e.sitemaps,
                None => Seq::empty(),
            },
    {
        match self.find(domain) {
            Some(i) => clone_strs(&self.entries[i].sitemaps),
            None => {
                let v: Vec<String> = Vec::new();
                assert(strs_view(v@) =~= Seq::<Seq<char>>::empty());
                v
            },
        }
    }

    /// The crawl delay of a domain in nanoseconds, if its robots.txt sets
    /// one.
    pub fn crawl_delay(&self, domain: &str) -> (r: Option<u64>)
        ensures
            r == match latest_entry(self.log(), domain@) {
                Some(e) => e.crawl_delay_ns,
                None => None,
            },
    {
        match self.find(domain) {
            Some(i) => self.entries[i].crawl_delay_ns,
            None => None,
        }
    }

    fn insert(&mut self, e: RobotsEntry)
        ensures
            final(self).log() == old(self).log().push(entry_view(e)),
            final(self).ttl() == old(self).ttl(),
            final(self).agent() == old(self).agent(),
    {
        let ghost v = entry_view(e);
        self.entries.push(e);
        assert(self.log() =~= old(self).log().push(v));
    }

    /// Cache robots.txt content for a domain at `now_ms`. Content the
    /// parser refuses is cached as allowing everything.
    pub fn insert_from_content(&mut self, domain: &str, content: &[u8], now_ms: u64)
        ensures
            final(self).log().len() == old(self).log().len() + 1,
            final(self).log().drop_last() == old(self).log(),
            final(self).log().last().0 == domain@,
            final(self).log().last().1 == entry_for(old(self).agent(), content@, now_ms),
            final(self).ttl() == old(self).ttl(),
            final(self).agent() == old(self).agent(),
    {
        let d = string_of(&chars_of(domain));
        let e = match parse_robots(self.user_agent.as_str(), content) {
            Some(robot) => {
                let crawl_delay_ns = robot_delay_ns(&robot);
                let sitemaps = robot_sitemaps(&robot);
                RobotsEntry { domain: d, robot: Some(robot), crawl_delay_ns, sitemaps, cached_at_ms: now_ms }
            },
            None => RobotsEntry {
                domain: d,
                robot: None,
                crawl_delay_ns: None,
                sitemaps: Vec::new(),
                cached_at_ms: now_ms,
            },
        };
        proof {
            if e.robot is None {
                assert(strs_view(e.sitemaps@) =~= Seq::<Seq<char>>::empty());
            }
        }
        self.insert(e);
        assert(self.log().drop_last() =~= old(self).log());
    }

    /// Cache the outcome of fetching a domain's robots.txt: with status 200
    /// the body is parsed; any other status, or no response at all, caches
    /// an entry that allows everything.
    pub fn record_fetch(&mut self, domain: &str, status: Option<u16>, body: &[u8], now_ms: u64)
        ensures
            final(self).log().len() == old(self).log().len() + 1,
            final(self).log().drop_last() == old(self).log(),
            final(self).log().last().0 == domain@,
            final(self).log().last().1 == (if status == Some(200u16) {
                entry_for(old(self).agent(), body@, now_ms)
            } else {
                allow_all_entry(now_ms)
            }),
            final(self).ttl() == old(self).ttl(),
            final(self).agent() == old(self).agent(),
    {
        if status == Some(200u16) {
            self.insert_from_content(domain, body, now_ms);
        } else {
            let e = RobotsEntry {
                domain: string_of(&chars_of(domain)),
                robot: None,
                crawl_delay_ns: None,
                sitemaps: Vec::new(),
                cached_at_ms: now_ms,
            };
            assert(strs_view(e.sitemaps@) =~= Seq::<Seq<char>>::empty());
            self.insert(e);
            assert(self.log().drop_last() =~= old(self).log());
        }
    }
}

/// The robots.txt URL of a domain: `scheme://domain/robots.txt`.
pub fn robots_url(scheme: &str, domain: &str) -> (r: String)
    ensures
        r@ == scheme@ + "://"@ + domain@ + "/robots.txt"@,
{
    let mut v: Vec<char> = Vec::new();
    push_lit(&mut v, scheme);
    push_lit(&mut v, "://");
    push_lit(&mut v, domain);
    push_lit(&mut v, "/robots.txt");
    string_of(&v)
}

} // verus!
