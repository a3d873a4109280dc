//! Fetching a URL: the client's user agent, following redirects by hand
//! with a hop limit, and capping the body. The requests themselves are the
//! caller's.

use vstd::prelude::*;
use crate::config::CrawlConfig;
use crate::page::{FetchResult, RedirectHop};
use crate::text::{chars_of, push_lit, string_of};
use crate::urls::{opt_chars, redirect_resolved, redirect_target};
use crate::words::{decimal, push_decimal};

verus! {

/// User agent sent when the configuration names none.
pub const DEFAULT_USER_AGENT: &'static str = "OxideSEO/0.1 (+https://github.com/oxide-seo/oxide-seo)";

/// Redirects followed before giving up.
pub const MAX_REDIRECTS: usize = 10;

/// Bytes of a response body kept.
pub const MAX_BODY_SIZE: usize = 10485760;

/// The user agent of a crawl: the configured one, else the default.
pub fn user_agent_of(config: &CrawlConfig) -> (r: &str)
    ensures
        r@ == match config.user_agent {
            Some(u) => u@,
            None => DEFAULT_USER_AGENT@,
        },
{
    match &config.user_agent {
        Some(u) => u.as_str(),
        None => DEFAULT_USER_AGENT,
    }
}

/// What to do after a response.
#[derive(Debug, PartialEq, Eq)]
pub enum FetchStep {
    /// Request this URL next (a redirect was followed).
    Request(String),
    /// The response is final: read its body.
    Read,
    /// The redirect limit is exceeded; the error message.
    TooManyRedirects(String),
    /// The redirect's location does not resolve to a URL.
    BadRedirect,
}

/// The message of a fetch that exceeded the redirect limit.
pub open spec fn too_many_message(url: Seq<char>) -> Seq<char> {
    "Redirect chain exceeded "@ + decimal(MAX_REDIRECTS as nat) + " hops for URL: "@ + url
}

/// A fetch in progress: the URL asked for, the URL being requested, the
/// redirects taken and the responses seen.
pub struct RedirectTracker {
    pub url: String,
    pub current_url: String,
    pub chain: Vec<RedirectHop>,
    pub responses: usize,
}

/// A 3xx status.
pub open spec fn is_redirect(status: u16) -> bool {
    300 <= status < 400
}

impl RedirectTracker {
    /// Start fetching `url`.
    pub fn new(url: &str) -> (r: Self)
        ensures
            r.url@ == url@,
            r.current_url@ == url@,
            r.chain@.len() == 0,
            r.responses == 0,
    {
        RedirectTracker {
            url: string_of(&chars_of(url)),
            current_url: string_of(&chars_of(url)),
            chain: Vec::new(),
            responses: 0,
        }
    }

    /// Take a response to `current_url`. A redirect with a location is
    /// recorded and followed, unless that was the last request allowed;
    /// anything else is final.
    pub fn on_response(&mut self, status: u16, location: Option<&str>) -> (r: FetchStep)
        requires
            old(self).responses <= MAX_REDIRECTS,
        ensures
            final(self).url@ == old(self).url@,
            final(self).responses == old(self).responses + 1,
            !(is_redirect(status) && location is Some) ==> {
                &&& r == FetchStep::Read
                &&& final(self).current_url@ == old(self).current_url@
                &&& final(self).chain@ == old(self).chain@
            },
            (is_redirect(status) && location is Some) ==> {
                let l = location.unwrap()@;
                &&& final(self).chain@.len() == old(self).chain@.len() + 1
                &&& final(self).chain@.take(old(self).chain@.len() as int) == old(self).chain@
                &&& final(self).chain@.last().url@ == old(self).current_url@
                &&& final(self).chain@.last().status_code == status
                &&& match redirect_resolved(old(self).current_url@, l) {
                    None => r == FetchStep::BadRedirect,
                    Some(next) => {
                        &&& final(self).current_url@ == next
                        &&& if old(self).responses + 1 > MAX_REDIRECTS {
                            r matches FetchStep::TooManyRedirects(m) && m@ == too_many_message(old(self).url@)
                        } else {
                            r matches FetchStep::Request(u) && u@ == next
                        }
                    },
                }
            },
    {
        self.responses = self.responses + 1;
        if 300 <= status && status < 400 {
            if let Some(l) = location {
                let hop = RedirectHop { url: self.current_url.clone(), status_code: status };
                let ghost before = self.chain@;
                self.chain.push(hop);
                assert(self.chain@.take(before.len() as int) =~= before);
                match redirect_target(self.current_url.as_str(), l) {
                    None => {
                        return FetchStep::BadRedirect;
                    },
                    Some(next) => {
                        self.current_url = next.clone();
                        if self.responses > MAX_REDIRECTS {
                            let mut m: Vec<char> = Vec::new();
                            push_lit(&mut m, "Redirect chain exceeded ");
                            push_decimal(&mut m, MAX_REDIRECTS as u64);
                            push_lit(&mut m, " hops for URL: ");
                            push_lit(&mut m, self.url.as_str());
                            return FetchStep::TooManyRedirects(string_of(&m));
                        }
                        return FetchStep::Request(next);
                    },
                }
            }
        }
        FetchStep::Read
    }

    /// The result of the fetch once the final response's body is read; the
    /// body is capped at `MAX_BODY_SIZE` bytes.
    pub fn finish(
        self,
        status: u16,
        headers: Vec<(String, String)>,
        body: &Vec<u8>,
        content_type: Option<String>,
        response_time_ms: u32,
    ) -> (r: FetchResult)
        ensures
            r.url@ == self.url@,
            r.final_url@ == self.current_url@,
            r.status_code == status,
            r.headers@ == headers@,
            r.body_bytes@ == capped_body(body@),
            r.body_size == capped_body(body@).len(),
            r.body_hash is None,
            opt_chars(r.content_type) == opt_chars(content_type),
            r.response_time_ms == response_time_ms,
            r.redirect_chain@ == self.chain@,
    {
        let bytes = capped(body);
        let n = bytes.len();
        FetchResult {
            url: self.url,
            final_url: self.current_url,
            status_code: status,
            headers,
            body_bytes: bytes,
            body_size: n,
            body_hash: None,
            content_type,
            response_time_ms,
            redirect_chain: self.chain,
        }
    }
}

/// A body cut to the first `MAX_BODY_SIZE` bytes.
pub open spec fn capped_body(b: Seq<u8>) -> Seq<u8> {
    if b.len() > MAX_BODY_SIZE {
        b.take(MAX_BODY_SIZE as int)
    } else {
        b
    }
}

/// Keep at most `MAX_BODY_SIZE` bytes of a body.
pub fn capped(body: &Vec<u8>) -> (r: Vec<u8>)
    ensures
        r@ == capped_body(body@),
{
    let n: usize = if body.len() > MAX_BODY_SIZE { MAX_BODY_SIZE } else { body.len() };
    let mut out: Vec<u8> = Vec::new();
    let mut i: usize = 0;
    while i < n
        invariant
            i <= n <= body@.len(),
            n == (if body@.len() > MAX_BODY_SIZE { MAX_BODY_SIZE as int } else { body@.len() as int }),
            out@ == body@.take(i as int),
        decreases n - i,
    {
        out.push(body[i]);
        i = i + 1;
        assert(body@.take(i as int) =~= body@.take(i - 1).push(body@[i - 1]));
    }
    assert(n == body@.len() ==> body@.take(n as int) =~= body@);
    out
}

} // verus!
