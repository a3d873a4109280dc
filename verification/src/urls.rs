//! URL handling on top of the `url` crate: parsing, resolving links,
//! classifying internal links and normalizing URLs for deduplication.

use vstd::prelude::*;
use crate::text::{chars_of, push_str_of, str_eq, string_of, has_suffix,
    str_ends_with};
use crate::order::{seq_less, str_less, lemma_seq_less_irreflexive, lemma_seq_less_transitive};

verus! {

#[verifier::external_type_specification]
#[verifier::external_body]
pub struct ExUrl(url::Url);

/// Why a text is not a URL: it is relative and needs a base, or it is
/// invalid in some other way.
#[derive(Debug, Clone, Copy, PartialEq, Eq, Structural)]
pub enum UrlParseError {
    RelativeUrlWithoutBase,
    Invalid,
}

/// A parsed absolute URL together with the parts the crawler reads.
pub struct ParsedUrl {
    inner: url::Url,
    serialization: String,
    scheme: String,
    host: Option<String>,
    port: Option<u16>,
    path: String,
    query: Option<String>,
}

/// The parts of a parsed URL: its serialization, scheme, host, explicit
/// port, path and query.
pub struct UrlV {
    pub serialization: Seq<char>,
    pub scheme: Seq<char>,
    pub host: Option<Seq<char>>,
    pub port: Option<u16>,
    pub path: Seq<char>,
    pub query: Option<Seq<char>>,
}

pub open spec fn opt_chars(o: Option<String>) -> Option<Seq<char>> {
    match o {
        Some(s) => Some(s@),
        None => None,
    }
}

impl ParsedUrl {
    /// The parts of this URL.
    pub closed spec fn view(self) -> UrlV {
        UrlV {
            serialization: self.serialization@,
            scheme: self.scheme@,
            host: opt_chars(self.host),
            port: self.port,
            path: self.path@,
            query: opt_chars(self.query),
        }
    }

    /// The full URL text.
    pub fn as_str(&self) -> (r: &str)
        ensures
            r@ == self.view().serialization,
    {
        self.serialization.as_str()
    }

    pub fn scheme(&self) -> (r: &str)
        ensures
            r@ == self.view().scheme,
    {
        self.scheme.as_str()
    }

    pub fn host_str(&self) -> (r: Option<&str>)
        ensures
            match r {
                Some(h) => self.view().host == Some(h@),
                None => self.view().host is None,
            },
    {
        match &self.host {
            Some(h) => Some(h.as_str()),
            None => None,
        }
    }

    pub fn port(&self) -> (r: Option<u16>)
        ensures
            r == self.view().port,
    {
        self.port
    }

    pub fn path(&self) -> (r: &str)
        ensures
            r@ == self.view().path,
    {
        self.path.as_str()
    }

    pub fn query(&self) -> (r: Option<&str>)
        ensures
            match r {
                Some(q) => self.view().query == Some(q@),
                None => self.view().query is None,
            },
    {
        match &self.query {
            Some(q) => Some(q.as_str()),
            None => None,
        }
    }
}

/// The parts of a `url::Url`, read through its accessors.
#[verifier::external_body]
fn parts_of(u: url::Url) -> ParsedUrl {
    ParsedUrl {
        serialization: u.to_string(),
        scheme: u.scheme().to_string(),
        host: u.host_str().map(|h| h.to_string()),
        port: u.port(),
        path: u.path().to_string(),
        query: u.query().map(|q| q.to_string()),
        inner: u,
    }
}

/// What `url::Url::parse` makes of a text.
pub uninterp spec fn url_parse_result(s: Seq<char>) -> Result<UrlV, UrlParseError>;

/// What `url::Url::join` makes of a relative reference against a URL.
pub uninterp spec fn url_join_result(base: Seq<char>, href: Seq<char>) -> Option<UrlV>;

/// A URL after `url::Url::set_fragment(None)`.
pub uninterp spec fn url_without_fragment(u: Seq<char>) -> UrlV;

/// A URL after `url::Url::set_port(None)` (unchanged where the URL cannot
/// have a port).
pub uninterp spec fn url_without_port(u: Seq<char>) -> UrlV;

/// The decoded key/value pairs `url::Url::query_pairs` yields, in order.
pub uninterp spec fn url_query_pairs(u: Seq<char>) -> Seq<(Seq<char>, Seq<char>)>;

/// A URL after `url::Url::set_query(Some(q))`.
pub uninterp spec fn url_with_query(u: Seq<char>, q: Seq<char>) -> UrlV;

/// Calls `url::Url::parse`. The contract names the outcome as a function of
/// the text; of the errors it keeps apart only `RelativeUrlWithoutBase`.
#[verifier::external_body]
pub(crate) fn parse_url(s: &str) -> (r: Result<ParsedUrl, UrlParseError>)
    ensures
        match r {
            Ok(u) => url_parse_result(s@) == Ok::<UrlV, UrlParseError>(u.view()),
            Err(e) => url_parse_result(s@) == Err::<UrlV, UrlParseError>(e),
        },
{
    match url::Url::parse(s) {
        Ok(u) => Ok(parts_of(u)),
        Err(url::ParseError::RelativeUrlWithoutBase) => Err(UrlParseError::RelativeUrlWithoutBase),
        Err(_) => Err(UrlParseError::Invalid),
    }
}

/// Calls `url::Url::join` on `base`; `None` where joining fails.
#[verifier::external_body]
fn join_url(base: &ParsedUrl, href: &str) -> (r: Option<ParsedUrl>)
    ensures
        match r {
            Some(u) => url_join_result(base.view().serialization, href@) == Some(u.view()),
            None => url_join_result(base.view().serialization, href@) is None,
        },
{
    base.inner.join(href).ok().map(parts_of)
}

/// Calls `url::Url::set_fragment(None)` on a copy of `u`.
#[verifier::external_body]
fn drop_fragment(u: &ParsedUrl) -> (r: ParsedUrl)
    ensures
        r.view() == url_without_fragment(u.view().serialization),
{
    let mut v = u.inner.clone();
    v.set_fragment(None);
    parts_of(v)
}

/// Calls `url::Url::set_port(None)` on a copy of `u`, ignoring its refusal.
#[verifier::external_body]
fn drop_port(u: &ParsedUrl) -> (r: ParsedUrl)
    ensures
        r.view() == url_without_port(u.view().serialization),
{
    let mut v = u.inner.clone();
    let _ = v.set_port(None);
    parts_of(v)
}

/// Calls `url::Url::query_pairs` and collects the decoded pairs.
#[verifier::external_body]
fn query_pairs(u: &ParsedUrl) -> (r: Vec<(String, String)>)
    ensures
        pairs_view(r@) == url_query_pairs(u.view().serialization),
{
    u.inner.query_pairs().map(|(k, v)| (k.into_owned(), v.into_owned())).collect()
}

/// Calls `url::Url::set_query(Some(q))` on a copy of `u`.
#[verifier::external_body]
fn replace_query(u: &ParsedUrl, q: &str) -> (r: ParsedUrl)
    ensures
        r.view() == url_with_query(u.view().serialization, q@),
{
    let mut v = u.inner.clone();
    v.set_query(Some(q));
    parts_of(v)
}

// ---------------------------------------------------------------------------
// Resolving and classifying links
// ---------------------------------------------------------------------------

/// The absolute form of `href` read against `base`: `href` itself when it
/// is an absolute URL, joined onto `base` when it is relative (and `base`
/// parses), else nothing.
pub open spec fn resolved(href: Seq<char>, base: Seq<char>) -> Option<Seq<char>> {
    match url_parse_result(href) {
        Ok(u) => Some(u.serialization),
        Err(UrlParseError::RelativeUrlWithoutBase) => match url_parse_result(base) {
            Ok(b) => match url_join_result(b.serialization, href) {
                Some(j) => Some(j.serialization),
                None => None,
            },
            Err(_) => None,
        },
        Err(UrlParseError::Invalid) => None,
    }
}

/// Resolve a potentially relative URL against a base URL.
pub fn resolve_url(href: &str, base: &str) -> (r: Option<String>)
    ensures
        opt_chars(r) == resolved(href@, base@),
{
    match parse_url(href) {
        Ok(absolute) => Some(absolute.serialization),
        Err(UrlParseError::RelativeUrlWithoutBase) => match parse_url(base) {
            Ok(b) => match join_url(&b, href) {
                Some(j) => Some(j.serialization),
                None => None,
            },
            Err(_) => None,
        },
        Err(UrlParseError::Invalid) => None,
    }
}

/// Where a redirect leads: the location when it is an absolute URL, else
/// the location joined to the current URL; `None` when neither works.
pub open spec fn redirect_resolved(current: Seq<char>, location: Seq<char>) -> Option<Seq<char>> {
    match url_parse_result(location) {
        Ok(u) => Some(u.serialization),
        Err(_) => match url_parse_result(current) {
            Ok(b) => match url_join_result(b.serialization, location) {
                Some(j) => Some(j.serialization),
                None => None,
            },
            Err(_) => None,
        },
    }
}

/// Resolve a redirect's `Location` against the URL that answered it.
pub fn redirect_target(current: &str, location: &str) -> (r: Option<String>)
    ensures
        opt_chars(r) == redirect_resolved(current@, location@),
{
    match parse_url(location) {
        Ok(absolute) => Some(absolute.serialization),
        Err(_) => match parse_url(current) {
            Ok(b) => match join_url(&b, location) {
                Some(j) => Some(j.serialization),
                None => None,
            },
            Err(_) => None,
        },
    }
}

/// The scheme of a URL, when it parses.
pub fn url_scheme(url: &str) -> (r: Option<String>)
    ensures
        opt_chars(r) == match url_parse_result(url@) {
            Ok(u) => Some(u.scheme),
            Err(_) => None,
        },
{
    match parse_url(url) {
        Ok(u) => Some(u.scheme),
        Err(_) => None,
    }
}

/// `host` is `root` or a subdomain of it.
pub open spec fn host_within(host: Seq<char>, root: Seq<char>) -> bool {
    host == root || has_suffix(host, seq!['.'] + root)
}

/// A URL is internal when it parses and its host is the root domain or a
/// subdomain of it.
pub open spec fn internal(url: Seq<char>, root: Seq<char>) -> bool {
    match url_parse_result(url) {
        Ok(u) => match u.host {
            Some(h) => host_within(h, root),
            None => false,
        },
        Err(_) => false,
    }
}

/// Whether `host` is `root_domain` or one of its subdomains.
pub fn host_is_within(host: &str, root_domain: &str) -> (r: bool)
    ensures
        r == host_within(host@, root_domain@),
{
    if str_eq(host, root_domain) {
        return true;
    }
    let mut dotted: Vec<char> = Vec::new();
    dotted.push('.');
    let rd = chars_of(root_domain);
    let mut i: usize = 0;
    while i < rd.len()
        invariant
            i <= rd@.len(),
            rd@ == root_domain@,
            dotted@ == seq!['.'] + rd@.take(i as int),
        decreases rd.len() - i,
    {
        dotted.push(rd[i]);
        assert(rd@.take(i + 1) =~= rd@.take(i as int).push(rd@[i as int]));
        i = i + 1;
    }
    assert(rd@.take(rd@.len() as int) =~= rd@);
    let d = string_of(&dotted);
    str_ends_with(host, d.as_str())
}

/// Check if a URL belongs to the same root domain as the crawl.
pub fn is_internal(url: &str, root_domain: &str) -> (r: bool)
    ensures
        r == internal(url@, root_domain@),
{
    match parse_url(url) {
        Ok(u) => match u.host_str() {
            Some(h) => host_is_within(h, root_domain),
            None => false,
        },
        Err(_) => false,
    }
}

/// The host of a URL, or the empty text when it has none or does not
/// parse.
pub open spec fn domain_of(url: Seq<char>) -> Seq<char> {
    match url_parse_result(url) {
        Ok(u) => match u.host {
            Some(h) => h,
            None => Seq::empty(),
        },
        Err(_) => Seq::empty(),
    }
}

/// Extract the hostname from a URL string.
pub fn extract_domain(url: &str) -> (r: String)
    ensures
        r@ == domain_of(url@),
{
    match parse_url(url) {
        Ok(u) => match u.host {
            Some(h) => h,
            None => String::new(),
        },
        Err(_) => String::new(),
    }
}

// ---------------------------------------------------------------------------
// Normalization
// ---------------------------------------------------------------------------

pub open spec fn pairs_view(p: Seq<(String, String)>) -> Seq<(Seq<char>, Seq<char>)> {
    p.map_values(|x: (String, String)| (x.0@, x.1@))
}

/// Query pairs are ordered by key, then by value.
pub open spec fn pair_less(a: (Seq<char>, Seq<char>), b: (Seq<char>, Seq<char>)) -> bool {
    seq_less(a.0, b.0) || (a.0 == b.0 && seq_less(a.1, b.1))
}

/// Where `x` goes in the sorted `s`: after every pair it does not precede.
pub open spec fn insert_pos(s: Seq<(Seq<char>, Seq<char>)>, x: (Seq<char>, Seq<char>)) -> nat
    decreases s.len(),
{
    if s.len() == 0 {
        0
    } else if pair_less(x, s[0]) {
        0
    } else {
        1 + insert_pos(s.drop_first(), x)
    }
}

/// The pairs in order (a stable sort).
pub open spec fn sort_pairs(p: Seq<(Seq<char>, Seq<char>)>) -> Seq<(Seq<char>, Seq<char>)>
    decreases p.len(),
{
    if p.len() == 0 {
        Seq::empty()
    } else {
        let s = sort_pairs(p.drop_last());
        s.insert(insert_pos(s, p.last()) as int, p.last())
    }
}

/// No pair comes after one it precedes.
pub open spec fn pairs_sorted(s: Seq<(Seq<char>, Seq<char>)>) -> bool {
    forall|i: int, j: int| 0 <= i < j < s.len() ==> !pair_less(#[trigger] s[j], #[trigger] s[i])
}

proof fn lemma_pair_less_irreflexive(a: (Seq<char>, Seq<char>))
    ensures
        !pair_less(a, a),
{
    lemma_seq_less_irreflexive(a.0);
    lemma_seq_less_irreflexive(a.1);
}

proof fn lemma_pair_less_transitive(a: (Seq<char>, Seq<char>), b: (Seq<char>, Seq<char>), c: (Seq<char>, Seq<char>))
    requires
        pair_less(a, b),
        pair_less(b, c),
    ensures
        pair_less(a, c),
{
    if seq_less(a.0, b.0) && seq_less(b.0, c.0) {
        lemma_seq_less_transitive(a.0, b.0, c.0);
    } else if seq_less(a.0, b.0) {
    } else if seq_less(b.0, c.0) {
    } else {
        lemma_seq_less_transitive(a.1, b.1, c.1);
    }
}

proof fn lemma_insert_pos(s: Seq<(Seq<char>, Seq<char>)>, x: (Seq<char>, Seq<char>))
    ensures
        insert_pos(s, x) <= s.len(),
        forall|i: int| 0 <= i < insert_pos(s, x) ==> !pair_less(x, #[trigger] s[i]),
        insert_pos(s, x) < s.len() ==> pair_less(x, s[insert_pos(s, x) as int]),
    decreases s.len(),
{
    if s.len() > 0 && !pair_less(x, s[0]) {
        lemma_insert_pos(s.drop_first(), x);
        assert forall|i: int| 0 <= i < insert_pos(s, x) implies !pair_less(x, #[trigger] s[i]) by {
            if i > 0 {
                assert(s[i] == s.drop_first()[i - 1]);
            }
        }
    }
}

proof fn lemma_insert_keeps_sorted(s: Seq<(Seq<char>, Seq<char>)>, x: (Seq<char>, Seq<char>))
    requires
        pairs_sorted(s),
    ensures
        pairs_sorted(s.insert(insert_pos(s, x) as int, x)),
{
    lemma_insert_pos(s, x);
    let k = insert_pos(s, x) as int;
    let t = s.insert(k, x);
    assert forall|i: int, j: int| 0 <= i < j < t.len() implies !pair_less(#[trigger] t[j], #[trigger] t[i]) by {
        if j < k {
            assert(t[i] == s[i] && t[j] == s[j]);
        } else if j == k {
            assert(t[i] == s[i]);
        } else if i < k {
            assert(t[i] == s[i] && t[j] == s[j - 1]);
        } else if i == k {
            // t[j] == s[j - 1] with j - 1 >= k: it cannot precede x, which
            // precedes s[k].
            assert(t[j] == s[j - 1]);
            if pair_less(s[j - 1], x) {
                lemma_pair_less_transitive(s[j - 1], x, s[k]);
                if j - 1 == k {
                    lemma_pair_less_irreflexive(s[k]);
                }
            }
        } else {
            assert(t[i] == s[i - 1] && t[j] == s[j - 1]);
        }
    }
}

/// Sorting query pairs orders them and keeps them all: the result has no
/// pair after one it precedes, and holds the same pairs as often.
pub proof fn law_sorted_query_pairs(p: Seq<(Seq<char>, Seq<char>)>)
    ensures
        pairs_sorted(sort_pairs(p)),
        sort_pairs(p).to_multiset() == p.to_multiset(),
    decreases p.len(),
{
    broadcast use vstd::seq_lib::to_multiset_insert, vstd::seq_lib::to_multiset_build;
    if p.len() == 0 {
        assert(sort_pairs(p) =~= p);
    } else {
        let s = sort_pairs(p.drop_last());
        law_sorted_query_pairs(p.drop_last());
        lemma_insert_keeps_sorted(s, p.last());
        lemma_insert_pos(s, p.last());
        assert(p =~= p.drop_last().push(p.last()));
    }
}

/// `key` alone when the value is empty, else `key=value`.
pub open spec fn pair_text(p: (Seq<char>, Seq<char>)) -> Seq<char> {
    if p.1.len() == 0 {
        p.0
    } else {
        p.0 + "="@ + p.1
    }
}

/// The pairs as a query string, joined by `&`.
pub open spec fn query_text(ps: Seq<(Seq<char>, Seq<char>)>) -> Seq<char>
    decreases ps.len(),
{
    if ps.len() == 0 {
        Seq::empty()
    } else if ps.len() == 1 {
        pair_text(ps[0])
    } else {
        query_text(ps.drop_last()) + "&"@ + pair_text(ps.last())
    }
}

/// A default port for the scheme (80 for http, 443 for https).
pub open spec fn default_port(scheme: Seq<char>, port: u16) -> bool {
    (scheme == "http"@ && port == 80) || (scheme == "https"@ && port == 443)
}

/// The normalized form of a URL: fragment removed, default port removed,
/// query pairs sorted, and (when asked) a trailing slash stripped unless
/// the path is the root.
pub open spec fn normalized(raw: Seq<char>, strip_trailing_slash: bool) -> Result<
    Seq<char>,
    UrlParseError,
> {
    match url_parse_result(raw) {
        Err(e) => Err(e),
        Ok(u0) => {
            let u1 = url_without_fragment(u0.serialization);
            let u2 = match u1.port {
                Some(p) => if default_port(u1.scheme, p) {
                    url_without_port(u1.serialization)
                } else {
                    u1
                },
                None => u1,
            };
            let u3 = match u2.query {
                Some(q) => if q.len() > 0 {
                    url_with_query(
                        u2.serialization,
                        query_text(sort_pairs(url_query_pairs(u2.serialization))),
                    )
                } else {
                    u2
                },
                None => u2,
            };
            let s = u3.serialization;
            if strip_trailing_slash && s.len() > 0 && s.last() == '/' && u3.path != "/"@ {
                Ok(s.drop_last())
            } else {
                Ok(s)
            }
        },
    }
}

/// Whether pair `a` comes strictly before pair `b`.
fn pair_precedes(a: &(String, String), b: &(String, String)) -> (r: bool)
    ensures
        r == pair_less((a.0@, a.1@), (b.0@, b.1@)),
{
    if str_less(a.0.as_str(), b.0.as_str()) {
        return true;
    }
    str_eq(a.0.as_str(), b.0.as_str()) && str_less(a.1.as_str(), b.1.as_str())
}

/// Sort query pairs by key, then value, keeping equal pairs in order.
pub fn sort_query_pairs(pairs: Vec<(String, String)>) -> (r: Vec<(String, String)>)
    ensures
        pairs_view(r@) == sort_pairs(pairs_view(pairs@)),
{
    let mut out: Vec<(String, String)> = Vec::new();
    let mut rest = pairs;
    let ghost orig = pairs_view(rest@);
    let ghost n = orig.len();
    let mut taken: usize = 0;
    assert(pairs_view(out@) =~= sort_pairs(orig.take(0)));
    assert(pairs_view(rest@) =~= orig.skip(0));
    let total: usize = rest.len();
    assert(n == total);
    while rest.len() > 0
        invariant
            taken + rest@.len() == n,
            n == orig.len(),
            n <= usize::MAX,
            pairs_view(rest@) == orig.skip(taken as int),
            pairs_view(out@) == sort_pairs(orig.take(taken as int)),
        decreases rest.len(),
    {
        let ghost before = pairs_view(out@);
        let ghost rest0 = rest@;
        let x = rest.remove(0);
        let ghost xv = (x.0@, x.1@);
        assert(pairs_view(rest0)[0] == xv);
        assert(xv == orig[taken as int]);
        assert(rest@ == rest0.remove(0));
        assert(pairs_view(rest@) =~= pairs_view(rest0).drop_first());
        assert(orig.skip(taken as int).drop_first() =~= orig.skip(taken + 1));
        assert(before.skip(0) =~= before);
        let mut j: usize = 0;
        while j < out.len() && !pair_precedes(&x, &out[j])
            invariant
                j <= out@.len(),
                pairs_view(out@) == before,
                xv == (x.0@, x.1@),
                insert_pos(before, xv) == j + insert_pos(before.skip(j as int), xv),
            decreases out.len() - j,
        {
            assert(before.skip(j as int).drop_first() =~= before.skip(j + 1));
            assert(before.skip(j as int)[0] == before[j as int]);
            assert(before[j as int] == (out@[j as int].0@, out@[j as int].1@));
            assert(insert_pos(before.skip(j as int), xv) == 1 + insert_pos(before.skip(j + 1), xv));
            j = j + 1;
        }
        proof {
            if j < out@.len() {
                assert(before.skip(j as int)[0] == before[j as int]);
            }
        }
        out.insert(j, x);
        assert(orig.take(taken + 1).drop_last() =~= orig.take(taken as int));
        assert(pairs_view(out@) =~= before.insert(j as int, xv));
        taken = taken + 1;
    }
    assert(orig.take(n as int) =~= orig);
    out
}

/// Join pairs into a query string: `key` or `key=value`, separated by `&`.
pub fn join_query(pairs: &Vec<(String, String)>) -> (r: String)
    ensures
        r@ == query_text(pairs_view(pairs@)),
{
    let mut out = String::new();
    let mut i: usize = 0;
    while i < pairs.len()
        invariant
            i <= pairs@.len(),
            out@ == query_text(pairs_view(pairs@).take(i as int)),
        decreases pairs.len() - i,
    {
        let ghost before = out@;
        if i > 0 {
            push_str_of(&mut out, "&");
        }
        push_str_of(&mut out, pairs[i].0.as_str());
        if !pairs[i].1.as_str().is_empty() {
            push_str_of(&mut out, "=");
            push_str_of(&mut out, pairs[i].1.as_str());
        }
        proof {
            let t = pairs_view(pairs@).take(i + 1);
            assert(t.drop_last() =~= pairs_view(pairs@).take(i as int));
            assert(t.last() == (pairs@[i as int].0@, pairs@[i as int].1@));
            reveal_strlit("&");
            reveal_strlit("=");
            if i == 0 {
                assert(out@ =~= pair_text(t[0]));
            } else {
                assert(out@ =~= before + "&"@ + pair_text(t.last()));
            }
        }
        i = i + 1;
    }
    assert(pairs_view(pairs@).take(pairs@.len() as int) =~= pairs_view(pairs@));
    out
}

/// Normalize a URL for consistent hashing and deduplication: remove the
/// fragment, remove a default port (80 for http, 443 for https), sort the
/// query parameters, and optionally strip a trailing slash (never the root
/// path's).
pub fn normalize_url(raw: &str, strip_trailing_slash: bool) -> (r: Result<String, UrlParseError>)
    ensures
        match r {
            Ok(s) => normalized(raw@, strip_trailing_slash) == Ok::<Seq<char>, UrlParseError>(s@),
            Err(e) => normalized(raw@, strip_trailing_slash) == Err::<Seq<char>, UrlParseError>(e),
        },
{
    let u0 = match parse_url(raw) {
        Ok(u) => u,
        Err(e) => return Err(e),
    };
    let u1 = drop_fragment(&u0);
    let u2 = match u1.port() {
        Some(p) => {
            let s = u1.scheme();
            proof {
                reveal_strlit("http");
                reveal_strlit("https");
            }
            if (str_eq(s, "http") && p == 80) || (str_eq(s, "https") && p == 443) {
                drop_port(&u1)
            } else {
                u1
            }
        },
        None => u1,
    };
    let has_query = match u2.query() {
        Some(q) => !q.is_empty(),
        None => false,
    };
    let u3 = if has_query {
        let pairs = query_pairs(&u2);
        let sorted = sort_query_pairs(pairs);
        let q = join_query(&sorted);
        replace_query(&u2, q.as_str())
    } else {
        u2
    };
    let mut cs = chars_of(u3.as_str());
    if strip_trailing_slash && cs.len() > 0 && cs[cs.len() - 1] == '/' && !str_eq(u3.path(), "/") {
        proof {
            reveal_strlit("/");
        }
        let _ = cs.pop();
        assert(cs@ =~= u3.view().serialization.drop_last());
    } else {
        proof {
            reveal_strlit("/");
        }
    }
    Ok(string_of(&cs))
}

} // verus!
