//! Sitemap parsing: `<urlset>` and `<sitemapindex>` documents, plain or
//! gzip-compressed, read from the event stream of `quick-xml`; plus the
//! candidate list of sitemap discovery and the bookkeeping of the recursive
//! fetch of sitemap indexes.

use vstd::prelude::*;
use crate::text::{chars_of, string_of, str_eq, push_lit, str_ends_with, has_suffix, opt_view,
    strs_view, eq_ignore_ascii_case, str_eq_ignore_ascii_case};
use crate::words::{trim, trim_chars};
use std::io::Read;
use quick_xml::events::Event;

verus! {

// ---------------------------------------------------------------------------
// XML events
// ---------------------------------------------------------------------------

/// What the XML reader reports, reduced to what sitemap parsing reads.
#[derive(Debug, Clone)]
pub enum XmlEvent {
    /// A start or empty-element tag, by local name.
    Start(String),
    /// An end tag, by local name.
    End(String),
    /// A piece of text content.
    Text(String),
    /// An entity or character reference inside text, by name (`amp`,
    /// `#38`, ...).
    Reference(String),
    /// Anything else (comments, CDATA, declarations, ...).
    Other,
    /// End of the document.
    Eof,
    /// A syntax error; reading stops.
    Error,
}

pub enum XmlEventV {
    Start(Seq<char>),
    End(Seq<char>),
    Text(Seq<char>),
    Reference(Seq<char>),
    Other,
    Eof,
    Error,
}

pub open spec fn event_view(e: XmlEvent) -> XmlEventV {
    match e {
        XmlEvent::Start(n) => XmlEventV::Start(n@),
        XmlEvent::End(n) => XmlEventV::End(n@),
        XmlEvent::Text(t) => XmlEventV::Text(t@),
        XmlEvent::Reference(r) => XmlEventV::Reference(r@),
        XmlEvent::Other => XmlEventV::Other,
        XmlEvent::Eof => XmlEventV::Eof,
        XmlEvent::Error => XmlEventV::Error,
    }
}

pub open spec fn events_view(s: Seq<XmlEvent>) -> Seq<XmlEventV> {
    s.map_values(|e: XmlEvent| event_view(e))
}

// ---------------------------------------------------------------------------
// Sitemap content
// ---------------------------------------------------------------------------

// ---------------------------------------------------------------------------
// Priorities
// ---------------------------------------------------------------------------

/// An ASCII digit.
pub open spec fn is_digit(c: char) -> bool {
    '0' <= c && c <= '9'
}

/// Every character is an ASCII digit.
pub open spec fn all_digits(s: Seq<char>) -> bool {
    forall|i: int| 0 <= i < s.len() ==> is_digit(#[trigger] s[i])
}

/// Position of the first `a` or `b`, or the length when there is none.
pub open spec fn first_pos(s: Seq<char>, a: char, b: char) -> nat
    decreases s.len(),
{
    if s.len() == 0 {
        0
    } else if s[0] == a || s[0] == b {
        0
    } else {
        1 + first_pos(s.drop_first(), a, b)
    }
}

/// The text without a leading `+` or `-`.
pub open spec fn unsigned(s: Seq<char>) -> Seq<char> {
    if s.len() > 0 && (s[0] == '+' || s[0] == '-') {
        s.drop_first()
    } else {
        s
    }
}

/// `Sign? Digit+`.
pub open spec fn exponent_text(x: Seq<char>) -> bool {
    unsigned(x).len() > 0 && all_digits(unsigned(x))
}

/// `Digit+ | Digit+ '.' Digit* | Digit* '.' Digit+`.
pub open spec fn mantissa_text(m: Seq<char>) -> bool {
    let d = first_pos(m, '.', '.');
    if d >= m.len() {
        m.len() > 0 && all_digits(m)
    } else {
        all_digits(m.take(d as int)) && all_digits(m.skip(d + 1int)) && (d > 0 || m.len() > d + 1)
    }
}

/// A mantissa, then optionally `e` or `E` and an exponent.
pub open spec fn number_text(s: Seq<char>) -> bool {
    let p = first_pos(s, 'e', 'E');
    mantissa_text(s.take(p as int)) && (p >= s.len() || exponent_text(s.skip(p + 1int)))
}

/// Text that `str::parse` reads as a floating-point number, by the grammar
/// its documentation gives: an optional sign, then `inf`, `infinity` or
/// `nan` in any case, or a decimal number with an optional exponent.
pub open spec fn float_text(s: Seq<char>) -> bool {
    let b = unsigned(s);
    ||| eq_ignore_ascii_case(b, "inf"@)
    ||| eq_ignore_ascii_case(b, "infinity"@)
    ||| eq_ignore_ascii_case(b, "nan"@)
    ||| number_text(b)
}

fn sub_chars(v: &Vec<char>, lo: usize, hi: usize) -> (r: Vec<char>)
    requires
        lo <= hi <= v@.len(),
    ensures
        r@ == v@.subrange(lo as int, hi as int),
{
    let mut r: Vec<char> = Vec::new();
    let mut i = lo;
    while i < hi
        invariant
            lo <= i <= hi <= v@.len(),
            r@ == v@.subrange(lo as int, i as int),
        decreases hi - i,
    {
        r.push(v[i]);
        i = i + 1;
        assert(r@ =~= v@.subrange(lo as int, i as int));
    }
    r
}

fn first_pos_of(v: &Vec<char>, a: char, b: char) -> (r: usize)
    ensures
        r == first_pos(v@, a, b),
        r <= v@.len(),
{
    let mut i: usize = 0;
    assert(v@.skip(0) =~= v@);
    while i < v.len()
        invariant
            i <= v@.len(),
            first_pos(v@, a, b) == i + first_pos(v@.skip(i as int), a, b),
        decreases v.len() - i,
    {
        assert(v@.skip(i as int)[0] == v@[i as int]);
        if v[i] == a || v[i] == b {
            return i;
        }
        assert(v@.skip(i as int).drop_first() =~= v@.skip(i + 1));
        i = i + 1;
    }
    i
}

fn all_digits_of(v: &Vec<char>) -> (r: bool)
    ensures
        r == all_digits(v@),
{
    let mut i: usize = 0;
    while i < v.len()
        invariant
            i <= v@.len(),
            forall|k: int| 0 <= k < i ==> is_digit(#[trigger] v@[k]),
        decreases v.len() - i,
    {
        if !('0' <= v[i] && v[i] <= '9') {
            return false;
        }
        i = i + 1;
    }
    true
}

fn unsigned_of(v: &Vec<char>) -> (r: Vec<char>)
    ensures
        r@ == unsigned(v@),
{
    if v.len() > 0 && (v[0] == '+' || v[0] == '-') {
        let r = sub_chars(v, 1, v.len());
        assert(r@ =~= v@.drop_first());
        r
    } else {
        sub_chars(v, 0, v.len())
    }
}

fn mantissa_ok(m: &Vec<char>) -> (r: bool)
    ensures
        r == mantissa_text(m@),
{
    let d = first_pos_of(m, '.', '.');
    if d >= m.len() {
        m.len() > 0 && all_digits_of(m)
    } else {
        let head = sub_chars(m, 0, d);
        let tail = sub_chars(m, d + 1, m.len());
        assert(head@ =~= m@.take(d as int));
        assert(tail@ =~= m@.skip(d + 1));
        all_digits_of(&head) && all_digits_of(&tail) && (d > 0 || m.len() > d + 1)
    }
}

fn number_ok(v: &Vec<char>) -> (r: bool)
    ensures
        r == number_text(v@),
{
    let p = first_pos_of(v, 'e', 'E');
    let m = sub_chars(v, 0, p);
    assert(m@ =~= v@.take(p as int));
    if !mantissa_ok(&m) {
        return false;
    }
    if p >= v.len() {
        return true;
    }
    let x = sub_chars(v, p + 1, v.len());
    assert(x@ =~= v@.skip(p + 1));
    let u = unsigned_of(&x);
    u.len() > 0 && all_digits_of(&u)
}

/// Whether the text reads as a floating-point number (see `float_text`).
pub fn is_float_text(s: &str) -> (r: bool)
    ensures
        r == float_text(s@),
{
    let v = chars_of(s);
    let b = unsigned_of(&v);
    let bs = string_of(&b);
    str_eq_ignore_ascii_case(bs.as_str(), "inf") || str_eq_ignore_ascii_case(bs.as_str(), "infinity")
        || str_eq_ignore_ascii_case(bs.as_str(), "nan") || number_ok(&b)
}

/// A single entry from a `<urlset>` sitemap. The priority is kept as
/// written, and only when it reads as a number (`float_text`).
#[derive(Debug, Clone)]
pub struct SitemapEntry {
    pub url: String,
    pub lastmod: Option<String>,
    pub changefreq: Option<String>,
    pub priority: Option<String>,
}

pub struct SitemapEntryV {
    pub url: Seq<char>,
    pub lastmod: Option<Seq<char>>,
    pub changefreq: Option<Seq<char>>,
    pub priority: Option<Seq<char>>,
}

pub open spec fn entry_view(e: SitemapEntry) -> SitemapEntryV {
    SitemapEntryV {
        url: e.url@,
        lastmod: opt_view(e.lastmod),
        changefreq: opt_view(e.changefreq),
        priority: opt_view(e.priority),
    }
}

pub open spec fn entries_view(s: Seq<SitemapEntry>) -> Seq<SitemapEntryV> {
    s.map_values(|e: SitemapEntry| entry_view(e))
}

/// Result of parsing a sitemap: a list of child sitemaps or of pages.
#[derive(Debug)]
pub enum SitemapContent {
    /// A `<sitemapindex>` of references to other sitemaps.
    Index(Vec<String>),
    /// A `<urlset>` of page entries.
    UrlSet(Vec<SitemapEntry>),
}

/// Parsing state while reading a sitemap's events.
pub struct ParseStateV {
    pub is_index: bool,
    pub in_url: bool,
    pub in_sitemap: bool,
    pub loc: Option<Seq<char>>,
    pub lastmod: Option<Seq<char>>,
    pub changefreq: Option<Seq<char>>,
    pub priority: Option<Seq<char>>,
    pub tag: Seq<char>,
    pub entries: Seq<SitemapEntryV>,
    pub index_urls: Seq<Seq<char>>,
    /// The text node being read, and whether a reference in it was unknown.
    pub text: Option<(Seq<char>, bool)>,
    pub done: bool,
}

pub open spec fn initial_state() -> ParseStateV {
    ParseStateV {
        is_index: false,
        in_url: false,
        in_sitemap: false,
        loc: None,
        lastmod: None,
        changefreq: None,
        priority: None,
        tag: Seq::empty(),
        entries: Seq::empty(),
        index_urls: Seq::empty(),
        text: None,
        done: false,
    }
}

/// A field tag of a sitemap entry.
pub open spec fn is_field_tag(n: Seq<char>) -> bool {
    n == "loc"@ || n == "lastmod"@ || n == "changefreq"@ || n == "priority"@
}

/// A complete text node `t` (already trimmed, not empty).
pub open spec fn on_text(st: ParseStateV, t: Seq<char>) -> ParseStateV {
    if st.in_url {
        if st.tag == "loc"@ {
            ParseStateV { loc: Some(t), ..st }
        } else if st.tag == "lastmod"@ {
            ParseStateV { lastmod: Some(t), ..st }
        } else if st.tag == "changefreq"@ {
            ParseStateV { changefreq: Some(t), ..st }
        } else if st.tag == "priority"@ {
            ParseStateV { priority: if float_text(t) { Some(t) } else { None }, ..st }
        } else {
            st
        }
    } else if st.in_sitemap && st.tag == "loc"@ {
        ParseStateV { loc: Some(t), ..st }
    } else {
        st
    }
}

/// Finish the text node being read, if any: its trimmed text (empty when a
/// reference in it was unknown) is handled unless empty.
pub open spec fn flush(st: ParseStateV) -> ParseStateV {
    match st.text {
        None => st,
        Some((t, broken)) => {
            let s = ParseStateV { text: None, ..st };
            let tt = if broken {
                Seq::<char>::empty()
            } else {
                trim(t)
            };
            if tt.len() == 0 {
                s
            } else {
                on_text(s, tt)
            }
        },
    }
}

pub open spec fn on_start(st: ParseStateV, n: Seq<char>) -> ParseStateV {
    if n == "sitemapindex"@ {
        ParseStateV { is_index: true, ..st }
    } else if n == "url"@ {
        ParseStateV { in_url: true, loc: None, lastmod: None, changefreq: None, priority: None, ..st }
    } else if n == "sitemap"@ && st.is_index {
        ParseStateV { in_sitemap: true, loc: None, ..st }
    } else if is_field_tag(n) {
        ParseStateV { tag: n, ..st }
    } else {
        st
    }
}

pub open spec fn on_end(st: ParseStateV, n: Seq<char>) -> ParseStateV {
    if n == "url"@ {
        match st.loc {
            Some(l) => ParseStateV {
                entries: st.entries.push(
                    SitemapEntryV {
                        url: l,
                        lastmod: st.lastmod,
                        changefreq: st.changefreq,
                        priority: st.priority,
                    },
                ),
                loc: None,
                lastmod: None,
                changefreq: None,
                priority: None,
                in_url: false,
                ..st
            },
            None => ParseStateV { in_url: false, ..st },
        }
    } else if n == "sitemap"@ && st.is_index {
        match st.loc {
            Some(l) => ParseStateV {
                index_urls: st.index_urls.push(l),
                loc: None,
                in_sitemap: false,
                ..st
            },
            None => ParseStateV { in_sitemap: false, ..st },
        }
    } else if is_field_tag(n) {
        ParseStateV { tag: Seq::empty(), ..st }
    } else {
        st
    }
}

/// One event.
pub open spec fn step(st: ParseStateV, e: XmlEventV) -> ParseStateV {
    if st.done {
        st
    } else {
        match e {
            XmlEventV::Text(t) => match st.text {
                Some((p, b)) => ParseStateV { text: Some((p + t, b)), ..st },
                None => ParseStateV { text: Some((t, false)), ..st },
            },
            XmlEventV::Reference(name) => {
                let (p, b) = match st.text {
                    Some(pb) => pb,
                    None => (Seq::<char>::empty(), false),
                };
                match xml_reference_text(name) {
                    Some(t) => ParseStateV { text: Some((p + t, b)), ..st },
                    None => ParseStateV { text: Some((p, true)), ..st },
                }
            },
            XmlEventV::Start(n) => on_start(flush(st), n),
            XmlEventV::End(n) => on_end(flush(st), n),
            XmlEventV::Other => flush(st),
            XmlEventV::Eof => ParseStateV { done: true, ..flush(st) },
            XmlEventV::Error => ParseStateV { done: true, ..flush(st) },
        }
    }
}

/// The state after a sequence of events.
pub open spec fn run(events: Seq<XmlEventV>) -> ParseStateV
    decreases events.len(),
{
    if events.len() == 0 {
        initial_state()
    } else {
        step(run(events.drop_last()), events.last())
    }
}

/// What a parse that read `events` yields: the child sitemaps when the
/// document is a `<sitemapindex>`, else the page entries. Reading stops at
/// the end of the document or at the first error.
pub open spec fn content_of(events: Seq<XmlEventV>) -> (bool, Seq<Seq<char>>, Seq<SitemapEntryV>) {
    let st = flush(run(events));
    if st.is_index {
        (true, st.index_urls, Seq::empty())
    } else {
        (false, Seq::empty(), st.entries)
    }
}

/// The view of parsed content: whether it is an index, its child sitemaps,
/// its entries.
pub open spec fn content_view(c: SitemapContent) -> (bool, Seq<Seq<char>>, Seq<SitemapEntryV>) {
    match c {
        SitemapContent::Index(v) => (true, strs_view(v@), Seq::empty()),
        SitemapContent::UrlSet(v) => (false, Seq::empty(), entries_view(v@)),
    }
}

/// Executable parsing state.
struct ParseState {
    is_index: bool,
    in_url: bool,
    in_sitemap: bool,
    loc: Option<String>,
    lastmod: Option<String>,
    changefreq: Option<String>,
    priority: Option<String>,
    tag: String,
    entries: Vec<SitemapEntry>,
    index_urls: Vec<String>,
    text: Option<(Vec<char>, bool)>,
    done: bool,
}

impl ParseState {
    spec fn view(self) -> ParseStateV {
        ParseStateV {
            is_index: self.is_index,
            in_url: self.in_url,
            in_sitemap: self.in_sitemap,
            loc: opt_view(self.loc),
            lastmod: opt_view(self.lastmod),
            changefreq: opt_view(self.changefreq),
            priority: opt_view(self.priority),
            tag: self.tag@,
            entries: entries_view(self.entries@),
            index_urls: strs_view(self.index_urls@),
            text: match self.text {
                Some((t, b)) => Some((t@, b)),
                None => None,
            },
            done: self.done,
        }
    }

    fn new() -> (r: Self)
        ensures
            r.view() == initial_state(),
    {
        let r = ParseState {
            is_index: false,
            in_url: false,
            in_sitemap: false,
            loc: None,
            lastmod: None,
            changefreq: None,
            priority: None,
            tag: String::new(),
            entries: Vec::new(),
            index_urls: Vec::new(),
            text: None,
            done: false,
        };
        assert(r.view().entries =~= Seq::<SitemapEntryV>::empty());
        assert(r.view().index_urls =~= Seq::<Seq<char>>::empty());
        r
    }

    fn on_text(&mut self, t: String)
        ensures
            final(self).view() == on_text(old(self).view(), t@),
    {
        proof {
            reveal_strlit("loc");
            reveal_strlit("lastmod");
            reveal_strlit("changefreq");
            reveal_strlit("priority");
        }
        if self.in_url {
            if str_eq(self.tag.as_str(), "loc") {
                self.loc = Some(t);
            } else if str_eq(self.tag.as_str(), "lastmod") {
                self.lastmod = Some(t);
            } else if str_eq(self.tag.as_str(), "changefreq") {
                self.changefreq = Some(t);
            } else if str_eq(self.tag.as_str(), "priority") {
                self.priority = if is_float_text(t.as_str()) { Some(t) } else { None };
            }
        } else if self.in_sitemap && str_eq(self.tag.as_str(), "loc") {
            self.loc = Some(t);
        }
    }

    fn flush(&mut self)
        ensures
            final(self).view() == flush(old(self).view()),
    {
        let pending = self.text.take();
        match pending {
            None => {},
            Some((t, broken)) => {
                let tt: Vec<char> = if broken {
                    Vec::new()
                } else {
                    trim_chars(&t)
                };
                if tt.len() > 0 {
                    self.on_text(string_of(&tt));
                }
            },
        }
    }

    fn on_start(&mut self, n: &str)
        ensures
            final(self).view() == on_start(old(self).view(), n@),
    {
        if str_eq(n, "sitemapindex") {
            self.is_index = true;
        } else if str_eq(n, "url") {
            self.in_url = true;
            self.loc = None;
            self.lastmod = None;
            self.changefreq = None;
            self.priority = None;
        } else if str_eq(n, "sitemap") && self.is_index {
            self.in_sitemap = true;
            self.loc = None;
        } else if str_eq(n, "loc") || str_eq(n, "lastmod") || str_eq(n, "changefreq") || str_eq(
            n,
            "priority",
        ) {
            self.tag = string_of(&chars_of(n));
        }
    }

    fn on_end(&mut self, n: &str)
        ensures
            final(self).view() == on_end(old(self).view(), n@),
    {
        if str_eq(n, "url") {
            let loc = self.loc.take();
            match loc {
                Some(l) => {
                    let e = SitemapEntry {
                        url: l,
                        lastmod: self.lastmod.take(),
                        changefreq: self.changefreq.take(),
                        priority: self.priority.take(),
                    };
                    let ghost before = self.entries@;
                    self.entries.push(e);
                    assert(entries_view(self.entries@) =~= entries_view(before).push(entry_view(e)));
                },
                None => {},
            }
            self.in_url = false;
        } else if str_eq(n, "sitemap") && self.is_index {
            let loc = self.loc.take();
            match loc {
                Some(l) => {
                    let ghost before = self.index_urls@;
                    let ghost lv = l@;
                    self.index_urls.push(l);
                    assert(strs_view(self.index_urls@) =~= strs_view(before).push(lv));
                },
                None => {},
            }
            self.in_sitemap = false;
        } else if str_eq(n, "loc") || str_eq(n, "lastmod") || str_eq(n, "changefreq") || str_eq(
            n,
            "priority",
        ) {
            self.tag = String::new();
        }
    }

    fn step(&mut self, e: &XmlEvent)
        ensures
            final(self).view() == step(old(self).view(), event_view(*e)),
    {
        if self.done {
            return;
        }
        match e {
            XmlEvent::Text(t) => {
                let pending = self.text.take();
                let tc = chars_of(t.as_str());
                match pending {
                    Some((p, b)) => {
                        let mut p = p;
                        let mut i: usize = 0;
                        let ghost p0 = p@;
                        while i < tc.len()
                            invariant
                                i <= tc@.len(),
                                p@ == p0 + tc@.take(i as int),
                            decreases tc.len() - i,
                        {
                            p.push(tc[i]);
                            assert(tc@.take(i + 1) =~= tc@.take(i as int).push(tc@[i as int]));
                            i = i + 1;
                        }
                        assert(tc@.take(tc@.len() as int) =~= tc@);
                        self.text = Some((p, b));
                    },
                    None => {
                        self.text = Some((tc, false));
                    },
                }
            },
            XmlEvent::Reference(name) => {
                let pending = self.text.take();
                let (mut p, b): (Vec<char>, bool) = match pending {
                    Some(pb) => pb,
                    None => (Vec::new(), false),
                };
                match resolve_reference(name.as_str()) {
                    Some(t) => {
                        push_lit(&mut p, t.as_str());
                        self.text = Some((p, b));
                    },
                    None => {
                        self.text = Some((p, true));
                    },
                }
            },
            XmlEvent::Start(n) => {
                self.flush();
                self.on_start(n.as_str());
            },
            XmlEvent::End(n) => {
                self.flush();
                self.on_end(n.as_str());
            },
            XmlEvent::Other => {
                self.flush();
            },
            XmlEvent::Eof => {
                self.flush();
                self.done = true;
            },
            XmlEvent::Error => {
                self.flush();
                self.done = true;
            },
        }
    }
}

/// Build the sitemap content from the reader's events.
pub fn sitemap_from_events(events: &Vec<XmlEvent>) -> (r: SitemapContent)
    ensures
        content_view(r) == content_of(events_view(events@)),
{
    let mut st = ParseState::new();
    let mut i: usize = 0;
    while i < events.len()
        invariant
            i <= events@.len(),
            st.view() == run(events_view(events@).take(i as int)),
        decreases events.len() - i,
    {
        st.step(&events[i]);
        let ghost t = events_view(events@).take(i + 1);
        assert(t.drop_last() =~= events_view(events@).take(i as int));
        i = i + 1;
    }
    assert(events_view(events@).take(events@.len() as int) =~= events_view(events@));
    st.flush();
    if st.is_index {
        SitemapContent::Index(st.index_urls)
    } else {
        SitemapContent::UrlSet(st.entries)
    }
}

// ---------------------------------------------------------------------------
// Reading bytes
// ---------------------------------------------------------------------------

#[verifier::external_type_specification]
#[verifier::external_body]
#[verifier::reject_recursive_types(R)]
pub struct ExXmlReader<R>(quick_xml::reader::Reader<R>);

/// The bytes a gzip stream decompresses to, if it is a valid stream.
pub uninterp spec fn gunzip_of(bytes: Seq<u8>) -> Option<Seq<u8>>;

/// Reads `bytes` to the end through `flate2::read::GzDecoder`. The contract
/// names the outcome as a function of the bytes.
#[verifier::external_body]
fn gunzip(bytes: &[u8]) -> (r: Option<Vec<u8>>)
    ensures
        match r {
            Some(v) => gunzip_of(bytes@) == Some(v@),
            None => gunzip_of(bytes@) is None,
        },
{
    let mut decoder = flate2::read::GzDecoder::new(bytes);
    let mut out = Vec::new();
    decoder.read_to_end(&mut out).ok().map(|_| out)
}

/// The event that the `k`-th call (0-based) of
/// `quick_xml::reader::Reader::read_event_into` yields on a reader made by
/// `Reader::from_reader` over `data` with untrimmed text, as `next_event`
/// reports it.
pub uninterp spec fn xml_event_at(data: Seq<u8>, k: nat) -> XmlEventV;

/// A quick-xml reader over a byte slice, with the buffer it reads into and
/// the bytes and number of events read so far.
pub struct XmlCursor<'a> {
    reader: quick_xml::reader::Reader<&'a [u8]>,
    buf: Vec<u8>,
    data: Ghost<Seq<u8>>,
    reads: Ghost<nat>,
}

impl<'a> XmlCursor<'a> {
    /// The bytes being read.
    pub closed spec fn source(self) -> Seq<u8> {
        self.data@
    }

    /// How many events have been read.
    pub closed spec fn reads(self) -> nat {
        self.reads@
    }
}

/// Calls `quick_xml::reader::Reader::from_reader` on the bytes, leaving text
/// untrimmed (text nodes are trimmed when they are complete); no event has
/// been read yet.
#[verifier::external_body]
fn xml_reader<'a>(data: &'a [u8]) -> (r: XmlCursor<'a>)
    ensures
        r.source() == data@,
        r.reads() == 0,
{
    let mut reader = quick_xml::reader::Reader::from_reader(data);
    reader.config_mut().trim_text(false);
    XmlCursor { reader, buf: Vec::new(), data: Ghost(data@), reads: Ghost(0) }
}

/// The replacement text of an XML reference: a character reference
/// (`#38`, `#x26`) or one of the predefined entities (`amp`, `lt`, `gt`,
/// `quot`, `apos`); `None` for anything else.
pub uninterp spec fn xml_reference_text(name: Seq<char>) -> Option<Seq<char>>;

/// Resolves a reference with `BytesRef::resolve_char_ref`, falling back to
/// `quick_xml::escape::resolve_predefined_entity`. The contract names the
/// outcome as a function of the name.
#[verifier::external_body]
fn resolve_reference(name: &str) -> (r: Option<String>)
    ensures
        opt_view(r) == xml_reference_text(name@),
{
    match quick_xml::events::BytesRef::new(name).resolve_char_ref() {
        Ok(Some(c)) => Some(c.to_string()),
        _ => quick_xml::escape::resolve_predefined_entity(name).map(|s| s.to_string()),
    }
}

/// Calls `quick_xml::reader::Reader::read_event_into` for the next event,
/// clearing the buffer afterwards. The event is named by the bytes and the
/// number of events read before it.
#[verifier::external_body]
fn next_event(c: &mut XmlCursor) -> (r: XmlEvent)
    ensures
        event_view(r) == xml_event_at(old(c).source(), old(c).reads()),
        final(c).source() == old(c).source(),
        final(c).reads() == old(c).reads() + 1,
{
    let e = match c.reader.read_event_into(&mut c.buf) {
        Ok(Event::Start(e)) | Ok(Event::Empty(e)) => XmlEvent::Start(e.local_name().as_ref().to_string()),
        Ok(Event::End(e)) => XmlEvent::End(e.local_name().as_ref().to_string()),
        Ok(Event::Text(e)) => XmlEvent::Text(e.xml10_content().into_owned()),
        Ok(Event::GeneralRef(e)) => XmlEvent::Reference(e.as_ref().to_string()),
        Ok(Event::Eof) => XmlEvent::Eof,
        Ok(_) => XmlEvent::Other,
        Err(_) => XmlEvent::Error,
    };
    c.buf.clear();
    c.reads = Ghost(c.reads@ + 1);
    e
}

/// Why a sitemap could not be read.
#[derive(Debug, Clone, Copy, PartialEq, Eq, Structural)]
pub enum SitemapError {
    /// The bytes were marked gzipped but do not decompress.
    Decompress,
}

impl SitemapError {
    /// The error's message.
    pub fn message(&self) -> (r: &'static str)
        ensures
            r@ == "Failed to decompress gzipped sitemap"@,
    {
        "Failed to decompress gzipped sitemap"
    }
}

/// Whether an event ends the reading: the end of the document or an error.
pub open spec fn is_stop(e: XmlEventV) -> bool {
    e is Eof || e is Error
}

/// Whether the events read so far end with a stop.
pub open spec fn stopped(s: Seq<XmlEventV>) -> bool {
    s.len() > 0 && is_stop(s.last())
}

/// The events read from `data` with at most `n` reads: one after another
/// from the first, until a stop has been read.
pub open spec fn events_read(data: Seq<u8>, n: nat) -> Seq<XmlEventV>
    decreases n,
{
    if n == 0 {
        Seq::empty()
    } else {
        let p = events_read(data, (n - 1) as nat);
        if stopped(p) {
            p
        } else {
            p.push(xml_event_at(data, p.len()))
        }
    }
}

/// Once a stop has been read, further reads add nothing.
pub proof fn lemma_events_read_stays(data: Seq<u8>, n: nat, m: nat)
    requires
        n <= m,
        stopped(events_read(data, n)),
    ensures
        events_read(data, m) == events_read(data, n),
    decreases m - n,
{
    if m > n {
        lemma_events_read_stays(data, n, (m - 1) as nat);
    }
}

/// The number of reads `read_events` allows for `len` bytes: one more than
/// the bytes (every event but the end consumes input), kept within `usize`.
pub open spec fn read_limit(len: nat) -> nat {
    if len < usize::MAX {
        len + 1
    } else {
        len
    }
}

/// Read all events of an XML document, up to and including the end of the
/// document or the first error, with at most one read per byte plus one.
pub fn read_events(data: &Vec<u8>) -> (r: Vec<XmlEvent>)
    ensures
        events_view(r@) == events_read(data@, read_limit(data@.len())),
{
    let mut c = xml_reader(data.as_slice());
    let mut out: Vec<XmlEvent> = Vec::new();
    let limit: usize = if data.len() < usize::MAX { data.len() + 1 } else { data.len() };
    proof {
        assert(events_view(out@) =~= events_read(data@, 0));
    }
    while out.len() < limit
        invariant_except_break
            !stopped(events_view(out@)),
        invariant
            limit == read_limit(data@.len()),
            out@.len() <= limit,
            c.source() == data@,
            c.reads() == out@.len(),
            events_view(out@) == events_read(data@, out@.len()),
        ensures
            events_view(out@) == events_read(data@, out@.len()),
            out@.len() == limit || stopped(events_view(out@)),
            out@.len() <= limit,
        decreases limit - out.len(),
    {
        let e = next_event(&mut c);
        let stop = match e {
            XmlEvent::Eof => true,
            XmlEvent::Error => true,
            _ => false,
        };
        let ghost prev = out@;
        assert(events_read(data@, (prev.len() + 1) as nat) == events_view(prev).push(event_view(e)));
        out.push(e);
        assert(events_view(out@) =~= events_view(prev).push(event_view(e)));
        if stop {
            break;
        }
    }
    proof {
        if out@.len() < limit {
            lemma_events_read_stays(data@, out@.len(), limit as nat);
        }
    }
    out
}

/// The XML a sitemap's bytes hold: the decompressed bytes when gzipped
/// (meaningful when they decompress), else the bytes themselves.
pub open spec fn sitemap_data(bytes: Seq<u8>, is_gzipped: bool) -> Seq<u8> {
    if is_gzipped {
        gunzip_of(bytes)->0
    } else {
        bytes
    }
}

/// Gzipped bytes are read as the XML they decompress to: the content of a
/// gzipped sitemap is that of its plain XML.
pub proof fn law_gzipped_reads_as_plain(gz: Seq<u8>, xml: Seq<u8>)
    requires
        gunzip_of(gz) == Some(xml),
    ensures
        sitemap_data(gz, true) == sitemap_data(xml, false),
        content_of(events_read(sitemap_data(gz, true), read_limit(sitemap_data(gz, true).len())))
            == content_of(events_read(sitemap_data(xml, false), read_limit(sitemap_data(xml, false).len()))),
{
}

/// Parse sitemap bytes (decompressing them first when `is_gzipped`).
/// Handles both `<urlset>` and `<sitemapindex>`; fails only when gzipped
/// bytes do not decompress. The content is `sitemap_from_events` of the
/// reader's events.
pub fn parse_sitemap(bytes: &Vec<u8>, is_gzipped: bool) -> (r: Result<SitemapContent, SitemapError>)
    ensures
        r is Err <==> (is_gzipped && gunzip_of(bytes@) is None),
        r matches Ok(c) ==> content_view(c) == content_of(
            events_read(sitemap_data(bytes@, is_gzipped), read_limit(sitemap_data(bytes@, is_gzipped).len())),
        ),
{
    let data: Vec<u8> = if is_gzipped {
        match gunzip(bytes.as_slice()) {
            Some(d) => d,
            None => return Err(SitemapError::Decompress),
        }
    } else {
        let c = bytes.clone();
        assert(c@ =~= bytes@);
        c
    };
    let events = read_events(&data);
    Ok(sitemap_from_events(&events))
}

// ---------------------------------------------------------------------------
// Discovery and recursive fetching
// ---------------------------------------------------------------------------

/// `scheme://domain/path`.
pub open spec fn site_url(scheme: Seq<char>, domain: Seq<char>, path: Seq<char>) -> Seq<char> {
    scheme + "://"@ + domain + path
}

/// The sitemap URLs to try: those robots.txt names, then the well-known
/// `/sitemap.xml` and `/sitemap_index.xml` when not already listed.
pub open spec fn sitemap_candidates_spec(
    robots: Seq<Seq<char>>,
    scheme: Seq<char>,
    domain: Seq<char>,
) -> Seq<Seq<char>> {
    let a = site_url(scheme, domain, "/sitemap.xml"@);
    let b = site_url(scheme, domain, "/sitemap_index.xml"@);
    let s1 = if robots.contains(a) {
        robots
    } else {
        robots.push(a)
    };
    if s1.contains(b) {
        s1
    } else {
        s1.push(b)
    }
}

fn list_has(v: &Vec<String>, s: &str) -> (r: bool)
    ensures
        r == strs_view(v@).contains(s@),
{
    let mut i: usize = 0;
    while i < v.len()
        invariant
            i <= v@.len(),
            forall|k: int| 0 <= k < i ==> (#[trigger] v@[k])@ != s@,
        decreases v.len() - i,
    {
        if str_eq(v[i].as_str(), s) {
            assert(strs_view(v@)[i as int] == s@);
            return true;
        }
        i = i + 1;
    }
    assert forall|k: int| 0 <= k < strs_view(v@).len() implies strs_view(v@)[k] != s@ by {
        assert(strs_view(v@)[k] == v@[k]@);
    }
    false
}

/// The sitemap URLs to check for a site.
pub fn sitemap_candidates(domain: &str, scheme: &str, robots_sitemaps: &Vec<String>) -> (r: Vec<String>)
    ensures
        strs_view(r@) == sitemap_candidates_spec(strs_view(robots_sitemaps@), scheme@, domain@),
{
    let mut urls = crate::text::clone_strs(robots_sitemaps);
    let mut a: Vec<char> = Vec::new();
    push_lit(&mut a, scheme);
    push_lit(&mut a, "://");
    push_lit(&mut a, domain);
    let mut b: Vec<char> = Vec::new();
    let prefix = string_of(&a);
    push_lit(&mut b, prefix.as_str());
    push_lit(&mut a, "/sitemap.xml");
    push_lit(&mut b, "/sitemap_index.xml");
    let a_s = string_of(&a);
    let b_s = string_of(&b);
    let ghost r0 = strs_view(urls@);
    if !list_has(&urls, a_s.as_str()) {
        let ghost av = a_s@;
        urls.push(a_s);
        assert(strs_view(urls@) =~= r0.push(av));
    }
    let ghost r1 = strs_view(urls@);
    if !list_has(&urls, b_s.as_str()) {
        let ghost bv = b_s@;
        urls.push(b_s);
        assert(strs_view(urls@) =~= r1.push(bv));
    }
    urls
}

/// Maximum depth of sitemap index references followed.
pub const MAX_SITEMAP_DEPTH: u8 = 3;

/// The work of a recursive sitemap fetch: sitemaps still to fetch (with
/// their depth below the starting ones) and the entries found so far.
pub struct SitemapFetchState {
    pub pending: Vec<(String, u8)>,
    pub entries: Vec<SitemapEntry>,
}

/// The next sitemap to fetch: the most recently added one within the depth
/// limit (deeper ones are skipped), with whether it is gzipped.
pub struct NextSitemap {
    pub url: String,
    pub depth: u8,
    pub is_gzipped: bool,
}

impl SitemapFetchState {
    /// Start from the given sitemap URLs, all at depth 0.
    pub fn new(urls: &Vec<String>) -> (r: Self)
        ensures
            r.pending@.len() == urls@.len(),
            forall|k: int|
                0 <= k < urls@.len() ==> (#[trigger] r.pending@[k]).0@ == urls@[k]@ && r.pending@[k].1
                    == 0,
            r.entries@.len() == 0,
    {
        let mut pending: Vec<(String, u8)> = Vec::new();
        let mut i: usize = 0;
        while i < urls.len()
            invariant
                i <= urls@.len(),
                pending@.len() == i,
                forall|k: int|
                    0 <= k < i ==> (#[trigger] pending@[k]).0@ == urls@[k]@ && pending@[k].1 == 0,
            decreases urls.len() - i,
        {
            pending.push((urls[i].clone(), 0));
            i = i + 1;
        }
        SitemapFetchState { pending, entries: Vec::new() }
    }

    /// Take the next sitemap to fetch, skipping those past the depth limit.
    pub fn next(&mut self) -> (r: Option<NextSitemap>)
        ensures
            final(self).entries@ == old(self).entries@,
            final(self).pending@.len() <= old(self).pending@.len(),
            match r {
                Some(n) => {
                    &&& n.depth <= MAX_SITEMAP_DEPTH
                    &&& n.is_gzipped == has_suffix(n.url@, ".gz"@)
                    &&& final(self).pending@.len() < old(self).pending@.len()
                    &&& old(self).pending@[final(self).pending@.len() as int].0@ == n.url@
                    &&& old(self).pending@[final(self).pending@.len() as int].1 == n.depth
                    &&& final(self).pending@ == old(self).pending@.take(final(self).pending@.len() as int)
                    &&& forall|k: int|
                        final(self).pending@.len() < k < old(self).pending@.len()
                            ==> (#[trigger] old(self).pending@[k]).1 > MAX_SITEMAP_DEPTH
                },
                None => {
                    &&& final(self).pending@.len() == 0
                    &&& forall|k: int|
                        0 <= k < old(self).pending@.len() ==> (#[trigger] old(self).pending@[k]).1
                            > MAX_SITEMAP_DEPTH
                },
            },
    {
        let ghost p0 = self.pending@;
        while self.pending.len() > 0
            invariant
                p0 == old(self).pending@,
                self.pending@ == p0.take(self.pending@.len() as int),
                self.pending@.len() <= p0.len(),
                self.entries@ == old(self).entries@,
                forall|k: int| self.pending@.len() <= k < p0.len() ==> (#[trigger] p0[k]).1 > MAX_SITEMAP_DEPTH,
            decreases self.pending.len(),
        {
            let ghost before = self.pending@;
            let (url, depth) = self.pending.pop().unwrap();
            assert(self.pending@ =~= p0.take(self.pending@.len() as int));
            assert(before[self.pending@.len() as int] == (url, depth));
            assert(p0[self.pending@.len() as int] == before[self.pending@.len() as int]);
            if depth <= MAX_SITEMAP_DEPTH {
                let gz = str_ends_with(url.as_str(), ".gz");
                return Some(NextSitemap { url, depth, is_gzipped: gz });
            }
        }
        None
    }

    /// Record a fetched sitemap's content: an index's children are queued
    /// one level deeper, a url set's entries are kept.
    pub fn record(&mut self, depth: u8, content: SitemapContent)
        requires
            depth <= MAX_SITEMAP_DEPTH,
        ensures
            match content {
                SitemapContent::Index(children) => {
                    &&& final(self).entries@ == old(self).entries@
                    &&& final(self).pending@.len() == old(self).pending@.len() + children@.len()
                    &&& final(self).pending@.take(old(self).pending@.len() as int) == old(self).pending@
                    &&& forall|k: int|
                        0 <= k < children@.len() ==> (#[trigger] final(self).pending@[old(
                            self,
                        ).pending@.len() + k]).0@ == children@[k]@ && final(self).pending@[old(
                            self,
                        ).pending@.len() + k].1 == depth + 1
                },
                SitemapContent::UrlSet(es) => {
                    &&& final(self).pending@ == old(self).pending@
                    &&& final(self).entries@ == old(self).entries@ + es@
                },
            },
    {
        match content {
            SitemapContent::Index(children) => {
                let ghost p0 = self.pending@;
                let d = depth + 1;
                let mut i: usize = 0;
                while i < children.len()
                    invariant
                        i <= children@.len(),
                        self.pending@.len() == p0.len() + i,
                        self.pending@.take(p0.len() as int) == p0,
                        self.entries@ == old(self).entries@,
                        d == depth + 1,
                        forall|k: int|
                            0 <= k < i ==> (#[trigger] self.pending@[p0.len() + k]).0@
                                == children@[k]@ && self.pending@[p0.len() + k].1 == d,
                    decreases children.len() - i,
                {
                    let ghost before = self.pending@;
                    self.pending.push((children[i].clone(), d));
                    assert(self.pending@.take(p0.len() as int) =~= before.take(p0.len() as int));
                    i = i + 1;
                }
            },
            SitemapContent::UrlSet(es) => {
                let mut es = es;
                self.entries.append(&mut es);
            },
        }
    }
}


// ---------------------------------------------------------------------------
// Entry fields
// ---------------------------------------------------------------------------

/// The optional field of an entry named by its tag (`lastmod`,
/// `changefreq` or `priority`).
pub open spec fn entry_field(e: SitemapEntryV, f: Seq<char>) -> Option<Seq<char>> {
    if f == "lastmod"@ {
        e.lastmod
    } else if f == "changefreq"@ {
        e.changefreq
    } else {
        e.priority
    }
}

/// The value read so far for the optional field named `f`.
pub open spec fn state_field(st: ParseStateV, f: Seq<char>) -> Option<Seq<char>> {
    if f == "lastmod"@ {
        st.lastmod
    } else if f == "changefreq"@ {
        st.changefreq
    } else {
        st.priority
    }
}

/// The optional fields of an entry.
pub open spec fn optional_field_tag(f: Seq<char>) -> bool {
    f == "lastmod"@ || f == "changefreq"@ || f == "priority"@
}

proof fn lemma_run_push(a: Seq<XmlEventV>, e: XmlEventV)
    ensures
        run(a.push(e)) == step(run(a), e),
{
    assert(a.push(e).drop_last() =~= a);
}

proof fn lemma_field_tags()
    ensures
        "lastmod"@ != "changefreq"@,
        "lastmod"@ != "priority"@,
        "changefreq"@ != "priority"@,
        "lastmod"@.len() > 0,
        "changefreq"@.len() > 0,
        "priority"@.len() > 0,
{
    reveal_strlit("lastmod");
    reveal_strlit("changefreq");
    reveal_strlit("priority");
    assert("lastmod"@.len() != "changefreq"@.len());
    assert("lastmod"@[0] != "priority"@[0]);
    assert("changefreq"@.len() != "priority"@.len());
}

proof fn lemma_tag_names(f: Seq<char>)
    requires
        optional_field_tag(f),
    ensures
        "url"@ != "loc"@,
        "url"@ != "sitemapindex"@,
        "url"@ != "sitemap"@,
        "loc"@ != "sitemapindex"@,
        "loc"@ != "sitemap"@,
        f != "url"@,
        f != "loc"@,
        f != "sitemap"@,
        f != "sitemapindex"@,
{
    reveal_strlit("url");
    reveal_strlit("loc");
    reveal_strlit("sitemap");
    reveal_strlit("sitemapindex");
    reveal_strlit("lastmod");
    reveal_strlit("changefreq");
    reveal_strlit("priority");
    assert("url"@[0] != "loc"@[0]);
    assert("url"@.len() != "sitemapindex"@.len());
    assert("url"@.len() != "sitemap"@.len());
    assert("loc"@.len() != "sitemapindex"@.len());
    assert("loc"@.len() != "sitemap"@.len());
    assert("lastmod"@.len() != "url"@.len() && "lastmod"@.len() != "sitemapindex"@.len());
    assert("lastmod"@[0] != "sitemap"@[0]);
    assert("changefreq"@.len() != "url"@.len() && "changefreq"@.len() != "loc"@.len());
    assert("changefreq"@.len() != "sitemap"@.len() && "changefreq"@.len() != "sitemapindex"@.len());
    assert("priority"@.len() != "url"@.len() && "priority"@.len() != "loc"@.len());
    assert("priority"@.len() != "sitemap"@.len() && "priority"@.len() != "sitemapindex"@.len());
    assert("lastmod"@.len() != "loc"@.len());
}

/// Reading the events of a `<url>` element's content that has no element
/// `f` keeps field `f` unset and the entries as they were.
proof fn lemma_url_body(start: Seq<XmlEventV>, body: Seq<XmlEventV>, f: Seq<char>, k: int)
    requires
        optional_field_tag(f),
        0 <= k <= body.len(),
        forall|j: int|
            0 <= j < body.len() ==> #[trigger] body[j] != XmlEventV::Start("url"@) && body[j] != XmlEventV::End(
                "url"@,
            ) && body[j] != XmlEventV::Start(f),
        !run(start).done ==> state_field(run(start), f) is None && run(start).tag != f,
    ensures
        run(start + body.take(k)).entries == run(start).entries,
        !run(start + body.take(k)).done ==> state_field(run(start + body.take(k)), f) is None && run(
            start + body.take(k),
        ).tag != f,
    decreases k,
{
    lemma_field_tags();
    if k == 0 {
        assert(start + body.take(0) =~= start);
    } else {
        lemma_url_body(start, body, f, k - 1);
        let a = start + body.take(k - 1);
        assert(start + body.take(k) =~= a.push(body[k - 1]));
        lemma_run_push(a, body[k - 1]);
        let st = run(a);
        let e = body[k - 1];
        if !st.done {
            let fl = flush(st);
            assert(fl.entries == st.entries && fl.tag == st.tag && state_field(fl, f) is None);
        }
    }
}

/// Fields never carry over from one `<url>` to the next: when the content
/// of a `<url>` element holds no `<lastmod>`, `<changefreq>` or
/// `<priority>` element `f` (and the `<url>` does not itself sit inside an
/// open element `f`), the entry that element yields, if any, has no value
/// for `f`, whatever came before it.
pub proof fn law_url_fields_do_not_carry_over(pre: Seq<XmlEventV>, body: Seq<XmlEventV>, f: Seq<char>)
    requires
        optional_field_tag(f),
        forall|j: int|
            0 <= j < body.len() ==> #[trigger] body[j] != XmlEventV::Start("url"@) && body[j] != XmlEventV::End(
                "url"@,
            ) && body[j] != XmlEventV::Start(f),
        run(pre).tag != f,
    ensures
        ({
            let before = run(pre);
            let after = run(pre.push(XmlEventV::Start("url"@)) + body.push(XmlEventV::End("url"@)));
            &&& after.entries.len() == before.entries.len() || after.entries.len() == before.entries.len() + 1
            &&& after.entries.take(before.entries.len() as int) == before.entries
            &&& after.entries.len() > before.entries.len() ==> entry_field(after.entries.last(), f) is None
        }),
{
    lemma_field_tags();
    lemma_tag_names(f);
    let start = pre.push(XmlEventV::Start("url"@));
    lemma_run_push(pre, XmlEventV::Start("url"@));
    let st0 = run(pre);
    if !st0.done {
        let fl = flush(st0);
        assert(fl.tag == st0.tag && fl.entries == st0.entries);
        assert(run(start) == on_start(fl, "url"@));
        assert(state_field(run(start), f) is None);
    }
    lemma_url_body(start, body, f, body.len() as int);
    assert(body.take(body.len() as int) =~= body);
    assert(start + body.push(XmlEventV::End("url"@)) =~= (start + body).push(XmlEventV::End("url"@)));
    lemma_run_push(start + body, XmlEventV::End("url"@));
    let s = run(start + body);
    if !s.done {
        let fl = flush(s);
        assert(fl.entries == s.entries && state_field(fl, f) is None);
    }
    assert(run(start).entries == st0.entries);
    let after = run(start + body.push(XmlEventV::End("url"@)));
    assert(after.entries.take(st0.entries.len() as int) =~= st0.entries);
}

/// A `<url>` element with a `<loc>` and then a field element `f`, each
/// holding one piece of text, yields one entry whose URL and field `f` are
/// those texts, trimmed (a priority only when it reads as a number),
/// whatever came before it.
pub proof fn law_url_fields_from_own_element(pre: Seq<XmlEventV>, u: Seq<char>, f: Seq<char>, t: Seq<char>)
    requires
        optional_field_tag(f),
        !run(pre).done,
        trim(u).len() > 0,
        trim(t).len() > 0,
    ensures
        ({
            let before = run(pre);
            let after = run(
                pre + seq![
                    XmlEventV::Start("url"@),
                    XmlEventV::Start("loc"@),
                    XmlEventV::Text(u),
                    XmlEventV::End("loc"@),
                    XmlEventV::Start(f),
                    XmlEventV::Text(t),
                    XmlEventV::End(f),
                    XmlEventV::End("url"@),
                ],
            );
            &&& after.entries.len() == before.entries.len() + 1
            &&& after.entries.drop_last() == before.entries
            &&& after.entries.last().url == trim(u)
            &&& entry_field(after.entries.last(), f) == if f == "priority"@ && !float_text(trim(t)) {
                None
            } else {
                Some(trim(t))
            }
        }),
{
    lemma_field_tags();
    reveal_strlit("url");
    reveal_strlit("loc");
    reveal_strlit("sitemap");
    reveal_strlit("sitemapindex");
    let e = seq![
        XmlEventV::Start("url"@),
        XmlEventV::Start("loc"@),
        XmlEventV::Text(u),
        XmlEventV::End("loc"@),
        XmlEventV::Start(f),
        XmlEventV::Text(t),
        XmlEventV::End(f),
        XmlEventV::End("url"@),
    ];
    let a0 = pre;
    let a1 = a0.push(e[0]);
    let a2 = a1.push(e[1]);
    let a3 = a2.push(e[2]);
    let a4 = a3.push(e[3]);
    let a5 = a4.push(e[4]);
    let a6 = a5.push(e[5]);
    let a7 = a6.push(e[6]);
    let a8 = a7.push(e[7]);
    assert(pre + e =~= a8);
    lemma_run_push(a0, e[0]);
    lemma_run_push(a1, e[1]);
    lemma_run_push(a2, e[2]);
    lemma_run_push(a3, e[3]);
    lemma_run_push(a4, e[4]);
    lemma_run_push(a5, e[5]);
    lemma_run_push(a6, e[6]);
    lemma_run_push(a7, e[7]);
    lemma_tag_names(f);
    let s1 = run(a1);
    assert(s1.in_url && s1.loc is None && !s1.done && s1.entries == run(pre).entries);
    let s2 = run(a2);
    assert(s2.in_url && s2.tag == "loc"@ && s2.text is None && !s2.done);
    let s3 = run(a3);
    assert(s3.text == Some((u, false)));
    let s4 = run(a4);
    assert(s4.loc == Some(trim(u)) && s4.in_url && s4.text is None);
    let s5 = run(a5);
    assert(s5.tag == f && s5.in_url && s5.loc == Some(trim(u)) && s5.text is None);
    let s6 = run(a6);
    assert(s6.text == Some((t, false)));
    let s7 = run(a7);
    assert(s7.loc == Some(trim(u)) && s7.in_url && s7.text is None);
    assert(state_field(s7, f) == if f == "priority"@ && !float_text(trim(t)) {
        None
    } else {
        Some(trim(t))
    });
    let s8 = run(a8);
    assert(s8.entries == s7.entries.push(
        SitemapEntryV { url: trim(u), lastmod: s7.lastmod, changefreq: s7.changefreq, priority: s7.priority },
    ));
    assert(s8.entries.drop_last() =~= run(pre).entries);
}

} // verus!
