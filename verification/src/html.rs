//! HTML parsing: the page bytes go through lol_html's streaming rewriter
//! (or, when that fails, scraper's DOM), which reports the matched
//! elements and text chunks; each becomes an extraction event handed to
//! `PageExtractor`.

use vstd::prelude::*;
use std::borrow::Cow;
use std::cell::RefCell;
use lol_html::{ElementContentHandlers, HtmlRewriter, Settings};
use lol_html::html_content::{Element, TextChunk};
use crate::extract::{
    after_anchor_text, after_heading_text, after_link, after_meta, base_for, extract_start, image_of,
    page_of, unparsed_page, ExtractV, PageExtractor,
};
use crate::page::ParsedPage;
use crate::text::{opt_view, owned, strs_view};
use crate::urls::resolved;

verus! {

// ---------------------------------------------------------------------------
// Extraction events
// ---------------------------------------------------------------------------

/// One thing the extractor is told about a page, in document order.
#[derive(Debug)]
pub enum HtmlEvent {
    /// A chunk of `<title>` text.
    TitleText(String),
    /// A `<meta>` with its `name` and `content`.
    Meta(Option<String>, Option<String>),
    /// A `<link>` with its `rel` and `href`.
    Link(Option<String>, Option<String>),
    /// A `<base>` with its `href`.
    Base(Option<String>),
    /// The start of a heading.
    HeadingStart,
    /// A chunk of heading text: level (1 to 6), text, last of its node.
    HeadingText(u8, String, bool),
    /// The start of an `<a href>` with its `href` and `rel`.
    AnchorStart(Option<String>, Option<String>),
    /// A chunk of anchor text and whether it is the last of its node.
    AnchorText(String, bool),
    /// An `<img>` with its `src`, `alt` and whether it has a `srcset`.
    Img(Option<String>, Option<String>, bool),
    /// A `<script src>` with its `src`.
    Script(Option<String>),
    /// A chunk of `<body>` text.
    BodyText(String),
}

pub enum HtmlEventV {
    TitleText(Seq<char>),
    Meta(Option<Seq<char>>, Option<Seq<char>>),
    Link(Option<Seq<char>>, Option<Seq<char>>),
    Base(Option<Seq<char>>),
    HeadingStart,
    HeadingText(u8, Seq<char>, bool),
    AnchorStart(Option<Seq<char>>, Option<Seq<char>>),
    AnchorText(Seq<char>, bool),
    Img(Option<Seq<char>>, Option<Seq<char>>, bool),
    Script(Option<Seq<char>>),
    BodyText(Seq<char>),
}

pub open spec fn html_event_view(e: HtmlEvent) -> HtmlEventV {
    match e {
        HtmlEvent::TitleText(t) => HtmlEventV::TitleText(t@),
        HtmlEvent::Meta(n, c) => HtmlEventV::Meta(opt_view(n), opt_view(c)),
        HtmlEvent::Link(r, h) => HtmlEventV::Link(opt_view(r), opt_view(h)),
        HtmlEvent::Base(h) => HtmlEventV::Base(opt_view(h)),
        HtmlEvent::HeadingStart => HtmlEventV::HeadingStart,
        HtmlEvent::HeadingText(l, t, last) => HtmlEventV::HeadingText(l, t@, last),
        HtmlEvent::AnchorStart(h, r) => HtmlEventV::AnchorStart(opt_view(h), opt_view(r)),
        HtmlEvent::AnchorText(t, last) => HtmlEventV::AnchorText(t@, last),
        HtmlEvent::Img(s, a, ss) => HtmlEventV::Img(opt_view(s), opt_view(a), ss),
        HtmlEvent::Script(s) => HtmlEventV::Script(opt_view(s)),
        HtmlEvent::BodyText(t) => HtmlEventV::BodyText(t@),
    }
}

/// Heading levels are 1 to 6.
pub open spec fn event_ok(e: HtmlEventV) -> bool {
    e matches HtmlEventV::HeadingText(l, _, _) ==> 1 <= l <= 6
}

/// What one event does to the extraction.
#[verifier::opaque]
pub open spec fn apply_event(x: ExtractV, e: HtmlEventV) -> ExtractV {
    match e {
        HtmlEventV::TitleText(t) => ExtractV { title: x.title + t, ..x },
        HtmlEventV::Meta(n, c) => after_meta(x, n, c),
        HtmlEventV::Link(r, h) => after_link(x, r, h),
        HtmlEventV::Base(h) => match h {
            Some(b) => ExtractV { base_url: Some(b), ..x },
            None => x,
        },
        HtmlEventV::HeadingStart => ExtractV { heading_buf: Seq::empty(), ..x },
        HtmlEventV::HeadingText(l, t, last) => after_heading_text(x, l as int, t, last),
        HtmlEventV::AnchorStart(h, r) => ExtractV {
            anchor_buf: Seq::empty(),
            anchor: Some(
                (
                    match h {
                        Some(h) => h,
                        None => Seq::empty(),
                    },
                    r,
                ),
            ),
            ..x
        },
        HtmlEventV::AnchorText(t, last) => after_anchor_text(x, t, last),
        HtmlEventV::Img(s, a, ss) => match s {
            Some(s) => ExtractV { images: x.images.push(image_of(x, s, a, ss)), ..x },
            None => x,
        },
        HtmlEventV::Script(s) => match s {
            Some(s) => match resolved(s, base_for(x)) {
                Some(u) => ExtractV { scripts: x.scripts.push(u), ..x },
                None => x,
            },
            None => x,
        },
        HtmlEventV::BodyText(t) => ExtractV { body_text: x.body_text + t, ..x },
    }
}

/// The extraction after events in order.
pub open spec fn run_events(x: ExtractV, es: Seq<HtmlEventV>) -> ExtractV
    decreases es.len(),
{
    if es.len() == 0 {
        x
    } else {
        apply_event(run_events(x, es.drop_last()), es.last())
    }
}

/// Running two lists of events runs the first, then the second.
pub proof fn lemma_run_events_concat(x: ExtractV, a: Seq<HtmlEventV>, b: Seq<HtmlEventV>)
    ensures
        run_events(x, a + b) == run_events(run_events(x, a), b),
    decreases b.len(),
{
    if b.len() == 0 {
        assert(a + b =~= a);
    } else {
        lemma_run_events_concat(x, a, b.drop_last());
        assert((a + b).drop_last() =~= a + b.drop_last());
    }
}

fn opt_str_ref(o: &Option<String>) -> (r: Option<&str>)
    ensures
        crate::extract::opt_chars_ref(r) == opt_view(*o),
{
    match o {
        Some(s) => Some(s.as_str()),
        None => None,
    }
}

impl PageExtractor {
    /// Hand one event to the extractor.
    pub fn apply(&mut self, e: HtmlEvent)
        requires
            event_ok(html_event_view(e)),
        ensures
            final(self).view() == apply_event(old(self).view(), html_event_view(e)),
    {
        proof {
            reveal(apply_event);
        }
        match e {
            HtmlEvent::TitleText(t) => self.on_title_text(t.as_str()),
            HtmlEvent::Meta(n, c) => self.on_meta(opt_str_ref(&n), c),
            HtmlEvent::Link(r, h) => self.on_link(opt_str_ref(&r), opt_str_ref(&h)),
            HtmlEvent::Base(h) => self.on_base(h),
            HtmlEvent::HeadingStart => self.on_heading_start(),
            HtmlEvent::HeadingText(l, t, last) => self.on_heading_text(l, t.as_str(), last),
            HtmlEvent::AnchorStart(h, r) => self.on_anchor_start(h, r),
            HtmlEvent::AnchorText(t, last) => self.on_anchor_text(t.as_str(), last),
            HtmlEvent::Img(s, a, ss) => self.on_img(opt_str_ref(&s), a, ss),
            HtmlEvent::Script(s) => self.on_script(opt_str_ref(&s)),
            HtmlEvent::BodyText(t) => self.on_body_text(t.as_str()),
        }
    }
}

// ---------------------------------------------------------------------------
// What the tokenizers are asked for
// ---------------------------------------------------------------------------

/// The attributes read from each matched element, by position: `name`,
/// `content`, `rel`, `href`, `src`, `alt`, `srcset`.
pub open spec fn attr_names() -> Seq<Seq<char>> {
    seq!["name"@, "content"@, "rel"@, "href"@, "src"@, "alt"@, "srcset"@]
}

fn attr_name_list() -> (r: Vec<String>)
    ensures
        strs_view(r@) == attr_names(),
{
    let r = vec![owned("name"), owned("content"), owned("rel"), owned("href"), owned("src"), owned("alt"), owned("srcset")];
    assert(strs_view(r@) =~= attr_names());
    r
}

/// The selectors lol_html matches, in the order their handlers run:
/// `title`, `meta`, `link`, `base`, `h1` to `h6`, `a[href]`, `img`,
/// `script[src]` and `body`.
pub open spec fn lol_selectors() -> Seq<Seq<char>> {
    seq![
        "title"@,
        "meta"@,
        "link"@,
        "base"@,
        "h1"@,
        "h2"@,
        "h3"@,
        "h4"@,
        "h5"@,
        "h6"@,
        "a[href]"@,
        "img"@,
        "script[src]"@,
        "body"@,
    ]
}

fn lol_selector_list() -> (r: Vec<String>)
    ensures
        strs_view(r@) == lol_selectors(),
{
    let r = vec![
        owned("title"),
        owned("meta"),
        owned("link"),
        owned("base"),
        owned("h1"),
        owned("h2"),
        owned("h3"),
        owned("h4"),
        owned("h5"),
        owned("h6"),
        owned("a[href]"),
        owned("img"),
        owned("script[src]"),
        owned("body"),
    ];
    assert(strs_view(r@) =~= lol_selectors());
    r
}

/// The attribute at position `k`, if read and present.
pub open spec fn attr_at(a: Seq<Option<Seq<char>>>, k: int) -> Option<Seq<char>> {
    if 0 <= k < a.len() {
        a[k]
    } else {
        None
    }
}

pub open spec fn opts_view(a: Seq<Option<String>>) -> Seq<Option<Seq<char>>> {
    a.map_values(|o: Option<String>| opt_view(o))
}

fn attr_of(a: &Vec<Option<String>>, k: usize) -> (r: Option<String>)
    ensures
        opt_view(r) == attr_at(opts_view(a@), k as int),
{
    if k < a.len() {
        match &a[k] {
            Some(s) => Some(owned(s.as_str())),
            None => None,
        }
    } else {
        None
    }
}

// ---------------------------------------------------------------------------
// lol_html
// ---------------------------------------------------------------------------

/// What a lol_html handler reports: an element matched by selector `i`
/// with the requested attributes, or a text chunk inside an element matched
/// by selector `i` with whether it is the last of its text node.
#[derive(Debug)]
pub enum RawHtmlEvent {
    Element(usize, Vec<Option<String>>),
    Text(usize, String, bool),
}

pub enum RawHtmlEventV {
    Element(usize, Seq<Option<Seq<char>>>),
    Text(usize, Seq<char>, bool),
}

pub open spec fn raw_view(e: RawHtmlEvent) -> RawHtmlEventV {
    match e {
        RawHtmlEvent::Element(i, a) => RawHtmlEventV::Element(i, opts_view(a@)),
        RawHtmlEvent::Text(i, t, last) => RawHtmlEventV::Text(i, t@, last),
    }
}

pub open spec fn raws_view(s: Seq<RawHtmlEvent>) -> Seq<RawHtmlEventV> {
    s.map_values(|e: RawHtmlEvent| raw_view(e))
}

/// The reports lol_html's handlers make, in order, and the attributes
/// read from each element.
pub struct HtmlEventLog {
    pub events: Vec<RawHtmlEvent>,
    pub attrs: Vec<String>,
}

impl Default for HtmlEventLog {
    fn default() -> (r: Self)
        ensures
            r.events@.len() == 0,
            r.attrs@.len() == 0,
    {
        HtmlEventLog { events: Vec::new(), attrs: Vec::new() }
    }
}

impl HtmlEventLog {
    pub fn new(attrs: &Vec<String>) -> (r: Self)
        ensures
            r.events@.len() == 0,
            strs_view(r.attrs@) == strs_view(attrs@),
    {
        HtmlEventLog { events: Vec::new(), attrs: crate::text::clone_strs(attrs) }
    }

    /// An element matched by selector `sel`; `attr` gives the value of an
    /// attribute by name, and the log asks it for each of its attributes in
    /// order (what `attr` answers is the element's, not stated here).
    pub fn record_element<F: Fn(&str) -> Option<String>>(&mut self, sel: usize, attr: F)
        requires
            forall|a: &str| attr.requires((a,)),
        ensures
            final(self).events@.len() == old(self).events@.len() + 1,
            final(self).events@.drop_last() == old(self).events@,
            final(self).events@.last() matches RawHtmlEvent::Element(i, vals) && i == sel
                && vals@.len() == old(self).attrs@.len(),
            final(self).attrs == old(self).attrs,
    {
        let mut vals: Vec<Option<String>> = Vec::new();
        let mut k: usize = 0;
        while k < self.attrs.len()
            invariant
                k <= self.attrs@.len(),
                vals@.len() == k,
                self.attrs == old(self).attrs,
                self.events == old(self).events,
                forall|a: &str| attr.requires((a,)),
            decreases self.attrs.len() - k,
        {
            let v = attr(self.attrs[k].as_str());
            vals.push(v);
            k = k + 1;
        }
        self.events.push(RawHtmlEvent::Element(sel, vals));
    }

    /// A text chunk inside an element matched by selector `sel`.
    pub fn record_text(&mut self, sel: usize, text: &str, last: bool)
        ensures
            final(self).events@.len() == old(self).events@.len() + 1,
            final(self).events@.drop_last() == old(self).events@,
            final(self).events@.last() matches RawHtmlEvent::Text(i, t, l) && i == sel && t@ == text@ && l == last,
            final(self).attrs == old(self).attrs,
    {
        self.events.push(RawHtmlEvent::Text(sel, owned(text), last));
    }
}

/// The reports lol_html makes when it rewrites the bytes read as UTF-8
/// (invalid sequences replaced) with `lol_html::rewrite_str`, given, for
/// each selector in order, an element handler reading the named attributes
/// with `Element::get_attribute` and a text handler; `None` when a
/// selector does not parse or the rewrite fails.
pub uninterp spec fn lol_events_of(html: Seq<u8>, selectors: Seq<Seq<char>>, attrs: Seq<Seq<char>>) -> Option<
    Seq<RawHtmlEventV>,
>;

/// Runs `lol_html::rewrite_str` with `ElementContentHandlers::element` and
/// `::text` handlers per selector, each reporting to the log. The reports
/// are named as a function of the bytes, the selectors and the attributes.
#[verifier::external_body]
fn lol_events(html: &[u8], selectors: &Vec<String>, attrs: &Vec<String>) -> (r: Option<Vec<RawHtmlEvent>>)
    ensures
        match r {
            Some(v) => lol_events_of(html@, strs_view(selectors@), strs_view(attrs@)) == Some(raws_view(v@)),
            None => lol_events_of(html@, strs_view(selectors@), strs_view(attrs@)) is None,
        },
{
    let log = &RefCell::new(HtmlEventLog::new(attrs));
    let mut settings = Settings::new();
    for (i, s) in selectors.iter().enumerate() {
        settings = settings.append_element_content_handler((Cow::Owned(s.parse().ok()?), ElementContentHandlers::default()
            .element(move |e: &mut Element| { log.borrow_mut().record_element(i, |a: &str| e.get_attribute(a)); Ok(()) })
            .text(move |t: &mut TextChunk| { log.borrow_mut().record_text(i, t.as_str(), t.last_in_text_node()); Ok(()) })));
    }
    lol_html::rewrite_str(&String::from_utf8_lossy(html), settings).ok()?;
    Some(log.take().events)
}

/// The extraction event a lol_html report stands for, by the selector that
/// matched (reports the parser has no handler for stand for none).
pub open spec fn lol_event(r: RawHtmlEventV) -> Option<HtmlEventV> {
    match r {
        RawHtmlEventV::Element(i, a) => if i == 1 {
            Some(HtmlEventV::Meta(attr_at(a, 0), attr_at(a, 1)))
        } else if i == 2 {
            Some(HtmlEventV::Link(attr_at(a, 2), attr_at(a, 3)))
        } else if i == 3 {
            Some(HtmlEventV::Base(attr_at(a, 3)))
        } else if 4 <= i <= 9 {
            Some(HtmlEventV::HeadingStart)
        } else if i == 10 {
            Some(
                HtmlEventV::AnchorStart(
                    Some(
                        match attr_at(a, 3) {
                            Some(h) => h,
                            None => Seq::empty(),
                        },
                    ),
                    attr_at(a, 2),
                ),
            )
        } else if i == 11 {
            Some(HtmlEventV::Img(attr_at(a, 4), attr_at(a, 5), attr_at(a, 6) is Some))
        } else if i == 12 {
            Some(HtmlEventV::Script(attr_at(a, 4)))
        } else {
            None
        },
        RawHtmlEventV::Text(i, t, last) => if i == 0 {
            Some(HtmlEventV::TitleText(t))
        } else if 4 <= i <= 9 {
            Some(HtmlEventV::HeadingText((i - 3) as u8, t, last))
        } else if i == 10 {
            Some(HtmlEventV::AnchorText(t, last))
        } else if i == 13 {
            Some(HtmlEventV::BodyText(t))
        } else {
            None
        },
    }
}

/// The extraction events of lol_html's reports, in order.
pub open spec fn lol_to_events(raw: Seq<RawHtmlEventV>) -> Seq<HtmlEventV>
    decreases raw.len(),
{
    if raw.len() == 0 {
        Seq::empty()
    } else {
        match lol_event(raw.last()) {
            Some(e) => lol_to_events(raw.drop_last()).push(e),
            None => lol_to_events(raw.drop_last()),
        }
    }
}

fn lol_event_of(r: &RawHtmlEvent) -> (e: Option<HtmlEvent>)
    ensures
        match e {
            Some(x) => lol_event(raw_view(*r)) == Some(html_event_view(x)),
            None => lol_event(raw_view(*r)) is None,
        },
{
    match r {
        RawHtmlEvent::Element(i, a) => {
            let i = *i;
            if i == 1 {
                Some(HtmlEvent::Meta(attr_of(a, 0), attr_of(a, 1)))
            } else if i == 2 {
                Some(HtmlEvent::Link(attr_of(a, 2), attr_of(a, 3)))
            } else if i == 3 {
                Some(HtmlEvent::Base(attr_of(a, 3)))
            } else if 4 <= i && i <= 9 {
                Some(HtmlEvent::HeadingStart)
            } else if i == 10 {
                let h = match attr_of(a, 3) {
                    Some(h) => h,
                    None => String::new(),
                };
                Some(HtmlEvent::AnchorStart(Some(h), attr_of(a, 2)))
            } else if i == 11 {
                let ss = attr_of(a, 6);
                Some(HtmlEvent::Img(attr_of(a, 4), attr_of(a, 5), ss.is_some()))
            } else if i == 12 {
                Some(HtmlEvent::Script(attr_of(a, 4)))
            } else {
                None
            }
        },
        RawHtmlEvent::Text(i, t, last) => {
            let i = *i;
            if i == 0 {
                Some(HtmlEvent::TitleText(owned(t.as_str())))
            } else if 4 <= i && i <= 9 {
                Some(HtmlEvent::HeadingText((i - 3) as u8, owned(t.as_str()), *last))
            } else if i == 10 {
                Some(HtmlEvent::AnchorText(owned(t.as_str()), *last))
            } else if i == 13 {
                Some(HtmlEvent::BodyText(owned(t.as_str())))
            } else {
                None
            }
        },
    }
}

/// The page lol_html's reports give, when it reads the bytes.
pub open spec fn lol_page_source(html: Seq<u8>) -> Option<Seq<HtmlEventV>> {
    match lol_events_of(html, lol_selectors(), attr_names()) {
        Some(raw) => Some(lol_to_events(raw)),
        None => None,
    }
}

/// The extraction of lol_html's streaming pass; `None` when lol_html
/// refuses the document.
fn lol_extract(html_bytes: &[u8], page_url: &str, root_domain: &str) -> (r: Option<PageExtractor>)
    ensures
        match lol_page_source(html_bytes@) {
            Some(es) => r matches Some(x) && x.view() == run_events(extract_start(page_url@, root_domain@), es),
            None => r is None,
        },
{
    let selectors = lol_selector_list();
    let attrs = attr_name_list();
    let raw = match lol_events(html_bytes, &selectors, &attrs) {
        Some(v) => v,
        None => return None,
    };
    let ghost rv = raws_view(raw@);
    let ghost start = extract_start(page_url@, root_domain@);
    let mut x = PageExtractor::new(page_url, root_domain);
    let mut i: usize = 0;
    while i < raw.len()
        invariant
            i <= raw@.len(),
            rv == raws_view(raw@),
            x.view() == run_events(start, lol_to_events(rv.take(i as int))),
        decreases raw.len() - i,
    {
        let ghost prev = x.view();
        assert(rv.take(i + 1).drop_last() =~= rv.take(i as int));
        assert(rv.take(i + 1).last() == raw_view(raw@[i as int]));
        match lol_event_of(&raw[i]) {
            Some(e) => {
                let ghost ev = html_event_view(e);
                proof {
                    let r = raw_view(raw@[i as int]);
                    if let RawHtmlEventV::Text(k, _, _) = r {
                        if 4 <= k <= 9 {
                            assert(ev matches HtmlEventV::HeadingText(l, _, _) && l == (k - 3) as u8);
                        }
                    }
                }
                x.apply(e);
                assert(lol_to_events(rv.take(i + 1)) == lol_to_events(rv.take(i as int)).push(ev));
                assert(lol_to_events(rv.take(i + 1)).drop_last() =~= lol_to_events(rv.take(i as int)));
            },
            None => {},
        }
        i = i + 1;
    }
    assert(rv.take(raw@.len() as int) =~= rv);
    Some(x)
}

/// Primary parser: lol_html's streaming pass. `None` when lol_html refuses
/// the document; otherwise the page its events give.
pub fn parse_with_lol_html(html_bytes: &[u8], page_url: &str, root_domain: &str) -> (r: Option<ParsedPage>)
    ensures
        match lol_page_source(html_bytes@) {
            Some(es) => r matches Some(p) && page_of(run_events(extract_start(page_url@, root_domain@), es), p),
            None => r is None,
        },
{
    match lol_extract(html_bytes, page_url, root_domain) {
        Some(x) => Some(x.finish()),
        None => None,
    }
}


// ---------------------------------------------------------------------------
// scraper
// ---------------------------------------------------------------------------

#[verifier::external_type_specification]
#[verifier::external_body]
pub struct ExScraperHtml(scraper::Html);

/// A document parsed by scraper, with the bytes it was parsed from.
pub struct ScrapedDoc {
    doc: scraper::Html,
    source: Ghost<Seq<u8>>,
}

impl ScrapedDoc {
    /// The bytes the document was parsed from.
    pub closed spec fn source(self) -> Seq<u8> {
        self.source@
    }
}

/// Calls `scraper::Html::parse_document` on the bytes read as UTF-8 (with
/// replacement characters for invalid sequences).
#[verifier::external_body]
fn scraped_doc(html: &[u8]) -> (r: ScrapedDoc)
    ensures
        r.source() == html@,
{
    ScrapedDoc { doc: scraper::Html::parse_document(&String::from_utf8_lossy(html)), source: Ghost(html@) }
}

/// An element scraper selected: the requested attributes and its text.
#[derive(Debug)]
pub struct ScrapedElement {
    pub attrs: Vec<Option<String>>,
    pub text: String,
}

pub struct ScrapedV {
    pub attrs: Seq<Option<Seq<char>>>,
    pub text: Seq<char>,
}

pub open spec fn scraped_view(e: ScrapedElement) -> ScrapedV {
    ScrapedV { attrs: opts_view(e.attrs@), text: e.text@ }
}

pub open spec fn scrapeds_view(s: Seq<ScrapedElement>) -> Seq<ScrapedV> {
    s.map_values(|e: ScrapedElement| scraped_view(e))
}

/// The elements of the document parsed from `html` that scraper's
/// `Html::select` yields for the selector, in document order, each with
/// the named attributes (`Element::attr`) and its text (the concatenated
/// text nodes below it); `None` when the selector does not parse.
pub uninterp spec fn scraper_select_of(html: Seq<u8>, selector: Seq<char>, attrs: Seq<Seq<char>>) -> Option<Seq<ScrapedV>>;

/// Parses the selector with `scraper::Selector::parse` and collects what
/// `Html::select` yields. Named as a function of the document's bytes, the
/// selector and the attribute names.
#[verifier::external_body]
fn select_elements(doc: &ScrapedDoc, selector: &str, attrs: &Vec<String>) -> (r: Option<Vec<ScrapedElement>>)
    ensures
        match r {
            Some(v) => scraper_select_of(doc.source(), selector@, strs_view(attrs@)) == Some(scrapeds_view(v@)),
            None => scraper_select_of(doc.source(), selector@, strs_view(attrs@)) is None,
        },
{
    let sel = scraper::Selector::parse(selector).ok()?;
    Some(doc.doc.select(&sel).map(|e| ScrapedElement {
        attrs: attrs.iter().map(|a| e.value().attr(a).map(str::to_string)).collect(),
        text: e.text().collect(),
    }).collect())
}

/// What the fallback parser asks scraper for, in order.
#[derive(Debug, Clone, Copy, PartialEq, Eq, Structural)]
pub enum ScrapeKind {
    Title,
    /// `description`, `robots` or `viewport` (0, 1, 2).
    Meta(u8),
    Canonical,
    Base,
    /// A heading level, 1 to 6.
    Heading(u8),
    Anchor,
    Img,
    Script,
    Stylesheet,
    Body,
}

pub open spec fn kind_ok(k: ScrapeKind) -> bool {
    &&& k matches ScrapeKind::Meta(w) ==> w <= 2
    &&& k matches ScrapeKind::Heading(l) ==> 1 <= l <= 6
}

/// The order of the fallback's selections.
pub open spec fn scrape_order() -> Seq<ScrapeKind> {
    seq![
        ScrapeKind::Title,
        ScrapeKind::Meta(0),
        ScrapeKind::Meta(1),
        ScrapeKind::Meta(2),
        ScrapeKind::Canonical,
        ScrapeKind::Base,
        ScrapeKind::Heading(1),
        ScrapeKind::Heading(2),
        ScrapeKind::Heading(3),
        ScrapeKind::Heading(4),
        ScrapeKind::Heading(5),
        ScrapeKind::Heading(6),
        ScrapeKind::Anchor,
        ScrapeKind::Img,
        ScrapeKind::Script,
        ScrapeKind::Stylesheet,
        ScrapeKind::Body,
    ]
}

fn scrape_order_list() -> (r: Vec<ScrapeKind>)
    ensures
        r@ == scrape_order(),
{
    let r = vec![
        ScrapeKind::Title,
        ScrapeKind::Meta(0),
        ScrapeKind::Meta(1),
        ScrapeKind::Meta(2),
        ScrapeKind::Canonical,
        ScrapeKind::Base,
        ScrapeKind::Heading(1),
        ScrapeKind::Heading(2),
        ScrapeKind::Heading(3),
        ScrapeKind::Heading(4),
        ScrapeKind::Heading(5),
        ScrapeKind::Heading(6),
        ScrapeKind::Anchor,
        ScrapeKind::Img,
        ScrapeKind::Script,
        ScrapeKind::Stylesheet,
        ScrapeKind::Body,
    ];
    assert(r@ =~= scrape_order());
    r
}

/// The meta names the fallback looks for.
pub open spec fn meta_name(w: u8) -> Seq<char> {
    if w == 0 {
        "description"@
    } else if w == 1 {
        "robots"@
    } else {
        "viewport"@
    }
}

/// The selector of each selection.
pub open spec fn kind_selector(k: ScrapeKind) -> Seq<char> {
    match k {
        ScrapeKind::Title => "title"@,
        ScrapeKind::Meta(w) => if w == 0 {
            "meta[name='description']"@
        } else if w == 1 {
            "meta[name='robots']"@
        } else {
            "meta[name='viewport']"@
        },
        ScrapeKind::Canonical => "link[rel='canonical']"@,
        ScrapeKind::Base => "base[href]"@,
        ScrapeKind::Heading(l) => if l == 1 {
            "h1"@
        } else if l == 2 {
            "h2"@
        } else if l == 3 {
            "h3"@
        } else if l == 4 {
            "h4"@
        } else if l == 5 {
            "h5"@
        } else {
            "h6"@
        },
        ScrapeKind::Anchor => "a[href]"@,
        ScrapeKind::Img => "img"@,
        ScrapeKind::Script => "script[src]"@,
        ScrapeKind::Stylesheet => "link[rel='stylesheet']"@,
        ScrapeKind::Body => "body"@,
    }
}

fn kind_selector_of(k: ScrapeKind) -> (r: &'static str)
    ensures
        r@ == kind_selector(k),
{
    match k {
        ScrapeKind::Title => "title",
        ScrapeKind::Meta(w) => if w == 0 {
            "meta[name='description']"
        } else if w == 1 {
            "meta[name='robots']"
        } else {
            "meta[name='viewport']"
        },
        ScrapeKind::Canonical => "link[rel='canonical']",
        ScrapeKind::Base => "base[href]",
        ScrapeKind::Heading(l) => if l == 1 {
            "h1"
        } else if l == 2 {
            "h2"
        } else if l == 3 {
            "h3"
        } else if l == 4 {
            "h4"
        } else if l == 5 {
            "h5"
        } else {
            "h6"
        },
        ScrapeKind::Anchor => "a[href]",
        ScrapeKind::Img => "img",
        ScrapeKind::Script => "script[src]",
        ScrapeKind::Stylesheet => "link[rel='stylesheet']",
        ScrapeKind::Body => "body",
    }
}

/// Only the first element of these selections counts.
pub open spec fn first_only(k: ScrapeKind) -> bool {
    k is Title || k is Meta || k is Canonical || k is Base || k is Body
}

/// The extraction events of one selected element.
pub open spec fn element_events(k: ScrapeKind, el: ScrapedV) -> Seq<HtmlEventV> {
    let a = el.attrs;
    match k {
        ScrapeKind::Title => seq![HtmlEventV::TitleText(el.text)],
        ScrapeKind::Meta(w) => seq![HtmlEventV::Meta(Some(meta_name(w)), attr_at(a, 1))],
        ScrapeKind::Canonical => seq![HtmlEventV::Link(Some("canonical"@), attr_at(a, 3))],
        ScrapeKind::Base => seq![HtmlEventV::Base(attr_at(a, 3))],
        ScrapeKind::Heading(l) => seq![HtmlEventV::HeadingStart, HtmlEventV::HeadingText(l, el.text, true)],
        ScrapeKind::Anchor => if attr_at(a, 3) is Some {
            seq![HtmlEventV::AnchorStart(attr_at(a, 3), attr_at(a, 2)), HtmlEventV::AnchorText(el.text, true)]
        } else {
            Seq::empty()
        },
        ScrapeKind::Img => seq![HtmlEventV::Img(attr_at(a, 4), attr_at(a, 5), attr_at(a, 6) is Some)],
        ScrapeKind::Script => seq![HtmlEventV::Script(attr_at(a, 4))],
        ScrapeKind::Stylesheet => seq![HtmlEventV::Link(Some("stylesheet"@), attr_at(a, 3))],
        ScrapeKind::Body => seq![HtmlEventV::BodyText(el.text)],
    }
}

/// The events of every selected element, in order.
pub open spec fn all_element_events(k: ScrapeKind, els: Seq<ScrapedV>) -> Seq<HtmlEventV>
    decreases els.len(),
{
    if els.len() == 0 {
        Seq::empty()
    } else {
        all_element_events(k, els.drop_last()) + element_events(k, els.last())
    }
}

/// The events one selection contributes.
pub open spec fn segment_events(k: ScrapeKind, els: Seq<ScrapedV>) -> Seq<HtmlEventV> {
    if first_only(k) {
        if els.len() > 0 {
            element_events(k, els[0])
        } else {
            Seq::empty()
        }
    } else {
        all_element_events(k, els)
    }
}

/// The elements of a selection, none when the selector does not parse.
pub open spec fn selected(html: Seq<u8>, k: ScrapeKind) -> Seq<ScrapedV> {
    match scraper_select_of(html, kind_selector(k), attr_names()) {
        Some(v) => v,
        None => Seq::empty(),
    }
}

/// The events of the selections in order.
pub open spec fn scrape_events(html: Seq<u8>, ks: Seq<ScrapeKind>) -> Seq<HtmlEventV>
    decreases ks.len(),
{
    if ks.len() == 0 {
        Seq::empty()
    } else {
        scrape_events(html, ks.drop_last()) + segment_events(ks.last(), selected(html, ks.last()))
    }
}

/// The fallback's events: `None` when the title, canonical or base
/// selector does not parse.
pub open spec fn scraper_page_source(html: Seq<u8>) -> Option<Seq<HtmlEventV>> {
    if scraper_select_of(html, "title"@, attr_names()) is None
        || scraper_select_of(html, "link[rel='canonical']"@, attr_names()) is None
        || scraper_select_of(html, "base[href]"@, attr_names()) is None {
        None
    } else {
        Some(scrape_events(html, scrape_order()))
    }
}

proof fn lemma_run_two(x: ExtractV, a: HtmlEventV, b: HtmlEventV)
    ensures
        run_events(x, seq![a, b]) == apply_event(apply_event(x, a), b),
        run_events(x, seq![a]) == apply_event(x, a),
{
    assert(seq![a, b].drop_last() =~= seq![a]);
    assert(seq![a].drop_last() =~= Seq::<HtmlEventV>::empty());
    assert(run_events(x, Seq::<HtmlEventV>::empty()) == x);
    assert(run_events(x, seq![a]) == apply_event(run_events(x, seq![a].drop_last()), a));
    assert(run_events(x, seq![a, b]) == apply_event(run_events(x, seq![a, b].drop_last()), b));
}

fn text_of(el: &ScrapedElement) -> (r: String)
    ensures
        r@ == el.text@,
{
    owned(el.text.as_str())
}

/// Apply the events of one selected element.
fn apply_element(x: &mut PageExtractor, k: ScrapeKind, el: &ScrapedElement)
    requires
        kind_ok(k),
    ensures
        final(x).view() == run_events(old(x).view(), element_events(k, scraped_view(*el))),
{
    let ghost x0 = x.view();
    let ghost ev = scraped_view(*el);
    let a = &el.attrs;
    proof {
        reveal_strlit("description");
        reveal_strlit("robots");
        reveal_strlit("viewport");
        reveal_strlit("canonical");
        reveal_strlit("stylesheet");
    }
    match k {
        ScrapeKind::Title => {
            proof { lemma_run_two(x0, HtmlEventV::TitleText(ev.text), HtmlEventV::TitleText(ev.text)); }
            x.apply(HtmlEvent::TitleText(text_of(el)));
        },
        ScrapeKind::Meta(w) => {
            let name = if w == 0 {
                owned("description")
            } else if w == 1 {
                owned("robots")
            } else {
                owned("viewport")
            };
            let e = HtmlEvent::Meta(Some(name), attr_of(a, 1));
            proof { lemma_run_two(x0, html_event_view(e), html_event_view(e)); }
            x.apply(e);
        },
        ScrapeKind::Canonical => {
            let e = HtmlEvent::Link(Some(owned("canonical")), attr_of(a, 3));
            proof { lemma_run_two(x0, html_event_view(e), html_event_view(e)); }
            x.apply(e);
        },
        ScrapeKind::Base => {
            let e = HtmlEvent::Base(attr_of(a, 3));
            proof { lemma_run_two(x0, html_event_view(e), html_event_view(e)); }
            x.apply(e);
        },
        ScrapeKind::Heading(l) => {
            let e2 = HtmlEvent::HeadingText(l, text_of(el), true);
            proof { lemma_run_two(x0, HtmlEventV::HeadingStart, html_event_view(e2)); }
            x.apply(HtmlEvent::HeadingStart);
            x.apply(e2);
        },
        ScrapeKind::Anchor => {
            let href = attr_of(a, 3);
            if href.is_some() {
                let e1 = HtmlEvent::AnchorStart(href, attr_of(a, 2));
                let e2 = HtmlEvent::AnchorText(text_of(el), true);
                proof { lemma_run_two(x0, html_event_view(e1), html_event_view(e2)); }
                x.apply(e1);
                x.apply(e2);
            }
        },
        ScrapeKind::Img => {
            let ss = attr_of(a, 6);
            let e = HtmlEvent::Img(attr_of(a, 4), attr_of(a, 5), ss.is_some());
            proof { lemma_run_two(x0, html_event_view(e), html_event_view(e)); }
            x.apply(e);
        },
        ScrapeKind::Script => {
            let e = HtmlEvent::Script(attr_of(a, 4));
            proof { lemma_run_two(x0, html_event_view(e), html_event_view(e)); }
            x.apply(e);
        },
        ScrapeKind::Stylesheet => {
            let e = HtmlEvent::Link(Some(owned("stylesheet")), attr_of(a, 3));
            proof { lemma_run_two(x0, html_event_view(e), html_event_view(e)); }
            x.apply(e);
        },
        ScrapeKind::Body => {
            proof { lemma_run_two(x0, HtmlEventV::BodyText(ev.text), HtmlEventV::BodyText(ev.text)); }
            x.apply(HtmlEvent::BodyText(text_of(el)));
        },
    }
}

/// Apply the events of one selection.
fn apply_segment(x: &mut PageExtractor, k: ScrapeKind, els: &Vec<ScrapedElement>)
    requires
        kind_ok(k),
    ensures
        final(x).view() == run_events(old(x).view(), segment_events(k, scrapeds_view(els@))),
{
    let ghost x0 = x.view();
    let ghost sv = scrapeds_view(els@);
    let first = match k {
        ScrapeKind::Title | ScrapeKind::Meta(_) | ScrapeKind::Canonical | ScrapeKind::Base | ScrapeKind::Body => true,
        _ => false,
    };
    if first {
        if els.len() > 0 {
            apply_element(x, k, &els[0]);
        } else {
            assert(run_events(x0, Seq::empty()) == x0);
        }
    } else {
        let mut i: usize = 0;
        assert(all_element_events(k, sv.take(0)) =~= Seq::<HtmlEventV>::empty());
        while i < els.len()
            invariant
                i <= els@.len(),
                kind_ok(k),
                !first_only(k),
                sv == scrapeds_view(els@),
                x.view() == run_events(x0, all_element_events(k, sv.take(i as int))),
            decreases els.len() - i,
        {
            let ghost before = x.view();
            apply_element(x, k, &els[i]);
            proof {
                assert(sv.take(i + 1).drop_last() =~= sv.take(i as int));
                assert(sv.take(i + 1).last() == scraped_view(els@[i as int]));
                lemma_run_events_concat(x0, all_element_events(k, sv.take(i as int)), element_events(k, sv[i as int]));
            }
            i = i + 1;
        }
        assert(sv.take(els@.len() as int) =~= sv);
    }
}

/// The extraction of scraper's DOM, selected in a fixed order; `None` when
/// the title, canonical or base selector does not parse.
fn scraper_extract(html_bytes: &[u8], page_url: &str, root_domain: &str) -> (r: Option<PageExtractor>)
    ensures
        match scraper_page_source(html_bytes@) {
            Some(es) => r matches Some(x) && x.view() == run_events(extract_start(page_url@, root_domain@), es),
            None => r is None,
        },
{
    proof {
        reveal_strlit("title");
        reveal_strlit("link[rel='canonical']");
        reveal_strlit("base[href]");
    }
    let doc = scraped_doc(html_bytes);
    let attrs = attr_name_list();
    if select_elements(&doc, "title", &attrs).is_none() || select_elements(&doc, "link[rel='canonical']", &attrs).is_none()
        || select_elements(&doc, "base[href]", &attrs).is_none() {
        return None;
    }
    let order = scrape_order_list();
    let ghost html = html_bytes@;
    let ghost start = extract_start(page_url@, root_domain@);
    let mut x = PageExtractor::new(page_url, root_domain);
    let mut i: usize = 0;
    assert(scrape_events(html, order@.take(0)) =~= Seq::<HtmlEventV>::empty());
    while i < order.len()
        invariant
            i <= order@.len(),
            order@ == scrape_order(),
            doc.source() == html,
            strs_view(attrs@) == attr_names(),
            x.view() == run_events(start, scrape_events(html, order@.take(i as int))),
        decreases order.len() - i,
    {
        let k = order[i];
        assert(kind_ok(k));
        let els = match select_elements(&doc, kind_selector_of(k), &attrs) {
            Some(v) => v,
            None => Vec::new(),
        };
        assert(scrapeds_view(els@) =~= selected(html, k));
        apply_segment(&mut x, k, &els);
        proof {
            assert(order@.take(i + 1).drop_last() =~= order@.take(i as int));
            assert(order@.take(i + 1).last() == k);
            lemma_run_events_concat(start, scrape_events(html, order@.take(i as int)), segment_events(k, selected(html, k)));
        }
        i = i + 1;
    }
    assert(order@.take(order@.len() as int) =~= order@);
    Some(x)
}

/// Fallback parser: scraper's DOM, selected in a fixed order. The page is
/// blank (only its URL) when the title, canonical or base selector does
/// not parse.
pub fn parse_with_scraper(html_bytes: &[u8], page_url: &str, root_domain: &str) -> (r: ParsedPage)
    ensures
        match scraper_page_source(html_bytes@) {
            Some(es) => page_of(run_events(extract_start(page_url@, root_domain@), es), r),
            None => r.url@ == page_url@ && r.is_blank(),
        },
{
    match scraper_extract(html_bytes, page_url, root_domain) {
        Some(x) => x.finish(),
        None => unparsed_page(page_url),
    }
}

/// The events a document yields: lol_html's, or scraper's when lol_html
/// refuses it; `None` when neither reads it.
pub open spec fn page_source(html: Seq<u8>) -> Option<Seq<HtmlEventV>> {
    match lol_page_source(html) {
        Some(es) => Some(es),
        None => scraper_page_source(html),
    }
}

/// Parse an HTML document and also hand back its visible body text.
pub fn parse_html_with_text(html_bytes: &[u8], page_url: &str, root_domain: &str) -> (r: (ParsedPage, String))
    ensures
        match page_source(html_bytes@) {
            Some(es) => page_of(run_events(extract_start(page_url@, root_domain@), es), r.0)
                && r.1@ == run_events(extract_start(page_url@, root_domain@), es).body_text,
            None => r.0.url@ == page_url@ && r.0.is_blank() && r.1@.len() == 0,
        },
{
    let x = match lol_extract(html_bytes, page_url, root_domain) {
        Some(x) => Some(x),
        None => scraper_extract(html_bytes, page_url, root_domain),
    };
    match x {
        Some(x) => {
            let t = x.body_text();
            (x.finish(), t)
        },
        None => (unparsed_page(page_url), String::new()),
    }
}

/// Parse an HTML document: lol_html's streaming pass, or scraper's DOM
/// when lol_html refuses the document.
pub fn parse_html(html_bytes: &[u8], page_url: &str, root_domain: &str) -> (r: ParsedPage)
    ensures
        match page_source(html_bytes@) {
            Some(es) => page_of(run_events(extract_start(page_url@, root_domain@), es), r),
            None => r.url@ == page_url@ && r.is_blank(),
        },
{
    parse_html_with_text(html_bytes, page_url, root_domain).0
}


// ---------------------------------------------------------------------------
// Headings
// ---------------------------------------------------------------------------

/// The tag name of a heading of level `l`: `h` and the level's digit.
pub open spec fn heading_tag(l: int) -> Seq<char> {
    seq!['h', (('0' as int) + l) as char]
}

/// A heading's text, once its element ends, is added (trimmed, when not
/// blank) to the list of headings of its level and to no other.
pub proof fn law_heading_text_lands(x: ExtractV, l: int, t: Seq<char>)
    requires
        1 <= l <= 6,
        x.headings.len() == 6,
    ensures
        run_events(x, seq![HtmlEventV::HeadingStart, HtmlEventV::HeadingText(l as u8, t, true)]).headings
            == if crate::words::trim(t).len() > 0 {
            x.headings.update(l - 1, x.headings[l - 1].push(crate::words::trim(t)))
        } else {
            x.headings
        },
{
    reveal(apply_event);
    let es = seq![HtmlEventV::HeadingStart, HtmlEventV::HeadingText(l as u8, t, true)];
    let one = seq![HtmlEventV::HeadingStart];
    assert(es.drop_last() =~= one);
    assert(one.drop_last() =~= Seq::<HtmlEventV>::empty());
    assert(run_events(x, one.drop_last()) == x);
    assert(one.last() == HtmlEventV::HeadingStart);
    assert(run_events(x, one) == apply_event(x, HtmlEventV::HeadingStart));
    let x1 = apply_event(x, HtmlEventV::HeadingStart);
    assert(x1.heading_buf == Seq::<char>::empty());
    assert(x1.headings == x.headings);
    assert(x1.heading_buf + t =~= t);
    assert((l as u8) as int == l);
    assert(run_events(x, es) == apply_event(x1, HtmlEventV::HeadingText(l as u8, t, true)));
}

proof fn lemma_lol_selector_levels()
    ensures
        lol_selectors().len() == 14,
        forall|i: int| 4 <= i <= 9 ==> #[trigger] lol_selectors()[i] == heading_tag(i - 3),
        forall|i: int, l: int|
            #![trigger lol_selectors()[i], heading_tag(l)]
            0 <= i < 14 && 1 <= l <= 6 && lol_selectors()[i] == heading_tag(l) ==> 4 <= i <= 9 && l == i - 3,
{
    reveal_strlit("title");
    reveal_strlit("meta");
    reveal_strlit("link");
    reveal_strlit("base");
    reveal_strlit("h1");
    reveal_strlit("h2");
    reveal_strlit("h3");
    reveal_strlit("h4");
    reveal_strlit("h5");
    reveal_strlit("h6");
    reveal_strlit("a[href]");
    reveal_strlit("img");
    reveal_strlit("script[src]");
    reveal_strlit("body");
    let sel = lol_selectors();
    assert(sel[4] =~= heading_tag(1));
    assert(sel[5] =~= heading_tag(2));
    assert(sel[6] =~= heading_tag(3));
    assert(sel[7] =~= heading_tag(4));
    assert(sel[8] =~= heading_tag(5));
    assert(sel[9] =~= heading_tag(6));
    assert forall|i: int, l: int|
        #![trigger sel[i], heading_tag(l)]
        0 <= i < 14 && 1 <= l <= 6 && sel[i] == heading_tag(l) implies 4 <= i <= 9 && l == i - 3 by {
        assert(sel[i].len() == 2);
        assert(sel[i][1] == heading_tag(l)[1]);
        assert(heading_tag(i - 3)[1] == heading_tag(l)[1]);
    }
}

/// lol_html reports every heading level: for each level 1 to 6 there is a
/// selector `h1` .. `h6`, and for any selector that names a heading tag,
/// the element stands for the start of a heading and its text for heading
/// text of that tag's level.
pub proof fn law_lol_headings_by_level(i: usize, a: Seq<Option<Seq<char>>>, t: Seq<char>, last: bool, l: int)
    requires
        1 <= l <= 6,
    ensures
        exists|k: int| 0 <= k < lol_selectors().len() && #[trigger] lol_selectors()[k] == heading_tag(l),
        (i < lol_selectors().len() && lol_selectors()[i as int] == heading_tag(l)) ==> {
            &&& lol_event(RawHtmlEventV::Element(i, a)) == Some(HtmlEventV::HeadingStart)
            &&& lol_event(RawHtmlEventV::Text(i, t, last)) == Some(HtmlEventV::HeadingText(l as u8, t, last))
        },
{
    lemma_lol_selector_levels();
    assert(lol_selectors()[l + 3] == heading_tag(l));
    if i < lol_selectors().len() && lol_selectors()[i as int] == heading_tag(l) {
        assert(4 <= i <= 9);
    }
}

/// A heading element read by lol_html, with its text in one chunk, adds
/// that text (trimmed, when not blank) to the page's headings of the level
/// its tag names.
pub proof fn law_lol_heading_lands(x: ExtractV, i: usize, a: Seq<Option<Seq<char>>>, t: Seq<char>, l: int)
    requires
        1 <= l <= 6,
        x.headings.len() == 6,
        i < lol_selectors().len(),
        lol_selectors()[i as int] == heading_tag(l),
    ensures
        run_events(x, lol_to_events(seq![RawHtmlEventV::Element(i, a), RawHtmlEventV::Text(i, t, true)])).headings
            == if crate::words::trim(t).len() > 0 {
            x.headings.update(l - 1, x.headings[l - 1].push(crate::words::trim(t)))
        } else {
            x.headings
        },
{
    law_lol_headings_by_level(i, a, t, true, l);
    let raw = seq![RawHtmlEventV::Element(i, a), RawHtmlEventV::Text(i, t, true)];
    let r1 = seq![RawHtmlEventV::Element(i, a)];
    assert(raw.drop_last() =~= r1);
    assert(r1.drop_last() =~= Seq::<RawHtmlEventV>::empty());
    assert(lol_to_events(r1.drop_last()) == Seq::<HtmlEventV>::empty());
    assert(r1.last() == RawHtmlEventV::Element(i, a));
    assert(lol_to_events(r1) == Seq::<HtmlEventV>::empty().push(HtmlEventV::HeadingStart));
    assert(lol_to_events(r1) =~= seq![HtmlEventV::HeadingStart]);
    assert(lol_to_events(raw) == lol_to_events(r1).push(HtmlEventV::HeadingText(l as u8, t, true)));
    assert(lol_to_events(raw) =~= seq![HtmlEventV::HeadingStart, HtmlEventV::HeadingText(l as u8, t, true)]);
    law_heading_text_lands(x, l, t);
}

/// The fallback selects every heading level too: for each level there is
/// a selection whose selector is that level's tag, and the elements of a
/// selection for a heading tag add their text to the headings of that
/// tag's level.
pub proof fn law_scraper_headings_by_level(x: ExtractV, k: ScrapeKind, el: ScrapedV, l: int)
    requires
        1 <= l <= 6,
        x.headings.len() == 6,
    ensures
        exists|j: int| 0 <= j < scrape_order().len() && #[trigger] kind_selector(scrape_order()[j]) == heading_tag(l),
        (scrape_order().contains(k) && kind_selector(k) == heading_tag(l)) ==> run_events(x, element_events(k, el)).headings
            == if crate::words::trim(el.text).len() > 0 {
            x.headings.update(l - 1, x.headings[l - 1].push(crate::words::trim(el.text)))
        } else {
            x.headings
        },
{
    reveal_strlit("title");
    reveal_strlit("meta[name='description']");
    reveal_strlit("meta[name='robots']");
    reveal_strlit("meta[name='viewport']");
    reveal_strlit("link[rel='canonical']");
    reveal_strlit("base[href]");
    reveal_strlit("h1");
    reveal_strlit("h2");
    reveal_strlit("h3");
    reveal_strlit("h4");
    reveal_strlit("h5");
    reveal_strlit("h6");
    reveal_strlit("a[href]");
    reveal_strlit("img");
    reveal_strlit("script[src]");
    reveal_strlit("link[rel='stylesheet']");
    reveal_strlit("body");
    let order = scrape_order();
    assert(kind_selector(order[l + 5]) =~= heading_tag(l));
    if order.contains(k) && kind_selector(k) == heading_tag(l) {
        let j = choose|j: int| 0 <= j < order.len() && order[j] == k;
        assert(kind_selector(k)[1] == heading_tag(l)[1]);
        assert(6 <= j <= 11);
        assert(k == ScrapeKind::Heading((j - 5) as u8));
        assert(heading_tag(j - 5)[1] == heading_tag(l)[1]);
        assert(l == j - 5);
        law_heading_text_lands(x, l, el.text);
    }
}

} // verus!
