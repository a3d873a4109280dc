//! HTML extraction: what the parser does with each element and text chunk
//! the HTML tokenizer reports, and the page it builds at the end.
//!
//! The tokenizer calls one method per matched element or text chunk, in
//! document order: `<title>` text, `<meta>`, `<link>`, `<base>`, headings,
//! `<a href>`, `<img>`, `<script src>` and the text of `<body>`.

use vstd::prelude::*;
use crate::page::{ExtractedImage, ExtractedLink, ParsedPage};
use crate::text::{chars_of, string_of, push_lit, opt_view, strs_view, str_eq,
    str_eq_ignore_ascii_case, eq_ignore_ascii_case, to_lowercase, unicode_lowercase,
    contains_seq, str_contains};
use crate::urls::{resolve_url, resolved, is_internal, internal, opt_chars};
use crate::words::{trim, trim_chars, words, count_words};

verus! {

pub struct LinkV {
    pub href: Seq<char>,
    pub anchor_text: Option<Seq<char>>,
    pub rel: Option<Seq<char>>,
    pub is_internal: bool,
    pub is_nofollow: bool,
}

pub open spec fn link_view(l: ExtractedLink) -> LinkV {
    LinkV {
        href: l.href@,
        anchor_text: opt_view(l.anchor_text),
        rel: opt_view(l.rel),
        is_internal: l.is_internal,
        is_nofollow: l.is_nofollow,
    }
}

pub open spec fn links_view(s: Seq<ExtractedLink>) -> Seq<LinkV> {
    s.map_values(|l: ExtractedLink| link_view(l))
}

pub struct ImageV {
    pub src: Seq<char>,
    pub alt: Option<Seq<char>>,
    pub has_srcset: bool,
}

pub open spec fn image_view(i: ExtractedImage) -> ImageV {
    ImageV { src: i.src@, alt: opt_view(i.alt), has_srcset: i.has_srcset }
}

pub open spec fn images_view(s: Seq<ExtractedImage>) -> Seq<ImageV> {
    s.map_values(|i: ExtractedImage| image_view(i))
}

/// What has been extracted so far.
pub struct ExtractV {
    pub page_url: Seq<char>,
    pub root_domain: Seq<char>,
    pub title: Seq<char>,
    pub meta_description: Option<Seq<char>>,
    pub meta_robots: Option<Seq<char>>,
    pub viewport: Option<Seq<char>>,
    pub canonical: Option<Seq<char>>,
    pub base_url: Option<Seq<char>>,
    pub headings: Seq<Seq<Seq<char>>>,
    pub heading_buf: Seq<char>,
    pub links: Seq<LinkV>,
    pub anchor_buf: Seq<char>,
    pub anchor: Option<(Seq<char>, Option<Seq<char>>)>,
    pub images: Seq<ImageV>,
    pub scripts: Seq<Seq<char>>,
    pub stylesheets: Seq<Seq<char>>,
    pub body_text: Seq<char>,
}

/// Nothing extracted yet from a page fetched from `page_url` for a crawl of
/// `root_domain`.
pub open spec fn extract_start(page_url: Seq<char>, root_domain: Seq<char>) -> ExtractV {
    ExtractV {
        page_url,
        root_domain,
        title: Seq::empty(),
        meta_description: None,
        meta_robots: None,
        viewport: None,
        canonical: None,
        base_url: None,
        headings: seq![Seq::empty(), Seq::empty(), Seq::empty(), Seq::empty(), Seq::empty(), Seq::empty()],
        heading_buf: Seq::empty(),
        links: Seq::empty(),
        anchor_buf: Seq::empty(),
        anchor: None,
        images: Seq::empty(),
        scripts: Seq::empty(),
        stylesheets: Seq::empty(),
        body_text: Seq::empty(),
    }
}

/// The URL relative references are read against: the `<base href>` when
/// one was seen, else the page's URL.
pub open spec fn base_for(x: ExtractV) -> Seq<char> {
    match x.base_url {
        Some(b) => b,
        None => x.page_url,
    }
}

/// A text that contains `needle` once lowercased.
pub open spec fn lower_contains(t: Seq<char>, needle: Seq<char>) -> bool {
    contains_seq(unicode_lowercase(t), needle)
}

/// The state after a `<meta>` with the given `name` and `content`: a
/// `description` (any ASCII case) sets the description; a name that
/// lowercases to `robots` or `viewport` sets that field.
pub open spec fn after_meta(x: ExtractV, name: Option<Seq<char>>, content: Option<Seq<char>>) -> ExtractV {
    match name {
        None => x,
        Some(n) => {
            let x1 = if eq_ignore_ascii_case(n, "description"@) {
                ExtractV { meta_description: content, ..x }
            } else {
                x
            };
            if unicode_lowercase(n) == "robots"@ {
                ExtractV { meta_robots: content, ..x1 }
            } else if unicode_lowercase(n) == "viewport"@ {
                ExtractV { viewport: content, ..x1 }
            } else {
                x1
            }
        },
    }
}

/// The state after a `<link>`: `rel=canonical` (any case) sets the
/// canonical URL to the resolved `href` (or to nothing when it does not
/// resolve); a `rel` containing `stylesheet` adds the resolved `href`.
pub open spec fn after_link(x: ExtractV, rel: Option<Seq<char>>, href: Option<Seq<char>>) -> ExtractV {
    match rel {
        None => x,
        Some(r) => {
            let x1 = if unicode_lowercase(r) == "canonical"@ {
                match href {
                    Some(h) => ExtractV { canonical: resolved(h, base_for(x)), ..x },
                    None => x,
                }
            } else {
                x
            };
            if lower_contains(r, "stylesheet"@) {
                match href {
                    Some(h) => match resolved(h, base_for(x1)) {
                        Some(u) => ExtractV { stylesheets: x1.stylesheets.push(u), ..x1 },
                        None => x1,
                    },
                    None => x1,
                }
            } else {
                x1
            }
        },
    }
}

/// The state after a heading text chunk of level `level` (1 to 6).
pub open spec fn after_heading_text(x: ExtractV, level: int, chunk: Seq<char>, last: bool) -> ExtractV {
    let buf = x.heading_buf + chunk;
    if last {
        let t = trim(buf);
        let hs = if t.len() > 0 {
            x.headings.update(level - 1, x.headings[level - 1].push(t))
        } else {
            x.headings
        };
        ExtractV { heading_buf: Seq::empty(), headings: hs, ..x }
    } else {
        ExtractV { heading_buf: buf, ..x }
    }
}

/// The link an anchor yields: its `href` resolved against the base (no link
/// when it does not resolve), its trimmed text (none when empty), its
/// `rel`, whether it points into the crawled domain, and whether its `rel`
/// contains `nofollow`.
pub open spec fn anchor_link(x: ExtractV, href: Seq<char>, rel: Option<Seq<char>>, text: Seq<char>) -> Option<LinkV> {
    match resolved(href, base_for(x)) {
        Some(u) => Some(
            LinkV {
                href: u,
                anchor_text: if trim(text).len() == 0 {
                    None
                } else {
                    Some(trim(text))
                },
                rel,
                is_internal: internal(u, x.root_domain),
                is_nofollow: match rel {
                    Some(r) => lower_contains(r, "nofollow"@),
                    None => false,
                },
            },
        ),
        None => None,
    }
}

/// The state after an anchor text chunk: the text collects until the last
/// chunk of the text node, which completes the pending anchor (if any).
pub open spec fn after_anchor_text(x: ExtractV, chunk: Seq<char>, last: bool) -> ExtractV {
    let buf = x.anchor_buf + chunk;
    if !last {
        ExtractV { anchor_buf: buf, ..x }
    } else {
        match x.anchor {
            None => ExtractV { anchor_buf: buf, ..x },
            Some((href, rel)) => {
                let links = match anchor_link(x, href, rel, buf) {
                    Some(l) => x.links.push(l),
                    None => x.links,
                };
                ExtractV { anchor: None, anchor_buf: Seq::empty(), links, ..x }
            },
        }
    }
}

/// The image an `<img src>` yields: its source resolved against the base
/// (kept as written when it does not resolve).
pub open spec fn image_of(x: ExtractV, src: Seq<char>, alt: Option<Seq<char>>, has_srcset: bool) -> ImageV {
    ImageV {
        src: match resolved(src, base_for(x)) {
            Some(u) => u,
            None => src,
        },
        alt,
        has_srcset,
    }
}

/// The page extraction builds: the trimmed title (none when empty), the
/// collected fields, and the word count of the body text.
pub open spec fn page_of(x: ExtractV, p: ParsedPage) -> bool {
    &&& p.url@ == x.page_url
    &&& opt_view(p.title) == (if trim(x.title).len() == 0 {
        None
    } else {
        Some(trim(x.title))
    })
    &&& opt_view(p.meta_description) == x.meta_description
    &&& opt_view(p.meta_robots) == x.meta_robots
    &&& opt_view(p.canonical) == x.canonical
    &&& opt_view(p.viewport) == x.viewport
    &&& strs_view(p.h1s@) == x.headings[0]
    &&& strs_view(p.h2s@) == x.headings[1]
    &&& strs_view(p.h3s@) == x.headings[2]
    &&& strs_view(p.h4s@) == x.headings[3]
    &&& strs_view(p.h5s@) == x.headings[4]
    &&& strs_view(p.h6s@) == x.headings[5]
    &&& links_view(p.links@) == x.links
    &&& images_view(p.images@) == x.images
    &&& strs_view(p.scripts@) == x.scripts
    &&& strs_view(p.stylesheets@) == x.stylesheets
    &&& p.word_count == words(x.body_text).len() as u32
    &&& opt_view(p.base_url) == x.base_url
    &&& p.parse_ok
    &&& p.body_size is None
    &&& p.response_time_ms is None
    &&& p.render_blocking_scripts == 0
    &&& p.render_blocking_stylesheets == 0
    &&& p.body_text is None
}

/// Extraction state for one page.
pub struct PageExtractor {
    page_url: String,
    root_domain: String,
    title: Vec<char>,
    meta_description: Option<String>,
    meta_robots: Option<String>,
    viewport: Option<String>,
    canonical: Option<String>,
    base_url: Option<String>,
    h1s: Vec<String>,
    h2s: Vec<String>,
    h3s: Vec<String>,
    h4s: Vec<String>,
    h5s: Vec<String>,
    h6s: Vec<String>,
    heading_buf: Vec<char>,
    links: Vec<ExtractedLink>,
    anchor_buf: Vec<char>,
    anchor: Option<(String, Option<String>)>,
    images: Vec<ExtractedImage>,
    scripts: Vec<String>,
    stylesheets: Vec<String>,
    body_text: Vec<char>,
}

impl PageExtractor {
    pub closed spec fn view(self) -> ExtractV {
        ExtractV {
            page_url: self.page_url@,
            root_domain: self.root_domain@,
            title: self.title@,
            meta_description: opt_view(self.meta_description),
            meta_robots: opt_view(self.meta_robots),
            viewport: opt_view(self.viewport),
            canonical: opt_view(self.canonical),
            base_url: opt_view(self.base_url),
            headings: seq![
                strs_view(self.h1s@),
                strs_view(self.h2s@),
                strs_view(self.h3s@),
                strs_view(self.h4s@),
                strs_view(self.h5s@),
                strs_view(self.h6s@),
            ],
            heading_buf: self.heading_buf@,
            links: links_view(self.links@),
            anchor_buf: self.anchor_buf@,
            anchor: match self.anchor {
                Some((h, r)) => Some((h@, opt_view(r))),
                None => None,
            },
            images: images_view(self.images@),
            scripts: strs_view(self.scripts@),
            stylesheets: strs_view(self.stylesheets@),
            body_text: self.body_text@,
        }
    }

    /// Start extracting a page fetched from `page_url` for a crawl of
    /// `root_domain`.
    pub fn new(page_url: &str, root_domain: &str) -> (r: Self)
        ensures
            r.view() == extract_start(page_url@, root_domain@),
    {
        let r = PageExtractor {
            page_url: string_of(&chars_of(page_url)),
            root_domain: string_of(&chars_of(root_domain)),
            title: Vec::new(),
            meta_description: None,
            meta_robots: None,
            viewport: None,
            canonical: None,
            base_url: None,
            h1s: Vec::new(),
            h2s: Vec::new(),
            h3s: Vec::new(),
            h4s: Vec::new(),
            h5s: Vec::new(),
            h6s: Vec::new(),
            heading_buf: Vec::new(),
            links: Vec::new(),
            anchor_buf: Vec::new(),
            anchor: None,
            images: Vec::new(),
            scripts: Vec::new(),
            stylesheets: Vec::new(),
            body_text: Vec::new(),
        };
        assert(r.view().links =~= Seq::<LinkV>::empty());
        assert(r.view().images =~= Seq::<ImageV>::empty());
        assert(r.view().scripts =~= Seq::<Seq<char>>::empty());
        assert(r.view().stylesheets =~= Seq::<Seq<char>>::empty());
        assert(strs_view(r.h1s@) =~= Seq::<Seq<char>>::empty());
        r
    }

    /// The URL relative references are read against.
    fn base(&self) -> (r: &str)
        ensures
            r@ == base_for(self.view()),
    {
        match &self.base_url {
            Some(b) => b.as_str(),
            None => self.page_url.as_str(),
        }
    }

    /// A chunk of `<title>` text.
    pub fn on_title_text(&mut self, chunk: &str)
        ensures
            final(self).view() == (ExtractV { title: old(self).view().title + chunk@, ..old(self).view() }),
    {
        push_lit(&mut self.title, chunk);
    }

    /// A `<meta>` element with its `name` and `content` attributes.
    pub fn on_meta(&mut self, name: Option<&str>, content: Option<String>)
        ensures
            final(self).view() == after_meta(old(self).view(), opt_chars_ref(name), opt_view(content)),
    {
        match name {
            None => {},
            Some(n) => {
                proof {
                    reveal_strlit("robots");
                    reveal_strlit("viewport");
                }
                if str_eq_ignore_ascii_case(n, "description") {
                    self.meta_description = crate::text::clone_opt(&content);
                }
                let lower = to_lowercase(n);
                if str_eq(lower.as_str(), "robots") {
                    self.meta_robots = content;
                } else if str_eq(lower.as_str(), "viewport") {
                    self.viewport = content;
                }
            },
        }
    }

    /// A `<link>` element with its `rel` and `href` attributes.
    pub fn on_link(&mut self, rel: Option<&str>, href: Option<&str>)
        ensures
            final(self).view() == after_link(old(self).view(), opt_chars_ref(rel), opt_chars_ref(href)),
    {
        match rel {
            None => {},
            Some(r) => {
                let lower = to_lowercase(r);
                if str_eq(lower.as_str(), "canonical") {
                    if let Some(h) = href {
                        let c = resolve_url(h, self.base());
                        self.canonical = c;
                    }
                }
                if str_contains(lower.as_str(), "stylesheet") {
                    if let Some(h) = href {
                        if let Some(u) = resolve_url(h, self.base()) {
                            let ghost before = strs_view(self.stylesheets@);
                            let ghost uv = u@;
                            self.stylesheets.push(u);
                            assert(strs_view(self.stylesheets@) =~= before.push(uv));
                        }
                    }
                }
            },
        }
    }

    /// A `<base>` element with its `href` attribute.
    pub fn on_base(&mut self, href: Option<String>)
        ensures
            final(self).view() == (match href {
                Some(h) => ExtractV { base_url: Some(h@), ..old(self).view() },
                None => old(self).view(),
            }),
    {
        if let Some(h) = href {
            self.base_url = Some(h);
        }
    }

    /// The start of a heading element (of any level).
    pub fn on_heading_start(&mut self)
        ensures
            final(self).view() == (ExtractV { heading_buf: Seq::empty(), ..old(self).view() }),
    {
        self.heading_buf = Vec::new();
    }

    /// A chunk of heading text of level `level` (1 to 6); `last` marks the
    /// end of the text node.
    pub fn on_heading_text(&mut self, level: u8, chunk: &str, last: bool)
        requires
            1 <= level <= 6,
        ensures
            final(self).view() == after_heading_text(old(self).view(), level as int, chunk@, last),
    {
        push_lit(&mut self.heading_buf, chunk);
        if last {
            let t = trim_chars(&self.heading_buf);
            if t.len() > 0 {
                let s = string_of(&t);
                let ghost sv = s@;
                let ghost old_hs = old(self).view().headings;
                if level == 1 {
                    let ghost b = strs_view(self.h1s@);
                    self.h1s.push(s);
                    assert(strs_view(self.h1s@) =~= b.push(sv));
                } else if level == 2 {
                    let ghost b = strs_view(self.h2s@);
                    self.h2s.push(s);
                    assert(strs_view(self.h2s@) =~= b.push(sv));
                } else if level == 3 {
                    let ghost b = strs_view(self.h3s@);
                    self.h3s.push(s);
                    assert(strs_view(self.h3s@) =~= b.push(sv));
                } else if level == 4 {
                    let ghost b = strs_view(self.h4s@);
                    self.h4s.push(s);
                    assert(strs_view(self.h4s@) =~= b.push(sv));
                } else if level == 5 {
                    let ghost b = strs_view(self.h5s@);
                    self.h5s.push(s);
                    assert(strs_view(self.h5s@) =~= b.push(sv));
                } else {
                    let ghost b = strs_view(self.h6s@);
                    self.h6s.push(s);
                    assert(strs_view(self.h6s@) =~= b.push(sv));
                }
                self.heading_buf = Vec::new();
                assert(self.view().headings =~= old_hs.update(level - 1, old_hs[level - 1].push(sv)));
            } else {
                self.heading_buf = Vec::new();
            }
        }
    }

    /// The start of an `<a href>` element with its `href` and `rel`.
    pub fn on_anchor_start(&mut self, href: Option<String>, rel: Option<String>)
        ensures
            final(self).view() == (ExtractV {
                anchor_buf: Seq::empty(),
                anchor: Some(
                    (
                        match href {
                            Some(h) => h@,
                            None => Seq::empty(),
                        },
                        opt_view(rel),
                    ),
                ),
                ..old(self).view()
            }),
    {
        self.anchor_buf = Vec::new();
        let h = match href {
            Some(h) => h,
            None => String::new(),
        };
        self.anchor = Some((h, rel));
    }

    /// A chunk of anchor text; `last` marks the end of the text node.
    pub fn on_anchor_text(&mut self, chunk: &str, last: bool)
        ensures
            final(self).view() == after_anchor_text(old(self).view(), chunk@, last),
    {
        push_lit(&mut self.anchor_buf, chunk);
        if last {
            let pending = self.anchor.take();
            match pending {
                None => {},
                Some((href, rel)) => {
                    let text = trim_chars(&self.anchor_buf);
                    let base = self.base();
                    if let Some(u) = resolve_url(href.as_str(), base) {
                        let is_nofollow = match &rel {
                            Some(r) => {
                                let lower = to_lowercase(r.as_str());
                                str_contains(lower.as_str(), "nofollow")
                            },
                            None => false,
                        };
                        let internal_link = is_internal(u.as_str(), self.root_domain.as_str());
                        let anchor_text = if text.len() == 0 {
                            None
                        } else {
                            Some(string_of(&text))
                        };
                        let link = ExtractedLink {
                            href: u,
                            anchor_text,
                            rel,
                            is_internal: internal_link,
                            is_nofollow,
                        };
                        let ghost before = links_view(self.links@);
                        let ghost lv = link_view(link);
                        self.links.push(link);
                        assert(links_view(self.links@) =~= before.push(lv));
                    }
                    self.anchor_buf = Vec::new();
                },
            }
        }
    }

    /// An `<img>` element with its `src`, `alt` and whether it has a
    /// `srcset`.
    pub fn on_img(&mut self, src: Option<&str>, alt: Option<String>, has_srcset: bool)
        ensures
            final(self).view() == (match src {
                Some(s) => ExtractV {
                    images: old(self).view().images.push(
                        image_of(old(self).view(), s@, opt_view(alt), has_srcset),
                    ),
                    ..old(self).view()
                },
                None => old(self).view(),
            }),
    {
        if let Some(s) = src {
            let resolved_src = match resolve_url(s, self.base()) {
                Some(u) => u,
                None => string_of(&chars_of(s)),
            };
            let img = ExtractedImage { src: resolved_src, alt, has_srcset };
            let ghost before = images_view(self.images@);
            let ghost iv = image_view(img);
            self.images.push(img);
            assert(images_view(self.images@) =~= before.push(iv));
        }
    }

    /// A `<script src>` element.
    pub fn on_script(&mut self, src: Option<&str>)
        ensures
            final(self).view() == (match src {
                Some(s) => match resolved(s@, base_for(old(self).view())) {
                    Some(u) => ExtractV { scripts: old(self).view().scripts.push(u), ..old(self).view() },
                    None => old(self).view(),
                },
                None => old(self).view(),
            }),
    {
        if let Some(s) = src {
            if let Some(u) = resolve_url(s, self.base()) {
                let ghost before = strs_view(self.scripts@);
                let ghost uv = u@;
                self.scripts.push(u);
                assert(strs_view(self.scripts@) =~= before.push(uv));
            }
        }
    }

    /// A chunk of text inside `<body>`.
    pub fn on_body_text(&mut self, chunk: &str)
        ensures
            final(self).view() == (ExtractV { body_text: old(self).view().body_text + chunk@, ..old(self).view() }),
    {
        push_lit(&mut self.body_text, chunk);
    }

    /// The body text gathered so far.
    pub fn body_text(&self) -> (r: String)
        ensures
            r@ == self.view().body_text,
    {
        string_of(&self.body_text)
    }

    /// The page extracted.
    pub fn finish(self) -> (r: ParsedPage)
        ensures
            page_of(self.view(), r),
    {
        let t = trim_chars(&self.title);
        let title = if t.len() == 0 {
            None
        } else {
            Some(string_of(&t))
        };
        let body = string_of(&self.body_text);
        let wc = count_words(body.as_str());
        ParsedPage {
            url: self.page_url,
            title,
            meta_description: self.meta_description,
            meta_robots: self.meta_robots,
            canonical: self.canonical,
            viewport: self.viewport,
            h1s: self.h1s,
            h2s: self.h2s,
            h3s: self.h3s,
            h4s: self.h4s,
            h5s: self.h5s,
            h6s: self.h6s,
            links: self.links,
            images: self.images,
            scripts: self.scripts,
            stylesheets: self.stylesheets,
            word_count: wc,
            base_url: self.base_url,
            parse_ok: true,
            body_size: None,
            response_time_ms: None,
            render_blocking_scripts: 0,
            render_blocking_stylesheets: 0,
            body_text: None,
        }
    }
}

/// The characters of an optional text.
pub open spec fn opt_chars_ref(o: Option<&str>) -> Option<Seq<char>> {
    match o {
        Some(s) => Some(s@),
        None => None,
    }
}

/// A page that could not be parsed at all: only its URL.
pub fn unparsed_page(page_url: &str) -> (r: ParsedPage)
    ensures
        r.url@ == page_url@,
        r.is_blank(),
{
    let mut p = ParsedPage::default();
    p.url = string_of(&chars_of(page_url));
    p
}

} // verus!
