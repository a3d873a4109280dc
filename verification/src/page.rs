//! Crawl data model: fetch results and the SEO-relevant data extracted
//! from a page.

use vstd::prelude::*;

verus! {

/// Result of fetching a single URL.
#[derive(Debug, Clone)]
pub struct FetchResult {
    pub url: String,
    pub final_url: String,
    pub status_code: u16,
    pub headers: Vec<(String, String)>,
    pub body_bytes: Vec<u8>,
    pub body_size: usize,
    pub body_hash: Option<[u8; 32]>,
    pub content_type: Option<String>,
    pub response_time_ms: u32,
    pub redirect_chain: Vec<RedirectHop>,
}

/// Single hop in a redirect chain.
#[derive(Debug, Clone)]
pub struct RedirectHop {
    pub url: String,
    pub status_code: u16,
}

/// A link extracted from HTML.
#[derive(Debug, Clone)]
pub struct ExtractedLink {
    pub href: String,
    pub anchor_text: Option<String>,
    pub rel: Option<String>,
    pub is_internal: bool,
    pub is_nofollow: bool,
}

/// An image extracted from HTML.
#[derive(Debug, Clone)]
pub struct ExtractedImage {
    pub src: String,
    pub alt: Option<String>,
    pub has_srcset: bool,
}

/// Fully parsed page with all extracted SEO-relevant data.
#[derive(Debug, Clone)]
pub struct ParsedPage {
    pub url: String,
    pub title: Option<String>,
    pub meta_description: Option<String>,
    pub meta_robots: Option<String>,
    pub canonical: Option<String>,
    pub viewport: Option<String>,
    pub h1s: Vec<String>,
    pub h2s: Vec<String>,
    pub h3s: Vec<String>,
    pub h4s: Vec<String>,
    pub h5s: Vec<String>,
    pub h6s: Vec<String>,
    pub links: Vec<ExtractedLink>,
    pub images: Vec<ExtractedImage>,
    pub scripts: Vec<String>,
    pub stylesheets: Vec<String>,
    pub word_count: u32,
    pub base_url: Option<String>,
    /// Whether the parse completed successfully.
    pub parse_ok: bool,
    /// Response body size in bytes, when known.
    pub body_size: Option<usize>,
    /// Response time in milliseconds, when known.
    pub response_time_ms: Option<u32>,
    /// Scripts in the head without `async` or `defer`.
    pub render_blocking_scripts: u32,
    /// Stylesheets in the head without a media query.
    pub render_blocking_stylesheets: u32,
    /// Visible body text, when retained.
    pub body_text: Option<String>,
}

impl ParsedPage {
    /// A page at `url` with nothing extracted from it.
    pub open spec fn is_blank(self) -> bool {
        &&& self.title is None
        &&& self.meta_description is None
        &&& self.meta_robots is None
        &&& self.canonical is None
        &&& self.viewport is None
        &&& self.h1s@.len() == 0
        &&& self.h2s@.len() == 0
        &&& self.h3s@.len() == 0
        &&& self.h4s@.len() == 0
        &&& self.h5s@.len() == 0
        &&& self.h6s@.len() == 0
        &&& self.links@.len() == 0
        &&& self.images@.len() == 0
        &&& self.scripts@.len() == 0
        &&& self.stylesheets@.len() == 0
        &&& self.word_count == 0
        &&& self.base_url is None
        &&& !self.parse_ok
        &&& self.body_size is None
        &&& self.response_time_ms is None
        &&& self.render_blocking_scripts == 0
        &&& self.render_blocking_stylesheets == 0
        &&& self.body_text is None
    }
}

impl Default for ParsedPage {
    fn default() -> (r: Self)
        ensures
            r.url@ == Seq::<char>::empty(),
            r.is_blank(),
    {
        ParsedPage {
            url: String::new(),
            title: None,
            meta_description: None,
            meta_robots: None,
            canonical: None,
            viewport: None,
            h1s: Vec::new(),
            h2s: Vec::new(),
            h3s: Vec::new(),
            h4s: Vec::new(),
            h5s: Vec::new(),
            h6s: Vec::new(),
            links: Vec::new(),
            images: Vec::new(),
            scripts: Vec::new(),
            stylesheets: Vec::new(),
            word_count: 0,
            base_url: None,
            parse_ok: false,
            body_size: None,
            response_time_ms: None,
            render_blocking_scripts: 0,
            render_blocking_stylesheets: 0,
            body_text: None,
        }
    }
}

} // verus!
