//! Stored rows of crawls, pages, links and issues, the commands of the
//! storage writer, and how the writer batches them.

use vstd::prelude::*;

verus! {

/// Row in the `crawls` table.
#[derive(Debug, Clone)]
pub struct CrawlRow {
    pub id: String,
    pub start_url: String,
    pub config_json: String,
    pub status: String,
    pub started_at: Option<String>,
    pub completed_at: Option<String>,
    pub urls_crawled: i64,
    pub urls_errored: i64,
}

/// Row in the `pages` table.
#[derive(Debug, Clone)]
pub struct PageRow {
    pub id: i64,
    pub crawl_id: String,
    pub url: String,
    pub depth: i32,
    pub status_code: Option<i32>,
    pub content_type: Option<String>,
    pub response_time_ms: Option<i32>,
    pub body_size: Option<i64>,
    pub title: Option<String>,
    pub meta_desc: Option<String>,
    pub h1: Option<String>,
    pub canonical: Option<String>,
    pub robots_directives: Option<String>,
    pub state: String,
    pub fetched_at: Option<String>,
    pub error_message: Option<String>,
}

/// Row in the `links` table.
#[derive(Debug, Clone)]
pub struct LinkRow {
    pub id: i64,
    pub crawl_id: String,
    pub source_page: i64,
    pub target_url: String,
    pub anchor_text: Option<String>,
    pub link_type: String,
    pub is_internal: bool,
    pub nofollow: bool,
}

/// Row in the `issues` table.
#[derive(Debug, Clone)]
pub struct IssueRow {
    pub id: i64,
    pub crawl_id: String,
    pub page_id: i64,
    pub rule_id: String,
    pub severity: String,
    pub category: String,
    pub message: String,
    pub detail_json: Option<String>,
}

/// Work for the storage writer.
#[derive(Debug)]
pub enum StorageCommand {
    /// Insert or update a page record (with its URL hash as dedup key).
    UpsertPage { page: Box<PageRow>, url_hash: Vec<u8> },
    /// Insert a page with its links and issues; the writer sets the page id
    /// on them once the page is stored.
    StorePage { page: Box<PageRow>, url_hash: Vec<u8>, links: Vec<LinkRow>, issues: Vec<IssueRow> },
    /// Insert link records.
    InsertLinks(Vec<LinkRow>),
    /// Insert issue records.
    InsertIssues(Vec<IssueRow>),
    /// Update crawl counters.
    UpdateCrawlStats { crawl_id: String, urls_crawled: i64, urls_errored: i64 },
    /// Mark the crawl as completed.
    CompleteCrawl { crawl_id: String, status: String },
    /// Flush the current batch and commit.
    Flush,
    /// Shut the writer down.
    Shutdown,
}

/// What the writer does after a message.
#[derive(Debug, Clone, Copy, PartialEq, Eq, Structural)]
pub enum WriterAction {
    /// Wait for more messages.
    Continue,
    /// Write the batch in one transaction, then continue.
    Flush,
    /// Write the batch, then stop.
    FlushAndStop,
}

/// Commands waiting to be written together.
pub struct WriterBatch {
    pub batch: Vec<StorageCommand>,
    pub batch_size: usize,
}

impl WriterBatch {
    pub fn new(batch_size: usize) -> (r: Self)
        ensures
            r.batch@.len() == 0,
            r.batch_size == batch_size,
    {
        WriterBatch { batch: Vec::new(), batch_size }
    }

    /// Take a message (`None` when the channel closed): shutdown and a
    /// closed channel flush and stop, a flush request flushes, any other
    /// command joins the batch, which is flushed once it is full.
    pub fn receive(&mut self, msg: Option<StorageCommand>) -> (r: WriterAction)
        ensures
            final(self).batch_size == old(self).batch_size,
            match msg {
                None => r == WriterAction::FlushAndStop && final(self).batch@ == old(self).batch@,
                Some(StorageCommand::Shutdown) => r == WriterAction::FlushAndStop
                    && final(self).batch@ == old(self).batch@,
                Some(StorageCommand::Flush) => r == WriterAction::Flush && final(self).batch@
                    == old(self).batch@,
                Some(c) => {
                    &&& final(self).batch@ == old(self).batch@.push(c)
                    &&& r == if final(self).batch@.len() >= old(self).batch_size {
                        WriterAction::Flush
                    } else {
                        WriterAction::Continue
                    }
                },
            },
    {
        match msg {
            None => WriterAction::FlushAndStop,
            Some(StorageCommand::Shutdown) => WriterAction::FlushAndStop,
            Some(StorageCommand::Flush) => WriterAction::Flush,
            Some(c) => {
                self.batch.push(c);
                if self.batch.len() >= self.batch_size {
                    WriterAction::Flush
                } else {
                    WriterAction::Continue
                }
            },
        }
    }

    /// Take the batch to write; nothing is written when it is empty.
    pub fn take_batch(&mut self) -> (r: Vec<StorageCommand>)
        ensures
            r@ == old(self).batch@,
            final(self).batch@.len() == 0,
            final(self).batch_size == old(self).batch_size,
    {
        let mut out: Vec<StorageCommand> = Vec::new();
        std::mem::swap(&mut out, &mut self.batch);
        out
    }
}

/// Links of a stored page, pointed at the page's id.
pub fn links_for_page(links: Vec<LinkRow>, page_id: i64) -> (r: Vec<LinkRow>)
    ensures
        r@.len() == links@.len(),
        forall|k: int|
            0 <= k < links@.len() ==> (#[trigger] r@[k]) == (LinkRow { source_page: page_id, ..links@[k] }),
{
    let mut out: Vec<LinkRow> = Vec::new();
    let mut rest = links;
    let ghost orig = rest@;
    let total: usize = rest.len();
    while out.len() < total
        invariant
            total == orig.len(),
            out@.len() + rest@.len() == total,
            rest@ == orig.skip(out@.len() as int),
            forall|k: int| 0 <= k < out@.len() ==> (#[trigger] out@[k]) == (LinkRow { source_page: page_id, ..orig[k] }),
        decreases total - out.len(),
    {
        let ghost r0 = rest@;
        let mut l = rest.remove(0);
        assert(rest@ =~= orig.skip(out@.len() + 1int));
        l.source_page = page_id;
        out.push(l);
    }
    out
}

/// Issues of a stored page, pointed at the page's id.
pub fn issues_for_page(issues: Vec<IssueRow>, page_id: i64) -> (r: Vec<IssueRow>)
    ensures
        r@.len() == issues@.len(),
        forall|k: int|
            0 <= k < issues@.len() ==> (#[trigger] r@[k]) == (IssueRow { page_id: page_id, ..issues@[k] }),
{
    let mut out: Vec<IssueRow> = Vec::new();
    let mut rest = issues;
    let ghost orig = rest@;
    let total: usize = rest.len();
    while out.len() < total
        invariant
            total == orig.len(),
            out@.len() + rest@.len() == total,
            rest@ == orig.skip(out@.len() as int),
            forall|k: int| 0 <= k < out@.len() ==> (#[trigger] out@[k]) == (IssueRow { page_id: page_id, ..orig[k] }),
        decreases total - out.len(),
    {
        let mut x = rest.remove(0);
        assert(rest@ =~= orig.skip(out@.len() + 1int));
        x.page_id = page_id;
        out.push(x);
    }
    out
}

} // verus!
