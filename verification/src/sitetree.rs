//! The site tree: crawled pages grouped by host, each URL path split into
//! segments forming a nested tree, with per-node page counts and children
//! in label order.

use vstd::prelude::*;
use crate::order::{seq_less, str_less, lemma_seq_less_transitive};
use crate::text::{chars_of, string_of, str_eq, push_lit, opt_view};
use crate::urls::{parse_url, url_parse_result};

verus! {

/// A node of the site tree.
#[derive(Debug)]
pub struct SiteTreeNode {
    /// Path segment (or the host, for a root).
    pub label: String,
    /// Full URL when this node is a crawled page.
    pub url: Option<String>,
    /// Page id, for navigating to the page's detail.
    pub page_id: Option<i64>,
    /// Status code of the page, when the node is a crawled page.
    pub status_code: Option<i32>,
    /// Pages in this subtree (itself included).
    pub page_count: u32,
    /// Child nodes.
    pub children: Vec<SiteTreeNode>,
}

/// A crawled page as the site tree reads it.
#[derive(Debug, Clone)]
pub struct PageTreeEntry {
    pub page_id: i64,
    pub url: String,
    pub status_code: Option<i32>,
}

pub struct TreeV {
    pub label: Seq<char>,
    pub url: Option<Seq<char>>,
    pub page_id: Option<i64>,
    pub status_code: Option<i32>,
    pub page_count: u32,
    pub children: Seq<TreeV>,
}

pub open spec fn leaf(label: Seq<char>) -> TreeV {
    TreeV { label, url: None, page_id: None, status_code: None, page_count: 0, children: Seq::empty() }
}

pub open spec fn tree_view(n: SiteTreeNode) -> TreeV
    decreases n,
{
    TreeV {
        label: n.label@,
        url: opt_view(n.url),
        page_id: n.page_id,
        status_code: n.status_code,
        page_count: n.page_count,
        children: Seq::new(
            n.children@.len(),
            |i: int|
                if 0 <= i < n.children@.len() {
                    tree_view(n.children@[i])
                } else {
                    leaf(Seq::empty())
                },
        ),
    }
}

pub open spec fn forest_view(f: Seq<SiteTreeNode>) -> Seq<TreeV> {
    Seq::new(f.len(), |i: int| tree_view(f[i]))
}

pub proof fn lemma_children_view(n: SiteTreeNode)
    ensures
        tree_view(n).children == forest_view(n.children@),
{
    assert(tree_view(n).children =~= forest_view(n.children@));
}

// ---------------------------------------------------------------------------
// Page counts
// ---------------------------------------------------------------------------

/// Pages in a tree: the node itself when it is a page, plus its
/// descendants.
pub open spec fn pages_in(t: TreeV) -> nat
    decreases t,
{
    (if t.page_id is Some { 1nat } else { 0nat }) + forest_pages(t.children)
}

/// Pages in a list of trees.
pub open spec fn forest_pages(f: Seq<TreeV>) -> nat
    decreases f,
{
    if f.len() == 0 {
        0
    } else {
        forest_pages(f.subrange(0, f.len() - 1)) + pages_in(f[f.len() - 1])
    }
}

/// The tree with every node's page count set.
pub open spec fn with_counts(t: TreeV) -> TreeV
    decreases t,
{
    TreeV {
        page_count: pages_in(t) as u32,
        children: Seq::new(
            t.children.len(),
            |i: int|
                if 0 <= i < t.children.len() {
                    with_counts(t.children[i])
                } else {
                    leaf(Seq::empty())
                },
        ),
        ..t
    }
}

/// Recursively compute the page count of every node; returns the root's.
pub fn compute_page_counts(node: &mut SiteTreeNode) -> (r: u32)
    requires
        pages_in(tree_view(*old(node))) <= u32::MAX,
    ensures
        tree_view(*final(node)) == with_counts(tree_view(*old(node))),
        r == pages_in(tree_view(*old(node))),
    decreases *old(node),
{
    let ghost t0 = tree_view(*node);
    let ghost orig = node.children@;
    proof {
        lemma_children_view(*node);
    }
    let mut kids: Vec<SiteTreeNode> = Vec::new();
    std::mem::swap(&mut kids, &mut node.children);
    let own: u32 = if node.page_id.is_some() { 1 } else { 0 };
    let mut count: u32 = own;
    let mut rev: Vec<SiteTreeNode> = Vec::new();
    assert(forest_view(orig).subrange(0, orig.len() as int) =~= forest_view(orig));
    while kids.len() > 0
        invariant
            kids@ == orig.subrange(0, kids@.len() as int),
            kids@.len() + rev@.len() == orig.len(),
            forest_pages(forest_view(orig).subrange(0, kids@.len() as int)) + (count - own) == forest_pages(forest_view(orig)),
            own as nat + forest_pages(forest_view(orig)) == pages_in(t0),
            pages_in(t0) <= u32::MAX,
            own <= count,
            t0.children == forest_view(orig),
            orig == old(node).children@,
            forall|k: int| 0 <= k < rev@.len() ==> tree_view(#[trigger] rev@[k]) == with_counts(tree_view(orig[orig.len() - 1 - k])),
        decreases kids.len(),
    {
        let m = kids.len() - 1;
        let mut c = kids.pop().unwrap();
        proof {
            assert(c == old(node).children@[m as int]);
            assert(decreases_to!(*old(node) => old(node).children));
            assert(decreases_to!(old(node).children => old(node).children@));
            assert(decreases_to!(old(node).children@ => old(node).children@[m as int]));
        }
        let ghost fv = forest_view(orig);
        assert(fv.subrange(0, m + 1).subrange(0, m as int) =~= fv.subrange(0, m as int));
        assert(fv.subrange(0, m + 1)[m as int] == tree_view(c));
        assert(kids@ =~= orig.subrange(0, m as int));
        let k = compute_page_counts(&mut c);
        count = count + k;
        rev.push(c);
    }
    let mut out: Vec<SiteTreeNode> = Vec::new();
    while rev.len() > 0
        invariant
            out@.len() + rev@.len() == orig.len(),
            forall|k: int| 0 <= k < rev@.len() ==> tree_view(#[trigger] rev@[k]) == with_counts(tree_view(orig[orig.len() - 1 - k])),
            forall|k: int| 0 <= k < out@.len() ==> tree_view(#[trigger] out@[k]) == with_counts(tree_view(orig[k])),
        decreases rev.len(),
    {
        let c = rev.pop().unwrap();
        out.push(c);
    }
    node.children = out;
    node.page_count = count;
    proof {
        assert(count == pages_in(t0));
        let t1 = tree_view(*node);
        let w = with_counts(t0);
        assert(t1.children =~= w.children);
    }
    count
}

// ---------------------------------------------------------------------------
// Ordering children
// ---------------------------------------------------------------------------

/// Where a tree goes among trees sorted by label: after every tree whose
/// label it does not precede.
pub open spec fn label_pos(s: Seq<TreeV>, x: TreeV) -> nat
    decreases s.len(),
{
    if s.len() == 0 {
        0
    } else if seq_less(x.label, s[0].label) {
        0
    } else {
        1 + label_pos(s.drop_first(), x)
    }
}

/// The trees ordered by label (a stable sort).
pub open spec fn sort_forest(f: Seq<TreeV>) -> Seq<TreeV>
    decreases f.len(),
{
    if f.len() == 0 {
        Seq::empty()
    } else {
        let s = sort_forest(f.drop_last());
        s.insert(label_pos(s, f.last()) as int, f.last())
    }
}

/// The tree with every node's children ordered by label.
pub open spec fn sorted_tree(t: TreeV) -> TreeV
    decreases t, 1nat,
{
    TreeV { children: sort_forest(sorted_children(t)), ..t }
}

/// The children of a tree, each with its own children ordered, in their
/// original order.
pub open spec fn sorted_children(t: TreeV) -> Seq<TreeV>
    decreases t, 0nat,
{
    Seq::new(
        t.children.len(),
        |i: int|
            if 0 <= i < t.children.len() {
                sorted_tree(t.children[i])
            } else {
                leaf(Seq::empty())
            },
    )
}

/// Insert a node among nodes sorted by label, after those it does not
/// precede.
fn insert_by_label(out: &mut Vec<SiteTreeNode>, x: SiteTreeNode)
    ensures
        forest_view(final(out)@) == forest_view(old(out)@).insert(
            label_pos(forest_view(old(out)@), tree_view(x)) as int,
            tree_view(x),
        ),
{
    let ghost before = forest_view(out@);
    let ghost xv = tree_view(x);
    let mut j: usize = 0;
    assert(before.skip(0) =~= before);
    while j < out.len() && !str_less(x.label.as_str(), out[j].label.as_str())
        invariant
            j <= out@.len(),
            forest_view(out@) == before,
            xv == tree_view(x),
            label_pos(before, xv) == j + label_pos(before.skip(j as int), xv),
        decreases out.len() - j,
    {
        assert(before.skip(j as int).drop_first() =~= before.skip(j + 1));
        assert(before.skip(j as int)[0] == tree_view(out@[j as int]));
        assert(label_pos(before.skip(j as int), xv) == 1 + label_pos(before.skip(j + 1), xv));
        j = j + 1;
    }
    proof {
        if j < out@.len() {
            assert(before.skip(j as int)[0] == tree_view(out@[j as int]));
        }
    }
    let ghost o0 = out@;
    out.insert(j, x);
    assert(forest_view(out@) =~= before.insert(j as int, xv));
}

/// Recursively sort every node's children by label.
pub fn sort_tree(node: &mut SiteTreeNode)
    ensures
        tree_view(*final(node)) == sorted_tree(tree_view(*old(node))),
    decreases *old(node),
{
    let ghost t0 = tree_view(*node);
    let ghost orig = node.children@;
    let ghost sorted_kids = sorted_children(t0);
    proof {
        lemma_children_view(*node);
    }
    let mut kids: Vec<SiteTreeNode> = Vec::new();
    std::mem::swap(&mut kids, &mut node.children);
    let mut rev: Vec<SiteTreeNode> = Vec::new();
    while kids.len() > 0
        invariant
            kids@ == orig.subrange(0, kids@.len() as int),
            kids@.len() + rev@.len() == orig.len(),
            orig == old(node).children@,
            forall|k: int| 0 <= k < rev@.len() ==> tree_view(#[trigger] rev@[k]) == sorted_tree(tree_view(orig[orig.len() - 1 - k])),
        decreases kids.len(),
    {
        let m = kids.len() - 1;
        let mut c = kids.pop().unwrap();
        proof {
            assert(c == old(node).children@[m as int]);
            assert(decreases_to!(*old(node) => old(node).children));
            assert(decreases_to!(old(node).children => old(node).children@));
            assert(decreases_to!(old(node).children@ => old(node).children@[m as int]));
        }
        assert(kids@ =~= orig.subrange(0, m as int));
        sort_tree(&mut c);
        rev.push(c);
    }
    let mut out: Vec<SiteTreeNode> = Vec::new();
    let ghost n = orig.len();
    assert(sort_forest(sorted_kids.take(0)) =~= forest_view(out@));
    while rev.len() > 0
        invariant
            n == orig.len(),
            n == sorted_kids.len(),
            t0.children == forest_view(orig),
            forall|i: int| 0 <= i < n ==> #[trigger] sorted_kids[i] == sorted_tree(t0.children[i]),
            rev@.len() <= n,
            forall|k: int| 0 <= k < rev@.len() ==> tree_view(#[trigger] rev@[k]) == sorted_tree(tree_view(orig[n - 1 - k])),
            forest_view(out@) == sort_forest(sorted_kids.take(n - rev@.len())),
        decreases rev.len(),
    {
        let ghost done = (n - rev@.len()) as int;
        let c = rev.pop().unwrap();
        assert(tree_view(c) == sorted_kids[done]);
        assert(sorted_kids.take(done + 1).drop_last() =~= sorted_kids.take(done));
        insert_by_label(&mut out, c);
    }
    assert(sorted_kids.take(n as int) =~= sorted_kids);
    node.children = out;
    proof {
        let t1 = tree_view(*node);
        lemma_children_view(*node);
        assert(sorted_tree(t0).children == sort_forest(sorted_kids));
        assert(t1.children =~= sorted_tree(t0).children);
    }
}

// ---------------------------------------------------------------------------
// Building the tree
// ---------------------------------------------------------------------------

/// Reading a path left to right: the completed segments and the segment
/// being read.
pub open spec fn seg_scan(s: Seq<char>) -> (Seq<Seq<char>>, Seq<char>)
    decreases s.len(),
{
    if s.len() == 0 {
        (Seq::empty(), Seq::empty())
    } else {
        let (done, cur) = seg_scan(s.drop_last());
        if s.last() == '/' {
            if cur.len() > 0 {
                (done.push(cur), Seq::empty())
            } else {
                (done, Seq::empty())
            }
        } else {
            (done, cur.push(s.last()))
        }
    }
}

/// The non-empty `/`-separated segments of a path.
pub open spec fn path_segments(s: Seq<char>) -> Seq<Seq<char>> {
    let (done, cur) = seg_scan(s);
    if cur.len() > 0 {
        done.push(cur)
    } else {
        done
    }
}

/// Split a path into its non-empty segments.
pub fn split_path(path: &str) -> (r: Vec<String>)
    ensures
        r@.map_values(|s: String| s@) == path_segments(path@),
{
    let cs = chars_of(path);
    let mut done: Vec<String> = Vec::new();
    let mut cur: Vec<char> = Vec::new();
    let mut i: usize = 0;
    while i < cs.len()
        invariant
            i <= cs@.len(),
            cs@ == path@,
            (done@.map_values(|s: String| s@), cur@) == seg_scan(cs@.take(i as int)),
        decreases cs.len() - i,
    {
        let c = cs[i];
        assert(cs@.take(i + 1).drop_last() =~= cs@.take(i as int));
        assert(cs@.take(i + 1).last() == c);
        if c == '/' {
            if cur.len() > 0 {
                let ghost d0 = done@.map_values(|s: String| s@);
                let s = string_of(&cur);
                let ghost sv = s@;
                done.push(s);
                assert(done@.map_values(|s: String| s@) =~= d0.push(sv));
                cur = Vec::new();
            }
        } else {
            cur.push(c);
        }
        i = i + 1;
    }
    assert(cs@.take(cs@.len() as int) =~= cs@);
    if cur.len() > 0 {
        let ghost d0 = done@.map_values(|s: String| s@);
        let s = string_of(&cur);
        let ghost sv = s@;
        done.push(s);
        assert(done@.map_values(|s: String| s@) =~= d0.push(sv));
    }
    done
}

/// The host a page is filed under: its URL's host, or `unknown`.
pub open spec fn page_host(url: Seq<char>) -> Seq<char> {
    match url_parse_result(url) {
        Ok(u) => match u.host {
            Some(h) => h,
            None => "unknown"@,
        },
        Err(_) => "unknown"@,
    }
}

/// The path of a page's URL, or `/` when it does not parse.
pub open spec fn page_path(url: Seq<char>) -> Seq<char> {
    match url_parse_result(url) {
        Ok(u) => u.path,
        Err(_) => "/"@,
    }
}

/// What the tree records of a page.
pub struct PageV {
    pub page_id: i64,
    pub url: Seq<char>,
    pub status_code: Option<i32>,
}

pub open spec fn page_view(p: PageTreeEntry) -> PageV {
    PageV { page_id: p.page_id, url: p.url@, status_code: p.status_code }
}

/// The tree marked as the page.
pub open spec fn mark_page(t: TreeV, p: PageV) -> TreeV {
    TreeV { url: Some(p.url), page_id: Some(p.page_id), status_code: p.status_code, ..t }
}

/// Position of the first tree labelled `label`, or the length when none
/// is.
pub open spec fn find_label(f: Seq<TreeV>, label: Seq<char>) -> nat
    decreases f.len(),
{
    if f.len() == 0 {
        0
    } else if f[0].label == label {
        0
    } else {
        1 + find_label(f.drop_first(), label)
    }
}

/// Add a page's path below a list of trees: walk (or create) one node per
/// segment and mark the last one as the page.
pub open spec fn forest_insert(f: Seq<TreeV>, segs: Seq<Seq<char>>, p: PageV) -> Seq<TreeV>
    decreases segs.len(),
{
    if segs.len() == 0 {
        f
    } else {
        let idx = find_label(f, segs[0]);
        let node = if idx < f.len() {
            f[idx as int]
        } else {
            leaf(segs[0])
        };
        let node2 = if segs.len() == 1 {
            mark_page(node, p)
        } else {
            node
        };
        let node3 = TreeV { children: forest_insert(node2.children, segs.drop_first(), p), ..node2 };
        if idx < f.len() {
            f.update(idx as int, node3)
        } else {
            f.push(node3)
        }
    }
}

/// Add a page below a host's root: the root path marks the root itself.
pub open spec fn add_page(root: TreeV, p: PageV) -> TreeV {
    let segs = path_segments(page_path(p.url));
    if segs.len() == 0 {
        mark_page(root, p)
    } else {
        TreeV { children: forest_insert(root.children, segs, p), ..root }
    }
}

/// The root of a host before counting and sorting: its pages added in
/// order.
pub open spec fn host_tree(host: Seq<char>, pages: Seq<PageV>) -> TreeV
    decreases pages.len(),
{
    if pages.len() == 0 {
        leaf(host)
    } else {
        let t = host_tree(host, pages.drop_last());
        if page_host(pages.last().url) == host {
            add_page(t, pages.last())
        } else {
            t
        }
    }
}

/// The distinct hosts of the pages, in order of first appearance.
pub open spec fn hosts_of(pages: Seq<PageV>) -> Seq<Seq<char>>
    decreases pages.len(),
{
    if pages.len() == 0 {
        Seq::empty()
    } else {
        let hs = hosts_of(pages.drop_last());
        let h = page_host(pages.last().url);
        if hs.contains(h) {
            hs
        } else {
            hs.push(h)
        }
    }
}

/// The site forest: one root per host, each with page counts and children
/// in label order, and the roots in label order.
pub open spec fn site_forest(pages: Seq<PageV>) -> Seq<TreeV> {
    let hs = hosts_of(pages);
    sort_forest(Seq::new(hs.len(), |i: int| sorted_tree(with_counts(host_tree(hs[i], pages)))))
}

// ---------------------------------------------------------------------------
// Page-count bounds
// ---------------------------------------------------------------------------

/// Replacing one tree of a list changes its page total by the difference.
pub proof fn lemma_forest_pages_update(f: Seq<TreeV>, i: int, x: TreeV)
    requires
        0 <= i < f.len(),
    ensures
        forest_pages(f.update(i, x)) + pages_in(f[i]) == forest_pages(f) + pages_in(x),
    decreases f.len(),
{
    let g = f.update(i, x);
    let n = f.len();
    if i == n - 1 {
        assert(g.subrange(0, n - 1) =~= f.subrange(0, n - 1));
    } else {
        lemma_forest_pages_update(f.subrange(0, n - 1), i, x);
        assert(g.subrange(0, n - 1) =~= f.subrange(0, n - 1).update(i, x));
    }
}

/// Adding a page's path adds at most one page.
pub proof fn lemma_forest_insert_bound(f: Seq<TreeV>, segs: Seq<Seq<char>>, p: PageV)
    ensures
        forest_pages(forest_insert(f, segs, p)) <= forest_pages(f) + 1,
    decreases segs.len(),
{
    if segs.len() > 0 {
        let idx = find_label(f, segs[0]);
        let node = if idx < f.len() {
            f[idx as int]
        } else {
            leaf(segs[0])
        };
        let node2 = if segs.len() == 1 {
            mark_page(node, p)
        } else {
            node
        };
        let kids = forest_insert(node2.children, segs.drop_first(), p);
        let node3 = TreeV { children: kids, ..node2 };
        lemma_forest_insert_bound(node2.children, segs.drop_first(), p);
        if segs.len() == 1 {
            assert(kids == node2.children);
        }
        assert(pages_in(node3) <= pages_in(node) + 1);
        lemma_find_label_bound(f, segs[0]);
        if idx < f.len() {
            lemma_forest_pages_update(f, idx as int, node3);
        } else {
            let g = f.push(node3);
            assert(g.subrange(0, g.len() - 1) =~= f);
            assert(forest_pages(leaf(segs[0]).children) == 0);
        }
    }
}

pub proof fn lemma_find_label_bound(f: Seq<TreeV>, label: Seq<char>)
    ensures
        find_label(f, label) <= f.len(),
        find_label(f, label) < f.len() ==> f[find_label(f, label) as int].label == label,
    decreases f.len(),
{
    if f.len() > 0 && f[0].label != label {
        lemma_find_label_bound(f.drop_first(), label);
    }
}

/// A host's tree holds at most one page per page listed.
pub proof fn lemma_host_tree_bound(host: Seq<char>, pages: Seq<PageV>)
    ensures
        pages_in(host_tree(host, pages)) <= pages.len(),
    decreases pages.len(),
{
    if pages.len() > 0 {
        let t = host_tree(host, pages.drop_last());
        lemma_host_tree_bound(host, pages.drop_last());
        let p = pages.last();
        if page_host(p.url) == host {
            let segs = path_segments(page_path(p.url));
            if segs.len() > 0 {
                lemma_forest_insert_bound(t.children, segs, p);
            }
        }
    }
}

// ---------------------------------------------------------------------------
// Building, executable
// ---------------------------------------------------------------------------

/// A node with just a label.
fn leaf_node(label: String) -> (r: SiteTreeNode)
    ensures
        tree_view(r) == leaf(label@),
{
    let r = SiteTreeNode { label, url: None, page_id: None, status_code: None, page_count: 0, children: Vec::new() };
    assert(tree_view(r).children =~= Seq::<TreeV>::empty());
    r
}

/// Position of the first node labelled `label`, or the length.
fn find_label_exec(f: &Vec<SiteTreeNode>, label: &str) -> (r: usize)
    ensures
        r == find_label(forest_view(f@), label@),
{
    let ghost fv = forest_view(f@);
    let mut j: usize = 0;
    assert(fv.skip(0) =~= fv);
    while j < f.len()
        invariant
            j <= f@.len(),
            fv == forest_view(f@),
            find_label(fv, label@) == j + find_label(fv.skip(j as int), label@),
        decreases f.len() - j,
    {
        assert(fv.skip(j as int)[0] == tree_view(f@[j as int]));
        if str_eq(f[j].label.as_str(), label) {
            return j;
        }
        assert(fv.skip(j as int).drop_first() =~= fv.skip(j + 1));
        j = j + 1;
    }
    j
}

/// Mark a node as the page.
fn mark_node(node: &mut SiteTreeNode, p: &PageTreeEntry)
    ensures
        tree_view(*final(node)) == mark_page(tree_view(*old(node)), page_view(*p)),
{
    node.url = Some(p.url.clone());
    node.page_id = Some(p.page_id);
    node.status_code = p.status_code;
    proof {
        assert(tree_view(*node).children =~= tree_view(*old(node)).children);
    }
}

pub open spec fn strings_view(s: Seq<String>) -> Seq<Seq<char>> {
    s.map_values(|x: String| x@)
}

/// Add the segments from `k` on below a list of nodes.
fn forest_insert_exec(f: &mut Vec<SiteTreeNode>, segs: &Vec<String>, k: usize, p: &PageTreeEntry)
    requires
        k <= segs@.len(),
    ensures
        forest_view(final(f)@) == forest_insert(forest_view(old(f)@), strings_view(segs@).skip(k as int), page_view(*p)),
    decreases segs@.len() - k,
{
    let ghost sv = strings_view(segs@).skip(k as int);
    let ghost f0 = forest_view(f@);
    if k == segs.len() {
        assert(sv.len() == 0);
        return;
    }
    assert(sv[0] == segs@[k as int]@);
    assert(sv.drop_first() =~= strings_view(segs@).skip(k + 1));
    let idx = find_label_exec(f, segs[k].as_str());
    proof {
        lemma_find_label_bound(f0, sv[0]);
    }
    let found = idx < f.len();
    let mut node = if found {
        f.remove(idx)
    } else {
        leaf_node(segs[k].clone())
    };
    let ghost g = f@;
    if k + 1 == segs.len() {
        mark_node(&mut node, p);
    }
    let ghost n2 = tree_view(node);
    proof {
        lemma_children_view(node);
    }
    forest_insert_exec(&mut node.children, segs, k + 1, p);
    proof {
        lemma_children_view(node);
        assert(tree_view(node) == (TreeV { children: forest_insert(n2.children, sv.drop_first(), page_view(*p)), ..n2 })) by {
            assert(tree_view(node).children =~= forest_insert(n2.children, sv.drop_first(), page_view(*p)));
        }
    }
    let ghost n3 = tree_view(node);
    if found {
        f.insert(idx, node);
        assert(f@ =~= old(f)@.update(idx as int, f@[idx as int]));
        assert(forest_view(f@) =~= f0.update(idx as int, n3));
    } else {
        f.push(node);
        assert(forest_view(f@) =~= f0.push(n3));
    }
}

/// The host a page is filed under.
fn host_of(url: &str) -> (r: String)
    ensures
        r@ == page_host(url@),
{
    match parse_url(url) {
        Ok(u) => match u.host_str() {
            Some(h) => string_of(&chars_of(h)),
            None => string_of(&chars_of("unknown")),
        },
        Err(_) => string_of(&chars_of("unknown")),
    }
}

/// The path of a page's URL.
fn path_of(url: &str) -> (r: String)
    ensures
        r@ == page_path(url@),
{
    match parse_url(url) {
        Ok(u) => string_of(&chars_of(u.path())),
        Err(_) => string_of(&chars_of("/")),
    }
}

/// Add a page below a host's root.
fn add_page_exec(root: &mut SiteTreeNode, p: &PageTreeEntry)
    ensures
        tree_view(*final(root)) == add_page(tree_view(*old(root)), page_view(*p)),
{
    let path = path_of(p.url.as_str());
    let segs = split_path(path.as_str());
    if segs.len() == 0 {
        mark_node(root, p);
    } else {
        let ghost t0 = tree_view(*root);
        proof {
            lemma_children_view(*root);
            assert(strings_view(segs@).skip(0) =~= strings_view(segs@));
        }
        forest_insert_exec(&mut root.children, &segs, 0, p);
        proof {
            lemma_children_view(*root);
            assert(tree_view(*root).children =~= add_page(t0, page_view(*p)).children);
        }
    }
}

pub open spec fn pages_view(s: Seq<PageTreeEntry>) -> Seq<PageV> {
    s.map_values(|p: PageTreeEntry| page_view(p))
}

/// The root of one host.
fn build_host_tree(host: &String, pages: &Vec<PageTreeEntry>) -> (r: SiteTreeNode)
    ensures
        tree_view(r) == host_tree(host@, pages_view(pages@)),
{
    let mut root = leaf_node(host.clone());
    let ghost pv = pages_view(pages@);
    let mut j: usize = 0;
    while j < pages.len()
        invariant
            j <= pages@.len(),
            pv == pages_view(pages@),
            tree_view(root) == host_tree(host@, pv.take(j as int)),
        decreases pages.len() - j,
    {
        assert(pv.take(j + 1).drop_last() =~= pv.take(j as int));
        assert(pv.take(j + 1).last() == page_view(pages@[j as int]));
        let h = host_of(pages[j].url.as_str());
        if str_eq(h.as_str(), host.as_str()) {
            add_page_exec(&mut root, &pages[j]);
        }
        j = j + 1;
    }
    assert(pv.take(pages@.len() as int) =~= pv);
    root
}

/// Build the site forest from flat page data: pages grouped by host, each
/// URL path split into segments forming a nested tree; every host is a
/// root; counts are computed and children (and roots) ordered by label.
pub fn build_site_tree(pages: &Vec<PageTreeEntry>) -> (r: Vec<SiteTreeNode>)
    requires
        pages@.len() <= u32::MAX,
    ensures
        forest_view(r@) == site_forest(pages_view(pages@)),
{
    let ghost pv = pages_view(pages@);
    // Distinct hosts in order of first appearance.
    let mut hosts: Vec<String> = Vec::new();
    let mut j: usize = 0;
    while j < pages.len()
        invariant
            j <= pages@.len(),
            pv == pages_view(pages@),
            strings_view(hosts@) == hosts_of(pv.take(j as int)),
        decreases pages.len() - j,
    {
        assert(pv.take(j + 1).drop_last() =~= pv.take(j as int));
        assert(pv.take(j + 1).last() == page_view(pages@[j as int]));
        let h = host_of(pages[j].url.as_str());
        let mut seen = false;
        let mut q: usize = 0;
        while q < hosts.len()
            invariant
                q <= hosts@.len(),
                !seen ==> forall|m: int| 0 <= m < q ==> (#[trigger] hosts@[m])@ != h@,
                seen ==> strings_view(hosts@).contains(h@),
            decreases hosts.len() - q,
        {
            if str_eq(hosts[q].as_str(), h.as_str()) {
                seen = true;
                assert(strings_view(hosts@)[q as int] == h@);
            }
            q = q + 1;
        }
        proof {
            if !seen {
                assert forall|m: int| 0 <= m < strings_view(hosts@).len() implies strings_view(hosts@)[m] != h@ by {
                    assert(strings_view(hosts@)[m] == hosts@[m]@);
                }
            }
        }
        if !seen {
            let ghost hv = h@;
            let ghost before = strings_view(hosts@);
            hosts.push(h);
            assert(strings_view(hosts@) =~= before.push(hv));
        }
        j = j + 1;
    }
    assert(pv.take(pages@.len() as int) =~= pv);
    let ghost hs = hosts_of(pv);
    let ghost roots_spec = Seq::new(hs.len(), |i: int| sorted_tree(with_counts(host_tree(hs[i], pv))));
    let mut out: Vec<SiteTreeNode> = Vec::new();
    let mut i: usize = 0;
    assert(sort_forest(roots_spec.take(0)) =~= forest_view(out@));
    while i < hosts.len()
        invariant
            i <= hosts@.len(),
            pv == pages_view(pages@),
            pages@.len() <= u32::MAX,
            strings_view(hosts@) == hs,
            hs.len() == roots_spec.len(),
            forall|m: int| 0 <= m < hs.len() ==> #[trigger] roots_spec[m] == sorted_tree(with_counts(host_tree(hs[m], pv))),
            forest_view(out@) == sort_forest(roots_spec.take(i as int)),
        decreases hosts.len() - i,
    {
        let mut root = build_host_tree(&hosts[i], pages);
        assert(hosts@[i as int]@ == hs[i as int]);
        proof {
            lemma_host_tree_bound(hs[i as int], pv);
        }
        let _ = compute_page_counts(&mut root);
        sort_tree(&mut root);
        assert(tree_view(root) == roots_spec[i as int]);
        assert(roots_spec.take(i + 1).drop_last() =~= roots_spec.take(i as int));
        insert_by_label(&mut out, root);
        i = i + 1;
    }
    assert(roots_spec.take(hs.len() as int) =~= roots_spec);
    out
}


// ---------------------------------------------------------------------------
// Shape of the site tree
// ---------------------------------------------------------------------------

/// 1 when the node is itself a page.
pub open spec fn own_page(t: TreeV) -> nat {
    if t.page_id is Some {
        1
    } else {
        0
    }
}

/// The sum of the page counts of a list of trees.
pub open spec fn counts_sum(f: Seq<TreeV>) -> nat
    decreases f.len(),
{
    if f.len() == 0 {
        0
    } else {
        counts_sum(f.drop_last()) + f.last().page_count as nat
    }
}

/// No two trees of the list share a label.
pub open spec fn labels_distinct(f: Seq<TreeV>) -> bool {
    forall|i: int, j: int| 0 <= i < j < f.len() ==> #[trigger] f[i].label != #[trigger] f[j].label
}

/// The trees are in label order.
pub open spec fn labels_sorted(f: Seq<TreeV>) -> bool {
    forall|i: int, j: int| 0 <= i < j < f.len() ==> !seq_less(#[trigger] f[j].label, #[trigger] f[i].label)
}

/// In every node the children have distinct labels.
pub open spec fn distinct_below(t: TreeV) -> bool
    decreases t,
{
    &&& labels_distinct(t.children)
    &&& forall|i: int| 0 <= i < t.children.len() ==> distinct_below(#[trigger] t.children[i])
}

/// In every node the page count is the node itself (when a page) plus the
/// counts of its children.
pub open spec fn counted(t: TreeV) -> bool
    decreases t,
{
    &&& t.page_count == own_page(t) + counts_sum(t.children)
    &&& forall|i: int| 0 <= i < t.children.len() ==> counted(#[trigger] t.children[i])
}

/// A finished tree: in every node the children are in label order with
/// distinct labels, and the page count is the node's own page plus its
/// children's counts.
pub open spec fn tidy(t: TreeV) -> bool
    decreases t,
{
    &&& labels_sorted(t.children)
    &&& labels_distinct(t.children)
    &&& t.page_count == own_page(t) + counts_sum(t.children)
    &&& forall|i: int| 0 <= i < t.children.len() ==> tidy(#[trigger] t.children[i])
}

proof fn lemma_find_label_absent(f: Seq<TreeV>, label: Seq<char>)
    ensures
        find_label(f, label) == f.len() ==> forall|i: int| 0 <= i < f.len() ==> #[trigger] f[i].label != label,
    decreases f.len(),
{
    if f.len() > 0 && f[0].label != label {
        lemma_find_label_absent(f.drop_first(), label);
        if find_label(f, label) == f.len() {
            assert forall|i: int| 0 <= i < f.len() implies #[trigger] f[i].label != label by {
                if i > 0 {
                    assert(f[i] == f.drop_first()[i - 1]);
                }
            }
        }
    }
}

proof fn lemma_forest_insert_distinct(f: Seq<TreeV>, segs: Seq<Seq<char>>, p: PageV)
    requires
        labels_distinct(f),
        forall|i: int| 0 <= i < f.len() ==> distinct_below(#[trigger] f[i]),
    ensures
        labels_distinct(forest_insert(f, segs, p)),
        forall|i: int| 0 <= i < forest_insert(f, segs, p).len() ==> distinct_below(#[trigger] forest_insert(f, segs, p)[i]),
    decreases segs.len(),
{
    if segs.len() > 0 {
        let idx = find_label(f, segs[0]);
        lemma_find_label_bound(f, segs[0]);
        lemma_find_label_absent(f, segs[0]);
        let node = if idx < f.len() {
            f[idx as int]
        } else {
            leaf(segs[0])
        };
        let node2 = if segs.len() == 1 {
            mark_page(node, p)
        } else {
            node
        };
        assert(node2.children == node.children);
        assert(distinct_below(node));
        lemma_forest_insert_distinct(node2.children, segs.drop_first(), p);
        let node3 = TreeV { children: forest_insert(node2.children, segs.drop_first(), p), ..node2 };
        assert(distinct_below(node3));
        assert(node3.label == segs[0]);
        let r = forest_insert(f, segs, p);
        if idx < f.len() {
            assert(r == f.update(idx as int, node3));
            assert forall|i: int, j: int| 0 <= i < j < r.len() implies #[trigger] r[i].label != #[trigger] r[j].label by {
                assert(f[i].label == r[i].label);
                assert(f[j].label == r[j].label);
            }
        } else {
            assert(r == f.push(node3));
            assert forall|i: int, j: int| 0 <= i < j < r.len() implies #[trigger] r[i].label != #[trigger] r[j].label by {
                if j == f.len() {
                    assert(f[i].label != segs[0]);
                } else {
                    assert(r[i] == f[i] && r[j] == f[j]);
                }
            }
        }
    }
}

proof fn lemma_host_tree_distinct(host: Seq<char>, pages: Seq<PageV>)
    ensures
        distinct_below(host_tree(host, pages)),
        host_tree(host, pages).label == host,
    decreases pages.len(),
{
    if pages.len() == 0 {
        assert(distinct_below(leaf(host)));
    } else {
        let t = host_tree(host, pages.drop_last());
        lemma_host_tree_distinct(host, pages.drop_last());
        let p = pages.last();
        if page_host(p.url) == host {
            let segs = path_segments(page_path(p.url));
            if segs.len() == 0 {
                assert(mark_page(t, p).children == t.children);
                assert(distinct_below(mark_page(t, p)));
            } else {
                lemma_forest_insert_distinct(t.children, segs, p);
                let t2 = TreeV { children: forest_insert(t.children, segs, p), ..t };
                assert(distinct_below(t2));
            }
        }
    }
}

/// A tree holds at least the pages of each of its children.
proof fn lemma_forest_pages_ge(f: Seq<TreeV>, i: int)
    requires
        0 <= i < f.len(),
    ensures
        pages_in(f[i]) <= forest_pages(f),
    decreases f.len(),
{
    if i < f.len() - 1 {
        lemma_forest_pages_ge(f.subrange(0, f.len() - 1), i);
    }
}

proof fn lemma_counts_of_counted_children(f: Seq<TreeV>)
    requires
        forall|i: int| 0 <= i < f.len() ==> pages_in(#[trigger] f[i]) <= u32::MAX,
    ensures
        counts_sum(Seq::new(f.len(), |i: int| if 0 <= i < f.len() { with_counts(f[i]) } else { leaf(Seq::empty()) }))
            == forest_pages(f),
    decreases f.len(),
{
    let g = Seq::new(f.len(), |i: int| if 0 <= i < f.len() { with_counts(f[i]) } else { leaf(Seq::empty()) });
    if f.len() > 0 {
        let f1 = f.subrange(0, f.len() - 1);
        lemma_counts_of_counted_children(f1);
        let g1 = Seq::new(f1.len(), |i: int| if 0 <= i < f1.len() { with_counts(f1[i]) } else { leaf(Seq::empty()) });
        assert(g.drop_last() =~= g1);
        assert(g.last() == with_counts(f[f.len() - 1]));
        assert(pages_in(f[f.len() - 1]) <= u32::MAX);
    }
}

proof fn lemma_with_counts(t: TreeV)
    requires
        distinct_below(t),
        pages_in(t) <= u32::MAX,
    ensures
        distinct_below(with_counts(t)),
        counted(with_counts(t)),
        with_counts(t).label == t.label,
        with_counts(t).page_id == t.page_id,
    decreases t,
{
    let w = with_counts(t);
    assert forall|i: int| 0 <= i < t.children.len() implies pages_in(#[trigger] t.children[i]) <= u32::MAX by {
        lemma_forest_pages_ge(t.children, i);
    }
    assert forall|i: int| 0 <= i < w.children.len() implies distinct_below(#[trigger] w.children[i]) && counted(w.children[i]) by {
        assert(w.children[i] == with_counts(t.children[i]));
        assert(distinct_below(t.children[i]));
        lemma_with_counts(t.children[i]);
    }
    assert forall|i: int, j: int| 0 <= i < j < w.children.len() implies #[trigger] w.children[i].label != #[trigger] w.children[j].label by {
        lemma_with_counts(t.children[i]);
        lemma_with_counts(t.children[j]);
        assert(t.children[i].label != t.children[j].label);
    }
    lemma_counts_of_counted_children(t.children);
    assert(w.children == Seq::new(t.children.len(), |i: int| if 0 <= i < t.children.len() { with_counts(t.children[i]) } else { leaf(Seq::empty()) }));
}

proof fn lemma_label_pos(s: Seq<TreeV>, x: TreeV)
    ensures
        label_pos(s, x) <= s.len(),
        forall|j: int| 0 <= j < label_pos(s, x) ==> !seq_less(x.label, #[trigger] s[j].label),
        label_pos(s, x) < s.len() ==> seq_less(x.label, s[label_pos(s, x) as int].label),
    decreases s.len(),
{
    if s.len() > 0 && !seq_less(x.label, s[0].label) {
        lemma_label_pos(s.drop_first(), x);
        assert forall|j: int| 0 <= j < label_pos(s, x) implies !seq_less(x.label, #[trigger] s[j].label) by {
            if j > 0 {
                assert(s[j] == s.drop_first()[j - 1]);
            }
        }
    }
}

proof fn lemma_counts_sum_insert(s: Seq<TreeV>, k: int, x: TreeV)
    requires
        0 <= k <= s.len(),
    ensures
        counts_sum(s.insert(k, x)) == counts_sum(s) + x.page_count,
    decreases s.len(),
{
    if k == s.len() {
        assert(s.insert(k, x) =~= s.push(x));
        assert(s.push(x).drop_last() =~= s);
    } else {
        lemma_counts_sum_insert(s.drop_last(), k, x);
        assert(s.insert(k, x).drop_last() =~= s.drop_last().insert(k, x));
        assert(s.insert(k, x).last() == s.last());
    }
}

proof fn lemma_sort_forest(f: Seq<TreeV>)
    ensures
        sort_forest(f).len() == f.len(),
        forall|k: int| 0 <= k < f.len() ==> f.contains(#[trigger] sort_forest(f)[k]),
        forall|k: int| 0 <= k < f.len() ==> sort_forest(f).contains(#[trigger] f[k]),
        counts_sum(sort_forest(f)) == counts_sum(f),
        labels_sorted(sort_forest(f)),
        labels_distinct(f) ==> labels_distinct(sort_forest(f)),
    decreases f.len(),
{
    if f.len() > 0 {
        let f1 = f.drop_last();
        let x = f.last();
        let s = sort_forest(f1);
        lemma_sort_forest(f1);
        lemma_label_pos(s, x);
        let k = label_pos(s, x) as int;
        let r = s.insert(k, x);
        assert(sort_forest(f) == r);
        assert forall|m: int| 0 <= m < f.len() implies f.contains(#[trigger] r[m]) by {
            if m < k {
                assert(r[m] == s[m]);
                assert(f1.contains(s[m]));
                let q = choose|q: int| 0 <= q < f1.len() && f1[q] == s[m];
                assert(f[q] == f1[q]);
            } else if m == k {
                assert(f[f.len() - 1] == x);
            } else {
                assert(r[m] == s[m - 1]);
                assert(f1.contains(s[m - 1]));
                let q = choose|q: int| 0 <= q < f1.len() && f1[q] == s[m - 1];
                assert(f[q] == f1[q]);
            }
        }
        assert forall|m: int| 0 <= m < f.len() implies r.contains(#[trigger] f[m]) by {
            if m == f.len() - 1 {
                assert(r[k] == x);
            } else {
                assert(f[m] == f1[m]);
                assert(s.contains(f1[m]));
                let q = choose|q: int| 0 <= q < s.len() && s[q] == f1[m];
                if q < k {
                    assert(r[q] == s[q]);
                } else {
                    assert(r[q + 1] == s[q]);
                }
            }
        }
        lemma_counts_sum_insert(s, k, x);
        assert(f.drop_last() == f1);
        assert forall|i: int, j: int| 0 <= i < j < r.len() implies !seq_less(#[trigger] r[j].label, #[trigger] r[i].label) by {
            if j < k {
                assert(r[i] == s[i] && r[j] == s[j]);
            } else if j == k {
                assert(r[i] == s[i]);
            } else if i > k {
                assert(r[i] == s[i - 1] && r[j] == s[j - 1]);
            } else if i == k {
                assert(r[j] == s[j - 1]);
                assert(seq_less(x.label, s[k].label));
                if seq_less(s[j - 1].label, x.label) {
                    lemma_seq_less_transitive(s[j - 1].label, x.label, s[k].label);
                    if j - 1 > k {
                        assert(!seq_less(s[j - 1].label, s[k].label));
                    } else {
                        crate::order::lemma_seq_less_irreflexive(s[k].label);
                    }
                }
            } else {
                assert(r[i] == s[i] && r[j] == s[j - 1]);
            }
        }
        if labels_distinct(f) {
            assert forall|i: int, j: int| 0 <= i < j < f1.len() implies #[trigger] f1[i].label != #[trigger] f1[j].label by {
                assert(f1[i] == f[i] && f1[j] == f[j]);
            }
            assert forall|m: int| 0 <= m < s.len() implies #[trigger] s[m].label != x.label by {
                assert(f1.contains(s[m]));
                let q = choose|q: int| 0 <= q < f1.len() && f1[q] == s[m];
                assert(f[q] == f1[q]);
                assert(f[q].label != f[f.len() - 1].label);
            }
            assert forall|i: int, j: int| 0 <= i < j < r.len() implies #[trigger] r[i].label != #[trigger] r[j].label by {
                if j < k {
                    assert(r[i] == s[i] && r[j] == s[j]);
                } else if j == k {
                    assert(r[i] == s[i]);
                } else if i > k {
                    assert(r[i] == s[i - 1] && r[j] == s[j - 1]);
                } else if i == k {
                    assert(r[j] == s[j - 1]);
                } else {
                    assert(r[i] == s[i] && r[j] == s[j - 1]);
                }
            }
        }
    }
}

proof fn lemma_counts_sum_pointwise(a: Seq<TreeV>, b: Seq<TreeV>)
    requires
        a.len() == b.len(),
        forall|i: int| 0 <= i < a.len() ==> #[trigger] a[i].page_count == b[i].page_count,
    ensures
        counts_sum(a) == counts_sum(b),
    decreases a.len(),
{
    if a.len() > 0 {
        lemma_counts_sum_pointwise(a.drop_last(), b.drop_last());
        assert(a.last().page_count == b.last().page_count);
    }
}

proof fn lemma_sorted_tree_tidy(t: TreeV)
    requires
        distinct_below(t),
        counted(t),
    ensures
        tidy(sorted_tree(t)),
        sorted_tree(t).label == t.label,
        sorted_tree(t).page_count == t.page_count,
        sorted_tree(t).page_id == t.page_id,
    decreases t,
{
    let c = sorted_children(t);
    assert forall|i: int| 0 <= i < c.len() implies tidy(#[trigger] c[i]) && c[i].label == t.children[i].label
        && c[i].page_count == t.children[i].page_count by {
        assert(c[i] == sorted_tree(t.children[i]));
        assert(distinct_below(t.children[i]));
        assert(counted(t.children[i]));
        lemma_sorted_tree_tidy(t.children[i]);
    }
    assert forall|i: int, j: int| 0 <= i < j < c.len() implies #[trigger] c[i].label != #[trigger] c[j].label by {
        assert(t.children[i].label != t.children[j].label);
    }
    lemma_counts_sum_pointwise(c, t.children);
    lemma_sort_forest(c);
    let r = sort_forest(c);
    assert forall|k: int| 0 <= k < r.len() implies tidy(#[trigger] r[k]) by {
        assert(c.contains(r[k]));
        let q = choose|q: int| 0 <= q < c.len() && c[q] == r[k];
        assert(tidy(c[q]));
    }
    assert(sorted_tree(t).children == r);
}

proof fn lemma_hosts_distinct(pages: Seq<PageV>)
    ensures
        forall|i: int, j: int| 0 <= i < j < hosts_of(pages).len() ==> #[trigger] hosts_of(pages)[i] != #[trigger] hosts_of(pages)[j],
    decreases pages.len(),
{
    if pages.len() > 0 {
        lemma_hosts_distinct(pages.drop_last());
        let hs = hosts_of(pages.drop_last());
        let h = page_host(pages.last().url);
        if !hs.contains(h) {
            let r = hs.push(h);
            assert forall|i: int, j: int| 0 <= i < j < r.len() implies #[trigger] r[i] != #[trigger] r[j] by {
                if j == hs.len() {
                    assert(r[i] == hs[i]);
                } else {
                    assert(r[i] == hs[i] && r[j] == hs[j]);
                }
            }
        }
    }
}

/// The site tree is tidy: there is one root per distinct host of the pages
/// (`unknown` for URLs without one), every page's host has a root, the
/// roots are in label order with distinct labels, and in every node the children are in label order with
/// distinct labels and the page count is the node's own page plus the
/// counts of its children; when no two pages share host and path, the
/// roots' page counts add up to the number of pages.
pub proof fn law_site_tree_shape(pages: Seq<PageV>)
    requires
        pages.len() <= u32::MAX,
    ensures
        labels_sorted(site_forest(pages)),
        labels_distinct(site_forest(pages)),
        forall|k: int| 0 <= k < site_forest(pages).len() ==> tidy(#[trigger] site_forest(pages)[k]),
        site_forest(pages).len() == hosts_of(pages).len(),
        forall|k: int| 0 <= k < site_forest(pages).len() ==> hosts_of(pages).contains(#[trigger] site_forest(pages)[k].label),
        forall|i: int| 0 <= i < pages.len() ==> exists|k: int| 0 <= k < site_forest(pages).len()
            && #[trigger] site_forest(pages)[k].label == page_host(#[trigger] pages[i].url),
        unique_paths(pages) ==> counts_sum(site_forest(pages)) == pages.len(),
{
    if unique_paths(pages) {
        law_site_tree_total(pages);
    }
    let hs = hosts_of(pages);
    let roots = Seq::new(hs.len(), |i: int| sorted_tree(with_counts(host_tree(hs[i], pages))));
    assert forall|i: int| 0 <= i < roots.len() implies tidy(#[trigger] roots[i]) && roots[i].label == hs[i] by {
        let h = host_tree(hs[i], pages);
        lemma_host_tree_distinct(hs[i], pages);
        lemma_host_tree_bound(hs[i], pages);
        lemma_with_counts(h);
        lemma_sorted_tree_tidy(with_counts(h));
    }
    lemma_hosts_distinct(pages);
    assert forall|i: int, j: int| 0 <= i < j < roots.len() implies #[trigger] roots[i].label != #[trigger] roots[j].label by {
        assert(hs[i] != hs[j]);
    }
    lemma_sort_forest(roots);
    let f = sort_forest(roots);
    assert(site_forest(pages) == f);
    assert forall|k: int| 0 <= k < f.len() implies tidy(#[trigger] f[k]) && hs.contains(f[k].label) by {
        assert(roots.contains(f[k]));
        let q = choose|q: int| 0 <= q < roots.len() && roots[q] == f[k];
        assert(tidy(roots[q]));
        assert(roots[q].label == hs[q]);
    }
    lemma_hosts_cover(pages);
    assert forall|i: int| 0 <= i < pages.len() implies exists|k: int| 0 <= k < f.len()
        && #[trigger] f[k].label == page_host(#[trigger] pages[i].url) by {
        let h = page_host(pages[i].url);
        assert(hs.contains(h));
        let q = choose|q: int| 0 <= q < hs.len() && hs[q] == h;
        assert(roots[q].label == h);
        assert(f.contains(roots[q]));
        let k = choose|k: int| 0 <= k < f.len() && f[k] == roots[q];
        assert(f[k].label == page_host(pages[i].url));
    }
}

proof fn lemma_hosts_cover(pages: Seq<PageV>)
    ensures
        forall|i: int| 0 <= i < pages.len() ==> hosts_of(pages).contains(page_host(#[trigger] pages[i].url)),
    decreases pages.len(),
{
    if pages.len() > 0 {
        let p1 = pages.drop_last();
        lemma_hosts_cover(p1);
        let hs = hosts_of(p1);
        let h = page_host(pages.last().url);
        assert forall|i: int| 0 <= i < pages.len() implies hosts_of(pages).contains(page_host(#[trigger] pages[i].url)) by {
            if i < pages.len() - 1 {
                assert(pages[i] == p1[i]);
                assert(hs.contains(page_host(p1[i].url)));
                let q = choose|q: int| 0 <= q < hs.len() && hs[q] == page_host(p1[i].url);
                if !hs.contains(h) {
                    assert(hs.push(h)[q] == hs[q]);
                }
            } else {
                if !hs.contains(h) {
                    assert(hs.push(h)[hs.len() as int] == h);
                }
            }
        }
    }
}


// ---------------------------------------------------------------------------
// Total page count
// ---------------------------------------------------------------------------

/// The path segments a page is filed under.
pub open spec fn page_segments(p: PageV) -> Seq<Seq<char>> {
    path_segments(page_path(p.url))
}

/// No two pages share host and path segments.
pub open spec fn unique_paths(pages: Seq<PageV>) -> bool {
    forall|i: int, j: int|
        0 <= i < j < pages.len() ==> !(page_host(#[trigger] pages[i].url) == page_host(#[trigger] pages[j].url)
            && page_segments(pages[i]) == page_segments(pages[j]))
}

/// How many pages are filed under a host.
pub open spec fn host_count(h: Seq<char>, pages: Seq<PageV>) -> nat
    decreases pages.len(),
{
    if pages.len() == 0 {
        0
    } else {
        host_count(h, pages.drop_last()) + if page_host(pages.last().url) == h { 1nat } else { 0nat }
    }
}

/// The node reached by `segs` below a list of trees is a page.
pub open spec fn path_marked(f: Seq<TreeV>, segs: Seq<Seq<char>>) -> bool
    decreases segs.len(),
{
    if segs.len() == 0 {
        false
    } else {
        let idx = find_label(f, segs[0]);
        if idx >= f.len() {
            false
        } else if segs.len() == 1 {
            f[idx as int].page_id is Some
        } else {
            path_marked(f[idx as int].children, segs.drop_first())
        }
    }
}

proof fn lemma_find_label_same(f: Seq<TreeV>, g: Seq<TreeV>, l: Seq<char>)
    requires
        f.len() == g.len(),
        forall|i: int| 0 <= i < f.len() ==> #[trigger] f[i].label == g[i].label,
    ensures
        find_label(f, l) == find_label(g, l),
    decreases f.len(),
{
    if f.len() > 0 {
        assert(f[0].label == g[0].label);
        assert forall|i: int| 0 <= i < f.drop_first().len() implies #[trigger] f.drop_first()[i].label == g.drop_first()[i].label by {
            assert(f.drop_first()[i] == f[i + 1]);
            assert(g.drop_first()[i] == g[i + 1]);
        }
        lemma_find_label_same(f.drop_first(), g.drop_first(), l);
    }
}

proof fn lemma_find_label_push(f: Seq<TreeV>, x: TreeV, l: Seq<char>)
    ensures
        find_label(f, l) < f.len() ==> find_label(f.push(x), l) == find_label(f, l),
        find_label(f, l) >= f.len() && x.label == l ==> find_label(f.push(x), l) == f.len(),
        find_label(f, l) >= f.len() && x.label != l ==> find_label(f.push(x), l) >= f.len() + 1,
    decreases f.len(),
{
    if f.len() == 0 {
        assert(f.push(x)[0] == x);
        assert(f.push(x).drop_first().len() == 0);
    } else {
        assert(f.push(x)[0] == f[0]);
        assert(f.push(x).drop_first() =~= f.drop_first().push(x));
        lemma_find_label_push(f.drop_first(), x, l);
    }
}

proof fn lemma_insert_counts(f: Seq<TreeV>, segs: Seq<Seq<char>>, p: PageV)
    requires
        segs.len() > 0,
        !path_marked(f, segs),
    ensures
        forest_pages(forest_insert(f, segs, p)) == forest_pages(f) + 1,
    decreases segs.len(),
{
    let idx = find_label(f, segs[0]);
    lemma_find_label_bound(f, segs[0]);
    let node = if idx < f.len() {
        f[idx as int]
    } else {
        leaf(segs[0])
    };
    let node2 = if segs.len() == 1 {
        mark_page(node, p)
    } else {
        node
    };
    let kids = forest_insert(node2.children, segs.drop_first(), p);
    let node3 = TreeV { children: kids, ..node2 };
    assert(forest_pages(leaf(segs[0]).children) == 0);
    if segs.len() == 1 {
        assert(kids == node2.children);
        assert(node.page_id is None);
    } else {
        if idx >= f.len() {
            assert(!path_marked(Seq::<TreeV>::empty(), segs.drop_first()));
        }
        lemma_insert_counts(node2.children, segs.drop_first(), p);
    }
    assert(pages_in(node3) == pages_in(node) + 1);
    if idx < f.len() {
        lemma_forest_pages_update(f, idx as int, node3);
    } else {
        let g = f.push(node3);
        assert(g.subrange(0, g.len() - 1) =~= f);
    }
}

proof fn lemma_insert_marks(f: Seq<TreeV>, q: Seq<Seq<char>>, p: PageV, r: Seq<Seq<char>>)
    requires
        q.len() > 0,
        r.len() > 0,
        path_marked(forest_insert(f, q, p), r),
    ensures
        path_marked(f, r) || r == q,
    decreases q.len(),
{
    let idx = find_label(f, q[0]);
    lemma_find_label_bound(f, q[0]);
    lemma_find_label_absent(f, q[0]);
    let node = if idx < f.len() {
        f[idx as int]
    } else {
        leaf(q[0])
    };
    let node2 = if q.len() == 1 {
        mark_page(node, p)
    } else {
        node
    };
    let kids = forest_insert(node2.children, q.drop_first(), p);
    let node3 = TreeV { children: kids, ..node2 };
    let big = forest_insert(f, q, p);
    let j = find_label(big, r[0]);
    let jf = find_label(f, r[0]);
    lemma_find_label_bound(f, r[0]);
    lemma_find_label_bound(big, r[0]);
    if idx < f.len() {
        assert(big == f.update(idx as int, node3));
        lemma_find_label_same(f, big, r[0]);
        assert(j == jf);
        if j != idx {
            assert(big[j as int] == f[j as int]);
        } else {
            assert(r[0] == q[0]);
            if r.len() == 1 {
                if q.len() != 1 {
                    assert(node3.page_id == f[idx as int].page_id);
                } else {
                    assert(r =~= q);
                }
            } else {
                assert(path_marked(kids, r.drop_first()));
                if q.len() == 1 {
                    assert(kids == f[idx as int].children);
                } else {
                    lemma_insert_marks(node2.children, q.drop_first(), p, r.drop_first());
                    if r.drop_first() == q.drop_first() {
                        assert(r =~= seq![r[0]] + r.drop_first());
                        assert(q =~= seq![q[0]] + q.drop_first());
                    }
                }
            }
        }
    } else {
        assert(big == f.push(node3));
        lemma_find_label_push(f, node3, r[0]);
        if jf < f.len() {
            assert(big[j as int] == f[j as int]);
        } else if r[0] == q[0] {
            assert(j == f.len());
            assert(big[j as int] == node3);
            if r.len() == 1 {
                if q.len() == 1 {
                    assert(r =~= q);
                }
            } else {
                assert(path_marked(kids, r.drop_first()));
                if q.len() == 1 {
                    assert(kids == node.children);
                    assert(node.children.len() == 0);
                } else {
                    lemma_insert_marks(node2.children, q.drop_first(), p, r.drop_first());
                    assert(!path_marked(Seq::<TreeV>::empty(), r.drop_first()));
                    assert(r =~= seq![r[0]] + r.drop_first());
                    assert(q =~= seq![q[0]] + q.drop_first());
                }
            }
        }
    }
}

/// A host's tree holds one page per page filed under the host, when no two
/// pages share a path; and each page node stands for a page listed.
proof fn lemma_host_tree_count(h: Seq<char>, pages: Seq<PageV>)
    requires
        unique_paths(pages),
    ensures
        pages_in(host_tree(h, pages)) == host_count(h, pages),
        host_tree(h, pages).page_id is Some ==> exists|i: int|
            0 <= i < pages.len() && page_host(#[trigger] pages[i].url) == h && page_segments(pages[i]).len() == 0,
        forall|r: Seq<Seq<char>>| r.len() > 0 && #[trigger] path_marked(host_tree(h, pages).children, r) ==> exists|i: int|
            0 <= i < pages.len() && page_host(#[trigger] pages[i].url) == h && page_segments(pages[i]) == r,
    decreases pages.len(),
{
    if pages.len() == 0 {
        assert(forest_pages(leaf(h).children) == 0);
        assert forall|r: Seq<Seq<char>>| r.len() > 0 && #[trigger] path_marked(leaf(h).children, r) implies false by {
            assert(find_label(leaf(h).children, r[0]) == 0);
        }
    } else {
        let pre = pages.drop_last();
        let p = pages.last();
        let n = pages.len() - 1;
        assert forall|i: int, j: int| 0 <= i < j < pre.len() implies !(page_host(#[trigger] pre[i].url) == page_host(#[trigger] pre[j].url)
            && page_segments(pre[i]) == page_segments(pre[j])) by {
            assert(pre[i] == pages[i] && pre[j] == pages[j]);
        }
        lemma_host_tree_count(h, pre);
        let t = host_tree(h, pre);
        if page_host(p.url) == h {
            let segs = page_segments(p);
            if segs.len() == 0 {
                if t.page_id is Some {
                    let i = choose|i: int| 0 <= i < pre.len() && page_host(#[trigger] pre[i].url) == h && page_segments(pre[i]).len() == 0;
                    assert(pre[i] == pages[i]);
                    assert(page_segments(pages[i]) =~= page_segments(pages[n]));
                    assert(false);
                }
                assert(mark_page(t, p).children == t.children);
                assert forall|r: Seq<Seq<char>>| r.len() > 0 && #[trigger] path_marked(host_tree(h, pages).children, r) implies exists|i: int|
                    0 <= i < pages.len() && page_host(#[trigger] pages[i].url) == h && page_segments(pages[i]) == r by {
                    let i = choose|i: int| 0 <= i < pre.len() && page_host(#[trigger] pre[i].url) == h && page_segments(pre[i]) == r;
                    assert(pre[i] == pages[i]);
                }
                assert(pages[n] == p);
            } else {
                if path_marked(t.children, segs) {
                    let i = choose|i: int| 0 <= i < pre.len() && page_host(#[trigger] pre[i].url) == h && page_segments(pre[i]) == segs;
                    assert(pre[i] == pages[i]);
                    assert(false);
                }
                lemma_insert_counts(t.children, segs, p);
                let t2 = TreeV { children: forest_insert(t.children, segs, p), ..t };
                assert(host_tree(h, pages) == t2);
                if t2.page_id is Some {
                    let i = choose|i: int| 0 <= i < pre.len() && page_host(#[trigger] pre[i].url) == h && page_segments(pre[i]).len() == 0;
                    assert(pre[i] == pages[i]);
                }
                assert forall|r: Seq<Seq<char>>| r.len() > 0 && #[trigger] path_marked(t2.children, r) implies exists|i: int|
                    0 <= i < pages.len() && page_host(#[trigger] pages[i].url) == h && page_segments(pages[i]) == r by {
                    lemma_insert_marks(t.children, segs, p, r);
                    if path_marked(t.children, r) {
                        let i = choose|i: int| 0 <= i < pre.len() && page_host(#[trigger] pre[i].url) == h && page_segments(pre[i]) == r;
                        assert(pre[i] == pages[i]);
                    } else {
                        assert(pages[n] == p);
                    }
                }
            }
        } else {
            assert(host_tree(h, pages) == t);
            if t.page_id is Some {
                let i = choose|i: int| 0 <= i < pre.len() && page_host(#[trigger] pre[i].url) == h && page_segments(pre[i]).len() == 0;
                assert(pre[i] == pages[i]);
            }
            assert forall|r: Seq<Seq<char>>| r.len() > 0 && #[trigger] path_marked(t.children, r) implies exists|i: int|
                0 <= i < pages.len() && page_host(#[trigger] pages[i].url) == h && page_segments(pages[i]) == r by {
                let i = choose|i: int| 0 <= i < pre.len() && page_host(#[trigger] pre[i].url) == h && page_segments(pre[i]) == r;
                assert(pre[i] == pages[i]);
            }
        }
    }
}

/// The page counts of the hosts, added up.
pub open spec fn hosts_total(hs: Seq<Seq<char>>, pages: Seq<PageV>) -> nat
    decreases hs.len(),
{
    if hs.len() == 0 {
        0
    } else {
        hosts_total(hs.drop_last(), pages) + host_count(hs.last(), pages)
    }
}

proof fn lemma_hosts_total_push(hs: Seq<Seq<char>>, pages: Seq<PageV>, p: PageV)
    requires
        forall|i: int, j: int| 0 <= i < j < hs.len() ==> #[trigger] hs[i] != #[trigger] hs[j],
    ensures
        hosts_total(hs, pages.push(p)) == hosts_total(hs, pages) + if hs.contains(page_host(p.url)) { 1nat } else { 0nat },
    decreases hs.len(),
{
    assert(pages.push(p).drop_last() =~= pages);
    if hs.len() > 0 {
        let h1 = hs.drop_last();
        assert forall|i: int, j: int| 0 <= i < j < h1.len() implies #[trigger] h1[i] != #[trigger] h1[j] by {
            assert(h1[i] == hs[i] && h1[j] == hs[j]);
        }
        lemma_hosts_total_push(h1, pages, p);
        let x = hs.last();
        let h0 = page_host(p.url);
        if x == h0 {
            if h1.contains(h0) {
                let k = choose|k: int| 0 <= k < h1.len() && h1[k] == h0;
                assert(hs[k] == hs[hs.len() - 1]);
            }
            assert(hs.contains(h0));
        } else {
            if hs.contains(h0) {
                let k = choose|k: int| 0 <= k < hs.len() && hs[k] == h0;
                assert(h1[k] == h0);
            }
            if h1.contains(h0) {
                let k = choose|k: int| 0 <= k < h1.len() && h1[k] == h0;
                assert(hs[k] == h0);
            }
        }
    }
}

proof fn lemma_host_count_absent(h: Seq<char>, pages: Seq<PageV>)
    requires
        !hosts_of(pages).contains(h),
    ensures
        host_count(h, pages) == 0,
    decreases pages.len(),
{
    if pages.len() > 0 {
        lemma_hosts_cover(pages);
        let n = pages.len() - 1;
        assert(page_host(pages[n].url) != h);
        let pre = pages.drop_last();
        if hosts_of(pre).contains(h) {
            let hs = hosts_of(pre);
            let k = choose|k: int| 0 <= k < hs.len() && hs[k] == h;
            let hp = page_host(pages.last().url);
            if !hs.contains(hp) {
                assert(hs.push(hp)[k] == h);
            }
        }
        lemma_host_count_absent(h, pre);
    }
}

proof fn lemma_hosts_total_all(pages: Seq<PageV>)
    ensures
        hosts_total(hosts_of(pages), pages) == pages.len(),
    decreases pages.len(),
{
    if pages.len() > 0 {
        let pre = pages.drop_last();
        let p = pages.last();
        let hs = hosts_of(pre);
        let h0 = page_host(p.url);
        lemma_hosts_total_all(pre);
        lemma_hosts_distinct(pre);
        assert(pre.push(p) =~= pages);
        lemma_hosts_total_push(hs, pre, p);
        if !hs.contains(h0) {
            lemma_host_count_absent(h0, pre);
            let hs2 = hs.push(h0);
            assert(hs2.drop_last() =~= hs);
            assert(host_count(h0, pages) == host_count(h0, pre) + 1);
        }
    }
}

proof fn lemma_roots_total(hs: Seq<Seq<char>>, pages: Seq<PageV>)
    requires
        pages.len() <= u32::MAX,
        unique_paths(pages),
    ensures
        counts_sum(Seq::new(hs.len(), |i: int| sorted_tree(with_counts(host_tree(hs[i], pages))))) == hosts_total(hs, pages),
    decreases hs.len(),
{
    let roots = Seq::new(hs.len(), |i: int| sorted_tree(with_counts(host_tree(hs[i], pages))));
    if hs.len() > 0 {
        let h1 = hs.drop_last();
        lemma_roots_total(h1, pages);
        assert(roots.drop_last() =~= Seq::new(h1.len(), |i: int| sorted_tree(with_counts(host_tree(h1[i], pages)))));
        let t = host_tree(hs.last(), pages);
        lemma_host_tree_bound(hs.last(), pages);
        lemma_host_tree_count(hs.last(), pages);
        assert(roots.last().page_count == with_counts(t).page_count);
        assert(with_counts(t).page_count == pages_in(t) as u32);
    }
}

/// When no two pages share host and path, the roots' page counts add up to
/// the number of pages.
pub proof fn law_site_tree_total(pages: Seq<PageV>)
    requires
        pages.len() <= u32::MAX,
        unique_paths(pages),
    ensures
        counts_sum(site_forest(pages)) == pages.len(),
{
    let hs = hosts_of(pages);
    let roots = Seq::new(hs.len(), |i: int| sorted_tree(with_counts(host_tree(hs[i], pages))));
    lemma_sort_forest(roots);
    lemma_roots_total(hs, pages);
    lemma_hosts_total_all(pages);
}

} // verus!
