use oxide_seo::sitetree::{build_site_tree, compute_page_counts, sort_tree, split_path, PageTreeEntry, SiteTreeNode};

fn page(id: i64, url: &str, status: i32) -> PageTreeEntry {
    PageTreeEntry { page_id: id, url: url.into(), status_code: Some(status) }
}

fn node(label: &str, page_id: Option<i64>, children: Vec<SiteTreeNode>) -> SiteTreeNode {
    SiteTreeNode { label: label.into(), url: None, page_id, status_code: None, page_count: 0, children }
}

#[test]
fn forest_groups_by_host_and_nests_paths() {
    let pages = vec![
        page(1, "https://b.com/", 200),
        page(2, "https://a.com/docs/intro", 200),
        page(3, "https://a.com/docs", 301),
        page(4, "https://a.com/blog/post", 404),
    ];
    let forest = build_site_tree(&pages);
    assert_eq!(forest.len(), 2);
    assert_eq!(forest[0].label, "a.com");
    assert_eq!(forest[1].label, "b.com");
    // The host page of b.com sits on its root.
    assert_eq!(forest[1].page_id, Some(1));
    assert_eq!(forest[1].page_count, 1);
    let a = &forest[0];
    assert_eq!(a.page_count, 3);
    let labels: Vec<&str> = a.children.iter().map(|c| c.label.as_str()).collect();
    assert_eq!(labels, vec!["blog", "docs"]);
    let docs = &a.children[1];
    assert_eq!(docs.page_id, Some(3));
    assert_eq!(docs.status_code, Some(301));
    assert_eq!(docs.page_count, 2);
    assert_eq!(docs.children[0].label, "intro");
    assert_eq!(docs.children[0].url.as_deref(), Some("https://a.com/docs/intro"));
    let blog = &a.children[0];
    assert_eq!(blog.page_id, None);
    assert_eq!(blog.page_count, 1);
}

#[test]
fn unparsable_urls_go_under_unknown() {
    let forest = build_site_tree(&vec![page(7, "not a url", 200)]);
    assert_eq!(forest.len(), 1);
    assert_eq!(forest[0].label, "unknown");
    assert_eq!(forest[0].page_id, Some(7));
}

#[test]
fn page_counts_sum_subtrees() {
    let mut t = node("root", None, vec![node("a", Some(1), vec![node("b", Some(2), vec![])]), node("c", None, vec![])]);
    assert_eq!(compute_page_counts(&mut t), 2);
    assert_eq!(t.page_count, 2);
    assert_eq!(t.children[0].page_count, 2);
    assert_eq!(t.children[1].page_count, 0);
}

#[test]
fn sort_orders_every_level() {
    let mut t = node("r", None, vec![node("z", None, vec![node("y", None, vec![]), node("x", None, vec![])]), node("a", None, vec![])]);
    sort_tree(&mut t);
    assert_eq!(t.children[0].label, "a");
    assert_eq!(t.children[1].children[0].label, "x");
}

#[test]
fn paths_split_into_non_empty_segments() {
    assert_eq!(split_path("/a//b/"), vec!["a", "b"]);
    assert!(split_path("/").is_empty());
}

fn check_tidy(n: &SiteTreeNode) {
    for w in n.children.windows(2) {
        assert!(w[0].label < w[1].label, "children sorted with distinct labels");
    }
    let own = if n.page_id.is_some() { 1 } else { 0 };
    let sum: u32 = n.children.iter().map(|c| c.page_count).sum();
    assert_eq!(n.page_count, own + sum);
    for c in &n.children {
        check_tidy(c);
    }
}

#[test]
fn site_tree_is_tidy() {
    let pages = vec![
        page(1, "https://z.org/a/b/c", 200),
        page(2, "https://a.org/x", 200),
        page(3, "https://z.org/a", 200),
        page(4, "https://z.org/a/b/d", 200),
        page(5, "not a url", 200),
        page(6, "https://z.org/", 200),
        page(7, "https://a.org/x/y", 200),
    ];
    let forest = build_site_tree(&pages);
    let labels: Vec<&str> = forest.iter().map(|r| r.label.as_str()).collect();
    assert_eq!(labels, vec!["a.org", "unknown", "z.org"]);
    for r in &forest {
        check_tidy(r);
    }
    let total: u32 = forest.iter().map(|r| r.page_count).sum();
    assert_eq!(total, 7);
}
