use kube_tag_radar::tags::TagPager;

fn page(t: &[&str]) -> Vec<String> {
    t.iter().map(|s| s.to_string()).collect()
}

/// A registry that answers every request after its last page with that
/// page again.
fn repeating_registry(cursor: Option<&str>) -> Vec<String> {
    match cursor {
        None => page(&["1.0", "1.1"]),
        Some("1.1") => page(&["1.2", "2.0"]),
        _ => page(&["1.2", "2.0"]),
    }
}

#[test]
fn repeated_final_page_ends_listing() {
    let mut pager = TagPager::new();
    let mut requests = 0;
    while !pager.is_done() {
        requests += 1;
        assert!(requests <= 3);
        let cursor = pager.cursor();
        pager.absorb(repeating_registry(cursor.as_deref()));
    }
    assert_eq!(requests, 3);
    assert_eq!(pager.into_tags(), page(&["1.0", "1.1", "1.2", "2.0"]));
}

#[test]
fn empty_page_ends_listing() {
    let mut pager = TagPager::new();
    assert_eq!(pager.cursor(), None);
    pager.absorb(page(&["a", "b"]));
    assert_eq!(pager.cursor(), Some("b".to_string()));
    assert!(!pager.is_done());
    pager.absorb(vec![]);
    assert!(pager.is_done());
    assert_eq!(pager.into_tags(), page(&["a", "b"]));
}

#[test]
fn duplicates_dropped_at_page_boundary_only() {
    let mut pager = TagPager::new();
    pager.absorb(page(&["a", "a", "b"]));
    pager.absorb(page(&["b", "c", "a"]));
    assert_eq!(pager.cursor(), Some("a".to_string()));
    pager.absorb(page(&["x", "a"]));
    assert!(pager.is_done());
    assert_eq!(pager.into_tags(), page(&["a", "a", "b", "c", "a"]));
}

#[test]
fn cursor_repeated_at_page_start_is_not_listed_twice() {
    let mut pager = TagPager::new();
    pager.absorb(page(&["a", "b"]));
    pager.absorb(page(&["b", "c"]));
    pager.absorb(page(&["c"]));
    assert!(pager.is_done());
    assert_eq!(pager.into_tags(), page(&["a", "b", "c"]));
}
