use plexy_glass::HyperlinkTable;

#[test]
fn intern_dedupes() {
    let mut t = HyperlinkTable::default();
    let id1 = t.intern("https://example.com").unwrap();
    let id2 = t.intern("https://example.com").unwrap();
    assert_eq!(id1, id2);

    assert_eq!(t.get(0), Some("https://example.com"));
    assert_eq!(t.get(1), None);
}

#[test]
fn distinct_urls_get_distinct_ids() {
    let mut t = HyperlinkTable::default();
    let a = t.intern("https://a/").unwrap();
    let b = t.intern("https://b/").unwrap();
    assert_ne!(a, b);
    assert_eq!(t.get(a), Some("https://a/"));
    assert_eq!(t.get(b), Some("https://b/"));
}

#[test]
fn get_unknown_returns_none() {
    let t = HyperlinkTable::default();
    assert_eq!(t.get(0), None);
}
