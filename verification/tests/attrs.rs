use plexy_glass::Attrs;

#[test]
fn empty_is_default() {
    assert_eq!(Attrs::default(), Attrs::empty());
}

#[test]
fn flags_compose() {
    let combo = Attrs::from_bits(Attrs::BOLD | Attrs::UNDERLINE);
    assert!(combo.contains(Attrs::BOLD));
    assert!(combo.contains(Attrs::UNDERLINE));
    assert!(!combo.contains(Attrs::ITALIC));
}

#[test]
fn insert_remove_idempotent() {
    let mut a = Attrs::empty();
    a.insert(Attrs::ITALIC);
    a.insert(Attrs::ITALIC);
    assert!(a.contains(Attrs::ITALIC));
    a.remove(Attrs::ITALIC);
    a.remove(Attrs::ITALIC);
    assert!(!a.contains(Attrs::ITALIC));
}
