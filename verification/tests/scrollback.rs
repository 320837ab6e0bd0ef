use plexy_glass::{Row, Scrollback};

#[test]
fn push_respects_cap() {
    let mut s = Scrollback::with_cap(3);
    for _ in 0..5 {
        s.push(Row::blank(1));
    }
    assert_eq!(s.len(), 3);
}

#[test]
fn fifo_order_when_overflowing() {
    let mut s = Scrollback::with_cap(2);
    let mut a = Row::blank(1);
    a.cells[0].grapheme = "A".into();
    let mut b = Row::blank(1);
    b.cells[0].grapheme = "B".into();
    let mut c = Row::blank(1);
    c.cells[0].grapheme = "C".into();
    s.push(a);
    s.push(b);
    s.push(c);
    let texts: Vec<&str> = s.rows().iter().map(|r| r.cells[0].grapheme.as_str()).collect();
    assert_eq!(texts, vec!["B", "C"]);
}

#[test]
fn empty_default() {
    let s = Scrollback::default();
    assert!(s.is_empty());
}
