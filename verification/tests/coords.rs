use plexy_glass::coords::{Col, Row};

#[test]
fn new_get_round_trip() {
    assert_eq!(Row::new(7).get(), 7);
    assert_eq!(Col::new(42).get(), 42);
    assert_eq!(Row::new(0).get(), 0);
    assert_eq!(Col::new(0).get(), 0);
}

#[test]
fn advance_retreat_saturate() {
    assert_eq!(Row::new(3).advance(2), Row::new(5));
    assert_eq!(Row::new(3).retreat(2), Row::new(1));
    assert_eq!(Row::new(1).retreat(5), Row::new(0), "retreat saturates at 0");
    assert_eq!(
        Col::new(u16::MAX).advance(5),
        Col::new(u16::MAX),
        "advance saturates at u16::MAX"
    );
}

#[test]
fn ord_is_by_index() {
    assert!(Row::new(2) < Row::new(3));
    assert_eq!(Row::new(2).max(Row::new(5)), Row::new(5));
    assert_eq!(Col::new(2).min(Col::new(5)), Col::new(2));
}
