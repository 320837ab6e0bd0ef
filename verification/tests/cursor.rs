use plexy_glass::coords::{Col, Row};
use plexy_glass::{Cursor, CursorShape};

#[test]
fn default_at_home_visible_default_shape() {
    let c = Cursor::default();
    assert_eq!((c.row, c.col), (Row::new(0), Col::new(0)));
    assert!(c.visible);
    assert_eq!(c.shape, CursorShape::Default);
    assert!(!c.pending_wrap);
}

#[test]
fn move_to_clamps() {
    let mut c = Cursor::default();
    c.move_to(Row::new(100), Col::new(100), Row::new(24), Col::new(80));
    assert_eq!((c.row, c.col), (Row::new(23), Col::new(79)));
}

#[test]
fn up_saturates_at_zero() {
    let mut c = Cursor {
        row: Row::new(2),
        ..Cursor::default()
    };
    c.up(5);
    assert_eq!(c.row, Row::new(0));
}

#[test]
fn down_clamps_to_max() {
    let mut c = Cursor {
        row: Row::new(20),
        ..Cursor::default()
    };
    c.down(10, Row::new(24));
    assert_eq!(c.row, Row::new(23));
}

#[test]
fn left_decrements_col() {
    let mut c = Cursor {
        col: Col::new(10),
        ..Cursor::default()
    };
    c.left(3);
    assert_eq!(c.col, Col::new(7));
}

#[test]
fn left_saturates_at_zero() {
    let mut c = Cursor {
        col: Col::new(2),
        ..Cursor::default()
    };
    c.left(5);
    assert_eq!(c.col, Col::new(0));
}

#[test]
fn right_increments_col() {
    let mut c = Cursor {
        col: Col::new(5),
        ..Cursor::default()
    };
    c.right(3, Col::new(80));
    assert_eq!(c.col, Col::new(8));
}

#[test]
fn motion_clears_pending_wrap() {
    let mut c = Cursor {
        pending_wrap: true,
        ..Cursor::default()
    };
    c.right(1, Col::new(80));
    assert!(!c.pending_wrap);
}

#[test]
fn left_clears_pending_wrap() {
    let mut c = Cursor {
        col: Col::new(5),
        pending_wrap: true,
        ..Cursor::default()
    };
    c.left(1);
    assert!(!c.pending_wrap);
    assert_eq!(c.col, Col::new(4));
}
