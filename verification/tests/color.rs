use plexy_glass::Color;

#[test]
fn default_is_default_variant() {
    assert_eq!(Color::default(), Color::Default);
}

#[test]
fn indexed_roundtrips() {
    let c = Color::Indexed(42);
    assert_eq!(c, Color::Indexed(42));
    assert_ne!(c, Color::Default);
}

#[test]
fn rgb_roundtrips() {
    let c = Color::Rgb(10, 20, 30);
    assert_eq!(c, Color::Rgb(10, 20, 30));
    assert_ne!(c, Color::Rgb(10, 20, 31));
}

#[test]
fn from_ansi_basic_uses_index() {
    assert_eq!(Color::from_ansi_basic(1), Color::Indexed(1));
    assert_eq!(Color::from_ansi_basic(7), Color::Indexed(7));
}

#[test]
fn from_ansi_bright_offsets_by_eight() {
    assert_eq!(Color::from_ansi_bright(0), Color::Indexed(8));
    assert_eq!(Color::from_ansi_bright(7), Color::Indexed(15));
}
