use plexy_glass::keyboard::KITTY_STACK_CAP;
use plexy_glass::KeyboardState;

#[test]
fn modify_other_keys_default_zero() {
    let k = KeyboardState::default();
    assert_eq!(k.modify_other_keys(), 0);
}

#[test]
fn modify_other_keys_set_and_reset() {
    let mut k = KeyboardState::default();
    k.set_modify_other_keys(2);
    assert_eq!(k.modify_other_keys(), 2);
    k.reset_modify_other_keys();
    assert_eq!(k.modify_other_keys(), 0);
}

#[test]
fn modify_other_keys_clamps_out_of_range() {
    let mut k = KeyboardState::default();
    k.set_modify_other_keys(9);
    assert_eq!(k.modify_other_keys(), 0, "out-of-range level is ignored");
}

#[test]
fn kitty_set_mode1_sets_exactly() {
    let mut k = KeyboardState::default();
    k.kitty_set(false, 0b0011, 1);
    assert_eq!(k.kitty_flags(false), 0b0011);
    k.kitty_set(false, 0b1100, 1);
    assert_eq!(k.kitty_flags(false), 0b1100, "mode=1 replaces, not ORs");
}

#[test]
fn kitty_set_mode2_ors_in_flags() {
    let mut k = KeyboardState::default();
    k.kitty_set(false, 0b0001, 1);
    k.kitty_set(false, 0b0110, 2);
    assert_eq!(k.kitty_flags(false), 0b0111, "mode=2 should OR flags in");
}

#[test]
fn kitty_set_mode3_clears_bits() {
    let mut k = KeyboardState::default();
    k.kitty_set(false, 0b0111, 1);
    k.kitty_set(false, 0b0010, 3);
    assert_eq!(k.kitty_flags(false), 0b0101, "mode=3 should clear listed bits");
}

#[test]
fn kitty_push_pop_round_trip() {
    let mut k = KeyboardState::default();
    k.kitty_set(false, 0b0001, 1);
    k.kitty_push(false, 0b0010);
    assert_eq!(k.kitty_flags(false), 0b0010);
    k.kitty_pop(false, 1);
    assert_eq!(k.kitty_flags(false), 0b0001, "pop restores previous value");
}

#[test]
fn kitty_push_evicts_oldest_at_cap() {
    let mut k = KeyboardState::default();

    k.kitty_set(false, 0x01, 1);

    for i in 2..=(KITTY_STACK_CAP as u8 + 1) {
        k.kitty_push(false, i);
    }

    k.kitty_push(false, 0xFF);

    for _ in 0..KITTY_STACK_CAP {
        k.kitty_pop(false, 1);
    }

    k.kitty_pop(false, 1);
    assert_eq!(
        k.kitty_flags(false),
        0,
        "stack was fully drained; 0x01 (oldest) should have been evicted"
    );
}

#[test]
fn kitty_main_and_alt_are_independent() {
    let mut k = KeyboardState::default();
    k.kitty_set(false, 0xAA, 1);
    k.kitty_set(true, 0x55, 1);
    assert_eq!(k.kitty_flags(false), 0xAA);
    assert_eq!(k.kitty_flags(true), 0x55);
}

#[test]
fn kitty_push_no_eviction_at_exactly_cap() {
    let mut k = KeyboardState::default();
    k.kitty_set(false, 0xAA, 1);
    for i in 0..KITTY_STACK_CAP {
        k.kitty_push(false, i as u8);
    }

    for _ in 0..KITTY_STACK_CAP {
        k.kitty_pop(false, 1);
    }
    assert_eq!(k.kitty_flags(false), 0xAA, "sentinel must survive: no eviction at exactly cap");
}

#[test]
fn kitty_reset_clears_all() {
    let mut k = KeyboardState::default();
    k.kitty_set(false, 0xFF, 1);
    k.kitty_push(false, 0x0F);
    k.reset();
    assert_eq!(k.kitty_flags(false), 0);
    assert_eq!(k.modify_other_keys(), 0);
}
