use plexy_glass::{Cell, Grid, Row, RowMark};
use smol_str::SmolStr;

fn x_cell() -> Cell {
    Cell {
        grapheme: SmolStr::new("X"),
        ..Cell::default()
    }
}

#[test]
fn row_mark_stays_small() {
    assert!(std::mem::size_of::<RowMark>() <= 12);
}

#[test]
fn duration_set_clear_and_read() {
    let mut m = RowMark::default();
    assert_eq!(m.duration_ms(), None);
    m.set_duration(Some(2300));
    assert_eq!(m.duration_ms(), Some(2300));
    m.set_duration(None);
    assert_eq!(m.duration_ms(), None);
    assert_eq!(m, RowMark::default(), "clearing duration restores default");
}

#[test]
fn has_duration_does_not_collide_with_other_bits() {
    let mut m = RowMark::default();
    m.set_duration(Some(5));
    assert!(!m.contains(RowMark::PROMPT_START));
    assert!(!m.contains(RowMark::OUTPUT_START));
    assert!(!m.contains(RowMark::BLOCK_END));
    assert!(!m.contains(RowMark::PROMPT_END));
    assert!(!m.is_folded());
    assert_eq!(m.exit(), None);
}

#[test]
fn merge_carries_duration_other_wins() {
    let mut base = RowMark::default();
    base.set(RowMark::BLOCK_END);
    let mut other = RowMark::default();
    other.set_duration(Some(1234));
    base.merge(other);
    assert_eq!(base.duration_ms(), Some(1234));
}

#[test]
fn row_mark_default_is_empty() {
    let m = RowMark::default();
    assert!(m.is_empty());
    assert!(!m.contains(RowMark::PROMPT_START));
    assert!(!m.contains(RowMark::OUTPUT_START));
    assert!(!m.contains(RowMark::BLOCK_END));
    assert!(!m.contains(RowMark::PROMPT_END));
    assert_eq!(m.exit(), None);

    assert_eq!(m.prompt_end_col(), None);
}

#[test]
fn folded_flag_set_clear_and_compare() {
    let mut m = RowMark::default();
    assert!(!m.is_folded());
    m.set_folded(true);
    assert!(m.is_folded());

    assert_ne!(m, RowMark::default());
    m.set_folded(false);
    assert!(!m.is_folded());
    assert_eq!(m, RowMark::default());
}

#[test]
fn merge_ors_the_folded_flag() {
    let mut base = RowMark::default();
    base.set(RowMark::PROMPT_START);
    base.set_folded(true);
    let mut other = RowMark::default();
    other.set(RowMark::OUTPUT_START);
    base.merge(other);
    assert!(base.is_folded(), "merge ORs FOLDED");
    assert!(base.contains(RowMark::OUTPUT_START));

    let mut a = RowMark::default();
    a.set(RowMark::PROMPT_START);
    let mut b = RowMark::default();
    b.set_folded(true);
    a.merge(b);
    assert!(a.is_folded());
}

#[test]
fn folded_flag_does_not_collide_with_133_bits() {
    let mut m = RowMark::default();
    m.set(RowMark::PROMPT_START);
    m.set_folded(true);

    assert!(m.contains(RowMark::PROMPT_START));
    assert!(!m.contains(RowMark::OUTPUT_START));
    assert_eq!(m.exit(), None);
    m.set_folded(false);
    assert!(m.contains(RowMark::PROMPT_START), "unfold leaves 133 marks");
}

#[test]
fn prompt_end_col_round_trip() {
    let mut m = RowMark::default();

    assert_eq!(m.prompt_end_col(), None);

    m.set_prompt_end(5);
    assert!(m.contains(RowMark::PROMPT_END));
    assert_eq!(m.prompt_end_col(), Some(5));

    m.set_prompt_end(10);
    assert_eq!(m.prompt_end_col(), Some(10));
}

#[test]
fn prompt_end_col_zeroed_when_flag_unset() {
    let m = RowMark::default();
    assert_eq!(m.prompt_end_col(), None, "no flag → None even if internal 0");

    let mut with_flag = RowMark::default();
    with_flag.set_prompt_end(0);
    assert_ne!(m, with_flag, "flag bit distinguishes the two states");
}

#[test]
fn merge_prompt_end_col_other_wins() {
    let mut base = RowMark::default();
    base.set_prompt_end(3);

    let mut other = RowMark::default();
    other.set_prompt_end(7);

    base.merge(other);
    assert!(base.contains(RowMark::PROMPT_END));
    assert_eq!(base.prompt_end_col(), Some(7), "other's col must win on merge");
}

#[test]
fn merge_prompt_end_col_only_self_has_flag() {
    let mut base = RowMark::default();
    base.set_prompt_end(3);

    let other = RowMark::default();

    base.merge(other);
    assert!(base.contains(RowMark::PROMPT_END));
    assert_eq!(base.prompt_end_col(), Some(3), "self col preserved when other has no flag");
}

#[test]
fn merge_flags_or_ed() {
    let mut a = RowMark::default();
    a.set(RowMark::PROMPT_START);
    a.set_prompt_end(1);

    let mut b = RowMark::default();
    b.set(RowMark::BLOCK_END);
    b.set_exit(Some(0));

    a.merge(b);
    assert!(a.contains(RowMark::PROMPT_START));
    assert!(a.contains(RowMark::BLOCK_END));
    assert!(a.contains(RowMark::PROMPT_END));
    assert_eq!(a.exit(), Some(0));
    assert_eq!(a.prompt_end_col(), Some(1));
}

#[test]
fn row_mark_set_and_exit_round_trip() {
    let mut m = RowMark::default();
    m.set(RowMark::BLOCK_END);
    m.set_exit(Some(0));
    assert!(m.contains(RowMark::BLOCK_END));
    assert_eq!(m.exit(), Some(0));

    m.set(RowMark::BLOCK_END);
    assert_eq!(m.exit(), Some(0));
    m.set_exit(None);
    assert_eq!(m.exit(), None);
    assert!(m.contains(RowMark::BLOCK_END), "clearing exit keeps the flag");
}

#[test]
fn blank_rows_are_markless() {
    assert!(Row::blank(4).mark.is_empty());
    let g = Grid::new(2, 2);
    assert!(g.rows.iter().all(|r| r.mark.is_empty()));
}

#[test]
fn new_grid_has_blank_rows() {
    let g = Grid::new(3, 4);
    assert_eq!(g.num_rows(), 3);
    assert_eq!(g.num_cols(), 4);
    assert!(g.get_cell(0, 0).unwrap().is_blank());
}

#[test]
fn put_cell_oob_is_noop() {
    let mut g = Grid::new(2, 2);
    g.put_cell(99, 99, x_cell());
    for r in 0..2 {
        for c in 0..2 {
            assert!(g.get_cell(r, c).unwrap().is_blank());
        }
    }
}

#[test]
fn clear_resets_row_marks() {
    let mut g = Grid::new(2, 2);
    g.rows[0].mark.set(RowMark::PROMPT_START);
    g.rows[0].mark.set_exit(Some(0));
    g.clear();
    assert!(g.rows.iter().all(|r| r.mark.is_empty()));
}

#[test]
fn clear_rect_keeps_row_marks() {
    let mut g = Grid::new(2, 2);
    g.rows[0].mark.set(RowMark::PROMPT_START);
    g.clear_rect(0, 0, 1, 1);
    assert!(g.rows[0].mark.contains(RowMark::PROMPT_START));
}

#[test]
fn clear_rect_clears_inclusive_range() {
    let mut g = Grid::new(3, 3);
    for r in 0..3 {
        for c in 0..3 {
            g.put_cell(r, c, x_cell());
        }
    }
    g.clear_rect(1, 1, 2, 2);
    assert_eq!(g.get_cell(0, 0).unwrap(), &x_cell());
    assert!(g.get_cell(1, 1).unwrap().is_blank());
    assert!(g.get_cell(2, 2).unwrap().is_blank());
}

#[test]
fn scroll_up_moves_rows_and_blanks_bottom() {
    let mut g = Grid::new(3, 1);
    g.put_cell(0, 0, x_cell());
    g.scroll_up(0, 2, 1, None);
    assert!(g.get_cell(0, 0).unwrap().is_blank());
    assert!(g.get_cell(2, 0).unwrap().is_blank());
}

#[test]
fn scroll_up_collects_popped() {
    let mut g = Grid::new(3, 1);
    g.put_cell(0, 0, x_cell());
    let mut out = Vec::new();
    g.scroll_up(0, 2, 1, Some(&mut out));
    assert_eq!(out.len(), 1);
    assert_eq!(out[0].cells[0], x_cell());
}

#[test]
fn scroll_down_blanks_top_discards_bottom() {
    let mut g = Grid::new(3, 1);
    g.put_cell(2, 0, x_cell());
    g.scroll_down(0, 2, 1);
    assert!(g.get_cell(0, 0).unwrap().is_blank());
    assert!(g.get_cell(2, 0).unwrap().is_blank());
}

#[test]
fn non_empty_mark_is_not_empty() {
    let mut m = RowMark::default();
    assert!(m.is_empty(), "default must be empty");
    m.set(RowMark::PROMPT_START);
    assert!(!m.is_empty(), "a marked RowMark must not report is_empty");
}

#[test]
fn mark_with_only_exit_is_not_empty() {
    let mut m = RowMark::default();
    m.set(RowMark::BLOCK_END);
    m.set_exit(Some(0));
    assert!(!m.is_empty(), "mark with exit code must not be empty");
}

#[test]
fn merge_duration_preserved_when_other_has_none() {
    let mut base = RowMark::default();
    base.set_duration(Some(999));
    let other = RowMark::default();
    base.merge(other);
    assert_eq!(
        base.duration_ms(),
        Some(999),
        "self's duration must survive merge when other has no duration"
    );
}

#[test]
fn clear_rect_single_row_clears() {
    let mut g = Grid::new(3, 3);
    for r in 0..3u16 {
        for c in 0..3u16 {
            g.put_cell(r, c, x_cell());
        }
    }

    g.clear_rect(1, 0, 1, 2);
    for c in 0..3u16 {
        assert!(g.get_cell(1, c).unwrap().is_blank(), "row 1 col {c} must be blank");
    }
    assert_eq!(g.get_cell(0, 0).unwrap(), &x_cell(), "row 0 must be unchanged");
    assert_eq!(g.get_cell(2, 0).unwrap(), &x_cell(), "row 2 must be unchanged");
}

#[test]
fn clear_rect_single_col_clears() {
    let mut g = Grid::new(3, 3);
    for r in 0..3u16 {
        for c in 0..3u16 {
            g.put_cell(r, c, x_cell());
        }
    }

    g.clear_rect(0, 1, 2, 1);
    for r in 0..3u16 {
        assert!(g.get_cell(r, 1).unwrap().is_blank(), "col 1 row {r} must be blank");
    }
    assert_eq!(g.get_cell(0, 0).unwrap(), &x_cell(), "col 0 must be unchanged");
    assert_eq!(g.get_cell(0, 2).unwrap(), &x_cell(), "col 2 must be unchanged");
}

#[test]
fn scroll_up_single_row_blanks_it() {
    let mut g = Grid::new(3, 1);
    g.put_cell(0, 0, x_cell());
    g.put_cell(1, 0, x_cell());
    g.put_cell(2, 0, x_cell());
    g.scroll_up(1, 1, 1, None);
    assert!(g.get_cell(1, 0).unwrap().is_blank(), "single-row scroll must blank row 1");
    assert_eq!(g.get_cell(0, 0).unwrap(), &x_cell(), "row 0 must be unchanged");
    assert_eq!(g.get_cell(2, 0).unwrap(), &x_cell(), "row 2 must be unchanged");
}

#[test]
fn scroll_up_subregion_with_nonzero_top() {
    let mut g = Grid::new(4, 1);
    for r in 0..4u16 {
        g.put_cell(r, 0, x_cell());
    }

    let mut popped = Vec::new();
    g.scroll_up(1, 2, 3, Some(&mut popped));
    assert_eq!(g.get_cell(0, 0).unwrap(), &x_cell(), "row 0 unchanged");
    assert!(g.get_cell(1, 0).unwrap().is_blank(), "row 1 blanked");
    assert!(g.get_cell(2, 0).unwrap().is_blank(), "row 2 blanked");
    assert_eq!(g.get_cell(3, 0).unwrap(), &x_cell(), "row 3 unchanged");
    assert_eq!(popped.len(), 2, "exactly 2 rows popped: n capped to region=bottom-top+1=2, not bottom+top+1=4");
}

#[test]
fn scroll_up_full_region_all_blank() {
    let mut g = Grid::new(3, 1);
    for r in 0..3u16 {
        g.put_cell(r, 0, x_cell());
    }
    g.scroll_up(0, 2, 3, None);
    for r in 0..3u16 {
        assert!(g.get_cell(r, 0).unwrap().is_blank(), "row {r} must be blank after full scroll");
    }
}

#[test]
fn scroll_down_single_row_blanks_it() {
    let mut g = Grid::new(3, 1);
    for r in 0..3u16 {
        g.put_cell(r, 0, x_cell());
    }
    g.scroll_down(1, 1, 1);
    assert!(g.get_cell(1, 0).unwrap().is_blank(), "single-row scroll_down must blank row 1");
    assert_eq!(g.get_cell(0, 0).unwrap(), &x_cell(), "row 0 unchanged");
    assert_eq!(g.get_cell(2, 0).unwrap(), &x_cell(), "row 2 unchanged");
}

#[test]
fn scroll_down_full_region_all_blank() {
    let mut g = Grid::new(3, 1);
    for r in 0..3u16 {
        g.put_cell(r, 0, x_cell());
    }
    g.scroll_down(0, 2, 3);
    for r in 0..3u16 {
        assert!(g.get_cell(r, 0).unwrap().is_blank(), "row {r} must be blank after full scroll_down");
    }
}

#[test]
fn scroll_down_subregion_with_nonzero_top() {
    let mut g = Grid::new(4, 1);
    for r in 0..4u16 {
        g.put_cell(r, 0, x_cell());
    }

    g.scroll_down(1, 2, 2);
    assert_eq!(g.get_cell(0, 0).unwrap(), &x_cell(), "row 0 unchanged");
    assert!(g.get_cell(1, 0).unwrap().is_blank(), "row 1 blanked");
    assert!(g.get_cell(2, 0).unwrap().is_blank(), "row 2 blanked");
    assert_eq!(g.get_cell(3, 0).unwrap(), &x_cell(), "row 3 unchanged");
}
