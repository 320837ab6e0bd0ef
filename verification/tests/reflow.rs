use plexy_glass::coords;
use plexy_glass::reflow::reflow;
use plexy_glass::{Cell, Cursor, Grid, Row, RowMark, Scrollback, WrapOrigin};
use smol_str::SmolStr;

fn cell(s: &str) -> Cell {
    Cell {
        grapheme: SmolStr::new(s),
        ..Cell::default()
    }
}

fn fill_row(cells: &[&str], origin: WrapOrigin) -> Row {
    Row {
        cells: cells.iter().map(|s| cell(s)).collect(),
        wrap_origin: origin,
        mark: RowMark::default(),
    }
}

fn row_text(r: &Row) -> String {
    r.cells
        .iter()
        .filter(|c| !c.is_wide_spacer())
        .map(|c| c.grapheme.as_str())
        .collect::<String>()
        .trim_end()
        .to_string()
}

#[test]
fn narrow_to_wide_unwraps_soft_lines() {
    let mut active = Grid {
        cols: 4,
        rows: vec![
            fill_row(&["H", "e", "l", "l"], WrapOrigin::Hard),
            fill_row(&["o", "!", " ", " "], WrapOrigin::SoftFrom(0)),
        ],
    };
    let mut sb = Scrollback::with_cap(100);
    let mut c = Cursor {
        row: coords::Row::new(1),
        col: coords::Col::new(2),
        ..Cursor::default()
    };

    reflow(&mut active, &mut sb, &mut c, 2, 8);

    assert_eq!(active.cols, 8);
    assert_eq!(active.rows.len(), 2);

    assert_eq!(row_text(&active.rows[0]), "Hello!");
    assert_eq!(active.rows[0].wrap_origin, WrapOrigin::Hard);

    assert_eq!(c.row.get(), 0);
    assert_eq!(c.col.get(), 6);
}

#[test]
fn wide_char_at_col0_in_one_col_grid_stays_rectangular() {
    let mut active = Grid {
        cols: 2,
        rows: vec![Row {
            cells: vec![cell("あ"), Cell::wide_spacer()],
            wrap_origin: WrapOrigin::Hard,
            mark: RowMark::default(),
        }],
    };
    let mut sb = Scrollback::with_cap(100);
    let mut c = Cursor::default();
    reflow(&mut active, &mut sb, &mut c, 4, 1);
    assert_eq!(active.cols, 1);
    for r in &active.rows {
        assert_eq!(r.cells.len(), 1, "every row must be exactly 1 cell wide");
    }
}

#[test]
fn cursor_past_text_tracks_row_after_join() {
    let mut active = Grid {
        cols: 8,
        rows: vec![
            fill_row(&["H", "e", "l", "l", "o", " ", "W", "o"], WrapOrigin::Hard),
            fill_row(&["r", "l", "d", " ", " ", " ", " ", " "], WrapOrigin::SoftFrom(0)),
            fill_row(&["a", "b", " ", " ", " ", " ", " ", " "], WrapOrigin::Hard),
        ],
    };
    let mut sb = Scrollback::with_cap(100);
    let mut c = Cursor {
        row: coords::Row::new(2),
        col: coords::Col::new(5),
        ..Cursor::default()
    };
    reflow(&mut active, &mut sb, &mut c, 4, 16);
    assert_eq!(row_text(&active.rows[0]), "Hello World");
    assert_eq!(row_text(&active.rows[1]), "ab");
    assert_eq!(c.row.get(), 1, "cursor must follow 'ab' to the joined-up row");
}

#[test]
fn cursor_on_wide_spacer_normalizes_to_partner() {
    let mut active = Grid {
        cols: 8,
        rows: vec![Row {
            cells: vec![
                cell("あ"),
                Cell::wide_spacer(),
                cell("b"),
                cell("c"),
                Cell::default(),
                Cell::default(),
                Cell::default(),
                Cell::default(),
            ],
            wrap_origin: WrapOrigin::Hard,
            mark: RowMark::default(),
        }],
    };
    let mut sb = Scrollback::with_cap(100);
    let mut c = Cursor {
        row: coords::Row::new(0),
        col: coords::Col::new(1),
        ..Cursor::default()
    };
    reflow(&mut active, &mut sb, &mut c, 4, 16);
    assert_eq!(c.row.get(), 0);
    assert_eq!(c.col.get(), 0, "spacer cursor must resolve to the wide grapheme");
}

#[test]
fn wide_char_wraps_whole_not_split() {
    let mut active = Grid {
        cols: 4,
        rows: vec![Row {
            cells: vec![cell("a"), cell("好"), Cell::wide_spacer(), Cell::default()],
            wrap_origin: WrapOrigin::Hard,
            mark: RowMark::default(),
        }],
    };
    let mut sb = Scrollback::with_cap(100);
    let mut c = Cursor::default();
    reflow(&mut active, &mut sb, &mut c, 4, 2);
    assert_eq!(active.cols, 2);
    assert_eq!(row_text(&active.rows[0]), "a");
    assert_eq!(row_text(&active.rows[1]), "好");

    assert_eq!(active.rows[1].cells.len(), 2);
    assert!(active.rows[1].cells[1].is_wide_spacer());
}

#[test]
fn combining_mark_cell_survives_reflow() {
    let mut active = Grid {
        cols: 4,
        rows: vec![fill_row(&["a\u{0301}", "b", " ", " "], WrapOrigin::Hard)],
    };
    let mut sb = Scrollback::with_cap(100);
    let mut c = Cursor::default();
    reflow(&mut active, &mut sb, &mut c, 4, 8);
    assert_eq!(active.cols, 8);
    assert_eq!(active.rows[0].cells[0].grapheme.as_str(), "a\u{0301}");
    assert_eq!(active.rows[0].cells[1].grapheme.as_str(), "b");
}

#[test]
fn wide_to_narrow_re_wraps() {
    let mut active = Grid {
        cols: 11,
        rows: vec![fill_row(
            &["H", "e", "l", "l", "o", " ", "W", "o", "r", "l", "d"],
            WrapOrigin::Hard,
        )],
    };
    let mut sb = Scrollback::with_cap(100);
    let mut c = Cursor::default();

    reflow(&mut active, &mut sb, &mut c, 4, 6);

    assert_eq!(active.cols, 6);
    assert!(active.rows.len() >= 2);
    assert_eq!(row_text(&active.rows[0]), "Hello");
    assert_eq!(row_text(&active.rows[1]), "World");
    assert!(matches!(active.rows[1].wrap_origin, WrapOrigin::SoftFrom(_)));
}

#[test]
fn empty_hard_lines_preserved() {
    let mut active = Grid {
        cols: 4,
        rows: vec![
            fill_row(&[" ", " ", " ", " "], WrapOrigin::Hard),
            fill_row(&[" ", " ", " ", " "], WrapOrigin::Hard),
        ],
    };
    let mut sb = Scrollback::with_cap(100);
    let mut c = Cursor::default();
    reflow(&mut active, &mut sb, &mut c, 2, 4);
    assert_eq!(active.rows.len(), 2);
    for r in &active.rows {
        assert!(r.cells.iter().all(Cell::is_blank));
    }
}

fn with_mark(mut row: Row, flag: u8, exit: Option<i32>) -> Row {
    row.mark.set(flag);
    if exit.is_some() {
        row.mark.set_exit(exit);
    }
    row
}

#[test]
fn narrower_reflow_puts_mark_on_lines_first_row_only() {

    let mut active = Grid {
        cols: 11,
        rows: vec![with_mark(
            fill_row(
                &["H", "e", "l", "l", "o", " ", "W", "o", "r", "l", "d"],
                WrapOrigin::Hard,
            ),
            RowMark::PROMPT_START,
            Some(0),
        )],
    };
    let mut sb = Scrollback::with_cap(100);
    let mut c = Cursor::default();

    reflow(&mut active, &mut sb, &mut c, 4, 6);

    assert_eq!(row_text(&active.rows[0]), "Hello");
    assert_eq!(row_text(&active.rows[1]), "World");
    assert!(active.rows[0].mark.contains(RowMark::PROMPT_START));
    assert_eq!(active.rows[0].mark.exit(), Some(0));
    assert!(
        active.rows[1].mark.is_empty(),
        "continuation rows must be markless"
    );
}

#[test]
fn wider_reflow_merges_marks_onto_joined_lines_first_row() {

    let mut active = Grid {
        cols: 4,
        rows: vec![
            with_mark(
                fill_row(&["H", "e", "l", "l"], WrapOrigin::Hard),
                RowMark::PROMPT_START,
                None,
            ),
            with_mark(
                fill_row(&["o", "!", " ", " "], WrapOrigin::SoftFrom(0)),
                RowMark::BLOCK_END,
                Some(3),
            ),
        ],
    };
    let mut sb = Scrollback::with_cap(100);
    let mut c = Cursor::default();

    reflow(&mut active, &mut sb, &mut c, 2, 8);

    assert_eq!(row_text(&active.rows[0]), "Hello!");
    let mark = active.rows[0].mark;
    assert!(mark.contains(RowMark::PROMPT_START));
    assert!(mark.contains(RowMark::BLOCK_END));
    assert_eq!(mark.exit(), Some(3));
}

#[test]
fn reflow_round_trip_preserves_mark() {
    let mut active = Grid {
        cols: 11,
        rows: vec![with_mark(
            fill_row(
                &["H", "e", "l", "l", "o", " ", "W", "o", "r", "l", "d"],
                WrapOrigin::Hard,
            ),
            RowMark::OUTPUT_START,
            Some(1),
        )],
    };
    let mut sb = Scrollback::with_cap(100);
    let mut c = Cursor::default();

    reflow(&mut active, &mut sb, &mut c, 4, 6);
    reflow(&mut active, &mut sb, &mut c, 4, 11);

    assert_eq!(row_text(&active.rows[0]), "Hello World");
    assert!(active.rows[0].mark.contains(RowMark::OUTPUT_START));
    assert_eq!(active.rows[0].mark.exit(), Some(1));
    assert!(active.rows[1].mark.is_empty());
}

#[test]
fn empty_marked_line_keeps_mark_through_reflow() {

    let mut active = Grid {
        cols: 4,
        rows: vec![
            with_mark(
                fill_row(&[" ", " ", " ", " "], WrapOrigin::Hard),
                RowMark::BLOCK_END,
                Some(0),
            ),
            fill_row(&["x", " ", " ", " "], WrapOrigin::Hard),
        ],
    };
    let mut sb = Scrollback::with_cap(100);
    let mut c = Cursor::default();

    reflow(&mut active, &mut sb, &mut c, 2, 8);

    assert!(active.rows[0].mark.contains(RowMark::BLOCK_END));
    assert_eq!(active.rows[0].mark.exit(), Some(0));
    assert!(active.rows[1].mark.is_empty());
}

#[test]
fn shrink_to_zero_clamps_to_one() {
    let mut active = Grid::new(3, 3);
    let mut sb = Scrollback::with_cap(100);
    let mut c = Cursor::default();
    reflow(&mut active, &mut sb, &mut c, 0, 0);
    assert!(active.num_rows() >= 1);
    assert!(active.num_cols() >= 1);
}

fn with_prompt_end(mut row: Row, col: u16) -> Row {
    row.mark.set_prompt_end(col);
    row
}

#[test]
fn reflow_carries_prompt_end_to_logical_first_row() {

    let mut active = Grid {
        cols: 11,
        rows: vec![with_prompt_end(
            fill_row(
                &["$", " ", "c", "m", "d", " ", "a", "r", "g", " ", " "],
                WrapOrigin::Hard,
            ),
            4,
        )],
    };
    let mut sb = Scrollback::with_cap(100);
    let mut c = Cursor::default();

    reflow(&mut active, &mut sb, &mut c, 4, 6);

    assert!(
        active.rows[0].mark.contains(RowMark::PROMPT_END),
        "PROMPT_END must be on the first physical row after narrower reflow"
    );
    assert_eq!(
        active.rows[0].mark.prompt_end_col(),
        Some(4),
        "prompt_end_col must survive narrower reflow unchanged"
    );
    assert!(
        !active.rows[1].mark.contains(RowMark::PROMPT_END),
        "continuation row must not have PROMPT_END"
    );
}

#[test]
fn reflow_merge_both_carry_prompt_end_other_col_wins() {

    let mut r0 = fill_row(&["a", "b", "c", "d"], WrapOrigin::Hard);
    r0.mark.set_prompt_end(2);

    let mut r1 = fill_row(&["e", "f", " ", " "], WrapOrigin::SoftFrom(0));
    r1.mark.set_prompt_end(6);

    let mut active = Grid { cols: 4, rows: vec![r0, r1] };
    let mut sb = Scrollback::with_cap(100);
    let mut c = Cursor::default();

    reflow(&mut active, &mut sb, &mut c, 2, 8);

    let mark = active.rows[0].mark;
    assert!(mark.contains(RowMark::PROMPT_END));
    assert_eq!(
        mark.prompt_end_col(),
        Some(6),
        "other row's col wins when both carry PROMPT_END"
    );
}

#[test]
fn cursor_mid_soft_line_offset_uses_addition() {
    let mut active = Grid {
        cols: 2,
        rows: vec![
            fill_row(&["a", "b"], WrapOrigin::Hard),
            fill_row(&["c", "d"], WrapOrigin::SoftFrom(0)),
        ],
    };
    let mut sb = Scrollback::with_cap(100);
    let mut c = Cursor { row: coords::Row::new(1), col: coords::Col::new(0), ..Cursor::default() };
    reflow(&mut active, &mut sb, &mut c, 2, 4);
    assert_eq!(c.row.get(), 0);
    assert_eq!(c.col.get(), 2, "logical col = col_offset(2) + cursor_col(0) = 2, not 2*0=0");
}

#[test]
fn cursor_on_empty_logical_line_follows_reflow() {
    let mut active = Grid {
        cols: 3,
        rows: vec![
            fill_row(&["a", "b", "c"], WrapOrigin::Hard),
            fill_row(&["d", "e", "f"], WrapOrigin::SoftFrom(0)),
            fill_row(&[" ", " ", " "], WrapOrigin::Hard),
            fill_row(&[" ", " ", " "], WrapOrigin::Hard),
        ],
    };
    let mut sb = Scrollback::with_cap(100);
    let mut c = Cursor { row: coords::Row::new(2), col: coords::Col::new(0), ..Cursor::default() };
    reflow(&mut active, &mut sb, &mut c, 4, 6);
    assert_eq!(c.row.get(), 1, "empty logical line must follow join of 'abcdef' to row 1");
    assert_eq!(c.col.get(), 0);
}

#[test]
fn exact_fit_wide_char_stays_on_current_row() {
    let mut active = Grid {
        cols: 3,
        rows: vec![Row {
            cells: vec![cell("a"), cell("好"), Cell::wide_spacer()],
            wrap_origin: WrapOrigin::Hard,
            mark: RowMark::default(),
        }],
    };
    let mut sb = Scrollback::with_cap(100);
    let mut c = Cursor::default();
    reflow(&mut active, &mut sb, &mut c, 2, 3);
    assert_eq!(row_text(&active.rows[0]), "a好",
        "col+2==nc means fits exactly; >= mutation wrongly wraps it to the next row");
}

#[test]
fn fitting_wide_char_not_spuriously_wrapped() {
    let mut active = Grid {
        cols: 4,
        rows: vec![Row {
            cells: vec![cell("a"), cell("好"), Cell::wide_spacer(), Cell::default()],
            wrap_origin: WrapOrigin::Hard,
            mark: RowMark::default(),
        }],
    };
    let mut sb = Scrollback::with_cap(100);
    let mut c = Cursor::default();
    reflow(&mut active, &mut sb, &mut c, 2, 4);
    assert_eq!(row_text(&active.rows[0]), "a好",
        "col+2=3 < nc=4 so wide char fits; < mutation wrongly pads and wraps");
}

#[test]
fn wide_char_overflow_check_uses_addition() {
    let mut active = Grid {
        cols: 5,
        rows: vec![Row {
            cells: vec![cell("a"), cell("b"), cell("c"), cell("好"), Cell::wide_spacer()],
            wrap_origin: WrapOrigin::Hard,
            mark: RowMark::default(),
        }],
    };
    let mut sb = Scrollback::with_cap(100);
    let mut c = Cursor::default();
    reflow(&mut active, &mut sb, &mut c, 2, 5);
    assert_eq!(row_text(&active.rows[0]), "abc好",
        "3+2=5 (no overflow); * mutation gives 3*2=6>5 and spuriously wraps");
}

#[test]
fn wide_char_at_col0_no_spurious_blank_row() {
    let mut active = Grid {
        cols: 2,
        rows: vec![Row {
            cells: vec![cell("好"), Cell::wide_spacer()],
            wrap_origin: WrapOrigin::Hard,
            mark: RowMark::default(),
        }],
    };
    let mut sb = Scrollback::with_cap(100);
    let mut c = Cursor::default();
    reflow(&mut active, &mut sb, &mut c, 4, 1);
    assert_eq!(active.rows[0].cells[0].grapheme.as_str(), "好",
        ">= mutation inserts a spurious blank row 0 before the wide char");
}

#[test]
fn wide_char_pad_loop_does_not_overshoot() {
    let mut active = Grid {
        cols: 5,
        rows: vec![Row {
            cells: vec![cell("a"), cell("b"), cell("好"), Cell::wide_spacer(), Cell::default()],
            wrap_origin: WrapOrigin::Hard,
            mark: RowMark::default(),
        }],
    };
    let mut sb = Scrollback::with_cap(100);
    let mut c = Cursor::default();
    reflow(&mut active, &mut sb, &mut c, 3, 3);
    for (i, row) in active.rows.iter().enumerate() {
        assert_eq!(row.cells.len(), 3,
            "row {i} must have exactly 3 cells; <= mutation adds an extra blank");
    }
}

#[test]
fn wide_char_spacer_col_counted() {
    let mut active = Grid {
        cols: 4,
        rows: vec![Row {
            cells: vec![cell("好"), Cell::wide_spacer(), cell("好"), Cell::wide_spacer()],
            wrap_origin: WrapOrigin::Hard,
            mark: RowMark::default(),
        }],
    };
    let mut sb = Scrollback::with_cap(100);
    let mut c = Cursor { row: coords::Row::new(0), col: coords::Col::new(2), ..Cursor::default() };
    reflow(&mut active, &mut sb, &mut c, 3, 2);
    assert_eq!(active.cols, 2);
    for (i, row) in active.rows.iter().enumerate() {
        assert_eq!(row.cells.len(), 2, "row {i} must have exactly 2 cells");
    }
    assert_eq!(row_text(&active.rows[0]), "好");
    assert_eq!(row_text(&active.rows[1]), "好");
    assert_eq!(c.row.get(), 1, "cursor at col=2 of 4-col row must follow second '好' to row 1");
    assert_eq!(c.col.get(), 0);
}

#[test]
fn combining_mark_merges_into_prev_cell() {
    let mut active = Grid {
        cols: 3,
        rows: vec![Row {
            cells: vec![cell("a"), cell("\u{0301}"), cell("b")],
            wrap_origin: WrapOrigin::Hard,
            mark: RowMark::default(),
        }],
    };
    let mut sb = Scrollback::with_cap(100);
    let mut c = Cursor::default();
    reflow(&mut active, &mut sb, &mut c, 2, 2);
    assert_eq!(row_text(&active.rows[0]), "a\u{0301}b",
        "combining mark merges into 'a'; without merge 'b' col overflows to next row");
}

#[test]
fn lone_combining_mark_first_cell_does_not_panic() {
    let mut active = Grid {
        cols: 1,
        rows: vec![Row {
            cells: vec![cell("\u{0301}")],
            wrap_origin: WrapOrigin::Hard,
            mark: RowMark::default(),
        }],
    };
    let mut sb = Scrollback::with_cap(100);
    let mut c = Cursor::default();
    reflow(&mut active, &mut sb, &mut c, 2, 1);
    assert_eq!(active.cols, 1);
    for (i, row) in active.rows.iter().enumerate() {
        assert_eq!(row.cells.len(), 1, "row {i} must have 1 cell");
    }
}
