use plexy_glass::{ColorQuery, Emulator, Row, RowMark, Scrollback};

#[test]
fn advance_writes_to_screen() {
    let mut e = Emulator::new(4, 8);
    e.advance(b"hi");

    e.flush();
    let s = e.screen();
    assert_eq!(s.active.get_cell(0, 0).unwrap().grapheme.as_str(), "h");
    assert_eq!(s.active.get_cell(0, 1).unwrap().grapheme.as_str(), "i");
}

#[test]
fn resize_grows_grid() {
    let mut e = Emulator::new(4, 8);
    e.advance(b"hello");
    e.flush();
    e.resize(4, 16);
    assert_eq!(e.screen().active.num_cols(), 16);
    assert_eq!(e.screen().active.get_cell(0, 0).unwrap().grapheme.as_str(), "h");
}

#[test]
fn resize_carries_prompt_end_mark_via_reflow() {
    let mut e = Emulator::new(4, 8);
    e.advance(b"\x1b]133;B\x07");
    assert!(
        e.screen().active.rows[0]
            .mark
            .contains(RowMark::PROMPT_END),
        "PROMPT_END must be set on row 0 before resize"
    );
    e.resize(4, 16);

    assert!(
        e.screen().active.rows[0]
            .mark
            .contains(RowMark::PROMPT_END),
        "PROMPT_END must survive reflow"
    );
}

#[test]
fn leaving_alt_screen_after_resize_restores_new_dimensions() {
    let mut e = Emulator::new(4, 8);
    e.advance(b"main");
    e.flush();
    e.advance(b"\x1b[?1049h");
    e.advance(b"alt");
    e.flush();
    e.resize(6, 20);
    assert_eq!(e.screen().active.num_cols(), 20);
    assert_eq!(e.screen().active.num_rows(), 6);
    e.advance(b"\x1b[?1049l");
    assert_eq!(
        e.screen().active.num_cols(),
        20,
        "restored main grid must be at the new width"
    );
    assert_eq!(
        e.screen().active.num_rows(),
        6,
        "restored main grid must be at the new height"
    );
    assert_eq!(e.screen().cols(), 20);
    assert_eq!(e.screen().rows(), 6);

    assert_eq!(
        e.screen().active.get_cell(0, 0).unwrap().grapheme.as_str(),
        "m"
    );
}

#[test]
fn dsr_cursor_position_report_queued() {
    let mut e = Emulator::new(8, 24);

    e.advance(b"\x1b[4;6H\x1b[6n");
    let replies = e.take_replies();
    assert_eq!(replies.len(), 1);

    assert_eq!(replies[0], b"\x1b[4;6R");

    assert!(e.take_replies().is_empty());
}

#[test]
fn dsr_status_report_queued() {
    let mut e = Emulator::new(4, 8);
    e.advance(b"\x1b[5n");
    let replies = e.take_replies();
    assert_eq!(replies, vec![b"\x1b[0n".to_vec()]);
}

#[test]
fn primary_da_queued() {
    let mut e = Emulator::new(4, 8);
    e.advance(b"\x1b[c");
    let replies = e.take_replies();
    assert_eq!(replies, vec![b"\x1b[?1;2c".to_vec()]);
}

#[test]
fn secondary_da_queued() {
    let mut e = Emulator::new(4, 8);
    e.advance(b"\x1b[>c");
    let replies = e.take_replies();

    let ver = plexy_glass::screen::csi::pack_da2_version();
    assert_eq!(replies, vec![format!("\x1b[>0;{ver};0c").into_bytes()]);
}

#[test]
fn take_clipboard_writes_drains_after_osc52() {
    let mut e = Emulator::new(4, 8);
    e.advance(b"\x1b]52;c;aGVsbG8=\x07");
    let drained = e.take_clipboard_writes();
    assert_eq!(drained, vec![b"hello".to_vec()]);
    assert!(e.take_clipboard_writes().is_empty());
}

#[test]
fn take_color_queries_drains_after_osc11() {
    let mut e = Emulator::new(4, 8);
    e.advance(b"\x1b]11;?\x07");
    let drained = e.take_color_queries();
    assert_eq!(drained, vec![ColorQuery::Background]);
    assert!(e.take_color_queries().is_empty());
}

fn seed_row(text: &str, cols: u16) -> Row {
    let mut r = Row::blank(cols);
    for (i, ch) in text.chars().enumerate() {
        if (i as u16) < cols {
            r.cells[i].grapheme = ch.to_string().into();
        }
    }
    r
}

#[test]
fn preseed_pushes_rows_into_scrollback_active_blank() {
    let mut e = Emulator::new(4, 8);
    let rows = vec![seed_row("hist1", 8), seed_row("hist2", 8)];
    e.preseed_scrollback(rows);
    let s = e.screen();
    assert_eq!(s.scrollback.len(), 2, "both seeded rows land in scrollback");
    let texts: Vec<String> = s
        .scrollback
        .rows()
        .iter()
        .map(|r| r.cells.iter().map(|c| c.grapheme.as_str()).collect::<String>().trim_end().to_string())
        .collect();
    assert_eq!(texts, vec!["hist1".to_string(), "hist2".to_string()]);

    assert!(s.active.rows.iter().all(|r| r.cells.iter().all(|c| c.is_blank())));

    assert_eq!(s.blocks_completed, 0);
    assert_eq!(s.last_block_exit, None);
}

#[test]
fn preseed_marks_ride_into_scrollback() {
    let mut e = Emulator::new(4, 8);
    let mut prompt = seed_row("$ ls", 8);
    prompt.mark.set(RowMark::PROMPT_START);
    let mut out = seed_row("file", 8);
    out.mark.set(RowMark::OUTPUT_START);
    e.preseed_scrollback(vec![prompt, out]);
    let s = e.screen();
    assert!(s.scrollback.rows()[0].mark.contains(RowMark::PROMPT_START));
    assert!(s.scrollback.rows()[1].mark.contains(RowMark::OUTPUT_START));
}

#[test]
fn preseed_over_cap_keeps_newest() {
    let mut e = Emulator::new(2, 4);
    e.screen_mut().scrollback = Scrollback::with_cap(2);
    let rows = vec![seed_row("A", 4), seed_row("B", 4), seed_row("C", 4)];
    e.preseed_scrollback(rows);
    let s = e.screen();
    assert_eq!(s.scrollback.len(), 2, "cap holds only 2 rows");
    let texts: Vec<String> = s
        .scrollback
        .rows()
        .iter()
        .map(|r| r.cells[0].grapheme.as_str().to_string())
        .collect();
    assert_eq!(texts, vec!["B".to_string(), "C".to_string()], "newest rows kept");
}

#[test]
fn preseed_then_advance_output_goes_below_history() {
    let mut e = Emulator::new(4, 8);
    e.preseed_scrollback(vec![seed_row("OLD", 8)]);

    e.advance(b"NEW");
    e.flush();
    let s = e.screen();
    assert_eq!(s.scrollback.len(), 1, "history still in scrollback");
    assert_eq!(s.scrollback.rows()[0].cells[0].grapheme.as_str(), "O");

    let row0: String = s.active.rows[0].cells.iter().map(|c| c.grapheme.as_str()).collect();
    assert!(row0.starts_with("NEW"), "child output is in the live grid: {row0:?}");
}
