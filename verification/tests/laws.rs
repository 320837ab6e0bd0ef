use plexy_glass::coords::{Col, Row};
use plexy_glass::mark::RowMark;
use plexy_glass::parser::{Seg, StreamParser};
use plexy_glass::screen::osc::clamped_millis;
use plexy_glass::terminfo::{hex_decode, hex_encode};
use plexy_glass::{
    Attrs, Color, Cursor, Emulator, Frame, HyperlinkTable, Image, ImageFormat, ImageProtocol,
    ImageStore, KeyboardState, Modes, Scrollback, TabStops, WrapOrigin,
};
use std::sync::Arc;
use std::time::Duration;

fn text_row(e: &Emulator, row: usize) -> String {
    let mut out = String::new();
    for cell in &e.screen().active.rows[row].cells {
        out.push_str(cell.grapheme.as_str());
    }
    out.trim_end().to_string()
}

fn past(e: &Emulator) -> Vec<String> {
    e.screen()
        .scrollback
        .rows()
        .iter()
        .map(|r| {
            let text: String = r.cells.iter().map(|c| c.grapheme.as_str()).collect();
            text.trim_end().to_string()
        })
        .collect()
}

fn position(e: &Emulator) -> (u16, u16) {
    (e.screen().cursor.row.get(), e.screen().cursor.col.get())
}

fn fed(rows: u16, cols: u16, bytes: &[u8]) -> Emulator {
    let mut e = Emulator::new(rows, cols);
    e.advance(bytes);
    e.flush();
    e
}

#[test]
fn attributes_are_set_cleared_and_kept() {
    let mut a = Attrs::empty();
    a.insert(Attrs::BOLD);
    a.insert(Attrs::BOLD);
    a.insert(Attrs::REVERSE);
    assert!(a.contains(Attrs::BOLD) && a.contains(Attrs::REVERSE));
    a.remove(Attrs::BOLD);
    a.remove(Attrs::BOLD);
    assert!(!a.contains(Attrs::BOLD));
    assert!(a.contains(Attrs::REVERSE));
}

#[test]
fn modes_do_not_disturb_each_other() {
    let mut m = Modes::from_bits(0);
    m.insert(Modes::ORIGIN);
    m.insert(Modes::MOUSE_SGR);
    m.remove(Modes::ORIGIN);
    assert!(!m.contains(Modes::ORIGIN));
    assert!(m.contains(Modes::MOUSE_SGR));
}

#[test]
fn marks_read_back_and_merge() {
    let mut a = RowMark::default();
    a.set_prompt_end(7);
    a.set_duration(Some(1_500));
    let mut b = RowMark::default();
    b.set_exit(Some(-1));
    b.set(RowMark::BLOCK_END);
    assert_eq!(a.prompt_end_col(), Some(7));
    assert_eq!(a.duration_ms(), Some(1_500));
    assert_eq!(a.exit(), None);
    let mut c = a;
    c.merge(b);
    assert_eq!(c.prompt_end_col(), Some(7));
    assert_eq!(c.duration_ms(), Some(1_500));
    assert_eq!(c.exit(), Some(-1));
    assert!(c.contains(RowMark::BLOCK_END));
    let mut d = RowMark::default();
    d.set_exit(Some(3));
    let mut left = c;
    left.merge(d);
    let mut right = b;
    right.merge(d);
    let mut nested = a;
    nested.merge(right);
    assert_eq!(left, nested);
    assert_eq!(left.exit(), Some(3));
}

#[test]
fn a_scrollback_keeps_the_newest_rows() {
    let mut s = Scrollback::with_cap(2);
    let mut out = 0;
    for n in 1..5 {
        out += s.push(plexy_glass::Row::blank(n));
    }
    assert_eq!(out, 2);
    let widths: Vec<usize> = s.rows().iter().map(|r| r.cells.len()).collect();
    assert_eq!(widths, vec![3, 4]);
}

#[test]
fn cursors_stay_in_the_grid() {
    let mut c = Cursor::default();
    c.move_to(Row::new(90), Col::new(90), Row::new(24), Col::new(80));
    assert_eq!((c.row.get(), c.col.get()), (23, 79));
    c.up(500);
    c.left(500);
    assert_eq!((c.row.get(), c.col.get()), (0, 0));
    c.down(500, Row::new(24));
    c.right(500, Col::new(80));
    assert_eq!((c.row.get(), c.col.get()), (23, 79));
}

#[test]
fn a_pop_takes_back_a_push() {
    let mut k = KeyboardState::default();
    k.kitty_set(false, 5, 1);
    k.kitty_push(false, 9);
    assert_eq!(k.kitty_flags(false), 9);
    assert_eq!(k.kitty_flags(true), 0, "the other screen has flags of its own");
    k.kitty_pop(false, 1);
    assert_eq!(k.kitty_flags(false), 5);
}

#[test]
fn targets_keep_their_numbers() {
    let mut t = HyperlinkTable::default();
    let a = t.intern("https://a").unwrap();
    let b = t.intern("https://b").unwrap();
    assert_ne!(a, b);
    assert_eq!(t.intern("https://a"), Some(a));
    assert_eq!(t.get(a), Some("https://a"));
    assert_eq!(t.get(b), Some("https://b"));
    assert_eq!(t.get(99), None);
}

#[test]
fn hexadecimal_reads_back() {
    let bytes: Vec<u8> = (0..=255).collect();
    let text = hex_encode(&bytes);
    assert_eq!(hex_decode(text.as_bytes()), Some(bytes));
    assert_eq!(hex_decode(b"4"), None);
    assert_eq!(hex_decode(b"zz"), None);
}

#[test]
fn formats_have_one_number_each() {
    for f in [ImageFormat::Rgb, ImageFormat::Rgba, ImageFormat::Png] {
        assert_eq!(ImageFormat::from_kitty_f(f.kitty_f()), Some(f));
    }
    assert_eq!(ImageFormat::from_kitty_f(7), None);
}

#[test]
fn stops_are_found_where_they_were_set() {
    let mut t = TabStops::new(20);
    assert_eq!(t.next(0), Some(8));
    t.set(3);
    assert_eq!(t.next(0), Some(3));
    t.clear(3);
    assert_eq!(t.next(0), Some(8));
    t.clear_all();
    assert_eq!(t.next(0), None);
}

#[test]
fn reads_may_be_cut_anywhere() {
    let bytes = "a\u{e9}\x1b[31mr\x1b]0;title\x07\u{1f600}\x1b_Gi=1;AA\x1b\\x\r\nend".as_bytes();
    let whole = fed(4, 20, bytes);
    for cut in 0..=bytes.len() {
        let mut e = Emulator::new(4, 20);
        e.advance(&bytes[..cut]);
        e.advance(&bytes[cut..]);
        e.flush();
        assert_eq!(text_row(&e, 0), text_row(&whole, 0));
        assert_eq!(text_row(&e, 1), text_row(&whole, 1));
        assert_eq!(position(&e), position(&whole));
        assert_eq!(e.screen().title, whole.screen().title);
    }
}

#[test]
fn reflow_there_and_back_keeps_the_text() {
    let mut e = fed(3, 10, b"one two three four\r\nnext");
    e.resize(3, 6);
    e.resize(3, 10);
    let mut all = past(&e);
    for r in 0..3 {
        all.push(text_row(&e, r));
    }
    let text: String = all.concat();
    assert_eq!(text.replace(' ', ""), "onetwothreefournext");
}

#[test]
fn the_main_screen_comes_back() {
    let mut e = fed(3, 10, b"main\x1b[1;3H");
    let before = position(&e);
    e.advance(b"\x1b[?1049h");
    assert_eq!(text_row(&e, 0), "", "the alternate screen starts blank");
    e.advance(b"other\x1b[?1049l");
    e.flush();
    assert_eq!(text_row(&e, 0), "main");
    assert_eq!(position(&e), before);
}

#[test]
fn a_saved_cursor_comes_back() {
    let e = fed(5, 10, b"\x1b[3;4H\x1b7\x1b[1;1H\x1b8");
    assert_eq!(position(&e), (2, 3));
}

#[test]
fn a_reset_starts_over() {
    let e = fed(3, 10, b"text\x1b[31m\x1b[?25l\x1bc");
    let fresh = Emulator::new(3, 10);
    assert_eq!(text_row(&e, 0), "");
    assert_eq!(position(&e), (0, 0));
    assert_eq!(e.screen().modes, fresh.screen().modes);
    assert_eq!(e.screen().cursor, fresh.screen().cursor);
}

#[test]
fn only_the_top_feeds_the_scrollback() {
    let e = fed(3, 10, b"1\r\n2\r\n3\r\n4");
    assert_eq!(past(&e), vec!["1".to_string()]);
    let e = fed(4, 10, b"1\r\n2\r\n3\r\n4\x1b[2;4r\x1b[4;1H\n\n");
    assert!(past(&e).is_empty(), "a region below the top loses its rows");
}

#[test]
fn renditions_do_not_move() {
    let e = fed(3, 10, b"ab\x1b[1;4:3;38;2;1;2;3;58;5;9m");
    assert_eq!(position(&e), (0, 2));
    assert!(e.screen().cursor.attrs.contains(Attrs::BOLD));
}

#[test]
fn wide_characters_stay_whole() {
    let e = fed(2, 5, "\u{4f60}\u{597d}\u{5417}\x1b[1;2HX".as_bytes());
    let row = &e.screen().active.rows[0];
    assert_eq!(row.cells[0].grapheme.as_str(), " ", "the other half went with it");
    assert_eq!(row.cells[1].grapheme.as_str(), "X");
    assert_eq!(row.cells[2].grapheme.as_str(), "\u{597d}");
}

#[test]
fn programs_stay_in_bounds() {
    let mut e = Emulator::new(3, 4);
    for bytes in [
        &b"\x1b[99;99H"[..],
        b"\x1b[99A\x1b[99C",
        b"\x1b[99L\x1b[99M\x1b[99@\x1b[99P",
        b"\x1b[5;1r\x1b[2;3r\x1b[99S\x1b[99T",
        b"\x1b[99d\x1b[99G\t\t\t\n\n\n",
        b"\x1b[0J\x1b[1J\x1b[2J\x1b[3J\x1b[0K\x1b[1K\x1b[2K",
    ] {
        e.advance(bytes);
        e.flush();
        let (row, col) = position(&e);
        assert!(row < 3 && col < 4);
        assert_eq!(e.screen().active.rows.len(), 3);
    }
}

#[test]
fn clusters_go_into_one_cell() {
    let e = fed(2, 10, "e\u{301}x".as_bytes());
    let row = &e.screen().active.rows[0];
    assert_eq!(row.cells[0].grapheme.as_str(), "e\u{301}");
    assert_eq!(row.cells[1].grapheme.as_str(), "x");
}

#[test]
fn the_clipboard_is_decoded() {
    let mut e = Emulator::new(2, 10);
    e.advance(b"\x1b]52;c;aGVsbG8=\x07");
    assert_eq!(e.take_clipboard_writes(), vec![b"hello".to_vec()]);
    e.advance(b"\x1b]52;c;*not base64*\x07");
    assert!(e.take_clipboard_writes().is_empty());
}

#[test]
fn the_main_screen_waits_for_a_program() {
    let mut e = fed(3, 10, b"one\r\ntwo");
    e.advance(b"\x1b[?1049h\x1b[2J\x1b[Hother\r\nlines\r\nand\r\nmore\x1b[1;2r\x1b[99S");
    e.advance(b"\x1b[?1049l");
    e.flush();
    assert_eq!(text_row(&e, 0), "one");
    assert_eq!(text_row(&e, 1), "two");
    assert_eq!(text_row(&e, 2), "");
}

#[test]
fn only_the_end_of_a_command_is_timed() {
    let mut e = fed(3, 10, b"\x1b]133;D;0\x07");
    assert_eq!(e.screen().last_block_duration, None, "no command was running");
    e.advance(b"\x1b]133;C\x07out\r\n");
    assert_eq!(e.screen().last_block_duration, None, "it still runs");
    e.advance(b"\x1b]133;D;0\x07");
    assert!(e.screen().last_block_duration.is_some());
}

#[test]
fn an_image_is_placed_where_the_text_ends() {
    let mut e = Emulator::new(5, 20);
    e.advance(b"abc\x1b_Ga=T,i=1,f=24,s=10,v=20;QQ\x1b\\");
    let s = e.screen();
    assert_eq!(s.placements.len(), 1);
    assert_eq!(s.placements[0].col, 3, "after the third character");
    assert_eq!(s.placements[0].anchor_line, 0);
    assert_eq!(text_row(&e, 0), "abc");
}

#[test]
fn cuts_keep_the_order_of_text_and_images() {
    let bytes = b"ab\x1b_Ga=T,i=1,f=24,s=10,v=20;QQ\x1b\\cde\x1b_Ga=T,i=2,f=24,s=10,v=20;QQ\x1b\\f";
    for cut in 0..=bytes.len() {
        let mut e = Emulator::new(6, 20);
        e.advance(&bytes[..cut]);
        e.advance(&bytes[cut..]);
        e.flush();
        let at: Vec<(u32, u32, u16)> = e
            .screen()
            .placements
            .iter()
            .map(|p| (p.image_id, p.anchor_line, p.col))
            .collect();
        assert_eq!(at, vec![(1, 0, 2), (2, 1, 3)]);
        assert_eq!(text_row(&e, 0), "ab");
        assert_eq!(text_row(&e, 1), "cde");
        assert_eq!(text_row(&e, 2), "f");
    }
}

fn styled_lines(e: &Emulator) -> Vec<Vec<(String, Color)>> {
    let s = e.screen();
    let mut lines: Vec<Vec<(String, Color)>> = Vec::new();
    for row in s.scrollback.rows().iter().chain(s.active.rows.iter()) {
        if row.wrap_origin == WrapOrigin::Hard || lines.is_empty() {
            lines.push(Vec::new());
        }
        let line = lines.last_mut().unwrap();
        line.extend(row.cells.iter().map(|c| (c.grapheme.as_str().to_string(), c.fg)));
    }
    for line in &mut lines {
        while line.last() == Some(&(" ".to_string(), Color::Default)) {
            line.pop();
        }
    }
    while lines.last().is_some_and(Vec::is_empty) {
        lines.pop();
    }
    lines
}

#[test]
fn lines_survive_another_size() {
    let mut e = fed(4, 10, b"one \x1b[31mtwo three\x1b[0m four\r\n\r\n  next\r\nlast");
    let before = styled_lines(&e);
    assert_eq!(before.len(), 4);
    assert_eq!(before[0].len(), 18);
    for (rows, cols) in [(4, 3), (2, 30), (9, 7), (4, 10)] {
        e.resize(rows, cols);
        assert_eq!(styled_lines(&e), before);
    }
}

fn image_of(id: u32, len: usize) -> Image {
    Image {
        id,
        protocol: ImageProtocol::Kitty,
        format: ImageFormat::Rgba,
        pixel_w: 1,
        pixel_h: 1,
        data_b64: Arc::from(vec![b'A'; len]),
        iterm_args: None,
        generation: 1,
        frames: Arc::new(Vec::new()),
        anim_control: None,
    }
}

#[test]
fn a_store_stays_within_its_bounds() {
    let mut store = ImageStore::default();
    let third = ImageStore::CAP_BYTES / 3;
    for id in 0..10 {
        store.insert(image_of(id % 5, third));
        store.push_frame(
            id % 5,
            Frame {
                frame_number: None,
                canvas_source: None,
                x: 0,
                y: 0,
                width: 1,
                height: 1,
                overwrite: false,
                bg_color: 0,
                gap_ms: 0,
                format: ImageFormat::Rgba,
                data_b64: Arc::from(&b"frame"[..]),
                seq: 0,
            },
        );
        let bytes: usize = (0..5).filter_map(|i| store.get(i)).map(Image::total_bytes).sum();
        assert!(bytes <= ImageStore::CAP_BYTES);
        assert_eq!(store.get(id % 5).unwrap().id, id % 5);
    }
    assert_eq!(store.insert(image_of(9, ImageStore::CAP_BYTES + 1)).len(), 2);
    assert_eq!(store.len(), 1, "a single image may be over the budget");
}

#[test]
fn a_program_cannot_leave_the_levels_of_modify_other_keys() {
    let mut e = fed(2, 10, b"\x1b[>4;2m\x1b[>4;3m\x1b[>4;999m");
    assert_eq!(e.screen().kbd.modify_other_keys(), 2);
    e.advance(b"\x1b[>4;1m");
    assert_eq!(e.screen().kbd.modify_other_keys(), 1);
    e.advance(b"\x1bc");
    assert_eq!(e.screen().kbd.modify_other_keys(), 0);
}

#[test]
fn durations_are_recorded_in_milliseconds() {
    assert_eq!(clamped_millis(&Duration::from_micros(1_500_999)), 1_500);
    assert_eq!(clamped_millis(&Duration::ZERO), 0);
    assert_eq!(clamped_millis(&Duration::from_millis(u64::from(u32::MAX))), u32::MAX);
    assert_eq!(clamped_millis(&Duration::from_millis(u64::from(u32::MAX) + 1)), u32::MAX);
    assert_eq!(clamped_millis(&Duration::MAX), u32::MAX);
}

fn flat(segs: Vec<Seg>) -> Vec<(bool, Vec<u8>)> {
    let mut out: Vec<(bool, Vec<u8>)> = Vec::new();
    for seg in segs {
        match seg {
            Seg::Graphics(cmd) => out.push((true, cmd)),
            Seg::Run(bytes) => match out.last_mut() {
                Some((false, run)) => run.extend(bytes),
                _ => out.push((false, bytes)),
            },
        }
    }
    out
}

#[test]
fn a_scan_may_be_cut_anywhere() {
    let bytes = b"ab\x1b_Ga=T;AA\x1b\\c\x1b]0;t\x07\x1b_other\x1b\\\x1b_Gm=0;B\x1bB\x9cd\x1b[1m";
    let whole = flat(StreamParser::new().prescan(bytes));
    assert_eq!(whole.len(), 5);
    assert_eq!(whole[1], (true, b"\x1b_Ga=T;AA\x1b\\".to_vec()));
    assert_eq!(whole[3], (true, b"\x1b_Gm=0;B\x1bB\x1b\\".to_vec()));
    for cut in 0..=bytes.len() {
        let mut p = StreamParser::new();
        let mut segs = p.prescan(&bytes[..cut]);
        segs.extend(p.prescan(&bytes[cut..]));
        assert_eq!(flat(segs), whole);
    }
}
