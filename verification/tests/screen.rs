use base64::Engine;
use plexy_glass::coords::{Col, Row};
use plexy_glass::parser::StreamParser;
use plexy_glass::screen::csi::pack_da2_version;
use plexy_glass::terminfo::hex_encode;
use plexy_glass::{
    AnimControl, Attrs, Color, ColorQuery, Emulator, ImageFormat, ImageProtocol, Modes, RowMark,
    Screen, Scrollback, UnderlineStyle, WrapOrigin,
};

fn drive(input: &[u8]) -> Screen {
    let mut p = StreamParser::new();
    let mut s = Screen::new(4, 8);
    p.advance(&mut s, input);
    p.flush(&mut s);
    s
}

fn text_at(s: &Screen, row: u16) -> String {
    s.active.rows[row as usize]
        .cells
        .iter()
        .filter(|c| !c.is_wide_spacer())
        .map(|c| c.grapheme.as_str())
        .collect::<String>()
}

#[test]
fn graphics_chunked_transmit_and_display_models_image_and_placement() {
    let mut png = vec![0x89, 0x50, 0x4E, 0x47, 0x0D, 0x0A, 0x1A, 0x0A];
    png.extend_from_slice(&13u32.to_be_bytes());
    png.extend_from_slice(b"IHDR");
    png.extend_from_slice(&30u32.to_be_bytes());
    png.extend_from_slice(&40u32.to_be_bytes());
    let b64 = base64::engine::general_purpose::STANDARD.encode(&png);
    let (a, b) = b64.split_at(28);
    let chunk1 = format!("\x1b_Ga=T,i=7,f=100,m=1;{a}\x1b\\");
    let chunk2 = format!("\x1b_Gm=0;{b}\x1b\\");

    let mut e = Emulator::new(24, 80);
    e.advance(chunk1.as_bytes());
    assert_eq!(e.screen().cursor.row.get(), 0, "no cursor move before the final chunk");
    assert!(e.screen().images.is_empty(), "not finalized yet");

    e.advance(chunk2.as_bytes());
    let s = e.screen();
    assert!(s.images.contains(7), "image stored on finalize");
    assert_eq!(s.placements.len(), 1);
    let p = &s.placements[0];
    assert_eq!(p.image_id, 7);
    assert_eq!(p.anchor_line, 0, "anchored at the image start");
    assert_eq!((p.cols, p.rows), (3, 2), "footprint from dims ÷ default cell");
    assert_eq!(s.cursor.row.get(), 2, "cursor advanced by the footprint after m=0");
}

#[test]
fn graphics_delete_by_id_removes_placements() {
    let mut e = Emulator::new(24, 80);
    e.advance(b"\x1b_Ga=T,i=9,f=24,s=20,v=20;QUJD\x1b\\");
    assert_eq!(e.screen().placements.len(), 1);
    e.advance(b"\x1b_Ga=d,i=9\x1b\\");
    assert!(e.screen().placements.is_empty(), "a=d,i=9 removed the placement");
}

#[test]
fn graphics_not_captured_on_alt_screen() {
    let mut e = Emulator::new(24, 80);
    e.advance(b"\x1b[?1049h");
    e.advance(b"\x1b_Ga=T,i=1,f=24,s=10,v=10;QQ\x1b\\");
    assert!(e.screen().placements.is_empty() && e.screen().images.is_empty());
}

#[test]
fn placement_dropped_when_its_scrollback_row_evicts() {
    let mut e = Emulator::new(3, 80);
    e.screen_mut().scrollback = Scrollback::with_cap(2);
    e.advance(b"\x1b_Ga=T,i=1,f=24,s=10,v=20;QQ\x1b\\");
    assert_eq!(e.screen().placements.len(), 1);

    for _ in 0..20 {
        e.advance(b"\r\n");
    }
    assert!(
        e.screen().placements.is_empty(),
        "placement dropped once its row evicts — no frozen ghost"
    );
}

#[test]
fn abandoned_chunked_transmission_stores_nothing() {
    let mut e = Emulator::new(24, 80);

    e.advance(b"\x1b_Ga=T,i=3,f=24,s=2,v=2,m=1;QQ\x1b\\");
    assert!(e.screen().images.is_empty(), "no image stored without finalize");
    assert!(e.screen().placements.is_empty(), "no placement without finalize");
}

#[test]
fn ris_clears_images_and_placements() {
    let mut e = Emulator::new(24, 80);
    e.advance(b"\x1b_Ga=T,i=5,f=24,s=10,v=20;QQ\x1b\\");
    assert_eq!(e.screen().images.len(), 1);
    assert_eq!(e.screen().placements.len(), 1);
    e.advance(b"\x1bc");
    assert!(e.screen().images.is_empty() && e.screen().placements.is_empty());
}

#[test]
fn place_of_unknown_image_is_noop() {
    let mut e = Emulator::new(24, 80);
    e.advance(b"\x1b_Ga=p,i=999\x1b\\");
    assert!(e.screen().placements.is_empty(), "no placement for unknown id");
    assert_eq!(e.screen().cursor.row.get(), 0, "cursor untouched");
}

#[test]
fn resize_drops_placements() {
    let mut e = Emulator::new(24, 80);
    e.advance(b"\x1b_Ga=T,i=5,f=24,s=10,v=20;QQ\x1b\\");
    assert_eq!(e.screen().placements.len(), 1);
    e.resize(24, 100);
    assert!(e.screen().placements.is_empty(), "placements dropped on resize");
}

#[test]
fn folded_mark_rides_reflow_and_drops_on_eviction() {
    let mut e = Emulator::new(4, 20);
    e.advance(b"\x1b]133;A\x07$ cmd\r\nout1\r\nout2\r\n");
    e.screen_mut().active.rows[0].mark.set_folded(true);
    assert!(e.screen().active.rows[0].mark.contains(RowMark::PROMPT_START));

    e.resize(4, 12);
    let folded_after_reflow = e
        .screen()
        .active
        .rows
        .iter()
        .chain(e.screen().scrollback.rows().iter())
        .any(|r| r.mark.contains(RowMark::PROMPT_START) && r.mark.is_folded());
    assert!(folded_after_reflow, "FOLDED rides reflow on the prompt row");

    e.screen_mut().scrollback = Scrollback::with_cap(1);
    for _ in 0..20 {
        e.advance(b"\r\n");
    }
    let still_folded = e
        .screen()
        .active
        .rows
        .iter()
        .chain(e.screen().scrollback.rows().iter())
        .any(|r| r.mark.is_folded());
    assert!(!still_folded, "fold drops when its prompt row is evicted");
}

#[test]
fn unicode_placement_records_virtual_not_anchored() {
    let mut e = Emulator::new(24, 80);

    e.advance(b"\x1b_Ga=t,i=7,f=24,s=10,v=20;QUJD\x1b\\");
    let row_before = e.screen().cursor.row.get();
    e.advance(b"\x1b_Ga=p,U=1,i=7,p=1,c=3,r=2\x1b\\");
    let s = e.screen();
    assert!(s.placements.is_empty(), "no anchored placement for U=1");
    assert_eq!(s.virtual_placements.len(), 1);
    let vp = &s.virtual_placements[0];
    assert_eq!((vp.image_id, vp.placement_id, vp.cols, vp.rows), (7, 1, 3, 2));
    assert_eq!(s.cursor.row.get(), row_before, "virtual placement does not move the cursor");
}

#[test]
fn transmit_and_virtual_place_in_one_command() {
    let mut e = Emulator::new(24, 80);
    e.advance(b"\x1b_Ga=T,U=1,i=9,f=24,s=10,v=20,c=2,r=1;QUJD\x1b\\");
    let s = e.screen();
    assert!(s.images.contains(9), "image stored");
    assert!(s.placements.is_empty(), "no anchored placement");
    assert_eq!(s.virtual_placements.len(), 1);
    assert_eq!(s.cursor.row.get(), 0, "no cursor advance for a virtual placement");
}

#[test]
fn delete_clears_virtual_placements() {
    let mut e = Emulator::new(24, 80);
    e.advance(b"\x1b_Ga=T,U=1,i=9,f=24,s=10,v=20,c=2,r=1;QUJD\x1b\\");
    assert_eq!(e.screen().virtual_placements.len(), 1);
    e.advance(b"\x1b_Ga=d,i=9\x1b\\");
    assert!(e.screen().virtual_placements.is_empty(), "a=d,i=9 cleared the virtual placement");
}

#[test]
fn ris_clears_virtual_placements() {
    let mut e = Emulator::new(24, 80);
    e.advance(b"\x1b_Ga=T,U=1,i=9,f=24,s=10,v=20,c=2,r=1;QUJD\x1b\\");
    assert_eq!(e.screen().virtual_placements.len(), 1);
    e.advance(b"\x1bc");
    assert!(e.screen().virtual_placements.is_empty());
}

#[test]
fn transmit_only_with_unicode_flag_does_not_place() {
    let mut e = Emulator::new(24, 80);
    e.advance(b"\x1b_Ga=t,U=1,i=9,f=24,s=10,v=20;QUJD\x1b\\");
    let s = e.screen();
    assert!(s.images.contains(9), "image stored");
    assert!(s.virtual_placements.is_empty(), "a=t,U=1 does not place");
    assert!(s.placements.is_empty());
}

#[test]
fn sixel_dcs_captured_as_image_and_placement() {
    let mut e = Emulator::new(24, 80);

    e.advance(b"\x1bPq\"1;1;10;20#0;2;0;0;0~~~\x1b\\");
    let s = e.screen();
    assert_eq!(s.images.len(), 1, "sixel stored as an image");
    assert_eq!(s.placements.len(), 1);
    assert_eq!(s.placements[0].protocol, ImageProtocol::Sixel);
    assert_eq!(s.cursor.row.get(), 1, "cursor advanced by the 1-row footprint");

    let img = s.images.get(s.placements[0].image_id).unwrap();
    assert!(img.data_b64.windows(2).any(|w| w == b"q\""), "q + raster preserved");
    assert!(img.data_b64.ends_with(b"~~~"), "sixel data preserved");
}

#[test]
fn sixel_not_captured_on_alt_screen() {
    let mut e = Emulator::new(24, 80);
    e.advance(b"\x1b[?1049h");
    e.advance(b"\x1bPq\"1;1;10;20#0;2;0;0;0~~~\x1b\\");
    assert!(e.screen().images.is_empty() && e.screen().placements.is_empty());
}

#[test]
fn iterm2_osc_captured_as_image_and_placement() {
    let mut e = Emulator::new(24, 80);

    e.advance(b"\x1b]1337;File=inline=1;width=10px;height=20px:QUJD\x07");
    let s = e.screen();
    assert_eq!(s.images.len(), 1, "iterm2 image stored");
    assert_eq!(s.placements.len(), 1);
    assert_eq!(s.placements[0].protocol, ImageProtocol::Iterm2);
    assert_eq!(s.cursor.row.get(), 1, "cursor advanced by the 1-row footprint");
    let img = s.images.get(s.placements[0].image_id).unwrap();
    assert_eq!(img.data_b64.as_ref(), b"QUJD", "base64 data kept for re-emit");
    assert_eq!(img.iterm_args.as_deref(), Some("inline=1;width=10px;height=20px"));
}

#[test]
fn iterm2_non_inline_is_ignored() {
    let mut e = Emulator::new(24, 80);
    e.advance(b"\x1b]1337;File=inline=0;width=10px:QUJD\x07");
    assert!(e.screen().images.is_empty(), "a non-inline File= is a download, not rendered");
}

#[test]
fn iterm2_empty_or_malformed_params_ignored() {
    let mut e = Emulator::new(24, 80);
    e.advance(b"\x1b]1337\x07");
    e.advance(b"\x1b]1337;File=\x07");
    e.advance(b"\x1b]1337;Foo=bar\x07");
    assert!(e.screen().images.is_empty(), "malformed/empty 1337 captures nothing");
}

#[test]
fn sixel_without_raster_attrs_uses_fallback_dims() {
    let mut e = Emulator::new(24, 80);

    e.advance(b"\x1bPq#0;2;0;0;0~~~\x1b\\");
    let s = e.screen();
    assert_eq!(s.images.len(), 1);
    assert_eq!(s.placements.len(), 1, "captured via the fallback scan");
    assert_eq!(s.placements[0].protocol, ImageProtocol::Sixel);
}

#[test]
fn dcs_queries_are_not_captured_as_sixel() {
    let mut e = Emulator::new(24, 80);
    e.advance(b"\x1bP$qm\x1b\\");
    e.advance(b"\x1bP+q544e\x1b\\");
    assert!(e.screen().images.is_empty(), "DCS queries ($q / +q) are not sixel");
}

#[test]
fn virtual_placements_survive_resize() {
    let mut e = Emulator::new(24, 80);
    e.advance(b"\x1b_Ga=T,U=1,i=9,f=24,s=10,v=20,c=2,r=1;QUJD\x1b\\");
    assert_eq!(e.screen().virtual_placements.len(), 1);
    e.resize(24, 100);
    assert_eq!(e.screen().virtual_placements.len(), 1, "virtual placement survives resize");
}

#[test]
fn retransmit_same_id_bumps_generation() {
    let mut e = Emulator::new(24, 80);
    e.advance(b"\x1b_Ga=t,i=5,f=24,s=10,v=20;QQ\x1b\\");
    let g1 = e.screen().images.get(5).expect("stored").generation;
    e.advance(b"\x1b_Ga=t,i=5,f=24,s=10,v=20;Qg\x1b\\");
    let g2 = e.screen().images.get(5).expect("stored").generation;
    assert!(g2 > g1, "re-transmit of an existing id bumps the content generation");
}

#[test]
fn csi_16t_reports_cell_pixels_from_area() {
    let mut e = Emulator::new(24, 80);
    e.set_pixel_area(1600, 960);
    e.advance(b"\x1b[16t");

    assert_eq!(e.take_replies(), vec![b"\x1b[6;40;20t".to_vec()]);
}

#[test]
fn csi_16t_falls_back_to_default_cell_when_area_unknown() {
    let mut e = Emulator::new(24, 80);
    e.advance(b"\x1b[16t");
    assert_eq!(e.take_replies(), vec![b"\x1b[6;20;10t".to_vec()], "fallback 10x20");
}

#[test]
fn csi_14t_reports_text_area_pixels() {
    let mut e = Emulator::new(24, 80);
    e.set_pixel_area(1600, 960);
    e.advance(b"\x1b[14t");

    assert_eq!(e.take_replies(), vec![b"\x1b[4;960;1600t".to_vec()]);
}

#[test]
fn csi_18t_reports_text_area_chars() {
    let mut e = Emulator::new(24, 80);
    e.advance(b"\x1b[18t");
    assert_eq!(e.take_replies(), vec![b"\x1b[8;24;80t".to_vec()]);
}

#[test]
fn csi_t_window_ops_are_ignored() {
    let mut e = Emulator::new(24, 80);
    e.advance(b"\x1b[8;40;100t");
    e.advance(b"\x1b[3;0;0t");
    assert!(e.take_replies().is_empty(), "window-manipulation ops are ignored");
}

#[test]
fn ascii_writes_left_to_right() {
    let s = drive(b"hello");
    assert!(text_at(&s, 0).starts_with("hello"));
    assert_eq!(s.cursor.row.get(), 0);

    assert_eq!(s.cursor.col.get(), 5);
}

#[test]
fn autowrap_to_next_row() {
    let s = drive(b"abcdefghi");
    assert_eq!(text_at(&s, 0)[..8], *"abcdefgh");
    assert!(text_at(&s, 1).starts_with("i"));
}

#[test]
fn wide_char_takes_two_columns_and_emits_spacer() {
    let s = drive("好".as_bytes());
    let c0 = s.active.get_cell(0, 0).unwrap();
    let c1 = s.active.get_cell(0, 1).unwrap();
    assert_eq!(c0.grapheme.as_str(), "好");
    assert!(c1.is_wide_spacer());
    assert_eq!(s.cursor.col.get(), 2);
}

#[test]
fn overwrite_spacer_half_of_wide_char_clears_grapheme() {
    let s = drive("好x\x1b[1;2Ha".as_bytes());
    assert!(s.active.get_cell(0, 0).unwrap().is_blank(), "好's grapheme half not cleared");
    assert_eq!(s.active.get_cell(0, 1).unwrap().grapheme.as_str(), "a");
    assert_eq!(s.active.get_cell(0, 2).unwrap().grapheme.as_str(), "x");
}

#[test]
fn overwrite_grapheme_half_of_wide_char_clears_spacer() {
    let s = drive("好x\x1b[1;1Ha".as_bytes());
    assert_eq!(s.active.get_cell(0, 0).unwrap().grapheme.as_str(), "a");
    let c1 = s.active.get_cell(0, 1).unwrap();
    assert!(c1.is_blank() && !c1.is_wide_spacer(), "orphaned spacer not cleared");
    assert_eq!(s.active.get_cell(0, 2).unwrap().grapheme.as_str(), "x");
}

#[test]
fn cursor_advances_to_pending_wrap_at_end_of_row() {
    let s = drive(b"abcdefgh");
    assert_eq!(s.cursor.col.get(), 7);
    assert!(s.cursor.pending_wrap);
}

#[test]
fn cr_returns_to_column_zero() {
    let mut s = Screen::new(4, 8);
    s.cursor.col = Col::new(5);
    s.execute_c0(0x0D);
    assert_eq!(s.cursor.col.get(), 0);
}

#[test]
fn lf_moves_down_keeps_column() {
    let mut s = Screen::new(4, 8);
    s.cursor.row = Row::new(0);
    s.cursor.col = Col::new(3);
    s.execute_c0(0x0A);
    assert_eq!((s.cursor.row.get(), s.cursor.col.get()), (1, 3));
}

#[test]
fn bs_moves_left_and_saturates() {
    let mut s = Screen::new(4, 8);
    s.cursor.col = Col::new(1);
    s.execute_c0(0x08);
    assert_eq!(s.cursor.col.get(), 0);
    s.execute_c0(0x08);
    assert_eq!(s.cursor.col.get(), 0);
}

#[test]
fn ht_jumps_to_next_tab_stop() {
    let mut s = Screen::new(4, 24);
    s.cursor.col = Col::new(1);
    s.execute_c0(0x09);
    assert_eq!(s.cursor.col.get(), 8);
    s.execute_c0(0x09);
    assert_eq!(s.cursor.col.get(), 16);
}

#[test]
fn lf_at_bottom_scrolls_into_scrollback() {
    let mut p = StreamParser::new();
    let mut s = Screen::new(2, 4);
    p.advance(&mut s, b"AAAA\nBBBB\nCCCC");

    assert!(!s.scrollback.is_empty());
}

fn parse(input: &[u8]) -> Screen {
    let mut p = StreamParser::new();
    let mut s = Screen::new(8, 24);
    p.advance(&mut s, input);
    p.flush(&mut s);
    s
}

#[test]
fn cuu_stops_at_top_scroll_margin() {
    let s = parse(b"\x1b[3;7r\x1b[6;1H\x1b[10A");
    assert_eq!(s.cursor.row.get(), 2, "CUU must stop at the top margin, not grid 0");
}

#[test]
fn cud_stops_at_bottom_scroll_margin() {
    let s = parse(b"\x1b[3;7r\x1b[4;1H\x1b[10B");
    assert_eq!(s.cursor.row.get(), 6, "CUD must stop at the bottom margin, not the grid edge");
}

#[test]
fn line_feed_below_bottom_margin_moves_down_without_scrolling() {
    let s = parse(b"\x1b[1;3r\x1b[5;1H\n");
    assert_eq!(s.cursor.row.get(), 5, "LF below the region must move down, not snap to the margin");
}

#[test]
fn decom_makes_cup_region_relative_and_homes() {
    let s = parse(b"\x1b[5;8r\x1b[?6h");
    assert_eq!(s.cursor.row.get(), 4, "DECOM set homes the cursor to the region top");

    let s = parse(b"\x1b[5;8r\x1b[?6h\x1b[3;1H");
    assert_eq!(s.cursor.row.get(), 6, "CUP row 3 in origin mode = top(4) + 2");

    let s = parse(b"\x1b[5;8r\x1b[?6h\x1b[?6l\x1b[3;1H");
    assert_eq!(s.cursor.row.get(), 2, "CUP row 3 with origin reset = absolute grid row 2");
}

#[test]
fn xtgettcap_numeric_cap_colors() {
    let s = parse(b"\x1bP+q636f6c6f7273\x1b\\X");
    assert_eq!(s.replies, vec![b"\x1bP1+r636f6c6f7273=323536\x1b\\".to_vec()]);
}

#[test]
fn set_term_then_xtgettcap_tn_reports_it() {
    let mut p = StreamParser::new();
    let mut s = Screen::new(4, 8);
    s.set_term("xterm-ghostty".into());
    p.advance(&mut s, b"\x1bP+q544e\x1b\\X");
    p.flush(&mut s);
    let hex = hex_encode(b"xterm-ghostty");
    assert_eq!(s.replies, vec![format!("\x1bP1+r544e={hex}\x1b\\").into_bytes()]);
}

#[test]
fn ris_preserves_term() {
    let mut p = StreamParser::new();
    let mut s = Screen::new(4, 8);
    s.set_term("xterm-ghostty".into());
    p.advance(&mut s, b"\x1bcX");
    p.flush(&mut s);
    assert_eq!(s.term, "xterm-ghostty");
}

#[test]
fn xtgettcap_boolean_cap_su() {
    let s = parse(b"\x1bP+q5375\x1b\\X");
    assert_eq!(s.replies, vec![b"\x1bP1+r5375\x1b\\".to_vec()]);
}

#[test]
fn xtgettcap_unsupported_cap_echoes_name() {
    let s = parse(b"\x1bP+q5878\x1b\\X");
    assert_eq!(s.replies, vec![b"\x1bP0+r5878\x1b\\".to_vec()]);
}

#[test]
fn xtgettcap_setulc_is_supported() {
    let s = parse(b"\x1bP+q536574756c63\x1b\\X");
    let val = "\\E[58:2:%p1%{65536}%/%d:%p1%{256}%/%{255}%&%d:%p1%{255}%&%d%;m";
    let expected = format!(
        "\x1bP1+r536574756c63={}\x1b\\",
        hex_encode(val.as_bytes())
    )
    .into_bytes();
    assert_eq!(s.replies, vec![expected]);
}

#[test]
fn xtgettcap_multiple_caps_one_reply_each() {
    let s = parse(b"\x1bP+q636f6c6f7273;5375\x1b\\X");
    assert_eq!(
        s.replies,
        vec![
            b"\x1bP1+r636f6c6f7273=323536".to_vec(),

        ]
        .into_iter()
        .map(|mut v: Vec<u8>| {
            v.extend_from_slice(b"\x1b\\");
            v
        })
        .chain(std::iter::once({
            let mut v = b"\x1bP1+r5375".to_vec();
            v.extend_from_slice(b"\x1b\\");
            v
        }))
        .collect::<Vec<_>>()
    );
}

#[test]
fn xtgettcap_trailing_semicolon_emits_no_empty_reply() {
    let s = parse(b"\x1bP+q636f6c6f7273;\x1b\\X");
    assert_eq!(s.replies, vec![b"\x1bP1+r636f6c6f7273=323536\x1b\\".to_vec()]);
}

#[test]
fn xtgettcap_c1_st_terminated_request_accepted() {
    let s = parse(b"\x1bP+q5375\x9cX");
    assert_eq!(s.replies, vec![b"\x1bP1+r5375\x1b\\".to_vec()]);
}

#[test]
fn cup_homes_cursor() {
    let s = parse(b"abc\x1b[H");
    assert_eq!((s.cursor.row.get(), s.cursor.col.get()), (0, 0));
}

#[test]
fn cup_with_params() {
    let s = parse(b"\x1b[3;5H");
    assert_eq!((s.cursor.row.get(), s.cursor.col.get()), (2, 4));
}

#[test]
fn cuf_advances_columns() {
    let s = parse(b"\x1b[5C");
    assert_eq!(s.cursor.col.get(), 5);
}

#[test]
fn cuu_clamps_at_top() {
    let s = parse(b"\x1b[3;1H\x1b[10A");
    assert_eq!(s.cursor.row.get(), 0);
}

#[test]
fn cup_clamps_outside_grid() {
    let s = parse(b"\x1b[100;100H");
    assert_eq!(s.cursor.row.get(), 7);
    assert_eq!(s.cursor.col.get(), 23);
}

#[test]
fn ed2_clears_screen() {
    let s = parse(b"hello\x1b[2J");
    for r in 0..8 {
        for c in 0..24 {
            assert!(s.active.get_cell(r, c).unwrap().is_blank());
        }
    }
}

#[test]
fn el_clears_to_end_of_line() {
    let s = parse(b"abcdef\x1b[H\x1b[3C\x1b[K");
    assert_eq!(s.active.get_cell(0, 0).unwrap().grapheme.as_str(), "a");
    assert_eq!(s.active.get_cell(0, 2).unwrap().grapheme.as_str(), "c");
    assert!(s.active.get_cell(0, 3).unwrap().is_blank());
    assert!(s.active.get_cell(0, 5).unwrap().is_blank());
}

#[test]
fn sgr_bold_red_then_reset() {
    let s = parse(b"\x1b[1;31mhi\x1b[0mlo");
    let c0 = s.active.get_cell(0, 0).unwrap();
    assert!(c0.attrs.contains(Attrs::BOLD));
    assert_eq!(c0.fg, Color::Indexed(1));
    let c2 = s.active.get_cell(0, 2).unwrap();
    assert!(!c2.attrs.contains(Attrs::BOLD));
    assert_eq!(c2.fg, Color::Default);
}

#[test]
fn bare_reset_clears_underline() {

    let s = parse(b"\x1b[4mX\x1b[mY");
    assert!(s.active.get_cell(0, 0).unwrap().attrs.contains(Attrs::UNDERLINE), "X underlined");
    assert!(
        !s.active.get_cell(0, 1).unwrap().attrs.contains(Attrs::UNDERLINE),
        "Y must NOT be underlined after a bare \\e[m reset"
    );
}

#[test]
fn styled_underline_colon_subparams() {

    let s = parse(b"\x1b[4:3mX\x1b[4:0mY");
    assert!(s.active.get_cell(0, 0).unwrap().attrs.contains(Attrs::UNDERLINE), "X underlined (curly)");
    assert!(
        !s.active.get_cell(0, 0).unwrap().attrs.contains(Attrs::ITALIC),
        "X must NOT be italic — 4:3 is a curly-underline style, not SGR 3"
    );
    assert!(
        !s.active.get_cell(0, 1).unwrap().attrs.contains(Attrs::UNDERLINE),
        "Y must NOT be underlined after \\e[4:0m"
    );
}

#[test]
fn underline_style_curly_sets_style_and_underline() {

    let s = parse(b"\x1b[4:3mX");
    let c = s.active.get_cell(0, 0).unwrap();
    assert_eq!(c.underline_style, UnderlineStyle::Curly, "4:3 = curly");
    assert!(c.attrs.contains(Attrs::UNDERLINE), "UNDERLINE boolean still set");
    assert!(!c.attrs.contains(Attrs::ITALIC), "4:3 is not SGR 3");
}

#[test]
fn underline_style_double_dotted_dashed() {
    let s = parse(b"\x1b[4:2mD\x1b[4:4mO\x1b[4:5mA");
    let d = s.active.get_cell(0, 0).unwrap();
    assert_eq!(d.underline_style, UnderlineStyle::Double, "4:2 = double");
    assert!(d.attrs.contains(Attrs::UNDERLINE));
    let o = s.active.get_cell(0, 1).unwrap();
    assert_eq!(o.underline_style, UnderlineStyle::Dotted, "4:4 = dotted");
    let a = s.active.get_cell(0, 2).unwrap();
    assert_eq!(a.underline_style, UnderlineStyle::Dashed, "4:5 = dashed");
}

#[test]
fn underline_style_off_clears_style_and_underline() {

    let s = parse(b"\x1b[4:3mX\x1b[4:0mY");
    let y = s.active.get_cell(0, 1).unwrap();
    assert_eq!(y.underline_style, UnderlineStyle::Off, "4:0 = none");
    assert!(!y.attrs.contains(Attrs::UNDERLINE), "4:0 clears UNDERLINE");
}

#[test]
fn plain_underline_sets_single_style() {

    let s = parse(b"\x1b[4mX\x1b[24mY");
    let x = s.active.get_cell(0, 0).unwrap();
    assert_eq!(x.underline_style, UnderlineStyle::Single, "plain 4 = single");
    assert!(x.attrs.contains(Attrs::UNDERLINE));
    let y = s.active.get_cell(0, 1).unwrap();
    assert_eq!(y.underline_style, UnderlineStyle::Off, "24 = none");
    assert!(!y.attrs.contains(Attrs::UNDERLINE));
}

#[test]
fn sgr_reset_clears_underline_style() {

    let s = parse(b"\x1b[4:3mX\x1b[0mY");
    assert_eq!(
        s.active.get_cell(0, 1).unwrap().underline_style,
        UnderlineStyle::Off,
        "\\e[0m resets the underline style"
    );
}

#[test]
fn underline_style_and_color_are_independent() {

    let s = parse(b"\x1b[58:5:9m\x1b[4:3mX");
    let c = s.active.get_cell(0, 0).unwrap();
    assert_eq!(c.underline_style, UnderlineStyle::Curly, "style = curly");
    assert_eq!(c.underline_color, Color::Indexed(9), "color = indexed 9");
}

#[test]
fn sgr_rgb_truecolor() {
    let s = parse(b"\x1b[38;2;10;20;30mX");
    let c0 = s.active.get_cell(0, 0).unwrap();
    assert_eq!(c0.fg, Color::Rgb(10, 20, 30));
}

#[test]
fn sgr_indexed_256() {
    let s = parse(b"\x1b[38;5;200mY");
    let c0 = s.active.get_cell(0, 0).unwrap();
    assert_eq!(c0.fg, Color::Indexed(200));
}

#[test]
fn sgr_bright_bg() {
    let s = parse(b"\x1b[101mZ");
    let c0 = s.active.get_cell(0, 0).unwrap();
    assert_eq!(c0.bg, Color::Indexed(9));
}

#[test]
fn decset_alt_screen_save_and_restore() {
    let s = parse(b"main\x1b[?1049h");
    assert!(s.modes.contains(Modes::ALT_SCREEN));
    assert!(s.alt.is_some());
    assert!(s.active.get_cell(0, 0).unwrap().is_blank());

    let mut p = StreamParser::new();
    let mut s2 = Screen::new(8, 24);
    p.advance(&mut s2, b"main\x1b[?1049halt\x1b[?1049l");
    p.flush(&mut s2);
    assert!(!s2.modes.contains(Modes::ALT_SCREEN));
    assert!(s2.alt.is_none());
    assert_eq!(s2.active.get_cell(0, 0).unwrap().grapheme.as_str(), "m");
}

#[test]
fn decset_25_toggles_cursor_visibility() {
    let mut p = StreamParser::new();
    let mut s = Screen::new(8, 24);
    p.advance(&mut s, b"\x1b[?25l");
    assert!(!s.modes.contains(Modes::CURSOR_VISIBLE));
    p.advance(&mut s, b"\x1b[?25h");
    assert!(s.modes.contains(Modes::CURSOR_VISIBLE));
}

#[test]
fn decstbm_sets_scroll_region_and_homes_cursor() {
    let s = parse(b"\x1b[2;6r");
    assert_eq!(s.scroll_region, (1, 5));
    assert_eq!((s.cursor.row.get(), s.cursor.col.get()), (0, 0));
}

#[test]
fn su_scrolls_within_region() {
    let mut p = StreamParser::new();
    let mut s = Screen::new(4, 4);
    p.advance(&mut s, b"AAAA\nBBBB\nCCCC\nDDDD");
    p.flush(&mut s);
    p.advance(&mut s, b"\x1b[H\x1b[S");
    assert!(s.active.get_cell(3, 0).unwrap().is_blank());
}

#[test]
fn partial_region_scroll_does_not_pollute_scrollback() {
    let mut p = StreamParser::new();
    let mut s = Screen::new(4, 4);
    p.advance(&mut s, b"\x1b[2;4r");
    p.advance(&mut s, b"\x1b[2;1H");
    p.advance(&mut s, b"L1\nL2\nL3\nL4\nL5");
    p.flush(&mut s);
    assert!(
        s.scrollback.is_empty(),
        "interior-region scroll must not feed scrollback, got {} rows",
        s.scrollback.rows().len()
    );

    let mut s2 = Screen::new(4, 4);
    p.advance(&mut s2, b"\x1b[2;4r\x1b[2;1HXXXX\x1b[S\x1b[S\x1b[S");
    p.flush(&mut s2);
    assert!(s2.scrollback.is_empty());

    let mut s3 = Screen::new(2, 4);
    p.advance(&mut s3, b"AAAA\nBBBB\nCCCC");
    p.flush(&mut s3);
    assert!(!s3.scrollback.is_empty());
}

#[test]
fn irm_insert_mode_is_not_honored() {
    let mut p = StreamParser::new();
    let mut s = Screen::new(2, 8);
    p.advance(&mut s, b"abc");
    p.advance(&mut s, b"\x1b[H");
    p.advance(&mut s, b"\x1b[4h");
    p.advance(&mut s, b"X");
    p.flush(&mut s);

    assert_eq!(s.active.get_cell(0, 0).unwrap().grapheme.as_str(), "X");
    assert_eq!(s.active.get_cell(0, 1).unwrap().grapheme.as_str(), "b");
    assert_eq!(s.active.get_cell(0, 2).unwrap().grapheme.as_str(), "c");
}

#[test]
fn decsc_decrc_round_trip() {
    let s = parse(b"\x1b[3;5H\x1b7\x1b[1;1H\x1b8");
    assert_eq!((s.cursor.row.get(), s.cursor.col.get()), (2, 4));
}

#[test]
fn ris_resets_screen() {
    let s = parse(b"hello\x1bc");
    assert!(s.active.get_cell(0, 0).unwrap().is_blank());
    assert_eq!((s.cursor.row.get(), s.cursor.col.get()), (0, 0));
}

#[test]
fn ri_at_top_of_region_scrolls_down() {
    let mut p = StreamParser::new();
    let mut s = Screen::new(4, 4);
    p.advance(&mut s, b"AAAA\nBBBB\nCCCC\nDDDD\x1b[H");
    p.flush(&mut s);
    p.advance(&mut s, b"\x1bM");
    assert!(s.active.get_cell(0, 0).unwrap().is_blank());
}

#[test]
fn hts_sets_tab_at_cursor() {
    let mut p = StreamParser::new();
    let mut s = Screen::new(8, 24);
    p.advance(&mut s, b"\x1b[1;4H\x1bH\x1b[1;1H\t");
    assert_eq!(s.cursor.col.get(), 3);
}

#[test]
fn osc_0_sets_title() {
    let s = parse(b"\x1b]0;my title\x07");
    assert_eq!(s.title, "my title");
}

#[test]
fn osc_7_sets_cwd() {
    let s = parse(b"\x1b]7;file:///tmp\x07");
    assert_eq!(s.cwd.as_deref(), Some("file:///tmp"));
}

#[test]
fn osc_8_assigns_then_clears_hyperlink_id() {
    let mut p = StreamParser::new();
    let mut s = Screen::new(4, 8);
    p.advance(
        &mut s,
        b"\x1b]8;;https://example.com\x07link\x1b]8;;\x07after",
    );
    p.flush(&mut s);
    let id = s.hyperlinks.intern("https://example.com");
    let l = s.active.get_cell(0, 0).unwrap();
    assert_eq!(l.hyperlink_id, id);
    let a = s.active.get_cell(0, 4).unwrap();
    assert_eq!(a.hyperlink_id, None);
}

#[test]
fn new_screen_has_no_marks_or_clipboard() {
    let s = Screen::new(8, 24);
    assert!(s.active.rows.iter().all(|r| r.mark.is_empty()));
    assert!(s.clipboard_writes.is_empty());
}

#[test]
fn take_clipboard_writes_drains() {
    let mut s = Screen::new(8, 24);
    s.clipboard_writes.push(b"hello".to_vec());
    s.clipboard_writes.push(b"world".to_vec());
    let drained = s.take_clipboard_writes();
    assert_eq!(drained, vec![b"hello".to_vec(), b"world".to_vec()]);
    assert!(s.clipboard_writes.is_empty());
}

#[test]
fn osc_133_a_sets_prompt_start_flag_on_cursor_row() {
    let s = parse(b"\r\n\x1b]133;A\x07");
    let mark = s.active.rows[1].mark;
    assert!(mark.contains(RowMark::PROMPT_START));
    assert!(!mark.contains(RowMark::OUTPUT_START));
    assert!(!mark.contains(RowMark::BLOCK_END));
    assert_eq!(mark.exit(), None);
    assert!(s.active.rows[0].mark.is_empty(), "row 0 must stay unmarked");
}

#[test]
fn osc_133_c_sets_output_start_flag_on_cursor_row() {
    let s = parse(b"\x1b]133;C\x07");
    let mark = s.active.rows[0].mark;
    assert!(mark.contains(RowMark::OUTPUT_START));
    assert!(!mark.contains(RowMark::PROMPT_START));
}

#[test]
fn osc_133_prompt_end_sets_row_mark_and_col() {
    let s = parse(b"abc\x1b]133;B\x07");
    let mark = s.active.rows[0].mark;
    assert!(mark.contains(RowMark::PROMPT_END), "PROMPT_END flag must be set");
    assert_eq!(mark.prompt_end_col(), Some(3), "col must equal cursor col at B time");
}

#[test]
fn osc_133_command_end_carries_exit_code() {
    let s = parse(b"\x1b]133;D;42\x07");
    let mark = s.active.rows[0].mark;
    assert!(mark.contains(RowMark::BLOCK_END));
    assert_eq!(mark.exit(), Some(42));
}

#[test]
fn duration_recorded_from_c_then_d() {
    let s = parse(b"\x1b]133;A\x07$ cmd\r\n\x1b]133;C\x07out\r\n\x1b]133;D;0\x07x");
    let d_row = s
        .active
        .rows
        .iter()
        .find(|r| r.mark.contains(RowMark::BLOCK_END))
        .expect("a BLOCK_END row");
    assert!(d_row.mark.duration_ms().is_some(), "C->D must record a duration");
}

#[test]
fn duration_none_without_c() {
    let s = parse(b"\x1b]133;A\x07$ cmd\r\n\x1b]133;D;0\x07x");
    let d_row = s
        .active
        .rows
        .iter()
        .find(|r| r.mark.contains(RowMark::BLOCK_END))
        .expect("a BLOCK_END row");
    assert_eq!(d_row.mark.duration_ms(), None, "D without C has no duration");
}

#[test]
fn prompt_start_clears_dangling_command_start() {
    let s = parse(b"\x1b]133;C\x07out\r\n\x1b]133;A\x07$ cmd\r\n\x1b]133;D;0\x07x");
    let d_row = s
        .active
        .rows
        .iter()
        .find(|r| r.mark.contains(RowMark::BLOCK_END))
        .expect("a BLOCK_END row");
    assert_eq!(d_row.mark.duration_ms(), None, "A must clear a dangling start");
}

#[test]
fn osc_133_command_end_without_exit_code() {
    let s = parse(b"\x1b]133;D\x07");
    let mark = s.active.rows[0].mark;
    assert!(mark.contains(RowMark::BLOCK_END));
    assert_eq!(mark.exit(), None);
}

#[test]
fn osc_133_command_end_malformed_code_still_marks_block_end() {
    let s = parse(b"\x1b]133;D;xyz\x07");
    let mark = s.active.rows[0].mark;
    assert!(mark.contains(RowMark::BLOCK_END));
    assert_eq!(mark.exit(), None);
}

#[test]
fn osc_133_remark_is_idempotent() {
    let once = parse(b"\x1b]133;A\x07");
    let twice = parse(b"\x1b]133;A\x07\x1b]133;A\x07");
    assert_eq!(once.active.rows[0].mark, twice.active.rows[0].mark);
    assert!(twice.active.rows[0].mark.contains(RowMark::PROMPT_START));
}

#[test]
fn osc_133_ignored_on_alt_screen() {
    let s = parse(b"\x1b[?1049h\x1b]133;A\x07\x1b]133;B\x07\x1b]133;C\x07\x1b]133;D;0\x07\x1b[?1049l");
    assert!(s.alt.is_none(), "test must end back on the main screen");
    for row in &s.active.rows {
        assert!(row.mark.is_empty(), "main grid must be unmarked");
    }
}

#[test]
fn prompt_end_b_sets_prompt_end_flag_on_cursor_row() {
    let s = parse(b"\x1b]133;A\x07\x1b]133;B\x07\x1b]133;C\x07\x1b]133;D;0\x07");
    let mark = s.active.rows[0].mark;
    assert!(mark.contains(RowMark::PROMPT_START), "A must set PROMPT_START");
    assert!(mark.contains(RowMark::PROMPT_END), "B must set PROMPT_END");
    assert!(mark.contains(RowMark::OUTPUT_START), "C must set OUTPUT_START");
    assert!(mark.contains(RowMark::BLOCK_END), "D must set BLOCK_END");
}

#[test]
fn prompt_end_mark_rides_into_scrollback_with_row() {
    let mut p = StreamParser::new();
    let mut s = Screen::new(2, 8);

    p.advance(&mut s, b"a\r\nb\x1b]133;B\x07\r\nc");
    p.flush(&mut s);

    let mark = s.active.rows[0].mark;
    assert!(mark.contains(RowMark::PROMPT_END), "PROMPT_END must follow its row on scroll");
}

#[test]
fn prompt_end_mark_rides_into_scrollback_when_row_scrolls_away() {
    let mut p = StreamParser::new();
    let mut s = Screen::new(2, 8);
    p.advance(&mut s, b"a\x1b]133;B\x07\r\nb\r\nc\r\nd");
    p.flush(&mut s);

    let active_has_b = s.active.rows.iter().any(|r| r.mark.contains(RowMark::PROMPT_END));
    assert!(!active_has_b, "PROMPT_END row scrolled away; active grid must be clean");

    let sb_has_b = s.scrollback.rows().iter().any(|r| r.mark.contains(RowMark::PROMPT_END));
    assert!(sb_has_b, "PROMPT_END row must exist in scrollback");
}

#[test]
fn prompt_end_mark_shifts_with_scroll_down() {
    let s = parse(b"\x1b]133;B\x07\x1b[T");

    assert!(
        s.active.rows[1].mark.contains(RowMark::PROMPT_END),
        "PROMPT_END must follow its row down after CSI T"
    );
    assert!(
        !s.active.rows[0].mark.contains(RowMark::PROMPT_END),
        "row 0 must not have PROMPT_END after the scroll"
    );
}

#[test]
fn row_marks_ride_into_scrollback() {
    let mut p = StreamParser::new();
    let mut s = Screen::new(2, 8);
    p.advance(&mut s, b"\x1b]133;A\x07\x1b]133;D;7\x07a\r\nb\r\nc\r\nd");
    p.flush(&mut s);
    assert!(s.scrollback.len() >= 2, "row 'a' must have scrolled away");
    let mark = s.scrollback.rows()[0].mark;
    assert!(mark.contains(RowMark::PROMPT_START));
    assert!(mark.contains(RowMark::BLOCK_END));
    assert_eq!(mark.exit(), Some(7));
}

#[test]
fn scrollback_eviction_drops_marks_with_their_rows() {
    let mut p = StreamParser::new();
    let mut s = Screen::new(2, 8);
    s.scrollback = Scrollback::with_cap(1);

    p.advance(&mut s, b"\x1b]133;A\x07\x1b]133;D;7\x07a\r\nb\r\nc\r\nd\r\ne");
    p.flush(&mut s);
    assert_eq!(s.scrollback.len(), 1);
    assert!(
        s.scrollback.rows()[0].mark.is_empty(),
        "the surviving (unmarked) row must not have inherited the evicted mark"
    );
}

#[test]
fn ed2_clears_row_marks() {
    let s = parse(b"\x1b]133;A\x07\x1b]133;D;0\x07hi\x1b[2J");
    for (i, row) in s.active.rows.iter().enumerate() {
        assert!(row.mark.is_empty(), "row {i} must be markless after 2J");
    }
}

#[test]
fn partial_erase_keeps_row_marks() {
    let s = parse(b"\x1b]133;A\x07abc\x1b[2K");
    assert!(s.active.rows[0].mark.contains(RowMark::PROMPT_START));

    let s = parse(b"\x1b]133;A\x07abc\x1b[H\x1b[J");
    assert!(
        s.active.rows[0].mark.contains(RowMark::PROMPT_START),
        "ED 0 (clear_rect path) must not clear marks"
    );
}

#[test]
fn prompt_end_remark_updates_col() {
    let s = parse(b"abc\x1b]133;B\x07x\x1b]133;B\x07");
    let mark = s.active.rows[0].mark;
    assert!(mark.contains(RowMark::PROMPT_END));
    assert_eq!(mark.prompt_end_col(), Some(4), "second B must update the col");
}

#[test]
fn osc_52_clipboard_set_decodes_base64() {
    let s = parse(b"\x1b]52;c;aGVsbG8=\x07");
    assert_eq!(s.clipboard_writes.len(), 1);
    assert_eq!(s.clipboard_writes[0], b"hello");
}

#[test]
fn osc_52_clipboard_set_with_s_selection() {
    let s = parse(b"\x1b]52;s;d29ybGQ=\x07");
    assert_eq!(s.clipboard_writes.len(), 1);
    assert_eq!(s.clipboard_writes[0], b"world");
}

#[test]
fn osc_52_oversized_payload_dropped() {
    let big = "a".repeat(5 * 1024 * 1024);
    let encoded = base64::engine::general_purpose::STANDARD.encode(big.as_bytes());
    let sequence = format!("\x1b]52;c;{encoded}\x07");
    let s = parse(sequence.as_bytes());
    assert!(s.clipboard_writes.is_empty(), "expected oversized payload to be dropped");
}

#[test]
fn osc_52_read_request_ignored() {
    let s = parse(b"\x1b]52;c;?\x07");
    assert!(s.clipboard_writes.is_empty());
}

#[test]
fn osc_11_query_pushes_background_color_query() {
    let s = parse(b"\x1b]11;?\x07");
    assert_eq!(s.color_queries, vec![(0, ColorQuery::Background)]);
}

#[test]
fn osc_10_query_pushes_foreground_color_query() {
    let s = parse(b"\x1b]10;?\x07");
    assert_eq!(s.color_queries, vec![(0, ColorQuery::Foreground)]);
}

#[test]
fn osc_12_query_pushes_cursor_color_query() {
    let s = parse(b"\x1b]12;?\x07");
    assert_eq!(s.color_queries, vec![(0, ColorQuery::Cursor)]);
}

#[test]
fn osc_color_query_records_replies_emitted_before_it() {
    let s = parse(b"\x1b[c\x1b]11;?\x07");
    assert_eq!(s.replies.len(), 1, "DA1 queued one raw reply");
    assert_eq!(s.color_queries, vec![(1, ColorQuery::Background)]);
}

#[test]
fn osc_11_set_form_is_ignored() {
    let s = parse(b"\x1b]11;#1d1c19\x07");
    assert!(s.color_queries.is_empty());
}

#[test]
fn take_color_queries_drains() {
    let mut s = Screen::new(8, 24);
    s.color_queries.push((0, ColorQuery::Background));
    s.color_queries.push((1, ColorQuery::Foreground));
    let drained = s.take_color_queries();
    assert_eq!(
        drained,
        vec![(0, ColorQuery::Background), (1, ColorQuery::Foreground)]
    );
    assert!(s.color_queries.is_empty());
}

#[test]
fn standalone_bel_sets_bell_pending() {
    assert!(parse(b"\x07").bell_pending, "a lone BEL sets the flag");
    assert!(!parse(b"hi ").bell_pending, "ordinary output does not");

    assert!(!parse(b"\x1b]0;title\x07").bell_pending, "OSC-terminating BEL is not a bell");
}

#[test]
fn take_bell_drains() {
    let mut s = Screen::new(8, 24);
    s.bell_pending = true;
    assert!(s.take_bell());
    assert!(!s.take_bell(), "second take is false");
}

#[test]
fn xtmodkeys_csi_gt_4_2_m_is_not_sgr() {

    let s = drive(b"\x1b[>4;2mX");
    let c0 = s.active.get_cell(0, 0).unwrap();
    assert_eq!(c0.grapheme.as_str(), "X");
    assert!(
        !c0.attrs.contains(Attrs::UNDERLINE),
        "CSI >4;2m must not set UNDERLINE on following text"
    );
    assert!(
        !c0.attrs.contains(Attrs::DIM),
        "CSI >4;2m must not set DIM on following text"
    );
}

#[test]
fn xtmodkeys_then_claude_reset_pattern_no_spurious_underline() {

    let s = drive(b"\x1b[>4;2m\x1b[38;5;174mhi\x1b[39m\x1b[22m\x1b[0mz");
    for (col, want) in [(0u16, 'h'), (1, 'i')] {
        let c = s.active.get_cell(0, col).unwrap();
        assert_eq!(c.grapheme.chars().next(), Some(want));
        assert!(
            !c.attrs.contains(Attrs::UNDERLINE),
            "col {col} ({want}) must not be underlined"
        );
    }
    let z = s.active.get_cell(0, 2).unwrap();
    assert_eq!(z.grapheme.as_str(), "z");
    assert!(!z.attrs.contains(Attrs::UNDERLINE), "'z' must not be underlined");
}

#[test]
fn sgr_58_colon_indexed_sets_underline_color() {
    let s = parse(b"\x1b[58:5:9mX");
    assert_eq!(s.active.get_cell(0, 0).unwrap().underline_color, Color::Indexed(9));
}

#[test]
fn sgr_58_colon_rgb_kitty_form_sets_underline_color() {
    let s = parse(b"\x1b[58:2:10:20:30mX");
    assert_eq!(s.active.get_cell(0, 0).unwrap().underline_color, Color::Rgb(10, 20, 30));
}

#[test]
fn sgr_58_colon_rgb_iso_form_with_colorspace_slot() {

    let s = parse(b"\x1b[58:2::10:20:30mX");
    assert_eq!(s.active.get_cell(0, 0).unwrap().underline_color, Color::Rgb(10, 20, 30));
}

#[test]
fn sgr_58_semicolon_form_sets_underline_color() {
    let s = parse(b"\x1b[58;2;10;20;30mX");
    assert_eq!(s.active.get_cell(0, 0).unwrap().underline_color, Color::Rgb(10, 20, 30));
}

#[test]
fn sgr_59_resets_underline_color() {
    let s = parse(b"\x1b[58:5:9m\x1b[59mX");
    assert_eq!(s.active.get_cell(0, 0).unwrap().underline_color, Color::Default);
}

#[test]
fn sgr_0_resets_underline_color() {
    let s = parse(b"\x1b[58:5:9m\x1b[0mX");
    assert_eq!(s.active.get_cell(0, 0).unwrap().underline_color, Color::Default);
}

#[test]
fn parse_extended_color_iso_colorspace_slot_consumes_exact_count() {

    let s = parse(b"\x1b[38:2::1:2:3mX\x1b[4mY");
    let x = s.active.get_cell(0, 0).unwrap();
    assert!(!x.attrs.contains(Attrs::UNDERLINE), "X must NOT be underlined");
    assert_eq!(x.fg, Color::Rgb(1, 2, 3));
    let y = s.active.get_cell(0, 1).unwrap();
    assert!(y.attrs.contains(Attrs::UNDERLINE), "Y SHOULD be underlined (the \\e[4m)");
}

#[test]
fn sgr_combined_semicolon_truecolor_fg_and_bg() {

    let s = parse(b"\x1b[38;2;1;2;3;48;2;4;5;6mX");
    let c0 = s.active.get_cell(0, 0).unwrap();
    assert_eq!(c0.fg, Color::Rgb(1, 2, 3));
    assert_eq!(c0.bg, Color::Rgb(4, 5, 6));
}

#[test]
fn xtmodkeys_set_level_2_then_query_reports_it() {
    let mut p = StreamParser::new();
    let mut s = Screen::new(8, 24);
    p.advance(&mut s, b"\x1b[>4;2m\x1b[?4mX");
    p.flush(&mut s);
    assert_eq!(s.kbd.modify_other_keys(), 2);
    assert_eq!(s.replies, vec![b"\x1b[>4;2m".to_vec()]);
}

#[test]
fn xtmodkeys_bare_resets_to_zero() {
    let s = parse(b"\x1b[>4;2m\x1b[>4mX");
    assert_eq!(s.kbd.modify_other_keys(), 0);
}

#[test]
fn xtmodkeys_does_not_mutate_sgr() {
    let s = parse(b"\x1b[>4;2mX");
    let c0 = s.active.get_cell(0, 0).unwrap();
    assert!(!c0.attrs.contains(Attrs::UNDERLINE), "X must not be underlined");
    assert!(!c0.attrs.contains(Attrs::DIM), "X must not be dim");
}

#[test]
fn kitty_push_then_query_reports_flags() {
    let s = parse(b"\x1b[>15u\x1b[?uX");
    assert_eq!(s.kbd.kitty_flags(false), 15);
    assert_eq!(s.replies, vec![b"\x1b[?15u".to_vec()]);
}

#[test]
fn kitty_set_clear_bits_mode_3() {
    let s = parse(b"\x1b[=15;1u\x1b[=4;3uX");
    assert_eq!(s.kbd.kitty_flags(false), 11);
}

#[test]
fn kitty_pop_empty_stack_resets_to_zero() {
    let s = parse(b"\x1b[>7u\x1b[<u\x1b[<uX");
    assert_eq!(s.kbd.kitty_flags(false), 0);
}

#[test]
fn kitty_stacks_are_per_screen() {
    let mut p = StreamParser::new();
    let mut s = Screen::new(8, 24);
    p.advance(&mut s, b"\x1b[>5u\x1b[?1049h\x1b[>9uX");
    p.flush(&mut s);
    assert_eq!(s.kbd.kitty_flags(true), 9, "alt screen flags");
    assert_eq!(s.kbd.kitty_flags(false), 5, "main screen flags unchanged");
}

#[test]
fn kitty_flags_cleared_on_ris() {
    let s = parse(b"\x1b[>15u\x1bcX");
    assert_eq!(s.kbd.kitty_flags(false), 0, "RIS clears Kitty flags");
    assert_eq!(s.kbd.modify_other_keys(), 0);
}

#[test]
fn kitty_flags_cleared_on_decstr() {
    let s = parse(b"\x1b[>4;2m\x1b[>15u\x1b[58:5:9m\x1b[!pX");
    assert_eq!(s.kbd.kitty_flags(false), 0, "DECSTR clears Kitty flags");
    assert_eq!(s.kbd.modify_other_keys(), 0, "DECSTR clears modifyOtherKeys");
    assert_eq!(
        s.active.get_cell(0, 0).unwrap().underline_color,
        Color::Default,
        "DECSTR resets the cursor's underline color"
    );
}

#[test]
fn xtversion_replies_with_dcs() {
    let s = parse(b"\x1b[>qX");
    let expected = format!("\x1bP>|plexy-glass({})\x1b\\", "0.1.0").into_bytes();
    assert_eq!(s.replies, vec![expected]);
}

#[test]
fn da2_still_answers_with_packed_version() {
    let s = parse(b"\x1b[>cX");
    let ver = pack_da2_version();
    let expected = format!("\x1b[>0;{ver};0c").into_bytes();
    assert_eq!(s.replies, vec![expected]);
}

#[test]
fn decrqm_reports_enabled_bracketed_paste() {
    let s = parse(b"\x1b[?2004h\x1b[?2004$pX");
    assert_eq!(s.replies, vec![b"\x1b[?2004;1$y".to_vec()]);
}

#[test]
fn decrqm_echoes_unknown_mode_with_pm_zero() {
    let s = parse(b"\x1b[?9999$pX");
    assert_eq!(s.replies, vec![b"\x1b[?9999;0$y".to_vec()]);
}

#[test]
fn decrqm_reports_reset_when_off() {
    let s = parse(b"\x1b[?1004$pX");
    assert_eq!(s.replies, vec![b"\x1b[?1004;2$y".to_vec()]);
}

#[test]
fn decrqm_ansi_mode_always_reports_pm_zero() {
    let s = parse(b"\x1b[4$pX");
    assert_eq!(s.replies, vec![b"\x1b[4;0$y".to_vec()]);
}

#[test]
fn focus_events_mode_sets_bit() {
    let s = parse(b"\x1b[?1004hX");
    assert!(s.modes.contains(Modes::FOCUS_EVENTS));
}

#[test]
fn color_scheme_query_replies_dark() {
    let s = parse(b"\x1b[?996nX");
    assert_eq!(s.replies, vec![b"\x1b[?997;1n".to_vec()]);
}

#[test]
fn color_scheme_query_reflects_set_preference() {
    let mut p = StreamParser::new();
    let mut s = Screen::new(4, 8);
    s.set_color_scheme_dark(false);
    p.advance(&mut s, b"\x1b[?996nX");
    p.flush(&mut s);
    assert_eq!(s.replies, vec![b"\x1b[?997;2n".to_vec()]);

    let mut s2 = Screen::new(4, 8);
    s2.set_color_scheme_dark(false);
    let mut p2 = StreamParser::new();
    p2.advance(&mut s2, b"\x1bc\x1b[?996nX");
    p2.flush(&mut s2);
    assert_eq!(s2.replies, vec![b"\x1b[?997;2n".to_vec()]);
}

#[test]
fn fresh_screen_has_zero_counter_and_no_exit() {
    let s = Screen::new(4, 8);
    assert_eq!(s.blocks_completed, 0);
    assert_eq!(s.last_block_exit, None);
}

#[test]
fn single_d_with_exit_zero_increments_counter_and_records_exit() {
    let s = parse(b"\x1b]133;D;0\x07");
    assert_eq!(s.blocks_completed, 1);
    assert_eq!(s.last_block_exit, Some(0));
}

#[test]
fn last_block_duration_recorded_on_c_then_d() {
    let s = parse(b"\x1b]133;A\x07$ cmd\r\n\x1b]133;C\x07out\r\n\x1b]133;D;0\x07x");
    assert!(s.last_block_duration.is_some(), "C->D records a session-level duration");
}

#[test]
fn last_block_duration_none_without_c() {
    let s = parse(b"\x1b]133;A\x07$ cmd\r\n\x1b]133;D;0\x07x");
    assert_eq!(s.last_block_duration, None, "D without C has no duration");
}

#[test]
fn single_d_with_nonzero_exit_records_that_exit() {
    let s = parse(b"\x1b]133;D;7\x07");
    assert_eq!(s.blocks_completed, 1);
    assert_eq!(s.last_block_exit, Some(7));
}

#[test]
fn bare_d_increments_counter_and_exit_is_none() {
    let s = parse(b"\x1b]133;D\x07");
    assert_eq!(s.blocks_completed, 1);
    assert_eq!(s.last_block_exit, None);
}

#[test]
fn two_ds_counter_is_2_exit_is_last() {
    let s = parse(b"\x1b]133;D;3\x07\x1b]133;D;9\x07");
    assert_eq!(s.blocks_completed, 2);
    assert_eq!(s.last_block_exit, Some(9));
}

#[test]
fn d_on_alt_screen_does_not_increment_counter() {
    let s = parse(b"\x1b[?1049h\x1b]133;D;0\x07\x1b[?1049l");
    assert_eq!(s.blocks_completed, 0);
    assert_eq!(s.last_block_exit, None);
}

#[test]
fn ed2_clear_does_not_affect_counter_or_exit() {
    let s = parse(b"\x1b]133;D;5\x07\x1b[2J");
    assert_eq!(s.blocks_completed, 1);
    assert_eq!(s.last_block_exit, Some(5));
}

#[test]
fn scroll_eviction_does_not_affect_counter_or_exit() {
    let mut p = StreamParser::new();
    let mut s = Screen::new(2, 8);
    s.scrollback = Scrollback::with_cap(1);

    p.advance(&mut s, b"\x1b]133;D;4\x07");
    p.flush(&mut s);

    let lots = b"\r\na\r\nb\r\nc\r\nd\r\ne\r\nf";
    p.advance(&mut s, lots);
    p.flush(&mut s);
    assert_eq!(s.blocks_completed, 1, "eviction must not reset the counter");
    assert_eq!(s.last_block_exit, Some(4), "eviction must not clear last exit");
}

#[test]
fn ris_resets_counter_and_exit() {
    let s = parse(b"\x1b]133;A\x07\x1b]133;C\x07\x1b]133;D;2\x07\x1bc");
    assert_eq!(s.blocks_completed, 0);
    assert_eq!(s.last_block_exit, None);
    assert_eq!(s.last_block_duration, None, "RIS clears last_block_duration too");
}

#[test]
fn animation_frames_are_logged_on_their_image() {
    let mut e = Emulator::new(24, 80);
    e.advance(b"\x1b_Ga=t,i=5,f=24,s=10,v=20;QQ\x1b\\");
    e.advance(b"\x1b_Ga=f,i=5,r=2,c=1,x=3,y=4,s=6,v=7,X=1,Y=255,z=40,f=32;QUJD\x1b\\");
    e.advance(b"\x1b_Ga=f,i=5,z=-1;Qg\x1b\\");
    e.advance(b"\x1b_Ga=f,i=99;Qg\x1b\\");
    e.advance(b"\x1b_Ga=f;Qg\x1b\\");
    let s = e.screen();
    assert!(s.placements.is_empty());
    assert_eq!((s.cursor.row.get(), s.cursor.col.get()), (0, 0));
    let img = s.images.get(5).unwrap();
    assert_eq!(img.frames.len(), 2);
    let f = &img.frames[0];
    assert_eq!((f.frame_number, f.canvas_source), (Some(2), Some(1)));
    assert_eq!((f.x, f.y, f.width, f.height), (3, 4, 6, 7));
    assert_eq!((f.overwrite, f.bg_color, f.gap_ms), (true, 255, 40));
    assert_eq!(f.format, ImageFormat::Rgba);
    assert_eq!(f.data_b64.as_ref(), b"QUJD");
    assert_eq!(f.seq, 1);
    let f = &img.frames[1];
    assert_eq!((f.frame_number, f.canvas_source), (None, None));
    assert_eq!((f.x, f.y, f.width, f.height), (0, 0, 0, 0));
    assert_eq!((f.overwrite, f.bg_color, f.gap_ms), (false, 0, -1));
    assert_eq!(f.format, ImageFormat::Png);
    assert_eq!(f.seq, 2);
    assert_eq!(s.images.len(), 1, "a frame for an unknown image is dropped");
}

#[test]
fn the_latest_animation_control_counts() {
    let mut e = Emulator::new(24, 80);
    e.advance(b"\x1b_Ga=t,i=5,f=24,s=10,v=20;QQ\x1b\\");
    assert_eq!(e.screen().images.get(5).unwrap().anim_control, None);
    e.advance(b"\x1b_Ga=a,i=5,s=3,v=1,c=2\x1b\\");
    assert_eq!(
        e.screen().images.get(5).unwrap().anim_control,
        Some(AnimControl { state: Some(3), loop_count: Some(1), current_frame: Some(2) })
    );
    e.advance(b"\x1b_Ga=a,i=5,s=0,v=0\x1b\\");
    assert_eq!(
        e.screen().images.get(5).unwrap().anim_control,
        Some(AnimControl { state: None, loop_count: None, current_frame: None })
    );
    e.advance(b"\x1b_Ga=a,i=6,s=1\x1b\\");
    assert_eq!(e.screen().images.len(), 1);
}

#[test]
fn no_animation_on_the_alternate_screen() {
    let mut e = Emulator::new(24, 80);
    e.advance(b"\x1b_Ga=t,i=5,f=24,s=10,v=20;QQ\x1b\\\x1b[?1049h");
    e.advance(b"\x1b_Ga=f,i=5;Qg\x1b\\\x1b_Ga=a,i=5,s=1\x1b\\");
    let img = e.screen().images.get(5).unwrap();
    assert!(img.frames.is_empty() && img.anim_control.is_none());
}
