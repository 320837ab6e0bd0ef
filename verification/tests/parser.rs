use plexy_glass::parser::{ScreenOps, StreamParser};
use std::iter;

type DcsRecord = (Vec<u8>, u8, Vec<Vec<u16>>, Vec<u8>);

#[derive(Default)]
struct MockScreen {
    graphemes: Vec<String>,
    c0: Vec<u8>,
    csi: Vec<(Vec<Vec<u16>>, Vec<u8>, char)>,
    osc: Vec<Vec<Vec<u8>>>,
    esc: Vec<(Vec<u8>, u8)>,
    dcs: Vec<DcsRecord>,
    graphics: Vec<Vec<u8>>,
}

impl ScreenOps for MockScreen {
    fn put_grapheme(&mut self, cluster: &str) {
        self.graphemes.push(cluster.to_string());
    }
    fn execute_c0(&mut self, byte: u8) {
        self.c0.push(byte);
    }
    fn handle_csi(&mut self, params: &[Vec<u16>], intermediates: &[u8], action: char) {
        self.csi.push((params.to_vec(), intermediates.to_vec(), action));
    }
    fn handle_osc(&mut self, params: &[Vec<u8>]) {
        self.osc.push(params.to_vec());
    }
    fn handle_esc(&mut self, intermediates: &[u8], byte: u8) {
        self.esc.push((intermediates.to_vec(), byte));
    }
    fn handle_dcs(
        &mut self,
        intermediates: &[u8],
        action: u8,
        params: &[Vec<u16>],
        payload: &[u8],
    ) {
        self.dcs.push((
            intermediates.to_vec(),
            action,
            params.to_vec(),
            payload.to_vec(),
        ));
    }
    fn handle_graphics(&mut self, framed: &[u8]) {
        self.graphics.push(framed.to_vec());
    }
}

fn drive(input: &[u8]) -> MockScreen {
    let mut p = StreamParser::new();
    let mut s = MockScreen::default();
    p.advance(&mut s, input);
    s
}

#[test]
fn ascii_text_dispatches_per_grapheme() {
    let s = drive(b"abc");
    assert_eq!(s.graphemes, vec!["a", "b"]);
}

#[test]
fn control_byte_flushes_pending() {
    let s = drive(b"ab\nx");

    assert_eq!(s.graphemes, vec!["a", "b"]);
    assert_eq!(s.c0, vec![b'\n']);
}

#[test]
fn csi_dispatches() {
    let s = drive(b"\x1b[1;31m");
    assert_eq!(s.csi.len(), 1);
    let (params, _ints, action) = &s.csi[0];
    assert_eq!(action, &'m');
    assert_eq!(params, &vec![vec![1u16], vec![31u16]]);
}

#[test]
fn osc_dispatches() {
    let s = drive(b"\x1b]0;hello\x07");
    assert_eq!(s.osc.len(), 1);

    assert_eq!(s.osc[0][0], b"0");
    assert_eq!(s.osc[0][1], b"hello");
}

#[test]
fn dcs_xtgettcap_accumulates_payload() {
    let s = drive(b"\x1bP+q636f6c6f7273\x1b\\");
    assert_eq!(s.dcs.len(), 1);
    let (ints, action, _params, payload) = &s.dcs[0];
    assert_eq!(ints, b"+");
    assert_eq!(*action, b'q');
    assert_eq!(payload, b"636f6c6f7273");
}

#[test]
fn combining_mark_attaches_to_base() {
    let s = drive("a\u{0301}b".as_bytes());

    assert_eq!(s.graphemes, vec!["a\u{0301}"]);
}

#[test]
fn dcs_payload_is_capped_at_dcs_cap() {
    let dcs_cap: usize = 4 * 1024 * 1024;
    let mut input = Vec::from(&b"\x1bP+q"[..]);
    input.extend(iter::repeat_n(b'a', dcs_cap + 100));
    input.extend_from_slice(b"\x1b\\");
    let s = drive(&input);
    assert_eq!(s.dcs.len(), 1, "one DCS dispatched");
    let (_ints, _action, _params, payload) = &s.dcs[0];
    assert_eq!(payload.len(), dcs_cap, "payload truncated to the cap");
}

#[test]
fn graphics_apc_diverted_per_chunk_text_passes_through() {
    let s = drive(b"hi\x1b_Ga=T,m=1;AA\x1b\\\x1b_Gm=0;BB\x1b\\");
    assert_eq!(s.graphics.len(), 2, "one capture per chunk");
    assert_eq!(s.graphics[0], b"\x1b_Ga=T,m=1;AA\x1b\\");
    assert_eq!(s.graphics[1], b"\x1b_Gm=0;BB\x1b\\");
    assert!(s.graphemes.contains(&"h".to_string()));
}

#[test]
fn graphics_apc_split_across_reads_is_captured_whole() {
    let mut p = StreamParser::new();
    let mut s = MockScreen::default();
    p.advance(&mut s, b"\x1b_Ga=T,f=100;AA");
    p.advance(&mut s, b"BB\x1b\\");
    assert_eq!(s.graphics, vec![b"\x1b_Ga=T,f=100;AABB\x1b\\".to_vec()]);
}

#[test]
fn csi_after_graphics_still_dispatches() {
    let s = drive(b"\x1b_Ga=T;AA\x1b\\\x1b[31m");
    assert_eq!(s.graphics.len(), 1);
    assert_eq!(s.csi.len(), 1);
    assert_eq!(s.csi[0].2, 'm');
}

#[test]
fn combining_mark_flood_is_bounded() {
    let mut p = StreamParser::new();
    let mut s = MockScreen::default();
    let mut input = String::from("a");
    for _ in 0..5000 {
        input.push('\u{0301}');
    }
    p.advance(&mut s, input.as_bytes());
    assert!(
        !s.graphemes.is_empty(),
        "the cap must force-flush the mega-cluster"
    );
    assert!(
        p.pending().len() <= 8192,
        "pending must stay bounded (cap 4096 + slack), got {}",
        p.pending().len()
    );
}

#[test]
fn graphics_apc_payload_survives_1mb_size() {
    let payload_size: usize = 1_200_000;
    let mut input = Vec::with_capacity(payload_size + 8);
    input.extend_from_slice(b"\x1b_G");
    input.extend(iter::repeat_n(b'A', payload_size));
    input.extend_from_slice(b"\x1b\\");
    let s = drive(&input);
    assert_eq!(s.graphics.len(), 1, "graphics APC must be captured");

    assert_eq!(
        s.graphics[0].len(),
        payload_size + 5,
        "full payload must not be truncated by a too-small APC_CAP"
    );
}

#[test]
fn apc_esc_inside_payload_before_terminator() {
    let input = b"\x1b_Ga\x1bb\x1b\\";
    let s = drive(input);
    assert_eq!(s.graphics.len(), 1, "APC with inner ESC must be captured");

    assert_eq!(
        s.graphics[0], b"\x1b_Ga\x1bb\x1b\\",
        "inner ESC must be preserved in the payload"
    );
}

#[test]
fn apc_double_esc_then_terminator() {
    let input = b"\x1b_Gdata\x1b\x1b\\";
    let s = drive(input);
    assert_eq!(
        s.graphics.len(),
        1,
        "double-ESC terminated APC must be captured"
    );

    assert_eq!(
        s.graphics[0], b"\x1b_Gdata\x1b\x1b\\",
        "inner ESC must be part of payload; only the second ESC is the terminator prefix"
    );
}

#[test]
fn osc_body_is_capped_in_the_prescan() {
    let mut input = Vec::from(&b"\x1b]0;"[..]);
    input.extend(iter::repeat_n(b'A', 5 * 1024 * 1024));
    input.extend_from_slice(b"\x07");
    let s = drive(&input);
    assert_eq!(s.osc.len(), 1, "one OSC dispatched");

    assert!(
        s.osc[0][1].len() <= 4 * 1024 * 1024,
        "OSC body must be capped; got {}",
        s.osc[0][1].len()
    );
    assert!(!s.osc[0][1].is_empty(), "the capped body still reaches vte");
}

#[test]
fn osc_0x9c_mid_body_does_not_disable_the_cap() {
    let mut input = Vec::from(&b"\x1b]0;\x9c"[..]);
    input.extend(iter::repeat_n(b'A', 5 * 1024 * 1024));
    input.extend_from_slice(b"\x07");
    let s = drive(&input);
    assert_eq!(s.osc.len(), 1, "one OSC dispatched");
    assert!(
        s.osc[0][1].len() <= 4 * 1024 * 1024,
        "OSC body must stay capped even with a 0x9c byte inside it; got {}",
        s.osc[0][1].len()
    );
    assert!(!s.osc[0][1].is_empty(), "the capped body still reaches vte");
}

#[test]
fn osc_st_terminator_leaves_osc_and_following_csi_dispatches() {
    let s = drive(b"\x1b]0;hi\x1b\\\x1b[31m");
    assert_eq!(s.osc.len(), 1);
    assert_eq!(s.osc[0][1], b"hi");
    assert_eq!(s.csi.len(), 1, "the CSI after the OSC must dispatch");
    assert_eq!(s.csi[0].2, 'm');
}

#[test]
fn unterminated_osc_does_not_swallow_the_next_osc() {
    let mut input = Vec::from(&b"\x1b]0;"[..]);
    input.extend(iter::repeat_n(b'A', 5 * 1024 * 1024));
    input.extend_from_slice(b"\x1b]2;after\x07");
    let s = drive(&input);

    let last = s.osc.last().expect("the following OSC must dispatch");
    assert_eq!(last[0], b"2");
    assert_eq!(last[1], b"after");
}

#[test]
fn combining_mark_cap_exact_boundary() {
    let mut p = StreamParser::new();
    let mut s = MockScreen::default();
    let mut input = String::from("\u{00C0}");
    for _ in 0..2047 {
        input.push('\u{0301}');
    }
    assert_eq!(input.len(), 4096, "sanity: exactly PENDING_CAP bytes");
    p.advance(&mut s, input.as_bytes());

    assert!(
        s.graphemes.is_empty(),
        "at exactly PENDING_CAP bytes the cluster must NOT be force-flushed yet"
    );
    assert_eq!(
        p.pending().len(),
        4096,
        "the 4096-byte cluster stays in pending until the cap is exceeded"
    );
}
