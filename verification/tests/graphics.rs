use base64::engine::general_purpose::STANDARD;
use base64::Engine;
use plexy_glass::graphics::{
    iterm_dimensions, jpeg_dimensions, parse_command, parse_iterm_file, png_dimensions,
    sixel_dimensions,
};
use plexy_glass::{Frame, Image, ImageFormat, ImageProtocol, ImageStore};
use std::sync::Arc;

#[test]
fn parses_transmit_and_display_keys() {
    let cmd = parse_command(b"\x1b_Ga=T,i=42,f=100,s=640,v=480,m=1;AAAA\x1b\\").unwrap();
    assert_eq!(cmd.action, b'T');
    assert_eq!(cmd.id, Some(42));
    assert_eq!(cmd.format, Some(100));
    assert_eq!(cmd.width, Some(640));
    assert_eq!(cmd.height, Some(480));
    assert!(cmd.more);
    assert_eq!(cmd.payload, b"AAAA");
}

#[test]
fn parses_continuation_chunk() {
    let cmd = parse_command(b"\x1b_Gm=0;BBBB\x1b\\").unwrap();
    assert_eq!(cmd.action, b't', "no a= → default transmit");
    assert!(!cmd.more);
    assert!(cmd.saw_m, "m=0 still sets saw_m even though more is false");
    assert_eq!(cmd.payload, b"BBBB");
}

#[test]
fn saw_m_false_when_key_absent() {
    let cmd = parse_command(b"\x1b_Ga=T,i=1;AAAA\x1b\\").unwrap();
    assert!(!cmd.saw_m, "no m= key on the wire → saw_m stays false");
}

#[test]
fn non_graphics_apc_is_none() {
    assert!(parse_command(b"\x1b_qfoo\x1b\\").is_none());
}

#[test]
fn parse_command_z_index_key() {
    let cmd = parse_command(b"\x1b_Ga=p,i=5,z=-3\x1b\\").unwrap();
    assert_eq!(cmd.z, Some(-3));
}

#[test]
fn parse_command_z_index_absent_by_default() {
    let cmd = parse_command(b"\x1b_Ga=p,i=5\x1b\\").unwrap();
    assert_eq!(cmd.z, None);
}

#[test]
fn parse_command_frame_transmit_keys() {
    let cmd = parse_command(
        b"\x1b_Ga=f,i=9,r=2,c=1,x=10,y=5,s=20,v=30,X=1,Y=4278190335,z=-1,f=32\x1b\\",
    )
    .unwrap();
    assert_eq!(cmd.action, b'f');
    assert_eq!(cmd.id, Some(9));
    assert_eq!(cmd.rows, Some(2));
    assert_eq!(cmd.cols, Some(1));
    assert_eq!(cmd.frame_x, Some(10));
    assert_eq!(cmd.frame_y, Some(5));
    assert_eq!(cmd.width, Some(20));
    assert_eq!(cmd.height, Some(30));
    assert!(cmd.compose_overwrite);
    assert_eq!(cmd.bg_color, Some(4_278_190_335));
    assert_eq!(cmd.z, Some(-1));
    assert_eq!(cmd.format, Some(32));
}

#[test]
fn parse_command_frame_defaults() {
    let cmd = parse_command(b"\x1b_Ga=f,i=9\x1b\\").unwrap();
    assert!(!cmd.compose_overwrite);
    assert_eq!(cmd.bg_color, None);
    assert_eq!(cmd.frame_x, None);
    assert_eq!(cmd.frame_y, None);
}

#[test]
fn parse_command_animation_control_keys() {
    let cmd = parse_command(b"\x1b_Ga=a,i=6,s=3,v=0,c=2\x1b\\").unwrap();
    assert_eq!(cmd.action, b'a');
    assert_eq!(cmd.id, Some(6));
    assert_eq!(cmd.width, Some(3));
    assert_eq!(cmd.height, Some(0));
    assert_eq!(cmd.cols, Some(2));
}

#[test]
fn png_dims_from_header() {
    let mut png = vec![0x89, 0x50, 0x4E, 0x47, 0x0D, 0x0A, 0x1A, 0x0A];
    png.extend_from_slice(&13u32.to_be_bytes());
    png.extend_from_slice(b"IHDR");
    png.extend_from_slice(&640u32.to_be_bytes());
    png.extend_from_slice(&480u32.to_be_bytes());
    assert_eq!(png_dimensions(&png), Some((640, 480)));
    assert_eq!(png_dimensions(b"not a png header...."), None);
}

#[test]
fn sixel_dims_from_raster_attributes() {
    assert_eq!(
        sixel_dimensions(b"\"1;1;640;480#0;2;0;0;0~~~"),
        Some((640, 480))
    );
}

#[test]
fn sixel_dims_fallback_scan_when_no_raster() {
    assert_eq!(sixel_dimensions(b"~~~"), Some((3, 6)));

    assert_eq!(sixel_dimensions(b"~~-~"), Some((2, 12)));

    assert_eq!(sixel_dimensions(b"!5~"), Some((5, 6)));

    assert_eq!(sixel_dimensions(b"#0;2;0;0;0"), None);
}

#[test]
fn sixel_dims_color_register_then_data() {
    assert_eq!(sixel_dimensions(b"#0~~~"), Some((3, 6)));

    assert_eq!(sixel_dimensions(b"#0;2;0;0;0~~~"), Some((3, 6)));
}

#[test]
fn sixel_dimensions_saturates_on_pathological_counts() {
    let _ = sixel_dimensions(b"!99999999999999999999~");
    let _ = sixel_dimensions(b"\"1;1;99999999999999999999;88888888888888888888~~~");
    let mut many = vec![b'~'; 10];
    many.splice(0..0, b"!4000000000".iter().copied());
    let _ = sixel_dimensions(&many);
}

#[test]
fn iterm_file_splits_args_and_data() {
    assert_eq!(
        parse_iterm_file("File=inline=1;width=20px:QUJDQUJD"),
        Some(("inline=1;width=20px", "QUJDQUJD"))
    );
    assert_eq!(parse_iterm_file("NotFile=x:y"), None);
}

#[test]
fn iterm_dims_from_pixel_args() {
    assert_eq!(
        iterm_dimensions("inline=1;width=20px;height=40px", "ignored"),
        Some((20, 40))
    );

    assert_eq!(
        iterm_dimensions("inline=1;width=10;height=50%", "!!notb64!!"),
        None
    );
}

#[test]
fn iterm_dims_from_png_header() {
    let mut png = vec![0x89, 0x50, 0x4E, 0x47, 0x0D, 0x0A, 0x1A, 0x0A];
    png.extend_from_slice(&13u32.to_be_bytes());
    png.extend_from_slice(b"IHDR");
    png.extend_from_slice(&30u32.to_be_bytes());
    png.extend_from_slice(&40u32.to_be_bytes());
    let b64 = STANDARD.encode(&png);
    assert_eq!(iterm_dimensions("inline=1", &b64), Some((30, 40)));
}

#[test]
fn jpeg_dims_from_sof() {
    let mut jpg = vec![
        0xFF, 0xD8, 0xFF, 0xC0, 0x00, 0x11, 0x08, 0x00, 0x28, 0x00, 0x1E,
    ];
    jpg.extend_from_slice(&[0x03; 10]);
    assert_eq!(jpeg_dimensions(&jpg), Some((30, 40)));
    assert_eq!(jpeg_dimensions(b"not a jpeg"), None);
}

fn make_img(id: u32, size: usize) -> Image {
    Image {
        id,
        format: ImageFormat::Png,
        pixel_w: 1,
        pixel_h: 1,
        data_b64: vec![0u8; size].into(),
        iterm_args: None,
        protocol: ImageProtocol::Kitty,
        generation: 1,
        frames: Arc::new(Vec::new()),
        anim_control: None,
    }
}

fn sample_image(id: u32, data: &[u8]) -> Image {
    Image {
        id,
        protocol: ImageProtocol::Kitty,
        format: ImageFormat::Rgba,
        pixel_w: 1,
        pixel_h: 1,
        data_b64: Arc::from(data),
        iterm_args: None,
        generation: 1,
        frames: Arc::new(Vec::new()),
        anim_control: None,
    }
}

fn sample_frame(data: &[u8]) -> Frame {
    Frame {
        frame_number: None,
        canvas_source: None,
        x: 0,
        y: 0,
        width: 0,
        height: 0,
        overwrite: false,
        bg_color: 0,
        gap_ms: 0,
        format: ImageFormat::Rgba,
        data_b64: Arc::from(data),
        seq: 0,
    }
}

#[test]
fn push_frame_no_op_for_unknown_id() {
    let mut store = ImageStore::default();
    let evicted = store.push_frame(999, sample_frame(b"data"));
    assert!(evicted.is_empty());
}

#[test]
fn push_frame_appends_and_counts_bytes() {
    let mut store = ImageStore::default();
    store.insert(sample_image(1, b"base"));
    store.push_frame(1, sample_frame(b"frame-one"));
    assert_eq!(store.get(1).unwrap().frames.len(), 1);
    assert_eq!(
        store.get(1).unwrap().frames[0].data_b64.as_ref(),
        b"frame-one"
    );
    assert_eq!(
        store.get(1).unwrap().frames[0].seq,
        1,
        "first frame ever pushed for a fresh image gets seq 1"
    );
}

#[test]
fn push_frame_evicts_oldest_frame_past_cap() {
    let mut store = ImageStore::default();
    store.insert(sample_image(1, b"base"));
    for i in 0..(ImageStore::CAP_FRAMES_PER_IMAGE + 5) {
        store.push_frame(1, sample_frame(format!("f{i}").as_bytes()));
    }
    let frames = &store.get(1).unwrap().frames;
    assert_eq!(frames.len(), ImageStore::CAP_FRAMES_PER_IMAGE);

    assert_eq!(frames[0].data_b64.as_ref(), b"f5");

    assert_eq!(
        frames[0].seq, 6,
        "a surviving frame's seq must not shift when older frames are evicted"
    );
    assert!(
        frames.windows(2).all(|w| w[0].seq < w[1].seq),
        "seq must stay strictly increasing across the eviction boundary"
    );
}

#[test]
fn from_kitty_f_all_arms() {
    assert_eq!(ImageFormat::from_kitty_f(100), Some(ImageFormat::Png));
    assert_eq!(ImageFormat::from_kitty_f(24), Some(ImageFormat::Rgb));
    assert_eq!(ImageFormat::from_kitty_f(32), Some(ImageFormat::Rgba));
    assert_eq!(ImageFormat::from_kitty_f(0), None);
    assert_eq!(ImageFormat::from_kitty_f(25), None);
    assert_eq!(ImageFormat::from_kitty_f(99), None);
    assert_eq!(ImageFormat::from_kitty_f(101), None);
    assert_eq!(ImageFormat::from_kitty_f(33), None);
}

#[test]
fn kitty_f_correct_values() {
    assert_eq!(ImageFormat::Png.kitty_f(), 100);
    assert_eq!(ImageFormat::Rgb.kitty_f(), 24);
    assert_eq!(ImageFormat::Rgba.kitty_f(), 32);

    assert_ne!(ImageFormat::Png.kitty_f(), 0);
    assert_ne!(ImageFormat::Rgb.kitty_f(), 1);
    assert_ne!(ImageFormat::Rgba.kitty_f(), 0);
    assert_ne!(ImageFormat::Rgba.kitty_f(), 1);

    for &f in &[100u32, 24, 32] {
        assert_eq!(ImageFormat::from_kitty_f(f).unwrap().kitty_f(), f);
    }
}

#[test]
fn store_len_is_empty() {
    let mut store = ImageStore::default();
    assert!(store.is_empty());
    assert_eq!(store.len(), 0);
    store.insert(make_img(1, 10));
    assert!(!store.is_empty());
    assert_eq!(store.len(), 1);
    store.insert(make_img(2, 10));
    assert!(!store.is_empty());
    assert_eq!(store.len(), 2);
}

#[test]
fn store_tiny_images_no_eviction() {
    let mut store = ImageStore::default();
    let ev1 = store.insert(make_img(1, 100));
    let ev2 = store.insert(make_img(2, 100));
    assert!(ev1.is_empty());
    assert!(ev2.is_empty());
    assert_eq!(store.len(), 2);
    assert!(store.contains(1));
    assert!(store.contains(2));
}

#[test]
fn store_medium_images_no_eviction() {
    let mut store = ImageStore::default();
    let ev1 = store.insert(make_img(1, 600 * 1024));
    let ev2 = store.insert(make_img(2, 600 * 1024));
    assert!(ev1.is_empty(), "600 KiB × 2 fits in the real 64 MiB cap");
    assert!(ev2.is_empty());
    assert_eq!(store.len(), 2);
}

#[test]
fn store_reinsertion_preserves_lru_order() {
    let mb25: Arc<[u8]> = vec![0u8; 25 * 1024 * 1024].into();
    let mut store = ImageStore::default();
    store.insert(Image {
        id: 1,
        format: ImageFormat::Png,
        pixel_w: 1,
        pixel_h: 1,
        data_b64: mb25.clone(),
        iterm_args: None,
        protocol: ImageProtocol::Kitty,
        generation: 1,
        frames: Arc::new(Vec::new()),
        anim_control: None,
    });
    store.insert(Image {
        id: 2,
        format: ImageFormat::Png,
        pixel_w: 1,
        pixel_h: 1,
        data_b64: mb25.clone(),
        iterm_args: None,
        protocol: ImageProtocol::Kitty,
        generation: 1,
        frames: Arc::new(Vec::new()),
        anim_control: None,
    });

    store.insert(Image {
        id: 1,
        format: ImageFormat::Png,
        pixel_w: 1,
        pixel_h: 1,
        data_b64: mb25.clone(),
        iterm_args: None,
        protocol: ImageProtocol::Kitty,
        generation: 2,
        frames: Arc::new(Vec::new()),
        anim_control: None,
    });

    let evicted = store.insert(Image {
        id: 3,
        format: ImageFormat::Png,
        pixel_w: 1,
        pixel_h: 1,
        data_b64: mb25,
        iterm_args: None,
        protocol: ImageProtocol::Kitty,
        generation: 1,
        frames: Arc::new(Vec::new()),
        anim_control: None,
    });
    assert_eq!(evicted, vec![2], "id=2 is oldest after re-insert of id=1");
    assert!(store.contains(1));
    assert!(!store.contains(2));
    assert!(store.contains(3));
}

#[test]
fn store_exactly_at_cap_no_eviction() {
    let mb32: Arc<[u8]> = vec![0u8; 32 * 1024 * 1024].into();
    let mut store = ImageStore::default();
    let ev1 = store.insert(Image {
        id: 1,
        format: ImageFormat::Png,
        pixel_w: 1,
        pixel_h: 1,
        data_b64: mb32.clone(),
        iterm_args: None,
        protocol: ImageProtocol::Kitty,
        generation: 1,
        frames: Arc::new(Vec::new()),
        anim_control: None,
    });
    let ev2 = store.insert(Image {
        id: 2,
        format: ImageFormat::Png,
        pixel_w: 1,
        pixel_h: 1,
        data_b64: mb32,
        iterm_args: None,
        protocol: ImageProtocol::Kitty,
        generation: 1,
        frames: Arc::new(Vec::new()),
        anim_control: None,
    });
    assert!(ev1.is_empty(), "first insert: no eviction");
    assert!(
        ev2.is_empty(),
        "total == cap exactly: no eviction with `>`; mutation `>=` evicts"
    );
    assert_eq!(store.len(), 2);
    assert!(store.contains(1));
    assert!(store.contains(2));
}

#[test]
fn store_single_oversized_image_never_evicted() {
    let mb65: Arc<[u8]> = vec![0u8; 65 * 1024 * 1024].into();
    let mut store = ImageStore::default();
    let evicted = store.insert(Image {
        id: 1,
        format: ImageFormat::Png,
        pixel_w: 1,
        pixel_h: 1,
        data_b64: mb65,
        iterm_args: None,
        protocol: ImageProtocol::Kitty,
        generation: 1,
        frames: Arc::new(Vec::new()),
        anim_control: None,
    });
    assert!(
        evicted.is_empty(),
        "sole image must survive even if it exceeds cap"
    );
    assert_eq!(store.len(), 1);
    assert!(store.contains(1));
}

#[test]
fn store_eviction_keeps_last_image() {
    let mb40: Arc<[u8]> = vec![0u8; 40 * 1024 * 1024].into();
    let mut store = ImageStore::default();
    store.insert(Image {
        id: 1,
        format: ImageFormat::Png,
        pixel_w: 1,
        pixel_h: 1,
        data_b64: mb40.clone(),
        iterm_args: None,
        protocol: ImageProtocol::Kitty,
        generation: 1,
        frames: Arc::new(Vec::new()),
        anim_control: None,
    });
    let evicted = store.insert(Image {
        id: 2,
        format: ImageFormat::Png,
        pixel_w: 1,
        pixel_h: 1,
        data_b64: mb40,
        iterm_args: None,
        protocol: ImageProtocol::Kitty,
        generation: 1,
        frames: Arc::new(Vec::new()),
        anim_control: None,
    });

    assert_eq!(evicted, vec![1]);
    assert_eq!(store.len(), 1, "exactly one image survives");
    assert!(store.contains(2), "the surviving image is id=2");
}

#[test]
fn parse_command_delete_target_key() {
    let cmd = parse_command(b"\x1b_Ga=d,d=a,i=5\x1b\\").unwrap();
    assert_eq!(cmd.action, b'd');
    assert_eq!(cmd.delete_target, Some(b'a'));
    assert_eq!(cmd.id, Some(5));

    let cmd2 = parse_command(b"\x1b_Ga=d,d=z\x1b\\").unwrap();
    assert_eq!(cmd2.delete_target, Some(b'z'));

    let cmd3 = parse_command(b"\x1b_Ga=d,i=1\x1b\\").unwrap();
    assert_eq!(cmd3.delete_target, None);
}

#[test]
fn sixel_raster_attr_with_leading_bytes() {
    assert_eq!(
        sixel_dimensions(b"#0;2;0;100;100\"1;1;640;480q"),
        Some((640, 480))
    );
    assert_eq!(
        sixel_dimensions(b"#0;2;0;0;0#1;2;100;0;0\"1;1;320;240!"),
        Some((320, 240))
    );
}

#[test]
fn sixel_raster_attr_extra_values_no_panic() {
    assert_eq!(sixel_dimensions(b"\"1;1;640;480;999q"), Some((640, 480)));
    assert_eq!(sixel_dimensions(b"\"1;1;640;480;x"), Some((640, 480)));

    assert_eq!(sixel_dimensions(b"\"1;1;640;480;999;x"), Some((640, 480)));
}

#[test]
fn sixel_raster_zero_dimensions_none() {
    assert_eq!(sixel_dimensions(b"\"1;1;0;480\x00"), None);
    assert_eq!(sixel_dimensions(b"\"1;1;640;0\x00"), None);
    assert_eq!(sixel_dimensions(b"\"1;1;0;0\x00"), None);

    assert_eq!(sixel_dimensions(b"\"1;1;1;1\x00"), Some((1, 1)));
}

#[test]
fn sixel_carriage_return_resets_column() {
    assert_eq!(sixel_dimensions(b"~~~$~~"), Some((3, 6)));
    assert_eq!(sixel_dimensions(b"~~~~~$~"), Some((5, 6)));
    assert_eq!(sixel_dimensions(b"~~~$~~~~~$~~"), Some((5, 6)));
}

#[test]
fn sixel_new_band_increments_height() {
    assert_eq!(sixel_dimensions(b"~-~"), Some((1, 12)));
    assert_eq!(sixel_dimensions(b"~-~-~"), Some((1, 18)));
}

#[test]
fn sixel_data_byte_range_boundary() {
    assert_eq!(sixel_dimensions(b"?"), Some((1, 6)));
    assert_eq!(sixel_dimensions(b"~"), Some((1, 6)));
    assert_eq!(sixel_dimensions(b"\x3e"), None);
    assert_eq!(sixel_dimensions(b"\x7f"), None);
}

#[test]
fn sixel_repeat_at_end_no_data_byte() {
    assert_eq!(sixel_dimensions(b"!3"), None);
    assert_eq!(sixel_dimensions(b"!99"), None);
    assert_eq!(sixel_dimensions(b"!3~"), Some((3, 6)));
}

#[test]
fn sixel_repeat_out_of_range_byte_ignored() {
    assert_eq!(sixel_dimensions(b"!3\x7f"), None);
    assert_eq!(sixel_dimensions(b"!3\x3e"), None);
    assert_eq!(sixel_dimensions(b"!3\x3f"), Some((3, 6)));
}

#[test]
fn jpeg_initial_check_short_and_bad_soi() {
    assert_eq!(jpeg_dimensions(&[]), None);
    assert_eq!(jpeg_dimensions(&[0xFF]), None);
    assert_eq!(jpeg_dimensions(&[0xFF, 0xD8]), None);
    assert_eq!(jpeg_dimensions(&[0xFF, 0xD8, 0xFF]), None);

    assert_eq!(
        jpeg_dimensions(&[
            0x00, 0xD8, 0xFF, 0xC0, 0x00, 0x11, 0x08, 0x00, 0x28, 0x00, 0x1E, 0x00, 0x00, 0x00
        ]),
        None
    );

    assert_eq!(
        jpeg_dimensions(&[
            0xFF, 0x00, 0xFF, 0xC0, 0x00, 0x11, 0x08, 0x00, 0x28, 0x00, 0x1E, 0x00, 0x00, 0x00
        ]),
        None
    );
}

#[test]
fn jpeg_loop_skips_rst_markers_before_sof() {
    let mut jpg = vec![
        0xFF, 0xD8,
        0xFF, 0xD0,
        0xFF, 0xD1,
        0xFF, 0xC0,
        0x00, 0x11,
        0x08,
        0x00, 0x64,
        0x00, 0x50,
    ];
    jpg.extend_from_slice(&[0x03u8; 10]);
    assert_eq!(jpeg_dimensions(&jpg), Some((80, 100)));
}

#[test]
fn jpeg_skips_length_prefixed_app_segment() {
    let mut jpg = vec![
        0xFF, 0xD8,
        0xFF, 0xE0,
        0x00, 0x10,
    ];
    jpg.extend_from_slice(&[0x00u8; 14]);

    jpg.extend_from_slice(&[0xFF, 0xC0, 0x00, 0x11, 0x08, 0x00, 0xF0, 0x00, 0xA0]);
    jpg.extend_from_slice(&[0x03u8; 10]);

    assert_eq!(jpeg_dimensions(&jpg), Some((160, 240)));
}

#[test]
fn jpeg_truncated_at_sof_boundary() {
    let data: &[u8] = &[0xFF, 0xD8, 0xFF, 0xC0, 0x00, 0x11, 0x08, 0x00, 0x28, 0x00];
    assert_eq!(jpeg_dimensions(data), None);
}

#[test]
fn jpeg_garbage_byte_before_sof() {
    let mut jpg = vec![
        0xFF, 0xD8,
        0x00,
        0xFF, 0xC0,
        0x00, 0x11,
        0x08,
        0x00, 0x64,
        0x00, 0x50,
    ];
    jpg.extend_from_slice(&[0x03u8; 10]);
    assert_eq!(jpeg_dimensions(&jpg), Some((80, 100)));
}

#[test]
fn jpeg_fill_byte_before_marker() {
    let mut jpg = vec![
        0xFF, 0xD8,
        0xFF, 0xFF,
        0xFF, 0xC0,
        0x00, 0x11,
        0x08,
        0x00, 0x64,
        0x00, 0x50,
    ];
    jpg.extend_from_slice(&[0x03u8; 10]);
    assert_eq!(jpeg_dimensions(&jpg), Some((80, 100)));
}

#[test]
fn jpeg_two_app_segments_at_different_offsets() {
    let mut jpg = vec![
        0xFF, 0xD8,

        0xFF, 0xE0, 0x00, 0x06, 0xAA, 0x11, 0xCC, 0xDD,

        0xFF, 0xE1, 0x00, 0x08, 0x01, 0x02, 0x03, 0x04, 0x05, 0x06,

        0xFF, 0xC0, 0x00, 0x11, 0x08, 0x00, 0xF0, 0x00, 0xA0,
    ];

    jpg.extend_from_slice(&[
        0x03u8, 0xBBu8, 0x11u8, 0x00u8, 0x02u8, 0x11u8, 0x01u8, 0x03u8, 0x11u8, 0x01u8,
    ]);
    assert_eq!(jpeg_dimensions(&jpg), Some((160, 240)));
}

#[test]
fn png_dimensions_length_boundary() {
    let mut png: Vec<u8> = vec![0x89, 0x50, 0x4E, 0x47, 0x0D, 0x0A, 0x1A, 0x0A];
    png.extend_from_slice(&13u32.to_be_bytes());
    png.extend_from_slice(b"IHDR");
    png.extend_from_slice(&100u32.to_be_bytes());
    png.extend_from_slice(&200u32.to_be_bytes());
    assert_eq!(png.len(), 24);
    assert_eq!(png_dimensions(&png), Some((100, 200)));

    assert_eq!(png_dimensions(&png[..23]), None);

    let mut longer = png.clone();
    longer.push(0x00);
    assert_eq!(png_dimensions(&longer), Some((100, 200)));

    let mut bad_sig = png.clone();
    bad_sig[0] = 0x00;
    assert_eq!(png_dimensions(&bad_sig), None);
}

#[test]
fn image_store_lru_evicts_over_budget() {
    let mut store = ImageStore::default();

    let big = vec![b'A'; 40 * 1024 * 1024];
    let ev1 = store.insert(Image {
        id: 1,
        format: ImageFormat::Png,
        pixel_w: 1,
        pixel_h: 1,
        data_b64: big.clone().into(),
        iterm_args: None,
        protocol: ImageProtocol::Kitty,
        generation: 1,
        frames: Arc::new(Vec::new()),
        anim_control: None,
    });
    assert!(ev1.is_empty());
    let ev2 = store.insert(Image {
        id: 2,
        format: ImageFormat::Png,
        pixel_w: 1,
        pixel_h: 1,
        data_b64: big.into(),
        iterm_args: None,
        protocol: ImageProtocol::Kitty,
        generation: 2,
        frames: Arc::new(Vec::new()),
        anim_control: None,
    });
    assert_eq!(ev2, vec![1], "oldest image evicted over budget");
    assert!(!store.contains(1));
    assert!(store.contains(2));
}
