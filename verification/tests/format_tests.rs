use chess_gif::gif::{
    push_comment, push_graphic_control, push_header, push_image_data, push_image_desc,
    push_loop_forever, push_screen_desc, push_trailer,
};
use chess_gif::render::format_clock;

#[test]
fn test_format_clock_zero() {
    assert_eq!(format_clock(0), "00:00.0");
}

#[test]
fn test_format_clock_minutes() {
    // 612.34 seconds.
    assert_eq!(format_clock(61_234), "10:12");
}

#[test]
fn test_format_clock_hours() {
    // 3661 seconds.
    assert_eq!(format_clock(366_100), "1:01:01");
}

#[test]
fn test_format_clock_edges() {
    assert_eq!(format_clock(5_990), "00:59.9");
    assert_eq!(format_clock(6_000), "1:00");
    assert_eq!(format_clock(360_000), "1:00:00");
    assert_eq!(format_clock(99), "00:00.9");
    assert_eq!(format_clock(4_242_424), "11:47:04");
}

#[test]
fn test_header_bytes() {
    let mut out = Vec::new();
    push_header(&mut out);
    assert_eq!(out, b"GIF89a".to_vec());
}

#[test]
fn test_screen_desc_bytes() {
    let mut out = Vec::new();
    push_screen_desc(&mut out, 720, 840, 16);
    assert_eq!(out, vec![0xD0, 0x02, 0x48, 0x03, 0xB3, 0x00, 0x00]);
}

#[test]
fn test_loop_forever_bytes() {
    let mut out = Vec::new();
    push_loop_forever(&mut out);
    let mut expected = vec![0x21, 0xFF, 0x0B];
    expected.extend_from_slice(b"NETSCAPE2.0");
    expected.extend_from_slice(&[0x03, 0x01, 0x00, 0x00, 0x00]);
    assert_eq!(out, expected);
}

#[test]
fn test_comment_bytes() {
    let mut out = Vec::new();
    push_comment(&mut out, &b"hi".to_vec());
    assert_eq!(out, vec![0x21, 0xFE, 0x02, b'h', b'i', 0x00]);
}

#[test]
fn test_graphic_control_bytes() {
    let mut out = Vec::new();
    push_graphic_control(&mut out, true, Some(10), 300);
    assert_eq!(out, vec![0x21, 0xF9, 0x04, 0x05, 0x2C, 0x01, 0x0A, 0x00]);

    let mut out2 = Vec::new();
    push_graphic_control(&mut out2, false, None, 7);
    assert_eq!(out2, vec![0x21, 0xF9, 0x04, 0x00, 0x07, 0x00, 0x00, 0x00]);
}

#[test]
fn test_image_desc_bytes() {
    let mut out = Vec::new();
    push_image_desc(&mut out, 90, 60, 180, 90);
    assert_eq!(out, vec![0x2C, 90, 0, 60, 0, 180, 0, 90, 0, 0]);
}

#[test]
fn test_trailer_bytes() {
    let mut out = Vec::new();
    push_trailer(&mut out);
    assert_eq!(out, vec![0x3B]);
}

#[test]
fn test_image_data_round_trip() {
    // A 4x4 image over 4 palette entries, passed through the LZW
    // encoder and decoded again by the outside decoder: the pixels
    // must come back unchanged.
    let pixels: Vec<u8> = vec![0, 1, 2, 3, 3, 2, 1, 0, 0, 0, 1, 1, 2, 2, 3, 3];
    let mut out = Vec::new();
    push_header(&mut out);
    push_screen_desc(&mut out, 4, 4, 4);
    let table: Vec<u8> = vec![
        0x00, 0x00, 0x00, 0xFF, 0x00, 0x00, 0x00, 0xFF, 0x00, 0x00, 0x00, 0xFF,
    ];
    for b in &table {
        out.push(*b);
    }
    push_image_desc(&mut out, 0, 0, 4, 4);
    push_image_data(&mut out, &pixels);
    push_trailer(&mut out);

    let mut frames = gift::Decoder::new(std::io::Cursor::new(out.as_slice())).into_frames();
    let preamble = frames.preamble().expect("decode").expect("preamble");
    assert_eq!(preamble.screen_width(), 4);
    assert_eq!(preamble.screen_height(), 4);
    let frame = frames.next().expect("frame").expect("frame decodes");
    assert_eq!(frame.image_data.data(), pixels.as_slice());
}
