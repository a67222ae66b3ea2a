use imgcat::ansi::push_decimal;
use imgcat::encode::{assemble_lines, encode_row, escape_frame, escape_frames, push_lower, push_upper};
use imgcat::frame::ImageFrame;

fn frame_of(width: u32, height: u32, pixels: Vec<u8>) -> ImageFrame {
    ImageFrame::new(width, height, pixels).expect("the bytes hold the pixels")
}

fn solid(width: u32, height: u32, rgba: [u8; 4]) -> ImageFrame {
    let mut pixels = Vec::new();
    for _ in 0..(width * height) {
        pixels.extend_from_slice(&rgba);
    }
    frame_of(width, height, pixels)
}

fn decimal_of(n: u64) -> String {
    let mut out = String::new();
    push_decimal(&mut out, n);
    out
}

#[test]
fn frame_keeps_size_and_pixels() {
    let frame = frame_of(2, 2, vec![1, 2, 3, 4, 5, 6, 7, 8, 9, 10, 11, 12, 13, 14, 15, 16]);
    assert_eq!(frame.dimensions(), (2, 2));
    assert_eq!(frame.get_pixel_rgba(0, 0), (1, 2, 3, 4));
    assert_eq!(frame.get_pixel_rgba(1, 0), (5, 6, 7, 8));
    assert_eq!(frame.get_pixel_rgba(0, 1), (9, 10, 11, 12));
    assert_eq!(frame.get_pixel_rgba(1, 1), (13, 14, 15, 16));
}

#[test]
fn frame_refuses_short_buffer() {
    assert!(ImageFrame::new(2, 2, vec![0; 15]).is_none());
    assert!(ImageFrame::new(1, 1, Vec::new()).is_none());
}

#[test]
fn frame_drops_bytes_beyond_last_pixel() {
    let frame = frame_of(1, 1, vec![9, 8, 7, 6, 5, 4]);
    assert_eq!(frame.as_raw(), &vec![9, 8, 7, 6]);
}

#[test]
fn frame_may_be_empty() {
    let frame = frame_of(0, 7, Vec::new());
    assert_eq!(frame.dimensions(), (0, 7));
    assert!(frame.as_raw().is_empty());
}

#[test]
fn frame_clone_is_equal() {
    let frame = frame_of(1, 2, vec![1, 2, 3, 4, 5, 6, 7, 8]);
    let copy = frame.clone();
    assert_eq!(copy.dimensions(), frame.dimensions());
    assert_eq!(copy.as_raw(), frame.as_raw());
}

#[test]
fn decimal_has_no_leading_zero() {
    assert_eq!(decimal_of(0), "0");
    assert_eq!(decimal_of(7), "7");
    assert_eq!(decimal_of(10), "10");
    assert_eq!(decimal_of(128), "128");
    assert_eq!(decimal_of(255), "255");
    assert_eq!(decimal_of(1000), "1000");
    assert_eq!(decimal_of(u64::MAX), "18446744073709551615");
}

#[test]
fn decimal_appends_to_what_is_there() {
    let mut out = String::from("n=");
    push_decimal(&mut out, 42);
    assert_eq!(out, "n=42");
}

#[test]
fn opaque_red_upper_pixel() {
    let mut out = String::new();
    push_upper(&mut out, (255, 0, 0, 255));
    assert_eq!(out, "\x1b[48;2;255;0;0m");
    let mut at_threshold = String::new();
    push_upper(&mut at_threshold, (255, 0, 0, 128));
    assert_eq!(at_threshold, "\x1b[48;2;255;0;0m");
}

#[test]
fn opaque_red_lower_pixel() {
    let mut out = String::new();
    push_lower(&mut out, (255, 0, 0, 255));
    assert_eq!(out, "\x1b[38;2;255;0;0m\u{2584}");
}

#[test]
fn transparent_upper_pixel() {
    let mut out = String::new();
    push_upper(&mut out, (255, 0, 0, 127));
    assert_eq!(out, "\x1b[0;39;49m");
    let mut clear = String::new();
    push_upper(&mut clear, (1, 2, 3, 0));
    assert_eq!(clear, "\x1b[0;39;49m");
}

#[test]
fn transparent_lower_pixel() {
    let mut out = String::new();
    push_lower(&mut out, (255, 0, 0, 127));
    assert_eq!(out, "\x1b[0m ");
}

#[test]
fn row_of_one_column() {
    let frame = frame_of(1, 2, vec![255, 0, 0, 255, 0, 128, 7, 200]);
    assert_eq!(
        encode_row(&frame, 0),
        "\x1b[48;2;255;0;0m\x1b[38;2;0;128;7m\u{2584}\x1b[0m\n"
    );
}

#[test]
fn row_contains_red_cells() {
    let frame = solid(3, 2, [255, 0, 0, 255]);
    let line = encode_row(&frame, 0);
    assert!(line.contains("\x1b[48;2;255;0;0m"));
    assert!(line.contains("\x1b[38;2;255;0;0m\u{2584}"));
    assert_eq!(line.matches("\x1b[48;2;255;0;0m").count(), 3);
    assert!(line.ends_with("\x1b[0m\n"));
}

#[test]
fn row_of_transparent_pixels() {
    let frame = solid(2, 2, [10, 20, 30, 0]);
    assert_eq!(
        encode_row(&frame, 0),
        "\x1b[0;39;49m\x1b[0m \x1b[0;39;49m\x1b[0m \x1b[0m\n"
    );
}

#[test]
fn row_pairs_take_their_own_rows() {
    let mut pixels = Vec::new();
    for y in 0..4u8 {
        pixels.extend_from_slice(&[y, y, y, 255]);
    }
    let frame = frame_of(1, 4, pixels);
    assert_eq!(encode_row(&frame, 0), "\x1b[48;2;0;0;0m\x1b[38;2;1;1;1m\u{2584}\x1b[0m\n");
    assert_eq!(encode_row(&frame, 1), "\x1b[48;2;2;2;2m\x1b[38;2;3;3;3m\u{2584}\x1b[0m\n");
}

#[test]
fn line_count_is_half_the_height() {
    for height in 0..9u32 {
        let frame = solid(3, height, [1, 2, 3, 255]);
        assert_eq!(escape_frame(&frame).len(), (height / 2) as usize);
    }
}

#[test]
fn odd_last_row_is_dropped() {
    let mut pixels = Vec::new();
    for y in 0..3u8 {
        pixels.extend_from_slice(&[y, 0, 0, 255]);
    }
    let frame = frame_of(1, 3, pixels);
    let lines = escape_frame(&frame);
    assert_eq!(lines, vec!["\x1b[48;2;0;0;0m\x1b[38;2;1;0;0m\u{2584}\x1b[0m\n".to_string()]);
}

#[test]
fn frame_without_columns_has_bare_lines() {
    let frame = frame_of(0, 4, Vec::new());
    assert_eq!(escape_frame(&frame), vec!["\x1b[0m\n".to_string(), "\x1b[0m\n".to_string()]);
}

#[test]
fn encoding_is_repeatable() {
    let mut pixels = Vec::new();
    for i in 0..(5 * 6 * 4) {
        pixels.push((i * 37 % 256) as u8);
    }
    let frame = frame_of(5, 6, pixels);
    let first = escape_frame(&frame);
    let second = escape_frame(&frame);
    assert_eq!(first, second);
    assert_eq!(first.len(), 3);
}

#[test]
fn frames_keep_their_order() {
    let frames = vec![solid(1, 2, [1, 1, 1, 255]), solid(1, 4, [2, 2, 2, 255])];
    let escaped = escape_frames(frames);
    assert_eq!(escaped.len(), 2);
    assert_eq!(escaped[0], vec!["\x1b[48;2;1;1;1m\x1b[38;2;1;1;1m\u{2584}\x1b[0m\n".to_string()]);
    assert_eq!(escaped[1].len(), 2);
    assert!(escaped[1][0].starts_with("\x1b[48;2;2;2;2m"));
}

#[test]
fn assembly_ignores_order_of_arrival() {
    let mut pixels = Vec::new();
    for i in 0..(2 * 8 * 4) {
        pixels.push((i * 11 % 256) as u8);
    }
    let frame = frame_of(2, 8, pixels);
    let expected = escape_frame(&frame);
    let order = [2usize, 0, 3, 1];
    let mut parts = Vec::new();
    for row in order {
        parts.push((row, encode_row(&frame, row as u32)));
    }
    assert_eq!(assemble_lines(4, parts), expected);
}

#[test]
fn assembly_leaves_unnamed_rows_empty() {
    let lines = assemble_lines(3, vec![(2, "c".to_string()), (0, "a".to_string())]);
    assert_eq!(lines, vec!["a".to_string(), String::new(), "c".to_string()]);
}

#[test]
fn assembly_keeps_the_later_of_two() {
    let lines = assemble_lines(1, vec![(0, "first".to_string()), (0, "second".to_string())]);
    assert_eq!(lines, vec!["second".to_string()]);
    assert!(assemble_lines(0, Vec::new()).is_empty());
}
