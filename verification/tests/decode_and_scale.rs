use imgcat::compose::{blank_canvas, clear_patch, compose};
use imgcat::decode::{
    animation_frames, decode_gif, decode_image, decode_static_image, still_frames, DecodeError,
    RawFrame,
};
use imgcat::frame::ImageFrame;
use imgcat::scale::{fit_dimensions, scale_frame, scale_frames, target_box, ScaleError};

fn png_of(width: u32, height: u32, rgba: [u8; 4]) -> Vec<u8> {
    let picture = image::RgbaImage::from_pixel(width, height, image::Rgba(rgba));
    let mut bytes = std::io::Cursor::new(Vec::new());
    picture
        .write_to(&mut bytes, image::ImageFormat::Png)
        .expect("a PNG can be written to memory");
    bytes.into_inner()
}

fn gif_of(width: u16, height: u16, indices: &[u8]) -> Vec<u8> {
    let palette = [255u8, 0, 0, 0, 255, 0, 0, 0, 255];
    let mut bytes = Vec::new();
    {
        let mut encoder = gif::Encoder::new(&mut bytes, width, height, &palette)
            .expect("a GIF header can be written to memory");
        for index in indices {
            let pixels = vec![*index; width as usize * height as usize];
            let frame = gif::Frame::from_indexed_pixels(width, height, pixels, None);
            encoder.write_frame(&frame).expect("a frame can be written to memory");
        }
    }
    bytes
}

fn solid(width: u32, height: u32, rgba: [u8; 4]) -> ImageFrame {
    let mut pixels = Vec::new();
    for _ in 0..(width * height) {
        pixels.extend_from_slice(&rgba);
    }
    ImageFrame::new(width, height, pixels).expect("the bytes hold the pixels")
}

#[test]
fn still_image_decodes_to_one_frame() {
    let frames = decode_static_image(&png_of(3, 2, [9, 8, 7, 255])).expect("a valid image");
    assert_eq!(frames.len(), 1);
    assert_eq!(frames[0].dimensions(), (3, 2));
    assert_eq!(frames[0].get_pixel_rgba(2, 1), (9, 8, 7, 255));
    assert_eq!(frames[0].as_raw().len(), 24);
}

#[test]
fn still_image_of_smallest_size() {
    let frames = decode_static_image(&png_of(2, 2, [0, 0, 0, 0])).expect("a valid image");
    assert_eq!(frames.len(), 1);
    assert_eq!(frames[0].dimensions(), (2, 2));
}

#[test]
fn still_image_under_two_pixels_fails() {
    assert_eq!(decode_static_image(&png_of(1, 5, [1, 2, 3, 255])).unwrap_err(), DecodeError::TooSmall);
    assert_eq!(decode_static_image(&png_of(5, 1, [1, 2, 3, 255])).unwrap_err(), DecodeError::TooSmall);
    assert_eq!(decode_static_image(&png_of(1, 1, [1, 2, 3, 255])).unwrap_err(), DecodeError::TooSmall);
}

#[test]
fn bytes_of_no_format_fail() {
    assert_eq!(decode_static_image(b"no image at all").unwrap_err(), DecodeError::Malformed);
    assert_eq!(decode_static_image(&[]).unwrap_err(), DecodeError::Malformed);
    assert_eq!(decode_image(b"no image at all").unwrap_err(), DecodeError::Malformed);
}

#[test]
fn still_image_of_another_format() {
    let picture = image::RgbImage::from_pixel(4, 3, image::Rgb([10, 20, 30]));
    let mut bytes = std::io::Cursor::new(Vec::new());
    picture.write_to(&mut bytes, image::ImageFormat::Bmp).expect("a BMP can be written to memory");
    let frames = decode_image(&bytes.into_inner()).expect("a valid image");
    assert_eq!(frames.len(), 1);
    assert_eq!(frames[0].dimensions(), (4, 3));
    assert_eq!(frames[0].get_pixel_rgba(3, 2), (10, 20, 30, 255));
}

#[test]
fn cut_still_image_fails() {
    let whole = png_of(8, 8, [1, 2, 3, 255]);
    assert_eq!(decode_image(&whole[..20]).unwrap_err(), DecodeError::Malformed);
    assert_eq!(decode_image(&[]).unwrap_err(), DecodeError::Malformed);
}

#[test]
fn still_frames_from_decoded_values() {
    let frames = still_frames(2, 2, vec![7; 16]).expect("sixteen bytes hold four pixels");
    assert_eq!(frames.len(), 1);
    assert_eq!(frames[0].dimensions(), (2, 2));
    assert_eq!(frames[0].as_raw(), &vec![7; 16]);
    assert_eq!(still_frames(1, 2, vec![7; 8]).unwrap_err(), DecodeError::TooSmall);
    assert_eq!(still_frames(2, 1, vec![7; 8]).unwrap_err(), DecodeError::TooSmall);
    assert_eq!(still_frames(2, 2, vec![7; 15]).unwrap_err(), DecodeError::FrameBuffer);
}

#[test]
fn animation_decodes_every_frame_in_order() {
    let frames = decode_gif(&gif_of(3, 2, &[0, 1, 2])).expect("a valid animation");
    assert_eq!(frames.len(), 3);
    assert_eq!(frames[0].dimensions(), (3, 2));
    assert_eq!(frames[0].get_pixel_rgba(0, 0), (255, 0, 0, 255));
    assert_eq!(frames[1].get_pixel_rgba(1, 1), (0, 255, 0, 255));
    assert_eq!(frames[2].get_pixel_rgba(2, 1), (0, 0, 255, 255));
    assert_eq!(frames[2].as_raw().len(), 24);
}

#[test]
fn animation_of_one_frame() {
    let frames = decode_gif(&gif_of(1, 1, &[2])).expect("a valid animation");
    assert_eq!(frames.len(), 1);
    assert_eq!(frames[0].dimensions(), (1, 1));
    assert_eq!(frames[0].as_raw(), &vec![0, 0, 255, 255]);
}

#[test]
fn animation_without_frames_fails() {
    assert!(decode_gif(&gif_of(2, 2, &[])).is_err());
    assert_eq!(animation_frames(2, 2, Vec::new(), true).unwrap_err(), DecodeError::EmptyAnimation);
}

#[test]
fn truncated_animation_fails() {
    let whole = gif_of(4, 4, &[0, 1]);
    let cut = &whole[..whole.len() - 8];
    assert_eq!(decode_gif(cut).unwrap_err(), DecodeError::Malformed);
    assert_eq!(decode_gif(b"GIF89a").unwrap_err(), DecodeError::Malformed);
    assert_eq!(decode_gif(b"not a gif").unwrap_err(), DecodeError::Malformed);
}

fn patch(left: u16, top: u16, width: u16, height: u16, disposal: u8, rgba: [u8; 4]) -> RawFrame {
    let mut pixels = Vec::new();
    for _ in 0..(width as usize * height as usize) {
        pixels.extend_from_slice(&rgba);
    }
    RawFrame { left, top, width, height, disposal, pixels }
}

const RED: [u8; 4] = [255, 0, 0, 255];
const GREEN: [u8; 4] = [0, 255, 0, 255];
const BLUE: [u8; 4] = [0, 0, 255, 255];
const CLEAR: [u8; 4] = [0, 0, 0, 0];

fn pixels_of(frame: &ImageFrame) -> Vec<(u8, u8, u8, u8)> {
    let (width, height) = frame.dimensions();
    let mut pixels = Vec::new();
    for y in 0..height {
        for x in 0..width {
            pixels.push(frame.get_pixel_rgba(x, y));
        }
    }
    pixels
}

fn quad(rgba: [u8; 4]) -> (u8, u8, u8, u8) {
    (rgba[0], rgba[1], rgba[2], rgba[3])
}

#[test]
fn animation_frames_from_decoded_values() {
    let frames = animation_frames(2, 1, vec![patch(0, 0, 2, 1, 1, RED), patch(0, 0, 2, 1, 1, BLUE)], true)
        .expect("both frames hold their pixels");
    assert_eq!(frames.len(), 2);
    assert_eq!(frames[0].dimensions(), (2, 1));
    assert_eq!(frames[0].as_raw(), &vec![255, 0, 0, 255, 255, 0, 0, 255]);
    assert_eq!(frames[1].as_raw(), &vec![0, 0, 255, 255, 0, 0, 255, 255]);
}

#[test]
fn partial_frame_is_laid_on_the_canvas() {
    let frames = animation_frames(3, 2, vec![patch(0, 0, 3, 2, 1, RED), patch(1, 1, 1, 1, 1, GREEN)], true)
        .expect("both frames hold their pixels");
    assert_eq!(frames.len(), 2);
    assert_eq!(frames[1].dimensions(), (3, 2));
    assert_eq!(
        pixels_of(&frames[1]),
        vec![quad(RED), quad(RED), quad(RED), quad(RED), quad(GREEN), quad(RED)]
    );
}

#[test]
fn first_frame_lies_on_a_transparent_canvas() {
    let frames = animation_frames(2, 2, vec![patch(1, 0, 1, 1, 0, BLUE)], true).expect("one frame");
    assert_eq!(frames[0].dimensions(), (2, 2));
    assert_eq!(pixels_of(&frames[0]), vec![quad(CLEAR), quad(BLUE), quad(CLEAR), quad(CLEAR)]);
}

#[test]
fn transparent_pixels_let_the_canvas_through() {
    let mut second = patch(0, 0, 2, 1, 1, GREEN);
    second.pixels[3] = 0;
    let frames = animation_frames(2, 1, vec![patch(0, 0, 2, 1, 1, RED), second], true)
        .expect("both frames hold their pixels");
    assert_eq!(pixels_of(&frames[1]), vec![quad(RED), quad(GREEN)]);
}

#[test]
fn disposal_decides_what_the_next_frame_lies_on() {
    let run = |disposal: u8| {
        let frames = vec![
            patch(0, 0, 2, 1, 1, RED),
            patch(0, 0, 1, 1, disposal, GREEN),
            patch(1, 0, 1, 1, 1, BLUE),
        ];
        let shown = animation_frames(2, 1, frames, true).expect("three frames");
        (pixels_of(&shown[1]), pixels_of(&shown[2]))
    };
    assert_eq!(run(1), (vec![quad(GREEN), quad(RED)], vec![quad(GREEN), quad(BLUE)]));
    assert_eq!(run(0), (vec![quad(GREEN), quad(RED)], vec![quad(GREEN), quad(BLUE)]));
    assert_eq!(run(2), (vec![quad(GREEN), quad(RED)], vec![quad(CLEAR), quad(BLUE)]));
    assert_eq!(run(3), (vec![quad(GREEN), quad(RED)], vec![quad(RED), quad(BLUE)]));
}

#[test]
fn frame_beyond_the_canvas_is_cut() {
    let frames = animation_frames(2, 2, vec![patch(1, 1, 5, 5, 1, GREEN), patch(7, 7, 1, 1, 1, RED)], true)
        .expect("both frames hold their pixels");
    assert_eq!(pixels_of(&frames[0]), vec![quad(CLEAR), quad(CLEAR), quad(CLEAR), quad(GREEN)]);
    assert_eq!(pixels_of(&frames[1]), pixels_of(&frames[0]));
    let none = animation_frames(0, 0, vec![patch(0, 0, 1, 1, 1, RED)], true).expect("one frame");
    assert_eq!(none[0].dimensions(), (0, 0));
}

#[test]
fn compose_and_clear_on_given_frames() {
    let canvas = solid(2, 2, RED);
    let over = solid(1, 2, [0, 255, 0, 1]);
    let shown = compose(&canvas, &over, 1, 0);
    assert_eq!(shown.dimensions(), (2, 2));
    assert_eq!(
        pixels_of(&shown),
        vec![quad(RED), (0, 255, 0, 1), quad(RED), (0, 255, 0, 1)]
    );
    let cleared = clear_patch(&canvas, &over, 1, 0);
    assert_eq!(pixels_of(&cleared), vec![quad(RED), quad(CLEAR), quad(RED), quad(CLEAR)]);
    let blank = blank_canvas(2, 1);
    assert_eq!(blank.dimensions(), (2, 1));
    assert_eq!(blank.as_raw(), &vec![0; 8]);
}

#[test]
fn delta_frame_of_a_real_stream_is_composited() {
    let palette = [255u8, 0, 0, 0, 255, 0, 0, 0, 255];
    let mut bytes = Vec::new();
    {
        let mut encoder = gif::Encoder::new(&mut bytes, 3, 2, &palette).expect("a header");
        let whole = gif::Frame::from_indexed_pixels(3, 2, vec![0u8; 6], None);
        encoder.write_frame(&whole).expect("a frame");
        let mut delta = gif::Frame::from_indexed_pixels(1, 1, vec![2u8], None);
        delta.left = 2;
        delta.top = 1;
        encoder.write_frame(&delta).expect("a frame");
    }
    let frames = decode_gif(&bytes).expect("a valid animation");
    assert_eq!(frames.len(), 2);
    assert_eq!(frames[0].dimensions(), (3, 2));
    assert_eq!(frames[1].dimensions(), (3, 2));
    assert_eq!(
        pixels_of(&frames[1]),
        vec![quad(RED), quad(RED), quad(RED), quad(RED), quad(RED), quad(BLUE)]
    );
}

#[test]
fn animation_frames_report_each_failure() {
    let short = RawFrame { left: 0, top: 0, width: 2, height: 2, disposal: 1, pixels: vec![5; 4] };
    assert_eq!(
        animation_frames(2, 2, vec![patch(0, 0, 1, 1, 1, RED), short], true).unwrap_err(),
        DecodeError::FrameBuffer
    );
    let short = RawFrame { left: 0, top: 0, width: 2, height: 2, disposal: 1, pixels: vec![5; 4] };
    assert_eq!(animation_frames(2, 2, vec![short], false).unwrap_err(), DecodeError::FrameBuffer);
    assert_eq!(
        animation_frames(2, 2, vec![patch(0, 0, 1, 1, 1, RED)], false).unwrap_err(),
        DecodeError::Malformed
    );
    assert_eq!(animation_frames(2, 2, Vec::new(), false).unwrap_err(), DecodeError::Malformed);
}

#[test]
fn sniffing_sends_gif_to_the_animation_decoder() {
    let frames = decode_image(&gif_of(2, 2, &[0, 1])).expect("a valid animation");
    assert_eq!(frames.len(), 2);
    let still = decode_image(&png_of(4, 4, [1, 2, 3, 255])).expect("a valid image");
    assert_eq!(still.len(), 1);
    assert_eq!(decode_image(&png_of(1, 1, [1, 2, 3, 255])).unwrap_err(), DecodeError::TooSmall);
    let tiny = decode_image(&gif_of(1, 1, &[0])).expect("animations have no smallest size");
    assert_eq!(tiny.len(), 1);
}

#[test]
fn error_messages() {
    assert_eq!(DecodeError::Malformed.message(), "Failed to decode image");
    assert_eq!(DecodeError::FrameBuffer.message(), "Failed to create image from GIF frame");
    assert_eq!(DecodeError::EmptyAnimation.message(), "No frames found in GIF");
    assert_eq!(DecodeError::TooSmall.message(), "The input image is too small");
    assert_eq!(ScaleError::Geometry.message(), "The terminal leaves no room for the image");
    assert_eq!(ScaleError::TooLarge.message(), "The resized image is too large");
}

#[test]
fn box_of_the_fallback_terminal() {
    assert_eq!(target_box(80, 24), Some((80, 32)));
    assert_eq!(target_box(120, 50), Some((120, 84)));
    assert_eq!(target_box(0, 8), Some((0, 0)));
}

#[test]
fn box_needs_rows_below_the_offset() {
    assert_eq!(target_box(80, 7), None);
    assert_eq!(target_box(80, 0), None);
    assert_eq!(target_box(80, 8), Some((80, 0)));
    assert_eq!(target_box(80, 9), Some((80, 2)));
}

#[test]
fn box_must_fit_image_sizes() {
    assert_eq!(target_box(u32::MAX as usize, 8), Some((u32::MAX, 0)));
    assert_eq!(target_box(80, 0x7FFF_FFFF + 8), Some((80, 0xFFFF_FFFE)));
    if usize::BITS > 32 {
        assert_eq!(target_box(u32::MAX as usize + 1, 24), None);
        assert_eq!(target_box(80, 0x8000_0000 + 8), None);
        assert_eq!(target_box(80, usize::MAX), None);
    }
}

#[test]
fn wide_frame_takes_the_width_of_the_box() {
    assert_eq!(fit_dimensions(100, 3, 80, 32), (80, 2));
    assert_eq!(fit_dimensions(400, 100, 80, 32), (80, 20));
    assert_eq!(fit_dimensions(1000, 2, 80, 32), (80, 0));
}

#[test]
fn tall_frame_takes_the_height_of_the_box() {
    assert_eq!(fit_dimensions(7, 3, 80, 32), (74, 32));
    assert_eq!(fit_dimensions(3, 2, 80, 32), (48, 32));
    assert_eq!(fit_dimensions(10, 100, 80, 32), (3, 32));
    assert_eq!(fit_dimensions(2, 1000, 80, 32), (0, 32));
}

#[test]
fn frame_of_the_box_proportions_fills_it() {
    assert_eq!(fit_dimensions(80, 32, 80, 32), (80, 32));
    assert_eq!(fit_dimensions(5, 2, 80, 32), (80, 32));
    assert_eq!(fit_dimensions(160, 64, 80, 32), (80, 32));
}

#[test]
fn empty_frames_and_boxes_fit() {
    assert_eq!(fit_dimensions(0, 0, 80, 32), (0, 32));
    assert_eq!(fit_dimensions(0, 5, 80, 32), (0, 32));
    assert_eq!(fit_dimensions(5, 0, 80, 32), (80, 0));
    assert_eq!(fit_dimensions(5, 5, 0, 32), (0, 0));
    assert_eq!(fit_dimensions(5, 5, 80, 0), (0, 0));
    assert_eq!(fit_dimensions(u32::MAX, 1, u32::MAX, u32::MAX), (u32::MAX, 1));
}

#[test]
fn fitted_size_stays_in_the_box() {
    for width in 1..40u32 {
        for height in 1..40u32 {
            let (w, h) = fit_dimensions(width, height, 80, 32);
            assert!(w <= 80 && h <= 32);
            assert!(w == 80 || h == 32);
        }
    }
}

#[test]
fn scaling_resamples_to_the_fitted_size() {
    let frame = solid(4, 4, [10, 20, 30, 255]);
    let scaled = scale_frame(&frame, 80, 32).expect("a small frame");
    assert_eq!(scaled.dimensions(), (32, 32));
    assert_eq!(scaled.as_raw().len(), 4 * 32 * 32);
    assert_eq!(scaled.get_pixel_rgba(16, 16), (10, 20, 30, 255));
}

#[test]
fn frame_of_the_fitted_size_is_left_as_it_is() {
    let mut pixels = Vec::new();
    for i in 0..(6 * 32 * 4) {
        pixels.push((i * 7 % 256) as u8);
    }
    let frame = ImageFrame::new(6, 32, pixels.clone()).expect("the bytes hold the pixels");
    let scaled = scale_frame(&frame, 80, 32).expect("a small frame");
    assert_eq!(scaled.dimensions(), (6, 32));
    assert_eq!(scaled.as_raw(), &pixels);
}

#[test]
fn scaling_shrinks_too() {
    let frame = solid(200, 50, [200, 100, 50, 255]);
    let scaled = scale_frame(&frame, 80, 32).expect("a small frame");
    assert_eq!(scaled.dimensions(), (80, 20));
    assert_eq!(scaled.as_raw().len(), 4 * 80 * 20);
}

#[test]
fn scaling_to_nothing_gives_an_empty_frame() {
    let frame = solid(1000, 2, [1, 2, 3, 255]);
    let scaled = scale_frame(&frame, 80, 32).expect("an empty frame");
    assert_eq!(scaled.dimensions(), (80, 0));
    assert!(scaled.as_raw().is_empty());
}

#[test]
fn scaling_refuses_what_memory_cannot_hold() {
    let frame = solid(2, 2, [1, 2, 3, 255]);
    assert_eq!(scale_frame(&frame, u32::MAX, u32::MAX).unwrap_err(), ScaleError::TooLarge);
}

#[test]
fn scaling_refuses_what_the_resampler_cannot_index() {
    let tall = ImageFrame::new(1, 0x80_0000, vec![0; 4 * 0x80_0000]).expect("the bytes hold the pixels");
    assert_eq!(scale_frame(&tall, 2, 0x100_0000).unwrap_err(), ScaleError::TooLarge);
    let empty = scale_frame(&tall, 80, 32).expect("nothing is left to resample");
    assert_eq!(empty.dimensions(), (0, 32));
    let small = solid(1, 4, [1, 2, 3, 255]);
    assert_eq!(scale_frame(&small, 0x80_0000, 0x200_0000).unwrap_err(), ScaleError::TooLarge);
    let fits = scale_frame(&small, 80, 32).expect("a small frame");
    assert_eq!(fits.dimensions(), (8, 32));
}

#[test]
fn sequence_is_scaled_frame_by_frame() {
    let frames = vec![solid(4, 4, [1, 1, 1, 255]), solid(100, 3, [2, 2, 2, 255])];
    let scaled = scale_frames(frames, 80, 24).expect("small frames");
    assert_eq!(scaled.len(), 2);
    assert_eq!(scaled[0].dimensions(), (32, 32));
    assert_eq!(scaled[1].dimensions(), (80, 2));
}

#[test]
fn sequence_needs_a_box() {
    let frames = vec![solid(4, 4, [1, 1, 1, 255])];
    assert_eq!(scale_frames(frames, 80, 7).unwrap_err(), ScaleError::Geometry);
    assert!(scale_frames(Vec::new(), 80, 24).expect("nothing to scale").is_empty());
}
