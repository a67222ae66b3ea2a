//! The frame scaler: every frame is resized to fit the pixel box of the
//! terminal, keeping its own aspect ratio. One axis of the result fills the
//! box, the other follows from the frame's proportions.

use vstd::prelude::*;
use crate::frame::ImageFrame;

verus! {

/// Terminal rows that are kept free above the picture.
pub const RESIZE_OFFSET_Y: usize = 8;

/// Pixel rows per terminal row.
pub const RESIZE_FACTOR_Y: usize = 2;

/// Pixel columns per terminal column.
pub const RESIZE_FACTOR_X: usize = 1;

/// Why a sequence could not be scaled.
#[derive(Clone, Copy, Debug, PartialEq, Eq, Structural)]
pub enum ScaleError {
    /// The terminal has fewer rows than are kept free, or its box does not fit
    /// the integers that image sizes are written in.
    Geometry,
    /// A frame or its resized form is larger than the resampler can index or
    /// than memory can address.
    TooLarge,
}

impl ScaleError {
    /// A description for the user.
    pub fn message(&self) -> (text: String)
        ensures
            text@ == match *self {
                ScaleError::Geometry => "The terminal leaves no room for the image"@,
                ScaleError::TooLarge => "The resized image is too large"@,
            },
    {
        match self {
            ScaleError::Geometry => String::from_str("The terminal leaves no room for the image"),
            ScaleError::TooLarge => String::from_str("The resized image is too large"),
        }
    }
}

/// Whether a terminal of this size has a pixel box.
pub open spec fn has_box(columns: nat, rows: nat) -> bool {
    &&& rows >= RESIZE_OFFSET_Y
    &&& columns * RESIZE_FACTOR_X <= u32::MAX
    &&& (rows - RESIZE_OFFSET_Y) * RESIZE_FACTOR_Y <= u32::MAX
}

/// The pixel box of a terminal: as wide as its columns, twice as high as the
/// rows that are left below the top offset.
pub open spec fn box_of(columns: nat, rows: nat) -> (nat, nat) {
    (columns * RESIZE_FACTOR_X as nat, ((rows - RESIZE_OFFSET_Y) * RESIZE_FACTOR_Y) as nat)
}

/// The pixel box of a terminal with `columns` columns and `rows` rows.
pub fn target_box(columns: usize, rows: usize) -> (found: Option<(u32, u32)>)
    ensures
        found is Some <==> has_box(columns as nat, rows as nat),
        found matches Some(size) ==> (size.0 as nat, size.1 as nat) == box_of(
            columns as nat,
            rows as nat,
        ),
{
    if rows < RESIZE_OFFSET_Y {
        return None;
    }
    let free: usize = rows - RESIZE_OFFSET_Y;
    if columns > 0xFFFF_FFFF || free > 0x7FFF_FFFF {
        return None;
    }
    let width: usize = columns * RESIZE_FACTOR_X;
    let height: usize = free * RESIZE_FACTOR_Y;
    Some((width as u32, height as u32))
}

/// The frame is relatively wider than the box.
pub open spec fn wider_than_box(width: nat, height: nat, box_width: nat, box_height: nat) -> bool {
    width * box_height > box_width * height
}

/// The size that a frame of `width` by `height` pixels is given in a box. A
/// frame that is relatively wider than the box takes the width of the box and
/// the height that its own proportions give, rounded down; any other frame
/// takes the height of the box and the width that its proportions give.
pub open spec fn fitted(width: nat, height: nat, box_width: nat, box_height: nat) -> (nat, nat) {
    if wider_than_box(width, height, box_width, box_height) {
        (box_width, (box_width * height) / width)
    } else if height == 0 {
        (0, box_height)
    } else {
        ((width * box_height) / height, box_height)
    }
}

/// A quotient is the largest number whose product with the divisor stays
/// within the dividend.
proof fn lemma_quotient_bounds(dividend: nat, divisor: nat)
    requires
        divisor > 0,
    ensures
        (dividend / divisor) * divisor <= dividend < (dividend / divisor + 1) * divisor,
{
    vstd::arithmetic::div_mod::lemma_fundamental_div_mod(dividend as int, divisor as int);
    vstd::arithmetic::div_mod::lemma_mod_bound(dividend as int, divisor as int);
    assert((dividend / divisor) * divisor == divisor * (dividend / divisor)) by (nonlinear_arith);
    assert((dividend / divisor + 1) * divisor == (dividend / divisor) * divisor + divisor)
        by (nonlinear_arith);
}

/// A scaled frame fits. It is never wider than the box nor taller than the
/// box, and one of its axes equals the bound of the box exactly. The other
/// axis is the frame's own proportion of it, rounded down to whole pixels.
pub proof fn lemma_fitted_in_box(width: nat, height: nat, box_width: nat, box_height: nat)
    ensures
        fitted(width, height, box_width, box_height).0 <= box_width,
        fitted(width, height, box_width, box_height).1 <= box_height,
        fitted(width, height, box_width, box_height).0 == box_width || fitted(
            width,
            height,
            box_width,
            box_height,
        ).1 == box_height,
        wider_than_box(width, height, box_width, box_height) ==> fitted(
            width,
            height,
            box_width,
            box_height,
        ).1 * width <= box_width * height < (fitted(width, height, box_width, box_height).1 + 1)
            * width,
        !wider_than_box(width, height, box_width, box_height) && height > 0 ==> fitted(
            width,
            height,
            box_width,
            box_height,
        ).0 * height <= width * box_height < (fitted(width, height, box_width, box_height).0 + 1)
            * height,
{
    if wider_than_box(width, height, box_width, box_height) {
        assert(width > 0) by (nonlinear_arith)
            requires
                width * box_height > box_width * height,
        ;
        let q = (box_width * height) / width;
        lemma_quotient_bounds(box_width * height, width);
        assert(q < box_height) by (nonlinear_arith)
            requires
                q * width <= box_width * height,
                box_width * height < width * box_height,
                width > 0,
        ;
    } else if height > 0 {
        let q = (width * box_height) / height;
        lemma_quotient_bounds(width * box_height, height);
        assert(q <= box_width) by (nonlinear_arith)
            requires
                q * height <= width * box_height,
                width * box_height <= box_width * height,
                height > 0,
        ;
    }
}

/// The size that a frame of `width` by `height` pixels is given in the box.
pub fn fit_dimensions(width: u32, height: u32, box_width: u32, box_height: u32) -> (size: (
    u32,
    u32,
))
    ensures
        (size.0 as nat, size.1 as nat) == fitted(
            width as nat,
            height as nat,
            box_width as nat,
            box_height as nat,
        ),
        size.0 <= box_width,
        size.1 <= box_height,
        size.0 == box_width || size.1 == box_height,
{
    proof {
        lemma_fitted_in_box(width as nat, height as nat, box_width as nat, box_height as nat);
        assert(width * box_height <= 0xFFFF_FFFF * 0xFFFF_FFFF) by (nonlinear_arith)
            requires
                0 <= width <= 0xFFFF_FFFF,
                0 <= box_height <= 0xFFFF_FFFF,
        ;
        assert(box_width * height <= 0xFFFF_FFFF * 0xFFFF_FFFF) by (nonlinear_arith)
            requires
                0 <= box_width <= 0xFFFF_FFFF,
                0 <= height <= 0xFFFF_FFFF,
        ;
    }
    let frame_side: u64 = (width as u64) * (box_height as u64);
    let box_side: u64 = (box_width as u64) * (height as u64);
    if frame_side > box_side {
        assert(width > 0) by (nonlinear_arith)
            requires
                width * box_height > box_width * height,
                box_width * height >= 0,
        ;
        let scaled: u64 = box_side / (width as u64);
        (box_width, scaled as u32)
    } else if height == 0 {
        (0, box_height)
    } else {
        let scaled: u64 = frame_side / (height as u64);
        (scaled as u32, box_height)
    }
}

/// Sizes from here on are beyond what the resampler can index: it counts rows
/// and columns in single-precision floats, which hold every whole number and
/// every half below this bound exactly and lose them above it.
pub const RESAMPLE_LIMIT: u32 = 0x80_0000;

/// Whether a frame of `width` by `height` pixels can be resampled to
/// `new_width` by `new_height` pixels: every side is below the resampler's
/// limit, and its buffers are within the memory that the machine can address.
/// An empty result needs no resampling.
pub open spec fn addressable(width: nat, height: nat, new_width: nat, new_height: nat) -> bool {
    new_width == 0 || new_height == 0 || {
        &&& width < RESAMPLE_LIMIT
        &&& height < RESAMPLE_LIMIT
        &&& new_width < RESAMPLE_LIMIT
        &&& new_height < RESAMPLE_LIMIT
        &&& 32 * width * new_height <= usize::MAX
        &&& 32 * new_width * new_height <= usize::MAX
    }
}

/// `image::imageops::resize` on RGBA bytes with the filter `Lanczos3`. The
/// result has exactly the size that was asked for, four bytes per pixel.
/// Where that is the size of the source the function copies the pixels and
/// resamples nothing; everywhere else the colours come from floating-point
/// sums and nothing is claimed of them. The
/// bounds keep every row and column index exact in the floats that the
/// function computes its weights with, and keep the two buffers that it
/// allocates, one of them with sixteen bytes per pixel, within what a vector
/// can hold.
#[verifier::external_body]
fn resample(width: u32, height: u32, pixels: &Vec<u8>, new_width: u32, new_height: u32) -> (resized:
    Vec<u8>)
    requires
        pixels@.len() == 4 * width * height,
        width < RESAMPLE_LIMIT,
        height < RESAMPLE_LIMIT,
        new_width < RESAMPLE_LIMIT,
        new_height < RESAMPLE_LIMIT,
        32 * width * new_height <= usize::MAX,
        32 * new_width * new_height <= usize::MAX,
    ensures
        resized@.len() == 4 * new_width * new_height,
        new_width == width && new_height == height ==> resized@ == pixels@,
{
    let source = image::ImageBuffer::<image::Rgba<u8>, &[u8]>::from_raw(
        width,
        height,
        pixels.as_slice(),
    ).unwrap();
    let filter = image::imageops::FilterType::Lanczos3;
    image::imageops::resize(&source, new_width, new_height, filter).into_raw()
}

/// Whether `32 * a * b` fits the machine's addresses.
fn fits_memory(a: u32, b: u32) -> (fits: bool)
    ensures
        fits == (32 * a * b <= usize::MAX),
{
    assert(a * b <= 0xFFFF_FFFF * 0xFFFF_FFFF) by (nonlinear_arith)
        requires
            0 <= a <= 0xFFFF_FFFF,
            0 <= b <= 0xFFFF_FFFF,
    ;
    assert(32 * a * b == 32 * (a * b)) by (nonlinear_arith);
    let area: u128 = (a as u128) * (b as u128);
    32 * area <= usize::MAX as u128
}

/// Resizes one frame to fit the box.
pub fn scale_frame(frame: &ImageFrame, box_width: u32, box_height: u32) -> (scaled: Result<
    ImageFrame,
    ScaleError,
>)
    ensures
        scaled is Ok <==> addressable(
            frame@.width,
            frame@.height,
            fitted(frame@.width, frame@.height, box_width as nat, box_height as nat).0,
            fitted(frame@.width, frame@.height, box_width as nat, box_height as nat).1,
        ),
        scaled matches Ok(s) ==> (s@.width, s@.height) == fitted(
            frame@.width,
            frame@.height,
            box_width as nat,
            box_height as nat,
        ) && s@.wf() && s@.width <= box_width && s@.height <= box_height && (s@.width
            == box_width || s@.height == box_height),
        scaled matches Ok(s) ==> ((frame@.width, frame@.height) == fitted(
            frame@.width,
            frame@.height,
            box_width as nat,
            box_height as nat,
        ) ==> s@ == frame@),
        scaled matches Err(e) ==> e == ScaleError::TooLarge,
{
    let (width, height) = frame.dimensions();
    let (new_width, new_height) = fit_dimensions(width, height, box_width, box_height);
    if new_width == 0 || new_height == 0 {
        assert(4 * new_width * new_height == 0) by (nonlinear_arith)
            requires
                new_width == 0 || new_height == 0,
        ;
        let empty = ImageFrame::new(new_width, new_height, Vec::new());
        assert(empty->0@.pixels =~= Seq::<u8>::empty());
        assert(new_width == width && new_height == height ==> frame@.pixels
            =~= Seq::<u8>::empty()) by {
            assert(new_width == width && new_height == height ==> 4 * width * height == 0);
        }
        return Ok(empty.unwrap());
    }
    if width >= RESAMPLE_LIMIT || height >= RESAMPLE_LIMIT || new_width >= RESAMPLE_LIMIT
        || new_height >= RESAMPLE_LIMIT {
        return Err(ScaleError::TooLarge);
    }
    if !fits_memory(width, new_height) || !fits_memory(new_width, new_height) {
        return Err(ScaleError::TooLarge);
    }
    let resized = resample(width, height, frame.as_raw(), new_width, new_height);
    assert(resized@.take(4 * new_width * new_height) =~= resized@);
    let scaled = ImageFrame::new(new_width, new_height, resized);
    Ok(scaled.unwrap())
}

/// Whether every frame of a sequence can be resized into the box.
pub open spec fn all_addressable(frames: Seq<ImageFrame>, box_width: nat, box_height: nat) -> bool {
    forall|i: int|
        0 <= i < frames.len() ==> addressable(
            (#[trigger] frames[i])@.width,
            frames[i]@.height,
            fitted(frames[i]@.width, frames[i]@.height, box_width, box_height).0,
            fitted(frames[i]@.width, frames[i]@.height, box_width, box_height).1,
        )
}

/// Frames of any usual size scale into the box of any usual terminal. On a
/// machine with addresses of 64 bits, where the terminal has at least as many
/// rows as are kept free, its box stays below the resampler's limit on both
/// sides, and so does every frame, the terminal has a box and every frame can
/// be resized into it: `scale_frames` then succeeds, with every frame inside
/// the box and one axis of every frame on its bound.
pub proof fn lemma_usual_sizes_scale(frames: Seq<ImageFrame>, columns: nat, rows: nat)
    requires
        usize::MAX == 0xFFFF_FFFF_FFFF_FFFF,
        rows >= RESIZE_OFFSET_Y,
        columns * RESIZE_FACTOR_X < RESAMPLE_LIMIT,
        (rows - RESIZE_OFFSET_Y) * RESIZE_FACTOR_Y < RESAMPLE_LIMIT,
        forall|i: int|
            0 <= i < frames.len() ==> (#[trigger] frames[i])@.width < RESAMPLE_LIMIT
                && frames[i]@.height < RESAMPLE_LIMIT,
    ensures
        has_box(columns, rows),
        all_addressable(frames, box_of(columns, rows).0, box_of(columns, rows).1),
{
    let box_width = box_of(columns, rows).0;
    let box_height = box_of(columns, rows).1;
    assert forall|i: int| 0 <= i < frames.len() implies addressable(
        (#[trigger] frames[i])@.width,
        frames[i]@.height,
        fitted(frames[i]@.width, frames[i]@.height, box_width, box_height).0,
        fitted(frames[i]@.width, frames[i]@.height, box_width, box_height).1,
    ) by {
        let width = frames[i]@.width;
        let height = frames[i]@.height;
        let new_width = fitted(width, height, box_width, box_height).0;
        let new_height = fitted(width, height, box_width, box_height).1;
        lemma_fitted_in_box(width, height, box_width, box_height);
        assert(32 * width * new_height <= 32 * 0x80_0000 * 0x80_0000) by (nonlinear_arith)
            requires
                width < 0x80_0000,
                new_height < 0x80_0000,
        ;
        assert(32 * new_width * new_height <= 32 * 0x80_0000 * 0x80_0000) by (nonlinear_arith)
            requires
                new_width < 0x80_0000,
                new_height < 0x80_0000,
        ;
    }
}

/// Resizes every frame of a sequence to fit the pixel box of a terminal with
/// `columns` columns and `rows` rows. The frames keep their order, and each is
/// fitted by its own proportions.
pub fn scale_frames(frames: Vec<ImageFrame>, columns: usize, rows: usize) -> (scaled: Result<
    Vec<ImageFrame>,
    ScaleError,
>)
    ensures
        scaled is Ok <==> has_box(columns as nat, rows as nat) && all_addressable(
            frames@,
            box_of(columns as nat, rows as nat).0,
            box_of(columns as nat, rows as nat).1,
        ),
        scaled matches Ok(out) ==> out@.len() == frames@.len() && forall|i: int|
            0 <= i < frames@.len() ==> {
                &&& ((#[trigger] out@[i])@.width, out@[i]@.height) == fitted(
                    frames@[i]@.width,
                    frames@[i]@.height,
                    box_of(columns as nat, rows as nat).0,
                    box_of(columns as nat, rows as nat).1,
                )
                &&& out@[i]@.wf()
                &&& out@[i]@.width <= box_of(columns as nat, rows as nat).0
                &&& out@[i]@.height <= box_of(columns as nat, rows as nat).1
                &&& (out@[i]@.width == box_of(columns as nat, rows as nat).0 || out@[i]@.height
                    == box_of(columns as nat, rows as nat).1)
            },
        scaled matches Err(e) ==> e == if has_box(columns as nat, rows as nat) {
            ScaleError::TooLarge
        } else {
            ScaleError::Geometry
        },
{
    let (box_width, box_height) = match target_box(columns, rows) {
        Some(size) => size,
        None => {
            return Err(ScaleError::Geometry);
        },
    };
    let mut out: Vec<ImageFrame> = Vec::new();
    let mut i: usize = 0;
    while i < frames.len()
        invariant
            i <= frames@.len(),
            out@.len() == i,
            has_box(columns as nat, rows as nat),
            (box_width as nat, box_height as nat) == box_of(columns as nat, rows as nat),
            all_addressable(frames@.take(i as int), box_width as nat, box_height as nat),
            forall|k: int|
                0 <= k < i ==> {
                    &&& ((#[trigger] out@[k])@.width, out@[k]@.height) == fitted(
                        frames@[k]@.width,
                        frames@[k]@.height,
                        box_width as nat,
                        box_height as nat,
                    )
                    &&& out@[k]@.wf()
                    &&& out@[k]@.width <= box_width
                    &&& out@[k]@.height <= box_height
                    &&& (out@[k]@.width == box_width || out@[k]@.height == box_height)
                },
        decreases frames@.len() - i,
    {
        match scale_frame(&frames[i], box_width, box_height) {
            Ok(frame) => {
                out.push(frame);
            },
            Err(e) => {
                assert(!all_addressable(frames@, box_width as nat, box_height as nat)) by {
                    assert(frames@[i as int] == frames@[i as int]);
                }
                return Err(e);
            },
        }
        assert(all_addressable(frames@.take(i + 1), box_width as nat, box_height as nat)) by {
            assert forall|k: int| 0 <= k < i + 1 implies addressable(
                (#[trigger] frames@.take(i + 1)[k])@.width,
                frames@.take(i + 1)[k]@.height,
                fitted(
                    frames@.take(i + 1)[k]@.width,
                    frames@.take(i + 1)[k]@.height,
                    box_width as nat,
                    box_height as nat,
                ).0,
                fitted(
                    frames@.take(i + 1)[k]@.width,
                    frames@.take(i + 1)[k]@.height,
                    box_width as nat,
                    box_height as nat,
                ).1,
            ) by {
                if k < i {
                    assert(frames@.take(i as int)[k] == frames@[k]);
                }
            }
        }
        i = i + 1;
    }
    assert(frames@.take(i as int) =~= frames@);
    Ok(out)
}

} // verus!
