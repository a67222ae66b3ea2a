//! The frame decoder: raw bytes become an ordered, non-empty sequence of
//! frames. The bytes are sniffed; an animation yields every frame that it
//! holds, composited to a full raster of its canvas, and anything else is read
//! as a still image of one frame.

use vstd::prelude::*;
use crate::compose::{blank, blank_canvas, clear_patch, compose, composed, painted, Patch};
use crate::frame::{ImageFrame, Raster};

verus! {

/// Why bytes could not be decoded.
#[derive(Clone, Copy, Debug, PartialEq, Eq, Structural)]
pub enum DecodeError {
    /// No supported format reads the bytes.
    Malformed,
    /// A frame of an animation came without enough bytes for its pixels.
    FrameBuffer,
    /// The animation holds no frame.
    EmptyAnimation,
    /// The image is less than two pixels wide or high.
    TooSmall,
}

impl DecodeError {
    /// A description for the user.
    pub fn message(&self) -> (text: String)
        ensures
            text@ == match *self {
                DecodeError::Malformed => "Failed to decode image"@,
                DecodeError::FrameBuffer => "Failed to create image from GIF frame"@,
                DecodeError::EmptyAnimation => "No frames found in GIF"@,
                DecodeError::TooSmall => "The input image is too small"@,
            },
    {
        match self {
            DecodeError::Malformed => String::from_str("Failed to decode image"),
            DecodeError::FrameBuffer => String::from_str("Failed to create image from GIF frame"),
            DecodeError::EmptyAnimation => String::from_str("No frames found in GIF"),
            DecodeError::TooSmall => String::from_str("The input image is too small"),
        }
    }
}

/// The smallest width and height of a still image: one row pair, and as many columns.
pub const MIN_STILL_SIDE: u32 = 2;

/// A `gif::Decoder` that reads from a byte slice. The decoder is generic over
/// any reader, which cannot be declared here, so it is held whole; its frames
/// are reached through `gif_pending` and `gif_intact` alone.
#[verifier::external_body]
pub struct GifReader<'a> {
    decoder: gif::Decoder<&'a [u8]>,
}

/// `gif::DecodingError`, carried from the decoder to where it is turned into
/// a `DecodeError`; nothing is read from it.
#[verifier::external_type_specification]
#[verifier::external_body]
pub struct ExGifDecodingError(gif::DecodingError);

/// `image::ImageError`, carried from the codec to where it is turned into a
/// `DecodeError`; nothing is read from it.
#[verifier::external_type_specification]
#[verifier::external_body]
pub struct ExImageError(image::ImageError);

/// Disposal of a frame that clears its place on the canvas before the next frame.
pub const DISPOSE_BACKGROUND: u8 = 2;

/// Disposal of a frame that leaves the canvas as it was before the frame.
pub const DISPOSE_PREVIOUS: u8 = 3;

/// One frame as the GIF decoder hands it out: the place of its top left corner
/// on the canvas, its own width and height, the number of its disposal method
/// and its RGBA bytes. A pixel of the transparent colour has alpha zero.
#[derive(Debug)]
pub struct RawFrame {
    pub left: u16,
    pub top: u16,
    pub width: u16,
    pub height: u16,
    pub disposal: u8,
    pub pixels: Vec<u8>,
}

/// A frame of the decoder in contracts.
pub struct GifFrame {
    pub left: u16,
    pub top: u16,
    pub width: u16,
    pub height: u16,
    pub disposal: u8,
    pub pixels: Seq<u8>,
}

impl View for RawFrame {
    type V = GifFrame;

    open spec fn view(&self) -> GifFrame {
        GifFrame {
            left: self.left,
            top: self.top,
            width: self.width,
            height: self.height,
            disposal: self.disposal,
            pixels: self.pixels@,
        }
    }
}

/// What a GIF stream holds: the size of its canvas, the frames that can be
/// read one after the other, and whether the stream then ends as it should
/// rather than with an error.
pub struct GifStream {
    pub width: u16,
    pub height: u16,
    pub frames: Seq<GifFrame>,
    pub intact: bool,
}

/// What reading GIF bytes leads to: nothing where the header cannot be read,
/// else the stream that the bytes hold.
pub uninterp spec fn gif_stream(bytes: Seq<u8>) -> Option<GifStream>;

/// The frames that a decoder has yet to hand out before it stops.
pub uninterp spec fn gif_pending(reader: GifReader) -> Seq<GifFrame>;

/// Whether a decoder, once its pending frames are read, reports the end of the
/// stream rather than an error.
pub uninterp spec fn gif_intact(reader: GifReader) -> bool;

/// The bytes begin like a GIF stream of either version.
pub open spec fn has_gif_signature(bytes: Seq<u8>) -> bool {
    &&& bytes.len() >= 6
    &&& bytes[0] == 0x47
    &&& bytes[1] == 0x49
    &&& bytes[2] == 0x46
    &&& bytes[3] == 0x38
    &&& (bytes[4] == 0x37 || bytes[4] == 0x39)
    &&& bytes[5] == 0x61
}

/// `image::guess_format`, asked whether it answers GIF. It goes by the first
/// bytes alone: GIF is its answer for the signatures `GIF87a` and `GIF89a` and
/// for nothing else.
#[verifier::external_body]
fn sniffs_gif(buf: &[u8]) -> (gif: bool)
    ensures
        gif == has_gif_signature(buf@),
{
    matches!(image::guess_format(buf), Ok(image::ImageFormat::Gif))
}

/// What the still codec makes of bytes: nothing where it refuses them, else
/// width, height and the RGBA bytes of the picture.
pub uninterp spec fn still_picture(bytes: Seq<u8>) -> Option<(u32, u32, Seq<u8>)>;

/// `image::guess_format` for the format and `image::load_from_memory_with_format`
/// for the picture, converted to RGBA bytes by `DynamicImage::into_rgba8`. On
/// this path the codec reads the bytes and its own tables alone, none that a
/// process can register, so the same bytes give the same answer. Which bytes
/// decode, and to what, is the codec's affair.
#[verifier::external_body]
fn load_still(buf: &[u8]) -> (loaded: Result<(u32, u32, Vec<u8>), image::ImageError>)
    ensures
        match loaded {
            Ok(picture) => still_picture(buf@) == Some((picture.0, picture.1, picture.2@)),
            Err(_) => still_picture(buf@) is None,
        },
{
    let format = image::guess_format(buf)?;
    let picture = image::load_from_memory_with_format(buf, format)?.into_rgba8();
    Ok((picture.width(), picture.height(), picture.into_raw()))
}

/// `gif::DecodeOptions::read_info` on a byte slice, with the colour output set
/// to RGBA, and the size of the canvas by `gif::Decoder::width` and `height`.
/// The decoder that it returns stands at the first frame of the stream that
/// the bytes hold.
#[verifier::external_body]
fn gif_open<'a>(buf: &'a [u8]) -> (opened: Result<(GifReader<'a>, u16, u16), gif::DecodingError>)
    ensures
        match opened {
            Ok(found) => gif_stream(buf@) == Some(
                GifStream {
                    width: found.1,
                    height: found.2,
                    frames: gif_pending(found.0),
                    intact: gif_intact(found.0),
                },
            ),
            Err(_) => gif_stream(buf@) is None,
        },
{
    let mut options = gif::DecodeOptions::new();
    options.set_color_output(gif::ColorOutput::RGBA);
    let decoder = options.read_info(buf)?;
    let (width, height) = (decoder.width(), decoder.height());
    Ok((GifReader { decoder }, width, height))
}

/// `gif::Decoder::read_next_frame`, with the frame copied out: its fields
/// `left`, `top`, `width`, `height`, the number of `dispose` and the bytes of
/// `buffer`. A frame that is handed out is the first of the pending ones and
/// leaves them; the end of the stream and an error both come only when no
/// frame is pending.
#[verifier::external_body]
fn gif_next(reader: &mut GifReader) -> (read: Result<Option<RawFrame>, gif::DecodingError>)
    ensures
        match read {
            Ok(Some(frame)) => {
                &&& gif_pending(*old(reader)).len() > 0
                &&& frame@ == gif_pending(*old(reader))[0]
                &&& gif_pending(*final(reader)) == gif_pending(*old(reader)).skip(1)
                &&& gif_intact(*final(reader)) == gif_intact(*old(reader))
            },
            Ok(None) => gif_pending(*old(reader)).len() == 0 && gif_intact(*old(reader)),
            Err(_) => gif_pending(*old(reader)).len() == 0 && !gif_intact(*old(reader)),
        },
{
    match reader.decoder.read_next_frame()? {
        Some(frame) => Ok(Some(RawFrame {
            left: frame.left,
            top: frame.top,
            width: frame.width,
            height: frame.height,
            disposal: frame.dispose as u8,
            pixels: frame.buffer.to_vec(),
        })),
        None => Ok(None),
    }
}

/// The rasters of a sequence of frames.
pub open spec fn rasters(frames: Seq<ImageFrame>) -> Seq<Raster> {
    Seq::new(frames.len(), |i: int| frames[i]@)
}

/// The frames of a decoder's output as plain values.
pub open spec fn plain(frames: Seq<RawFrame>) -> Seq<GifFrame> {
    Seq::new(frames.len(), |i: int| frames[i]@)
}

/// The frame came with fewer bytes than its pixels need.
pub open spec fn unfit(frame: GifFrame) -> bool {
    frame.pixels.len() < 4 * frame.width * frame.height
}

/// Some frame of the sequence is unfit.
pub open spec fn any_unfit(frames: Seq<GifFrame>) -> bool {
    exists|i: int| 0 <= i < frames.len() && unfit(#[trigger] frames[i])
}

/// The patch that a frame of the decoder lays on the canvas.
pub open spec fn patch_of(frame: GifFrame) -> Patch {
    Patch {
        left: frame.left as nat,
        top: frame.top as nat,
        raster: Raster {
            width: frame.width as nat,
            height: frame.height as nat,
            pixels: frame.pixels.take(4 * frame.width * frame.height),
        },
    }
}

/// The canvas that a frame leaves behind for the next one, by its disposal:
/// the canvas as it was before the frame, the canvas with the place of the
/// frame cleared, or else the canvas with the frame on it.
pub open spec fn left_behind(canvas: Raster, frame: GifFrame) -> Raster {
    if frame.disposal == DISPOSE_PREVIOUS {
        canvas
    } else if frame.disposal == DISPOSE_BACKGROUND {
        painted(canvas, patch_of(frame), true)
    } else {
        composed(canvas, patch_of(frame))
    }
}

/// The canvas on which the frame `k` is laid: blank for the first frame, for
/// every other what the frame before it left behind.
pub open spec fn canvas_before(width: nat, height: nat, frames: Seq<GifFrame>, k: nat) -> Raster
    decreases k,
{
    if k == 0 {
        blank(width, height)
    } else {
        left_behind(canvas_before(width, height, frames, (k - 1) as nat), frames[k - 1])
    }
}

/// The frame `k` of an animation as it is shown: a full raster of the canvas,
/// the composition of the frames up to it.
pub open spec fn shown_frame(width: nat, height: nat, frames: Seq<GifFrame>, k: int) -> Raster {
    composed(canvas_before(width, height, frames, k as nat), patch_of(frames[k]))
}

/// What an animation decodes to, given what reading its stream led to.
pub open spec fn animation_of(stream: Option<GifStream>) -> Result<Seq<Raster>, DecodeError> {
    match stream {
        None => Err(DecodeError::Malformed),
        Some(found) => if any_unfit(found.frames) {
            Err(DecodeError::FrameBuffer)
        } else if !found.intact {
            Err(DecodeError::Malformed)
        } else if found.frames.len() == 0 {
            Err(DecodeError::EmptyAnimation)
        } else {
            Ok(
                Seq::new(
                    found.frames.len(),
                    |k: int|
                        shown_frame(found.width as nat, found.height as nat, found.frames, k),
                ),
            )
        },
    }
}

/// Every frame of a canvas is as large as the canvas.
pub proof fn lemma_canvas_size(width: nat, height: nat, frames: Seq<GifFrame>, k: nat)
    ensures
        canvas_before(width, height, frames, k).width == width,
        canvas_before(width, height, frames, k).height == height,
        shown_frame(width, height, frames, k as int).width == width,
        shown_frame(width, height, frames, k as int).height == height,
    decreases k,
{
    if k > 0 {
        lemma_canvas_size(width, height, frames, (k - 1) as nat);
    }
}

/// What a still image decodes to, given its size and its RGBA bytes.
pub open spec fn still_of(width: u32, height: u32, pixels: Seq<u8>) -> Result<
    Seq<Raster>,
    DecodeError,
> {
    if width < MIN_STILL_SIDE || height < MIN_STILL_SIDE {
        Err(DecodeError::TooSmall)
    } else if pixels.len() < 4 * width * height {
        Err(DecodeError::FrameBuffer)
    } else {
        Ok(
            seq![
                Raster {
                    width: width as nat,
                    height: height as nat,
                    pixels: pixels.take(4 * width * height),
                },
            ],
        )
    }
}

/// What a still image decodes to, given what the codec made of its bytes.
pub open spec fn still_image_of(picture: Option<(u32, u32, Seq<u8>)>) -> Result<
    Seq<Raster>,
    DecodeError,
> {
    match picture {
        None => Err(DecodeError::Malformed),
        Some(found) => still_of(found.0, found.1, found.2),
    }
}

/// A still image decodes to its one frame. Where the codec makes a picture
/// of at least two by two pixels of the bytes, with the bytes of all its pixels,
/// decoding gives exactly one frame, which has the size and the pixels of the
/// picture. A picture that is under two pixels wide or high is too small, and
/// bytes of which the codec makes nothing are malformed.
pub proof fn lemma_still_image_decodes(picture: Option<(u32, u32, Seq<u8>)>)
    ensures
        picture is None ==> still_image_of(picture) == Err::<Seq<Raster>, DecodeError>(
            DecodeError::Malformed,
        ),
        picture matches Some(found) ==> {
            &&& (found.0 < 2 || found.1 < 2) ==> still_image_of(picture) == Err::<
                Seq<Raster>,
                DecodeError,
            >(DecodeError::TooSmall)
            &&& (found.0 >= 2 && found.1 >= 2 && found.2.len() >= 4 * found.0 * found.1)
                ==> still_image_of(picture) is Ok && still_image_of(picture)->Ok_0.len() == 1
                && still_image_of(picture)->Ok_0[0].width == found.0 && still_image_of(
                picture,
            )->Ok_0[0].height == found.1 && still_image_of(picture)->Ok_0[0].wf()
        },
{
}

/// A decoding in exec values says what a decoding in spec values says.
pub open spec fn agrees(
    decoded: Result<Vec<ImageFrame>, DecodeError>,
    expected: Result<Seq<Raster>, DecodeError>,
) -> bool {
    match decoded {
        Ok(frames) => expected == Ok::<Seq<Raster>, DecodeError>(rasters(frames@)),
        Err(e) => expected == Err::<Seq<Raster>, DecodeError>(e),
    }
}

/// The frame sequence of a still image that was decoded to `width` by `height`
/// pixels: exactly one frame, or an error for an image under two pixels wide
/// or high.
pub fn still_frames(width: u32, height: u32, pixels: Vec<u8>) -> (decoded: Result<
    Vec<ImageFrame>,
    DecodeError,
>)
    ensures
        agrees(decoded, still_of(width, height, pixels@)),
        decoded matches Ok(frames) ==> frames@.len() == 1 && frames@[0]@.wf(),
{
    if width < MIN_STILL_SIDE || height < MIN_STILL_SIDE {
        return Err(DecodeError::TooSmall);
    }
    match ImageFrame::new(width, height, pixels) {
        Some(frame) => {
            let mut frames: Vec<ImageFrame> = Vec::new();
            frames.push(frame);
            assert(rasters(frames@) =~= seq![frame@]);
            Ok(frames)
        },
        None => Err(DecodeError::FrameBuffer),
    }
}

/// The frame sequence of an animation on a canvas of `width` by `height`
/// pixels whose stream gave `frames` and then ended, as it should if `intact`
/// and with an error if not. Every frame must hold the bytes of its pixels,
/// the stream must end well, and at least one frame must be there. Each frame
/// of the result is a full raster of the canvas: the frames up to it laid one
/// on the other, each disposed of as it asks before the next.
pub fn animation_frames(width: u16, height: u16, frames: Vec<RawFrame>, intact: bool) -> (decoded:
    Result<Vec<ImageFrame>, DecodeError>)
    ensures
        agrees(
            decoded,
            animation_of(Some(GifStream { width, height, frames: plain(frames@), intact })),
        ),
        decoded matches Ok(out) ==> out@.len() == frames@.len() && out@.len() >= 1 && forall|
            k: int,
        |
            0 <= k < out@.len() ==> (#[trigger] out@[k])@.wf() && out@[k]@.width == width
                && out@[k]@.height == height,
{
    let ghost all = plain(frames@);
    let mut canvas = blank_canvas(width, height);
    let mut out: Vec<ImageFrame> = Vec::new();
    for frame in it: frames
        invariant
            all == plain(it.seq()),
            out@.len() == it.index(),
            canvas@ == canvas_before(width as nat, height as nat, all, it.index() as nat),
            forall|k: int| 0 <= k < it.index() ==> !unfit(#[trigger] all[k]),
            forall|k: int|
                0 <= k < it.index() ==> (#[trigger] out@[k])@ == shown_frame(
                    width as nat,
                    height as nat,
                    all,
                    k,
                ) && out@[k]@.wf(),
    {
        let ghost k = it.index() as int;
        assert(all[k] == frame@);
        let left = frame.left;
        let top = frame.top;
        let disposal = frame.disposal;
        match ImageFrame::new(frame.width as u32, frame.height as u32, frame.pixels) {
            Some(patch) => {
                assert(Patch { left: left as nat, top: top as nat, raster: patch@ } == patch_of(
                    all[k],
                ));
                let shown = compose(&canvas, &patch, left, top);
                if disposal == DISPOSE_BACKGROUND {
                    canvas = clear_patch(&canvas, &patch, left, top);
                } else if disposal != DISPOSE_PREVIOUS {
                    canvas = shown.clone();
                }
                assert(canvas@ == canvas_before(
                    width as nat,
                    height as nat,
                    all,
                    (k + 1) as nat,
                ));
                out.push(shown);
            },
            None => {
                assert(unfit(all[k]));
                return Err(DecodeError::FrameBuffer);
            },
        }
    }
    if !intact {
        return Err(DecodeError::Malformed);
    }
    if out.len() == 0 {
        return Err(DecodeError::EmptyAnimation);
    }
    proof {
        assert(rasters(out@) =~= Seq::new(
            all.len(),
            |k: int| shown_frame(width as nat, height as nat, all, k),
        ));
        assert forall|k: int| 0 <= k < out@.len() implies (#[trigger] out@[k])@.width == width
            && out@[k]@.height == height by {
            lemma_canvas_size(width as nat, height as nat, all, k as nat);
        }
    }
    Ok(out)
}

/// Decodes a still image. Bytes that the codec refuses are malformed; a
/// picture that it makes of them gives exactly one frame, or an error where
/// the picture is under two pixels wide or high.
pub fn decode_static_image(buf: &[u8]) -> (decoded: Result<Vec<ImageFrame>, DecodeError>)
    ensures
        agrees(decoded, still_image_of(still_picture(buf@))),
        decoded matches Ok(frames) ==> {
            &&& frames@.len() == 1
            &&& frames@[0]@.wf()
            &&& frames@[0]@.width >= MIN_STILL_SIDE
            &&& frames@[0]@.height >= MIN_STILL_SIDE
        },
{
    match load_still(buf) {
        Ok(picture) => {
            let decoded = still_frames(picture.0, picture.1, picture.2);
            assert(decoded matches Ok(frames) ==> rasters(frames@)[0] == frames@[0]@);
            decoded
        },
        Err(_) => Err(DecodeError::Malformed),
    }
}

/// Decodes an animation: every frame of the stream, in the order of the
/// stream, each composited to a full raster of the canvas.
pub fn decode_gif(buf: &[u8]) -> (decoded: Result<Vec<ImageFrame>, DecodeError>)
    ensures
        agrees(decoded, animation_of(gif_stream(buf@))),
        decoded matches Ok(frames) ==> {
            &&& frames@.len() >= 1
            &&& gif_stream(buf@) is Some
            &&& frames@.len() == gif_stream(buf@)->0.frames.len()
            &&& forall|k: int|
                0 <= k < frames@.len() ==> {
                    &&& (#[trigger] frames@[k])@.wf()
                    &&& frames@[k]@.width == gif_stream(buf@)->0.width
                    &&& frames@[k]@.height == gif_stream(buf@)->0.height
                }
        },
{
    let (mut reader, width, height) = match gif_open(buf) {
        Ok(found) => found,
        Err(_) => {
            return Err(DecodeError::Malformed);
        },
    };
    let ghost all = gif_pending(reader);
    let ghost intact = gif_intact(reader);
    let ghost rest = all;
    let mut frames: Vec<RawFrame> = Vec::new();
    let mut ended: Option<bool> = None;
    while ended.is_none()
        invariant
            plain(frames@) + rest == all,
            ended is None ==> gif_pending(reader) == rest && gif_intact(reader) == intact,
            ended matches Some(well) ==> well == intact && rest.len() == 0,
        decreases
            rest.len() + if ended is None {
                1nat
            } else {
                0nat
            },
    {
        let ghost read = plain(frames@);
        match gif_next(&mut reader) {
            Ok(Some(frame)) => {
                frames.push(frame);
                proof {
                    assert(plain(frames@) =~= read.push(rest[0]));
                    assert(plain(frames@) + rest.skip(1) =~= read + rest);
                    rest = rest.skip(1);
                }
            },
            Ok(None) => {
                ended = Some(true);
            },
            Err(_) => {
                ended = Some(false);
            },
        }
    }
    assert(plain(frames@) =~= all);
    let well = ended.unwrap();
    animation_frames(width, height, frames, well)
}

/// Decodes image bytes of any supported format into a frame sequence. Bytes
/// that begin like a GIF stream are decoded as an animation, all others as a
/// still image.
pub fn decode_image(buf: &[u8]) -> (decoded: Result<Vec<ImageFrame>, DecodeError>)
    ensures
        has_gif_signature(buf@) ==> agrees(decoded, animation_of(gif_stream(buf@))),
        !has_gif_signature(buf@) ==> agrees(decoded, still_image_of(still_picture(buf@))),
        !has_gif_signature(buf@) ==> (decoded matches Ok(frames) ==> {
            &&& frames@.len() == 1
            &&& frames@[0]@.width >= MIN_STILL_SIDE
            &&& frames@[0]@.height >= MIN_STILL_SIDE
        }),
        decoded matches Ok(frames) ==> frames@.len() >= 1,
{
    if sniffs_gif(buf) {
        decode_gif(buf)
    } else {
        decode_static_image(buf)
    }
}

} // verus!
