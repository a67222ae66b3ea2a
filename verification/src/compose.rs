//! Compositing: the frames of an animation are patches that are laid on a
//! canvas one after the other. Each shown frame is the canvas as it stood with
//! the opaque pixels of the patch painted over it.

use vstd::prelude::*;
use crate::frame::{lemma_offset_in_bounds, ImageFrame, Raster};

verus! {

/// A patch: a raster and the place of its top left corner on the canvas.
pub struct Patch {
    pub left: nat,
    pub top: nat,
    pub raster: Raster,
}

impl Patch {
    /// The pixel (`x`, `y`) of the canvas lies inside the patch.
    pub open spec fn covers(self, x: int, y: int) -> bool {
        &&& self.left <= x
        &&& x - self.left < self.raster.width
        &&& self.top <= y
        &&& y - self.top < self.raster.height
    }

    /// The pixel of the patch that lies on the pixel (`x`, `y`) of the canvas.
    pub open spec fn pixel(self, x: int, y: int) -> (u8, u8, u8, u8)
        recommends
            self.covers(x, y),
    {
        self.raster.pixel(x - self.left, y - self.top)
    }

    /// The patch has a pixel on (`x`, `y`) that is not fully transparent.
    pub open spec fn paints(self, x: int, y: int) -> bool {
        self.covers(x, y) && self.pixel(x, y).3 != 0
    }
}

/// The pixel (`x`, `y`) of the canvas once the patch is laid on it: the pixel
/// of the patch where the patch has one that is not fully transparent, the
/// canvas as it was everywhere else.
pub open spec fn shown_pixel(canvas: Raster, patch: Patch, x: int, y: int) -> (u8, u8, u8, u8) {
    if patch.paints(x, y) {
        patch.pixel(x, y)
    } else {
        canvas.pixel(x, y)
    }
}

/// The pixel (`x`, `y`) of the canvas once the place of the patch is cleared:
/// fully transparent inside the patch, the canvas as it was outside.
pub open spec fn cleared_pixel(canvas: Raster, patch: Patch, x: int, y: int) -> (u8, u8, u8, u8) {
    if patch.covers(x, y) {
        (0u8, 0u8, 0u8, 0u8)
    } else {
        canvas.pixel(x, y)
    }
}

/// Either of the two, by what is asked for.
pub open spec fn painted_pixel(canvas: Raster, patch: Patch, clear: bool, x: int, y: int) -> (
    u8,
    u8,
    u8,
    u8,
) {
    if clear {
        cleared_pixel(canvas, patch, x, y)
    } else {
        shown_pixel(canvas, patch, x, y)
    }
}

/// One channel of a pixel: red, green, blue, alpha by number.
pub open spec fn channel(pixel: (u8, u8, u8, u8), c: int) -> u8 {
    if c == 0 {
        pixel.0
    } else if c == 1 {
        pixel.1
    } else if c == 2 {
        pixel.2
    } else {
        pixel.3
    }
}

/// The byte `i` of the painted canvas.
pub open spec fn painted_byte(canvas: Raster, patch: Patch, clear: bool, i: int) -> u8 {
    channel(
        painted_pixel(
            canvas,
            patch,
            clear,
            (i / 4) % (canvas.width as int),
            (i / 4) / (canvas.width as int),
        ),
        i % 4,
    )
}

/// The canvas with the patch laid on it, or with the place of the patch
/// cleared: as large as the canvas, pixel by pixel as `painted_pixel` says.
pub open spec fn painted(canvas: Raster, patch: Patch, clear: bool) -> Raster {
    Raster {
        width: canvas.width,
        height: canvas.height,
        pixels: Seq::new(
            4 * canvas.width * canvas.height,
            |i: int| painted_byte(canvas, patch, clear, i),
        ),
    }
}

/// The frame that is shown when the patch is laid on the canvas.
pub open spec fn composed(canvas: Raster, patch: Patch) -> Raster {
    painted(canvas, patch, false)
}

/// A canvas of fully transparent pixels.
pub open spec fn blank(width: nat, height: nat) -> Raster {
    Raster { width, height, pixels: Seq::new(4 * width * height, |i: int| 0u8) }
}

/// The pixel with the number `y * width + x` is the pixel (`x`, `y`).
proof fn lemma_pixel_number(width: nat, x: int, y: int)
    requires
        0 <= x < width,
        0 <= y,
    ensures
        (y * width + x) % (width as int) == x,
        (y * width + x) / (width as int) == y,
{
    vstd::arithmetic::div_mod::lemma_fundamental_div_mod_converse(
        y * width + x,
        width as int,
        y,
        x,
    );
}

/// The painted canvas holds at every place what `painted_pixel` says of it.
pub proof fn lemma_painted_pixels(canvas: Raster, patch: Patch, clear: bool, x: int, y: int)
    requires
        0 <= x < canvas.width,
        0 <= y < canvas.height,
    ensures
        painted(canvas, patch, clear).wf(),
        painted(canvas, patch, clear).pixel(x, y) == painted_pixel(canvas, patch, clear, x, y),
        composed(canvas, patch).pixel(x, y) == shown_pixel(canvas, patch, x, y),
{
    lemma_offset_in_bounds(canvas.width, canvas.height, x, y);
    lemma_pixel_number(canvas.width, x, y);
    let at = 4 * (y * canvas.width + x);
    assert(at / 4 == y * canvas.width + x);
    assert((at + 1) / 4 == y * canvas.width + x);
    assert((at + 2) / 4 == y * canvas.width + x);
    assert((at + 3) / 4 == y * canvas.width + x);
}

/// Nothing but the canvas shows where the patch does not paint, and nothing
/// but the patch where it does: a patch that lies wholly outside the canvas,
/// or is fully transparent, leaves the canvas as it was.
pub proof fn lemma_composed_outside_patch(canvas: Raster, patch: Patch, x: int, y: int)
    requires
        0 <= x < canvas.width,
        0 <= y < canvas.height,
    ensures
        !patch.paints(x, y) ==> composed(canvas, patch).pixel(x, y) == canvas.pixel(x, y),
        patch.paints(x, y) ==> composed(canvas, patch).pixel(x, y) == patch.pixel(x, y),
        composed(canvas, patch).width == canvas.width,
        composed(canvas, patch).height == canvas.height,
{
    lemma_painted_pixels(canvas, patch, false, x, y);
}

/// The pixel (`x`, `y`) of the painted canvas.
fn pixel_at(canvas: &ImageFrame, patch: &ImageFrame, left: u16, top: u16, clear: bool, x: u32, y: u32) -> (pixel:
    (u8, u8, u8, u8))
    requires
        x < canvas@.width,
        y < canvas@.height,
    ensures
        pixel == painted_pixel(
            canvas@,
            Patch { left: left as nat, top: top as nat, raster: patch@ },
            clear,
            x as int,
            y as int,
        ),
{
    let under = canvas.get_pixel_rgba(x, y);
    let (patch_width, patch_height) = patch.dimensions();
    let left: u32 = left as u32;
    let top: u32 = top as u32;
    if left <= x && x - left < patch_width && top <= y && y - top < patch_height {
        if clear {
            (0, 0, 0, 0)
        } else {
            let over = patch.get_pixel_rgba(x - left, y - top);
            if over.3 != 0 {
                over
            } else {
                under
            }
        }
    } else {
        under
    }
}

/// Paints the whole canvas anew, pixel by pixel.
fn paint(canvas: &ImageFrame, patch: &ImageFrame, left: u16, top: u16, clear: bool) -> (out: ImageFrame)
    ensures
        out@ == painted(
            canvas@,
            Patch { left: left as nat, top: top as nat, raster: patch@ },
            clear,
        ),
        out@.wf(),
{
    let ghost laid = Patch { left: left as nat, top: top as nat, raster: patch@ };
    let ghost under = canvas@;
    let (width, height) = canvas.dimensions();
    let mut bytes: Vec<u8> = Vec::new();
    let mut y: u32 = 0;
    while y < height
        invariant
            y <= height,
            width == under.width,
            height == under.height,
            under == canvas@,
            laid == (Patch { left: left as nat, top: top as nat, raster: patch@ }),
            bytes@.len() == 4 * (y * width),
            forall|i: int|
                0 <= i < bytes@.len() ==> #[trigger] bytes@[i] == painted_byte(
                    under,
                    laid,
                    clear,
                    i,
                ),
        decreases height - y,
    {
        let mut x: u32 = 0;
        while x < width
            invariant
                x <= width,
                y < height,
                width == under.width,
                height == under.height,
                under == canvas@,
                laid == (Patch { left: left as nat, top: top as nat, raster: patch@ }),
                bytes@.len() == 4 * (y * width + x),
                forall|i: int|
                    0 <= i < bytes@.len() ==> #[trigger] bytes@[i] == painted_byte(
                        under,
                        laid,
                        clear,
                        i,
                    ),
            decreases width - x,
        {
            let pixel = pixel_at(canvas, patch, left, top, clear, x, y);
            let ghost at = bytes@.len() as int;
            proof {
                lemma_pixel_number(width as nat, x as int, y as int);
                assert(at / 4 == y * width + x);
                assert((at + 1) / 4 == y * width + x);
                assert((at + 2) / 4 == y * width + x);
                assert((at + 3) / 4 == y * width + x);
            }
            bytes.push(pixel.0);
            bytes.push(pixel.1);
            bytes.push(pixel.2);
            bytes.push(pixel.3);
            x = x + 1;
        }
        proof {
            assert(y * width + width == (y + 1) * width) by (nonlinear_arith);
        }
        y = y + 1;
    }
    proof {
        assert(4 * (height * width) == 4 * width * height) by (nonlinear_arith);
        assert(bytes@ =~= painted(under, laid, clear).pixels);
        assert(bytes@.take(4 * width * height) =~= bytes@);
    }
    let out = ImageFrame::new(width, height, bytes);
    out.unwrap()
}

/// Lays a patch on the canvas with its top left corner at (`left`, `top`) and
/// hands out the frame that is then shown. The frame is as large as the
/// canvas. Where the patch has a pixel that is not fully transparent the frame
/// has that pixel; everywhere else, where the patch is transparent and where
/// it does not reach, the frame has the pixel of the canvas. What of the patch
/// lies outside the canvas is left out.
pub fn compose(canvas: &ImageFrame, patch: &ImageFrame, left: u16, top: u16) -> (shown: ImageFrame)
    ensures
        shown@ == composed(canvas@, Patch { left: left as nat, top: top as nat, raster: patch@ }),
        shown@.wf(),
        shown@.width == canvas@.width,
        shown@.height == canvas@.height,
        forall|x: int, y: int|
            0 <= x < canvas@.width && 0 <= y < canvas@.height ==> #[trigger] shown@.pixel(x, y)
                == shown_pixel(
                canvas@,
                Patch { left: left as nat, top: top as nat, raster: patch@ },
                x,
                y,
            ),
{
    let shown = paint(canvas, patch, left, top, false);
    proof {
        let laid = Patch { left: left as nat, top: top as nat, raster: patch@ };
        assert forall|x: int, y: int|
            0 <= x < canvas@.width && 0 <= y < canvas@.height implies #[trigger] shown@.pixel(x, y)
            == shown_pixel(canvas@, laid, x, y) by {
            lemma_painted_pixels(canvas@, laid, false, x, y);
        }
    }
    shown
}

/// Clears the place of a patch on the canvas: the pixels inside the patch
/// become fully transparent, all others stay.
pub fn clear_patch(canvas: &ImageFrame, patch: &ImageFrame, left: u16, top: u16) -> (cleared:
    ImageFrame)
    ensures
        cleared@ == painted(
            canvas@,
            Patch { left: left as nat, top: top as nat, raster: patch@ },
            true,
        ),
        cleared@.wf(),
        cleared@.width == canvas@.width,
        cleared@.height == canvas@.height,
        forall|x: int, y: int|
            0 <= x < canvas@.width && 0 <= y < canvas@.height ==> #[trigger] cleared@.pixel(x, y)
                == cleared_pixel(
                canvas@,
                Patch { left: left as nat, top: top as nat, raster: patch@ },
                x,
                y,
            ),
{
    let cleared = paint(canvas, patch, left, top, true);
    proof {
        let laid = Patch { left: left as nat, top: top as nat, raster: patch@ };
        assert forall|x: int, y: int|
            0 <= x < canvas@.width && 0 <= y < canvas@.height implies #[trigger] cleared@.pixel(
            x,
            y,
        ) == cleared_pixel(canvas@, laid, x, y) by {
            lemma_painted_pixels(canvas@, laid, true, x, y);
        }
    }
    cleared
}

/// A canvas of `width` by `height` fully transparent pixels.
pub fn blank_canvas(width: u16, height: u16) -> (canvas: ImageFrame)
    ensures
        canvas@ == blank(width as nat, height as nat),
        canvas@.wf(),
{
    assert(width * height <= 0xFFFF * 0xFFFF) by (nonlinear_arith)
        requires
            0 <= width <= 0xFFFF,
            0 <= height <= 0xFFFF,
    ;
    assert(4 * width * height == 4 * (width * height)) by (nonlinear_arith);
    let total: u64 = 4 * ((width as u64) * (height as u64));
    let mut bytes: Vec<u8> = Vec::new();
    let mut count: u64 = 0;
    while count < total
        invariant
            count <= total,
            bytes@.len() == count,
            forall|i: int| 0 <= i < bytes@.len() ==> #[trigger] bytes@[i] == 0u8,
        decreases total - count,
    {
        bytes.push(0);
        count = count + 1;
    }
    proof {
        assert(bytes@ =~= blank(width as nat, height as nat).pixels);
        assert(bytes@.take(4 * width * height) =~= bytes@);
    }
    let canvas = ImageFrame::new(width as u32, height as u32, bytes);
    canvas.unwrap()
}

} // verus!
