//! Pixel images as the UI toolkit hands them over, and the patching of a
//! rectangle of one image with another.

use vstd::prelude::*;
use vstd::arithmetic::div_mod::{lemma_fundamental_div_mod, lemma_fundamental_div_mod_converse};
use vstd::arithmetic::mul::{lemma_mul_inequality, lemma_mul_is_distributive_add_other_way};

verus! {

/// One pixel: red, green, blue and alpha, eight bits each.
#[derive(Clone, Copy, Debug, PartialEq, Eq, Structural, Hash)]
pub struct Color32 {
    /// Red.
    pub r: u8,
    /// Green.
    pub g: u8,
    /// Blue.
    pub b: u8,
    /// Alpha.
    pub a: u8,
}

/// An image as a mathematical value: its size and its pixels row by row.
pub struct ImageView {
    /// Pixels per row.
    pub width: nat,
    /// Number of rows.
    pub height: nat,
    /// The pixels, the top row first, each row from left to right.
    pub pixels: Seq<Color32>,
}

impl ImageView {
    /// There is exactly one pixel for each position.
    pub open spec fn wf(self) -> bool {
        self.pixels.len() == (self.width as int) * (self.height as int)
    }

    /// The pixel in column `x` of row `y`.
    pub open spec fn pixel(self, x: int, y: int) -> Color32 {
        self.pixels[y * self.width + x]
    }

    /// Whether `src` can be written into this image with its top left
    /// corner at column `x`, row `y`: an image without pixels always can,
    /// another one has to lie inside this image.
    pub open spec fn patch_fits(self, x: int, y: int, src: ImageView) -> bool {
        ||| src.width == 0
        ||| src.height == 0
        ||| (x + src.width <= self.width && y + src.height <= self.height)
    }

    /// Whether the position `(px, py)` lies in the rectangle that `src`
    /// covers when its top left corner is at `(x, y)`.
    pub open spec fn covered(x: int, y: int, src: ImageView, px: int, py: int) -> bool {
        x <= px < x + src.width && y <= py < y + src.height
    }

    /// This image with the rectangle at `(x, y)` overwritten by `src`: a
    /// pixel inside the rectangle is the pixel of `src` at the same place
    /// relative to the corner, every other pixel is kept.
    pub open spec fn patched(self, x: int, y: int, src: ImageView) -> ImageView {
        ImageView {
            width: self.width,
            height: self.height,
            pixels: Seq::new(
                self.pixels.len(),
                |i: int|
                    {
                        let px = i % (self.width as int);
                        let py = i / (self.width as int);
                        if Self::covered(x, y, src, px, py) {
                            src.pixel(px - x, py - y)
                        } else {
                            self.pixels[i]
                        }
                    },
            ),
        }
    }
}

/// A rectangular image of [`Color32`] pixels.
#[derive(Debug)]
pub struct ColorImage {
    /// Width and height, in pixels.
    pub size: [usize; 2],
    /// The pixels, the top row first, each row from left to right.
    pub pixels: Vec<Color32>,
}

impl View for ColorImage {
    type V = ImageView;

    open spec fn view(&self) -> ImageView {
        ImageView {
            width: self.size[0] as nat,
            height: self.size[1] as nat,
            pixels: self.pixels@,
        }
    }
}

impl ColorImage {
    /// There is exactly one pixel for each position.
    pub open spec fn wf(&self) -> bool {
        self@.wf()
    }

    /// An image of the given size, every pixel of it `color`.
    ///
    /// Returns `None` if the number of pixels does not fit in `usize`.
    pub fn new(size: [usize; 2], color: Color32) -> (r: Option<ColorImage>)
        ensures
            r.is_some() <==> size[0] * size[1] <= usize::MAX,
            r matches Some(image) ==> {
                &&& image.wf()
                &&& image@.width == size[0]
                &&& image@.height == size[1]
                &&& forall|i: int| 0 <= i < image@.pixels.len() ==> image@.pixels[i] == color
            },
    {
        let width = size[0];
        let height = size[1];
        match width.checked_mul(height) {
            None => None,
            Some(count) => {
                let mut pixels: Vec<Color32> = Vec::new();
                let mut i: usize = 0;
                while i < count
                    invariant
                        i <= count,
                        pixels.len() == i,
                        forall|j: int| 0 <= j < i ==> pixels[j] == color,
                    decreases count - i,
                {
                    pixels.push(color);
                    i += 1;
                }
                Some(ColorImage { size: [width, height], pixels })
            },
        }
    }

    /// An image of the given size with the given pixels.
    ///
    /// Returns `None` if the number of pixels is not width times height.
    pub fn from_pixels(size: [usize; 2], pixels: Vec<Color32>) -> (r: Option<ColorImage>)
        ensures
            r.is_some() <==> pixels.len() == size[0] * size[1],
            r matches Some(image) ==> {
                &&& image.wf()
                &&& image@.width == size[0]
                &&& image@.height == size[1]
                &&& image@.pixels == pixels@
            },
    {
        match size[0].checked_mul(size[1]) {
            None => None,
            Some(count) => {
                if count == pixels.len() {
                    Some(ColorImage { size: [size[0], size[1]], pixels })
                } else {
                    None
                }
            },
        }
    }

    /// Pixels per row.
    pub fn width(&self) -> (w: usize)
        ensures
            w == self@.width,
    {
        self.size[0]
    }

    /// Number of rows.
    pub fn height(&self) -> (h: usize)
        ensures
            h == self@.height,
    {
        self.size[1]
    }

    /// Whether every pixel has a place: the check that [`ColorImage::wf`]
    /// states.
    pub fn is_well_formed(&self) -> (ok: bool)
        ensures
            ok == self.wf(),
    {
        let width = self.size[0];
        let height = self.size[1];
        assert(width == self@.width && height == self@.height);
        assert((self@.width as int) * (self@.height as int) == width * height);
        let len = self.pixels.len();
        match width.checked_mul(height) {
            None => false,
            Some(count) => count == len,
        }
    }

    /// The pixel in column `x` of row `y`.
    pub fn pixel(&self, x: usize, y: usize) -> (color: Color32)
        requires
            self.wf(),
            x < self@.width,
            y < self@.height,
        ensures
            color == self@.pixel(x as int, y as int),
    {
        let width = self.size[0];
        assert(width == self@.width);
        proof {
            lemma_position_in_range(width as int, self@.height as int, x as int, y as int);
            assert(self.pixels.len() == (width as int) * (self@.height as int));
            assert(0 <= (y as int) * (width as int));
            assert((y as int) * (width as int) + x < self.pixels.len());
            assert((y as int) * (width as int) <= usize::MAX);
        }
        self.pixels[y * width + x]
    }

    /// Whether `src` can be written into this image at `pos`: the check
    /// that [`ImageView::patch_fits`] states.
    pub fn patch_fits(&self, pos: [usize; 2], src: &ColorImage) -> (ok: bool)
        ensures
            ok == self@.patch_fits(pos[0] as int, pos[1] as int, src@),
    {
        if src.size[0] == 0 || src.size[1] == 0 {
            return true;
        }
        let fits_x = match pos[0].checked_add(src.size[0]) {
            None => false,
            Some(right) => right <= self.size[0],
        };
        let fits_y = match pos[1].checked_add(src.size[1]) {
            None => false,
            Some(bottom) => bottom <= self.size[1],
        };
        fits_x && fits_y
    }

    /// A copy of this image.
    pub fn duplicate(&self) -> (copy: ColorImage)
        ensures
            copy@ == self@,
    {
        let mut pixels: Vec<Color32> = Vec::new();
        let mut i: usize = 0;
        while i < self.pixels.len()
            invariant
                i <= self.pixels.len(),
                pixels.len() == i,
                forall|j: int| 0 <= j < i ==> pixels[j] == self.pixels[j],
            decreases self.pixels.len() - i,
        {
            pixels.push(self.pixels[i]);
            i += 1;
        }
        proof {
            assert(pixels@ =~= self.pixels@);
        }
        ColorImage { size: [self.size[0], self.size[1]], pixels }
    }
}

impl Clone for ColorImage {
    /// A copy of this image.
    fn clone(&self) -> (copy: ColorImage)
        ensures
            copy@ == self@,
    {
        self.duplicate()
    }
}

/// Writes `src` into `dest` with its top left corner at `pos`: the pixels
/// of that rectangle become those of `src`, all others stay.
pub fn update_image_rect(dest: &mut ColorImage, pos: [usize; 2], src: &ColorImage)
    requires
        old(dest).wf(),
        src.wf(),
        old(dest)@.patch_fits(pos[0] as int, pos[1] as int, src@),
    ensures
        final(dest).wf(),
        final(dest)@ == old(dest)@.patched(pos[0] as int, pos[1] as int, src@),
{
    let x = pos[0];
    let y = pos[1];
    let width = dest.size[0];
    let src_width = src.size[0];
    let src_height = src.size[1];
    if src_width == 0 || src_height == 0 {
        proof {
            assert(dest@.pixels =~= old(dest)@.patched(x as int, y as int, src@).pixels);
        }
        return ;
    }
    let ghost before = dest@;
    let ghost w = width as int;
    let ghost h = dest.size[1] as int;
    let mut sy: usize = 0;
    while sy < src_height
        invariant
            sy <= src_height,
            src.wf(),
            src_width == src@.width,
            src_height == src@.height,
            src_width > 0,
            before == old(dest)@,
            before.wf(),
            w == before.width,
            h == before.height,
            width == w,
            x + src_width <= w,
            y + src_height <= h,
            dest.size == old(dest).size,
            dest.pixels.len() == before.pixels.len(),
            forall|i: int|
                0 <= i < before.pixels.len() ==> (#[trigger] dest.pixels[i]) == (if x <= i % w < x
                    + src_width && y <= i / w < y + sy {
                    src@.pixel(i % w - x, i / w - y)
                } else {
                    before.pixels[i]
                }),
        decreases src_height - sy,
    {
        let mut sx: usize = 0;
        while sx < src_width
            invariant
                sx <= src_width,
                sy < src_height,
                src.wf(),
                src_width == src@.width,
                src_height == src@.height,
                before.wf(),
                w == before.width,
                h == before.height,
                width == w,
                x + src_width <= w,
                y + src_height <= h,
                dest.size == old(dest).size,
                dest.pixels.len() == before.pixels.len(),
                forall|i: int|
                    0 <= i < before.pixels.len() ==> (#[trigger] dest.pixels[i]) == (if (x <= i % w
                        < x + src_width && y <= i / w < y + sy) || (x <= i % w < x + sx && i / w
                        == y + sy) {
                        src@.pixel(i % w - x, i / w - y)
                    } else {
                        before.pixels[i]
                    }),
            decreases src_width - sx,
        {
            proof {
                lemma_position_in_range(w, h, x + sx, y + sy);
                lemma_position_in_range(src_width as int, src_height as int, sx as int, sy as int);
                assert(src.pixels.len() == (src_width as int) * (src_height as int));
                assert(0 <= (sy as int) * (src_width as int));
                assert((sy as int) * (src_width as int) + sx < src.pixels.len());
                assert(before.pixels.len() == w * h);
                assert(0 <= (y + sy) * w);
                assert((y + sy) * w + (x + sx) < dest.pixels.len());
            }
            let color = src.pixels[sy * src_width + sx];
            let at = (y + sy) * width + (x + sx);
            let ghost prior = dest.pixels@;
            dest.pixels.set(at, color);
            proof {
                assert(color == src@.pixel(sx as int, sy as int));
                assert forall|i: int| 0 <= i < before.pixels.len() implies (#[trigger] dest.pixels[i])
                    == (if (x <= i % w < x + src_width && y <= i / w < y + sy) || (x <= i % w < x
                    + sx + 1 && i / w == y + sy) {
                    src@.pixel(i % w - x, i / w - y)
                } else {
                    before.pixels[i]
                }) by {
                    lemma_fundamental_div_mod(i, w);
                    assert(i == w * (i / w) + i % w);
                    if i != at {
                        assert(dest.pixels[i] == prior[i]);
                        if i % w == x + sx && i / w == y + sy {
                            assert(w * (i / w) == (y + sy) * w) by (nonlinear_arith)
                                requires
                                    i / w == y + sy,
                            ;
                        }
                    }
                }
            }
            sx += 1;
        }
        sy += 1;
    }
    proof {
        assert(dest@.pixels =~= before.patched(x as int, y as int, src@).pixels);
    }
}

/// `egui::Color32::to_srgba_unmultiplied`, on the color that
/// `egui::Color32::from_rgba_premultiplied` makes of the four bytes: the
/// color with its alpha divided out, as red, green, blue and alpha. The
/// toolkit computes it in floating point with `powf`, whose precision is
/// not fixed across platforms, so nothing is claimed of the result.
#[verifier::external_body]
fn unmultiplied(color: Color32) -> (rgba: [u8; 4]) {
    egui::Color32::from_rgba_premultiplied(color.r, color.g, color.b, color.a).to_srgba_unmultiplied()
}

/// The bytes of `quads` one after the other: byte `k` of quad `i` is byte
/// `4 * i + k`.
pub open spec fn flattened(quads: Seq<[u8; 4]>) -> Seq<u8> {
    Seq::new(4 * quads.len(), |j: int| quads[j / 4][j % 4])
}

/// Lays four-byte pixels out as one run of bytes, pixel after pixel.
pub fn flatten_rgba(quads: &Vec<[u8; 4]>) -> (bytes: Vec<u8>)
    ensures
        bytes@ == flattened(quads@),
{
    let mut bytes: Vec<u8> = Vec::new();
    let mut i: usize = 0;
    while i < quads.len()
        invariant
            i <= quads.len(),
            bytes.len() == 4 * i,
            forall|j: int| 0 <= j < 4 * i ==> #[trigger] bytes[j] == quads[j / 4][j % 4],
        decreases quads.len() - i,
    {
        let quad = quads[i];
        bytes.push(quad[0]);
        bytes.push(quad[1]);
        bytes.push(quad[2]);
        bytes.push(quad[3]);
        i += 1;
    }
    proof {
        assert(bytes@ =~= flattened(quads@));
    }
    bytes
}

/// The pixels of `image` as the bytes of a texture that the host uploads:
/// four bytes for each pixel, row by row, each pixel with its alpha divided
/// out by the toolkit's own conversion.
pub fn unmultiplied_bytes(image: &ColorImage) -> (bytes: Vec<u8>)
    ensures
        bytes.len() == 4 * image.pixels.len(),
{
    let mut quads: Vec<[u8; 4]> = Vec::new();
    let mut i: usize = 0;
    while i < image.pixels.len()
        invariant
            i <= image.pixels.len(),
            quads.len() == i,
        decreases image.pixels.len() - i,
    {
        quads.push(unmultiplied(image.pixels[i]));
        i += 1;
    }
    flatten_rgba(&quads)
}

/// In an image of `width` by `height` pixels, the position `(x, y)` is at
/// index `y * width + x`: that index is in range, and dividing it by the
/// width gives the position back.
pub proof fn lemma_position_in_range(width: int, height: int, x: int, y: int)
    requires
        0 <= x < width,
        0 <= y < height,
    ensures
        0 <= y * width + x < width * height,
        0 <= y * width <= y * width + x,
        (y * width + x) % width == x,
        (y * width + x) / width == y,
{
    lemma_fundamental_div_mod_converse(y * width + x, width, y, x);
    assert(y * width + x < width * height) by {
        lemma_mul_inequality(y + 1, height, width);
        lemma_mul_is_distributive_add_other_way(width, y, 1);
    }
    assert(0 <= y * width) by (nonlinear_arith)
        requires
            0 <= y,
            0 <= width,
    ;
}

} // verus!
