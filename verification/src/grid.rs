//! The pixel grid: a width, a height and the pixels row by row.

use vstd::prelude::*;
use crate::pixel::Pixel;
use crate::span::copy_run;

verus! {

/// An image of `width` by `height` pixels, stored row by row from the top:
/// the pixel at column `x` of row `y` is `pixels[y * width + x]`.
#[derive(Clone, Debug)]
pub struct Image {
    pub width: usize,
    pub height: usize,
    pub pixels: Vec<Pixel>,
}

/// Row `y` of a grid of `width` by `height` begins and ends inside the
/// row-by-row storage of the grid.
pub proof fn lemma_row_bounds(width: int, height: int, y: int)
    requires
        0 <= width,
        0 <= y < height,
    ensures
        0 <= y * width,
        y * width + width <= height * width,
        height * width == width * height,
{
    assert(y * width + width <= height * width) by (nonlinear_arith)
        requires
            0 <= width,
            y + 1 <= height,
    ;
}

/// A position in the row-by-row storage names one column and one row.
pub proof fn lemma_position_is_unique(width: int, x1: int, y1: int, x2: int, y2: int)
    requires
        0 <= x1 < width,
        0 <= x2 < width,
        y1 * width + x1 == y2 * width + x2,
    ensures
        x1 == x2,
        y1 == y2,
{
    assert(y1 == y2) by (nonlinear_arith)
        requires
            0 <= x1 < width,
            0 <= x2 < width,
            y1 * width + x1 == y2 * width + x2,
    ;
}

/// An image as a mathematical value.
pub struct ImageView {
    pub width: nat,
    pub height: nat,
    pub pixels: Seq<Pixel>,
}

impl View for Image {
    type V = ImageView;

    open spec fn view(&self) -> ImageView {
        ImageView {
            width: self.width as nat,
            height: self.height as nat,
            pixels: self.pixels@,
        }
    }
}

impl ImageView {
    /// There is exactly one pixel for every column of every row.
    pub open spec fn wf(self) -> bool {
        self.pixels.len() == self.width * self.height
    }

    /// The pixels of row `y`, from left to right.
    pub open spec fn row(self, y: int) -> Seq<Pixel> {
        self.pixels.subrange(y * self.width, y * self.width + self.width)
    }

    /// The pixel at column `x` of row `y`.
    pub open spec fn pixel_at(self, x: int, y: int) -> Pixel {
        self.pixels[y * self.width + x]
    }
}

impl Image {
    /// There is exactly one pixel for every column of every row.
    pub open spec fn wf(&self) -> bool {
        self@.wf()
    }

    /// Builds an image from its pixels, row by row. There is an image
    /// exactly when `pixels` holds `width * height` pixels.
    pub fn new(width: usize, height: usize, pixels: Vec<Pixel>) -> (image: Option<Image>)
        ensures
            image.is_some() <==> pixels.len() == width * height,
            image.is_some() ==> image.unwrap() == (Image { width, height, pixels })
                && image.unwrap().wf(),
    {
        match width.checked_mul(height) {
            Some(count) => {
                if count == pixels.len() {
                    Some(Image { width, height, pixels })
                } else {
                    None
                }
            },
            None => None,
        }
    }

    /// Makes a copy of the image that shares nothing with it.
    pub fn duplicate(&self) -> (copy: Image)
        ensures
            copy@ == self@,
    {
        let copy = Image {
            width: self.width,
            height: self.height,
            pixels: copy_run(&self.pixels, 0, self.pixels.len()),
        };
        assert(copy.pixels@ =~= self.pixels@);
        copy
    }

    /// Reads the pixel at column `x` of row `y`.
    pub fn get_pixel(&self, x: usize, y: usize) -> (pixel: Pixel)
        requires
            self.wf(),
            x < self.width,
            y < self.height,
        ensures
            pixel == self@.pixel_at(x as int, y as int),
    {
        proof {
            lemma_row_bounds(self.width as int, self.height as int, y as int);
            assert(self.pixels.len() == self.width * self.height);
        }
        self.pixels[y * self.width + x]
    }

    /// Writes `pixel` at column `x` of row `y` and leaves the rest alone.
    pub fn put_pixel(&mut self, x: usize, y: usize, pixel: Pixel)
        requires
            old(self).wf(),
            x < old(self).width,
            y < old(self).height,
        ensures
            final(self).width == old(self).width,
            final(self).height == old(self).height,
            final(self).pixels@ == old(self).pixels@.update(y * old(self).width + x, pixel),
            final(self).wf(),
    {
        proof {
            lemma_row_bounds(self.width as int, self.height as int, y as int);
            assert(self.pixels.len() == self.width * self.height);
        }
        let position: usize = y * self.width + x;
        self.pixels.set(position, pixel);
    }
}

} // verus!
