//! The screen: its pixels in the order they are traced, where a pixel lies
//! from the screen's centre, and the frame that the traced colours make.
use vstd::prelude::*;
use image::DynamicImage;
use itertools::Itertools;
use crate::pixels::{image_extent, image_is_rgb, image_pixels, new_rgb8, put_pixel, Pixel};

verus! {

/// A colour as the frame stores it: red, green and blue.
pub type Rgb = (u8, u8, u8);

/// The colour of a frame's pixel that nothing was painted on.
pub open spec fn blank() -> Pixel {
    (0u8, 0u8, 0u8, 255u8)
}

/// The pixels of a screen, column by column from the left, each column from
/// the top: the pixel at place `k` is `(k / height, k % height)`.
pub open spec fn grid(width: int, height: int) -> Seq<(i32, i32)> {
    if width <= 0 || height <= 0 {
        Seq::empty()
    } else {
        Seq::new((width * height) as nat, |k: int| ((k / height) as i32, (k % height) as i32))
    }
}

/// `Itertools::cartesian_product` of the ranges `0..width` and `0..height`,
/// collected: every pair of a first and a second number, the pairs with the
/// same first number together and in the order of the second. Collecting
/// panics where the pairs outnumber what a vector holds.
#[verifier::external_body]
fn cartesian_product(width: i32, height: i32) -> (pairs: Vec<(i32, i32)>)
    requires
        width > 0 && height > 0 ==> 8 * width * height <= isize::MAX,
    ensures
        pairs@ == grid(width as int, height as int),
{
    (0..width).cartesian_product(0..height).collect()
}

/// The screen is small enough for its pixels to be listed.
pub open spec fn listable(width: u32, height: u32) -> bool {
    width <= i32::MAX && height <= i32::MAX && 8 * width * height <= isize::MAX
}

/// Lists the pixels of a screen in the order in which they are traced.
/// `None` says that the screen is too large to list.
pub fn screen(width: u32, height: u32) -> (pixels: Option<Vec<(i32, i32)>>)
    ensures
        pixels is Some <==> listable(width, height),
        pixels matches Some(list) ==> list@ == grid(width as int, height as int),
{
    if width > i32::MAX as u32 || height > i32::MAX as u32 {
        return None;
    }
    if !fits(width, height, 8) {
        return None;
    }
    Some(cartesian_product(width as i32, height as i32))
}

/// Whether `width * height` items of `size` bytes each fit in memory.
fn fits(width: u32, height: u32, size: usize) -> (r: bool)
    requires
        size > 0,
    ensures
        r == (size * width * height <= isize::MAX),
{
    let area = match (width as usize).checked_mul(height as usize) {
        Some(area) => area,
        None => {
            assert(size * width * height > isize::MAX) by (nonlinear_arith)
                requires
                    width * height > usize::MAX,
                    usize::MAX >= isize::MAX,
                    size > 0,
            ;
            return false;
        },
    };
    match area.checked_mul(size) {
        Some(bytes) => {
            assert(size * width * height == area * size) by (nonlinear_arith)
                requires
                    area == width * height,
            ;
            bytes <= isize::MAX as usize
        },
        None => {
            assert(size * width * height == area * size) by (nonlinear_arith)
                requires
                    area == width * height,
            ;
            false
        },
    }
}

/// Every pixel of the screen is listed exactly once: the pixel in column `x`
/// and row `y` stands at place `x * height + y`, and nowhere else.
pub proof fn lemma_grid_lists_each_pixel_once(width: int, height: int, x: int, y: int)
    requires
        0 <= x < width <= i32::MAX,
        0 <= y < height <= i32::MAX,
    ensures
        grid(width, height).len() == width * height,
        0 <= x * height + y < width * height,
        grid(width, height)[x * height + y] == (x as i32, y as i32),
        forall|k: int|
            0 <= k < width * height && #[trigger] grid(width, height)[k] == (x as i32, y as i32)
                ==> k == x * height + y,
{
    let place = x * height + y;
    assert(0 <= place < width * height) by (nonlinear_arith)
        requires
            place == x * height + y,
            0 <= x < width,
            0 <= y < height,
    ;
    assert(place / height == x && place % height == y) by (nonlinear_arith)
        requires
            place == x * height + y,
            0 <= x,
            0 <= y < height,
    ;
    assert forall|k: int|
        0 <= k < width * height && #[trigger] grid(width, height)[k] == (
            x as i32,
            y as i32,
        ) implies k == place by {
        assert(0 <= k / height < width && 0 <= k % height < height && k == (k / height) * height
            + k % height) by (nonlinear_arith)
            requires
                0 <= k < width * height,
                0 < height,
                0 < width,
        ;
    }
}

/// Where a pixel lies from the centre of the screen, in half pixels: to
/// the right by the first number, upward by the second. The centre lies
/// half the width from the left and half the height from the top, which on
/// a screen of odd extent falls between two pixels; the offsets are given
/// doubled so that they stay whole. Rows are counted from the top.
pub open spec fn spec_screen_offset(width: u32, height: u32, x: i32, y: i32) -> (i64, i64) {
    ((2 * x - width) as i64, (height - 2 * y) as i64)
}

/// Finds twice the offset of a pixel from the centre of the screen. The
/// pixel need not lie on the screen. Halving the two numbers is exact in
/// binary floating point.
pub fn screen_offset(width: u32, height: u32, x: i32, y: i32) -> (offset: (i64, i64))
    ensures
        offset == spec_screen_offset(width, height, x, y),
        offset.0 == 2 * x - width,
        offset.1 == height - 2 * y,
{
    (2 * (x as i64) - (width as i64), (height as i64) - 2 * (y as i64))
}

/// A traced pixel: its column, its row, and its colour.
pub type Traced = (i32, i32, Rgb);

/// The traced pixel lies on a screen of the given extent.
pub open spec fn on_screen(width: u32, height: u32, traced: Traced) -> bool {
    0 <= traced.0 < width && 0 <= traced.1 < height
}

/// What the place `(x, y)` of a frame shows once the first `upto` traced
/// pixels are painted: the colour of the last of them that lies there, and
/// the blank colour where none does.
pub open spec fn painted(pixels: Seq<Traced>, upto: int, x: int, y: int) -> Pixel
    decreases upto,
{
    if upto <= 0 {
        blank()
    } else if pixels[upto - 1].0 == x && pixels[upto - 1].1 == y {
        (pixels[upto - 1].2.0, pixels[upto - 1].2.1, pixels[upto - 1].2.2, 255u8)
    } else {
        painted(pixels, upto - 1, x, y)
    }
}

/// The frame can be made: it is small enough to store, and every traced
/// pixel lies on it.
pub open spec fn paintable(width: u32, height: u32, pixels: Seq<Traced>) -> bool {
    &&& 3 * width * height <= isize::MAX
    &&& forall|k: int| 0 <= k < pixels.len() ==> on_screen(width, height, #[trigger] pixels[k])
}

/// Paints the traced pixels into a new frame, in their order. `None` says
/// that the frame cannot be made.
pub fn paint(width: u32, height: u32, pixels: &Vec<Traced>) -> (frame: Option<DynamicImage>)
    ensures
        frame is Some <==> paintable(width, height, pixels@),
        frame matches Some(image) ==> {
            &&& image_extent(image) == (width as nat, height as nat)
            &&& image_is_rgb(image)
            &&& forall|x: int, y: int|
                0 <= x < width && 0 <= y < height ==> #[trigger] image_pixels(image).dom().contains(
                    (x, y),
                )
            &&& forall|x: int, y: int|
                0 <= x < width && 0 <= y < height ==> #[trigger] image_pixels(image)[(x, y)]
                    == painted(pixels@, pixels@.len() as int, x, y)
        },
{
    if !fits(width, height, 3) {
        return None;
    }
    let mut k: usize = 0;
    while k < pixels.len()
        invariant
            k <= pixels.len(),
            forall|j: int| 0 <= j < k ==> on_screen(width, height, #[trigger] pixels@[j]),
        decreases pixels.len() - k,
    {
        let (x, y, _) = pixels[k];
        if x < 0 || y < 0 || x as u32 >= width || y as u32 >= height {
            assert(!on_screen(width, height, pixels@[k as int]));
            return None;
        }
        k = k + 1;
    }
    let mut image = new_rgb8(width, height);
    let mut k: usize = 0;
    while k < pixels.len()
        invariant
            k <= pixels.len(),
            paintable(width, height, pixels@),
            image_extent(image) == (width as nat, height as nat),
            image_is_rgb(image),
            forall|x: int, y: int|
                0 <= x < width && 0 <= y < height ==> #[trigger] image_pixels(image).dom().contains(
                    (x, y),
                ),
            forall|x: int, y: int|
                0 <= x < width && 0 <= y < height ==> #[trigger] image_pixels(image)[(x, y)]
                    == painted(pixels@, k as int, x, y),
        decreases pixels.len() - k,
    {
        let (x, y, colour) = pixels[k];
        assert(on_screen(width, height, pixels@[k as int]));
        put_pixel(&mut image, x as u32, y as u32, (colour.0, colour.1, colour.2, 255));
        k = k + 1;
    }
    Some(image)
}

/// Painted in the order of the screen, every pixel shows its own colour:
/// the colours are scattered over the frame without one touching another.
pub proof fn lemma_paint_scatters(width: u32, height: u32, pixels: Seq<Traced>, x: int, y: int)
    requires
        listable(width, height),
        pixels.len() == width * height,
        forall|k: int|
            0 <= k < pixels.len() ==> ((#[trigger] pixels[k]).0, pixels[k].1) == grid(
                width as int,
                height as int,
            )[k],
        0 <= x < width,
        0 <= y < height,
    ensures
        0 <= x * height + y < pixels.len(),
        painted(pixels, pixels.len() as int, x, y) == (
            pixels[x * height + y].2.0,
            pixels[x * height + y].2.1,
            pixels[x * height + y].2.2,
            255u8,
        ),
{
    lemma_grid_lists_each_pixel_once(width as int, height as int, x, y);
    lemma_painted_last(width, height, pixels, pixels.len() as int, x, y);
}

/// Of the first `upto` pixels of a screen's list, only the one at the place
/// of `(x, y)` paints it.
proof fn lemma_painted_last(
    width: u32,
    height: u32,
    pixels: Seq<Traced>,
    upto: int,
    x: int,
    y: int,
)
    requires
        listable(width, height),
        pixels.len() == width * height,
        forall|k: int|
            0 <= k < pixels.len() ==> ((#[trigger] pixels[k]).0, pixels[k].1) == grid(
                width as int,
                height as int,
            )[k],
        0 <= x < width,
        0 <= y < height,
        0 <= upto <= pixels.len(),
    ensures
        painted(pixels, upto, x, y) == if upto > x * height + y {
            (
                pixels[x * height + y].2.0,
                pixels[x * height + y].2.1,
                pixels[x * height + y].2.2,
                255u8,
            )
        } else {
            blank()
        },
    decreases upto,
{
    lemma_grid_lists_each_pixel_once(width as int, height as int, x, y);
    if upto > 0 {
        lemma_painted_last(width, height, pixels, upto - 1, x, y);
        let last = pixels[upto - 1];
        assert((last.0, last.1) == grid(width as int, height as int)[upto - 1]);
        if last.0 == x && last.1 == y {
            assert(grid(width as int, height as int)[upto - 1] == (x as i32, y as i32));
        }
    }
}

} // verus!
