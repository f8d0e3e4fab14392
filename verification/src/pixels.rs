//! Pixel grids of the `image` crate, as far as the tracer reads and writes
//! them. Nothing in this file is proved: each contract states what the
//! crate's source shows of the function named above it.
use vstd::prelude::*;
use image::{DynamicImage, GenericImage, GenericImageView, Rgba};

verus! {

/// A pixel as the grid hands it out: red, green, blue and alpha.
pub type Pixel = (u8, u8, u8, u8);

#[verifier::external_type_specification]
#[verifier::external_body]
pub struct ExDynamicImage(image::DynamicImage);

/// Width and height of a grid, in pixels.
pub uninterp spec fn image_extent(image: DynamicImage) -> (nat, nat);

/// What a grid holds: for each column `x` and row `y` inside it, at
/// `(x, y)`, the pixel that reading there gives. Places outside the grid
/// hold nothing.
pub uninterp spec fn image_pixels(image: DynamicImage) -> Map<(int, int), Pixel>;

/// The grid stores three bytes a pixel, red, green and blue, and no alpha.
pub uninterp spec fn image_is_rgb(image: DynamicImage) -> bool;

/// The place `(x, y)` lies inside the grid.
pub open spec fn inside(image: DynamicImage, x: int, y: int) -> bool {
    0 <= x < image_extent(image).0 && 0 <= y < image_extent(image).1
}

/// `Clone::clone` of a `DynamicImage`: a grid of the same kind and extent
/// that holds the same pixels.
pub assume_specification[ <image::DynamicImage as std::clone::Clone>::clone ](
    image: &image::DynamicImage,
) -> (copy: image::DynamicImage)
    ensures
        image_extent(copy) == image_extent(*image),
        image_pixels(copy) == image_pixels(*image),
        image_is_rgb(copy) == image_is_rgb(*image),
;

/// `GenericImageView::width` of a `DynamicImage`: the width that the grid
/// was made with.
#[verifier::external_body]
pub(crate) fn width(image: &DynamicImage) -> (w: u32)
    ensures
        w == image_extent(*image).0,
{
    image.width()
}

/// `GenericImageView::height` of a `DynamicImage`: the height that the grid
/// was made with.
#[verifier::external_body]
pub(crate) fn height(image: &DynamicImage) -> (h: u32)
    ensures
        h == image_extent(*image).1,
{
    image.height()
}

/// `GenericImageView::get_pixel` of a `DynamicImage`: the pixel at a place
/// inside the grid, its channels converted to bytes. Outside the grid the
/// function panics.
#[verifier::external_body]
pub(crate) fn get_pixel(image: &DynamicImage, x: u32, y: u32) -> (pixel: Pixel)
    requires
        inside(*image, x as int, y as int),
    ensures
        image_pixels(*image).contains_pair((x as int, y as int), pixel),
{
    let Rgba([r, g, b, a]) = image.get_pixel(x, y);
    (r, g, b, a)
}

/// `DynamicImage::new_rgb8`: a grid of the given extent that stores red,
/// green and blue, every byte zero, so that each pixel reads as opaque
/// black. The function panics where the bytes outnumber what a vector holds.
#[verifier::external_body]
pub(crate) fn new_rgb8(width: u32, height: u32) -> (image: DynamicImage)
    requires
        3 * width * height <= isize::MAX,
    ensures
        image_extent(image) == (width as nat, height as nat),
        image_is_rgb(image),
        forall|x: int, y: int|
            0 <= x < width && 0 <= y < height ==> #[trigger] image_pixels(image).dom().contains(
                (x, y),
            ),
        forall|x: int, y: int|
            0 <= x < width && 0 <= y < height ==> #[trigger] image_pixels(image)[(x, y)] == (
                0u8,
                0u8,
                0u8,
                255u8,
            ),
{
    DynamicImage::new_rgb8(width, height)
}

/// `GenericImage::put_pixel` of a `DynamicImage` that stores red, green and
/// blue: the three colour bytes are stored at the place, the alpha is
/// dropped, and the place reads as opaque from then on. Nothing else
/// changes. Outside the grid the function panics.
#[verifier::external_body]
pub(crate) fn put_pixel(image: &mut DynamicImage, x: u32, y: u32, pixel: Pixel)
    requires
        image_is_rgb(*old(image)),
        inside(*old(image), x as int, y as int),
    ensures
        image_extent(*final(image)) == image_extent(*old(image)),
        image_is_rgb(*final(image)),
        image_pixels(*final(image)) == image_pixels(*old(image)).insert(
            (x as int, y as int),
            (pixel.0, pixel.1, pixel.2, 255u8),
        ),
{
    image.put_pixel(x, y, Rgba([pixel.0, pixel.1, pixel.2, pixel.3]))
}

} // verus!
