//! A texture read from an image.
use vstd::prelude::*;
use image::DynamicImage;
use vstd::std_specs::convert::FromSpecImpl;
use crate::pixels::{get_pixel, height, image_extent, image_pixels, inside, width, Pixel};

verus! {

/// An image that serves as a texture.
#[derive(Debug, PartialEq)]
pub struct Image {
    pub image: DynamicImage,
}

impl Clone for Image {
    /// Copies the image: the copy shows what the image shows.
    fn clone(&self) -> (copy: Image)
        ensures
            copy.spec_width() == self.spec_width(),
            copy.spec_height() == self.spec_height(),
            forall|x: u32, y: u32| copy.spec_pixel(x, y) == self.spec_pixel(x, y),
    {
        Image { image: self.image.clone() }
    }
}

impl From<DynamicImage> for Image {
    fn from(image: DynamicImage) -> (texture: Image) {
        Image { image }
    }
}

impl FromSpecImpl<DynamicImage> for Image {
    open spec fn obeys_from_spec() -> bool {
        true
    }

    open spec fn from_spec(image: DynamicImage) -> Image {
        Image { image }
    }
}

impl Image {
    /// The image's width, in pixels.
    pub open spec fn spec_width(&self) -> u32 {
        image_extent(self.image).0 as u32
    }

    /// The image's height, in pixels.
    pub open spec fn spec_height(&self) -> u32 {
        image_extent(self.image).1 as u32
    }

    /// The pixel in column `x` of row `y`, rows counted from the top:
    /// `None` outside the image.
    pub open spec fn spec_pixel(&self, x: u32, y: u32) -> Option<Pixel> {
        if inside(self.image, x as int, y as int) {
            Some(image_pixels(self.image)[(x as int, y as int)])
        } else {
            None
        }
    }

    #[verifier::when_used_as_spec(spec_width)]
    pub fn width(&self) -> (w: u32)
        ensures
            w == self.spec_width(),
            w == image_extent(self.image).0,
    {
        width(&self.image)
    }

    #[verifier::when_used_as_spec(spec_height)]
    pub fn height(&self) -> (h: u32)
        ensures
            h == self.spec_height(),
            h == image_extent(self.image).1,
    {
        height(&self.image)
    }

    /// Reads a pixel of the image.
    #[verifier::when_used_as_spec(spec_pixel)]
    pub fn pixel(&self, x: u32, y: u32) -> (pixel: Option<Pixel>)
        ensures
            pixel == self.spec_pixel(x, y),
    {
        if x < width(&self.image) && y < height(&self.image) {
            Some(get_pixel(&self.image, x, y))
        } else {
            None
        }
    }
}

} // verus!
