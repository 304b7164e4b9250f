//! Intensity images: 8-bit grayscale, 8-bit RGB, and normalized.
use crate::codec::{from_unit, sample_of_unit, unit_of};
use vstd::prelude::*;

verus! {

/// The largest magnitude of a normalized sample that convolution accepts.
pub const MAX_LEVEL: i64 = 4294967296;

/// The mathematical model of an image or a kernel: its dimensions and its
/// cells, row-major. An image's cells are normalized samples in 255ths.
pub struct Grid {
    pub width: int,
    pub height: int,
    pub cells: Seq<int>,
}

/// An 8-bit grayscale image, one sample per pixel, row-major.
#[derive(Clone, Debug)]
pub struct GrayImage {
    pub width: u32,
    pub height: u32,
    pub data: Vec<u8>,
}

/// An 8-bit RGB image, three samples per pixel, row-major.
#[derive(Clone, Debug)]
pub struct RgbImage {
    pub width: u32,
    pub height: u32,
    pub data: Vec<u8>,
}

/// A normalized image: each sample `n` stands for `n / 255`.
#[derive(Clone, Debug)]
pub struct UnitImage {
    pub width: u32,
    pub height: u32,
    pub data: Vec<i64>,
}

impl View for GrayImage {
    type V = Grid;

    /// The normalized samples of the image.
    open spec fn view(&self) -> Grid {
        Grid {
            width: self.width as int,
            height: self.height as int,
            cells: self.data@.map_values(|u: u8| unit_of(u)),
        }
    }
}

impl View for UnitImage {
    type V = Grid;

    open spec fn view(&self) -> Grid {
        Grid {
            width: self.width as int,
            height: self.height as int,
            cells: self.data@.map_values(|v: i64| v as int),
        }
    }
}

impl GrayImage {
    /// Non-empty, and the buffer holds exactly one sample per pixel.
    pub open spec fn wf(&self) -> bool {
        self.width >= 1 && self.height >= 1 && self.data@.len() == self.width * self.height
    }
}

impl RgbImage {
    /// Non-empty, and the buffer holds exactly three samples per pixel.
    pub open spec fn wf(&self) -> bool {
        self.width >= 1 && self.height >= 1 && self.data@.len() == 3 * self.width * self.height
    }
}

impl UnitImage {
    /// Non-empty, and the buffer holds exactly one sample per pixel.
    pub open spec fn wf(&self) -> bool {
        self.width >= 1 && self.height >= 1 && self.data@.len() == self.width * self.height
    }

    /// Every sample lies within `[-MAX_LEVEL, MAX_LEVEL]`.
    pub open spec fn bounded(&self) -> bool {
        forall|i: int| 0 <= i < self.data@.len() ==> -MAX_LEVEL <= #[trigger] self.data@[i] <= MAX_LEVEL
    }
}

/// The sRGB luma of one pixel, as `image` computes it for 8-bit samples.
pub open spec fn luma(r: u8, g: u8, b: u8) -> int {
    (2126 * r + 7152 * g + 722 * b) / 10000
}

/// Relies on image::imageops::grayscale over an `ImageBuffer` of `Rgb<u8>`:
/// each output pixel is `(2126 r + 7152 g + 722 b) / 10000` of the input
/// pixel at the same place, in the same row-major order.
#[verifier::external_body]
fn grayscale_samples(width: u32, height: u32, data: &Vec<u8>) -> (r: Vec<u8>)
    requires
        data@.len() == 3 * width * height,
    ensures
        r@.len() == width * height,
        forall|i: int|
            0 <= i < r@.len() ==> #[trigger] r@[i] as int == luma(
                data@[3 * i],
                data@[3 * i + 1],
                data@[3 * i + 2],
            ),
{
    let rgb = image::ImageBuffer::<image::Rgb<u8>, Vec<u8>>::from_raw(width, height, data.clone())
        .unwrap();
    image::imageops::grayscale(&rgb).into_raw()
}

/// Converts an RGB image to grayscale by its sRGB luma.
pub fn to_grayscale(image: &RgbImage) -> (r: GrayImage)
    requires
        image.wf(),
    ensures
        r.wf(),
        r.width == image.width,
        r.height == image.height,
        forall|i: int|
            0 <= i < r.data@.len() ==> #[trigger] r.data@[i] as int == luma(
                image.data@[3 * i],
                image.data@[3 * i + 1],
                image.data@[3 * i + 2],
            ),
{
    let data = grayscale_samples(image.width, image.height, &image.data);
    GrayImage { width: image.width, height: image.height, data }
}

/// Turns a normalized image back into 8-bit samples, capping each one to the
/// sample range.
pub fn to_gray_image(image: &UnitImage) -> (r: GrayImage)
    requires
        image.wf(),
    ensures
        r.wf(),
        r.width == image.width,
        r.height == image.height,
        forall|i: int|
            0 <= i < r.data@.len() ==> #[trigger] r.data@[i] == sample_of_unit(
                image.data@[i] as int,
            ),
{
    let mut data: Vec<u8> = Vec::with_capacity(image.data.len());
    let mut i: usize = 0;
    while i < image.data.len()
        invariant
            i <= image.data@.len(),
            data@.len() == i,
            forall|j: int| 0 <= j < i ==> #[trigger] data@[j] == sample_of_unit(image.data@[j] as int),
        decreases image.data@.len() - i,
    {
        data.push(from_unit(image.data[i]));
        i = i + 1;
    }
    GrayImage { width: image.width, height: image.height, data }
}

} // verus!
