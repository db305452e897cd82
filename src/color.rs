use vstd::prelude::*;

use kornia::image::allocator::CpuAllocator;
use kornia::image::{Image, ImageSize};
use kornia::imgproc::color::{bgr_from_rgb, rgb_from_gray};

use crate::image::{ImageData, ImageKind};

verus! {

/// The colour-space changes the viewer offers.
pub enum ColorSpaceChange {
    BGR2RGB,
    RGB2GRAY,
    RGB2HSV,
    GRAY2RGB,
}

/// Each gray sample repeated into the three channels of its pixel.
pub open spec fn rgb_of_gray(gray: Seq<u8>) -> Seq<u8> {
    Seq::new(3 * gray.len(), |j: int| gray[j / 3])
}

/// First and third channel of every pixel exchanged, the second kept.
pub open spec fn swap_red_blue(rgb: Seq<u8>) -> Seq<u8> {
    Seq::new(rgb.len(), |j: int| rgb[3 * (j / 3) + 2 - j % 3])
}

/// Relies on kornia::imgproc::color::rgb_from_gray: every output pixel holds
/// the gray sample of its place in all three channels.
#[verifier::external_body]
fn kornia_rgb_from_gray(width: usize, height: usize, gray: &Vec<u8>) -> (r: Vec<u8>)
    requires
        width > 0,
        height > 0,
        gray@.len() == width * height,
    ensures
        r@ == rgb_of_gray(gray@),
{
    let size = ImageSize { width, height };
    let src = Image::<u8, 1, _>::new(size, gray.clone(), CpuAllocator).unwrap();
    let mut dst = Image::<u8, 3, _>::from_size_val(size, 0, CpuAllocator).unwrap();
    rgb_from_gray(&src, &mut dst).unwrap();
    dst.into_vec()
}

/// Relies on kornia::imgproc::color::bgr_from_rgb: every output pixel holds
/// the channels of its input pixel in reverse order.
#[verifier::external_body]
fn kornia_bgr_from_rgb(width: usize, height: usize, rgb: &Vec<u8>) -> (r: Vec<u8>)
    requires
        width > 0,
        height > 0,
        rgb@.len() == width * height * 3,
    ensures
        r@ == swap_red_blue(rgb@),
{
    let size = ImageSize { width, height };
    let src = Image::<u8, 3, _>::new(size, rgb.clone(), CpuAllocator).unwrap();
    let mut dst = Image::<u8, 3, _>::from_size_val(size, 0, CpuAllocator).unwrap();
    bgr_from_rgb(&src, &mut dst).unwrap();
    dst.into_vec()
}

impl ImageKind {
    /// Three-channel copy of a one-channel image; `None` for a three-channel one.
    pub fn gray_to_rgb(&self) -> (r: Option<ImageKind>)
        requires
            self.wf(),
        ensures
            r is Some <==> self is OneChannel,
            r matches Some(out) ==> {
                &&& out is ThreeChannel
                &&& out.wf()
                &&& out.data().width == self.data().width
                &&& out.data().height == self.data().height
                &&& out.data().pixels@ == rgb_of_gray(self.data().pixels@)
            },
    {
        match self {
            ImageKind::OneChannel(img) => {
                assert(img.width * img.height * 1 == img.width * img.height) by (nonlinear_arith);
                let pixels = kornia_rgb_from_gray(img.width, img.height, &img.pixels);
                proof {
                    assert(pixels@.len() == img.width * img.height * 3) by (nonlinear_arith)
                        requires
                            pixels@.len() == 3 * img.pixels@.len(),
                            img.pixels@.len() == img.width * img.height,
                    ;
                }
                Some(ImageKind::ThreeChannel(ImageData { width: img.width, height: img.height, pixels }))
            },
            ImageKind::ThreeChannel(_) => None,
        }
    }

    /// Copy with red and blue exchanged; `None` for a one-channel image.
    pub fn bgr_to_rgb(&self) -> (r: Option<ImageKind>)
        requires
            self.wf(),
        ensures
            r is Some <==> self is ThreeChannel,
            r matches Some(out) ==> {
                &&& out is ThreeChannel
                &&& out.wf()
                &&& out.data().width == self.data().width
                &&& out.data().height == self.data().height
                &&& out.data().pixels@ == swap_red_blue(self.data().pixels@)
            },
    {
        match self {
            ImageKind::ThreeChannel(img) => {
                let pixels = kornia_bgr_from_rgb(img.width, img.height, &img.pixels);
                Some(ImageKind::ThreeChannel(ImageData { width: img.width, height: img.height, pixels }))
            },
            ImageKind::OneChannel(_) => None,
        }
    }

    /// One-channel image of the given luma samples, with the size of this
    /// RGB image. The samples come from a floating-point luma reduction made
    /// outside the library; `None` for a one-channel image or when there is
    /// not exactly one sample per pixel.
    pub fn rgb_to_gray(&self, gray: Vec<u8>) -> (r: Option<ImageKind>)
        requires
            self.wf(),
        ensures
            r is Some <==> (self is ThreeChannel && gray@.len() * 3 == self.data().pixels@.len()),
            r matches Some(out) ==> {
                &&& out is OneChannel
                &&& out.wf()
                &&& out.data().width == self.data().width
                &&& out.data().height == self.data().height
                &&& out.data().pixels == gray
            },
    {
        match self {
            ImageKind::ThreeChannel(img) => {
                if gray.len() == img.pixels.len() / 3 && img.pixels.len() % 3 == 0 {
                    assert(gray@.len() == img.width * img.height * 1) by (nonlinear_arith)
                        requires
                            gray@.len() == img.pixels@.len() / 3,
                            img.pixels@.len() == img.width * img.height * 3,
                    ;
                    Some(ImageKind::OneChannel(ImageData { width: img.width, height: img.height, pixels: gray }))
                } else {
                    None
                }
            },
            ImageKind::OneChannel(_) => None,
        }
    }

    /// Three-channel image of the given HSV samples, with the size of this
    /// RGB image. The samples come from a floating-point conversion made
    /// outside the library; `None` for a one-channel image or when their
    /// count is not that of this image.
    pub fn rgb_to_hsv(&self, hsv: Vec<u8>) -> (r: Option<ImageKind>)
        requires
            self.wf(),
        ensures
            r is Some <==> (self is ThreeChannel && hsv@.len() == self.data().pixels@.len()),
            r matches Some(out) ==> {
                &&& out is ThreeChannel
                &&& out.wf()
                &&& out.data().width == self.data().width
                &&& out.data().height == self.data().height
                &&& out.data().pixels == hsv
            },
    {
        match self {
            ImageKind::ThreeChannel(img) => {
                if hsv.len() == img.pixels.len() {
                    Some(ImageKind::ThreeChannel(ImageData { width: img.width, height: img.height, pixels: hsv }))
                } else {
                    None
                }
            },
            ImageKind::OneChannel(_) => None,
        }
    }
}

/// Whether `color` applies to `src`: the change is defined for its channel
/// count, and for the luma and HSV changes the samples computed outside the
/// library are there, one per pixel for luma and one per sample of `src` for
/// HSV.
pub open spec fn color_change_defined(
    src: ImageKind,
    color: ColorSpaceChange,
    samples: Option<Vec<u8>>,
) -> bool {
    match color {
        ColorSpaceChange::GRAY2RGB => src is OneChannel,
        ColorSpaceChange::BGR2RGB => src is ThreeChannel,
        ColorSpaceChange::RGB2GRAY => src is ThreeChannel && (samples matches Some(g) && g@.len()
            * 3 == src.data().pixels@.len()),
        ColorSpaceChange::RGB2HSV => src is ThreeChannel && (samples matches Some(h) && h@.len()
            == src.data().pixels@.len()),
    }
}

/// `out` is the image that `color` derives from `src`: same width and height,
/// the target channel count, and the samples of that change.
pub open spec fn is_color_change(
    src: ImageKind,
    color: ColorSpaceChange,
    samples: Option<Vec<u8>>,
    out: ImageKind,
) -> bool {
    &&& out.wf()
    &&& out.data().width == src.data().width
    &&& out.data().height == src.data().height
    &&& match color {
        ColorSpaceChange::GRAY2RGB => out is ThreeChannel && out.data().pixels@ == rgb_of_gray(
            src.data().pixels@,
        ),
        ColorSpaceChange::BGR2RGB => out is ThreeChannel && out.data().pixels@ == swap_red_blue(
            src.data().pixels@,
        ),
        ColorSpaceChange::RGB2GRAY => out is OneChannel && (samples matches Some(g)
            && out.data().pixels@ == g@),
        ColorSpaceChange::RGB2HSV => out is ThreeChannel && (samples matches Some(h)
            && out.data().pixels@ == h@),
    }
}

impl ImageKind {
    /// The image that `color` derives from this one, or `None` where the
    /// change is not defined for its channel count. `samples` holds the output
    /// samples of a luma or HSV conversion, computed outside the library, and
    /// is read for `RGB2GRAY` and `RGB2HSV` alone.
    pub fn change_color(&self, color: ColorSpaceChange, samples: Option<Vec<u8>>) -> (r: Option<ImageKind>)
        requires
            self.wf(),
        ensures
            r is Some <==> color_change_defined(*self, color, samples),
            r matches Some(out) ==> is_color_change(*self, color, samples, out),
    {
        match color {
            ColorSpaceChange::GRAY2RGB => self.gray_to_rgb(),
            ColorSpaceChange::BGR2RGB => self.bgr_to_rgb(),
            ColorSpaceChange::RGB2GRAY => match samples {
                Some(g) => self.rgb_to_gray(g),
                None => None,
            },
            ColorSpaceChange::RGB2HSV => match samples {
                Some(h) => self.rgb_to_hsv(h),
                None => None,
            },
        }
    }
}

} // verus!
