use vstd::prelude::*;

verus! {

/// A width x height grid of 8-bit samples, stored row-major, channel-last.
pub struct ImageData {
    pub width: usize,
    pub height: usize,
    pub pixels: Vec<u8>,
}

impl ImageData {
    /// The grid holds `channels` samples per pixel and no dimension is zero.
    pub open spec fn wf_with(&self, channels: nat) -> bool {
        &&& self.width > 0
        &&& self.height > 0
        &&& self.pixels@.len() == self.width * self.height * channels
    }
}

/// Whether both dimensions are positive and `len` is exactly
/// `width * height * channels`.
pub fn fits_grid(width: usize, height: usize, channels: usize, len: usize) -> (r: bool)
    requires
        channels > 0,
    ensures
        r == (width > 0 && height > 0 && len == width * height * channels),
{
    if width == 0 || height == 0 {
        return false;
    }
    match width.checked_mul(height) {
        None => {
            proof {
                assert(width * height * channels >= width * height) by (nonlinear_arith)
                    requires
                        channels > 0,
                ;
            }
            false
        },
        Some(area) => match area.checked_mul(channels) {
            None => false,
            Some(n) => n == len,
        },
    }
}

/// An image whose variant is its channel count.
pub enum ImageKind {
    OneChannel(ImageData),
    ThreeChannel(ImageData),
}

impl ImageKind {
    pub open spec fn data(&self) -> ImageData {
        match self {
            ImageKind::OneChannel(d) => *d,
            ImageKind::ThreeChannel(d) => *d,
        }
    }

    pub open spec fn channels(&self) -> nat {
        match self {
            ImageKind::OneChannel(_) => 1,
            ImageKind::ThreeChannel(_) => 3,
        }
    }

    pub open spec fn wf(&self) -> bool {
        self.data().wf_with(self.channels())
    }

    /// Builds a one-channel image; `None` when a dimension is zero or the
    /// buffer length is not `width * height`.
    pub fn one_channel(width: usize, height: usize, pixels: Vec<u8>) -> (r: Option<ImageKind>)
        ensures
            r is Some <==> (width > 0 && height > 0 && pixels@.len() == width * height),
            r matches Some(img) ==> (img.wf() && img == ImageKind::OneChannel(
                ImageData { width, height, pixels },
            )),
    {
        if fits_grid(width, height, 1, pixels.len()) {
            Some(ImageKind::OneChannel(ImageData { width, height, pixels }))
        } else {
            None
        }
    }

    /// Builds a three-channel image; `None` when a dimension is zero or the
    /// buffer length is not `width * height * 3`.
    pub fn three_channel(width: usize, height: usize, pixels: Vec<u8>) -> (r: Option<ImageKind>)
        ensures
            r is Some <==> (width > 0 && height > 0 && pixels@.len() == width * height * 3),
            r matches Some(img) ==> (img.wf() && img == ImageKind::ThreeChannel(
                ImageData { width, height, pixels },
            )),
    {
        if fits_grid(width, height, 3, pixels.len()) {
            Some(ImageKind::ThreeChannel(ImageData { width, height, pixels }))
        } else {
            None
        }
    }

    pub fn num_channels(&self) -> (r: usize)
        ensures
            r == self.channels(),
    {
        match self {
            ImageKind::OneChannel(_) => 1,
            ImageKind::ThreeChannel(_) => 3,
        }
    }

    pub fn width(&self) -> (r: usize)
        ensures
            r == self.data().width,
    {
        match self {
            ImageKind::OneChannel(img) => img.width,
            ImageKind::ThreeChannel(img) => img.width,
        }
    }

    pub fn height(&self) -> (r: usize)
        ensures
            r == self.data().height,
    {
        match self {
            ImageKind::OneChannel(img) => img.height,
            ImageKind::ThreeChannel(img) => img.height,
        }
    }
}

} // verus!
