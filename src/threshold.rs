use vstd::prelude::*;

use crate::image::{ImageData, ImageKind};

verus! {

/// How a one-channel image is binarised for display.
#[derive(Clone, Copy, Debug, PartialEq, Eq, Structural)]
pub enum Threshold {
    Disabled,
    Binary,
    BinaryInv,
}

impl Default for Threshold {
    fn default() -> (r: Self)
        ensures
            r == Threshold::Disabled,
    {
        Threshold::Disabled
    }
}

/// Thresholding policy of one inspected image.
#[derive(Clone, Copy, Debug, PartialEq, Eq, Structural)]
pub struct ThrSettings {
    pub kind: Threshold,
    pub value: u8,
}

impl ThrSettings {
    /// No thresholding, cutoff zero.
    pub open spec fn is_default(&self) -> bool {
        self.kind == Threshold::Disabled && self.value == 0
    }
}

impl Default for ThrSettings {
    fn default() -> (r: Self)
        ensures
            r.is_default(),
    {
        ThrSettings { kind: Threshold::default(), value: 0 }
    }
}

/// Low and high output samples of a binarised image.
pub const THRESHOLD_LOW: u8 = 0;

pub const THRESHOLD_HIGH: u8 = 255;

/// Every sample at or above `cutoff` goes to the high value and the others to
/// the low one; `inverted` exchanges the two.
pub open spec fn binarized(pixels: Seq<u8>, cutoff: u8, inverted: bool) -> Seq<u8> {
    Seq::new(
        pixels.len(),
        |i: int|
            if (pixels[i] >= cutoff) != inverted {
                THRESHOLD_HIGH
            } else {
                THRESHOLD_LOW
            },
    )
}

/// Binarised copy of a one-channel image under `thr`. `None` when there is
/// nothing to compute: the policy is `Threshold::Disabled` (the image is shown
/// as it is) or the image has three channels.
pub fn apply_threshold(image: &ImageKind, thr: &ThrSettings) -> (r: Option<ImageKind>)
    requires
        image.wf(),
    ensures
        r is Some <==> (image is OneChannel && thr.kind != Threshold::Disabled),
        r matches Some(out) ==> {
            &&& out is OneChannel
            &&& out.wf()
            &&& out.data().width == image.data().width
            &&& out.data().height == image.data().height
            &&& out.data().pixels@ == binarized(
                image.data().pixels@,
                thr.value,
                thr.kind == Threshold::BinaryInv,
            )
        },
{
    let inverted = match thr.kind {
        Threshold::Disabled => {
            return None;
        },
        Threshold::Binary => false,
        Threshold::BinaryInv => true,
    };
    match image {
        ImageKind::ThreeChannel(_) => None,
        ImageKind::OneChannel(img) => {
            let n = img.pixels.len();
            let mut out: Vec<u8> = Vec::with_capacity(n);
            let mut i: usize = 0;
            while i < n
                invariant
                    n == img.pixels@.len(),
                    i <= n,
                    out@ == binarized(img.pixels@, thr.value, inverted).take(i as int),
                decreases n - i,
            {
                let high = (img.pixels[i] >= thr.value) != inverted;
                out.push(if high { THRESHOLD_HIGH } else { THRESHOLD_LOW });
                i = i + 1;
                assert(out@ =~= binarized(img.pixels@, thr.value, inverted).take(i as int));
            }
            assert(out@ =~= binarized(img.pixels@, thr.value, inverted));
            Some(ImageKind::OneChannel(ImageData { width: img.width, height: img.height, pixels: out }))
        },
    }
}

} // verus!
