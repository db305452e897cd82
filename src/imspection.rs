use vstd::prelude::*;

use crate::color::{color_change_defined, is_color_change, ColorSpaceChange};
use crate::image::ImageKind;
use crate::threshold::ThrSettings;

verus! {

/// One inspected image with its display state.
pub struct SingleImspection {
    pub image: ImageKind,
    pub id: usize,
    pub need_rerender: bool,
    pub remove_flag: bool,
    pub thr: ThrSettings,
}

impl SingleImspection {
    /// A fresh entry: default threshold, to be drawn, not flagged.
    pub open spec fn is_fresh(&self, image: ImageKind, id: usize) -> bool {
        &&& self.image == image
        &&& self.id == id
        &&& self.need_rerender
        &&& !self.remove_flag
        &&& self.thr.is_default()
    }

    /// Fresh entry for `image` under `id`.
    pub fn new(image: ImageKind, id: usize) -> (r: SingleImspection)
        ensures
            r.is_fresh(image, id),
    {
        SingleImspection {
            image,
            id,
            need_rerender: true,
            remove_flag: false,
            thr: ThrSettings::default(),
        }
    }

    /// Fresh entry under `id` holding the image that `color` derives from this
    /// entry's image; `None` where that change is not defined. `samples`
    /// carries the outside-computed samples (see `ImageKind::change_color`).
    pub fn new_with_changed_color(
        &self,
        color: ColorSpaceChange,
        id: usize,
        samples: Option<Vec<u8>>,
    ) -> (r: Option<Self>)
        requires
            self.image.wf(),
        ensures
            r is Some <==> color_change_defined(self.image, color, samples),
            r matches Some(e) ==> {
                &&& e.id == id
                &&& e.need_rerender
                &&& !e.remove_flag
                &&& e.thr.is_default()
                &&& is_color_change(self.image, color, samples, e.image)
            },
    {
        match self.image.change_color(color, samples) {
            Some(image) => Some(SingleImspection::new(image, id)),
            None => None,
        }
    }
}

} // verus!
