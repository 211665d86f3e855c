use vstd::prelude::*;
use crate::tristimulus::{Tristimulus, zeroed_buffer};

verus! {

/// Accumulates the output of trace units onto a per-pixel CIE XYZ canvas.
///
/// The canvas is `image_width * image_height` triples in row-major order.
/// The additive splatting itself is floating-point work done by the caller
/// directly on `tristimulus_buffer`; this type owns the canvas's shape and
/// the operation of resetting it to black.
pub struct PlotUnit {
    /// The width of the canvas (in pixels).
    pub image_width: u32,

    /// The height of the canvas (in pixels).
    pub image_height: u32,

    /// The buffer of tristimulus values.
    pub tristimulus_buffer: Vec<Tristimulus>,

    /// An ID for identifying this unit in the UI.
    pub id: usize,
}

impl PlotUnit {
    /// The canvas has exactly one triple per pixel.
    pub open spec fn wf(self) -> bool {
        self.tristimulus_buffer@.len() == self.image_width * self.image_height
    }

    /// Constructs a new plot unit that will plot to a canvas of the
    /// specified size, initially all black.
    pub fn new(id: usize, width: u32, height: u32) -> (r: PlotUnit)
        requires
            width * height <= usize::MAX,
        ensures
            r.wf(),
            r.id == id,
            r.image_width == width,
            r.image_height == height,
            forall|i: int|
                0 <= i < r.tristimulus_buffer@.len() ==> (#[trigger] r.tristimulus_buffer@[i]).is_zero(),
    {
        let sz: usize = (width as usize) * (height as usize);
        PlotUnit { image_width: width, image_height: height, tristimulus_buffer: zeroed_buffer(sz), id }
    }

    /// Resets the tristimulus buffer to black.
    pub fn clear(&mut self)
        ensures
            final(self).image_width == old(self).image_width,
            final(self).image_height == old(self).image_height,
            final(self).id == old(self).id,
            final(self).tristimulus_buffer@.len() == old(self).tristimulus_buffer@.len(),
            forall|i: int|
                0 <= i < final(self).tristimulus_buffer@.len() ==> (#[trigger] final(self).tristimulus_buffer@[i]).is_zero(),
    {
        let len = self.tristimulus_buffer.len();
        let mut n: usize = 0;
        while n < len
            invariant
                n <= len,
                self.image_width == old(self).image_width,
                self.image_height == old(self).image_height,
                self.id == old(self).id,
                self.tristimulus_buffer@.len() == len,
                forall|i: int| 0 <= i < n ==> (#[trigger] self.tristimulus_buffer@[i]).is_zero(),
            decreases len - n,
        {
            self.tristimulus_buffer.set(n, Tristimulus::zero());
            n = n + 1;
        }
    }
}

} // verus!
