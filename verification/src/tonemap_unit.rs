use vstd::prelude::*;

verus! {

/// Owns the output image of the pipeline: `width * height` interleaved RGB
/// pixels, 8 bits per channel.
///
/// The exposure and gamma arithmetic that fills `rgb_buffer` is
/// floating-point work done by the caller; this type owns the buffer's shape
/// and lifecycle.
pub struct TonemapUnit {
    /// The width of the canvas (in pixels).
    pub image_width: u32,

    /// The height of the canvas (in pixels).
    pub image_height: u32,

    /// The buffer of sRGB values.
    pub rgb_buffer: Vec<u8>,
}

impl TonemapUnit {
    /// Three bytes per pixel.
    pub open spec fn wf(self) -> bool {
        self.rgb_buffer@.len() == self.image_width * self.image_height * 3
    }

    /// Constructs a new tonemap unit that will tonemap a canvas
    /// of the specified size. The image starts out black.
    pub fn new(width: u32, height: u32) -> (r: TonemapUnit)
        requires
            width * height * 3 <= usize::MAX,
        ensures
            r.wf(),
            r.image_width == width,
            r.image_height == height,
            forall|i: int| 0 <= i < r.rgb_buffer@.len() ==> r.rgb_buffer@[i] == 0,
    {
        let sz: usize = (width as usize) * (height as usize);
        let total: usize = sz * 3;
        let mut buf: Vec<u8> = Vec::new();
        let mut n: usize = 0;
        while n < total
            invariant
                n <= total,
                buf@.len() == n,
                forall|i: int| 0 <= i < buf@.len() ==> buf@[i] == 0,
            decreases total - n,
        {
            buf.push(0);
            n = n + 1;
        }
        TonemapUnit { image_width: width, image_height: height, rgb_buffer: buf }
    }
}

} // verus!
