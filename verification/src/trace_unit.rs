use vstd::prelude::*;

verus! {

/// The number of paths to trace in one batch.
pub const NUMBER_OF_PHOTONS: usize = 1024 * 512;

/// Represents a photon that has been traced.
///
/// Every field holds the IEEE 754 bit pattern of a 32-bit float; the tracer
/// that fills the record and the plotter that reads it do the float
/// arithmetic, while this crate moves the records around exactly.
#[derive(Clone, Copy, PartialEq, Eq, Structural, Debug)]
pub struct MappedPhoton {
    /// The screen position x-coordinate.
    pub x: u32,

    /// The screen position y-coordinate.
    pub y: u32,

    /// The probability that a simulated photon hit the screen
    /// at this position.
    pub probability: u32,

    /// The wavelength of the simulated photon (in nm).
    pub wavelength: u32,
}

impl MappedPhoton {
    /// True when every field holds the bit pattern of +0.0f32.
    pub open spec fn is_zero(self) -> bool {
        self.x == 0 && self.y == 0 && self.probability == 0 && self.wavelength == 0
    }

    /// The all-zero record; +0.0f32 has bit pattern 0.
    pub fn new() -> (r: MappedPhoton)
        ensures
            r.is_zero(),
    {
        MappedPhoton { x: 0, y: 0, probability: 0, wavelength: 0 }
    }
}

/// Owns one batch worth of mapped photons.
///
/// The batch array is allocated once, at construction, and refilled in place
/// by the render operation; it is never resized. The canvas dimensions are
/// kept so the renderer can derive the aspect ratio.
pub struct TraceUnit {
    /// The width of the image that will be rendered (in pixels).
    pub image_width: u32,

    /// The height of the image that will be rendered (in pixels).
    pub image_height: u32,

    /// The photons that were rendered.
    pub mapped_photons: Vec<MappedPhoton>,

    /// An ID for identifying this unit in the UI.
    pub id: usize,
}

impl TraceUnit {
    /// The batch array always holds exactly one full batch.
    pub open spec fn wf(self) -> bool {
        self.mapped_photons@.len() == NUMBER_OF_PHOTONS
    }

    /// Creates a new trace unit with an all-zero photon batch.
    pub fn new(id: usize, width: u32, height: u32) -> (r: TraceUnit)
        ensures
            r.wf(),
            r.id == id,
            r.image_width == width,
            r.image_height == height,
            forall|i: int|
                0 <= i < r.mapped_photons@.len() ==> (#[trigger] r.mapped_photons@[i]).is_zero(),
    {
        let mut photons: Vec<MappedPhoton> = Vec::new();
        let mut n: usize = 0;
        while n < NUMBER_OF_PHOTONS
            invariant
                n <= NUMBER_OF_PHOTONS,
                photons@.len() == n,
                forall|i: int| 0 <= i < photons@.len() ==> (#[trigger] photons@[i]).is_zero(),
            decreases NUMBER_OF_PHOTONS - n,
        {
            photons.push(MappedPhoton::new());
            n = n + 1;
        }
        TraceUnit { image_width: width, image_height: height, mapped_photons: photons, id }
    }
}

} // verus!
