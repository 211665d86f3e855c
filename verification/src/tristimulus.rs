use vstd::prelude::*;

verus! {

/// A CIE XYZ tristimulus triple.
///
/// Each channel holds the IEEE 754 bit pattern of a 32-bit float. The
/// scheduler, the buffer bookkeeping and the persistence codec treat a
/// channel as an opaque 32-bit word, so every structural property about
/// buffers of these triples is exact. The floating-point arithmetic on the
/// channels is the caller's business.
#[derive(Clone, Copy, PartialEq, Eq, Structural, Debug)]
pub struct Tristimulus {
    pub x: u32,
    pub y: u32,
    pub z: u32,
}

impl Tristimulus {
    /// True when every channel holds the bit pattern of +0.0f32.
    pub open spec fn is_zero(self) -> bool {
        self.x == 0 && self.y == 0 && self.z == 0
    }

    /// The all-zero triple; +0.0f32 has bit pattern 0.
    pub fn zero() -> (r: Tristimulus)
        ensures
            r.is_zero(),
    {
        Tristimulus { x: 0, y: 0, z: 0 }
    }
}

/// A buffer of `len` all-zero tristimulus triples.
pub fn zeroed_buffer(len: usize) -> (r: Vec<Tristimulus>)
    ensures
        r@.len() == len,
        forall|i: int| 0 <= i < r@.len() ==> (#[trigger] r@[i]).is_zero(),
{
    let mut buf: Vec<Tristimulus> = Vec::new();
    let mut n: usize = 0;
    while n < len
        invariant
            n <= len,
            buf@.len() == n,
            forall|i: int| 0 <= i < buf@.len() ==> (#[trigger] buf@[i]).is_zero(),
        decreases len - n,
    {
        buf.push(Tristimulus::zero());
        n = n + 1;
    }
    buf
}

} // verus!
