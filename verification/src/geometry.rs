use vstd::prelude::*;

verus! {

/// An intersection of two volumes/surfaces, the boolean 'and'.
///
/// The intersection arithmetic itself is the caller's floating-point work;
/// this type owns the pairing, and the caller builds prisms and thick
/// planes by nesting it.
pub struct Compound<T1, T2> {
    /// The first of the two surfaces.
    pub surface1: T1,
    /// The second of the two surfaces.
    pub surface2: T2,
}

impl<T1, T2> Compound<T1, T2> {
    /// Creates a new object which is the intersection of the two
    /// specified objects.
    pub fn new(s1: T1, s2: T2) -> (r: Compound<T1, T2>)
        ensures
            r.surface1 == s1,
            r.surface2 == s2,
    {
        Compound { surface1: s1, surface2: s2 }
    }
}

} // verus!
