use robigo_luculenta::geometry::Compound;
use robigo_luculenta::plot_unit::PlotUnit;
use robigo_luculenta::stats::isqrt;
use robigo_luculenta::tonemap_unit::TonemapUnit;
use robigo_luculenta::trace_unit::{MappedPhoton, TraceUnit, NUMBER_OF_PHOTONS};
use robigo_luculenta::tristimulus::Tristimulus;

#[test]
fn new_trace_unit_has_a_full_zero_batch() {
    let unit = TraceUnit::new(7, 16, 9);
    assert_eq!(unit.id, 7);
    assert_eq!(unit.image_width, 16);
    assert_eq!(unit.image_height, 9);
    assert_eq!(unit.mapped_photons.len(), NUMBER_OF_PHOTONS);
    let zero = MappedPhoton { x: 0, y: 0, probability: 0, wavelength: 0 };
    assert_eq!(unit.mapped_photons[0], zero);
    assert_eq!(unit.mapped_photons[NUMBER_OF_PHOTONS - 1], zero);
}

#[test]
fn new_plot_unit_is_black() {
    let unit = PlotUnit::new(3, 4, 5);
    assert_eq!(unit.id, 3);
    assert_eq!(unit.tristimulus_buffer.len(), 20);
    assert!(unit.tristimulus_buffer.iter().all(|t| *t == Tristimulus { x: 0, y: 0, z: 0 }));
}

#[test]
fn clear_resets_the_canvas() {
    let mut unit = PlotUnit::new(0, 2, 2);
    for t in unit.tristimulus_buffer.iter_mut() {
        *t = Tristimulus { x: 1, y: 2, z: 3 };
    }
    unit.clear();
    assert_eq!(unit.tristimulus_buffer.len(), 4);
    assert!(unit.tristimulus_buffer.iter().all(|t| *t == Tristimulus { x: 0, y: 0, z: 0 }));
}

#[test]
fn new_tonemap_unit_is_black() {
    let unit = TonemapUnit::new(4, 4);
    assert_eq!(unit.image_width, 4);
    assert_eq!(unit.image_height, 4);
    assert_eq!(unit.rgb_buffer.len(), 48);
    assert!(unit.rgb_buffer.iter().all(|b| *b == 0));
}

#[test]
fn compound_keeps_both_surfaces() {
    let c = Compound::new(1u32, "plane");
    assert_eq!(c.surface1, 1);
    assert_eq!(c.surface2, "plane");
    let nested = Compound::new(c, 9i64);
    assert_eq!(nested.surface1.surface1, 1);
    assert_eq!(nested.surface2, 9);
}

#[test]
fn isqrt_rounds_down() {
    assert_eq!(isqrt(0), 0);
    assert_eq!(isqrt(1), 1);
    assert_eq!(isqrt(3), 1);
    assert_eq!(isqrt(4), 2);
    assert_eq!(isqrt(15), 3);
    assert_eq!(isqrt(16), 4);
    assert_eq!(isqrt(1_000_000), 1000);
    assert_eq!(isqrt(u128::MAX), u64::MAX);
}
