use robigo_luculenta::gather_unit::GatherUnit;
use robigo_luculenta::tristimulus::Tristimulus;

fn fill_pattern(unit: &mut GatherUnit, salt: u32) {
    for (i, t) in unit.tristimulus_buffer.iter_mut().enumerate() {
        let i = i as u32;
        *t = Tristimulus {
            x: salt.wrapping_mul(3).wrapping_add(i),
            y: salt.wrapping_mul(5).wrapping_add(i * 7),
            z: salt.wrapping_mul(11).wrapping_add(i * 13),
        };
    }
    for (i, t) in unit.compensation_buffer.iter_mut().enumerate() {
        let i = i as u32;
        *t = Tristimulus {
            x: salt.wrapping_add(17).wrapping_add(i),
            y: salt.wrapping_add(19).wrapping_mul(i | 1),
            z: salt.wrapping_add(23) ^ i,
        };
    }
}

fn round_trip(width: u32, height: u32) {
    let mut original = GatherUnit::new(width, height);
    fill_pattern(&mut original, width.wrapping_mul(31).wrapping_add(height));
    let bytes = original.snapshot_bytes();
    assert_eq!(bytes.len(), 24 * (width as usize) * (height as usize));

    let mut restored = GatherUnit::new(width, height);
    assert!(restored.restore_from_bytes(&bytes));
    assert_eq!(original.tristimulus_buffer, restored.tristimulus_buffer);
    assert_eq!(original.compensation_buffer, restored.compensation_buffer);
}

#[test]
fn snapshot_round_trip_1x1() {
    round_trip(1, 1);
}

#[test]
fn snapshot_round_trip_16x9() {
    round_trip(16, 9);
}

#[test]
fn snapshot_round_trip_1280x720() {
    round_trip(1280, 720);
}

#[test]
fn snapshot_bytes_are_little_endian_accumulation_then_compensation() {
    let mut unit = GatherUnit::new(1, 1);
    unit.tristimulus_buffer[0] = Tristimulus { x: 1, y: 2, z: 0x01020304 };
    unit.compensation_buffer[0] = Tristimulus { x: 4, y: 5, z: 6 };
    let bytes = unit.snapshot_bytes();
    assert_eq!(
        bytes,
        vec![
            1, 0, 0, 0, 2, 0, 0, 0, 4, 3, 2, 1, // accumulation pixel
            4, 0, 0, 0, 5, 0, 0, 0, 6, 0, 0, 0, // compensation pixel
        ]
    );
}

#[test]
fn snapshot_of_wrong_length_is_rejected() {
    let mut unit = GatherUnit::new(2, 2);
    unit.tristimulus_buffer[3] = Tristimulus { x: 9, y: 9, z: 9 };
    let short = vec![0u8; 95];
    let long = vec![0u8; 97];
    assert!(!unit.restore_from_bytes(&short));
    assert!(!unit.restore_from_bytes(&long));
    // The unit is untouched by a rejected snapshot.
    assert_eq!(unit.tristimulus_buffer[3], Tristimulus { x: 9, y: 9, z: 9 });
    // The matching length applies.
    let good = vec![0u8; 96];
    assert!(unit.restore_from_bytes(&good));
    assert_eq!(unit.tristimulus_buffer[3], Tristimulus { x: 0, y: 0, z: 0 });
}

#[test]
fn new_gather_unit_is_all_zero() {
    let unit = GatherUnit::new(3, 2);
    assert_eq!(unit.tristimulus_buffer.len(), 6);
    assert_eq!(unit.compensation_buffer.len(), 6);
    assert!(unit.tristimulus_buffer.iter().all(|t| *t == Tristimulus { x: 0, y: 0, z: 0 }));
    assert!(unit.compensation_buffer.iter().all(|t| *t == Tristimulus { x: 0, y: 0, z: 0 }));
}
