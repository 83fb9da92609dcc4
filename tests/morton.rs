use tile_split::{coord_of, index_of};

#[test]
fn morton_known_values() {
    assert_eq!(index_of(0, 0), 0);
    assert_eq!(index_of(1, 0), 1);
    assert_eq!(index_of(0, 1), 2);
    assert_eq!(index_of(1, 1), 3);
    assert_eq!(index_of(3, 7), 0b101_111);
    assert_eq!(coord_of(0b101_111), (3, 7));
    assert_eq!(coord_of(4), (2, 0));
    assert_eq!(coord_of(u32::MAX), (65535, 65535));
    assert_eq!(index_of(65535, 65535), u32::MAX);
}

#[test]
fn morton_round_trip() {
    for x in (0..65536u32).step_by(97) {
        for y in (0..65536u32).step_by(89) {
            assert_eq!(coord_of(index_of(x, y)), (x, y));
        }
    }
    for i in (0..u32::MAX).step_by(7_919_993) {
        let (x, y) = coord_of(i);
        assert_eq!(index_of(x, y), i);
    }
}

#[test]
fn morton_bijection_on_a_level() {
    let z = 4u32;
    let side = 1u32 << z;
    let mut seen = vec![false; (side * side) as usize];
    for i in 0..(1u32 << (2 * z)) {
        let (x, y) = coord_of(i);
        assert!(x < side && y < side);
        let cell = (y * side + x) as usize;
        assert!(!seen[cell]);
        seen[cell] = true;
    }
    assert!(seen.iter().all(|s| *s));
}
