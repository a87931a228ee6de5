use camera_rig::noise::{NoiseLattice, LATTICE_SIZE};

#[test]
fn lattice_is_deterministic() {
    let a = NoiseLattice::new(5);
    let b = NoiseLattice::new(5);
    for x in -20..20 {
        for y in -20..20 {
            assert_eq!(a.corner_hash(x, y), b.corner_hash(x, y));
        }
    }
}

#[test]
fn lattice_hashes_cover_every_byte() {
    let lattice = NoiseLattice::new(5);
    let mut seen = vec![false; LATTICE_SIZE];
    for x in 0..256 {
        seen[lattice.corner_hash(x, 0) as usize] = true;
    }
    assert!(seen.iter().all(|s| *s));
}

#[test]
fn seeds_give_different_lattices() {
    let a = NoiseLattice::new(5);
    let b = NoiseLattice::new(6);
    let differs = (0..256).any(|x| a.corner_hash(x, 0) != b.corner_hash(x, 0));
    assert!(differs);
}

#[test]
fn coordinates_wrap_at_table_size() {
    let lattice = NoiseLattice::new(17);
    for (x, y) in [(0, 0), (3, 250), (-1, -1), (-300, 77)] {
        let h = lattice.corner_hash(x, y);
        assert_eq!(lattice.corner_hash(x + 256, y), h);
        assert_eq!(lattice.corner_hash(x, y - 512), h);
    }
    assert_eq!(lattice.corner_hash(-1, 0), lattice.corner_hash(255, 0));
    assert_eq!(lattice.corner_hash(i32::MIN, 0), lattice.corner_hash(0, 0));
    assert_eq!(lattice.corner_hash(i32::MAX, 0), lattice.corner_hash(255, 0));
}

#[test]
fn gradients_are_unit_steps() {
    let lattice = NoiseLattice::new(5);
    for x in -10..10 {
        for y in -10..10 {
            let (gx, gy) = lattice.corner_gradient(x, y);
            assert!((gx, gy) != (0, 0));
            assert!(gx.abs() <= 1 && gy.abs() <= 1);
            let expected = match lattice.corner_hash(x, y) % 8 {
                0 => (1, 1),
                1 => (-1, 1),
                2 => (1, -1),
                3 => (-1, -1),
                4 => (1, 0),
                5 => (-1, 0),
                6 => (0, 1),
                _ => (0, -1),
            };
            assert_eq!((gx, gy), expected);
        }
    }
}

#[test]
fn cell_gradients_match_corners() {
    let lattice = NoiseLattice::new(9);
    for (x, y) in [(0, 0), (4, -7), (255, 255), (i32::MAX, i32::MAX), (-1, 300)] {
        let g = lattice.cell_gradients(x, y);
        let x1 = x.wrapping_add(1);
        let y1 = y.wrapping_add(1);
        assert_eq!(g[0], lattice.corner_gradient(x, y));
        assert_eq!(g[1], lattice.corner_gradient(x1, y));
        assert_eq!(g[2], lattice.corner_gradient(x, y1));
        assert_eq!(g[3], lattice.corner_gradient(x1, y1));
    }
}
