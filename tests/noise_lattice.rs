use raytracer::perlin::{
    draw_swap_targets, lattice_index, perlin_generate_perm, permute, permute_with, LatticeHash,
    POINT_COUNT,
};
use raytracer::rtweekend::random_int_in_range;

fn sorted(mut v: Vec<usize>) -> Vec<usize> {
    v.sort();
    v
}

#[test]
fn generated_permutation_holds_each_index_once() {
    let p = perlin_generate_perm();
    assert_eq!(p.len(), POINT_COUNT);
    assert_eq!(sorted(p), (0..POINT_COUNT).collect::<Vec<_>>());
}

#[test]
fn permute_keeps_every_value() {
    let mut p: Vec<usize> = (0..POINT_COUNT).map(|i| (i * 7) % 13).collect();
    let before = sorted(p.clone());
    permute(&mut p);
    assert_eq!(sorted(p), before);
}

#[test]
fn permute_moves_every_entry_of_the_identity() {
    // Entry i always trades with an entry strictly below it, so no value
    // of the identity stays in place.
    let mut p: Vec<usize> = (0..POINT_COUNT).collect();
    permute(&mut p);
    assert!(p.iter().enumerate().all(|(i, &v)| i != v));
}

#[test]
fn lattice_index_wraps_like_a_euclidean_modulus() {
    assert_eq!(lattice_index(0), 0);
    assert_eq!(lattice_index(255), 255);
    assert_eq!(lattice_index(256), 0);
    assert_eq!(lattice_index(-1), 255);
    assert_eq!(lattice_index(-257), 255);
    assert_eq!(lattice_index(i64::MIN), 0);
    assert_eq!(lattice_index(i64::MAX), 255);
}

#[test]
fn corner_combines_the_three_permutations() {
    let h = LatticeHash::new();
    for &(i, j, k) in &[(0i64, 0i64, 0i64), (3, -4, 300), (-1, 255, 256)] {
        let expected = h.perm_x[lattice_index(i)] ^ h.perm_y[lattice_index(j)] ^ h.perm_z[lattice_index(k)];
        let c = h.corner(i, j, k);
        assert_eq!(c, expected);
        assert!(c < POINT_COUNT);
        assert_eq!(h.corner(i + 256, j - 512, k), c);
    }
}

#[test]
fn corner_of_fixed_tables() {
    let identity: Vec<usize> = (0..POINT_COUNT).collect();
    let reversed: Vec<usize> = (0..POINT_COUNT).rev().collect();
    let h = LatticeHash { perm_x: identity.clone(), perm_y: reversed, perm_z: identity };
    // 1 ^ (255 - 2) ^ 3 = 1 ^ 253 ^ 3 = 255
    assert_eq!(h.corner(1, 2, 3), 255);
    // -1 wraps to 255 on x, 0 stays 0: 255 ^ 255 ^ 0 = 0
    assert_eq!(h.corner(-1, 0, 0), 0);
}

#[test]
fn random_int_stays_in_its_half_open_range() {
    assert_eq!(random_int_in_range(5, 6), 5);
    assert_eq!(random_int_in_range(-3, -2), -3);
    for _ in 0..200 {
        let r = random_int_in_range(0, 10);
        assert!((0..10).contains(&r));
    }
}

#[test]
fn permute_with_all_targets_zero_rotates_left() {
    let mut p: Vec<usize> = (0..POINT_COUNT).collect();
    let targets = vec![0usize; POINT_COUNT];
    permute_with(&mut p, &targets);
    let expected: Vec<usize> = (0..POINT_COUNT).map(|i| (i + 1) % POINT_COUNT).collect();
    assert_eq!(p, expected);
}

#[test]
fn permute_with_neighbour_targets_rotates_right() {
    let mut p: Vec<usize> = (0..POINT_COUNT).collect();
    let targets: Vec<usize> = (0..POINT_COUNT).map(|k| k.saturating_sub(1)).collect();
    permute_with(&mut p, &targets);
    let expected: Vec<usize> = (0..POINT_COUNT).map(|i| (i + POINT_COUNT - 1) % POINT_COUNT).collect();
    assert_eq!(p, expected);
}

#[test]
fn permute_with_moves_values_not_positions() {
    let mut p: Vec<usize> = (0..POINT_COUNT).map(|i| 1000 + i).collect();
    let mut targets = vec![0usize; POINT_COUNT];
    targets[2] = 1;
    targets[1] = 0;
    // Entries 255 down to 3 each trade with entry 0, then 2 with 1, then 1 with 0.
    permute_with(&mut p, &targets);
    assert_eq!(&p[..5], &[1002, 1003, 1001, 1004, 1005]);
    assert_eq!(p[254], 1255);
    assert_eq!(p[255], 1000);
}

#[test]
fn drawn_targets_lie_below_their_entry() {
    for _ in 0..20 {
        let t = draw_swap_targets();
        assert_eq!(t.len(), POINT_COUNT);
        assert_eq!(t[1], 0);
        assert!((1..POINT_COUNT).all(|k| t[k] < k));
    }
}
