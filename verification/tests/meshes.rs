use rust_gravity_3d::grid::{GridGenerator, GRID_DIVISIONS};
use rust_gravity_3d::sphere::{generate_sphere_corners, generate_sphere_indices};

#[test]
fn grid_with_one_division() {
    assert_eq!(
        GridGenerator::create_grid_lattice(1),
        vec![(0, 0), (1, 0), (0, 1), (1, 1), (0, 0), (0, 1), (1, 0), (1, 1)]
    );
}

#[test]
fn grid_with_two_divisions() {
    let points = GridGenerator::create_grid_lattice(2);
    assert_eq!(points.len(), 24);
    assert_eq!(&points[0..4], &[(0, 0), (1, 0), (1, 0), (2, 0)]);
    assert_eq!(&points[10..12], &[(1, 2), (2, 2)]);
    assert_eq!(&points[12..16], &[(0, 0), (0, 1), (0, 1), (0, 2)]);
    assert_eq!(&points[22..24], &[(2, 1), (2, 2)]);
}

#[test]
fn empty_grid_without_divisions() {
    assert!(GridGenerator::create_grid_lattice(0).is_empty());
    assert!(GridGenerator::create_grid_lattice(-3).is_empty());
}

#[test]
fn default_grid_segments_are_unit_edges() {
    let d = GRID_DIVISIONS;
    let points = GridGenerator::create_grid_lattice(d);
    assert_eq!(points.len(), (4 * d * (d + 1)) as usize);
    let mut seen = std::collections::HashSet::new();
    for pair in points.chunks(2) {
        let (a, b) = (pair[0], pair[1]);
        assert!(0 <= a.0 && a.0 <= d && 0 <= a.1 && a.1 <= d);
        assert!(0 <= b.0 && b.0 <= d && 0 <= b.1 && b.1 <= d);
        assert!((b.0 - a.0, b.1 - a.1) == (1, 0) || (b.0 - a.0, b.1 - a.1) == (0, 1));
        assert!(seen.insert((a, b)));
    }
    assert_eq!(seen.len(), (2 * d * (d + 1)) as usize);
}

#[test]
fn sphere_indices_small() {
    assert_eq!(generate_sphere_indices(2, 2), vec![1, 3, 4, 2, 4, 5, 3, 6, 4, 4, 7, 5]);
}

#[test]
fn sphere_indices_degenerate() {
    assert!(generate_sphere_indices(0, 5).is_empty());
    assert!(generate_sphere_indices(1, 5).is_empty());
    assert!(generate_sphere_indices(3, 0).is_empty());
}

#[test]
fn sphere_indices_count_and_bounds() {
    let (stacks, sectors) = (32u32, 16u32);
    let indices = generate_sphere_indices(stacks, sectors);
    assert_eq!(indices.len(), 2976);
    assert!(indices.iter().all(|&i| i < (stacks + 1) * (sectors + 1)));
    for t in indices.chunks(3) {
        assert!(t[0] != t[1] && t[0] != t[2] && t[1] != t[2]);
    }
}

#[test]
fn sphere_corners_small() {
    assert_eq!(
        generate_sphere_corners(1, 1),
        vec![
            (0, 0), (0, 1), (1, 0), (0, 1), (1, 1), (1, 0),
            (1, 0), (1, 1), (2, 0), (1, 1), (2, 1), (2, 0),
        ]
    );
}

#[test]
fn sphere_corners_default_resolution() {
    let corners = generate_sphere_corners(10, 10);
    assert_eq!(corners.len(), 660);
    assert_eq!(&corners[6..12], &[(0, 1), (0, 2), (1, 1), (0, 2), (1, 2), (1, 1)]);
    assert!(corners.iter().all(|&(i, j)| i <= 11 && j <= 10));
    assert!(generate_sphere_corners(4, 0).is_empty());
}
