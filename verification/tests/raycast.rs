//! Traversal behaviour on concrete volumes and rays, in both dimensions.

use voxel_raycast::raycast_2d::{BoundingVolume2, Ray2, Ray2hit};
use voxel_raycast::raycast_3d::{BoundingVolume3, Ray3, Ray3hit};

/// One grid unit in fixed-point steps.
const UNIT: i64 = 65536;

fn collect_2d(volume: BoundingVolume2, ray: Ray2) -> Vec<Ray2hit> {
    let mut cursor = volume.traverse_ray(ray);
    let mut hits = Vec::new();
    while let Some(h) = cursor.next() {
        hits.push(h);
    }
    hits
}

fn collect_3d(volume: BoundingVolume3, ray: Ray3) -> Vec<Ray3hit> {
    let mut cursor = volume.traverse_ray(ray);
    let mut hits = Vec::new();
    while let Some(h) = cursor.next() {
        hits.push(h);
    }
    hits
}

#[test]
fn diagonal_from_outside_crosses_the_diagonal() {
    let volume = BoundingVolume2 { size: (8, 8) };
    let ray = Ray2 {
        origin: (-10 * UNIT, -10 * UNIT),
        direction: (UNIT, UNIT),
        length: Some(100 * UNIT),
    };
    let hits = collect_2d(volume, ray);
    assert_eq!(hits.len(), 8);
    for (k, h) in hits.iter().enumerate() {
        assert_eq!(h.voxel, (k as i32, k as i32));
    }
    for w in hits.windows(2) {
        assert!(w[0].distance < w[1].distance);
    }
    assert!(hits[0].normal.is_some());
}

#[test]
fn row_outside_the_grid_yields_nothing() {
    let volume = BoundingVolume2 { size: (8, 8) };
    let ray = Ray2 {
        origin: (-UNIT, -UNIT),
        direction: (UNIT, 0),
        length: None,
    };
    let hits = collect_2d(volume, ray);
    assert_eq!(hits.len(), 0);
}

#[test]
fn short_ray_inside_single_voxel() {
    let volume = BoundingVolume2 { size: (1, 1) };
    let ray = Ray2 {
        origin: (UNIT / 2, UNIT / 2),
        direction: (UNIT, 0),
        length: Some(2 * UNIT / 5),
    };
    let hits = collect_2d(volume, ray);
    assert_eq!(hits.len(), 1);
    assert_eq!(hits[0].voxel, (0, 0));
    assert_eq!(hits[0].distance, 0);
    assert!(hits[0].normal.is_none());
}

#[test]
fn diagonal_from_outside_crosses_the_diagonal_3d() {
    let volume = BoundingVolume3 { size: (8, 8, 8) };
    let ray = Ray3 {
        origin: (-10 * UNIT, -10 * UNIT, -10 * UNIT),
        direction: (UNIT, UNIT, UNIT),
        length: Some(100 * UNIT),
    };
    let hits = collect_3d(volume, ray);
    assert_eq!(hits.len(), 8);
    for (k, h) in hits.iter().enumerate() {
        assert_eq!(h.voxel, (k as i32, k as i32, k as i32));
    }
    for w in hits.windows(2) {
        assert!(w[0].distance < w[1].distance);
    }
    assert!(hits[0].normal.is_some());
}

#[test]
fn axis_parallel_distances_are_exact() {
    let volume = BoundingVolume2 { size: (4, 4) };
    let ray = Ray2 {
        origin: (UNIT / 2, UNIT / 2),
        direction: (3 * UNIT, 0),
        length: None,
    };
    let hits = collect_2d(volume, ray);
    assert_eq!(hits.len(), 4);
    let voxels: Vec<(i32, i32)> = hits.iter().map(|h| h.voxel).collect();
    assert_eq!(voxels, vec![(0, 0), (1, 0), (2, 0), (3, 0)]);
    let distances: Vec<i64> = hits.iter().map(|h| h.distance).collect();
    assert_eq!(distances, vec![0, UNIT / 2, 3 * UNIT / 2, 5 * UNIT / 2]);
    assert_eq!(hits[0].normal, None);
    assert_eq!(hits[1].normal, Some((-1, 0)));
    assert_eq!(hits[2].normal, Some((-1, 0)));
    assert_eq!(hits[3].normal, Some((-1, 0)));
}

#[test]
fn negative_direction_normals_point_up_the_axis() {
    let volume = BoundingVolume2 { size: (4, 1) };
    let ray = Ray2 {
        origin: (7 * UNIT / 2, UNIT / 2),
        direction: (-UNIT, 0),
        length: None,
    };
    let hits = collect_2d(volume, ray);
    assert_eq!(hits.len(), 4);
    let voxels: Vec<(i32, i32)> = hits.iter().map(|h| h.voxel).collect();
    assert_eq!(voxels, vec![(3, 0), (2, 0), (1, 0), (0, 0)]);
    assert_eq!(hits[0].normal, None);
    for h in &hits[1..] {
        assert_eq!(h.normal, Some((1, 0)));
    }
}

#[test]
fn every_hit_lies_inside_the_volume() {
    let volume = BoundingVolume2 { size: (6, 3) };
    let ray = Ray2 {
        origin: (-3 * UNIT, UNIT / 3),
        direction: (5 * UNIT, 2 * UNIT),
        length: None,
    };
    let hits = collect_2d(volume, ray);
    assert!(!hits.is_empty());
    for h in &hits {
        assert!(volume.contains_point(h.voxel));
    }
    for w in hits.windows(2) {
        assert!(w[0].distance <= w[1].distance);
    }
}

#[test]
fn hits_after_the_first_always_carry_normals() {
    let volume = BoundingVolume2 { size: (5, 5) };
    let outside = Ray2 {
        origin: (-2 * UNIT, UNIT / 2),
        direction: (4 * UNIT, UNIT),
        length: None,
    };
    let hits = collect_2d(volume, outside);
    assert!(!hits.is_empty());
    for h in &hits {
        assert!(h.normal.is_some());
    }
    let inside = Ray2 {
        origin: (2 * UNIT + UNIT / 4, 2 * UNIT + UNIT / 4),
        direction: (UNIT, UNIT / 8),
        length: None,
    };
    let hits = collect_2d(volume, inside);
    assert!(hits.len() > 1);
    assert!(hits[0].normal.is_none());
    for h in &hits[1..] {
        assert!(h.normal.is_some());
    }
}

#[test]
fn equal_inputs_give_equal_traversals() {
    let volume = BoundingVolume2 { size: (7, 7) };
    let ray = Ray2 {
        origin: (-5 * UNIT / 2, 3 * UNIT / 2),
        direction: (3 * UNIT, UNIT),
        length: Some(20 * UNIT),
    };
    let first = collect_2d(volume, ray);
    let second = collect_2d(volume, ray);
    assert_eq!(first, second);
    assert!(!first.is_empty());

    let volume3 = BoundingVolume3 { size: (4, 4, 4) };
    let ray3 = Ray3 {
        origin: (-UNIT, UNIT / 2, UNIT / 2),
        direction: (2 * UNIT, UNIT, UNIT / 2),
        length: None,
    };
    let first3 = collect_3d(volume3, ray3);
    let second3 = collect_3d(volume3, ray3);
    assert_eq!(first3, second3);
    assert!(!first3.is_empty());
}

#[test]
fn traversal_leaves_volume_and_ray_untouched() {
    let volume = BoundingVolume2 { size: (3, 3) };
    let ray = Ray2 {
        origin: (UNIT / 2, UNIT / 2),
        direction: (UNIT, 0),
        length: None,
    };
    let _ = collect_2d(volume, ray);
    assert_eq!(volume, BoundingVolume2 { size: (3, 3) });
    assert_eq!(ray.origin, (UNIT / 2, UNIT / 2));
    assert_eq!(ray.direction, (UNIT, 0));
    assert_eq!(ray.length, None);
    let again = collect_2d(volume, ray);
    assert_eq!(again.len(), 3);
}

#[test]
fn degenerate_extents_contain_nothing() {
    let empty = BoundingVolume2 { size: (0, 8) };
    let ray = Ray2 {
        origin: (-UNIT, UNIT / 2),
        direction: (UNIT, 0),
        length: None,
    };
    assert_eq!(collect_2d(empty, ray).len(), 0);
    let negative = BoundingVolume2 { size: (-4, 8) };
    assert_eq!(collect_2d(negative, ray).len(), 0);
    assert!(!empty.contains_point((0, 0)));
    assert!(!negative.contains_point((-1, 0)));
}

#[test]
fn contains_point_matches_the_half_open_box() {
    let volume = BoundingVolume2 { size: (8, 8) };
    assert!(volume.contains_point((0, 0)));
    assert!(volume.contains_point((7, 7)));
    assert!(!volume.contains_point((8, 7)));
    assert!(!volume.contains_point((7, 8)));
    assert!(!volume.contains_point((-1, 0)));
    let volume3 = BoundingVolume3 { size: (2, 3, 4) };
    assert!(volume3.contains_point((1, 2, 3)));
    assert!(!volume3.contains_point((2, 2, 3)));
    assert!(!volume3.contains_point((0, 0, -1)));
}

#[test]
fn planar_tie_in_three_dimensions_steps_both_axes() {
    let volume = BoundingVolume3 { size: (2, 2, 2) };
    let ray = Ray3 {
        origin: (UNIT / 2, UNIT / 2, UNIT / 2),
        direction: (UNIT, UNIT, 0),
        length: None,
    };
    let hits = collect_3d(volume, ray);
    assert_eq!(hits.len(), 2);
    assert_eq!(hits[0].voxel, (0, 0, 0));
    assert_eq!(hits[1].voxel, (1, 1, 0));
    // on an exact tie the higher of the tied axes provides the normal
    assert_eq!(hits[1].normal, Some((0, -1, 0)));
}

#[test]
fn unbounded_missing_ray_terminates_3d() {
    let volume = BoundingVolume3 { size: (8, 8, 8) };
    let ray = Ray3 {
        origin: (-UNIT, -UNIT, UNIT / 2),
        direction: (UNIT, 0, 0),
        length: None,
    };
    assert_eq!(collect_3d(volume, ray).len(), 0);
}
