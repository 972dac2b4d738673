use ray_tracer::denoise::{kernel_distance, neighbors, Neighbor};

#[test]
fn kernel_distances_are_squared_offsets() {
    assert_eq!(kernel_distance(2, 2), 0);
    assert_eq!(kernel_distance(0, 0), 8);
    assert_eq!(kernel_distance(4, 1), 5);
    assert_eq!(kernel_distance(2, 4), 4);
}

#[test]
fn interior_pixel_has_full_neighbourhood() {
    let n = neighbors(10, 10, 5, 5);
    assert_eq!(n.len(), 25);
    assert_eq!(n[0], Neighbor { index: 33, kernel_row: 0, kernel_col: 0 });
    assert_eq!(n[12], Neighbor { index: 55, kernel_row: 2, kernel_col: 2 });
    assert_eq!(n[24], Neighbor { index: 77, kernel_row: 4, kernel_col: 4 });
}

#[test]
fn corner_pixel_is_clipped() {
    let n = neighbors(10, 10, 0, 0);
    assert_eq!(n.len(), 9);
    assert_eq!(n[0], Neighbor { index: 0, kernel_row: 2, kernel_col: 2 });
    assert_eq!(n[8], Neighbor { index: 22, kernel_row: 4, kernel_col: 4 });
}

#[test]
fn single_pixel_image_has_only_itself() {
    assert_eq!(neighbors(1, 1, 0, 0), vec![Neighbor { index: 0, kernel_row: 2, kernel_col: 2 }]);
}

#[test]
fn edge_pixel_of_a_strip() {
    let n = neighbors(3, 1, 2, 0);
    let idx: Vec<u32> = n.iter().map(|e| e.index).collect();
    assert_eq!(idx, vec![0, 1, 2]);
}
