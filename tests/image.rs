use ray_tracer::image::{black_frame, height_for_width, pack_rgba, pixel_coords, pixel_index};

#[test]
fn height_follows_sixteen_by_nine() {
    assert_eq!(height_for_width(16), 9);
    assert_eq!(height_for_width(650), 365);
    assert_eq!(height_for_width(800), 450);
    assert_eq!(height_for_width(1280), 720);
    assert_eq!(height_for_width(17), 9);
}

#[test]
fn height_is_at_least_one_row() {
    assert_eq!(height_for_width(1), 1);
    assert_eq!(height_for_width(0), 1);
}

#[test]
fn coords_and_index_agree() {
    assert_eq!(pixel_coords(10, 0), (0, 0));
    assert_eq!(pixel_coords(10, 23), (3, 2));
    assert_eq!(pixel_index(10, 5, 3, 2), 23);
    assert_eq!(pixel_index(10, 5, 9, 4), 49);
}

#[test]
fn black_frame_is_black_and_opaque() {
    let f = black_frame(3);
    assert_eq!(f, vec![0, 0, 0, 255, 0, 0, 0, 255, 0, 0, 0, 255]);
    assert!(black_frame(0).is_empty());
}

#[test]
fn pack_rgba_adds_opaque_alpha() {
    let rgb = vec![1, 2, 3, 200, 100, 50];
    assert_eq!(pack_rgba(&rgb), vec![1, 2, 3, 255, 200, 100, 50, 255]);
    assert!(pack_rgba(&Vec::new()).is_empty());
}
