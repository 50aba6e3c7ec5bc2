use raytracer::raster::{pixel_index, Buffer, ColBufId, IndBufId, PosBufId, Primitive};
use raytracer::texture::checker_is_even;

#[test]
fn checker_parity_of_the_coordinate_sum() {
    assert!(checker_is_even(0, 0, 0));
    assert!(!checker_is_even(1, 0, 0));
    assert!(checker_is_even(1, 1, 0));
    assert!(!checker_is_even(-1, 0, 0));
    assert!(checker_is_even(-1, -1, 0));
    assert!(!checker_is_even(-3, 2, 0));
}

#[test]
fn checker_parity_at_the_extremes() {
    assert!(!checker_is_even(i64::MAX, i64::MAX, i64::MAX));
    assert!(checker_is_even(i64::MIN, i64::MIN, i64::MIN));
    assert!(!checker_is_even(i64::MIN, i64::MAX, 0));
}

#[test]
fn clear_selections() {
    assert!(Buffer::Color.clears_color());
    assert!(!Buffer::Color.clears_depth());
    assert!(!Buffer::Depth.clears_color());
    assert!(Buffer::Depth.clears_depth());
    assert!(Buffer::Both.clears_color());
    assert!(Buffer::Both.clears_depth());
}

#[test]
fn frame_buffer_index_flips_rows() {
    // 4 wide, 3 high: row 0 is stored last.
    assert_eq!(pixel_index(4, 3, 0, 0), 8);
    assert_eq!(pixel_index(4, 3, 3, 0), 11);
    assert_eq!(pixel_index(4, 3, 0, 2), 0);
    assert_eq!(pixel_index(4, 3, 3, 2), 3);
    assert_eq!(pixel_index(1, 1, 0, 0), 0);
}

#[test]
fn buffer_ids_are_plain_handles() {
    let p = PosBufId(0);
    let i = IndBufId(1);
    let c = ColBufId(2);
    assert_eq!(p, PosBufId(0));
    assert_eq!((p.0, i.0, c.0), (0, 1, 2));
    let prim = Primitive::Triangle;
    assert!(matches!(prim, Primitive::Triangle));
    assert!(!matches!(Primitive::Line, Primitive::Triangle));
}
