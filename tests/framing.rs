use geotrail::camera::{
    bounding_box, frame_camera, scale_to_fit, BoundingBox, Camera, Scale, MARGIN_DEN, MARGIN_NUM,
    MIN_SCALE_DEN, MIN_SCALE_NUM,
};
use geotrail::locator::LocatorError;
use geotrail::point::Point;

fn pts(v: &[(i32, i32)]) -> Vec<Point> {
    v.iter().map(|&(a, b)| Point::new(a, b)).collect()
}

fn same_ratio(s: Scale, num: u64, den: u64) -> bool {
    s.den > 0 && s.num as u128 * den as u128 == num as u128 * s.den as u128
}

fn prev_camera() -> Camera {
    Camera {
        twice_center_x: 14,
        twice_center_y: -6,
        scale: Scale { num: 3, den: 7 },
    }
}

#[test]
fn point_new_keeps_coordinates() {
    let p = Point::new(-5, 9);
    assert_eq!(p.lat, -5);
    assert_eq!(p.long, 9);
}

#[test]
fn bounding_box_of_empty_is_none() {
    assert_eq!(bounding_box(&Vec::new()), None);
}

#[test]
fn bounding_box_of_single_point() {
    let b = bounding_box(&pts(&[(3, -4)])).unwrap();
    assert_eq!(b, BoundingBox { min_x: 3, max_x: 3, min_y: -4, max_y: -4 });
}

#[test]
fn bounding_box_scans_all_points() {
    let b = bounding_box(&pts(&[(5, 1), (-2, 8), (7, -3), (0, 0)])).unwrap();
    assert_eq!(b, BoundingBox { min_x: -2, max_x: 7, min_y: -3, max_y: 8 });
}

#[test]
fn bounding_box_at_coordinate_limits() {
    let b = bounding_box(&pts(&[(i32::MIN, i32::MAX), (i32::MAX, i32::MIN)])).unwrap();
    assert_eq!(b, BoundingBox { min_x: i32::MIN, max_x: i32::MAX, min_y: i32::MIN, max_y: i32::MAX });
}

#[test]
fn empty_trail_keeps_camera() {
    let prev = prev_camera();
    assert_eq!(frame_camera(&Vec::new(), 100, 100, prev), prev);
}

#[test]
fn single_point_keeps_scale_and_centers() {
    let prev = prev_camera();
    let c = frame_camera(&pts(&[(10, 20)]), 100, 100, prev);
    assert_eq!(c.scale, prev.scale);
    assert_eq!((c.twice_center_x, c.twice_center_y), (20, 40));
}

#[test]
fn two_points_keep_scale() {
    let prev = prev_camera();
    let c = frame_camera(&pts(&[(0, 0), (100, 50)]), 10, 10, prev);
    assert_eq!(c.scale, prev.scale);
    assert_eq!((c.twice_center_x, c.twice_center_y), (100, 50));
}

#[test]
fn identical_points_get_floor_scale() {
    let c = frame_camera(&pts(&[(0, 0), (0, 0), (0, 0)]), 800, 600, prev_camera());
    assert_eq!((c.twice_center_x, c.twice_center_y), (0, 0));
    assert_eq!(c.scale, Scale { num: MIN_SCALE_NUM, den: MIN_SCALE_DEN });
    assert!(same_ratio(c.scale, 1, 100));
}

#[test]
fn symmetric_square_scales_to_margin() {
    let c = frame_camera(&pts(&[(-1, -1), (1, 1), (0, 0)]), 2, 2, prev_camera());
    assert_eq!((c.twice_center_x, c.twice_center_y), (0, 0));
    assert!(same_ratio(c.scale, MARGIN_NUM, MARGIN_DEN));
    assert!(same_ratio(c.scale, 5, 4));
}

#[test]
fn wide_trail_scales_by_width() {
    // width 400 over 200 px = 2, height 30 over 100 px = 0.3; 2 * 1.25 = 2.5
    let c = frame_camera(&pts(&[(0, 0), (400, 30), (100, 10)]), 200, 100, Camera::new());
    assert!(same_ratio(c.scale, 5, 2));
    assert_eq!((c.twice_center_x, c.twice_center_y), (400, 30));
}

#[test]
fn tall_trail_scales_by_height() {
    // width 10 over 100 px = 0.1, height 300 over 100 px = 3; 3 * 1.25 = 3.75
    let c = frame_camera(&pts(&[(5, -150), (15, 150), (10, 0)]), 100, 100, Camera::new());
    assert!(same_ratio(c.scale, 15, 4));
    assert_eq!((c.twice_center_x, c.twice_center_y), (20, 0));
}

#[test]
fn odd_extent_center_stays_exact() {
    let c = frame_camera(&pts(&[(0, 0), (3, 1), (1, 1)]), 10, 10, Camera::new());
    assert_eq!((c.twice_center_x, c.twice_center_y), (3, 1));
}

#[test]
fn small_extent_keeps_its_own_scale() {
    // 1 unit over 1000 px = 0.001, times 1.25, is 1/800
    let b = BoundingBox { min_x: 0, max_x: 1, min_y: 0, max_y: 1 };
    let s = scale_to_fit(b, 1000, 1000);
    assert_eq!(s, Scale { num: 5, den: 4000 });
    assert!(same_ratio(s, 1, 800));
}

#[test]
fn small_trail_is_framed_without_floor() {
    let c = frame_camera(&pts(&[(0, 0), (1, 0), (0, 0)]), 1000, 1000, prev_camera());
    assert!(same_ratio(c.scale, 1, 800));
    assert_eq!((c.twice_center_x, c.twice_center_y), (1, 0));
}

#[test]
fn extent_along_one_axis_only() {
    // width 0, height 8 over 1000 px, times 1.25, is 1/100
    let b = BoundingBox { min_x: 3, max_x: 3, min_y: 0, max_y: 8 };
    let s = scale_to_fit(b, 1000, 1000);
    assert_eq!(s, Scale { num: 40, den: 4000 });
    assert!(same_ratio(s, 1, 100));
}

#[test]
fn short_trail_ignores_empty_viewport() {
    let prev = prev_camera();
    assert_eq!(frame_camera(&Vec::new(), 0, 0, prev), prev);
    let c = frame_camera(&pts(&[(2, 4), (6, 8)]), 0, 0, prev);
    assert_eq!(c.scale, prev.scale);
    assert_eq!((c.twice_center_x, c.twice_center_y), (8, 12));
}

#[test]
fn scale_of_largest_extent() {
    let b = BoundingBox { min_x: i32::MIN, max_x: i32::MAX, min_y: 0, max_y: 0 };
    let s = scale_to_fit(b, 1, u32::MAX);
    assert_eq!(s, Scale { num: u32::MAX as u64 * 5, den: 4 });
}

#[test]
fn locator_error_keeps_message() {
    let e = LocatorError::new(String::from("permission denied"));
    assert_eq!(e.message(), "permission denied");
    assert_eq!(e.msg, "permission denied");
}
