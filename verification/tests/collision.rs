use bevy_driver::car::components::{NosBoostAvailable, Timer};
use bevy_driver::car::helpers::get_car_corners;
use bevy_driver::collision::{
    check_obb_collision, get_rect_corners, is_point_in_rect, world_to_local_2d, LocalPoint, Rotation,
    Transform, Vec2, WorldPoint, LOCAL_ONE, ROTATION_ONE,
};
use bevy_driver::constants::UNITS_PER_PIXEL;
use bevy_driver::props::check_powerup_collision;

/// A quarter of pi as a rotation: the cosine and sine of 45 degrees.
fn frac_pi_4() -> Rotation {
    Rotation { cos: 7_071, sin: 7_071 }
}

#[test]
fn test_no_collision_separated() {
    let transform_a = Transform::from_xy(0, 0);
    let transform_b = Transform::from_xy(100 * UNITS_PER_PIXEL, 0);

    assert!(!check_obb_collision(
        &transform_a,
        5 * UNITS_PER_PIXEL,
        9 * UNITS_PER_PIXEL,
        &transform_b,
        5 * UNITS_PER_PIXEL,
        5 * UNITS_PER_PIXEL,
    ));
}

#[test]
fn test_collision_overlapping() {
    let transform_a = Transform::from_xy(0, 0);
    let transform_b = Transform::from_xy(5 * UNITS_PER_PIXEL, 0);

    assert!(check_obb_collision(
        &transform_a,
        5 * UNITS_PER_PIXEL,
        9 * UNITS_PER_PIXEL,
        &transform_b,
        5 * UNITS_PER_PIXEL,
        5 * UNITS_PER_PIXEL,
    ));
}

#[test]
fn test_collision_rotated() {
    let transform_a = Transform::from_xy(0, 0).with_rotation(frac_pi_4());
    let transform_b = Transform::from_xy(8 * UNITS_PER_PIXEL, 0);

    // Rotated 45° rectangle with half_height=9 should extend further on X axis
    assert!(check_obb_collision(
        &transform_a,
        5 * UNITS_PER_PIXEL,
        9 * UNITS_PER_PIXEL,
        &transform_b,
        5 * UNITS_PER_PIXEL,
        5 * UNITS_PER_PIXEL,
    ));
}

#[test]
fn unrotated_rectangle_at_the_same_distance_does_not_collide_where_the_rotated_one_does() {
    // Without the rotation the rectangles of the test above are apart by more
    // than their half widths only when farther away: at 11 pixels they are.
    let transform_a = Transform::from_xy(0, 0);
    let transform_b = Transform::from_xy(11_000, 0);
    assert!(!check_obb_collision(&transform_a, 5_000, 9_000, &transform_b, 5_000, 5_000));
    let turned = transform_a.with_rotation(frac_pi_4());
    assert!(check_obb_collision(&turned, 5_000, 9_000, &transform_b, 5_000, 5_000));
}

#[test]
fn thin_rectangles_that_cross_without_a_corner_inside_are_not_found() {
    let upright = Transform::from_xy(0, 0);
    let lying = Transform::from_xy(0, 0).with_rotation(Rotation { cos: 0, sin: ROTATION_ONE });
    assert!(!check_obb_collision(&upright, 1_000, 20_000, &lying, 1_000, 20_000));
}

#[test]
fn corners_come_front_left_front_right_back_right_back_left() {
    let transform = Transform::from_xy(3_000, -2_000);
    let corners = get_rect_corners(&transform, 5_000, 9_000);
    assert_eq!(corners[0], WorldPoint { x: -20_000_000, y: 70_000_000 });
    assert_eq!(corners[1], WorldPoint { x: 80_000_000, y: 70_000_000 });
    assert_eq!(corners[2], WorldPoint { x: 80_000_000, y: -110_000_000 });
    assert_eq!(corners[3], WorldPoint { x: -20_000_000, y: -110_000_000 });
}

#[test]
fn corners_of_a_rectangle_turned_a_quarter_to_the_left() {
    let transform = Transform::from_xy(0, 0).with_rotation(Rotation { cos: 0, sin: ROTATION_ONE });
    let corners = get_rect_corners(&transform, 5_000, 9_000);
    // The front-left corner (-5, 9) is turned onto (-9, -5).
    assert_eq!(corners[0], WorldPoint { x: -90_000_000, y: -50_000_000 });
    assert_eq!(corners[1], WorldPoint { x: -90_000_000, y: 50_000_000 });
}

#[test]
fn centroid_of_the_corners_is_the_translation() {
    let rotations = [
        Rotation { cos: 10_000, sin: 0 },
        Rotation { cos: 7_071, sin: 7_071 },
        Rotation { cos: -8_660, sin: 5_000 },
        Rotation { cos: 123, sin: -9_999 },
        Rotation { cos: i16::MIN, sin: i16::MAX },
    ];
    let centres = [(0, 0), (12_345, -67_890), (i32::MAX, i32::MIN), (-650_000, 400_000)];
    for rotation in rotations {
        for (x, y) in centres {
            let transform = Transform { translation: Vec2 { x, y }, rotation };
            for (w, h) in [(5_000, 9_000), (0, 0), (i32::MAX, i32::MIN), (1, 7)] {
                let corners = get_rect_corners(&transform, w, h);
                let sum_x: i128 = corners.iter().map(|c| c.x as i128).sum();
                let sum_y: i128 = corners.iter().map(|c| c.y as i128).sum();
                assert_eq!(sum_x, 4 * (x as i128) * (ROTATION_ONE as i128));
                assert_eq!(sum_y, 4 * (y as i128) * (ROTATION_ONE as i128));
            }
        }
    }
}

#[test]
fn car_corners_are_those_of_a_rectangle_of_10_by_18() {
    let transform = Transform::from_xy(1_000, 2_000);
    assert_eq!(get_car_corners(&transform), get_rect_corners(&transform, 5_000, 9_000));
}

#[test]
fn world_to_local_of_an_unturned_rectangle_subtracts_the_centre() {
    let transform = Transform::from_xy(3_000, -2_000);
    let local = world_to_local_2d(&transform, WorldPoint { x: 80_000_000, y: 70_000_000 });
    assert_eq!(local, LocalPoint { x: 5_000 * LOCAL_ONE, y: 9_000 * LOCAL_ONE });
}

#[test]
fn world_to_local_and_forward_again_gives_the_point_back() {
    // Rotations that do not stretch: 3-4-5 and 7-24-25 triangles, and the axes.
    let rotations = [
        Rotation { cos: 6_000, sin: 8_000 },
        Rotation { cos: -8_000, sin: 6_000 },
        Rotation { cos: 2_800, sin: -9_600 },
        Rotation { cos: 0, sin: -10_000 },
        Rotation { cos: 10_000, sin: 0 },
    ];
    let points = [(0i64, 0i64), (123_456_789, -987_654_321), (-5, 7), (i64::MAX, i64::MIN)];
    for rotation in rotations {
        for (tx, ty) in [(0, 0), (40_000, -17), (i32::MIN, i32::MAX)] {
            let transform = Transform { translation: Vec2 { x: tx, y: ty }, rotation };
            for (px, py) in points {
                let local = world_to_local_2d(&transform, WorldPoint { x: px, y: py });
                let (c, s) = (rotation.cos as i128, rotation.sin as i128);
                let forward_x = c * local.x - s * local.y;
                let forward_y = s * local.x + c * local.y;
                let one = ROTATION_ONE as i128;
                assert_eq!(forward_x + (tx as i128) * one * LOCAL_ONE, (px as i128) * LOCAL_ONE);
                assert_eq!(forward_y + (ty as i128) * one * LOCAL_ONE, (py as i128) * LOCAL_ONE);
            }
        }
    }
}

#[test]
fn corners_of_a_rectangle_lie_on_its_border_in_local_space() {
    let transform = Transform { translation: Vec2 { x: 77, y: -5 }, rotation: Rotation { cos: 6_000, sin: 8_000 } };
    for corner in get_rect_corners(&transform, 5_000, 9_000) {
        let local = world_to_local_2d(&transform, corner);
        assert_eq!(local.x.abs(), 5_000 * LOCAL_ONE);
        assert_eq!(local.y.abs(), 9_000 * LOCAL_ONE);
        assert!(is_point_in_rect(local, 5_000, 9_000));
        assert!(!is_point_in_rect(local, 4_999, 9_000));
        assert!(!is_point_in_rect(local, 5_000, 8_999));
    }
}

#[test]
fn point_in_rect_includes_the_border_and_nothing_beyond() {
    let w = 5 * LOCAL_ONE;
    let h = 9 * LOCAL_ONE;
    assert!(is_point_in_rect(LocalPoint { x: 0, y: 0 }, 5, 9));
    assert!(is_point_in_rect(LocalPoint { x: w, y: h }, 5, 9));
    assert!(is_point_in_rect(LocalPoint { x: -w, y: -h }, 5, 9));
    assert!(!is_point_in_rect(LocalPoint { x: w + 1, y: 0 }, 5, 9));
    assert!(!is_point_in_rect(LocalPoint { x: 0, y: -h - 1 }, 5, 9));
    assert!(!is_point_in_rect(LocalPoint { x: i128::MAX, y: i128::MIN }, i32::MAX, i32::MAX));
    assert!(!is_point_in_rect(LocalPoint { x: 0, y: 0 }, -1, 5));
}

#[test]
fn car_collects_the_powerups_that_it_touches() {
    let car = Transform::from_xy(0, 0);
    let powerups = vec![
        Transform::from_xy(0, 13_000),
        Transform::from_xy(0, 15_000),
        Transform::from_xy(9_000, -13_000),
        Transform::from_xy(100_000, 0),
    ];
    let mut boost = None;
    assert_eq!(check_powerup_collision(&car, &powerups, &mut boost), vec![true, false, true, false]);
    assert_eq!(boost, Some(NosBoostAvailable::new(2_000_000)));
    assert_eq!(boost.unwrap().remaining_fraction(), 1000);
}

#[test]
fn powerup_gives_a_fresh_boost_whatever_the_car_had() {
    let car = Transform::from_xy(0, 0);
    let used = NosBoostAvailable { timer: Timer { duration: 2_000_000, elapsed: 1_900_000 }, active: true };
    let mut boost = Some(used);
    let collected = check_powerup_collision(&car, &vec![Transform::from_xy(0, 13_000)], &mut boost);
    assert_eq!(collected, vec![true]);
    assert_eq!(boost, Some(NosBoostAvailable { timer: Timer { duration: 2_000_000, elapsed: 0 }, active: false }));
}

#[test]
fn car_that_touches_no_powerup_keeps_what_it_has() {
    let car = Transform::from_xy(0, 0);
    let far = vec![Transform::from_xy(0, 15_000), Transform::from_xy(100_000, 0)];
    let mut boost = None;
    assert_eq!(check_powerup_collision(&car, &far, &mut boost), vec![false, false]);
    assert_eq!(boost, None);
    let used = NosBoostAvailable { timer: Timer { duration: 2_000_000, elapsed: 700_000 }, active: true };
    let mut boost = Some(used);
    assert_eq!(check_powerup_collision(&car, &far, &mut boost), vec![false, false]);
    assert_eq!(boost, Some(used));
    assert_eq!(check_powerup_collision(&car, &Vec::new(), &mut boost), Vec::<bool>::new());
    assert_eq!(boost, Some(used));
}
