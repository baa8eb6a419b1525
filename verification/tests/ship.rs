use barbells::geometry::Vector2;
use barbells::ship::{Ship, MAX_SPEED, SHIP_BASE, SHIP_HEIGHT, THRUST};
use barbells::space::{World, MAX_SIDE};

fn v(x: i32, y: i32) -> Vector2 {
    Vector2 { x, y }
}

fn world() -> World {
    World::new(800_000, 600_000).unwrap()
}

fn ship_at(x: i32, y: i32, rot: i64, vx: i32, vy: i32) -> Ship {
    Ship::from_parts(v(x, y), rot, v(vx, vy)).unwrap()
}

fn speed_squared(ship: &Ship) -> i64 {
    let vel = ship.velocity();
    (vel.x as i64) * (vel.x as i64) + (vel.y as i64) * (vel.y as i64)
}

#[test]
fn ship_constants() {
    assert_eq!(SHIP_HEIGHT, 25_000);
    assert_eq!(SHIP_BASE, 12_500);
    assert_eq!(MAX_SPEED, 10_000);
    assert_eq!(THRUST, 1_000);
}

#[test]
fn new_ship_rests_in_the_middle_of_the_world() {
    let ship = Ship::new(&world());
    assert_eq!(ship.middle(), v(400_000, 300_000));
    assert_eq!(ship.rotation(), 0);
    assert_eq!(ship.velocity(), v(0, 0));
    assert_eq!(ship.top(), v(400_000, 287_500));
    assert_eq!(ship.right(), v(406_250, 312_500));
    assert_eq!(ship.left(), v(393_750, 312_500));
}

#[test]
fn ship_from_parts_accepts_valid_parts() {
    let ship = ship_at(100_000, 200_000, 700, 6000, -8000);
    assert_eq!(ship.middle(), v(100_000, 200_000));
    assert_eq!(ship.rotation(), 700);
    assert_eq!(ship.velocity(), v(6000, -8000));
    assert!(Ship::from_parts(v(0, 0), 0, v(0, 0)).is_some());
    assert!(Ship::from_parts(v(MAX_SIDE, MAX_SIDE), 0, v(0, 0)).is_some());
    assert!(Ship::from_parts(v(0, 0), 0, v(MAX_SPEED, 0)).is_some());
    assert!(Ship::from_parts(v(0, 0), 0, v(0, -MAX_SPEED)).is_some());
}

#[test]
fn ship_rotation_is_kept_as_given() {
    assert_eq!(ship_at(0, 0, 36_700, 0, 0).rotation(), 36_700);
    assert_eq!(ship_at(0, 0, -700, 0, 0).rotation(), -700);
    assert_eq!(ship_at(0, 0, i64::MAX, 0, 0).rotation(), i64::MAX);
    assert_eq!(ship_at(0, 0, i64::MIN, 0, 0).rotation(), i64::MIN);
    // Whole turns change the rotation, not the vertices.
    let far = ship_at(400_000, 300_000, 36_700, 0, 0);
    let near = ship_at(400_000, 300_000, 700, 0, 0);
    assert_ne!(far, near);
    assert_eq!((far.top(), far.right(), far.left()), (near.top(), near.right(), near.left()));
}

#[test]
fn ship_parts_out_of_range_are_rejected() {
    assert!(Ship::from_parts(v(-1, 0), 0, v(0, 0)).is_none());
    assert!(Ship::from_parts(v(0, -1), 0, v(0, 0)).is_none());
    assert!(Ship::from_parts(v(MAX_SIDE + 1, 0), 0, v(0, 0)).is_none());
    assert!(Ship::from_parts(v(0, MAX_SIDE + 1), 0, v(0, 0)).is_none());
    assert!(Ship::from_parts(v(0, 0), 0, v(MAX_SPEED + 1, 0)).is_none());
    assert!(Ship::from_parts(v(0, 0), 0, v(0, -MAX_SPEED - 1)).is_none());
    assert!(Ship::from_parts(v(0, 0), 0, v(6001, 8000)).is_none());
    assert!(Ship::from_parts(v(0, 0), 0, v(MAX_SPEED, 1)).is_none());
    assert!(Ship::from_parts(v(0, 0), 0, v(i32::MIN, i32::MAX)).is_none());
}

#[test]
fn rotate_changes_the_rotation_and_leaves_the_vertices() {
    let mut ship = Ship::new(&world());
    ship.rotate(700);
    assert_eq!(ship.rotation(), 700);
    assert_eq!(ship.top(), v(400_000, 287_500));
    assert_eq!(ship.right(), v(406_250, 312_500));
    assert_eq!(ship.left(), v(393_750, 312_500));
    ship.reload();
    assert_eq!(ship.top(), v(401_523, 287_593));
    assert_eq!(ship.right(), v(404_680, 313_169));
    assert_eq!(ship.left(), v(392_273, 311_645));
}

#[test]
fn rotate_adds_to_the_rotation() {
    let mut ship = Ship::new(&world());
    ship.rotate(-700);
    assert_eq!(ship.rotation(), -700);
    ship.reload();
    assert_eq!(ship.top(), v(398_477, 287_593));
    assert_eq!(ship.right(), v(407_727, 311_645));
    assert_eq!(ship.left(), v(395_320, 313_169));
    ship.rotate(1400);
    assert_eq!(ship.rotation(), 700);
    ship.rotate(36_000);
    assert_eq!(ship.rotation(), 36_700);
    ship.rotate(-73_400);
    assert_eq!(ship.rotation(), -36_700);
    ship.rotate(36_700);
    assert_eq!(ship.rotation(), 0);
}

#[test]
fn rotation_is_not_held_to_one_turn() {
    let mut ship = Ship::new(&world());
    for _ in 0..1000 {
        ship.rotate(700);
    }
    assert_eq!(ship.rotation(), 700_000);
    ship.reload();
    // 700 000 hundredths of a degree are 19 turns and 160 degrees.
    let same = ship_at(400_000, 300_000, 16_000, 0, 0);
    assert_eq!((ship.top(), ship.right(), ship.left()), (same.top(), same.right(), same.left()));

    let mut ship = Ship::new(&world());
    ship.rotate(i64::MAX);
    assert_eq!(ship.rotation(), i64::MAX);
    ship.rotate(i64::MIN);
    assert_eq!(ship.rotation(), -1);
    ship.rotate(i64::MIN + 1);
    assert_eq!(ship.rotation(), i64::MIN);
    ship.reload();
    let same = ship_at(400_000, 300_000, i64::MIN.rem_euclid(36_000), 0, 0);
    assert_eq!((ship.top(), ship.right(), ship.left()), (same.top(), same.right(), same.left()));
}

#[test]
fn thrust_follows_a_rotation_of_many_turns() {
    let mut ship = ship_at(400_000, 300_000, 9_000 + 36_000 * 5, 0, 0);
    ship.accelerate();
    assert_eq!(ship.velocity(), v(1000, 0));
    let mut ship = ship_at(400_000, 300_000, 700 - 36_000 * 3, 0, 0);
    ship.accelerate();
    assert_eq!(ship.velocity(), v(122, -993));
    let mut ship = ship_at(400_000, 300_000, -9_000, 0, 0);
    ship.accelerate();
    assert_eq!(ship.velocity(), v(-1000, 0));
}

#[test]
fn reload_after_a_full_turn_gives_the_same_vertices() {
    for rot in [0, 36, 700, 4_500, 12_345, 35_999] {
        let mut ship = ship_at(400_000, 300_000, rot, 0, 0);
        let before = ship;
        ship.rotate(36_000);
        ship.reload();
        assert_eq!(ship.rotation(), rot + 36_000);
        assert_eq!(ship.top(), before.top());
        assert_eq!(ship.right(), before.right());
        assert_eq!(ship.left(), before.left());
        ship.rotate(-36_000);
        ship.reload();
        assert_eq!(ship, before);
        ship.rotate(-36_000);
        ship.reload();
        assert_eq!(ship.rotation(), rot - 36_000);
        assert_eq!(ship.top(), before.top());
        assert_eq!(ship.right(), before.right());
        assert_eq!(ship.left(), before.left());
    }
}

#[test]
fn accelerate_thrusts_the_way_the_top_points() {
    let mut ship = Ship::new(&world());
    ship.accelerate();
    assert_eq!(ship.velocity(), v(0, -1000));
    assert_eq!(ship.middle(), v(400_000, 300_000));

    let mut ship = ship_at(400_000, 300_000, 9_000, 0, 0);
    ship.accelerate();
    assert_eq!(ship.velocity(), v(1000, 0));

    let mut ship = ship_at(400_000, 300_000, 4_500, 0, 0);
    ship.accelerate();
    assert_eq!(ship.velocity(), v(707, -707));

    let mut ship = ship_at(400_000, 300_000, 700, 0, 0);
    ship.accelerate();
    assert_eq!(ship.velocity(), v(122, -993));
}

#[test]
fn accelerate_uses_the_rotation_not_the_vertices() {
    let mut ship = Ship::new(&world());
    ship.rotate(9_000);
    ship.accelerate();
    assert_eq!(ship.velocity(), v(1000, 0));
}

#[test]
fn decelerate_thrusts_the_other_way() {
    let mut ship = Ship::new(&world());
    ship.decelerate();
    assert_eq!(ship.velocity(), v(0, 1000));
    let mut ship = ship_at(400_000, 300_000, 700, 0, 0);
    ship.decelerate();
    assert_eq!(ship.velocity(), v(-122, 993));
    ship.accelerate();
    assert_eq!(ship.velocity(), v(0, 0));
}

#[test]
fn speed_is_held_to_the_maximum() {
    let mut ship = Ship::new(&world());
    for _ in 0..21 {
        ship.accelerate();
    }
    assert_eq!(ship.velocity(), v(0, -10_000));

    let mut ship = ship_at(400_000, 300_000, 4_500, 0, 0);
    for _ in 0..12 {
        ship.accelerate();
    }
    assert_eq!(ship.velocity(), v(7070, -7070));
    for _ in 0..3 {
        ship.decelerate();
    }
    assert_eq!(ship.velocity(), v(4949, -4949));

    let mut ship = Ship::new(&world());
    for _ in 0..15 {
        ship.decelerate();
    }
    assert_eq!(ship.velocity(), v(0, 10_000));
}

#[test]
fn speed_never_exceeds_the_maximum_whatever_is_done() {
    let world = world();
    let mut ship = Ship::new(&world);
    let limit = (MAX_SPEED as i64) * (MAX_SPEED as i64);
    for i in 0..2000 {
        ship.rotate(if i % 3 == 0 { -175 } else { 700 });
        if i % 5 == 4 {
            ship.decelerate();
        } else {
            ship.accelerate();
        }
        assert!(speed_squared(&ship) <= limit);
        if i % 7 == 0 {
            ship.tick(&world);
            assert!(speed_squared(&ship) <= limit);
        }
    }
}

#[test]
fn tick_moves_then_drags_then_reloads() {
    let world = world();
    let mut ship = Ship::new(&world);
    ship.accelerate();
    ship.tick(&world);
    assert_eq!(ship.middle(), v(400_000, 299_000));
    assert_eq!(ship.velocity(), v(0, -900));
    assert_eq!(ship.top(), v(400_000, 286_500));
    assert_eq!(ship.right(), v(406_250, 311_500));
    assert_eq!(ship.left(), v(393_750, 311_500));

    let mut ship = ship_at(400_000, 300_000, 0, 6000, 8000);
    ship.tick(&world);
    assert_eq!(ship.middle(), v(406_000, 308_000));
    assert_eq!(ship.velocity(), v(5400, 7200));
    ship.tick(&world);
    assert_eq!(ship.middle(), v(411_400, 315_200));
    assert_eq!(ship.velocity(), v(4860, 6480));
}

#[test]
fn tick_reloads_after_a_rotation() {
    let world = world();
    let mut ship = Ship::new(&world);
    ship.rotate(700);
    ship.tick(&world);
    assert_eq!(ship.top(), v(401_523, 287_593));
    assert_eq!(ship.right(), v(404_680, 313_169));
    assert_eq!(ship.left(), v(392_273, 311_645));
}

#[test]
fn drag_rounds_towards_zero() {
    let world = world();
    let mut ship = ship_at(400_000, 300_000, 0, -1005, 1005);
    ship.tick(&world);
    assert_eq!(ship.middle(), v(398_995, 301_005));
    assert_eq!(ship.velocity(), v(-904, 904));
    let mut ship = ship_at(400_000, 300_000, 0, 1, -1);
    ship.tick(&world);
    assert_eq!(ship.velocity(), v(0, 0));
}

#[test]
fn tick_wraps_the_ship_into_the_world() {
    let world = world();
    let mut ship = ship_at(799_995, 3, 0, 10, -5);
    ship.tick(&world);
    assert_eq!(ship.middle(), v(0, 600_000));
    assert_eq!(ship.velocity(), v(9, -4));
    assert_eq!(ship.top(), v(0, 587_500));
    assert_eq!(ship.right(), v(6250, 612_500));
    assert_eq!(ship.left(), v(-6250, 612_500));

    let mut ship = ship_at(5, 599_999, 0, -10, 5);
    ship.tick(&world);
    assert_eq!(ship.middle(), v(800_000, 0));
    assert_eq!(ship.top(), v(800_000, -12_500));
}

#[test]
fn tick_brings_a_ship_from_a_larger_world_back() {
    let world = world();
    let mut ship = ship_at(MAX_SIDE, MAX_SIDE, 0, 0, 0);
    ship.tick(&world);
    assert_eq!(ship.middle(), v(0, 0));
}

#[test]
fn ship_is_drawn_away_from_the_edges_only() {
    let world = world();
    assert!(Ship::new(&world).is_drawn(&world));
    assert!(ship_at(12_500, 12_500, 0, 0, 0).is_drawn(&world));
    assert!(ship_at(787_500, 587_500, 0, 0, 0).is_drawn(&world));
    assert!(!ship_at(12_499, 300_000, 0, 0, 0).is_drawn(&world));
    assert!(!ship_at(787_501, 300_000, 0, 0, 0).is_drawn(&world));
    assert!(!ship_at(400_000, 12_499, 0, 0, 0).is_drawn(&world));
    assert!(!ship_at(400_000, 587_501, 0, 0, 0).is_drawn(&world));
    assert!(!ship_at(0, 0, 0, 0, 0).is_drawn(&world));
    assert!(!ship_at(800_000, 600_000, 0, 0, 0).is_drawn(&world));
}
