use barbells::geometry::Vector2;
use barbells::random::{
    choose_position, is_safely_apart, random_position, spawn_position, SPAWN_ATTEMPTS,
};
use barbells::space::{World, SAFE_DISTANCE};
use macroquad::rand::RandGenerator;

fn v(x: i32, y: i32) -> Vector2 {
    Vector2 { x, y }
}

#[test]
fn safe_distance_is_ten_ship_heights() {
    assert_eq!(SAFE_DISTANCE, 250_000);
    assert_eq!(SPAWN_ATTEMPTS, 64);
}

#[test]
fn safely_apart_is_at_least_the_safe_distance() {
    let ship = v(400_000, 300_000);
    assert!(is_safely_apart(v(150_000, 300_000), ship));
    assert!(!is_safely_apart(v(150_001, 300_000), ship));
    assert!(is_safely_apart(v(400_000, 550_000), ship));
    assert!(!is_safely_apart(v(400_000, 549_999), ship));
    // 150^2 + 200^2 = 250^2
    assert!(is_safely_apart(v(550_000, 500_000), ship));
    assert!(!is_safely_apart(v(549_999, 500_000), ship));
    assert!(!is_safely_apart(ship, ship));
    assert!(is_safely_apart(v(i32::MIN, i32::MIN), v(i32::MAX, i32::MAX)));
}

#[test]
fn random_positions_lie_in_the_world() {
    let world = World::new(800_000, 600_000).unwrap();
    let generator = RandGenerator::new();
    generator.srand(99);
    for _ in 0..1000 {
        let p = random_position(&world, &generator);
        assert!(0 <= p.x && p.x < 800_000);
        assert!(0 <= p.y && p.y < 600_000);
    }
}

#[test]
fn random_positions_vary() {
    let world = World::new(800_000, 600_000).unwrap();
    let generator = RandGenerator::new();
    generator.srand(99);
    let first = random_position(&world, &generator);
    let mut varied = false;
    for _ in 0..20 {
        if random_position(&world, &generator) != first {
            varied = true;
        }
    }
    assert!(varied);
}

#[test]
fn random_positions_follow_the_seed() {
    let world = World::new(800_000, 600_000).unwrap();
    let a = RandGenerator::new();
    let b = RandGenerator::new();
    a.srand(2024);
    b.srand(2024);
    for _ in 0..50 {
        assert_eq!(random_position(&world, &a), random_position(&world, &b));
    }
}

#[test]
fn random_position_is_what_its_two_draws_give() {
    let world = World::new(800_000, 600_000).unwrap();
    let a = RandGenerator::new();
    let b = RandGenerator::new();
    a.srand(5);
    b.srand(5);
    for _ in 0..50 {
        let p = random_position(&world, &a);
        let x_draw = b.rand();
        let y_draw = b.rand();
        assert_eq!(p, world.position_from_draws(x_draw, y_draw));
    }
}

#[test]
fn spawn_positions_keep_the_safe_distance() {
    let world = World::new(800_000, 600_000).unwrap();
    let generator = RandGenerator::new();
    for seed in 0..30u64 {
        generator.srand(seed);
        for ship in [v(400_000, 300_000), v(0, 0), v(799_999, 1), v(250_000, 250_000)] {
            for _ in 0..20 {
                let p = spawn_position(ship, &world, &generator);
                assert!(is_safely_apart(p, ship));
                assert!(0 <= p.x && p.x < 800_000);
                assert!(0 <= p.y && p.y < 600_000);
            }
        }
    }
}

#[test]
fn spawn_position_falls_back_to_the_farthest_corner() {
    // In this world only the four corners are far enough from the middle,
    // and a draw all but never gives one.
    let world = World::new(300_001, 400_001).unwrap();
    let generator = RandGenerator::new();
    generator.srand(11);
    let ship = v(150_000, 200_000);
    for _ in 0..20 {
        let p = spawn_position(ship, &world, &generator);
        assert!(is_safely_apart(p, ship));
        assert_eq!(p, v(0, 0));
    }
}

#[test]
fn spawn_position_stays_inside_the_world_when_it_falls_back() {
    let world = World::new(300_001, 400_001).unwrap();
    let generator = RandGenerator::new();
    generator.srand(12);
    // From here the farthest corner is the far one: one unit inside the sides.
    let ship = v(149_999, 199_999);
    for _ in 0..20 {
        let p = spawn_position(ship, &world, &generator);
        assert!(is_safely_apart(p, ship));
        assert_eq!(p, v(300_000, 400_000));
        assert!(p.x < world.width() && p.y < world.height());
    }
}

#[test]
fn choose_position_takes_the_first_safe_candidate() {
    let world = World::new(800_000, 600_000).unwrap();
    let ship = v(400_000, 300_000);
    // (150 000, 300 000) is exactly the safe distance away.
    assert_eq!(choose_position(&world, ship, &vec![(150_000, 300_000)]), v(150_000, 300_000));
    assert_eq!(
        choose_position(&world, ship, &vec![(150_000, 300_000), (0, 0)]),
        v(150_000, 300_000)
    );
    // Draws are reduced modulo the sides before they are judged.
    assert_eq!(
        choose_position(&world, ship, &vec![(800_000 + 10, 600_000 * 3 + 20)]),
        v(10, 20)
    );
}

#[test]
fn choose_position_passes_over_candidates_that_are_too_near() {
    let world = World::new(800_000, 600_000).unwrap();
    let ship = v(400_000, 300_000);
    let draws = vec![
        (400_000, 300_000),
        (150_001, 300_000),
        (1_200_000, 900_000),
        (700_000, 100_000),
        (0, 0),
    ];
    assert_eq!(choose_position(&world, ship, &draws), v(700_000, 100_000));
}

#[test]
fn choose_position_falls_back_to_the_farthest_corner() {
    let world = World::new(800_000, 600_000).unwrap();
    let ship = v(400_000, 300_000);
    assert_eq!(choose_position(&world, ship, &vec![]), v(0, 0));
    let near = vec![(400_000, 300_000), (150_001, 300_000), (500_000, 400_000)];
    assert_eq!(choose_position(&world, ship, &near), v(0, 0));
    assert_eq!(choose_position(&world, v(100_000, 100_000), &vec![]), v(799_999, 599_999));
    assert_eq!(
        choose_position(&world, v(100_000, 500_000), &vec![(100_000, 500_000)]),
        v(799_999, 0)
    );
}

#[test]
fn spawn_position_is_what_its_draws_choose() {
    let world = World::new(800_000, 600_000).unwrap();
    let a = RandGenerator::new();
    let b = RandGenerator::new();
    for seed in 0..30u64 {
        a.srand(seed);
        b.srand(seed);
        for ship in [v(400_000, 300_000), v(10, 10), v(650_000, 480_000)] {
            let p = spawn_position(ship, &world, &a);
            // Take from the second generator the pairs that the first gave.
            let mut draws = Vec::new();
            while draws.len() < SPAWN_ATTEMPTS as usize {
                let pair = (b.rand(), b.rand());
                draws.push(pair);
                if is_safely_apart(world.position_from_draws(pair.0, pair.1), ship) {
                    break;
                }
            }
            assert_eq!(p, choose_position(&world, ship, &draws));
        }
    }
}
