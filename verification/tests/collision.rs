use barbells::barbell::Barbell;
use barbells::geometry::Vector2;
use barbells::ship::Ship;
use barbells::space::World;

fn v(x: i32, y: i32) -> Vector2 {
    Vector2 { x, y }
}

fn ship() -> Ship {
    Ship::new(&World::new(800_000, 600_000).unwrap())
}

fn barbell_at(x: i32, y: i32, rot: i32) -> Barbell {
    Barbell::from_parts(v(x, y), rot, v(0, 0), true).unwrap()
}

#[test]
fn bar_through_the_ship_hits_the_center_only() {
    let ship = ship();
    for rot in [0, 36, 35_964] {
        let barbell = barbell_at(400_000, 300_000, rot);
        assert!(ship.hits_center(&barbell));
        assert!(!ship.hits_bells(&barbell));
    }
}

#[test]
fn bell_through_the_ship_hits_the_bells() {
    let ship = ship();
    for rot in [0, 36, 35_964] {
        // The right end of the bar lies on the ship's middle.
        assert!(ship.hits_bells(&barbell_at(325_000, 300_000, rot)));
    }
    // The left end of the bar lies on the ship's middle.
    assert!(ship.hits_bells(&barbell_at(475_000, 300_000, 0)));
}

#[test]
fn bell_alone_can_hit() {
    let ship = ship();
    for rot in [8_964, 9_000, 9_036] {
        // An upright barbell beside the ship: its upper bell reaches across
        // the ship's right edge, its bar passes the ship by.
        let barbell = barbell_at(412_000, 375_000, rot);
        assert!(ship.hits_bells(&barbell));
        assert!(!ship.hits_center(&barbell));
    }
}

#[test]
fn distant_barbell_hits_nothing() {
    let ship = ship();
    for (x, y) in [(100_000, 100_000), (700_000, 500_000), (400_000, 100_000)] {
        let barbell = barbell_at(x, y, 0);
        assert!(!ship.hits_bells(&barbell));
        assert!(!ship.hits_center(&barbell));
    }
}

#[test]
fn bar_touching_a_vertex_hits() {
    let ship = ship();
    // The bar lies along the ship's base: parallel to it, but it meets the
    // two other edges where they end.
    assert!(ship.hits_center(&barbell_at(400_000, 312_500, 0)));
    // One unit below the base it touches nothing.
    assert!(!ship.hits_center(&barbell_at(400_000, 312_501, 0)));
}

#[test]
fn edge_meets_reads_the_three_edges() {
    let ship = ship();
    // Across the base only.
    assert!(ship.edge_meets(v(400_000, 310_000), v(400_000, 320_000)));
    // Across the left edge only.
    assert!(ship.edge_meets(v(390_000, 300_000), v(398_000, 300_000)));
    // Across the right edge only.
    assert!(ship.edge_meets(v(402_000, 300_000), v(410_000, 300_000)));
    // Inside the triangle, touching no edge.
    assert!(!ship.edge_meets(v(399_000, 305_000), v(401_000, 305_000)));
    // Outside it.
    assert!(!ship.edge_meets(v(0, 0), v(100_000, 0)));
}

#[test]
fn collision_reads_the_vertices_as_last_reloaded() {
    let world = World::new(800_000, 600_000).unwrap();
    let mut ship = Ship::new(&world);
    // A short segment just right of the top vertex, clear of the triangle.
    let p = v(401_000, 287_000);
    let q = v(401_000, 289_000);
    assert!(!ship.edge_meets(p, q));
    ship.rotate(700);
    // The vertices have not moved yet.
    assert!(!ship.edge_meets(p, q));
    ship.reload();
    // Now the top vertex has swung to the right, across the segment.
    assert!(ship.edge_meets(p, q));
}
