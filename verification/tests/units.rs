use platformer_core::actor::{ActorData, Reflection, GRAVITY};
use platformer_core::beam::Direction;
use platformer_core::fixed::FixedPointVector;
use platformer_core::grid::TileGrid;
use platformer_core::surface::{Directions, SurfaceProperties};

fn solid() -> SurfaceProperties {
    SurfaceProperties { solid: true, notify: false, opaque: false }
}

#[test]
fn half_rounds_toward_negative_infinity() {
    let v = FixedPointVector { x: 7, y: -7 };
    let h = v.half();
    assert_eq!(h.x, 3);
    assert_eq!(h.y, -4);
}

#[test]
fn plus_is_componentwise() {
    let a = FixedPointVector { x: 3, y: -4 };
    let b = FixedPointVector { x: 10, y: 40 };
    let c = a.plus(b);
    assert_eq!(c.x, 13);
    assert_eq!(c.y, 36);
}

#[test]
fn any_reports_any_property() {
    assert!(!SurfaceProperties::empty().any());
    assert!(solid().any());
    assert!(SurfaceProperties { solid: false, notify: true, opaque: false }.any());
    assert!(SurfaceProperties { solid: false, notify: false, opaque: true }.any());
}

#[test]
fn direction_bits_encoding() {
    assert_eq!(Directions::empty().bits(), 0);
    assert_eq!(Directions::only_up().bits(), 1);
    assert_eq!(Directions::only_down().bits(), 2);
    assert_eq!(Directions::only_left().bits(), 4);
    assert_eq!(Directions::only_right().bits(), 8);
}

#[test]
fn reflect_main_table() {
    assert_eq!(Direction::Up.reflect_main(), Direction::Left);
    assert_eq!(Direction::Left.reflect_main(), Direction::Up);
    assert_eq!(Direction::Down.reflect_main(), Direction::Right);
    assert_eq!(Direction::Right.reflect_main(), Direction::Down);
}

#[test]
fn reflect_inv_table() {
    assert_eq!(Direction::Up.reflect_inv(), Direction::Right);
    assert_eq!(Direction::Left.reflect_inv(), Direction::Down);
    assert_eq!(Direction::Down.reflect_inv(), Direction::Left);
    assert_eq!(Direction::Right.reflect_inv(), Direction::Up);
}

#[test]
fn rot_quarters_table() {
    assert_eq!(Direction::Right.rot_quarters(), 0);
    assert_eq!(Direction::Down.rot_quarters(), 1);
    assert_eq!(Direction::Left.rot_quarters(), 2);
    assert_eq!(Direction::Up.rot_quarters(), 3);
}

#[test]
fn configure_enables_gravity_on_positive_terminal_velocity() {
    let zero = FixedPointVector { x: 0, y: 0 };
    let a = ActorData::configure(
        true,
        zero,
        zero,
        FixedPointVector { x: 10, y: 10 },
        solid(),
        solid(),
        solid(),
        solid(),
        Reflection::Absorb,
        120,
    );
    assert_eq!(a.gravity, GRAVITY);
    assert_eq!(a.terminal_velocity, 120);
    let b = ActorData::configure(
        false,
        zero,
        zero,
        FixedPointVector { x: 10, y: 10 },
        solid(),
        solid(),
        solid(),
        solid(),
        Reflection::Absorb,
        0,
    );
    assert_eq!(b.gravity, 0);
    assert!(!b.moves);
}

#[test]
fn fall_approaches_terminal_from_below() {
    let zero = FixedPointVector { x: 0, y: 0 };
    let mut a = ActorData::configure(
        true,
        zero,
        zero,
        FixedPointVector { x: 10, y: 10 },
        solid(),
        solid(),
        solid(),
        solid(),
        Reflection::Absorb,
        10000,
    );
    // GRAVITY per tick, clamped at the terminal velocity, never beyond
    let mut last = a.vel.y;
    for _ in 0..10 {
        a.fall();
        assert!(a.vel.y >= last);
        assert!(a.vel.y <= 10000);
        last = a.vel.y;
    }
    assert_eq!(a.vel.y, 10000);
    a.fall();
    assert_eq!(a.vel.y, 10000);
}

#[test]
fn fall_decays_overshoot_by_three_quarters() {
    let zero = FixedPointVector { x: 0, y: 0 };
    let mut a = ActorData::configure(
        true,
        zero,
        zero,
        FixedPointVector { x: 10, y: 10 },
        solid(),
        solid(),
        solid(),
        solid(),
        Reflection::Absorb,
        100,
    );
    a.vel.y = 200;
    a.fall();
    // 100 + (100 * 3) / 4
    assert_eq!(a.vel.y, 175);
    a.fall();
    // 100 + (75 * 3) / 4
    assert_eq!(a.vel.y, 156);
    let mut last = a.vel.y;
    for _ in 0..64 {
        a.fall();
        assert!(a.vel.y <= last);
        assert!(a.vel.y >= 100);
        last = a.vel.y;
    }
    assert_eq!(a.vel.y, 100);
}

#[test]
fn fall_disabled_without_gravity() {
    let zero = FixedPointVector { x: 0, y: 0 };
    let mut a = ActorData::configure(
        true,
        zero,
        zero,
        FixedPointVector { x: 10, y: 10 },
        solid(),
        solid(),
        solid(),
        solid(),
        Reflection::Absorb,
        0,
    );
    a.vel.y = 4321;
    a.fall();
    assert_eq!(a.vel.y, 4321);
}

#[test]
fn edges_derive_from_box() {
    let a = ActorData::configure(
        false,
        FixedPointVector { x: 1000, y: 2000 },
        FixedPointVector { x: 10, y: 20 },
        FixedPointVector { x: 300, y: 400 },
        SurfaceProperties { solid: true, notify: false, opaque: false },
        SurfaceProperties { solid: false, notify: true, opaque: false },
        SurfaceProperties { solid: false, notify: false, opaque: true },
        SurfaceProperties::empty(),
        Reflection::Absorb,
        0,
    );
    let top = a.top_edge();
    assert_eq!((top.pos.x, top.pos.y, top.length), (1010, 2020, 300));
    assert!(top.properties.solid);
    let left = a.left_edge();
    assert_eq!((left.pos.x, left.pos.y, left.length), (1010, 2020, 400));
    assert!(left.properties.notify);
    let bottom = a.bottom_edge();
    assert_eq!((bottom.pos.x, bottom.pos.y, bottom.length), (1010, 2420, 300));
    assert!(bottom.properties.opaque);
    let right = a.right_edge();
    assert_eq!((right.pos.x, right.pos.y, right.length), (1310, 2020, 400));
    assert!(!right.properties.any());
}

#[test]
fn tile_grid_lookup() {
    let mut g = TileGrid::new();
    assert!(!g.is_solid(0, 0));
    g.set_solid(3, -2);
    assert!(g.is_solid(3, -2));
    assert!(!g.is_solid(-3, 2));
    assert!(!g.is_solid(3, 2));
}
