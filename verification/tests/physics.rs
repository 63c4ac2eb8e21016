use platformer_core::actor::{ActorData, Reflection};
use platformer_core::fixed::FixedPointVector;
use platformer_core::game::PlatformerGame;
use platformer_core::grid::TileGrid;
use platformer_core::surface::SurfaceProperties;

const U: i32 = 65536;

fn v(x: i32, y: i32) -> FixedPointVector {
    FixedPointVector { x, y }
}

fn solid() -> SurfaceProperties {
    SurfaceProperties { solid: true, notify: false, opaque: false }
}

fn notify_only() -> SurfaceProperties {
    SurfaceProperties { solid: false, notify: true, opaque: false }
}

fn none() -> SurfaceProperties {
    SurfaceProperties::empty()
}

fn box_actor(moves: bool, pos: FixedPointVector, size: FixedPointVector, e: SurfaceProperties) -> ActorData {
    ActorData::configure(moves, pos, v(0, 0), size, e, e, e, e, Reflection::Absorb, 0)
}

fn set_vel(game: &mut PlatformerGame, i: usize, vel: FixedPointVector) {
    let mut d = game.actor(i);
    d.vel = vel;
    game.set_actor(i, d);
}

/// A mover stops exactly flush against a solid edge, whatever its speed.
#[test]
fn mover_stops_flush_on_solid_edge() {
    for speed in [10 * U, 11 * U, 100 * U, 255 * U] {
        let mut game = PlatformerGame::new(TileGrid::new());
        let mover = game.register_actor(box_actor(true, v(0, 0), v(U, U), solid()));
        let _wall = game.register_actor(box_actor(false, v(10 * U, 0), v(U, U), solid()));
        set_vel(&mut game, mover, v(speed, 0));
        assert!(game.wf_check());
        let events = game.physics_process();
        assert!(events.is_empty());
        let m = game.actor(mover);
        // the mover's right side rests on the wall's left side: zero penetration
        assert_eq!(m.pos.x + m.area_size.x, 10 * U);
        assert_eq!(m.vel.x, 9 * U);
        assert!(m.collided.right);
        assert!(!m.collided.left);
    }
}

/// The same from the other side.
#[test]
fn mover_stops_flush_moving_left() {
    let mut game = PlatformerGame::new(TileGrid::new());
    let mover = game.register_actor(box_actor(true, v(10 * U, 0), v(U, U), solid()));
    let _wall = game.register_actor(box_actor(false, v(0, 0), v(U, U), solid()));
    set_vel(&mut game, mover, v(-100 * U, 0));
    assert!(game.wf_check());
    game.physics_process();
    let m = game.actor(mover);
    assert_eq!(m.pos.x, U);
    assert_eq!(m.vel.x, -9 * U);
    assert!(m.collided.left);
}

/// A mover stops flush against a solid tile as well.
#[test]
fn mover_stops_flush_on_solid_tile() {
    let mut grid = TileGrid::new();
    grid.set_solid(6, 0);
    let mut game = PlatformerGame::new(grid);
    let mover = game.register_actor(box_actor(true, v(0, 0), v(U, U), solid()));
    set_vel(&mut game, mover, v(100 * U, 0));
    assert!(game.wf_check());
    game.physics_process();
    let m = game.actor(mover);
    assert_eq!(m.pos.x + m.area_size.x, 6 * U);
    assert!(m.collided.right);
}

/// Gravity pulls a mover down until it rests flush on a solid floor tile.
#[test]
fn gravity_lands_on_floor_tile() {
    let mut grid = TileGrid::new();
    for x in -4..4 {
        grid.set_solid(x, 5);
    }
    let mut game = PlatformerGame::new(grid);
    let falling = ActorData::configure(
        true,
        v(0, 0),
        v(0, 0),
        v(U, U),
        solid(),
        solid(),
        solid(),
        solid(),
        Reflection::Absorb,
        2 * U,
    );
    let mover = game.register_actor(falling);
    for _ in 0..32 {
        assert!(game.wf_check());
        game.physics_process();
    }
    let m = game.actor(mover);
    assert_eq!(m.pos.y + m.area_size.y, 5 * U);
    assert!(m.collided.down);
    assert_eq!(m.vel.y, 0);
}

/// Chain contact: a mover slamming into two touching boxes settles to a
/// fixed point within one tick, with zero penetration anywhere. The impulse
/// hands the velocity through the chain to its far end.
#[test]
fn chain_settles_in_one_tick() {
    for speed in [U / 4, U / 2, U] {
        let mut game = PlatformerGame::new(TileGrid::new());
        let a = game.register_actor(box_actor(true, v(0, 0), v(U, U), solid()));
        let b = game.register_actor(box_actor(true, v(U, 0), v(U, U), solid()));
        let c = game.register_actor(box_actor(true, v(2 * U, 0), v(U, U), solid()));
        set_vel(&mut game, a, v(speed, 0));
        assert!(game.wf_check());
        game.physics_process();
        let (da, db, dc) = (game.actor(a), game.actor(b), game.actor(c));
        // no box overlaps another
        assert!(da.pos.x + da.area_size.x <= db.pos.x);
        assert!(db.pos.x + db.area_size.x <= dc.pos.x);
        // the blocked actors have settled: the chain handed the motion on
        assert_eq!(da.vel.x, 0);
        assert_eq!(db.vel.x, 0);
        assert_eq!(dc.vel.x, speed);
        assert_eq!(da.pos.x, 0);
        assert_eq!(db.pos.x, U);
        assert_eq!(dc.pos.x, 2 * U + speed);
    }
}

/// A notify-only edge never alters velocity and fires exactly once per tick
/// per qualifying contact.
#[test]
fn notify_only_edge_fires_once_and_keeps_velocity() {
    let mut game = PlatformerGame::new(TileGrid::new());
    let mover = game.register_actor(box_actor(true, v(0, 0), v(U, U), solid()));
    let plate = game.register_actor(box_actor(false, v(4 * U, 0), v(U, U), notify_only()));
    set_vel(&mut game, mover, v(10 * U, 0));
    assert!(game.wf_check());
    let events = game.physics_process();
    assert_eq!(events.len(), 1);
    assert_eq!(events[0].owner, plate);
    assert_eq!(events[0].mover, mover);
    assert_eq!(events[0].direction.bits(), 4); // crossed the owner's left edge
    let m = game.actor(mover);
    assert_eq!(m.vel.x, 10 * U);
    assert_eq!(m.pos.x, 10 * U);
    assert!(!m.collided.right);
}

/// An edge that is both solid and notifying clamps and notifies.
#[test]
fn solid_notify_edge_does_both() {
    let mut game = PlatformerGame::new(TileGrid::new());
    let mover = game.register_actor(box_actor(true, v(0, 0), v(U, U), solid()));
    let both = SurfaceProperties { solid: true, notify: true, opaque: false };
    let wall = game.register_actor(box_actor(false, v(4 * U, 0), v(U, U), both));
    set_vel(&mut game, mover, v(10 * U, 0));
    let events = game.physics_process();
    assert_eq!(events.len(), 1);
    assert_eq!(events[0].owner, wall);
    let m = game.actor(mover);
    assert_eq!(m.pos.x + m.area_size.x, 4 * U);
    assert!(m.collided.right);
}

/// At higher speeds the chain still settles to a fixed point with no box
/// overlapping another, though the hand-off order differs.
#[test]
fn chain_never_penetrates_at_any_speed() {
    for speed in [2 * U, 50 * U, 200 * U] {
        let mut game = PlatformerGame::new(TileGrid::new());
        let a = game.register_actor(box_actor(true, v(0, 0), v(U, U), solid()));
        let b = game.register_actor(box_actor(true, v(U, 0), v(U, U), solid()));
        let c = game.register_actor(box_actor(true, v(2 * U, 0), v(U, U), solid()));
        set_vel(&mut game, a, v(speed, 0));
        assert!(game.wf_check());
        game.physics_process();
        let (da, db, dc) = (game.actor(a), game.actor(b), game.actor(c));
        assert!(da.pos.x + da.area_size.x <= db.pos.x);
        assert!(db.pos.x + db.area_size.x <= dc.pos.x);
    }
}

/// A falling mover lands flush on a static solid actor's top edge and
/// notifies it from above.
#[test]
fn lands_on_top_edge_with_notification() {
    let mut game = PlatformerGame::new(TileGrid::new());
    let mover = game.register_actor(box_actor(true, v(0, 0), v(U, U), solid()));
    let both = SurfaceProperties { solid: true, notify: true, opaque: false };
    let floor = game.register_actor(ActorData::configure(
        false,
        v(0, 6 * U),
        v(0, 0),
        v(4 * U, U),
        both,
        none(),
        none(),
        none(),
        Reflection::Absorb,
        0,
    ));
    set_vel(&mut game, mover, v(0, 20 * U));
    let events = game.physics_process();
    assert_eq!(events.len(), 1);
    assert_eq!(events[0].owner, floor);
    assert_eq!(events[0].direction.bits(), 1); // approached the top edge
    let m = game.actor(mover);
    assert_eq!(m.pos.y + m.area_size.y, 6 * U);
    assert!(m.collided.down);
    // the clamp leaves the one-tick approach velocity in place; the next
    // tick re-clamps it to zero against the same resting contact
    assert_eq!(m.vel.y, 5 * U);
    let events = game.physics_process();
    assert_eq!(events.len(), 1);
    let m = game.actor(mover);
    assert_eq!(m.pos.y + m.area_size.y, 6 * U);
    assert_eq!(m.vel.y, 0);
}

/// The previous tick's collision set is snapshotted before being cleared.
#[test]
fn collided_old_snapshots_previous_tick() {
    let mut game = PlatformerGame::new(TileGrid::new());
    let mover = game.register_actor(box_actor(true, v(0, 0), v(U, U), solid()));
    let _wall = game.register_actor(box_actor(false, v(4 * U, 0), v(U, U), solid()));
    set_vel(&mut game, mover, v(10 * U, 0));
    game.physics_process();
    assert!(game.actor(mover).collided.right);
    assert!(!game.actor(mover).collided_old.right);
    // second tick: the leftover clamp velocity re-qualifies once and drops
    // to zero; the old set now holds the first tick's contact
    game.physics_process();
    assert!(game.actor(mover).collided.right);
    assert!(game.actor(mover).collided_old.right);
    assert_eq!(game.actor(mover).vel.x, 0);
    // third tick: at rest, nothing qualifies any more
    game.physics_process();
    assert!(!game.actor(mover).collided.right);
    assert!(game.actor(mover).collided_old.right);
}

/// Without obstructions a mover just integrates its velocity on both axes,
/// x before y.
#[test]
fn free_motion_integrates_both_axes() {
    let mut game = PlatformerGame::new(TileGrid::new());
    let mover = game.register_actor(box_actor(true, v(0, 0), v(U, U), none()));
    set_vel(&mut game, mover, v(3 * U, -2 * U));
    let events = game.physics_process();
    assert!(events.is_empty());
    let m = game.actor(mover);
    assert_eq!(m.pos.x, 3 * U);
    assert_eq!(m.pos.y, -2 * U);
}

/// The vertical suppression rule: once a mover without a solid top has any
/// vertical collision this tick, a solid bottom edge above no longer clamps
/// it; with a solid top of its own it still does.
#[test]
fn up_collision_suppressed_for_non_solid_top() {
    for (mover_top_solid, expect_vel) in [(false, -2 * U), (true, -U)] {
        let mut grid = TileGrid::new();
        grid.set_solid(0, -3);
        let mut game = PlatformerGame::new(grid);
        let top = if mover_top_solid { solid() } else { none() };
        let mover = game.register_actor(ActorData::configure(
            true,
            v(0, 0),
            v(0, 0),
            v(U, U),
            top,
            none(),
            none(),
            none(),
            Reflection::Absorb,
            0,
        ));
        // a ceiling actor with a solid underside, nearer than the tile
        let _ceiling = game.register_actor(ActorData::configure(
            false,
            v(0, -2 * U),
            v(0, 0),
            v(U, U),
            none(),
            none(),
            solid(),
            none(),
            Reflection::Absorb,
            0,
        ));
        set_vel(&mut game, mover, v(0, -5 * U));
        assert!(game.wf_check());
        game.physics_process();
        let m = game.actor(mover);
        assert_eq!(m.vel.y, expect_vel);
        assert!(m.collided.up);
    }
}

/// Tile helpers: floor conversion down to tile coordinates and back.
#[test]
fn tile_position_round_trip() {
    let game = PlatformerGame::new(TileGrid::new());
    let t = game.tile_pos(v(U + 5, -1));
    assert_eq!(t.x, 1);
    assert_eq!(t.y, -1);
    assert_eq!(game.un_tile_pos(1), U);
    assert_eq!(game.un_tile_pos(-2), -2 * U);
    let t = game.tile_pos(v(-U, 0));
    assert_eq!(t.x, -1);
    assert_eq!(t.y, 0);
}

/// The executable well-formedness check notices a corrupted beam counter.
#[test]
fn wf_check_rejects_corrupted_counter() {
    let mut game = PlatformerGame::new(TileGrid::new());
    game.register_actor(box_actor(false, v(0, 0), v(U, U), solid()));
    assert!(game.wf_check());
    game.actors[0].beams = 5;
    assert!(!game.wf_check());
    game.actors[0].beams = 0;
    assert!(game.wf_check());
}

/// A static actor is never integrated, even with a velocity written to it.
#[test]
fn static_actor_never_moves() {
    let mut game = PlatformerGame::new(TileGrid::new());
    let rock = game.register_actor(box_actor(false, v(0, 0), v(U, U), solid()));
    game.physics_process();
    let r = game.actor(rock);
    assert_eq!(r.pos.x, 0);
    assert_eq!(r.pos.y, 0);
}
