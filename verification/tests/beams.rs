use platformer_core::actor::{ActorData, Reflection};
use platformer_core::beam::{Beam, Direction};
use platformer_core::fixed::FixedPointVector;
use platformer_core::game::PlatformerGame;
use platformer_core::grid::TileGrid;
use platformer_core::surface::SurfaceProperties;

const U: i32 = 65536;

fn v(x: i32, y: i32) -> FixedPointVector {
    FixedPointVector { x, y }
}

fn opaque() -> SurfaceProperties {
    SurfaceProperties { solid: false, notify: false, opaque: true }
}

fn opaque_box(
    moves: bool,
    pos: FixedPointVector,
    size: FixedPointVector,
    reflection: Reflection,
) -> ActorData {
    ActorData::configure(
        moves,
        pos,
        v(0, 0),
        size,
        opaque(),
        opaque(),
        opaque(),
        opaque(),
        reflection,
        0,
    )
}

/// The worked example: emitter at the origin facing right, one static
/// opaque absorbing actor whose left edge is at x = 100 spanning
/// y in [-10, 10]; one segment of length 100, and the actor counts one beam.
#[test]
fn single_opaque_hit_from_origin() {
    let mut game = PlatformerGame::new(TileGrid::new());
    let target = game.register_actor(opaque_box(false, v(100, -10), v(50, 20), Reflection::Absorb));
    let b = game.register_beam(Beam::new(true, v(0, 0), Direction::Right));
    assert!(game.wf_check());
    game.physics_process();
    let beam = game.beam(b);
    assert_eq!(beam.segments.len(), 1);
    assert_eq!(beam.segments[0].start.x, 0);
    assert_eq!(beam.segments[0].start.y, 0);
    assert_eq!(beam.segments[0].length, 100);
    assert_eq!(beam.segments[0].direction, Direction::Right);
    assert!(beam.segments[0].end);
    assert_eq!(beam.hit_actor, Some(target));
    assert_eq!(game.actor(target).beams, 1);
    // the padded bounding box covers the single segment
    assert_eq!(game.beam(b).left, -1);
    assert_eq!(game.beam(b).right, 101);
    assert_eq!(game.beam(b).top, -1);
    assert_eq!(game.beam(b).bottom, 1);
}

/// Of several opaque actors the nearest one wins.
#[test]
fn nearest_opaque_actor_wins() {
    let mut game = PlatformerGame::new(TileGrid::new());
    let far = game.register_actor(opaque_box(false, v(300, -10), v(50, 20), Reflection::Absorb));
    let near = game.register_actor(opaque_box(false, v(120, -10), v(50, 20), Reflection::Absorb));
    let b = game.register_beam(Beam::new(true, v(0, 0), Direction::Right));
    game.physics_process();
    let beam = game.beam(b);
    assert_eq!(beam.segments.len(), 1);
    assert_eq!(beam.segments[0].length, 120);
    assert_eq!(beam.hit_actor, Some(near));
    assert_eq!(game.actor(near).beams, 1);
    assert_eq!(game.actor(far).beams, 0);
}

/// A solid tile truncates the segment before a farther actor and ends the
/// trace with no hit actor.
#[test]
fn solid_tile_truncates_before_actor() {
    let mut grid = TileGrid::new();
    grid.set_solid(2, 0);
    let mut game = PlatformerGame::new(grid);
    let target =
        game.register_actor(opaque_box(false, v(5 * U, -10), v(50, 20), Reflection::Absorb));
    let b = game.register_beam(Beam::new(true, v(0, 0), Direction::Right));
    game.physics_process();
    let beam = game.beam(b);
    assert_eq!(beam.segments.len(), 1);
    assert_eq!(beam.segments[0].length, 2 * U);
    assert_eq!(beam.hit_actor, None);
    assert_eq!(game.actor(target).beams, 0);
}

/// Removing the obstruction extends the beam to the next one on the next
/// recomputation; the counters move with the hit.
#[test]
fn beam_extends_when_obstruction_moves_away() {
    let mut game = PlatformerGame::new(TileGrid::new());
    let near = game.register_actor(opaque_box(true, v(100, -10), v(50, 20), Reflection::Absorb));
    let far = game.register_actor(opaque_box(false, v(400, -10), v(50, 20), Reflection::Absorb));
    let b = game.register_beam(Beam::new(true, v(0, 0), Direction::Right));
    game.physics_process();
    assert_eq!(game.beam(b).segments[0].length, 100);
    assert_eq!(game.actor(near).beams, 1);
    assert_eq!(game.actor(far).beams, 0);
    // the near actor climbs out of the beam's plane; its motion makes the
    // beam dirty, and the next tick retraces to the far actor
    let mut d = game.actor(near);
    d.vel = v(0, -64);
    game.set_actor(near, d);
    game.physics_process();
    let beam = game.beam(b);
    assert_eq!(beam.segments.len(), 1);
    assert_eq!(beam.segments[0].length, 400);
    assert_eq!(beam.hit_actor, Some(far));
    assert_eq!(game.actor(near).beams, 0);
    assert_eq!(game.actor(far).beams, 1);
}

/// A direct mirror deflects a leftward beam upward; an inverse mirror
/// deflects it downward. The segment is extended across the mirror's box by
/// the perpendicular offset rule.
#[test]
fn direct_and_inverse_mirrors_deflect() {
    // beam heading left from the origin; mirror box x in [-200, -100],
    // y in [-5, 15], so the beam enters 5 units below the top
    for (reflection, expect_dir, expect_len) in [
        (Reflection::Direct, Direction::Up, 115),
        (Reflection::Inverse, Direction::Down, 105),
    ] {
        let mut game = PlatformerGame::new(TileGrid::new());
        let mirror = game.register_actor(opaque_box(false, v(-200, -5), v(100, 20), reflection));
        // a backstop far above and below so the deflected ray terminates
        let _cap_up =
            game.register_actor(opaque_box(false, v(-160, -900), v(20, 50), Reflection::Absorb));
        let _cap_down =
            game.register_actor(opaque_box(false, v(-160, 850), v(20, 50), Reflection::Absorb));
        let b = game.register_beam(Beam::new(true, v(0, 0), Direction::Left));
        game.physics_process();
        let beam = game.beam(b);
        assert_eq!(beam.segments.len(), 2);
        assert_eq!(beam.segments[0].direction, Direction::Left);
        assert_eq!(beam.segments[0].length, expect_len);
        assert!(!beam.segments[0].end);
        assert_eq!(beam.segments[1].direction, expect_dir);
        assert_eq!(beam.segments[1].start.x, -expect_len);
        assert_eq!(beam.segments[1].start.y, 0);
        assert!(beam.segments[1].end);
        // the mirror deflects, it does not count as the hit
        assert_eq!(game.actor(mirror).beams, 0);
    }
}

/// Deactivating a beam releases its hit actor and clears the geometry;
/// reactivating restores both, with the counter never double-counted.
#[test]
fn beam_counter_follows_activation() {
    let mut game = PlatformerGame::new(TileGrid::new());
    let target = game.register_actor(opaque_box(false, v(100, -10), v(50, 20), Reflection::Absorb));
    let b = game.register_beam(Beam::new(true, v(0, 0), Direction::Right));
    game.physics_process();
    assert_eq!(game.actor(target).beams, 1);
    game.set_beam_active(b, false);
    game.physics_process();
    assert_eq!(game.actor(target).beams, 0);
    assert_eq!(game.beam(b).segments.len(), 0);
    assert_eq!(game.beam(b).hit_actor, None);
    game.set_beam_active(b, true);
    game.physics_process();
    assert_eq!(game.actor(target).beams, 1);
    assert_eq!(game.beam(b).segments.len(), 1);
    // an idle tick recomputes nothing and never double-counts
    game.physics_process();
    assert_eq!(game.actor(target).beams, 1);
}

/// Two beams resting on one actor count twice; retiring one leaves the
/// other's contribution alone.
#[test]
fn overlapping_beams_accumulate() {
    let mut game = PlatformerGame::new(TileGrid::new());
    let target = game.register_actor(opaque_box(false, v(100, -20), v(50, 40), Reflection::Absorb));
    let b1 = game.register_beam(Beam::new(true, v(0, -10), Direction::Right));
    let b2 = game.register_beam(Beam::new(true, v(0, 10), Direction::Right));
    game.physics_process();
    assert_eq!(game.actor(target).beams, 2);
    assert_eq!(game.beam(b1).hit_actor, Some(target));
    assert_eq!(game.beam(b2).hit_actor, Some(target));
    game.set_beam_active(b1, false);
    game.physics_process();
    assert_eq!(game.actor(target).beams, 1);
    assert_eq!(game.beam(b2).hit_actor, Some(target));
}

/// An all-signals gate drives a beam's activation, as an emitter's input
/// actors do.
#[test]
fn all_signals_gates_activation() {
    let mut game = PlatformerGame::new(TileGrid::new());
    let in1 = game.register_actor(opaque_box(false, v(-500, -500), v(10, 10), Reflection::Absorb));
    let in2 = game.register_actor(opaque_box(false, v(-500, 500), v(10, 10), Reflection::Absorb));
    let inputs = vec![in1, in2];
    assert!(!game.all_signals(&inputs));
    let mut d = game.actor(in1);
    d.signal = true;
    game.set_actor(in1, d);
    assert!(!game.all_signals(&inputs));
    let mut d = game.actor(in2);
    d.signal = true;
    game.set_actor(in2, d);
    assert!(game.all_signals(&inputs));
    assert!(game.all_signals(&Vec::new()));
}
