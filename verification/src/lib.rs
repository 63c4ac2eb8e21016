//! Deterministic 2D platformer physics and light-beam simulation core.
//!
//! All physical quantities live in a fixed-point integer space (65536 units
//! per display unit), so every tick is exactly reproducible. The crate
//! provides the actor data model, per-edge surface queries, the per-tick
//! collision resolver (an iterative fixed-point convergence over actor
//! velocities against a tile grid and against other actors' edges), and the
//! multi-bounce beam tracer that shares the same surface model.
//!
//! The host engine (scene graph, rendering, input) stays outside: it fills
//! actor records from its per-node configuration, calls the tick, applies
//! the returned notification events, and renders the beam segments.

use vstd::prelude::*;

pub mod actor;
pub mod beam;
pub mod fixed;
pub mod game;
pub mod grid;
pub mod laws;
pub mod resolve;
pub mod resolve_y;
pub mod surface;
pub mod trace;

verus! {

/// Magnitude bound for velocities, collision-box offsets and sizes,
/// gravity and terminal velocity (256 display units).
pub const LIM: i32 = 0x0100_0000;

/// Magnitude bound for actor and emitter positions at tick entry
/// (512 display units). One tick moves a position by at most `LIM` per
/// axis, so positions stay below `POS_RUN_LIM` throughout a tick.
pub const POS_LIM: i32 = 0x0200_0000;

/// Magnitude bound that positions respect at every point inside a tick.
pub const POS_RUN_LIM: i32 = 0x0400_0000;

/// Magnitude bound for a traced beam segment's start: every reflection point
/// lies on a hit actor's box, so it stays within an actor position plus the
/// box offset and size.
pub const BEAM_LIM: i32 = 0x0700_0000;

/// The bounce budget of one beam trace. A beam caught in a mirror cycle is
/// treated as absorbed once the budget is spent, so a trace always ends.
pub const MAX_BOUNCES: usize = 64;

} // verus!
