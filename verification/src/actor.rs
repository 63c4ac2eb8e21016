//! The per-actor state block and its surface model: edge queries and
//! gravity integration.

use vstd::prelude::*;

use crate::fixed::FixedPointVector;
use crate::surface::{Directions, SurfaceProperties};
use crate::{LIM, POS_LIM, POS_RUN_LIM};

verus! {

/// Default gravity applied to an actor whose configuration enables falling.
pub const GRAVITY: i32 = 3000;

/// One side of an actor's collision box, queried on demand and never stored.
#[derive(Clone, Copy, PartialEq, Eq, Structural, Debug)]
pub struct Edge {
    /// World position of the edge's start (its top or left end).
    pub pos: FixedPointVector,
    /// Extent of the edge along its own axis.
    pub length: i32,
    /// The surface properties of this side.
    pub properties: SurfaceProperties,
}

/// How an actor answers an incoming beam that hits one of its opaque edges.
#[derive(Clone, Copy, PartialEq, Eq, Structural, Debug)]
pub enum Reflection {
    /// The beam stops here; the actor becomes the beam's hit actor.
    Absorb,
    /// Direct mirror: up and left swap, down and right swap.
    Direct,
    /// Inverse mirror: up and right swap, down and left swap.
    Inverse,
}

/// The mutable state block of one actor. The simulation owns an arena of
/// these; scripted collaborators hold the arena index, not a reference.
#[derive(Clone, Copy, PartialEq, Eq, Structural, Debug)]
pub struct ActorData {
    /// Static actors are never integrated, but still act as collision targets.
    pub moves: bool,
    /// World position, fixed-point units.
    pub pos: FixedPointVector,
    /// Velocity per tick, fixed-point units.
    pub vel: FixedPointVector,
    /// Scratch field used only inside one axis's convergence loop.
    pub next_vel: i32,
    /// Collision box, relative to `pos`.
    pub area_offset: FixedPointVector,
    /// Collision box size; componentwise non-negative.
    pub area_size: FixedPointVector,
    /// Directions in which this actor collided this tick.
    pub collided: Directions,
    /// `collided` of the previous tick, snapshotted before the tick clears it.
    pub collided_old: Directions,
    /// Per-tick fall acceleration; zero disables falling.
    pub gravity: i32,
    /// The downward speed that `fall` approaches.
    pub terminal_velocity: i32,
    /// Surface properties of the four edges.
    pub top: SurfaceProperties,
    pub left: SurfaceProperties,
    pub bottom: SurfaceProperties,
    pub right: SurfaceProperties,
    /// How this actor reflects or absorbs beams that hit an opaque edge.
    pub reflection: Reflection,
    /// Number of active beams currently terminating on this actor.
    pub beams: i32,
    /// Generic boolean output read by collaborators (door open, plate pressed).
    pub signal: bool,
}

impl ActorData {
    /// Left side of the collision box in world units.
    pub open spec fn trail_x(self) -> int {
        self.pos.x + self.area_offset.x
    }

    /// Right side of the collision box in world units.
    pub open spec fn lead_x(self) -> int {
        self.pos.x + self.area_offset.x + self.area_size.x
    }

    /// Top side of the collision box in world units.
    pub open spec fn trail_y(self) -> int {
        self.pos.y + self.area_offset.y
    }

    /// Bottom side of the collision box in world units.
    pub open spec fn lead_y(self) -> int {
        self.pos.y + self.area_offset.y + self.area_size.y
    }

    /// Bounds that every actor record respects at every point inside a tick:
    /// box parameters, velocities and fall tuning within [`LIM`], position
    /// within [`POS_RUN_LIM`], beam counter non-negative.
    pub open spec fn ok(self) -> bool {
        &&& -POS_RUN_LIM <= self.pos.x <= POS_RUN_LIM
        &&& -POS_RUN_LIM <= self.pos.y <= POS_RUN_LIM
        &&& -LIM <= self.vel.x <= LIM
        &&& -LIM <= self.vel.y <= LIM
        &&& -LIM <= self.next_vel <= LIM
        &&& -LIM <= self.area_offset.x <= LIM
        &&& -LIM <= self.area_offset.y <= LIM
        &&& 0 <= self.area_size.x <= LIM
        &&& 0 <= self.area_size.y <= LIM
        &&& 0 <= self.gravity <= LIM
        &&& 0 <= self.terminal_velocity <= LIM
        &&& 0 <= self.beams
    }

    /// [`ok`](Self::ok), tightened to the position bound that holds at tick
    /// entry, before any integration of this tick.
    pub open spec fn entry_ok(self) -> bool {
        &&& self.ok()
        &&& -POS_LIM <= self.pos.x <= POS_LIM
        &&& -POS_LIM <= self.pos.y <= POS_LIM
    }

    /// Builds an actor record from the host's per-actor configuration, as
    /// consumed once at startup. A positive `terminal_velocity` enables
    /// falling under [`GRAVITY`]; zero disables it.
    pub fn configure(
        moves: bool,
        pos: FixedPointVector,
        area_offset: FixedPointVector,
        area_size: FixedPointVector,
        top: SurfaceProperties,
        left: SurfaceProperties,
        bottom: SurfaceProperties,
        right: SurfaceProperties,
        reflection: Reflection,
        terminal_velocity: i32,
    ) -> (r: ActorData)
        requires
            0 <= terminal_velocity,
        ensures
            r == (ActorData {
                moves,
                pos,
                vel: FixedPointVector { x: 0, y: 0 },
                next_vel: 0,
                area_offset,
                area_size,
                collided: Directions { up: false, down: false, left: false, right: false },
                collided_old: Directions { up: false, down: false, left: false, right: false },
                gravity: if terminal_velocity > 0 { GRAVITY } else { 0 },
                terminal_velocity,
                top,
                left,
                bottom,
                right,
                reflection,
                beams: 0,
                signal: false,
            }),
    {
        ActorData {
            moves,
            pos,
            vel: FixedPointVector { x: 0, y: 0 },
            next_vel: 0,
            area_offset,
            area_size,
            collided: Directions::empty(),
            collided_old: Directions::empty(),
            gravity: if terminal_velocity > 0 { GRAVITY } else { 0 },
            terminal_velocity,
            top,
            left,
            bottom,
            right,
            reflection,
            beams: 0,
            signal: false,
        }
    }

    /// The top edge: starts at the box's top-left corner, runs along x.
    pub fn top_edge(&self) -> (r: Edge)
        requires
            i32::MIN <= self.trail_x() <= i32::MAX,
            i32::MIN <= self.trail_y() <= i32::MAX,
        ensures
            r.pos.x == self.trail_x(),
            r.pos.y == self.trail_y(),
            r.length == self.area_size.x,
            r.properties == self.top,
    {
        Edge {
            pos: FixedPointVector { x: self.pos.x + self.area_offset.x, y: self.pos.y + self.area_offset.y },
            length: self.area_size.x,
            properties: self.top,
        }
    }

    /// The left edge: starts at the box's top-left corner, runs along y.
    pub fn left_edge(&self) -> (r: Edge)
        requires
            i32::MIN <= self.trail_x() <= i32::MAX,
            i32::MIN <= self.trail_y() <= i32::MAX,
        ensures
            r.pos.x == self.trail_x(),
            r.pos.y == self.trail_y(),
            r.length == self.area_size.y,
            r.properties == self.left,
    {
        Edge {
            pos: FixedPointVector { x: self.pos.x + self.area_offset.x, y: self.pos.y + self.area_offset.y },
            length: self.area_size.y,
            properties: self.left,
        }
    }

    /// The bottom edge: starts at the box's bottom-left corner, runs along x.
    pub fn bottom_edge(&self) -> (r: Edge)
        requires
            i32::MIN <= self.trail_x() <= i32::MAX,
            i32::MIN <= self.lead_y() <= i32::MAX,
            i32::MIN <= self.trail_y() <= i32::MAX,
        ensures
            r.pos.x == self.trail_x(),
            r.pos.y == self.lead_y(),
            r.length == self.area_size.x,
            r.properties == self.bottom,
    {
        Edge {
            pos: FixedPointVector {
                x: self.pos.x + self.area_offset.x,
                y: (self.pos.y + self.area_offset.y) + self.area_size.y,
            },
            length: self.area_size.x,
            properties: self.bottom,
        }
    }

    /// The right edge: starts at the box's top-right corner, runs along y.
    pub fn right_edge(&self) -> (r: Edge)
        requires
            i32::MIN <= self.lead_x() <= i32::MAX,
            i32::MIN <= self.trail_x() <= i32::MAX,
            i32::MIN <= self.trail_y() <= i32::MAX,
        ensures
            r.pos.x == self.lead_x(),
            r.pos.y == self.trail_y(),
            r.length == self.area_size.y,
            r.properties == self.right,
    {
        Edge {
            pos: FixedPointVector {
                x: (self.pos.x + self.area_offset.x) + self.area_size.x,
                y: self.pos.y + self.area_offset.y,
            },
            length: self.area_size.y,
            properties: self.right,
        }
    }

    /// Checks the bounds of [`Self::entry_ok`] executably.
    pub fn entry_ok_check(&self) -> (r: bool)
        ensures
            r == self.entry_ok(),
    {
        -POS_LIM <= self.pos.x && self.pos.x <= POS_LIM && -POS_LIM <= self.pos.y && self.pos.y
            <= POS_LIM && -LIM <= self.vel.x && self.vel.x <= LIM && -LIM <= self.vel.y
            && self.vel.y <= LIM && -LIM <= self.next_vel && self.next_vel <= LIM && -LIM
            <= self.area_offset.x && self.area_offset.x <= LIM && -LIM <= self.area_offset.y
            && self.area_offset.y <= LIM && 0 <= self.area_size.x && self.area_size.x <= LIM && 0
            <= self.area_size.y && self.area_size.y <= LIM && 0 <= self.gravity && self.gravity
            <= LIM && 0 <= self.terminal_velocity && self.terminal_velocity <= LIM && 0
            <= self.beams
    }

    /// Applies one tick of gravity to `vel.y`: below the terminal velocity,
    /// approach it additively by `gravity`; above it, decay the overshoot to
    /// three quarters. Everything else is unchanged.
    pub fn fall(&mut self)
        requires
            old(self).ok(),
        ensures
            *final(self) == (ActorData {
                vel: FixedPointVector { x: old(self).vel.x, y: fall_vel_y(*old(self)) as i32 },
                ..*old(self)
            }),
            final(self).ok(),
    {
        if self.gravity != 0 {
            if self.vel.y <= self.terminal_velocity {
                let risen: i32 = self.vel.y + self.gravity;
                self.vel.y = if self.terminal_velocity < risen { self.terminal_velocity } else { risen };
            } else {
                let over: i32 = self.vel.y - self.terminal_velocity;
                self.vel.y = self.terminal_velocity + (over * 3) / 4;
            }
        }
    }
}

/// The vertical velocity after one application of [`ActorData::fall`].
pub open spec fn fall_vel_y(a: ActorData) -> int {
    if a.gravity == 0 {
        a.vel.y as int
    } else if a.vel.y <= a.terminal_velocity {
        if a.vel.y + a.gravity <= a.terminal_velocity {
            a.vel.y + a.gravity
        } else {
            a.terminal_velocity as int
        }
    } else {
        a.terminal_velocity + ((a.vel.y - a.terminal_velocity) * 3) / 4
    }
}

/// Under repeated falling the vertical velocity approaches the terminal
/// velocity from either side and never crosses it: from below it never
/// exceeds the terminal velocity, from above the overshoot strictly shrinks
/// while staying non-negative.
pub proof fn lemma_fall_approaches_terminal(a: ActorData)
    requires
        a.ok(),
        a.gravity > 0,
    ensures
        a.vel.y <= a.terminal_velocity ==> a.vel.y <= fall_vel_y(a) <= a.terminal_velocity,
        a.vel.y > a.terminal_velocity ==> a.terminal_velocity <= fall_vel_y(a) < a.vel.y,
{
    if a.vel.y > a.terminal_velocity {
        let d = a.vel.y - a.terminal_velocity;
        assert(0 <= (d * 3) / 4 < d) by (nonlinear_arith)
            requires 1 <= d
        ;
    }
}

} // verus!
