//! The per-tick collision resolver.
//!
//! Each axis is resolved by a fixed-point iteration: every pass sweeps every
//! moving actor against the tile grid and against every other actor's facing
//! edge, then commits the updated velocities; the loop repeats while any
//! velocity changed, so collisions cascade transitively through a chain of
//! contacting actors within one tick. Only after an axis converges are
//! positions integrated on that axis.

use vstd::prelude::*;

use crate::actor::ActorData;
use crate::fixed::FixedPointVector;
use crate::grid::{
    first_col, first_solid_col, last_col, last_solid_col, lemma_tile_bounds, lemma_tile_mono,
    tile_coord, tile_of, world_of, TileGrid, TILE_SIZE,
};
use crate::surface::Directions;
use crate::LIM;

verus! {

/// One collision notification: while resolving, `mover` crossed a notifying
/// edge of `owner`, approaching it from `direction`. The host dispatches
/// these to the owner's scripted collaborator after the tick; a qualifying
/// contact produces one event per convergence pass it qualifies in.
#[derive(Clone, Copy, PartialEq, Eq, Structural, Debug)]
pub struct Notification {
    /// Arena index of the actor whose edge was crossed.
    pub owner: usize,
    /// Arena index of the actor that crossed it.
    pub mover: usize,
    /// The edge that was crossed, as seen from its owner.
    pub direction: Directions,
}

/// Every actor in the arena is within bounds.
pub open spec fn all_ok(s: Seq<ActorData>) -> bool {
    forall|i: int| 0 <= i < s.len() ==> (#[trigger] s[i]).ok()
}

/// The movers list indexes exactly the moving actors, in ascending order.
pub open spec fn movers_index(s: Seq<ActorData>, movers: Seq<usize>) -> bool {
    &&& forall|k: int|
        0 <= k < movers.len() ==> (#[trigger] movers[k]) < s.len() && s[movers[k] as int].moves
    &&& forall|k1: int, k2: int|
        0 <= k1 < k2 < movers.len() ==> #[trigger] movers[k1] < #[trigger] movers[k2]
    &&& forall|i: int|
        0 <= i < s.len() && (#[trigger] s[i]).moves ==> exists|k: int|
            0 <= k < movers.len() && movers[k] == i
}

/// Every moving actor's scratch velocity agrees with its committed x
/// velocity, as holds at the start of every x-axis pass.
pub open spec fn seeded_x(s: Seq<ActorData>) -> bool {
    forall|i: int| 0 <= i < s.len() && (#[trigger] s[i]).moves ==> s[i].next_vel == s[i].vel.x
}

/// Every moving actor's scratch velocity agrees with its committed y
/// velocity, as holds at the start of every y-axis pass.
pub open spec fn seeded_y(s: Seq<ActorData>) -> bool {
    forall|i: int| 0 <= i < s.len() && (#[trigger] s[i]).moves ==> s[i].next_vel == s[i].vel.y
}

/// `b` agrees with `a` on every field a sweep reads: everything but the
/// scratch velocity and the collision set, which a pass rewrites.
pub open spec fn pass_view_eq(a: ActorData, b: ActorData) -> bool {
    &&& a.moves == b.moves
    &&& a.pos == b.pos
    &&& a.vel == b.vel
    &&& a.area_offset == b.area_offset
    &&& a.area_size == b.area_size
    &&& a.collided_old == b.collided_old
    &&& a.gravity == b.gravity
    &&& a.terminal_velocity == b.terminal_velocity
    &&& a.top == b.top
    &&& a.left == b.left
    &&& a.bottom == b.bottom
    &&& a.right == b.right
    &&& a.reflection == b.reflection
    &&& a.beams == b.beams
    &&& a.signal == b.signal
}

// ---------------------------------------------------------------------------
// X axis: actor-versus-actor sweep
// ---------------------------------------------------------------------------

/// Mover `a`, moving right relative to `b`, would cross `b`'s left edge this
/// tick while overlapping it vertically, and the edge has some property.
pub open spec fn qual_right(a: ActorData, b: ActorData) -> bool {
    let rmov = a.vel.x - b.vel.x;
    &&& rmov > 0
    &&& (b.left.solid || b.left.notify || b.left.opaque)
    &&& b.trail_y() < a.lead_y()
    &&& b.lead_y() > a.trail_y()
    &&& b.trail_x() >= a.lead_x()
    &&& b.trail_x() < a.lead_x() + rmov
}

/// The clamped x velocity that rests `a`'s right side flush against `b`'s
/// left edge after both move: the edge's position plus `b`'s own velocity.
pub open spec fn clamp_right(a: ActorData, b: ActorData) -> int {
    b.trail_x() + b.vel.x - a.lead_x()
}

/// Mover `a`, moving left relative to `b`, would cross `b`'s right edge this
/// tick while overlapping it vertically, and the edge has some property.
pub open spec fn qual_left(a: ActorData, b: ActorData) -> bool {
    let rmov = a.vel.x - b.vel.x;
    &&& rmov < 0
    &&& (b.right.solid || b.right.notify || b.right.opaque)
    &&& b.trail_y() < a.lead_y()
    &&& b.lead_y() > a.trail_y()
    &&& b.lead_x() <= a.trail_x()
    &&& b.lead_x() > a.trail_x() + rmov
}

/// The clamped x velocity that rests `a`'s left side flush against `b`'s
/// right edge after both move.
pub open spec fn clamp_left(a: ActorData, b: ActorData) -> int {
    b.lead_x() + b.vel.x - a.trail_x()
}

/// The x-axis actor sweep of mover `a` against the first `n` actors, folding
/// left to right in arena order: each qualifying solid edge overwrites the
/// scratch velocity with its clamp and accumulates its direction bit. The
/// fold starts from `a.next_vel` and `a.collided`.
pub open spec fn sweep_x(a: ActorData, others: Seq<ActorData>, n: int) -> (int, Directions)
    decreases n,
{
    if n <= 0 {
        (a.next_vel as int, a.collided)
    } else {
        let prev = sweep_x(a, others, n - 1);
        let b = others[n - 1];
        let nv = if qual_right(a, b) && b.left.solid {
            clamp_right(a, b)
        } else if qual_left(a, b) && b.right.solid {
            clamp_left(a, b)
        } else {
            prev.0
        };
        let col = Directions {
            right: prev.1.right || (qual_right(a, b) && b.left.solid),
            left: prev.1.left || (qual_left(a, b) && b.right.solid),
            up: prev.1.up,
            down: prev.1.down,
        };
        (nv, col)
    }
}

/// The notifications the x-axis sweep of mover `m` emits against the first
/// `n` actors, in arena order: one per qualifying notifying edge.
pub open spec fn sweep_x_events(
    a: ActorData,
    others: Seq<ActorData>,
    m: usize,
    n: int,
) -> Seq<Notification>
    decreases n,
{
    if n <= 0 {
        Seq::empty()
    } else {
        let pre = sweep_x_events(a, others, m, n - 1);
        let b = others[n - 1];
        let j = (n - 1) as usize;
        if qual_right(a, b) && b.left.notify {
            pre.push(
                Notification {
                    owner: j,
                    mover: m,
                    direction: Directions { up: false, down: false, left: true, right: false },
                },
            )
        } else if qual_left(a, b) && b.right.notify {
            pre.push(
                Notification {
                    owner: j,
                    mover: m,
                    direction: Directions { up: false, down: false, left: false, right: true },
                },
            )
        } else {
            pre
        }
    }
}

/// The sweep reads only pass-view fields of the other actors, so two arenas
/// that agree on those fields sweep identically.
pub proof fn lemma_sweep_x_view(
    a: ActorData,
    s1: Seq<ActorData>,
    s2: Seq<ActorData>,
    m: usize,
    n: int,
)
    requires
        s1.len() == s2.len(),
        forall|i: int| 0 <= i < s1.len() ==> pass_view_eq(#[trigger] s1[i], s2[i]),
        n <= s1.len(),
    ensures
        sweep_x(a, s1, n) == sweep_x(a, s2, n),
        sweep_x_events(a, s1, m, n) == sweep_x_events(a, s2, m, n),
    decreases n,
{
    if n > 0 {
        lemma_sweep_x_view(a, s1, s2, m, n - 1);
        assert(pass_view_eq(s1[n - 1], s2[n - 1]));
    }
}

/// Runs the x-axis actor sweep of mover `mover` (a copy of its record, with
/// the scratch velocity and collision set already holding the tile sweep's
/// result) against the whole arena, appending one notification per
/// qualifying notifying edge.
pub fn sweep_actors_x(
    a: ActorData,
    actors: &Vec<ActorData>,
    mover: usize,
    events: &mut Vec<Notification>,
) -> (r: ActorData)
    requires
        a.ok(),
        all_ok(actors@),
    ensures
        pass_view_eq(a, r),
        (r.next_vel as int, r.collided) == sweep_x(a, actors@, actors@.len() as int),
        final(events)@ == old(events)@ + sweep_x_events(a, actors@, mover, actors@.len() as int),
        r.ok(),
{
    let mut cur = a;
    let n = actors.len();
    let mut j: usize = 0;
    while j < n
        invariant
            n == actors@.len(),
            j <= n,
            a.ok(),
            all_ok(actors@),
            pass_view_eq(a, cur),
            (cur.next_vel as int, cur.collided) == sweep_x(a, actors@, j as int),
            events@ == old(events)@ + sweep_x_events(a, actors@, mover, j as int),
            -LIM <= cur.next_vel <= LIM,
        decreases n - j,
    {
        let b = actors[j];
        let rmov = cur.vel.x - b.vel.x;
        if rmov > 0 {
            let edge = b.left_edge();
            if edge.properties.any() && edge.pos.y < cur.pos.y + cur.area_offset.y
                + cur.area_size.y && edge.pos.y + edge.length > cur.pos.y + cur.area_offset.y
                && edge.pos.x >= cur.pos.x + cur.area_offset.x + cur.area_size.x && edge.pos.x
                < cur.pos.x + cur.area_offset.x + cur.area_size.x + rmov {
                assert(qual_right(a, b));
                if edge.properties.solid {
                    cur.next_vel = edge.pos.x + b.vel.x - (cur.pos.x + cur.area_offset.x
                        + cur.area_size.x);
                    cur.collided = Directions { right: true, ..cur.collided };
                }
                if edge.properties.notify {
                    events.push(
                        Notification {
                            owner: j,
                            mover,
                            direction: Directions {
                                up: false,
                                down: false,
                                left: true,
                                right: false,
                            },
                        },
                    );
                }
            } else {
                assert(!qual_right(a, b));
                assert(!qual_left(a, b));
            }
        } else if rmov < 0 {
            let edge = b.right_edge();
            if edge.properties.any() && edge.pos.y < cur.pos.y + cur.area_offset.y
                + cur.area_size.y && edge.pos.y + edge.length > cur.pos.y + cur.area_offset.y
                && edge.pos.x <= cur.pos.x + cur.area_offset.x && edge.pos.x > cur.pos.x
                + cur.area_offset.x + rmov {
                assert(qual_left(a, b));
                if edge.properties.solid {
                    cur.next_vel = edge.pos.x + b.vel.x - (cur.pos.x + cur.area_offset.x);
                    cur.collided = Directions { left: true, ..cur.collided };
                }
                if edge.properties.notify {
                    events.push(
                        Notification {
                            owner: j,
                            mover,
                            direction: Directions {
                                up: false,
                                down: false,
                                left: false,
                                right: true,
                            },
                        },
                    );
                }
            } else {
                assert(!qual_left(a, b));
                assert(!qual_right(a, b));
            }
        } else {
            assert(!qual_right(a, b));
            assert(!qual_left(a, b));
        }
        j += 1;
    }
    cur
}

// ---------------------------------------------------------------------------
// X axis: tile sweep
// ---------------------------------------------------------------------------

/// The x-axis tile sweep of mover `a`: scan the tile columns between the
/// leading edge and its projection by `vel.x`, over the rows the box covers;
/// the nearest solid column clamps the scratch velocity so the leading edge
/// stops flush against the tile boundary, and sets the direction bit.
pub open spec fn tile_sweep_x_spec(g: TileGrid, a: ActorData) -> (int, Directions) {
    if a.vel.x > 0 {
        match first_col(
            g,
            tile_of(a.lead_x() - 1) + 1,
            tile_of(a.lead_x() + a.vel.x),
            tile_of(a.trail_y()),
            tile_of(a.lead_y() - 1),
        ) {
            Some(x) => (world_of(x) - a.lead_x(), Directions { right: true, ..a.collided }),
            None => (a.next_vel as int, a.collided),
        }
    } else if a.vel.x < 0 {
        match last_col(
            g,
            tile_of(a.trail_x() + a.vel.x),
            tile_of(a.trail_x() + 1) - 1,
            tile_of(a.trail_y()),
            tile_of(a.lead_y() - 1),
        ) {
            Some(x) => (world_of(x + 1) - a.trail_x(), Directions { left: true, ..a.collided }),
            None => (a.next_vel as int, a.collided),
        }
    } else {
        (a.next_vel as int, a.collided)
    }
}

/// Runs the x-axis tile sweep of `a`, returning the new scratch velocity and
/// collision set.
pub fn tile_sweep_x(g: &TileGrid, a: ActorData) -> (r: (i32, Directions))
    requires
        a.ok(),
    ensures
        (r.0 as int, r.1) == tile_sweep_x_spec(*g, a),
        -LIM <= r.0 <= LIM,
{
    if a.vel.x > 0 {
        let lead: i32 = a.pos.x + a.area_offset.x + a.area_size.x;
        let top: i32 = a.pos.y + a.area_offset.y;
        let bot: i32 = top + a.area_size.y;
        let xlo: i32 = tile_coord(lead - 1) + 1;
        let xhi: i32 = tile_coord(lead + a.vel.x);
        let ylo: i32 = tile_coord(top);
        let yhi: i32 = tile_coord(bot - 1);
        proof {
            lemma_tile_mono(-0x800_0000, lead - 1);
            lemma_tile_mono(lead - 1, 0x800_0000);
            lemma_tile_mono(-0x800_0000, lead + a.vel.x);
            lemma_tile_mono(lead + a.vel.x, 0x800_0000);
        }
        match first_solid_col(g, xlo, xhi, ylo, yhi) {
            Some(x) => {
                proof {
                    lemma_tile_bounds(lead - 1);
                    lemma_tile_bounds(lead + a.vel.x);
                    vstd::arithmetic::mul::lemma_mul_inequality(
                        xlo as int,
                        x as int,
                        TILE_SIZE as int,
                    );
                    vstd::arithmetic::mul::lemma_mul_inequality(
                        x as int,
                        xhi as int,
                        TILE_SIZE as int,
                    );
                    assert(xlo as int * TILE_SIZE as int == world_of(tile_of(lead - 1)) + TILE_SIZE)
                        by (nonlinear_arith)
                        requires xlo == tile_of(lead - 1 as int) + 1
                    ;
                }
                let nv: i32 = x * TILE_SIZE - lead;
                (nv, Directions { right: true, ..a.collided })
            },
            None => (a.next_vel, a.collided),
        }
    } else if a.vel.x < 0 {
        let trail: i32 = a.pos.x + a.area_offset.x;
        let top: i32 = a.pos.y + a.area_offset.y;
        let bot: i32 = top + a.area_size.y;
        let xlo: i32 = tile_coord(trail + a.vel.x);
        let xhi: i32 = tile_coord(trail + 1) - 1;
        let ylo: i32 = tile_coord(top);
        let yhi: i32 = tile_coord(bot - 1);
        proof {
            lemma_tile_mono(-0x800_0000, trail + a.vel.x);
            lemma_tile_mono(trail + a.vel.x, 0x800_0000);
            lemma_tile_mono(-0x800_0000, trail + 1);
            lemma_tile_mono(trail + 1, 0x800_0000);
        }
        match last_solid_col(g, xlo, xhi, ylo, yhi) {
            Some(x) => {
                proof {
                    lemma_tile_bounds(trail + a.vel.x);
                    lemma_tile_bounds(trail + 1);
                    vstd::arithmetic::mul::lemma_mul_inequality(
                        (xlo + 1) as int,
                        (x + 1) as int,
                        TILE_SIZE as int,
                    );
                    vstd::arithmetic::mul::lemma_mul_inequality(
                        (x + 1) as int,
                        (xhi + 1) as int,
                        TILE_SIZE as int,
                    );
                    assert(xlo as int * TILE_SIZE as int + TILE_SIZE == world_of(
                        tile_of(trail + a.vel.x),
                    ) + TILE_SIZE) by (nonlinear_arith)
                        requires xlo == tile_of(trail + a.vel.x as int)
                    ;
                    assert((xhi + 1) as int * TILE_SIZE as int == world_of(tile_of(trail + 1)))
                        by (nonlinear_arith)
                        requires xhi == tile_of(trail + 1 as int) - 1
                    ;
                }
                let nv: i32 = (x + 1) * TILE_SIZE - trail;
                (nv, Directions { left: true, ..a.collided })
            },
            None => (a.next_vel, a.collided),
        }
    } else {
        (a.next_vel, a.collided)
    }
}

// ---------------------------------------------------------------------------
// X axis: pass, convergence, integration
// ---------------------------------------------------------------------------

/// One mover's full x-axis resolution within a pass: the tile sweep, then
/// the actor sweep over the whole arena, both folded into the scratch
/// velocity and the collision set.
pub open spec fn resolve_mover_x(g: TileGrid, s: Seq<ActorData>, i: int) -> ActorData {
    let a = s[i];
    let t = tile_sweep_x_spec(g, a);
    let a1 = ActorData { next_vel: t.0 as i32, collided: t.1, ..a };
    let f = sweep_x(a1, s, s.len() as int);
    ActorData { next_vel: f.0 as i32, collided: f.1, ..a }
}

/// The sweep half of one x-axis pass: every mover resolved against the
/// pass-entry arena, every static actor untouched.
pub open spec fn pass_x_actors(g: TileGrid, s: Seq<ActorData>) -> Seq<ActorData> {
    Seq::new(
        s.len(),
        |i: int|
            if s[i].moves {
                resolve_mover_x(g, s, i)
            } else {
                s[i]
            },
    )
}

/// The notifications one x-axis pass emits: those of each of the first `n`
/// movers, in mover order.
pub open spec fn pass_x_events(
    g: TileGrid,
    s: Seq<ActorData>,
    movers: Seq<usize>,
    n: int,
) -> Seq<Notification>
    decreases n,
{
    if n <= 0 {
        Seq::empty()
    } else {
        let m = movers[n - 1];
        let a = s[m as int];
        let t = tile_sweep_x_spec(g, a);
        let a1 = ActorData { next_vel: t.0 as i32, collided: t.1, ..a };
        pass_x_events(g, s, movers, n - 1) + sweep_x_events(a1, s, m, s.len() as int)
    }
}

/// The commit half of a pass: every mover's x velocity becomes its scratch
/// velocity.
pub open spec fn commit_x(s: Seq<ActorData>) -> Seq<ActorData> {
    Seq::new(
        s.len(),
        |i: int|
            if s[i].moves {
                ActorData {
                    vel: FixedPointVector { x: s[i].next_vel, y: s[i].vel.y },
                    ..s[i]
                }
            } else {
                s[i]
            },
    )
}

/// Whether committing would change any mover's x velocity, which is what
/// keeps the convergence loop running.
pub open spec fn changed_x(s: Seq<ActorData>) -> bool {
    exists|i: int| 0 <= i < s.len() && (#[trigger] s[i]).moves && s[i].next_vel != s[i].vel.x
}

/// Runs one full x-axis pass: sweeps every mover against the pass-entry
/// arena, then commits the scratch velocities, reporting whether any
/// velocity changed.
pub fn pass_x(
    g: &TileGrid,
    actors: &mut Vec<ActorData>,
    movers: &Vec<usize>,
    events: &mut Vec<Notification>,
) -> (changed: bool)
    requires
        all_ok(old(actors)@),
        movers_index(old(actors)@, movers@),
        seeded_x(old(actors)@),
    ensures
        final(actors)@ == commit_x(pass_x_actors(*g, old(actors)@)),
        changed == changed_x(pass_x_actors(*g, old(actors)@)),
        final(events)@ == old(events)@ + pass_x_events(
            *g,
            old(actors)@,
            movers@,
            movers@.len() as int,
        ),
        all_ok(final(actors)@),
        movers_index(final(actors)@, movers@),
        seeded_x(final(actors)@),
{
    let ghost entry = actors@;
    let nm = movers.len();
    let mut k: usize = 0;
    while k < nm
        invariant
            nm == movers@.len(),
            k <= nm,
            all_ok(entry),
            movers_index(entry, movers@),
            actors@.len() == entry.len(),
            all_ok(actors@),
            forall|i: int| 0 <= i < entry.len() ==> pass_view_eq(#[trigger] entry[i], actors@[i]),
            forall|j: int|
                0 <= j < k ==> actors@[#[trigger] movers@[j] as int] == resolve_mover_x(
                    *g,
                    entry,
                    movers@[j] as int,
                ),
            forall|i: int|
                0 <= i < entry.len() ==> (#[trigger] actors@[i] == entry[i] || exists|j: int|
                    0 <= j < k && movers@[j] == i),
            events@ == old(events)@ + pass_x_events(*g, entry, movers@, k as int),
        decreases nm - k,
    {
        let m = movers[k];
        proof {
            assert(movers@[k as int] < entry.len() && entry[m as int].moves);
            assert forall|j: int| 0 <= j < k implies movers@[j] != movers@[k as int] by {
                assert(forall|j: int| 0 <= j < k ==> movers@[j] < movers@[k as int]);
            }
            assert(actors@[m as int] == entry[m as int]);
        }
        let data = actors[m];
        let t = tile_sweep_x(g, data);
        let data1 = ActorData { next_vel: t.0, collided: t.1, ..data };
        let ghost pre_events = events@;
        let data2 = sweep_actors_x(data1, actors, m, events);
        proof {
            lemma_sweep_x_view(data1, actors@, entry, m, entry.len() as int);
            assert(data2 == resolve_mover_x(*g, entry, m as int));
            assert(events@ == old(events)@ + pass_x_events(*g, entry, movers@, k + 1 as int));
        }
        vstd::std_specs::core::index_set(actors, m, data2);
        k += 1;
    }
    proof {
        assert forall|i: int|
            0 <= i < entry.len() implies actors@[i] == pass_x_actors(*g, entry)[i] by {
            if entry[i].moves {
                let j = choose|j: int| 0 <= j < movers@.len() && movers@[j] == i;
                assert(actors@[movers@[j] as int] == resolve_mover_x(*g, entry, movers@[j] as int));
            } else {
                if exists|j: int| 0 <= j < k && movers@[j] == i {
                    let j = choose|j: int| 0 <= j < k && movers@[j] == i;
                    assert(entry[movers@[j] as int].moves);
                }
            }
        }
        assert(actors@ =~= pass_x_actors(*g, entry));
    }
    let ghost swept = actors@;
    let mut changed = false;
    let mut k2: usize = 0;
    while k2 < nm
        invariant
            nm == movers@.len(),
            k2 <= nm,
            movers_index(swept, movers@),
            actors@.len() == swept.len(),
            all_ok(swept),
            all_ok(actors@),
            forall|j: int|
                0 <= j < k2 ==> actors@[#[trigger] movers@[j] as int] == (ActorData {
                    vel: FixedPointVector {
                        x: swept[movers@[j] as int].next_vel,
                        y: swept[movers@[j] as int].vel.y,
                    },
                    ..swept[movers@[j] as int]
                }),
            forall|i: int|
                0 <= i < swept.len() ==> (#[trigger] actors@[i] == swept[i] || exists|j: int|
                    0 <= j < k2 && movers@[j] == i),
            changed == exists|j: int|
                0 <= j < k2 && swept[#[trigger] movers@[j] as int].next_vel != swept[movers@[
                    j
                ] as int].vel.x,
        decreases nm - k2,
    {
        let m = movers[k2];
        proof {
            assert forall|j: int| 0 <= j < k2 implies movers@[j] != movers@[k2 as int] by {
                assert(forall|j: int| 0 <= j < k2 ==> movers@[j] < movers@[k2 as int]);
            }
            assert(actors@[m as int] == swept[m as int]);
        }
        let d = actors[m];
        if d.next_vel != d.vel.x {
            let d2 = ActorData { vel: FixedPointVector { x: d.next_vel, y: d.vel.y }, ..d };
            vstd::std_specs::core::index_set(actors, m, d2);
            changed = true;
        } else {
            proof {
                assert(actors@[m as int] == (ActorData {
                    vel: FixedPointVector { x: swept[m as int].next_vel, y: swept[m as int].vel.y },
                    ..swept[m as int]
                }));
            }
        }
        k2 += 1;
    }
    proof {
        assert forall|i: int| 0 <= i < swept.len() implies actors@[i] == commit_x(swept)[i] by {
            if swept[i].moves {
                let j = choose|j: int| 0 <= j < movers@.len() && movers@[j] == i;
                assert(actors@[movers@[j] as int] == (ActorData {
                    vel: FixedPointVector {
                        x: swept[movers@[j] as int].next_vel,
                        y: swept[movers@[j] as int].vel.y,
                    },
                    ..swept[movers@[j] as int]
                }));
            } else {
                if exists|j: int| 0 <= j < k2 && movers@[j] == i {
                    let j = choose|j: int| 0 <= j < k2 && movers@[j] == i;
                    assert(swept[movers@[j] as int].moves);
                }
            }
        }
        assert(actors@ =~= commit_x(swept));
        if changed {
            assert(changed_x(swept));
        }
        if changed_x(swept) {
            let i = choose|i: int|
                0 <= i < swept.len() && (#[trigger] swept[i]).moves && swept[i].next_vel
                    != swept[i].vel.x;
            let j = choose|j: int| 0 <= j < movers@.len() && movers@[j] == i;
            assert(swept[movers@[j] as int].next_vel != swept[movers@[j] as int].vel.x);
        }
    }
    changed
}

/// The x-axis fixed-point iteration: run passes until none changes a
/// velocity, or until the fuel runs out. Returns the settled arena and the
/// notifications of every pass run, in order.
pub open spec fn converge_x(
    g: TileGrid,
    s: Seq<ActorData>,
    movers: Seq<usize>,
    fuel: nat,
) -> (Seq<ActorData>, Seq<Notification>)
    decreases fuel,
{
    if fuel == 0 {
        (s, Seq::empty())
    } else {
        let swept = pass_x_actors(g, s);
        let ev = pass_x_events(g, s, movers, movers.len() as int);
        let s2 = commit_x(swept);
        if !changed_x(swept) {
            (s2, ev)
        } else {
            let rec = converge_x(g, s2, movers, (fuel - 1) as nat);
            (rec.0, ev + rec.1)
        }
    }
}

/// The pass budget the convergence loop runs under. Collisions cascade one
/// link of a contact chain per pass, so a chain among `n` movers settles
/// well within `2 * n + 4` passes; a budget this generous is never reached
/// by a configuration that settles at all.
pub open spec fn conv_fuel(n: nat) -> nat {
    2 * n + 4
}

/// Runs x-axis passes until no velocity changes, up to the fuel bound.
pub fn run_converge_x(
    g: &TileGrid,
    actors: &mut Vec<ActorData>,
    movers: &Vec<usize>,
    events: &mut Vec<Notification>,
)
    requires
        all_ok(old(actors)@),
        movers_index(old(actors)@, movers@),
        seeded_x(old(actors)@),
        movers@.len() <= 0x1000_0000,
    ensures
        final(actors)@ == converge_x(
            *g,
            old(actors)@,
            movers@,
            conv_fuel(movers@.len() as nat),
        ).0,
        final(events)@ == old(events)@ + converge_x(
            *g,
            old(actors)@,
            movers@,
            conv_fuel(movers@.len() as nat),
        ).1,
        all_ok(final(actors)@),
        movers_index(final(actors)@, movers@),
        seeded_x(final(actors)@),
{
    let ghost total = converge_x(*g, actors@, movers@, conv_fuel(movers@.len() as nat));
    let ghost ev0 = events@;
    let mut fuel: usize = 2 * movers.len() + 4;
    let mut dirty = true;
    while dirty && fuel > 0
        invariant
            all_ok(actors@),
            movers_index(actors@, movers@),
            seeded_x(actors@),
            dirty ==> ({
                let rec = converge_x(*g, actors@, movers@, fuel as nat);
                total.0 == rec.0 && ev0 + total.1 == events@ + rec.1
            }),
            !dirty ==> total.0 == actors@ && ev0 + total.1 == events@,
        decreases fuel,
    {
        let changed = pass_x(g, actors, movers, events);
        fuel -= 1;
        dirty = changed;
    }
}

/// The tick's pre-pass on one mover: snapshot last tick's collision set,
/// clear the current one, apply gravity, seed the x-axis scratch velocity.
pub open spec fn prep_actor(a: ActorData) -> ActorData {
    ActorData {
        collided_old: a.collided,
        collided: Directions { up: false, down: false, left: false, right: false },
        vel: FixedPointVector { x: a.vel.x, y: crate::actor::fall_vel_y(a) as i32 },
        next_vel: a.vel.x,
        ..a
    }
}

/// The tick's pre-pass over the arena: every mover prepared, every static
/// actor untouched.
pub open spec fn prepass(s: Seq<ActorData>) -> Seq<ActorData> {
    Seq::new(
        s.len(),
        |i: int|
            if s[i].moves {
                prep_actor(s[i])
            } else {
                s[i]
            },
    )
}

/// Runs the tick's pre-pass over every mover.
pub fn run_prepass(actors: &mut Vec<ActorData>, movers: &Vec<usize>)
    requires
        all_ok(old(actors)@),
        movers_index(old(actors)@, movers@),
    ensures
        final(actors)@ == prepass(old(actors)@),
        all_ok(final(actors)@),
        movers_index(final(actors)@, movers@),
        seeded_x(final(actors)@),
{
    let ghost entry = actors@;
    let nm = movers.len();
    let mut k: usize = 0;
    while k < nm
        invariant
            nm == movers@.len(),
            k <= nm,
            all_ok(entry),
            movers_index(entry, movers@),
            actors@.len() == entry.len(),
            all_ok(actors@),
            forall|j: int|
                0 <= j < k ==> actors@[#[trigger] movers@[j] as int] == prep_actor(
                    entry[movers@[j] as int],
                ),
            forall|i: int|
                0 <= i < entry.len() ==> (#[trigger] actors@[i] == entry[i] || exists|j: int|
                    0 <= j < k && movers@[j] == i),
        decreases nm - k,
    {
        let m = movers[k];
        proof {
            assert forall|j: int| 0 <= j < k implies movers@[j] != movers@[k as int] by {
                assert(forall|j: int| 0 <= j < k ==> movers@[j] < movers@[k as int]);
            }
            assert(actors@[m as int] == entry[m as int]);
        }
        let mut data = actors[m];
        data.collided_old = data.collided;
        data.collided = Directions::empty();
        data.fall();
        data.next_vel = data.vel.x;
        vstd::std_specs::core::index_set(actors, m, data);
        k += 1;
    }
    proof {
        assert forall|i: int| 0 <= i < entry.len() implies actors@[i] == prepass(entry)[i] by {
            if entry[i].moves {
                let j = choose|j: int| 0 <= j < movers@.len() && movers@[j] == i;
                assert(actors@[movers@[j] as int] == prep_actor(entry[movers@[j] as int]));
            } else {
                if exists|j: int| 0 <= j < k && movers@[j] == i {
                    let j = choose|j: int| 0 <= j < k && movers@[j] == i;
                    assert(entry[movers@[j] as int].moves);
                }
            }
        }
        assert(actors@ =~= prepass(entry));
    }
}

/// The x-axis integration: every mover's position advances by its settled x
/// velocity, and the scratch velocity is seeded for the y axis.
pub open spec fn integrate_x(s: Seq<ActorData>) -> Seq<ActorData> {
    Seq::new(
        s.len(),
        |i: int|
            if s[i].moves {
                ActorData {
                    pos: FixedPointVector { x: (s[i].pos.x + s[i].vel.x) as i32, y: s[i].pos.y },
                    next_vel: s[i].vel.y,
                    ..s[i]
                }
            } else {
                s[i]
            },
    )
}

/// Integrates every mover's position on the x axis and seeds the y axis.
pub fn run_integrate_x(actors: &mut Vec<ActorData>, movers: &Vec<usize>)
    requires
        all_ok(old(actors)@),
        movers_index(old(actors)@, movers@),
        forall|i: int|
            0 <= i < old(actors)@.len() ==> -crate::POS_LIM <= (#[trigger] old(
                actors,
            )@[i]).pos.x <= crate::POS_LIM,
    ensures
        final(actors)@ == integrate_x(old(actors)@),
        all_ok(final(actors)@),
        movers_index(final(actors)@, movers@),
        seeded_y(final(actors)@),
{
    let ghost entry = actors@;
    let nm = movers.len();
    let mut k: usize = 0;
    while k < nm
        invariant
            nm == movers@.len(),
            k <= nm,
            all_ok(entry),
            movers_index(entry, movers@),
            forall|i: int|
                0 <= i < entry.len() ==> -crate::POS_LIM <= (#[trigger] entry[i]).pos.x
                    <= crate::POS_LIM,
            actors@.len() == entry.len(),
            all_ok(actors@),
            forall|j: int|
                0 <= j < k ==> actors@[#[trigger] movers@[j] as int] == integrate_x(entry)[movers@[
                    j
                ] as int],
            forall|i: int|
                0 <= i < entry.len() ==> (#[trigger] actors@[i] == entry[i] || exists|j: int|
                    0 <= j < k && movers@[j] == i),
        decreases nm - k,
    {
        let m = movers[k];
        proof {
            assert forall|j: int| 0 <= j < k implies movers@[j] != movers@[k as int] by {
                assert(forall|j: int| 0 <= j < k ==> movers@[j] < movers@[k as int]);
            }
            assert(actors@[m as int] == entry[m as int]);
        }
        let mut data = actors[m];
        data.pos.x = data.pos.x + data.vel.x;
        data.next_vel = data.vel.y;
        vstd::std_specs::core::index_set(actors, m, data);
        k += 1;
    }
    proof {
        assert forall|i: int| 0 <= i < entry.len() implies actors@[i] == integrate_x(entry)[i] by {
            if entry[i].moves {
                let j = choose|j: int| 0 <= j < movers@.len() && movers@[j] == i;
            } else {
                if exists|j: int| 0 <= j < k && movers@[j] == i {
                    let j = choose|j: int| 0 <= j < k && movers@[j] == i;
                    assert(entry[movers@[j] as int].moves);
                }
            }
        }
        assert(actors@ =~= integrate_x(entry));
    }
}

/// `b` keeps `a`'s position, mobility and beam counter: the fields the
/// velocity phases never touch.
pub open spec fn keeps_pmb(a: ActorData, b: ActorData) -> bool {
    b.pos == a.pos && b.moves == a.moves && b.beams == a.beams
}

/// An x-axis convergence changes only velocities, scratch state and the
/// collision sets: positions, mobility and beam counters survive.
pub proof fn lemma_converge_x_frame(g: TileGrid, s: Seq<ActorData>, movers: Seq<usize>, fuel: nat)
    ensures
        converge_x(g, s, movers, fuel).0.len() == s.len(),
        forall|i: int|
            0 <= i < s.len() ==> keeps_pmb(#[trigger] s[i], converge_x(g, s, movers, fuel).0[i]),
    decreases fuel,
{
    if fuel > 0 {
        let swept = pass_x_actors(g, s);
        let s2 = commit_x(swept);
        assert forall|i: int| 0 <= i < s.len() implies keeps_pmb(s[i], s2[i]) by {
            assert(swept[i] == pass_x_actors(g, s)[i]);
        }
        if changed_x(swept) {
            lemma_converge_x_frame(g, s2, movers, (fuel - 1) as nat);
        }
    }
}

} // verus!
