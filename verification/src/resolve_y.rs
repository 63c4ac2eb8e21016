//! The y-axis half of the collision resolver, run after the x axis has
//! converged and been integrated.
//!
//! It mirrors the x axis with one extra rule: an upward collision against a
//! non-solid bottom edge is suppressed unless the mover's own top is solid
//! or the mover has no vertical collision yet, which prevents a
//! double-resolution artifact when two non-solid-topped actors stack.

use vstd::prelude::*;

use crate::actor::ActorData;
use crate::fixed::FixedPointVector;
use crate::grid::{
    first_row, first_solid_row, last_row, last_solid_row, lemma_tile_bounds, lemma_tile_mono,
    tile_coord, tile_of, world_of, TileGrid, TILE_SIZE,
};
use crate::resolve::{
    all_ok, movers_index, pass_view_eq, seeded_y, Notification,
};
use crate::surface::Directions;
use crate::LIM;

verus! {

/// Mover `a`, moving down relative to `b`, would cross `b`'s top edge this
/// tick while overlapping it horizontally, and the edge has some property.
pub open spec fn qual_down(a: ActorData, b: ActorData) -> bool {
    let rmov = a.vel.y - b.vel.y;
    &&& rmov > 0
    &&& (b.top.solid || b.top.notify || b.top.opaque)
    &&& b.trail_x() < a.lead_x()
    &&& b.lead_x() > a.trail_x()
    &&& b.trail_y() >= a.lead_y()
    &&& b.trail_y() < a.lead_y() + rmov
}

/// The clamped y velocity that rests `a`'s bottom flush against `b`'s top
/// edge after both move.
pub open spec fn clamp_down(a: ActorData, b: ActorData) -> int {
    b.trail_y() + b.vel.y - a.lead_y()
}

/// Mover `a`, moving up relative to `b`, would cross `b`'s bottom edge this
/// tick while overlapping it horizontally, and the edge has some property.
pub open spec fn qual_up(a: ActorData, b: ActorData) -> bool {
    let rmov = a.vel.y - b.vel.y;
    &&& rmov < 0
    &&& (b.bottom.solid || b.bottom.notify || b.bottom.opaque)
    &&& b.trail_x() < a.lead_x()
    &&& b.lead_x() > a.trail_x()
    &&& b.lead_y() <= a.trail_y()
    &&& b.lead_y() > a.trail_y() + rmov
}

/// The clamped y velocity that rests `a`'s top flush against `b`'s bottom
/// edge after both move.
pub open spec fn clamp_up(a: ActorData, b: ActorData) -> int {
    b.lead_y() + b.vel.y - a.trail_y()
}

/// Whether a qualifying solid bottom edge may clamp the mover: always when
/// the mover's own top is solid, otherwise only while the mover has no
/// vertical collision accumulated yet.
pub open spec fn up_allowed(a: ActorData, col: Directions) -> bool {
    a.top.solid || (!col.up && !col.down)
}

/// The y-axis actor sweep of mover `a` against the first `n` actors, folding
/// in arena order from `a.next_vel` and `a.collided`.
pub open spec fn sweep_y(a: ActorData, others: Seq<ActorData>, n: int) -> (int, Directions)
    decreases n,
{
    if n <= 0 {
        (a.next_vel as int, a.collided)
    } else {
        let prev = sweep_y(a, others, n - 1);
        let b = others[n - 1];
        let down_hit = qual_down(a, b) && b.top.solid;
        let up_hit = qual_up(a, b) && b.bottom.solid && up_allowed(a, prev.1);
        let nv = if down_hit {
            clamp_down(a, b)
        } else if up_hit {
            clamp_up(a, b)
        } else {
            prev.0
        };
        let col = Directions {
            down: prev.1.down || down_hit,
            up: prev.1.up || up_hit,
            left: prev.1.left,
            right: prev.1.right,
        };
        (nv, col)
    }
}

/// The notifications the y-axis sweep of mover `m` emits against the first
/// `n` actors, in arena order.
pub open spec fn sweep_y_events(
    a: ActorData,
    others: Seq<ActorData>,
    m: usize,
    n: int,
) -> Seq<Notification>
    decreases n,
{
    if n <= 0 {
        Seq::empty()
    } else {
        let pre = sweep_y_events(a, others, m, n - 1);
        let b = others[n - 1];
        let j = (n - 1) as usize;
        if qual_down(a, b) && b.top.notify {
            pre.push(
                Notification {
                    owner: j,
                    mover: m,
                    direction: Directions { up: true, down: false, left: false, right: false },
                },
            )
        } else if qual_up(a, b) && b.bottom.notify {
            pre.push(
                Notification {
                    owner: j,
                    mover: m,
                    direction: Directions { up: false, down: true, left: false, right: false },
                },
            )
        } else {
            pre
        }
    }
}

/// As on the x axis, the sweep reads only pass-view fields of the others.
pub proof fn lemma_sweep_y_view(
    a: ActorData,
    s1: Seq<ActorData>,
    s2: Seq<ActorData>,
    m: usize,
    n: int,
)
    requires
        s1.len() == s2.len(),
        forall|i: int| 0 <= i < s1.len() ==> pass_view_eq(#[trigger] s1[i], s2[i]),
        n <= s1.len(),
    ensures
        sweep_y(a, s1, n) == sweep_y(a, s2, n),
        sweep_y_events(a, s1, m, n) == sweep_y_events(a, s2, m, n),
    decreases n,
{
    if n > 0 {
        lemma_sweep_y_view(a, s1, s2, m, n - 1);
        assert(pass_view_eq(s1[n - 1], s2[n - 1]));
    }
}

/// Runs the y-axis actor sweep of mover `mover` against the whole arena.
pub fn sweep_actors_y(
    a: ActorData,
    actors: &Vec<ActorData>,
    mover: usize,
    events: &mut Vec<Notification>,
) -> (r: ActorData)
    requires
        a.ok(),
        all_ok(actors@),
    ensures
        pass_view_eq(a, r),
        (r.next_vel as int, r.collided) == sweep_y(a, actors@, actors@.len() as int),
        final(events)@ == old(events)@ + sweep_y_events(a, actors@, mover, actors@.len() as int),
        r.ok(),
{
    let mut cur = a;
    let n = actors.len();
    let mut j: usize = 0;
    while j < n
        invariant
            n == actors@.len(),
            j <= n,
            a.ok(),
            all_ok(actors@),
            pass_view_eq(a, cur),
            (cur.next_vel as int, cur.collided) == sweep_y(a, actors@, j as int),
            events@ == old(events)@ + sweep_y_events(a, actors@, mover, j as int),
            -LIM <= cur.next_vel <= LIM,
        decreases n - j,
    {
        let b = actors[j];
        let rmov = cur.vel.y - b.vel.y;
        if rmov > 0 {
            let edge = b.top_edge();
            if edge.properties.any() && edge.pos.x < cur.pos.x + cur.area_offset.x
                + cur.area_size.x && edge.pos.x + edge.length > cur.pos.x + cur.area_offset.x
                && edge.pos.y >= cur.pos.y + cur.area_offset.y + cur.area_size.y && edge.pos.y
                < cur.pos.y + cur.area_offset.y + cur.area_size.y + rmov {
                assert(qual_down(a, b));
                if edge.properties.solid {
                    cur.next_vel = edge.pos.y + b.vel.y - (cur.pos.y + cur.area_offset.y
                        + cur.area_size.y);
                    cur.collided = Directions { down: true, ..cur.collided };
                }
                if edge.properties.notify {
                    events.push(
                        Notification {
                            owner: j,
                            mover,
                            direction: Directions {
                                up: true,
                                down: false,
                                left: false,
                                right: false,
                            },
                        },
                    );
                }
            } else {
                assert(!qual_down(a, b));
                assert(!qual_up(a, b));
            }
        } else if rmov < 0 {
            let edge = b.bottom_edge();
            if edge.properties.any() && edge.pos.x < cur.pos.x + cur.area_offset.x
                + cur.area_size.x && edge.pos.x + edge.length > cur.pos.x + cur.area_offset.x
                && edge.pos.y <= cur.pos.y + cur.area_offset.y && edge.pos.y > cur.pos.y
                + cur.area_offset.y + rmov {
                assert(qual_up(a, b));
                if edge.properties.solid && (cur.top.solid || (!cur.collided.up
                    && !cur.collided.down)) {
                    cur.next_vel = edge.pos.y + b.vel.y - (cur.pos.y + cur.area_offset.y);
                    cur.collided = Directions { up: true, ..cur.collided };
                }
                if edge.properties.notify {
                    events.push(
                        Notification {
                            owner: j,
                            mover,
                            direction: Directions {
                                up: false,
                                down: true,
                                left: false,
                                right: false,
                            },
                        },
                    );
                }
            } else {
                assert(!qual_up(a, b));
                assert(!qual_down(a, b));
            }
        } else {
            assert(!qual_down(a, b));
            assert(!qual_up(a, b));
        }
        j += 1;
    }
    cur
}

/// The y-axis tile sweep of mover `a`: scan the tile rows between the
/// leading edge and its projection by `vel.y`, over the columns the box
/// covers; the nearest solid row clamps the scratch velocity flush against
/// the tile boundary.
pub open spec fn tile_sweep_y_spec(g: TileGrid, a: ActorData) -> (int, Directions) {
    if a.vel.y > 0 {
        match first_row(
            g,
            tile_of(a.lead_y() - 1) + 1,
            tile_of(a.lead_y() + a.vel.y),
            tile_of(a.trail_x()),
            tile_of(a.lead_x() - 1),
        ) {
            Some(y) => (world_of(y) - a.lead_y(), Directions { down: true, ..a.collided }),
            None => (a.next_vel as int, a.collided),
        }
    } else if a.vel.y < 0 {
        match last_row(
            g,
            tile_of(a.trail_y() + a.vel.y),
            tile_of(a.trail_y() + 1) - 1,
            tile_of(a.trail_x()),
            tile_of(a.lead_x() - 1),
        ) {
            Some(y) => (world_of(y + 1) - a.trail_y(), Directions { up: true, ..a.collided }),
            None => (a.next_vel as int, a.collided),
        }
    } else {
        (a.next_vel as int, a.collided)
    }
}

/// Runs the y-axis tile sweep of `a`.
pub fn tile_sweep_y(g: &TileGrid, a: ActorData) -> (r: (i32, Directions))
    requires
        a.ok(),
    ensures
        (r.0 as int, r.1) == tile_sweep_y_spec(*g, a),
        -LIM <= r.0 <= LIM,
{
    if a.vel.y > 0 {
        let lead: i32 = a.pos.y + a.area_offset.y + a.area_size.y;
        let left: i32 = a.pos.x + a.area_offset.x;
        let right: i32 = left + a.area_size.x;
        let ylo: i32 = tile_coord(lead - 1) + 1;
        let yhi: i32 = tile_coord(lead + a.vel.y);
        let xlo: i32 = tile_coord(left);
        let xhi: i32 = tile_coord(right - 1);
        proof {
            lemma_tile_mono(-0x800_0000, lead - 1);
            lemma_tile_mono(lead - 1, 0x800_0000);
            lemma_tile_mono(-0x800_0000, lead + a.vel.y);
            lemma_tile_mono(lead + a.vel.y, 0x800_0000);
        }
        match first_solid_row(g, ylo, yhi, xlo, xhi) {
            Some(y) => {
                proof {
                    lemma_tile_bounds(lead - 1);
                    lemma_tile_bounds(lead + a.vel.y);
                    vstd::arithmetic::mul::lemma_mul_inequality(
                        ylo as int,
                        y as int,
                        TILE_SIZE as int,
                    );
                    vstd::arithmetic::mul::lemma_mul_inequality(
                        y as int,
                        yhi as int,
                        TILE_SIZE as int,
                    );
                    assert(ylo as int * TILE_SIZE as int == world_of(tile_of(lead - 1)) + TILE_SIZE)
                        by (nonlinear_arith)
                        requires ylo == tile_of(lead - 1 as int) + 1
                    ;
                }
                let nv: i32 = y * TILE_SIZE - lead;
                (nv, Directions { down: true, ..a.collided })
            },
            None => (a.next_vel, a.collided),
        }
    } else if a.vel.y < 0 {
        let trail: i32 = a.pos.y + a.area_offset.y;
        let left: i32 = a.pos.x + a.area_offset.x;
        let right: i32 = left + a.area_size.x;
        let ylo: i32 = tile_coord(trail + a.vel.y);
        let yhi: i32 = tile_coord(trail + 1) - 1;
        let xlo: i32 = tile_coord(left);
        let xhi: i32 = tile_coord(right - 1);
        proof {
            lemma_tile_mono(-0x800_0000, trail + a.vel.y);
            lemma_tile_mono(trail + a.vel.y, 0x800_0000);
            lemma_tile_mono(-0x800_0000, trail + 1);
            lemma_tile_mono(trail + 1, 0x800_0000);
        }
        match last_solid_row(g, ylo, yhi, xlo, xhi) {
            Some(y) => {
                proof {
                    lemma_tile_bounds(trail + a.vel.y);
                    lemma_tile_bounds(trail + 1);
                    vstd::arithmetic::mul::lemma_mul_inequality(
                        (ylo + 1) as int,
                        (y + 1) as int,
                        TILE_SIZE as int,
                    );
                    vstd::arithmetic::mul::lemma_mul_inequality(
                        (y + 1) as int,
                        (yhi + 1) as int,
                        TILE_SIZE as int,
                    );
                    assert(ylo as int * TILE_SIZE as int + TILE_SIZE == world_of(
                        tile_of(trail + a.vel.y),
                    ) + TILE_SIZE) by (nonlinear_arith)
                        requires ylo == tile_of(trail + a.vel.y as int)
                    ;
                    assert((yhi + 1) as int * TILE_SIZE as int == world_of(tile_of(trail + 1)))
                        by (nonlinear_arith)
                        requires yhi == tile_of(trail + 1 as int) - 1
                    ;
                }
                let nv: i32 = (y + 1) * TILE_SIZE - trail;
                (nv, Directions { up: true, ..a.collided })
            },
            None => (a.next_vel, a.collided),
        }
    } else {
        (a.next_vel, a.collided)
    }
}

/// One mover's full y-axis resolution within a pass.
pub open spec fn resolve_mover_y(g: TileGrid, s: Seq<ActorData>, i: int) -> ActorData {
    let a = s[i];
    let t = tile_sweep_y_spec(g, a);
    let a1 = ActorData { next_vel: t.0 as i32, collided: t.1, ..a };
    let f = sweep_y(a1, s, s.len() as int);
    ActorData { next_vel: f.0 as i32, collided: f.1, ..a }
}

/// The sweep half of one y-axis pass.
pub open spec fn pass_y_actors(g: TileGrid, s: Seq<ActorData>) -> Seq<ActorData> {
    Seq::new(
        s.len(),
        |i: int|
            if s[i].moves {
                resolve_mover_y(g, s, i)
            } else {
                s[i]
            },
    )
}

/// The notifications one y-axis pass emits.
pub open spec fn pass_y_events(
    g: TileGrid,
    s: Seq<ActorData>,
    movers: Seq<usize>,
    n: int,
) -> Seq<Notification>
    decreases n,
{
    if n <= 0 {
        Seq::empty()
    } else {
        let m = movers[n - 1];
        let a = s[m as int];
        let t = tile_sweep_y_spec(g, a);
        let a1 = ActorData { next_vel: t.0 as i32, collided: t.1, ..a };
        pass_y_events(g, s, movers, n - 1) + sweep_y_events(a1, s, m, s.len() as int)
    }
}

/// The commit half of a y-axis pass.
pub open spec fn commit_y(s: Seq<ActorData>) -> Seq<ActorData> {
    Seq::new(
        s.len(),
        |i: int|
            if s[i].moves {
                ActorData {
                    vel: FixedPointVector { x: s[i].vel.x, y: s[i].next_vel },
                    ..s[i]
                }
            } else {
                s[i]
            },
    )
}

/// Whether committing would change any mover's y velocity.
pub open spec fn changed_y(s: Seq<ActorData>) -> bool {
    exists|i: int| 0 <= i < s.len() && (#[trigger] s[i]).moves && s[i].next_vel != s[i].vel.y
}

/// Runs one full y-axis pass: sweep every mover, then commit.
pub fn pass_y(
    g: &TileGrid,
    actors: &mut Vec<ActorData>,
    movers: &Vec<usize>,
    events: &mut Vec<Notification>,
) -> (changed: bool)
    requires
        all_ok(old(actors)@),
        movers_index(old(actors)@, movers@),
        seeded_y(old(actors)@),
    ensures
        final(actors)@ == commit_y(pass_y_actors(*g, old(actors)@)),
        changed == changed_y(pass_y_actors(*g, old(actors)@)),
        final(events)@ == old(events)@ + pass_y_events(
            *g,
            old(actors)@,
            movers@,
            movers@.len() as int,
        ),
        all_ok(final(actors)@),
        movers_index(final(actors)@, movers@),
        seeded_y(final(actors)@),
{
    let ghost entry = actors@;
    let nm = movers.len();
    let mut k: usize = 0;
    while k < nm
        invariant
            nm == movers@.len(),
            k <= nm,
            all_ok(entry),
            movers_index(entry, movers@),
            actors@.len() == entry.len(),
            all_ok(actors@),
            forall|i: int| 0 <= i < entry.len() ==> pass_view_eq(#[trigger] entry[i], actors@[i]),
            forall|j: int|
                0 <= j < k ==> actors@[#[trigger] movers@[j] as int] == resolve_mover_y(
                    *g,
                    entry,
                    movers@[j] as int,
                ),
            forall|i: int|
                0 <= i < entry.len() ==> (#[trigger] actors@[i] == entry[i] || exists|j: int|
                    0 <= j < k && movers@[j] == i),
            events@ == old(events)@ + pass_y_events(*g, entry, movers@, k as int),
        decreases nm - k,
    {
        let m = movers[k];
        proof {
            assert(movers@[k as int] < entry.len() && entry[m as int].moves);
            assert forall|j: int| 0 <= j < k implies movers@[j] != movers@[k as int] by {
                assert(forall|j: int| 0 <= j < k ==> movers@[j] < movers@[k as int]);
            }
            assert(actors@[m as int] == entry[m as int]);
        }
        let data = actors[m];
        let t = tile_sweep_y(g, data);
        let data1 = ActorData { next_vel: t.0, collided: t.1, ..data };
        let data2 = sweep_actors_y(data1, actors, m, events);
        proof {
            lemma_sweep_y_view(data1, actors@, entry, m, entry.len() as int);
            assert(data2 == resolve_mover_y(*g, entry, m as int));
            assert(events@ == old(events)@ + pass_y_events(*g, entry, movers@, k + 1 as int));
        }
        vstd::std_specs::core::index_set(actors, m, data2);
        k += 1;
    }
    proof {
        assert forall|i: int|
            0 <= i < entry.len() implies actors@[i] == pass_y_actors(*g, entry)[i] by {
            if entry[i].moves {
                let j = choose|j: int| 0 <= j < movers@.len() && movers@[j] == i;
                assert(actors@[movers@[j] as int] == resolve_mover_y(*g, entry, movers@[j] as int));
            } else {
                if exists|j: int| 0 <= j < k && movers@[j] == i {
                    let j = choose|j: int| 0 <= j < k && movers@[j] == i;
                    assert(entry[movers@[j] as int].moves);
                }
            }
        }
        assert(actors@ =~= pass_y_actors(*g, entry));
    }
    let ghost swept = actors@;
    let mut changed = false;
    let mut k2: usize = 0;
    while k2 < nm
        invariant
            nm == movers@.len(),
            k2 <= nm,
            movers_index(swept, movers@),
            actors@.len() == swept.len(),
            all_ok(swept),
            all_ok(actors@),
            forall|j: int|
                0 <= j < k2 ==> actors@[#[trigger] movers@[j] as int] == (ActorData {
                    vel: FixedPointVector {
                        x: swept[movers@[j] as int].vel.x,
                        y: swept[movers@[j] as int].next_vel,
                    },
                    ..swept[movers@[j] as int]
                }),
            forall|i: int|
                0 <= i < swept.len() ==> (#[trigger] actors@[i] == swept[i] || exists|j: int|
                    0 <= j < k2 && movers@[j] == i),
            changed == exists|j: int|
                0 <= j < k2 && swept[#[trigger] movers@[j] as int].next_vel != swept[movers@[
                    j
                ] as int].vel.y,
        decreases nm - k2,
    {
        let m = movers[k2];
        proof {
            assert forall|j: int| 0 <= j < k2 implies movers@[j] != movers@[k2 as int] by {
                assert(forall|j: int| 0 <= j < k2 ==> movers@[j] < movers@[k2 as int]);
            }
            assert(actors@[m as int] == swept[m as int]);
        }
        let d = actors[m];
        if d.next_vel != d.vel.y {
            let d2 = ActorData { vel: FixedPointVector { x: d.vel.x, y: d.next_vel }, ..d };
            vstd::std_specs::core::index_set(actors, m, d2);
            changed = true;
        } else {
            proof {
                assert(actors@[m as int] == (ActorData {
                    vel: FixedPointVector { x: swept[m as int].vel.x, y: swept[m as int].next_vel },
                    ..swept[m as int]
                }));
            }
        }
        k2 += 1;
    }
    proof {
        assert forall|i: int| 0 <= i < swept.len() implies actors@[i] == commit_y(swept)[i] by {
            if swept[i].moves {
                let j = choose|j: int| 0 <= j < movers@.len() && movers@[j] == i;
                assert(actors@[movers@[j] as int] == (ActorData {
                    vel: FixedPointVector {
                        x: swept[movers@[j] as int].vel.x,
                        y: swept[movers@[j] as int].next_vel,
                    },
                    ..swept[movers@[j] as int]
                }));
            } else {
                if exists|j: int| 0 <= j < k2 && movers@[j] == i {
                    let j = choose|j: int| 0 <= j < k2 && movers@[j] == i;
                    assert(swept[movers@[j] as int].moves);
                }
            }
        }
        assert(actors@ =~= commit_y(swept));
        if changed {
            assert(changed_y(swept));
        }
        if changed_y(swept) {
            let i = choose|i: int|
                0 <= i < swept.len() && (#[trigger] swept[i]).moves && swept[i].next_vel
                    != swept[i].vel.y;
            let j = choose|j: int| 0 <= j < movers@.len() && movers@[j] == i;
            assert(swept[movers@[j] as int].next_vel != swept[movers@[j] as int].vel.y);
        }
    }
    changed
}

/// The y-axis fixed-point iteration.
pub open spec fn converge_y(
    g: TileGrid,
    s: Seq<ActorData>,
    movers: Seq<usize>,
    fuel: nat,
) -> (Seq<ActorData>, Seq<Notification>)
    decreases fuel,
{
    if fuel == 0 {
        (s, Seq::empty())
    } else {
        let swept = pass_y_actors(g, s);
        let ev = pass_y_events(g, s, movers, movers.len() as int);
        let s2 = commit_y(swept);
        if !changed_y(swept) {
            (s2, ev)
        } else {
            let rec = converge_y(g, s2, movers, (fuel - 1) as nat);
            (rec.0, ev + rec.1)
        }
    }
}

/// Runs y-axis passes until no velocity changes, up to the fuel bound.
pub fn run_converge_y(
    g: &TileGrid,
    actors: &mut Vec<ActorData>,
    movers: &Vec<usize>,
    events: &mut Vec<Notification>,
)
    requires
        all_ok(old(actors)@),
        movers_index(old(actors)@, movers@),
        seeded_y(old(actors)@),
        movers@.len() <= 0x1000_0000,
    ensures
        final(actors)@ == converge_y(
            *g,
            old(actors)@,
            movers@,
            crate::resolve::conv_fuel(movers@.len() as nat),
        ).0,
        final(events)@ == old(events)@ + converge_y(
            *g,
            old(actors)@,
            movers@,
            crate::resolve::conv_fuel(movers@.len() as nat),
        ).1,
        all_ok(final(actors)@),
        movers_index(final(actors)@, movers@),
        seeded_y(final(actors)@),
{
    let ghost total = converge_y(
        *g,
        actors@,
        movers@,
        crate::resolve::conv_fuel(movers@.len() as nat),
    );
    let ghost ev0 = events@;
    let mut fuel: usize = 2 * movers.len() + 4;
    let mut dirty = true;
    while dirty && fuel > 0
        invariant
            all_ok(actors@),
            movers_index(actors@, movers@),
            seeded_y(actors@),
            dirty ==> ({
                let rec = converge_y(*g, actors@, movers@, fuel as nat);
                total.0 == rec.0 && ev0 + total.1 == events@ + rec.1
            }),
            !dirty ==> total.0 == actors@ && ev0 + total.1 == events@,
        decreases fuel,
    {
        let changed = pass_y(g, actors, movers, events);
        fuel -= 1;
        dirty = changed;
    }
}

/// The y-axis integration: every mover's position advances by its settled y
/// velocity. The tick ends here; nothing seeds the scratch velocity.
pub open spec fn integrate_y(s: Seq<ActorData>) -> Seq<ActorData> {
    Seq::new(
        s.len(),
        |i: int|
            if s[i].moves {
                ActorData {
                    pos: FixedPointVector { x: s[i].pos.x, y: (s[i].pos.y + s[i].vel.y) as i32 },
                    ..s[i]
                }
            } else {
                s[i]
            },
    )
}

/// Integrates every mover's position on the y axis.
pub fn run_integrate_y(actors: &mut Vec<ActorData>, movers: &Vec<usize>)
    requires
        all_ok(old(actors)@),
        movers_index(old(actors)@, movers@),
        forall|i: int|
            0 <= i < old(actors)@.len() ==> -crate::POS_LIM <= (#[trigger] old(
                actors,
            )@[i]).pos.y <= crate::POS_LIM,
    ensures
        final(actors)@ == integrate_y(old(actors)@),
        all_ok(final(actors)@),
        movers_index(final(actors)@, movers@),
{
    let ghost entry = actors@;
    let nm = movers.len();
    let mut k: usize = 0;
    while k < nm
        invariant
            nm == movers@.len(),
            k <= nm,
            all_ok(entry),
            movers_index(entry, movers@),
            forall|i: int|
                0 <= i < entry.len() ==> -crate::POS_LIM <= (#[trigger] entry[i]).pos.y
                    <= crate::POS_LIM,
            actors@.len() == entry.len(),
            all_ok(actors@),
            forall|j: int|
                0 <= j < k ==> actors@[#[trigger] movers@[j] as int] == integrate_y(entry)[movers@[
                    j
                ] as int],
            forall|i: int|
                0 <= i < entry.len() ==> (#[trigger] actors@[i] == entry[i] || exists|j: int|
                    0 <= j < k && movers@[j] == i),
        decreases nm - k,
    {
        let m = movers[k];
        proof {
            assert forall|j: int| 0 <= j < k implies movers@[j] != movers@[k as int] by {
                assert(forall|j: int| 0 <= j < k ==> movers@[j] < movers@[k as int]);
            }
            assert(actors@[m as int] == entry[m as int]);
        }
        let mut data = actors[m];
        data.pos.y = data.pos.y + data.vel.y;
        vstd::std_specs::core::index_set(actors, m, data);
        k += 1;
    }
    proof {
        assert forall|i: int| 0 <= i < entry.len() implies actors@[i] == integrate_y(entry)[i] by {
            if entry[i].moves {
                let j = choose|j: int| 0 <= j < movers@.len() && movers@[j] == i;
            } else {
                if exists|j: int| 0 <= j < k && movers@[j] == i {
                    let j = choose|j: int| 0 <= j < k && movers@[j] == i;
                    assert(entry[movers@[j] as int].moves);
                }
            }
        }
        assert(actors@ =~= integrate_y(entry));
    }
}

/// A y-axis convergence keeps positions, mobility and beam counters, as the
/// x-axis one does.
pub proof fn lemma_converge_y_frame(g: TileGrid, s: Seq<ActorData>, movers: Seq<usize>, fuel: nat)
    ensures
        converge_y(g, s, movers, fuel).0.len() == s.len(),
        forall|i: int|
            0 <= i < s.len() ==> crate::resolve::keeps_pmb(
                #[trigger] s[i],
                converge_y(g, s, movers, fuel).0[i],
            ),
    decreases fuel,
{
    if fuel > 0 {
        let swept = pass_y_actors(g, s);
        let s2 = commit_y(swept);
        assert forall|i: int| 0 <= i < s.len() implies crate::resolve::keeps_pmb(s[i], s2[i]) by {
            assert(swept[i] == pass_y_actors(g, s)[i]);
        }
        if changed_y(swept) {
            lemma_converge_y_frame(g, s2, movers, (fuel - 1) as nat);
        }
    }
}

} // verus!
