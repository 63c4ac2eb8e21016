//! The beam tracer: straight segments against opaque actor edges and solid
//! tiles, with reflection on mirror actors.
//!
//! A segment ends at the nearest of a solid tile along the ray (which ends
//! the whole trace with no reflection) or the nearest opaque actor edge
//! facing the ray. A reflective actor extends the segment across its box and
//! deflects the beam; an absorbing actor terminates the trace and becomes
//! the beam's hit actor.

use vstd::prelude::*;

use crate::actor::{ActorData, Reflection};
use crate::beam::{
    dir_step, reflect_inv_spec, reflect_main_spec, Beam, BeamModel, Direction, SegmentData,
};
use crate::fixed::FixedPointVector;
use crate::grid::{lemma_tile_mono, tile_coord, tile_of, TileGrid, TILE_SIZE};
use crate::resolve::all_ok;
use crate::{BEAM_LIM, MAX_BOUNCES};

verus! {

/// Whether `b`'s edge facing a beam that starts at `start` and heads `d`
/// is opaque and in the beam's path.
pub open spec fn beam_qual(d: Direction, start: FixedPointVector, b: ActorData) -> bool {
    match d {
        Direction::Left => b.right.opaque && b.lead_x() < start.x && b.trail_y() < start.y
            && b.lead_y() > start.y,
        Direction::Right => b.left.opaque && b.trail_x() > start.x && b.trail_y() < start.y
            && b.lead_y() > start.y,
        Direction::Up => b.bottom.opaque && b.lead_y() < start.y && b.trail_x() < start.x
            && b.lead_x() > start.x,
        Direction::Down => b.top.opaque && b.trail_y() > start.y && b.trail_x() < start.x
            && b.lead_x() > start.x,
    }
}

/// The distance from `start` to `b`'s facing edge along direction `d`.
pub open spec fn beam_dist(d: Direction, start: FixedPointVector, b: ActorData) -> int {
    match d {
        Direction::Left => start.x - b.lead_x(),
        Direction::Right => b.trail_x() - start.x,
        Direction::Up => start.y - b.lead_y(),
        Direction::Down => b.trail_y() - start.y,
    }
}

/// The scan of the first `n` actors for the nearest opaque facing edge:
/// each strictly nearer qualifying edge takes over, so the result is the
/// minimum distance and, among equals, the earliest actor in arena order.
pub open spec fn scan_actors(
    d: Direction,
    start: FixedPointVector,
    s: Seq<ActorData>,
    n: int,
) -> (int, Option<usize>)
    decreases n,
{
    if n <= 0 {
        (i32::MAX as int, None)
    } else {
        let prev = scan_actors(d, start, s, n - 1);
        let b = s[n - 1];
        if beam_qual(d, start, b) && beam_dist(d, start, b) < prev.0 {
            (beam_dist(d, start, b), Some((n - 1) as usize))
        } else {
            prev
        }
    }
}

/// Scans the whole arena for the nearest opaque edge facing the beam.
pub fn scan_beam_actors(
    d: Direction,
    start: FixedPointVector,
    actors: &Vec<ActorData>,
) -> (r: (i32, Option<usize>))
    requires
        all_ok(actors@),
        -BEAM_LIM <= start.x <= BEAM_LIM,
        -BEAM_LIM <= start.y <= BEAM_LIM,
    ensures
        (r.0 as int, r.1) == scan_actors(d, start, actors@, actors@.len() as int),
        r.1 matches Some(j) ==> j < actors@.len(),
        1 <= r.0,
{
    let mut len: i32 = i32::MAX;
    let mut hit: Option<usize> = None;
    let n = actors.len();
    let mut j: usize = 0;
    while j < n
        invariant
            n == actors@.len(),
            j <= n,
            all_ok(actors@),
            -BEAM_LIM <= start.x <= BEAM_LIM,
            -BEAM_LIM <= start.y <= BEAM_LIM,
            (len as int, hit) == scan_actors(d, start, actors@, j as int),
            hit matches Some(h) ==> h < n,
            1 <= len,
        decreases n - j,
    {
        let b = actors[j];
        match d {
            Direction::Left => {
                let edge = b.right_edge();
                if edge.properties.opaque && edge.pos.x < start.x && edge.pos.y < start.y
                    && edge.pos.y + edge.length > start.y && start.x - edge.pos.x < len {
                    len = start.x - edge.pos.x;
                    hit = Some(j);
                }
            },
            Direction::Right => {
                let edge = b.left_edge();
                if edge.properties.opaque && edge.pos.x > start.x && edge.pos.y < start.y
                    && edge.pos.y + edge.length > start.y && edge.pos.x - start.x < len {
                    len = edge.pos.x - start.x;
                    hit = Some(j);
                }
            },
            Direction::Up => {
                let edge = b.bottom_edge();
                if edge.properties.opaque && edge.pos.y < start.y && edge.pos.x < start.x
                    && edge.pos.x + edge.length > start.x && start.y - edge.pos.y < len {
                    len = start.y - edge.pos.y;
                    hit = Some(j);
                }
            },
            Direction::Down => {
                let edge = b.top_edge();
                if edge.properties.opaque && edge.pos.y > start.y && edge.pos.x < start.x
                    && edge.pos.x + edge.length > start.x && edge.pos.y - start.y < len {
                    len = edge.pos.y - start.y;
                    hit = Some(j);
                }
            },
        }
        j += 1;
    }
    (len, hit)
}

/// The first step index in `[i, maxi]` at which the ray from tile
/// `(tx, ty)` along `(dx, dy)` meets a solid cell.
pub open spec fn ray_tile_hit(
    g: TileGrid,
    tx: int,
    ty: int,
    dx: int,
    dy: int,
    i: int,
    maxi: int,
) -> Option<int>
    decreases maxi + 1 - i,
{
    if i > maxi {
        None
    } else if g.sol(tx + i * dx, ty + i * dy) {
        Some(i)
    } else {
        ray_tile_hit(g, tx, ty, dx, dy, i + 1, maxi)
    }
}

/// Walks the ray's tiles from step 0 through `maxi`, looking for the first
/// solid cell.
pub fn scan_ray_tiles(g: &TileGrid, tx: i32, ty: i32, d: Direction, maxi: i32) -> (r: Option<i32>)
    requires
        -0x1_0000 <= tx <= 0x1_0000,
        -0x1_0000 <= ty <= 0x1_0000,
        0 <= maxi <= 0x8000,
    ensures
        ({
            let step = dir_step(d);
            ray_tile_hit(*g, tx as int, ty as int, step.0 as int, step.1 as int, 0, maxi as int)
                == (match r {
                Some(i) => Some(i as int),
                None => None::<int>,
            }) && (r matches Some(i) ==> 0 <= i <= maxi)
        }),
{
    let step = d.tile_offset();
    let ghost dx = step.0 as int;
    let ghost dy = step.1 as int;
    let mut cx: i32 = tx;
    let mut cy: i32 = ty;
    let mut i: i32 = 0;
    while i <= maxi
        invariant
            -0x1_0000 <= tx <= 0x1_0000,
            -0x1_0000 <= ty <= 0x1_0000,
            0 <= maxi <= 0x8000,
            0 <= i <= maxi + 1,
            -1 <= dx <= 1,
            -1 <= dy <= 1,
            step == dir_step(d),
            (dx, dy) == (step.0 as int, step.1 as int),
            cx == tx + i * dx,
            cy == ty + i * dy,
            tx - i <= cx <= tx + i,
            ty - i <= cy <= ty + i,
            ray_tile_hit(*g, tx as int, ty as int, dx, dy, 0, maxi as int) == ray_tile_hit(
                *g,
                tx as int,
                ty as int,
                dx,
                dy,
                i as int,
                maxi as int,
            ),
        decreases maxi + 1 - i,
    {
        if g.is_solid(cx, cy) {
            return Some(i);
        }
        proof {
            assert((i + 1) * dx == i * dx + dx) by (nonlinear_arith);
            assert((i + 1) * dy == i * dy + dy) by (nonlinear_arith);
        }
        i += 1;
        cx += step.0;
        cy += step.1;
    }
    None
}

/// What [`scan_actors`] returns: a hit is a qualifying actor at the
/// recorded distance; no hit leaves the unobstructed sentinel length.
pub proof fn lemma_scan_hit(d: Direction, start: FixedPointVector, s: Seq<ActorData>, n: int)
    requires
        n <= s.len(),
        n <= usize::MAX,
    ensures
        match scan_actors(d, start, s, n).1 {
            Some(j) => 0 <= j < n && beam_qual(d, start, s[j as int]) && scan_actors(
                d,
                start,
                s,
                n,
            ).0 == beam_dist(d, start, s[j as int]) && scan_actors(d, start, s, n).0
                < i32::MAX,
            None => scan_actors(d, start, s, n).0 == i32::MAX as int,
        },
    decreases n,
{
    if n > 0 {
        lemma_scan_hit(d, start, s, n - 1);
        let prev = scan_actors(d, start, s, n - 1);
        let b = s[n - 1];
        if beam_qual(d, start, b) && beam_dist(d, start, b) < prev.0 {
            assert(scan_actors(d, start, s, n) == (beam_dist(d, start, b), Some((n - 1) as usize)));
        } else {
            assert(scan_actors(d, start, s, n) == prev);
        }
    } else {
        assert(scan_actors(d, start, s, n) == (i32::MAX as int, None::<usize>));
    }
}

/// The perpendicular offset of the beam within the hit actor's box.
pub open spec fn step_offset(d: Direction, start: FixedPointVector, b: ActorData) -> int {
    match d {
        Direction::Up | Direction::Down => start.x - b.pos.x - b.area_offset.x,
        Direction::Left | Direction::Right => start.y - b.pos.y - b.area_offset.y,
    }
}

/// The hit actor's box extent on the perpendicular axis.
pub open spec fn step_size(d: Direction, b: ActorData) -> int {
    match d {
        Direction::Up | Direction::Down => b.area_size.x as int,
        Direction::Left | Direction::Right => b.area_size.y as int,
    }
}

/// How far the segment extends into a mirror's box before deflecting:
/// the perpendicular offset or its complement, depending on whether the
/// mirror is direct or inverse and on the incoming direction.
pub open spec fn reflect_adjust(d: Direction, inverse: bool, offset: int, size: int) -> int {
    match (d, inverse) {
        (Direction::Up, true) | (Direction::Down, false) | (Direction::Left, true) | (
            Direction::Right,
            false,
        ) => offset,
        _ => size - offset,
    }
}

/// One trace step from `start` heading `d`: the finished segment, the actor
/// hit (none when a tile ends the segment), whether a reflected segment
/// follows, and that segment's start state.
pub open spec fn step_spec(
    g: TileGrid,
    s: Seq<ActorData>,
    start: FixedPointVector,
    d: Direction,
) -> (SegmentData, Option<usize>, bool, SegmentData) {
    let a_scan = scan_actors(d, start, s, s.len() as int);
    let step = dir_step(d);
    let t = ray_tile_hit(
        g,
        tile_of(start.x as int),
        tile_of(start.y as int),
        step.0 as int,
        step.1 as int,
        0,
        a_scan.0 / (TILE_SIZE as int),
    );
    let len2 = match t {
        Some(i) => i * (TILE_SIZE as int),
        None => a_scan.0,
    };
    let hit2: Option<usize> = match t {
        Some(i) => None,
        None => a_scan.1,
    };
    match hit2 {
        None => {
            let fin = SegmentData { start, length: len2 as i32, direction: d, end: true };
            (fin, hit2, false, fin)
        },
        Some(j) => {
            let b = s[j as int];
            if b.reflection is Absorb {
                let fin = SegmentData { start, length: len2 as i32, direction: d, end: true };
                (fin, hit2, false, fin)
            } else {
                let inverse = b.reflection is Inverse;
                let len3 = len2 + reflect_adjust(
                    d,
                    inverse,
                    step_offset(d, start, b),
                    step_size(d, b),
                );
                let fin = SegmentData { start, length: len3 as i32, direction: d, end: false };
                let nd = if inverse {
                    reflect_inv_spec(d)
                } else {
                    reflect_main_spec(d)
                };
                let nstart = FixedPointVector {
                    x: (start.x + step.0 * len3) as i32,
                    y: (start.y + step.1 * len3) as i32,
                };
                (fin, hit2, true, SegmentData {
                    start: nstart,
                    length: i32::MAX,
                    direction: nd,
                    end: false,
                })
            }
        },
    }
}

/// Runs one trace step from `start` heading `d`.
#[verifier::rlimit(60)]
pub fn trace_step(
    g: &TileGrid,
    actors: &Vec<ActorData>,
    start: FixedPointVector,
    d: Direction,
) -> (r: (SegmentData, Option<usize>, bool, SegmentData))
    requires
        all_ok(actors@),
        -BEAM_LIM <= start.x <= BEAM_LIM,
        -BEAM_LIM <= start.y <= BEAM_LIM,
    ensures
        r == step_spec(*g, actors@, start, d),
        r.1 matches Some(j) ==> j < actors@.len(),
        r.2 ==> -BEAM_LIM <= r.3.start.x <= BEAM_LIM && -BEAM_LIM <= r.3.start.y <= BEAM_LIM
            && r.3.length == i32::MAX && !r.3.end,
        0 <= r.0.length,
{
    let na = actors.len();
    proof {
        assert(actors@.len() == na as int);
        lemma_scan_hit(d, start, actors@, actors@.len() as int);
    }
    let (alen, ahit) = scan_beam_actors(d, start, actors);
    let tx = tile_coord(start.x);
    let ty = tile_coord(start.y);
    proof {
        lemma_tile_mono(-0x800_0000, start.x as int);
        lemma_tile_mono(start.x as int, 0x800_0000);
        lemma_tile_mono(-0x800_0000, start.y as int);
        lemma_tile_mono(start.y as int, 0x800_0000);
    }
    let maxi: i32 = alen / TILE_SIZE;
    let thit = scan_ray_tiles(g, tx, ty, d, maxi);
    match thit {
        Some(i) => {
            let fin = SegmentData { start, length: i * TILE_SIZE, direction: d, end: true };
            (fin, None, false, fin)
        },
        None => {
            match ahit {
                None => {
                    let fin = SegmentData { start, length: alen, direction: d, end: true };
                    (fin, None, false, fin)
                },
                Some(j) => {
                    let b = actors[j];
                    if b.reflection == Reflection::Absorb {
                        let fin = SegmentData { start, length: alen, direction: d, end: true };
                        (fin, Some(j), false, fin)
                    } else {
                        let inverse = b.reflection == Reflection::Inverse;
                        let off: i32;
                        let size: i32;
                        match d {
                            Direction::Up | Direction::Down => {
                                off = start.x - b.pos.x - b.area_offset.x;
                                size = b.area_size.x;
                            },
                            Direction::Left | Direction::Right => {
                                off = start.y - b.pos.y - b.area_offset.y;
                                size = b.area_size.y;
                            },
                        }
                        proof {
                            assert(0 < off < size);
                        }
                        let adj: i32 = match (d, inverse) {
                            (Direction::Up, true) | (Direction::Down, false) | (
                                Direction::Left,
                                true,
                            ) | (Direction::Right, false) => off,
                            _ => size - off,
                        };
                        let len3: i32 = alen + adj;
                        let fin = SegmentData { start, length: len3, direction: d, end: false };
                        let nd = if inverse {
                            d.reflect_inv()
                        } else {
                            d.reflect_main()
                        };
                        proof {
                            assert(b.ok());
                            match d {
                                Direction::Left => {
                                    assert(dir_step(d) == ((-1i32, 0i32)));
                                    assert(start.x - len3 == b.lead_x() - adj);
                                },
                                Direction::Right => {
                                    assert(dir_step(d) == ((1i32, 0i32)));
                                    assert(start.x + len3 == b.trail_x() + adj);
                                },
                                Direction::Up => {
                                    assert(dir_step(d) == ((0i32, -1i32)));
                                    assert(start.y - len3 == b.lead_y() - adj);
                                },
                                Direction::Down => {
                                    assert(dir_step(d) == ((0i32, 1i32)));
                                    assert(start.y + len3 == b.trail_y() + adj);
                                },
                            }
                        }
                        let nstart = match d {
                            Direction::Left => FixedPointVector { x: start.x - len3, y: start.y },
                            Direction::Right => FixedPointVector { x: start.x + len3, y: start.y },
                            Direction::Up => FixedPointVector { x: start.x, y: start.y - len3 },
                            Direction::Down => FixedPointVector { x: start.x, y: start.y + len3 },
                        };
                        proof {
                            assert(nstart.x as int == start.x + dir_step(d).0 * len3
                                && nstart.y as int == start.y + dir_step(d).1 * len3) by {
                                match d {
                                    Direction::Left => {
                                        assert(dir_step(d).0 == -1i32 && dir_step(d).1 == 0i32);
                                        assert((-1) * (len3 as int) == -(len3 as int))
                                            by (nonlinear_arith);
                                        assert(0 * (len3 as int) == 0) by (nonlinear_arith);
                                    },
                                    Direction::Right => {
                                        assert(dir_step(d).0 == 1i32 && dir_step(d).1 == 0i32);
                                        assert(1 * (len3 as int) == len3 as int)
                                            by (nonlinear_arith);
                                        assert(0 * (len3 as int) == 0) by (nonlinear_arith);
                                    },
                                    Direction::Up => {
                                        assert(dir_step(d).0 == 0i32 && dir_step(d).1 == -1i32);
                                        assert((-1) * (len3 as int) == -(len3 as int))
                                            by (nonlinear_arith);
                                        assert(0 * (len3 as int) == 0) by (nonlinear_arith);
                                    },
                                    Direction::Down => {
                                        assert(dir_step(d).0 == 0i32 && dir_step(d).1 == 1i32);
                                        assert(1 * (len3 as int) == len3 as int)
                                            by (nonlinear_arith);
                                        assert(0 * (len3 as int) == 0) by (nonlinear_arith);
                                    },
                                }
                            }
                        }
                        (fin, Some(j), true, SegmentData {
                            start: nstart,
                            length: i32::MAX,
                            direction: nd,
                            end: false,
                        })
                    }
                },
            }
        },
    }
}

/// The whole trace from one segment start: the segments laid down in order
/// and the actor the beam finally rests on. A trace that still wants to
/// reflect with no bounce budget left is treated as absorbed by nothing.
pub open spec fn trace_rec(
    g: TileGrid,
    s: Seq<ActorData>,
    start: FixedPointVector,
    d: Direction,
    fuel: nat,
) -> (Seq<SegmentData>, Option<usize>)
    decreases fuel,
{
    let st = step_spec(g, s, start, d);
    if !st.2 {
        (seq![st.0], st.1)
    } else if fuel == 0 {
        (seq![st.0], None)
    } else {
        let rec = trace_rec(g, s, st.3.start, st.3.direction, (fuel - 1) as nat);
        (seq![st.0] + rec.0, rec.1)
    }
}

/// Traces a beam from its emitter, bounded by the bounce budget.
pub fn run_trace(
    g: &TileGrid,
    actors: &Vec<ActorData>,
    start_pos: FixedPointVector,
    start_direction: Direction,
) -> (r: (Vec<SegmentData>, Option<usize>))
    requires
        all_ok(actors@),
        -BEAM_LIM <= start_pos.x <= BEAM_LIM,
        -BEAM_LIM <= start_pos.y <= BEAM_LIM,
    ensures
        (r.0@, r.1) == trace_rec(*g, actors@, start_pos, start_direction, MAX_BOUNCES as nat),
        r.1 matches Some(j) ==> j < actors@.len(),
        r.0@.len() >= 1,
{
    let ghost total = trace_rec(*g, actors@, start_pos, start_direction, MAX_BOUNCES as nat);
    let mut segs: Vec<SegmentData> = Vec::new();
    let mut hit: Option<usize> = None;
    let mut pos = start_pos;
    let mut d = start_direction;
    let mut fuel: usize = MAX_BOUNCES;
    let mut done = false;
    while !done
        invariant
            all_ok(actors@),
            !done ==> ({
                &&& -BEAM_LIM <= pos.x <= BEAM_LIM
                &&& -BEAM_LIM <= pos.y <= BEAM_LIM
                &&& ({
                    let rec = trace_rec(*g, actors@, pos, d, fuel as nat);
                    total == (segs@ + rec.0, rec.1)
                })
            }),
            done ==> total == (segs@, hit) && segs@.len() >= 1,
            done ==> (hit matches Some(j) ==> j < actors@.len()),
        decreases fuel + if done { 0int } else { 1 },
    {
        let st = trace_step(g, actors, pos, d);
        segs.push(st.0);
        if !st.2 {
            hit = st.1;
            done = true;
        } else if fuel == 0 {
            hit = None;
            done = true;
        } else {
            pos = st.3.start;
            d = st.3.direction;
            fuel -= 1;
        }
    }
    (segs, hit)
}

// ---------------------------------------------------------------------------
// Bounding box of a traced beam
// ---------------------------------------------------------------------------

/// Clamps an unbounded coordinate into the i32 range; only a segment left
/// unobstructed, whose length is the sentinel, is ever clamped.
pub open spec fn sat_i32(v: int) -> int {
    if v < i32::MIN {
        i32::MIN as int
    } else if v > i32::MAX {
        i32::MAX as int
    } else {
        v
    }
}

/// The running extremes after folding the first `n` segments into the box
/// `(top, left, bottom, right)`: each segment pushes the face it heads for.
pub open spec fn bbox_rec(
    segs: Seq<SegmentData>,
    n: int,
    t: int,
    l: int,
    b: int,
    r: int,
) -> (int, int, int, int)
    decreases n,
{
    if n <= 0 {
        (t, l, b, r)
    } else {
        let prev = bbox_rec(segs, n - 1, t, l, b, r);
        let sg = segs[n - 1];
        match sg.direction {
            Direction::Down => (
                prev.0,
                prev.1,
                if prev.2 >= sg.start.y + sg.length {
                    prev.2
                } else {
                    sg.start.y + sg.length
                },
                prev.3,
            ),
            Direction::Left => (
                prev.0,
                if prev.1 <= sg.start.x - sg.length {
                    prev.1
                } else {
                    sg.start.x - sg.length
                },
                prev.2,
                prev.3,
            ),
            Direction::Right => (
                prev.0,
                prev.1,
                prev.2,
                if prev.3 >= sg.start.x + sg.length {
                    prev.3
                } else {
                    sg.start.x + sg.length
                },
            ),
            Direction::Up => (
                if prev.0 <= sg.start.y - sg.length {
                    prev.0
                } else {
                    sg.start.y - sg.length
                },
                prev.1,
                prev.2,
                prev.3,
            ),
        }
    }
}

/// The beam's bounding box: the union of all segment extents, seeded with
/// the emitter position, padded by one unit a side and clamped to i32.
pub open spec fn beam_bbox(segs: Seq<SegmentData>, sp: FixedPointVector) -> (int, int, int, int) {
    let f = bbox_rec(segs, segs.len() as int, sp.y as int, sp.x as int, sp.y as int, sp.x as int);
    (sat_i32(f.0 - 1), sat_i32(f.1 - 1), sat_i32(f.2 + 1), sat_i32(f.3 + 1))
}

/// Computes the padded bounding box of a traced segment list.
pub fn bbox_exec(segs: &Vec<SegmentData>, sp: FixedPointVector) -> (r: (i32, i32, i32, i32))
    ensures
        (r.0 as int, r.1 as int, r.2 as int, r.3 as int) == beam_bbox(segs@, sp),
{
    let mut t: i64 = sp.y as i64;
    let mut l: i64 = sp.x as i64;
    let mut b: i64 = sp.y as i64;
    let mut r: i64 = sp.x as i64;
    let n = segs.len();
    let mut k: usize = 0;
    while k < n
        invariant
            n == segs@.len(),
            k <= n,
            -0x1_0000_0000_0000i64 <= t <= 0x1_0000_0000_0000i64,
            -0x1_0000_0000_0000i64 <= l <= 0x1_0000_0000_0000i64,
            -0x1_0000_0000_0000i64 <= b <= 0x1_0000_0000_0000i64,
            -0x1_0000_0000_0000i64 <= r <= 0x1_0000_0000_0000i64,
            (t as int, l as int, b as int, r as int) == bbox_rec(
                segs@,
                k as int,
                sp.y as int,
                sp.x as int,
                sp.y as int,
                sp.x as int,
            ),
        decreases n - k,
    {
        let sg = segs[k];
        match sg.direction {
            Direction::Down => {
                let c: i64 = sg.start.y as i64 + sg.length as i64;
                if c > b {
                    b = c;
                }
            },
            Direction::Left => {
                let c: i64 = sg.start.x as i64 - sg.length as i64;
                if c < l {
                    l = c;
                }
            },
            Direction::Right => {
                let c: i64 = sg.start.x as i64 + sg.length as i64;
                if c > r {
                    r = c;
                }
            },
            Direction::Up => {
                let c: i64 = sg.start.y as i64 - sg.length as i64;
                if c < t {
                    t = c;
                }
            },
        }
        k += 1;
    }
    let tt = clamp_pad(t, -1);
    let ll = clamp_pad(l, -1);
    let bb = clamp_pad(b, 1);
    let rr = clamp_pad(r, 1);
    (tt, ll, bb, rr)
}

/// Pads a box face by one unit and clamps it into i32.
fn clamp_pad(v: i64, pad: i64) -> (r: i32)
    requires
        -3 <= pad <= 3,
        -0x1_0000_0000_0000i64 <= v <= 0x1_0000_0000_0000i64,
    ensures
        r as int == sat_i32(v + pad),
{
    let w: i64 = v + pad;
    if w < i32::MIN as i64 {
        i32::MIN
    } else if w > i32::MAX as i64 {
        i32::MAX
    } else {
        w as i32
    }
}

// ---------------------------------------------------------------------------
// Beam accounting and the per-tick beam phase
// ---------------------------------------------------------------------------

/// Whether beam `b` currently terminates on actor `j`.
pub open spec fn hit_is(b: BeamModel, j: int) -> bool {
    match b.hit_actor {
        Some(k) => k as int == j,
        None => false,
    }
}

/// How many beams currently terminate on actor `j`.
pub open spec fn beam_count(bs: Seq<BeamModel>, j: int) -> int
    decreases bs.len(),
{
    if bs.len() == 0 {
        0
    } else {
        beam_count(bs.drop_last(), j) + if hit_is(bs.last(), j) {
            1int
        } else {
            0
        }
    }
}

/// An actor no beam rests on has a count of zero.
pub proof fn lemma_count_absent(bs: Seq<BeamModel>, j: int)
    requires
        forall|b: int| 0 <= b < bs.len() ==> !hit_is(#[trigger] bs[b], j),
    ensures
        beam_count(bs, j) == 0,
    decreases bs.len(),
{
    if bs.len() > 0 {
        lemma_count_absent(bs.drop_last(), j);
    }
}

/// Appending a beam that rests on nobody changes no count.
pub proof fn lemma_count_push_none(bs: Seq<BeamModel>, nb: BeamModel, j: int)
    requires
        nb.hit_actor is None,
    ensures
        beam_count(bs.push(nb), j) == beam_count(bs, j),
{
    assert(bs.push(nb).drop_last() =~= bs);
}

/// Every actor's beam counter equals the number of beams resting on it.
pub open spec fn counts_ok(s: Seq<ActorData>, bs: Seq<BeamModel>) -> bool {
    forall|j: int| 0 <= j < s.len() ==> (#[trigger] s[j]).beams == beam_count(bs, j)
}

/// A beam count is between zero and the number of beams.
pub proof fn lemma_count_bounds(bs: Seq<BeamModel>, j: int)
    ensures
        0 <= beam_count(bs, j) <= bs.len(),
    decreases bs.len(),
{
    if bs.len() > 0 {
        lemma_count_bounds(bs.drop_last(), j);
    }
}

/// A beam resting on `j` contributes at least one to `j`'s count.
pub proof fn lemma_count_member(bs: Seq<BeamModel>, b: int, j: int)
    requires
        0 <= b < bs.len(),
        hit_is(bs[b], j),
    ensures
        beam_count(bs, j) >= 1,
    decreases bs.len(),
{
    lemma_count_bounds(bs.drop_last(), j);
    if b < bs.len() - 1 {
        lemma_count_member(bs.drop_last(), b, j);
    }
}

/// Replacing one beam adjusts each count by that beam's leaving and
/// arriving contribution.
pub proof fn lemma_count_update(bs: Seq<BeamModel>, b: int, nb: BeamModel, j: int)
    requires
        0 <= b < bs.len(),
    ensures
        beam_count(bs.update(b, nb), j) == beam_count(bs, j) - (if hit_is(bs[b], j) {
            1int
        } else {
            0
        }) + (if hit_is(nb, j) {
            1int
        } else {
            0
        }),
    decreases bs.len(),
{
    let upd = bs.update(b, nb);
    if b == bs.len() - 1 {
        assert(upd.drop_last() =~= bs.drop_last());
    } else {
        assert(upd.drop_last() =~= bs.drop_last().update(b, nb));
        lemma_count_update(bs.drop_last(), b, nb, j);
    }
}

/// Whether any moving actor has nonzero velocity, which forces every lit
/// beam to retrace this tick.
pub open spec fn any_moving(s: Seq<ActorData>) -> bool {
    exists|i: int|
        0 <= i < s.len() && (#[trigger] s[i]).moves && (s[i].vel.x != 0 || s[i].vel.y != 0)
}

/// Checks whether any mover has nonzero velocity.
pub fn movers_moving(actors: &Vec<ActorData>, movers: &Vec<usize>) -> (r: bool)
    requires
        crate::resolve::movers_index(actors@, movers@),
    ensures
        r == any_moving(actors@),
{
    let nm = movers.len();
    let mut k: usize = 0;
    while k < nm
        invariant
            nm == movers@.len(),
            k <= nm,
            crate::resolve::movers_index(actors@, movers@),
            forall|j: int|
                0 <= j < k ==> actors@[#[trigger] movers@[j] as int].vel.x == 0 && actors@[movers@[
                    j
                ] as int].vel.y == 0,
        decreases nm - k,
    {
        let m = movers[k];
        let d = actors[m];
        if d.vel.x != 0 || d.vel.y != 0 {
            return true;
        }
        k += 1;
    }
    proof {
        if any_moving(actors@) {
            let i = choose|i: int|
                0 <= i < actors@.len() && (#[trigger] actors@[i]).moves && (actors@[i].vel.x != 0
                    || actors@[i].vel.y != 0);
            let j = choose|j: int| 0 <= j < movers@.len() && movers@[j] == i;
            assert(actors@[movers@[j] as int].vel.x == 0 && actors@[movers@[j] as int].vel.y == 0);
        }
    }
    false
}

/// Whether a beam's geometry must be recomputed this tick: its activation
/// state disagrees with its having geometry, or it is lit while something
/// moves.
pub open spec fn needs_retrace(bm: BeamModel, moving: bool) -> bool {
    (bm.active == (bm.segments.len() == 0)) || (bm.active && moving)
}

/// The arena with actor `j`'s beam counter decremented.
pub open spec fn dec_beams(s: Seq<ActorData>, j: int) -> Seq<ActorData> {
    s.update(j, ActorData { beams: (s[j].beams - 1) as i32, ..s[j] })
}

/// The arena with actor `j`'s beam counter incremented.
pub open spec fn inc_beams(s: Seq<ActorData>, j: int) -> Seq<ActorData> {
    s.update(j, ActorData { beams: (s[j].beams + 1) as i32, ..s[j] })
}

/// One beam's recomputation: release the previous hit actor, then, if lit,
/// trace anew, record the new hit actor and refresh the bounding box; if
/// dark, just clear the geometry. A beam that need not retrace is untouched.
pub open spec fn retrace_spec(
    g: TileGrid,
    s: Seq<ActorData>,
    bm: BeamModel,
    moving: bool,
) -> (Seq<ActorData>, BeamModel) {
    if !needs_retrace(bm, moving) {
        (s, bm)
    } else {
        let s1 = match bm.hit_actor {
            Some(j) => dec_beams(s, j as int),
            None => s,
        };
        if bm.active {
            let tr = trace_rec(g, s1, bm.start_pos, bm.start_direction, MAX_BOUNCES as nat);
            let s2 = match tr.1 {
                Some(j) => inc_beams(s1, j as int),
                None => s1,
            };
            let bb = beam_bbox(tr.0, bm.start_pos);
            (
                s2,
                BeamModel {
                    hit_actor: tr.1,
                    segments: tr.0,
                    top: bb.0 as i32,
                    left: bb.1 as i32,
                    bottom: bb.2 as i32,
                    right: bb.3 as i32,
                    ..bm
                },
            )
        } else {
            (s1, BeamModel { hit_actor: None, segments: Seq::empty(), ..bm })
        }
    }
}

/// The whole beam phase: every beam recomputed in turn, each seeing the
/// beam counters left by the ones before it.
pub open spec fn beams_phase(
    g: TileGrid,
    s: Seq<ActorData>,
    bs: Seq<BeamModel>,
    moving: bool,
    n: int,
) -> (Seq<ActorData>, Seq<BeamModel>)
    decreases n,
{
    if n <= 0 {
        (s, bs)
    } else {
        let prev = beams_phase(g, s, bs, moving, n - 1);
        let one = retrace_spec(g, prev.0, prev.1[n - 1], moving);
        (one.0, prev.1.update(n - 1, one.1))
    }
}

/// The views of a vector of beams.
pub open spec fn views(bs: Seq<Beam>) -> Seq<BeamModel> {
    Seq::new(bs.len(), |i: int| bs[i]@)
}

/// Every beam's emitter position is in range and its hit actor, if any, is
/// a valid arena index.
pub open spec fn beams_wf(bs: Seq<BeamModel>, n_actors: int) -> bool {
    forall|b: int|
        0 <= b < bs.len() ==> {
            let bm = #[trigger] bs[b];
            &&& -crate::LIM <= bm.start_pos.x <= crate::LIM
            &&& -crate::LIM <= bm.start_pos.y <= crate::LIM
            &&& (bm.hit_actor matches Some(j) ==> j < n_actors)
        }
}

/// The beam phase touches no beam at or beyond its progress point, and
/// changes no arena length.
pub proof fn lemma_phase_frame(
    g: TileGrid,
    s: Seq<ActorData>,
    bs: Seq<BeamModel>,
    moving: bool,
    n: int,
)
    requires
        0 <= n <= bs.len(),
        beams_wf(bs, s.len() as int),
        s.len() <= usize::MAX,
    ensures
        ({
            let r = beams_phase(g, s, bs, moving, n);
            r.0.len() == s.len() && r.1.len() == bs.len() && forall|k: int|
                n <= k < bs.len() ==> r.1[k] == bs[k]
        }),
    decreases n,
{
    if n > 0 {
        lemma_phase_frame(g, s, bs, moving, n - 1);
        let prev = beams_phase(g, s, bs, moving, n - 1);
        let bmn = prev.1[n - 1];
        assert(bmn == bs[n - 1]);
        let one = retrace_spec(g, prev.0, bmn, moving);
        assert(one.0.len() == prev.0.len()) by {
            if needs_retrace(bmn, moving) {
                assert(bmn.hit_actor matches Some(j) ==> j < prev.0.len());
                let s1 = match bmn.hit_actor {
                    Some(j) => dec_beams(prev.0, j as int),
                    None => prev.0,
                };
                assert(s1.len() == prev.0.len());
                if bmn.active {
                    lemma_trace_hit_valid(
                        g,
                        s1,
                        bmn.start_pos,
                        bmn.start_direction,
                        MAX_BOUNCES as nat,
                    );
                    let tr = trace_rec(g, s1, bmn.start_pos, bmn.start_direction, MAX_BOUNCES as nat);
                    match tr.1 {
                        Some(j) => {
                            assert(inc_beams(s1, j as int).len() == s1.len());
                        },
                        None => {},
                    }
                }
            }
        }
    }
}

/// `b` agrees with `a` on every field but the beam counter.
pub open spec fn eq_mod_beams(a: ActorData, b: ActorData) -> bool {
    b == ActorData { beams: b.beams, ..a }
}

/// A trace's hit actor is a valid arena index.
pub proof fn lemma_trace_hit_valid(
    g: TileGrid,
    s: Seq<ActorData>,
    start: FixedPointVector,
    d: Direction,
    fuel: nat,
)
    requires
        s.len() <= usize::MAX,
    ensures
        trace_rec(g, s, start, d, fuel).1 matches Some(j) ==> j < s.len(),
    decreases fuel,
{
    lemma_scan_hit(d, start, s, s.len() as int);
    let st = step_spec(g, s, start, d);
    if st.2 && fuel > 0 {
        lemma_trace_hit_valid(g, s, st.3.start, st.3.direction, (fuel - 1) as nat);
    }
}

/// Retraces one lit beam whose previous hit is already released: traces the
/// geometry anew, records the new hit actor and counter, and refreshes the
/// bounding box.
#[verifier::rlimit(100)]
fn retrace_lit(
    g: &TileGrid,
    actors: &mut Vec<ActorData>,
    bm: Beam,
    Ghost(bs_mid): Ghost<Seq<BeamModel>>,
    Ghost(b): Ghost<int>,
) -> (r: Beam)
    requires
        bm.active,
        bm@.hit_actor is None,
        all_ok(old(actors)@),
        counts_ok(old(actors)@, bs_mid),
        0 <= b < bs_mid.len(),
        bs_mid.len() <= 0x1_0000,
        bs_mid[b] == bm@,
        -crate::LIM <= bm.start_pos.x <= crate::LIM,
        -crate::LIM <= bm.start_pos.y <= crate::LIM,
    ensures
        ({
            let tr = trace_rec(*g, old(actors)@, bm.start_pos, bm.start_direction, MAX_BOUNCES as nat);
            let bb = beam_bbox(tr.0, bm.start_pos);
            &&& final(actors)@ == (match tr.1 {
                Some(j) => inc_beams(old(actors)@, j as int),
                None => old(actors)@,
            })
            &&& r@ == (BeamModel {
                hit_actor: tr.1,
                segments: tr.0,
                top: bb.0 as i32,
                left: bb.1 as i32,
                bottom: bb.2 as i32,
                right: bb.3 as i32,
                ..bm@
            })
            &&& (tr.1 matches Some(j) ==> j < old(actors)@.len())
        }),
        final(actors)@.len() == old(actors)@.len(),
        forall|i: int|
            0 <= i < old(actors)@.len() ==> eq_mod_beams(
                #[trigger] old(actors)@[i],
                final(actors)@[i],
            ),
        all_ok(final(actors)@),
        counts_ok(final(actors)@, bs_mid.update(b, r@)),
{
    let mut bm = bm;
    let tr = run_trace(g, actors, bm.start_pos, bm.start_direction);
    let segs = tr.0;
    let hit = tr.1;
    match hit {
        Some(j) => {
            proof {
                lemma_count_bounds(bs_mid, j as int);
            }
            let mut aj = actors[j];
            aj.beams = aj.beams + 1;
            vstd::std_specs::core::index_set(actors, j, aj);
            bm.hit_actor = Some(j);
        },
        None => {},
    }
    bm.segments = segs;
    let bb = bbox_exec(&bm.segments, bm.start_pos);
    bm.top = bb.0;
    bm.left = bb.1;
    bm.bottom = bb.2;
    bm.right = bb.3;
    proof {
        assert forall|j2: int|
            0 <= j2 < actors@.len() implies (#[trigger] actors@[j2]).beams == beam_count(
            bs_mid.update(b, bm@),
            j2,
        ) by {
            lemma_count_update(bs_mid, b, bm@, j2);
        }
    }
    bm
}

/// Recomputes the single beam at index `b`, updating the beam counters of
/// the released and newly hit actors.
#[verifier::rlimit(100)]
fn retrace_one(
    g: &TileGrid,
    actors: &mut Vec<ActorData>,
    beams: &mut Vec<Beam>,
    b: usize,
    moving: bool,
)
    requires
        b < old(beams)@.len(),
        old(beams)@.len() <= 0x1_0000,
        all_ok(old(actors)@),
        beams_wf(views(old(beams)@), old(actors)@.len() as int),
        counts_ok(old(actors)@, views(old(beams)@)),
    ensures
        ({
            let one = retrace_spec(*g, old(actors)@, views(old(beams)@)[b as int], moving);
            final(actors)@ == one.0 && views(final(beams)@) == views(old(beams)@).update(
                b as int,
                one.1,
            )
        }),
        final(beams)@.len() == old(beams)@.len(),
        final(actors)@.len() == old(actors)@.len(),
        forall|i: int|
            0 <= i < old(actors)@.len() ==> eq_mod_beams(
                #[trigger] old(actors)@[i],
                final(actors)@[i],
            ),
        all_ok(final(actors)@),
        counts_ok(final(actors)@, views(final(beams)@)),
        beams_wf(views(final(beams)@), final(actors)@.len() as int),
{
    let ghost pre_s = actors@;
    let ghost pre_bs = views(beams@);
    let ghost pre_vec = beams@;
    let mut bm = beams.remove(b);
    proof {
        assert(bm@ == pre_bs[b as int]);
    }
    let dirty = (bm.active == (bm.segments.len() == 0)) || (bm.active && moving);
    if dirty {
        let ghost bm_released = BeamModel { hit_actor: None, ..pre_bs[b as int] };
        let ghost bs_mid = pre_bs.update(b as int, bm_released);
        match bm.hit_actor {
            Some(j) => {
                proof {
                    lemma_count_member(pre_bs, b as int, j as int);
                    assert(pre_s[j as int].beams == beam_count(pre_bs, j as int));
                }
                let mut aj = actors[j];
                aj.beams = aj.beams - 1;
                vstd::std_specs::core::index_set(actors, j, aj);
                bm.hit_actor = None;
                proof {
                    assert forall|j2: int|
                        0 <= j2 < actors@.len() implies (#[trigger] actors@[j2]).beams
                        == beam_count(bs_mid, j2) by {
                        lemma_count_update(pre_bs, b as int, bm_released, j2);
                    }
                }
            },
            None => {
                proof {
                    assert(bs_mid =~= pre_bs);
                }
            },
        }
        proof {
            assert(counts_ok(actors@, bs_mid));
            assert(actors@ == (match pre_bs[b as int].hit_actor {
                Some(j) => dec_beams(pre_s, j as int),
                None => pre_s,
            }));
        }
        if bm.active {
            proof {
                assert(bs_mid[b as int] == bm@);
            }
            bm = retrace_lit(g, actors, bm, Ghost(bs_mid), Ghost(b as int));
            proof {
                let one = retrace_spec(*g, pre_s, pre_bs[b as int], moving);
                assert(bm@ == one.1);
                assert(actors@ == one.0);
                assert(bs_mid.update(b as int, bm@) =~= pre_bs.update(b as int, bm@));
                assert(counts_ok(actors@, pre_bs.update(b as int, bm@)));
            }
        } else {
            bm.segments = Vec::new();
            proof {
                let one = retrace_spec(*g, pre_s, pre_bs[b as int], moving);
                assert(bm@.segments =~= Seq::<SegmentData>::empty());
                assert(bm@ == one.1);
                assert(actors@ == one.0);
                assert forall|j2: int|
                    0 <= j2 < actors@.len() implies (#[trigger] actors@[j2]).beams == beam_count(
                    bs_mid.update(b as int, bm@),
                    j2,
                ) by {
                    lemma_count_update(bs_mid, b as int, bm@, j2);
                }
                assert(bs_mid.update(b as int, bm@) =~= pre_bs.update(b as int, bm@));
            }
        }
    } else {
        proof {
            assert(!needs_retrace(pre_bs[b as int], moving));
            assert(bm@ == retrace_spec(*g, pre_s, pre_bs[b as int], moving).1);
            assert(actors@ == retrace_spec(*g, pre_s, pre_bs[b as int], moving).0);
            assert(pre_bs.update(b as int, bm@) =~= pre_bs);
        }
    }
    beams.insert(b, bm);
    proof {
        let one = retrace_spec(*g, pre_s, pre_bs[b as int], moving);
        assert(beams@ =~= pre_vec.remove(b as int).insert(b as int, bm));
        assert forall|k: int|
            0 <= k < views(beams@).len() implies views(beams@)[k] == pre_bs.update(
            b as int,
            one.1,
        )[k] by {
            if k < b as int {
                assert(beams@[k] == pre_vec[k]);
            } else if k == b as int {
            } else {
                assert(beams@[k] == pre_vec[k]);
            }
        }
        assert(views(beams@) =~= pre_bs.update(b as int, one.1));
    }
}

/// Runs the beam phase: recompute every beam whose state demands it, in
/// registration order, keeping every actor's beam counter equal to the
/// number of beams resting on it.
pub fn run_beams_phase(
    g: &TileGrid,
    actors: &mut Vec<ActorData>,
    movers: &Vec<usize>,
    beams: &mut Vec<Beam>,
)
    requires
        all_ok(old(actors)@),
        crate::resolve::movers_index(old(actors)@, movers@),
        beams_wf(views(old(beams)@), old(actors)@.len() as int),
        counts_ok(old(actors)@, views(old(beams)@)),
        old(beams)@.len() <= 0x1_0000,
    ensures
        (final(actors)@, views(final(beams)@)) == beams_phase(
            *g,
            old(actors)@,
            views(old(beams)@),
            any_moving(old(actors)@),
            old(beams)@.len() as int,
        ),
        all_ok(final(actors)@),
        crate::resolve::movers_index(final(actors)@, movers@),
        counts_ok(final(actors)@, views(final(beams)@)),
        beams_wf(views(final(beams)@), final(actors)@.len() as int),
        final(actors)@.len() == old(actors)@.len(),
        final(beams)@.len() == old(beams)@.len(),
{
    let moving = movers_moving(actors, movers);
    let na = actors.len();
    let ghost s0 = actors@;
    let ghost bs0 = views(beams@);
    proof {
        assert(s0.len() == na as int);
    }
    let nb = beams.len();
    let mut b: usize = 0;
    while b < nb
        invariant
            nb == beams@.len(),
            b <= nb,
            nb <= 0x1_0000,
            bs0.len() == nb,
            s0.len() <= usize::MAX,
            beams_wf(bs0, s0.len() as int),
            actors@.len() == s0.len(),
            all_ok(actors@),
            crate::resolve::movers_index(actors@, movers@),
            (actors@, views(beams@)) == beams_phase(*g, s0, bs0, moving, b as int),
            counts_ok(actors@, views(beams@)),
            beams_wf(views(beams@), actors@.len() as int),
        decreases nb - b,
    {
        let ghost pre_s = actors@;
        let ghost pre_bs = views(beams@);
        retrace_one(g, actors, beams, b, moving);
        proof {
            lemma_phase_frame(*g, s0, bs0, moving, b as int);
            assert(pre_bs[b as int] == bs0[b as int]);
            assert((actors@, views(beams@)) == beams_phase(*g, s0, bs0, moving, b + 1 as int));
            assert forall|k: int|
                0 <= k < movers@.len() implies (#[trigger] movers@[k]) < actors@.len()
                && actors@[movers@[k] as int].moves by {
                assert(eq_mod_beams(pre_s[movers@[k] as int], actors@[movers@[k] as int]));
            }
            assert forall|i: int|
                0 <= i < actors@.len() && (#[trigger] actors@[i]).moves implies exists|k: int|
                0 <= k < movers@.len() && movers@[k] == i by {
                assert(eq_mod_beams(pre_s[i], actors@[i]));
                assert(pre_s[i].moves);
            }
        }
        b += 1;
    }
}

} // verus!
