//! The standing guarantees of the resolver and the tracer, stated and
//! proved over the same spec functions the executable contracts use.

use vstd::prelude::*;

use crate::actor::{ActorData, Reflection};
use crate::beam::{reflect_inv_spec, reflect_main_spec, Direction};
use crate::fixed::FixedPointVector;
use crate::grid::TileGrid;
use crate::resolve::{
    changed_x, clamp_left, clamp_right, commit_x, converge_x, pass_view_eq, pass_x_actors,
    qual_left, qual_right, sweep_x, sweep_x_events,
};
use crate::resolve_y::{clamp_down, clamp_up, qual_down, qual_up, sweep_y, sweep_y_events};
use crate::trace::{beam_dist, beam_qual, scan_actors, step_spec, trace_rec};

verus! {

/// Clamped to contact: a solid edge clamp rests the mover exactly flush
/// against the edge after both actors move, whatever the approach velocity
/// was. The mover's leading side lands on the edge's post-move position
/// with zero penetration, on either axis and from either side.
pub proof fn lemma_solid_clamp_flush(a: ActorData, b: ActorData)
    ensures
        qual_right(a, b) ==> a.lead_x() + clamp_right(a, b) == b.trail_x() + b.vel.x,
        qual_left(a, b) ==> a.trail_x() + clamp_left(a, b) == b.lead_x() + b.vel.x,
        qual_down(a, b) ==> a.lead_y() + clamp_down(a, b) == b.trail_y() + b.vel.y,
        qual_up(a, b) ==> a.trail_y() + clamp_up(a, b) == b.lead_y() + b.vel.y,
        qual_right(a, b) ==> clamp_right(a, b) < a.vel.x,
        qual_left(a, b) ==> clamp_left(a, b) > a.vel.x,
{
}

/// The x-axis actor sweep either leaves the scratch velocity alone or sets
/// it to the flush clamp of some qualifying solid edge: no other value can
/// come out of it.
pub proof fn lemma_sweep_x_clamps(a: ActorData, others: Seq<ActorData>, n: int)
    requires
        0 <= n <= others.len(),
    ensures
        sweep_x(a, others, n).0 == a.next_vel || exists|j: int|
            0 <= j < n && ((qual_right(a, #[trigger] others[j]) && others[j].left.solid
                && sweep_x(a, others, n).0 == clamp_right(a, others[j])) || (qual_left(
                a,
                others[j],
            ) && others[j].right.solid && sweep_x(a, others, n).0 == clamp_left(a, others[j]))),
    decreases n,
{
    if n > 0 {
        lemma_sweep_x_clamps(a, others, n - 1);
        let b = others[n - 1];
        if qual_right(a, b) && b.left.solid {
            assert(sweep_x(a, others, n).0 == clamp_right(a, others[n - 1]));
        } else if qual_left(a, b) && b.right.solid {
            assert(sweep_x(a, others, n).0 == clamp_left(a, others[n - 1]));
        } else {
            if sweep_x(a, others, n - 1).0 != a.next_vel {
                let j = choose|j: int|
                    0 <= j < n - 1 && ((qual_right(a, #[trigger] others[j]) && others[j].left.solid
                        && sweep_x(a, others, n - 1).0 == clamp_right(a, others[j])) || (qual_left(
                        a,
                        others[j],
                    ) && others[j].right.solid && sweep_x(a, others, n - 1).0 == clamp_left(
                        a,
                        others[j],
                    )));
                assert(0 <= j < n);
            }
        }
    }
}

/// Edges that notify without being solid never alter the sweep's velocity
/// or collision set: the callback is their only effect.
pub proof fn lemma_sweep_x_notify_only(a: ActorData, others: Seq<ActorData>, n: int)
    requires
        0 <= n <= others.len(),
        forall|j: int|
            0 <= j < n ==> !(#[trigger] others[j]).left.solid && !others[j].right.solid,
    ensures
        sweep_x(a, others, n) == (a.next_vel as int, a.collided),
    decreases n,
{
    if n > 0 {
        lemma_sweep_x_notify_only(a, others, n - 1);
    }
}

/// The same on the y axis.
pub proof fn lemma_sweep_y_notify_only(a: ActorData, others: Seq<ActorData>, n: int)
    requires
        0 <= n <= others.len(),
        forall|j: int|
            0 <= j < n ==> !(#[trigger] others[j]).top.solid && !others[j].bottom.solid,
    ensures
        sweep_y(a, others, n) == (a.next_vel as int, a.collided),
    decreases n,
{
    if n > 0 {
        lemma_sweep_y_notify_only(a, others, n - 1);
    }
}

/// Within one pass a qualifying notifying edge fires exactly once: the
/// events of one mover's sweep carry strictly increasing owners, so no
/// owner appears twice, and an owner appears exactly when its edge
/// qualifies and notifies.
pub proof fn lemma_sweep_x_events_once(a: ActorData, others: Seq<ActorData>, m: usize, n: int)
    requires
        0 <= n <= others.len(),
        others.len() <= usize::MAX,
    ensures
        forall|k1: int, k2: int|
            0 <= k1 < k2 < sweep_x_events(a, others, m, n).len() ==> (#[trigger] sweep_x_events(
                a,
                others,
                m,
                n,
            )[k1]).owner < (#[trigger] sweep_x_events(a, others, m, n)[k2]).owner,
        forall|k: int|
            0 <= k < sweep_x_events(a, others, m, n).len() ==> (#[trigger] sweep_x_events(
                a,
                others,
                m,
                n,
            )[k]).owner < n,
        forall|j: int|
            0 <= j < n ==> (((qual_right(a, #[trigger] others[j]) && others[j].left.notify)
                || (qual_left(a, others[j]) && others[j].right.notify)) <==> exists|k: int|
                0 <= k < sweep_x_events(a, others, m, n).len() && (#[trigger] sweep_x_events(
                    a,
                    others,
                    m,
                    n,
                )[k]).owner == j),
    decreases n,
{
    if n > 0 {
        lemma_sweep_x_events_once(a, others, m, n - 1);
        let pre = sweep_x_events(a, others, m, n - 1);
        let cur = sweep_x_events(a, others, m, n);
        let b = others[n - 1];
        if (qual_right(a, b) && b.left.notify) || (qual_left(a, b) && b.right.notify) {
            assert(cur[cur.len() - 1].owner == n - 1);
            assert forall|j: int|
                0 <= j < n implies (((qual_right(a, #[trigger] others[j])
                && others[j].left.notify) || (qual_left(a, others[j]) && others[j].right.notify))
                <==> exists|k: int| 0 <= k < cur.len() && (#[trigger] cur[k]).owner == j) by {
                if j < n - 1 {
                    if exists|k: int| 0 <= k < pre.len() && (#[trigger] pre[k]).owner == j {
                        let k = choose|k: int| 0 <= k < pre.len() && (#[trigger] pre[k]).owner == j;
                        assert(cur[k].owner == j);
                    }
                    if exists|k: int| 0 <= k < cur.len() && (#[trigger] cur[k]).owner == j {
                        let k = choose|k: int| 0 <= k < cur.len() && (#[trigger] cur[k]).owner == j;
                        assert(k < pre.len());
                        assert(pre[k].owner == j);
                    }
                } else {
                    assert(cur[cur.len() - 1].owner == j);
                }
            }
        } else {
            assert(cur =~= pre);
        }
    }
}

/// The y-axis counterpart: one mover's sweep notifies a qualifying edge
/// exactly once per pass.
pub proof fn lemma_sweep_y_events_once(a: ActorData, others: Seq<ActorData>, m: usize, n: int)
    requires
        0 <= n <= others.len(),
        others.len() <= usize::MAX,
    ensures
        forall|k1: int, k2: int|
            0 <= k1 < k2 < sweep_y_events(a, others, m, n).len() ==> (#[trigger] sweep_y_events(
                a,
                others,
                m,
                n,
            )[k1]).owner < (#[trigger] sweep_y_events(a, others, m, n)[k2]).owner,
        forall|k: int|
            0 <= k < sweep_y_events(a, others, m, n).len() ==> (#[trigger] sweep_y_events(
                a,
                others,
                m,
                n,
            )[k]).owner < n,
        forall|j: int|
            0 <= j < n ==> (((qual_down(a, #[trigger] others[j]) && others[j].top.notify)
                || (qual_up(a, others[j]) && others[j].bottom.notify)) <==> exists|k: int|
                0 <= k < sweep_y_events(a, others, m, n).len() && (#[trigger] sweep_y_events(
                    a,
                    others,
                    m,
                    n,
                )[k]).owner == j),
    decreases n,
{
    if n > 0 {
        lemma_sweep_y_events_once(a, others, m, n - 1);
        let pre = sweep_y_events(a, others, m, n - 1);
        let cur = sweep_y_events(a, others, m, n);
        let b = others[n - 1];
        if (qual_down(a, b) && b.top.notify) || (qual_up(a, b) && b.bottom.notify) {
            assert(cur[cur.len() - 1].owner == n - 1);
            assert forall|j: int|
                0 <= j < n implies (((qual_down(a, #[trigger] others[j]) && others[j].top.notify)
                || (qual_up(a, others[j]) && others[j].bottom.notify)) <==> exists|k: int|
                0 <= k < cur.len() && (#[trigger] cur[k]).owner == j) by {
                if j < n - 1 {
                    if exists|k: int| 0 <= k < pre.len() && (#[trigger] pre[k]).owner == j {
                        let k = choose|k: int| 0 <= k < pre.len() && (#[trigger] pre[k]).owner == j;
                        assert(cur[k].owner == j);
                    }
                    if exists|k: int| 0 <= k < cur.len() && (#[trigger] cur[k]).owner == j {
                        let k = choose|k: int| 0 <= k < cur.len() && (#[trigger] cur[k]).owner == j;
                        assert(k < pre.len());
                        assert(pre[k].owner == j);
                    }
                } else {
                    assert(cur[cur.len() - 1].owner == j);
                }
            }
        } else {
            assert(cur =~= pre);
        }
    }
}

/// A convergence that settles inside its budget settles for good: one more
/// pass over the settled arena would change no velocity. This is what makes
/// the dirty loop a fixed-point iteration rather than a single sweep.
pub open spec fn converge_x_settled(
    g: TileGrid,
    s: Seq<ActorData>,
    movers: Seq<usize>,
    fuel: nat,
) -> bool
    decreases fuel,
{
    if fuel == 0 {
        false
    } else {
        let swept = pass_x_actors(g, s);
        if !changed_x(swept) {
            true
        } else {
            converge_x_settled(g, commit_x(swept), movers, (fuel - 1) as nat)
        }
    }
}

/// The sweep's outcome is determined by the pass-view fields alone, up to
/// its fallback: over two pass-view-equal arenas the folds agree, or each
/// just returns its own starting scratch velocity.
pub proof fn lemma_sweep_x_det(
    a1: ActorData,
    a2: ActorData,
    s1: Seq<ActorData>,
    s2: Seq<ActorData>,
    n: int,
)
    requires
        pass_view_eq(a1, a2),
        s1.len() == s2.len(),
        forall|i: int| 0 <= i < s1.len() ==> pass_view_eq(#[trigger] s1[i], s2[i]),
        0 <= n <= s1.len(),
    ensures
        sweep_x(a1, s1, n).0 == sweep_x(a2, s2, n).0 || (sweep_x(a1, s1, n).0 == a1.next_vel
            && sweep_x(a2, s2, n).0 == a2.next_vel),
    decreases n,
{
    if n > 0 {
        lemma_sweep_x_det(a1, a2, s1, s2, n - 1);
        assert(pass_view_eq(s1[n - 1], s2[n - 1]));
        assert(qual_right(a1, s1[n - 1]) == qual_right(a2, s2[n - 1]));
        assert(qual_left(a1, s1[n - 1]) == qual_left(a2, s2[n - 1]));
    }
}

/// After a settled x-axis convergence, the result is a true fixed point:
/// sweeping it again would leave every mover's velocity as it is.
pub proof fn lemma_converge_x_fixpoint(g: TileGrid, s: Seq<ActorData>, movers: Seq<usize>, fuel: nat)
    requires
        converge_x_settled(g, s, movers, fuel),
    ensures
        !changed_x(pass_x_actors(g, converge_x(g, s, movers, fuel).0)),
    decreases fuel,
{
    let swept = pass_x_actors(g, s);
    if !changed_x(swept) {
        let r = commit_x(swept);
        assert(converge_x(g, s, movers, fuel).0 == r);
        assert forall|i: int| 0 <= i < s.len() implies pass_view_eq(#[trigger] s[i], r[i])
            && r[i].moves == s[i].moves && (s[i].moves ==> r[i].vel.x == swept[i].next_vel
            && r[i].next_vel == swept[i].next_vel && r[i].vel.x == s[i].vel.x) by {
            assert(swept[i] == pass_x_actors(g, s)[i]);
            if s[i].moves {
                assert(!(swept[i].moves && swept[i].next_vel != swept[i].vel.x));
            }
        }
        assert forall|i: int|
            0 <= i < r.len() implies !((#[trigger] pass_x_actors(g, r)[i]).moves && pass_x_actors(
            g,
            r,
        )[i].next_vel != pass_x_actors(g, r)[i].vel.x) by {
            if r[i].moves {
                assert(pass_x_actors(g, r)[i] == crate::resolve::resolve_mover_x(g, r, i));
                assert(swept[i] == crate::resolve::resolve_mover_x(g, s, i));
                let t1 = crate::resolve::tile_sweep_x_spec(g, s[i]);
                let t2 = crate::resolve::tile_sweep_x_spec(g, r[i]);
                let a1 = ActorData { next_vel: t1.0 as i32, collided: t1.1, ..s[i] };
                let a2 = ActorData { next_vel: t2.0 as i32, collided: t2.1, ..r[i] };
                assert(pass_view_eq(a1, a2));
                lemma_sweep_x_det(a1, a2, s, r, s.len() as int);
                // the two tile sweeps see the same position, velocity and
                // grid, so they clamp alike; they differ at most in the
                // untouched fallback
                assert(t1.0 == t2.0 || (t1.0 == s[i].next_vel && t2.0 == r[i].next_vel)) by {
                    if s[i].vel.x > 0 {
                    } else if s[i].vel.x < 0 {
                    } else {
                    }
                }
                let f1 = sweep_x(a1, s, s.len() as int);
                let f2 = sweep_x(a2, r, r.len() as int);
                assert(swept[i].next_vel == f1.0 as i32);
                assert(pass_x_actors(g, r)[i].next_vel == f2.0 as i32);
                assert(r[i].vel.x == swept[i].next_vel);
                assert(r[i].next_vel == swept[i].next_vel);
                // whichever case holds, the recomputed scratch velocity is
                // the already-committed velocity
                if f1.0 == f2.0 {
                    assert(f2.0 as i32 == r[i].vel.x);
                } else {
                    assert(f1.0 == a1.next_vel && f2.0 == a2.next_vel);
                    assert(f2.0 as i32 == a2.next_vel);
                    if t1.0 == t2.0 {
                        assert(a1.next_vel == a2.next_vel);
                        assert(swept[i].next_vel == a1.next_vel);
                        assert(f2.0 as i32 == r[i].vel.x);
                    } else {
                        assert(t2.0 == r[i].next_vel);
                        assert(a2.next_vel == r[i].next_vel);
                        assert(f2.0 as i32 == r[i].vel.x);
                    }
                }
            }
        }
    } else {
        lemma_converge_x_fixpoint(g, commit_x(swept), movers, (fuel - 1) as nat);
        assert(converge_x(g, s, movers, fuel).0 == converge_x(
            g,
            commit_x(swept),
            movers,
            (fuel - 1) as nat,
        ).0);
    }
}

/// Both mirror tables are involutions: reflecting twice restores the
/// incoming direction.
pub proof fn lemma_reflect_involution(d: Direction)
    ensures
        reflect_main_spec(reflect_main_spec(d)) == d,
        reflect_inv_spec(reflect_inv_spec(d)) == d,
{
}

/// The nearest-edge scan really is a minimum: no qualifying edge is nearer
/// than the recorded hit distance.
pub proof fn lemma_scan_min(d: Direction, start: FixedPointVector, s: Seq<ActorData>, n: int)
    requires
        0 <= n <= s.len(),
    ensures
        forall|j: int|
            0 <= j < n && beam_qual(d, start, #[trigger] s[j]) ==> scan_actors(d, start, s, n).0
                <= beam_dist(d, start, s[j]),
    decreases n,
{
    if n > 0 {
        lemma_scan_min(d, start, s, n - 1);
    }
}

/// With no reflective actor anywhere, a trace is a single segment, however
/// much bounce budget it has.
pub proof fn lemma_trace_absorb_single(
    g: TileGrid,
    s: Seq<ActorData>,
    start: FixedPointVector,
    d: Direction,
    fuel: nat,
)
    requires
        s.len() <= usize::MAX,
        forall|j: int| 0 <= j < s.len() ==> (#[trigger] s[j]).reflection is Absorb,
    ensures
        trace_rec(g, s, start, d, fuel).0 =~= seq![step_spec(g, s, start, d).0],
        trace_rec(g, s, start, d, fuel).1 == step_spec(g, s, start, d).1,
{
    crate::trace::lemma_scan_hit(d, start, s, s.len() as int);
    let st = step_spec(g, s, start, d);
    assert(!st.2);
}

} // verus!
