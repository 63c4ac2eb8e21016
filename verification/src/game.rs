//! The simulation itself: the actor arena, the movers list, the beams and
//! the tile grid, advanced one tick at a time.

use vstd::prelude::*;

use crate::actor::ActorData;
use crate::beam::Beam;
use crate::fixed::FixedPointVector;
use crate::grid::{tile_coord, tile_of, world_of, TileGrid, TILE_SIZE};
use crate::resolve::{
    all_ok, conv_fuel, converge_x, integrate_x, lemma_converge_x_frame, movers_index, prepass,
    run_converge_x, run_integrate_x, run_prepass, Notification,
};
use crate::resolve_y::{
    converge_y, integrate_y, lemma_converge_y_frame, run_converge_y, run_integrate_y,
};
use crate::trace::{any_moving, beams_phase, beams_wf, counts_ok, run_beams_phase, views};
use crate::{LIM, POS_LIM};

verus! {

/// The whole simulation: actors shared by index, the subset that moves, the
/// beam emitters and the tile grid. The host registers everything once at
/// startup and then calls [`PlatformerGame::physics_process`] every tick.
pub struct PlatformerGame {
    /// The actor arena; handles are indices into it.
    pub actors: Vec<ActorData>,
    /// Indices of the moving actors, ascending.
    pub actors_that_move: Vec<usize>,
    /// The registered beam emitters.
    pub beams: Vec<Beam>,
    /// The grid of solid tiles.
    pub tilemap: TileGrid,
}

impl PlatformerGame {
    /// The actor arena, as a sequence.
    pub open spec fn arena(&self) -> Seq<ActorData> {
        self.actors@
    }

    /// The indices of the moving actors, in registration order.
    pub open spec fn movers(&self) -> Seq<usize> {
        self.actors_that_move@
    }

    /// The beams, in registration order, as models.
    pub open spec fn beam_models(&self) -> Seq<crate::beam::BeamModel> {
        views(self.beams@)
    }

    /// The tile grid.
    pub open spec fn grid(&self) -> TileGrid {
        self.tilemap
    }

    /// Well-formedness: every actor within tick-entry bounds, the movers
    /// list indexing exactly the moving actors in ascending order, every
    /// beam's emitter in range and its hit actor a valid index whose counter
    /// matches the number of beams resting on it, and the populations small
    /// enough for the tick's arithmetic.
    pub open spec fn wf(&self) -> bool {
        &&& forall|i: int|
            0 <= i < self.arena().len() ==> (#[trigger] self.arena()[i]).entry_ok()
        &&& movers_index(self.arena(), self.movers())
        &&& beams_wf(self.beam_models(), self.arena().len() as int)
        &&& counts_ok(self.arena(), self.beam_models())
        &&& self.arena().len() <= 0x1_0000
        &&& self.movers().len() <= self.arena().len()
        &&& self.beam_models().len() <= 0x1_0000
    }

    /// An empty simulation over a tile grid.
    pub fn new(tilemap: TileGrid) -> (r: PlatformerGame)
        ensures
            r.wf(),
            r.arena() =~= Seq::<ActorData>::empty(),
            r.movers() =~= Seq::<usize>::empty(),
            r.beam_models() =~= Seq::<crate::beam::BeamModel>::empty(),
            r.grid() == tilemap,
    {
        let r = PlatformerGame {
            actors: Vec::new(),
            actors_that_move: Vec::new(),
            beams: Vec::new(),
            tilemap,
        };
        proof {
            assert(r.beam_models() =~= Seq::<crate::beam::BeamModel>::empty());
        }
        r
    }

    /// How many actors are registered.
    pub fn actor_count(&self) -> (r: usize)
        ensures
            r == self.arena().len(),
    {
        self.actors.len()
    }

    /// How many beams are registered.
    pub fn beam_count(&self) -> (r: usize)
        ensures
            r == self.beam_models().len(),
    {
        self.beams.len()
    }

    /// Reads one actor's record.
    pub fn actor(&self, i: usize) -> (r: ActorData)
        requires
            i < self.arena().len(),
        ensures
            r == self.arena()[i as int],
    {
        self.actors[i]
    }

    /// Writes one actor's record back, as a scripted collaborator does
    /// between ticks. Mobility and the beam counter belong to the
    /// simulation and must come back unchanged.
    pub fn set_actor(&mut self, i: usize, d: ActorData)
        requires
            old(self).wf(),
            i < old(self).arena().len(),
            d.entry_ok(),
            d.moves == old(self).arena()[i as int].moves,
            d.beams == old(self).arena()[i as int].beams,
        ensures
            final(self).wf(),
            final(self).arena() == old(self).arena().update(i as int, d),
            final(self).movers() == old(self).movers(),
            final(self).beam_models() == old(self).beam_models(),
            final(self).grid() == old(self).grid(),
    {
        vstd::std_specs::core::index_set(&mut self.actors, i, d);
    }

    /// Reads one beam.
    pub fn beam(&self, b: usize) -> (r: &Beam)
        requires
            b < self.beam_models().len(),
        ensures
            r@ == self.beam_models()[b as int],
    {
        &self.beams[b]
    }

    /// Registers an actor discovered at startup and returns its handle; a
    /// moving actor also joins the movers list.
    pub fn register_actor(&mut self, data: ActorData) -> (idx: usize)
        requires
            old(self).wf(),
            old(self).arena().len() < 0x1_0000,
            data.entry_ok(),
            data.beams == 0,
        ensures
            final(self).wf(),
            idx == old(self).arena().len(),
            final(self).arena() == old(self).arena().push(data),
            final(self).movers() == (if data.moves {
                old(self).movers().push(idx)
            } else {
                old(self).movers()
            }),
            final(self).beam_models() == old(self).beam_models(),
            final(self).grid() == old(self).grid(),
    {
        let idx = self.actors.len();
        self.actors.push(data);
        if data.moves {
            self.actors_that_move.push(idx);
        }
        proof {
            let s = self.actors@;
            let ms = self.actors_that_move@;
            assert forall|k: int|
                0 <= k < ms.len() implies (#[trigger] ms[k]) < s.len() && s[ms[k] as int].moves by {
                if k < old(self).movers().len() {
                    assert(old(self).movers()[k] == ms[k]);
                }
            }
            assert forall|k1: int, k2: int|
                0 <= k1 < k2 < ms.len() implies #[trigger] ms[k1] < #[trigger] ms[k2] by {
                if k2 == ms.len() - 1 && ms.len() > old(self).movers().len() {
                    assert(ms[k1] == old(self).movers()[k1]);
                    assert(old(self).movers()[k1] < old(self).arena().len());
                } else {
                    assert(ms[k1] == old(self).movers()[k1]);
                    assert(ms[k2] == old(self).movers()[k2]);
                }
            }
            assert forall|i: int|
                0 <= i < s.len() && (#[trigger] s[i]).moves implies exists|k: int|
                0 <= k < ms.len() && ms[k] == i by {
                if i < idx as int {
                    let k = choose|k: int|
                        0 <= k < old(self).movers().len() && old(self).movers()[k] == i;
                    assert(ms[k] == i);
                } else {
                    assert(ms[ms.len() - 1] == i);
                }
            }
            assert forall|j: int|
                0 <= j < s.len() implies (#[trigger] s[j]).beams == crate::trace::beam_count(
                self.beam_models(),
                j,
            ) by {
                if j < idx as int {
                    assert(old(self).arena()[j].beams == crate::trace::beam_count(
                        old(self).beam_models(),
                        j,
                    ));
                } else {
                    crate::trace::lemma_count_absent(self.beam_models(), j);
                }
            }
            assert(self.beam_models() =~= old(self).beam_models());
        }
        idx
    }

    /// Registers a beam emitter discovered at startup and returns its
    /// handle. A fresh beam rests on no actor yet.
    pub fn register_beam(&mut self, beam: Beam) -> (idx: usize)
        requires
            old(self).wf(),
            old(self).beam_models().len() < 0x1_0000,
            beam@.hit_actor is None,
            -LIM <= beam.start_pos.x <= LIM,
            -LIM <= beam.start_pos.y <= LIM,
        ensures
            final(self).wf(),
            idx == old(self).beam_models().len(),
            final(self).beam_models() == old(self).beam_models().push(beam@),
            final(self).arena() == old(self).arena(),
            final(self).movers() == old(self).movers(),
            final(self).grid() == old(self).grid(),
    {
        let idx = self.beams.len();
        let ghost old_models = self.beam_models();
        let ghost bv = beam@;
        self.beams.push(beam);
        proof {
            assert(self.beam_models() =~= old_models.push(bv));
            assert forall|j: int|
                0 <= j < self.arena().len() implies (#[trigger] self.arena()[j]).beams
                == crate::trace::beam_count(self.beam_models(), j) by {
                crate::trace::lemma_count_push_none(old_models, bv, j);
            }
        }
        idx
    }

    /// Sets a beam's activation, as the emitter's gating does each tick;
    /// geometry follows at the next [`Self::physics_process`].
    pub fn set_beam_active(&mut self, b: usize, active: bool)
        requires
            old(self).wf(),
            b < old(self).beam_models().len(),
        ensures
            final(self).wf(),
            final(self).beam_models() == old(self).beam_models().update(
                b as int,
                crate::beam::BeamModel { active, ..old(self).beam_models()[b as int] },
            ),
            final(self).arena() == old(self).arena(),
            final(self).movers() == old(self).movers(),
            final(self).grid() == old(self).grid(),
    {
        let ghost old_models = self.beam_models();
        let mut bm = self.beams.remove(b);
        bm.active = active;
        let ghost nbv = bm@;
        self.beams.insert(b, bm);
        proof {
            assert forall|k: int|
                0 <= k < self.beam_models().len() implies self.beam_models()[k] == old_models.update(
                b as int,
                nbv,
            )[k] by {
                if k < b as int {
                    assert(self.beams@[k] == old(self).beams@[k]);
                } else if k > b as int {
                    assert(self.beams@[k] == old(self).beams@[k]);
                }
            }
            assert(self.beam_models() =~= old_models.update(b as int, nbv));
            assert forall|j: int|
                0 <= j < self.arena().len() implies (#[trigger] self.arena()[j]).beams
                == crate::trace::beam_count(self.beam_models(), j) by {
                crate::trace::lemma_count_update(old_models, b as int, nbv, j);
            }
        }
    }

    /// Whether every listed actor's signal is set: the gating an emitter or
    /// a door applies to its input actors.
    pub fn all_signals(&self, inputs: &Vec<usize>) -> (r: bool)
        requires
            forall|k: int| 0 <= k < inputs@.len() ==> (#[trigger] inputs@[k]) < self.arena().len(),
        ensures
            r == forall|k: int|
                0 <= k < inputs@.len() ==> self.arena()[#[trigger] inputs@[k] as int].signal,
    {
        let n = inputs.len();
        let mut k: usize = 0;
        while k < n
            invariant
                n == inputs@.len(),
                k <= n,
                forall|k2: int|
                    0 <= k2 < inputs@.len() ==> (#[trigger] inputs@[k2]) < self.arena().len(),
                forall|k2: int|
                    0 <= k2 < k ==> self.arena()[#[trigger] inputs@[k2] as int].signal,
            decreases n - k,
        {
            let i = inputs[k];
            if !self.actors[i].signal {
                return false;
            }
            k += 1;
        }
        true
    }

    /// Checks [`Self::wf`] executably, so a host can refuse a corrupted
    /// state before a tick instead of running on it.
    pub fn wf_check(&self) -> (r: bool)
        ensures
            r == self.wf(),
    {
        let na = self.actors.len();
        let nm = self.actors_that_move.len();
        let nb = self.beams.len();
        if na > 0x1_0000 || nm > na || nb > 0x1_0000 {
            return false;
        }
        let mut i: usize = 0;
        while i < na
            invariant
                na == self.arena().len(),
                i <= na,
                forall|i2: int| 0 <= i2 < i ==> (#[trigger] self.arena()[i2]).entry_ok(),
            decreases na - i,
        {
            if !self.actors[i].entry_ok_check() {
                return false;
            }
            i += 1;
        }
        let mut k: usize = 0;
        while k < nm
            invariant
                na == self.arena().len(),
                nm == self.movers().len(),
                k <= nm,
                forall|k2: int|
                    0 <= k2 < k ==> (#[trigger] self.movers()[k2]) < self.arena().len()
                        && self.arena()[self.movers()[k2] as int].moves,
                forall|k1: int, k2: int|
                    0 <= k1 < k2 < k ==> #[trigger] self.movers()[k1] < #[trigger] self.movers()[
                        k2
                    ],
            decreases nm - k,
        {
            let m = self.actors_that_move[k];
            if m >= na || !self.actors[m].moves {
                return false;
            }
            if k > 0 && self.actors_that_move[k - 1] >= m {
                return false;
            }
            proof {
                assert forall|k1: int, k2: int|
                    0 <= k1 < k2 < k + 1 implies #[trigger] self.movers()[k1]
                    < #[trigger] self.movers()[k2] by {
                    if k2 == k as int && k1 < k - 1 {
                        assert(self.movers()[k1] < self.movers()[k - 1]);
                    }
                }
            }
            k += 1;
        }
        let mut i: usize = 0;
        while i < na
            invariant
                na == self.arena().len(),
                nm == self.movers().len(),
                i <= na,
                forall|k2: int|
                    0 <= k2 < nm ==> (#[trigger] self.movers()[k2]) < self.arena().len(),
                forall|i2: int|
                    0 <= i2 < i && (#[trigger] self.arena()[i2]).moves ==> exists|k2: int|
                        0 <= k2 < nm && self.movers()[k2] == i2,
            decreases na - i,
        {
            if self.actors[i].moves {
                let mut k: usize = 0;
                let mut found = false;
                while k < nm
                    invariant
                        nm == self.movers().len(),
                        k <= nm,
                        found ==> exists|k2: int|
                            0 <= k2 < nm && #[trigger] self.movers()[k2] == i as usize,
                        !found ==> forall|k2: int|
                            0 <= k2 < k ==> #[trigger] self.movers()[k2] != i as usize,
                    decreases nm - k,
                {
                    if self.actors_that_move[k] == i {
                        found = true;
                    }
                    k += 1;
                }
                if !found {
                    return false;
                }
            }
            i += 1;
        }
        let mut b: usize = 0;
        while b < nb
            invariant
                na == self.arena().len(),
                nb == self.beam_models().len(),
                b <= nb,
                forall|b2: int|
                    0 <= b2 < b ==> {
                        let bm = #[trigger] self.beam_models()[b2];
                        &&& -LIM <= bm.start_pos.x <= LIM
                        &&& -LIM <= bm.start_pos.y <= LIM
                        &&& (bm.hit_actor matches Some(j) ==> j < self.arena().len())
                    },
            decreases nb - b,
        {
            let bm = &self.beams[b];
            proof {
                assert(self.beam_models()[b as int] == self.beams@[b as int]@);
            }
            if bm.start_pos.x < -LIM || bm.start_pos.x > LIM || bm.start_pos.y < -LIM
                || bm.start_pos.y > LIM {
                proof {
                    assert(!beams_wf(self.beam_models(), self.arena().len() as int));
                }
                return false;
            }
            match bm.hit_actor {
                Some(j) => {
                    if j >= na {
                        proof {
                            assert(!beams_wf(self.beam_models(), self.arena().len() as int));
                        }
                        return false;
                    }
                },
                None => {},
            }
            b += 1;
        }
        let mut j: usize = 0;
        while j < na
            invariant
                na == self.arena().len(),
                nb == self.beam_models().len(),
                nb <= 0x1_0000,
                j <= na,
                forall|j2: int|
                    0 <= j2 < j ==> (#[trigger] self.arena()[j2]).beams
                        == crate::trace::beam_count(self.beam_models(), j2),
            decreases na - j,
        {
            let mut cnt: i32 = 0;
            let mut b: usize = 0;
            proof {
                assert(self.beam_models().take(0) =~= Seq::<crate::beam::BeamModel>::empty());
            }
            while b < nb
                invariant
                    na == self.arena().len(),
                    nb == self.beam_models().len(),
                    j < na,
                    b <= nb,
                    nb <= 0x1_0000,
                    0 <= cnt <= b,
                    cnt == crate::trace::beam_count(self.beam_models().take(b as int), j as int),
                decreases nb - b,
            {
                let mut hits = false;
                match self.beams[b].hit_actor {
                    Some(h) => {
                        if h == j {
                            hits = true;
                        }
                    },
                    None => {},
                }
                if hits {
                    cnt += 1;
                }
                proof {
                    let bms = self.beam_models();
                    assert(bms.take(b + 1).drop_last() =~= bms.take(b as int));
                    assert(bms.take(b + 1).last() == bms[b as int]);
                }
                b += 1;
            }
            proof {
                assert(self.beam_models().take(nb as int) =~= self.beam_models());
            }
            if self.actors[j].beams != cnt {
                return false;
            }
            j += 1;
        }
        true
    }

    /// The tile coordinate containing a world position.
    pub fn tile_pos(&self, v: FixedPointVector) -> (r: FixedPointVector)
        ensures
            r.x == tile_of(v.x as int),
            r.y == tile_of(v.y as int),
    {
        FixedPointVector { x: tile_coord(v.x), y: tile_coord(v.y) }
    }

    /// The world coordinate of a tile's near boundary.
    pub fn un_tile_pos(&self, v: i32) -> (r: i32)
        requires
            -0x8000 <= v <= 0x7FFF,
        ensures
            r == world_of(v as int),
    {
        v * TILE_SIZE
    }

    /// What one tick leaves behind: the pre-pass, the x-axis convergence
    /// and integration, the y-axis convergence and integration, then the
    /// beam phase, applied to a well-formed state.
    pub open spec fn tick_spec(&self) -> (Seq<ActorData>, Seq<crate::beam::BeamModel>, Seq<
        Notification,
    >) {
        let fuel = conv_fuel(self.movers().len() as nat);
        let s1 = prepass(self.arena());
        let cx = converge_x(self.grid(), s1, self.movers(), fuel);
        let s2 = integrate_x(cx.0);
        let cy = converge_y(self.grid(), s2, self.movers(), fuel);
        let s3 = integrate_y(cy.0);
        let bp = beams_phase(
            self.grid(),
            s3,
            self.beam_models(),
            any_moving(s3),
            self.beam_models().len() as int,
        );
        (bp.0, bp.1, cx.1 + cy.1)
    }

    /// Advances the simulation one tick and returns the collision
    /// notifications of the tick, in the order they arose. Positions may
    /// leave the tick-entry bound by one tick's velocity, so the caller
    /// re-establishes [`Self::wf`] before the next tick.
    #[verifier::rlimit(100)]
    pub fn physics_process(&mut self) -> (events: Vec<Notification>)
        requires
            old(self).wf(),
        ensures
            final(self).arena() == old(self).tick_spec().0,
            final(self).beam_models() == old(self).tick_spec().1,
            events@ == old(self).tick_spec().2,
            final(self).movers() == old(self).movers(),
            final(self).grid() == old(self).grid(),
            all_ok(final(self).arena()),
            movers_index(final(self).arena(), final(self).movers()),
            counts_ok(final(self).arena(), final(self).beam_models()),
            beams_wf(final(self).beam_models(), final(self).arena().len() as int),
            final(self).arena().len() == old(self).arena().len(),
            final(self).beam_models().len() == old(self).beam_models().len(),
    {
        let ghost s0 = self.actors@;
        let ghost movers0 = self.actors_that_move@;
        let ghost fuel = conv_fuel(movers0.len() as nat);
        let mut events: Vec<Notification> = Vec::new();

        run_prepass(&mut self.actors, &self.actors_that_move);
        let ghost s1 = self.actors@;
        proof {
            assert forall|i: int| 0 <= i < s0.len() implies (#[trigger] s1[i]).pos == s0[i].pos
                && s1[i].moves == s0[i].moves && s1[i].beams == s0[i].beams by {
                assert(s1[i] == prepass(s0)[i]);
            }
        }

        run_converge_x(&self.tilemap, &mut self.actors, &self.actors_that_move, &mut events);
        let ghost cx0 = self.actors@;
        proof {
            lemma_converge_x_frame(self.tilemap, s1, movers0, fuel);
        }

        run_integrate_x(&mut self.actors, &self.actors_that_move);
        let ghost s2 = self.actors@;
        proof {
            assert forall|i: int| 0 <= i < cx0.len() implies (#[trigger] s2[i]).pos.y
                == cx0[i].pos.y && s2[i].moves == cx0[i].moves && s2[i].beams == cx0[i].beams by {
                assert(s2[i] == integrate_x(cx0)[i]);
            }
        }

        run_converge_y(&self.tilemap, &mut self.actors, &self.actors_that_move, &mut events);
        let ghost cy0 = self.actors@;
        proof {
            lemma_converge_y_frame(self.tilemap, s2, movers0, fuel);
        }

        run_integrate_y(&mut self.actors, &self.actors_that_move);
        let ghost s3 = self.actors@;
        proof {
            assert forall|i: int| 0 <= i < cy0.len() implies (#[trigger] s3[i]).moves
                == cy0[i].moves && s3[i].beams == cy0[i].beams by {
                assert(s3[i] == integrate_y(cy0)[i]);
            }
            assert forall|j: int|
                0 <= j < s3.len() implies (#[trigger] s3[j]).beams == crate::trace::beam_count(
                views(self.beams@),
                j,
            ) by {
                assert(s0[j].beams == crate::trace::beam_count(views(self.beams@), j));
            }
            assert(counts_ok(s3, views(self.beams@)));
        }

        run_beams_phase(&self.tilemap, &mut self.actors, &self.actors_that_move, &mut self.beams);

        proof {
            let fuel0 = conv_fuel(movers0.len() as nat);
            let p1 = prepass(s0);
            let pcx = converge_x(self.tilemap, p1, movers0, fuel0);
            let p2 = integrate_x(pcx.0);
            let pcy = converge_y(self.tilemap, p2, movers0, fuel0);
            let p3 = integrate_y(pcy.0);
            assert(s1 == p1);
            assert(cx0 == pcx.0);
            assert(s2 == p2);
            assert(cy0 == pcy.0);
            assert(s3 == p3);
            assert(events@ == pcx.1 + pcy.1);
        }

        events
    }
}

} // verus!
