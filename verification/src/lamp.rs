//! The blob simulation: a fixed-timestep engine that spawns blobs at
//! the bottom of the screen, floats them upward, retires the ones that
//! left the visible area, and projects the live ones into a `Shape`.

use vstd::prelude::*;

use crate::{COORD_LIMIT, FP_ONE};
use crate::rng::{rng_new, rng_range};
use crate::shape::{Shape, Vertex, rect_vertices};

verus! {

/// One simulated particle: fixed-point position, velocity and radius.
/// Everything is in screen units scaled by `FP_ONE`; y grows downward.
#[derive(Copy, Clone, PartialEq, Debug)]
pub struct Blob {
    pub pos: (i64, i64),
    pub vel: (i64, i64),
    pub radius: i64,
}

/// The bounds every blob the engine owns satisfies: position within one
/// screen of coordinates, velocity strictly vertical and upward (the
/// engine never spawns anything else), radius non-negative. They keep
/// every step's arithmetic inside `i64`.
pub open spec fn blob_ok(b: Blob) -> bool {
    &&& -2 * COORD_LIMIT <= b.pos.0 <= 2 * COORD_LIMIT
    &&& -2 * COORD_LIMIT <= b.pos.1 <= 2 * COORD_LIMIT
    &&& b.vel.0 == 0
    &&& -COORD_LIMIT <= b.vel.1 <= 0
    &&& 0 <= b.radius <= COORD_LIMIT
}

/// A blob one simulation step later: position advanced by velocity.
pub open spec fn advanced(b: Blob) -> Blob {
    Blob {
        pos: ((b.pos.0 + b.vel.0) as i64, (b.pos.1 + b.vel.1) as i64),
        vel: b.vel,
        radius: b.radius,
    }
}

/// A blob is retired once it sits above the top edge by at least the
/// largest configured diameter.
pub open spec fn is_garbage(b: Blob, size_max: i64) -> bool {
    b.pos.1 <= -size_max
}

/// The blobs that survive garbage collection, keeping their order.
pub open spec fn survivors(s: Seq<Blob>, size_max: i64) -> Seq<Blob>
    decreases s.len(),
{
    if s.len() == 0 {
        Seq::empty()
    } else {
        let rest = survivors(s.drop_first(), size_max);
        if is_garbage(s.first(), size_max) {
            rest
        } else {
            seq![s.first()] + rest
        }
    }
}

/// Every survivor is one of the blobs collection started from, is not garbage, and no
/// more blobs survive than there were.
pub proof fn lemma_survivors_elements(s: Seq<Blob>, size_max: i64)
    ensures
        survivors(s, size_max).len() <= s.len(),
        forall|i: int|
            0 <= i < survivors(s, size_max).len() ==> !is_garbage(
                #[trigger] survivors(s, size_max)[i],
                size_max,
            ) && s.contains(survivors(s, size_max)[i]),
    decreases s.len(),
{
    if s.len() > 0 {
        lemma_survivors_elements(s.drop_first(), size_max);
        assert forall|i: int| 0 <= i < survivors(s, size_max).len() implies !is_garbage(
            #[trigger] survivors(s, size_max)[i],
            size_max,
        ) && s.contains(survivors(s, size_max)[i]) by {
            let rest = survivors(s.drop_first(), size_max);
            if is_garbage(s.first(), size_max) || i > 0 {
                let e = if is_garbage(s.first(), size_max) {
                    rest[i]
                } else {
                    rest[i - 1]
                };
                assert(!is_garbage(e, size_max) && s.drop_first().contains(e));
                let j = choose|j: int| 0 <= j < s.drop_first().len() && s.drop_first()[j] == e;
                assert(s[j + 1] == e);
            } else {
                assert(s[0] == s.first());
            }
        }
    }
}

/// When nothing is garbage, garbage collection keeps every blob.
pub proof fn lemma_survivors_all_kept(s: Seq<Blob>, size_max: i64)
    requires
        forall|i: int| 0 <= i < s.len() ==> !is_garbage(#[trigger] s[i], size_max),
    ensures
        survivors(s, size_max) == s,
    decreases s.len(),
{
    if s.len() > 0 {
        assert(forall|i: int|
            0 <= i < s.drop_first().len() ==> s.drop_first()[i] == s[i + 1]);
        lemma_survivors_all_kept(s.drop_first(), size_max);
        assert(survivors(s, size_max) =~= s);
    } else {
        assert(survivors(s, size_max) =~= s);
    }
}

/// When everything is garbage, garbage collection keeps nothing.
pub proof fn lemma_survivors_none_kept(s: Seq<Blob>, size_max: i64)
    requires
        forall|i: int| 0 <= i < s.len() ==> is_garbage(#[trigger] s[i], size_max),
    ensures
        survivors(s, size_max) == Seq::<Blob>::empty(),
    decreases s.len(),
{
    if s.len() > 0 {
        assert(forall|i: int|
            0 <= i < s.drop_first().len() ==> s.drop_first()[i] == s[i + 1]);
        lemma_survivors_none_kept(s.drop_first(), size_max);
    } else {
        assert(survivors(s, size_max) =~= Seq::<Blob>::empty());
    }
}

/// A value scaled by a fixed-point fraction of `FP_ONE`, rounded toward
/// zero: the sub-step displacement `v * f` of interpolation.
pub open spec fn scale_frac(v: int, f: int) -> int {
    if v >= 0 {
        (v * f) / (FP_ONE as int)
    } else {
        -((-v * f) / (FP_ONE as int))
    }
}

/// The x a blob is displayed at: its position advanced by the fraction
/// `f` of its velocity, smoothing motion between fixed ticks.
pub open spec fn interp_x(b: Blob, f: int) -> int {
    b.pos.0 + scale_frac(b.vel.0 as int, f)
}

/// The y a blob is displayed at.
pub open spec fn interp_y(b: Blob, f: int) -> int {
    b.pos.1 + scale_frac(b.vel.1 as int, f)
}

/// The bounds under which a blob can be projected into geometry without
/// overflow; every blob the engine owns satisfies them.
pub open spec fn emit_ok(b: Blob) -> bool {
    &&& -2 * COORD_LIMIT <= b.pos.0 <= 2 * COORD_LIMIT
    &&& -2 * COORD_LIMIT <= b.pos.1 <= 2 * COORD_LIMIT
    &&& -COORD_LIMIT <= b.vel.0 <= COORD_LIMIT
    &&& -COORD_LIMIT <= b.vel.1 <= COORD_LIMIT
    &&& 0 <= b.radius <= COORD_LIMIT
}

/// The rect a blob is drawn as: an axis-aligned square of side twice
/// the radius, centered on the interpolated display position.
pub open spec fn blob_rect(b: Blob, f: int) -> Seq<Vertex> {
    rect_vertices(
        ((interp_x(b, f) - b.radius) as i64, (interp_y(b, f) - b.radius) as i64),
        ((2 * b.radius) as i64, (2 * b.radius) as i64),
    )
}

/// The geometry of a whole blob list, one rect per blob, in order.
pub open spec fn emitted(s: Seq<Blob>, f: int) -> Seq<Vertex>
    decreases s.len(),
{
    if s.len() == 0 {
        Seq::<Vertex>::empty()
    } else {
        emitted(s.drop_last(), f) + blob_rect(s.last(), f)
    }
}

/// Computes `scale_frac`: `v` scaled by the fraction `frac / FP_ONE`.
fn scale_by_fraction(v: i64, frac: i64) -> (r: i64)
    requires
        -COORD_LIMIT <= v <= COORD_LIMIT,
        0 <= frac <= FP_ONE,
    ensures
        r as int == scale_frac(v as int, frac as int),
        -COORD_LIMIT <= r <= COORD_LIMIT,
{
    let mag: u64 = if v >= 0 {
        v as u64
    } else {
        (-v) as u64
    };
    proof {
        vstd::arithmetic::mul::lemma_mul_inequality(
            mag as int,
            COORD_LIMIT as int,
            FP_ONE as int,
        );
        vstd::arithmetic::mul::lemma_mul_inequality(frac as int, FP_ONE as int, mag as int);
        vstd::arithmetic::div_mod::lemma_div_is_ordered(
            mag as int * frac as int,
            mag as int * FP_ONE as int,
            FP_ONE as int,
        );
        vstd::arithmetic::div_mod::lemma_div_multiples_vanish(mag as int, FP_ONE as int);
        assert(mag as int * frac as int == frac as int * mag as int) by (nonlinear_arith);
        assert(mag as int * FP_ONE as int == FP_ONE as int * mag as int) by (nonlinear_arith);
    }
    let prod: u64 = mag * (frac as u64);
    let q: u64 = prod / (FP_ONE as u64);
    if v >= 0 {
        q as i64
    } else {
        -(q as i64)
    }
}

/// With fraction zero, the display position is the simulated position
/// itself: interpolation moves nothing.
pub proof fn lemma_emit_zero_fraction(b: Blob)
    ensures
        interp_x(b, 0) == b.pos.0,
        interp_y(b, 0) == b.pos.1,
{
    vstd::arithmetic::div_mod::lemma_div_basics(FP_ONE as int);
}

impl Blob {
    pub fn new(pos: (i64, i64), vel: (i64, i64), radius: i64) -> (r: Blob)
        ensures
            r == (Blob { pos, vel, radius }),
    {
        Blob { pos, vel, radius }
    }

    /// One simulation step: position advances by velocity.
    pub fn update(&mut self)
        requires
            -2 * COORD_LIMIT <= old(self).pos.0 + old(self).vel.0 <= 2 * COORD_LIMIT,
            -2 * COORD_LIMIT <= old(self).pos.1 + old(self).vel.1 <= 2 * COORD_LIMIT,
        ensures
            *final(self) == advanced(*old(self)),
    {
        self.pos = (self.pos.0 + self.vel.0, self.pos.1 + self.vel.1);
    }

    /// Appends this blob's display rect to `shape`: a square of side
    /// `2 * radius` centered on the position interpolated by the
    /// sub-step fraction `step`. The blob itself is not touched — this
    /// is purely a projection for rendering.
    pub fn add_to_shape(&self, shape: &mut Shape, step: i64)
        requires
            emit_ok(*self),
            0 <= step <= FP_ONE,
        ensures
            final(shape).vertices@ == old(shape).vertices@ + blob_rect(*self, step as int),
    {
        let dx = self.pos.0 + scale_by_fraction(self.vel.0, step);
        let dy = self.pos.1 + scale_by_fraction(self.vel.1, step);
        shape.add_rect((dx - self.radius, dy - self.radius), (self.radius * 2, self.radius * 2));
    }
}

/// The simulation's immutable configuration: spawn probability per step
/// (`FP_ONE` stands for certainty), and the speed and diameter ranges
/// new blobs draw from, all fixed-point.
#[derive(Copy, Clone, PartialEq, Eq, Structural, Debug)]
pub struct LavaLampConfig {
    pub spawn_chance: u64,
    pub speed_min: i64,
    pub speed_max: i64,
    pub size_min: i64,
    pub size_max: i64,
}

/// A usable configuration: the chance is a probability, the ranges are
/// ordered, non-negative and within the coordinate bounds.
pub open spec fn config_ok(cfg: LavaLampConfig) -> bool {
    &&& cfg.spawn_chance <= FP_ONE as u64
    &&& 0 <= cfg.speed_min <= cfg.speed_max <= COORD_LIMIT
    &&& 0 <= cfg.size_min <= cfg.size_max <= COORD_LIMIT
}

/// The blob one spawn event creates: anchored just below the visible
/// bottom edge — relative to the *largest* configured diameter, not its
/// own, so large configurations can spawn partially on-screen (a quirk
/// kept on purpose, it is observable behavior) — moving straight up,
/// with half the drawn diameter as radius.
pub open spec fn spawned_blob(cfg: LavaLampConfig, x: u64, speed: u64, size: u64, height: i64) -> Blob {
    Blob {
        pos: ((x as int) as i64, (height + cfg.size_max) as i64),
        vel: (0 as i64, (-(speed as int)) as i64),
        radius: ((size as int) / 2) as i64,
    }
}

/// One whole simulation step over a blob list: every blob advances by
/// its velocity; then, when `roll` falls below the spawn chance, exactly
/// one new blob appears; finally the blobs that left the screen are
/// collected.
pub open spec fn stepped(
    blobs: Seq<Blob>,
    cfg: LavaLampConfig,
    roll: u64,
    x: u64,
    speed: u64,
    size: u64,
    height: i64,
) -> Seq<Blob> {
    let adv = blobs.map_values(|b: Blob| advanced(b));
    let with_spawn = if roll < cfg.spawn_chance {
        adv.push(spawned_blob(cfg, x, speed, size, height))
    } else {
        adv
    };
    survivors(with_spawn, cfg.size_max)
}

/// The engine: the list of live blobs, the configuration, and a local,
/// independently seeded pseudo-random generator.
pub struct LavaLamp {
    pub config: LavaLampConfig,
    pub blobs: Vec<Blob>,
    pub rng: rand::rngs::SmallRng,
}

impl LavaLamp {
    /// The engine's invariant: a usable configuration and bounded blobs.
    pub open spec fn wf(&self) -> bool {
        &&& config_ok(self.config)
        &&& forall|i: int| 0 <= i < self.blobs@.len() ==> blob_ok(#[trigger] self.blobs@[i])
    }

    pub fn new(config: LavaLampConfig) -> (r: LavaLamp)
        requires
            config_ok(config),
        ensures
            r.wf(),
            r.config == config,
            r.blobs@ == Seq::<Blob>::empty(),
    {
        LavaLamp { config, blobs: Vec::new(), rng: rng_new() }
    }

    /// Plants a blob directly, e.g. to start a scene from a known state.
    pub fn seed_blob(&mut self, blob: Blob)
        requires
            old(self).wf(),
            blob_ok(blob),
        ensures
            final(self).wf(),
            final(self).config == old(self).config,
            final(self).blobs@ == old(self).blobs@.push(blob),
    {
        self.blobs.push(blob);
    }

    /// Advances every blob by its velocity, keeping the order.
    fn advance_blobs(&mut self)
        requires
            old(self).wf(),
        ensures
            final(self).config == old(self).config,
            final(self).blobs@ == old(self).blobs@.map_values(|b: Blob| advanced(b)),
    {
        let mut moved: Vec<Blob> = Vec::new();
        let mut i: usize = 0;
        while i < self.blobs.len()
            invariant
                old(self).wf(),
                self == old(self),
                i <= self.blobs@.len(),
                moved@.len() == i,
                forall|j: int| 0 <= j < i ==> moved@[j] == advanced(#[trigger] self.blobs@[j]),
            decreases self.blobs@.len() - i,
        {
            proof {
                assert(blob_ok(self.blobs@[i as int]));
            }
            let b = self.blobs[i];
            let nb = Blob {
                pos: (b.pos.0 + b.vel.0, b.pos.1 + b.vel.1),
                vel: b.vel,
                radius: b.radius,
            };
            moved.push(nb);
            i = i + 1;
        }
        self.blobs = moved;
        proof {
            assert(self.blobs@ =~= old(self).blobs@.map_values(|b: Blob| advanced(b)));
        }
    }

    /// Removes every blob that left the visible area, scanning from the
    /// highest index down so each removal leaves the indices of the
    /// blobs still to be examined untouched; the survivors keep their
    /// relative order.
    fn collect_garbage(&mut self)
        requires
            config_ok(old(self).config),
        ensures
            final(self).config == old(self).config,
            final(self).blobs@ == survivors(old(self).blobs@, old(self).config.size_max),
    {
        let ghost orig = self.blobs@;
        let ghost m = self.config.size_max;
        let mut i: usize = self.blobs.len();
        while i > 0
            invariant
                config_ok(self.config),
                self.config == old(self).config,
                m == self.config.size_max,
                orig == old(self).blobs@,
                i <= orig.len(),
                self.blobs@ == orig.take(i as int) + survivors(orig.skip(i as int), m),
            decreases i,
        {
            i = i - 1;
            let garbage = self.blobs[i].pos.1 <= -self.config.size_max;
            proof {
                let s = orig.skip(i as int);
                assert(self.blobs@[i as int] == orig[i as int]);
                assert(s.first() == orig[i as int]);
                assert(s.drop_first() =~= orig.skip(i as int + 1));
                assert(survivors(s, m) == if is_garbage(s.first(), m) {
                    survivors(s.drop_first(), m)
                } else {
                    seq![s.first()] + survivors(s.drop_first(), m)
                });
                assert(garbage == is_garbage(orig[i as int], m));
            }
            if garbage {
                self.blobs.remove(i);
                proof {
                    assert(self.blobs@ =~= orig.take(i as int) + survivors(
                        orig.skip(i as int),
                        m,
                    ));
                }
            } else {
                proof {
                    assert(self.blobs@ =~= orig.take(i as int) + survivors(
                        orig.skip(i as int),
                        m,
                    ));
                }
            }
        }
        proof {
            assert(orig.skip(0) =~= orig);
            assert(self.blobs@ =~= survivors(orig, m));
        }
    }

    /// One deterministic simulation step, the random draws taken as
    /// arguments: advance, maybe spawn, collect. `roll` decides the
    /// spawn (it happens exactly when `roll < spawn_chance`); `x`,
    /// `speed` and `size` are the spawned blob's draws, within the
    /// configured ranges; `width` and `height` are the current surface
    /// size in fixed-point units.
    pub fn step(&mut self, roll: u64, x: u64, speed: u64, size: u64, width: i64, height: i64)
        requires
            old(self).wf(),
            0 < width <= COORD_LIMIT,
            0 <= height <= COORD_LIMIT,
            x < width as u64,
            old(self).config.speed_min <= speed as int <= old(self).config.speed_max,
            old(self).config.size_min <= size as int <= old(self).config.size_max,
        ensures
            final(self).wf(),
            final(self).config == old(self).config,
            final(self).blobs@ == stepped(
                old(self).blobs@,
                old(self).config,
                roll,
                x,
                speed,
                size,
                height,
            ),
    {
        let ghost cfg = self.config;
        let ghost orig = self.blobs@;
        self.advance_blobs();
        if roll < self.config.spawn_chance {
            let y = height + self.config.size_max;
            let radius = (size / 2) as i64;
            let blob = Blob { pos: (x as i64, y), vel: (0, -(speed as i64)), radius };
            self.blobs.push(blob);
            proof {
                assert(blob == spawned_blob(cfg, x, speed, size, height));
            }
        }
        let ghost with_spawn = self.blobs@;
        self.collect_garbage();
        proof {
            assert(self.blobs@ == survivors(with_spawn, cfg.size_max));
            lemma_survivors_elements(with_spawn, cfg.size_max);
            assert forall|i: int| 0 <= i < self.blobs@.len() implies blob_ok(
                #[trigger] self.blobs@[i],
            ) by {
                let e = self.blobs@[i];
                assert(with_spawn.contains(e) && !is_garbage(e, cfg.size_max));
                let j = choose|j: int| 0 <= j < with_spawn.len() && with_spawn[j] == e;
                if j < orig.len() {
                    assert(blob_ok(orig[j]));
                    assert(e == advanced(orig[j]));
                } else {
                    assert(e == spawned_blob(cfg, x, speed, size, height));
                }
            }
        }
    }

    /// One random simulation step: draws the spawn decision — one
    /// uniform roll against the spawn chance — and, when it spawns, the
    /// new blob's position, speed and diameter, then runs `step`. The
    /// draws are random, so only their ranges are promised: some
    /// admissible draw explains the new state. The roll always lies
    /// below `FP_ONE`, so a certain chance spawns on every step and a
    /// zero chance never does.
    pub fn update(&mut self, width: i64, height: i64)
        requires
            old(self).wf(),
            0 < width <= COORD_LIMIT,
            0 <= height <= COORD_LIMIT,
        ensures
            final(self).wf(),
            final(self).config == old(self).config,
            exists|roll: u64, x: u64, speed: u64, size: u64|
                roll < FP_ONE as u64 && x < width as u64 && old(self).config.speed_min <= speed as int <= old(
                    self,
                ).config.speed_max && old(self).config.size_min <= size as int <= old(
                    self,
                ).config.size_max && final(self).blobs@ == stepped(
                    old(self).blobs@,
                    old(self).config,
                    roll,
                    x,
                    speed,
                    size,
                    height,
                ),
    {
        let roll = rng_range(&mut self.rng, 0, FP_ONE as u64 - 1);
        let mut x: u64 = 0;
        let mut speed: u64 = self.config.speed_min as u64;
        let mut size: u64 = self.config.size_min as u64;
        if roll < self.config.spawn_chance {
            x = rng_range(&mut self.rng, 0, width as u64 - 1);
            speed = rng_range(&mut self.rng, self.config.speed_min as u64, self.config.speed_max as u64);
            size = rng_range(&mut self.rng, self.config.size_min as u64, self.config.size_max as u64);
        }
        self.step(roll, x, speed, size, width, height);
    }

    /// Projects the current state into `shape`: one square rect per
    /// live blob, centered on its interpolated display position, in the
    /// order the blobs are held. Simulation state is untouched.
    pub fn add_to_shape(&self, shape: &mut Shape, step: i64)
        requires
            self.wf(),
            0 <= step <= FP_ONE,
        ensures
            final(shape).vertices@ == old(shape).vertices@ + emitted(self.blobs@, step as int),
    {
        let mut i: usize = 0;
        while i < self.blobs.len()
            invariant
                self.wf(),
                0 <= step <= FP_ONE,
                i <= self.blobs@.len(),
                shape.vertices@ == old(shape).vertices@ + emitted(
                    self.blobs@.take(i as int),
                    step as int,
                ),
            decreases self.blobs@.len() - i,
        {
            proof {
                assert(blob_ok(self.blobs@[i as int]));
            }
            let b = self.blobs[i];
            b.add_to_shape(shape, step);
            proof {
                let t = self.blobs@.take(i as int + 1);
                assert(t.drop_last() =~= self.blobs@.take(i as int));
                assert(t.last() == self.blobs@[i as int]);
                assert(shape.vertices@ =~= old(shape).vertices@ + emitted(t, step as int));
            }
            i = i + 1;
        }
        proof {
            assert(self.blobs@.take(self.blobs@.len() as int) =~= self.blobs@);
        }
    }
}

/// With spawning certain and no blob anywhere near the exit edge, every
/// step grows the population by exactly one: the advanced blobs all
/// survive and the spawned blob is appended after them. Over N such
/// steps this is one blob per step, N in all.
pub proof fn lemma_certain_spawn(
    blobs: Seq<Blob>,
    cfg: LavaLampConfig,
    roll: u64,
    x: u64,
    speed: u64,
    size: u64,
    height: i64,
)
    requires
        cfg.spawn_chance == FP_ONE as u64,
        roll < FP_ONE as u64,
        forall|i: int|
            0 <= i < blobs.len() ==> !is_garbage(advanced(#[trigger] blobs[i]), cfg.size_max),
        !is_garbage(spawned_blob(cfg, x, speed, size, height), cfg.size_max),
    ensures
        stepped(blobs, cfg, roll, x, speed, size, height) == blobs.map_values(
            |b: Blob| advanced(b),
        ).push(spawned_blob(cfg, x, speed, size, height)),
        stepped(blobs, cfg, roll, x, speed, size, height).len() == blobs.len() + 1,
{
    let adv = blobs.map_values(|b: Blob| advanced(b));
    let ws = adv.push(spawned_blob(cfg, x, speed, size, height));
    assert forall|i: int| 0 <= i < ws.len() implies !is_garbage(#[trigger] ws[i], cfg.size_max) by {
        if i < adv.len() {
            assert(ws[i] == advanced(blobs[i]));
        }
    }
    lemma_survivors_all_kept(ws, cfg.size_max);
}

/// The blob list after `n` simulation steps that all take the same
/// draws — the degenerate case where every configured range has one
/// value, so each step is forced.
pub open spec fn stepped_n(
    blobs: Seq<Blob>,
    cfg: LavaLampConfig,
    roll: u64,
    x: u64,
    speed: u64,
    size: u64,
    height: i64,
    n: nat,
) -> Seq<Blob>
    decreases n,
{
    if n == 0 {
        blobs
    } else {
        stepped(
            stepped_n(blobs, cfg, roll, x, speed, size, height, (n - 1) as nat),
            cfg,
            roll,
            x,
            speed,
            size,
            height,
        )
    }
}

/// What a blob spawned with the given draws looks like after `age`
/// advances: still at the spawn x, risen `age` times its speed.
pub open spec fn blob_shape_at(
    b: Blob,
    cfg: LavaLampConfig,
    x: u64,
    speed: u64,
    size: u64,
    height: i64,
    age: int,
) -> bool {
    &&& b.pos.0 == x as i64
    &&& b.pos.1 as int == height + cfg.size_max - age * (speed as int)
    &&& b.vel.0 == 0
    &&& b.vel.1 as int == -(speed as int)
    &&& b.radius as int == (size as int) / 2
}

/// With spawning certain and every spawn clear of the exit edge for the
/// whole run, `n` steps from an empty engine leave exactly `n` blobs —
/// one per step, oldest first, each exactly where its age says: spawned
/// at `height + size_max` and advanced once per step since.
pub proof fn lemma_n_certain_spawns(
    cfg: LavaLampConfig,
    roll: u64,
    x: u64,
    speed: u64,
    size: u64,
    height: i64,
    n: nat,
)
    requires
        config_ok(cfg),
        cfg.spawn_chance == FP_ONE as u64,
        roll < FP_ONE as u64,
        x <= COORD_LIMIT as u64,
        speed <= COORD_LIMIT as u64,
        size <= COORD_LIMIT as u64,
        0 <= height <= COORD_LIMIT,
        height + cfg.size_max - (n - 1) * (speed as int) > -cfg.size_max,
    ensures
        stepped_n(Seq::<Blob>::empty(), cfg, roll, x, speed, size, height, n).len() == n,
        forall|i: int|
            0 <= i < n ==> blob_shape_at(
                #[trigger] stepped_n(Seq::<Blob>::empty(), cfg, roll, x, speed, size, height, n)[i],
                cfg,
                x,
                speed,
                size,
                height,
                n - 1 - i,
            ),
    decreases n,
{
    let s = speed as int;
    let y0 = height + cfg.size_max;
    if n > 0 {
        assert((n - 1 - 1) * s <= (n - 1) * s && 0 * s <= (n - 1) * s) by (nonlinear_arith)
            requires
                n >= 1,
                s >= 0,
        ;
        lemma_n_certain_spawns(cfg, roll, x, speed, size, height, (n - 1) as nat);
        let prev = stepped_n(Seq::<Blob>::empty(), cfg, roll, x, speed, size, height, (n - 1) as nat);
        let adv = prev.map_values(|b: Blob| advanced(b));
        let spawn = spawned_blob(cfg, x, speed, size, height);
        let ws = adv.push(spawn);
        assert forall|i: int| 0 <= i < ws.len() implies !is_garbage(#[trigger] ws[i], cfg.size_max)
            && ws[i].pos.0 == x as i64 && ws[i].pos.1 as int == y0 - (n - 1 - i) * s && ws[i].vel.0
            == 0 && ws[i].vel.1 as int == -s && ws[i].radius as int == (size as int) / 2 by {
            if i < adv.len() {
                assert(adv[i] == advanced(prev[i]));
                assert(prev[i].pos.1 as int == y0 - (n - 2 - i) * s);
                assert((n - 2 - i) * s + s == (n - 1 - i) * s) by (nonlinear_arith);
            } else {
                assert(ws[i] == spawn);
                assert((n - 1 - i) * s == 0) by (nonlinear_arith)
                    requires
                        i == n - 1,
                ;
            }
            vstd::arithmetic::mul::lemma_mul_inequality(n - 1 - i, n - 1, s);
        }
        lemma_survivors_all_kept(ws, cfg.size_max);
        assert(stepped_n(Seq::<Blob>::empty(), cfg, roll, x, speed, size, height, n) == ws);
    }
}

/// With spawning off and every blob past the exit edge once it has
/// advanced, one step leaves no blob at all.
pub proof fn lemma_no_spawn_collects_all(
    blobs: Seq<Blob>,
    cfg: LavaLampConfig,
    roll: u64,
    x: u64,
    speed: u64,
    size: u64,
    height: i64,
)
    requires
        cfg.spawn_chance == 0,
        forall|i: int|
            0 <= i < blobs.len() ==> is_garbage(advanced(#[trigger] blobs[i]), cfg.size_max),
    ensures
        stepped(blobs, cfg, roll, x, speed, size, height) == Seq::<Blob>::empty(),
{
    let adv = blobs.map_values(|b: Blob| advanced(b));
    assert forall|i: int| 0 <= i < adv.len() implies is_garbage(
        #[trigger] adv[i],
        cfg.size_max,
    ) by {
        assert(adv[i] == advanced(blobs[i]));
    }
    lemma_survivors_none_kept(adv, cfg.size_max);
}

} // verus!
