//! Particles, burst descriptions, and the manager that spawns, advances and draws them.
use vstd::prelude::*;
use crate::geometry::{BurstSource, position_needs, position_of, spawn_position};
use crate::sampling::{
    RandomSource, float_needs_draw, float_sample, int_needs_draw, int_sample, sample_float,
    sample_int,
};

verus! {

/// How a particle is drawn.
#[derive(Debug)]
pub enum Shape {
    Square,
    Circle,
    Sprite { name: String },
}

impl Clone for Shape {
    fn clone(&self) -> (r: Shape)
        ensures
            r == *self,
    {
        match self {
            Shape::Square => Shape::Square,
            Shape::Circle => Shape::Circle,
            Shape::Sprite { name } => Shape::Sprite { name: name.clone() },
        }
    }
}

/// Ticks (of 1/60000 s) in one millisecond.
pub const TICKS_PER_MILLI: i64 = 60;

/// Ticks in one update step: the engine advances at a fixed 60 steps a second.
pub const TICKS_PER_STEP: i64 = 1000;

/// Bound on the magnitude of any lifetime, in ticks.
pub const LIFE_BOUND: i64 = 1099511627776;

/// One simulated particle. Lengths are thousandths of a pixel, velocities are per
/// step, lifetimes are ticks; the low byte of `color` is its alpha.
#[derive(Debug)]
pub struct Particle {
    pub pos: (i64, i64),
    pub vel: (i64, i64),
    pub size: u32,
    pub color: u32,
    pub lifetime: i64,
    pub remaining_life: i64,
    pub shape: Shape,
    pub should_fade_out: bool,
}

impl Particle {
    pub open spec fn wf(&self) -> bool {
        -LIFE_BOUND <= self.remaining_life <= self.lifetime <= LIFE_BOUND
    }
}

/// The description of one spawn event. Positions and velocities are thousandths of a
/// pixel, lifetimes milliseconds; every range is `(min, max)`.
#[derive(Debug)]
pub struct BurstConfig {
    pub source: BurstSource,
    pub shape: Shape,
    pub x_velocity: (i32, i32),
    pub y_velocity: (i32, i32),
    pub lifetime: (i32, i32),
    pub color: u32,
    pub size: (u32, u32),
    pub count: u32,
    pub should_fade_out: bool,
}

/// The draws that decide one particle. `position` is unused for a point source.
#[derive(Clone, Copy, Debug)]
pub struct SpawnDraws {
    pub position: (u32, u32),
    pub x_velocity: u32,
    pub y_velocity: u32,
    pub lifetime: u32,
    pub size: u32,
}

/// The particle that `config` spawns with the draws `d`.
pub open spec fn particle_of(config: BurstConfig, d: SpawnDraws) -> Particle {
    let pos = position_of(config.source, d.position.0, d.position.1);
    let life = float_sample(config.lifetime.0 as int, config.lifetime.1 as int, d.lifetime)
        * TICKS_PER_MILLI;
    Particle {
        pos: (pos.0 as i64, pos.1 as i64),
        vel: (
            float_sample(config.x_velocity.0 as int, config.x_velocity.1 as int, d.x_velocity) as i64,
            float_sample(config.y_velocity.0 as int, config.y_velocity.1 as int, d.y_velocity) as i64,
        ),
        size: int_sample(config.size.0, config.size.1, d.size),
        color: config.color,
        lifetime: life as i64,
        remaining_life: life as i64,
        shape: config.shape,
        should_fade_out: config.should_fade_out,
    }
}

/// `p` is a particle that `config` can spawn, for some draws.
pub open spec fn spawned_from(config: BurstConfig, p: Particle) -> bool {
    exists|d: SpawnDraws| p == particle_of(config, d)
}

/// The particle that `config` spawns with the draws `d`.
pub fn particle_from_draws(config: &BurstConfig, d: &SpawnDraws) -> (p: Particle)
    ensures
        p == particle_of(*config, *d),
        p.wf(),
{
    let pos = spawn_position(&config.source, d.position.0, d.position.1);
    let vx = sample_float(config.x_velocity.0, config.x_velocity.1, d.x_velocity);
    let vy = sample_float(config.y_velocity.0, config.y_velocity.1, d.y_velocity);
    let life_ms = sample_float(config.lifetime.0, config.lifetime.1, d.lifetime);
    let size = sample_int(config.size.0, config.size.1, d.size);
    let life = life_ms * TICKS_PER_MILLI;
    Particle {
        pos,
        vel: (vx, vy),
        size,
        color: config.color,
        lifetime: life,
        remaining_life: life,
        shape: config.shape.clone(),
        should_fade_out: config.should_fade_out,
    }
}

pub open spec fn flag(b: bool) -> int {
    if b {
        1
    } else {
        0
    }
}

/// The draw at `i` of `s` when a sample takes one, else 0 (which it ignores).
pub open spec fn pick(needed: bool, s: Seq<u32>, i: int) -> u32 {
    if needed {
        s[i]
    } else {
        0
    }
}

/// Whether the x velocity, y velocity, lifetime and size samples of `config` take
/// a draw.
pub open spec fn field_needs(config: BurstConfig) -> (bool, bool, bool, bool) {
    (
        float_needs_draw(config.x_velocity.0 as int, config.x_velocity.1 as int),
        float_needs_draw(config.y_velocity.0 as int, config.y_velocity.1 as int),
        float_needs_draw(config.lifetime.0 as int, config.lifetime.1 as int),
        int_needs_draw(config.size.0, config.size.1),
    )
}

/// How many draws one particle of `config` takes: one for each sample whose range
/// is not degenerate.
pub open spec fn draw_count(config: BurstConfig) -> int {
    let pn = position_needs(config.source);
    let fv = field_needs(config);
    flag(pn.0) + flag(pn.1) + flag(fv.0) + flag(fv.1) + flag(fv.2) + flag(fv.3)
}

/// The draws of one particle of `config`, read from `s` in the order they are
/// taken: the position (angle then distance, or x then y; none for a point), the x
/// velocity, the y velocity, the lifetime, the size. A degenerate sample takes no
/// draw.
pub open spec fn draws_from(config: BurstConfig, s: Seq<u32>) -> SpawnDraws {
    let pn = position_needs(config.source);
    let fv = field_needs(config);
    let i1 = flag(pn.0);
    let i2 = i1 + flag(pn.1);
    let i3 = i2 + flag(fv.0);
    let i4 = i3 + flag(fv.1);
    let i5 = i4 + flag(fv.2);
    SpawnDraws {
        position: (pick(pn.0, s, 0), pick(pn.1, s, i1)),
        x_velocity: pick(fv.0, s, i2),
        y_velocity: pick(fv.1, s, i3),
        lifetime: pick(fv.2, s, i4),
        size: pick(fv.3, s, i5),
    }
}

/// A particle depends on its own draws alone: two draw streams that agree on the
/// first `draw_count(config)` draws spawn the same particle from `config`.
pub proof fn lemma_same_draws_same_particle(config: BurstConfig, s: Seq<u32>, t: Seq<u32>)
    requires
        s.len() >= draw_count(config),
        t.len() >= draw_count(config),
        s.take(draw_count(config)) == t.take(draw_count(config)),
    ensures
        draws_from(config, s) == draws_from(config, t),
        particle_of(config, draws_from(config, s)) == particle_of(config, draws_from(config, t)),
{
    let c = draw_count(config);
    assert forall|i: int| 0 <= i < c implies s[i] == t[i] by {
        assert(s.take(c)[i] == t.take(c)[i]);
    }
}

/// A draw from `rng` when `needed`, else 0 and no draw.
fn draw_if<R: RandomSource>(needed: bool, rng: &mut R) -> (r: u32)
    ensures
        needed ==> final(rng).drawn() == old(rng).drawn().push(r),
        !needed ==> final(rng).drawn() == old(rng).drawn() && r == 0,
{
    if needed {
        rng.next_u32()
    } else {
        0
    }
}

/// Spawns one particle from `config`, taking from `rng` exactly the draws that
/// `draws_from` reads, in that order.
pub fn create_particle<R: RandomSource>(config: &BurstConfig, rng: &mut R) -> (p: Particle)
    ensures
        final(rng).drawn().len() == old(rng).drawn().len() + draw_count(*config),
        final(rng).drawn().take(old(rng).drawn().len() as int) == old(rng).drawn(),
        p == particle_of(
            *config,
            draws_from(*config, final(rng).drawn().skip(old(rng).drawn().len() as int)),
        ),
        p.wf(),
{
    let ghost start = rng.drawn();
    let (n0, n1) = match config.source {
        BurstSource::Point(..) => (false, false),
        BurstSource::Circle { radius, .. } => (true, radius != 0),
        BurstSource::Rectangle { min, max } => (min.0 != max.0, min.1 != max.1),
    };
    let nx = config.x_velocity.0 != config.x_velocity.1;
    let ny = config.y_velocity.0 != config.y_velocity.1;
    let nl = config.lifetime.0 != config.lifetime.1;
    let ns = config.size.1 > config.size.0;
    assert(position_needs(config.source) == (n0, n1));
    assert(field_needs(*config) == (nx, ny, nl, ns));
    let d0 = draw_if(n0, rng);
    let d1 = draw_if(n1, rng);
    let x_velocity = draw_if(nx, rng);
    let y_velocity = draw_if(ny, rng);
    let lifetime = draw_if(nl, rng);
    let size = draw_if(ns, rng);
    let d = SpawnDraws { position: (d0, d1), x_velocity, y_velocity, lifetime, size };
    proof {
        let all = rng.drawn();
        let taken = all.skip(start.len() as int);
        assert(all.take(start.len() as int) =~= start);
        assert(all.len() == start.len() + draw_count(*config));
        let i1 = flag(n0);
        let i2 = i1 + flag(n1);
        let i3 = i2 + flag(nx);
        let i4 = i3 + flag(ny);
        let i5 = i4 + flag(nl);
        assert(n0 ==> taken[0] == d0);
        assert(n1 ==> taken[i1] == d1);
        assert(nx ==> taken[i2] == x_velocity);
        assert(ny ==> taken[i3] == y_velocity);
        assert(nl ==> taken[i4] == lifetime);
        assert(ns ==> taken[i5] == size);
        assert(draws_from(*config, taken) == d);
    }
    let p = particle_from_draws(config, &d);
    p
}

/// Replaces the alpha byte of `color` with `alpha`.
pub open spec fn with_alpha(color: u32, alpha: u32) -> u32 {
    (color & 0xFFFFFF00u32) | alpha
}

/// The alpha byte of a color.
pub open spec fn alpha_of(color: u32) -> u32 {
    color & 0xFFu32
}

/// Whether a particle of the given lifetime with the given remaining life is past
/// the middle of its life, where its opacity fades.
pub open spec fn fades(lifetime: int, remaining: int) -> bool {
    lifetime >= 0 && 2 * remaining < lifetime
}

/// Opacity in the fading half: `floor(remaining / lifetime * 510)`, zero once no
/// life remains.
pub open spec fn fade_alpha(lifetime: int, remaining: int) -> int {
    if remaining <= 0 {
        0
    } else {
        (remaining * 510) / lifetime
    }
}

/// `a + b`, held at the limits of `i64`.
pub open spec fn clamped_add(a: i64, b: i64) -> i64 {
    if a + b > i64::MAX {
        i64::MAX
    } else if a + b < i64::MIN {
        i64::MIN
    } else {
        (a + b) as i64
    }
}

/// One step of a particle: it moves by its velocity, ages by one step, and, when
/// it fades out and is past the middle of its life, takes its fading opacity.
pub open spec fn step(p: Particle) -> Particle {
    let remaining = p.remaining_life - TICKS_PER_STEP;
    Particle {
        pos: (clamped_add(p.pos.0, p.vel.0), clamped_add(p.pos.1, p.vel.1)),
        remaining_life: remaining as i64,
        color: if p.should_fade_out && fades(p.lifetime as int, remaining) {
            with_alpha(p.color, fade_alpha(p.lifetime as int, remaining) as u32)
        } else {
            p.color
        },
        ..p
    }
}

pub open spec fn alive(p: Particle) -> bool {
    p.remaining_life > 0
}

/// A group after one step: every particle stepped, the exhausted ones dropped.
pub open spec fn updated_group(g: Seq<Particle>) -> Seq<Particle> {
    g.map_values(|p: Particle| step(p)).filter(|p: Particle| alive(p))
}

/// All groups after one step, the emptied ones dropped.
pub open spec fn updated_groups(gs: Seq<Seq<Particle>>) -> Seq<Seq<Particle>> {
    gs.map_values(|g: Seq<Particle>| updated_group(g)).filter(|g: Seq<Particle>| g.len() > 0)
}

/// `a + b`, held at the limits of `i64`.
pub fn add_clamped(a: i64, b: i64) -> (r: i64)
    ensures
        r == clamped_add(a, b),
{
    if b > 0 && a > i64::MAX - b {
        i64::MAX
    } else if b < 0 && a < i64::MIN - b {
        i64::MIN
    } else {
        a + b
    }
}

proof fn lemma_with_alpha(color: u32, alpha: u32)
    requires
        alpha <= 255,
    ensures
        alpha_of(with_alpha(color, alpha)) == alpha,
        with_alpha(color, alpha) >> 8u32 == color >> 8u32,
{
    assert((((color & 0xFFFFFF00u32) | alpha) & 0xFFu32) == alpha) by (bit_vector)
        requires
            alpha <= 255,
    ;
    assert((((color & 0xFFFFFF00u32) | alpha) >> 8u32) == color >> 8u32) by (bit_vector)
        requires
            alpha <= 255,
    ;
}

proof fn lemma_fade_alpha_bounds(lifetime: int, remaining: int)
    requires
        fades(lifetime, remaining),
    ensures
        0 <= fade_alpha(lifetime, remaining) <= 255,
{
    if remaining > 0 {
        assert(0 <= (remaining * 510) / lifetime <= 255) by (nonlinear_arith)
            requires
                0 < remaining,
                2 * remaining < lifetime,
        ;
    }
}

/// Advances one particle by one step.
pub fn step_particle(p: &Particle) -> (q: Particle)
    requires
        p.wf(),
    ensures
        q == step(*p),
{
    let remaining = p.remaining_life - TICKS_PER_STEP;
    let mut color = p.color;
    if p.should_fade_out && p.lifetime >= 0 && 2 * remaining < p.lifetime {
        proof {
            lemma_fade_alpha_bounds(p.lifetime as int, remaining as int);
        }
        let alpha: i64 = if remaining <= 0 {
            0
        } else {
            (remaining * 510) / p.lifetime
        };
        color = (p.color & 0xFFFFFF00u32) | (alpha as u32);
    }
    Particle {
        pos: (add_clamped(p.pos.0, p.vel.0), add_clamped(p.pos.1, p.vel.1)),
        vel: p.vel,
        size: p.size,
        color,
        lifetime: p.lifetime,
        remaining_life: remaining,
        shape: p.shape.clone(),
        should_fade_out: p.should_fade_out,
    }
}

proof fn lemma_updated_group_push(s: Seq<Particle>, x: Particle)
    ensures
        updated_group(s.push(x)) == if alive(step(x)) {
            updated_group(s).push(step(x))
        } else {
            updated_group(s)
        },
{
    reveal(Seq::filter);
    let m = s.push(x).map_values(|p: Particle| step(p));
    assert(m.drop_last() =~= s.map_values(|p: Particle| step(p)));
    assert(m.last() == step(x));
}

proof fn lemma_updated_groups_push(gs: Seq<Seq<Particle>>, g: Seq<Particle>)
    ensures
        updated_groups(gs.push(g)) == if updated_group(g).len() > 0 {
            updated_groups(gs).push(updated_group(g))
        } else {
            updated_groups(gs)
        },
{
    reveal(Seq::filter);
    let m = gs.push(g).map_values(|h: Seq<Particle>| updated_group(h));
    assert(m.drop_last() =~= gs.map_values(|h: Seq<Particle>| updated_group(h)));
    assert(m.last() == updated_group(g));
}

/// Advances every particle of a group by one step and drops the exhausted ones.
pub fn step_group(g: &Vec<Particle>) -> (r: Vec<Particle>)
    requires
        forall|k: int| 0 <= k < g@.len() ==> (#[trigger] g@[k]).wf(),
    ensures
        r@ == updated_group(g@),
        forall|k: int| 0 <= k < r@.len() ==> (#[trigger] r@[k]).wf() && alive(r@[k]),
{
    let mut r: Vec<Particle> = Vec::new();
    let mut i: usize = 0;
    while i < g.len()
        invariant
            0 <= i <= g@.len(),
            forall|k: int| 0 <= k < g@.len() ==> (#[trigger] g@[k]).wf(),
            r@ == updated_group(g@.take(i as int)),
            forall|k: int| 0 <= k < r@.len() ==> (#[trigger] r@[k]).wf() && alive(r@[k]),
        decreases g@.len() - i,
    {
        let q = step_particle(&g[i]);
        proof {
            assert(g@.take(i as int + 1) =~= g@.take(i as int).push(g@[i as int]));
            lemma_updated_group_push(g@.take(i as int), g@[i as int]);
        }
        if q.remaining_life > 0 {
            r.push(q);
        }
        i = i + 1;
    }
    assert(g@.take(g@.len() as int) =~= g@);
    r
}

/// A particle after `n` steps.
pub open spec fn steps(p: Particle, n: nat) -> Particle
    decreases n,
{
    if n == 0 {
        p
    } else {
        step(steps(p, (n - 1) as nat))
    }
}

proof fn lemma_fade_alpha_monotone(lifetime: int, r1: int, r2: int)
    requires
        lifetime > 0,
        r2 <= r1,
    ensures
        fade_alpha(lifetime, r2) <= fade_alpha(lifetime, r1),
{
    if r2 > 0 {
        assert((r2 * 510) / lifetime <= (r1 * 510) / lifetime) by (nonlinear_arith)
            requires
                0 < r2 <= r1,
                lifetime > 0,
        {
            vstd::arithmetic::div_mod::lemma_div_is_ordered(r2 * 510, r1 * 510, lifetime);
        }
    } else if r1 > 0 {
        assert((r1 * 510) / lifetime >= 0) by (nonlinear_arith)
            requires
                r1 > 0,
                lifetime > 0,
        ;
    }
}

proof fn lemma_steps(p: Particle, n: nat)
    requires
        p.wf(),
        p.remaining_life - n * TICKS_PER_STEP >= -LIFE_BOUND,
    ensures
        steps(p, n).remaining_life == p.remaining_life - n * TICKS_PER_STEP,
        steps(p, n).lifetime == p.lifetime,
        steps(p, n).should_fade_out == p.should_fade_out,
        steps(p, n).wf(),
        !p.should_fade_out ==> steps(p, n).color == p.color,
        !fades(p.lifetime as int, steps(p, n).remaining_life as int) ==> steps(p, n).color
            == p.color,
        p.should_fade_out && n >= 1 && fades(p.lifetime as int, steps(p, n).remaining_life as int)
            ==> alpha_of(steps(p, n).color) == fade_alpha(
            p.lifetime as int,
            steps(p, n).remaining_life as int,
        ),
    decreases n,
{
    if n > 0 {
        let prev = steps(p, (n - 1) as nat);
        lemma_steps(p, (n - 1) as nat);
        let rem = prev.remaining_life - TICKS_PER_STEP;
        if prev.should_fade_out && fades(prev.lifetime as int, rem) {
            lemma_fade_alpha_bounds(prev.lifetime as int, rem);
            lemma_with_alpha(prev.color, fade_alpha(prev.lifetime as int, rem) as u32);
        }
    }
}

/// A particle that does not fade out keeps its color, and so its alpha, through
/// every step of its life.
pub proof fn lemma_steady_color(p: Particle, n: nat)
    requires
        p.wf(),
        !p.should_fade_out,
        p.remaining_life - n * TICKS_PER_STEP >= -LIFE_BOUND,
    ensures
        steps(p, n).color == p.color,
        alpha_of(steps(p, n).color) == alpha_of(p.color),
{
    lemma_steps(p, n);
}

/// A particle that fades out keeps its spawn alpha until the middle of its life;
/// from there its alpha never rises from one step to a later one; and it is zero
/// once no life remains.
pub proof fn lemma_fade_out(p: Particle, m: nat, n: nat)
    requires
        p.wf(),
        p.should_fade_out,
        m <= n,
        p.remaining_life - n * TICKS_PER_STEP >= -LIFE_BOUND,
    ensures
        !fades(p.lifetime as int, steps(p, n).remaining_life as int) ==> alpha_of(
            steps(p, n).color,
        ) == alpha_of(p.color),
        m >= 1 && fades(p.lifetime as int, steps(p, m).remaining_life as int) ==> alpha_of(
            steps(p, n).color,
        ) <= alpha_of(steps(p, m).color),
        n >= 1 && p.lifetime >= 0 && steps(p, n).remaining_life <= 0 ==> alpha_of(
            steps(p, n).color,
        ) == 0,
{
    lemma_steps(p, n);
    lemma_steps(p, m);
    let l = p.lifetime as int;
    let rm = steps(p, m).remaining_life as int;
    let rn = steps(p, n).remaining_life as int;
    assert(rn <= rm) by (nonlinear_arith)
        requires
            rn == p.remaining_life - n * TICKS_PER_STEP,
            rm == p.remaining_life - m * TICKS_PER_STEP,
            m <= n,
    ;
    if m >= 1 && fades(l, rm) {
        if l > 0 {
            lemma_fade_alpha_monotone(l, rm, rn);
        }
    }
    if n >= 1 && l >= 0 && rn <= 0 {
        assert(rn < 0 || l > 0 || rn == 0);
        assert(p.remaining_life <= l);
        assert(rn <= p.remaining_life - TICKS_PER_STEP) by (nonlinear_arith)
            requires
                rn == p.remaining_life - n * TICKS_PER_STEP,
                n >= 1,
        ;
    }
}

/// One call to the renderer. Coordinates and lengths are thousandths of a pixel; a
/// rectangle and a circle are placed by the top-left corner of their bounding box.
#[derive(Debug)]
pub enum DrawCommand {
    Rect { x: i64, y: i64, w: i64, h: i64, color: u32 },
    Circle { x: i64, y: i64, d: i64, color: u32 },
    Sprite { name: String, x: i64, y: i64 },
    Text { text: String, x: i64, y: i64, color: u32 },
}

/// How a particle is drawn: a square of side `size` or a circle of diameter `size`,
/// centered on its position, or its sprite anchored at its position.
pub open spec fn draw_command(p: Particle) -> DrawCommand {
    let half = -((p.size as int) * 500);
    let side = ((p.size as int) * 1000) as i64;
    let x = clamped_add(p.pos.0, half as i64);
    let y = clamped_add(p.pos.1, half as i64);
    match p.shape {
        Shape::Square => DrawCommand::Rect { x, y, w: side, h: side, color: p.color },
        Shape::Circle => DrawCommand::Circle { x, y, d: side, color: p.color },
        Shape::Sprite { name } => DrawCommand::Sprite { name, x: p.pos.0, y: p.pos.1 },
    }
}

/// The draw commands of all groups, group after group, each in particle order.
pub open spec fn draw_list(gs: Seq<Seq<Particle>>) -> Seq<DrawCommand>
    decreases gs.len(),
{
    if gs.len() == 0 {
        Seq::empty()
    } else {
        draw_list(gs.drop_last()) + gs.last().map_values(|p: Particle| draw_command(p))
    }
}

/// The draw command of one particle.
pub fn draw_particle(p: &Particle) -> (c: DrawCommand)
    ensures
        c == draw_command(*p),
{
    let half: i64 = -(p.size as i64 * 500);
    let side: i64 = p.size as i64 * 1000;
    let x = add_clamped(p.pos.0, half);
    let y = add_clamped(p.pos.1, half);
    match &p.shape {
        Shape::Square => DrawCommand::Rect { x, y, w: side, h: side, color: p.color },
        Shape::Circle => DrawCommand::Circle { x, y, d: side, color: p.color },
        Shape::Sprite { name } => DrawCommand::Sprite { name: name.clone(), x: p.pos.0, y: p.pos.1 },
    }
}

/// Owns every live group of particles, in the order the groups were created.
#[derive(Debug)]
pub struct ParticleManager {
    pub bursts: Vec<Vec<Particle>>,
}

impl ParticleManager {
    /// The groups, each as the sequence of its particles.
    pub open spec fn groups(&self) -> Seq<Seq<Particle>> {
        self.bursts@.map_values(|g: Vec<Particle>| g@)
    }

    pub open spec fn wf(&self) -> bool {
        forall|i: int, k: int|
            0 <= i < self.groups().len() && 0 <= k < self.groups()[i].len()
                ==> (#[trigger] self.groups()[i][k]).wf()
    }

    pub fn new() -> (r: ParticleManager)
        ensures
            r.wf(),
            r.groups() == Seq::<Seq<Particle>>::empty(),
    {
        let r = ParticleManager { bursts: Vec::new() };
        assert(r.groups() =~= Seq::<Seq<Particle>>::empty());
        r
    }

    /// Appends one new group of `config.count` particles spawned from `config`,
    /// after every existing group, which stay as they were. Particle `k` is made
    /// from the `k`-th run of `draw_count(config)` draws taken from `rng`.
    pub fn create_burst<R: RandomSource>(&mut self, config: &BurstConfig, rng: &mut R)
        requires
            old(self).wf(),
        ensures
            final(self).wf(),
            final(self).groups().len() == old(self).groups().len() + 1,
            final(self).groups().drop_last() == old(self).groups(),
            final(self).groups().last().len() == config.count,
            final(rng).drawn().len() == old(rng).drawn().len() + config.count * draw_count(
                *config,
            ),
            final(rng).drawn().take(old(rng).drawn().len() as int) == old(rng).drawn(),
            forall|k: int|
                0 <= k < config.count ==> #[trigger] final(self).groups().last()[k]
                    == particle_of(
                    *config,
                    draws_from(
                        *config,
                        final(rng).drawn().subrange(
                            old(rng).drawn().len() + k * draw_count(*config),
                            old(rng).drawn().len() + (k + 1) * draw_count(*config),
                        ),
                    ),
                ),
    {
        let ghost start = rng.drawn();
        let ghost o = start.len() as int;
        let ghost c = draw_count(*config);
        let mut burst: Vec<Particle> = Vec::new();
        let mut i: u32 = 0;
        assert(0 <= c <= 6);
        while i < config.count
            invariant
                i <= config.count,
                burst@.len() == i,
                0 <= c <= 6,
                c == draw_count(*config),
                o == start.len(),
                rng.drawn().len() == o + i * c,
                rng.drawn().take(o) == start,
                forall|k: int| 0 <= k < i ==> (#[trigger] burst@[k]).wf(),
                forall|k: int|
                    0 <= k < i ==> #[trigger] burst@[k] == particle_of(
                        *config,
                        draws_from(*config, rng.drawn().subrange(o + k * c, o + (k + 1) * c)),
                    ),
            decreases config.count - i,
        {
            let ghost prev = rng.drawn();
            let p = create_particle(config, rng);
            proof {
                let now = rng.drawn();
                assert(o + i * c + c == o + (i + 1) * c) by (nonlinear_arith);
                assert(now.skip(prev.len() as int) =~= now.subrange(o + i * c, o + (i + 1) * c));
                assert(now.take(o) =~= prev.take(o));
                assert forall|k: int| 0 <= k < i implies #[trigger] now.subrange(
                    o + k * c,
                    o + (k + 1) * c,
                ) == prev.subrange(o + k * c, o + (k + 1) * c) by {
                    assert(0 <= k * c && (k + 1) * c <= i * c) by (nonlinear_arith)
                        requires
                            0 <= k < i,
                            0 <= c,
                    ;
                    assert(o + (k + 1) * c <= prev.len());
                    assert((k + 1) * c == k * c + c) by (nonlinear_arith);
                    assert(now.take(prev.len() as int) == prev);
                    assert forall|j: int| 0 <= j < c implies #[trigger] now[o + k * c + j] == prev[o + k * c + j] by {
                        assert(now.take(prev.len() as int)[o + k * c + j] == now[o + k * c + j]);
                    }
                    assert(now.subrange(o + k * c, o + (k + 1) * c) =~= prev.subrange(
                        o + k * c,
                        o + (k + 1) * c,
                    ));
                }
            }
            burst.push(p);
            i = i + 1;
        }
        let ghost before = self.groups();
        self.bursts.push(burst);
        assert(self.groups().drop_last() =~= before);
        assert(self.groups().last() == burst@);
        assert forall|j: int, k: int|
            0 <= j < self.groups().len() && 0 <= k < self.groups()[j].len()
                implies (#[trigger] self.groups()[j][k]).wf() by {
            if j < before.len() {
                assert(self.groups()[j] == before[j]);
            }
        }
    }

    /// The draw commands of every particle, group after group; nothing changes.
    pub fn draw(&self) -> (r: Vec<DrawCommand>)
        ensures
            r@ == draw_list(self.groups()),
    {
        let ghost gs = self.groups();
        let mut out: Vec<DrawCommand> = Vec::new();
        let mut i: usize = 0;
        while i < self.bursts.len()
            invariant
                0 <= i <= gs.len(),
                gs == self.groups(),
                out@ == draw_list(gs.take(i as int)),
            decreases gs.len() - i,
        {
            let group = &self.bursts[i];
            assert(group@ == gs[i as int]);
            let ghost start = out@;
            let mut j: usize = 0;
            while j < group.len()
                invariant
                    0 <= j <= group@.len(),
                    out@ == start + group@.take(j as int).map_values(|p: Particle| draw_command(p)),
                decreases group@.len() - j,
            {
                let c = draw_particle(&group[j]);
                let ghost mid = out@;
                out.push(c);
                assert(group@.take(j as int + 1).map_values(|p: Particle| draw_command(p))
                    =~= group@.take(j as int).map_values(|p: Particle| draw_command(p)).push(c));
                assert(out@ =~= start + group@.take(j as int + 1).map_values(
                    |p: Particle| draw_command(p),
                ));
                j = j + 1;
            }
            assert(group@.take(group@.len() as int) =~= group@);
            assert(gs.take(i as int + 1).drop_last() =~= gs.take(i as int));
            assert(gs.take(i as int + 1).last() == gs[i as int]);
            i = i + 1;
        }
        assert(gs.take(gs.len() as int) =~= gs);
        out
    }

    /// Advances every particle by one step, drops the exhausted particles, then
    /// drops the emptied groups.
    pub fn update(&mut self)
        requires
            old(self).wf(),
        ensures
            final(self).wf(),
            final(self).groups() == updated_groups(old(self).groups()),
            forall|i: int| 0 <= i < final(self).groups().len()
                ==> (#[trigger] final(self).groups()[i]).len() > 0,
            forall|i: int, k: int|
                0 <= i < final(self).groups().len() && 0 <= k < final(self).groups()[i].len()
                    ==> alive(#[trigger] final(self).groups()[i][k]),
    {
        let ghost gs = self.groups();
        let mut old_bursts: Vec<Vec<Particle>> = Vec::new();
        std::mem::swap(&mut self.bursts, &mut old_bursts);
        assert(old_bursts@.map_values(|g: Vec<Particle>| g@) == gs);
        let mut result: Vec<Vec<Particle>> = Vec::new();
        let mut i: usize = 0;
        while i < old_bursts.len()
            invariant
                0 <= i <= old_bursts@.len(),
                old_bursts@.map_values(|g: Vec<Particle>| g@) == gs,
                forall|j: int, k: int|
                    0 <= j < gs.len() && 0 <= k < gs[j].len() ==> (#[trigger] gs[j][k]).wf(),
                result@.map_values(|g: Vec<Particle>| g@) == updated_groups(gs.take(i as int)),
                forall|j: int| 0 <= j < result@.len() ==> (#[trigger] result@[j])@.len() > 0,
                forall|j: int, k: int|
                    0 <= j < result@.len() && 0 <= k < result@[j]@.len()
                        ==> (#[trigger] result@[j]@[k]).wf() && alive(result@[j]@[k]),
            decreases old_bursts@.len() - i,
        {
            assert(gs[i as int] == old_bursts@[i as int]@);
            assert forall|k: int| 0 <= k < old_bursts@[i as int]@.len()
                implies (#[trigger] old_bursts@[i as int]@[k]).wf() by {
                assert(gs[i as int][k] == old_bursts@[i as int]@[k]);
            }
            let ng = step_group(&old_bursts[i]);
            proof {
                assert(gs.take(i as int + 1) =~= gs.take(i as int).push(gs[i as int]));
                lemma_updated_groups_push(gs.take(i as int), gs[i as int]);
            }
            let ghost before = result@;
            if ng.len() > 0 {
                result.push(ng);
                proof {
                    assert(result@.map_values(|g: Vec<Particle>| g@) =~= before.map_values(
                        |g: Vec<Particle>| g@,
                    ).push(result@.last()@));
                    assert forall|j: int, k: int|
                        0 <= j < result@.len() && 0 <= k < result@[j]@.len() implies (
                        #[trigger] result@[j]@[k]).wf() && alive(result@[j]@[k]) by {
                        if j < before.len() {
                            assert(result@[j] == before[j]);
                        }
                    }
                }
            }
            i = i + 1;
        }
        assert(gs.take(gs.len() as int) =~= gs);
        self.bursts = result;
        proof {
            let ng = self.groups();
            assert forall|j: int| 0 <= j < ng.len() implies (#[trigger] ng[j]).len() > 0 by {
                assert(ng[j] == self.bursts@[j]@);
            }
            assert forall|j: int, k: int| 0 <= j < ng.len() && 0 <= k < ng[j].len() implies (
            #[trigger] ng[j][k]).wf() && alive(ng[j][k]) by {
                assert(ng[j] == self.bursts@[j]@);
            }
        }
    }
}

} // verus!
