//! The demo: three triggers and a row of buttons that ask the particle engine for
//! bursts. Lengths are thousandths of a pixel.
use vstd::prelude::*;
use crate::geometry::BurstSource;
use crate::particles::{
    BurstConfig, DrawCommand, Particle, ParticleManager, Shape, add_clamped, clamped_add,
    draw_list, spawned_from, updated_groups,
};
use crate::sampling::RandomSource;
use crate::triggers::{
    DustSquare, ExplosionSquare, TrailCircle, centered_square, dust_step, explosion_step,
    trail_step,
};

verus! {

pub const TRAIL_CIRCLE_X: i64 = 40000;

pub const TRAIL_CIRCLE_Y: i64 = 162000;

pub const EXPLOSION_SQUARE_X: i64 = 144000;

pub const EXPLOSION_SQUARE_Y: i64 = 168000;

pub const DUST_SQUARE_X: i64 = 330000;

pub const DUST_SQUARE_Y: i64 = 168000;

/// The line a dust square lands on.
pub const DUST_TARGET_Y: i64 = 186000;

/// Side of each trigger's square or circle.
pub const TRIGGER_SIZE: u32 = 16000;

/// `v`, held at the limits of `i32`.
pub open spec fn clamp_i32(v: int) -> i32 {
    if v > i32::MAX {
        i32::MAX
    } else if v < i32::MIN {
        i32::MIN
    } else {
        v as i32
    }
}

fn clamp_i32_exec(v: i64) -> (r: i32)
    ensures
        r == clamp_i32(v as int),
{
    if v > i32::MAX as i64 {
        i32::MAX
    } else if v < i32::MIN as i64 {
        i32::MIN
    } else {
        v as i32
    }
}

/// A small rising puff of fading squares from one point.
pub open spec fn trail_config(pos: (i64, i64)) -> BurstConfig {
    BurstConfig {
        source: BurstSource::Point(clamp_i32(pos.0 as int), clamp_i32(pos.1 as int)),
        shape: Shape::Square,
        x_velocity: (-250i32, 250),
        y_velocity: (1000, 2000),
        lifetime: (500, 800),
        color: 0xAA55CCff,
        size: (2, 3),
        count: 10,
        should_fade_out: true,
    }
}

/// A wide, low cloud of fading grey squares along a line just above `pos`.
pub open spec fn dust_config(pos: (i64, i64)) -> BurstConfig {
    BurstConfig {
        source: BurstSource::Rectangle {
            min: (clamp_i32(pos.0 - 2000), clamp_i32(pos.1 - 2000)),
            max: (clamp_i32(pos.0 + 2000), clamp_i32(pos.1 - 2000)),
        },
        shape: Shape::Square,
        x_velocity: (-200i32, 200),
        y_velocity: (0, 100),
        lifetime: (200, 2000),
        color: 0x777777FF,
        size: (1, 3),
        count: 200,
        should_fade_out: true,
    }
}

/// Ten squares flung in every direction from a small disc.
pub open spec fn explosion_config(pos: (i64, i64)) -> BurstConfig {
    BurstConfig {
        source: BurstSource::Circle {
            center: (clamp_i32(pos.0 as int), clamp_i32(pos.1 as int)),
            radius: 1000,
        },
        shape: Shape::Square,
        x_velocity: (-1000i32, 1000),
        y_velocity: (-1000i32, 1000),
        lifetime: (400, 400),
        color: 0xFF6633ff,
        size: (4, 6),
        count: 10,
        should_fade_out: false,
    }
}

/// A hundred circles of one color falling from just above the top of the screen.
pub open spec fn confetti_config(color: u32) -> BurstConfig {
    BurstConfig {
        source: BurstSource::Rectangle { min: (0, -10000i32), max: (384000, 0) },
        shape: Shape::Circle,
        x_velocity: (-500i32, 500),
        y_velocity: (1000, 2000),
        lifetime: (2000, 5000),
        color,
        size: (2, 6),
        count: 100,
        should_fade_out: false,
    }
}

pub fn trail(pos: (i64, i64)) -> (r: BurstConfig)
    ensures
        r == trail_config(pos),
{
    BurstConfig {
        source: BurstSource::Point(clamp_i32_exec(pos.0), clamp_i32_exec(pos.1)),
        shape: Shape::Square,
        x_velocity: (-250i32, 250),
        y_velocity: (1000, 2000),
        lifetime: (500, 800),
        color: 0xAA55CCff,
        size: (2, 3),
        count: 10,
        should_fade_out: true,
    }
}

pub fn dust(pos: (i64, i64)) -> (r: BurstConfig)
    ensures
        r == dust_config(pos),
{
    let x0 = clamp_i32_exec(add_clamped(pos.0, -2000));
    let x1 = clamp_i32_exec(add_clamped(pos.0, 2000));
    let y = clamp_i32_exec(add_clamped(pos.1, -2000));
    BurstConfig {
        source: BurstSource::Rectangle { min: (x0, y), max: (x1, y) },
        shape: Shape::Square,
        x_velocity: (-200i32, 200),
        y_velocity: (0, 100),
        lifetime: (200, 2000),
        color: 0x777777FF,
        size: (1, 3),
        count: 200,
        should_fade_out: true,
    }
}

pub fn explosion(pos: (i64, i64)) -> (r: BurstConfig)
    ensures
        r == explosion_config(pos),
{
    BurstConfig {
        source: BurstSource::Circle {
            center: (clamp_i32_exec(pos.0), clamp_i32_exec(pos.1)),
            radius: 1000,
        },
        shape: Shape::Square,
        x_velocity: (-1000i32, 1000),
        y_velocity: (-1000i32, 1000),
        lifetime: (400, 400),
        color: 0xFF6633ff,
        size: (4, 6),
        count: 10,
        should_fade_out: false,
    }
}

pub fn confetti(color: u32) -> (r: BurstConfig)
    ensures
        r == confetti_config(color),
{
    BurstConfig {
        source: BurstSource::Rectangle { min: (0, -10000i32), max: (384000, 0) },
        shape: Shape::Circle,
        x_velocity: (-500i32, 500),
        y_velocity: (1000, 2000),
        lifetime: (2000, 5000),
        color,
        size: (2, 6),
        count: 100,
        should_fade_out: false,
    }
}

/// How many buttons the demo shows, left to right.
pub const BUTTON_COUNT: usize = 4;

/// The label of the button at `index`.
pub fn button_label(index: usize) -> (r: &'static str)
    ensures
        index == 0 ==> r@ == "Trail"@,
        index == 1 ==> r@ == "Explosion"@,
        index == 2 ==> r@ == "Confetti"@,
        index == 3 ==> r@ == "Dust"@,
        index >= BUTTON_COUNT ==> r@ == ""@,
{
    if index == 0 {
        "Trail"
    } else if index == 1 {
        "Explosion"
    } else if index == 2 {
        "Confetti"
    } else if index == 3 {
        "Dust"
    } else {
        ""
    }
}

/// The regular and hover colors of the button at `index`.
pub open spec fn button_palette(index: usize) -> (u32, u32) {
    if index == 0 {
        (0x8833AAff, 0xAA55CCff)
    } else if index == 1 {
        (0xCC3333ff, 0xFF5555ff)
    } else if index == 2 {
        (0x33CCFFff, 0x66DDFFFF)
    } else {
        (0x3333CCff, 0x5555FFff)
    }
}

/// The regular and hover colors of the button at `index`.
pub fn button_colors(index: usize) -> (r: (u32, u32))
    ensures
        r == button_palette(index),
{
    if index == 0 {
        (0x8833AAff, 0xAA55CCff)
    } else if index == 1 {
        (0xCC3333ff, 0xFF5555ff)
    } else if index == 2 {
        (0x33CCFFff, 0x66DDFFFF)
    } else {
        (0x3333CCff, 0x5555FFff)
    }
}

/// `g` is one burst of `config`: `config.count` particles, each spawned from it.
pub open spec fn is_burst_of(g: Seq<Particle>, config: BurstConfig) -> bool {
    &&& g.len() == config.count
    &&& forall|k: int| 0 <= k < g.len() ==> spawned_from(config, #[trigger] g[k])
}

/// Where a trail circle's burst starts: the center of the circle.
pub open spec fn trail_origin(t: TrailCircle) -> (i64, i64) {
    (clamped_add(t.pos.0, (t.size / 2) as i64), clamped_add(t.pos.1, (t.size / 2) as i64))
}

/// Where a dust square's burst starts: the middle of its bottom edge.
pub open spec fn dust_origin(d: DustSquare) -> (i64, i64) {
    (d.pos.0, clamped_add(d.pos.1, (d.size / 2) as i64))
}

pub open spec fn option_seq(o: Option<DrawCommand>) -> Seq<DrawCommand> {
    match o {
        Some(c) => seq![c],
        None => Seq::empty(),
    }
}

/// The whole demo: the particle engine and its three triggers.
#[derive(Debug)]
pub struct GameState {
    pub particle_manager: ParticleManager,
    pub trail_circle: TrailCircle,
    pub explosion_square: ExplosionSquare,
    pub dust_square: DustSquare,
}

impl GameState {
    pub open spec fn wf(&self) -> bool {
        self.particle_manager.wf()
    }

    pub fn new() -> (r: GameState)
        ensures
            r.wf(),
            r.particle_manager.groups().len() == 0,
            r.trail_circle == (TrailCircle {
                pos: (TRAIL_CIRCLE_X, TRAIL_CIRCLE_Y),
                original_pos: (TRAIL_CIRCLE_X, TRAIL_CIRCLE_Y),
                size: TRIGGER_SIZE,
                color: 0x8833AAff,
                active: false,
                frame_counter: 0,
            }),
            r.explosion_square == (ExplosionSquare {
                pos: (EXPLOSION_SQUARE_X, EXPLOSION_SQUARE_Y),
                size: TRIGGER_SIZE,
                color: 0xcc3333ff,
                visible: true,
                cooldown: 0,
            }),
            r.dust_square == (DustSquare {
                pos: (DUST_SQUARE_X, DUST_SQUARE_Y),
                size: TRIGGER_SIZE,
                color: 0x3333CCff,
                active: true,
                falling: false,
                target_y: DUST_TARGET_Y,
                velocity: 0,
                reset_timer: 0,
                start_y: DUST_SQUARE_Y,
            }),
    {
        GameState {
            particle_manager: ParticleManager::new(),
            trail_circle: TrailCircle::new(TRAIL_CIRCLE_X, TRAIL_CIRCLE_Y, TRIGGER_SIZE, 0x8833AAff),
            explosion_square: ExplosionSquare::new(
                EXPLOSION_SQUARE_X,
                EXPLOSION_SQUARE_Y,
                TRIGGER_SIZE,
                0xcc3333ff,
            ),
            dust_square: DustSquare::new(
                DUST_SQUARE_X,
                DUST_SQUARE_Y,
                TRIGGER_SIZE,
                0x3333CCff,
                DUST_TARGET_Y,
            ),
        }
    }

    /// Acts on a press of the button at `index`: the trail circle starts rising
    /// unless it already is; the explosion square fires a burst when it shows;
    /// three bursts of confetti fall; the dust square starts to drop.
    pub fn press_button<R: RandomSource>(&mut self, index: usize, rng: &mut R)
        requires
            old(self).wf(),
        ensures
            final(self).wf(),
            final(self).trail_circle == if index == 0 && !old(self).trail_circle.active {
                TrailCircle {
                    pos: (TRAIL_CIRCLE_X, TRAIL_CIRCLE_Y),
                    original_pos: (TRAIL_CIRCLE_X, TRAIL_CIRCLE_Y),
                    active: true,
                    frame_counter: 0,
                    ..old(self).trail_circle
                }
            } else {
                old(self).trail_circle
            },
            final(self).explosion_square == if index == 1 && old(self).explosion_square.visible {
                ExplosionSquare { visible: false, cooldown: 60, ..old(self).explosion_square }
            } else {
                old(self).explosion_square
            },
            final(self).dust_square == if index == 3 && old(self).dust_square.active
                && !old(self).dust_square.falling {
                DustSquare { falling: true, velocity: 500, ..old(self).dust_square }
            } else {
                old(self).dust_square
            },
            ({
                let n = old(self).particle_manager.groups().len();
                let g = final(self).particle_manager.groups();
                &&& g.take(n as int) == old(self).particle_manager.groups()
                &&& g.len() == n + if index == 1 && old(self).explosion_square.visible {
                    1int
                } else if index == 2 {
                    3int
                } else {
                    0int
                }
                &&& index == 1 && old(self).explosion_square.visible ==> is_burst_of(
                    g[n as int],
                    explosion_config(old(self).explosion_square.pos),
                )
                &&& index == 2 ==> is_burst_of(g[n as int], confetti_config(0x33CCFFff))
                    && is_burst_of(g[n + 1int], confetti_config(0xAA55CCff)) && is_burst_of(
                    g[n + 2int],
                    confetti_config(0x5555FFff),
                )
            }),
    {
        let ghost old_groups = self.particle_manager.groups();
        let ghost n = old_groups.len();
        if index == 0 {
            if !self.trail_circle.active {
                self.trail_circle.activate(TRAIL_CIRCLE_X, TRAIL_CIRCLE_Y);
            }
        } else if index == 1 {
            if self.explosion_square.trigger() {
                let config = explosion(self.explosion_square.pos);
                self.particle_manager.create_burst(&config, rng);
                assert(self.particle_manager.groups().take(n as int) =~= old_groups);
            }
        } else if index == 2 {
            let c0 = confetti(0x33CCFFff);
            self.particle_manager.create_burst(&c0, rng);
            let ghost g1 = self.particle_manager.groups();
            let c1 = confetti(0xAA55CCff);
            self.particle_manager.create_burst(&c1, rng);
            let ghost g2 = self.particle_manager.groups();
            let c2 = confetti(0x5555FFff);
            self.particle_manager.create_burst(&c2, rng);
            let ghost g3 = self.particle_manager.groups();
            assert(g2 == g3.drop_last());
            assert(g1 == g2.drop_last());
            assert(g3[n as int] == g1[n as int]);
            assert(g3[n + 1int] == g2[n + 1int]);
            assert(g3.take(n as int) =~= old_groups);
        } else if index == 3 {
            self.dust_square.trigger();
        }
    }

    /// Runs one frame after the buttons: the triggers advance and are drawn, each
    /// burst they ask for is created, then the particles advance and are drawn.
    /// Returns the frame's draw commands in order.
    pub fn advance<R: RandomSource>(&mut self, rng: &mut R) -> (r: Vec<DrawCommand>)
        requires
            old(self).wf(),
        ensures
            final(self).wf(),
            final(self).trail_circle == trail_step(old(self).trail_circle).0,
            final(self).explosion_square == explosion_step(old(self).explosion_square),
            final(self).dust_square == dust_step(old(self).dust_square).0,
            exists|mid: Seq<Seq<Particle>>|
                {
                    let n = old(self).particle_manager.groups().len();
                    let emit = trail_step(old(self).trail_circle).1;
                    let landed = dust_step(old(self).dust_square).1;
                    &&& mid.take(n as int) == old(self).particle_manager.groups()
                    &&& mid.len() == n + (if emit { 1int } else { 0int }) + (if landed {
                        1int
                    } else {
                        0int
                    })
                    &&& emit ==> is_burst_of(
                        mid[n as int],
                        trail_config(trail_origin(final(self).trail_circle)),
                    )
                    &&& landed ==> is_burst_of(
                        mid[mid.len() - 1],
                        dust_config(dust_origin(final(self).dust_square)),
                    )
                    &&& final(self).particle_manager.groups() == #[trigger] updated_groups(mid)
                },
            r@ == seq![
                DrawCommand::Circle {
                    x: final(self).trail_circle.pos.0,
                    y: final(self).trail_circle.pos.1,
                    d: final(self).trail_circle.size as i64,
                    color: final(self).trail_circle.color,
                },
            ] + option_seq(
                if final(self).explosion_square.visible {
                    Some(
                        centered_square(
                            final(self).explosion_square.pos,
                            final(self).explosion_square.size,
                            final(self).explosion_square.color,
                        ),
                    )
                } else {
                    None
                },
            ) + option_seq(
                if final(self).dust_square.active {
                    Some(
                        centered_square(
                            final(self).dust_square.pos,
                            final(self).dust_square.size,
                            final(self).dust_square.color,
                        ),
                    )
                } else {
                    None
                },
            ) + draw_list(final(self).particle_manager.groups()),
    {
        let ghost old_groups = self.particle_manager.groups();
        let ghost n = old_groups.len();
        let make_trail = if self.trail_circle.active {
            self.trail_circle.update()
        } else {
            false
        };
        let mut cmds: Vec<DrawCommand> = Vec::new();
        cmds.push(self.trail_circle.draw());
        if make_trail {
            let half = (self.trail_circle.size / 2) as i64;
            let origin = (
                add_clamped(self.trail_circle.pos.0, half),
                add_clamped(self.trail_circle.pos.1, half),
            );
            let config = trail(origin);
            self.particle_manager.create_burst(&config, rng);
        }
        let ghost after_trail = self.particle_manager.groups();
        self.explosion_square.update();
        let ghost cmds_before_explosion = cmds@;
        match self.explosion_square.draw() {
            Some(c) => cmds.push(c),
            None => {},
        }
        let ghost cmds_before_dust = cmds@;
        let landed = self.dust_square.update();
        if landed {
            let half = (self.dust_square.size / 2) as i64;
            let origin = (self.dust_square.pos.0, add_clamped(self.dust_square.pos.1, half));
            let config = dust(origin);
            self.particle_manager.create_burst(&config, rng);
        }
        match self.dust_square.draw() {
            Some(c) => cmds.push(c),
            None => {},
        }
        let ghost mid = self.particle_manager.groups();
        proof {
            if make_trail {
                assert(after_trail.drop_last() == old_groups);
            } else {
                assert(after_trail == old_groups);
            }
            if landed {
                assert(mid.drop_last() == after_trail);
            } else {
                assert(mid == after_trail);
            }
            assert(mid.take(n as int) =~= old_groups);
            if make_trail {
                assert(mid[n as int] == after_trail[n as int]);
            }
        }
        self.particle_manager.update();
        let ghost before_particles = cmds@;
        let mut particles = self.particle_manager.draw();
        cmds.append(&mut particles);
        assert(cmds@ =~= before_particles + draw_list(self.particle_manager.groups()));
        cmds
    }
}

} // verus!
