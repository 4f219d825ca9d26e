//! The small state machines that decide when a burst is asked for, and the
//! on-screen button. Lengths are thousandths of a pixel.
use vstd::prelude::*;
use crate::particles::{DrawCommand, add_clamped, clamped_add};

verus! {

/// Frames an explosion square stays hidden after it fires.
pub const EXPLOSION_COOLDOWN: u32 = 60;

/// Speed a dust square starts falling with, per frame.
pub const DROP_VELOCITY: i64 = 500;

/// Speed a falling dust square gains each frame.
pub const GRAVITY: i64 = 100;

/// Frames a dust square rests on the ground before it goes back up.
pub const DUST_RESET_FRAMES: u32 = 120;

/// Distance a trail circle rises each frame.
pub const RISE_PER_FRAME: i64 = 2000;

/// Height above which a rising trail circle is off screen.
pub const OFF_SCREEN_Y: i64 = -20000;

/// A trail circle asks for a burst once in this many frames.
pub const TRAIL_PERIOD: u32 = 5;

/// `c - size / 2`: the low edge of a span of `size` centered on `c`.
pub open spec fn low_edge(c: i64, size: u32) -> i64 {
    clamped_add(c, (-((size / 2) as int)) as i64)
}

/// `c + size / 2`: the high edge of a span of `size` centered on `c`.
pub open spec fn high_edge(c: i64, size: u32) -> i64 {
    clamped_add(c, (size / 2) as i64)
}

fn low_edge_exec(c: i64, size: u32) -> (r: i64)
    ensures
        r == low_edge(c, size),
{
    add_clamped(c, -((size / 2) as i64))
}

/// The square of `size` centered on `pos`.
pub open spec fn centered_square(pos: (i64, i64), size: u32, color: u32) -> DrawCommand {
    DrawCommand::Rect {
        x: low_edge(pos.0, size),
        y: low_edge(pos.1, size),
        w: size as i64,
        h: size as i64,
        color,
    }
}

fn centered_square_exec(pos: (i64, i64), size: u32, color: u32) -> (r: DrawCommand)
    ensures
        r == centered_square(pos, size, color),
{
    DrawCommand::Rect {
        x: low_edge_exec(pos.0, size),
        y: low_edge_exec(pos.1, size),
        w: size as i64,
        h: size as i64,
        color,
    }
}

/// A square that explodes when triggered, then stays hidden for a cooldown.
#[derive(Debug)]
pub struct ExplosionSquare {
    pub pos: (i64, i64),
    pub size: u32,
    pub color: u32,
    pub visible: bool,
    pub cooldown: u32,
}

/// One frame of an explosion square: a hidden square counts its cooldown down and
/// shows again when the count ends.
pub open spec fn explosion_step(s: ExplosionSquare) -> ExplosionSquare {
    if !s.visible && s.cooldown > 0 {
        ExplosionSquare { cooldown: (s.cooldown - 1) as u32, visible: s.cooldown == 1, ..s }
    } else {
        s
    }
}

impl ExplosionSquare {
    pub fn new(x: i64, y: i64, size: u32, color: u32) -> (r: ExplosionSquare)
        ensures
            r == (ExplosionSquare { pos: (x, y), size, color, visible: true, cooldown: 0 }),
    {
        ExplosionSquare { pos: (x, y), size, color, visible: true, cooldown: 0 }
    }

    /// Counts a hidden square's cooldown down; it shows again when the count ends.
    pub fn update(&mut self)
        ensures
            *final(self) == explosion_step(*old(self)),
    {
        if !self.visible && self.cooldown > 0 {
            self.cooldown = self.cooldown - 1;
            if self.cooldown == 0 {
                self.visible = true;
            }
        }
    }

    /// Fires when the square is showing: hides it and starts the cooldown. Reports
    /// whether it fired.
    pub fn trigger(&mut self) -> (fired: bool)
        ensures
            fired == old(self).visible,
            *final(self) == if old(self).visible {
                ExplosionSquare { visible: false, cooldown: EXPLOSION_COOLDOWN, ..*old(self) }
            } else {
                *old(self)
            },
    {
        if self.visible {
            self.visible = false;
            self.cooldown = EXPLOSION_COOLDOWN;
            return true;
        }
        false
    }

    /// The square centered on its position, while it shows.
    pub fn draw(&self) -> (r: Option<DrawCommand>)
        ensures
            r == if self.visible {
                Some(centered_square(self.pos, self.size, self.color))
            } else {
                None
            },
    {
        if self.visible {
            Some(centered_square_exec(self.pos, self.size, self.color))
        } else {
            None
        }
    }
}

/// A square that falls under gravity when triggered, reports the frame it lands on
/// its target line, rests there, and then goes back to where it started.
#[derive(Debug)]
pub struct DustSquare {
    pub pos: (i64, i64),
    pub size: u32,
    pub color: u32,
    pub active: bool,
    pub falling: bool,
    pub target_y: i64,
    pub velocity: i64,
    pub reset_timer: u32,
    pub start_y: i64,
}

/// The square put back where it started, at rest.
pub open spec fn dust_reset(s: DustSquare) -> DustSquare {
    DustSquare { pos: (s.pos.0, s.start_y), active: true, falling: false, velocity: 0, ..s }
}

/// One frame of a dust square: the new state, and whether it landed in this frame.
pub open spec fn dust_step(s: DustSquare) -> (DustSquare, bool) {
    if s.reset_timer > 0 {
        if s.reset_timer == 1 {
            (dust_reset(DustSquare { reset_timer: 0, ..s }), false)
        } else {
            (DustSquare { reset_timer: (s.reset_timer - 1) as u32, ..s }, false)
        }
    } else if !s.active || !s.falling {
        (s, false)
    } else {
        let v = clamped_add(s.velocity, GRAVITY);
        let y = clamped_add(s.pos.1, v);
        if high_edge(y, s.size) >= s.target_y {
            (
                DustSquare {
                    pos: (s.pos.0, low_edge(s.target_y, s.size)),
                    velocity: v,
                    falling: false,
                    reset_timer: DUST_RESET_FRAMES,
                    ..s
                },
                true,
            )
        } else {
            (DustSquare { pos: (s.pos.0, y), velocity: v, ..s }, false)
        }
    }
}

/// A falling square gains `GRAVITY` in speed and moves by its new speed each frame.
/// On the first frame its bottom edge reaches the target line it is placed exactly
/// on that line, stops falling and reports the landing; on every other frame it
/// keeps falling and reports nothing. (The sums involved stay within `i64`.)
pub proof fn lemma_dust_fall(s: DustSquare)
    requires
        s.reset_timer == 0,
        s.active,
        s.falling,
        s.velocity + GRAVITY <= i64::MAX,
        i64::MIN <= s.pos.1 + s.velocity + GRAVITY <= i64::MAX,
        s.pos.1 + s.velocity + GRAVITY + s.size / 2 <= i64::MAX,
        s.target_y - s.size / 2 >= i64::MIN,
    ensures
        ({
            let (t, landed) = dust_step(s);
            let v = s.velocity + GRAVITY;
            let y = s.pos.1 + v;
            &&& landed == (y + s.size / 2 >= s.target_y)
            &&& t.velocity == v
            &&& t.pos.0 == s.pos.0
            &&& landed ==> t.pos.1 + s.size / 2 == s.target_y && !t.falling && t.reset_timer
                == DUST_RESET_FRAMES
            &&& !landed ==> t.pos.1 == y && t.falling && t.reset_timer == 0
        }),
{
}

/// A square that is not falling reports no landing and does not start to fall by
/// itself: after it lands, it reports nothing until it is triggered again.
pub proof fn lemma_dust_lands_once(s: DustSquare)
    requires
        !s.falling,
    ensures
        !dust_step(s).1,
        !dust_step(s).0.falling,
{
}

impl DustSquare {
    pub fn new(x: i64, y: i64, size: u32, color: u32, target_y: i64) -> (r: DustSquare)
        ensures
            r == (DustSquare {
                pos: (x, y),
                size,
                color,
                active: true,
                falling: false,
                target_y,
                velocity: 0,
                reset_timer: 0,
                start_y: y,
            }),
    {
        DustSquare {
            pos: (x, y),
            size,
            color,
            active: true,
            falling: false,
            target_y,
            velocity: 0,
            reset_timer: 0,
            start_y: y,
        }
    }

    /// Advances one frame. While resting it counts down and then resets; while
    /// falling it gains speed and moves, and on the first frame its bottom edge
    /// reaches the target line it is placed exactly on that line and reports `true`.
    pub fn update(&mut self) -> (landed: bool)
        ensures
            (*final(self), landed) == dust_step(*old(self)),
    {
        if self.reset_timer > 0 {
            self.reset_timer = self.reset_timer - 1;
            if self.reset_timer == 0 {
                self.reset();
            }
            return false;
        }
        if !self.active || !self.falling {
            return false;
        }
        self.velocity = add_clamped(self.velocity, GRAVITY);
        let y = add_clamped(self.pos.1, self.velocity);
        let bottom = add_clamped(y, (self.size / 2) as i64);
        if bottom >= self.target_y {
            self.pos = (self.pos.0, low_edge_exec(self.target_y, self.size));
            self.falling = false;
            self.reset_timer = DUST_RESET_FRAMES;
            return true;
        }
        self.pos = (self.pos.0, y);
        false
    }

    /// Starts a fall when the square is up and at rest.
    pub fn trigger(&mut self)
        ensures
            *final(self) == if old(self).active && !old(self).falling {
                DustSquare { falling: true, velocity: DROP_VELOCITY, ..*old(self) }
            } else {
                *old(self)
            },
    {
        if self.active && !self.falling {
            self.falling = true;
            self.velocity = DROP_VELOCITY;
        }
    }

    /// Puts the square back where it started, at rest.
    pub fn reset(&mut self)
        ensures
            *final(self) == dust_reset(*old(self)),
    {
        self.pos = (self.pos.0, self.start_y);
        self.active = true;
        self.falling = false;
        self.velocity = 0;
    }

    /// The square centered on its position, while it is up.
    pub fn draw(&self) -> (r: Option<DrawCommand>)
        ensures
            r == if self.active {
                Some(centered_square(self.pos, self.size, self.color))
            } else {
                None
            },
    {
        if self.active {
            Some(centered_square_exec(self.pos, self.size, self.color))
        } else {
            None
        }
    }
}

/// A circle that rises once activated and asks for a trail burst every few frames
/// until it leaves the screen.
#[derive(Debug)]
pub struct TrailCircle {
    pub pos: (i64, i64),
    pub original_pos: (i64, i64),
    pub size: u32,
    pub color: u32,
    pub active: bool,
    pub frame_counter: u32,
}

/// The circle back where it was activated, at rest.
pub open spec fn trail_reset(s: TrailCircle) -> TrailCircle {
    TrailCircle { active: false, frame_counter: 0, pos: s.original_pos, ..s }
}

/// One frame of a trail circle: the new state, and whether it asks for a burst.
pub open spec fn trail_step(s: TrailCircle) -> (TrailCircle, bool) {
    if !s.active {
        (s, false)
    } else {
        let y = clamped_add(s.pos.1, (-RISE_PER_FRAME) as i64);
        let n = if s.frame_counter == u32::MAX { 0 } else { (s.frame_counter + 1) as u32 };
        if y < OFF_SCREEN_Y {
            (trail_reset(s), false)
        } else {
            (TrailCircle { pos: (s.pos.0, y), frame_counter: n, ..s }, n % TRAIL_PERIOD == 0)
        }
    }
}

impl TrailCircle {
    pub fn new(x: i64, y: i64, size: u32, color: u32) -> (r: TrailCircle)
        ensures
            r == (TrailCircle {
                pos: (x, y),
                original_pos: (x, y),
                size,
                color,
                active: false,
                frame_counter: 0,
            }),
    {
        TrailCircle { pos: (x, y), original_pos: (x, y), size, color, active: false, frame_counter: 0 }
    }

    /// Advances one frame: an active circle rises, resets once off screen, and
    /// otherwise asks for a burst on every fifth frame it counts.
    pub fn update(&mut self) -> (emit: bool)
        ensures
            (*final(self), emit) == trail_step(*old(self)),
    {
        if !self.active {
            return false;
        }
        self.pos = (self.pos.0, add_clamped(self.pos.1, -RISE_PER_FRAME));
        self.frame_counter = if self.frame_counter == u32::MAX {
            0
        } else {
            self.frame_counter + 1
        };
        if self.pos.1 < OFF_SCREEN_Y {
            self.reset();
            return false;
        }
        self.frame_counter % TRAIL_PERIOD == 0
    }

    /// Puts the circle back where it was activated, at rest.
    pub fn reset(&mut self)
        ensures
            *final(self) == trail_reset(*old(self)),
    {
        self.active = false;
        self.frame_counter = 0;
        self.pos = self.original_pos;
    }

    /// Starts the circle rising from `(start_x, start_y)`.
    pub fn activate(&mut self, start_x: i64, start_y: i64)
        ensures
            *final(self) == (TrailCircle {
                pos: (start_x, start_y),
                original_pos: (start_x, start_y),
                active: true,
                frame_counter: 0,
                ..*old(self)
            }),
    {
        self.pos = (start_x, start_y);
        self.original_pos = (start_x, start_y);
        self.active = true;
        self.frame_counter = 0;
    }

    /// The circle, placed by its position.
    pub fn draw(&self) -> (r: DrawCommand)
        ensures
            r == (DrawCommand::Circle {
                x: self.pos.0,
                y: self.pos.1,
                d: self.size as i64,
                color: self.color,
            }),
    {
        DrawCommand::Circle { x: self.pos.0, y: self.pos.1, d: self.size as i64, color: self.color }
    }
}

} // verus!
