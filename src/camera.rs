//! Camera state and its per-frame motion: intents set rates, frames turn
//! and move, and a move is taken only when a probe ray meets no wall.
use vstd::prelude::*;
use crate::fixed::{UNIT, floor_div};
use crate::ray::{COORD_LIMIT, Vec2, valid_point, cast_spec, raycast};

verus! {

/// Micro-radians in a full turn.
pub const TURN: i64 = 6283185;

/// Linear rate of a movement intent: two cells per second, fixed-point.
pub const MOVE_RATE: i64 = 131072;

/// Angular rate of a rotation intent: two radians per second, in
/// micro-radians.
pub const TURN_RATE: i64 = 2000000;

/// Microseconds per second; frame times are given in microseconds.
pub const MICROS: i64 = 1000000;

/// Longest frame time accepted, in microseconds.
pub const FRAME_LIMIT: i64 = 10000000;

/// One of the four controls.
#[derive(Clone, Copy, Debug, PartialEq, Eq, Structural)]
pub enum Control {
    RotateLeft,
    RotateRight,
    Forward,
    Backward,
}

/// A discrete input event: a control starts or stops.
#[derive(Clone, Copy, Debug, PartialEq, Eq, Structural)]
pub enum Intent {
    Start(Control),
    Stop(Control),
}

/// Position (fixed-point), heading (micro-radians in `[0, TURN)`), and the
/// linear and angular rates set by intents.
#[derive(Clone, Copy, Debug, PartialEq, Eq, Structural)]
pub struct Camera {
    pub pos: Vec2,
    pub heading: i64,
    pub speed: i64,
    pub rotation_speed: i64,
}

impl Camera {
    pub open spec fn wf(&self) -> bool {
        &&& valid_point(self.pos)
        &&& 0 <= self.heading < TURN
        &&& -MOVE_RATE <= self.speed <= MOVE_RATE
        &&& -TURN_RATE <= self.rotation_speed <= TURN_RATE
    }

    /// A camera at rest at `pos`, facing heading `0`.
    pub fn new(pos: Vec2) -> (r: Camera)
        requires
            valid_point(pos),
        ensures
            r.wf(),
            r == (Camera { pos, heading: 0, speed: 0, rotation_speed: 0 }),
    {
        Camera { pos, heading: 0, speed: 0, rotation_speed: 0 }
    }

    /// Sets the rate that the intent's control governs: a start sets its
    /// nonzero rate, a stop zeroes the rate of its axis.
    pub fn apply_intent(&mut self, intent: Intent)
        requires
            old(self).wf(),
        ensures
            *final(self) == after_intent(*old(self), intent),
            final(self).wf(),
    {
        match intent {
            Intent::Start(Control::RotateLeft) => self.rotation_speed = -TURN_RATE,
            Intent::Start(Control::RotateRight) => self.rotation_speed = TURN_RATE,
            Intent::Stop(Control::RotateLeft) => self.rotation_speed = 0,
            Intent::Stop(Control::RotateRight) => self.rotation_speed = 0,
            Intent::Start(Control::Forward) => self.speed = MOVE_RATE,
            Intent::Start(Control::Backward) => self.speed = -MOVE_RATE,
            Intent::Stop(Control::Forward) => self.speed = 0,
            Intent::Stop(Control::Backward) => self.speed = 0,
        }
    }

    /// Advances the heading by `rotation_speed * dt_us`, kept in `[0, TURN)`.
    pub fn turn(&mut self, dt_us: i64)
        requires
            old(self).wf(),
            0 <= dt_us <= FRAME_LIMIT,
        ensures
            *final(self) == (Camera { heading: turned(old(self).heading as int, old(self).rotation_speed as int, dt_us as int) as i64, ..*old(self) }),
            final(self).wf(),
    {
        assert(-(TURN_RATE * FRAME_LIMIT) <= self.rotation_speed * dt_us <= TURN_RATE * FRAME_LIMIT)
            by (nonlinear_arith)
            requires
                -TURN_RATE <= self.rotation_speed <= TURN_RATE,
                0 <= dt_us <= FRAME_LIMIT,
        ;
        let delta: i64 = floor_div(self.rotation_speed * dt_us, MICROS);
        assert(-4 * TURN <= delta <= 4 * TURN) by (nonlinear_arith)
            requires
                -(TURN_RATE * FRAME_LIMIT) <= self.rotation_speed * dt_us <= TURN_RATE * FRAME_LIMIT,
                delta == (self.rotation_speed * dt_us) / (MICROS as int),
        ;
        self.heading = normalize_heading(self.heading + delta);
    }

    /// Moves along `dir` (the heading's direction, at most one cell long) by
    /// `speed * dt_us`, unless a probe ray cast from the position in the
    /// direction of travel, as far as the move goes, meets a wall, or the
    /// move would leave the coordinate range.
    pub fn advance(&mut self, dir: Vec2, dt_us: i64)
        requires
            old(self).wf(),
            -UNIT <= dir.x <= UNIT,
            -UNIT <= dir.y <= UNIT,
            0 <= dt_us <= FRAME_LIMIT,
        ensures
            *final(self) == advanced(*old(self), dir, dt_us as int),
            final(self).wf(),
    {
        if self.speed == 0 {
            return;
        }
        let rate: i64 = if self.speed > 0 { self.speed } else { -self.speed };
        assert(0 <= rate * dt_us <= MOVE_RATE * FRAME_LIMIT) by (nonlinear_arith)
            requires
                0 <= rate <= MOVE_RATE,
                0 <= dt_us <= FRAME_LIMIT,
        ;
        let reach: i64 = rate * dt_us / MICROS;
        assert(reach <= COORD_LIMIT) by (nonlinear_arith)
            requires
                reach == (rate * dt_us) as int / (MICROS as int),
                0 <= rate * dt_us <= MOVE_RATE * FRAME_LIMIT,
        ;
        let probe = if self.speed > 0 { dir } else { Vec2 { x: -dir.x, y: -dir.y } };
        let hit = raycast(self.pos, probe, reach);
        if hit.tile_type != 0 {
            return;
        }
        let dx: i64 = move_component(dir.x, self.speed, dt_us);
        let dy: i64 = move_component(dir.y, self.speed, dt_us);
        let nx: i64 = self.pos.x + dx;
        let ny: i64 = self.pos.y + dy;
        if -COORD_LIMIT <= nx && nx <= COORD_LIMIT && -COORD_LIMIT <= ny && ny <= COORD_LIMIT {
            self.pos = Vec2 { x: nx, y: ny };
        }
    }
}

/// The camera after an intent.
pub open spec fn after_intent(c: Camera, intent: Intent) -> Camera {
    match intent {
        Intent::Start(Control::RotateLeft) => Camera { rotation_speed: (-TURN_RATE) as i64, ..c },
        Intent::Start(Control::RotateRight) => Camera { rotation_speed: TURN_RATE, ..c },
        Intent::Stop(Control::RotateLeft) => Camera { rotation_speed: 0, ..c },
        Intent::Stop(Control::RotateRight) => Camera { rotation_speed: 0, ..c },
        Intent::Start(Control::Forward) => Camera { speed: MOVE_RATE, ..c },
        Intent::Start(Control::Backward) => Camera { speed: (-MOVE_RATE) as i64, ..c },
        Intent::Stop(Control::Forward) => Camera { speed: 0, ..c },
        Intent::Stop(Control::Backward) => Camera { speed: 0, ..c },
    }
}

/// The heading after one frame: `heading + rate * dt / MICROS` (rounded
/// down), brought into `[0, TURN)`.
pub open spec fn turned(heading: int, rate: int, dt: int) -> int {
    (heading + (rate * dt) / (MICROS as int)) % (TURN as int)
}

/// One coordinate of a frame's displacement: `d * speed * dt` over
/// `UNIT * MICROS`, rounded down.
pub open spec fn move_delta(d: int, speed: int, dt: int) -> int {
    (d * speed * dt) / (UNIT * MICROS)
}

/// How far the probe ray of a move reaches.
pub open spec fn probe_reach(speed: int, dt: int) -> int {
    abs_int(speed) * dt / (MICROS as int)
}

pub open spec fn abs_int(v: int) -> int {
    if v < 0 {
        -v
    } else {
        v
    }
}

/// The direction in which a move's probe ray is cast.
pub open spec fn probe_dir(speed: int, dir: Vec2) -> Vec2 {
    if speed > 0 {
        dir
    } else {
        Vec2 { x: (-dir.x) as i64, y: (-dir.y) as i64 }
    }
}

/// The camera after one frame's move.
pub open spec fn advanced(c: Camera, dir: Vec2, dt: int) -> Camera {
    let nx = c.pos.x + move_delta(dir.x as int, c.speed as int, dt);
    let ny = c.pos.y + move_delta(dir.y as int, c.speed as int, dt);
    if c.speed != 0 && cast_spec(c.pos, probe_dir(c.speed as int, dir), probe_reach(c.speed as int, dt)).tile_type
        == 0 && -COORD_LIMIT <= nx <= COORD_LIMIT && -COORD_LIMIT <= ny <= COORD_LIMIT {
        Camera { pos: Vec2 { x: nx as i64, y: ny as i64 }, ..c }
    } else {
        c
    }
}

fn move_component(d: i64, speed: i64, dt_us: i64) -> (r: i64)
    requires
        -UNIT <= d <= UNIT,
        -MOVE_RATE <= speed <= MOVE_RATE,
        0 <= dt_us <= FRAME_LIMIT,
    ensures
        r == move_delta(d as int, speed as int, dt_us as int),
        -(UNIT * MOVE_RATE * FRAME_LIMIT) <= r <= UNIT * MOVE_RATE * FRAME_LIMIT,
{
    assert(-(UNIT * MOVE_RATE) <= d * speed <= UNIT * MOVE_RATE) by (nonlinear_arith)
        requires
            -UNIT <= d <= UNIT,
            -MOVE_RATE <= speed <= MOVE_RATE,
    ;
    assert(-(UNIT * MOVE_RATE * FRAME_LIMIT) <= d * speed * dt_us <= UNIT * MOVE_RATE * FRAME_LIMIT)
        by (nonlinear_arith)
        requires
            -(UNIT * MOVE_RATE) <= d * speed <= UNIT * MOVE_RATE,
            0 <= dt_us <= FRAME_LIMIT,
    ;
    floor_div(d * speed * dt_us, UNIT * MICROS)
}

/// Brings a heading into `[0, TURN)` by repeatedly adding or subtracting a
/// full turn.
pub fn normalize_heading(h: i64) -> (r: i64)
    ensures
        r == h % TURN,
        0 <= r < TURN,
{
    let mut a: i64 = h;
    while a >= TURN
        invariant
            a % TURN == h % TURN,
        decreases a,
    {
        a = a - TURN;
    }
    while a < 0
        invariant
            a < TURN,
            a % TURN == h % TURN,
        decreases TURN - a,
    {
        a = a + TURN;
    }
    a
}

/// The heading after a run of frames of the given lengths at a fixed
/// turn rate.
pub open spec fn heading_after(heading: int, rate: int, frames: Seq<int>) -> int
    decreases frames.len(),
{
    if frames.len() == 0 {
        heading
    } else {
        heading_after(turned(heading, rate, frames[0]), rate, frames.drop_first())
    }
}

/// However many frames turn the camera, and however far the raw sum of
/// turns runs, the heading stays in `[0, TURN)`.
pub proof fn lemma_heading_stays_in_turn(heading: int, rate: int, frames: Seq<int>)
    requires
        0 <= heading < TURN,
    ensures
        0 <= heading_after(heading, rate, frames) < TURN,
    decreases frames.len(),
{
    if frames.len() > 0 {
        lemma_heading_stays_in_turn(turned(heading, rate, frames[0]), rate, frames.drop_first());
    }
}

/// A forward start followed at once by a forward stop leaves the camera at
/// rest where it was: zero speed, same position, heading and turn rate, and
/// a frame at that speed does not move it.
pub proof fn lemma_start_stop_is_rest(c: Camera, dir: Vec2, dt: int)
    ensures
        ({
            let s = after_intent(after_intent(c, Intent::Start(Control::Forward)), Intent::Stop(Control::Forward));
            &&& s.speed == 0
            &&& s.pos == c.pos
            &&& s.heading == c.heading
            &&& s.rotation_speed == c.rotation_speed
            &&& advanced(s, dir, dt) == s
        }),
{
}

} // verus!
