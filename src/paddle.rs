use vstd::prelude::*;

use vstd::arithmetic::div_mod::{lemma_mod_bound, lemma_mod_multiples_vanish};

use crate::ammo::PaddleAmmo;
use crate::random::random_in;
use crate::timer::{CooldownTag, Cooldowns};

verus! {

/// A full turn, in millidegrees.
pub const FULL_TURN: i64 = 360_000;

/// Largest magnitude of an angle or accumulated rotation, in millidegrees.
pub const ANGLE_MAX: i64 = 1_000_000_000_000;

/// Shortest time, in milliseconds, in which the paddle may turn a full revolution.
pub const REVOLUTION_MIN_MS: u64 = 450;

/// Clockwise rotation since the last reset that recalls the ball.
pub const RECALL_ROTATION: i64 = 720_000;

/// Counter-clockwise rotation since the last reset that refills the ammunition.
pub const REFILL_ROTATION: i64 = 360_000;

/// Angular speed, in millidegrees per second, below which the paddle counts as idle
/// (3 radians per second).
pub const IDLE_RATE: u64 = 171_887;

/// How long, in milliseconds, the paddle may stay idle before its sweep is forgotten.
pub const IDLE_TIMEOUT_MS: u64 = 50;

/// How long, in milliseconds, the paddle mode cannot be toggled again.
pub const MODE_COOLDOWN_MS: u64 = 150;

/// The angle `a` brought into `(-180, 180]` degrees.
pub open spec fn wrap(a: int) -> int {
    let m = a % (FULL_TURN as int);
    if m > 180_000 {
        m - FULL_TURN
    } else {
        m
    }
}

pub open spec fn angle_ok(a: int) -> bool {
    -ANGLE_MAX <= a <= ANGLE_MAX
}

/// The angle `a` brought into `(-180, 180]` degrees.
pub fn wrap_angle(a: i64) -> (r: i64)
    requires
        angle_ok(a as int),
    ensures
        r == wrap(a as int),
        -180_000 < r <= 180_000,
{
    let shifted: i64 = a + FULL_TURN * 10_000_000;
    let m = shifted % FULL_TURN;
    proof {
        lemma_mod_multiples_vanish(10_000_000, a as int, FULL_TURN as int);
        lemma_mod_bound(a as int, FULL_TURN as int);
    }
    if m > 180_000 {
        m - FULL_TURN
    } else {
        m
    }
}

/// One step of the paddle's turn toward the aim: it turns the short way toward `target`
/// by at most a full turn per `REVOLUTION_MIN_MS`, never snapping further.
pub open spec fn turned_toward(current: int, target: int, dt_ms: int) -> int {
    let max_delta = dt_ms * FULL_TURN / (REVOLUTION_MIN_MS as int);
    let delta = wrap(target - current);
    let step = if delta > max_delta {
        max_delta
    } else if delta < -max_delta {
        -max_delta
    } else {
        delta
    };
    wrap(current + step)
}

/// Turns the paddle heading `current` toward the aim heading `target` over `dt_ms`.
pub fn rotate_toward(current: i64, target: i64, dt_ms: u64) -> (r: i64)
    requires
        -180_000 <= current <= 180_000,
        -180_000 <= target <= 180_000,
        dt_ms <= 1_000_000,
    ensures
        r == turned_toward(current as int, target as int, dt_ms as int),
        -180_000 < r <= 180_000,
{
    let max_delta: i64 = (dt_ms as i64) * FULL_TURN / (REVOLUTION_MIN_MS as i64);
    let delta = wrap_angle(target - current);
    let step = if delta > max_delta {
        max_delta
    } else if delta < -max_delta {
        -max_delta
    } else {
        delta
    };
    wrap_angle(current + step)
}

/// Rotation accumulated across turns, free of wrap-around: each observed heading adds
/// the short signed turn from the one observed before.
#[derive(Clone, Copy, Debug)]
pub struct AccumulatedRotation {
    pub prev: Option<i64>,
    pub total: i64,
}

impl AccumulatedRotation {
    pub fn new() -> (r: AccumulatedRotation)
        ensures
            r.prev.is_none(),
            r.total == 0,
    {
        AccumulatedRotation { prev: None, total: 0 }
    }

    /// Records the heading `rot` (in `(-180, 180]` degrees).
    pub fn observe(&mut self, rot: i64)
        requires
            -180_000 <= rot <= 180_000,
            -ANGLE_MAX + 180_000 <= old(self).total <= ANGLE_MAX - 180_000,
            old(self).prev matches Some(p) ==> -180_000 <= p <= 180_000,
        ensures
            final(self).prev == Some(rot),
            final(self).total == match old(self).prev {
                Some(p) => old(self).total + wrap(rot - p),
                None => old(self).total as int,
            },
    {
        if let Some(p) = self.prev {
            self.total = self.total + wrap_angle(rot - p);
        }
        self.prev = Some(rot);
    }
}

/// An effect of the paddle's sweeps.
#[derive(Clone, Copy, Debug, PartialEq, Eq, Structural)]
pub enum CycleEffect {
    Nothing,
    /// Two full clockwise turns: a fresh ball is captured by the paddle.
    RecallBall,
    /// A full counter-clockwise turn: the ammunition is refilled.
    RefillAmmo,
}

/// Tracks the paddle's current clockwise and counter-clockwise sweeps.
#[derive(Clone, Copy, Debug, PartialEq, Eq, Structural)]
pub struct PaddleRotation {
    /// Highest accumulated rotation since the last reset: where a clockwise sweep began.
    pub cw_start: i64,
    /// Lowest accumulated rotation since the last reset: where a counter-clockwise sweep began.
    pub ccw_start: i64,
    /// Time the paddle has been idle.
    pub idle_ms: u64,
    /// Accumulated rotation at the previous step.
    pub prev_rot: i64,
}

/// The tracker restarted at `rot`.
pub open spec fn reset_at(rot: i64) -> PaddleRotation {
    PaddleRotation { cw_start: rot, ccw_start: rot, idle_ms: 0, prev_rot: rot }
}

/// The paddle turned slower than `IDLE_RATE` between two steps.
pub open spec fn is_idle(prev: int, total: int, dt_ms: int) -> bool {
    abs_int(prev - total) * 1000 < (IDLE_RATE as int) * dt_ms
}

pub open spec fn abs_int(a: int) -> int {
    if a < 0 {
        -a
    } else {
        a
    }
}

/// One step of the sweep tracker at accumulated rotation `total`, `dt_ms` after the last.
pub open spec fn cycle_step(s: PaddleRotation, total: i64, dt_ms: u64) -> (PaddleRotation, CycleEffect) {
    let (s1, effect) = if total - s.cw_start <= -RECALL_ROTATION {
        (reset_at(total), CycleEffect::RecallBall)
    } else if total - s.ccw_start >= REFILL_ROTATION {
        (reset_at(total), CycleEffect::RefillAmmo)
    } else if total > s.cw_start {
        (PaddleRotation { cw_start: total, ..s }, CycleEffect::Nothing)
    } else if total < s.ccw_start {
        (PaddleRotation { ccw_start: total, ..s }, CycleEffect::Nothing)
    } else {
        (s, CycleEffect::Nothing)
    };
    let s2 = if is_idle(s1.prev_rot as int, total as int, dt_ms as int) {
        if s1.idle_ms + dt_ms >= IDLE_TIMEOUT_MS {
            reset_at(total)
        } else {
            PaddleRotation { idle_ms: (s1.idle_ms + dt_ms) as u64, ..s1 }
        }
    } else {
        PaddleRotation { idle_ms: 0, ..s1 }
    };
    (PaddleRotation { prev_rot: total, ..s2 }, effect)
}

impl PaddleRotation {
    pub open spec fn wf(&self) -> bool {
        &&& angle_ok(self.cw_start as int)
        &&& angle_ok(self.ccw_start as int)
        &&& angle_ok(self.prev_rot as int)
        &&& self.idle_ms < IDLE_TIMEOUT_MS
    }

    pub fn new() -> (r: PaddleRotation)
        ensures
            r == reset_at(0),
            r.wf(),
    {
        PaddleRotation { cw_start: 0, ccw_start: 0, idle_ms: 0, prev_rot: 0 }
    }

    /// Forgets the current sweeps; they begin again at `rotation`.
    pub fn reset(&mut self, rotation: i64)
        ensures
            *final(self) == reset_at(rotation),
    {
        self.cw_start = rotation;
        self.ccw_start = rotation;
        self.prev_rot = rotation;
        self.idle_ms = 0;
    }

    /// Compares the accumulated rotation `total` with the sweeps' starts: two full
    /// clockwise turns recall the ball, one full counter-clockwise turn refills the
    /// ammunition, and either restarts the tracking. A paddle idle for
    /// `IDLE_TIMEOUT_MS` has its sweeps forgotten without effect.
    pub fn apply_cycle(&mut self, total: i64, dt_ms: u64) -> (r: CycleEffect)
        requires
            old(self).wf(),
            angle_ok(total as int),
            dt_ms <= 1_000_000,
        ensures
            final(self).wf(),
            (*final(self), r) == cycle_step(*old(self), total, dt_ms),
    {
        let effect = if total - self.cw_start <= -RECALL_ROTATION {
            self.reset(total);
            CycleEffect::RecallBall
        } else if total - self.ccw_start >= REFILL_ROTATION {
            self.reset(total);
            CycleEffect::RefillAmmo
        } else {
            if total > self.cw_start {
                self.cw_start = total;
            } else if total < self.ccw_start {
                self.ccw_start = total;
            }
            CycleEffect::Nothing
        };
        let diff: i64 = if self.prev_rot >= total {
            self.prev_rot - total
        } else {
            total - self.prev_rot
        };
        assert(diff <= 2 * ANGLE_MAX);
        assert((IDLE_RATE as u128) * (dt_ms as u128) <= 171_887 * 1_000_000) by (nonlinear_arith)
            requires dt_ms <= 1_000_000;
        if (diff as u128) * 1000 < (IDLE_RATE as u128) * (dt_ms as u128) {
            if self.idle_ms + dt_ms >= IDLE_TIMEOUT_MS {
                self.reset(total);
            } else {
                self.idle_ms = self.idle_ms + dt_ms;
            }
        } else {
            self.idle_ms = 0;
        }
        self.prev_rot = total;
        effect
    }
}

/// The paddle's interaction mode.
#[derive(Clone, Copy, Debug, PartialEq, Eq, Structural)]
pub enum PaddleMode {
    Reflect,
    Capture,
    /// Holding a ball, to be launched at `shoot_rotation` (millidegrees) from the paddle's
    /// inward direction.
    Captured { shoot_rotation: i64, ball: u64 },
}

/// A captured ball set free.
#[derive(Clone, Copy, Debug, PartialEq, Eq, Structural)]
pub struct Launch {
    pub ball: u64,
    /// Heading of the launch, in millidegrees.
    pub heading: i64,
}

/// The inward direction of a paddle at `paddle_heading`, turned by `shoot_rotation`.
pub open spec fn launch_heading(paddle_heading: int, shoot_rotation: int) -> int {
    wrap(paddle_heading + 180_000 + shoot_rotation)
}

/// The paddle is holding a ball.
pub open spec fn holds_ball(m: PaddleMode) -> bool {
    m matches PaddleMode::Captured { .. }
}

pub open spec fn toggled(m: PaddleMode) -> PaddleMode {
    match m {
        PaddleMode::Reflect => PaddleMode::Capture,
        PaddleMode::Capture => PaddleMode::Reflect,
        PaddleMode::Captured { .. } => PaddleMode::Reflect,
    }
}

impl PaddleMode {
    /// Advances the mode: Reflect and Capture swap; a captured ball is launched and the
    /// paddle returns to Reflect.
    pub fn toggle(&mut self, paddle_heading: i64) -> (r: Option<Launch>)
        requires
            -180_000 <= paddle_heading <= 180_000,
            *old(self) matches PaddleMode::Captured { shoot_rotation, .. } ==> -180_000
                <= shoot_rotation <= 180_000,
        ensures
            *final(self) == toggled(*old(self)),
            match *old(self) {
                PaddleMode::Captured { shoot_rotation, ball } => r == Some(
                    Launch {
                        ball,
                        heading: launch_heading(paddle_heading as int, shoot_rotation as int) as i64,
                    },
                ),
                _ => r.is_none(),
            },
    {
        match *self {
            PaddleMode::Reflect => {
                *self = PaddleMode::Capture;
                None
            },
            PaddleMode::Capture => {
                *self = PaddleMode::Reflect;
                None
            },
            PaddleMode::Captured { shoot_rotation, ball } => {
                *self = PaddleMode::Reflect;
                let heading = wrap_angle(paddle_heading + 180_000 + shoot_rotation);
                Some(Launch { ball, heading })
            },
        }
    }

    pub fn is_captured(&self) -> (r: bool)
        ensures
            r == holds_ball(*self),
    {
        match self {
            PaddleMode::Captured { .. } => true,
            _ => false,
        }
    }
}

/// Runs the sweep tracker over `steps` (accumulated rotation, milliseconds since the
/// previous step); gives the final tracker and how many refills and recalls fired.
pub open spec fn run_cycle(s: PaddleRotation, steps: Seq<(i64, u64)>) -> (PaddleRotation, int, int)
    decreases steps.len(),
{
    if steps.len() == 0 {
        (s, 0, 0)
    } else {
        let (s1, e) = cycle_step(s, steps[0].0, steps[0].1);
        let (sf, refills, recalls) = run_cycle(s1, steps.drop_first());
        (
            sf,
            refills + if e == CycleEffect::RefillAmmo {
                1int
            } else {
                0
            },
            recalls + if e == CycleEffect::RecallBall {
                1int
            } else {
                0
            },
        )
    }
}

/// `steps` continue a steady counter-clockwise sweep that began at `from` and stands at
/// `at`: each step turns further (never idle) and the last reaches exactly one full
/// turn past `from`.
pub open spec fn sweep_rest(from: int, at: int, steps: Seq<(i64, u64)>) -> bool {
    &&& steps.len() > 0
    &&& steps.last().0 == from + REFILL_ROTATION
    &&& forall|i: int| 0 <= i < steps.len() - 1 ==> #[trigger] steps[i].0 < from + REFILL_ROTATION
    &&& at < steps[0].0
    &&& !is_idle(at, steps[0].0 as int, steps[0].1 as int)
    &&& forall|i: int|
        0 < i < steps.len() ==> steps[i - 1].0 < #[trigger] steps[i].0 && !is_idle(
            steps[i - 1].0 as int,
            steps[i].0 as int,
            steps[i].1 as int,
        )
}

/// `steps` turn the paddle counter-clockwise through exactly one full turn from `from`,
/// steadily.
pub open spec fn ccw_sweep(from: int, steps: Seq<(i64, u64)>) -> bool {
    sweep_rest(from, from, steps)
}

proof fn lemma_sweep_rest(s: PaddleRotation, from: i64, steps: Seq<(i64, u64)>)
    requires
        s.ccw_start == from,
        s.cw_start == s.prev_rot,
        from <= s.prev_rot,
        sweep_rest(from as int, s.prev_rot as int, steps),
    ensures
        run_cycle(s, steps).1 == 1,
        run_cycle(s, steps).2 == 0,
        run_cycle(s, steps).0.cw_start == from + REFILL_ROTATION,
        run_cycle(s, steps).0.ccw_start == from + REFILL_ROTATION,
        run_cycle(s, steps).0.prev_rot == from + REFILL_ROTATION,
    decreases steps.len(),
{
    let total = steps[0].0;
    let (s1, e) = cycle_step(s, total, steps[0].1);
    if steps.len() == 1 {
        assert(e == CycleEffect::RefillAmmo);
        assert(steps.drop_first().len() == 0);
        assert(run_cycle(s1, steps.drop_first()) == (s1, 0int, 0int));
        assert(run_cycle(s, steps).1 == 1);
    } else {
        assert(steps[0].0 < from + REFILL_ROTATION);
        assert(e == CycleEffect::Nothing);
        assert(s1.cw_start == total && s1.prev_rot == total && s1.ccw_start == from);
        let rest = steps.drop_first();
        assert forall|i: int| 0 <= i < rest.len() - 1 implies #[trigger] rest[i].0 < from
            + REFILL_ROTATION by {
            assert(rest[i] == steps[i + 1]);
        }
        assert forall|i: int| 0 < i < rest.len() implies rest[i - 1].0 < #[trigger] rest[i].0
            && !is_idle(rest[i - 1].0 as int, rest[i].0 as int, rest[i].1 as int) by {
            assert(rest[i] == steps[i + 1]);
            assert(rest[i - 1] == steps[i]);
        }
        assert(rest[0] == steps[1]);
        lemma_sweep_rest(s1, from, rest);
        assert(run_cycle(s, steps).1 == run_cycle(s1, rest).1);
    }
}

/// A steady counter-clockwise sweep of exactly one full turn, starting from a tracker
/// restarted at `from`, refills the ammunition exactly once, never recalls the ball,
/// and leaves the tracker restarted one full turn further on.
pub proof fn lemma_full_ccw_sweep_refills_once(s: PaddleRotation, from: i64, steps: Seq<(i64, u64)>)
    requires
        s.cw_start == from && s.ccw_start == from && s.prev_rot == from,
        ccw_sweep(from as int, steps),
    ensures
        run_cycle(s, steps).1 == 1,
        run_cycle(s, steps).2 == 0,
        run_cycle(s, steps).0.cw_start == from + REFILL_ROTATION,
        run_cycle(s, steps).0.ccw_start == from + REFILL_ROTATION,
        run_cycle(s, steps).0.prev_rot == from + REFILL_ROTATION,
{
    lemma_sweep_rest(s, from, steps);
}

proof fn lemma_run_concat(s: PaddleRotation, a: Seq<(i64, u64)>, b: Seq<(i64, u64)>)
    ensures
        run_cycle(s, a + b) == ({
            let (s1, x1, y1) = run_cycle(s, a);
            let (s2, x2, y2) = run_cycle(s1, b);
            (s2, x1 + x2, y1 + y2)
        }),
    decreases a.len(),
{
    if a.len() == 0 {
        assert(a + b =~= b);
    } else {
        let (s1, e) = cycle_step(s, a[0].0, a[0].1);
        assert((a + b).drop_first() =~= a.drop_first() + b);
        assert((a + b)[0] == a[0]);
        lemma_run_concat(s1, a.drop_first(), b);
    }
}

/// Two steady counter-clockwise full turns in a row, from a tracker restarted at `from`:
/// the second sweep refills exactly once more (not zero, not two), so the two together
/// refill exactly twice and never recall the ball.
pub proof fn lemma_second_sweep_refills_once_more(
    s: PaddleRotation,
    from: i64,
    first: Seq<(i64, u64)>,
    second: Seq<(i64, u64)>,
)
    requires
        s.cw_start == from && s.ccw_start == from && s.prev_rot == from,
        ccw_sweep(from as int, first),
        ccw_sweep(from + REFILL_ROTATION, second),
        from + REFILL_ROTATION <= i64::MAX,
    ensures
        run_cycle(run_cycle(s, first).0, second).1 == 1,
        run_cycle(s, first + second).1 == 2,
        run_cycle(s, first + second).2 == 0,
{
    lemma_full_ccw_sweep_refills_once(s, from, first);
    let s1 = run_cycle(s, first).0;
    lemma_full_ccw_sweep_refills_once(s1, (from + REFILL_ROTATION) as i64, second);
    lemma_run_concat(s, first, second);
}

/// Largest spread of a shot either side of the paddle's heading, in millidegrees.
pub const SHOT_SPREAD: i64 = 4_500;

/// Rounds the paddle's magazine holds.
pub const AMMO_CAPACITY: usize = 55;

/// How long the empty-magazine warning is not repeated.
pub const NO_AMMO_COOLDOWN_MS: u64 = 1_000;

/// What pulling the trigger did.
#[derive(Clone, Copy, Debug, PartialEq, Eq, Structural)]
pub enum FireOutcome {
    /// Not pressed, still reloading, or the empty warning was given recently.
    Idle,
    /// A round was fired along `heading`; the gun reloads for `reload_ms`.
    Fired { heading: i64, reload_ms: u64, trauma: u64 },
    /// The magazine is empty: the camera shakes as a warning.
    Empty { trauma: u64 },
}

/// What pressing the mode toggle did.
#[derive(Clone, Copy, Debug, PartialEq, Eq, Structural)]
pub enum ToggleOutcome {
    /// Not pressed, or the toggle is cooling down.
    Blocked,
    /// The mode changed.
    Switched,
    /// The held ball was launched and the paddle returned to Reflect.
    Launched(Launch),
}

/// The paddle: its mode, its gun's ammunition, its cooldowns and its heading.
pub struct Paddle {
    pub mode: PaddleMode,
    pub ammo: PaddleAmmo,
    pub cooldowns: Cooldowns,
    /// Direction the paddle faces from the core, in millidegrees.
    pub heading: i64,
}

/// Reload time after a shot at a ball speed factor of `f` thousandths.
pub open spec fn reload_ms_of(f: int) -> int {
    170 - 80 * f / 1000
}

impl Paddle {
    pub open spec fn wf(&self) -> bool {
        &&& self.ammo.wf()
        &&& self.cooldowns.wf()
        &&& -180_000 <= self.heading <= 180_000
        &&& self.mode matches PaddleMode::Captured { shoot_rotation, .. } ==> -180_000
            <= shoot_rotation <= 180_000
    }

    /// A paddle in Reflect mode facing along `heading`, with an empty magazine of
    /// `capacity` rounds.
    pub fn new(capacity: usize, heading: i64) -> (r: Paddle)
        requires
            -180_000 <= heading <= 180_000,
        ensures
            r.wf(),
            r.mode == PaddleMode::Reflect,
            r.ammo.amount() == 0,
            r.ammo.max_amount() == capacity,
            r.heading == heading,
    {
        Paddle { mode: PaddleMode::Reflect, ammo: PaddleAmmo::new(capacity), cooldowns: Cooldowns::new(), heading }
    }

    /// The paddle of a new game: facing along the x axis, Reflect mode, an empty magazine
    /// of `AMMO_CAPACITY` rounds.
    pub fn spawn() -> (r: Paddle)
        ensures
            r.wf(),
            r.mode == PaddleMode::Reflect,
            r.ammo.amount() == 0,
            r.ammo.max_amount() == AMMO_CAPACITY,
            r.heading == 0,
    {
        Paddle::new(AMMO_CAPACITY, 0)
    }

    /// A freshly spawned ball is held by the paddle, to be launched straight inward.
    pub fn hold_new_ball(&mut self, ball: u64)
        requires
            old(self).wf(),
        ensures
            final(self).wf(),
            final(self).mode == (PaddleMode::Captured { shoot_rotation: 0, ball }),
            final(self).ammo == old(self).ammo,
            final(self).heading == old(self).heading,
    {
        self.mode = PaddleMode::Captured { shoot_rotation: 0, ball };
    }

    /// Handles the mode toggle: when pressed and not cooling down, the mode advances
    /// (launching a held ball) and the toggle cools down for `MODE_COOLDOWN_MS`.
    pub fn process_toggle(&mut self, pressed: bool) -> (r: ToggleOutcome)
        requires
            old(self).wf(),
        ensures
            final(self).wf(),
            final(self).ammo == old(self).ammo,
            final(self).heading == old(self).heading,
            !pressed || old(self).cooldowns.remaining(CooldownTag::PaddleMode) is Some ==> r
                == ToggleOutcome::Blocked && final(self).mode == old(self).mode,
            pressed && old(self).cooldowns.remaining(CooldownTag::PaddleMode) is None ==> {
                &&& final(self).mode == toggled(old(self).mode)
                &&& final(self).cooldowns.remaining(CooldownTag::PaddleMode) == Some(
                    MODE_COOLDOWN_MS as int,
                )
                &&& match old(self).mode {
                    PaddleMode::Captured { shoot_rotation, ball } => r == ToggleOutcome::Launched(
                        Launch {
                            ball,
                            heading: launch_heading(old(self).heading as int, shoot_rotation as int)
                                as i64,
                        },
                    ),
                    _ => r == ToggleOutcome::Switched,
                }
            },
    {
        if !pressed || self.cooldowns.is_active(CooldownTag::PaddleMode) {
            return ToggleOutcome::Blocked;
        }
        let launch = self.mode.toggle(self.heading);
        self.cooldowns.start(CooldownTag::PaddleMode, MODE_COOLDOWN_MS);
        match launch {
            Some(l) => ToggleOutcome::Launched(l),
            None => ToggleOutcome::Switched,
        }
    }

    /// Handles the trigger with a drawn `spread` (millidegrees): when pressed and not
    /// reloading, fires a round along the heading turned by `spread` and reloads (faster
    /// at a higher ball speed factor `max_factor`); with an empty magazine gives the
    /// warning, at most once per `NO_AMMO_COOLDOWN_MS`.
    pub fn fire(&mut self, pressed: bool, max_factor: u64, spread: i64) -> (r: FireOutcome)
        requires
            old(self).wf(),
            max_factor <= 1000,
            -SHOT_SPREAD <= spread <= SHOT_SPREAD,
        ensures
            final(self).wf(),
            final(self).mode == old(self).mode,
            final(self).heading == old(self).heading,
            final(self).ammo.max_amount() == old(self).ammo.max_amount(),
            !pressed || old(self).cooldowns.remaining(CooldownTag::Reload) is Some ==> r
                == FireOutcome::Idle && final(self).ammo == old(self).ammo,
            pressed && old(self).cooldowns.remaining(CooldownTag::Reload) is None
                && old(self).ammo.amount() > 0 ==> {
                &&& r == FireOutcome::Fired {
                    heading: wrap(old(self).heading + spread) as i64,
                    reload_ms: reload_ms_of(max_factor as int) as u64,
                    trauma: (165 - 80 * max_factor / 1000) as u64,
                }
                &&& final(self).ammo.amount() == old(self).ammo.amount() - 1
                &&& final(self).cooldowns.remaining(CooldownTag::Reload) == Some(
                    reload_ms_of(max_factor as int),
                )
            },
            pressed && old(self).cooldowns.remaining(CooldownTag::Reload) is None
                && old(self).ammo.amount() == 0 ==> final(self).ammo == old(self).ammo && if old(
                self,
            ).cooldowns.remaining(CooldownTag::NoAmmoShake) is None {
                r == FireOutcome::Empty { trauma: 400 } && final(self).cooldowns.remaining(
                    CooldownTag::NoAmmoShake,
                ) == Some(NO_AMMO_COOLDOWN_MS as int)
            } else {
                r == FireOutcome::Idle
            },
    {
        if !pressed || self.cooldowns.is_active(CooldownTag::Reload) {
            return FireOutcome::Idle;
        }
        if self.ammo.ammo() > 0 {
            self.ammo.offset(-1);
            let reload = 170 - 80 * max_factor / 1000;
            let trauma = 165 - 80 * max_factor / 1000;
            self.cooldowns.start(CooldownTag::Reload, reload);
            FireOutcome::Fired { heading: wrap_angle(self.heading + spread), reload_ms: reload, trauma }
        } else if !self.cooldowns.is_active(CooldownTag::NoAmmoShake) {
            self.cooldowns.start(CooldownTag::NoAmmoShake, NO_AMMO_COOLDOWN_MS);
            FireOutcome::Empty { trauma: 400 }
        } else {
            FireOutcome::Idle
        }
    }

    /// Handles the trigger, drawing the shot's spread uniformly from
    /// `[-SHOT_SPREAD, SHOT_SPREAD)`.
    pub fn fire_random(&mut self, pressed: bool, max_factor: u64) -> (r: FireOutcome)
        requires
            old(self).wf(),
            max_factor <= 1000,
        ensures
            final(self).wf(),
            final(self).mode == old(self).mode,
            final(self).heading == old(self).heading,
            final(self).ammo.max_amount() == old(self).ammo.max_amount(),
            !pressed || old(self).cooldowns.remaining(CooldownTag::Reload) is Some ==> r
                == FireOutcome::Idle && final(self).ammo == old(self).ammo,
            pressed && old(self).cooldowns.remaining(CooldownTag::Reload) is None
                && old(self).ammo.amount() > 0 ==> {
                &&& exists|s: int|
                    -SHOT_SPREAD <= s < SHOT_SPREAD && r == (FireOutcome::Fired {
                        heading: #[trigger] wrap(old(self).heading + s) as i64,
                        reload_ms: reload_ms_of(max_factor as int) as u64,
                        trauma: (165 - 80 * max_factor / 1000) as u64,
                    })
                &&& final(self).ammo.amount() == old(self).ammo.amount() - 1
                &&& final(self).cooldowns.remaining(CooldownTag::Reload) == Some(
                    reload_ms_of(max_factor as int),
                )
            },
            pressed && old(self).cooldowns.remaining(CooldownTag::Reload) is None
                && old(self).ammo.amount() == 0 ==> final(self).ammo == old(self).ammo && if old(
                self,
            ).cooldowns.remaining(CooldownTag::NoAmmoShake) is None {
                r == FireOutcome::Empty { trauma: 400 } && final(self).cooldowns.remaining(
                    CooldownTag::NoAmmoShake,
                ) == Some(NO_AMMO_COOLDOWN_MS as int)
            } else {
                r == FireOutcome::Idle
            },
    {
        let spread = random_in(-SHOT_SPREAD, SHOT_SPREAD);
        self.fire(pressed, max_factor, spread)
    }
}

/// One step of the paddle's sweep effects at accumulated rotation `total`: the sweep
/// tracker advances, and a full counter-clockwise turn refills the ammunition by the
/// bonus for the ball speed factor `max_factor`. A recall is left to the caller, which
/// spawns the new ball.
pub fn apply_cycle_effects(
    rot: &mut PaddleRotation,
    ammo: &mut PaddleAmmo,
    total: i64,
    dt_ms: u64,
    max_factor: u64,
) -> (r: CycleEffect)
    requires
        old(rot).wf(),
        old(ammo).wf(),
        angle_ok(total as int),
        dt_ms <= 1_000_000,
        max_factor <= 1000,
    ensures
        final(rot).wf(),
        final(ammo).wf(),
        (*final(rot), r) == cycle_step(*old(rot), total, dt_ms),
        final(ammo).max_amount() == old(ammo).max_amount(),
        r == CycleEffect::RefillAmmo ==> final(ammo).amount() == crate::ammo::clamp_int(
            old(ammo).amount() + crate::ball::ammo_bonus_of(max_factor as int),
            0,
            old(ammo).max_amount(),
        ),
        r != CycleEffect::RefillAmmo ==> *final(ammo) == *old(ammo),
{
    let effect = rot.apply_cycle(total, dt_ms);
    if effect == CycleEffect::RefillAmmo {
        let bonus = crate::ball::ammo_bonus(max_factor);
        ammo.offset(bonus as isize);
    }
    effect
}

} // verus!
