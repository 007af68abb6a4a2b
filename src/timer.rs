use vstd::prelude::*;

verus! {

/// A one-shot countdown measured in milliseconds.
///
/// It finishes on the tick at which its elapsed time reaches its duration;
/// that tick reports `true`, later ticks report `false` until it is reset.
#[derive(Clone, Copy, Debug)]
pub struct Timer {
    pub duration_ms: u64,
    pub elapsed_ms: u64,
    pub finished: bool,
}

impl Timer {
    pub open spec fn wf(&self) -> bool {
        self.elapsed_ms <= self.duration_ms && (self.finished ==> self.elapsed_ms == self.duration_ms)
    }

    pub fn new(duration_ms: u64) -> (r: Timer)
        ensures
            r.wf(),
            r.duration_ms == duration_ms,
            r.elapsed_ms == 0,
            !r.finished,
    {
        Timer { duration_ms, elapsed_ms: 0, finished: false }
    }

    /// Advances the timer by `dt_ms`; returns whether it finished on this tick.
    pub fn tick(&mut self, dt_ms: u64) -> (just_finished: bool)
        requires
            old(self).wf(),
        ensures
            final(self).wf(),
            final(self).duration_ms == old(self).duration_ms,
            just_finished == (!old(self).finished && old(self).elapsed_ms + dt_ms
                >= old(self).duration_ms),
            final(self).finished == (old(self).finished || just_finished),
            !final(self).finished ==> final(self).elapsed_ms == old(self).elapsed_ms + dt_ms,
    {
        if self.finished {
            return false;
        }
        if dt_ms >= self.duration_ms - self.elapsed_ms {
            self.elapsed_ms = self.duration_ms;
            self.finished = true;
            true
        } else {
            self.elapsed_ms = self.elapsed_ms + dt_ms;
            false
        }
    }

    /// Starts the countdown again from zero.
    pub fn reset(&mut self)
        ensures
            final(self).duration_ms == old(self).duration_ms,
            final(self).elapsed_ms == 0,
            !final(self).finished,
    {
        self.elapsed_ms = 0;
        self.finished = false;
    }
}

/// What an expiring cooldown gates.
#[derive(Clone, Copy, Debug, PartialEq, Eq, Structural)]
pub enum CooldownTag {
    /// Movement is frozen while it runs.
    MovementPaused,
    /// The paddle mode cannot be toggled while it runs.
    PaddleMode,
    /// The paddle gun cannot fire while it runs.
    Reload,
    /// The empty-magazine warning is not repeated while it runs.
    NoAmmoShake,
}

/// Independent expiring markers of one entity, at most one per tag, held as the
/// time left on each running one.
#[derive(Clone, Copy, Debug)]
pub struct Cooldowns {
    movement_paused: Option<Timer>,
    paddle_mode: Option<Timer>,
    reload: Option<Timer>,
    no_ammo_shake: Option<Timer>,
}

pub open spec fn time_left(t: Option<Timer>) -> Option<int> {
    match t {
        Some(t) => Some(t.duration_ms - t.elapsed_ms),
        None => None,
    }
}

pub open spec fn timer_running(t: Option<Timer>) -> bool {
    match t {
        Some(t) => t.wf() && !t.finished && t.elapsed_ms < t.duration_ms,
        None => true,
    }
}

/// The timer after one tick: gone once its time is up.
pub open spec fn ticked(t: Option<Timer>, dt: int) -> Option<Timer> {
    match t {
        Some(t) => if t.elapsed_ms + dt >= t.duration_ms {
            None
        } else {
            Some(Timer { elapsed_ms: (t.elapsed_ms + dt) as u64, ..t })
        },
        None => None,
    }
}

impl Cooldowns {
    pub closed spec fn slot(&self, tag: CooldownTag) -> Option<Timer> {
        match tag {
            CooldownTag::MovementPaused => self.movement_paused,
            CooldownTag::PaddleMode => self.paddle_mode,
            CooldownTag::Reload => self.reload,
            CooldownTag::NoAmmoShake => self.no_ammo_shake,
        }
    }

    /// Time left on the cooldown of `tag`, if one is running.
    pub open spec fn remaining(&self, tag: CooldownTag) -> Option<int> {
        time_left(self.slot(tag))
    }

    pub open spec fn wf(&self) -> bool {
        forall|t: CooldownTag| #[trigger] timer_running(self.slot(t))
    }

    pub fn new() -> (r: Cooldowns)
        ensures
            r.wf(),
            forall|t: CooldownTag| #[trigger] r.remaining(t) == None::<int>,
    {
        Cooldowns { movement_paused: None, paddle_mode: None, reload: None, no_ammo_shake: None }
    }

    fn get(&self, tag: CooldownTag) -> (r: Option<Timer>)
        ensures
            r == self.slot(tag),
    {
        match tag {
            CooldownTag::MovementPaused => self.movement_paused,
            CooldownTag::PaddleMode => self.paddle_mode,
            CooldownTag::Reload => self.reload,
            CooldownTag::NoAmmoShake => self.no_ammo_shake,
        }
    }

    fn put(&mut self, tag: CooldownTag, v: Option<Timer>)
        ensures
            final(self).slot(tag) == v,
            forall|t: CooldownTag| t != tag ==> #[trigger] final(self).slot(t) == old(self).slot(t),
    {
        match tag {
            CooldownTag::MovementPaused => self.movement_paused = v,
            CooldownTag::PaddleMode => self.paddle_mode = v,
            CooldownTag::Reload => self.reload = v,
            CooldownTag::NoAmmoShake => self.no_ammo_shake = v,
        }
    }

    /// Whether a cooldown of this tag is running.
    pub fn is_active(&self, tag: CooldownTag) -> (r: bool)
        ensures
            r == self.remaining(tag).is_some(),
    {
        self.get(tag).is_some()
    }

    /// Starts (or restarts) the cooldown of `tag` for `duration_ms`; the other tags are
    /// untouched. A zero duration removes the cooldown of `tag`.
    pub fn start(&mut self, tag: CooldownTag, duration_ms: u64)
        requires
            old(self).wf(),
        ensures
            final(self).wf(),
            final(self).remaining(tag) == if duration_ms > 0 {
                Some(duration_ms as int)
            } else {
                None::<int>
            },
            forall|t: CooldownTag|
                t != tag ==> #[trigger] final(self).remaining(t) == old(self).remaining(t),
    {
        if duration_ms > 0 {
            self.put(tag, Some(Timer::new(duration_ms)));
        } else {
            self.put(tag, None);
        }
        assert forall|t: CooldownTag| #[trigger] timer_running(final(self).slot(t)) by {
            if t != tag {
                assert(timer_running(old(self).slot(t)));
            }
        }
    }

    /// Removes the cooldown of `tag`, as a pre-emption.
    pub fn cancel(&mut self, tag: CooldownTag)
        requires
            old(self).wf(),
        ensures
            final(self).wf(),
            final(self).remaining(tag) == None::<int>,
            forall|t: CooldownTag|
                t != tag ==> #[trigger] final(self).remaining(t) == old(self).remaining(t),
    {
        self.start(tag, 0);
    }

    /// Advances the cooldown of `tag` by `dt_ms` and removes it once its time is up;
    /// returns whether it ended on this tick. The other tags are untouched.
    pub fn tick(&mut self, tag: CooldownTag, dt_ms: u64) -> (ended: bool)
        requires
            old(self).wf(),
        ensures
            final(self).wf(),
            final(self).slot(tag) == ticked(old(self).slot(tag), dt_ms as int),
            ended == (old(self).remaining(tag) matches Some(left) && dt_ms >= left),
            forall|t: CooldownTag| t != tag ==> #[trigger] final(self).slot(t) == old(self).slot(t),
    {
        assert(timer_running(self.slot(tag)));
        match self.get(tag) {
            Some(timer) => {
                let mut timer = timer;
                let done = timer.tick(dt_ms);
                if done {
                    self.put(tag, None);
                } else {
                    self.put(tag, Some(timer));
                }
                assert forall|t: CooldownTag| #[trigger] timer_running(final(self).slot(t)) by {
                    if t != tag {
                        assert(timer_running(old(self).slot(t)));
                    }
                }
                done
            },
            None => false,
        }
    }
}

} // verus!
