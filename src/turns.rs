use vstd::prelude::*;

verus! {

/// How turns are paced and how many there are.
#[derive(Debug, Clone, Copy, PartialEq, Eq, Structural)]
pub struct TurnConfig {
    /// Milliseconds a turn may last; `None` selects lock-step mode.
    pub turn_time: Option<u64>,
    /// With a timer, resolve the turn as soon as every actor has an intent.
    pub end_early: bool,
    pub max_turns: u32,
    pub start_paused: bool,
}

impl Default for TurnConfig {
    fn default() -> (r: TurnConfig)
        ensures
            r.turn_time == Some(100u64),
            !r.end_early,
            r.max_turns == 1500,
            !r.start_paused,
    {
        TurnConfig { turn_time: Some(100), end_early: false, max_turns: 1500, start_paused: false }
    }
}

/// A configuration value given for the turn timeout.
#[derive(Debug, Clone, PartialEq, Eq)]
pub enum TimeoutSetting {
    Flag(bool),
    /// A non-negative whole number.
    Unsigned(u64),
    /// Anything else: a negative or fractional number, a string, a mapping.
    Other,
}

/// Why a timeout setting was refused.
#[derive(Debug, Clone, Copy, PartialEq, Eq, Structural)]
pub enum TimeoutError {
    /// Neither a non-negative integer nor `false`.
    ExpectedIntegerOrFalse,
}

pub open spec fn timeout_spec(v: TimeoutSetting) -> Result<Option<u64>, TimeoutError> {
    match v {
        TimeoutSetting::Flag(false) => Ok(None),
        TimeoutSetting::Unsigned(n) => Ok(Some(n)),
        _ => Err(TimeoutError::ExpectedIntegerOrFalse),
    }
}

impl TurnConfig {
    /// Reads the timeout: `false` turns the timer off, a non-negative integer is a
    /// duration in milliseconds, anything else is refused.
    pub fn deserialize_timeout(value: &TimeoutSetting) -> (r: Result<Option<u64>, TimeoutError>)
        ensures
            r == timeout_spec(*value),
    {
        match value {
            TimeoutSetting::Flag(false) => Ok(None),
            TimeoutSetting::Unsigned(n) => Ok(Some(*n)),
            _ => Err(TimeoutError::ExpectedIntegerOrFalse),
        }
    }
}

/// A one-shot countdown measured in milliseconds.
#[derive(Debug, Clone, Copy, PartialEq, Eq, Structural)]
pub struct TurnTimer {
    pub duration: u64,
    pub elapsed: u64,
}

impl TurnTimer {
    pub open spec fn done(self) -> bool {
        self.elapsed >= self.duration
    }

    pub fn finished(&self) -> (r: bool)
        ensures
            r == self.done(),
    {
        self.elapsed >= self.duration
    }

    /// Advances the clock by `delta` milliseconds, stopping at the duration.
    pub fn tick(&mut self, delta: u64)
        ensures
            final(self).duration == old(self).duration,
            final(self).elapsed == if old(self).elapsed + delta >= old(self).duration {
                old(self).duration as int
            } else {
                old(self).elapsed + delta
            },
    {
        let room = if self.elapsed >= self.duration {
            0
        } else {
            self.duration - self.elapsed
        };
        if delta >= room {
            self.elapsed = self.duration;
        } else {
            self.elapsed = self.elapsed + delta;
        }
    }
}

/// A timer after `delta` more milliseconds; no timer stays none.
pub open spec fn ticked(timer: Option<TurnTimer>, delta: u64) -> Option<TurnTimer> {
    match timer {
        Some(t) => Some(
            TurnTimer {
                duration: t.duration,
                elapsed: if t.elapsed + delta >= t.duration {
                    t.duration
                } else {
                    (t.elapsed + delta) as u64
                },
            },
        ),
        None => None,
    }
}

/// The progress of the game through its turns.
#[derive(Debug, Clone, Copy, PartialEq, Eq, Structural)]
pub struct Turn {
    pub ready: bool,
    pub requested: bool,
    pub timer: Option<TurnTimer>,
    pub end_early: bool,
    pub current: u32,
    pub max: u32,
}

/// Whether a turn may be resolved, given whether every live actor has an intent.
pub open spec fn ready_spec(t: Turn, all_ready: bool) -> bool {
    let over = match t.timer {
        Some(timer) => timer.done() || (t.end_early && all_ready),
        None => all_ready,
    };
    over && t.current < t.max
}

impl Turn {
    /// A turn that is ready never lies past the last one.
    pub open spec fn wf(self) -> bool {
        self.ready ==> self.current < self.max
    }

    pub fn new(duration: Option<u64>, end_early: bool, max_turns: u32) -> (r: Turn)
        ensures
            r.wf(),
            !r.ready && !r.requested,
            r.timer == (match duration {
                Some(d) => Some(TurnTimer { duration: d, elapsed: 0 }),
                None => None::<TurnTimer>,
            }),
            r.end_early == end_early,
            r.current == 0,
            r.max == max_turns,
    {
        let timer = match duration {
            Some(d) => Some(TurnTimer { duration: d, elapsed: 0 }),
            None => None,
        };
        Turn { ready: false, requested: false, timer, end_early, current: 0, max: max_turns }
    }

    /// Clears the per-turn flags and restarts the timer.
    pub fn reset(&mut self)
        ensures
            !final(self).ready && !final(self).requested,
            final(self).timer == (match old(self).timer {
                Some(t) => Some(TurnTimer { duration: t.duration, elapsed: 0 }),
                None => None::<TurnTimer>,
            }),
            final(self).end_early == old(self).end_early,
            final(self).current == old(self).current,
            final(self).max == old(self).max,
    {
        self.ready = false;
        self.requested = false;
        if let Some(t) = self.timer {
            self.timer = Some(TurnTimer { duration: t.duration, elapsed: 0 });
        }
    }

    pub fn from_config(config: TurnConfig) -> (r: Turn)
        ensures
            r == Turn::from_config_spec(config),
    {
        Turn::new(config.turn_time, config.end_early, config.max_turns)
    }

    pub open spec fn from_config_spec(config: TurnConfig) -> Turn {
        Turn {
            ready: false,
            requested: false,
            timer: match config.turn_time {
                Some(d) => Some(TurnTimer { duration: d, elapsed: 0 }),
                None => None,
            },
            end_early: config.end_early,
            current: 0,
            max: config.max_turns,
        }
    }

    pub fn turns_finished(&self) -> (r: bool)
        ensures
            r == (self.current >= self.max),
    {
        self.current >= self.max
    }

    pub fn turn_ready(&self) -> (r: bool)
        ensures
            r == self.ready,
    {
        self.ready
    }

    pub fn turn_requested(&self) -> (r: bool)
        ensures
            r == self.requested,
    {
        self.requested
    }

    /// Marks the turn as requested: every in-process agent has been asked for a move.
    pub fn request(&mut self)
        ensures
            *final(self) == (Turn { requested: true, ..*old(self) }),
    {
        self.requested = true;
    }

    /// Advances the turn timer by `delta` milliseconds, if there is one.
    pub fn tick_timer(&mut self, delta: u64)
        ensures
            final(self).ready == old(self).ready,
            final(self).requested == old(self).requested,
            final(self).current == old(self).current,
            final(self).max == old(self).max,
            final(self).end_early == old(self).end_early,
            final(self).timer == ticked(old(self).timer, delta),
    {
        if let Some(t) = self.timer {
            let mut u = t;
            u.tick(delta);
            self.timer = Some(u);
        }
    }

    /// Decides whether the turn is ready to be resolved: never once the last turn is
    /// consumed; with a timer, when it has run out or, in `end_early` mode, when every
    /// live actor has an intent; without one, exactly when every live actor has an intent.
    pub fn update_ready(&mut self, all_ready: bool)
        ensures
            final(self).wf(),
            final(self).ready == ready_spec(*old(self), all_ready),
            *final(self) == (Turn { ready: final(self).ready, ..*old(self) }),
    {
        let game_over = self.current >= self.max;
        let turn_over = match self.timer {
            Some(t) => t.finished() || (self.end_early && all_ready),
            None => all_ready,
        };
        self.ready = turn_over && !game_over;
    }

    /// Closes a resolved turn: the flags are cleared, the timer restarts and the
    /// counter moves on by exactly one.
    pub fn end_turn(&mut self)
        requires
            old(self).wf(),
            old(self).ready,
        ensures
            final(self).wf(),
            final(self).current == old(self).current + 1,
            !final(self).ready && !final(self).requested,
            final(self).max == old(self).max,
            final(self).end_early == old(self).end_early,
            final(self).timer == (match old(self).timer {
                Some(t) => Some(TurnTimer { duration: t.duration, elapsed: 0 }),
                None => None::<TurnTimer>,
            }),
    {
        self.reset();
        self.current = self.current + 1;
    }
}


impl From<TurnConfig> for Turn {
    fn from(config: TurnConfig) -> (r: Turn)
        ensures
            r == Turn::from_config_spec(config),
    {
        Turn::from_config(config)
    }
}

impl vstd::std_specs::convert::FromSpecImpl<TurnConfig> for Turn {
    open spec fn obeys_from_spec() -> bool {
        true
    }

    open spec fn from_spec(config: TurnConfig) -> Turn {
        Turn::from_config_spec(config)
    }
}


/// Whether the game runs, is paused, advances one turn at a time, or is over.
#[derive(Debug, Clone, Copy, PartialEq, Eq, Structural)]
pub enum GameState {
    Running,
    Paused,
    Step,
    GameOver,
}

impl GameState {
    /// The state after a scheduler pass: a single step pauses the game once its turn
    /// has been resolved; every other state stays.
    pub fn after_pass(self, turn_resolved: bool) -> (r: GameState)
        ensures
            r == (if self == GameState::Step && turn_resolved {
                GameState::Paused
            } else {
                self
            }),
    {
        if self == GameState::Step && turn_resolved {
            GameState::Paused
        } else {
            self
        }
    }

    /// Whether readiness is evaluated in this state.
    pub fn is_paused(self) -> (r: bool)
        ensures
            r == (self == GameState::Paused),
    {
        self == GameState::Paused
    }
}

} // verus!
