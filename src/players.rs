use vstd::prelude::*;
use crate::snakes::Snake;

verus! {

/// How hard a built-in agent plays. Later variants consider more of the board.
#[derive(Debug, Clone, Copy, PartialEq, Eq, Structural)]
pub enum BuiltinAi {
    Easy,
    Medium,
    Hard,
}

/// Where a player's moves come from.
#[derive(Debug, Clone, Copy, PartialEq, Eq, Structural)]
pub enum AgentKind {
    /// An external process speaking the line protocol; `silent` hides what it logs.
    Custom { silent: bool },
    Builtin { difficulty: BuiltinAi },
    Keyboard,
    Random,
}

/// A player's running score.
#[derive(Debug, Clone, Copy, PartialEq, Eq, Structural)]
pub struct Score {
    pub kills: i32,
    pub deaths: u32,
    pub max_length: usize,
    pub current_length: usize,
}

impl Score {
    pub fn new() -> (r: Score)
        ensures
            r == (Score { kills: 0, deaths: 0, max_length: 0, current_length: 0 }),
    {
        Score { kills: 0, deaths: 0, max_length: 0, current_length: 0 }
    }
}

/// One more, stopping at the largest `u32`.
pub open spec fn inc_u32(v: u32) -> u32 {
    if v == u32::MAX {
        v
    } else {
        (v + 1) as u32
    }
}

/// One more, stopping at the largest `i32`.
pub open spec fn inc_i32(v: i32) -> i32 {
    if v == i32::MAX {
        v
    } else {
        (v + 1) as i32
    }
}

/// One less, stopping at the smallest `i32`.
pub open spec fn dec_i32(v: i32) -> i32 {
    if v == i32::MIN {
        v
    } else {
        (v - 1) as i32
    }
}

/// A player of the arena. Its id is its place in the arena's list of players.
/// Alive: it has a snake. Dead: no snake, and `respawn_in` counts down the turns
/// left. Respawning: neither; it is placed on the grid before the next request.
#[derive(Debug, Clone, PartialEq, Eq)]
pub struct Player {
    pub id: u32,
    pub agent: AgentKind,
    pub score: Score,
    pub is_dead: bool,
    pub snake: Option<Snake>,
    pub respawn_in: Option<u32>,
}

impl Player {
    /// A player that has not been placed yet: it is spawned at the first turn.
    pub fn new(id: u32, agent: AgentKind) -> (r: Player)
        ensures
            r.id == id,
            r.agent == agent,
            r.score == Score::new_spec(),
            r.is_dead,
            r.snake is None,
            r.respawn_in is None,
    {
        Player { id, agent, score: Score::new(), is_dead: true, snake: None, respawn_in: None }
    }
}

impl Score {
    pub open spec fn new_spec() -> Score {
        Score { kills: 0, deaths: 0, max_length: 0, current_length: 0 }
    }
}


/// Ranking of scores: longest snake ever first, then most kills, then fewest
/// deaths, then longest snake now.
pub open spec fn score_order(a: Score, b: Score) -> core::cmp::Ordering {
    if a.max_length != b.max_length {
        if a.max_length < b.max_length {
            core::cmp::Ordering::Less
        } else {
            core::cmp::Ordering::Greater
        }
    } else if a.kills != b.kills {
        if a.kills < b.kills {
            core::cmp::Ordering::Less
        } else {
            core::cmp::Ordering::Greater
        }
    } else if a.deaths != b.deaths {
        if a.deaths > b.deaths {
            core::cmp::Ordering::Less
        } else {
            core::cmp::Ordering::Greater
        }
    } else if a.current_length != b.current_length {
        if a.current_length < b.current_length {
            core::cmp::Ordering::Less
        } else {
            core::cmp::Ordering::Greater
        }
    } else {
        core::cmp::Ordering::Equal
    }
}

impl Score {
    /// Compares two scores for the leaderboard; see `score_order`.
    pub fn cmp(&self, other: &Score) -> (r: core::cmp::Ordering)
        ensures
            r == score_order(*self, *other),
    {
        if self.max_length != other.max_length {
            if self.max_length < other.max_length {
                core::cmp::Ordering::Less
            } else {
                core::cmp::Ordering::Greater
            }
        } else if self.kills != other.kills {
            if self.kills < other.kills {
                core::cmp::Ordering::Less
            } else {
                core::cmp::Ordering::Greater
            }
        } else if self.deaths != other.deaths {
            if self.deaths > other.deaths {
                core::cmp::Ordering::Less
            } else {
                core::cmp::Ordering::Greater
            }
        } else if self.current_length != other.current_length {
            if self.current_length < other.current_length {
                core::cmp::Ordering::Less
            } else {
                core::cmp::Ordering::Greater
            }
        } else {
            core::cmp::Ordering::Equal
        }
    }
}

} // verus!
