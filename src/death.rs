use vstd::prelude::*;
use crate::collisions::DeathEvent;
use crate::players::{dec_i32, inc_i32, inc_u32, Player, Score};

verus! {

/// How long a dead player waits before it is placed on the grid again.
#[derive(Debug, Clone, Copy, PartialEq, Eq, Structural)]
pub struct DeathConfig {
    /// Turns of the respawn countdown.
    pub respawn_time: u32,
}

impl Default for DeathConfig {
    fn default() -> (r: DeathConfig)
        ensures
            r.respawn_time == 10,
    {
        DeathConfig { respawn_time: 10 }
    }
}

/// The players after one death event. An event whose target has no snake (it died
/// earlier in the batch) changes nothing. Otherwise the snake is removed, the player
/// is marked dead with a fresh countdown and one more death; a culprit other than
/// the victim gains a kill, a victim that is its own culprit loses one.
pub open spec fn apply_event(ps: Seq<Player>, e: DeathEvent, respawn: u32) -> Seq<Player> {
    let t = e.target as int;
    if t < ps.len() && ps[t].snake is Some {
        let v = ps[t];
        let dead = Player {
            snake: None,
            is_dead: true,
            respawn_in: Some(respawn),
            score: Score { deaths: inc_u32(v.score.deaths), ..v.score },
            ..v
        };
        let ps1 = ps.update(t, dead);
        match e.culprit {
            Some(c) => if c as int == t {
                ps1.update(t, Player { score: Score { kills: dec_i32(dead.score.kills), ..dead.score }, ..dead })
            } else if (c as int) < ps.len() {
                ps1.update(
                    c as int,
                    Player { score: Score { kills: inc_i32(ps1[c as int].score.kills), ..ps1[c as int].score }, ..ps1[c as int] },
                )
            } else {
                ps1
            },
            None => ps1,
        }
    } else {
        ps
    }
}

/// The players after a batch of death events, applied in order.
pub open spec fn apply_events(ps: Seq<Player>, es: Seq<DeathEvent>, respawn: u32) -> Seq<Player>
    decreases es.len(),
{
    if es.len() == 0 {
        ps
    } else {
        apply_event(apply_events(ps, es.drop_last(), respawn), es.last(), respawn)
    }
}

/// Applies one death event; see `apply_event`.
pub fn apply_death(players: &mut Vec<Player>, event: DeathEvent, respawn_time: u32)
    ensures
        final(players)@ == apply_event(old(players)@, event, respawn_time),
{
    let t = event.target as usize;
    if t >= players.len() || players[t].snake.is_none() {
        return ;
    }
    players[t].snake = None;
    players[t].is_dead = true;
    players[t].respawn_in = Some(respawn_time);
    if players[t].score.deaths < u32::MAX {
        players[t].score.deaths = players[t].score.deaths + 1;
    }
    match event.culprit {
        Some(c) => {
            let c = c as usize;
            if c == t {
                if players[t].score.kills > i32::MIN {
                    players[t].score.kills = players[t].score.kills - 1;
                }
            } else if c < players.len() {
                if players[c].score.kills < i32::MAX {
                    players[c].score.kills = players[c].score.kills + 1;
                }
            }
        },
        None => {},
    }
    assert(players@ =~= apply_event(old(players)@, event, respawn_time));
}

/// Applies a batch of death events in order.
pub fn apply_deaths(players: &mut Vec<Player>, events: &Vec<DeathEvent>, respawn_time: u32)
    ensures
        final(players)@ == apply_events(old(players)@, events@, respawn_time),
{
    let mut k: usize = 0;
    while k < events.len()
        invariant
            k <= events@.len(),
            players@ == apply_events(old(players)@, events@.take(k as int), respawn_time),
        decreases events@.len() - k,
    {
        apply_death(players, events[k], respawn_time);
        assert(events@.take(k + 1).drop_last() =~= events@.take(k as int));
        k = k + 1;
    }
    assert(events@.take(events@.len() as int) =~= events@);
}

/// One turn of every respawn countdown: a count above zero goes down by one, a
/// count of zero ends and the player waits to be placed again.
pub fn count_down_respawns(players: &mut Vec<Player>)
    ensures
        final(players)@.len() == old(players)@.len(),
        forall|i: int|
            0 <= i < old(players)@.len() ==> final(players)@[i] == (Player {
                respawn_in: match old(players)@[i].respawn_in {
                    Some(t) => if t > 0 {
                        Some((t - 1) as u32)
                    } else {
                        None::<u32>
                    },
                    None => None::<u32>,
                },
                ..old(players)@[i]
            }),
{
    let mut i: usize = 0;
    while i < players.len()
        invariant
            i <= players@.len(),
            players@.len() == old(players)@.len(),
            forall|j: int|
                i <= j < players@.len() ==> players@[j] == old(players)@[j],
            forall|j: int|
                0 <= j < i ==> players@[j] == (Player {
                    respawn_in: match old(players)@[j].respawn_in {
                        Some(t) => if t > 0 {
                            Some((t - 1) as u32)
                        } else {
                            None::<u32>
                        },
                        None => None::<u32>,
                    },
                    ..old(players)@[j]
                }),
        decreases players@.len() - i,
    {
        match players[i].respawn_in {
            Some(t) => {
                if t > 0 {
                    players[i].respawn_in = Some(t - 1);
                } else {
                    players[i].respawn_in = None;
                }
            },
            None => {},
        }
        i = i + 1;
    }
}

} // verus!
