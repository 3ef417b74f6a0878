use vstd::prelude::*;
use crate::grid::{GameGrid, GridPosition};
use crate::players::Player;

verus! {

/// A snake's death, with the player credited for it, if any.
#[derive(Debug, Clone, Copy, PartialEq, Eq, Structural)]
pub struct DeathEvent {
    pub target: u32,
    pub culprit: Option<u32>,
}

pub open spec fn alive(ps: Seq<Player>, j: int) -> bool {
    ps[j].snake is Some
}

pub open spec fn head_of(ps: Seq<Player>, j: int) -> GridPosition {
    ps[j].snake->Some_0.head
}

pub open spec fn body_of(ps: Seq<Player>, j: int) -> Seq<GridPosition> {
    ps[j].snake->Some_0.body@
}

/// The event for snake `i` running into a body cell of snake `j`: its own body
/// credits nobody.
pub open spec fn segment_event(i: int, j: int) -> DeathEvent {
    DeathEvent { target: i as u32, culprit: if i == j { None } else { Some(j as u32) } }
}

/// Events for snake `i`'s head lying on the first `k` body cells of snake `j`.
pub open spec fn segment_events(ps: Seq<Player>, i: int, j: int, k: int) -> Seq<DeathEvent>
    decreases k,
{
    if k <= 0 {
        seq![]
    } else {
        let prev = segment_events(ps, i, j, k - 1);
        if body_of(ps, j)[k - 1] == head_of(ps, i) {
            prev.push(segment_event(i, j))
        } else {
            prev
        }
    }
}

/// Events for snake `i`'s head lying on a cell of snake `j`: its head (unless `j`
/// is `i`), then its body from front to tail.
pub open spec fn snake_events(ps: Seq<Player>, i: int, j: int) -> Seq<DeathEvent> {
    if !alive(ps, j) {
        seq![]
    } else {
        let on_head: Seq<DeathEvent> = if j != i && head_of(ps, j) == head_of(ps, i) {
            seq![DeathEvent { target: i as u32, culprit: Some(j as u32) }]
        } else {
            seq![]
        };
        on_head + segment_events(ps, i, j, body_of(ps, j).len() as int)
    }
}

/// Events for snake `i` against the snakes of players `0 .. j`.
pub open spec fn hits_upto(ps: Seq<Player>, i: int, j: int) -> Seq<DeathEvent>
    decreases j,
{
    if j <= 0 {
        seq![]
    } else {
        hits_upto(ps, i, j - 1) + snake_events(ps, i, j - 1)
    }
}

/// Every event for the snake of player `i`: leaving the grid first, then each cell
/// of another entity that its head lies on.
pub open spec fn target_events(ps: Seq<Player>, grid: GameGrid, i: int) -> Seq<DeathEvent> {
    if !alive(ps, i) {
        seq![]
    } else {
        let bounds: Seq<DeathEvent> = if !grid.contains(head_of(ps, i)) {
            seq![DeathEvent { target: i as u32, culprit: None }]
        } else {
            seq![]
        };
        bounds + hits_upto(ps, i, ps.len() as int)
    }
}

/// The events for the snakes of players `0 .. m`, in order of player.
pub open spec fn collision_events(ps: Seq<Player>, grid: GameGrid, m: int) -> Seq<DeathEvent>
    decreases m,
{
    if m <= 0 {
        seq![]
    } else {
        collision_events(ps, grid, m - 1) + target_events(ps, grid, m - 1)
    }
}

fn push_segment_events(
    players: &Vec<Player>,
    i: usize,
    j: usize,
    head: GridPosition,
    body: &Vec<GridPosition>,
    out: &mut Vec<DeathEvent>,
)
    requires
        i < players@.len(),
        j < players@.len(),
        alive(players@, i as int),
        alive(players@, j as int),
        head == head_of(players@, i as int),
        body@ == body_of(players@, j as int),
    ensures
        final(out)@ == old(out)@ + segment_events(players@, i as int, j as int, body@.len() as int),
{
    let ghost start = out@;
    let mut k: usize = 0;
    while k < body.len()
        invariant
            k <= body@.len(),
            i < players@.len(),
            j < players@.len(),
            head == head_of(players@, i as int),
            body@ == body_of(players@, j as int),
            out@ == start + segment_events(players@, i as int, j as int, k as int),
        decreases body@.len() - k,
    {
        if body[k] == head {
            let culprit = if i == j {
                None
            } else {
                Some(j as u32)
            };
            out.push(DeathEvent { target: i as u32, culprit });
            assert(out@ =~= start + segment_events(players@, i as int, j as int, k + 1));
        } else {
            assert(out@ =~= start + segment_events(players@, i as int, j as int, k + 1));
        }
        k = k + 1;
    }
}

/// The death events of snake `i`.
fn push_target_events(players: &Vec<Player>, grid: &GameGrid, i: usize, out: &mut Vec<DeathEvent>)
    requires
        i < players@.len(),
        players@.len() <= u32::MAX,
    ensures
        final(out)@ == old(out)@ + target_events(players@, *grid, i as int),
{
    let ghost start = out@;
    let head = match &players[i].snake {
        Some(s) => s.head,
        None => {
            assert(out@ =~= start + target_events(players@, *grid, i as int));
            return ;
        },
    };
    if !grid.contains_position(&head) {
        out.push(DeathEvent { target: i as u32, culprit: None });
    }
    let ghost bounds = out@.subrange(start.len() as int, out@.len() as int);
    assert(out@ =~= start + bounds);
    let mut j: usize = 0;
    while j < players.len()
        invariant
            i < players@.len(),
            j <= players@.len(),
            players@.len() <= u32::MAX,
            alive(players@, i as int),
            head == head_of(players@, i as int),
            out@ == start + bounds + hits_upto(players@, i as int, j as int),
            bounds == (if !grid.contains(head) {
                seq![DeathEvent { target: i as u32, culprit: None }]
            } else {
                seq![]
            }),
        decreases players@.len() - j,
    {
        let ghost before = out@;
        match &players[j].snake {
            Some(s) => {
                if j != i && s.head == head {
                    out.push(DeathEvent { target: i as u32, culprit: Some(j as u32) });
                }
                push_segment_events(players, i, j, head, &s.body, out);
            },
            None => {},
        }
        assert(out@ =~= before + snake_events(players@, i as int, j as int));
        assert(hits_upto(players@, i as int, j + 1) == hits_upto(players@, i as int, j as int)
            + snake_events(players@, i as int, j as int));
        assert(out@ =~= start + bounds + hits_upto(players@, i as int, j + 1));
        j = j + 1;
    }
    assert(out@ =~= start + target_events(players@, *grid, i as int));
}

/// Finds every collision after movement. A head outside the grid gives one event
/// with no culprit. A head on the cell of another snake's head gives one event
/// crediting that snake's player; a head on a body cell gives one event per such
/// cell, crediting the body's player, or nobody when the body is its own. All
/// events are found before any is applied.
pub fn detect_collisions(players: &Vec<Player>, grid: &GameGrid) -> (r: Vec<DeathEvent>)
    requires
        players@.len() <= u32::MAX,
    ensures
        r@ == collision_events(players@, *grid, players@.len() as int),
{
    let mut out: Vec<DeathEvent> = Vec::new();
    let mut i: usize = 0;
    while i < players.len()
        invariant
            i <= players@.len(),
            players@.len() <= u32::MAX,
            out@ == collision_events(players@, *grid, i as int),
        decreases players@.len() - i,
    {
        push_target_events(players, grid, i, &mut out);
        i = i + 1;
    }
    out
}

} // verus!
