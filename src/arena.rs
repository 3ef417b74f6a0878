use vstd::prelude::*;
use crate::ai::{choice_spec, choose_move};
use crate::collisions::{alive, collision_events, detect_collisions, head_of, target_events, DeathEvent};
use crate::death::{apply_deaths, apply_event, apply_events, count_down_respawns, DeathConfig};
use crate::direction::Direction;
use crate::food::{
    all_wf, eat_food, meal, remove_and_rot, starvation_events, survivors, Food, FoodConfig,
};
use crate::grid::{is_occupied, GameGrid, GridPosition};
use crate::players::{AgentKind, Player, Score};
use crate::random::draw_below;
use crate::snakes::{kept_segments, Snake, DEFAULT_LENGTH};
use crate::turns::{ready_spec, ticked, Turn, TurnConfig};

verus! {

/// The store of everything on the grid, with the turn that drives it.
#[derive(Debug)]
pub struct Arena {
    pub grid: GameGrid,
    pub players: Vec<Player>,
    pub food: Vec<Food>,
    pub turn: Turn,
    pub food_config: FoodConfig,
    pub death_config: DeathConfig,
}

/// Players carry their place as id, and every live head lies on the grid.
pub open spec fn players_wf(ps: Seq<Player>, grid: GameGrid) -> bool {
    &&& ps.len() <= u32::MAX
    &&& forall|i: int| 0 <= i < ps.len() ==> #[trigger] ps[i].id == i
    &&& forall|i: int| 0 <= i < ps.len() && alive(ps, i) ==> grid.contains(#[trigger] head_of(ps, i))
}

/// Every cell that a snake of players `0 .. m` occupies: head, then body.
pub open spec fn snake_cells(ps: Seq<Player>, m: int) -> Seq<GridPosition>
    decreases m,
{
    if m <= 0 {
        seq![]
    } else {
        let prev = snake_cells(ps, m - 1);
        match ps[m - 1].snake {
            Some(s) => prev + seq![s.head] + s.body@,
            None => prev,
        }
    }
}

pub open spec fn food_cells(foods: Seq<Food>) -> Seq<GridPosition> {
    foods.map_values(|f: Food| f.position)
}

/// Whether every live snake holds an intent.
pub open spec fn all_intents(ps: Seq<Player>) -> bool {
    forall|i: int| 0 <= i < ps.len() && alive(ps, i) ==> (#[trigger] ps[i].snake)->Some_0.intent is Some
}

/// A death event always removes its target's snake, and no snake comes back.
proof fn lemma_apply_events(ps: Seq<Player>, es: Seq<DeathEvent>, r: u32)
    ensures
        apply_events(ps, es, r).len() == ps.len(),
        forall|t: int| 0 <= t < ps.len() ==> #[trigger] apply_events(ps, es, r)[t].id == ps[t].id,
        forall|t: int|
            0 <= t < ps.len() && (#[trigger] apply_events(ps, es, r)[t]).snake is Some
                ==> apply_events(ps, es, r)[t].snake == ps[t].snake,
        forall|k: int|
            0 <= k < es.len() && (es[k].target as int) < ps.len() ==> (#[trigger] apply_events(
                ps,
                es,
                r,
            )[es[k].target as int]).snake is None,
    decreases es.len(),
{
    if es.len() > 0 {
        let prev = es.drop_last();
        lemma_apply_events(ps, prev, r);
        let earlier = apply_events(ps, prev, r);
        let e = es.last();
        let later = apply_event(earlier, e, r);
        assert(apply_events(ps, es, r) == later);
        assert forall|k: int|
            0 <= k < es.len() && (es[k].target as int) < ps.len() implies (#[trigger] later[es[k].target as int]).snake is None by {
            if k < es.len() - 1 {
                assert(es[k] == prev[k]);
                assert(earlier[prev[k].target as int].snake is None);
            }
        }
    }
}

/// A head outside the grid always yields an event against its snake.
proof fn lemma_out_of_bounds_event(ps: Seq<Player>, grid: GameGrid, i: int, m: int)
    requires
        0 <= i < m,
        m <= ps.len(),
        alive(ps, i),
        !grid.contains(head_of(ps, i)),
    ensures
        collision_events(ps, grid, m).contains(DeathEvent { target: i as u32, culprit: None }),
    decreases m,
{
    let e = DeathEvent { target: i as u32, culprit: None };
    let prev = collision_events(ps, grid, m - 1);
    let last = target_events(ps, grid, m - 1);
    assert(collision_events(ps, grid, m) == prev + last);
    if i == m - 1 {
        assert(last[0] == e);
        assert((prev + last)[prev.len() as int] == e);
    } else {
        lemma_out_of_bounds_event(ps, grid, i, m - 1);
        let k = choose|k: int| 0 <= k < prev.len() && prev[k] == e;
        assert((prev + last)[k] == e);
    }
}


/// The cells of a snake: head, then body.
pub open spec fn cells_of(s: Snake) -> Seq<GridPosition> {
    seq![s.head] + s.body@
}

/// Whether `x` lies on the snake of a live player other than `i`.
pub open spec fn on_other_snake(ps: Seq<Player>, i: int, x: GridPosition) -> bool {
    exists|j: int| 0 <= j < ps.len() && j != i && alive(ps, j) && is_occupied(cells_of(ps[j].snake->Some_0), x)
}

/// Whether `x` lies on a live snake or on food.
pub open spec fn taken(ps: Seq<Player>, foods: Seq<Food>, x: GridPosition) -> bool {
    (exists|j: int| 0 <= j < ps.len() && alive(ps, j) && is_occupied(cells_of(ps[j].snake->Some_0), x))
        || is_occupied(food_cells(foods), x)
}

/// What placing the waiting players among the first `m` has done: each of them is
/// either on a fresh snake, alive, on a grid cell that no food and no other snake
/// covers, or still waiting, which happens only when every grid cell is taken.
/// Every other player is as it was.
pub open spec fn placed_upto(start: Seq<Player>, end: Seq<Player>, grid: GameGrid, foods: Seq<Food>, m: int) -> bool {
    &&& forall|j: int| 0 <= j < m && !waiting(start[j]) ==> #[trigger] end[j] == start[j]
    &&& forall|j: int|
        0 <= j < m && waiting(start[j]) && (#[trigger] end[j]).snake is Some ==> {
            let h = end[j].snake->Some_0.head;
            &&& fresh_on(end[j].snake->Some_0, h)
            &&& end[j] == (Player { snake: end[j].snake, is_dead: false, ..start[j] })
            &&& grid.contains(h)
            &&& !is_occupied(food_cells(foods), h)
            &&& !on_other_snake(end, j, h)
        }
    &&& forall|j: int|
        0 <= j < m && waiting(start[j]) && (#[trigger] end[j]).snake is None ==> end[j] == start[j]
            && forall|x: GridPosition| grid.contains(x) ==> taken(end, foods, x)
}

/// The outcome of placing every waiting player; see `placed_upto`.
pub open spec fn respawned(start: Seq<Player>, end: Seq<Player>, grid: GameGrid, foods: Seq<Food>) -> bool {
    end.len() == start.len() && placed_upto(start, end, grid, foods, start.len() as int)
}

proof fn lemma_occupied_concat(a: Seq<GridPosition>, b: Seq<GridPosition>)
    ensures
        forall|x: GridPosition| is_occupied(a + b, x) <==> (is_occupied(a, x) || is_occupied(b, x)),
{
    assert forall|x: GridPosition| is_occupied(a + b, x) <==> (is_occupied(a, x) || is_occupied(b, x)) by {
        if is_occupied(a + b, x) {
            let k = choose|k: int| 0 <= k < (a + b).len() && (a + b)[k] == x;
            if k >= a.len() {
                assert(b[k - a.len()] == x);
            }
        }
        if is_occupied(a, x) {
            let k = choose|k: int| 0 <= k < a.len() && a[k] == x;
            assert((a + b)[k] == x);
        }
        if is_occupied(b, x) {
            let k = choose|k: int| 0 <= k < b.len() && b[k] == x;
            assert((a + b)[a.len() + k] == x);
        }
    }
}

/// A cell is among the snake cells of the first `n` players exactly when some live
/// one of them covers it.
proof fn lemma_cells_member(ps: Seq<Player>, n: int)
    requires
        0 <= n <= ps.len(),
    ensures
        forall|x: GridPosition|
            is_occupied(snake_cells(ps, n), x) <==> exists|j: int|
                0 <= j < n && alive(ps, j) && is_occupied(cells_of(ps[j].snake->Some_0), x),
    decreases n,
{
    if n > 0 {
        lemma_cells_member(ps, n - 1);
        match ps[n - 1].snake {
            Some(s) => {
                let a = snake_cells(ps, n - 1);
                assert(snake_cells(ps, n) =~= a + cells_of(s));
                lemma_occupied_concat(a, cells_of(s));
                assert forall|x: GridPosition|
                    is_occupied(snake_cells(ps, n), x) <==> exists|j: int|
                        0 <= j < n && alive(ps, j) && is_occupied(cells_of(ps[j].snake->Some_0), x) by {
                    if is_occupied(cells_of(s), x) {
                        assert(alive(ps, n - 1) && is_occupied(cells_of(ps[n - 1].snake->Some_0), x));
                    }
                    if exists|j: int| 0 <= j < n && alive(ps, j) && is_occupied(cells_of(ps[j].snake->Some_0), x) {
                        let j = choose|j: int| 0 <= j < n && alive(ps, j) && is_occupied(cells_of(ps[j].snake->Some_0), x);
                        if j < n - 1 {
                            assert(is_occupied(a, x));
                        }
                    }
                }
            },
            None => {
                assert forall|x: GridPosition|
                    is_occupied(snake_cells(ps, n), x) <==> exists|j: int|
                        0 <= j < n && alive(ps, j) && is_occupied(cells_of(ps[j].snake->Some_0), x) by {
                    if exists|j: int| 0 <= j < n && alive(ps, j) && is_occupied(cells_of(ps[j].snake->Some_0), x) {
                        let j = choose|j: int| 0 <= j < n && alive(ps, j) && is_occupied(cells_of(ps[j].snake->Some_0), x);
                        assert(j < n - 1);
                    }
                }
            },
        }
    }
}

/// Placing player `i` on free cell `p` keeps what `placed_upto` says of the players
/// before it, and adds `i`.
proof fn lemma_place(
    start: Seq<Player>,
    before: Seq<Player>,
    after: Seq<Player>,
    grid: GameGrid,
    foods: Seq<Food>,
    i: int,
    p: GridPosition,
)
    requires
        0 <= i < start.len(),
        before.len() == start.len(),
        after.len() == start.len(),
        after == before.update(i, after[i]),
        forall|j: int| i <= j < start.len() ==> #[trigger] before[j] == start[j],
        placed_upto(start, before, grid, foods, i),
        waiting(start[i]),
        fresh_on(after[i].snake->Some_0, p),
        after[i] == (Player { snake: after[i].snake, is_dead: false, ..start[i] }),
        after[i].snake is Some,
        grid.contains(p),
        !is_occupied(snake_cells(before, before.len() as int) + food_cells(foods), p),
    ensures
        placed_upto(start, after, grid, foods, i + 1),
{
    lemma_cells_member(before, before.len() as int);
    lemma_occupied_concat(snake_cells(before, before.len() as int), food_cells(foods));
    let s = after[i].snake->Some_0;
    assert(cells_of(s) =~= seq![p]);
    assert forall|x: GridPosition| taken(before, foods, x) implies taken(after, foods, x) by {
        if exists|j: int| 0 <= j < before.len() && alive(before, j) && is_occupied(cells_of(before[j].snake->Some_0), x) {
            let j = choose|j: int| 0 <= j < before.len() && alive(before, j) && is_occupied(cells_of(before[j].snake->Some_0), x);
            assert(before[i] == start[i]);
            assert(j != i);
            assert(after[j] == before[j]);
            assert(alive(after, j) && is_occupied(cells_of(after[j].snake->Some_0), x));
        }
    }
    assert forall|j: int|
        0 <= j < i + 1 && waiting(start[j]) && (#[trigger] after[j]).snake is Some implies {
            let h = after[j].snake->Some_0.head;
            &&& fresh_on(after[j].snake->Some_0, h)
            &&& after[j] == (Player { snake: after[j].snake, is_dead: false, ..start[j] })
            &&& grid.contains(h)
            &&& !is_occupied(food_cells(foods), h)
            &&& !on_other_snake(after, j, h)
        } by {
        let h = after[j].snake->Some_0.head;
        if j == i {
            assert(h == p);
            if on_other_snake(after, j, h) {
                let k = choose|k: int| 0 <= k < after.len() && k != j && alive(after, k) && is_occupied(cells_of(after[k].snake->Some_0), h);
                assert(after[k] == before[k]);
                assert(alive(before, k) && is_occupied(cells_of(before[k].snake->Some_0), p));
                assert(is_occupied(snake_cells(before, before.len() as int), p));
            }
        } else {
            assert(after[j] == before[j]);
            assert(!on_other_snake(before, j, h));
            if on_other_snake(after, j, h) {
                let k = choose|k: int| 0 <= k < after.len() && k != j && alive(after, k) && is_occupied(cells_of(after[k].snake->Some_0), h);
                if k == i {
                    assert(is_occupied(seq![p], h));
                    assert(seq![p][0] == p);
                    assert(h == p);
                    assert(is_occupied(cells_of(before[j].snake->Some_0), p)) by {
                        assert(cells_of(before[j].snake->Some_0)[0] == h);
                    }
                    assert(alive(before, j));
                    assert(is_occupied(snake_cells(before, before.len() as int), p));
                } else {
                    assert(after[k] == before[k]);
                    assert(alive(before, k) && is_occupied(cells_of(before[k].snake->Some_0), h));
                    assert(on_other_snake(before, j, h));
                }
            }
        }
    }
    assert forall|j: int| 0 <= j < i + 1 && !waiting(start[j]) implies #[trigger] after[j] == start[j] by {
        if j < i {
            assert(after[j] == before[j]);
        }
    }
    assert forall|j: int|
        0 <= j < i + 1 && waiting(start[j]) && (#[trigger] after[j]).snake is None implies after[j] == start[j]
            && forall|x: GridPosition| grid.contains(x) ==> taken(after, foods, x) by {
        assert(j < i);
        assert(after[j] == before[j]);
    }
}

impl Arena {
    pub open spec fn wf(&self) -> bool {
        &&& self.grid.wf()
        &&& players_wf(self.players@, self.grid)
        &&& all_wf(self.food@)
        &&& self.turn.wf()
    }

    /// An arena with one player per agent, in order, none of them placed yet.
    pub fn new(
        grid: GameGrid,
        agents: &Vec<AgentKind>,
        turns: TurnConfig,
        food_config: FoodConfig,
        death_config: DeathConfig,
    ) -> (r: Arena)
        requires
            grid.wf(),
            agents@.len() <= u32::MAX,
        ensures
            r.wf(),
            r.grid == grid,
            r.players@.len() == agents@.len(),
            forall|i: int|
                0 <= i < agents@.len() ==> #[trigger] r.players@[i] == (Player {
                    id: i as u32,
                    agent: agents@[i],
                    score: Score::new_spec(),
                    is_dead: true,
                    snake: None,
                    respawn_in: None,
                }),
            r.food@.len() == 0,
            r.turn == Turn::from_config_spec(turns),
            r.food_config == food_config,
            r.death_config == death_config,
    {
        let mut players: Vec<Player> = Vec::new();
        let mut i: usize = 0;
        while i < agents.len()
            invariant
                i <= agents@.len(),
                agents@.len() <= u32::MAX,
                players@.len() == i,
                forall|j: int|
                    0 <= j < i ==> #[trigger] players@[j] == (Player {
                        id: j as u32,
                        agent: agents@[j],
                        score: Score::new_spec(),
                        is_dead: true,
                        snake: None,
                        respawn_in: None,
                    }),
            decreases agents@.len() - i,
        {
            players.push(Player::new(i as u32, agents[i]));
            i = i + 1;
        }
        Arena {
            grid,
            players,
            food: Vec::new(),
            turn: Turn::from_config(turns),
            food_config,
            death_config,
        }
    }

    /// Every cell a snake occupies, head then body, in order of player.
    pub fn snake_cells(&self) -> (r: Vec<GridPosition>)
        ensures
            r@ == snake_cells(self.players@, self.players@.len() as int),
    {
        let mut r: Vec<GridPosition> = Vec::new();
        let mut i: usize = 0;
        while i < self.players.len()
            invariant
                i <= self.players@.len(),
                r@ == snake_cells(self.players@, i as int),
            decreases self.players@.len() - i,
        {
            match &self.players[i].snake {
                Some(s) => {
                    r.push(s.head);
                    let mut k: usize = 0;
                    let ghost base = r@;
                    while k < s.body.len()
                        invariant
                            k <= s.body@.len(),
                            r@ == base + s.body@.take(k as int),
                        decreases s.body@.len() - k,
                    {
                        r.push(s.body[k]);
                        assert(s.body@.take(k + 1) =~= s.body@.take(k as int).push(s.body@[k as int]));
                        assert(r@ =~= base + s.body@.take(k + 1));
                        k = k + 1;
                    }
                    assert(s.body@.take(s.body@.len() as int) =~= s.body@);
                    assert(r@ =~= snake_cells(self.players@, i + 1));
                },
                None => {},
            }
            i = i + 1;
        }
        r
    }

    /// Every cell a collidable entity occupies: snake cells, then food.
    pub fn occupied_cells(&self) -> (r: Vec<GridPosition>)
        ensures
            r@ == snake_cells(self.players@, self.players@.len() as int) + food_cells(self.food@),
    {
        let mut r = self.snake_cells();
        let ghost base = r@;
        let mut k: usize = 0;
        while k < self.food.len()
            invariant
                k <= self.food@.len(),
                r@ == base + food_cells(self.food@).take(k as int),
            decreases self.food@.len() - k,
        {
            r.push(self.food[k].position);
            assert(food_cells(self.food@).take(k + 1) =~= food_cells(self.food@).take(k as int).push(
                self.food@[k as int].position,
            ));
            assert(r@ =~= base + food_cells(self.food@).take(k + 1));
            k = k + 1;
        }
        assert(food_cells(self.food@).take(self.food@.len() as int) =~= food_cells(self.food@));
        r
    }
}


/// `new` is `old` moved one step by its settled intent; see `Snake::slither`.
pub open spec fn slithered(old: Snake, new: Snake) -> bool {
    let d = old.settled_intent();
    let grown = seq![old.head] + old.body@;
    &&& new.body@ == grown.take(
        if grown.len() < kept_segments(old.length) {
            grown.len() as int
        } else {
            kept_segments(old.length)
        },
    )
    &&& new.head == old.head.stepped(d)
    &&& new.direction == d
    &&& new.intent is None
    &&& new.length == old.length
}

/// A fresh snake of default length on `p`, facing north, with no body and no intent.
pub open spec fn fresh_on(s: Snake, p: GridPosition) -> bool {
    &&& s.length == DEFAULT_LENGTH
    &&& s.head == p
    &&& s.body@.len() == 0
    &&& s.direction == Direction::North
    &&& s.intent is None
}

/// Whether player `p` waits to be placed on the grid.
pub open spec fn waiting(p: Player) -> bool {
    p.snake is None && p.respawn_in is None
}

impl Arena {
    /// Whether food may spawn: there is none on the grid.
    pub fn can_spawn_food(&self) -> (r: bool)
        ensures
            r == (self.food@.len() == 0),
    {
        self.food.len() == 0
    }

    /// Food spawns only while there is none, on a free cell; on a full grid none spawns.
    pub fn spawn_food(&mut self, rng: &mut rand::rngs::StdRng)
        requires
            old(self).wf(),
        ensures
            final(self).wf(),
            final(self).players == old(self).players,
            final(self).grid == old(self).grid,
            final(self).turn == old(self).turn,
            final(self).food_config == old(self).food_config,
            final(self).death_config == old(self).death_config,
            old(self).food@.len() > 0 ==> final(self).food@ == old(self).food@,
            old(self).food@.len() == 0 ==> final(self).food@.len() <= 1,
            old(self).food@.len() == 0 ==> (final(self).food@.len() == 0 <==> old(self).grid.is_full(
                snake_cells(old(self).players@, old(self).players@.len() as int),
            )),
            old(self).food@.len() == 0 && final(self).food@.len() == 1 ==> {
                let f = final(self).food@[0];
                &&& f.lifetime == old(self).food_config.initial_lifetime
                &&& f.initial_lifetime == old(self).food_config.initial_lifetime
                &&& old(self).grid.contains(f.position)
                &&& !is_occupied(
                    snake_cells(old(self).players@, old(self).players@.len() as int),
                    f.position,
                )
            },
    {
        if !self.can_spawn_food() {
            return ;
        }
        let occupied = self.occupied_cells();
        assert(food_cells(self.food@) =~= Seq::<GridPosition>::empty());
        assert(occupied@ =~= snake_cells(self.players@, self.players@.len() as int));
        match self.grid.get_unoccupied_position(&occupied, rng) {
            Some(p) => {
                self.food.push(Food::new(self.food_config.initial_lifetime, p));
            },
            None => {},
        }
    }

    /// Places every waiting player on a free cell with a fresh snake, in order of
    /// player, and marks it alive; see `respawned`.
    pub fn respawn(&mut self, rng: &mut rand::rngs::StdRng)
        requires
            old(self).wf(),
        ensures
            final(self).wf(),
            final(self).grid == old(self).grid,
            final(self).food == old(self).food,
            final(self).turn == old(self).turn,
            final(self).food_config == old(self).food_config,
            final(self).death_config == old(self).death_config,
            respawned(old(self).players@, final(self).players@, old(self).grid, old(self).food@),
    {
        let ghost start = self.players@;
        let mut i: usize = 0;
        while i < self.players.len()
            invariant
                self.wf(),
                i <= self.players@.len(),
                self.players@.len() == start.len(),
                self.grid == old(self).grid,
                self.food == old(self).food,
                self.turn == old(self).turn,
                self.food_config == old(self).food_config,
                self.death_config == old(self).death_config,
                forall|j: int| i <= j < start.len() ==> #[trigger] self.players@[j] == start[j],
                placed_upto(start, self.players@, self.grid, self.food@, i as int),
            decreases start.len() - i,
        {
            if self.players[i].snake.is_none() && self.players[i].respawn_in.is_none() {
                let occupied = self.occupied_cells();
                let ghost before = self.players@;
                let ghost all_cells = occupied@;
                match self.grid.get_unoccupied_position(&occupied, rng) {
                    Some(p) => {
                        self.players[i].snake = Some(Snake::new(p));
                        self.players[i].is_dead = false;
                        assert(head_of(self.players@, i as int) == p);
                        proof {
                            assert forall|j: int| 0 <= j < self.players@.len() implies #[trigger] self.players@[j].id == j by {
                                assert(before[j].id == j);
                            }
                            assert forall|j: int|
                                0 <= j < self.players@.len() && alive(self.players@, j) implies self.grid.contains(#[trigger] head_of(self.players@, j)) by {
                                if j != i {
                                    assert(self.players@[j] == before[j]);
                                    assert(alive(before, j));
                                    assert(self.grid.contains(head_of(before, j)));
                                } else {
                                    assert(self.grid.contains(p));
                                }
                            }
                            assert(self.players@ =~= before.update(i as int, self.players@[i as int]));
                            lemma_place(start, before, self.players@, self.grid, self.food@, i as int, p);
                        }
                    },
                    None => {
                        proof {
                            lemma_occupied_concat(
                                snake_cells(before, before.len() as int),
                                food_cells(self.food@),
                            );
                            lemma_cells_member(before, before.len() as int);
                            assert forall|x: GridPosition| self.grid.contains(x) implies taken(
                                before,
                                self.food@,
                                x,
                            ) by {
                                assert(is_occupied(all_cells, x));
                            }
                            assert(placed_upto(start, self.players@, self.grid, self.food@, i + 1));
                        }
                    },
                }
            } else {
                assert(placed_upto(start, self.players@, self.grid, self.food@, i + 1));
            }
            i = i + 1;
        }
    }

    /// The pre-turn stage, before the turn is requested: food spawns if there is
    /// none, then waiting players are placed.
    pub fn pre_turn(&mut self, rng: &mut rand::rngs::StdRng)
        requires
            old(self).wf(),
        ensures
            final(self).wf(),
            final(self).turn == old(self).turn,
            old(self).turn.requested ==> final(self).players == old(self).players
                && final(self).food == old(self).food,
            !old(self).turn.requested && old(self).food@.len() > 0 ==> final(self).food@
                == old(self).food@,
            !old(self).turn.requested ==> respawned(
                old(self).players@,
                final(self).players@,
                old(self).grid,
                final(self).food@,
            ),
    {
        if !self.turn.requested {
            self.spawn_food(rng);
            self.respawn(rng);
        }
    }
}


/// The players after the request stage: a live built-in agent holds the move it
/// chose, a live random agent holds some move, everything else is as it was.
pub open spec fn requested_moves(
    old: Seq<Player>,
    new: Seq<Player>,
    foods: Seq<Food>,
    grid: GameGrid,
    i: int,
) -> bool {
    let o = old[i];
    let n = new[i];
    match (o.agent, o.snake) {
        (AgentKind::Builtin { difficulty }, Some(s)) => n == Player {
            snake: Some(
                Snake {
                    intent: Some(
                        choice_spec(difficulty, s, foods, snake_cells(old, old.len() as int), grid),
                    ),
                    ..s
                },
            ),
            ..o
        },
        (AgentKind::Random, Some(s)) => exists|d: Direction|
            n == Player { snake: Some(Snake { intent: Some(d), ..s }), ..o },
        _ => n == o,
    }
}

impl Arena {
    /// Asks every in-process agent for a move, then marks the turn requested. Does
    /// nothing once the turn is requested.
    pub fn request_moves(&mut self, rng: &mut rand::rngs::StdRng)
        requires
            old(self).wf(),
        ensures
            final(self).wf(),
            final(self).grid == old(self).grid,
            final(self).food == old(self).food,
            final(self).food_config == old(self).food_config,
            final(self).death_config == old(self).death_config,
            old(self).turn.requested ==> final(self).players == old(self).players && final(self).turn
                == old(self).turn,
            !old(self).turn.requested ==> final(self).turn == (Turn {
                requested: true,
                ..old(self).turn
            }),
            !old(self).turn.requested ==> final(self).players@.len() == old(self).players@.len()
                && forall|i: int|
                0 <= i < old(self).players@.len() ==> #[trigger] requested_moves(
                    old(self).players@,
                    final(self).players@,
                    old(self).food@,
                    old(self).grid,
                    i,
                ),
    {
        if self.turn.requested {
            return ;
        }
        let ghost start = self.players@;
        let cells = self.snake_cells();
        let cardinals = Direction::cardinals();
        let mut i: usize = 0;
        while i < self.players.len()
            invariant
                self.wf(),
                i <= self.players@.len(),
                self.players@.len() == start.len(),
                cells@ == snake_cells(start, start.len() as int),
                self.grid == old(self).grid,
                self.food == old(self).food,
                self.turn == old(self).turn,
                self.food_config == old(self).food_config,
                self.death_config == old(self).death_config,
                forall|j: int| i <= j < start.len() ==> #[trigger] self.players@[j] == start[j],
                forall|j: int|
                    0 <= j < i ==> #[trigger] requested_moves(
                        start,
                        self.players@,
                        self.food@,
                        self.grid,
                        j,
                    ),
            decreases start.len() - i,
        {
            let ghost before = self.players@;
            let agent = self.players[i].agent;
            let choice: Option<Direction> = match (&self.players[i].snake, agent) {
                (Some(s), AgentKind::Builtin { difficulty }) => {
                    assert(alive(self.players@, i as int));
                    assert(self.grid.contains(head_of(self.players@, i as int)));
                    Some(choose_move(difficulty, s, &self.food, &cells, &self.grid))
                },
                (Some(_), AgentKind::Random) => {
                    let k = draw_below(rng, 4);
                    Some(cardinals[k as usize])
                },
                _ => None,
            };
            if let Some(d) = choice {
                if let Some(s) = &mut self.players[i].snake {
                    s.intent = Some(d);
                }
            }
            proof {
                assert forall|j: int| 0 <= j < self.players@.len() implies #[trigger] self.players@[j].id == j by {
                    assert(before[j].id == j);
                }
                assert forall|j: int|
                    0 <= j < self.players@.len() && alive(self.players@, j) implies self.grid.contains(#[trigger] head_of(self.players@, j)) by {
                    assert(alive(before, j));
                    assert(self.grid.contains(head_of(before, j)));
                }
                assert forall|j: int| 0 <= j < i + 1 implies #[trigger] requested_moves(
                    start,
                    self.players@,
                    self.food@,
                    self.grid,
                    j,
                ) by {
                    if j < i {
                        assert(self.players@[j] == before[j]);
                        assert(requested_moves(start, before, self.food@, self.grid, j));
                    } else {
                        if let Some(d) = choice {
                            if agent == AgentKind::Random {
                                assert(self.players@[j] == Player { snake: Some(Snake { intent: Some(d), ..start[j].snake->Some_0 }), ..start[j] });
                            }
                        }
                    }
                }
            }
            i = i + 1;
        }
        self.turn.request();
    }

    /// A keyboard or external agent's move for `player`; the last one given in a turn
    /// wins. Players without a snake are left alone.
    pub fn set_intent(&mut self, player: u32, direction: Direction)
        requires
            old(self).wf(),
        ensures
            final(self).wf(),
            final(self).grid == old(self).grid,
            final(self).food == old(self).food,
            final(self).turn == old(self).turn,
            final(self).food_config == old(self).food_config,
            final(self).death_config == old(self).death_config,
            final(self).players@ == if (player as int) < old(self).players@.len() && alive(
                old(self).players@,
                player as int,
            ) {
                let o = old(self).players@[player as int];
                old(self).players@.update(
                    player as int,
                    Player { snake: Some(Snake { intent: Some(direction), ..o.snake->Some_0 }), ..o },
                )
            } else {
                old(self).players@
            },
    {
        let i = player as usize;
        if i < self.players.len() {
            let ghost before = self.players@;
            if let Some(s) = &mut self.players[i].snake {
                s.intent = Some(direction);
            }
            proof {
                assert forall|j: int| 0 <= j < self.players@.len() implies #[trigger] self.players@[j].id == j by {
                    assert(before[j].id == j);
                }
                assert forall|j: int|
                    0 <= j < self.players@.len() && alive(self.players@, j) implies self.grid.contains(#[trigger] head_of(self.players@, j)) by {
                    assert(alive(before, j));
                    assert(self.grid.contains(head_of(before, j)));
                }
            }
            assert(self.players@ =~= if (player as int) < before.len() && alive(before, player as int) {
                let o = before[player as int];
                before.update(
                    player as int,
                    Player { snake: Some(Snake { intent: Some(direction), ..o.snake->Some_0 }), ..o },
                )
            } else {
                before
            });
        }
    }

    /// Whether every live snake holds an intent.
    pub fn all_ready(&self) -> (r: bool)
        ensures
            r == all_intents(self.players@),
    {
        let mut i: usize = 0;
        while i < self.players.len()
            invariant
                i <= self.players@.len(),
                forall|j: int|
                    0 <= j < i && alive(self.players@, j) ==> (#[trigger] self.players@[j].snake)->Some_0.intent is Some,
            decreases self.players@.len() - i,
        {
            match &self.players[i].snake {
                Some(s) => {
                    if s.intent.is_none() {
                        return false;
                    }
                },
                None => {},
            }
            i = i + 1;
        }
        true
    }

    /// Re-evaluates whether the turn is ready; see `Turn::update_ready`.
    pub fn update_ready(&mut self)
        requires
            old(self).wf(),
        ensures
            final(self).wf(),
            final(self).turn.ready == ready_spec(old(self).turn, all_intents(old(self).players@)),
            final(self).turn == (Turn { ready: final(self).turn.ready, ..old(self).turn }),
            final(self).players == old(self).players,
            final(self).food == old(self).food,
            final(self).grid == old(self).grid,
            final(self).food_config == old(self).food_config,
            final(self).death_config == old(self).death_config,
    {
        let all = self.all_ready();
        self.turn.update_ready(all);
    }
}


/// Whether `new` is `old` with each live snake moved by its settled intent.
pub open spec fn all_slithered(old: Seq<Player>, new: Seq<Player>) -> bool {
    &&& new.len() == old.len()
    &&& forall|i: int|
        0 <= i < old.len() ==> match old[i].snake {
            Some(s) => (#[trigger] new[i]).snake matches Some(t) && slithered(s, t) && new[i] == (
            Player { snake: new[i].snake, ..old[i] }),
            None => new[i] == old[i],
        }
}

/// The score of a player whose snake has `body_len` body cells.
pub open spec fn scored(sc: Score, body_len: int) -> Score {
    let cur = if body_len + 1 > usize::MAX {
        usize::MAX as int
    } else {
        body_len + 1
    };
    Score {
        current_length: cur as usize,
        max_length: if sc.max_length >= cur {
            sc.max_length
        } else {
            cur as usize
        },
        ..sc
    }
}

impl Arena {
    /// The post-request fix-up and the simulate stage: each live snake's intent is
    /// settled (no reversal, heading kept when none was given) and the snake moves by it.
    pub fn move_snakes(&mut self)
        requires
            old(self).wf(),
        ensures
            all_slithered(old(self).players@, final(self).players@),
            final(self).grid == old(self).grid,
            final(self).food == old(self).food,
            final(self).turn == old(self).turn,
            final(self).food_config == old(self).food_config,
            final(self).death_config == old(self).death_config,
    {
        let ghost start = self.players@;
        let mut i: usize = 0;
        while i < self.players.len()
            invariant
                self.grid.wf(),
                players_wf(start, self.grid),
                i <= self.players@.len(),
                self.players@.len() == start.len(),
                self.grid == old(self).grid,
                self.food == old(self).food,
                self.turn == old(self).turn,
                self.food_config == old(self).food_config,
                self.death_config == old(self).death_config,
                forall|j: int| i <= j < start.len() ==> #[trigger] self.players@[j] == start[j],
                forall|j: int|
                    0 <= j < i ==> match start[j].snake {
                        Some(s) => (#[trigger] self.players@[j]).snake matches Some(t) && slithered(s, t)
                            && self.players@[j] == (Player { snake: self.players@[j].snake, ..start[j] }),
                        None => self.players@[j] == start[j],
                    },
            decreases start.len() - i,
        {
            let ghost before = self.players@;
            proof {
                if alive(start, i as int) {
                    assert(self.grid.contains(head_of(start, i as int)));
                }
            }
            if let Some(s) = &mut self.players[i].snake {
                s.settle_intent();
                s.slither();
            }
            proof {
                assert forall|j: int| 0 <= j < i + 1 implies match start[j].snake {
                    Some(s) => (#[trigger] self.players@[j]).snake matches Some(t) && slithered(s, t)
                        && self.players@[j] == (Player { snake: self.players@[j].snake, ..start[j] }),
                    None => self.players@[j] == start[j],
                } by {
                    if j < i {
                        assert(self.players@[j] == before[j]);
                    }
                }
            }
            i = i + 1;
        }
    }

    /// Updates the lengths on the scoreboard: the current length of each live snake,
    /// head included, and the longest it has been.
    pub fn update_scores(&mut self)
        requires
            old(self).wf(),
        ensures
            final(self).wf(),
            final(self).grid == old(self).grid,
            final(self).food == old(self).food,
            final(self).turn == old(self).turn,
            final(self).food_config == old(self).food_config,
            final(self).death_config == old(self).death_config,
            final(self).players@.len() == old(self).players@.len(),
            forall|i: int|
                0 <= i < old(self).players@.len() ==> #[trigger] final(self).players@[i] == match old(
                    self,
                ).players@[i].snake {
                    Some(s) => Player {
                        score: scored(old(self).players@[i].score, s.body@.len() as int),
                        ..old(self).players@[i]
                    },
                    None => old(self).players@[i],
                },
    {
        let ghost start = self.players@;
        let mut i: usize = 0;
        while i < self.players.len()
            invariant
                self.wf(),
                i <= self.players@.len(),
                self.players@.len() == start.len(),
                self.grid == old(self).grid,
                self.food == old(self).food,
                self.turn == old(self).turn,
                self.food_config == old(self).food_config,
                self.death_config == old(self).death_config,
                forall|j: int| i <= j < start.len() ==> #[trigger] self.players@[j] == start[j],
                forall|j: int|
                    0 <= j < i ==> #[trigger] self.players@[j] == match start[j].snake {
                        Some(s) => Player { score: scored(start[j].score, s.body@.len() as int), ..start[j] },
                        None => start[j],
                    },
            decreases start.len() - i,
        {
            let ghost before = self.players@;
            let body_len: Option<usize> = match &self.players[i].snake {
                Some(s) => Some(s.body.len()),
                None => None,
            };
            if let Some(n) = body_len {
                let cur: usize = if n < usize::MAX {
                    n + 1
                } else {
                    n
                };
                self.players[i].score.current_length = cur;
                if self.players[i].score.max_length < cur {
                    self.players[i].score.max_length = cur;
                }
            }
            proof {
                assert forall|j: int| 0 <= j < self.players@.len() implies #[trigger] self.players@[j].id == j by {
                    assert(before[j].id == j);
                }
                assert forall|j: int|
                    0 <= j < self.players@.len() && alive(self.players@, j) implies self.grid.contains(#[trigger] head_of(self.players@, j)) by {
                    assert(alive(before, j));
                    assert(self.grid.contains(head_of(before, j)));
                }
                assert forall|j: int| 0 <= j < i + 1 implies #[trigger] self.players@[j] == match start[j].snake {
                    Some(s) => Player { score: scored(start[j].score, s.body@.len() as int), ..start[j] },
                    None => start[j],
                } by {
                    if j < i {
                        assert(self.players@[j] == before[j]);
                    }
                }
            }
            i = i + 1;
        }
    }
}



/// Each live snake after its meals; see `meal`.
pub open spec fn fed_players(ps: Seq<Player>, foods: Seq<Food>, amount: i32) -> Seq<Player> {
    Seq::new(
        ps.len(),
        |i: int|
            match ps[i].snake {
                Some(s) => Player {
                    snake: Some(
                        Snake { length: meal(s.length, foods, s.head, amount, foods.len() as int).0, ..s },
                    ),
                    ..ps[i]
                },
                None => ps[i],
            },
    )
}

/// Every running respawn countdown one turn further; see `count_down_respawns`.
pub open spec fn counted_down(ps: Seq<Player>) -> Seq<Player> {
    Seq::new(
        ps.len(),
        |i: int|
            Player {
                respawn_in: match ps[i].respawn_in {
                    Some(t) => if t > 0 {
                        Some((t - 1) as u32)
                    } else {
                        None::<u32>
                    },
                    None => None::<u32>,
                },
                ..ps[i]
            },
    )
}

/// The scoreboard after the lengths of the live snakes are taken.
pub open spec fn scored_players(ps: Seq<Player>) -> Seq<Player> {
    Seq::new(
        ps.len(),
        |i: int|
            match ps[i].snake {
                Some(s) => Player { score: scored(ps[i].score, s.body@.len() as int), ..ps[i] },
                None => ps[i],
            },
    )
}

/// All death events of a turn, from the players as they stand after movement:
/// collisions first, then starvation.
pub open spec fn turn_events(moved: Seq<Player>, grid: GameGrid, foods: Seq<Food>, amount: i32) -> Seq<
    DeathEvent,
> {
    collision_events(moved, grid, moved.len() as int) + starvation_events(
        moved,
        foods,
        amount,
        moved.len() as int,
    )
}

/// The players at the end of a turn, from the players as they stand after movement.
pub open spec fn resolved_players(
    moved: Seq<Player>,
    grid: GameGrid,
    foods: Seq<Food>,
    amount: i32,
    respawn: u32,
) -> Seq<Player> {
    scored_players(
        apply_events(
            counted_down(fed_players(moved, foods, amount)),
            turn_events(moved, grid, foods, amount),
            respawn,
        ),
    )
}

impl Arena {
    /// Resolves a ready turn. Intents are settled and every live snake moves; then,
    /// from that one snapshot, collisions are found and the snakes on food eat it;
    /// eaten and rotten food leaves the grid once each and the rest rots; running
    /// respawn countdowns tick; all deaths of the turn are applied as one batch,
    /// collisions first; the scoreboard is updated; and the turn closes, one further
    /// on. Returns the places of the foods removed, in the food list as it was.
    pub fn resolve_turn(&mut self) -> (removed: Vec<usize>)
        requires
            old(self).wf(),
            old(self).turn.ready,
        ensures
            final(self).wf(),
            final(self).turn.current == old(self).turn.current + 1,
            !final(self).turn.ready,
            !final(self).turn.requested,
            final(self).turn.max == old(self).turn.max,
            final(self).grid == old(self).grid,
            final(self).players@.len() == old(self).players@.len(),
            final(self).food_config == old(self).food_config,
            final(self).death_config == old(self).death_config,
            exists|moved: Seq<Player>|
                {
                    &&& all_slithered(old(self).players@, moved)
                    &&& final(self).players@ == resolved_players(
                        moved,
                        old(self).grid,
                        old(self).food@,
                        old(self).food_config.initial_value,
                        old(self).death_config.respawn_time,
                    )
                    &&& final(self).food@ == survivors(
                        fed_players(moved, old(self).food@, old(self).food_config.initial_value),
                        old(self).food@,
                        old(self).food@.len() as int,
                    )
                },
            removed@.len() <= old(self).food@.len(),
            forall|a: int, b: int| 0 <= a < b < removed@.len() ==> removed@[a] < removed@[b],
            forall|a: int| 0 <= a < removed@.len() ==> removed@[a] < old(self).food@.len(),
    {
        self.move_snakes();
        let ghost moved = self.players@;
        let mut events = detect_collisions(&self.players, &self.grid);
        let ghost collided = events@;
        let mut starved = eat_food(&mut self.players, &self.food, self.food_config.initial_value);
        let ghost fed = self.players@;
        assert(fed =~= fed_players(moved, self.food@, self.food_config.initial_value));
        let ghost old_food = self.food@;
        let removed = remove_and_rot(&self.players, &mut self.food);
        count_down_respawns(&mut self.players);
        let ghost counted = self.players@;
        assert(counted =~= counted_down(fed));
        events.append(&mut starved);
        assert(events@.take(collided.len() as int) =~= collided);
        apply_deaths(&mut self.players, &events, self.death_config.respawn_time);
        proof {
            let r = self.death_config.respawn_time;
            lemma_apply_events(counted, events@, r);
            assert forall|j: int| 0 <= j < self.players@.len() implies #[trigger] self.players@[j].id == j by {
                assert(counted[j].id == fed[j].id);
                assert(fed[j].id == moved[j].id);
                assert(old(self).players@[j].id == j);
            }
            assert forall|j: int|
                0 <= j < self.players@.len() && alive(self.players@, j) implies self.grid.contains(#[trigger] head_of(self.players@, j)) by {
                assert(self.players@[j].snake == counted[j].snake);
                assert(counted[j].snake is Some);
                assert(alive(moved, j));
                assert(head_of(self.players@, j) == head_of(moved, j));
                if !self.grid.contains(head_of(moved, j)) {
                    lemma_out_of_bounds_event(moved, self.grid, j, moved.len() as int);
                    let e = DeathEvent { target: j as u32, culprit: None };
                    let k = choose|k: int| 0 <= k < collided.len() && collided[k] == e;
                    assert(events@[k] == e);
                    assert(self.players@[e.target as int].snake is None);
                }
            }
        }
        let ghost applied = self.players@;
        self.update_scores();
        assert(self.players@ =~= scored_players(applied));
        assert(events@ == turn_events(moved, self.grid, old_food, self.food_config.initial_value));
        self.turn.end_turn();
        removed
    }
}


impl Arena {
    /// The start of a scheduler pass: the turn timer runs unless the last turn is
    /// consumed, and unless the game is paused the turn's readiness is decided anew.
    pub fn begin_frame(&mut self, delta_ms: u64, paused: bool)
        requires
            old(self).wf(),
        ensures
            final(self).wf(),
            final(self).players == old(self).players,
            final(self).food == old(self).food,
            final(self).grid == old(self).grid,
            final(self).turn.current == old(self).turn.current,
            final(self).turn.requested == old(self).turn.requested,
            final(self).turn.max == old(self).turn.max,
            final(self).turn.end_early == old(self).turn.end_early,
            final(self).turn.timer == if old(self).turn.current >= old(self).turn.max {
                old(self).turn.timer
            } else {
                ticked(old(self).turn.timer, delta_ms)
            },
            !paused ==> final(self).turn.ready == ready_spec(
                Turn { ready: old(self).turn.ready, ..final(self).turn },
                all_intents(old(self).players@),
            ),
            paused ==> final(self).turn.ready == old(self).turn.ready,
    {
        if !self.turn.turns_finished() {
            self.turn.tick_timer(delta_ms);
        }
        if !paused {
            self.update_ready();
        }
    }
}

} // verus!
