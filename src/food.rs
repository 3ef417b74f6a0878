use vstd::prelude::*;
use crate::collisions::{alive, head_of, DeathEvent};
use crate::grid::GridPosition;
use crate::players::Player;
use crate::snakes::Snake;
use vstd::arithmetic::div_mod::{
    lemma_div_by_multiple, lemma_div_is_ordered, lemma_div_pos_is_pos,
    lemma_fundamental_div_mod_converse,
};

verus! {

/// Lifetime and value that fresh food is given.
#[derive(Debug, Clone, Copy, PartialEq, Eq, Structural)]
pub struct FoodConfig {
    /// Number of turns food lasts.
    pub initial_lifetime: u32,
    /// Growth gained by eating fresh food.
    pub initial_value: i32,
}

impl Default for FoodConfig {
    fn default() -> (r: FoodConfig)
        ensures
            r.initial_lifetime == 50,
            r.initial_value == 5,
    {
        FoodConfig { initial_lifetime: 50, initial_value: 5 }
    }
}

/// A food item: its cell, the lifetime it was spawned with and what is left of it.
#[derive(Debug, Clone, Copy, PartialEq, Eq, Structural)]
pub struct Food {
    pub initial_lifetime: u32,
    pub lifetime: u32,
    pub position: GridPosition,
}

/// `num / den` rounded to the nearest integer, halves away from zero.
pub open spec fn round_div(num: int, den: int) -> int
    recommends
        den > 0,
{
    if num >= 0 {
        (2 * num + den) / (2 * den)
    } else {
        -((2 * -num + den) / (2 * den))
    }
}

/// The growth given by food with `lifetime` of `initial` turns left, for growth
/// amount `amount`: `amount * (2 * lifetime / initial - 1)`, rounded. Fresh food gives
/// `amount`, food at half its life nothing, rotten food `-amount`.
pub open spec fn growth_spec(amount: int, lifetime: int, initial: int) -> int {
    if initial == 0 {
        0
    } else {
        round_div(amount * (2 * lifetime - initial), initial)
    }
}

/// Rounding a quotient whose exact value lies within `[-m, m]` stays within `[-m-1, m+1]`.
proof fn lemma_round_div_bound(num: int, den: int, m: int)
    requires
        den > 0,
        m >= 0,
        -(m * den) <= num <= m * den,
    ensures
        -(m + 1) <= round_div(num, den) <= m + 1,
{
    let x = if num >= 0 {
        2 * num + den
    } else {
        2 * -num + den
    };
    assert(0 <= x <= (m + 1) * (2 * den)) by (nonlinear_arith)
        requires
            x == (if num >= 0 {
                2 * num + den
            } else {
                2 * -num + den
            }),
            -(m * den) <= num <= m * den,
            den > 0,
    ;
    lemma_div_is_ordered(x, (m + 1) * (2 * den), 2 * den);
    lemma_div_by_multiple(m + 1, 2 * den);
    lemma_div_pos_is_pos(x, 2 * den);
}

/// Fresh food gives exactly the growth amount, food with no lifetime left takes
/// exactly that much away.
pub proof fn lemma_fresh_and_rotten_growth(amount: int, initial: int)
    requires
        initial > 0,
    ensures
        growth_spec(amount, initial, initial) == amount,
        growth_spec(amount, 0, initial) == -amount,
{
    let n = amount * initial;
    assert(amount * (2 * initial - initial) == n) by (nonlinear_arith)
        requires
            n == amount * initial,
    ;
    assert(amount * (2 * 0 - initial) == -n) by (nonlinear_arith)
        requires
            n == amount * initial,
    ;
    if amount >= 0 {
        assert(n >= 0 && 2 * n + initial == amount * (2 * initial) + initial) by (nonlinear_arith)
            requires
                amount >= 0,
                initial > 0,
                n == amount * initial,
        ;
        lemma_fundamental_div_mod_converse(2 * n + initial, 2 * initial, amount, initial);
    } else {
        assert(n < 0 && 2 * -n + initial == (-amount) * (2 * initial) + initial)
            by (nonlinear_arith)
            requires
                amount < 0,
                initial > 0,
                n == amount * initial,
        ;
        lemma_fundamental_div_mod_converse(2 * -n + initial, 2 * initial, -amount, initial);
    }
    if amount > 0 {
        assert(-n < 0 && 2 * n + initial == amount * (2 * initial) + initial) by (nonlinear_arith)
            requires
                amount > 0,
                initial > 0,
                n == amount * initial,
        ;
        lemma_fundamental_div_mod_converse(2 * n + initial, 2 * initial, amount, initial);
    } else {
        assert(-n >= 0 && 2 * -n + initial == (-amount) * (2 * initial) + initial)
            by (nonlinear_arith)
            requires
                amount <= 0,
                initial > 0,
                n == amount * initial,
        ;
        lemma_fundamental_div_mod_converse(2 * -n + initial, 2 * initial, -amount, initial);
    }
}

impl Food {
    /// Fresh food on `position` that lasts `lifetime` turns.
    pub fn new(lifetime: u32, position: GridPosition) -> (r: Food)
        ensures
            r.wf(),
            r.initial_lifetime == lifetime,
            r.lifetime == lifetime,
            r.position == position,
    {
        Food { initial_lifetime: lifetime, lifetime, position }
    }

    /// What is left never exceeds what the food was spawned with.
    pub open spec fn wf(self) -> bool {
        self.lifetime <= self.initial_lifetime
    }

    /// The growth that eating this food gives a snake, for growth amount `amount`.
    pub fn growth(&self, amount: i32) -> (r: i64)
        requires
            self.wf(),
        ensures
            r == growth_spec(amount as int, self.lifetime as int, self.initial_lifetime as int),
    {
        if self.initial_lifetime == 0 {
            return 0;
        }
        let den: i128 = self.initial_lifetime as i128;
        let span: i128 = 2 * (self.lifetime as i128) - den;
        let a: i128 = amount as i128;
        assert(-2147483648 * den <= a * span <= 2147483648 * den) by (nonlinear_arith)
            requires
                -den <= span <= den,
                -2147483648 <= a <= 2147483647,
                den > 0,
        ;
        let num: i128 = a * span;
        proof {
            lemma_round_div_bound(num as int, den as int, 2147483648);
        }
        let q: i128 = if num >= 0 {
            (2 * num + den) / (2 * den)
        } else {
            -((2 * (-num) + den) / (2 * den))
        };
        q as i64
    }

    /// One turn of rotting: `None` when the food has no lifetime left to lose and is
    /// removed, else the food with one turn less.
    pub fn rot(&self) -> (r: Option<Food>)
        requires
            self.wf(),
        ensures
            self.lifetime == 0 <==> r is None,
            r matches Some(f) ==> f == (Food { lifetime: (self.lifetime - 1) as u32, ..*self })
                && f.wf(),
    {
        if self.lifetime == 0 {
            None
        } else {
            Some(Food { lifetime: self.lifetime - 1, ..*self })
        }
    }
}


/// Whether the head of some live snake lies on `f`.
pub open spec fn eaten_by(ps: Seq<Player>, f: Food) -> bool {
    exists|i: int| 0 <= i < ps.len() && alive(ps, i) && head_of(ps, i) == f.position
}

/// Length and starvation of a snake of length `len` with head on `head`, after
/// eating, in order, each of the first `k` foods that lies on `head`.
pub open spec fn meal(len: u32, foods: Seq<Food>, head: GridPosition, amount: i32, k: int) -> (
    u32,
    bool,
)
    decreases k,
{
    if k <= 0 {
        (len, false)
    } else {
        let (l, starved) = meal(len, foods, head, amount, k - 1);
        let f = foods[k - 1];
        if f.position == head {
            let g = growth_spec(amount as int, f.lifetime as int, f.initial_lifetime as int);
            if g < 0 && -g > l {
                (l, true)
            } else if l + g > u32::MAX {
                (u32::MAX, starved)
            } else {
                ((l + g) as u32, starved)
            }
        } else {
            (l, starved)
        }
    }
}

pub open spec fn all_wf(foods: Seq<Food>) -> bool {
    forall|k: int| 0 <= k < foods.len() ==> foods[k].wf()
}

/// Feeds one snake every food under its head. Returns whether a meal would have
/// shrunk it below nothing.
pub fn feed_snake(snake: &mut Snake, foods: &Vec<Food>, amount: i32) -> (starved: bool)
    requires
        all_wf(foods@),
    ensures
        (final(snake).length, starved) == meal(
            old(snake).length,
            foods@,
            old(snake).head,
            amount,
            foods@.len() as int,
        ),
        *final(snake) == (Snake { length: final(snake).length, ..*old(snake) }),
{
    let mut starved = false;
    let mut k: usize = 0;
    while k < foods.len()
        invariant
            k <= foods@.len(),
            all_wf(foods@),
            (snake.length, starved) == meal(old(snake).length, foods@, old(snake).head, amount, k as int),
            *snake == (Snake { length: snake.length, ..*old(snake) }),
        decreases foods@.len() - k,
    {
        if foods[k].position == snake.head {
            let g = foods[k].growth(amount);
            let died = snake.feed(g);
            if died {
                starved = true;
            }
        }
        k = k + 1;
    }
    starved
}

/// The feeding stage: every live snake eats the food under its head. A snake that a
/// meal would shrink below nothing gets one death event with no culprit, in order
/// of player.
pub fn eat_food(players: &mut Vec<Player>, foods: &Vec<Food>, amount: i32) -> (events: Vec<
    DeathEvent,
>)
    requires
        all_wf(foods@),
        old(players)@.len() <= u32::MAX,
    ensures
        final(players)@.len() == old(players)@.len(),
        forall|i: int|
            0 <= i < old(players)@.len() ==> #[trigger] final(players)@[i] == match old(
                players,
            )@[i].snake {
                Some(s) => Player {
                    snake: Some(
                        Snake {
                            length: meal(s.length, foods@, s.head, amount, foods@.len() as int).0,
                            ..s
                        },
                    ),
                    ..old(players)@[i]
                },
                None => old(players)@[i],
            },
        events@ == starvation_events(old(players)@, foods@, amount, old(players)@.len() as int),
{
    let mut events: Vec<DeathEvent> = Vec::new();
    let mut i: usize = 0;
    while i < players.len()
        invariant
            i <= players@.len(),
            players@.len() == old(players)@.len(),
            players@.len() <= u32::MAX,
            all_wf(foods@),
            forall|j: int| i <= j < players@.len() ==> players@[j] == old(players)@[j],
            forall|j: int|
                0 <= j < i ==> #[trigger] players@[j] == match old(players)@[j].snake {
                    Some(s) => Player {
                        snake: Some(
                            Snake {
                                length: meal(s.length, foods@, s.head, amount, foods@.len() as int).0,
                                ..s
                            },
                        ),
                        ..old(players)@[j]
                    },
                    None => old(players)@[j],
                },
            events@ == starvation_events(old(players)@, foods@, amount, i as int),
        decreases players@.len() - i,
    {
        let mut starved = false;
        if let Some(s) = &mut players[i].snake {
            starved = feed_snake(s, foods, amount);
        }
        if starved {
            events.push(DeathEvent { target: i as u32, culprit: None });
        }
        i = i + 1;
    }
    events
}

/// One death event for each live snake among players `0 .. m` that a meal would
/// shrink below nothing.
pub open spec fn starvation_events(ps: Seq<Player>, foods: Seq<Food>, amount: i32, m: int) -> Seq<
    DeathEvent,
>
    decreases m,
{
    if m <= 0 {
        seq![]
    } else {
        let prev = starvation_events(ps, foods, amount, m - 1);
        match ps[m - 1].snake {
            Some(s) => if meal(s.length, foods, s.head, amount, foods.len() as int).1 {
                prev.push(DeathEvent { target: (m - 1) as u32, culprit: None })
            } else {
                prev
            },
            None => prev,
        }
    }
}

/// Whether the head of a live snake lies on `food`.
pub fn is_eaten(players: &Vec<Player>, food: &Food) -> (r: bool)
    ensures
        r == eaten_by(players@, *food),
{
    let mut i: usize = 0;
    while i < players.len()
        invariant
            i <= players@.len(),
            forall|j: int| 0 <= j < i ==> !(alive(players@, j) && head_of(players@, j) == food.position),
        decreases players@.len() - i,
    {
        match &players[i].snake {
            Some(s) => {
                if s.head == food.position {
                    assert(alive(players@, i as int) && head_of(players@, i as int) == food.position);
                    return true;
                }
            },
            None => {},
        }
        i = i + 1;
    }
    false
}

/// The foods left after a turn: those not eaten and with lifetime left, each one
/// turn older.
pub open spec fn survivors(ps: Seq<Player>, foods: Seq<Food>, k: int) -> Seq<Food>
    decreases k,
{
    if k <= 0 {
        seq![]
    } else {
        let prev = survivors(ps, foods, k - 1);
        let f = foods[k - 1];
        if eaten_by(ps, f) || f.lifetime == 0 {
            prev
        } else {
            prev.push(Food { lifetime: (f.lifetime - 1) as u32, ..f })
        }
    }
}

/// Whether food `f` leaves the grid this turn: eaten, or rotted through.
pub open spec fn despawns(ps: Seq<Player>, f: Food) -> bool {
    eaten_by(ps, f) || f.lifetime == 0
}

/// Eaten food and food that rots through are removed, each exactly once however
/// many snakes reached it; the rest rots by one turn. Returns the places, in the
/// old list, of the foods removed, in increasing order.
pub fn remove_and_rot(players: &Vec<Player>, foods: &mut Vec<Food>) -> (removed: Vec<usize>)
    requires
        all_wf(old(foods)@),
    ensures
        all_wf(final(foods)@),
        final(foods)@ == survivors(players@, old(foods)@, old(foods)@.len() as int),
        removed@.len() <= old(foods)@.len(),
        forall|a: int, b: int| 0 <= a < b < removed@.len() ==> removed@[a] < removed@[b],
        forall|a: int| 0 <= a < removed@.len() ==> removed@[a] < old(foods)@.len(),
        forall|f: int|
            0 <= f < old(foods)@.len() ==> (despawns(players@, old(foods)@[f]) <==> exists|a: int|
                0 <= a < removed@.len() && removed@[a] == f),
{
    let ghost old_foods = foods@;
    let mut kept: Vec<Food> = Vec::new();
    let mut removed: Vec<usize> = Vec::new();
    let mut k: usize = 0;
    while k < foods.len()
        invariant
            foods@ == old_foods,
            all_wf(old_foods),
            k <= old_foods.len(),
            all_wf(kept@),
            kept@ == survivors(players@, old_foods, k as int),
            removed@.len() <= k,
            forall|a: int, b: int| 0 <= a < b < removed@.len() ==> removed@[a] < removed@[b],
            forall|a: int| 0 <= a < removed@.len() ==> removed@[a] < k,
            forall|f: int|
                0 <= f < k ==> (despawns(players@, old_foods[f]) <==> exists|a: int|
                    0 <= a < removed@.len() && removed@[a] == f),
        decreases old_foods.len() - k,
    {
        let f = foods[k];
        let gone = is_eaten(players, &f);
        let ghost before = removed@;
        if gone {
            removed.push(k);
        } else {
            match f.rot() {
                Some(g) => kept.push(g),
                None => removed.push(k),
            }
        }
        proof {
            assert forall|h: int|
                0 <= h < k + 1 implies (despawns(players@, old_foods[h]) <==> exists|a: int|
                    0 <= a < removed@.len() && removed@[a] == h) by {
                if h < k {
                    if despawns(players@, old_foods[h]) {
                        let a = choose|a: int| 0 <= a < before.len() && before[a] == h;
                        assert(removed@[a] == h);
                    } else {
                        if exists|a: int| 0 <= a < removed@.len() && removed@[a] == h {
                            let a = choose|a: int| 0 <= a < removed@.len() && removed@[a] == h;
                            assert(a < before.len());
                            assert(before[a] == h);
                        }
                    }
                } else {
                    if despawns(players@, old_foods[h]) {
                        assert(removed@[removed@.len() - 1] == h);
                    } else {
                        assert(removed@ == before);
                    }
                }
            }
        }
        k = k + 1;
    }
    *foods = kept;
    removed
}


/// Eating one food decides the length alone: fresh food grows a snake by exactly
/// the growth amount `g`; food with no lifetime left shrinks it by `g`, and when `g`
/// exceeds the length the snake starves instead, its length untouched.
pub proof fn lemma_meal_round_trip(len: u32, f: Food, g: i32)
    requires
        f.wf(),
        f.initial_lifetime > 0,
        g >= 0,
    ensures
        f.lifetime == f.initial_lifetime && len + g <= u32::MAX ==> meal(len, seq![f], f.position, g, 1)
            == ((len + g) as u32, false),
        f.lifetime == 0 && g <= len ==> meal(len, seq![f], f.position, g, 1) == ((len - g) as u32, false),
        f.lifetime == 0 && g > len ==> meal(len, seq![f], f.position, g, 1) == (len, true),
{
    lemma_fresh_and_rotten_growth(g as int, f.initial_lifetime as int);
    assert(meal(len, seq![f], f.position, g, 0) == (len, false));
    assert(seq![f][0] == f);
}

} // verus!
