use vstd::prelude::*;
use crate::food::Food;
use crate::grid::{GameGrid, GridPosition};
use crate::players::Player;
use crate::turns::TurnConfig;

verus! {

pub const SPACE: u8 = 32;

pub const NEWLINE: u8 = 10;

pub const MINUS: u8 = 45;

pub const COMMA: u8 = 44;

/// The decimal digits of `n`, most significant first, in ASCII.
pub open spec fn digits(n: nat) -> Seq<u8>
    decreases n,
{
    if n < 10 {
        seq![(48 + n) as u8]
    } else {
        digits(n / 10).push((48 + n % 10) as u8)
    }
}

/// `v` written in decimal, with a leading `-` when negative.
pub open spec fn decimal(v: int) -> Seq<u8> {
    if v < 0 {
        seq![MINUS] + digits((-v) as nat)
    } else {
        digits(v as nat)
    }
}

/// Appends the decimal digits of `n`.
pub fn push_digits(out: &mut Vec<u8>, n: u128)
    ensures
        final(out)@ == old(out)@ + digits(n as nat),
    decreases n,
{
    if n >= 10 {
        push_digits(out, n / 10);
    }
    out.push(48 + (n % 10) as u8);
    assert(final(out)@ =~= old(out)@ + digits(n as nat));
}

/// Appends `v` in decimal.
pub fn push_int(out: &mut Vec<u8>, v: i64)
    ensures
        final(out)@ == old(out)@ + decimal(v as int),
{
    if v < 0 {
        out.push(MINUS);
        let m: u64 = if v == i64::MIN {
            9223372036854775808u64
        } else {
            (-v) as u64
        };
        push_digits(out, m as u128);
        assert(final(out)@ =~= old(out)@ + decimal(v as int));
    } else {
        push_digits(out, v as u128);
    }
}

/// The four handshake lines sent once to an external agent: grid size, food
/// lifetime and value, number of players and the agent's own id, number of turns
/// and the turn timeout (`-1` in lock-step mode).
pub open spec fn handshake_spec(
    grid: GameGrid,
    lifetime: u32,
    value: i32,
    player_count: int,
    id: u32,
    turns: TurnConfig,
) -> Seq<u8> {
    decimal(grid.width as int) + seq![SPACE] + decimal(grid.height as int) + seq![NEWLINE]
        + decimal(lifetime as int) + seq![SPACE] + decimal(value as int) + seq![NEWLINE]
        + decimal(player_count) + seq![SPACE] + decimal(id as int) + seq![NEWLINE]
        + decimal(turns.max_turns as int) + seq![SPACE] + match turns.turn_time {
        Some(t) => decimal(t as int),
        None => decimal(-1),
    } + seq![NEWLINE]
}

/// The handshake for the agent of player `id`; see `handshake_spec`.
pub fn handshake(
    grid: &GameGrid,
    lifetime: u32,
    value: i32,
    player_count: usize,
    id: u32,
    turns: &TurnConfig,
) -> (r: Vec<u8>)
    requires
        grid.width <= i64::MAX,
        grid.height <= i64::MAX,
        player_count <= i64::MAX,
    ensures
        r@ == handshake_spec(*grid, lifetime, value, player_count as int, id, *turns),
{
    let mut out: Vec<u8> = Vec::new();
    push_int(&mut out, grid.width as i64);
    out.push(SPACE);
    push_int(&mut out, grid.height as i64);
    out.push(NEWLINE);
    push_int(&mut out, lifetime as i64);
    out.push(SPACE);
    push_int(&mut out, value as i64);
    out.push(NEWLINE);
    push_int(&mut out, player_count as i64);
    out.push(SPACE);
    push_int(&mut out, id as i64);
    out.push(NEWLINE);
    push_int(&mut out, turns.max_turns as i64);
    out.push(SPACE);
    match turns.turn_time {
        Some(t) => push_digits(&mut out, t as u128),
        None => push_int(&mut out, -1),
    }
    out.push(NEWLINE);
    assert(out@ =~= handshake_spec(*grid, lifetime, value, player_count as int, id, *turns));
    out
}

/// ` x y` for each cell.
pub open spec fn cells_text(cells: Seq<GridPosition>) -> Seq<u8>
    decreases cells.len(),
{
    if cells.len() == 0 {
        seq![]
    } else {
        let c = cells.last();
        cells_text(cells.drop_last()) + seq![SPACE] + decimal(c.x as int) + seq![SPACE] + decimal(
            c.y as int,
        )
    }
}

/// `lifetime x y` and a newline for each food.
pub open spec fn food_lines(foods: Seq<Food>) -> Seq<u8>
    decreases foods.len(),
{
    if foods.len() == 0 {
        seq![]
    } else {
        let f = foods.last();
        food_lines(foods.drop_last()) + decimal(f.lifetime as int) + seq![SPACE] + decimal(
            f.position.x as int,
        ) + seq![SPACE] + decimal(f.position.y as int) + seq![NEWLINE]
    }
}

/// Whether a player appears in the snapshot: alive, or waiting to be placed.
pub open spec fn listed(p: Player) -> bool {
    p.snake is Some || p.respawn_in is None
}

/// `id kills deaths length` and ` x y` for each cell, head first, then a newline.
pub open spec fn player_line(p: Player) -> Seq<u8> {
    let cells: Seq<GridPosition> = match p.snake {
        Some(s) => seq![s.head] + s.body@,
        None => seq![],
    };
    decimal(p.id as int) + seq![SPACE] + decimal(p.score.kills as int) + seq![SPACE] + decimal(
        p.score.deaths as int,
    ) + seq![SPACE] + decimal(cells.len() as int) + cells_text(cells) + seq![NEWLINE]
}

/// The lines of the listed players among the first `m`, in order of id.
pub open spec fn player_lines(ps: Seq<Player>, m: int) -> Seq<u8>
    decreases m,
{
    if m <= 0 {
        seq![]
    } else {
        let prev = player_lines(ps, m - 1);
        if listed(ps[m - 1]) {
            prev + player_line(ps[m - 1])
        } else {
            prev
        }
    }
}

/// The snapshot sent to external agents each turn: the number of foods, a line per
/// food, then a line per listed player.
pub open spec fn snapshot_spec(ps: Seq<Player>, foods: Seq<Food>) -> Seq<u8> {
    decimal(foods.len() as int) + seq![NEWLINE] + food_lines(foods) + player_lines(ps, ps.len() as int)
}

pub(crate) fn push_cells(out: &mut Vec<u8>, head: GridPosition, body: &Vec<GridPosition>)
    ensures
        final(out)@ == old(out)@ + cells_text(seq![head] + body@),
{
    let ghost cells = seq![head] + body@;
    out.push(SPACE);
    push_int(out, head.x as i64);
    out.push(SPACE);
    push_int(out, head.y as i64);
    assert(cells.take(1).drop_last() =~= Seq::<GridPosition>::empty());
    assert(cells.take(1).last() == head);
    assert(cells_text(cells.take(1).drop_last()) =~= Seq::<u8>::empty());
    assert(out@ =~= old(out)@ + cells_text(cells.take(1)));
    let mut k: usize = 0;
    while k < body.len()
        invariant
            k <= body@.len(),
            cells == seq![head] + body@,
            out@ == old(out)@ + cells_text(cells.take(k + 1 as int)),
        decreases body@.len() - k,
    {
        let ghost before = out@;
        let c = body[k];
        out.push(SPACE);
        push_int(out, c.x as i64);
        out.push(SPACE);
        push_int(out, c.y as i64);
        assert(cells.take(k + 2).drop_last() =~= cells.take(k + 1));
        assert(cells.take(k + 2).last() == c);
        assert(out@ =~= old(out)@ + cells_text(cells.take(k + 2)));
        k = k + 1;
    }
    assert(cells.take(body@.len() + 1 as int) =~= cells);
}

/// The per-turn snapshot; see `snapshot_spec`.
pub fn snapshot(players: &Vec<Player>, foods: &Vec<Food>) -> (r: Vec<u8>)
    requires
        foods@.len() <= i64::MAX,
    ensures
        r@ == snapshot_spec(players@, foods@),
{
    let mut out: Vec<u8> = Vec::new();
    push_int(&mut out, foods.len() as i64);
    out.push(NEWLINE);
    let ghost head = out@;
    let mut k: usize = 0;
    while k < foods.len()
        invariant
            k <= foods@.len(),
            out@ == head + food_lines(foods@.take(k as int)),
        decreases foods@.len() - k,
    {
        let f = foods[k];
        push_int(&mut out, f.lifetime as i64);
        out.push(SPACE);
        push_int(&mut out, f.position.x as i64);
        out.push(SPACE);
        push_int(&mut out, f.position.y as i64);
        out.push(NEWLINE);
        assert(foods@.take(k + 1).drop_last() =~= foods@.take(k as int));
        assert(foods@.take(k + 1).last() == f);
        assert(out@ =~= head + food_lines(foods@.take(k + 1)));
        k = k + 1;
    }
    assert(foods@.take(foods@.len() as int) =~= foods@);
    let ghost mid = out@;
    let mut i: usize = 0;
    while i < players.len()
        invariant
            i <= players@.len(),
            out@ == mid + player_lines(players@, i as int),
        decreases players@.len() - i,
    {
        let p = &players[i];
        if p.snake.is_some() || p.respawn_in.is_none() {
            let ghost before = out@;
            push_int(&mut out, p.id as i64);
            out.push(SPACE);
            push_int(&mut out, p.score.kills as i64);
            out.push(SPACE);
            push_int(&mut out, p.score.deaths as i64);
            out.push(SPACE);
            match &p.snake {
                Some(s) => {
                    push_digits(&mut out, (s.body.len() as u128) + 1);
                    push_cells(&mut out, s.head, &s.body);
                },
                None => {
                    push_int(&mut out, 0);
                    assert(cells_text(Seq::<GridPosition>::empty()) =~= Seq::<u8>::empty());
                },
            }
            out.push(NEWLINE);
            assert(out@ =~= before + player_line(players@[i as int]));
        }
        i = i + 1;
    }
    assert(out@ =~= snapshot_spec(players@, foods@));
    out
}

} // verus!
