use vstd::prelude::*;
use crate::direction::Direction;
use crate::random::draw_below;

verus! {

/// The largest side a grid may have: coordinates and their one-step neighbours fit in `i32`.
pub const MAX_SIDE: usize = 0x7fff_fffe;

/// How many random draws are made before the search for a free cell falls back to a scan.
pub const RANDOM_DRAWS: u32 = 64;

/// A cell of the grid. Every entity occupies exactly one cell.
#[derive(Debug, Clone, Copy, PartialEq, Eq, Structural)]
pub struct GridPosition {
    pub x: i32,
    pub y: i32,
}

impl GridPosition {
    pub fn new(x: i32, y: i32) -> (r: GridPosition)
        ensures
            r.x == x,
            r.y == y,
    {
        GridPosition { x, y }
    }

    /// Whether a one-cell step in `d` stays within `i32`.
    pub open spec fn can_step(self, d: Direction) -> bool {
        i32::MIN <= self.x + d.dx() <= i32::MAX && i32::MIN <= self.y + d.dy() <= i32::MAX
    }

    pub open spec fn stepped(self, d: Direction) -> GridPosition {
        GridPosition { x: (self.x + d.dx()) as i32, y: (self.y + d.dy()) as i32 }
    }

    /// The neighbouring cell in direction `d`.
    pub fn step(&self, direction: Direction) -> (r: GridPosition)
        requires
            self.can_step(direction),
        ensures
            r == self.stepped(direction),
            r.x == self.x + direction.dx(),
            r.y == self.y + direction.dy(),
    {
        GridPosition::new(self.x + direction.delta_x(), self.y + direction.delta_y())
    }
}

/// The size of the arena. It holds no entities.
#[derive(Debug, Clone, Copy, PartialEq, Eq, Structural)]
pub struct GameGrid {
    pub width: usize,
    pub height: usize,
}

/// Whether `p` is one of the positions in `occupied`.
pub open spec fn is_occupied(occupied: Seq<GridPosition>, p: GridPosition) -> bool {
    exists|k: int| 0 <= k < occupied.len() && occupied[k] == p
}

impl GameGrid {
    pub fn new(width: u32, height: u32) -> (r: GameGrid)
        ensures
            r.width == width,
            r.height == height,
    {
        GameGrid { width: width as usize, height: height as usize }
    }

    /// A non-empty grid whose sides leave room for a step past any edge.
    pub open spec fn wf(self) -> bool {
        0 < self.width <= MAX_SIDE && 0 < self.height <= MAX_SIDE
    }

    pub open spec fn contains(self, p: GridPosition) -> bool {
        0 <= p.x < self.width && 0 <= p.y < self.height
    }

    /// Whether every cell of the grid is one of `occupied`.
    pub open spec fn is_full(self, occupied: Seq<GridPosition>) -> bool {
        forall|p: GridPosition| self.contains(p) ==> is_occupied(occupied, p)
    }

    /// Bounds check of a position against the grid.
    pub fn contains_position(&self, position: &GridPosition) -> (r: bool)
        ensures
            r == self.contains(*position),
    {
        position.x >= 0 && (position.x as usize) < self.width && position.y >= 0
            && (position.y as usize) < self.height
    }

    /// The first free cell in row-major order, or `None` when the grid is full.
    pub fn first_unoccupied(&self, occupied: &Vec<GridPosition>) -> (r: Option<GridPosition>)
        requires
            self.wf(),
        ensures
            r matches Some(p) ==> self.contains(p) && !is_occupied(occupied@, p),
            r matches Some(p) ==> forall|q: GridPosition|
                self.contains(q) && (q.y < p.y || (q.y == p.y && q.x < p.x)) ==> is_occupied(
                    occupied@,
                    q,
                ),
            r is None <==> self.is_full(occupied@),
    {
        let mut y: usize = 0;
        while y < self.height
            invariant
                self.wf(),
                y <= self.height,
                forall|p: GridPosition| self.contains(p) && p.y < y ==> is_occupied(occupied@, p),
            decreases self.height - y,
        {
            let mut x: usize = 0;
            while x < self.width
                invariant
                    self.wf(),
                    y < self.height,
                    x <= self.width,
                    forall|p: GridPosition|
                        self.contains(p) && (p.y < y || (p.y == y && p.x < x)) ==> is_occupied(
                            occupied@,
                            p,
                        ),
                decreases self.width - x,
            {
                let p = GridPosition::new(x as i32, y as i32);
                if !position_in(occupied, &p) {
                    return Some(p);
                }
                x = x + 1;
            }
            y = y + 1;
        }
        None
    }

    /// A free cell of the grid: random draws first, uniform over the grid, then a scan
    /// in row-major order. `None` exactly when every cell is occupied, where drawing
    /// alone would never end.
    pub fn get_unoccupied_position(
        &self,
        occupied: &Vec<GridPosition>,
        rng: &mut rand::rngs::StdRng,
    ) -> (r: Option<GridPosition>)
        requires
            self.wf(),
        ensures
            r matches Some(p) ==> self.contains(p) && !is_occupied(occupied@, p),
            r is None <==> self.is_full(occupied@),
    {
        let mut tries: u32 = 0;
        while tries < RANDOM_DRAWS
            invariant
                self.wf(),
            decreases RANDOM_DRAWS - tries,
        {
            let x = draw_below(rng, self.width as u32);
            let y = draw_below(rng, self.height as u32);
            let p = GridPosition::new(x as i32, y as i32);
            if !position_in(occupied, &p) {
                proof {
                    if self.is_full(occupied@) {
                        assert(self.contains(p));
                    }
                }
                return Some(p);
            }
            tries = tries + 1;
        }
        self.first_unoccupied(occupied)
    }
}

impl Default for GameGrid {
    fn default() -> (r: GameGrid)
        ensures
            r.width == 32 && r.height == 32,
    {
        GameGrid::new(32, 32)
    }
}

/// Whether `p` is among `positions`.
pub fn position_in(positions: &Vec<GridPosition>, p: &GridPosition) -> (r: bool)
    ensures
        r == is_occupied(positions@, *p),
{
    let mut k: usize = 0;
    while k < positions.len()
        invariant
            k <= positions@.len(),
            forall|j: int| 0 <= j < k ==> positions@[j] != *p,
        decreases positions@.len() - k,
    {
        if positions[k] == *p {
            return true;
        }
        k = k + 1;
    }
    false
}

} // verus!
