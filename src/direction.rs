use vstd::prelude::*;
use vstd::string::StringSliceAdditionalSpecFns;

verus! {

/// One of the four cardinal headings on the grid. North points towards larger `y`.
#[derive(Debug, Clone, Copy, PartialEq, Eq, Structural)]
pub enum Direction {
    North,
    East,
    South,
    West,
}

/// ASCII upper-case letters folded to lower case; every other byte unchanged.
pub open spec fn fold_byte(b: u8) -> u8 {
    if 65 <= b && b <= 90 {
        (b + 32) as u8
    } else {
        b
    }
}

pub open spec fn fold_bytes(s: Seq<u8>) -> Seq<u8> {
    s.map_values(|b: u8| fold_byte(b))
}

/// The direction named by an already lower-cased reply token, if any:
/// `north|n|0`, `east|e|1`, `south|s|2`, `west|w|3`.
pub open spec fn token_direction(t: Seq<u8>) -> Option<Direction> {
    if t == seq![48u8] || t == seq![110u8] || t == seq![110u8, 111u8, 114u8, 116u8, 104u8] {
        Some(Direction::North)
    } else if t == seq![49u8] || t == seq![101u8] || t == seq![101u8, 97u8, 115u8, 116u8] {
        Some(Direction::East)
    } else if t == seq![50u8] || t == seq![115u8] || t == seq![115u8, 111u8, 117u8, 116u8, 104u8] {
        Some(Direction::South)
    } else if t == seq![51u8] || t == seq![119u8] || t == seq![119u8, 101u8, 115u8, 116u8] {
        Some(Direction::West)
    } else {
        None
    }
}

/// The direction that a reply line names, compared without regard to ASCII case.
pub open spec fn parse_spec(bytes: Seq<u8>) -> Option<Direction> {
    token_direction(fold_bytes(bytes))
}

fn fold_all(s: &[u8]) -> (r: Vec<u8>)
    ensures
        r@ == fold_bytes(s@),
{
    let mut r: Vec<u8> = Vec::new();
    let mut i: usize = 0;
    while i < s.len()
        invariant
            i <= s@.len(),
            r@ == fold_bytes(s@.subrange(0, i as int)),
        decreases s@.len() - i,
    {
        let b = s[i];
        let f: u8 = if 65 <= b && b <= 90 {
            b + 32
        } else {
            b
        };
        r.push(f);
        assert(s@.subrange(0, i + 1) == s@.subrange(0, i as int).push(b));
        i = i + 1;
    }
    assert(s@.subrange(0, s@.len() as int) == s@);
    r
}

fn same_bytes(a: &[u8], b: &[u8]) -> (r: bool)
    ensures
        r == (a@ == b@),
{
    if a.len() != b.len() {
        return false;
    }
    let mut i: usize = 0;
    while i < a.len()
        invariant
            a@.len() == b@.len(),
            i <= a@.len(),
            forall|k: int| 0 <= k < i ==> a@[k] == b@[k],
        decreases a@.len() - i,
    {
        if a[i] != b[i] {
            return false;
        }
        i = i + 1;
    }
    assert(a@ =~= b@);
    true
}

impl Direction {
    pub open spec fn dx(self) -> int {
        match self {
            Direction::East => 1,
            Direction::West => -1,
            _ => 0,
        }
    }

    pub open spec fn dy(self) -> int {
        match self {
            Direction::North => 1,
            Direction::South => -1,
            _ => 0,
        }
    }

    pub open spec fn reversed(self) -> Direction {
        match self {
            Direction::North => Direction::South,
            Direction::East => Direction::West,
            Direction::South => Direction::North,
            Direction::West => Direction::East,
        }
    }

    /// Horizontal component of a one-cell step.
    pub fn delta_x(&self) -> (r: i32)
        ensures
            r as int == self.dx(),
    {
        match self {
            Direction::East => 1,
            Direction::West => -1,
            _ => 0,
        }
    }

    /// Vertical component of a one-cell step.
    pub fn delta_y(&self) -> (r: i32)
        ensures
            r as int == self.dy(),
    {
        match self {
            Direction::South => -1,
            Direction::North => 1,
            _ => 0,
        }
    }

    /// The heading that points the other way.
    pub fn opposite(&self) -> (r: Direction)
        ensures
            r == self.reversed(),
            r.dx() == -self.dx(),
            r.dy() == -self.dy(),
    {
        match self {
            Direction::North => Direction::South,
            Direction::East => Direction::West,
            Direction::South => Direction::North,
            Direction::West => Direction::East,
        }
    }

    /// The four headings in the order North, East, South, West.
    pub fn cardinals() -> (r: [Direction; 4])
        ensures
            r@ == seq![Direction::North, Direction::East, Direction::South, Direction::West],
    {
        let r = [Direction::North, Direction::East, Direction::South, Direction::West];
        assert(r@ =~= seq![Direction::North, Direction::East, Direction::South, Direction::West]);
        r
    }

    /// Reads a reply token of the agent protocol, ignoring ASCII case.
    /// Anything that is not one of the twelve tokens is refused.
    pub fn from_str(s: &str) -> (r: Result<Direction, ()>)
        ensures
            r matches Ok(d) ==> parse_spec(s.spec_bytes()) == Some(d),
            r is Err ==> parse_spec(s.spec_bytes()) is None,
    {
        let folded = fold_all(s.as_bytes());
        match Self::from_folded(folded.as_slice()) {
            Some(d) => Ok(d),
            None => Err(()),
        }
    }

    /// Reads a reply token that is already in lower case.
    pub fn from_folded(t: &[u8]) -> (r: Option<Direction>)
        ensures
            r == token_direction(t@),
    {
        let n0: [u8; 1] = [48u8];
        let n1: [u8; 1] = [110u8];
        let n2: [u8; 5] = [110u8, 111u8, 114u8, 116u8, 104u8];
        let e0: [u8; 1] = [49u8];
        let e1: [u8; 1] = [101u8];
        let e2: [u8; 4] = [101u8, 97u8, 115u8, 116u8];
        let s0: [u8; 1] = [50u8];
        let s1: [u8; 1] = [115u8];
        let s2: [u8; 5] = [115u8, 111u8, 117u8, 116u8, 104u8];
        let w0: [u8; 1] = [51u8];
        let w1: [u8; 1] = [119u8];
        let w2: [u8; 4] = [119u8, 101u8, 115u8, 116u8];
        assert(n0@ =~= seq![48u8] && n1@ =~= seq![110u8]);
        assert(n2@ =~= seq![110u8, 111u8, 114u8, 116u8, 104u8]);
        assert(e0@ =~= seq![49u8] && e1@ =~= seq![101u8]);
        assert(e2@ =~= seq![101u8, 97u8, 115u8, 116u8]);
        assert(s0@ =~= seq![50u8] && s1@ =~= seq![115u8]);
        assert(s2@ =~= seq![115u8, 111u8, 117u8, 116u8, 104u8]);
        assert(w0@ =~= seq![51u8] && w1@ =~= seq![119u8]);
        assert(w2@ =~= seq![119u8, 101u8, 115u8, 116u8]);
        if same_bytes(t, &n0) || same_bytes(t, &n1) || same_bytes(t, &n2) {
            Some(Direction::North)
        } else if same_bytes(t, &e0) || same_bytes(t, &e1) || same_bytes(t, &e2) {
            Some(Direction::East)
        } else if same_bytes(t, &s0) || same_bytes(t, &s1) || same_bytes(t, &s2) {
            Some(Direction::South)
        } else if same_bytes(t, &w0) || same_bytes(t, &w1) || same_bytes(t, &w2) {
            Some(Direction::West)
        } else {
            None
        }
    }
}


/// The move read from the keys pressed this frame: the first of north, east,
/// south and west that was pressed, if any.
pub fn keyboard_move(north: bool, east: bool, south: bool, west: bool) -> (r: Option<Direction>)
    ensures
        r == (if north {
            Some(Direction::North)
        } else if east {
            Some(Direction::East)
        } else if south {
            Some(Direction::South)
        } else if west {
            Some(Direction::West)
        } else {
            None::<Direction>
        }),
{
    if north {
        Some(Direction::North)
    } else if east {
        Some(Direction::East)
    } else if south {
        Some(Direction::South)
    } else if west {
        Some(Direction::West)
    } else {
        None
    }
}

} // verus!
