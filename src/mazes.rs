use crate::geometry::Loc;
use crate::loc_map::LocMap;
use vstd::prelude::*;

verus! {

/// A descriptor of the features of a maze location.
#[derive(PartialEq, Eq, Structural, Copy, Clone, Debug)]
pub enum Tile {
    Floor,
}

/// A map of maze tiles, with start and goal positions. A location that the
/// map does not hold is not floor. A correctly constructed maze has the
/// start and goal positions on floor tiles.
#[derive(Debug)]
pub struct Maze {
    pub start: Loc,
    pub goal: Loc,
    pub map: LocMap<Tile>,
}

impl Maze {
    /// Start and goal are both floor.
    pub open spec fn well_formed(&self) -> bool {
        self.map@.dom().contains(self.start) && self.map@.dom().contains(self.goal)
    }

    /// Every floor tile has all eight neighbours representable.
    pub open spec fn bounded(&self) -> bool {
        forall|k: Loc| #[trigger]
            self.map@.dom().contains(k) ==> isize::MIN < k.x < isize::MAX && isize::MIN < k.y
                < isize::MAX
    }

    /// Whether start and goal are both floor.
    pub fn is_well_formed(&self) -> (r: bool)
        ensures
            r == self.well_formed(),
    {
        self.map.get(&self.start).is_some() && self.map.get(&self.goal).is_some()
    }
}


/// Why a maze text was refused.
#[derive(PartialEq, Eq, Structural, Copy, Clone, Debug)]
pub enum MazeError {
    /// The byte at this index is none of the format's characters.
    UnknownChar { at: usize, byte: u8 },
}

/// A byte that marks a floor tile: `.`, space, `s` (start) or `g` (goal).
pub open spec fn floor_byte(c: u8) -> bool {
    c == 46u8 || c == 32u8 || c == 115u8 || c == 103u8
}

/// A byte of the maze text format: a floor byte, `=` (wall) or a newline.
pub open spec fn known_byte(c: u8) -> bool {
    floor_byte(c) || c == 61u8 || c == 10u8
}

/// Reading state: column, row, start, goal and the floor tiles so far.
pub type ScanState = (int, int, Loc, Loc, Map<Loc, Tile>);

/// The state after reading one more byte `c`.
pub open spec fn scan_step(st: ScanState, c: u8) -> ScanState {
    let here = Loc { x: st.0 as isize, y: st.1 as isize };
    if c == 10u8 {
        (0, st.1 + 1, st.2, st.3, st.4)
    } else {
        (
            st.0 + 1,
            st.1,
            if c == 115u8 { here } else { st.2 },
            if c == 103u8 { here } else { st.3 },
            if floor_byte(c) { st.4.insert(here, Tile::Floor) } else { st.4 },
        )
    }
}

/// The state after reading all of `s`, starting at column 0, row 0, with
/// start and goal at the origin and no floor.
pub open spec fn scan(s: Seq<u8>) -> ScanState
    decreases s.len(),
{
    if s.len() == 0 {
        (0, 0, Loc { x: 0, y: 0 }, Loc { x: 0, y: 0 }, Map::empty())
    } else {
        scan_step(scan(s.drop_last()), s.last())
    }
}

/// Parses a maze from its text, in which `.` and space are floor, `=` is a
/// wall, `s` is the starting point, `g` is the goal point and a newline
/// ends a row. Column 0 is the first byte of a row.
///
/// Where several `s` or `g` bytes appear, the last of each is used; where
/// none does, the point stays at the origin.
pub fn parse_maze_text(text: &[u8]) -> (r: Result<Maze, MazeError>)
    requires
        text@.len() <= isize::MAX,
    ensures
        match r {
            Ok(m) => {
                &&& forall|i: int| 0 <= i < text@.len() ==> known_byte(#[trigger] text@[i])
                &&& m.start == scan(text@).2
                &&& m.goal == scan(text@).3
                &&& m.map@ == scan(text@).4
                &&& m.bounded()
            },
            Err(MazeError::UnknownChar { at, byte }) => {
                &&& at < text@.len()
                &&& byte == text@[at as int]
                &&& !known_byte(byte)
                &&& forall|j: int| 0 <= j < at ==> known_byte(#[trigger] text@[j])
            },
        },
{
    let mut start = Loc { x: 0, y: 0 };
    let mut goal = Loc { x: 0, y: 0 };
    let mut map: LocMap<Tile> = LocMap::new();
    let mut x: isize = 0;
    let mut y: isize = 0;
    let mut i: usize = 0;
    while i < text.len()
        invariant
            0 <= i <= text@.len() <= isize::MAX,
            0 <= x <= i,
            0 <= y <= i,
            (x as int, y as int, start, goal, map@) == scan(text@.take(i as int)),
            forall|j: int| 0 <= j < i ==> known_byte(#[trigger] text@[j]),
            forall|k: Loc| #[trigger] map@.dom().contains(k) ==> 0 <= k.x < i && 0 <= k.y < i,
        decreases text@.len() - i,
    {
        let c = text[i];
        let here = Loc { x, y };
        proof {
            assert(text@.take(i + 1).drop_last() =~= text@.take(i as int));
        }
        match c {
            46u8 | 32u8 => {
                map.insert(here, Tile::Floor);
            },
            115u8 => {
                map.insert(here, Tile::Floor);
                start = here;
            },
            103u8 => {
                map.insert(here, Tile::Floor);
                goal = here;
            },
            61u8 | 10u8 => {},
            _ => {
                return Err(MazeError::UnknownChar { at: i, byte: c });
            },
        }
        if c == 10u8 {
            x = 0;
            y = y + 1;
        } else {
            x = x + 1;
        }
        i = i + 1;
    }
    proof {
        assert(text@.take(i as int) =~= text@);
    }
    Ok(Maze { start, goal, map })
}


/// Cell value that marks floor in a generated square grid.
pub const GRID_FLOOR: i32 = 1;

/// Cell `(k.x, k.y)` of a `size` by `size` grid, stored column by column,
/// is floor.
pub open spec fn grid_floor(size: int, cells: Seq<i32>, k: Loc) -> bool {
    0 <= k.x < size && 0 <= k.y < size && cells[k.x * size + k.y] == GRID_FLOOR
}

/// Builds a maze from a square grid of cells, in which cell `(x, y)` is at
/// index `x * size + y`.
pub fn maze_from_grid(size: usize, cells: &Vec<i32>, start: Loc, goal: Loc) -> (r: Maze)
    requires
        cells@.len() == size * size,
        size < isize::MAX,
    ensures
        r.start == start,
        r.goal == goal,
        forall|k: Loc| #[trigger]
            r.map@.dom().contains(k) <==> grid_floor(size as int, cells@, k),
        r.bounded(),
{
    let mut map: LocMap<Tile> = LocMap::new();
    let mut x: usize = 0;
    while x < size
        invariant
            0 <= x <= size < isize::MAX,
            cells@.len() == size * size,
            forall|k: Loc| #[trigger]
                map@.dom().contains(k) <==> grid_floor(size as int, cells@, k) && k.x < x,
        decreases size - x,
    {
        let mut y: usize = 0;
        while y < size
            invariant
                0 <= x < size < isize::MAX,
                0 <= y <= size,
                cells@.len() == size * size,
                forall|k: Loc| #[trigger]
                    map@.dom().contains(k) <==> grid_floor(size as int, cells@, k) && (k.x < x || (
                    k.x == x && k.y < y)),
            decreases size - y,
        {
            assert(x * size + y < size * size) by (nonlinear_arith)
                requires
                    x < size,
                    y < size,
            ;
            assert(size * size == cells.len());
            if cells[x * size + y] == GRID_FLOOR {
                map.insert(Loc { x: x as isize, y: y as isize }, Tile::Floor);
            }
            y = y + 1;
        }
        x = x + 1;
    }
    Maze { start, goal, map }
}

} // verus!
