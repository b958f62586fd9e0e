use vstd::arithmetic::div_mod::{
    lemma_add_mod_noop, lemma_add_mod_noop_right, lemma_mod_add_multiples_vanish,
};
use vstd::prelude::*;

verus! {

/// Number of equally spaced compass directions.
pub const DIR_RESOLUTION: isize = 8;

/// The direction index that `i` names, folded into `[0, DIR_RESOLUTION)`.
pub open spec fn norm(i: int) -> int {
    i % (DIR_RESOLUTION as int)
}

/// Direction in maze space.
#[derive(PartialEq, Eq, Structural, Copy, Clone, Debug, Hash)]
pub struct Dir {
    i: isize,
}

impl View for Dir {
    type V = int;

    closed spec fn view(&self) -> int {
        norm(self.i as int)
    }
}

impl Dir {
    #[verifier::type_invariant]
    closed spec fn inv(self) -> bool {
        0 <= self.i < DIR_RESOLUTION
    }
}

/// The normalizing constructor: the direction with index `i` modulo the
/// resolution.
pub fn dir(i: isize) -> (r: Dir)
    ensures
        r@ == norm(i as int),
        0 <= r@ < DIR_RESOLUTION,
{
    let i2 = i % DIR_RESOLUTION;
    let i3 = if i2 < 0 {
        i2 + DIR_RESOLUTION
    } else {
        i2
    };
    Dir { i: i3 }
}

/// Column step of the direction with index `k`.
pub open spec fn offset_x(k: int) -> int {
    if k == 1 || k == 2 || k == 3 {
        1
    } else if k == 5 || k == 6 || k == 7 {
        -1
    } else {
        0
    }
}

/// Row step of the direction with index `k` (rows grow southwards).
pub open spec fn offset_y(k: int) -> int {
    if k == 7 || k == 0 || k == 1 {
        -1
    } else if k == 3 || k == 4 || k == 5 {
        1
    } else {
        0
    }
}

impl Dir {
    /// The direction reached by turning `k` units from this one.
    pub closed spec fn turned(self, k: int) -> Dir {
        Dir { i: norm(self.i + k) as isize }
    }

    pub fn north() -> (r: Dir)
        ensures
            r@ == 0,
    {
        dir(0)
    }

    pub fn ne() -> (r: Dir)
        ensures
            r@ == 1,
    {
        dir(1)
    }

    pub fn east() -> (r: Dir)
        ensures
            r@ == 2,
    {
        dir(2)
    }

    pub fn se() -> (r: Dir)
        ensures
            r@ == 3,
    {
        dir(3)
    }

    pub fn south() -> (r: Dir)
        ensures
            r@ == 4,
    {
        dir(4)
    }

    pub fn sw() -> (r: Dir)
        ensures
            r@ == 5,
    {
        dir(5)
    }

    pub fn west() -> (r: Dir)
        ensures
            r@ == 6,
    {
        dir(6)
    }

    pub fn nw() -> (r: Dir)
        ensures
            r@ == 7,
    {
        dir(7)
    }

    /// Unit step `(dx, dy)` of this direction.
    fn offset(&self) -> (r: (isize, isize))
        ensures
            r.0 == offset_x(self@),
            r.1 == offset_y(self@),
    {
        proof {
            use_type_invariant(self);
        }
        match self.i {
            0 => (0, -1),
            1 => (1, -1),
            2 => (1, 0),
            3 => (1, 1),
            4 => (0, 1),
            5 => (-1, 1),
            6 => (-1, 0),
            _ => (-1, -1),
        }
    }

    /// This direction turned by `a`.
    pub fn turn(&self, a: &Angle) -> (r: Dir)
        ensures
            r@ == norm(self@ + a@),
            r == self.turned(a@),
            norm(a@) == 0 ==> r == *self,
    {
        proof {
            use_type_invariant(self);
            use_type_invariant(a);
            lemma_add_mod_noop_right(self.i as int, a@, DIR_RESOLUTION as int);
        }
        let r = dir(self.i + a.i);
        proof {
            use_type_invariant(&r);
        }
        r
    }

    /// The direction's index, in `[0, DIR_RESOLUTION)`.
    pub fn as_int(&self) -> (r: isize)
        ensures
            r == self@,
            0 <= r < DIR_RESOLUTION,
    {
        proof {
            use_type_invariant(self);
        }
        self.i
    }
}

/// Relative direction: a turn counted in the units of `Dir`.
pub struct Angle {
    i: isize,
}

impl View for Angle {
    type V = int;

    closed spec fn view(&self) -> int {
        self.i as int
    }
}

impl Angle {
    #[verifier::type_invariant]
    closed spec fn inv(self) -> bool {
        -DIR_RESOLUTION <= self.i <= DIR_RESOLUTION
    }

    /// One eighth of a full turn, clockwise.
    pub fn a45() -> (r: Angle)
        ensures
            r@ == DIR_RESOLUTION / 8,
    {
        Angle { i: DIR_RESOLUTION / 8 }
    }

    /// A quarter turn, clockwise.
    pub fn a90() -> (r: Angle)
        ensures
            r@ == DIR_RESOLUTION / 4,
    {
        Angle { i: DIR_RESOLUTION / 4 }
    }

    /// A half turn.
    pub fn a180() -> (r: Angle)
        ensures
            r@ == DIR_RESOLUTION / 2,
    {
        Angle { i: DIR_RESOLUTION / 2 }
    }

    /// A full turn.
    pub fn a360() -> (r: Angle)
        ensures
            r@ == DIR_RESOLUTION,
    {
        Angle { i: DIR_RESOLUTION }
    }

    /// The same turn in the other sense.
    pub fn reverse(&self) -> (r: Angle)
        ensures
            r@ == -self@,
    {
        proof {
            use_type_invariant(self);
        }
        Angle { i: -self.i }
    }

    /// The direction reached by turning this angle from north.
    pub fn as_dir(&self) -> (r: Dir)
        ensures
            r@ == norm(self@),
    {
        Dir::north().turn(self)
    }
}


/// Normalization lands in `[0, DIR_RESOLUTION)`, and indices that differ by
/// a full turn name the same direction.
pub proof fn lemma_norm_range_and_period(i: int)
    ensures
        0 <= norm(i) < DIR_RESOLUTION,
        norm(i) == norm(i + DIR_RESOLUTION),
{
    lemma_mod_add_multiples_vanish(i, DIR_RESOLUTION as int);
}

/// Turning by `a` and then by `b` is turning once by their sum, taken
/// modulo a full turn.
pub proof fn lemma_turn_compose(d: Dir, a: Angle, b: Angle)
    ensures
        d.turned(a@).turned(b@) == d.turned(norm(a@ + b@)),
{
    let r = DIR_RESOLUTION as int;
    lemma_add_mod_noop(d.i + a@, b@, r);
    lemma_add_mod_noop_right(d.i as int, a@ + b@, r);
    assert(norm(norm(d.i + a@) + b@) == norm(d.i + (a@ + b@)));
}


/// An address in maze space.
#[derive(PartialEq, Eq, Structural, Hash, Copy, Clone, Debug)]
pub struct Loc {
    pub x: isize,
    pub y: isize,
}

/// `v` fits in an `isize`.
pub open spec fn in_isize(v: int) -> bool {
    isize::MIN <= v <= isize::MAX
}

impl Loc {
    /// The neighbour of this location in direction `d` is representable.
    pub open spec fn can_step(self, d: Dir) -> bool {
        in_isize(self.x + offset_x(d@)) && in_isize(self.y + offset_y(d@))
    }

    /// The neighbour of this location in direction `d`.
    pub open spec fn adj_spec(self, d: Dir) -> Loc {
        Loc { x: (self.x + offset_x(d@)) as isize, y: (self.y + offset_y(d@)) as isize }
    }

    /// Position of the tile's corner in sub-tile units.
    pub open spec fn position(self) -> (int, int) {
        (self.x * SUBTILE_RES, self.y * SUBTILE_RES)
    }

    /// The adjacent location in the given direction.
    pub fn adj(self, dir: Dir) -> (r: Loc)
        requires
            self.can_step(dir),
        ensures
            r == self.adj_spec(dir),
    {
        let (x, y) = dir.offset();
        Loc { x: self.x + x, y: self.y + y }
    }

    /// The location in sub-tile coordinates, for drawing.
    pub fn as_coords(self) -> (r: (isize, isize))
        requires
            in_isize(self.position().0),
            in_isize(self.position().1),
        ensures
            r.0 == self.position().0,
            r.1 == self.position().1,
    {
        (self.x * SUBTILE_RES, self.y * SUBTILE_RES)
    }

    /// Componentwise difference.
    pub fn sub(self, l: Loc) -> (r: Loc)
        requires
            in_isize(self.x - l.x),
            in_isize(self.y - l.y),
        ensures
            r.x == self.x - l.x,
            r.y == self.y - l.y,
    {
        Loc { x: self.x - l.x, y: self.y - l.y }
    }

    /// Componentwise sum.
    pub fn add(self, l: Loc) -> (r: Loc)
        requires
            in_isize(self.x + l.x),
            in_isize(self.y + l.y),
        ensures
            r.x == self.x + l.x,
            r.y == self.y + l.y,
    {
        Loc { x: self.x + l.x, y: self.y + l.y }
    }
}

/// Number of sub-tile steps in one tile: the unit of `FineLoc` offsets and
/// of `TileRoute` progress.
pub const SUBTILE_RES: isize = 1000;

/// `a / SUBTILE_RES`, rounded toward zero.
pub open spec fn whole_tiles(a: int) -> int {
    if a >= 0 {
        a / (SUBTILE_RES as int)
    } else {
        -((-a) / (SUBTILE_RES as int))
    }
}

/// What is left of `a` once its whole tiles are taken out; it has the sign
/// of `a`.
pub open spec fn tile_fraction(a: int) -> int {
    a - SUBTILE_RES * whole_tiles(a)
}

/// A base tile with its whole tiles folded into it keeps coordinates that
/// an `isize` holds.
pub open spec fn folds_in_range(base: int, offset: int) -> bool {
    in_isize(base) && in_isize(base + whole_tiles(offset))
}

/// Splits an offset into whole tiles and the remaining fraction, both
/// rounded toward zero.
fn fold_offset(o: isize) -> (r: (isize, isize))
    ensures
        r.0 == whole_tiles(o as int),
        r.1 == tile_fraction(o as int),
        -SUBTILE_RES < r.1 < SUBTILE_RES,
{
    let w = o / SUBTILE_RES;
    let f = o % SUBTILE_RES;
    assert(w == whole_tiles(o as int));
    assert(f == tile_fraction(o as int));
    (w, f)
}

/// A continuous position: a base tile and an offset within it, in sub-tile
/// units.
#[derive(PartialEq, Eq, Structural, Copy, Clone, Debug)]
pub struct FineLoc {
    pub base: Loc,
    off_x: isize,
    off_y: isize,
}

impl FineLoc {
    #[verifier::type_invariant]
    closed spec fn inv(self) -> bool {
        &&& -SUBTILE_RES < self.off_x < SUBTILE_RES
        &&& -SUBTILE_RES < self.off_y < SUBTILE_RES
    }

    /// The tile that the position is counted from.
    pub closed spec fn base_tile(self) -> Loc {
        self.base
    }

    /// The offset within the base tile, in sub-tile units.
    pub closed spec fn offs(self) -> (isize, isize) {
        (self.off_x, self.off_y)
    }

    /// The position in sub-tile units.
    pub closed spec fn position(self) -> (int, int) {
        (self.base_tile().x * SUBTILE_RES + self.offs().0, self.base_tile().y * SUBTILE_RES + self.offs().1)
    }

    /// Folds the whole tiles of `offsets` into `base` and keeps the
    /// fraction, rounding toward zero on each axis.
    pub fn new(base: Loc, offsets: (isize, isize)) -> (r: FineLoc)
        requires
            folds_in_range(base.x as int, offsets.0 as int),
            folds_in_range(base.y as int, offsets.1 as int),
        ensures
            r.base_tile().x == base.x + whole_tiles(offsets.0 as int),
            r.base_tile().y == base.y + whole_tiles(offsets.1 as int),
            r.offs().0 == tile_fraction(offsets.0 as int),
            r.offs().1 == tile_fraction(offsets.1 as int),
            r.position() == (base.x * SUBTILE_RES + offsets.0, base.y * SUBTILE_RES + offsets.1),
    {
        let (wx, fx) = fold_offset(offsets.0);
        let (wy, fy) = fold_offset(offsets.1);
        FineLoc { base: Loc { x: base.x + wx, y: base.y + wy }, off_x: fx, off_y: fy }
    }

    /// The fine position at the corner of tile `loc`.
    pub closed spec fn at_corner(loc: Loc) -> FineLoc {
        FineLoc { base: loc, off_x: 0, off_y: 0 }
    }

    /// The position at the corner of a tile.
    pub fn from_loc(base: Loc) -> (r: FineLoc)
        ensures
            r == FineLoc::at_corner(base),
            r.base_tile() == base,
            r.offs() == (0isize, 0isize),
    {
        FineLoc::new(base, (0, 0))
    }

    /// The position at the given sub-tile coordinates.
    pub fn from_coords(coords: (isize, isize)) -> (r: FineLoc)
        ensures
            r.base_tile().x == whole_tiles(coords.0 as int),
            r.base_tile().y == whole_tiles(coords.1 as int),
            r.offs().0 == tile_fraction(coords.0 as int),
            r.offs().1 == tile_fraction(coords.1 as int),
            r.position() == (coords.0 as int, coords.1 as int),
    {
        FineLoc::new(Loc { x: 0, y: 0 }, coords)
    }

    pub fn get_offsets(self) -> (r: (isize, isize))
        ensures
            r == self.offs(),
    {
        (self.off_x, self.off_y)
    }

    /// Moves the base tile one step and keeps the offset.
    pub fn step(self, dir: Dir) -> (r: FineLoc)
        requires
            self.base_tile().can_step(dir),
        ensures
            r.base_tile() == self.base_tile().adj_spec(dir),
            r.offs() == self.offs(),
    {
        proof {
            use_type_invariant(&self);
        }
        FineLoc { base: self.base.adj(dir), ..self }
    }

    /// Sum of two positions, folded as `new` folds.
    pub fn add(self, l: FineLoc) -> (r: FineLoc)
        requires
            folds_in_range(self.base_tile().x + l.base_tile().x, self.offs().0 + l.offs().0),
            folds_in_range(self.base_tile().y + l.base_tile().y, self.offs().1 + l.offs().1),
        ensures
            r.base_tile().x == self.base_tile().x + l.base_tile().x + whole_tiles(self.offs().0 + l.offs().0),
            r.base_tile().y == self.base_tile().y + l.base_tile().y + whole_tiles(self.offs().1 + l.offs().1),
            r.offs().0 == tile_fraction(self.offs().0 + l.offs().0),
            r.offs().1 == tile_fraction(self.offs().1 + l.offs().1),
            r.position() == (self.position().0 + l.position().0, self.position().1
                + l.position().1),
    {
        proof {
            use_type_invariant(&self);
            use_type_invariant(&l);
        }
        let offsets = (self.off_x + l.off_x, self.off_y + l.off_y);
        FineLoc::new(self.base.add(l.base), offsets)
    }

    /// Difference of two positions, folded as `new` folds.
    pub fn sub(self, l: FineLoc) -> (r: FineLoc)
        requires
            folds_in_range(self.base_tile().x - l.base_tile().x, self.offs().0 - l.offs().0),
            folds_in_range(self.base_tile().y - l.base_tile().y, self.offs().1 - l.offs().1),
        ensures
            r.base_tile().x == self.base_tile().x - l.base_tile().x + whole_tiles(self.offs().0 - l.offs().0),
            r.base_tile().y == self.base_tile().y - l.base_tile().y + whole_tiles(self.offs().1 - l.offs().1),
            r.offs().0 == tile_fraction(self.offs().0 - l.offs().0),
            r.offs().1 == tile_fraction(self.offs().1 - l.offs().1),
            r.position() == (self.position().0 - l.position().0, self.position().1
                - l.position().1),
    {
        proof {
            use_type_invariant(&self);
            use_type_invariant(&l);
        }
        let offsets = (self.off_x - l.off_x, self.off_y - l.off_y);
        FineLoc::new(self.base.sub(l.base), offsets)
    }

    /// The position in sub-tile coordinates, in a type wide enough for any
    /// position.
    pub fn position_wide(self) -> (r: (i128, i128))
        ensures
            r.0 == self.base_tile().x * SUBTILE_RES + self.offs().0,
            r.1 == self.base_tile().y * SUBTILE_RES + self.offs().1,
            r.0 == self.position().0,
            r.1 == self.position().1,
    {
        proof {
            use_type_invariant(&self);
        }
        let x = self.base.x as i128 * SUBTILE_RES as i128 + self.off_x as i128;
        let y = self.base.y as i128 * SUBTILE_RES as i128 + self.off_y as i128;
        (x, y)
    }

    /// The position in sub-tile coordinates, for drawing.
    pub fn as_coords(self) -> (r: (isize, isize))
        requires
            in_isize(self.position().0),
            in_isize(self.position().1),
        ensures
            r.0 == self.position().0,
            r.1 == self.position().1,
    {
        let (x, y) = self.position_wide();
        (x as isize, y as isize)
    }
}


/// A tile's corner taken as a fine position has the tile's own sub-tile
/// coordinates.
pub proof fn lemma_corner_position(loc: Loc)
    ensures
        FineLoc::at_corner(loc).position() == loc.position(),
{
}

/// Where an actor stands: at rest on a tile, or on its way to the next.
#[derive(PartialEq, Eq, Structural, Copy, Clone, Debug)]
pub enum RouteResult {
    Complete(Loc),
    InProgress(TileRoute),
}

/// A move under way from one tile to an adjacent one.
#[derive(PartialEq, Eq, Structural, Copy, Clone, Debug)]
pub struct TileRoute {
    pub start: Loc,
    dir: Dir,
    progress: isize,
}

/// Offsets of a traveller `p` sub-tile steps along a cardinal direction
/// with index `k`.
pub open spec fn travel_offsets(k: int, p: int) -> (int, int) {
    if k == 0 {
        (0, -p)
    } else if k == 4 {
        (0, p)
    } else if k == 2 {
        (p, 0)
    } else {
        (-p, 0)
    }
}

impl TileRoute {
    #[verifier::type_invariant]
    closed spec fn inv(self) -> bool {
        &&& 0 <= self.progress < SUBTILE_RES
        &&& self.start.can_step(self.dir)
    }

    /// The tile the move starts from.
    pub closed spec fn start_tile(self) -> Loc {
        self.start
    }

    /// The direction of travel.
    pub closed spec fn heading(self) -> Dir {
        self.dir
    }

    /// Sub-tile steps made so far.
    pub closed spec fn done(self) -> int {
        self.progress as int
    }

    /// The tile the move ends on.
    pub open spec fn dest_spec(self) -> Loc {
        self.start_tile().adj_spec(self.heading())
    }

    /// The state after `delta` more sub-tile steps. A negative `delta`
    /// leaves the route as it is; reaching a whole tile completes the move,
    /// and any excess is dropped.
    pub closed spec fn advanced(self, delta: int) -> RouteResult {
        if delta < 0 {
            RouteResult::InProgress(self)
        } else if self.progress + delta >= SUBTILE_RES {
            RouteResult::Complete(self.dest_spec())
        } else {
            RouteResult::InProgress(TileRoute { progress: (self.progress + delta) as isize, ..self })
        }
    }

    /// A move from `start` in direction `dir`, not yet begun.
    pub fn new(start: Loc, dir: Dir) -> (r: TileRoute)
        requires
            start.can_step(dir),
        ensures
            r.start_tile() == start,
            r.heading() == dir,
            r.done() == 0,
    {
        TileRoute { start, dir, progress: 0 }
    }

    /// The tile the move starts from.
    pub fn origin(self) -> (r: Loc)
        ensures
            r == self.start_tile(),
    {
        self.start
    }

    pub fn dest(self) -> (r: Loc)
        ensures
            r == self.dest_spec(),
    {
        proof {
            use_type_invariant(&self);
        }
        self.start.adj(self.dir)
    }

    /// Makes `delta` more sub-tile steps of progress.
    pub fn advance(self, delta: isize) -> (r: RouteResult)
        ensures
            r == self.advanced(delta as int),
            delta < 0 ==> r == RouteResult::InProgress(self),
            delta >= 0 && self.done() + delta >= SUBTILE_RES ==> r == RouteResult::Complete(
                self.dest_spec(),
            ),
            delta >= 0 && self.done() + delta < SUBTILE_RES ==> (r matches RouteResult::InProgress(t)
                && t.start_tile() == self.start_tile() && t.heading() == self.heading() && t.done()
                == self.done() + delta),
    {
        proof {
            use_type_invariant(&self);
        }
        if delta < 0 {
            RouteResult::InProgress(self)
        } else if delta >= SUBTILE_RES - self.progress {
            RouteResult::Complete(self.dest())
        } else {
            RouteResult::InProgress(TileRoute { progress: self.progress + delta, ..self })
        }
    }

    /// Sub-tile steps made so far, in `[0, SUBTILE_RES)`.
    pub fn get_progress(self) -> (r: isize)
        ensures
            r == self.done(),
            0 <= r < SUBTILE_RES,
    {
        proof {
            use_type_invariant(&self);
        }
        self.progress
    }

    /// The current position: the start tile, offset by the progress made
    /// in the direction of travel. Defined for the four cardinal directions.
    pub fn as_fineloc(self) -> (r: FineLoc)
        requires
            self.heading()@ % 2 == 0,
        ensures
            r.base_tile() == self.start_tile(),
            r.offs().0 == travel_offsets(self.heading()@, self.done()).0,
            r.offs().1 == travel_offsets(self.heading()@, self.done()).1,
    {
        proof {
            use_type_invariant(&self);
        }
        let k = self.dir.as_int();
        let p = self.progress;
        let (xo, yo): (isize, isize) = if k == 0 {
            (0, -p)
        } else if k == 4 {
            (0, p)
        } else if k == 2 {
            (p, 0)
        } else {
            (-p, 0)
        };
        FineLoc::new(self.start, (xo, yo))
    }
}

/// Advancing by `a` and then, if still under way, by `b` ends where a single
/// advance by `a + b` ends.
pub proof fn lemma_advance_split(t: TileRoute, a: int, b: int)
    requires
        0 <= a,
        0 <= b,
    ensures
        match t.advanced(a) {
            RouteResult::Complete(l) => RouteResult::Complete(l),
            RouteResult::InProgress(t2) => t2.advanced(b),
        } == t.advanced(a + b),
{
}

} // verus!
