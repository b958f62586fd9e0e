use crate::geometry::{Angle, Dir, Loc};
use crate::loc_map::LocMap;
use crate::mazes::{Maze, Tile};
use vstd::prelude::*;

verus! {

/// Divisor of a forward ray's power at each step.
const DIVP: u64 = 2;

/// Divisor of a side ray's power at each step.
const DIVS: u64 = 3;

/// Power of a fresh light source, in whole lumens.
pub const INIT_LIGHT: u64 = 20;

/// Light values below this many lumens are dim.
pub const DARK1_LIGHT: u64 = 3;

/// Light values below this many lumens are total dark.
pub const DARK2_LIGHT: u64 = 1;

/// Largest numerator a source's power may have, so that its denominator
/// can be multiplied by a divisor while the power is at least one lumen.
pub const LUM_LIMIT: u64 = 0x5555_5555_5555_5555;

/// A light intensity in lumens, held exactly as the fraction `num / den`.
#[derive(Copy, Clone, Debug)]
pub struct Lum {
    num: u64,
    den: u64,
}

impl Lum {
    #[verifier::type_invariant]
    closed spec fn inv(self) -> bool {
        self.den > 0
    }

    /// Numerator of the fraction.
    pub closed spec fn numer(self) -> int {
        self.num as int
    }

    /// Denominator of the fraction.
    pub closed spec fn denom(self) -> int {
        self.den as int
    }

    /// This intensity divided by `d`.
    pub closed spec fn over(self, d: int) -> Lum {
        Lum { num: self.num, den: (self.den * d) as u64 }
    }

    /// The intensity `num / den` lumens.
    pub fn new(num: u64, den: u64) -> (r: Lum)
        requires
            den > 0,
        ensures
            r.numer() == num,
            r.denom() == den,
    {
        Lum { num, den }
    }

    pub fn num(&self) -> (r: u64)
        ensures
            r == self.numer(),
    {
        self.num
    }

    pub fn den(&self) -> (r: u64)
        ensures
            r == self.denom(),
            r > 0,
    {
        proof {
            use_type_invariant(self);
        }
        self.den
    }

    /// Whether this intensity is below `n` whole lumens.
    pub fn below(&self, n: u64) -> (r: bool)
        ensures
            r == (self.numer() < n * self.denom()),
    {
        let a = n as u128;
        let b = self.den as u128;
        assert(a * b <= u64::MAX * u64::MAX) by (nonlinear_arith)
            requires
                0 <= a <= u64::MAX,
                0 <= b <= u64::MAX,
        ;
        let bound = a * b;
        (self.num as u128) < bound
    }

    fn divided(&self, d: u64) -> (r: Lum)
        requires
            d > 0,
            self.denom() * d <= u64::MAX,
        ensures
            r == self.over(d as int),
    {
        proof {
            use_type_invariant(self);
        }
        assert(self.den * d > 0) by (nonlinear_arith)
            requires
                self.den > 0,
                d > 0,
        ;
        Lum { num: self.num, den: self.den * d }
    }
}

/// How a light value is drawn.
#[derive(PartialEq, Eq, Structural, Copy, Clone, Debug)]
pub enum Shade {
    Lit,
    Dim,
    Dark,
}

/// The shade of a tile from its recorded light, if any: unlit tiles and
/// those under `DARK2_LIGHT` are dark, those under `DARK1_LIGHT` dim, the
/// rest lit.
pub fn shade_of(lum: Option<Lum>) -> (r: Shade)
    ensures
        r == match lum {
            None => Shade::Dark,
            Some(l) => if l.numer() < DARK2_LIGHT * l.denom() {
                Shade::Dark
            } else if l.numer() < DARK1_LIGHT * l.denom() {
                Shade::Dim
            } else {
                Shade::Lit
            },
        },
{
    match lum {
        None => Shade::Dark,
        Some(l) => if l.below(DARK2_LIGHT) {
            Shade::Dark
        } else if l.below(DARK1_LIGHT) {
            Shade::Dim
        } else {
            Shade::Lit
        },
    }
}


/// How a light ray spreads.
#[derive(PartialEq, Eq, Structural, Copy, Clone, Debug)]
pub enum SourceKind {
    /// Goes on forward and splits off a side ray to each hand.
    Primary,
    /// Curves further to the left at each step.
    Left,
    /// Curves further to the right at each step.
    Right,
}

/// A light ray about to light a tile.
#[derive(Copy, Clone, Debug)]
pub struct Source {
    pub power: Lum,
    pub dir: Dir,
    pub loc: Loc,
    pub kind: SourceKind,
}

/// A ray of this power lights the tiles past it: it is at least one lumen
/// (and its numerator within the limit that keeps its fraction exact).
pub open spec fn spreads(p: Lum) -> bool {
    0 < p.denom() <= p.numer() <= LUM_LIMIT
}

/// Shrinks with each step of a ray.
pub open spec fn spread_measure(p: Lum) -> int {
    if spreads(p) {
        p.numer() - p.denom() + 1
    } else {
        0
    }
}

/// The ray that follows `s` one step in direction `d`, with its power
/// divided by `div`.
pub open spec fn next_ray(s: Source, d: Dir, div: u64, kind: SourceKind) -> Source {
    Source { power: s.power.over(div as int), dir: d, loc: s.loc.adj_spec(d), kind }
}

/// The light map `m` after ray `s` has lit `floor`: the ray's tile records
/// its power, replacing what was there; a ray of at least one lumen on a
/// floor tile then goes on. A primary ray goes on forward at half its power
/// and sends a side ray a turn-unit to each hand at a third; a side ray keeps
/// curving its own way at a third.
pub closed spec fn illuminated(floor: Map<Loc, Tile>, s: Source, m: Map<Loc, Lum>) -> Map<
    Loc,
    Lum,
>
    decreases spread_measure(s.power),
{
    let m1 = m.insert(s.loc, s.power);
    if spreads(s.power) && floor.dom().contains(s.loc) {
        proof {
            lemma_next_measure(s.power);
        }
        match s.kind {
            SourceKind::Primary => {
                let f = next_ray(s, s.dir, DIVP, SourceKind::Primary);
                let l = next_ray(s, s.dir.turned(-1), DIVS, SourceKind::Left);
                let r = next_ray(s, s.dir.turned(1), DIVS, SourceKind::Right);
                illuminated(floor, r, illuminated(floor, l, illuminated(floor, f, m1)))
            },
            SourceKind::Left => illuminated(
                floor,
                next_ray(s, s.dir.turned(-1), DIVS, SourceKind::Left),
                m1,
            ),
            SourceKind::Right => illuminated(
                floor,
                next_ray(s, s.dir.turned(1), DIVS, SourceKind::Right),
                m1,
            ),
        }
    } else {
        m1
    }
}

proof fn lemma_next_measure(p: Lum)
    requires
        spreads(p),
    ensures
        p.over(DIVP as int).numer() == p.numer(),
        p.over(DIVP as int).denom() == 2 * p.denom(),
        p.over(DIVS as int).numer() == p.numer(),
        p.over(DIVS as int).denom() == 3 * p.denom(),
        spread_measure(p.over(DIVP as int)) < spread_measure(p),
        spread_measure(p.over(DIVS as int)) < spread_measure(p),
{
}


impl Source {
    /// A primary ray of `INIT_LIGHT` lumens at `loc`, facing `dir`.
    pub fn mk_source(loc: &Loc, dir: &Dir) -> (r: Source)
        ensures
            r.power.numer() == INIT_LIGHT,
            r.power.denom() == 1,
            r.dir == *dir,
            r.loc == *loc,
            r.kind == SourceKind::Primary,
    {
        Source { power: Lum::new(INIT_LIGHT, 1), dir: *dir, loc: *loc, kind: SourceKind::Primary }
    }

    /// A primary ray of the given power at `loc`, facing `dir`.
    pub fn with_power(loc: &Loc, dir: &Dir, power: Lum) -> (r: Source)
        ensures
            r.power == power,
            r.dir == *dir,
            r.loc == *loc,
            r.kind == SourceKind::Primary,
    {
        Source { power, dir: *dir, loc: *loc, kind: SourceKind::Primary }
    }
}

/// How many of `p`, `p / 2`, `p / 4`, ... are at least one, for
/// `p = num / den`.
pub open spec fn halvings(num: int, den: int) -> nat
    decreases (if 0 < den <= num {
        num - den + 1
    } else {
        0
    }),
{
    if 0 < den <= num {
        1 + halvings(num, 2 * den)
    } else {
        0
    }
}

/// Most tiles that a ray of the given kind can light, for a power with
/// `halvings` equal to `h`.
pub open spec fn reach(kind: SourceKind, h: nat) -> nat {
    match kind {
        SourceKind::Primary => (h + 1) * (h + 1),
        _ => h + 1,
    }
}

proof fn lemma_halvings_antitone(num: int, d1: int, d2: int)
    requires
        0 < d1 <= d2,
    ensures
        halvings(num, d2) <= halvings(num, d1),
    decreases (if d1 <= num {
        num - d1 + 1
    } else {
        0
    }),
{
    if d2 <= num {
        lemma_halvings_antitone(num, 2 * d1, 2 * d2);
    }
}

/// The number of tiles that one ray adds to a light map is bounded by a
/// function of its power's `halvings` alone (about the base-2 logarithm of
/// the power), whatever the maze: even an endless open floor is lit only
/// that far.
pub proof fn lemma_illuminated_bound(floor: Map<Loc, Tile>, s: Source, m: Map<Loc, Lum>)
    requires
        m.dom().finite(),
    ensures
        illuminated(floor, s, m).dom().finite(),
        illuminated(floor, s, m).len() <= m.len() + reach(
            s.kind,
            halvings(s.power.numer(), s.power.denom()),
        ),
    decreases spread_measure(s.power),
{
    let m1 = m.insert(s.loc, s.power);
    let h = halvings(s.power.numer(), s.power.denom());
    assert(m1.len() <= m.len() + 1);
    if spreads(s.power) && floor.dom().contains(s.loc) {
        lemma_next_measure(s.power);
        let num = s.power.numer();
        let den = s.power.denom();
        assert(h == 1 + halvings(num, 2 * den));
        lemma_halvings_antitone(num, 2 * den, 3 * den);
        let hs = halvings(num, 3 * den);
        assert(hs + 1 <= h);
        match s.kind {
            SourceKind::Primary => {
                let f = next_ray(s, s.dir, DIVP, SourceKind::Primary);
                let l = next_ray(s, s.dir.turned(-1), DIVS, SourceKind::Left);
                let r = next_ray(s, s.dir.turned(1), DIVS, SourceKind::Right);
                lemma_illuminated_bound(floor, f, m1);
                let m2 = illuminated(floor, f, m1);
                lemma_illuminated_bound(floor, l, m2);
                let m3 = illuminated(floor, l, m2);
                lemma_illuminated_bound(floor, r, m3);
                assert((h + 1) * (h + 1) == h * h + 2 * h + 1) by (nonlinear_arith);
            },
            SourceKind::Left => {
                lemma_illuminated_bound(
                    floor,
                    next_ray(s, s.dir.turned(-1), DIVS, SourceKind::Left),
                    m1,
                );
            },
            SourceKind::Right => {
                lemma_illuminated_bound(
                    floor,
                    next_ray(s, s.dir.turned(1), DIVS, SourceKind::Right),
                    m1,
                );
            },
        }
    } else {
        assert(reach(s.kind, h) >= 1) by (nonlinear_arith)
            requires
                reach(s.kind, h) == (h + 1) * (h + 1) || reach(s.kind, h) == h + 1,
        ;
    }
}

/// Records in `map` the light that `source` casts over the maze.
pub fn illuminate(maze: &Maze, source: &Source, map: &mut LocMap<Lum>)
    requires
        maze.bounded(),
        source.power.numer() <= LUM_LIMIT,
    ensures
        final(map)@ == illuminated(maze.map@, *source, old(map)@),
        final(map)@.len() <= old(map)@.len() + reach(
            source.kind,
            halvings(source.power.numer(), source.power.denom()),
        ),
    decreases spread_measure(source.power),
{
    proof {
        map.lemma_finite();
        lemma_illuminated_bound(maze.map@, *source, map@);
    }
    map.insert(source.loc, source.power);
    proof {
        use_type_invariant(&source.power);
    }
    let lit = !source.power.below(1);
    let on_floor = maze.map.get(&source.loc).is_some();
    if lit && on_floor {
        proof {
            lemma_next_measure(source.power);
        }
        match source.kind {
            SourceKind::Primary => {
                let fsrc = Source {
                    power: source.power.divided(DIVP),
                    dir: source.dir,
                    loc: source.loc.adj(source.dir),
                    kind: SourceKind::Primary,
                };
                illuminate(maze, &fsrc, map);
                let ldir = source.dir.turn(&Angle::a45().reverse());
                let lsrc = Source {
                    power: source.power.divided(DIVS),
                    dir: ldir,
                    loc: source.loc.adj(ldir),
                    kind: SourceKind::Left,
                };
                illuminate(maze, &lsrc, map);
                let rdir = source.dir.turn(&Angle::a45());
                let rsrc = Source {
                    power: source.power.divided(DIVS),
                    dir: rdir,
                    loc: source.loc.adj(rdir),
                    kind: SourceKind::Right,
                };
                illuminate(maze, &rsrc, map);
            },
            SourceKind::Left => {
                let dir = source.dir.turn(&Angle::a45().reverse());
                let src = Source {
                    power: source.power.divided(DIVS),
                    dir,
                    loc: source.loc.adj(dir),
                    kind: SourceKind::Left,
                };
                illuminate(maze, &src, map);
            },
            SourceKind::Right => {
                let dir = source.dir.turn(&Angle::a45());
                let src = Source {
                    power: source.power.divided(DIVS),
                    dir,
                    loc: source.loc.adj(dir),
                    kind: SourceKind::Right,
                };
                illuminate(maze, &src, map);
            },
        }
    }
}

} // verus!
