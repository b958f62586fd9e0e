use crate::geometry::{
    offset_x, offset_y, travel_offsets, Dir, FineLoc, Loc, RouteResult, TileRoute, SUBTILE_RES,
};
use crate::mazes::{Maze, Tile};
use vstd::prelude::*;

verus! {

/// An actor walking a maze: where it is, which way it faces and which way
/// its player wants it to go.
pub struct Game {
    pub maze: Maze,
    pub loc: RouteResult,
    pub intended_dir: Option<Dir>,
    pub dir: Dir,
    pub camera: FineLoc,
}

/// How far the camera may fall behind the actor before it follows, in
/// sub-tile steps.
pub const CAM_DIST: isize = SUBTILE_RES;

/// A direction along one of the four axes.
pub open spec fn cardinal(d: Dir) -> bool {
    d@ % 2 == 0
}

/// `loc` is a move from `l` in direction `d`, not yet begun.
pub open spec fn starts_route(loc: RouteResult, l: Loc, d: Dir) -> bool {
    match loc {
        RouteResult::InProgress(t) => t.start_tile() == l && t.heading() == d && t.done() == 0,
        RouteResult::Complete(_) => false,
    }
}

impl Game {
    /// The tile the actor stands on, or is leaving.
    pub open spec fn here(&self) -> Loc {
        match self.loc {
            RouteResult::Complete(l) => l,
            RouteResult::InProgress(r) => r.start_tile(),
        }
    }

    /// The actor's offset from `here`, in sub-tile steps.
    pub open spec fn actor_offs(&self) -> (int, int) {
        match self.loc {
            RouteResult::Complete(_) => (0, 0),
            RouteResult::InProgress(t) => travel_offsets(t.heading()@, t.done()),
        }
    }

    /// The actor's position, in sub-tile steps.
    pub open spec fn actor_position(&self) -> (int, int) {
        (
            self.here().x * SUBTILE_RES + self.actor_offs().0,
            self.here().y * SUBTILE_RES + self.actor_offs().1,
        )
    }

    /// The camera's position, in sub-tile steps.
    pub open spec fn camera_position(&self) -> (int, int) {
        (
            self.camera.base_tile().x * SUBTILE_RES + self.camera.offs().0,
            self.camera.base_tile().y * SUBTILE_RES + self.camera.offs().1,
        )
    }

    /// The camera sits at the actor's offset within the tile next to the
    /// actor's in the direction with index `k`.
    pub open spec fn camera_beside(&self, old_game: Game, k: int) -> bool {
        &&& self.camera.base_tile().x == old_game.here().x + offset_x(k)
        &&& self.camera.base_tile().y == old_game.here().y + offset_y(k)
        &&& self.camera.offs().0 == old_game.actor_offs().0
        &&& self.camera.offs().1 == old_game.actor_offs().1
    }

    /// The actor only ever stands on floor, moves along an axis between
    /// floor tiles, and wants to go along an axis.
    pub open spec fn wf(&self) -> bool {
        &&& self.maze.bounded()
        &&& self.maze.map@.dom().contains(self.here())
        &&& match self.loc {
            RouteResult::Complete(_) => true,
            RouteResult::InProgress(r) => cardinal(r.heading()) && self.maze.map@.dom().contains(
                r.dest_spec(),
            ),
        }
        &&& match self.intended_dir {
            Some(d) => cardinal(d),
            None => true,
        }
    }

    /// A game at the maze's start, facing south, with nowhere to go yet.
    pub fn new(maze: Maze) -> (r: Game)
        requires
            maze.bounded(),
            maze.well_formed(),
        ensures
            r.wf(),
            r.maze == maze,
            r.loc == RouteResult::Complete(maze.start),
            r.dir@ == 4,
            r.intended_dir.is_none(),
            r.camera == FineLoc::at_corner(maze.start),
    {
        let start_loc = maze.start;
        Game {
            maze,
            loc: RouteResult::Complete(start_loc),
            dir: Dir::south(),
            intended_dir: None,
            camera: FineLoc::from_loc(start_loc),
        }
    }

    /// The player wants to go in `dir`.
    pub fn intend(&mut self, dir: Dir)
        requires
            old(self).wf(),
            cardinal(dir),
        ensures
            final(self).wf(),
            *final(self) == (Game { intended_dir: Some(dir), ..*old(self) }),
    {
        self.intended_dir = Some(dir);
    }

    /// The player no longer wants to go in `dir`.
    pub fn unintend(&mut self, dir: Dir)
        requires
            old(self).wf(),
        ensures
            final(self).wf(),
            old(self).intended_dir == Some(dir) ==> *final(self) == (Game {
                intended_dir: None,
                ..*old(self)
            }),
            old(self).intended_dir != Some(dir) ==> *final(self) == *old(self),
    {
        if let Some(d) = self.intended_dir {
            if d == dir {
                self.intended_dir = None;
            }
        }
    }

    /// The tile at `loc`.
    pub fn tile_at(&self, loc: Loc) -> (r: Option<Tile>)
        ensures
            r == self.maze.map@.get(loc),
    {
        self.maze.map.get(&loc)
    }

    /// The tile next to the actor's tile in direction `dir`.
    pub fn adj(&self, dir: Dir) -> (r: Option<Tile>)
        requires
            self.wf(),
        ensures
            r == self.maze.map@.get(self.here().adj_spec(dir)),
    {
        match self.loc {
            RouteResult::Complete(l) => self.tile_at(l.adj(dir)),
            RouteResult::InProgress(r) => self.tile_at(r.origin().adj(dir)),
        }
    }

    /// One tick: a move under way goes on by `delta` sub-tile steps; an
    /// actor at rest turns to the wanted direction and sets off if the tile
    /// there is floor.
    pub fn update(&mut self, delta: isize)
        requires
            old(self).wf(),
        ensures
            final(self).wf(),
            final(self).maze == old(self).maze,
            final(self).intended_dir == old(self).intended_dir,
            final(self).camera == old(self).camera,
            match old(self).loc {
                RouteResult::InProgress(r) => {
                    &&& final(self).loc == r.advanced(delta as int)
                    &&& final(self).dir == old(self).dir
                },
                RouteResult::Complete(l) => match old(self).intended_dir {
                    None => *final(self) == *old(self),
                    Some(d) => {
                        &&& final(self).dir == d
                        &&& old(self).maze.map@.dom().contains(l.adj_spec(d)) ==> starts_route(
                            final(self).loc,
                            l,
                            d,
                        )
                        &&& !old(self).maze.map@.dom().contains(l.adj_spec(d)) ==> final(self).loc
                            == old(self).loc
                    },
                },
            },
    {
        match self.loc {
            RouteResult::InProgress(route) => {
                self.loc = route.advance(delta);
            },
            RouteResult::Complete(loc) => match self.intended_dir {
                Some(d) => {
                    self.dir = d;
                    if self.adj(d).is_some() {
                        self.loc = RouteResult::InProgress(TileRoute::new(loc, d));
                    }
                },
                None => {},
            },
        }
    }

    /// The tile the actor stands on, or is leaving.
    pub fn base_loc(&self) -> (r: Loc)
        requires
            self.wf(),
        ensures
            r == self.here(),
    {
        match self.loc {
            RouteResult::Complete(l) => l,
            RouteResult::InProgress(r) => r.origin(),
        }
    }

    /// Where the actor is drawn.
    pub fn fine_loc(&self) -> (r: FineLoc)
        requires
            self.wf(),
        ensures
            r.base_tile() == self.here(),
            r.offs().0 == self.actor_offs().0,
            r.offs().1 == self.actor_offs().1,
            self.loc matches RouteResult::Complete(l) ==> r == FineLoc::at_corner(l),
    {
        match self.loc {
            RouteResult::Complete(l) => FineLoc::from_loc(l),
            RouteResult::InProgress(r) => r.as_fineloc(),
        }
    }

    /// Lets the camera follow the actor. Where the actor is more than
    /// `CAM_DIST` east, west or south of the camera, checked in that order,
    /// the camera moves to one tile behind it on that axis; otherwise, where
    /// the actor is less than `CAM_DIST` south of it, the camera moves to one
    /// tile south of the actor.
    pub fn settle_cam(&mut self)
        requires
            old(self).wf(),
        ensures
            final(self).wf(),
            *final(self) == (Game { camera: final(self).camera, ..*old(self) }),
            ({
                let dx = old(self).actor_position().0 - old(self).camera_position().0;
                let dy = old(self).actor_position().1 - old(self).camera_position().1;
                if dx > CAM_DIST {
                    final(self).camera_beside(*old(self), 6)
                } else if dx < -CAM_DIST {
                    final(self).camera_beside(*old(self), 2)
                } else if dy > CAM_DIST {
                    final(self).camera_beside(*old(self), 0)
                } else if dy < CAM_DIST {
                    final(self).camera_beside(*old(self), 4)
                } else {
                    final(self).camera == old(self).camera
                }
            }),
    {
        let here = self.fine_loc();
        let p = here.position_wide();
        let c = self.camera.position_wide();
        let dx = p.0 - c.0;
        let dy = p.1 - c.1;
        if dx > CAM_DIST as i128 {
            self.camera = here.step(Dir::west());
        } else if dx < -CAM_DIST as i128 {
            self.camera = here.step(Dir::east());
        } else if dy > CAM_DIST as i128 {
            self.camera = here.step(Dir::north());
        } else if dy < CAM_DIST as i128 {
            self.camera = here.step(Dir::south());
        }
    }
}

} // verus!
