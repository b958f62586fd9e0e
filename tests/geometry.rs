use maze_light::geometry::{
    dir, Angle, Dir, FineLoc, Loc, RouteResult, TileRoute, DIR_RESOLUTION, SUBTILE_RES,
};

#[test]
fn normalize_folds_into_range() {
    for i in -20isize..20 {
        let d = dir(i);
        assert!(d.as_int() >= 0 && d.as_int() < DIR_RESOLUTION);
        assert_eq!(d, dir(i + DIR_RESOLUTION));
    }
    assert_eq!(dir(-1).as_int(), 7);
    assert_eq!(dir(-8).as_int(), 0);
    assert_eq!(dir(9).as_int(), 1);
}

#[test]
fn named_directions_in_order() {
    let all = [
        Dir::north(),
        Dir::ne(),
        Dir::east(),
        Dir::se(),
        Dir::south(),
        Dir::sw(),
        Dir::west(),
        Dir::nw(),
    ];
    for (k, d) in all.iter().enumerate() {
        assert_eq!(d.as_int(), k as isize);
        assert_eq!(d.turn(&Angle::a45()), all[(k + 1) % 8]);
    }
}

#[test]
fn turn_composition() {
    let d = Dir::east();
    let a = Angle::a90();
    let b = Angle::a180();
    assert_eq!(d.turn(&a).turn(&b), Dir::north());
    assert_eq!(d.turn(&a).turn(&b), d.turn(&Angle::a90().reverse()));
    assert_eq!(Dir::nw().turn(&Angle::a45()).turn(&Angle::a90()), Dir::east());
}

#[test]
fn full_rotation_identity() {
    assert_eq!(Dir::north().turn(&Angle::a360()), Dir::north());
    assert_eq!(Dir::sw().turn(&Angle::a360()), Dir::sw());
    assert_eq!(Dir::se().turn(&Angle::a360().reverse()), Dir::se());
}

#[test]
fn angles_and_reverse() {
    assert_eq!(Angle::a45().as_dir(), Dir::ne());
    assert_eq!(Angle::a90().as_dir(), Dir::east());
    assert_eq!(Angle::a180().as_dir(), Dir::south());
    assert_eq!(Angle::a360().as_dir(), Dir::north());
    assert_eq!(Angle::a45().reverse().as_dir(), Dir::nw());
    assert_eq!(Angle::a90().reverse().as_dir(), Dir::west());
}

#[test]
fn adjacent_locations() {
    let l = Loc { x: 3, y: 5 };
    assert_eq!(l.adj(Dir::north()), Loc { x: 3, y: 4 });
    assert_eq!(l.adj(Dir::ne()), Loc { x: 4, y: 4 });
    assert_eq!(l.adj(Dir::east()), Loc { x: 4, y: 5 });
    assert_eq!(l.adj(Dir::se()), Loc { x: 4, y: 6 });
    assert_eq!(l.adj(Dir::south()), Loc { x: 3, y: 6 });
    assert_eq!(l.adj(Dir::sw()), Loc { x: 2, y: 6 });
    assert_eq!(l.adj(Dir::west()), Loc { x: 2, y: 5 });
    assert_eq!(l.adj(Dir::nw()), Loc { x: 2, y: 4 });
}

#[test]
fn location_arithmetic() {
    let a = Loc { x: 3, y: -2 };
    let b = Loc { x: -1, y: 7 };
    assert_eq!(a.add(b), Loc { x: 2, y: 5 });
    assert_eq!(a.sub(b), Loc { x: 4, y: -9 });
    assert_eq!(a.as_coords(), (3 * SUBTILE_RES, -2 * SUBTILE_RES));
}

#[test]
fn fineloc_identity() {
    for loc in [Loc { x: 0, y: 0 }, Loc { x: 4, y: -7 }, Loc { x: -12, y: 30 }] {
        let f = FineLoc::from_loc(loc);
        assert_eq!(f.base, loc);
        assert_eq!(f.get_offsets(), (0, 0));
        assert_eq!(f.as_coords(), loc.as_coords());
    }
}

#[test]
fn fineloc_folds_whole_tiles() {
    let f = FineLoc::new(Loc { x: 1, y: 1 }, (2500, 700));
    assert_eq!(f.base, Loc { x: 3, y: 1 });
    assert_eq!(f.get_offsets(), (500, 700));
    assert_eq!(f.as_coords(), (3500, 1700));
}

#[test]
fn fineloc_negative_offsets_truncate_toward_zero() {
    let f = FineLoc::new(Loc { x: 0, y: 0 }, (-1500, -300));
    assert_eq!(f.base, Loc { x: -1, y: 0 });
    assert_eq!(f.get_offsets(), (-500, -300));
    assert_eq!(f.as_coords(), (-1500, -300));
    let g = FineLoc::from_coords((-2000, 999));
    assert_eq!(g.base, Loc { x: -2, y: 0 });
    assert_eq!(g.get_offsets(), (0, 999));
}

#[test]
fn fineloc_step_add_sub() {
    let f = FineLoc::new(Loc { x: 2, y: 2 }, (300, -400));
    let s = f.step(Dir::east());
    assert_eq!(s.base, Loc { x: 3, y: 2 });
    assert_eq!(s.get_offsets(), (300, -400));

    let g = FineLoc::new(Loc { x: 1, y: 0 }, (800, 100));
    let sum = f.add(g);
    assert_eq!(sum.base, Loc { x: 4, y: 2 });
    assert_eq!(sum.get_offsets(), (100, -300));
    assert_eq!(sum.as_coords(), (4100, 1700));

    let diff = f.sub(g);
    assert_eq!(diff.base, Loc { x: 1, y: 2 });
    assert_eq!(diff.get_offsets(), (-500, -500));
    assert_eq!(diff.as_coords(), (500, 1500));
}

#[test]
fn route_completion() {
    let r = TileRoute::new(Loc { x: 0, y: 0 }, Dir::east());
    assert_eq!(r.dest(), Loc { x: 1, y: 0 });
    assert_eq!(r.advance(SUBTILE_RES), RouteResult::Complete(Loc { x: 1, y: 0 }));
}

#[test]
fn route_cumulative_progress() {
    let r = TileRoute::new(Loc { x: 0, y: 0 }, Dir::east());
    let half = SUBTILE_RES / 2;
    let once = r.advance(SUBTILE_RES);
    match r.advance(half) {
        RouteResult::InProgress(t) => {
            assert_eq!(t.get_progress(), half);
            assert_eq!(t.advance(half), RouteResult::Complete(t.dest()));
            assert_eq!(t.advance(half), once);
        }
        RouteResult::Complete(_) => panic!("half a tile does not complete the move"),
    }
}

#[test]
fn route_overshoot_is_dropped() {
    let r = TileRoute::new(Loc { x: 5, y: 5 }, Dir::north());
    assert_eq!(r.advance(3 * SUBTILE_RES), RouteResult::Complete(Loc { x: 5, y: 4 }));
}

#[test]
fn route_negative_delta_is_no_op() {
    let r = TileRoute::new(Loc { x: 0, y: 0 }, Dir::south());
    match r.advance(200) {
        RouteResult::InProgress(t) => {
            assert_eq!(t.advance(-150), RouteResult::InProgress(t));
            assert_eq!(t.get_progress(), 200);
        }
        RouteResult::Complete(_) => panic!("a fifth of a tile does not complete the move"),
    }
}

#[test]
fn route_as_fineloc() {
    let start = Loc { x: 2, y: 2 };
    let cases = [
        (Dir::north(), (0, -250)),
        (Dir::south(), (0, 250)),
        (Dir::east(), (250, 0)),
        (Dir::west(), (-250, 0)),
    ];
    for (d, offs) in cases {
        match TileRoute::new(start, d).advance(250) {
            RouteResult::InProgress(t) => {
                let f = t.as_fineloc();
                assert_eq!(f.base, start);
                assert_eq!(f.get_offsets(), offs);
            }
            RouteResult::Complete(_) => panic!("a quarter tile does not complete the move"),
        }
    }
}
