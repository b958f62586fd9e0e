use maze_light::geometry::{Dir, Loc};
use maze_light::light::{
    illuminate, shade_of, Lum, Shade, Source, DARK1_LIGHT, DARK2_LIGHT, INIT_LIGHT,
};
use maze_light::loc_map::LocMap;
use maze_light::mazes::{Maze, Tile};

fn maze_of(floor: &[(isize, isize)]) -> Maze {
    let mut map = LocMap::new();
    for &(x, y) in floor {
        map.insert(Loc { x, y }, Tile::Floor);
    }
    Maze { start: Loc { x: 0, y: 0 }, goal: Loc { x: 0, y: 0 }, map }
}

fn value(map: &LocMap<Lum>, x: isize, y: isize) -> Option<f64> {
    map.get(&Loc { x, y }).map(|l| l.num() as f64 / l.den() as f64)
}

fn close(a: Option<f64>, b: f64) -> bool {
    match a {
        Some(v) => (v - b).abs() < 1e-9,
        None => false,
    }
}

#[test]
fn illumination_open_floor() {
    let maze = maze_of(&[(0, 0), (0, 1), (-1, 1), (1, 1)]);
    let src = Source::mk_source(&Loc { x: 0, y: 0 }, &Dir::south());
    let mut map = LocMap::new();
    illuminate(&maze, &src, &mut map);
    assert_eq!(value(&map, 0, 0), Some(20.0));
    assert_eq!(value(&map, 0, 1), Some(10.0));
    assert!(close(value(&map, -1, 1), 20.0 / 3.0));
    assert!(close(value(&map, 1, 1), 20.0 / 3.0));
    assert!((value(&map, 1, 1).unwrap() - 6.667).abs() < 1e-3);
    // the forward ray lights one more step, the side rays curve on.
    assert_eq!(value(&map, 0, 2), Some(5.0));
    assert!(close(value(&map, 2, 1), 20.0 / 9.0));
    assert!(close(value(&map, -2, 1), 20.0 / 9.0));
    assert!(close(value(&map, 1, 2), 10.0 / 3.0));
    assert!(close(value(&map, -1, 2), 10.0 / 3.0));
    assert_eq!(map.len(), 9);
}

#[test]
fn illumination_wall_stop() {
    let maze = maze_of(&[(0, 0)]);
    let src = Source::mk_source(&Loc { x: 0, y: 0 }, &Dir::south());
    let mut map = LocMap::new();
    illuminate(&maze, &src, &mut map);
    assert_eq!(value(&map, 0, 0), Some(20.0));
    assert_eq!(value(&map, 0, 1), Some(10.0));
    assert_eq!(value(&map, 0, 2), None);
    assert_eq!(value(&map, 1, 2), None);
    assert_eq!(value(&map, -1, 2), None);
    assert!(close(value(&map, 1, 1), 20.0 / 3.0));
    assert!(close(value(&map, -1, 1), 20.0 / 3.0));
    assert_eq!(map.len(), 4);
}

#[test]
fn illumination_power_threshold() {
    let maze = maze_of(&[(0, 0), (0, 1), (1, 1), (-1, 1)]);
    let src = Source::with_power(&Loc { x: 0, y: 0 }, &Dir::south(), Lum::new(1, 2));
    let mut map = LocMap::new();
    illuminate(&maze, &src, &mut map);
    assert_eq!(map.len(), 1);
    assert_eq!(value(&map, 0, 0), Some(0.5));
}

#[test]
fn illumination_on_wall_records_only_source() {
    let maze = maze_of(&[(5, 5)]);
    let src = Source::mk_source(&Loc { x: 0, y: 0 }, &Dir::east());
    let mut map = LocMap::new();
    illuminate(&maze, &src, &mut map);
    assert_eq!(map.len(), 1);
    assert_eq!(value(&map, 0, 0), Some(20.0));
}

#[test]
fn illumination_overwrites_earlier_values() {
    let maze = maze_of(&[(0, 0)]);
    let mut map = LocMap::new();
    map.insert(Loc { x: 0, y: 1 }, Lum::new(99, 1));
    map.insert(Loc { x: 7, y: 7 }, Lum::new(1, 1));
    let src = Source::mk_source(&Loc { x: 0, y: 0 }, &Dir::south());
    illuminate(&maze, &src, &mut map);
    assert_eq!(value(&map, 0, 1), Some(10.0));
    assert_eq!(value(&map, 7, 7), Some(1.0));
    assert_eq!(map.len(), 5);
}

#[test]
fn illumination_bounded_on_open_floor() {
    let mut cells = Vec::new();
    for x in -40isize..=40 {
        for y in -40isize..=40 {
            cells.push((x, y));
        }
    }
    let maze = maze_of(&cells);
    let src = Source::mk_source(&Loc { x: 0, y: 0 }, &Dir::north());
    let mut map = LocMap::new();
    illuminate(&maze, &src, &mut map);
    // 20 lumens can be halved five times: at most 6 * 6 tiles.
    assert!(map.len() <= 36);
    assert!(map.len() > 1);
    for (loc, _) in map.entries() {
        assert!(loc.x.abs() <= 6 && loc.y.abs() <= 6);
    }
}

#[test]
fn shades() {
    assert_eq!(shade_of(None), Shade::Dark);
    assert_eq!(shade_of(Some(Lum::new(1, 2))), Shade::Dark);
    assert_eq!(shade_of(Some(Lum::new(DARK2_LIGHT, 1))), Shade::Dim);
    assert_eq!(shade_of(Some(Lum::new(20, 9))), Shade::Dim);
    assert_eq!(shade_of(Some(Lum::new(DARK1_LIGHT, 1))), Shade::Lit);
    assert_eq!(shade_of(Some(Lum::new(INIT_LIGHT, 1))), Shade::Lit);
}

#[test]
fn lum_parts_and_threshold() {
    let l = Lum::new(20, 3);
    assert_eq!(l.num(), 20);
    assert_eq!(l.den(), 3);
    assert!(l.below(7));
    assert!(!l.below(6));
}
