use maze_light::geometry::Loc;
use maze_light::loc_map::LocMap;
use maze_light::mazes::{maze_from_grid, parse_maze_text, Maze, MazeError, Tile, GRID_FLOOR};

fn floor(m: &Maze, x: isize, y: isize) -> bool {
    m.map.get(&Loc { x, y }) == Some(Tile::Floor)
}

#[test]
fn parse_small_maze() {
    let text = b"=====\n=s..=\n=.=g=\n=====\n";
    let m = parse_maze_text(text).unwrap();
    assert_eq!(m.start, Loc { x: 1, y: 1 });
    assert_eq!(m.goal, Loc { x: 3, y: 2 });
    assert!(floor(&m, 1, 1));
    assert!(floor(&m, 2, 1));
    assert!(floor(&m, 3, 1));
    assert!(floor(&m, 1, 2));
    assert!(floor(&m, 3, 2));
    assert!(!floor(&m, 2, 2));
    assert!(!floor(&m, 0, 0));
    assert_eq!(m.map.len(), 5);
    assert!(m.is_well_formed());
}

#[test]
fn parse_space_is_floor() {
    let m = parse_maze_text(b"s g").unwrap();
    assert!(floor(&m, 1, 0));
    assert_eq!(m.goal, Loc { x: 2, y: 0 });
}

#[test]
fn parse_last_start_and_goal_win() {
    let m = parse_maze_text(b"sg\ngs\n").unwrap();
    assert_eq!(m.start, Loc { x: 1, y: 1 });
    assert_eq!(m.goal, Loc { x: 0, y: 1 });
    assert_eq!(m.map.len(), 4);
}

#[test]
fn parse_without_start_keeps_origin() {
    let m = parse_maze_text(b"==\n=g").unwrap();
    assert_eq!(m.start, Loc { x: 0, y: 0 });
    assert_eq!(m.goal, Loc { x: 1, y: 1 });
    assert!(!m.is_well_formed());
}

#[test]
fn parse_empty_text() {
    let m = parse_maze_text(b"").unwrap();
    assert_eq!(m.map.len(), 0);
}

#[test]
fn parse_unknown_char() {
    let r = parse_maze_text(b"s.\n.x#g");
    assert_eq!(r.err(), Some(MazeError::UnknownChar { at: 4, byte: b'x' }));
    let r = parse_maze_text(b"s.\r\n");
    assert_eq!(r.err(), Some(MazeError::UnknownChar { at: 2, byte: b'\r' }));
}

#[test]
fn grid_maze() {
    // cell (x, y) sits at x * size + y.
    let cells = vec![1, 0, 1, 1, 1, 0, 0, 1, 2];
    let m = maze_from_grid(3, &cells, Loc { x: 0, y: 0 }, Loc { x: 2, y: 1 });
    assert!(floor(&m, 0, 0));
    assert!(!floor(&m, 0, 1));
    assert!(floor(&m, 0, 2));
    assert!(floor(&m, 1, 0));
    assert!(floor(&m, 1, 1));
    assert!(!floor(&m, 1, 2));
    assert!(!floor(&m, 2, 0));
    assert!(floor(&m, 2, 1));
    assert!(!floor(&m, 2, 2));
    assert_eq!(m.map.len(), 5);
    assert!(m.is_well_formed());
    assert_eq!(GRID_FLOOR, 1);
}

#[test]
fn loc_map_replaces_values() {
    let mut m: LocMap<u8> = LocMap::new();
    m.insert(Loc { x: 1, y: 2 }, 5);
    m.insert(Loc { x: 2, y: 1 }, 6);
    m.insert(Loc { x: 1, y: 2 }, 7);
    assert_eq!(m.len(), 2);
    assert_eq!(m.get(&Loc { x: 1, y: 2 }), Some(7));
    assert_eq!(m.get(&Loc { x: 2, y: 1 }), Some(6));
    assert_eq!(m.get(&Loc { x: 0, y: 0 }), None);
    assert_eq!(m.entries().len(), 2);
}
