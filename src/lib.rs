//! Navigation and illumination inside a grid maze: compass directions,
//! grid locations, sub-tile positions, tile-to-tile motion, an actor that
//! walks the maze, and a cone-shaped light propagation over its floor tiles.
pub mod game;
pub mod geometry;
pub mod light;
pub mod loc_map;
pub mod mazes;
