//! Game logic of a tile-map world: the square tile layout with its chunk
//! grid, the chunk-loading decisions around moving sites, the debug console
//! and the main-menu button.
pub mod coords;
pub mod debug;
pub mod main_menu;
pub mod rings;
pub mod terrain;
pub mod tilemap;
