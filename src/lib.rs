//! Hexagonal-grid coordinate geometry: cube coordinates and their algebra,
//! exact fractional coordinates with rounding, offset coordinates, map shapes
//! and line tracing.
pub mod direction;
pub mod fractional;
pub mod hex;
pub mod map;
pub mod offset;
pub mod shapes;
pub mod tile;

pub use direction::HexDirection;
pub use fractional::FractionalHex;
pub use hex::Hex;
pub use map::{
    hex_map_from_hex_set, make_hexagon, make_parallelogram, make_rectangle, make_triangle, HexMap,
};
pub use offset::Offset;
pub use tile::Tile;
