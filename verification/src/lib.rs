//! A snake game engine on a toroidal grid, with the geometry of the surface
//! it is painted on.

pub mod block;
pub mod canvas;
pub mod direction;
pub mod laws;
pub mod model;
pub mod settings;
pub mod snake;
pub mod text;
