//! Server-side core of a persistent toroidal grid world: players own guests
//! that walk across lazily materialised nodes and trade heat with their cells.
pub mod api;
pub mod config;
pub mod grid;
mod random;
pub mod entity;
pub mod err;
pub mod thermo;
pub mod world;
