//! Procedural starmap generation under pairwise constraints, spread selection of
//! starting bodies, and the game state that applies player actions to the map.
pub mod geometry;
pub mod planet;
pub mod starmap;
pub mod builder;
pub mod spread;
pub mod game;
pub mod manage;
