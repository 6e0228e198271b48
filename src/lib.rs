//! A small arcade simulation: a player moves over a field of peeps and walls, picks up
//! the peeps it touches and dies on the walls it touches, while a state machine moves
//! between a splash screen and play. Coordinates are fixed-point integers (see
//! `geom::SUBUNITS`) and time is in milliseconds.

pub mod geom;
pub mod world;
pub mod motion;
pub mod player;
pub mod setup;
pub mod game;
pub mod laws;
