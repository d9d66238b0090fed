//! The rules of a side-view motorbike game: which way the rider steers,
//! brakes and jumps, which terrain contact decides a collision query, which
//! stars are picked up, and how a play session moves between its screens.
//!
//! The crate holds no real-valued arithmetic. The caller integrates the
//! bodies and measures distances; it hands the outcomes of its measurements
//! to the functions here and carries out what they decide.
//!
//! - [`bike`]: the rider's controls and whether the bike is in one piece.
//! - [`level`]: the kinds of the terrain and the stars that are left.
//! - [`game`]: the level menu, the attempt, and how an attempt ends.
//! - [`time`]: the time of an attempt, and how it is shown.
//! - [`fx`]: the triangles of the meshes that are drawn.

pub mod bike;
pub mod fx;
pub mod game;
pub mod level;
pub mod time;
