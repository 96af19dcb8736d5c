//! The decision logic of a small tower game: which floor the player stands on,
//! which floors of the level are drawn solid, how terrain meshes with floor
//! metadata are set up, and the log filter the game starts with.

pub mod floors;
pub mod logging;
pub mod terrain;
pub mod laws;
