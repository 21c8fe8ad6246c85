//! Core logic of a small freehand paint program: pointer geometry and
//! hot-zone hit-testing, stroke interpolation between per-frame pointer
//! samples, a persistent RGBA drawing surface with a square brush, and
//! the room/tool state machine that drives them.

pub mod geom;
pub mod stroke;
pub mod surface;
pub mod state;
