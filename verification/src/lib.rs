//! A path-construction geometry engine for a room-layout editor.
//!
//! A wall is described turtle-graphics style: a starting coordinate followed
//! by moves, each of which turns to an absolute orientation and advances a
//! distance.  All coordinates are exact base-10 numbers, and every step snaps
//! the new position to the nearest whole unit, so the resulting polylines are
//! reproducible bit for bit across recomputations and platforms.

pub mod angle;
pub mod dec;
pub mod job;
