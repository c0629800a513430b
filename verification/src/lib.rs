//! Telemetry logic for a Bambu Lab printer feed: merging of state deltas,
//! extraction of telemetry columns, and the small helpers around them.

pub mod json;
pub mod state;
pub mod fields;
pub mod sift;
pub mod clock;
