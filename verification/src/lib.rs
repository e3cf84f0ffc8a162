//! Window-layout policy of the Denial compositor's Wayland frontend.
//!
//! The library holds, as plain values, what the frontend reads when it hands
//! windows to a pluggable layout algorithm: logical rectangles, output
//! transforms, per-window facts, and the bookkeeping tables that let floating
//! geometry survive a managed layout.

pub mod geometry;
pub mod axis;
pub mod properties;
pub mod model;
pub mod frontend;
pub mod arrange;
pub mod restore;
pub mod enroll;
pub mod targets;
pub mod scroll;
pub mod focus;
pub mod steps;
pub mod laws;
