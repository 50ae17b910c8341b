//! Finds the window that holds input focus in a snapshot of a tiling window
//! manager's layout tree.

pub mod error;
pub mod laws;
pub mod model;
pub mod resolve;
pub mod tree;
