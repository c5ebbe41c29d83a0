//! Keeps a bounded pool of virtual desktops ("spaces") of a window manager
//! in order: finds or creates the space for a logical index, and removes
//! unused spaces above the highest one in use.
//!
//! - `space`: snapshots of spaces and when a space counts as in use.
//! - `reap`: which trailing spaces to destroy, highest first, and why that
//!   restores the pool's invariant.
//! - `resolve`: the decision, per query, that finds or makes a target space.
//! - `session`: one command, from the first query to the notification.
pub mod reap;
pub mod resolve;
pub mod session;
pub mod space;
