//! Helpers for playlist addresses as users paste them.

pub mod util;
