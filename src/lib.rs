//! Core logic of the Voltec marketing site: the live-counter display format,
//! the route table, a small signal store with explicit dependency tracking,
//! the page lifecycle that owns the live-counter timer, and the geometry of
//! the decorative particle field.

mod text;

pub mod format;
pub mod signal;
pub mod router;
pub mod particles;
pub mod site;
