//! A retained-mode user-interface layout and interaction engine.
//!
//! The crate resolves declarative size constraints into concrete pixel
//! geometry, lays out trees of elements, routes hover and focus through
//! those trees, and remembers window geometry across open/close cycles
//! keyed by a window class string.

pub mod units;
pub mod constraint;
pub mod cache;
pub mod element;
pub mod focus;
pub mod window;
pub mod builder;
pub mod prototype;
