//! Verified core of a GPU user-interface renderer: scene batching, render planning,
//! deferred drawing, asset lookup and the small host-side contracts shared by the
//! backends.
pub mod assets;
pub mod elements;
pub mod platform;
pub mod render;
pub mod scene;
