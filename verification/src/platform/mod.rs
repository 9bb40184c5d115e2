//! Decisions of the macOS platform layer that do not need AppKit.
pub mod callbacks;
pub mod haptics;
