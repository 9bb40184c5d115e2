//! Host-side contracts shared by every GPU backend.

pub mod artifacts;
pub mod blur;
pub mod instances;
pub mod interface;
pub mod path_types;
