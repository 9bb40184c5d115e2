//! Scene storage, ordering and batching.
pub mod abi;
pub mod batch;
pub mod labels;
pub mod painted;
pub mod plan;
pub mod primitives;
pub mod small_vec;
pub mod sort;
pub mod store;
