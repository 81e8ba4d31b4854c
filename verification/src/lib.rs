//! Writes shader modules as SPIR-V.

pub mod arena;
pub mod headers;
pub mod ir;
pub mod layout_laws;
pub mod layouter;
pub mod spv;
