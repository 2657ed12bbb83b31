//! The shapes of the two source documents and of the unified entity model.

pub mod categories;
pub mod ports;
pub mod shared;
pub mod userstyles;
