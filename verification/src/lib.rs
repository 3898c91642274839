//! A verified media catalog core: classifying files by extension, parsing
//! embedded capture timestamps, keeping a catalog with unique paths and
//! identities, listing and searching it in capture-date order, and planning
//! thumbnail derivation with idempotent cache reuse.

pub mod capture;
pub mod catalog;
pub mod classify;
pub mod scanner;
pub mod text;
pub mod thumbs;
pub mod timestamp;

pub use timestamp::Timestamp;
