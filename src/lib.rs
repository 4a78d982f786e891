//! Packaging of an asset bundle into a signed application archive: the
//! build parameters, the manifest rewrite, the argument lists of the
//! external tools and the gated sequence of build stages.
pub mod log;
pub mod command;
pub mod config;
pub mod manifest;
pub mod pipeline;
pub mod staging;
