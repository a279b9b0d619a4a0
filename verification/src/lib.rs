//! The computations behind the starforge `gas` and `template` commands: how fees, deltas,
//! paths and tag lists are written, which history entries are shown, how an estimate's cost
//! summary is laid out, and the example templates that seed the marketplace.
//!
//! - [`text`]: decimal notation, byte slices of text, path shortening, tag lists.
//! - [`gas`]: the cost-estimation and gas-analysis views.
//! - [`template`]: the template-marketplace views.

pub mod gas;
pub mod template;
pub mod text;
