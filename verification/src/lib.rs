//! Compiling the stylesheets of a static site, with proofs.
//!
//! The stylesheets of a site lie below its asset directory. A run picks the
//! ones to compile, leaving out partials; has each compiled, with the site's
//! configuration at hand as a value of the style language; has each output
//! written below the output directory; and checks that no two outputs were
//! written to the same file.
//!
//! This crate holds the decisions of such a run, stated and proved with
//! Verus. It reads no directory, calls no compiler and writes no file: the
//! caller does, as [`pipeline`] describes.
//!
//! - [`value`]: the configuration tree and its image in the style language.
//! - [`registry`]: the slot that holds the configuration of a run.
//! - [`path`] and [`order`]: paths as sequences of names, and their order.
//! - [`discovery`]: which entries of the asset directory are compiled.
//! - [`collision`]: finding outputs that share a file.
//! - [`error`]: what ends a run early.
//! - [`pipeline`]: the run itself.

pub mod collision;
pub mod discovery;
pub mod error;
pub mod order;
pub mod path;
pub mod pipeline;
pub mod registry;
pub mod value;

pub use collision::{validate, CompiledOutput, OutputCollision};
pub use discovery::{get_non_partial_scss, is_partial_scss, WalkEntry};
pub use error::SassError;
pub use path::SassPath;
pub use pipeline::{compile_sass, Action, CompileRun, Event, OutputStyle};
pub use registry::ConfigRegistry;
pub use value::{map_value, Brackets, BridgedValue, ConfigurationValue, ListSeparator, QuoteKind};
