//! Produces damaged copies of files for stress-testing parsers and readers.
//!
//! A copy is made of a source file's content, as bytes or as characters, by
//! operators that each run with a given chance: truncate, delete a few
//! units, append content of other files, overwrite a few units and, for
//! characters, insert special words. The crate holds the operators, the
//! pipeline that orders them, the naming of the copies and the task that
//! decides, for one source file, what its driver has to read, probe and
//! write. It performs no I/O itself.

pub mod chance;
pub mod cli;
pub mod content;
pub mod insertion;
pub mod naming;
pub mod operators;
pub mod pipeline;
pub mod progress;
pub mod random;
pub mod splice;
pub mod task;
pub mod text;
pub mod unit;
