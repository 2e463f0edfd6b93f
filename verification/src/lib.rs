//! A verified core for a command-line archive unpacker.
//!
//! The library resolves a filename to an unpack rule by extension suffix,
//! drives a staged-extraction protocol as a state machine, and chooses
//! collision-free destination names.  All filesystem and process work is
//! performed by the surrounding application, which feeds the outcomes of
//! those actions back into the state machine as events.

pub mod chars;
pub mod config;
pub mod errors;
pub mod executor;
pub mod naming;
pub mod unpack_format;

pub use errors::BadFormat;
pub use errors::BadLine;
pub use errors::BadPath;
pub use errors::MissingOperand;
pub use errors::UnpackError;
