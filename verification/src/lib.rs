//! Byte-level glitching of files: randomized, parametrized mutations applied
//! to a buffer's raw contents, the resolution of their options, and the
//! bookkeeping of the jobs that apply them.

pub mod benders;
pub mod configuration;
pub mod error;
pub mod kind;
pub mod mutations;
pub mod options;
pub mod random;
pub mod range;
pub mod text;
