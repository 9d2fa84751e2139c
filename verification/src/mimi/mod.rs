//! Run-time string interpolation using key/value pairs, oriented towards
//! terminal applications.
pub mod style;
pub mod text;
pub mod parse;
pub mod ansi;
pub mod format;
pub mod args;
