//! A line-oriented text search library in the style of grep: argument
//! resolution, pattern assembly and rendering of matching lines.

pub mod text;
pub mod colors;
pub mod config;
pub mod error;
pub mod matcher;
pub mod options;
pub mod output;
pub mod source;
