//! Selection of files by glob patterns and their assembly into one framed
//! text bundle.

pub mod pattern;
pub mod select;
pub mod assemble;
pub mod pipeline;
