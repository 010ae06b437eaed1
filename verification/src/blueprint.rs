//! Building jail roots from build templates: the template model, its
//! parser, and the build context the instructions run against.

pub mod context;
pub mod executor;
pub mod instructions;
pub mod parser;
