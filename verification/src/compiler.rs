//! Back ends that consume a parsed program.

pub mod interpreter;
