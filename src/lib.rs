//! A compiler from message definition files to source text.
//!
//! A tree of directories holding `.msg` definition files becomes a tree of packages and
//! messages; each message becomes a struct whose members have target types, each package
//! a module, and packages without any message at any depth are left out.

pub mod artifacts;
pub mod common;
pub mod field_formatter;
pub mod model;
pub mod module_formatter;
pub mod msg_formatter;
pub mod parse_msg;
pub mod parse_package;
pub mod rust_artifacts;
pub mod source_generator;
