//! Management of Windows "Run at startup" registry entries: encoding commands
//! into registry values (with optional silent-execution wrappers), resolving
//! executable names back out of such values, and the use cases built on top.

pub mod application;
pub mod domain;
pub mod infrastructure;
pub mod shared;

