//! Layout reporting for the built-in types the library knows about.

pub mod cell;
pub mod marker;
pub mod mem;
pub mod primitive;
