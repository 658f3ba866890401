//! Signature scanning over the memory image of a loaded module: byte patterns
//! with wildcards, pointer chains read out of the image, and the address
//! arithmetic that turns a match into the address of a game value.

pub mod pattern;
pub mod image;
pub mod sigscan;
pub mod signatures;
pub mod overlay;
