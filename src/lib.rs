//! Runtime location of host data structures by byte-signature search, and a
//! verified model of the host's table of loaded resources.

pub mod scan;
pub mod offsets;
pub mod loaded;
