//! A growable, contiguous sequence container with a doubling capacity policy,
//! indexed and sliced access, and a double-ended consuming iterator.

pub mod growable;
pub mod iter;
pub mod laws;
pub mod model;

pub use growable::Vec;
pub use iter::IntoIter;
