//! Pages and the pointers that name them.

pub mod common;
