//! Who is calling.

pub mod role;
