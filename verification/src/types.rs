//! The typed (non-combinator) schema node kinds.
pub mod array;
pub mod boolean;
pub mod hash;
pub mod object;
pub mod integer;
pub mod reals;
pub mod reference;
pub mod string;
