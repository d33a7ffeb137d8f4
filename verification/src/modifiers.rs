//! The logical combinators, whose validity is defined over the results of
//! child nodes rather than over document structure directly.
pub mod all_of;
pub mod any_of;
pub mod not;
pub mod one_of;
