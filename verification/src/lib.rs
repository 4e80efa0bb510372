//! Flattens a structured value — an object of string-keyed pairs, or an
//! array — into one flat, ordered sequence of text tokens.

pub mod error;
pub mod flatten;
