//! Flattened component views.

pub mod todo;
