//! State shapes of the interactive screen.

pub mod app;
