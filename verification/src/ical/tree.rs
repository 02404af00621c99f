//! The lossless generic tree and its parser.

pub mod lorax;

pub mod types;
