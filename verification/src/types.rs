//! Small plain record shapes kept beside the richer typed model.

use vstd::prelude::*;

verus! {

/// A flat todo record of parsed field values.
#[derive(Debug)]
pub struct VTodo {
    pub completed: Option<String>,
    pub created: Option<String>,
    pub dtstamp: Option<String>,
    pub last_modified: Option<String>,
    pub percent_complete: Option<i32>,
    pub priority: Option<i32>,
    pub sequence: Option<i32>,
    pub status: Option<String>,
    pub description: Option<String>,
    pub summary: Option<String>,
    pub uid: Option<String>,
}

/// A calendar's identifying metadata.
#[derive(Debug)]
pub struct Calendar {
    pub url: String,
    pub name: String,
    pub ctag: String,
}

} // verus!
