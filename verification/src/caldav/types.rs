//! A plain record shape for one fetched todo, kept beside the richer
//! cache-bearing types.

use vstd::prelude::*;

verus! {

use crate::ical::objects::generics::VCalendar;
use crate::ical::objects::vtodo::VTodo;

/// The whole VTODO REPORT entry, as plain owned data.
pub struct CalendarTodo {
    pub etag: String,
    pub url: String,
    /// The parsed document, with the extracted todo removed.
    pub vcal: VCalendar,
    pub vtodo: VTodo,
}

} // verus!
