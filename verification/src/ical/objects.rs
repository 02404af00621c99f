//! Typed iCalendar components and the generic object tree around them.

pub mod generics;

pub mod valarm;

pub mod vevent;

pub mod vjournal;

pub mod vtodo;
