//! The CalDAV side of the library: XML response walking, calendar
//! discovery, todo fetching and the ctag-gated caches.  All network
//! traffic is driven from outside; the logic here is verified.

pub mod calendar;

pub mod client;

pub mod parser;

pub mod todo;

pub mod types;
