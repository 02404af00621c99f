//! A verified iCalendar (RFC 5545) codec and CalDAV synchronization core.
//!
//! The `ical` modules parse calendar text into typed component trees and
//! serialize them back, with machine-checked contracts for the value
//! grammars, line folding and round-trip behaviour.  The `caldav` modules
//! hold the verified protocol logic: request bodies, response walking over
//! a plain XML tree, calendar discovery and the ctag-gated todo caches.
//! Network transport and terminal glue live outside the library.

pub mod args;

pub mod strutil;

pub mod ical;

pub mod caldav;

pub mod tui;

pub mod types;

