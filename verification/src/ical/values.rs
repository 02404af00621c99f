//! Typed scalar values of iCalendar properties: text, integers, dates,
//! zoned datetimes and durations, each with an exact parse/serialize
//! grammar.

pub mod base;

pub mod string;

pub mod integer;

pub mod date;

pub mod datetime;

pub mod duration;
