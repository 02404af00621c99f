//! The iCalendar (RFC 5545) side of the library: value codecs, the
//! content-line lexer, the typed object tree and its serializer, and the
//! generic lossless trees used by the todo views.

pub mod values;

pub mod components;

pub mod generics;

pub mod objects;

pub mod parser;

pub mod peg;

pub mod serializer;

pub mod todo;

pub mod tree;

pub mod vtodo;
