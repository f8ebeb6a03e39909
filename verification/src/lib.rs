//! Page storage layer of a small relational engine: a disk manager that
//! addresses a file by fixed-size pages, the directory and slotted page
//! formats that live in those pages, and the typed value codec used to
//! store column values in them. Beside it stand the syntax trees of the
//! engine's SQL front end and the visitors that walk them.
//!
//! Every function states what it returns and changes in terms of plain
//! mathematical models: a page is a sequence of bytes, a directory a
//! sequence of records, a file a sequence of bytes, a value a type tag and
//! a payload.

pub mod common;
pub mod deprecated;
pub mod storage;
pub mod tiny_planner;
pub mod types;
