//! Verified core of a small desktop application for invoicing and for a
//! personal music library.
//!
//! - `database` and `library` hold the two stores; `model` and
//!   `library_model` say what their operations do to the tables, and `laws`
//!   what holds between operations.
//! - `schema` plans how a database file of an earlier release is brought up
//!   to date.
//! - `music` holds the records of the music library and sums up imports.
//! - `pdf_generator` words an invoice and lays it out as marks on a `page`.
//! - `sorting` and `text` order rows and write numerals and lines; `stamps`
//!   keeps the stamps of a row moving forward.
//! - `ambient` and `calendar` are the only places that call outside code
//!   without proof: the clock, the random number generator, and the dates
//!   and instants of chrono.

pub mod ambient;
pub mod calendar;
pub mod database;
pub mod laws;
pub mod library;
pub mod library_model;
pub mod model;
pub mod music;
pub mod page;
pub mod pdf_generator;
pub mod schema;
pub mod sorting;
pub mod stamps;
pub mod text;
