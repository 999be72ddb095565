//! Bookkeeping and build planning for translated documentation books.
//!
//! A set of books, each an mdbook project, is translated with gettext
//! catalogs. This library keeps the registry of which book is translated
//! into which languages, and lays out what has to be done to build the
//! books, to add a language and to bring a catalog up to date.
//!
//! It reads no file and starts no process. Every workflow is handed out as
//! a list of steps with the paths and command lines filled in, for a caller
//! to carry out; see [`plan`] and [`book`]. What it does itself is the
//! bookkeeping ([`registry`]), the language picker that every built book
//! carries ([`picker`]), and the settings that a build puts into a book's
//! configuration ([`config`]).
//!
//! Everything here is verified, but for a few calls into `std::path`,
//! `tera` and `mdbook`, each marked as trusted where it stands.

pub mod book;
pub mod command;
pub mod config;
pub mod error;
pub mod names;
pub mod paths;
pub mod picker;
pub mod plan;
pub mod registry;
pub mod text;

pub use registry::{Book, Translation, Translations};
