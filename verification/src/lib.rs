//! Verified core of a MakeMKV front end: the wire protocol spoken with the
//! `makemkvcon` GUI server, the parsers for the data it reports, and the
//! decisions of the web front end that drives it.

pub mod command;
pub mod drive;
pub mod error;
pub mod language_data;
pub mod session;
pub mod text;
pub mod title;
pub mod util;
pub mod web;
