//! A small todo list: records with a title, a description and a status,
//! kept in a table that hands out identifiers in increasing order and
//! never reuses one.
//!
//! - `todo`: a single record and its status changes.
//! - `table`: the table, its listing, and its stored form.
//! - `commands`: what each subcommand does to the table.
//! - `text`: decimal rendering of identifiers.
use vstd::prelude::*;

pub mod commands;
pub mod table;
pub mod text;
pub mod todo;

pub use commands::{Args, Command};
pub use table::Table;
pub use todo::{Todo, TodoStatus};

verus! {

} // verus!
