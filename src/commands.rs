//! What each subcommand does to the table, apart from reading its input
//! and printing its outcome.
use vstd::prelude::*;

use crate::table::{table_text, Table};
use crate::todo::{fresh_todo, TodoStatus};

verus! {

/// The subcommands.
#[derive(Debug, Clone, Copy, PartialEq, Eq, Structural)]
pub enum Command {
    /// Add a new todo item.
    Add,
    /// List all todo items.
    List,
    /// Remove a todo item.
    Remove,
    /// Mark a todo item as complete.
    Finish,
    /// Mark a todo item as abandoned.
    Forgive,
}

/// The parsed command line: one subcommand.
#[derive(Debug, Clone, Copy, PartialEq, Eq, Structural)]
pub struct Args {
    pub command: Command,
}

/// Adds a todo with the given title and description; returns its identifier.
pub fn add(table: &mut Table, title: String, description: String) -> (id: usize)
    requires
        old(table).wf(),
        old(table)@.next_id < usize::MAX,
    ensures
        final(table).wf(),
        id as nat == old(table)@.next_id,
        final(table)@ == old(table)@.add(fresh_todo(title@, description@)),
{
    let todo = crate::todo::Todo::new(title, description);
    table.add_todo(todo)
}

/// The listing of the table.
pub fn list(table: &Table) -> (r: String)
    ensures
        r@ == table_text(table.listing()),
{
    table.render()
}

/// Removes the todo of `id`; tells whether there was one.
pub fn remove(table: &mut Table, id: usize) -> (found: bool)
    requires
        old(table).wf(),
    ensures
        final(table).wf(),
        found == old(table)@.todos.contains_key(id),
        final(table)@ == if found {
            old(table)@.remove(id)
        } else {
            old(table)@
        },
{
    table.remove_todo_by_id(id).is_some()
}

/// Marks the todo of `id` as finished; tells whether there was one.
pub fn finish(table: &mut Table, id: usize) -> (found: bool)
    requires
        old(table).wf(),
    ensures
        final(table).wf(),
        found == old(table)@.todos.contains_key(id),
        final(table)@ == if found {
            old(table)@.set(id, old(table)@.todos[id].with_status(TodoStatus::Finished))
        } else {
            old(table)@
        },
{
    match table.get_todo_by_id(id) {
        Some(todo) => {
            todo.finish();
            true
        },
        None => false,
    }
}

/// Marks the todo of `id` as abandoned; tells whether there was one.
pub fn forgive(table: &mut Table, id: usize) -> (found: bool)
    requires
        old(table).wf(),
    ensures
        final(table).wf(),
        found == old(table)@.todos.contains_key(id),
        final(table)@ == if found {
            old(table)@.set(id, old(table)@.todos[id].with_status(TodoStatus::Forgave))
        } else {
            old(table)@
        },
{
    match table.get_todo_by_id(id) {
        Some(todo) => {
            todo.forgive();
            true
        },
        None => false,
    }
}

} // verus!
