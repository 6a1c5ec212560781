use vstd::prelude::*;

use crate::render::{item_html, todo_item};
use crate::table::StoreError;
use crate::todo::Todo;

verus! {

/// Creates the table when it is missing; safe to run on every start.
pub const CREATE_TABLE_SQL: &'static str =
    "CREATE TABLE IF NOT EXISTS todos (id SERIAL PRIMARY KEY, text TEXT NOT NULL, completed BOOLEAN NOT NULL DEFAULT FALSE)";

/// Every row, in ascending id order.
pub const LIST_ALL_SQL: &'static str = "SELECT id, text, completed FROM todos ORDER BY id";

/// Inserts a row that is not completed and returns it; binds the text.
pub const INSERT_SQL: &'static str =
    "INSERT INTO todos (text, completed) VALUES ($1, false) RETURNING id, text, completed";

/// Flips `completed` on one row and returns it; binds the id.
pub const TOGGLE_SQL: &'static str =
    "UPDATE todos SET completed = NOT completed WHERE id = $1 RETURNING id, text, completed";

/// Removes one row, if there is one; binds the id.
pub const DELETE_SQL: &'static str = "DELETE FROM todos WHERE id = $1";

/// The answer to a statement that returns at most one row: the row's
/// fragment, or `NotFound` when no row matched.
pub fn row_fragment(row: Option<Todo>) -> (r: Result<String, StoreError>)
    ensures
        row is None ==> r == Err::<String, StoreError>(StoreError::NotFound),
        row matches Some(t) ==> r matches Ok(s) && s@ == item_html(t),
{
    match row {
        Some(t) => Ok(todo_item(&t)),
        None => Err(StoreError::NotFound),
    }
}

/// The body of the answer to a delete, which is empty whether or not a row
/// was removed.
pub fn deleted_body() -> (r: String)
    ensures
        r@.len() == 0,
{
    String::new()
}

} // verus!
