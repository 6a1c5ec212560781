//! A small to-do list: the record type, an in-memory table with the
//! semantics of the four statements the server runs, and the HTML
//! fragments and page that the server sends back.

pub mod render;
pub mod response;
pub mod table;
pub mod todo;

pub use render::{index_page, todo_item};
pub use response::{deleted_body, row_fragment};
pub use table::{check_text, StoreError, TodoTable};
pub use todo::Todo;
