use htmx_todo::{
    check_text, deleted_body, index_page, row_fragment, todo_item, StoreError, Todo, TodoTable,
};

const ITEM_ONE: &str = "<div class=\"todo-item\"><input type=\"checkbox\" hx-post=\"/todos/1/toggle\" hx-swap=\"outerHTML\" hx-target=\"closest div\"><span class=\"\">Buy milk</span><button hx-delete=\"/todos/1\" hx-target=\"closest div\" hx-swap=\"outerHTML\">Delete</button></div>";

fn ids(rows: &[Todo]) -> Vec<i32> {
    rows.iter().map(|t| t.id).collect()
}

#[test]
fn create_gives_fresh_open_row_that_is_listed() {
    let mut table = TodoTable::new();
    let a = table.create("first").unwrap();
    let b = table.create("second").unwrap();
    assert!(!a.completed);
    assert!(!b.completed);
    assert_eq!(a.text, "first");
    assert_ne!(a.id, b.id);
    let rows = table.list_all();
    assert_eq!(ids(&rows), vec![a.id, b.id]);
    assert_eq!(rows[1].text, "second");
}

#[test]
fn create_rejects_empty_text() {
    let mut table = TodoTable::new();
    assert_eq!(table.create(""), Err(StoreError::EmptyText));
    assert!(table.list_all().is_empty());
    assert_eq!(check_text(""), Err(StoreError::EmptyText));
    assert_eq!(check_text("x"), Ok(()));
}

#[test]
fn toggle_twice_restores_completed() {
    let mut table = TodoTable::new();
    let a = table.create("walk").unwrap();
    let once = table.toggle(a.id).unwrap();
    assert!(once.completed);
    let twice = table.toggle(a.id).unwrap();
    assert_eq!(twice.completed, a.completed);
    assert_eq!(twice.text, "walk");
    assert!(!table.list_all()[0].completed);
}

#[test]
fn toggle_missing_id_is_not_found() {
    let mut table = TodoTable::new();
    table.create("walk").unwrap();
    assert_eq!(table.toggle(42), Err(StoreError::NotFound));
    assert!(!table.list_all()[0].completed);
}

#[test]
fn delete_removes_row_and_missing_id_is_silent() {
    let mut table = TodoTable::new();
    let a = table.create("one").unwrap();
    let b = table.create("two").unwrap();
    table.delete(a.id);
    assert_eq!(ids(&table.list_all()), vec![b.id]);
    table.delete(a.id);
    table.delete(999);
    assert_eq!(ids(&table.list_all()), vec![b.id]);
}

#[test]
fn ids_are_never_reused() {
    let mut table = TodoTable::new();
    let a = table.create("one").unwrap();
    table.delete(a.id);
    let b = table.create("two").unwrap();
    assert!(b.id > a.id);
    assert_eq!(a.id, 1);
    assert_eq!(b.id, 2);
}

#[test]
fn list_all_in_ascending_id_order() {
    let mut table = TodoTable::new();
    for text in ["a", "b", "c", "d", "e"] {
        table.create(text).unwrap();
    }
    table.delete(2);
    table.toggle(4).unwrap();
    table.create("f").unwrap();
    let listed = ids(&table.list_all());
    assert_eq!(listed, vec![1, 3, 4, 5, 6]);
    for w in listed.windows(2) {
        assert!(w[0] <= w[1]);
    }
}

#[test]
fn fragment_is_exact() {
    let t = Todo::new(1, "Buy milk".to_string(), false);
    assert_eq!(todo_item(&t), ITEM_ONE);
}

#[test]
fn fragment_is_deterministic_and_marks_completed() {
    let open = Todo::new(7, "Read".to_string(), false);
    let done = Todo::new(7, "Read".to_string(), true);
    assert_eq!(todo_item(&open), todo_item(&open));
    assert_eq!(todo_item(&done), todo_item(&done));
    assert!(todo_item(&done).contains("<span class=\"completed\">"));
    assert!(!todo_item(&open).contains("class=\"completed\""));
    assert!(todo_item(&done).contains("type=\"checkbox\" checked "));
    assert!(!todo_item(&open).contains("checked"));
}

#[test]
fn fragment_escapes_text() {
    let t = Todo::new(3, "<b>Tom & \"Jerry\"</b>".to_string(), false);
    let html = todo_item(&t);
    assert!(html.contains(
        "<span class=\"\">&lt;b&gt;Tom &amp; &quot;Jerry&quot;&lt;/b&gt;</span>"
    ));
    assert!(!html.contains("<b>"));
}

#[test]
fn fragment_writes_negative_and_large_ids() {
    let t = Todo::new(-5, "x".to_string(), false);
    assert!(todo_item(&t).contains("hx-post=\"/todos/-5/toggle\""));
    let u = Todo::new(i32::MAX, "x".to_string(), false);
    assert!(todo_item(&u).contains("hx-delete=\"/todos/2147483647\""));
}

#[test]
fn end_to_end_buy_milk() {
    let mut table = TodoTable::new();
    let created = table.create("Buy milk").unwrap();
    let fragment = todo_item(&created);
    assert!(fragment.contains("Buy milk"));
    assert!(fragment.contains("type=\"checkbox\""));
    assert!(!fragment.contains("checked"));

    let toggled = table.toggle(created.id).unwrap();
    let fragment = todo_item(&toggled);
    assert!(fragment.contains("type=\"checkbox\" checked"));

    table.delete(created.id);
    assert_eq!(deleted_body(), "");
    let page = index_page(&table.list_all());
    assert!(!page.contains("Buy milk"));
    assert!(!page.contains("todo-item\">"));
}

#[test]
fn empty_page_has_form_and_empty_list() {
    let page = index_page(&Vec::new());
    assert!(page.starts_with("<!DOCTYPE html><html><head><title>HTMX Todo App</title>"));
    assert!(page.contains("<form hx-post=\"/todos\" hx-swap=\"beforeend\" hx-target=\"#todo-list\">"));
    assert!(page.contains("<input type=\"text\" name=\"text\" placeholder=\"New todo...\" required>"));
    assert!(page.contains("<div id=\"todo-list\"></div>"));
    assert!(page.ends_with("</body></html>"));
}

#[test]
fn page_lists_rows_in_order() {
    let rows = vec![
        Todo::new(1, "Buy milk".to_string(), false),
        Todo::new(2, "Walk".to_string(), true),
    ];
    let page = index_page(&rows);
    let expected = format!(
        "<div id=\"todo-list\">{}{}</div>",
        todo_item(&rows[0]),
        todo_item(&rows[1])
    );
    assert!(page.contains(&expected));
    assert!(page.contains(ITEM_ONE));
}

#[test]
fn row_fragment_maps_missing_row_to_not_found() {
    assert_eq!(row_fragment(None), Err(StoreError::NotFound));
    let t = Todo::new(1, "Buy milk".to_string(), false);
    assert_eq!(row_fragment(Some(t)), Ok(ITEM_ONE.to_string()));
}

#[test]
fn status_codes_of_errors() {
    assert_eq!(StoreError::NotFound.status_code(), 404);
    assert_eq!(StoreError::EmptyText.status_code(), 400);
    assert_eq!(StoreError::IdsExhausted.status_code(), 500);
    assert_eq!(StoreError::Backend.status_code(), 500);
}

#[test]
fn getters_return_columns() {
    let t = Todo::new(9, "Read".to_string(), true);
    assert_eq!(t.id(), 9);
    assert_eq!(t.text(), "Read");
    assert!(t.completed());
    let c = t.clone();
    assert_eq!(c.text, "Read");
}
