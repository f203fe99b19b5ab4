use rtodo::commands;
use rtodo::text::push_padded_decimal;
use rtodo::{Table, Todo, TodoStatus};

fn todo(t: &str, d: &str) -> Todo {
    Todo::new(t.to_string(), d.to_string())
}

#[test]
fn shopping_scenario() {
    let mut table = Table::new();
    assert_eq!(table.add_todo(todo("Buy milk", "2%")), 0);
    assert_eq!(table.add_todo(todo("Walk dog", "")), 1);
    assert!(commands::finish(&mut table, 0));
    let text = commands::list(&table);
    let lines: Vec<&str> = text.lines().collect();
    assert_eq!(lines.len(), 3);
    assert_eq!(lines[1], "  0. [Finished] Buy milk (2%)");
    assert_eq!(lines[2], "  1. [Unfinished] Walk dog ()");
    let removed = table.remove_todo_by_id(0).unwrap();
    assert_eq!(removed.get_title(), "Buy milk");
    assert_eq!(removed.get_description(), "2%");
    assert_eq!(*removed.get_status(), TodoStatus::Finished);
    assert_eq!(table.add_todo(todo("Read", "book")), 2);
}

#[test]
fn identifiers_increase_from_zero() {
    let mut table = Table::new();
    assert_eq!(table.next_id(), 0);
    for expected in 0..50usize {
        assert_eq!(table.add_todo(todo("t", "d")), expected);
        if expected % 3 == 0 {
            assert!(table.remove_todo_by_id(expected).is_some());
        }
    }
    assert_eq!(table.next_id(), 50);
}

#[test]
fn remove_absent_or_removed_finds_nothing() {
    let mut table = Table::new();
    assert!(table.remove_todo_by_id(0).is_none());
    let id = table.add_todo(todo("a", "b"));
    assert!(table.remove_todo_by_id(id + 1).is_none());
    assert!(table.get_todos(id).is_some());
    let removed = table.remove_todo_by_id(id).unwrap();
    assert_eq!(removed, todo("a", "b"));
    assert!(table.remove_todo_by_id(id).is_none());
    assert!(table.get_todos(id).is_none());
}

#[test]
fn remove_takes_out_only_that_entry() {
    let mut table = Table::new();
    table.add_todo(todo("a", "1"));
    table.add_todo(todo("b", "2"));
    table.add_todo(todo("c", "3"));
    assert_eq!(table.remove_todo_by_id(1), Some(todo("b", "2")));
    assert_eq!(table.get_todos(0), Some(&todo("a", "1")));
    assert_eq!(table.get_todos(2), Some(&todo("c", "3")));
    assert_eq!(table.next_id(), 3);
}

#[test]
fn modify_absent_fails_and_keeps_table() {
    let mut table = Table::new();
    table.add_todo(todo("a", "b"));
    let before = table.render();
    match table.modify_todo_by_id(7, todo("x", "y")) {
        Err(e) => assert_eq!(e, "Todo not found"),
        Ok(_) => panic!("modified an absent todo"),
    }
    match table.modify_todo(7, todo("x", "y")) {
        Err(e) => assert_eq!(e, "Not found"),
        Ok(_) => panic!("modified an absent todo"),
    }
    assert_eq!(table.render(), before);
    assert_eq!(table.next_id(), 1);
}

#[test]
fn modify_present_keeps_status() {
    let mut table = Table::new();
    let id = table.add_todo(todo("old", "old desc"));
    table.get_todo_by_id(id).unwrap().forgive();
    let mut replacement = todo("new", "new desc");
    replacement.finish();
    let changed = table.modify_todo_by_id(id, replacement).unwrap();
    assert_eq!(changed.get_title(), "new");
    assert_eq!(changed.get_description(), "new desc");
    assert_eq!(*changed.get_status(), TodoStatus::Forgave);
    let again = table.modify_todo(id, todo("third", "")).unwrap();
    assert_eq!(again.get_title(), "third");
    assert_eq!(*again.get_status(), TodoStatus::Forgave);
}

#[test]
fn get_by_id_changes_land_in_table() {
    let mut table = Table::new();
    let id = table.add_todo(todo("a", "b"));
    assert!(table.get_todo_by_id(id + 3).is_none());
    table.get_todo_by_id(id).unwrap().modify_title("z".to_string());
    assert_eq!(table.get_todos(id).unwrap().get_title(), "z");
}

#[test]
fn commands_report_whether_found() {
    let mut table = Table::new();
    assert_eq!(commands::add(&mut table, "a".to_string(), "b".to_string()), 0);
    assert!(!commands::finish(&mut table, 1));
    assert!(!commands::forgive(&mut table, 1));
    assert!(!commands::remove(&mut table, 1));
    assert!(commands::forgive(&mut table, 0));
    assert_eq!(*table.get_todos(0).unwrap().get_status(), TodoStatus::Forgave);
    assert!(commands::remove(&mut table, 0));
    assert!(!commands::remove(&mut table, 0));
}

#[test]
fn empty_table_listing() {
    let table = Table::new();
    assert_eq!(table.render(), "📝 Todo list is empty\n");
}

#[test]
fn listing_in_increasing_order() {
    let mut table = Table::new();
    table.add_todo(todo("a", "1"));
    table.add_todo(todo("b", "2"));
    table.add_todo(todo("c", "3"));
    table.remove_todo_by_id(1);
    assert_eq!(
        table.render(),
        "📝 Todo list:\n  0. [Unfinished] a (1)\n  2. [Unfinished] c (3)\n"
    );
}

#[test]
fn wide_identifiers_are_not_cut() {
    let mut table = Table::new();
    for _ in 0..1001 {
        table.add_todo(todo("t", "d"));
    }
    for id in 0..1000usize {
        if id != 9 && id != 99 {
            table.remove_todo_by_id(id);
        }
    }
    assert_eq!(
        table.render(),
        "📝 Todo list:\n  9. [Unfinished] t (d)\n 99. [Unfinished] t (d)\n1000. [Unfinished] t (d)\n"
    );
}

#[test]
fn padded_decimal() {
    let mut s = String::from(">");
    push_padded_decimal(&mut s, 7, 3);
    assert_eq!(s, ">  7");
    let mut s = String::new();
    push_padded_decimal(&mut s, 12345, 3);
    assert_eq!(s, "12345");
    let mut s = String::new();
    push_padded_decimal(&mut s, 0, 0);
    assert_eq!(s, "0");
}

#[test]
fn parts_round_trip() {
    let mut table = Table::new();
    table.add_todo(todo("a", "1"));
    table.add_todo(todo("b", ""));
    table.add_todo(todo("c", "3"));
    table.remove_todo_by_id(1);
    table.get_todo_by_id(2).unwrap().finish();
    let (entries, next_id) = table.to_parts();
    assert_eq!(next_id, 3);
    assert_eq!(entries.len(), 2);
    assert_eq!(entries[0], (0, todo("a", "1")));
    assert_eq!(entries[1].0, 2);
    let back = Table::from_parts(entries, next_id).unwrap();
    assert_eq!(back.render(), table.render());
    assert_eq!(back.next_id(), 3);
    assert_eq!(back.get_todos(2), table.get_todos(2));
    assert!(back.get_todos(1).is_none());
}

#[test]
fn parts_of_empty_table() {
    let (entries, next_id) = Table::new().to_parts();
    assert!(entries.is_empty());
    assert_eq!(next_id, 0);
    let back = Table::from_parts(entries, next_id).unwrap();
    assert_eq!(back.render(), "📝 Todo list is empty\n");
    assert_eq!(back.next_id(), 0);
}

#[test]
fn parts_with_identifier_at_counter_are_refused() {
    assert!(Table::from_parts(vec![(0, todo("a", "b"))], 0).is_none());
    assert!(Table::from_parts(vec![(0, todo("a", "b")), (5, todo("c", "d"))], 5).is_none());
}

#[test]
fn parts_out_of_order_are_refused() {
    assert!(Table::from_parts(vec![(2, todo("a", "b")), (1, todo("c", "d"))], 5).is_none());
    assert!(Table::from_parts(vec![(1, todo("a", "b")), (1, todo("c", "d"))], 5).is_none());
    assert!(Table::from_parts(vec![(1, todo("a", "b")), (3, todo("c", "d"))], 5).is_some());
}
