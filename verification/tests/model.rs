use todo_list::model::{App, Filter, Msg, Todo};

fn fresh() -> App {
    todo_list::App()
}

#[test]
fn seeding_hundred_items() {
    let app = fresh();
    assert_eq!(app.todos.len(), 100);
    for (k, todo) in app.todos.iter().enumerate() {
        let i = k + 1;
        assert_eq!(todo.id, i);
        assert_eq!(todo.text, format!("Todo item {}", i));
        assert_eq!(todo.completed, i % 3 == 0);
    }
    assert_eq!(app.next_id, 101);
    assert_eq!(app.input_value, "");
    assert!(matches!(app.filter, Filter::All));
}

#[test]
fn add_with_empty_draft_is_a_no_op() {
    let mut app = fresh();
    let changed = app.add_todo();
    assert!(!changed);
    assert_eq!(app.todos.len(), 100);
    assert_eq!(app.next_id, 101);
    assert_eq!(app.input_value, "");
}

#[test]
fn add_with_whitespace_draft_is_a_no_op() {
    let mut app = fresh();
    app.set_draft_text(String::from("  \t\n  "));
    let changed = app.add_todo();
    assert!(!changed);
    assert_eq!(app.todos.len(), 100);
    assert_eq!(app.next_id, 101);
    assert_eq!(app.input_value, "  \t\n  ");

    app.set_draft_text(String::from("\u{00A0}\u{2003}\u{3000}"));
    assert!(!app.add_todo());
    assert_eq!(app.todos.len(), 100);
}

#[test]
fn add_with_nonempty_draft_prepends() {
    let mut app = fresh();
    app.set_draft_text(String::from("X"));
    assert_eq!(app.next_id, 101);
    let changed = app.add_todo();
    assert!(changed);
    assert_eq!(app.todos[0].id, 101);
    assert_eq!(app.todos[0].text, "X");
    assert!(!app.todos[0].completed);
    assert_eq!(app.next_id, 102);
    assert_eq!(app.input_value, "");
    assert_eq!(app.todos.len(), 101);
}

#[test]
fn add_keeps_untrimmed_text() {
    let mut app = fresh();
    app.set_draft_text(String::from("  keep my spaces  "));
    assert!(app.add_todo());
    assert_eq!(app.todos[0].text, "  keep my spaces  ");
}

#[test]
fn toggle_twice_restores() {
    let mut app = fresh();
    let before: Vec<(usize, bool)> = app.todos.iter().map(|t| (t.id, t.completed)).collect();
    assert!(app.toggle_todo(5));
    assert!(app.todos.iter().find(|t| t.id == 5).unwrap().completed);
    assert!(app.toggle_todo(5));
    let after: Vec<(usize, bool)> = app.todos.iter().map(|t| (t.id, t.completed)).collect();
    assert_eq!(before, after);
}

#[test]
fn toggle_flips_only_the_matching_item() {
    let mut app = fresh();
    assert!(app.toggle_todo(7));
    for todo in &app.todos {
        let seeded = todo.id % 3 == 0;
        if todo.id == 7 {
            assert_eq!(todo.completed, !seeded);
        } else {
            assert_eq!(todo.completed, seeded);
        }
    }
}

#[test]
fn toggle_of_missing_id_is_a_no_op() {
    let mut app = fresh();
    let before: Vec<(usize, bool)> = app.todos.iter().map(|t| (t.id, t.completed)).collect();
    let changed = app.toggle_todo(500);
    assert!(!changed);
    let after: Vec<(usize, bool)> = app.todos.iter().map(|t| (t.id, t.completed)).collect();
    assert_eq!(before, after);
}

#[test]
fn delete_removes_exactly_one_and_again_is_a_no_op() {
    let mut app = fresh();
    app.delete_todo(50);
    assert_eq!(app.todos.len(), 99);
    assert!(app.todos.iter().all(|t| t.id != 50));
    app.delete_todo(50);
    assert_eq!(app.todos.len(), 99);
}

#[test]
fn filtered_items_per_mode() {
    let mut app = fresh();
    app.set_filter(Filter::Active);
    let active = app.filtered_items();
    assert!(active.iter().all(|t| !t.completed));
    assert_eq!(active.len(), 67);

    app.set_filter(Filter::Completed);
    let completed = app.filtered_items();
    assert!(completed.iter().all(|t| t.completed));
    assert_eq!(completed.len(), 33);

    app.set_filter(Filter::All);
    let all = app.filtered_items();
    assert_eq!(all.len(), 100);
    let ids: Vec<usize> = all.iter().map(|t| t.id).collect();
    assert_eq!(ids, (1..=100).collect::<Vec<usize>>());
}

#[test]
fn filtered_items_preserve_relative_order() {
    let mut app = fresh();
    app.set_filter(Filter::Completed);
    let ids: Vec<usize> = app.filtered_items().iter().map(|t| t.id).collect();
    let expected: Vec<usize> = (1..=100).filter(|i| i % 3 == 0).collect();
    assert_eq!(ids, expected);
}

#[test]
fn remaining_count_ignores_the_filter() {
    let mut app = fresh();
    let by_hand = app.todos.iter().filter(|t| !t.completed).count();
    assert_eq!(app.remaining_count(), by_hand);
    assert_eq!(app.remaining_count(), 67);
    app.set_filter(Filter::Completed);
    assert_eq!(app.remaining_count(), 67);
    app.toggle_todo(1);
    assert_eq!(app.remaining_count(), 66);
}

#[test]
fn adds_stack_newest_first() {
    let mut app = fresh();
    app.set_draft_text(String::from("a"));
    assert!(app.add_todo());
    app.set_draft_text(String::from("b"));
    assert!(app.add_todo());
    assert_eq!(app.todos[0].text, "b");
    assert_eq!(app.todos[0].id, 102);
    assert_eq!(app.todos[1].text, "a");
    assert_eq!(app.todos[1].id, 101);
    assert_eq!(app.todos[2].id, 1);
    assert_eq!(app.todos.len(), 102);
}

#[test]
fn update_dispatches_messages() {
    let mut app = fresh();
    assert!(app.update(Msg::UpdateInput(String::from("from a message"))));
    assert_eq!(app.input_value, "from a message");
    assert!(app.update(Msg::AddTodo));
    assert_eq!(app.todos[0].text, "from a message");
    assert!(app.update(Msg::ToggleTodo(101)));
    assert!(app.todos[0].completed);
    assert!(!app.update(Msg::ToggleTodo(999)));
    assert!(app.update(Msg::DeleteTodo(101)));
    assert_eq!(app.todos.len(), 100);
    assert!(app.update(Msg::SetFilter(Filter::Completed)));
    assert!(matches!(app.filter, Filter::Completed));
}

#[test]
fn custom_state_roundtrip() {
    let mut app = App {
        todos: vec![
            Todo { id: 2, text: String::from("two"), completed: true },
            Todo { id: 1, text: String::from("one"), completed: false },
        ],
        input_value: String::new(),
        filter: Filter::All,
        next_id: 3,
    };
    assert_eq!(app.remaining_count(), 1);
    assert!(app.toggle_todo(2));
    assert_eq!(app.remaining_count(), 2);
    app.delete_todo(1);
    assert_eq!(app.todos.len(), 1);
    assert_eq!(app.todos[0].id, 2);
}
