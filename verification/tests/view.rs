use todo_list::model::{App, Filter, Todo};
use todo_list::text;

#[test]
fn fmt_usize_renders_decimal() {
    assert_eq!(text::fmt_usize(0), "0");
    assert_eq!(text::fmt_usize(7), "7");
    assert_eq!(text::fmt_usize(42), "42");
    assert_eq!(text::fmt_usize(100), "100");
    assert_eq!(text::fmt_usize(98765), "98765");
}

#[test]
fn is_blank_matches_trimmed_emptiness() {
    assert!(text::is_blank(""));
    assert!(text::is_blank("   "));
    assert!(text::is_blank(" \t\r\n"));
    assert!(text::is_blank("\u{00A0}\u{2000}\u{200A}\u{3000}"));
    assert!(!text::is_blank(" x "));
    assert!(!text::is_blank("todo"));
    // agreement with the standard trim on a few mixed samples
    for s in ["", " ", "\u{2028}\u{2029}", "a", " a ", "\u{200B}"] {
        assert_eq!(text::is_blank(s), s.trim().is_empty(), "sample {:?}", s);
    }
}

#[test]
fn view_of_the_seeded_state() {
    let app = todo_list::App();
    let vm = app.view();
    assert_eq!(vm.remaining, 67);
    assert_eq!(vm.stats, "67 items remaining");
    assert_eq!(vm.draft, "");
    assert!(matches!(vm.filter, Filter::All));
    assert_eq!(vm.rows.len(), 100);
    assert_eq!(vm.rows[0].text, "Todo item 1");
    assert_eq!(vm.rows[0].toggle_label, "Toggle Todo item 1");
    assert_eq!(vm.rows[0].delete_label, "Delete Todo item 1");
    assert!(!vm.rows[0].completed);
    assert!(vm.rows[2].completed);
}

#[test]
fn view_uses_singular_for_one_remaining() {
    let app = App {
        todos: vec![Todo { id: 1, text: String::from("only"), completed: false }],
        input_value: String::from("draft in progress"),
        filter: Filter::Active,
        next_id: 2,
    };
    let vm = app.view();
    assert_eq!(vm.remaining, 1);
    assert_eq!(vm.stats, "1 item remaining");
    assert_eq!(vm.draft, "draft in progress");
    assert_eq!(vm.rows.len(), 1);
    assert_eq!(vm.rows[0].toggle_label, "Toggle only");
}

#[test]
fn view_uses_plural_for_zero_remaining() {
    let app = App {
        todos: vec![Todo { id: 1, text: String::from("done"), completed: true }],
        input_value: String::new(),
        filter: Filter::Active,
        next_id: 2,
    };
    let vm = app.view();
    assert_eq!(vm.remaining, 0);
    assert_eq!(vm.stats, "0 items remaining");
    // the active filter shows nothing: the empty-state placeholder case
    assert!(vm.rows.is_empty());
}

#[test]
fn view_rows_follow_the_filter() {
    let mut app = todo_list::App();
    app.set_filter(Filter::Completed);
    let vm = app.view();
    assert_eq!(vm.rows.len(), 33);
    assert!(vm.rows.iter().all(|r| r.completed));
    let ids: Vec<usize> = vm.rows.iter().map(|r| r.id).collect();
    let expected: Vec<usize> = (1..=100).filter(|i| i % 3 == 0).collect();
    assert_eq!(ids, expected);
}
