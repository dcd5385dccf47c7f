use todo_list::model::{ParseError, Todo, TodoApp};

fn app(text: &str) -> TodoApp {
    TodoApp::new(Some(text)).unwrap()
}

fn rows(app: &TodoApp) -> Vec<(u32, String, bool)> {
    app.todos().iter().map(|t| (t.id, t.title.clone(), t.complete)).collect()
}

fn row(id: u32, title: &str, complete: bool) -> (u32, String, bool) {
    (id, title.to_string(), complete)
}

#[test]
fn nothing_stored_gives_empty_list() {
    let app = TodoApp::new(None).unwrap();
    assert!(app.todos().is_empty());
    assert!(TodoApp::load_todos(None).unwrap().is_empty());
}

#[test]
fn empty_text_gives_empty_list() {
    assert!(app("").todos().is_empty());
    assert!(app("\n\n  \n\t\n").todos().is_empty());
    assert!(TodoApp::from_str("").unwrap().is_empty());
}

#[test]
fn add_assigns_sequential_ids() {
    let mut app = TodoApp::new(None).unwrap();
    app.add_todo("a");
    app.add_todo("b");
    assert_eq!(rows(&app), vec![row(1, "a", false), row(2, "b", false)]);
}

#[test]
fn add_numbers_by_length_of_list() {
    let mut app = app("7. [X] seven\n7. [ ] again");
    app.add_todo("third");
    assert_eq!(rows(&app), vec![row(7, "seven", true), row(7, "again", false), row(3, "third", false)]);
}

#[test]
fn add_keeps_title_as_given() {
    let mut app = TodoApp::new(None).unwrap();
    app.add_todo("  padded ");
    assert_eq!(app.todos()[0].title, "  padded ");
    assert_eq!(app.to_string(), "1. [ ] padded");
}

#[test]
fn complete_sets_only_that_task() {
    let mut app = app("1. [ ] a\n2. [ ] b\n3. [ ] c");
    app.complete_todo(2);
    assert_eq!(rows(&app), vec![row(1, "a", false), row(2, "b", true), row(3, "c", false)]);
    app.incomplete_todo(2);
    assert_eq!(rows(&app), vec![row(1, "a", false), row(2, "b", false), row(3, "c", false)]);
}

#[test]
fn complete_touches_first_match_only() {
    let mut app = app("2. [ ] first\n2. [ ] second");
    app.complete_todo(2);
    assert_eq!(rows(&app), vec![row(2, "first", true), row(2, "second", false)]);
    app.set_complete(2, false);
    assert_eq!(rows(&app), vec![row(2, "first", false), row(2, "second", false)]);
}

#[test]
fn edit_replaces_title_of_first_match() {
    let mut app = app("1. [X] a\n2. [ ] b\n2. [ ] c");
    app.edit_todo(2, "new");
    assert_eq!(rows(&app), vec![row(1, "a", true), row(2, "new", false), row(2, "c", false)]);
}

#[test]
fn remove_preserves_order() {
    let mut app = app("1. [ ] a\n2. [X] b\n3. [ ] c");
    app.remove_todo(2);
    assert_eq!(rows(&app), vec![row(1, "a", false), row(3, "c", false)]);
}

#[test]
fn remove_takes_first_match_only() {
    let mut app = app("1. [ ] a\n2. [X] b\n2. [ ] c");
    app.remove_todo(2);
    assert_eq!(rows(&app), vec![row(1, "a", false), row(2, "c", false)]);
}

#[test]
fn unknown_id_changes_nothing() {
    let text = "1. [ ] a\n2. [X] b\n3. [ ] c";
    let mut app = app(text);
    app.edit_todo(9, "zzz");
    app.remove_todo(9);
    app.complete_todo(9);
    app.incomplete_todo(0);
    assert_eq!(app.to_string(), text);
    assert_eq!(app.todos().len(), 3);
}

#[test]
fn id_is_reused_after_removal() {
    let mut app = TodoApp::new(None).unwrap();
    app.add_todo("a");
    app.add_todo("b");
    app.remove_todo(1);
    app.add_todo("c");
    assert_eq!(rows(&app), vec![row(2, "b", false), row(2, "c", false)]);
}

#[test]
fn empty_list_has_no_listing() {
    let app = TodoApp::new(None).unwrap();
    assert_eq!(app.list_todos(), None);
    assert_eq!(app.to_string(), "");
}

#[test]
fn listing_joins_lines() {
    let mut app = TodoApp::new(None).unwrap();
    app.add_todo("buy milk");
    assert_eq!(app.list_todos(), Some("1. [ ] buy milk".to_string()));
    app.add_todo("walk dog");
    app.complete_todo(1);
    assert_eq!(app.list_todos(), Some("1. [X] buy milk\n2. [ ] walk dog".to_string()));
    assert_eq!(app.to_string(), "1. [X] buy milk\n2. [ ] walk dog");
}

#[test]
fn from_str_reads_each_line() {
    let todos = TodoApp::from_str("1. [ ] a\n\n  \n2. [X] b\r\n 3. [ ] c \n").unwrap();
    let rows: Vec<(u32, &str, bool)> =
        todos.iter().map(|t: &Todo| (t.id, t.title.as_str(), t.complete)).collect();
    assert_eq!(rows, vec![(1, "a", false), (2, "b", true), (3, "c", false)]);
}

#[test]
fn one_bad_line_fails_the_load() {
    assert_eq!(TodoApp::from_str("1. [ ] a\nnonsense\n3. [ ] c").unwrap_err(), ParseError::InvalidId);
    assert_eq!(TodoApp::from_str("1. [ ] a\n2. [?] b").unwrap_err(), ParseError::MissingMark);
    assert_eq!(
        TodoApp::from_str("1. [ ] a\n2. [?] b\nnonsense").unwrap_err(),
        ParseError::MissingMark
    );
    assert!(TodoApp::new(Some("x")).is_err());
    assert_eq!(TodoApp::load_todos(Some("1")).unwrap_err(), ParseError::MissingMark);
}

#[test]
fn stored_text_is_read_back() {
    let mut app = TodoApp::new(None).unwrap();
    app.add_todo("buy milk");
    app.add_todo("walk dog");
    app.add_todo("");
    app.complete_todo(2);
    let text = app.to_string();
    assert_eq!(text, "1. [ ] buy milk\n2. [X] walk dog\n3. [ ] ");
    let again = TodoApp::new(Some(&text)).unwrap();
    assert_eq!(rows(&again), rows(&app));
    assert_eq!(again.to_string(), "1. [ ] buy milk\n2. [X] walk dog\n3. [ ] ");
}
