use todo_tasks::store::TODOApp;
use todo_tasks::task::Task;

fn task(id: u32, name: &str, completed: bool) -> Task {
    Task { id, name: String::from(name), completed }
}

#[test]
fn new_on_empty_store_gets_id_one() {
    let mut app = TODOApp::empty();
    assert!(app.is_empty());
    let id = app.next_id();
    assert_eq!(id, 1);
    app.new(task(id, "buy milk", false));
    assert!(!app.is_empty());
    assert_eq!(app.tasks.len(), 1);
    assert_eq!(app.tasks[0].id, 1);
    assert_eq!(app.tasks[0].name, "buy milk");
    assert!(!app.tasks[0].completed);
}

#[test]
fn two_tasks_get_ids_one_and_two() {
    let mut app = TODOApp::empty();
    let a = app.next_id();
    app.new(task(a, "first", false));
    let b = app.next_id();
    app.new(task(b, "second", false));
    assert_eq!(app.tasks[0].id, 1);
    assert_eq!(app.tasks[1].id, 2);
}

#[test]
fn id_after_deletion_can_collide() {
    let mut app = TODOApp::empty();
    app.new(task(1, "first", false));
    app.new(task(2, "second", false));
    assert!(app.delete(1));
    // One task remains, so the next id is 2 again: it collides with the
    // surviving task's id, which is the store's id-assignment rule.
    let id = app.next_id();
    assert_eq!(id, 2);
    app.new(task(id, "third", false));
    assert_eq!(app.tasks[0].id, 2);
    assert_eq!(app.tasks[1].id, 2);
}

#[test]
fn delete_removes_first_match_only() {
    let mut app = TODOApp::empty();
    app.new(task(7, "a", false));
    app.new(task(7, "b", false));
    assert!(app.delete(7));
    assert_eq!(app.tasks.len(), 1);
    assert_eq!(app.tasks[0].name, "b");
}

#[test]
fn delete_absent_id_is_a_no_op() {
    let mut app = TODOApp::empty();
    app.new(task(1, "keep me", true));
    app.new(task(2, "me too", false));
    let json_before = todo_tasks::codec::to_json(&app);
    assert!(!app.delete(5));
    assert_eq!(app.tasks.len(), 2);
    assert_eq!(app.tasks[0].name, "keep me");
    assert_eq!(app.tasks[1].name, "me too");
    // The document is byte-for-byte what it was.
    assert_eq!(todo_tasks::codec::to_json(&app), json_before);
}

#[test]
fn complete_sets_only_the_named_task() {
    let mut app = TODOApp::empty();
    app.new(task(1, "first", false));
    app.new(task(2, "second", false));
    assert!(app.complete(1));
    assert!(app.tasks[0].completed);
    assert!(!app.tasks[1].completed);
    assert_eq!(app.tasks[1].name, "second");
}

#[test]
fn uncomplete_clears_the_flag() {
    let mut app = TODOApp::empty();
    app.new(task(3, "done already", true));
    assert!(app.uncomplete(3));
    assert!(!app.tasks[0].completed);
}

#[test]
fn complete_absent_id_is_a_no_op() {
    let mut app = TODOApp::empty();
    app.new(task(1, "only", false));
    assert!(!app.complete(9));
    assert!(!app.tasks[0].completed);
}

#[test]
fn find_by_id_returns_first_match() {
    let mut app = TODOApp::empty();
    app.new(task(4, "a", false));
    app.new(task(4, "b", false));
    assert_eq!(app.find_by_id(4), Some(0));
    assert_eq!(app.find_by_id(5), None);
}

#[test]
fn list_shows_glyphs_and_order() {
    let mut app = TODOApp::empty();
    app.new(task(1, "first", false));
    app.new(task(2, "second", false));
    assert!(app.complete(1));
    let lines = app.list();
    assert_eq!(lines.len(), 2);
    assert_eq!(lines[0], "Task ID: 1, Name: first, Completed: \u{2611}");
    assert_eq!(lines[1], "Task ID: 2, Name: second, Completed: \u{2612}");
}

#[test]
fn list_is_idempotent() {
    let mut app = TODOApp::empty();
    app.new(task(1, "stable", false));
    let first = app.list();
    let second = app.list();
    assert_eq!(first, second);
    let json_before = todo_tasks::codec::to_json(&app);
    let _ = app.list();
    let json_after = todo_tasks::codec::to_json(&app);
    assert_eq!(json_before, json_after);
}
