use todo_tasks::codec::to_json;
use todo_tasks::parse::from_json;
use todo_tasks::store::TODOApp;
use todo_tasks::task::Task;

fn task(id: u32, name: &str, completed: bool) -> Task {
    Task { id, name: String::from(name), completed }
}

#[test]
fn empty_store_serializes_exactly() {
    let app = TODOApp::empty();
    assert_eq!(to_json(&app), "{\"tasks\":[]}");
}

#[test]
fn one_task_serializes_exactly() {
    let mut app = TODOApp::empty();
    app.new(task(1, "buy milk", false));
    assert_eq!(to_json(&app), "{\"tasks\":[{\"id\":1,\"name\":\"buy milk\",\"completed\":false}]}");
}

#[test]
fn quotes_and_backslashes_are_escaped() {
    let mut app = TODOApp::empty();
    app.new(task(1, "say \"hi\" \\ bye", true));
    assert_eq!(
        to_json(&app),
        "{\"tasks\":[{\"id\":1,\"name\":\"say \\\"hi\\\" \\\\ bye\",\"completed\":true}]}"
    );
}

#[test]
fn control_characters_are_escaped() {
    let mut app = TODOApp::empty();
    app.new(task(1, "a\nb\tc", false));
    assert_eq!(
        to_json(&app),
        "{\"tasks\":[{\"id\":1,\"name\":\"a\\u000ab\\u0009c\",\"completed\":false}]}"
    );
}

#[test]
fn round_trip_preserves_every_field_and_the_order() {
    let mut app = TODOApp::empty();
    app.new(task(1, "plain", false));
    app.new(task(2, "with \"quotes\" and \\slashes\\", true));
    app.new(task(3, "tabs\tnewlines\nand unicode \u{00e9}\u{1f600}", false));
    app.new(task(4294967295, "", true));
    let text = to_json(&app);
    let mut loaded = TODOApp::empty();
    loaded.load_from_str(&text);
    assert_eq!(loaded.tasks, app.tasks);
}

#[test]
fn round_trip_of_empty_store() {
    let app = TODOApp::empty();
    let text = to_json(&app);
    let mut loaded = TODOApp::empty();
    loaded.tasks.push(task(9, "stale", true));
    loaded.load_from_str(&text);
    assert!(loaded.tasks.is_empty());
}

#[test]
fn malformed_json_loads_as_empty_store() {
    let mut app = TODOApp::empty();
    app.new(task(1, "stale", false));
    app.load_from_str("{\"tasks\": oops");
    assert!(app.tasks.is_empty());
}

#[test]
fn unrelated_text_loads_as_empty_store() {
    let mut app = TODOApp::empty();
    app.load_from_str("hello world");
    assert!(app.tasks.is_empty());
    app.load_from_str("");
    assert!(app.tasks.is_empty());
}

#[test]
fn whitespace_between_tokens_is_accepted() {
    let text = "{\n  \"tasks\": [\n    {\n      \"id\": 1,\n      \"name\": \"buy milk\",\n      \"completed\": false\n    },\n    {\n      \"id\": 2,\n      \"name\": \"call home\",\n      \"completed\": true\n    }\n  ]\n}\n";
    let app = from_json(text).expect("well-formed document");
    assert_eq!(app.tasks.len(), 2);
    assert_eq!(app.tasks[0].id, 1);
    assert_eq!(app.tasks[0].name, "buy milk");
    assert!(!app.tasks[0].completed);
    assert_eq!(app.tasks[1].id, 2);
    assert_eq!(app.tasks[1].name, "call home");
    assert!(app.tasks[1].completed);
}

#[test]
fn string_escapes_are_decoded() {
    let text = "{\"tasks\":[{\"id\":1,\"name\":\"\\u0041\\n\\t\\\"\\\\\\/\",\"completed\":false}]}";
    let app = from_json(text).expect("well-formed document");
    assert_eq!(app.tasks[0].name, "A\n\t\"\\/");
}

#[test]
fn surrogate_escape_is_rejected() {
    let text = "{\"tasks\":[{\"id\":1,\"name\":\"\\uD800\",\"completed\":false}]}";
    assert!(from_json(text).is_none());
}

#[test]
fn leading_zero_id_is_rejected() {
    let text = "{\"tasks\":[{\"id\":01,\"name\":\"x\",\"completed\":false}]}";
    assert!(from_json(text).is_none());
}

#[test]
fn id_past_u32_range_is_rejected() {
    let text = "{\"tasks\":[{\"id\":4294967296,\"name\":\"x\",\"completed\":false}]}";
    assert!(from_json(text).is_none());
    let ok = "{\"tasks\":[{\"id\":4294967295,\"name\":\"x\",\"completed\":false}]}";
    assert_eq!(from_json(ok).expect("in range").tasks[0].id, 4294967295);
}

#[test]
fn trailing_text_is_rejected() {
    let text = "{\"tasks\":[]} extra";
    assert!(from_json(text).is_none());
    let ok = "{\"tasks\":[]}   \n";
    assert!(from_json(ok).is_some());
}

#[test]
fn missing_or_misnamed_keys_are_rejected() {
    assert!(from_json("{\"task\":[]}").is_none());
    assert!(from_json("{\"tasks\":[{\"id\":1,\"completed\":false}]}").is_none());
    assert!(from_json("{\"tasks\":[{\"id\":1,\"name\":\"x\"}]}").is_none());
    assert!(from_json("{\"tasks\":[{\"id\":1,\"name\":\"x\",\"completed\":false}]").is_none());
}

#[test]
fn raw_control_character_in_string_is_rejected() {
    let text = "{\"tasks\":[{\"id\":1,\"name\":\"a\nb\",\"completed\":false}]}";
    assert!(from_json(text).is_none());
}
