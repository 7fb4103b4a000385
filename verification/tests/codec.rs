use todo_tracker::app::App;
use todo_tracker::task::Todo;
use todo_tracker::task::encode_file;

#[test]
fn it_works() {
    if let Some(todo) = App::todo(String::from("- [] hello")) {
        assert_eq!(todo.content, String::from("hello"));
        assert_eq!(todo.completed, false);
    }
}

#[test]
fn it_works_when_completed() {
    if let Some(todo) = App::todo(String::from("- [x] hello")) {
        assert_eq!(todo.content, String::from("hello"));
        assert_eq!(todo.completed, true);
    }
}

#[test]
fn decodes_an_open_task() {
    let todo = App::todo(String::from("- [ ] hello")).unwrap();
    assert_eq!(todo.content, String::from("hello"));
    assert_eq!(todo.completed, false);
}

#[test]
fn round_trips_an_open_record() {
    let original = Todo::new("buy milk", false);
    let line = original.to_s();
    assert_eq!(line, String::from("- [ ] buy milk"));
    let back = App::todo(line).unwrap();
    assert_eq!(back.content, String::from("buy milk"));
    assert_eq!(back.completed, false);
}

#[test]
fn round_trips_a_completed_record() {
    let original = Todo::new("call mom", true);
    let line = original.to_s();
    assert_eq!(line, String::from("- [x] call mom"));
    let back = App::todo(line).unwrap();
    assert_eq!(back.content, String::from("call mom"));
    assert_eq!(back.completed, true);
}

#[test]
fn round_trips_awkward_content() {
    let original = Todo::new("x] ] - [ ] nested", false);
    let back = App::todo(original.to_s()).unwrap();
    assert_eq!(back.content, String::from("x] ] - [ ] nested"));
    assert_eq!(back.completed, false);
}

#[test]
fn rejects_malformed_lines() {
    assert!(App::todo(String::from("")).is_none());
    assert!(App::todo(String::from("- [")).is_none());
    assert!(App::todo(String::from("- [y] task")).is_none());
    assert!(App::todo(String::from("- []task")).is_none());
    assert!(App::todo(String::from("random text")).is_none());
    assert!(App::todo(String::from("- [ ]")).is_none());
}

#[test]
fn decoding_skips_unrecognized_lines() {
    let app = App {
        args: vec![],
        contents: String::from("junk\n- [ ] one\n\n- [x] two\nnot a task\n- [ ] three"),
    };
    let todos = app.todos();
    assert_eq!(todos.len(), 3);
    assert_eq!(todos[0].content, String::from("one"));
    assert_eq!(todos[0].completed, false);
    assert_eq!(todos[1].content, String::from("two"));
    assert_eq!(todos[1].completed, true);
    assert_eq!(todos[2].content, String::from("three"));
    assert_eq!(todos[2].completed, false);
}

#[test]
fn encodes_a_list_without_trailing_newline() {
    let todos = vec![Todo::new("one", false), Todo::new("two", true)];
    assert_eq!(encode_file(&todos), String::from("- [ ] one\n- [x] two"));
}

#[test]
fn encodes_an_empty_list_as_empty_text() {
    let todos: Vec<Todo> = vec![];
    assert_eq!(encode_file(&todos), String::from(""));
}
