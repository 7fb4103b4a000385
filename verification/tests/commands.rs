use todo_tracker::app::Action;
use todo_tracker::app::App;
use todo_tracker::task::encode_file;

fn app_with(args: &[&str], contents: &str) -> App {
    App {
        args: args.iter().map(|a| String::from(*a)).collect(),
        contents: String::from(contents),
    }
}

const TWO_LINES: &str = "- [ ] buy milk\n- [x] call mom";

#[test]
fn no_arguments_means_list() {
    assert_eq!(app_with(&[], "").command(), Action::List);
}

#[test]
fn recognizes_every_command_word() {
    assert_eq!(app_with(&["list"], "").command(), Action::List);
    assert_eq!(app_with(&["add", "x"], "").command(), Action::Add);
    assert_eq!(app_with(&["done", "0"], "").command(), Action::Done);
    assert_eq!(app_with(&["undo", "0"], "").command(), Action::Undo);
    assert_eq!(app_with(&["delete", "0"], "").command(), Action::Delete);
    assert_eq!(app_with(&["del", "0"], "").command(), Action::Delete);
}

#[test]
fn unknown_words_ask_for_help() {
    assert_eq!(app_with(&["frobnicate"], "").command(), Action::Help);
    assert_eq!(app_with(&["List"], "").command(), Action::Help);
    assert_eq!(app_with(&[""], "").command(), Action::Help);
    assert!(Action::from_str("frobnicate").is_err());
    assert_eq!(
        Action::from_str("frobnicate").unwrap_err(),
        String::from("unsupported action")
    );
}

#[test]
fn help_names_the_commands() {
    assert_eq!(
        app_with(&["wat"], "").help(),
        String::from("Try add, done, delete or undo")
    );
}

#[test]
fn empty_file_lists_nothing() {
    assert_eq!(app_with(&[], "").list(), String::from(""));
}

#[test]
fn lists_tasks_with_their_positions() {
    let output = app_with(&["list"], TWO_LINES).list();
    assert_eq!(output, String::from("0 - [ ] buy milk\n1 - [x] call mom"));
}

#[test]
fn done_marks_the_addressed_task() {
    let app = app_with(&["done", "0"], TWO_LINES);
    let todos = app.done();
    let saved = encode_file(&todos);
    assert_eq!(saved, String::from("- [x] buy milk\n- [x] call mom"));
    let listing = app_with(&["list"], saved.as_str()).list();
    assert_eq!(listing, String::from("0 - [x] buy milk\n1 - [x] call mom"));
}

#[test]
fn undo_reopens_the_addressed_task() {
    let app = app_with(&["undo", "1"], TWO_LINES);
    let todos = app.undo();
    assert_eq!(
        encode_file(&todos),
        String::from("- [ ] buy milk\n- [ ] call mom")
    );
}

#[test]
fn delete_removes_the_addressed_task() {
    let start = app_with(&["done", "0"], TWO_LINES).done();
    let saved = encode_file(&start);
    let app = app_with(&["delete", "1"], saved.as_str());
    let todos = app.delete();
    let listing = app_with(&["list"], encode_file(&todos).as_str()).list();
    assert_eq!(listing, String::from("0 - [x] buy milk"));
}

#[test]
fn delete_shrinks_by_exactly_one() {
    let app = app_with(&["delete", "0"], TWO_LINES);
    let todos = app.delete();
    assert_eq!(todos.len(), 1);
    assert_eq!(todos[0].content, String::from("call mom"));
    assert_eq!(todos[0].completed, true);
}

#[test]
fn add_appends_an_open_task() {
    let app = app_with(&["add", "buy", "eggs"], TWO_LINES);
    let todos = app.add();
    assert_eq!(todos.len(), 3);
    assert_eq!(todos[0].content, String::from("buy milk"));
    assert_eq!(todos[1].content, String::from("call mom"));
    assert_eq!(todos[2].content, String::from("buy eggs"));
    assert_eq!(todos[2].completed, false);
    let listing = app_with(&["list"], encode_file(&todos).as_str()).list();
    assert_eq!(
        listing,
        String::from("0 - [ ] buy milk\n1 - [x] call mom\n2 - [ ] buy eggs")
    );
}

#[test]
fn add_with_no_words_appends_an_empty_task() {
    let app = app_with(&["add"], "");
    let todos = app.add();
    assert_eq!(todos.len(), 1);
    assert_eq!(todos[0].content, String::from(""));
    assert_eq!(todos[0].completed, false);
}

#[test]
fn out_of_range_index_changes_nothing() {
    let done = app_with(&["done", "7"], TWO_LINES).done();
    assert_eq!(encode_file(&done), String::from(TWO_LINES));
    let deleted = app_with(&["delete", "2"], TWO_LINES).delete();
    assert_eq!(encode_file(&deleted), String::from(TWO_LINES));
}

#[test]
fn malformed_index_falls_back_to_zero() {
    let app = app_with(&["done", "seven"], TWO_LINES);
    assert_eq!(app.index(), 0);
    let todos = app.done();
    assert_eq!(encode_file(&todos), String::from("- [x] buy milk\n- [x] call mom"));
    assert_eq!(app_with(&["delete", "+1"], "").index(), 0);
    assert_eq!(app_with(&["delete", "99999999999999999999999999"], "").index(), 0);
    assert_eq!(app_with(&["done"], "").index(), 0);
}

#[test]
fn index_reads_plain_decimals() {
    assert_eq!(app_with(&["done", "0"], "").index(), 0);
    assert_eq!(app_with(&["done", "12"], "").index(), 12);
    assert_eq!(app_with(&["done", "007"], "").index(), 7);
}

#[test]
fn lists_double_digit_positions() {
    let mut lines: Vec<String> = Vec::new();
    for i in 0..11 {
        lines.push(format!("- [ ] task {}", i));
    }
    let contents = lines.join("\n");
    let output = app_with(&["list"], contents.as_str()).list();
    let rendered: Vec<&str> = output.split('\n').collect();
    assert_eq!(rendered.len(), 11);
    assert_eq!(rendered[10], "10 - [ ] task 10");
}
