//! Pure operations on a task list.
//!
//! Every mutating command works on the whole loaded list and addresses
//! a record by its position.  An out-of-range index is a deliberate
//! no-op, never an error.

use vstd::prelude::*;

use crate::task::Todo;
use crate::task::TodoView;

verus! {

/// Setting the flag of one record: an in-range index updates exactly
/// that record's flag and nothing else; any other index leaves the
/// list unchanged.
pub open spec fn spec_set_completion(ts: Seq<TodoView>, i: int, v: bool) -> Seq<TodoView> {
    if 0 <= i < ts.len() {
        ts.update(i, TodoView { completed: v, content: ts[i].content })
    } else {
        ts
    }
}

/// Removing one record: an in-range index drops exactly that record,
/// the rest keep their relative order; any other index leaves the
/// list unchanged.
pub open spec fn spec_delete_at(ts: Seq<TodoView>, i: int) -> Seq<TodoView> {
    if 0 <= i < ts.len() {
        ts.subrange(0, i) + ts.subrange(i + 1, ts.len() as int)
    } else {
        ts
    }
}

/// Appends a new, not yet completed record with the given content;
/// everything already in the list stays where it was.
pub fn add_task(todos: Vec<Todo>, content: String) -> (r: Vec<Todo>)
    ensures
        r.deep_view() == todos.deep_view().push(
            TodoView { completed: false, content: content@ },
        ),
{
    let ghost before = todos.deep_view();
    let mut todos = todos;
    let record = Todo::new(content.as_str(), false);
    todos.push(record);
    proof {
        assert(todos.deep_view() =~~= before.push(
            TodoView { completed: false, content: content@ },
        ));
    }
    todos
}

/// Sets the completion flag of the record at `index`, if there is one.
pub fn set_completion(todos: Vec<Todo>, index: usize, value: bool) -> (r: Vec<Todo>)
    ensures
        r.deep_view() == spec_set_completion(todos.deep_view(), index as int, value),
{
    let ghost before = todos.deep_view();
    let mut todos = todos;
    if index < todos.len() {
        let mut record = todos.remove(index);
        record.completed = value;
        todos.insert(index, record);
        proof {
            assert(todos.deep_view() =~~= spec_set_completion(before, index as int, value));
        }
    }
    todos
}

/// Removes the record at `index`, if there is one.
pub fn delete_at(todos: Vec<Todo>, index: usize) -> (r: Vec<Todo>)
    ensures
        r.deep_view() == spec_delete_at(todos.deep_view(), index as int),
{
    let ghost before = todos.deep_view();
    let mut todos = todos;
    if index < todos.len() {
        todos.remove(index);
        proof {
            assert(todos.deep_view() =~~= spec_delete_at(before, index as int));
        }
    }
    todos
}

} // verus!
