//! The task record and its one-line text encoding.

use vstd::prelude::*;
use vstd::string::StringExecFns;

verus! {

/// The mathematical value of one task record: its text and whether it
/// is done.
pub struct TodoView {
    pub completed: bool,
    pub content: Seq<char>,
}

/// One todo item: free-form single-line text plus a completion flag.
#[derive(Debug)]
pub struct Todo {
    pub completed: bool,
    pub content: String,
}

impl View for Todo {
    type V = TodoView;

    open spec fn view(&self) -> TodoView {
        TodoView { completed: self.completed, content: self.content@ }
    }
}

impl DeepView for Todo {
    type V = TodoView;

    open spec fn deep_view(&self) -> TodoView {
        self@
    }
}

/// The six characters that open the line of a task not yet done.
pub open spec fn incomplete_prefix() -> Seq<char> {
    seq!['-', ' ', '[', ' ', ']', ' ']
}

/// The six characters that open the line of a finished task.
pub open spec fn complete_prefix() -> Seq<char> {
    seq!['-', ' ', '[', 'x', ']', ' ']
}

/// The one-line text form of a record: a checkbox prefix, then the
/// content unchanged.
pub open spec fn spec_encode(t: TodoView) -> Seq<char> {
    (if t.completed {
        complete_prefix()
    } else {
        incomplete_prefix()
    }) + t.content
}

/// Reads one line back: a line opening with a recognized prefix yields
/// the record whose content is the rest of the line; any other line
/// yields nothing.
pub open spec fn spec_decode(line: Seq<char>) -> Option<TodoView> {
    if line.len() >= 6 && line.subrange(0, 6) == incomplete_prefix() {
        Some(TodoView { completed: false, content: line.subrange(6, line.len() as int) })
    } else if line.len() >= 6 && line.subrange(0, 6) == complete_prefix() {
        Some(TodoView { completed: true, content: line.subrange(6, line.len() as int) })
    } else {
        None
    }
}

/// The records of a list of lines: each recognized line's record, in
/// line order; a line no more than one record.
pub open spec fn decoded_tasks(lines: Seq<Seq<char>>) -> Seq<TodoView>
    decreases lines.len(),
{
    if lines.len() == 0 {
        Seq::<TodoView>::empty()
    } else {
        (match spec_decode(lines[0]) {
            Some(t) => seq![t],
            None => Seq::<TodoView>::empty(),
        }) + decoded_tasks(lines.drop_first())
    }
}

/// How many lines of a list are recognized records.
pub open spec fn recognized_count(lines: Seq<Seq<char>>) -> nat
    decreases lines.len(),
{
    if lines.len() == 0 {
        0
    } else {
        (if spec_decode(lines[0]) is Some {
            1nat
        } else {
            0nat
        }) + recognized_count(lines.drop_first())
    }
}

/// The task list a whole file denotes: split at newlines, decode each
/// line on its own, keep the recognized ones in file order.
pub open spec fn spec_file_tasks(s: Seq<char>) -> Seq<TodoView> {
    decoded_tasks(crate::text::spec_lines(s))
}

/// A whole list encoded for the backing file: one line per record,
/// newline separated, no trailing newline.
pub open spec fn spec_encode_file(ts: Seq<TodoView>) -> Seq<char> {
    crate::text::spec_join(ts.map_values(|t: TodoView| spec_encode(t)), seq!['\n'])
}

/// After a push, the deep view of a task vector has grown by exactly
/// the view of the new record.
pub proof fn lemma_todo_push_deep_view(pre: Vec<Todo>, post: Vec<Todo>, t: Todo)
    requires
        post@ == pre@.push(t),
    ensures
        post.deep_view() == pre.deep_view().push(t@),
{
    assert forall|j: int| 0 <= j < post@.len() implies post.deep_view()[j] == pre.deep_view().push(
        t@,
    )[j] by {
        assert(post.deep_view()[j] == post@[j].deep_view());
        if j < pre@.len() {
            assert(post@[j] == pre@[j]);
            assert(pre.deep_view()[j] == pre@[j].deep_view());
        }
    }
    assert(post.deep_view() =~= pre.deep_view().push(t@));
}

/// Encodes a whole list for the backing file, per `spec_encode_file`.
pub fn encode_file(todos: &Vec<Todo>) -> (r: String)
    ensures
        r@ == spec_encode_file(todos.deep_view()),
{
    let ghost all = todos.deep_view().map_values(|t: TodoView| spec_encode(t));
    let mut lines: Vec<String> = Vec::new();
    let mut i: usize = 0;
    while i < todos.len()
        invariant
            i <= todos.len(),
            all == todos.deep_view().map_values(|t: TodoView| spec_encode(t)),
            lines@.len() == i,
            lines.deep_view() == all.subrange(0, i as int),
        decreases todos.len() - i,
    {
        let line = todos[i].to_s();
        proof {
            assert(todos.deep_view()[i as int] == todos@[i as int]@);
            assert(all[i as int] == spec_encode(todos.deep_view()[i as int]));
            assert(line@ == spec_encode(todos.deep_view()[i as int]));
        }
        let ghost prev = lines;
        let ghost pushed = line;
        lines.push(line);
        proof {
            crate::text::lemma_string_push_deep_view(prev, lines, pushed);
            assert(lines.deep_view() =~= all.subrange(0, i + 1));
        }
        i = i + 1;
    }
    proof {
        assert(all.subrange(0, todos.len() as int) =~~= all);
        reveal_strlit("\n");
        assert("\n"@ =~= seq!['\n']);
    }
    crate::text::join_strings(&lines, "\n")
}

impl Todo {
    /// Builds a record from its parts.
    pub fn new(content: &str, completed: bool) -> (r: Self)
        ensures
            r@ == (TodoView { completed, content: content@ }),
    {
        Self { content: content.to_owned(), completed }
    }

    /// The encoded line for this record.
    pub fn to_s(&self) -> (r: String)
        ensures
            r@ == spec_encode(self@),
    {
        let prefix: &str = if self.completed {
            "- [x] "
        } else {
            "- [ ] "
        };
        proof {
            reveal_strlit("- [x] ");
            reveal_strlit("- [ ] ");
            assert("- [x] "@ =~= complete_prefix());
            assert("- [ ] "@ =~= incomplete_prefix());
        }
        let mut line = prefix.to_owned();
        line.append(self.content.as_str());
        line
    }
}

} // verus!
