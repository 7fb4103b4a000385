//! The command interpreter.
//!
//! One invocation of the tool carries its command-line arguments and
//! the text read from the backing file.  Everything here is pure: the
//! interpreter decodes the text into a task list, applies at most one
//! operation, and renders output; reading and writing the file is the
//! front end's business.

use vstd::prelude::*;
use vstd::string::StrSliceExecFns;
use vstd::string::StringExecFns;

use crate::ops;
use crate::task::Todo;
use crate::task::TodoView;
use crate::task::complete_prefix;
use crate::task::decoded_tasks;
use crate::task::incomplete_prefix;
use crate::task::spec_decode;
use crate::task::spec_encode;
use crate::task::spec_file_tasks;
use crate::text;

verus! {

/// The recognized commands.
#[derive(Clone, Copy, Debug, PartialEq, Eq, Structural)]
pub enum Action {
    Add,
    Done,
    List,
    Delete,
    Undo,
    Help,
}

/// The command a first argument selects, matched letter for letter;
/// an unknown word selects nothing.
pub open spec fn spec_action(s: Seq<char>) -> Option<Action> {
    if s == seq!['l', 'i', 's', 't'] {
        Some(Action::List)
    } else if s == seq!['d', 'o', 'n', 'e'] {
        Some(Action::Done)
    } else if s == seq!['a', 'd', 'd'] {
        Some(Action::Add)
    } else if s == seq!['d', 'e', 'l', 'e', 't', 'e'] {
        Some(Action::Delete)
    } else if s == seq!['d', 'e', 'l'] {
        Some(Action::Delete)
    } else if s == seq!['u', 'n', 'd', 'o'] {
        Some(Action::Undo)
    } else {
        None
    }
}

impl Action {
    /// Reads a command word, per `spec_action`; an unknown word is
    /// refused with a fixed message.
    pub fn from_str(s: &str) -> (r: Result<Action, String>)
        ensures
            (match r {
                Ok(a) => spec_action(s@) == Some(a),
                Err(e) => spec_action(s@) is None && e@ == "unsupported action"@,
            }),
    {
        proof {
            reveal_strlit("list");
            reveal_strlit("done");
            reveal_strlit("add");
            reveal_strlit("delete");
            reveal_strlit("del");
            reveal_strlit("undo");
            assert("list"@ =~= seq!['l', 'i', 's', 't']);
            assert("done"@ =~= seq!['d', 'o', 'n', 'e']);
            assert("add"@ =~= seq!['a', 'd', 'd']);
            assert("delete"@ =~= seq!['d', 'e', 'l', 'e', 't', 'e']);
            assert("del"@ =~= seq!['d', 'e', 'l']);
            assert("undo"@ =~= seq!['u', 'n', 'd', 'o']);
        }
        if text::str_eq(s, "list") {
            Ok(Action::List)
        } else if text::str_eq(s, "done") {
            Ok(Action::Done)
        } else if text::str_eq(s, "add") {
            Ok(Action::Add)
        } else if text::str_eq(s, "delete") {
            Ok(Action::Delete)
        } else if text::str_eq(s, "del") {
            Ok(Action::Delete)
        } else if text::str_eq(s, "undo") {
            Ok(Action::Undo)
        } else {
            Err("unsupported action".to_owned())
        }
    }
}

/// The arguments past the command word; none when there is no command
/// word at all.
pub open spec fn spec_rest_args(args: Seq<Seq<char>>) -> Seq<Seq<char>> {
    if args.len() == 0 {
        Seq::<Seq<char>>::empty()
    } else {
        args.drop_first()
    }
}

/// The command an argument list selects: none at all lists, an
/// unknown word asks for help.
pub open spec fn spec_command(args: Seq<Seq<char>>) -> Action {
    if args.len() == 0 {
        Action::List
    } else {
        match spec_action(args[0]) {
            Some(a) => a,
            None => Action::Help,
        }
    }
}

/// The output of the `list` command: every task on its own line,
/// prefixed by its position.
pub open spec fn spec_render(ts: Seq<TodoView>) -> Seq<char> {
    text::spec_join(
        Seq::new(ts.len(), |i: int| text::spec_decimal(i as nat) + seq![' '] + spec_encode(ts[i])),
        seq!['\n'],
    )
}

/// One invocation: the command-line arguments and the text of the
/// backing file.
pub struct App {
    pub args: Vec<String>,
    pub contents: String,
}

impl App {
    /// The task list the file contents denote.
    pub open spec fn spec_tasks(&self) -> Seq<TodoView> {
        spec_file_tasks(self.contents@)
    }

    /// The position a mutating command addresses: the second argument
    /// read as a number, zero when it is absent or malformed.
    pub open spec fn spec_index(&self) -> nat {
        if self.args@.len() < 2 {
            0
        } else {
            text::spec_index_value(self.args@[1]@)
        }
    }

    /// The content `add` appends: the arguments after the command
    /// word, joined with single spaces.
    pub open spec fn spec_added_content(&self) -> Seq<char> {
        text::spec_join(spec_rest_args(self.args.deep_view()), seq![' '])
    }

    /// Decodes one line, per `spec_decode`: a recognized checkbox
    /// prefix yields a record, anything else is skipped.
    pub fn todo(line: String) -> (r: Option<Todo>)
        ensures
            (match r {
                Some(t) => spec_decode(line@) == Some(t@),
                None => spec_decode(line@) is None,
            }),
    {
        let s = line.as_str();
        let n = s.unicode_len();
        if n < 6 {
            return None;
        }
        let c0 = s.get_char(0);
        let c1 = s.get_char(1);
        let c2 = s.get_char(2);
        let c3 = s.get_char(3);
        let c4 = s.get_char(4);
        let c5 = s.get_char(5);
        proof {
            assert forall|k: int| 0 <= k < 6 implies line@.subrange(0, 6)[k] == line@[k] by {}
        }
        if c0 == '-' && c1 == ' ' && c2 == '[' && c3 == ' ' && c4 == ']' && c5 == ' ' {
            proof {
                assert(line@.subrange(0, 6) =~= incomplete_prefix());
            }
            let content = s.substring_char(6, n);
            Some(Todo::new(content, false))
        } else if c0 == '-' && c1 == ' ' && c2 == '[' && c3 == 'x' && c4 == ']' && c5 == ' ' {
            proof {
                assert(line@.subrange(0, 6) =~= complete_prefix());
                assert(line@.subrange(0, 6)[3] == 'x');
                assert(incomplete_prefix()[3] == ' ');
                assert(line@.subrange(0, 6) != incomplete_prefix());
            }
            let content = s.substring_char(6, n);
            Some(Todo::new(content, true))
        } else {
            proof {
                if line@.subrange(0, 6) == incomplete_prefix() {
                    assert(c0 == '-' && c1 == ' ' && c2 == '[' && c3 == ' ' && c4 == ']' && c5
                        == ' ');
                }
                if line@.subrange(0, 6) == complete_prefix() {
                    assert(c0 == '-' && c1 == ' ' && c2 == '[' && c3 == 'x' && c4 == ']' && c5
                        == ' ');
                }
            }
            None
        }
    }

    /// Decodes the whole file: split at newlines, decode each line on
    /// its own, keep the recognized records in file order.
    pub fn todos(&self) -> (r: Vec<Todo>)
        ensures
            r.deep_view() == self.spec_tasks(),
    {
        let s = self.contents.as_str();
        let n = s.unicode_len();
        let mut todos: Vec<Todo> = Vec::new();
        let mut cur = String::new();
        let mut i: usize = 0;
        proof {
            assert(Seq::<char>::empty() + s@.subrange(0, n as int) =~= s@);
            assert(Seq::<TodoView>::empty() + decoded_tasks(text::spec_lines(s@)) =~= decoded_tasks(
                text::spec_lines(s@),
            ));
        }
        while i < n
            invariant
                n == s@.len(),
                s@ == self.contents@,
                i <= n,
                !cur@.contains('\n'),
                todos.deep_view() + decoded_tasks(
                    text::spec_lines(cur@ + s@.subrange(i as int, n as int)),
                ) == spec_file_tasks(s@),
            decreases n - i,
        {
            let c = s.get_char(i);
            if c == '\n' {
                let ghost cv = cur@;
                let ghost rest = s@.subrange(i + 1, n as int);
                proof {
                    text::lemma_lines_break(cv, rest);
                    assert(cv + s@.subrange(i as int, n as int) =~= cv + seq!['\n'] + rest);
                    let l = text::spec_lines(cv + seq!['\n'] + rest);
                    assert(l == seq![cv] + text::spec_lines(rest));
                    assert((seq![cv] + text::spec_lines(rest)).drop_first() =~~= text::spec_lines(
                        rest,
                    ));
                    assert((seq![cv] + text::spec_lines(rest))[0] == cv);
                }
                if let Some(t) = Self::todo(cur) {
                    let ghost pre = todos;
                    let ghost tv = t;
                    todos.push(t);
                    proof {
                        crate::task::lemma_todo_push_deep_view(pre, todos, tv);
                        assert(todos.deep_view() + decoded_tasks(text::spec_lines(rest))
                            =~= spec_file_tasks(s@));
                    }
                } else {
                    proof {
                        assert(todos.deep_view() + decoded_tasks(text::spec_lines(rest))
                            =~= spec_file_tasks(s@));
                    }
                }
                cur = String::new();
                proof {
                    assert(cur@ + rest =~= rest);
                }
            } else {
                let ghost cv = cur@;
                cur.append(s.substring_char(i, i + 1));
                proof {
                    assert(s@.subrange(i as int, i + 1) =~= seq![s@[i as int]]);
                    assert(cur@ =~= cv + seq![s@[i as int]]);
                    assert(!cur@.contains('\n')) by {
                        if cur@.contains('\n') {
                            let j = choose|j: int| 0 <= j < cur@.len() && cur@[j] == '\n';
                            if j < cv.len() {
                                assert(cv[j] == '\n');
                            } else {
                                assert(cur@[j] == s@[i as int]);
                            }
                        }
                    };
                    assert(cur@ + s@.subrange(i + 1, n as int) =~= cv + s@.subrange(
                        i as int,
                        n as int,
                    ));
                }
            }
            i = i + 1;
        }
        proof {
            text::lemma_lines_single(cur@);
            assert(cur@ + s@.subrange(n as int, n as int) =~= cur@);
            assert(text::spec_lines(cur@ + s@.subrange(n as int, n as int)) == seq![cur@]);
            assert((seq![cur@]).drop_first() =~~= Seq::<Seq<char>>::empty());
            assert(decoded_tasks(Seq::<Seq<char>>::empty()) == Seq::<TodoView>::empty());
        }
        let ghost cv = cur@;
        if let Some(t) = Self::todo(cur) {
            let ghost pre = todos;
            let ghost tv = t;
            todos.push(t);
            proof {
                crate::task::lemma_todo_push_deep_view(pre, todos, tv);
                assert(todos.deep_view() =~= spec_file_tasks(s@));
            }
        } else {
            proof {
                assert(todos.deep_view() =~= spec_file_tasks(s@));
            }
        }
        todos
    }

    /// Renders the numbered listing of the current task list, per
    /// `spec_render`.
    pub fn list(self) -> (r: String)
        ensures
            r@ == spec_render(spec_file_tasks(self.contents@)),
    {
        let todos = self.todos();
        let ghost ts = todos.deep_view();
        let ghost all = Seq::new(
            ts.len(),
            |i: int| text::spec_decimal(i as nat) + seq![' '] + spec_encode(ts[i]),
        );
        let mut output: Vec<String> = Vec::new();
        let mut x: usize = 0;
        proof {
            assert(todos@.len() == ts.len());
            assert(output.deep_view() =~~= all.subrange(0, 0));
        }
        while x < todos.len()
            invariant
                ts == todos.deep_view(),
                todos@.len() == ts.len(),
                all == Seq::new(
                    ts.len(),
                    |i: int| text::spec_decimal(i as nat) + seq![' '] + spec_encode(ts[i]),
                ),
                x <= todos.len(),
                output@.len() == x,
                output.deep_view() == all.subrange(0, x as int),
            decreases todos.len() - x,
        {
            let mut line = text::decimal_string(x);
            proof {
                reveal_strlit(" ");
                assert(" "@ =~= seq![' ']);
            }
            line.append(" ");
            let encoded = todos[x].to_s();
            line.append(encoded.as_str());
            proof {
                assert(ts[x as int] == todos@[x as int]@);
                assert(line@ == all[x as int]);
            }
            let ghost pre = output;
            let ghost pushed = line;
            output.push(line);
            proof {
                text::lemma_string_push_deep_view(pre, output, pushed);
                assert(output.deep_view() =~= all.subrange(0, x + 1));
            }
            x = x + 1;
        }
        proof {
            assert(all.subrange(0, todos@.len() as int) =~= all);
            reveal_strlit("\n");
            assert("\n"@ =~= seq!['\n']);
        }
        text::join_strings(&output, "\n")
    }

    /// The list with one new record appended: content from the
    /// arguments, not yet completed.
    pub fn add(&self) -> (r: Vec<Todo>)
        ensures
            r.deep_view() == self.spec_tasks().push(
                TodoView { completed: false, content: self.spec_added_content() },
            ),
    {
        let ghost rest_spec = spec_rest_args(self.args.deep_view());
        let mut rest: Vec<String> = Vec::new();
        let mut i: usize = 1;
        proof {
            assert(rest.deep_view() =~~= rest_spec.subrange(0, 0));
        }
        while i < self.args.len()
            invariant
                rest_spec == spec_rest_args(self.args.deep_view()),
                1 <= i,
                i - 1 <= rest_spec.len(),
                self.args@.len() >= 1 ==> i <= self.args@.len(),
                rest_spec.len() == (if self.args@.len() == 0 {
                    0int
                } else {
                    self.args@.len() - 1
                }),
                rest@.len() == i - 1,
                rest.deep_view() == rest_spec.subrange(0, i - 1),
            decreases self.args.len() - i,
        {
            let part = self.args[i].clone();
            let ghost pre = rest;
            let ghost pushed = part;
            rest.push(part);
            proof {
                text::lemma_string_push_deep_view(pre, rest, pushed);
                assert(rest_spec[i - 1] == self.args.deep_view()[i as int]);
                assert(self.args.deep_view()[i as int] == self.args@[i as int]@);
                assert(pushed@ == self.args@[i as int]@);
                assert(rest.deep_view() =~= rest_spec.subrange(0, i as int));
            }
            i = i + 1;
        }
        proof {
            assert(rest_spec.subrange(0, rest_spec.len() as int) =~= rest_spec);
            reveal_strlit(" ");
            assert(" "@ =~= seq![' ']);
        }
        let content = text::join_strings(&rest, " ");
        let todos = self.todos();
        ops::add_task(todos, content)
    }

    /// The command the arguments select, per `spec_command`.
    pub fn command(&self) -> (r: Action)
        ensures
            r == spec_command(self.args.deep_view()),
    {
        if self.args.len() > 0 {
            proof {
                assert(self.args.deep_view()[0] == self.args@[0]@);
            }
            match Action::from_str(self.args[0].as_str()) {
                Ok(action) => action,
                Err(_) => Action::Help,
            }
        } else {
            Action::List
        }
    }

    /// The fixed usage string an unknown command earns.
    pub fn help(&self) -> (r: String)
        ensures
            r@ == "Try add, done, delete or undo"@,
    {
        "Try add, done, delete or undo".to_owned()
    }

    /// The position argument, per `spec_index`.
    pub fn index(&self) -> (r: usize)
        ensures
            r as nat == self.spec_index(),
    {
        if self.args.len() >= 2 {
            proof {
                assert(self.args.deep_view()[1] == self.args@[1]@);
            }
            text::parse_index(self.args[1].as_str())
        } else {
            0
        }
    }

    /// The list with the addressed record's flag set to `completed`;
    /// an out-of-range position changes nothing.
    pub fn update(&self, completed: bool) -> (r: Vec<Todo>)
        ensures
            r.deep_view() == ops::spec_set_completion(
                self.spec_tasks(),
                self.spec_index() as int,
                completed,
            ),
    {
        let todos = self.todos();
        let index = self.index();
        ops::set_completion(todos, index, completed)
    }

    /// The list after `done`: the addressed record marked completed.
    pub fn done(&self) -> (r: Vec<Todo>)
        ensures
            r.deep_view() == ops::spec_set_completion(
                self.spec_tasks(),
                self.spec_index() as int,
                true,
            ),
    {
        self.update(true)
    }

    /// The list after `undo`: the addressed record marked open again.
    pub fn undo(&self) -> (r: Vec<Todo>)
        ensures
            r.deep_view() == ops::spec_set_completion(
                self.spec_tasks(),
                self.spec_index() as int,
                false,
            ),
    {
        self.update(false)
    }

    /// The list with the addressed record removed; an out-of-range
    /// position changes nothing.
    pub fn delete(&self) -> (r: Vec<Todo>)
        ensures
            r.deep_view() == ops::spec_delete_at(self.spec_tasks(), self.spec_index() as int),
    {
        let todos = self.todos();
        let index = self.index();
        ops::delete_at(todos, index)
    }
}

} // verus!
