//! Tasks, their one-line text form, and the list of tasks.

use crate::number::{decimal, parse_u32, push_decimal, read_u32};
use crate::text::{chars_of, find, find_in, is_blank, lemma_find, trim, trim_str};
use vstd::prelude::*;
use vstd::slice::slice_subrange;
use vstd::string::*;

verus! {

/// One task of the list.
#[derive(Debug)]
pub struct Todo {
    pub id: u32,
    pub title: String,
    pub complete: bool,
}

/// What a task is: its number, its title and whether it is done.
pub struct TodoView {
    pub id: nat,
    pub title: Seq<char>,
    pub complete: bool,
}

impl View for Todo {
    type V = TodoView;

    open spec fn view(&self) -> TodoView {
        TodoView { id: self.id as nat, title: self.title@, complete: self.complete }
    }
}

/// Why a text is not accepted as a task or as the argument of a command.
#[derive(Debug, Clone, Copy, PartialEq, Eq, Structural)]
pub enum ParseError {
    /// Where a task's number is expected stands no unsigned decimal number
    /// that fits in 32 bits.
    InvalidId,
    /// The line holds neither `[X]` nor `[ ]`.
    MissingMark,
    /// A command that needs a title came without one.
    MissingTitle,
}

/// The mark of a task in its line: `[X]` when it is done, `[ ]` when not.
pub open spec fn mark(complete: bool) -> Seq<char> {
    if complete {
        "[X]"@
    } else {
        "[ ]"@
    }
}

/// The line that stands for a task: its number, `. `, its mark, a space, and
/// its title without the white space around it.
pub open spec fn format_line(t: TodoView) -> Seq<char> {
    decimal(t.id) + ". "@ + mark(t.complete) + " "@ + trim(t.title)
}

/// The part of a line that holds the task's number: what stands before the
/// first `. [`, or all of it where there is none.
pub open spec fn id_segment(s: Seq<char>) -> Seq<char> {
    match find(s, ". ["@) {
        Some(i) => s.take(i),
        None => s,
    }
}

/// The title of a line whose mark stands at index `i`: all that follows the
/// three characters of the mark, without the white space around it.
pub open spec fn title_after(s: Seq<char>, i: int) -> Seq<char> {
    trim(s.skip(i + 3))
}

/// The task that a line stands for. The white space around the line does not
/// count. The number is read from the line's `id_segment`; the task is done
/// where the line holds `[X]`, and its title follows the first `[X]`; else the
/// title follows the first `[ ]`.
pub open spec fn parse_line(line: Seq<char>) -> Result<TodoView, ParseError> {
    let s = trim(line);
    match parse_u32(id_segment(s)) {
        None => Err(ParseError::InvalidId),
        Some(id) => match find(s, "[X]"@) {
            Some(i) => Ok(TodoView { id, title: title_after(s, i), complete: true }),
            None => match find(s, "[ ]"@) {
                Some(i) => Ok(TodoView { id, title: title_after(s, i), complete: false }),
                None => Err(ParseError::MissingMark),
            },
        },
    }
}

/// The outcome of reading a task, with the task as its view.
pub open spec fn parsed_view(r: Result<Todo, ParseError>) -> Result<TodoView, ParseError> {
    match r {
        Ok(t) => Ok(t@),
        Err(e) => Err(e),
    }
}

/// The tasks of a list, each as its view.
pub open spec fn views(todos: Seq<Todo>) -> Seq<TodoView> {
    todos.map_values(|t: Todo| t@)
}

/// Whether `i` is the index of the first task of `todos` with the number `id`.
pub open spec fn is_first_with_id(todos: Seq<TodoView>, id: nat, i: int) -> bool {
    &&& 0 <= i < todos.len()
    &&& todos[i].id == id
    &&& forall|j: int| 0 <= j < i ==> todos[j].id != id
}

/// Whether some task of `todos` has the number `id`.
pub open spec fn has_id(todos: Seq<TodoView>, id: nat) -> bool {
    exists|i: int| 0 <= i < todos.len() && todos[i].id == id
}

/// The index of the first task of `todos` with the number `id`, if there is
/// one.
pub open spec fn first_with_id(todos: Seq<TodoView>, id: nat) -> Option<int> {
    if has_id(todos, id) {
        Some(choose|i: int| is_first_with_id(todos, id, i))
    } else {
        None
    }
}

/// `todos` with a new task at its end: not done, with the given title, and
/// numbered one more than there were tasks.
pub open spec fn added(todos: Seq<TodoView>, title: Seq<char>) -> Seq<TodoView> {
    todos.push(TodoView { id: todos.len() + 1, title, complete: false })
}

/// `todos` with the first task numbered `id` marked as done or not done; the
/// same list where no task has that number.
pub open spec fn with_complete(todos: Seq<TodoView>, id: nat, complete: bool) -> Seq<TodoView> {
    match first_with_id(todos, id) {
        Some(i) => todos.update(i, TodoView { complete, ..todos[i] }),
        None => todos,
    }
}

/// `todos` with the title of the first task numbered `id` replaced; the same
/// list where no task has that number.
pub open spec fn with_title(todos: Seq<TodoView>, id: nat, title: Seq<char>) -> Seq<TodoView> {
    match first_with_id(todos, id) {
        Some(i) => todos.update(i, TodoView { title, ..todos[i] }),
        None => todos,
    }
}

/// `todos` without the first task numbered `id`, the others in their order;
/// the same list where no task has that number.
pub open spec fn without(todos: Seq<TodoView>, id: nat) -> Seq<TodoView> {
    match first_with_id(todos, id) {
        Some(i) => todos.remove(i),
        None => todos,
    }
}

/// The lines joined by line feeds, with none after the last.
pub open spec fn join_lines(lines: Seq<Seq<char>>) -> Seq<char>
    decreases lines.len(),
{
    if lines.len() == 0 {
        Seq::empty()
    } else if lines.len() == 1 {
        lines.last()
    } else {
        join_lines(lines.drop_last()) + "\n"@ + lines.last()
    }
}

/// The text that stands for a list: the line of each task, in order, joined
/// by line feeds.
pub open spec fn format_all(todos: Seq<TodoView>) -> Seq<char> {
    join_lines(todos.map_values(|t: TodoView| format_line(t)))
}

/// The lines of a text: what stands between its line feeds, the empty line
/// after a last line feed too.
pub open spec fn split_lines(text: Seq<char>) -> Seq<Seq<char>>
    decreases text.len(),
    via split_lines_decreases
{
    match find(text, "\n"@) {
        Some(i) => seq![text.take(i)] + split_lines(text.skip(i + 1)),
        None => seq![text],
    }
}

#[via_fn]
proof fn split_lines_decreases(text: Seq<char>) {
    lemma_find(text, "\n"@);
    reveal_strlit("\n");
}

/// The tasks that the lines stand for, in order, blank lines left out; the
/// error of the first line that stands for no task, where there is one.
pub open spec fn parse_all(lines: Seq<Seq<char>>) -> Result<Seq<TodoView>, ParseError>
    decreases lines.len(),
{
    if lines.len() == 0 {
        Ok(Seq::empty())
    } else if is_blank(lines.first()) {
        parse_all(lines.drop_first())
    } else {
        match parse_line(lines.first()) {
            Ok(t) => match parse_all(lines.drop_first()) {
                Ok(rest) => Ok(seq![t] + rest),
                Err(e) => Err(e),
            },
            Err(e) => Err(e),
        }
    }
}

/// The list that a stored text stands for.
pub open spec fn parse_text(text: Seq<char>) -> Result<Seq<TodoView>, ParseError> {
    parse_all(split_lines(text))
}

/// The list to start from: the one that the stored text stands for, or the
/// empty list where nothing is stored.
pub open spec fn load(stored: Option<Seq<char>>) -> Result<Seq<TodoView>, ParseError> {
    match stored {
        Some(text) => parse_text(text),
        None => Ok(Seq::empty()),
    }
}

/// A stored text as its characters.
pub open spec fn stored_view(stored: Option<&str>) -> Option<Seq<char>> {
    match stored {
        Some(text) => Some(text@),
        None => None,
    }
}

/// The outcome of reading a list, with each task as its view.
pub open spec fn parsed_views(r: Result<Vec<Todo>, ParseError>) -> Result<
    Seq<TodoView>,
    ParseError,
> {
    match r {
        Ok(todos) => Ok(views(todos@)),
        Err(e) => Err(e),
    }
}

impl Todo {
    /// Reads a task from its line. Fails with `InvalidId` where the line's
    /// `id_segment` is no number, and else with `MissingMark` where the line
    /// holds neither `[X]` nor `[ ]`.
    pub fn from_str(s: &str) -> (r: Result<Todo, ParseError>)
        ensures
            parsed_view(r) == parse_line(s@),
    {
        let s = trim_str(s);
        let chars = chars_of(s);
        let n: usize = chars.len();
        let id_end: usize = match find_in(chars.as_slice(), chars_of(". [").as_slice()) {
            Some(i) => i,
            None => n,
        };
        proof {
            lemma_find(s@, ". ["@);
            assert(chars@.subrange(0, id_end as int) =~= id_segment(s@));
        }
        let id: u32 = match read_u32(slice_subrange(chars.as_slice(), 0, id_end)) {
            Some(id) => id,
            None => {
                return Err(ParseError::InvalidId);
            },
        };
        proof {
            reveal_strlit("[X]");
            reveal_strlit("[ ]");
            lemma_find(s@, "[X]"@);
            lemma_find(s@, "[ ]"@);
        }
        let (complete, at): (bool, usize) = match find_in(
            chars.as_slice(),
            chars_of("[X]").as_slice(),
        ) {
            Some(i) => (true, i),
            None => match find_in(chars.as_slice(), chars_of("[ ]").as_slice()) {
                Some(i) => (false, i),
                None => {
                    return Err(ParseError::MissingMark);
                },
            },
        };
        let rest = s.substring_char(at + 3, n);
        let title = String::from_str(trim_str(rest));
        Ok(Todo { id, title, complete })
    }

    /// The line that stands for the task.
    pub fn to_string(&self) -> (line: String)
        ensures
            line@ == format_line(self@),
    {
        let mut line = String::new();
        push_decimal(&mut line, self.id);
        line.append(". ");
        line.append(
            if self.complete {
                "[X]"
            } else {
                "[ ]"
            },
        );
        line.append(" ");
        line.append(trim_str(self.title.as_str()));
        line
    }
}

/// The list of tasks, in the order in which they were added.
pub struct TodoApp {
    todos: Vec<Todo>,
}

impl View for TodoApp {
    type V = Seq<TodoView>;

    closed spec fn view(&self) -> Seq<TodoView> {
        views(self.todos@)
    }
}

/// `first`, the tasks read so far, followed by what the rest of the text
/// gives.
spec fn followed_by(first: Seq<TodoView>, rest: Result<Seq<TodoView>, ParseError>) -> Result<
    Seq<TodoView>,
    ParseError,
> {
    match rest {
        Ok(more) => Ok(first + more),
        Err(e) => Err(e),
    }
}

/// Reads the task of one line and appends it to `todos`; a blank line adds
/// nothing.
fn read_line(todos: &mut Vec<Todo>, line: &str) -> (r: Result<(), ParseError>)
    ensures
        is_blank(line@) ==> r is Ok && final(todos)@ == old(todos)@,
        !is_blank(line@) ==> match parse_line(line@) {
            Ok(t) => r is Ok && views(final(todos)@) == views(old(todos)@).push(t),
            Err(e) => r == Err::<(), ParseError>(e) && final(todos)@ == old(todos)@,
        },
{
    if trim_str(line).is_empty() {
        return Ok(());
    }
    match Todo::from_str(line) {
        Ok(todo) => {
            todos.push(todo);
            Ok(())
        },
        Err(e) => Err(e),
    }
}

impl TodoApp {
    /// The list to start from: the one that the stored text stands for, or
    /// the empty list where nothing is stored.
    pub fn new(stored: Option<&str>) -> (r: Result<TodoApp, ParseError>)
        ensures
            match r {
                Ok(app) => load(stored_view(stored)) == Ok::<Seq<TodoView>, ParseError>(app@),
                Err(e) => load(stored_view(stored)) == Err::<Seq<TodoView>, ParseError>(e),
            },
            stored is None ==> r is Ok && r->Ok_0@ == Seq::<TodoView>::empty(),
    {
        match TodoApp::load_todos(stored) {
            Ok(todos) => Ok(TodoApp { todos }),
            Err(e) => Err(e),
        }
    }

    /// The tasks to start from: those that the stored text stands for, or
    /// none where nothing is stored.
    pub fn load_todos(stored: Option<&str>) -> (r: Result<Vec<Todo>, ParseError>)
        ensures
            parsed_views(r) == load(stored_view(stored)),
            stored is None ==> r is Ok && r->Ok_0@ == Seq::<Todo>::empty(),
    {
        match stored {
            Some(text) => TodoApp::from_str(text),
            None => {
                let todos: Vec<Todo> = Vec::new();
                assert(views(todos@) =~= Seq::empty());
                Ok(todos)
            },
        }
    }

    /// Reads a list from its text: one task from each line that is not
    /// blank. One line that stands for no task fails the whole, with the
    /// error of the first such line.
    pub fn from_str(content: &str) -> (r: Result<Vec<Todo>, ParseError>)
        ensures
            parsed_views(r) == parse_text(content@),
    {
        let mut todos: Vec<Todo> = Vec::new();
        let mut rest: &str = content;
        loop
            invariant
                parse_text(content@) == followed_by(views(todos@), parse_text(rest@)),
            decreases rest@.len(),
        {
            let chars = chars_of(rest);
            let n: usize = chars.len();
            proof {
                lemma_find(rest@, "\n"@);
                reveal_strlit("\n");
            }
            match find_in(chars.as_slice(), chars_of("\n").as_slice()) {
                Some(i) => {
                    let line = rest.substring_char(0, i);
                    let after = rest.substring_char(i + 1, n);
                    let ghost before = views(todos@);
                    assert(split_lines(rest@).drop_first() =~= split_lines(after@));
                    match read_line(&mut todos, line) {
                        Ok(_) => {
                            proof {
                                if let Ok(more) = parse_text(after@) {
                                    if !is_blank(line@) {
                                        let t = parse_line(line@)->Ok_0;
                                        assert(before + (seq![t] + more) =~= before.push(t)
                                            + more);
                                    }
                                }
                            }
                        },
                        Err(e) => {
                            return Err(e);
                        },
                    }
                    rest = after;
                },
                None => {
                    let ghost before = views(todos@);
                    assert(split_lines(rest@).drop_first() =~= Seq::<Seq<char>>::empty());
                    assert(parse_all(Seq::<Seq<char>>::empty()) == Ok::<Seq<TodoView>, ParseError>(
                        Seq::empty(),
                    ));
                    return match read_line(&mut todos, rest) {
                        Ok(_) => {
                            proof {
                                if !is_blank(rest@) {
                                    let t = parse_line(rest@)->Ok_0;
                                    assert(before + (seq![t] + Seq::<TodoView>::empty())
                                        =~= before.push(t));
                                }
                            }
                            Ok(todos)
                        },
                        Err(e) => Err(e),
                    };
                },
            }
        }
    }

    /// The tasks of the list, in order.
    pub fn todos(&self) -> (todos: &Vec<Todo>)
        ensures
            views(todos@) == self@,
    {
        &self.todos
    }

    /// The index of the first task numbered `id`.
    fn position(&self, id: u32) -> (pos: Option<usize>)
        ensures
            match pos {
                Some(i) => i < self@.len() && first_with_id(self@, id as nat) == Some(i as int),
                None => first_with_id(self@, id as nat) is None,
            },
    {
        let n: usize = self.todos.len();
        let mut i: usize = 0;
        while i < n
            invariant
                n == self.todos@.len(),
                i <= n,
                forall|j: int| 0 <= j < i ==> self@[j].id != id,
            decreases n - i,
        {
            if self.todos[i].id == id {
                proof {
                    lemma_first_with_id_at(self@, id as nat, i as int);
                }
                return Some(i);
            }
            i += 1;
        }
        None
    }

    /// Appends a task with the given title, not done, numbered one more than
    /// there are tasks. After a removal the number may be one that another
    /// task has.
    pub fn add_todo(&mut self, title: &str)
        requires
            old(self)@.len() < u32::MAX,
        ensures
            final(self)@ == added(old(self)@, title@),
    {
        let id: u32 = (self.todos.len() + 1) as u32;
        self.todos.push(Todo { id, title: String::from_str(title), complete: false });
    }

    /// Marks the first task numbered `id` as done.
    pub fn complete_todo(&mut self, id: u32)
        ensures
            final(self)@ == with_complete(old(self)@, id as nat, true),
    {
        self.set_complete(id, true);
    }

    /// Marks the first task numbered `id` as not done.
    pub fn incomplete_todo(&mut self, id: u32)
        ensures
            final(self)@ == with_complete(old(self)@, id as nat, false),
    {
        self.set_complete(id, false);
    }

    /// Gives the first task numbered `id` a new title.
    pub fn edit_todo(&mut self, id: u32, title: &str)
        ensures
            final(self)@ == with_title(old(self)@, id as nat, title@),
    {
        match self.position(id) {
            Some(i) => {
                self.todos[i].title = String::from_str(title);
            },
            None => {},
        }
    }

    /// Removes the first task numbered `id`.
    pub fn remove_todo(&mut self, id: u32)
        ensures
            final(self)@ == without(old(self)@, id as nat),
    {
        match self.position(id) {
            Some(i) => {
                self.todos.remove(i);
            },
            None => {},
        }
    }

    /// Marks the first task numbered `id` as done or as not done.
    pub fn set_complete(&mut self, id: u32, complete: bool)
        ensures
            final(self)@ == with_complete(old(self)@, id as nat, complete),
    {
        match self.position(id) {
            Some(i) => {
                self.todos[i].complete = complete;
            },
            None => {},
        }
    }

    /// The text that stands for the list.
    pub fn to_string(&self) -> (text: String)
        ensures
            text@ == format_all(self@),
    {
        let ghost lines = self@.map_values(|t: TodoView| format_line(t));
        let n: usize = self.todos.len();
        let mut text = String::new();
        let mut i: usize = 0;
        while i < n
            invariant
                n == self.todos@.len(),
                i <= n,
                lines == self@.map_values(|t: TodoView| format_line(t)),
                text@ == join_lines(lines.take(i as int)),
            decreases n - i,
        {
            if i > 0 {
                text.append("\n");
            }
            let line = self.todos[i].to_string();
            text.append(line.as_str());
            proof {
                let longer = lines.take(i + 1);
                assert(longer.drop_last() =~= lines.take(i as int));
            }
            i += 1;
        }
        assert(lines.take(n as int) =~= lines);
        text
    }

    /// The text to show for the list: `None` where the list is empty, else the
    /// line of each task, joined by line feeds.
    pub fn list_todos(&self) -> (listing: Option<String>)
        ensures
            match listing {
                Some(text) => self@.len() > 0 && text@ == format_all(self@),
                None => self@.len() == 0,
            },
    {
        if self.todos.len() > 0 {
            Some(self.to_string())
        } else {
            None
        }
    }
}

/// Before any task numbered `id` stands a first one.
proof fn lemma_first_with_id_exists(todos: Seq<TodoView>, id: nat, k: int)
    requires
        0 <= k < todos.len(),
        todos[k].id == id,
    ensures
        exists|i: int| is_first_with_id(todos, id, i),
    decreases k,
{
    if exists|j: int| 0 <= j < k && todos[j].id == id {
        let j = choose|j: int| 0 <= j < k && todos[j].id == id;
        lemma_first_with_id_exists(todos, id, j);
    } else {
        assert(is_first_with_id(todos, id, k));
    }
}

/// What `first_with_id` gives is the first task with that number, and it
/// gives one wherever a task has that number.
pub proof fn lemma_first_with_id(todos: Seq<TodoView>, id: nat)
    ensures
        match first_with_id(todos, id) {
            Some(i) => is_first_with_id(todos, id, i),
            None => !has_id(todos, id),
        },
{
    if has_id(todos, id) {
        let k = choose|k: int| 0 <= k < todos.len() && todos[k].id == id;
        lemma_first_with_id_exists(todos, id, k);
    }
}

/// A task numbered `id` with none before it is the one that `first_with_id`
/// gives.
pub proof fn lemma_first_with_id_at(todos: Seq<TodoView>, id: nat, i: int)
    requires
        is_first_with_id(todos, id, i),
    ensures
        first_with_id(todos, id) == Some(i),
{
    let j = choose|j: int| is_first_with_id(todos, id, j);
    assert(i == j);
}

} // verus!
