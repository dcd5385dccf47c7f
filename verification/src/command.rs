//! The commands that drive a list of tasks: reading one from a line of input
//! and carrying it out.

use crate::model::{
    added, format_all, with_complete, with_title, without, ParseError, TodoApp, TodoView,
};
use crate::number::{parse_u32, read_u32};
use crate::text::{
    chars_of, has_prefix, same_chars, skip_space, starts_with, trim, trim_start, trim_str, word,
    word_end,
};
use vstd::prelude::*;
use vstd::slice::slice_subrange;
use vstd::string::*;

verus! {

/// A command, with its arguments.
#[derive(Debug, PartialEq, Eq)]
pub enum Command {
    /// Show how the commands are written.
    Help,
    /// Show the list.
    List,
    /// Add a task with this title.
    Add(String),
    /// Give the task with this number this title.
    Edit(u32, String),
    /// Mark the task with this number as done.
    Complete(u32),
    /// Mark the task with this number as not done.
    Incomplete(u32),
    /// Remove the task with this number.
    Remove(u32),
    /// Store the list.
    Save,
    /// Leave.
    Quit,
}

/// What a command is: its kind and its arguments.
pub enum CommandView {
    Help,
    List,
    Add(Seq<char>),
    Edit(nat, Seq<char>),
    Complete(nat),
    Incomplete(nat),
    Remove(nat),
    Save,
    Quit,
}

impl View for Command {
    type V = CommandView;

    open spec fn view(&self) -> CommandView {
        match self {
            Command::Help => CommandView::Help,
            Command::List => CommandView::List,
            Command::Add(title) => CommandView::Add(title@),
            Command::Edit(id, title) => CommandView::Edit(*id as nat, title@),
            Command::Complete(id) => CommandView::Complete(*id as nat),
            Command::Incomplete(id) => CommandView::Incomplete(*id as nat),
            Command::Remove(id) => CommandView::Remove(*id as nat),
            Command::Save => CommandView::Save,
            Command::Quit => CommandView::Quit,
        }
    }
}

/// Why a line of input was not carried out.
#[derive(Debug, Clone, Copy, PartialEq, Eq, Structural)]
pub enum CommandError {
    /// The line is none of the commands.
    InvalidCommand,
    /// The line is a command, and its argument is not what the command
    /// needs.
    Parse(ParseError),
}

/// What is left for the caller to do once a command was carried out.
#[derive(Debug, PartialEq, Eq)]
pub enum Reply {
    /// Show how the commands are written.
    Help,
    /// Show these lines, one for each task of the list.
    Todos(String),
    /// Say that the list is empty.
    NoTodos,
    /// The command was one that changes the list: store it.
    Changed,
    /// Store the list.
    Save,
    /// Leave.
    Quit,
}

/// A reply, with its text as characters.
pub enum ReplyView {
    Help,
    Todos(Seq<char>),
    NoTodos,
    Changed,
    Save,
    Quit,
}

impl View for Reply {
    type V = ReplyView;

    open spec fn view(&self) -> ReplyView {
        match self {
            Reply::Help => ReplyView::Help,
            Reply::Todos(text) => ReplyView::Todos(text@),
            Reply::NoTodos => ReplyView::NoTodos,
            Reply::Changed => ReplyView::Changed,
            Reply::Save => ReplyView::Save,
            Reply::Quit => ReplyView::Quit,
        }
    }
}

/// What follows `prefix` in a line that begins with it.
pub open spec fn after_prefix(s: Seq<char>, prefix: Seq<char>) -> Seq<char> {
    s.skip(prefix.len() as int)
}

/// The number of a task, read from the argument of a command.
pub open spec fn id_argument(arg: Seq<char>) -> Result<nat, CommandError> {
    match parse_u32(arg) {
        Some(id) => Ok(id),
        None => Err(CommandError::Parse(ParseError::InvalidId)),
    }
}

/// The first word of the arguments of `edit`: where the task's number is
/// expected.
pub open spec fn edit_id_word(args: Seq<char>) -> Seq<char> {
    word(trim_start(args))
}

/// The second word of the arguments of `edit`: the new title.
pub open spec fn edit_title_word(args: Seq<char>) -> Seq<char> {
    word(trim_start(trim_start(args).skip(edit_id_word(args).len() as int)))
}

/// The command `edit` with the arguments `args`. It needs two words: the
/// first is read as the task's number, the second is the new title.
pub open spec fn edit_command(args: Seq<char>) -> Result<CommandView, CommandError> {
    if edit_title_word(args).len() == 0 {
        Err(CommandError::Parse(ParseError::MissingTitle))
    } else {
        match id_argument(edit_id_word(args)) {
            Ok(id) => Ok(CommandView::Edit(id, edit_title_word(args))),
            Err(e) => Err(e),
        }
    }
}

/// The command that a line of input stands for, once the white space around
/// the line is gone. The first of these that fits decides: the line is `help`;
/// it is `list`; it begins with `add `, `edit `, `complete `, `incomplete `,
/// `remove `, `save`, `quit`.
pub open spec fn parse_command(s: Seq<char>) -> Result<CommandView, CommandError> {
    if s == "help"@ {
        Ok(CommandView::Help)
    } else if s == "list"@ {
        Ok(CommandView::List)
    } else if starts_with(s, "add "@) {
        Ok(CommandView::Add(trim(after_prefix(s, "add "@))))
    } else if starts_with(s, "edit "@) {
        edit_command(after_prefix(s, "edit "@))
    } else if starts_with(s, "complete "@) {
        match id_argument(after_prefix(s, "complete "@)) {
            Ok(id) => Ok(CommandView::Complete(id)),
            Err(e) => Err(e),
        }
    } else if starts_with(s, "incomplete "@) {
        match id_argument(after_prefix(s, "incomplete "@)) {
            Ok(id) => Ok(CommandView::Incomplete(id)),
            Err(e) => Err(e),
        }
    } else if starts_with(s, "remove "@) {
        match id_argument(after_prefix(s, "remove "@)) {
            Ok(id) => Ok(CommandView::Remove(id)),
            Err(e) => Err(e),
        }
    } else if starts_with(s, "save"@) {
        Ok(CommandView::Save)
    } else if starts_with(s, "quit"@) {
        Ok(CommandView::Quit)
    } else {
        Err(CommandError::InvalidCommand)
    }
}

/// The list after a command was carried out on `todos`.
pub open spec fn applied(cmd: CommandView, todos: Seq<TodoView>) -> Seq<TodoView> {
    match cmd {
        CommandView::Add(title) => added(todos, title),
        CommandView::Edit(id, title) => with_title(todos, id, title),
        CommandView::Complete(id) => with_complete(todos, id, true),
        CommandView::Incomplete(id) => with_complete(todos, id, false),
        CommandView::Remove(id) => without(todos, id),
        _ => todos,
    }
}

/// The reply to a command that was carried out on `todos`.
pub open spec fn reply_to(cmd: CommandView, todos: Seq<TodoView>) -> ReplyView {
    match cmd {
        CommandView::Help => ReplyView::Help,
        CommandView::List => if todos.len() == 0 {
            ReplyView::NoTodos
        } else {
            ReplyView::Todos(format_all(todos))
        },
        CommandView::Save => ReplyView::Save,
        CommandView::Quit => ReplyView::Quit,
        _ => ReplyView::Changed,
    }
}

/// The outcome of reading a command, with the command as its view.
pub open spec fn command_view(r: Result<Command, CommandError>) -> Result<
    CommandView,
    CommandError,
> {
    match r {
        Ok(cmd) => Ok(cmd@),
        Err(e) => Err(e),
    }
}

/// What follows `prefix` in `s`, where `s` begins with it. `chars` holds the
/// characters of `s`.
fn strip_prefix<'a>(s: &'a str, chars: &[char], prefix: &str) -> (rest: Option<&'a str>)
    requires
        chars@ == s@,
    ensures
        match rest {
            Some(rest) => starts_with(s@, prefix@) && rest@ == after_prefix(s@, prefix@),
            None => !starts_with(s@, prefix@),
        },
{
    let prefix_chars = chars_of(prefix);
    if has_prefix(chars, prefix_chars.as_slice()) {
        let rest = s.substring_char(prefix_chars.len(), chars.len());
        Some(rest)
    } else {
        None
    }
}

/// Reads the number of a task from the argument of a command.
fn read_id(arg: &[char]) -> (r: Result<u32, CommandError>)
    ensures
        match r {
            Ok(id) => id_argument(arg@) == Ok::<nat, CommandError>(id as nat),
            Err(e) => id_argument(arg@) == Err::<nat, CommandError>(e),
        },
{
    match read_u32(arg) {
        Some(id) => Ok(id),
        None => Err(CommandError::Parse(ParseError::InvalidId)),
    }
}

/// Reads the command `edit` from its arguments.
fn read_edit(args: &str) -> (r: Result<Command, CommandError>)
    ensures
        command_view(r) == edit_command(args@),
{
    let chars = chars_of(args);
    let id_from: usize = skip_space(chars.as_slice(), 0);
    let id_to: usize = word_end(chars.as_slice(), id_from);
    let title_from: usize = skip_space(chars.as_slice(), id_to);
    let title_to: usize = word_end(chars.as_slice(), title_from);
    proof {
        let first = trim_start(args@);
        assert(args@.skip(0) =~= args@);
        assert(first.skip(id_to - id_from) =~= args@.skip(id_to as int));
    }
    if title_from == title_to {
        return Err(CommandError::Parse(ParseError::MissingTitle));
    }
    match read_id(slice_subrange(chars.as_slice(), id_from, id_to)) {
        Ok(id) => {
            let title = String::from_str(args.substring_char(title_from, title_to));
            Ok(Command::Edit(id, title))
        },
        Err(e) => Err(e),
    }
}

impl Command {
    /// Reads a command from a line of input without white space around it.
    pub fn match_command(cmd_str: &str) -> (r: Result<Command, CommandError>)
        ensures
            command_view(r) == parse_command(cmd_str@),
    {
        let chars = chars_of(cmd_str);
        let s = chars.as_slice();
        if same_chars(s, chars_of("help").as_slice()) {
            return Ok(Command::Help);
        }
        if same_chars(s, chars_of("list").as_slice()) {
            return Ok(Command::List);
        }
        if let Some(rest) = strip_prefix(cmd_str, s, "add ") {
            return Ok(Command::Add(String::from_str(trim_str(rest))));
        }
        if let Some(rest) = strip_prefix(cmd_str, s, "edit ") {
            return read_edit(rest);
        }
        if let Some(rest) = strip_prefix(cmd_str, s, "complete ") {
            return match read_id(chars_of(rest).as_slice()) {
                Ok(id) => Ok(Command::Complete(id)),
                Err(e) => Err(e),
            };
        }
        if let Some(rest) = strip_prefix(cmd_str, s, "incomplete ") {
            return match read_id(chars_of(rest).as_slice()) {
                Ok(id) => Ok(Command::Incomplete(id)),
                Err(e) => Err(e),
            };
        }
        if let Some(rest) = strip_prefix(cmd_str, s, "remove ") {
            return match read_id(chars_of(rest).as_slice()) {
                Ok(id) => Ok(Command::Remove(id)),
                Err(e) => Err(e),
            };
        }
        if has_prefix(s, chars_of("save").as_slice()) {
            return Ok(Command::Save);
        }
        if has_prefix(s, chars_of("quit").as_slice()) {
            return Ok(Command::Quit);
        }
        Err(CommandError::InvalidCommand)
    }

    /// Carries the command out on the list and says what is left to do.
    pub fn exec_command(self, todo_app: &mut TodoApp) -> (reply: Reply)
        requires
            self is Add ==> old(todo_app)@.len() < u32::MAX,
        ensures
            final(todo_app)@ == applied(self@, old(todo_app)@),
            reply@ == reply_to(self@, old(todo_app)@),
    {
        match self {
            Command::Help => Reply::Help,
            Command::List => match todo_app.list_todos() {
                Some(text) => Reply::Todos(text),
                None => Reply::NoTodos,
            },
            Command::Add(title) => {
                todo_app.add_todo(title.as_str());
                Reply::Changed
            },
            Command::Edit(id, title) => {
                todo_app.edit_todo(id, title.as_str());
                Reply::Changed
            },
            Command::Complete(id) => {
                todo_app.complete_todo(id);
                Reply::Changed
            },
            Command::Incomplete(id) => {
                todo_app.incomplete_todo(id);
                Reply::Changed
            },
            Command::Remove(id) => {
                todo_app.remove_todo(id);
                Reply::Changed
            },
            Command::Save => Reply::Save,
            Command::Quit => Reply::Quit,
        }
    }
}

/// Reads the command that a line of input stands for and carries it out on
/// the list. A line that stands for no command leaves the list as it is.
pub fn deal_input(todo_app: &mut TodoApp, input: &str) -> (r: Result<Reply, CommandError>)
    requires
        parse_command(trim(input@)) matches Ok(CommandView::Add(_)) ==> old(todo_app)@.len()
            < u32::MAX,
    ensures
        match parse_command(trim(input@)) {
            Ok(cmd) => r is Ok && r->Ok_0@ == reply_to(cmd, old(todo_app)@) && final(todo_app)@
                == applied(cmd, old(todo_app)@),
            Err(e) => r == Err::<Reply, CommandError>(e) && final(todo_app)@ == old(todo_app)@,
        },
{
    match Command::match_command(trim_str(input)) {
        Ok(cmd) => Ok(cmd.exec_command(todo_app)),
        Err(e) => Err(e),
    }
}

} // verus!
