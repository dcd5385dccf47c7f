use todo_list::command::{deal_input, Command, CommandError, Reply};
use todo_list::model::{ParseError, TodoApp};

fn empty() -> TodoApp {
    TodoApp::new(None).unwrap()
}

#[test]
fn end_to_end() {
    let mut app = empty();
    assert_eq!(deal_input(&mut app, "add buy milk"), Ok(Reply::Changed));
    assert_eq!(deal_input(&mut app, "add walk dog"), Ok(Reply::Changed));
    assert_eq!(deal_input(&mut app, "complete 1"), Ok(Reply::Changed));
    let reply = deal_input(&mut app, "list").unwrap();
    assert_eq!(reply, Reply::Todos("1. [X] buy milk\n2. [ ] walk dog".to_string()));
}

#[test]
fn list_of_empty_list_says_so() {
    let mut app = empty();
    assert_eq!(deal_input(&mut app, "list"), Ok(Reply::NoTodos));
}

#[test]
fn help_list_save_quit_leave_the_list() {
    let mut app = TodoApp::new(Some("1. [ ] a")).unwrap();
    assert_eq!(deal_input(&mut app, "help"), Ok(Reply::Help));
    assert_eq!(deal_input(&mut app, "save"), Ok(Reply::Save));
    assert_eq!(deal_input(&mut app, "quit"), Ok(Reply::Quit));
    assert_eq!(deal_input(&mut app, "list"), Ok(Reply::Todos("1. [ ] a".to_string())));
    assert_eq!(app.to_string(), "1. [ ] a");
}

#[test]
fn input_is_trimmed() {
    let mut app = empty();
    assert_eq!(deal_input(&mut app, "  add   buy milk  \n"), Ok(Reply::Changed));
    assert_eq!(app.todos()[0].title, "buy milk");
    assert_eq!(deal_input(&mut app, "\thelp\r\n"), Ok(Reply::Help));
    assert_eq!(deal_input(&mut app, " list "), Ok(Reply::Todos("1. [ ] buy milk".to_string())));
}

#[test]
fn exact_commands_take_nothing_after_them() {
    assert_eq!(Command::match_command("help"), Ok(Command::Help));
    assert_eq!(Command::match_command("list"), Ok(Command::List));
    assert_eq!(Command::match_command("help me"), Err(CommandError::InvalidCommand));
    assert_eq!(Command::match_command("lists"), Err(CommandError::InvalidCommand));
    assert_eq!(Command::match_command("Help"), Err(CommandError::InvalidCommand));
}

#[test]
fn save_and_quit_match_by_prefix() {
    assert_eq!(Command::match_command("save"), Ok(Command::Save));
    assert_eq!(Command::match_command("save now"), Ok(Command::Save));
    assert_eq!(Command::match_command("saved"), Ok(Command::Save));
    assert_eq!(Command::match_command("quit"), Ok(Command::Quit));
    assert_eq!(Command::match_command("quitting"), Ok(Command::Quit));
    assert_eq!(Command::match_command("sav"), Err(CommandError::InvalidCommand));
}

#[test]
fn add_takes_the_trimmed_remainder() {
    assert_eq!(Command::match_command("add buy milk"), Ok(Command::Add("buy milk".to_string())));
    assert_eq!(Command::match_command("add    x  y"), Ok(Command::Add("x  y".to_string())));
    assert_eq!(
        Command::match_command("add add more"),
        Ok(Command::Add("add more".to_string()))
    );
    assert_eq!(Command::match_command("add"), Err(CommandError::InvalidCommand));
    assert_eq!(Command::match_command("addx"), Err(CommandError::InvalidCommand));
    assert_eq!(Command::match_command("add "), Ok(Command::Add(String::new())));
}

#[test]
fn edit_takes_two_words() {
    assert_eq!(
        Command::match_command("edit 1 new task title"),
        Ok(Command::Edit(1, "new".to_string()))
    );
    assert_eq!(Command::match_command("edit  12 \t x"), Ok(Command::Edit(12, "x".to_string())));
    assert_eq!(
        Command::match_command("edit 1"),
        Err(CommandError::Parse(ParseError::MissingTitle))
    );
    assert_eq!(
        Command::match_command("edit one"),
        Err(CommandError::Parse(ParseError::MissingTitle))
    );
    assert_eq!(
        Command::match_command("edit one two"),
        Err(CommandError::Parse(ParseError::InvalidId))
    );
    assert_eq!(
        Command::match_command("edit "),
        Err(CommandError::Parse(ParseError::MissingTitle))
    );
}

#[test]
fn id_commands_read_the_remainder_as_a_number() {
    assert_eq!(Command::match_command("complete 1"), Ok(Command::Complete(1)));
    assert_eq!(Command::match_command("incomplete 22"), Ok(Command::Incomplete(22)));
    assert_eq!(Command::match_command("remove 4294967295"), Ok(Command::Remove(u32::MAX)));
    assert_eq!(Command::match_command("remove +3"), Ok(Command::Remove(3)));
    let invalid = Err(CommandError::Parse(ParseError::InvalidId));
    assert_eq!(Command::match_command("complete one"), invalid);
    assert_eq!(Command::match_command("complete  1"), invalid);
    assert_eq!(Command::match_command("complete 1 2"), invalid);
    assert_eq!(Command::match_command("complete "), invalid);
    assert_eq!(Command::match_command("incomplete -1"), invalid);
    assert_eq!(Command::match_command("remove 4294967296"), invalid);
    assert_eq!(Command::match_command("complete"), Err(CommandError::InvalidCommand));
}

#[test]
fn unknown_input_is_refused_and_changes_nothing() {
    let mut app = TodoApp::new(Some("1. [ ] a")).unwrap();
    assert_eq!(deal_input(&mut app, "frobnicate"), Err(CommandError::InvalidCommand));
    assert_eq!(deal_input(&mut app, ""), Err(CommandError::InvalidCommand));
    assert_eq!(deal_input(&mut app, "   "), Err(CommandError::InvalidCommand));
    assert_eq!(deal_input(&mut app, "remove x"), Err(CommandError::Parse(ParseError::InvalidId)));
    assert_eq!(deal_input(&mut app, "edit 1"), Err(CommandError::Parse(ParseError::MissingTitle)));
    assert_eq!(app.to_string(), "1. [ ] a");
}

#[test]
fn commands_change_the_list() {
    let mut app = TodoApp::new(Some("1. [ ] a\n2. [ ] b\n3. [X] c")).unwrap();
    assert_eq!(deal_input(&mut app, "edit 2 bee"), Ok(Reply::Changed));
    assert_eq!(deal_input(&mut app, "incomplete 3"), Ok(Reply::Changed));
    assert_eq!(deal_input(&mut app, "complete 1"), Ok(Reply::Changed));
    assert_eq!(app.to_string(), "1. [X] a\n2. [ ] bee\n3. [ ] c");
    assert_eq!(deal_input(&mut app, "remove 2"), Ok(Reply::Changed));
    assert_eq!(app.to_string(), "1. [X] a\n3. [ ] c");
    assert_eq!(deal_input(&mut app, "remove 7"), Ok(Reply::Changed));
    assert_eq!(app.to_string(), "1. [X] a\n3. [ ] c");
}

#[test]
fn exec_command_replies() {
    let mut app = empty();
    assert_eq!(Command::Add("x".to_string()).exec_command(&mut app), Reply::Changed);
    assert_eq!(Command::List.exec_command(&mut app), Reply::Todos("1. [ ] x".to_string()));
    assert_eq!(Command::Complete(1).exec_command(&mut app), Reply::Changed);
    assert_eq!(Command::Edit(1, "y".to_string()).exec_command(&mut app), Reply::Changed);
    assert_eq!(app.to_string(), "1. [X] y");
    assert_eq!(Command::Remove(1).exec_command(&mut app), Reply::Changed);
    assert_eq!(Command::List.exec_command(&mut app), Reply::NoTodos);
}
