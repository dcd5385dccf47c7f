//! What holds of the lines of tasks and of the operations on a list.

use crate::model::{
    added, first_with_id, format_all, format_line, has_id, id_segment, is_first_with_id,
    join_lines, lemma_first_with_id, mark, parse_all, parse_line, parse_text, split_lines,
    title_after, with_complete, with_title, without, ParseError, Todo, TodoView,
};
use crate::number::{decimal, is_digit, lemma_parse_decimal};
use crate::text::{
    contains, find, is_blank, is_trimmed, lemma_contains_subrange, lemma_find, lemma_find_first,
    lemma_trim_cut, lemma_trim_end, lemma_trim_of_trimmed, lemma_trim_start, occurs_at, trim,
};
use vstd::prelude::*;

verus! {

/// What follows the mark in the line of a task with a trimmed title, once the
/// white space around the line is gone: nothing for an empty title, else a
/// space and the title.
spec fn tail(title: Seq<char>) -> Seq<char> {
    if title.len() == 0 {
        title
    } else {
        " "@ + title
    }
}

/// The line of a task up to its mark.
spec fn stem(t: TodoView) -> Seq<char> {
    decimal(t.id) + ". "@ + mark(t.complete)
}

/// Where the mark stands in the line of a task.
spec fn mark_at(t: TodoView) -> int {
    decimal(t.id).len() as int + 2
}

/// What the literals of a line hold.
proof fn lemma_literals()
    ensures
        ". "@ == seq!['.', ' '],
        " "@ == seq![' '],
        "[X]"@ == seq!['[', 'X', ']'],
        "[ ]"@ == seq!['[', ' ', ']'],
        ". ["@ == seq!['.', ' ', '['],
{
    reveal_strlit(". ");
    reveal_strlit(" ");
    reveal_strlit("[X]");
    reveal_strlit("[ ]");
    reveal_strlit(". [");
}

/// Trimming the line of a task with a trimmed title leaves the line, less the
/// space after the mark where the title is empty.
proof fn lemma_trim_format(t: TodoView)
    requires
        is_trimmed(t.title),
    ensures
        trim(format_line(t)) == stem(t) + tail(t.title),
{
    let line = format_line(t);
    lemma_literals();
    lemma_parse_decimal(t.id);
    lemma_trim_of_trimmed(t.title);
    lemma_trim_start(line, 0);
    if t.title.len() > 0 {
        lemma_trim_end(line, line.len() as int);
    } else {
        lemma_trim_end(line, line.len() - 1);
    }
}

/// In the trimmed line of a task the number is read from the digits, and the
/// first bracket is that of the mark.
proof fn lemma_line_shape(t: TodoView, s: Seq<char>)
    requires
        s == stem(t) + tail(t.title),
    ensures
        id_segment(s) == decimal(t.id),
        occurs_at(s, mark(t.complete), mark_at(t)),
        forall|j: int| 0 <= j < mark_at(t) ==> s[j] != '[',
        s.skip(mark_at(t) + 3) == tail(t.title),
{
    let n = decimal(t.id).len() as int;
    lemma_literals();
    lemma_parse_decimal(t.id);
    assert(s.subrange(n, n + 3) =~= ". ["@);
    assert(s.subrange(n + 2, n + 5) =~= mark(t.complete));
    assert forall|j: int| 0 <= j < n implies !occurs_at(s, ". ["@, j) by {
        assert(is_digit(s[j]));
    }
    lemma_find_first(s, ". ["@, n);
}

/// Trimming what follows the mark gives the title back.
proof fn lemma_trim_tail(title: Seq<char>)
    requires
        is_trimmed(title),
    ensures
        trim(tail(title)) == title,
{
    lemma_literals();
    if title.len() == 0 {
        lemma_trim_of_trimmed(title);
    } else {
        lemma_trim_start(tail(title), 1);
        lemma_trim_end(title, title.len() as int);
    }
}

/// In the trimmed line of a task the first mark is the task's own, where the
/// title of a task that is not done does not hold `[X]`.
proof fn lemma_mark_found(t: TodoView, s: Seq<char>)
    requires
        s == stem(t) + tail(t.title),
        !t.complete ==> !contains(t.title, "[X]"@),
    ensures
        t.complete ==> find(s, "[X]"@) == Some(mark_at(t)),
        !t.complete ==> find(s, "[X]"@) is None && find(s, "[ ]"@) == Some(mark_at(t)),
{
    let p = mark_at(t);
    lemma_literals();
    lemma_line_shape(t, s);
    assert forall|j: int| 0 <= j < p implies !occurs_at(s, "[X]"@, j) && !occurs_at(
        s,
        "[ ]"@,
        j,
    ) by {
        assert(s[j] != '[');
    }
    if t.complete {
        lemma_find_first(s, "[X]"@, p);
    } else {
        lemma_not_checked(t, s);
        lemma_find(s, "[X]"@);
        lemma_find_first(s, "[ ]"@, p);
    }
}

/// The trimmed line of a task that is not done holds no `[X]`, where its
/// title holds none.
proof fn lemma_not_checked(t: TodoView, s: Seq<char>)
    requires
        s == stem(t) + tail(t.title),
        !t.complete,
        !contains(t.title, "[X]"@),
    ensures
        forall|j: int| !occurs_at(s, "[X]"@, j),
{
    let p = mark_at(t);
    lemma_literals();
    lemma_line_shape(t, s);
    assert forall|j: int| !occurs_at(s, "[X]"@, j) by {
        if occurs_at(s, "[X]"@, j) {
            if j >= p + 4 {
                assert(t.title.subrange(j - p - 4, j - p - 1) =~= s.subrange(j, j + 3));
                assert(occurs_at(t.title, "[X]"@, j - p - 4));
            } else {
                assert(s[j] != '[' || s[j + 1] != 'X');
            }
        }
    }
}

/// What `parse_line` makes of the line of a task.
proof fn lemma_parse_format_view(v: TodoView)
    requires
        v.id <= u32::MAX,
        is_trimmed(v.title),
        !v.complete ==> !contains(v.title, "[X]"@),
    ensures
        parse_line(format_line(v)) == Ok::<TodoView, ParseError>(v),
{
    let s = trim(format_line(v));
    lemma_trim_format(v);
    lemma_line_shape(v, s);
    lemma_mark_found(v, s);
    lemma_parse_decimal(v.id);
    lemma_trim_tail(v.title);
}

/// A task is read back from its own line, where its title neither begins nor
/// ends with white space and, if the task is not done, does not hold `[X]`.
pub proof fn lemma_parse_format(t: Todo)
    requires
        is_trimmed(t.title@),
        !t.complete ==> !contains(t.title@, "[X]"@),
    ensures
        parse_line(format_line(t@)) == Ok::<TodoView, ParseError>(t@),
{
    lemma_parse_format_view(t@);
}

/// The line of such a task is written again as it is from what was read from
/// it.
pub proof fn lemma_format_parse(t: Todo)
    requires
        is_trimmed(t.title@),
        !t.complete ==> !contains(t.title@, "[X]"@),
    ensures
        parse_line(format_line(t@)) is Ok,
        format_line(parse_line(format_line(t@))->Ok_0) == format_line(t@),
{
    lemma_parse_format_view(t@);
}

/// What was read from a line is read again from the line that is written for
/// it.
pub proof fn lemma_parse_stable(line: Seq<char>)
    requires
        parse_line(line) is Ok,
    ensures
        parse_line(format_line(parse_line(line)->Ok_0)) == parse_line(line),
{
    let s = trim(line);
    let v = parse_line(line)->Ok_0;
    lemma_literals();
    lemma_find(s, "[X]"@);
    lemma_find(s, "[ ]"@);
    let i = if v.complete {
        find(s, "[X]"@)->0
    } else {
        find(s, "[ ]"@)->0
    };
    let rest = s.skip(i + 3);
    let (a, b) = lemma_trim_cut(rest);
    if !v.complete && contains(v.title, "[X]"@) {
        lemma_contains_subrange(rest, a, b, "[X]"@);
        lemma_contains_subrange(s, i + 3, s.len() as int, "[X]"@);
    }
    lemma_parse_format_view(v);
}

/// Whether a task can be stored: its title neither begins nor ends with white
/// space and holds no line feed, nor `[X]` if the task is not done.
pub open spec fn storable(t: TodoView) -> bool {
    &&& t.id <= u32::MAX
    &&& is_trimmed(t.title)
    &&& !contains(t.title, "\n"@)
    &&& !t.complete ==> !contains(t.title, "[X]"@)
}

/// The first line of a text that goes on after it is split off at the line
/// feed.
proof fn lemma_split_first_line(first: Seq<char>, rest: Seq<char>)
    requires
        !contains(first, "\n"@),
    ensures
        split_lines(first + "\n"@ + rest) == seq![first] + split_lines(rest),
        split_lines(first) == seq![first],
{
    let text = first + "\n"@ + rest;
    let n = first.len() as int;
    reveal_strlit("\n");
    assert(text.subrange(n, n + 1) =~= "\n"@);
    assert forall|j: int| 0 <= j < n implies !occurs_at(text, "\n"@, j) by {
        if occurs_at(text, "\n"@, j) {
            assert(first.subrange(j, j + 1) =~= text.subrange(j, j + 1));
            assert(occurs_at(first, "\n"@, j));
        }
    }
    lemma_find_first(text, "\n"@, n);
    assert(text.take(n) =~= first);
    assert(text.skip(n + 1) =~= rest);
    lemma_find(first, "\n"@);
}

/// Joined lines begin with the first line; a line feed and the others, joined,
/// follow where there are others.
proof fn lemma_join_first_line(lines: Seq<Seq<char>>)
    requires
        lines.len() >= 2,
    ensures
        join_lines(lines) == lines.first() + "\n"@ + join_lines(lines.drop_first()),
    decreases lines.len(),
{
    let init = lines.drop_last();
    let tail = lines.drop_first();
    assert(tail.drop_last() =~= init.drop_first());
    if lines.len() == 2 {
        assert(join_lines(init) == lines.first());
    } else {
        lemma_join_first_line(init);
    }
}

/// Lines without line feeds in them are split again as they were joined.
proof fn lemma_split_join(lines: Seq<Seq<char>>)
    requires
        lines.len() >= 1,
        forall|i: int| 0 <= i < lines.len() ==> !contains(#[trigger] lines[i], "\n"@),
    ensures
        split_lines(join_lines(lines)) == lines,
    decreases lines.len(),
{
    if lines.len() == 1 {
        lemma_split_first_line(lines.first(), Seq::empty());
    } else {
        let tail = lines.drop_first();
        assert forall|i: int| 0 <= i < tail.len() implies !contains(#[trigger] tail[i], "\n"@) by {
            assert(tail[i] == lines[i + 1]);
        }
        lemma_join_first_line(lines);
        lemma_split_join(tail);
        lemma_split_first_line(lines.first(), join_lines(tail));
    }
}

/// The line of a task whose title holds no line feed holds none, and is not
/// blank.
proof fn lemma_format_one_line(t: TodoView)
    requires
        is_trimmed(t.title),
        !contains(t.title, "\n"@),
    ensures
        !contains(format_line(t), "\n"@),
        !is_blank(format_line(t)),
{
    let line = format_line(t);
    let n = decimal(t.id).len() as int;
    lemma_literals();
    reveal_strlit("\n");
    lemma_parse_decimal(t.id);
    lemma_trim_of_trimmed(t.title);
    lemma_trim_format(t);
    assert forall|j: int| !occurs_at(line, "\n"@, j) by {
        if occurs_at(line, "\n"@, j) {
            assert(line.subrange(j, j + 1)[0] == line[j]);
            if j >= n + 6 {
                assert(t.title.subrange(j - n - 6, j - n - 5) =~= line.subrange(j, j + 1));
                assert(occurs_at(t.title, "\n"@, j - n - 6));
            }
        }
    }
}

/// The lines of storable tasks are read as those tasks.
proof fn lemma_parse_all_format(todos: Seq<TodoView>)
    requires
        forall|i: int| 0 <= i < todos.len() ==> storable(#[trigger] todos[i]),
    ensures
        parse_all(todos.map_values(|t: TodoView| format_line(t))) == Ok::<
            Seq<TodoView>,
            ParseError,
        >(todos),
    decreases todos.len(),
{
    let lines = todos.map_values(|t: TodoView| format_line(t));
    if todos.len() == 0 {
        assert(todos =~= Seq::empty());
    } else {
        let rest = todos.drop_first();
        assert forall|i: int| 0 <= i < rest.len() implies storable(#[trigger] rest[i]) by {
            assert(rest[i] == todos[i + 1]);
        }
        lemma_parse_all_format(rest);
        lemma_format_one_line(todos.first());
        lemma_parse_format_view(todos.first());
        assert(lines.drop_first() =~= rest.map_values(|t: TodoView| format_line(t)));
        assert(seq![todos.first()] + rest =~= todos);
    }
}

/// A list of storable tasks is read back from its own text.
pub proof fn lemma_parse_text_format_all(todos: Seq<TodoView>)
    requires
        forall|i: int| 0 <= i < todos.len() ==> storable(#[trigger] todos[i]),
    ensures
        parse_text(format_all(todos)) == Ok::<Seq<TodoView>, ParseError>(todos),
{
    let lines = todos.map_values(|t: TodoView| format_line(t));
    if todos.len() == 0 {
        reveal_strlit("\n");
        lemma_split_first_line(Seq::empty(), Seq::empty());
        lemma_trim_of_trimmed(Seq::empty());
        assert(todos =~= Seq::empty());
        assert(parse_all(Seq::<Seq<char>>::empty()) == Ok::<Seq<TodoView>, ParseError>(
            Seq::empty(),
        ));
        assert(seq![Seq::<char>::empty()].drop_first() =~= Seq::<Seq<char>>::empty());
    } else {
        assert forall|i: int| 0 <= i < lines.len() implies !contains(
            #[trigger] lines[i],
            "\n"@,
        ) by {
            lemma_format_one_line(todos[i]);
        }
        lemma_split_join(lines);
        lemma_parse_all_format(todos);
    }
}

/// Whether the tasks are numbered 1, 2, 3 and so on.
pub open spec fn numbered_in_order(todos: Seq<TodoView>) -> bool {
    forall|i: int| 0 <= i < todos.len() ==> (#[trigger] todos[i]).id == i + 1
}

/// A list that is numbered in order stays so when a task is added.
pub proof fn lemma_added_in_order(todos: Seq<TodoView>, title: Seq<char>)
    requires
        numbered_in_order(todos),
    ensures
        numbered_in_order(added(todos, title)),
{
}

/// Two tasks added to the empty list are numbered 1 and 2.
pub proof fn lemma_added_to_empty(first: Seq<char>, second: Seq<char>)
    ensures
        numbered_in_order(Seq::<TodoView>::empty()),
        added(added(Seq::empty(), first), second) == seq![
            TodoView { id: 1, title: first, complete: false },
            TodoView { id: 2, title: second, complete: false },
        ],
{
}

/// Marking a task as done or not done changes that mark of the first task
/// with the number, and nothing else in the list.
pub proof fn lemma_with_complete_changes_one(todos: Seq<TodoView>, id: nat, complete: bool)
    requires
        has_id(todos, id),
    ensures
        ({
            let after = with_complete(todos, id, complete);
            let i = first_with_id(todos, id)->0;
            &&& is_first_with_id(todos, id, i)
            &&& after.len() == todos.len()
            &&& after[i] == TodoView { complete, ..todos[i] }
            &&& forall|j: int| 0 <= j < todos.len() && j != i ==> after[j] == todos[j]
        }),
{
    lemma_first_with_id(todos, id);
}

/// A new title replaces that of the first task with the number, and nothing
/// else in the list changes.
pub proof fn lemma_with_title_changes_one(todos: Seq<TodoView>, id: nat, title: Seq<char>)
    requires
        has_id(todos, id),
    ensures
        ({
            let after = with_title(todos, id, title);
            let i = first_with_id(todos, id)->0;
            &&& is_first_with_id(todos, id, i)
            &&& after.len() == todos.len()
            &&& after[i] == TodoView { title, ..todos[i] }
            &&& forall|j: int| 0 <= j < todos.len() && j != i ==> after[j] == todos[j]
        }),
{
    lemma_first_with_id(todos, id);
}

/// Removing takes out the first task with the number; the tasks before it and
/// those after it stay as they are, in their order.
pub proof fn lemma_without_keeps_order(todos: Seq<TodoView>, id: nat)
    requires
        has_id(todos, id),
    ensures
        ({
            let after = without(todos, id);
            let i = first_with_id(todos, id)->0;
            &&& is_first_with_id(todos, id, i)
            &&& after.len() == todos.len() - 1
            &&& after == todos.take(i) + todos.skip(i + 1)
            &&& forall|j: int| 0 <= j < i ==> after[j] == todos[j]
            &&& forall|j: int| i <= j < after.len() ==> after[j] == todos[j + 1]
        }),
{
    lemma_first_with_id(todos, id);
}

/// Where no task has the number, marking, editing and removing leave the
/// list as it is.
pub proof fn lemma_unknown_id_changes_nothing(
    todos: Seq<TodoView>,
    id: nat,
    title: Seq<char>,
    complete: bool,
)
    requires
        !has_id(todos, id),
    ensures
        with_complete(todos, id, complete) == todos,
        with_title(todos, id, title) == todos,
        without(todos, id) == todos,
{
}

} // verus!
