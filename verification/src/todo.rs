//! The todo list that a subagent writes with the `TodoWrite` tool.

use crate::json::{items_member, json_of, text_member, Json};
use crate::text::{lemma_views_push, owned, same_text, text_view, views};
use serde_json::Value;
use vstd::prelude::*;

verus! {

/// One item of a todo list as the tool's arguments hold it.
#[derive(Debug, PartialEq, Eq)]
pub struct TodoEntry {
    pub content: Option<String>,
    pub status: Option<String>,
}

/// The model of a [`TodoEntry`].
pub struct TodoEntryView {
    pub content: Option<Seq<char>>,
    pub status: Option<Seq<char>>,
}

impl View for TodoEntry {
    type V = TodoEntryView;

    open spec fn view(&self) -> TodoEntryView {
        TodoEntryView { content: text_view(self.content), status: text_view(self.status) }
    }
}

/// One item of a todo list.
#[derive(Debug, PartialEq, Eq)]
pub struct Todo {
    pub content: String,
    pub status: String,
}

/// The model of a [`Todo`].
pub struct TodoView {
    pub content: Seq<char>,
    pub status: Seq<char>,
}

impl View for Todo {
    type V = TodoView;

    open spec fn view(&self) -> TodoView {
        TodoView { content: self.content@, status: self.status@ }
    }
}

impl TodoEntryView {
    /// An entry with content is an item, pending unless it says otherwise; an entry
    /// without content is none.
    pub open spec fn item(self) -> Option<TodoView> {
        match self.content {
            Some(content) => Some(
                TodoView {
                    content,
                    status: match self.status {
                        Some(status) => status,
                        None => "pending"@,
                    },
                },
            ),
            None => None,
        }
    }
}

impl TodoEntry {
    /// Turns an entry into an item, where it has content.
    pub fn item(self) -> (todo: Option<Todo>)
        ensures
            match todo {
                Some(item) => self@.item() == Some(item@),
                None => self@.item() is None,
            },
    {
        match self.content {
            Some(content) => Some(
                Todo {
                    content,
                    status: match self.status {
                        Some(status) => status,
                        None => "pending".to_string(),
                    },
                },
            ),
            None => None,
        }
    }
}

impl Json {
    /// A document read as one entry of a todo list.
    pub open spec fn todo_entry(self) -> TodoEntryView {
        TodoEntryView { content: self.text_member("content"@), status: self.text_member("status"@) }
    }

    /// The entries of the list under `todos`, where there is one.
    pub open spec fn todo_entries(self) -> Option<Seq<TodoEntryView>> {
        match self.items_member("todos"@) {
            Some(items) => Some(items.map_values(|item: Json| item.todo_entry())),
            None => None,
        }
    }
}

/// Reads one entry of a todo list.
pub fn read_entry(value: &Value) -> (entry: TodoEntry)
    ensures
        entry@ == json_of(*value).todo_entry(),
{
    TodoEntry {
        content: owned(text_member(value, "content")),
        status: owned(text_member(value, "status")),
    }
}

/// Reads the entries of the list under `todos`, where there is one.
pub fn read_entries(arguments: &Value) -> (entries: Option<Vec<TodoEntry>>)
    ensures
        match entries {
            Some(list) => json_of(*arguments).todo_entries() == Some(views(list@)),
            None => json_of(*arguments).todo_entries() is None,
        },
{
    match items_member(arguments, "todos") {
        Some(items) => {
            let mut entries: Vec<TodoEntry> = Vec::new();
            let mut i: usize = 0;
            while i < items.len()
                invariant
                    i <= items.len(),
                    entries.len() == i,
                    forall|k: int|
                        0 <= k < i ==> (#[trigger] entries@[k])@ == json_of(
                            items@[k],
                        ).todo_entry(),
                decreases items.len() - i,
            {
                entries.push(read_entry(&items[i]));
                i += 1;
            }
            assert(views(entries@) =~= items@.map_values(|v: Value| json_of(v)).map_values(
                |item: Json| item.todo_entry(),
            ));
            Some(entries)
        },
        None => None,
    }
}

/// The items of a todo list: of its entries, in order, those that have content.
pub open spec fn listed(entries: Seq<TodoEntryView>) -> Seq<TodoView> {
    entries.filter_map(|entry: TodoEntryView| entry.item())
}

/// Keeps the entries of a todo list that have content.
pub fn list_items(entries: Vec<TodoEntry>) -> (todos: Vec<Todo>)
    ensures
        views(todos@) == listed(views(entries@)),
{
    let ghost all = entries@;
    let mut todos: Vec<Todo> = Vec::new();
    assert(views(todos@) =~= listed(views(all.take(0)))) by {
        reveal(Seq::filter_map);
    }
    for entry in visited: entries
        invariant
            visited.seq() == all,
            views(todos@) == listed(views(all.take(visited.index() as int))),
    {
        proof {
            let i = visited.index() as int;
            assert(entry == all[i]);
            assert(all.take(i + 1) =~= all.take(i).push(all[i]));
            lemma_views_push(all.take(i), all[i]);
            lemma_listed_push(views(all.take(i)), all[i]@);
        }
        let item = entry.item();
        if let Some(todo) = item {
            proof {
                lemma_views_push(todos@, todo);
            }
            todos.push(todo);
        }
    }
    assert(all.take(all.len() as int) =~= all);
    todos
}

proof fn lemma_listed_push(entries: Seq<TodoEntryView>, entry: TodoEntryView)
    ensures
        listed(entries.push(entry)) == match entry.item() {
            Some(item) => listed(entries).push(item),
            None => listed(entries),
        },
{
    reveal(Seq::filter_map);
    assert(entries.push(entry).drop_last() =~= entries);
}

/// The todo list that a call of the tool `name` announces: that of `TodoWrite` with a
/// list under `todos` in which at least one entry has content.
pub open spec fn announced_todos(name: Seq<char>, arguments: Json) -> Option<Seq<TodoView>> {
    match arguments.todo_entries() {
        Some(entries) => if name == "TodoWrite"@ && listed(entries).len() > 0 {
            Some(listed(entries))
        } else {
            None
        },
        None => None,
    }
}

/// Reads the todo list that a call of the tool `name` announces, where it does.
pub fn announcement(name: &str, arguments: &Value) -> (todos: Option<Vec<Todo>>)
    ensures
        match todos {
            Some(list) => announced_todos(name@, json_of(*arguments)) == Some(views(list@)),
            None => announced_todos(name@, json_of(*arguments)) is None,
        },
{
    if !same_text(name, "TodoWrite") {
        return None;
    }
    match read_entries(arguments) {
        Some(entries) => {
            let todos = list_items(entries);
            if todos.len() > 0 {
                Some(todos)
            } else {
                None
            }
        },
        None => None,
    }
}

} // verus!
