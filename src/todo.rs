//! A single todo record and its status.
use vstd::prelude::*;

verus! {

/// Where a todo stands. Any status can be reached from any other.
#[derive(Debug, Clone, Copy, PartialEq, Eq, Structural)]
pub enum TodoStatus {
    Unfinished,
    Finished,
    Forgave,
}

/// The label shown for a status.
pub open spec fn status_label(s: TodoStatus) -> Seq<char> {
    match s {
        TodoStatus::Unfinished => "Unfinished"@,
        TodoStatus::Finished => "Finished"@,
        TodoStatus::Forgave => "Abandoned"@,
    }
}

impl TodoStatus {
    /// The label shown for this status.
    pub fn label(&self) -> (r: &'static str)
        ensures
            r@ == status_label(*self),
    {
        match self {
            TodoStatus::Unfinished => "Unfinished",
            TodoStatus::Finished => "Finished",
            TodoStatus::Forgave => "Abandoned",
        }
    }
}

/// The mathematical value of a todo: its two texts and its status.
pub struct TodoView {
    pub title: Seq<char>,
    pub description: Seq<char>,
    pub status: TodoStatus,
}

impl TodoView {
    /// The same todo with another status.
    pub open spec fn with_status(self, s: TodoStatus) -> TodoView {
        TodoView { status: s, ..self }
    }

    /// How a todo is shown: `[<label>] <title> (<description>)`.
    pub open spec fn line(self) -> Seq<char> {
        "["@ + status_label(self.status) + "] "@ + self.title + " ("@ + self.description + ")"@
    }
}

/// A freshly created todo.
pub open spec fn fresh_todo(title: Seq<char>, description: Seq<char>) -> TodoView {
    TodoView { title, description, status: TodoStatus::Unfinished }
}

/// A task with a title, a description and a status. It carries no
/// identifier: the table that holds it assigns one.
#[derive(Debug, PartialEq)]
pub struct Todo {
    pub title: String,
    pub description: String,
    pub status: TodoStatus,
}

impl View for Todo {
    type V = TodoView;

    open spec fn view(&self) -> TodoView {
        TodoView { title: self.title@, description: self.description@, status: self.status }
    }
}

impl Todo {
    /// A new todo, not yet finished.
    pub fn new(title: String, description: String) -> (r: Todo)
        ensures
            r@ == fresh_todo(title@, description@),
    {
        Todo { title, description, status: TodoStatus::Unfinished }
    }

    /// A copy of the title.
    pub fn get_title(&self) -> (r: String)
        ensures
            r@ == self.title@,
    {
        self.title.clone()
    }

    /// A copy of the description.
    pub fn get_description(&self) -> (r: String)
        ensures
            r@ == self.description@,
    {
        self.description.clone()
    }

    /// The current status.
    pub fn get_status(&self) -> (r: &TodoStatus)
        ensures
            *r == self.status,
    {
        &self.status
    }

    /// Replaces the title; the rest is kept.
    pub fn modify_title(&mut self, title: String)
        ensures
            final(self)@ == (TodoView { title: title@, ..old(self)@ }),
    {
        self.title = title;
    }

    /// Replaces the description; the rest is kept.
    pub fn modify_description(&mut self, desc: String)
        ensures
            final(self)@ == (TodoView { description: desc@, ..old(self)@ }),
    {
        self.description = desc;
    }

    /// Marks the todo as done, whatever its status was.
    pub fn finish(&mut self)
        ensures
            final(self)@ == old(self)@.with_status(TodoStatus::Finished),
    {
        self.status = TodoStatus::Finished;
    }

    /// Marks the todo as abandoned, whatever its status was.
    pub fn forgive(&mut self)
        ensures
            final(self)@ == old(self)@.with_status(TodoStatus::Forgave),
    {
        self.status = TodoStatus::Forgave;
    }

    /// Marks the todo as not done, whatever its status was.
    pub fn unfinish(&mut self)
        ensures
            final(self)@ == old(self)@.with_status(TodoStatus::Unfinished),
    {
        self.status = TodoStatus::Unfinished;
    }

    /// The todo as one line of text: `[<label>] <title> (<description>)`.
    pub fn render(&self) -> (r: String)
        ensures
            r@ == self@.line(),
    {
        let mut s = String::from_str("[");
        s.append(self.status.label());
        s.append("] ");
        s.append(self.title.as_str());
        s.append(" (");
        s.append(self.description.as_str());
        s.append(")");
        proof {
            reveal_strlit("[");
        }
        s
    }
}

/// A new todo is unfinished, whatever its title and description.
pub proof fn lemma_new_is_unfinished(title: Seq<char>, description: Seq<char>)
    ensures
        fresh_todo(title, description).status == TodoStatus::Unfinished,
        fresh_todo(title, description).title == title,
        fresh_todo(title, description).description == description,
{
}

/// Status changes overwrite one another: after `finish`, `unfinish` and
/// `forgive` in turn, the todo is abandoned, and only its status changed.
pub proof fn lemma_last_transition_wins(t: TodoView)
    ensures
        t.with_status(TodoStatus::Finished).with_status(TodoStatus::Unfinished).with_status(
            TodoStatus::Forgave,
        ) == t.with_status(TodoStatus::Forgave),
        t.with_status(TodoStatus::Forgave).status == TodoStatus::Forgave,
        t.with_status(TodoStatus::Forgave).title == t.title,
        t.with_status(TodoStatus::Forgave).description == t.description,
{
}

/// Each status change is idempotent: doing it twice is doing it once.
pub proof fn lemma_transition_idempotent(t: TodoView, s: TodoStatus)
    ensures
        t.with_status(s).with_status(s) == t.with_status(s),
{
}

} // verus!
