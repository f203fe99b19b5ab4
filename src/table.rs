//! The todo table: records keyed by identifiers that are handed out in
//! increasing order and never reused.
use vstd::prelude::*;

use crate::text::{decimal, pad_left, push_padded_decimal};
pub use crate::todo::Todo;
use crate::todo::TodoView;

verus! {

/// The mathematical value of a table: what each identifier maps to, and
/// the identifier that the next added todo will get.
pub struct TableView {
    pub todos: Map<usize, TodoView>,
    pub next_id: nat,
}

impl TableView {
    /// The table after adding `t`: it gets the identifier `next_id`.
    pub open spec fn add(self, t: TodoView) -> TableView {
        TableView { todos: self.todos.insert(self.next_id as usize, t), next_id: self.next_id + 1 }
    }

    /// The table without the entry of `id`; the counter is kept.
    pub open spec fn remove(self, id: usize) -> TableView {
        TableView { todos: self.todos.remove(id), ..self }
    }

    /// The table with the entry of `id` set to `t`; the counter is kept.
    pub open spec fn set(self, id: usize, t: TodoView) -> TableView {
        TableView { todos: self.todos.insert(id, t), ..self }
    }
}

/// The table that `Table::new` gives.
pub open spec fn empty_table() -> TableView {
    TableView { todos: Map::empty(), next_id: 0 }
}

/// The table after adding each todo of `ts` to `v` in turn.
pub open spec fn add_all(v: TableView, ts: Seq<TodoView>) -> TableView
    decreases ts.len(),
{
    if ts.len() == 0 {
        v
    } else {
        add_all(v, ts.drop_last()).add(ts.last())
    }
}

/// Identifiers strictly increase along `s`.
pub open spec fn ids_increasing(s: Seq<(usize, TodoView)>) -> bool {
    forall|i: int, j: int| 0 <= i < j < s.len() ==> s[i].0 < s[j].0
}

/// Every identifier in `s` is below `bound`.
pub open spec fn ids_below(s: Seq<(usize, TodoView)>, bound: nat) -> bool {
    forall|i: int| 0 <= i < s.len() ==> (#[trigger] s[i].0 as nat) < bound
}

/// Entries and a counter that make a table: identifiers in increasing
/// order, each one below the counter.
pub open spec fn valid_parts(s: Seq<(usize, TodoView)>, next_id: nat) -> bool {
    ids_increasing(s) && ids_below(s, next_id)
}

/// Some entry of `s` has identifier `k`.
pub open spec fn has_id(s: Seq<(usize, TodoView)>, k: usize) -> bool {
    exists|i: int| 0 <= i < s.len() && s[i].0 == k
}

/// The map from identifier to todo that the entries `s` describe.
pub open spec fn todos_of(s: Seq<(usize, TodoView)>) -> Map<usize, TodoView> {
    Map::new(
        |k: usize| has_id(s, k),
        |k: usize| s[choose|i: int| 0 <= i < s.len() && s[i].0 == k].1,
    )
}

/// The table that entries `s` and counter `next_id` describe.
pub open spec fn table_of_parts(s: Seq<(usize, TodoView)>, next_id: nat) -> TableView {
    TableView { todos: todos_of(s), next_id }
}

/// The value of each entry.
pub open spec fn entries_view(s: Seq<(usize, Todo)>) -> Seq<(usize, TodoView)> {
    s.map_values(|e: (usize, Todo)| (e.0, e.1@))
}

/// The line of one entry: its identifier right-aligned in three places,
/// then the todo.
pub open spec fn entry_text(e: (usize, TodoView)) -> Seq<char> {
    pad_left(decimal(e.0 as nat), 3) + ". "@ + e.1.line() + "\n"@
}

/// The lines of all entries of `s`, in order.
pub open spec fn entries_text(s: Seq<(usize, TodoView)>) -> Seq<char>
    decreases s.len(),
{
    if s.len() == 0 {
        Seq::empty()
    } else {
        entries_text(s.drop_last()) + entry_text(s.last())
    }
}

/// How a table with entries `s` is listed: a notice when it is empty,
/// else a heading and one line per entry.
pub open spec fn table_text(s: Seq<(usize, TodoView)>) -> Seq<char> {
    if s.len() == 0 {
        "📝 Todo list is empty\n"@
    } else {
        "📝 Todo list:\n"@ + entries_text(s)
    }
}

/// A table of todos. Entries are kept in increasing order of identifier,
/// and every identifier is below `next_id`, so none is handed out twice.
pub struct Table {
    todos: Vec<(usize, Todo)>,
    next_id: usize,
}

impl View for Table {
    type V = TableView;

    closed spec fn view(&self) -> TableView {
        table_of_parts(self.listing(), self.next_id as nat)
    }
}

proof fn lemma_todos_of_at(s: Seq<(usize, TodoView)>, i: int)
    requires
        ids_increasing(s),
        0 <= i < s.len(),
    ensures
        todos_of(s).contains_key(s[i].0),
        todos_of(s)[s[i].0] == s[i].1,
{
    assert(has_id(s, s[i].0));
    let j = choose|j: int| 0 <= j < s.len() && s[j].0 == s[i].0;
    assert(j == i);
}

proof fn lemma_todos_of_push(s: Seq<(usize, TodoView)>, id: usize, t: TodoView)
    requires
        ids_increasing(s),
        ids_below(s, id as nat),
    ensures
        ids_increasing(s.push((id, t))),
        todos_of(s.push((id, t))) == todos_of(s).insert(id, t),
{
    let s2 = s.push((id, t));
    assert forall|i: int, j: int| 0 <= i < j < s2.len() implies s2[i].0 < s2[j].0 by {
        assert(s2[i] == s[i]);
        if j < s.len() {
            assert(s2[j] == s[j]);
        }
    }
    assert forall|k: usize| has_id(s2, k) <==> (has_id(s, k) || k == id) by {
        if has_id(s2, k) {
            let i = choose|i: int| 0 <= i < s2.len() && s2[i].0 == k;
            if i < s.len() {
                assert(s2[i] == s[i]);
            }
        }
        if has_id(s, k) {
            let i = choose|i: int| 0 <= i < s.len() && s[i].0 == k;
            assert(s2[i] == s[i]);
        }
        if k == id {
            assert(s2[s.len() as int].0 == id);
        }
    }
    assert forall|k: usize| #[trigger] todos_of(s2).contains_key(k) implies todos_of(s2)[k]
        == todos_of(s).insert(id, t)[k] by {
        if k == id {
            lemma_todos_of_at(s2, s.len() as int);
        } else {
            let i = choose|i: int| 0 <= i < s.len() && s[i].0 == k;
            assert(s2[i] == s[i]);
            lemma_todos_of_at(s, i);
            lemma_todos_of_at(s2, i);
        }
    }
    assert(todos_of(s2) =~= todos_of(s).insert(id, t));
}

proof fn lemma_todos_of_remove(s: Seq<(usize, TodoView)>, i: int)
    requires
        ids_increasing(s),
        0 <= i < s.len(),
    ensures
        ids_increasing(s.remove(i)),
        todos_of(s.remove(i)) == todos_of(s).remove(s[i].0),
{
    let s2 = s.remove(i);
    let id = s[i].0;
    assert forall|a: int| 0 <= a < s2.len() implies #[trigger] s2[a] == (if a < i {
        s[a]
    } else {
        s[a + 1]
    }) by {}
    assert forall|a: int, b: int| 0 <= a < b < s2.len() implies s2[a].0 < s2[b].0 by {
        let a2 = if a < i { a } else { a + 1 };
        let b2 = if b < i { b } else { b + 1 };
        assert(s2[a] == s[a2] && s2[b] == s[b2]);
    }
    assert forall|k: usize| has_id(s2, k) <==> (has_id(s, k) && k != id) by {
        if has_id(s2, k) {
            let a = choose|a: int| 0 <= a < s2.len() && s2[a].0 == k;
            let a2 = if a < i { a } else { a + 1 };
            assert(s2[a] == s[a2]);
        }
        if has_id(s, k) && k != id {
            let a = choose|a: int| 0 <= a < s.len() && s[a].0 == k;
            if a < i {
                assert(s2[a] == s[a]);
            } else {
                assert(s2[a - 1] == s[a]);
            }
        }
    }
    assert forall|k: usize| #[trigger] todos_of(s2).contains_key(k) implies todos_of(s2)[k]
        == todos_of(s).remove(id)[k] by {
        let a = choose|a: int| 0 <= a < s2.len() && s2[a].0 == k;
        let a2 = if a < i { a } else { a + 1 };
        assert(s2[a] == s[a2]);
        lemma_todos_of_at(s, a2);
        lemma_todos_of_at(s2, a);
    }
    assert(todos_of(s2) =~= todos_of(s).remove(id));
}

proof fn lemma_todos_of_update(s: Seq<(usize, TodoView)>, i: int, t: TodoView)
    requires
        ids_increasing(s),
        0 <= i < s.len(),
    ensures
        ids_increasing(s.update(i, (s[i].0, t))),
        todos_of(s.update(i, (s[i].0, t))) == todos_of(s).insert(s[i].0, t),
{
    let s2 = s.update(i, (s[i].0, t));
    let id = s[i].0;
    assert forall|a: int, b: int| 0 <= a < b < s2.len() implies s2[a].0 < s2[b].0 by {
        assert(s2[a].0 == s[a].0 && s2[b].0 == s[b].0);
    }
    assert forall|k: usize| has_id(s2, k) <==> has_id(s, k) by {
        if has_id(s2, k) {
            let a = choose|a: int| 0 <= a < s2.len() && s2[a].0 == k;
            assert(s[a].0 == k);
        }
        if has_id(s, k) {
            let a = choose|a: int| 0 <= a < s.len() && s[a].0 == k;
            assert(s2[a].0 == k);
        }
    }
    assert forall|k: usize| #[trigger] todos_of(s2).contains_key(k) implies todos_of(s2)[k]
        == todos_of(s).insert(id, t)[k] by {
        let a = choose|a: int| 0 <= a < s2.len() && s2[a].0 == k;
        lemma_todos_of_at(s, a);
        lemma_todos_of_at(s2, a);
    }
    assert(todos_of(s2) =~= todos_of(s).insert(id, t));
}

impl Table {
    /// The entries, in increasing order of identifier.
    pub closed spec fn listing(&self) -> Seq<(usize, TodoView)> {
        entries_view(self.todos@)
    }

    /// Identifiers increase along the entries and stay below the counter.
    pub closed spec fn wf(&self) -> bool {
        valid_parts(self.listing(), self.next_id as nat)
    }

    /// An empty table whose first identifier will be 0.
    pub fn new() -> (r: Table)
        ensures
            r.wf(),
            r@ == empty_table(),
            r.listing() == Seq::<(usize, TodoView)>::empty(),
    {
        let r = Table { todos: Vec::new(), next_id: 0 };
        assert(r.listing() =~= Seq::<(usize, TodoView)>::empty());
        assert(r@.todos =~= Map::<usize, TodoView>::empty());
        r
    }

    /// Adds `todo` under the identifier `next_id`, returns that identifier,
    /// and moves the counter on.
    pub fn add_todo(&mut self, todo: Todo) -> (r: usize)
        requires
            old(self).wf(),
            old(self)@.next_id < usize::MAX,
        ensures
            final(self).wf(),
            r as nat == old(self)@.next_id,
            final(self)@ == old(self)@.add(todo@),
            final(self).listing() == old(self).listing().push((r, todo@)),
    {
        let id = self.next_id;
        proof {
            lemma_todos_of_push(self.listing(), id, todo@);
        }
        let ghost t = todo@;
        self.todos.push((id, todo));
        self.next_id = id + 1;
        assert(self.listing() =~= old(self).listing().push((id, t)));
        id
    }

    /// Removes the entry of `id` and returns its todo, or `None` where
    /// there is no such entry.
    pub fn remove_todo_by_id(&mut self, id: usize) -> (r: Option<Todo>)
        requires
            old(self).wf(),
        ensures
            final(self).wf(),
            match r {
                Some(t) => old(self)@.todos.contains_key(id) && t@ == old(self)@.todos[id]
                    && final(self)@ == old(self)@.remove(id),
                None => !old(self)@.todos.contains_key(id) && final(self)@ == old(self)@,
            },
    {
        match self.find_index(id) {
            Some(i) => {
                proof {
                    lemma_todos_of_at(self.listing(), i as int);
                    lemma_todos_of_remove(self.listing(), i as int);
                }
                let e = self.todos.remove(i);
                assert(self.listing() =~= old(self).listing().remove(i as int));
                Some(e.1)
            },
            None => None,
        }
    }

    /// The todo of `id`, to change in place, or `None` where there is no
    /// such entry. Whatever is done to it lands in the table.
    pub fn get_todo_by_id(&mut self, id: usize) -> (r: Option<&mut Todo>)
        requires
            old(self).wf(),
        ensures
            match r {
                Some(t) => old(self)@.todos.contains_key(id) && t@ == old(self)@.todos[id]
                    && final(self).wf() && final(self)@ == old(self)@.set(id, final(t)@),
                None => !old(self)@.todos.contains_key(id) && *final(self) == *old(self),
            },
    {
        match self.find_index(id) {
            Some(i) => {
                proof {
                    lemma_todos_of_at(self.listing(), i as int);
                }
                let ghost before = self.todos@;
                let t = &mut self.todos[i].1;
                proof {
                    lemma_todos_of_update(entries_view(before), i as int, final(t)@);
                }
                assert(entries_view(before.update(i as int, (id, *final(t)))) =~= entries_view(
                    before,
                ).update(i as int, (id, final(t)@)));
                Some(t)
            },
            None => None,
        }
    }

    /// Gives the todo of `id` the title and description of `new_todo`,
    /// keeping its status, and returns it; `Err("Todo not found")`, with
    /// the table unchanged, where there is no such entry.
    pub fn modify_todo_by_id(&mut self, id: usize, new_todo: Todo) -> (r: Result<&Todo, String>)
        requires
            old(self).wf(),
        ensures
            final(self).wf(),
            old(self)@.todos.contains_key(id) ==> {
                let t = TodoView {
                    title: new_todo.title@,
                    description: new_todo.description@,
                    ..old(self)@.todos[id]
                };
                &&& (r matches Ok(m) && m@ == t)
                &&& final(self)@ == old(self)@.set(id, t)
            },
            !old(self)@.todos.contains_key(id) ==> (r matches Err(e) && e@ == "Todo not found"@)
                && final(self)@ == old(self)@,
    {
        self.modify_at(id, new_todo, "Todo not found")
    }

    /// The same change as `modify_todo_by_id`, failing with `"Not found"`.
    pub fn modify_todo(&mut self, id: usize, new_todo: Todo) -> (r: Result<&Todo, String>)
        requires
            old(self).wf(),
        ensures
            final(self).wf(),
            old(self)@.todos.contains_key(id) ==> {
                let t = TodoView {
                    title: new_todo.title@,
                    description: new_todo.description@,
                    ..old(self)@.todos[id]
                };
                &&& (r matches Ok(m) && m@ == t)
                &&& final(self)@ == old(self)@.set(id, t)
            },
            !old(self)@.todos.contains_key(id) ==> (r matches Err(e) && e@ == "Not found"@)
                && final(self)@ == old(self)@,
    {
        self.modify_at(id, new_todo, "Not found")
    }

    fn modify_at<'a>(&'a mut self, id: usize, new_todo: Todo, missing: &str) -> (r: Result<
        &'a Todo,
        String,
    >)
        requires
            old(self).wf(),
        ensures
            final(self).wf(),
            old(self)@.todos.contains_key(id) ==> {
                let t = TodoView {
                    title: new_todo.title@,
                    description: new_todo.description@,
                    ..old(self)@.todos[id]
                };
                &&& (r matches Ok(m) && m@ == t)
                &&& final(self)@ == old(self)@.set(id, t)
            },
            !old(self)@.todos.contains_key(id) ==> (r matches Err(e) && e@ == missing@)
                && final(self)@ == old(self)@,
    {
        match self.find_index(id) {
            Some(i) => {
                proof {
                    lemma_todos_of_at(self.listing(), i as int);
                }
                let Todo { title, description, status: _ } = new_todo;
                let t = &mut self.todos[i].1;
                t.modify_title(title);
                t.modify_description(description);
                let ghost changed = self.todos@[i as int].1@;
                proof {
                    lemma_todos_of_update(old(self).listing(), i as int, changed);
                }
                assert(self.listing() =~= old(self).listing().update(i as int, (id, changed)));
                Ok(&self.todos[i].1)
            },
            None => Err(String::from_str(missing)),
        }
    }

    /// The todo of `id`, or `None` where there is no such entry.
    pub fn get_todos(&self, id: usize) -> (r: Option<&Todo>)
        requires
            self.wf(),
        ensures
            match r {
                Some(t) => self@.todos.contains_key(id) && t@ == self@.todos[id],
                None => !self@.todos.contains_key(id),
            },
    {
        match self.find_index(id) {
            Some(i) => {
                proof {
                    lemma_todos_of_at(self.listing(), i as int);
                }
                Some(&self.todos[i].1)
            },
            None => None,
        }
    }

    /// The entries in increasing order of identifier, and the counter:
    /// what a stored table holds.
    pub fn to_parts(&self) -> (r: (Vec<(usize, Todo)>, usize))
        requires
            self.wf(),
        ensures
            entries_view(r.0@) == self.listing(),
            r.1 as nat == self@.next_id,
            valid_parts(entries_view(r.0@), r.1 as nat),
    {
        let mut out: Vec<(usize, Todo)> = Vec::new();
        let mut i: usize = 0;
        while i < self.todos.len()
            invariant
                i <= self.todos@.len(),
                out@.len() == i,
                entries_view(out@) == self.listing().take(i as int),
            decreases self.todos@.len() - i,
        {
            let e = &self.todos[i];
            let copy = Todo {
                title: e.1.title.clone(),
                description: e.1.description.clone(),
                status: e.1.status,
            };
            assert(copy@ == e.1@);
            let ghost prev = out@;
            out.push((e.0, copy));
            assert forall|j: int| 0 <= j < i implies #[trigger] entries_view(out@)[j]
                == entries_view(prev)[j] by {
                assert(out@[j] == prev[j]);
            }
            assert(entries_view(out@) =~= self.listing().take(i + 1));
            i = i + 1;
        }
        assert(self.listing().take(i as int) =~= self.listing());
        (out, self.next_id)
    }

    /// The table that stored entries and a counter describe, or `None`
    /// where they cannot make one: an identifier out of increasing order,
    /// or one not below the counter.
    pub fn from_parts(entries: Vec<(usize, Todo)>, next_id: usize) -> (r: Option<Table>)
        ensures
            r is Some <==> valid_parts(entries_view(entries@), next_id as nat),
            r matches Some(t) ==> t.wf() && t.listing() == entries_view(entries@)
                && t@ == table_of_parts(entries_view(entries@), next_id as nat),
    {
        let ghost s = entries_view(entries@);
        let mut i: usize = 0;
        while i < entries.len()
            invariant
                s == entries_view(entries@),
                i <= entries@.len(),
                ids_increasing(s.take(i as int)),
                ids_below(s.take(i as int), next_id as nat),
            decreases entries@.len() - i,
        {
            let id = entries[i].0;
            if id >= next_id {
                assert(s[i as int].0 == id);
                return None;
            }
            if i > 0 && entries[i - 1].0 >= id {
                assert(s[i - 1].0 >= s[i as int].0);
                return None;
            }
            assert forall|a: int, b: int| 0 <= a < b < i + 1 implies s[a].0 < s[b].0 by {
                assert(s.take(i as int)[a] == s[a]);
                if b < i {
                    assert(s.take(i as int)[b] == s[b]);
                } else if a < i - 1 {
                    assert(s.take(i as int)[i - 1] == s[i - 1]);
                }
            }
            assert(ids_increasing(s.take(i + 1)));
            assert forall|a: int| 0 <= a < i + 1 implies (#[trigger] s.take(i + 1)[a].0 as nat)
                < next_id as nat by {
                if a < i {
                    assert(s.take(i as int)[a] == s[a]);
                }
            }
            i = i + 1;
        }
        assert(s.take(i as int) =~= s);
        Some(Table { todos: entries, next_id })
    }

    /// The table as text, entries in increasing order of identifier.
    pub fn render(&self) -> (r: String)
        ensures
            r@ == table_text(self.listing()),
    {
        if self.todos.len() == 0 {
            return String::from_str("📝 Todo list is empty\n");
        }
        let mut out = String::from_str("📝 Todo list:\n");
        let mut i: usize = 0;
        while i < self.todos.len()
            invariant
                i <= self.todos@.len(),
                self.todos@.len() > 0,
                out@ == "📝 Todo list:\n"@ + entries_text(self.listing().take(i as int)),
            decreases self.todos@.len() - i,
        {
            let e = &self.todos[i];
            push_padded_decimal(&mut out, e.0, 3);
            out.append(". ");
            let line = e.1.render();
            out.append(line.as_str());
            out.append("\n");
            let ghost l = self.listing();
            assert(l.take(i + 1).drop_last() =~= l.take(i as int));
            assert(l.take(i + 1).last() == l[i as int]);
            assert(out@ =~= "📝 Todo list:\n"@ + entries_text(l.take(i + 1)));
            i = i + 1;
        }
        assert(self.listing().take(i as int) =~= self.listing());
        out
    }

    /// The identifier that the next added todo will get.
    pub fn next_id(&self) -> (r: usize)
        ensures
            r as nat == self@.next_id,
    {
        self.next_id
    }

    fn find_index(&self, id: usize) -> (r: Option<usize>)
        ensures
            match r {
                Some(i) => i < self.todos@.len() && self.todos@[i as int].0 == id,
                None => !has_id(self.listing(), id),
            },
    {
        let mut i: usize = 0;
        while i < self.todos.len()
            invariant
                i <= self.todos@.len(),
                forall|j: int| 0 <= j < i ==> self.todos@[j].0 != id,
            decreases self.todos@.len() - i,
        {
            if self.todos[i].0 == id {
                return Some(i);
            }
            i = i + 1;
        }
        None
    }
}

proof fn lemma_add_all_next_id(v: TableView, ts: Seq<TodoView>)
    ensures
        add_all(v, ts).next_id == v.next_id + ts.len(),
    decreases ts.len(),
{
    if ts.len() > 0 {
        lemma_add_all_next_id(v, ts.drop_last());
    }
}

/// Adding todos one after another hands out the counter's value each time:
/// the todo at position `i` gets `next_id + i`, so identifiers strictly
/// increase, and from a new table they are 0, 1, 2, ...
pub proof fn lemma_add_ids_increase(v: TableView, ts: Seq<TodoView>)
    ensures
        forall|i: int|
            0 <= i <= ts.len() ==> #[trigger] add_all(v, ts.take(i)).next_id == v.next_id + i,
        forall|i: int, j: int|
            0 <= i < j <= ts.len() ==> #[trigger] add_all(v, ts.take(i)).next_id < #[trigger] add_all(
                v,
                ts.take(j),
            ).next_id,
        forall|i: int| 0 <= i <= ts.len() ==> #[trigger] add_all(empty_table(), ts.take(i)).next_id == i,
{
    assert forall|i: int| 0 <= i <= ts.len() implies #[trigger] add_all(v, ts.take(i)).next_id
        == v.next_id + i by {
        lemma_add_all_next_id(v, ts.take(i));
    }
    assert forall|i: int| 0 <= i <= ts.len() implies #[trigger] add_all(empty_table(), ts.take(i)).next_id
        == i by {
        lemma_add_all_next_id(empty_table(), ts.take(i));
    }
}

/// An identifier at or past the counter was never handed out: a
/// well-formed table has no entry for it, so removing, changing or looking
/// it up finds nothing.
pub proof fn lemma_unissued_absent(t: &Table, id: usize)
    requires
        t.wf(),
        id as nat >= t@.next_id,
    ensures
        !t@.todos.contains_key(id),
{
    if t@.todos.contains_key(id) {
        let i = choose|i: int| 0 <= i < t.listing().len() && t.listing()[i].0 == id;
        assert((t.listing()[i].0 as nat) < t@.next_id);
    }
}

/// Removing an entry takes out exactly that entry: a second removal of the
/// same identifier finds nothing, and every other entry stays as it was.
pub proof fn lemma_remove_exactly(v: TableView, id: usize)
    ensures
        !v.remove(id).todos.contains_key(id),
        v.remove(id).remove(id) == v.remove(id),
        v.remove(id).next_id == v.next_id,
        forall|k: usize|
            k != id ==> (#[trigger] v.remove(id).todos.contains_key(k) == v.todos.contains_key(k)),
        forall|k: usize|
            k != id && v.todos.contains_key(k) ==> #[trigger] v.remove(id).todos[k] == v.todos[k],
{
    assert(v.remove(id).remove(id).todos =~= v.remove(id).todos);
}

/// The listing of a well-formed table enumerates its entries in increasing
/// order of identifier.
pub proof fn lemma_listing_enumerates(t: &Table)
    requires
        t.wf(),
    ensures
        ids_increasing(t.listing()),
        forall|i: int|
            0 <= i < t.listing().len() ==> t@.todos.contains_key(#[trigger] t.listing()[i].0)
                && t@.todos[t.listing()[i].0] == t.listing()[i].1,
        forall|k: usize| #[trigger] t@.todos.contains_key(k) <==> has_id(t.listing(), k),
{
    assert forall|i: int| 0 <= i < t.listing().len() implies t@.todos.contains_key(
        #[trigger] t.listing()[i].0,
    ) && t@.todos[t.listing()[i].0] == t.listing()[i].1 by {
        lemma_todos_of_at(t.listing(), i);
    }
}

/// Taking a well-formed table apart and putting the parts back together
/// gives the same table: the parts are valid, and they describe it.
pub proof fn lemma_parts_round_trip(t: &Table)
    requires
        t.wf(),
    ensures
        valid_parts(t.listing(), t@.next_id),
        table_of_parts(t.listing(), t@.next_id) == t@,
{
}

} // verus!
