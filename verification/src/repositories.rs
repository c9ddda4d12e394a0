use vstd::prelude::*;

use crate::errors::RepositoryError;
use crate::model::{
    created_todo, lemma_store_create_properties, lemma_store_delete_properties,
    lemma_store_index_of, lemma_store_update_properties, store_at, store_contains, store_create,
    store_delete, store_index, store_init, store_update, store_wf, StoreModel,
};
use crate::todos::{merged, CreateTodo, Todo, TodoView, UpdateTodo};

verus! {

/// The capability set every todo store offers. All five operations are
/// specified against the store's mathematical state, so any
/// implementation is observably interchangeable: the same
/// success and failure conditions, the same merge-on-none update
/// semantics.
pub trait TodoRepository: Sized {
    /// The mathematical state this store currently represents.
    spec fn model(&self) -> StoreModel;

    /// Creation never fails: it stores a record carrying the fresh
    /// identifier and the given text, not yet completed, and hands back
    /// a copy of it. The bound on the fresh identifier is the machine
    /// width of identifiers, nothing more.
    fn create(&mut self, payload: CreateTodo) -> (todo: Todo)
        requires
            store_wf(old(self).model()),
            old(self).model().fresh < i32::MAX as int,
        ensures
            store_wf(final(self).model()),
            final(self).model() == store_create(old(self).model(), payload.text@),
            todo@ == created_todo(old(self).model(), payload.text@),
            !store_contains(old(self).model(), todo@.id),
            store_contains(final(self).model(), todo@.id),
            store_at(final(self).model(), todo@.id) == todo@,
    ;

    /// Finding hands back a copy of the record carrying `id`, and
    /// reports exactly `NotFound(id)` when no record carries it.
    fn find(&self, id: i32) -> (r: Result<Todo, RepositoryError>)
        requires
            store_wf(self.model()),
        ensures
            match r {
                Ok(todo) => store_contains(self.model(), id as int) && todo@ == store_at(
                    self.model(),
                    id as int,
                ),
                Err(e) => !store_contains(self.model(), id as int) && e
                    == RepositoryError::NotFound(id),
            },
    ;

    /// Listing hands back a copy of every stored record, in the order
    /// the store keeps them.
    fn all(&self) -> (todos: Vec<Todo>)
        ensures
            todos@.len() == self.model().todos.len(),
            forall|i: int|
                #![trigger todos@[i]]
                0 <= i < todos@.len() ==> todos@[i]@ == self.model().todos[i],
    ;

    /// Updating merges the payload into the record carrying `id` — an
    /// absent payload field keeps the stored one — and hands back a
    /// copy of the merged record; when no record carries `id` it
    /// reports exactly `NotFound(id)` and changes nothing.
    fn update(&mut self, id: i32, payload: UpdateTodo) -> (r: Result<Todo, RepositoryError>)
        requires
            store_wf(old(self).model()),
        ensures
            store_wf(final(self).model()),
            final(self).model() == store_update(old(self).model(), id as int, payload@),
            match r {
                Ok(todo) => store_contains(old(self).model(), id as int) && todo@ == merged(
                    store_at(old(self).model(), id as int),
                    payload@,
                ) && store_contains(final(self).model(), id as int) && store_at(
                    final(self).model(),
                    id as int,
                ) == todo@,
                Err(e) => !store_contains(old(self).model(), id as int) && e
                    == RepositoryError::NotFound(id),
            },
    ;

    /// Deletion removes the record carrying `id`; when no record
    /// carries it, it reports exactly `NotFound(id)` and changes
    /// nothing.
    fn delete(&mut self, id: i32) -> (r: Result<(), RepositoryError>)
        requires
            store_wf(old(self).model()),
        ensures
            store_wf(final(self).model()),
            final(self).model() == store_delete(old(self).model(), id as int),
            !store_contains(final(self).model(), id as int),
            match r {
                Ok(_) => store_contains(old(self).model(), id as int),
                Err(e) => !store_contains(old(self).model(), id as int) && e
                    == RepositoryError::NotFound(id),
            },
    ;
}

/// The records a vector of todos stands for.
pub open spec fn seq_views(s: Seq<Todo>) -> Seq<TodoView> {
    s.map_values(|t: Todo| t@)
}

proof fn lemma_seq_views_push(s: Seq<Todo>, t: Todo)
    ensures
        seq_views(s.push(t)) == seq_views(s).push(t@),
{
    assert(seq_views(s.push(t)) =~= seq_views(s).push(t@));
}

proof fn lemma_seq_views_update(s: Seq<Todo>, i: int, t: Todo)
    requires
        0 <= i < s.len(),
    ensures
        seq_views(s.update(i, t)) == seq_views(s).update(i, t@),
{
    assert(seq_views(s.update(i, t)) =~= seq_views(s).update(i, t@));
}

proof fn lemma_seq_views_remove(s: Seq<Todo>, i: int)
    requires
        0 <= i < s.len(),
    ensures
        seq_views(s.remove(i)) == seq_views(s).remove(i),
{
    assert(seq_views(s.remove(i)) =~= seq_views(s).remove(i));
}

/// The in-memory store: the records, kept in strictly increasing
/// identifier order, and the identifier the next creation hands out.
/// The identifier counter only ever grows, so an identifier freed by a
/// deletion is never handed out again.
pub struct TodoRepositoryForMemory {
    todos: Vec<Todo>,
    next_id: i32,
}

impl TodoRepositoryForMemory {
    /// A new store is empty and hands out identifier 1 first.
    pub fn new() -> (repo: TodoRepositoryForMemory)
        ensures
            repo.model() == store_init(),
            store_wf(repo.model()),
    {
        let repo = TodoRepositoryForMemory { todos: Vec::new(), next_id: 1 };
        proof {
            assert(repo.model().todos =~= store_init().todos);
            assert(repo.model() =~= store_init());
        }
        repo
    }

    /// Whether a creation can still be served: the identifier counter
    /// has not yet reached its machine width.
    pub fn has_capacity(&self) -> (b: bool)
        ensures
            b <==> self.model().fresh < i32::MAX as int,
    {
        self.next_id < i32::MAX
    }

    /// The position of the record carrying `id`, when one does.
    fn position_of(&self, id: i32) -> (r: Option<usize>)
        requires
            store_wf(self.model()),
        ensures
            match r {
                Some(i) => {
                    &&& (i as int) < self.model().todos.len()
                    &&& store_contains(self.model(), id as int)
                    &&& i as int == store_index(self.model(), id as int)
                },
                None => !store_contains(self.model(), id as int),
            },
    {
        let n = self.todos.len();
        let mut i: usize = 0;
        while i < n
            invariant
                store_wf(self.model()),
                n == self.todos@.len(),
                i <= n,
                forall|j: int| #![trigger self.todos@[j]] 0 <= j < i ==> self.todos@[j].id != id,
            decreases n - i,
        {
            if self.todos[i].id == id {
                proof {
                    assert(self.model().todos[i as int].id == id as int);
                    lemma_store_index_of(self.model(), i as int);
                }
                return Some(i);
            }
            i = i + 1;
        }
        proof {
            assert forall|j: int|
                #![trigger self.model().todos[j]]
                0 <= j < self.model().todos.len() implies self.model().todos[j].id
                != id as int by {
                assert(self.todos@[j].id != id);
            }
            assert(!store_contains(self.model(), id as int));
        }
        None
    }
}

impl Default for TodoRepositoryForMemory {
    fn default() -> (repo: TodoRepositoryForMemory)
        ensures
            repo.model() == store_init(),
            store_wf(repo.model()),
    {
        TodoRepositoryForMemory::new()
    }
}

impl TodoRepository for TodoRepositoryForMemory {
    closed spec fn model(&self) -> StoreModel {
        StoreModel { todos: seq_views(self.todos@), fresh: self.next_id as int }
    }

    fn create(&mut self, payload: CreateTodo) -> (todo: Todo) {
        let id = self.next_id;
        let text_copy = payload.text.clone();
        let todo = Todo { id, text: payload.text, completed: false };
        let stored = Todo { id, text: text_copy, completed: false };
        self.todos.push(stored);
        self.next_id = id + 1;
        proof {
            assert(stored@ == created_todo(old(self).model(), payload.text@));
            lemma_seq_views_push(old(self).todos@, stored);
            assert(self.model().todos =~= store_create(
                old(self).model(),
                payload.text@,
            ).todos);
            assert(self.model() =~= store_create(old(self).model(), payload.text@));
            lemma_store_create_properties(old(self).model(), payload.text@);
        }
        todo
    }

    fn find(&self, id: i32) -> (r: Result<Todo, RepositoryError>) {
        match self.position_of(id) {
            Some(i) => Ok(self.todos[i].clone()),
            None => Err(RepositoryError::NotFound(id)),
        }
    }

    fn all(&self) -> (todos: Vec<Todo>) {
        let mut out: Vec<Todo> = Vec::new();
        let n = self.todos.len();
        let mut i: usize = 0;
        while i < n
            invariant
                n == self.todos@.len(),
                i <= n,
                out@.len() == i,
                forall|j: int|
                    #![trigger out@[j]]
                    0 <= j < i ==> out@[j]@ == self.model().todos[j],
            decreases n - i,
        {
            let t = self.todos[i].clone();
            out.push(t);
            i = i + 1;
        }
        out
    }

    fn update(&mut self, id: i32, payload: UpdateTodo) -> (r: Result<Todo, RepositoryError>) {
        let ghost m0 = self.model();
        match self.position_of(id) {
            Some(i) => {
                let new_text = match payload.text {
                    Some(t) => t,
                    None => self.todos[i].text.clone(),
                };
                let new_completed = match payload.completed {
                    Some(c) => c,
                    None => self.todos[i].completed,
                };
                let merged_todo = Todo { id: self.todos[i].id, text: new_text, completed: new_completed };
                let result = merged_todo.clone();
                self.todos[i] = merged_todo;
                proof {
                    assert(result@ == merged(store_at(m0, id as int), payload@));
                    lemma_seq_views_update(old(self).todos@, i as int, result);
                    assert(self.model().todos =~= store_update(m0, id as int, payload@).todos);
                    assert(self.model() =~= store_update(m0, id as int, payload@));
                    lemma_store_update_properties(m0, id as int, payload@);
                }
                Ok(result)
            },
            None => Err(RepositoryError::NotFound(id)),
        }
    }

    fn delete(&mut self, id: i32) -> (r: Result<(), RepositoryError>) {
        let ghost m0 = self.model();
        match self.position_of(id) {
            Some(i) => {
                let _removed = self.todos.remove(i);
                proof {
                    lemma_seq_views_remove(old(self).todos@, i as int);
                    assert(self.model().todos =~= store_delete(m0, id as int).todos);
                    assert(self.model() =~= store_delete(m0, id as int));
                    lemma_store_delete_properties(m0, id as int);
                }
                Ok(())
            },
            None => Err(RepositoryError::NotFound(id)),
        }
    }
}

} // verus!
