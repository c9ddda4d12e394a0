use vstd::prelude::*;

use crate::todos::{merged, TodoView, UpdateTodoView};

verus! {

/// The mathematical state of a todo store: the stored records, kept in
/// strictly increasing identifier order, and the identifier the next
/// creation will hand out.
#[verifier::ext_equal]
pub struct StoreModel {
    pub todos: Seq<TodoView>,
    pub fresh: int,
}

/// A store starts empty and hands out 1 first.
pub open spec fn store_init() -> StoreModel {
    StoreModel { todos: Seq::empty(), fresh: 1 }
}

/// Well-formedness: identifiers strictly increase along the sequence
/// (so no identifier repeats), every stored identifier is positive and
/// below the next fresh one, and the fresh identifier is positive.
pub open spec fn store_wf(m: StoreModel) -> bool {
    &&& forall|i: int, j: int|
        #![trigger m.todos[i], m.todos[j]]
        0 <= i < j < m.todos.len() ==> m.todos[i].id < m.todos[j].id
    &&& forall|i: int|
        #![trigger m.todos[i]]
        0 <= i < m.todos.len() ==> 0 < m.todos[i].id < m.fresh
    &&& 1 <= m.fresh
}

/// Whether some stored record carries `id`.
pub open spec fn store_contains(m: StoreModel, id: int) -> bool {
    exists|i: int| 0 <= i < m.todos.len() && (#[trigger] m.todos[i]).id == id
}

/// The position of the record carrying `id`; meaningful only when
/// `store_contains(m, id)` holds (unique there, by well-formedness).
pub open spec fn store_index(m: StoreModel, id: int) -> int {
    choose|i: int| 0 <= i < m.todos.len() && (#[trigger] m.todos[i]).id == id
}

/// The stored record carrying `id`; meaningful only when
/// `store_contains(m, id)` holds.
pub open spec fn store_at(m: StoreModel, id: int) -> TodoView {
    m.todos[store_index(m, id)]
}

/// The record a creation from `m` with `text` hands back: the fresh
/// identifier, the given text, not completed.
pub open spec fn created_todo(m: StoreModel, text: Seq<char>) -> TodoView {
    TodoView { id: m.fresh, text, completed: false }
}

/// Creation appends the new record and advances the fresh identifier.
pub open spec fn store_create(m: StoreModel, text: Seq<char>) -> StoreModel {
    StoreModel { todos: m.todos.push(created_todo(m, text)), fresh: m.fresh + 1 }
}

/// An update merges the payload into the record carrying `id`, when
/// there is one, and otherwise changes nothing.
pub open spec fn store_update(m: StoreModel, id: int, upd: UpdateTodoView) -> StoreModel {
    if store_contains(m, id) {
        StoreModel {
            todos: m.todos.update(store_index(m, id), merged(store_at(m, id), upd)),
            fresh: m.fresh,
        }
    } else {
        m
    }
}

/// A deletion removes the record carrying `id`, when there is one, and
/// otherwise changes nothing.
pub open spec fn store_delete(m: StoreModel, id: int) -> StoreModel {
    if store_contains(m, id) {
        StoreModel { todos: m.todos.remove(store_index(m, id)), fresh: m.fresh }
    } else {
        m
    }
}

/// In a well-formed store the record at position `i` is the one found
/// under its own identifier: positions and identifiers determine each
/// other.
pub proof fn lemma_store_index_of(m: StoreModel, i: int)
    requires
        store_wf(m),
        0 <= i < m.todos.len(),
    ensures
        store_contains(m, m.todos[i].id),
        store_index(m, m.todos[i].id) == i,
        store_at(m, m.todos[i].id) == m.todos[i],
{
    let id = m.todos[i].id;
    assert(store_contains(m, id));
    let j = store_index(m, id);
    assert(0 <= j < m.todos.len() && m.todos[j].id == id);
    if i < j {
        assert(m.todos[i].id < m.todos[j].id);
    } else if j < i {
        assert(m.todos[j].id < m.todos[i].id);
    }
}

/// A well-formed store holds no identifier at or above the fresh one.
pub proof fn lemma_fresh_not_contained(m: StoreModel, id: int)
    requires
        store_wf(m),
        id >= m.fresh,
    ensures
        !store_contains(m, id),
{
    if store_contains(m, id) {
        let i = store_index(m, id);
        assert(0 <= i < m.todos.len() && m.todos[i].id == id);
        assert(m.todos[i].id < m.fresh);
    }
}

/// What a creation does to a well-formed store: the result is
/// well-formed again, the created identifier was absent before and is
/// found afterwards with exactly the created record, and every record
/// that was stored is still found unchanged.
pub proof fn lemma_store_create_properties(m: StoreModel, text: Seq<char>)
    requires
        store_wf(m),
    ensures
        store_wf(store_create(m, text)),
        !store_contains(m, created_todo(m, text).id),
        store_contains(store_create(m, text), created_todo(m, text).id),
        store_at(store_create(m, text), created_todo(m, text).id) == created_todo(m, text),
        forall|x: int|
            #[trigger] store_contains(store_create(m, text), x) <==> (store_contains(m, x) || x
                == m.fresh),
        forall|x: int|
            store_contains(m, x) ==> #[trigger] store_at(store_create(m, text), x) == store_at(
                m,
                x,
            ),
{
    let m2 = store_create(m, text);
    let n = m.todos.len() as int;
    lemma_fresh_not_contained(m, m.fresh);
    assert forall|i: int, j: int|
        #![trigger m2.todos[i], m2.todos[j]]
        0 <= i < j < m2.todos.len() implies m2.todos[i].id < m2.todos[j].id by {
        if j < n {
            assert(m.todos[i].id < m.todos[j].id);
        } else {
            assert(m2.todos[j].id == m.fresh);
            assert(m.todos[i].id < m.fresh);
        }
    }
    assert forall|i: int| #![trigger m2.todos[i]] 0 <= i < m2.todos.len() implies 0
        < m2.todos[i].id < m2.fresh by {
        if i < n {
            assert(0 < m.todos[i].id < m.fresh);
        }
    }
    assert(store_wf(m2));
    assert(m2.todos[n].id == m.fresh);
    lemma_store_index_of(m2, n);
    assert forall|x: int| #[trigger]
        store_contains(m2, x) <==> (store_contains(m, x) || x == m.fresh) by {
        if store_contains(m2, x) {
            let i = store_index(m2, x);
            assert(0 <= i < m2.todos.len() && m2.todos[i].id == x);
            if i < n {
                assert(m.todos[i].id == x);
                assert(store_contains(m, x));
            } else {
                assert(x == m.fresh);
            }
        }
        if store_contains(m, x) {
            let i = store_index(m, x);
            assert(0 <= i < n && m.todos[i].id == x);
            assert(m2.todos[i].id == x);
            assert(store_contains(m2, x));
        }
        if x == m.fresh {
            assert(store_contains(m2, x));
        }
    }
    assert forall|x: int| store_contains(m, x) implies #[trigger] store_at(m2, x) == store_at(
        m,
        x,
    ) by {
        let i = store_index(m, x);
        assert(0 <= i < n && m.todos[i].id == x);
        lemma_store_index_of(m, i);
        assert(m2.todos[i] == m.todos[i]);
        lemma_store_index_of(m2, i);
    }
}

/// What an update does to a well-formed store: the result is
/// well-formed with the same identifiers and the same fresh identifier;
/// the targeted record, when present, is replaced by the merge of its
/// old value with the payload; every other record is untouched.
pub proof fn lemma_store_update_properties(m: StoreModel, id: int, upd: UpdateTodoView)
    requires
        store_wf(m),
    ensures
        store_wf(store_update(m, id, upd)),
        store_update(m, id, upd).fresh == m.fresh,
        store_update(m, id, upd).todos.len() == m.todos.len(),
        forall|x: int| #[trigger] store_contains(store_update(m, id, upd), x) <==> store_contains(
            m,
            x,
        ),
        store_contains(m, id) ==> store_at(store_update(m, id, upd), id) == merged(
            store_at(m, id),
            upd,
        ),
        !store_contains(m, id) ==> store_update(m, id, upd) == m,
        forall|x: int|
            x != id && store_contains(m, x) ==> #[trigger] store_at(store_update(m, id, upd), x)
                == store_at(m, x),
{
    let m2 = store_update(m, id, upd);
    if store_contains(m, id) {
        let k = store_index(m, id);
        assert(0 <= k < m.todos.len() && m.todos[k].id == id);
        assert(merged(store_at(m, id), upd).id == id);
        assert forall|i: int| #![trigger m2.todos[i]] 0 <= i < m2.todos.len() implies m2.todos[i].id
            == m.todos[i].id by {}
        assert(store_wf(m2));
        assert forall|x: int| #[trigger] store_contains(m2, x) <==> store_contains(m, x) by {
            if store_contains(m2, x) {
                let i = store_index(m2, x);
                assert(0 <= i < m2.todos.len() && m2.todos[i].id == x);
                assert(m.todos[i].id == x);
                assert(store_contains(m, x));
            }
            if store_contains(m, x) {
                let i = store_index(m, x);
                assert(0 <= i < m.todos.len() && m.todos[i].id == x);
                assert(m2.todos[i].id == x);
                assert(store_contains(m2, x));
            }
        }
        lemma_store_index_of(m2, k);
        assert(store_at(m2, id) == merged(store_at(m, id), upd));
        assert forall|x: int| x != id && store_contains(m, x) implies #[trigger] store_at(m2, x)
            == store_at(m, x) by {
            let i = store_index(m, x);
            assert(0 <= i < m.todos.len() && m.todos[i].id == x);
            lemma_store_index_of(m, i);
            assert(i != k);
            assert(m2.todos[i] == m.todos[i]);
            lemma_store_index_of(m2, i);
        }
    }
}

/// What a deletion does to a well-formed store: the result is
/// well-formed with the same fresh identifier, the targeted identifier
/// is gone, and every other record is still found unchanged.
pub proof fn lemma_store_delete_properties(m: StoreModel, id: int)
    requires
        store_wf(m),
    ensures
        store_wf(store_delete(m, id)),
        store_delete(m, id).fresh == m.fresh,
        !store_contains(store_delete(m, id), id),
        store_contains(m, id) ==> store_delete(m, id).todos.len() == m.todos.len() - 1,
        !store_contains(m, id) ==> store_delete(m, id) == m,
        forall|x: int|
            x != id ==> (#[trigger] store_contains(store_delete(m, id), x) <==> store_contains(
                m,
                x,
            )),
        forall|x: int|
            x != id && store_contains(m, x) ==> #[trigger] store_at(store_delete(m, id), x)
                == store_at(m, x),
{
    let m2 = store_delete(m, id);
    if store_contains(m, id) {
        let k = store_index(m, id);
        assert(0 <= k < m.todos.len() && m.todos[k].id == id);
        assert forall|i: int| #![trigger m2.todos[i]] 0 <= i < m2.todos.len() implies m2.todos[i]
            == (if i < k {
            m.todos[i]
        } else {
            m.todos[i + 1]
        }) by {}
        assert forall|i: int, j: int|
            #![trigger m2.todos[i], m2.todos[j]]
            0 <= i < j < m2.todos.len() implies m2.todos[i].id < m2.todos[j].id by {
            let i0 = if i < k {
                i
            } else {
                i + 1
            };
            let j0 = if j < k {
                j
            } else {
                j + 1
            };
            assert(m.todos[i0].id < m.todos[j0].id);
        }
        assert(store_wf(m2));
        assert forall|i: int| #![trigger m2.todos[i]] 0 <= i < m2.todos.len() implies m2.todos[i].id
            != id by {
            let i0 = if i < k {
                i
            } else {
                i + 1
            };
            assert(m2.todos[i] == m.todos[i0]);
            if i0 < k {
                assert(m.todos[i0].id < m.todos[k].id);
            } else {
                assert(m.todos[k].id < m.todos[i0].id);
            }
        }
        assert(!store_contains(m2, id));
        assert forall|x: int| x != id implies (#[trigger] store_contains(m2, x) <==> store_contains(
            m,
            x,
        )) by {
            if store_contains(m2, x) {
                let i = store_index(m2, x);
                assert(0 <= i < m2.todos.len() && m2.todos[i].id == x);
                let i0 = if i < k {
                    i
                } else {
                    i + 1
                };
                assert(m.todos[i0].id == x);
                assert(store_contains(m, x));
            }
            if store_contains(m, x) {
                let i = store_index(m, x);
                assert(0 <= i < m.todos.len() && m.todos[i].id == x);
                assert(i != k);
                if i < k {
                    assert(m2.todos[i].id == x);
                } else {
                    assert(m2.todos[i - 1].id == x);
                }
                assert(store_contains(m2, x));
            }
        }
        assert forall|x: int| x != id && store_contains(m, x) implies #[trigger] store_at(m2, x)
            == store_at(m, x) by {
            let i = store_index(m, x);
            assert(0 <= i < m.todos.len() && m.todos[i].id == x);
            lemma_store_index_of(m, i);
            assert(i != k);
            if i < k {
                assert(m2.todos[i] == m.todos[i]);
                lemma_store_index_of(m2, i);
            } else {
                assert(m2.todos[i - 1] == m.todos[i]);
                lemma_store_index_of(m2, i - 1);
            }
        }
    }
}

/// The store after a run of creations, one per text, oldest first.
pub open spec fn store_create_all(m: StoreModel, texts: Seq<Seq<char>>) -> StoreModel
    decreases texts.len(),
{
    if texts.len() == 0 {
        m
    } else {
        store_create(store_create_all(m, texts.drop_last()), texts.last())
    }
}

/// The identifier handed back by creation number `k` of such a run,
/// counting from 0: creation `k` starts from the store after the first
/// `k` creations and returns its fresh identifier.
pub open spec fn created_id(m: StoreModel, texts: Seq<Seq<char>>, k: int) -> int {
    store_create_all(m, texts.take(k)).fresh
}

/// Each creation advances the fresh identifier by exactly one.
pub proof fn lemma_fresh_after_creates(m: StoreModel, texts: Seq<Seq<char>>)
    ensures
        store_create_all(m, texts).fresh == m.fresh + texts.len(),
    decreases texts.len(),
{
    if texts.len() > 0 {
        lemma_fresh_after_creates(m, texts.drop_last());
    }
}

/// Law: over any run of creations with no intervening deletion, the
/// returned identifiers strictly increase — so no two of them are
/// equal.
pub proof fn lemma_created_ids_strictly_increase(
    m: StoreModel,
    texts: Seq<Seq<char>>,
    i: int,
    j: int,
)
    requires
        0 <= i < j < texts.len(),
    ensures
        created_id(m, texts, i) < created_id(m, texts, j),
{
    lemma_fresh_after_creates(m, texts.take(i));
    lemma_fresh_after_creates(m, texts.take(j));
}

/// Law: finding the identifier a creation handed back yields exactly
/// the created record.
pub proof fn lemma_find_after_create(m: StoreModel, text: Seq<char>)
    requires
        store_wf(m),
    ensures
        store_contains(store_create(m, text), created_todo(m, text).id),
        store_at(store_create(m, text), created_todo(m, text).id) == created_todo(m, text),
{
    lemma_store_create_properties(m, text);
}

/// Law: an update that carries a text and no completion flag installs
/// that text and preserves the stored completion flag (and the
/// identifier).
pub proof fn lemma_update_text_only_preserves_completed(m: StoreModel, id: int, text: Seq<char>)
    requires
        store_wf(m),
        store_contains(m, id),
    ensures
        ({
            let upd = UpdateTodoView { text: Some(text), completed: None };
            let after = store_at(store_update(m, id, upd), id);
            &&& after.text == text
            &&& after.completed == store_at(m, id).completed
            &&& after.id == store_at(m, id).id
        }),
{
    let upd = UpdateTodoView { text: Some(text), completed: None };
    lemma_store_update_properties(m, id, upd);
}

/// Law: an update that carries nothing changes nothing — the store is
/// unchanged and the merged record equals the one already stored.
pub proof fn lemma_update_nothing_is_noop(m: StoreModel, id: int)
    requires
        store_wf(m),
    ensures
        store_update(m, id, UpdateTodoView { text: None, completed: None }) == m,
        store_contains(m, id) ==> merged(
            store_at(m, id),
            UpdateTodoView { text: None, completed: None },
        ) == store_at(m, id),
{
    let upd = UpdateTodoView { text: None, completed: None };
    if store_contains(m, id) {
        let k = store_index(m, id);
        assert(0 <= k < m.todos.len() && m.todos[k].id == id);
        assert(merged(store_at(m, id), upd) == store_at(m, id));
        assert(m.todos.update(k, m.todos[k]) =~= m.todos);
        assert(store_update(m, id, upd) =~= m);
    }
}

/// Law: after a deletion the deleted identifier is no longer found.
pub proof fn lemma_find_after_delete(m: StoreModel, id: int)
    requires
        store_wf(m),
    ensures
        !store_contains(store_delete(m, id), id),
{
    lemma_store_delete_properties(m, id);
}

} // verus!
