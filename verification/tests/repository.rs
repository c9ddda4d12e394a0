use todo_store::errors::RepositoryError;
use todo_store::repositories::{TodoRepository, TodoRepositoryForMemory};
use todo_store::todos::{CreateTodo, Todo, UpdateTodo};

#[test]
fn todo_crud_scenario() {
    let text = "todo test".to_string();
    let id = 1;
    let expected = Todo::new(id, text.clone());

    let mut repository = TodoRepositoryForMemory::new();
    let todo = repository.create(CreateTodo { text });
    assert_eq!(expected, todo);

    let todo = repository.find(todo.id).unwrap();
    assert_eq!(expected, todo);

    let todo = repository.all();
    assert_eq!(vec![expected], todo);

    let text = "update todo text".to_string();
    let todo = repository
        .update(
            1,
            UpdateTodo {
                text: Some(text.clone()),
                completed: Some(true),
            },
        )
        .expect("failed update todo.");
    assert_eq!(
        Todo {
            id,
            text,
            completed: true
        },
        todo
    );

    let res = repository.delete(id);
    assert!(res.is_ok());
}

#[test]
fn created_ids_strictly_increase() {
    let mut repository = TodoRepositoryForMemory::new();
    let a = repository.create(CreateTodo::new("first".to_string()));
    let b = repository.create(CreateTodo::new("second".to_string()));
    let c = repository.create(CreateTodo::new("third".to_string()));
    assert!(a.id < b.id);
    assert!(b.id < c.id);
    assert_eq!(vec![1, 2, 3], vec![a.id, b.id, c.id]);
}

#[test]
fn find_returns_created_todo() {
    let mut repository = TodoRepositoryForMemory::new();
    let created = repository.create(CreateTodo::new("buy bread".to_string()));
    let found = repository.find(created.id).unwrap();
    assert_eq!(created, found);
}

#[test]
fn update_text_only_preserves_completed() {
    let mut repository = TodoRepositoryForMemory::new();
    let created = repository.create(CreateTodo::new("water plants".to_string()));
    repository
        .update(
            created.id,
            UpdateTodo {
                text: None,
                completed: Some(true),
            },
        )
        .unwrap();
    let updated = repository
        .update(
            created.id,
            UpdateTodo {
                text: Some("water the plants".to_string()),
                completed: None,
            },
        )
        .unwrap();
    assert_eq!(created.id, updated.id);
    assert_eq!("water the plants", updated.text);
    assert!(updated.completed);
}

#[test]
fn update_with_nothing_is_a_noop() {
    let mut repository = TodoRepositoryForMemory::new();
    let created = repository.create(CreateTodo::new("call home".to_string()));
    let updated = repository
        .update(
            created.id,
            UpdateTodo {
                text: None,
                completed: None,
            },
        )
        .unwrap();
    assert_eq!(created, updated);
    let stored = repository.find(created.id).unwrap();
    assert_eq!(created, stored);
}

#[test]
fn find_after_delete_is_not_found() {
    let mut repository = TodoRepositoryForMemory::new();
    let created = repository.create(CreateTodo::new("take out trash".to_string()));
    repository.delete(created.id).unwrap();
    match repository.find(created.id) {
        Err(RepositoryError::NotFound(id)) => assert_eq!(created.id, id),
        other => panic!("expected NotFound, got {:?}", other),
    }
}

#[test]
fn all_returns_every_created_todo() {
    let mut repository = TodoRepositoryForMemory::new();
    repository.create(CreateTodo::new("a".to_string()));
    repository.create(CreateTodo::new("b".to_string()));
    let todos = repository.all();
    assert_eq!(2, todos.len());
    let mut texts: Vec<String> = todos.iter().map(|t| t.text.clone()).collect();
    texts.sort();
    assert_eq!(vec!["a".to_string(), "b".to_string()], texts);
    assert!(todos.iter().all(|t| !t.completed));
}

#[test]
fn full_lifecycle_of_one_todo() {
    let mut repository = TodoRepositoryForMemory::new();
    let created = repository.create(CreateTodo::new("buy milk".to_string()));
    assert_eq!(
        Todo {
            id: 1,
            text: "buy milk".to_string(),
            completed: false
        },
        created
    );
    let updated = repository
        .update(
            1,
            UpdateTodo {
                text: None,
                completed: Some(true),
            },
        )
        .unwrap();
    assert_eq!(
        Todo {
            id: 1,
            text: "buy milk".to_string(),
            completed: true
        },
        updated
    );
    assert!(repository.delete(1).is_ok());
    match repository.find(1) {
        Err(RepositoryError::NotFound(1)) => {}
        other => panic!("expected NotFound, got {:?}", other),
    }
}

// The store assigns identifiers from a counter that only grows, so an
// identifier freed by a deletion is never handed out again: after
// creating ids 1 and 2 and deleting id 1, the next creation gets id 3
// rather than colliding with the surviving id 2.
#[test]
fn deleted_id_is_never_reused() {
    let mut repository = TodoRepositoryForMemory::new();
    let first = repository.create(CreateTodo::new("one".to_string()));
    let second = repository.create(CreateTodo::new("two".to_string()));
    assert_eq!(1, first.id);
    assert_eq!(2, second.id);
    repository.delete(first.id).unwrap();
    let third = repository.create(CreateTodo::new("three".to_string()));
    assert_ne!(second.id, third.id);
    assert_eq!(3, third.id);
    let survivor = repository.find(2).unwrap();
    assert_eq!("two", survivor.text);
}

#[test]
fn update_of_missing_id_reports_not_found_and_changes_nothing() {
    let mut repository = TodoRepositoryForMemory::new();
    let created = repository.create(CreateTodo::new("only one".to_string()));
    match repository.update(
        7,
        UpdateTodo {
            text: Some("ghost".to_string()),
            completed: Some(true),
        },
    ) {
        Err(RepositoryError::NotFound(7)) => {}
        other => panic!("expected NotFound, got {:?}", other),
    }
    assert_eq!(vec![created], repository.all());
}

#[test]
fn delete_of_missing_id_reports_not_found() {
    let mut repository = TodoRepositoryForMemory::new();
    match repository.delete(42) {
        Err(RepositoryError::NotFound(42)) => {}
        other => panic!("expected NotFound, got {:?}", other),
    }
}

#[test]
fn new_store_is_empty_and_has_capacity() {
    let repository = TodoRepositoryForMemory::new();
    assert!(repository.all().is_empty());
    assert!(repository.has_capacity());
    let defaulted = TodoRepositoryForMemory::default();
    assert!(defaulted.all().is_empty());
}
