use todo_store::errors::RepositoryError;
use todo_store::todos::{CreateTodo, UpdateTodo, TEXT_MAX_LEN};

fn text_of(n: usize, c: char) -> String {
    let mut s = String::new();
    for _ in 0..n {
        s.push(c);
    }
    s
}

#[test]
fn empty_text_is_rejected() {
    let payload = CreateTodo::new(String::new());
    match payload.validate() {
        Err(RepositoryError::ValidationFailed(message)) => {
            assert_eq!("Can not be empty", message);
        }
        other => panic!("expected ValidationFailed, got {:?}", other),
    }
}

#[test]
fn text_at_the_limit_is_accepted() {
    let payload = CreateTodo::new(text_of(TEXT_MAX_LEN, 'x'));
    assert!(payload.validate().is_ok());
}

#[test]
fn text_over_the_limit_is_rejected() {
    let payload = CreateTodo::new(text_of(TEXT_MAX_LEN + 1, 'x'));
    match payload.validate() {
        Err(RepositoryError::ValidationFailed(message)) => {
            assert_eq!("Over text length", message);
        }
        other => panic!("expected ValidationFailed, got {:?}", other),
    }
}

// The bound counts characters, not bytes: a text of TEXT_MAX_LEN
// multi-byte characters is accepted although it is longer in bytes.
#[test]
fn limit_counts_characters_not_bytes() {
    let text = text_of(TEXT_MAX_LEN, '\u{3042}');
    assert!(text.len() > TEXT_MAX_LEN);
    let payload = CreateTodo::new(text);
    assert!(payload.validate().is_ok());
    let too_long = CreateTodo::new(text_of(TEXT_MAX_LEN + 1, '\u{3042}'));
    assert!(too_long.validate().is_err());
}

#[test]
fn update_without_text_is_accepted() {
    let payload = UpdateTodo {
        text: None,
        completed: Some(true),
    };
    assert!(payload.validate().is_ok());
}

#[test]
fn update_with_empty_text_is_rejected() {
    let payload = UpdateTodo {
        text: Some(String::new()),
        completed: None,
    };
    match payload.validate() {
        Err(RepositoryError::ValidationFailed(message)) => {
            assert_eq!("Can not be empty", message);
        }
        other => panic!("expected ValidationFailed, got {:?}", other),
    }
}

#[test]
fn update_with_long_text_is_rejected() {
    let payload = UpdateTodo {
        text: Some(text_of(TEXT_MAX_LEN + 1, 'y')),
        completed: Some(false),
    };
    match payload.validate() {
        Err(RepositoryError::ValidationFailed(message)) => {
            assert_eq!("Over text length", message);
        }
        other => panic!("expected ValidationFailed, got {:?}", other),
    }
}

#[test]
fn update_with_text_in_bounds_is_accepted() {
    let payload = UpdateTodo {
        text: Some("short".to_string()),
        completed: None,
    };
    assert!(payload.validate().is_ok());
}
