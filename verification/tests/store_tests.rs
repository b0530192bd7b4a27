use cyber_ai::role::{role_display, Role};
use cyber_ai::store::{
    append_answer_to_chat, append_request_to_chat, append_to_chat_history, flush_chat,
    get_answer_from_chat, get_full_chat_history, get_iterable_chat_history,
    get_printable_chat_history, get_request_from_chat, ChatStorage,
};

#[test]
fn test_append_and_get_request() {
    let mut store = ChatStorage::new();
    let chat_id = "test_chat";
    let request = "Hello, world!";
    append_request_to_chat(&mut store, chat_id, request.to_string());

    let result = get_request_from_chat(&mut store, chat_id);
    assert_eq!(result, request);
}

#[test]
fn test_append_and_get_answer() {
    let mut store = ChatStorage::new();
    let chat_id = "test_chat";
    let answer = "Hello, user!";
    append_answer_to_chat(&mut store, chat_id, answer.to_string());

    let result = get_answer_from_chat(&mut store, chat_id);
    assert_eq!(result, answer);
}

#[test]
fn test_append_and_get_chat_history() {
    let mut store = ChatStorage::new();
    let chat_id = "test_chat";
    let request = "Hello, world!";
    let answer = "Hello, user!";
    append_to_chat_history(&mut store, chat_id, Role::User, request.to_string());
    append_to_chat_history(&mut store, chat_id, Role::Assistant, answer.to_string());

    let history = get_full_chat_history(&mut store, chat_id);
    assert_eq!(history.len(), 2);
    assert_eq!(history[0].role, Role::User);
    assert_eq!(history[0].content, request);
    assert_eq!(history[1].role, Role::Assistant);
    assert_eq!(history[1].content, answer);
}

#[test]
fn test_get_iterable_chat_history() {
    let mut store = ChatStorage::new();
    let chat_id = "test_chat_iterable";
    let request = "Hello, world!";
    let answer = "Hello, user!";
    append_to_chat_history(&mut store, chat_id, Role::User, request.to_string());
    append_to_chat_history(&mut store, chat_id, Role::Assistant, answer.to_string());

    let history = get_iterable_chat_history(&mut store, chat_id);
    assert_eq!(history.len(), 2);
    assert_eq!(history[0], vec!["User", request]);
    assert_eq!(history[1], vec!["Assistant", answer]);
}

#[test]
fn test_get_printable_chat_history() {
    let mut store = ChatStorage::new();
    let chat_id = "test_chat_printable";
    let request = "Hello, world!";
    let answer = "Hello, user!";
    append_to_chat_history(&mut store, chat_id, Role::User, request.to_string());
    append_to_chat_history(&mut store, chat_id, Role::Assistant, answer.to_string());

    let history = get_printable_chat_history(&mut store, chat_id);
    let expected = format!(
        "{}: {}\n{}: {}\n",
        role_display(Role::User),
        request,
        role_display(Role::Assistant),
        answer
    );
    assert_eq!(history, expected);
}

#[test]
fn test_flush_chat() {
    let mut store = ChatStorage::new();
    let chat_id = "test_chat_flush";
    let request = "Hello, world!";
    let answer = "Hello, user!";
    append_to_chat_history(&mut store, chat_id, Role::User, request.to_string());
    append_to_chat_history(&mut store, chat_id, Role::Assistant, answer.to_string());

    flush_chat(&mut store, chat_id);
    let history = get_full_chat_history(&mut store, chat_id);
    assert!(history.is_empty());

    let request_content = get_request_from_chat(&mut store, chat_id);
    assert!(request_content.is_empty());

    let answer_content = get_answer_from_chat(&mut store, chat_id);
    assert!(answer_content.is_empty());
}

#[test]
fn unseen_identifier_has_empty_state() {
    let mut store = ChatStorage::new();
    let history = get_full_chat_history(&mut store, "never_seen");
    assert!(history.is_empty());
    assert_eq!(get_answer_from_chat(&mut store, "fresh_a"), "");
    assert_eq!(get_request_from_chat(&mut store, "fresh_b"), "");
    assert!(get_iterable_chat_history(&mut store, "fresh_c").is_empty());
    assert_eq!(get_printable_chat_history(&mut store, "fresh_d"), "");
}

#[test]
fn buffers_pop_oldest_first() {
    let mut store = ChatStorage::new();
    append_answer_to_chat(&mut store, "fifo", "first".to_string());
    append_answer_to_chat(&mut store, "fifo", "second".to_string());
    assert_eq!(get_answer_from_chat(&mut store, "fifo"), "first");
    assert_eq!(get_answer_from_chat(&mut store, "fifo"), "second");
    assert_eq!(get_answer_from_chat(&mut store, "fifo"), "");

    append_request_to_chat(&mut store, "fifo", "one".to_string());
    append_request_to_chat(&mut store, "fifo", "two".to_string());
    assert_eq!(get_request_from_chat(&mut store, "fifo"), "one");
    assert_eq!(get_request_from_chat(&mut store, "fifo"), "two");
    assert_eq!(get_request_from_chat(&mut store, "fifo"), "");
}

#[test]
fn flush_leaves_other_identifiers_untouched() {
    let mut store = ChatStorage::new();
    append_to_chat_history(&mut store, "kept", Role::User, "stay".to_string());
    append_answer_to_chat(&mut store, "kept", "pending".to_string());
    append_to_chat_history(&mut store, "gone", Role::User, "drop".to_string());
    append_request_to_chat(&mut store, "gone", "drop".to_string());

    flush_chat(&mut store, "gone");

    assert!(get_full_chat_history(&mut store, "gone").is_empty());
    assert_eq!(get_request_from_chat(&mut store, "gone"), "");

    let kept = get_full_chat_history(&mut store, "kept");
    assert_eq!(kept.len(), 1);
    assert_eq!(kept[0].content, "stay");
    assert_eq!(get_answer_from_chat(&mut store, "kept"), "pending");
}

#[test]
fn printable_history_matches_listed_history() {
    let mut store = ChatStorage::new();
    let chat_id = "round_trip";
    append_to_chat_history(&mut store, chat_id, Role::System, "be brief".to_string());
    append_to_chat_history(&mut store, chat_id, Role::User, "hi".to_string());
    append_to_chat_history(&mut store, chat_id, Role::Assistant, "hello".to_string());

    let text = get_printable_chat_history(&mut store, chat_id);
    let history = get_full_chat_history(&mut store, chat_id);
    let mut rebuilt = String::new();
    for entry in &history {
        rebuilt.push_str(role_display(entry.role));
        rebuilt.push_str(": ");
        rebuilt.push_str(&entry.content);
        rebuilt.push_str("\n");
    }
    assert_eq!(text, rebuilt);
    assert_eq!(text, "system: be brief\nuser: hi\nassistant: hello\n");
}
