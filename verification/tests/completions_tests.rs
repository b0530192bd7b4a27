use cyber_ai::completions::{
    completion_outcome_text, deposit_completion_result, flush, get_answer_content, get_history,
    get_history_as_string, get_request_content, params_from_pair,
    prepare_chat_completion_request, ValidationError,
};
use cyber_ai::role::Role;
use cyber_ai::settings::Settings;
use cyber_ai::store::ChatStorage;

#[test]
fn scheduling_appends_and_snapshots_the_transcript() {
    let mut store = ChatStorage::new();
    let settings = Settings::default();
    let messages = vec![vec!["User".to_string(), "hi".to_string()]];

    let request = prepare_chat_completion_request(&mut store, &settings, "c1", &messages)
        .expect("a valid message list is accepted");
    assert_eq!(request.model, "gpt-3.5-turbo");
    assert_eq!(request.max_tokens, 512);
    assert_eq!(request.messages.len(), 1);
    assert_eq!(request.messages[0].role, Role::User);
    assert_eq!(request.messages[0].content, "hi");

    deposit_completion_result(&mut store, "c1", "hello there".to_string());

    let history = get_history(&mut store, "c1".to_string());
    assert_eq!(history.len(), 2);
    assert_eq!(history[0], vec!["User", "hi"]);
    assert_eq!(history[1], vec!["Assistant", "hello there"]);
    assert_eq!(get_request_content(&mut store, "c1".to_string()), "hi");
}

#[test]
fn answer_reads_are_consuming() {
    let mut store = ChatStorage::new();
    deposit_completion_result(&mut store, "c2", "the answer".to_string());
    assert_eq!(get_answer_content(&mut store, "c2".to_string()), "the answer");
    assert_eq!(get_answer_content(&mut store, "c2".to_string()), "");
}

#[test]
fn unknown_role_is_rejected_without_side_effects() {
    let mut store = ChatStorage::new();
    let settings = Settings::default();
    let messages = vec![vec!["Narrator".to_string(), "x".to_string()]];

    let result = prepare_chat_completion_request(&mut store, &settings, "c3", &messages);
    assert_eq!(result.err(), Some(ValidationError::UnknownRole));
    assert!(get_history(&mut store, "c3".to_string()).is_empty());
    assert_eq!(get_request_content(&mut store, "c3".to_string()), "");
}

#[test]
fn wrong_pair_shape_is_rejected_without_side_effects() {
    let mut store = ChatStorage::new();
    let settings = Settings::default();
    let messages = vec![
        vec!["User".to_string(), "first".to_string()],
        vec!["User".to_string()],
    ];

    let result = prepare_chat_completion_request(&mut store, &settings, "c4", &messages);
    assert_eq!(result.err(), Some(ValidationError::WrongPairShape));
    assert!(get_history(&mut store, "c4".to_string()).is_empty());
    assert_eq!(get_request_content(&mut store, "c4".to_string()), "");
}

#[test]
fn validation_error_descriptions() {
    assert_eq!(ValidationError::WrongPairShape.describe(), "Invalid vector length");
    assert_eq!(ValidationError::UnknownRole.describe(), "Invalid role value");
}

#[test]
fn params_from_pair_accepts_and_rejects() {
    let good = vec!["Assistant".to_string(), "ok".to_string()];
    let built = params_from_pair(&good).expect("a two-element pair with a known role");
    assert_eq!(built.role, Role::Assistant);
    assert_eq!(built.content, "ok");

    let short = vec!["User".to_string()];
    assert_eq!(params_from_pair(&short).err(), Some(ValidationError::WrongPairShape));

    let bad_role = vec!["user".to_string(), "lower case is rejected".to_string()];
    assert_eq!(params_from_pair(&bad_role).err(), Some(ValidationError::UnknownRole));
}

#[test]
fn outcome_text_covers_success_absence_and_failure() {
    assert_eq!(completion_outcome_text(Ok(Some("fine".to_string()))), "fine");
    assert_eq!(completion_outcome_text(Ok(None)), "");
    assert_eq!(
        completion_outcome_text(Err("connection refused".to_string())),
        "connection refused"
    );
}

#[test]
fn failed_calls_deposit_their_description() {
    let mut store = ChatStorage::new();
    let text = completion_outcome_text(Err("boom".to_string()));
    deposit_completion_result(&mut store, "c5", text);
    assert_eq!(get_answer_content(&mut store, "c5".to_string()), "boom");
    assert_eq!(
        get_history_as_string(&mut store, "c5".to_string()),
        "assistant: boom\n"
    );
}

#[test]
fn flush_clears_one_conversation_only() {
    let mut store = ChatStorage::new();
    let settings = Settings::default();
    let m1 = vec![vec!["User".to_string(), "left".to_string()]];
    let m2 = vec![vec!["User".to_string(), "right".to_string()]];
    prepare_chat_completion_request(&mut store, &settings, "a", &m1).expect("valid");
    prepare_chat_completion_request(&mut store, &settings, "b", &m2).expect("valid");

    flush(&mut store, "a".to_string());

    assert!(get_history(&mut store, "a".to_string()).is_empty());
    assert_eq!(get_answer_content(&mut store, "a".to_string()), "");
    assert_eq!(get_request_content(&mut store, "a".to_string()), "");
    let other = get_history(&mut store, "b".to_string());
    assert_eq!(other, vec![vec!["User".to_string(), "right".to_string()]]);
    assert_eq!(get_request_content(&mut store, "b".to_string()), "right");
}

#[test]
fn interleaved_scheduling_keeps_transcripts_apart() {
    let mut store = ChatStorage::new();
    let settings = Settings::default();
    let m1 = vec![vec!["User".to_string(), "to one".to_string()]];
    let m2 = vec![vec!["User".to_string(), "to two".to_string()]];
    prepare_chat_completion_request(&mut store, &settings, "one", &m1).expect("valid");
    prepare_chat_completion_request(&mut store, &settings, "two", &m2).expect("valid");
    deposit_completion_result(&mut store, "two", "reply two".to_string());
    deposit_completion_result(&mut store, "one", "reply one".to_string());

    let h1 = get_history(&mut store, "one".to_string());
    assert_eq!(h1, vec![
        vec!["User".to_string(), "to one".to_string()],
        vec!["Assistant".to_string(), "reply one".to_string()],
    ]);
    let h2 = get_history(&mut store, "two".to_string());
    assert_eq!(h2, vec![
        vec!["User".to_string(), "to two".to_string()],
        vec!["Assistant".to_string(), "reply two".to_string()],
    ]);
}
