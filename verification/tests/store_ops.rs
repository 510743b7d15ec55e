use muppet::store::{Store, StoreError};

fn seeded_store() -> Store {
    let mut s = Store::new();
    let r = s.create_conversation(Some("First".to_string()), "c1".to_string(), 100);
    assert!(r.is_ok());
    s
}

#[test]
fn create_uses_default_title() {
    let mut s = Store::new();
    let c = s.create_conversation(None, "c1".to_string(), 5).unwrap();
    assert_eq!(c.title, "New Conversation");
    assert_eq!(c.id, "c1");
    assert_eq!(c.created_at, 5);
    assert_eq!(c.updated_at, 5);
}

#[test]
fn create_keeps_given_title() {
    let mut s = Store::new();
    let c = s.create_conversation(Some("Plans".to_string()), "c1".to_string(), 5).unwrap();
    assert_eq!(c.title, "Plans");
}

#[test]
fn create_accepts_title_at_limit() {
    let mut s = Store::new();
    let title = "t".repeat(500);
    let c = s.create_conversation(Some(title.clone()), "c1".to_string(), 1).unwrap();
    assert_eq!(c.title, title);
}

#[test]
fn create_rejects_title_over_limit() {
    let mut s = Store::new();
    let r = s.create_conversation(Some("t".repeat(501)), "c1".to_string(), 1);
    assert_eq!(r.unwrap_err(), StoreError::TitleTooLong);
    assert!(s.list_conversations().is_empty());
}

#[test]
fn create_rejects_duplicate_id() {
    let mut s = seeded_store();
    let r = s.create_conversation(None, "c1".to_string(), 200);
    assert_eq!(r.unwrap_err(), StoreError::Storage);
    assert_eq!(s.list_conversations().len(), 1);
}

#[test]
fn update_title_persists_exactly_and_advances_timestamp() {
    let mut s = seeded_store();
    let before = s.list_conversations()[0].updated_at;
    let r = s.update_conversation_title("c1".to_string(), "Renamed".to_string(), 250);
    assert!(r.is_ok());
    let rows = s.list_conversations();
    assert_eq!(rows[0].title, "Renamed");
    assert_eq!(rows[0].updated_at, 250);
    assert!(rows[0].updated_at >= before);
}

#[test]
fn update_title_rejects_over_limit_and_changes_nothing() {
    let mut s = seeded_store();
    let r = s.update_conversation_title("c1".to_string(), "t".repeat(501), 250);
    assert_eq!(r.unwrap_err(), StoreError::TitleTooLong);
    let rows = s.list_conversations();
    assert_eq!(rows[0].title, "First");
    assert_eq!(rows[0].updated_at, 100);
}

#[test]
fn activity_timestamp_never_goes_backwards() {
    let mut s = seeded_store();
    // a title edit with a clock tick before the stored timestamp keeps it
    s.update_conversation_title("c1".to_string(), "Renamed".to_string(), 50)
        .unwrap();
    let rows = s.list_conversations();
    assert_eq!(rows[0].title, "Renamed");
    assert_eq!(rows[0].updated_at, 100);
    // an append with an earlier tick dates the message, not the
    // conversation, backwards
    let m = s
        .save_message(
            "c1".to_string(),
            "user".to_string(),
            "late clock".to_string(),
            None,
            None,
            None,
            "m1".to_string(),
            40,
        )
        .unwrap();
    assert_eq!(m.created_at, 40);
    let rows = s.list_conversations();
    assert_eq!(rows[0].updated_at, 100);
    assert!(rows[0].updated_at >= m.created_at);
}

#[test]
fn update_title_on_unknown_id_is_a_silent_no_op() {
    let mut s = seeded_store();
    let r = s.update_conversation_title("ghostly".to_string(), "x".to_string(), 250);
    assert!(r.is_ok());
    let rows = s.list_conversations();
    assert_eq!(rows[0].title, "First");
}

#[test]
fn list_orders_most_recently_active_first() {
    let mut s = Store::new();
    s.create_conversation(Some("a".to_string()), "a".to_string(), 10).unwrap();
    s.create_conversation(Some("b".to_string()), "b".to_string(), 30).unwrap();
    s.create_conversation(Some("c".to_string()), "c".to_string(), 20).unwrap();
    let rows = s.list_conversations();
    let ids: Vec<&str> = rows.iter().map(|c| c.id.as_str()).collect();
    assert_eq!(ids, vec!["b", "c", "a"]);
    // appending to a conversation moves it to the front
    s.save_message(
        "a".to_string(),
        "user".to_string(),
        "hi".to_string(),
        None,
        None,
        None,
        "m1".to_string(),
        40,
    )
    .unwrap();
    let rows = s.list_conversations();
    assert_eq!(rows[0].id, "a");
    assert_eq!(rows[0].updated_at, 40);
}

#[test]
fn append_rejects_invalid_role_without_writing() {
    let mut s = seeded_store();
    let r = s.save_message(
        "c1".to_string(),
        "moderator".to_string(),
        "hello".to_string(),
        None,
        None,
        None,
        "m1".to_string(),
        150,
    );
    assert_eq!(r.unwrap_err(), StoreError::RoleInvalid);
    assert!(s.get_messages("c1".to_string()).is_empty());
    assert_eq!(s.list_conversations()[0].updated_at, 100);
}

#[test]
fn append_rejects_long_content_without_writing() {
    let mut s = seeded_store();
    let r = s.save_message(
        "c1".to_string(),
        "user".to_string(),
        "x".repeat(100_001),
        None,
        None,
        None,
        "m1".to_string(),
        150,
    );
    assert_eq!(r.unwrap_err(), StoreError::ContentTooLong);
    assert!(s.get_messages("c1".to_string()).is_empty());
}

#[test]
fn append_accepts_content_at_limit() {
    let mut s = seeded_store();
    let r = s.save_message(
        "c1".to_string(),
        "user".to_string(),
        "x".repeat(100_000),
        None,
        None,
        None,
        "m1".to_string(),
        150,
    );
    assert!(r.is_ok());
}

#[test]
fn append_rejects_long_model_without_writing() {
    let mut s = seeded_store();
    let r = s.save_message(
        "c1".to_string(),
        "assistant".to_string(),
        "hello".to_string(),
        Some("m".repeat(101)),
        None,
        None,
        "m1".to_string(),
        150,
    );
    assert_eq!(r.unwrap_err(), StoreError::ModelTooLong);
    assert!(s.get_messages("c1".to_string()).is_empty());
}

#[test]
fn append_rejects_negative_token_counts_without_writing() {
    let mut s = seeded_store();
    let r = s.save_message(
        "c1".to_string(),
        "assistant".to_string(),
        "hello".to_string(),
        None,
        Some(-1),
        None,
        "m1".to_string(),
        150,
    );
    assert_eq!(r.unwrap_err(), StoreError::TokensInNegative);
    let r = s.save_message(
        "c1".to_string(),
        "assistant".to_string(),
        "hello".to_string(),
        None,
        Some(3),
        Some(-7),
        "m2".to_string(),
        150,
    );
    assert_eq!(r.unwrap_err(), StoreError::TokensOutNegative);
    assert!(s.get_messages("c1".to_string()).is_empty());
}

#[test]
fn append_to_unknown_conversation_fails_opaquely() {
    let mut s = seeded_store();
    let r = s.save_message(
        "nope".to_string(),
        "user".to_string(),
        "hello".to_string(),
        None,
        None,
        None,
        "m1".to_string(),
        150,
    );
    let e = r.unwrap_err();
    assert_eq!(e, StoreError::Storage);
    assert_eq!(e.message(), "Operation failed");
}

#[test]
fn append_bumps_conversation_to_message_time() {
    let mut s = seeded_store();
    let m = s
        .save_message(
            "c1".to_string(),
            "user".to_string(),
            "hello".to_string(),
            None,
            None,
            None,
            "m1".to_string(),
            175,
        )
        .unwrap();
    assert_eq!(m.created_at, 175);
    let c = &s.list_conversations()[0];
    assert!(c.updated_at >= m.created_at);
    assert_eq!(c.updated_at, 175);
}

#[test]
fn messages_list_in_nondecreasing_created_at_order() {
    let mut s = Store::new();
    s.create_conversation(None, "c1".to_string(), 1).unwrap();
    s.create_conversation(None, "c2".to_string(), 1).unwrap();
    // interleave appends across conversations, including an out-of-order clock
    let appends = [
        ("c1", "m1", 50u64),
        ("c2", "m2", 10),
        ("c1", "m3", 20),
        ("c1", "m4", 50),
        ("c2", "m5", 60),
        ("c1", "m6", 40),
    ];
    for (conv, id, at) in appends {
        s.save_message(
            conv.to_string(),
            "user".to_string(),
            "hi".to_string(),
            None,
            None,
            None,
            id.to_string(),
            at,
        )
        .unwrap();
    }
    let msgs = s.get_messages("c1".to_string());
    let times: Vec<u64> = msgs.iter().map(|m| m.created_at).collect();
    assert_eq!(times, vec![20, 40, 50, 50]);
    for w in times.windows(2) {
        assert!(w[0] <= w[1]);
    }
    // equal timestamps keep insertion order
    let ids: Vec<&str> = msgs.iter().map(|m| m.id.as_str()).collect();
    assert_eq!(ids, vec!["m3", "m6", "m1", "m4"]);
    assert!(msgs.iter().all(|m| m.conversation_id == "c1"));
}

#[test]
fn delete_cascades_to_all_messages() {
    let mut s = Store::new();
    s.create_conversation(None, "c1".to_string(), 1).unwrap();
    s.create_conversation(None, "c2".to_string(), 1).unwrap();
    for (conv, id) in [("c1", "m1"), ("c1", "m2"), ("c2", "m3")] {
        s.save_message(
            conv.to_string(),
            "user".to_string(),
            "hi".to_string(),
            None,
            None,
            None,
            id.to_string(),
            9,
        )
        .unwrap();
    }
    s.delete_conversation("c1".to_string());
    assert!(s.get_messages("c1".to_string()).is_empty());
    let remaining = s.get_messages("c2".to_string());
    assert_eq!(remaining.len(), 1);
    assert_eq!(remaining[0].id, "m3");
    assert_eq!(s.list_conversations().len(), 1);
}

#[test]
fn delete_of_unknown_id_succeeds_silently() {
    let mut s = seeded_store();
    s.delete_conversation("ghostly".to_string());
    assert_eq!(s.list_conversations().len(), 1);
}

#[test]
fn full_conversation_scenario() {
    let mut s = Store::new();
    // create with no title
    let c = s.create_conversation(None, "c1".to_string(), 10).unwrap();
    assert_eq!(c.title, "New Conversation");
    let before = s.list_conversations()[0].updated_at;
    // append a user message
    s.save_message(
        "c1".to_string(),
        "user".to_string(),
        "hello".to_string(),
        None,
        None,
        None,
        "m1".to_string(),
        20,
    )
    .unwrap();
    let after = s.list_conversations()[0].updated_at;
    assert_ne!(after, before);
    // append an assistant message with token counts
    s.save_message(
        "c1".to_string(),
        "assistant".to_string(),
        "hi there".to_string(),
        Some("some-model".to_string()),
        Some(10),
        Some(5),
        "m2".to_string(),
        30,
    )
    .unwrap();
    let msgs = s.get_messages("c1".to_string());
    assert_eq!(msgs.len(), 2);
    assert_eq!(msgs[0].role, "user");
    assert_eq!(msgs[0].content, "hello");
    assert_eq!(msgs[1].role, "assistant");
    assert_eq!(msgs[1].tokens_in, Some(10));
    assert_eq!(msgs[1].tokens_out, Some(5));
    // delete removes the conversation and both messages
    s.delete_conversation("c1".to_string());
    assert!(s.list_conversations().is_empty());
    assert!(s.get_messages("c1".to_string()).is_empty());
}

#[test]
fn validation_error_messages_are_exact() {
    assert_eq!(
        StoreError::TitleTooLong.message(),
        "Title exceeds maximum length of 500 characters"
    );
    assert_eq!(
        StoreError::RoleInvalid.message(),
        "Invalid role: must be 'user', 'assistant', or 'system'"
    );
    assert_eq!(
        StoreError::ContentTooLong.message(),
        "Content exceeds maximum length of 100000 characters"
    );
    assert_eq!(
        StoreError::ModelTooLong.message(),
        "Model name exceeds maximum length of 100 characters"
    );
    assert_eq!(StoreError::TokensInNegative.message(), "tokens_in must be non-negative");
    assert_eq!(StoreError::TokensOutNegative.message(), "tokens_out must be non-negative");
    assert_eq!(muppet::store::storage_failure_message(), "Operation failed");
}
