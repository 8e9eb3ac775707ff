use web_term::errors::ChatError;
use web_term::ledger::{reload_from_snapshot, ChatStorage};

fn fresh() -> ChatStorage {
    ChatStorage::load(None).expect("an absent snapshot must load as an empty ledger")
}

#[test]
fn test_new_chat_saves_initial_conversation() {
    let mut storage = fresh();

    let chat_name = "test_chat";
    let run_id = "test_run_id";
    let user_message = "Hello, this is a test message";
    let ai_response = "Hello! I'm an AI assistant. How can I help you today?";

    storage.add_chat(chat_name, run_id).unwrap();

    let content = storage
        .store_chat_history(chat_name, user_message, ai_response)
        .expect("Chat file should exist");

    assert!(
        content.contains("User: Hello, this is a test message"),
        "File should contain user message with 'User:' prefix"
    );
    assert!(
        content.contains("AI: Hello! I'm an AI assistant. How can I help you today?"),
        "File should contain AI response with 'AI:' prefix"
    );
}

#[test]
fn test_continue_chat_appends_to_history() {
    let mut storage = fresh();

    let chat_name = "test_chat";
    let run_id = "test_run_id";
    let initial_user_message = "What's the weather like?";
    let initial_ai_response = "I don't have access to real-time weather data.";

    storage.add_chat(chat_name, run_id).unwrap();
    let mut content = storage
        .store_chat_history(chat_name, initial_user_message, initial_ai_response)
        .unwrap();

    let follow_up_user_message = "How about tomorrow's forecast?";
    let follow_up_ai_response = "I still don't have access to weather forecasts.";

    content += &storage
        .store_chat_history(chat_name, follow_up_user_message, follow_up_ai_response)
        .unwrap();

    assert!(
        content.contains("User: What's the weather like?"),
        "File should contain initial user message"
    );
    assert!(
        content.contains("AI: I don't have access to real-time weather data."),
        "File should contain initial AI response"
    );
    assert!(
        content.contains("User: How about tomorrow's forecast?"),
        "File should contain follow-up user message"
    );
    assert!(
        content.contains("AI: I still don't have access to weather forecasts."),
        "File should contain follow-up AI response"
    );

    let user1_pos = content.find("User: What's the weather like?").unwrap();
    let ai1_pos = content
        .find("AI: I don't have access to real-time weather data.")
        .unwrap();
    let user2_pos = content.find("User: How about tomorrow's forecast?").unwrap();
    let ai2_pos = content
        .find("AI: I still don't have access to weather forecasts.")
        .unwrap();

    assert!(
        user1_pos < ai1_pos,
        "Initial user message should come before initial AI response"
    );
    assert!(
        ai1_pos < user2_pos,
        "Initial AI response should come before follow-up user message"
    );
    assert!(
        user2_pos < ai2_pos,
        "Follow-up user message should come before follow-up AI response"
    );
}

#[test]
fn test_multiple_chats_separate_histories() {
    let mut storage = fresh();

    let chat1_name = "chat1";
    let run1_id = "run_id_1";
    let user1_message = "Tell me about Rust";
    let ai1_response = "Rust is a systems programming language...";

    let chat2_name = "chat2";
    let run2_id = "run_id_2";
    let user2_message = "Tell me about Python";
    let ai2_response = "Python is a high-level programming language...";

    storage.add_chat(chat1_name, run1_id).unwrap();
    let content1 = storage
        .store_chat_history(chat1_name, user1_message, ai1_response)
        .unwrap();

    storage.add_chat(chat2_name, run2_id).unwrap();
    let content2 = storage
        .store_chat_history(chat2_name, user2_message, ai2_response)
        .unwrap();

    assert!(
        content1.contains("User: Tell me about Rust"),
        "First chat file should contain first user message"
    );
    assert!(
        content1.contains("AI: Rust is a systems programming language..."),
        "First chat file should contain first AI response"
    );
    assert!(
        !content1.contains("Tell me about Python"),
        "First chat file should not contain second user message"
    );

    assert!(
        content2.contains("User: Tell me about Python"),
        "Second chat file should contain second user message"
    );
    assert!(
        content2.contains("AI: Python is a high-level programming language..."),
        "Second chat file should contain second AI response"
    );
    assert!(
        !content2.contains("Tell me about Rust"),
        "Second chat file should not contain first user message"
    );
}

#[test]
fn test_error_handling_for_nonexistent_chat() {
    let storage = fresh();

    let result = storage.store_chat_history(
        "nonexistent_chat",
        "This chat doesn't exist",
        "This should fail",
    );

    assert!(
        result.is_err(),
        "Storing history for nonexistent chat should fail"
    );
}

#[test]
fn test_chat_history_persists_after_reload() {
    let snapshot;
    let mut transcript;
    {
        let mut storage = fresh();

        let chat_name = "persistent_chat";
        let run_id = "persistent_run_id";
        let user_message = "Will this be saved?";
        let ai_response = "Yes, it will be saved!";

        storage.add_chat(chat_name, run_id).unwrap();
        transcript = storage
            .store_chat_history(chat_name, user_message, ai_response)
            .unwrap();

        snapshot = storage.snapshot_text();
    }

    {
        let storage =
            ChatStorage::load(Some(&snapshot)).expect("the saved snapshot must load back");

        let chat_name = "persistent_chat";
        let follow_up_message = "What about this message?";
        let follow_up_response = "This will also be saved!";

        transcript += &storage
            .store_chat_history(chat_name, follow_up_message, follow_up_response)
            .unwrap();

        assert!(
            transcript.contains("User: Will this be saved?"),
            "File should contain initial user message after reload"
        );
        assert!(
            transcript.contains("AI: Yes, it will be saved!"),
            "File should contain initial AI response after reload"
        );
        assert!(
            transcript.contains("User: What about this message?"),
            "File should contain follow-up user message"
        );
        assert!(
            transcript.contains("AI: This will also be saved!"),
            "File should contain follow-up AI response"
        );
    }
}

#[test]
fn two_chats_resolve_independently_and_list_both() {
    let mut storage = fresh();
    storage.add_chat("alpha", "sess_a").unwrap();
    storage.add_chat("beta", "sess_b").unwrap();

    assert_eq!(storage.get_run_id("alpha").unwrap(), "sess_a");
    assert_eq!(storage.get_run_id("beta").unwrap(), "sess_b");

    let mut names = storage.list_chats();
    names.sort();
    assert_eq!(names, vec!["alpha".to_string(), "beta".to_string()]);
}

#[test]
fn duplicate_name_is_rejected_and_state_untouched() {
    let mut storage = fresh();
    storage.add_chat("trip", "run_abc123").unwrap();
    let before = storage.snapshot_text();

    let result = storage.add_chat("trip", "run_other");
    assert_eq!(
        result.unwrap_err(),
        ChatError::DuplicateName("trip".to_string())
    );

    let after = storage.snapshot_text();
    assert_eq!(before, after, "a failed registration must not change the persisted state");
    assert_eq!(storage.get_run_id("trip").unwrap(), "run_abc123");
}

#[test]
fn unknown_name_fails_resolve_and_append() {
    let storage = fresh();

    assert_eq!(
        storage.get_run_id("ghost").unwrap_err(),
        ChatError::UnknownChat("ghost".to_string())
    );
    assert_eq!(
        storage
            .store_chat_history("ghost", "hello", "world")
            .unwrap_err(),
        ChatError::UnknownChat("ghost".to_string())
    );
}

#[test]
fn exchanges_keep_byte_order_in_transcript() {
    let mut storage = fresh();
    storage.add_chat("order", "run_1").unwrap();

    let mut transcript = storage.store_chat_history("order", "first question", "first answer").unwrap();
    transcript += &storage.store_chat_history("order", "second question", "second answer").unwrap();

    let u1 = transcript.find("first question").unwrap();
    let a1 = transcript.find("first answer").unwrap();
    let u2 = transcript.find("second question").unwrap();
    let a2 = transcript.find("second answer").unwrap();
    assert!(u1 < a1 && a1 < u2 && u2 < a2);
}

#[test]
fn persistence_round_trip_keeps_chats_and_transcript() {
    let mut storage = fresh();
    storage.add_chat("journal", "run_77").unwrap();
    let mut transcript = storage.store_chat_history("journal", "one", "two").unwrap();
    transcript += &storage.store_chat_history("journal", "three", "four").unwrap();

    let reloaded = ChatStorage::load(Some(&storage.snapshot_text())).unwrap();
    assert_eq!(reloaded.get_run_id("journal").unwrap(), "run_77");

    let again = reload_from_snapshot(&reloaded);
    assert_eq!(again.get_run_id("journal").unwrap(), "run_77");

    assert!(transcript.contains("User: one"));
    assert!(transcript.contains("AI: two"));
    assert!(transcript.contains("User: three"));
    assert!(transcript.contains("AI: four"));
}

#[test]
fn exchange_is_formatted_exactly() {
    let mut storage = fresh();
    storage.add_chat("trip", "run_abc123").unwrap();
    let block = storage
        .store_chat_history(
            "trip",
            "Plan a weekend in Kyoto",
            "Here are three itinerary options...",
        )
        .unwrap();
    assert_eq!(
        block,
        "User: Plan a weekend in Kyoto\nAI: Here are three itinerary options...\n\n"
    );
}

#[test]
fn corrupt_snapshot_is_rejected() {
    let result = ChatStorage::load(Some("not valid json"));
    assert_eq!(
        result.unwrap_err(),
        ChatError::CorruptState("not valid json".to_string())
    );
}

#[test]
fn handwritten_snapshot_loads() {
    let storage = ChatStorage::load(Some("{\"chats\":{\"a\":\"b\"}}")).unwrap();
    assert_eq!(storage.get_run_id("a").unwrap(), "b");
    assert_eq!(storage.list_chats(), vec!["a".to_string()]);
}

#[test]
fn empty_object_snapshot_means_no_chats() {
    let storage = ChatStorage::load(Some("{}")).unwrap();
    assert!(storage.list_chats().is_empty());
    assert!(storage.get_run_id("anything").is_err());
}
