use heart::brain::conversation_context;
use heart::errors::BrainError;
use heart::llm::{ChatMessage, ChatResponse};
use heart::memory::record::{metadata_get, MemoryRecord};
use heart::prompts::{chat_prompt_builder, welcome_back_prompt_builder};
use heart::turn::{begin_turn, welcome_back_context, welcome_back_request};

fn msg(role: &str, content: &str) -> ChatMessage {
    ChatMessage { role: role.to_string(), content: content.to_string() }
}

fn memory(content: &str) -> MemoryRecord {
    MemoryRecord {
        id: "id".to_string(),
        metadata: vec![("content".to_string(), content.to_string())],
        created_at: "1".to_string(),
        updated_at: "1".to_string(),
        last_accessed_at: String::new(),
        access_count: 0,
    }
}

#[test]
fn turn_on_no_messages_fails() {
    match begin_turn(Vec::new()) {
        Err(BrainError::InvalidMessageError(m)) => assert_eq!(m, "Messages vector is empty"),
        _ => panic!("expected an invalid message error"),
    }
}

#[test]
fn full_turn() {
    let turn = begin_turn(vec![msg("system", "old"), msg("user", "hi"), msg("assistant", "hello"), msg("user", "how are you?")])
        .ok()
        .unwrap();
    assert_eq!(turn.last_content, "how are you?");

    let turn = turn
        .emotion_felt(true, 0, 1_704_067_200, Some("terse".to_string()), Ok("happy".to_string()), "0.5".to_string(), "0.2".to_string())
        .ok()
        .unwrap();
    assert_eq!(turn.query, "how are you?\nhello\nhi");
    assert_eq!(
        turn.context,
        conversation_context(true, "Thursday 01 January 1970 00:00:00", &turn.sent.text, "Monday 01 January 2024 00:00:00")
    );
    let context = turn.context.clone();

    let turn = turn.memories_found(&vec![memory("we met yesterday"), memory("you like tea")]);
    assert_eq!(turn.request.len(), 4);
    assert_eq!(turn.request[0].role, "system");
    assert_eq!(
        turn.request[0].content,
        chat_prompt_builder(&context, "happy", Some("we met yesterday\nyou like tea"), Some("terse"))
    );
    assert_eq!(turn.request[1].content, "hi");
    assert_eq!(turn.request[3].content, "how are you?");

    let sent_secs = turn.sent.secs;
    let sent_millis = turn.sent.millis;
    let (reply, record) = turn.replied(ChatResponse { role: "assistant".to_string(), content: "great!".to_string() });
    let record = record.unwrap();
    assert_eq!(reply.content, "great!");
    assert_eq!(record.created_at, sent_millis.to_string());
    assert_eq!(record.updated_at, record.created_at);
    assert_eq!(record.last_accessed_at, "");
    assert_eq!(record.access_count, 0);
    assert_eq!(record.id.len(), 36);
    assert_eq!(&record.id[8..9], "-");
    assert_eq!(metadata_get(&record.metadata, "content"), Some("how are you?".to_string()));
    assert_eq!(metadata_get(&record.metadata, "valence"), Some("0.5".to_string()));
    assert_eq!(metadata_get(&record.metadata, "past_time"), Some(sent_secs.to_string()));
}

#[test]
fn turn_date_errors_come_before_label_errors() {
    let label_error: Result<String, BrainError> = Err(BrainError::StoreError("label".to_string()));
    let turn = begin_turn(vec![msg("user", "hi")]).ok().unwrap();
    match turn.emotion_felt(false, i64::MAX, 0, None, label_error, "0".to_string(), "0".to_string()) {
        Err(BrainError::DateTimeError(m)) => assert_eq!(m, "Invalid birthday timestamp: 9223372036854775807"),
        _ => panic!("expected a date error"),
    }
    let turn = begin_turn(vec![msg("user", "hi")]).ok().unwrap();
    let label_error: Result<String, BrainError> = Err(BrainError::StoreError("label".to_string()));
    match turn.emotion_felt(false, 0, 0, None, label_error, "0".to_string(), "0".to_string()) {
        Err(BrainError::StoreError(m)) => assert_eq!(m, "label"),
        _ => panic!("expected the label's error"),
    }
}

#[test]
fn turn_without_memories_leaves_them_out() {
    let turn = begin_turn(vec![msg("user", "hi")]).ok().unwrap();
    let turn = turn
        .emotion_felt(false, 0, 0, Some(String::new()), Ok("calm".to_string()), "0".to_string(), "0".to_string())
        .ok()
        .unwrap();
    let context = turn.context.clone();
    assert!(context.ends_with(" \nLast time you spoke to each other"));
    let turn = turn.memories_found(&Vec::new());
    assert_eq!(turn.request.len(), 2);
    assert_eq!(turn.request[0].content, chat_prompt_builder(&context, "calm", None, None));
}

#[test]
fn welcome_back_steps() {
    let context = welcome_back_context(0, 1_704_067_200).ok().unwrap();
    assert!(context.starts_with("Date of your birth : Thursday 01 January 1970 00:00:00, \nToday date : "));
    assert!(context.ends_with(", \nLast time you spoke to each other  : Monday 01 January 2024 00:00:00"));
    match welcome_back_context(0, i64::MIN) {
        Err(BrainError::DateTimeError(m)) => assert_eq!(m, "Invalid last connection timestamp: -9223372036854775808"),
        _ => panic!("expected a date error"),
    }
    let messages = welcome_back_request("ctx", "memories", "calm", Some(String::new()));
    assert_eq!(messages.len(), 2);
    assert_eq!(messages[0].content, welcome_back_prompt_builder("ctx", "memories", "calm", None));
    assert_eq!(messages[1].content, "*user just came back*");
    let messages = welcome_back_request("ctx", "memories", "calm", Some("chatty".to_string()));
    assert_eq!(messages[0].content, welcome_back_prompt_builder("ctx", "memories", "calm", Some("chatty")));
}
