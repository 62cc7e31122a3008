use heart::brain::{
    assistant_turn_record, conversation_context, elapsed_since_birth, install_system_message, last_message_content,
    memory_contents_text, memory_past_time, personality_update_due, relevant_memory_query, timestamp_date,
    turn_context, user_messages_text, user_turn_record, welcome_back_messages,
};
use heart::clock::{Instant, LocalMoment};
use heart::errors::{
    BrainError, EmbeddingServiceError, EmotionServiceError, LLMServiceError, MemoryManagerServiceError,
    ThoughtServiceError,
};
use heart::llm::ChatMessage;
use heart::memory::record::{metadata_get, new_memory_record, MemoryRecord};
use heart::memory::tiers::{
    apply_access, is_recently_accessed, plan_promotion, promotion_due_at, record_access, records_to_migrate,
    remaining_request, select_oldest, should_promote_memory, MemoryTier, PromotionMove, HOT_MEMORY_MAX_CAPACITY,
    WARM_MEMORY_MAX_CAPACITY,
};

fn record(id: &str, created_at: &str, content: Option<&str>, role: &str, count: u32) -> MemoryRecord {
    let mut metadata = vec![("role".to_string(), role.to_string())];
    if let Some(c) = content {
        metadata.push(("content".to_string(), c.to_string()));
    }
    MemoryRecord {
        id: id.to_string(),
        metadata,
        created_at: created_at.to_string(),
        updated_at: created_at.to_string(),
        last_accessed_at: String::new(),
        access_count: count,
    }
}

fn msg(role: &str, content: &str) -> ChatMessage {
    ChatMessage { role: role.to_string(), content: content.to_string() }
}

#[test]
fn select_oldest_sorts_by_creation_and_truncates() {
    let records = vec![
        record("c", "1700000000300", None, "user", 0),
        record("a", "1700000000100", None, "user", 0),
        record("b", "1700000000200", None, "user", 0),
        record("d", "1700000000050", None, "user", 0),
    ];
    let out = select_oldest(records, 3);
    let ids: Vec<&str> = out.iter().map(|r| r.id.as_str()).collect();
    assert_eq!(ids, vec!["d", "a", "b"]);
}

#[test]
fn select_oldest_is_stable_and_uses_text_order() {
    let records = vec![
        record("x", "20", None, "user", 0),
        record("y", "100", None, "user", 0),
        record("z", "20", None, "user", 0),
    ];
    let out = select_oldest(records, 10);
    let ids: Vec<&str> = out.iter().map(|r| r.id.as_str()).collect();
    assert_eq!(ids, vec!["y", "x", "z"]);
    assert!(select_oldest(Vec::new(), 5).is_empty());
    assert!(select_oldest(vec![record("q", "1", None, "user", 0)], 0).is_empty());
}

#[test]
fn migration_counts() {
    assert_eq!(HOT_MEMORY_MAX_CAPACITY, 50);
    assert_eq!(WARM_MEMORY_MAX_CAPACITY, 500);
    assert_eq!(records_to_migrate(51, HOT_MEMORY_MAX_CAPACITY), 1);
    assert_eq!(records_to_migrate(50, HOT_MEMORY_MAX_CAPACITY), 0);
    assert_eq!(records_to_migrate(7, HOT_MEMORY_MAX_CAPACITY), 0);
    assert_eq!(records_to_migrate(620, WARM_MEMORY_MAX_CAPACITY), 120);
}

#[test]
fn search_requests() {
    assert_eq!(remaining_request(3, 0), Some(3));
    assert_eq!(remaining_request(3, 2), Some(1));
    assert_eq!(remaining_request(3, 3), None);
    assert_eq!(remaining_request(0, 0), None);
}

#[test]
fn apply_access_counts_and_routes() {
    let tagged = vec![
        (record("a", "1", Some("x"), "user", 0), MemoryTier::Hot),
        (record("b", "2", Some("y"), "user", 4), MemoryTier::Warm),
        (record("a", "1", Some("x"), "user", 2), MemoryTier::Cold),
    ];
    let now = "2024-01-01T00:00:00+00:00".to_string();
    let out = apply_access(tagged, &now);
    assert_eq!(out.len(), 3);
    assert_eq!(out[0].0.access_count, 1);
    assert!(matches!(out[0].1, MemoryTier::Cold));
    assert!(matches!(out[1].1, MemoryTier::Warm));
    assert_eq!(out[1].0.access_count, 5);
    assert_eq!(out[1].0.last_accessed_at, now);
    assert_eq!(out[1].0.updated_at, now);
    assert_eq!(out[1].0.created_at, "2");
    assert!(matches!(out[2].1, MemoryTier::Cold));
    assert_eq!(out[2].0.access_count, 3);
}

#[test]
fn record_access_uses_the_clock() {
    let tagged = vec![(record("a", "1", None, "user", 9), MemoryTier::Hot)];
    let (out, now) = record_access(tagged);
    assert_eq!(out[0].0.access_count, 10);
    assert_eq!(out[0].0.last_accessed_at, out[0].0.updated_at);
    let t = chrono::DateTime::parse_from_rfc3339(&out[0].0.last_accessed_at).unwrap();
    assert_eq!(t.timestamp(), now.secs);
    assert_eq!(t.timestamp_subsec_nanos(), now.nanos);
    assert!(is_recently_accessed(&out[0].0.last_accessed_at, now));
}

#[test]
fn recency_of_access() {
    let now = Instant { secs: 1_704_153_600, nanos: 0 };
    assert!(is_recently_accessed("2024-01-01T01:00:00Z", now));
    assert!(is_recently_accessed("2024-01-01T00:00:01Z", now));
    assert!(!is_recently_accessed("2024-01-01T00:00:00Z", now));
    assert!(!is_recently_accessed("2023-12-25T00:00:00+00:00", now));
    assert!(is_recently_accessed("2024-01-02T05:00:00Z", now));
    assert!(!is_recently_accessed("", now));
    assert!(!is_recently_accessed("yesterday", now));
}

#[test]
fn promotion_decisions() {
    let now = Instant { secs: 1_704_153_600, nanos: 0 };
    let mut r = record("a", "1", None, "user", 3);
    r.last_accessed_at = "2024-01-01T12:00:00Z".to_string();
    assert!(promotion_due_at(&r, now));
    r.last_accessed_at = "2023-12-01T12:00:00Z".to_string();
    assert!(!promotion_due_at(&r, now));
    r.access_count = 5;
    assert!(promotion_due_at(&r, now));
    assert!(should_promote_memory(&r));
    r.access_count = 2;
    r.last_accessed_at = chrono::Utc::now().to_rfc3339();
    assert!(!should_promote_memory(&r));
    r.access_count = 3;
    assert!(should_promote_memory(&r));
}

#[test]
fn promotion_moves_one_tier_up() {
    match plan_promotion(record("a", "1", None, "user", 3), Some(MemoryTier::Cold)) {
        PromotionMove::ColdToWarm(r) => {
            assert_eq!(r.id, "a");
            assert_eq!(r.access_count, 0);
        }
        _ => panic!("expected a move to the warm tier"),
    }
    match plan_promotion(record("b", "1", None, "user", 7), Some(MemoryTier::Warm)) {
        PromotionMove::WarmToHot(r) => assert_eq!(r.access_count, 0),
        _ => panic!("expected a move to the hot tier"),
    }
    assert!(matches!(plan_promotion(record("c", "1", None, "user", 2), Some(MemoryTier::Cold)), PromotionMove::Stay));
    assert!(matches!(plan_promotion(record("d", "1", None, "user", 4), Some(MemoryTier::Warm)), PromotionMove::Stay));
    assert!(matches!(plan_promotion(record("e", "1", None, "user", 9), None), PromotionMove::Stay));
    assert!(matches!(plan_promotion(record("f", "1", None, "user", 9), Some(MemoryTier::Hot)), PromotionMove::Stay));
}

#[test]
fn metadata_lookup_and_new_records() {
    let m = vec![("role".to_string(), "user".to_string()), ("content".to_string(), "hi".to_string())];
    assert_eq!(metadata_get(&m, "content"), Some("hi".to_string()));
    assert_eq!(metadata_get(&m, "valence"), None);
    let r = new_memory_record(m, 1_704_067_200_123);
    assert_eq!(r.id.len(), 36);
    assert_eq!(&r.id[8..9], "-");
    assert_eq!(r.created_at, "1704067200123");
    assert_eq!(r.updated_at, "1704067200123");
    assert_eq!(r.last_accessed_at, "");
    assert_eq!(r.access_count, 0);
    let other = new_memory_record(Vec::new(), 0);
    assert_ne!(r.id, other.id);
}

#[test]
fn last_message_content_requires_messages() {
    match last_message_content(&Vec::new()) {
        Err(BrainError::InvalidMessageError(m)) => assert_eq!(m, "Messages vector is empty"),
        _ => panic!("expected an invalid message error"),
    }
    let msgs = vec![msg("user", "first"), msg("assistant", "second"), msg("user", "third")];
    assert_eq!(last_message_content(&msgs).ok(), Some("third".to_string()));
}

#[test]
fn conversation_context_texts() {
    assert_eq!(
        conversation_context(true, "B", "T", "L"),
        "Date of your birth : B, \nToday date : T, \nLast time you spoke to each other  : L"
    );
    assert_eq!(
        conversation_context(false, "B", "T", "L"),
        "Date of your birth : B, \nToday date : T \nLast time you spoke to each other"
    );
}

#[test]
fn timestamp_dates() {
    assert_eq!(timestamp_date(0, "birthday").ok(), Some("Thursday 01 January 1970 00:00:00".to_string()));
    assert_eq!(timestamp_date(1_704_067_200, "birthday").ok(), Some("Monday 01 January 2024 00:00:00".to_string()));
    match timestamp_date(i64::MAX, "birthday") {
        Err(BrainError::DateTimeError(m)) => assert_eq!(m, "Invalid birthday timestamp: 9223372036854775807"),
        _ => panic!("expected a date error"),
    }
}

#[test]
fn turn_context_checks_both_dates() {
    match turn_context(true, i64::MIN, 0) {
        Err(BrainError::DateTimeError(m)) => assert_eq!(m, "Invalid birthday timestamp: -9223372036854775808"),
        _ => panic!("expected a birthday error"),
    }
    match turn_context(false, 0, i64::MAX) {
        Err(BrainError::DateTimeError(m)) => {
            assert_eq!(m, "Invalid last connection timestamp: 9223372036854775807")
        }
        _ => panic!("expected a last connection error"),
    }
    let (ctx, now) = turn_context(true, 0, 1_704_067_200).ok().unwrap();
    assert_eq!(
        ctx,
        format!(
            "Date of your birth : Thursday 01 January 1970 00:00:00, \nToday date : {}, \nLast time you spoke to each other  : Monday 01 January 2024 00:00:00",
            now.text
        )
    );
    assert!(now.millis / 1000 - now.secs <= 1);
}

#[test]
fn relevant_memory_query_takes_last_three_newest_first() {
    assert!(relevant_memory_query(&Vec::new()).is_none());
    let msgs = vec![msg("user", "a"), msg("assistant", "b"), msg("user", "c"), msg("assistant", "d")];
    assert_eq!(relevant_memory_query(&msgs), Some("d\nc\nb".to_string()));
    assert_eq!(relevant_memory_query(&vec![msg("user", "only")]), Some("only".to_string()));
}

#[test]
fn memory_contents_text_skips_records_without_content() {
    let records = vec![
        record("1", "1", Some("first"), "user", 0),
        record("2", "2", None, "user", 0),
        record("3", "3", Some("third"), "assistant", 0),
        record("4", "4", Some("fourth"), "user", 0),
    ];
    assert_eq!(memory_contents_text(&records, 10), "first\nthird\nfourth");
    assert_eq!(memory_contents_text(&records, 3), "first\nthird");
    assert_eq!(memory_contents_text(&records, 0), "");
}

#[test]
fn system_message_replaces_or_leads() {
    let msgs = vec![msg("system", "old"), msg("user", "hi")];
    let out = install_system_message(msgs, "new prompt".to_string());
    assert_eq!(out.len(), 2);
    assert_eq!(out[0].role, "system");
    assert_eq!(out[0].content, "new prompt");
    assert_eq!(out[1].content, "hi");
    let out = install_system_message(vec![msg("user", "hi")], "p".to_string());
    assert_eq!(out.len(), 2);
    assert_eq!(out[0].role, "system");
    assert_eq!(out[1].role, "user");
    let out = install_system_message(Vec::new(), "p".to_string());
    assert_eq!(out.len(), 1);
}

#[test]
fn welcome_back_conversation() {
    let out = welcome_back_messages("prompt".to_string());
    assert_eq!(out.len(), 2);
    assert_eq!(out[0].role, "system");
    assert_eq!(out[1].role, "user");
    assert_eq!(out[1].content, "*user just came back*");
}

#[test]
fn user_turn_record_metadata() {
    let sent = LocalMoment { text: "Monday 01 January 2024 00:00:00".to_string(), secs: 1_704_067_200, millis: 1_704_067_200_500 };
    let r = user_turn_record("hello", "0.5", "-0.25", &sent, 1_704_000_000);
    assert_eq!(metadata_get(&r.metadata, "role"), Some("user".to_string()));
    assert_eq!(metadata_get(&r.metadata, "content"), Some("hello".to_string()));
    assert_eq!(metadata_get(&r.metadata, "valence"), Some("0.5".to_string()));
    assert_eq!(metadata_get(&r.metadata, "arousal"), Some("-0.25".to_string()));
    assert_eq!(metadata_get(&r.metadata, "message_sent"), Some(sent.text.clone()));
    assert_eq!(metadata_get(&r.metadata, "past_time"), Some("67200".to_string()));
    assert_eq!(r.created_at, "1704067200500");
    assert_eq!(memory_past_time(&r), 67200);
}

#[test]
fn assistant_turn_record_metadata() {
    let r = assistant_turn_record("hi there");
    assert_eq!(metadata_get(&r.metadata, "role"), Some("assistant".to_string()));
    assert_eq!(metadata_get(&r.metadata, "valence"), Some("0.0".to_string()));
    assert_eq!(metadata_get(&r.metadata, "arousal"), Some("0.0".to_string()));
    assert!(metadata_get(&r.metadata, "past_time").is_none());
    assert_eq!(r.created_at, r.updated_at);
    assert!(r.created_at.parse::<i64>().is_ok());
    assert_eq!(memory_past_time(&r), 0);
}

#[test]
fn past_time_defaults() {
    let mut r = record("a", "1", Some("x"), "user", 0);
    assert_eq!(memory_past_time(&r), 0);
    r.metadata.push(("past_time".to_string(), "oops".to_string()));
    assert_eq!(memory_past_time(&r), 0);
    r.metadata[2].1 = "-15".to_string();
    assert_eq!(memory_past_time(&r), -15);
}

#[test]
fn emotion_elapsed_time() {
    assert_eq!(elapsed_since_birth(1_704_067_200, 1_704_000_000), 67_200);
    assert_eq!(elapsed_since_birth(5, 5), 0);
}

#[test]
fn personality_update_interval() {
    assert!(!personality_update_due(1_000_000, 1_000_000 - 86_399));
    assert!(personality_update_due(1_000_000, 1_000_000 - 86_400));
    assert!(personality_update_due(100_000, 0));
}

#[test]
fn user_messages_text_collects_user_contents() {
    let records = vec![
        record("1", "1", Some("hi"), "user", 0),
        record("2", "2", Some("hello!"), "assistant", 0),
        record("3", "3", None, "user", 0),
        record("4", "4", Some("how are you"), "user", 0),
    ];
    assert_eq!(user_messages_text(&records), Some("hi\nhow are you".to_string()));
    assert_eq!(user_messages_text(&vec![record("2", "2", Some("x"), "assistant", 0)]), None);
    assert_eq!(user_messages_text(&Vec::new()), None);
}

#[test]
fn error_messages() {
    assert_eq!(MemoryManagerServiceError::FsError("disk".to_string()).message(), "File system error: disk");
    assert_eq!(
        MemoryManagerServiceError::LanceDbError("x".to_string()).message(),
        "LanceDB error (vector database): x"
    );
    assert_eq!(EmotionServiceError::PredictorError("p".to_string()).message(), "Predictor error: p");
    assert_eq!(
        EmotionServiceError::from_memory_error(&MemoryManagerServiceError::ParseError("bad".to_string())).message(),
        "Memory manager error: Parse error: bad"
    );
    assert_eq!(EmbeddingServiceError::FastEmbedError("m".to_string()).message(), "FastEmbed error: m");
    assert_eq!(LLMServiceError::Other("o".to_string()).message(), "Other error: o");
    let t: ThoughtServiceError = LLMServiceError::ReqwestError("down".to_string()).into();
    assert_eq!(t.message(), "LLM error: Reqwest error: down");
    let b: BrainError = t.into();
    assert_eq!(b.message(), "Thought service error: LLM error: Reqwest error: down");
    let b: BrainError = MemoryManagerServiceError::FsError("f".to_string()).into();
    assert_eq!(b.message(), "Memory manager error: File system error: f");
    assert_eq!(BrainError::DateTimeError("d".to_string()).message(), "Date time error: d");
    assert_eq!(BrainError::from_ordering(std::cmp::Ordering::Less).message(), "Ordering error: Less");
    assert_eq!(BrainError::from_ordering(std::cmp::Ordering::Greater).message(), "Ordering error: Greater");
    let e = serde_json::from_str::<u32>("nope").unwrap_err();
    let text = e.to_string();
    let b: BrainError = e.into();
    assert_eq!(b.message(), format!("Serde error: {}", text));
}
