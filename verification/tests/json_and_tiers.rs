use heart::brain::{assistant_record_at, user_turn_record};
use heart::clock::LocalMoment;
use heart::errors::{BrainError, MemoryManagerServiceError};
use heart::llm::{ChatMessage, ChatResponse};
use heart::memory::record::{metadata_get, metadata_to_json, record_from_columns, MemoryRecord};
use heart::memory::tiers::{gather_tier, records_to_migrate, select_oldest, MemoryTier, HOT_MEMORY_MAX_CAPACITY, WARM_MEMORY_MAX_CAPACITY};
use heart::turn::{begin_turn, welcome_back_context, PendingReply};

fn record(id: &str, created_at: &str) -> MemoryRecord {
    MemoryRecord {
        id: id.to_string(),
        metadata: vec![("content".to_string(), id.to_string())],
        created_at: created_at.to_string(),
        updated_at: created_at.to_string(),
        last_accessed_at: String::new(),
        access_count: 0,
    }
}

#[test]
fn record_from_columns_reads_metadata() {
    let r = record_from_columns(
        "id-1".to_string(),
        r#"{"role":"user","content":"hi","content":"hello"}"#,
        "100".to_string(),
        "200".to_string(),
        Some("2024-01-01T00:00:00+00:00".to_string()),
        Some(4),
    )
    .ok()
    .unwrap();
    assert_eq!(r.id, "id-1");
    assert_eq!(r.metadata, vec![("content".to_string(), "hello".to_string()), ("role".to_string(), "user".to_string())]);
    assert_eq!(r.created_at, "100");
    assert_eq!(r.updated_at, "200");
    assert_eq!(r.last_accessed_at, "2024-01-01T00:00:00+00:00");
    assert_eq!(r.access_count, 4);
}

#[test]
fn record_from_columns_defaults() {
    let r = record_from_columns("x".to_string(), "{}", "1".to_string(), "2".to_string(), None, None).ok().unwrap();
    assert!(r.metadata.is_empty());
    assert_eq!(r.last_accessed_at, "");
    assert_eq!(r.access_count, 0);
}

#[test]
fn record_from_columns_parse_errors() {
    for text in ["", "not json", "[1,2]", r#"{"a":1}"#, r#"{"a":"b""#] {
        match record_from_columns("x".to_string(), text, "1".to_string(), "2".to_string(), None, None) {
            Err(MemoryManagerServiceError::ParseError(m)) => assert!(!m.is_empty()),
            _ => panic!("expected a parse error for {:?}", text),
        }
    }
}

#[test]
fn metadata_json_text_and_back() {
    let m = vec![("role".to_string(), "user".to_string()), ("content".to_string(), "say \"hi\"".to_string())];
    let text = metadata_to_json(&m);
    assert_eq!(text, r#"{"content":"say \"hi\"","role":"user"}"#);
    let r = record_from_columns("x".to_string(), &text, "1".to_string(), "1".to_string(), None, None).ok().unwrap();
    assert_eq!(metadata_get(&r.metadata, "role"), Some("user".to_string()));
    assert_eq!(metadata_get(&r.metadata, "content"), Some("say \"hi\"".to_string()));
    assert_eq!(metadata_to_json(&Vec::new()), "{}");
}

#[test]
fn built_records_have_distinct_keys() {
    let sent = LocalMoment { text: "Monday 01 January 2024 00:00:00".to_string(), secs: 10, millis: 10_250 };
    let user = user_turn_record("hello", "0.5", "0.1", &sent, 4);
    let assistant = assistant_record_at("hi", &sent);
    for r in [user, assistant] {
        for i in 0..r.metadata.len() {
            for j in (i + 1)..r.metadata.len() {
                assert_ne!(r.metadata[i].0, r.metadata[j].0);
            }
        }
    }
}

#[test]
fn assistant_record_at_one_moment() {
    let sent = LocalMoment { text: "Monday 01 January 2024 00:00:00".to_string(), secs: 1_704_067_200, millis: 1_704_067_200_999 };
    let r = assistant_record_at("hi there", &sent);
    assert_eq!(r.created_at, "1704067200999");
    assert_eq!(r.updated_at, "1704067200999");
    assert_eq!(metadata_get(&r.metadata, "message_sent"), Some(sent.text.clone()));
    assert_eq!(metadata_get(&r.metadata, "content"), Some("hi there".to_string()));
    assert_eq!(r.last_accessed_at, "");
    assert_eq!(r.access_count, 0);
}

#[test]
fn replied_without_record_on_overflow() {
    let sent = LocalMoment { text: "now".to_string(), secs: 1, millis: 1_000 };
    let turn = PendingReply {
        request: vec![ChatMessage { role: "system".to_string(), content: "p".to_string() }],
        last_content: "hi".to_string(),
        birthday_ts: i64::MIN,
        sent,
        valence: "0".to_string(),
        arousal: "0".to_string(),
    };
    let (reply, record) = turn.replied(ChatResponse { role: "assistant".to_string(), content: "ok".to_string() });
    assert_eq!(reply.content, "ok");
    assert!(record.is_none());
}

#[test]
fn date_error_texts() {
    match welcome_back_context(i64::MAX, 0) {
        Err(BrainError::DateTimeError(m)) => assert_eq!(m, "Invalid birthday timestamp: 9223372036854775807"),
        _ => panic!("expected a date error"),
    }
    let turn = begin_turn(vec![ChatMessage { role: "user".to_string(), content: "hi".to_string() }]).ok().unwrap();
    match turn.emotion_felt(true, 0, i64::MIN, None, Ok("calm".to_string()), "0".to_string(), "0".to_string()) {
        Err(BrainError::DateTimeError(m)) => assert_eq!(m, "Invalid last connection timestamp: -9223372036854775808"),
        _ => panic!("expected a date error"),
    }
}

/// Moves the overflow of `tier` to `next` as the memory manager does.
fn migrate(tier: &mut Vec<MemoryRecord>, next: &mut Vec<MemoryRecord>, capacity: usize) {
    let n = records_to_migrate(tier.len(), capacity);
    let copies: Vec<MemoryRecord> = tier.iter().map(|r| record(&r.id, &r.created_at)).collect();
    let moved = select_oldest(copies, n);
    let ids: Vec<String> = moved.iter().map(|r| r.id.clone()).collect();
    tier.retain(|r| !ids.contains(&r.id));
    next.extend(moved);
}

#[test]
fn adding_memories_keeps_tiers_within_capacity() {
    let mut hot: Vec<MemoryRecord> = Vec::new();
    let mut warm: Vec<MemoryRecord> = Vec::new();
    let mut cold: Vec<MemoryRecord> = Vec::new();
    for i in 0..600u32 {
        hot.push(record(&format!("r{}", i), &format!("{:06}", i)));
        migrate(&mut hot, &mut warm, HOT_MEMORY_MAX_CAPACITY);
        migrate(&mut warm, &mut cold, WARM_MEMORY_MAX_CAPACITY);
        assert!(hot.len() <= HOT_MEMORY_MAX_CAPACITY);
        assert!(warm.len() <= WARM_MEMORY_MAX_CAPACITY);
        assert_eq!((hot.len() + warm.len() + cold.len()) as u32, i + 1);
    }
    assert_eq!(hot.len(), 50);
    assert_eq!(warm.len(), 500);
    assert_eq!(cold.len(), 50);
    assert_eq!(cold[0].id, "r0");
    assert_eq!(hot[0].id, "r550");
    let mut all: Vec<String> = hot.iter().chain(warm.iter()).chain(cold.iter()).map(|r| r.id.clone()).collect();
    all.sort();
    all.dedup();
    assert_eq!(all.len(), 600);
}

#[test]
fn search_gathers_tiers_in_order() {
    let mut found: Vec<(&str, MemoryTier)> = Vec::new();
    let next = gather_tier(&mut found, vec!["h1", "h2"], MemoryTier::Hot, 5);
    assert_eq!(next, Some(3));
    let next = gather_tier(&mut found, vec!["w1"], MemoryTier::Warm, 5);
    assert_eq!(next, Some(2));
    let next = gather_tier(&mut found, vec!["c1", "c2"], MemoryTier::Cold, 5);
    assert_eq!(next, None);
    let ids: Vec<&str> = found.iter().map(|p| p.0).collect();
    assert_eq!(ids, vec!["h1", "h2", "w1", "c1", "c2"]);
    assert!(matches!(found[0].1, MemoryTier::Hot));
    assert!(matches!(found[2].1, MemoryTier::Warm));
    assert!(matches!(found[4].1, MemoryTier::Cold));

    let mut full: Vec<(u32, MemoryTier)> = Vec::new();
    assert_eq!(gather_tier(&mut full, vec![1, 2, 3], MemoryTier::Hot, 3), None);
    let mut empty: Vec<(u32, MemoryTier)> = Vec::new();
    assert_eq!(gather_tier(&mut empty, Vec::new(), MemoryTier::Hot, 0), None);
}

#[test]
fn metadata_json_round_trip_keeps_every_key() {
    let m = vec![
        ("role".to_string(), "assistant".to_string()),
        ("content".to_string(), "line\nbreak \u{e9}".to_string()),
        ("valence".to_string(), "0.0".to_string()),
    ];
    let text = metadata_to_json(&m);
    let r = record_from_columns("x".to_string(), &text, "1".to_string(), "1".to_string(), None, None).ok().unwrap();
    for (k, v) in m.iter() {
        assert_eq!(metadata_get(&r.metadata, k), Some(v.clone()));
    }
    assert_eq!(r.metadata.len(), 3);
}
