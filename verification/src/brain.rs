//! The decisions of a conversation turn: checking the messages, the date
//! context of the prompt, the memories that go into it, the system message,
//! the records that remember the turn, and the background updates of the
//! companion's personality and emotions.
use vstd::prelude::*;
use crate::clock::{DATE_PATTERN, LocalMoment, local_now, utc_formatted, utc_timestamp_text};
use crate::errors::BrainError;
use crate::llm::ChatMessage;
use crate::memory::record::{
    MemoryRecord, keys_distinct, lemma_lookup_distinct, lookup, meta, metadata_get, metadata_keys_distinct,
    metadata_view, new_memory_record,
};
use crate::numbers::{i64_to_decimal, int_decimal, parse_i64, parsed_i64};
use crate::text::{join_seqs, join_texts, string_views, text_copy, text_eq};

verus! {

/// The role of the system prompt.
pub const SYSTEM_ROLE: &'static str = "system";

/// The role of the user's messages.
pub const USER_ROLE: &'static str = "user";

/// The role of the companion's messages.
pub const ASSISTANT_ROLE: &'static str = "assistant";

/// The message that stands for the user coming back.
pub const USER_CAME_BACK: &'static str = "*user just came back*";

/// The seconds that must pass between two updates of the writing style.
pub const PERSONALITY_UPDATE_INTERVAL_SECS: i64 = 86400;

/// How many of the latest messages make the query for relevant memories.
pub const MEMORY_QUERY_MESSAGES: usize = 3;

/// How many memories a welcome back recalls.
pub const WELCOME_BACK_MEMORIES: usize = 3;

/// The content of the last message; an error when there is none.
pub fn last_message_content(messages: &Vec<ChatMessage>) -> (r: Result<String, BrainError>)
    ensures
        messages@.len() == 0 ==> (r matches Err(BrainError::InvalidMessageError(m))
            && m@ == "Messages vector is empty"@),
        messages@.len() > 0 ==> (r matches Ok(c) && c@ == messages@.last().content@),
{
    if messages.len() == 0 {
        return Err(BrainError::InvalidMessageError(text_copy("Messages vector is empty")));
    }
    Ok(text_copy(messages[messages.len() - 1].content.as_str()))
}

/// The date context of a turn: when the companion was born, today, and,
/// once the first message was sent, when the two last spoke.
pub open spec fn context_text(first_message_sent: bool, birthday: Seq<char>, today: Seq<char>, last: Seq<char>) -> Seq<char> {
    if first_message_sent {
        "Date of your birth : "@ + birthday + ", \nToday date : "@ + today
            + ", \nLast time you spoke to each other  : "@ + last
    } else {
        "Date of your birth : "@ + birthday + ", \nToday date : "@ + today
            + " \nLast time you spoke to each other"@
    }
}

/// The date context shows its "today" whole, just after the birthday: two
/// contexts with the same birthday and last connection are the same only
/// when their "today" is.
pub proof fn lemma_context_shows_today(birthday: Seq<char>, today: Seq<char>, other: Seq<char>, last: Seq<char>)
    ensures
        context_text(true, birthday, today, last).subrange(
            21 + birthday.len() as int,
            21 + birthday.len() + 16 + today.len() as int,
        ) == ", \nToday date : "@ + today,
        context_text(true, birthday, today, last) == context_text(true, birthday, other, last) ==> today == other,
{
    reveal_strlit("Date of your birth : ");
    reveal_strlit(", \nToday date : ");
    reveal_strlit(", \nLast time you spoke to each other  : ");
    let head = "Date of your birth : "@ + birthday + ", \nToday date : "@;
    let tail = ", \nLast time you spoke to each other  : "@ + last;
    let c1 = context_text(true, birthday, today, last);
    let c2 = context_text(true, birthday, other, last);
    assert(c1 =~= head + today + tail);
    assert(c2 =~= head + other + tail);
    assert(c1.subrange(21 + birthday.len() as int, 21 + birthday.len() + 16 + today.len() as int) =~= ", \nToday date : "@ + today);
    if c1 == c2 {
        assert(today.len() == other.len());
        assert(today =~= c1.subrange(head.len() as int, head.len() + today.len() as int));
        assert(other =~= c2.subrange(head.len() as int, head.len() + other.len() as int));
    }
}

/// The date context of a turn from its dates already written out.
pub fn conversation_context(first_message_sent: bool, birthday: &str, today: &str, last: &str) -> (s: String)
    ensures
        s@ == context_text(first_message_sent, birthday@, today@, last@),
{
    let mut s = text_copy("Date of your birth : ");
    s.append(birthday);
    s.append(", \nToday date : ");
    s.append(today);
    if first_message_sent {
        s.append(", \nLast time you spoke to each other  : ");
        s.append(last);
    } else {
        s.append(" \nLast time you spoke to each other");
    }
    s
}

/// The date of the Unix timestamp `ts` written out, or the error naming what
/// it is the timestamp of (`what`) when it is out of the calendar's range.
pub fn timestamp_date(ts: i64, what: &str) -> (r: Result<String, BrainError>)
    ensures
        match r {
            Ok(t) => utc_formatted(ts as int, DATE_PATTERN@) == Some(t@),
            Err(BrainError::DateTimeError(m)) => utc_formatted(ts as int, DATE_PATTERN@) is None
                && m@ == "Invalid "@ + what@ + " timestamp: "@ + int_decimal(ts as int),
            Err(_) => false,
        },
{
    match utc_timestamp_text(ts, DATE_PATTERN) {
        Some(t) => Ok(t),
        None => {
            let mut m = text_copy("Invalid ");
            m.append(what);
            m.append(" timestamp: ");
            let n = i64_to_decimal(ts);
            m.append(n.as_str());
            Err(BrainError::DateTimeError(m))
        },
    }
}

/// The date context of a turn taken now: the birthday and the last
/// connection are written out first, each failing with its own error when
/// out of range, then the current local moment is read; it is returned with
/// the context, whose "today" it is.
pub fn turn_context(first_message_sent: bool, birthday_ts: i64, last_connection_ts: i64) -> (r: Result<
    (String, LocalMoment),
    BrainError,
>)
    ensures
        utc_formatted(birthday_ts as int, DATE_PATTERN@) is None ==> (r matches Err(
            BrainError::DateTimeError(m),
        ) && m@ == "Invalid birthday timestamp: "@ + int_decimal(birthday_ts as int)),
        utc_formatted(birthday_ts as int, DATE_PATTERN@) is Some && utc_formatted(
            last_connection_ts as int,
            DATE_PATTERN@,
        ) is None ==> (r matches Err(BrainError::DateTimeError(m)) && m@
            == "Invalid last connection timestamp: "@ + int_decimal(last_connection_ts as int)),
        r matches Ok((ctx, now)) ==> ctx@ == context_text(
            first_message_sent,
            utc_formatted(birthday_ts as int, DATE_PATTERN@).unwrap(),
            now.text@,
            utc_formatted(last_connection_ts as int, DATE_PATTERN@).unwrap(),
        ),
        (r is Ok) == (utc_formatted(birthday_ts as int, DATE_PATTERN@) is Some && utc_formatted(
            last_connection_ts as int,
            DATE_PATTERN@,
        ) is Some),
{
    let birthday = match timestamp_date(birthday_ts, "birthday") {
        Ok(t) => t,
        Err(e) => {
            proof {
                reveal_strlit("Invalid ");
                reveal_strlit(" timestamp: ");
                reveal_strlit("Invalid birthday timestamp: ");
                reveal_strlit("birthday");
                assert("Invalid "@ + "birthday"@ + " timestamp: "@ =~= "Invalid birthday timestamp: "@);
            }
            return Err(e);
        },
    };
    let last = match timestamp_date(last_connection_ts, "last connection") {
        Ok(t) => t,
        Err(e) => {
            proof {
                reveal_strlit("Invalid ");
                reveal_strlit(" timestamp: ");
                reveal_strlit("Invalid last connection timestamp: ");
                reveal_strlit("last connection");
                assert("Invalid "@ + "last connection"@ + " timestamp: "@
                    =~= "Invalid last connection timestamp: "@);
            }
            return Err(e);
        },
    };
    let now = local_now(DATE_PATTERN);
    let ctx = conversation_context(first_message_sent, birthday.as_str(), now.text.as_str(), last.as_str());
    Ok((ctx, now))
}

/// The contents of the last `n` messages, newest first.
pub open spec fn latest_contents(messages: Seq<ChatMessage>, n: nat) -> Seq<Seq<char>> {
    let k = if n < messages.len() { n } else { messages.len() };
    Seq::new(k, |i: int| messages[messages.len() - 1 - i].content@)
}

/// The text that looks up memories relevant to the conversation: the last
/// `MEMORY_QUERY_MESSAGES` messages, newest first, one per line; `None` when
/// there are no messages, and then nothing is looked up.
pub fn relevant_memory_query(messages: &Vec<ChatMessage>) -> (q: Option<String>)
    ensures
        messages@.len() == 0 ==> q is None,
        messages@.len() > 0 ==> (q matches Some(t) && t@ == join_seqs(
            latest_contents(messages@, MEMORY_QUERY_MESSAGES as nat),
            "\n"@,
        )),
{
    if messages.len() == 0 {
        return None;
    }
    let mut parts: Vec<String> = Vec::new();
    let mut i: usize = 0;
    let n = messages.len();
    let k = if MEMORY_QUERY_MESSAGES < n { MEMORY_QUERY_MESSAGES } else { n };
    while i < k
        invariant
            i <= k,
            k <= n == messages@.len(),
            k == if (MEMORY_QUERY_MESSAGES as nat) < n { MEMORY_QUERY_MESSAGES as nat } else { n as nat },
            string_views(parts@) =~= latest_contents(messages@, MEMORY_QUERY_MESSAGES as nat).take(i as int),
        decreases k - i,
    {
        let c = text_copy(messages[n - 1 - i].content.as_str());
        let ghost before = parts@;
        parts.push(c);
        proof {
            let lc = latest_contents(messages@, MEMORY_QUERY_MESSAGES as nat);
            assert(c@ == lc[i as int]);
            assert(parts@ =~= before.push(c));
            assert(string_views(parts@) =~= string_views(before).push(c@));
            assert(string_views(parts@) =~= lc.take(i + 1));
        }
        i = i + 1;
    }
    let out = join_texts(&parts, "\n");
    proof {
        let lc = latest_contents(messages@, MEMORY_QUERY_MESSAGES as nat);
        assert(lc.take(k as int) =~= lc);
    }
    Some(out)
}

/// The `content` of each record that has one, in order.
pub open spec fn contents(records: Seq<MemoryRecord>) -> Seq<Seq<char>>
    decreases records.len(),
{
    if records.len() == 0 {
        Seq::empty()
    } else {
        let rest = contents(records.drop_last());
        match meta(records.last(), "content"@) {
            Some(c) => rest.push(c),
            None => rest,
        }
    }
}

/// The contents of the first `limit` records that have one, one per line.
pub fn memory_contents_text(records: &Vec<MemoryRecord>, limit: usize) -> (s: String)
    ensures
        s@ == join_seqs(
            contents(records@.take(if (limit as nat) < records@.len() { limit as int } else { records@.len() as int })),
            "\n"@,
        ),
{
    let n = if limit < records.len() { limit } else { records.len() };
    let mut parts: Vec<String> = Vec::new();
    let mut i: usize = 0;
    while i < n
        invariant
            i <= n <= records@.len(),
            string_views(parts@) =~= contents(records@.take(i as int)),
        decreases n - i,
    {
        let c = metadata_get(&records[i].metadata, "content");
        proof {
            assert(records@.take(i + 1).drop_last() =~= records@.take(i as int));
            assert(records@.take(i + 1).last() == records@[i as int]);
        }
        match c {
            Some(text) => {
                parts.push(text);
                assert(string_views(parts@) =~= contents(records@.take(i + 1)));
            },
            None => {},
        }
        i = i + 1;
    }
    join_texts(&parts, "\n")
}

/// The messages with the system prompt first: it replaces a leading system
/// message, or goes in front of the others.
pub open spec fn with_system_first(messages: Seq<ChatMessage>, system: ChatMessage) -> Seq<ChatMessage> {
    if messages.len() > 0 && messages[0].role@ == SYSTEM_ROLE@ {
        messages.update(0, system)
    } else {
        seq![system] + messages
    }
}

/// Installing the system message loses no other message: the system
/// message comes first, a leading message whose role is "system" is the
/// only one it replaces, and every other message follows in its order.
pub proof fn lemma_system_first_keeps_messages(messages: Seq<ChatMessage>, system: ChatMessage)
    ensures
        with_system_first(messages, system)[0] == system,
        with_system_first(messages, system).len() == messages.len() + if messages.len() > 0
            && messages[0].role@ == "system"@ {
            0int
        } else {
            1int
        },
        !(messages.len() > 0 && messages[0].role@ == "system"@) ==> with_system_first(messages, system).drop_first()
            == messages,
        messages.len() > 0 && messages[0].role@ == "system"@ ==> with_system_first(messages, system).drop_first()
            == messages.drop_first(),
{
    let out = with_system_first(messages, system);
    if messages.len() > 0 && messages[0].role@ == "system"@ {
        assert(out.drop_first() =~= messages.drop_first());
    } else {
        assert(out.drop_first() =~= messages);
    }
}

/// The conversation with `prompt` as its system message.
pub fn install_system_message(messages: Vec<ChatMessage>, prompt: String) -> (out: Vec<ChatMessage>)
    ensures
        out@.len() > 0,
        out@[0].role@ == SYSTEM_ROLE@,
        out@[0].content == prompt,
        out@ == with_system_first(messages@, out@[0]),
{
    let system = ChatMessage { role: text_copy(SYSTEM_ROLE), content: prompt };
    let ghost given = messages@;
    let mut messages = messages;
    if messages.len() > 0 && text_eq(messages[0].role.as_str(), SYSTEM_ROLE) {
        messages.set(0, system);
        messages
    } else {
        messages.insert(0, system);
        assert(messages@ =~= seq![messages@[0]] + given);
        messages
    }
}


/// The messages of a welcome back: the system prompt, then the user coming
/// back.
pub fn welcome_back_messages(prompt: String) -> (out: Vec<ChatMessage>)
    ensures
        out@.len() == 2,
        out@[0].role@ == SYSTEM_ROLE@,
        out@[0].content == prompt,
        out@[1].role@ == USER_ROLE@,
        out@[1].content@ == USER_CAME_BACK@,
{
    let mut out: Vec<ChatMessage> = Vec::new();
    out.push(ChatMessage { role: text_copy(SYSTEM_ROLE), content: prompt });
    out.push(ChatMessage { role: text_copy(USER_ROLE), content: text_copy(USER_CAME_BACK) });
    out
}

/// A key and value pair of metadata.
fn entry(key: &str, value: &str) -> (p: (String, String))
    ensures
        p.0@ == key@,
        p.1@ == value@,
{
    (text_copy(key), text_copy(value))
}

/// The metadata that remembers a message of the user: who spoke, what was
/// said, the emotion it carried, when it was sent and how long after the
/// companion's birth.
pub open spec fn user_metadata(
    content: Seq<char>,
    valence: Seq<char>,
    arousal: Seq<char>,
    sent: Seq<char>,
    past_time: int,
) -> Seq<(Seq<char>, Seq<char>)> {
    seq![
        ("role"@, USER_ROLE@),
        ("content"@, content),
        ("valence"@, valence),
        ("arousal"@, arousal),
        ("message_sent"@, sent),
        ("past_time"@, int_decimal(past_time)),
    ]
}

/// The metadata that remembers a message of the companion, which carries no
/// emotion of its own.
pub open spec fn assistant_metadata(content: Seq<char>, sent: Seq<char>) -> Seq<(Seq<char>, Seq<char>)> {
    seq![
        ("role"@, ASSISTANT_ROLE@),
        ("content"@, content),
        ("valence"@, "0.0"@),
        ("arousal"@, "0.0"@),
        ("message_sent"@, sent),
    ]
}

/// The keys of the metadata that remembers a message of the user differ
/// from one another.
pub proof fn lemma_user_metadata_keys(
    content: Seq<char>,
    valence: Seq<char>,
    arousal: Seq<char>,
    sent: Seq<char>,
    past_time: int,
)
    ensures
        keys_distinct(user_metadata(content, valence, arousal, sent, past_time)),
{
    reveal_strlit("role");
    reveal_strlit("content");
    reveal_strlit("valence");
    reveal_strlit("arousal");
    reveal_strlit("message_sent");
    reveal_strlit("past_time");
    let m = user_metadata(content, valence, arousal, sent, past_time);
    assert forall|i: int, j: int| 0 <= i < j < m.len() implies m[i].0 != m[j].0 by {
        assert(m[i].0[0] != m[j].0[0]);
    }
}

/// The keys of the metadata that remembers a message of the companion
/// differ from one another.
pub proof fn lemma_assistant_metadata_keys(content: Seq<char>, sent: Seq<char>)
    ensures
        keys_distinct(assistant_metadata(content, sent)),
{
    reveal_strlit("role");
    reveal_strlit("content");
    reveal_strlit("valence");
    reveal_strlit("arousal");
    reveal_strlit("message_sent");
    let m = assistant_metadata(content, sent);
    assert forall|i: int, j: int| 0 <= i < j < m.len() implies m[i].0 != m[j].0 by {
        assert(m[i].0[0] != m[j].0[0]);
    }
}

/// The record of the user's message `content`, sent at the moment `sent`,
/// with the emotion it carried (`valence`, `arousal`, written out) and the
/// seconds between the companion's birth (`birthday_secs`) and its sending.
pub fn user_turn_record(
    content: &str,
    valence: &str,
    arousal: &str,
    sent: &LocalMoment,
    birthday_secs: i64,
) -> (r: MemoryRecord)
    requires
        i64::MIN <= sent.secs - birthday_secs <= i64::MAX,
    ensures
        metadata_view(r.metadata@) == user_metadata(
            content@,
            valence@,
            arousal@,
            sent.text@,
            sent.secs - birthday_secs,
        ),
        metadata_keys_distinct(r),
        r.id@.len() == 36,
        r.id@[8] == '-' && r.id@[13] == '-' && r.id@[18] == '-' && r.id@[23] == '-',
        r.created_at@ == int_decimal(sent.millis as int),
        r.updated_at@ == int_decimal(sent.millis as int),
        r.last_accessed_at@.len() == 0,
        r.access_count == 0,
{
    let past_time = i64_to_decimal(sent.secs - birthday_secs);
    let mut metadata: Vec<(String, String)> = Vec::new();
    metadata.push(entry("role", USER_ROLE));
    metadata.push(entry("content", content));
    metadata.push(entry("valence", valence));
    metadata.push(entry("arousal", arousal));
    metadata.push(entry("message_sent", sent.text.as_str()));
    metadata.push(entry("past_time", past_time.as_str()));
    let ghost m = metadata@;
    let r = new_memory_record(metadata, sent.millis);
    assert(metadata_view(m) =~= user_metadata(content@, valence@, arousal@, sent.text@, sent.secs - birthday_secs));
    proof {
        lemma_user_metadata_keys(content@, valence@, arousal@, sent.text@, sent.secs - birthday_secs);
    }
    r
}

/// The record of the companion's reply `content`, sent at the local moment
/// `sent`: its metadata is `assistant_metadata` with the moment's date and
/// time, and it is created and updated at the moment's milliseconds.
pub fn assistant_record_at(content: &str, sent: &LocalMoment) -> (r: MemoryRecord)
    ensures
        metadata_view(r.metadata@) == assistant_metadata(content@, sent.text@),
        metadata_keys_distinct(r),
        r.id@.len() == 36,
        r.id@[8] == '-' && r.id@[13] == '-' && r.id@[18] == '-' && r.id@[23] == '-',
        r.created_at@ == int_decimal(sent.millis as int),
        r.updated_at@ == int_decimal(sent.millis as int),
        r.last_accessed_at@.len() == 0,
        r.access_count == 0,
{
    let mut metadata: Vec<(String, String)> = Vec::new();
    metadata.push(entry("role", ASSISTANT_ROLE));
    metadata.push(entry("content", content));
    metadata.push(entry("valence", "0.0"));
    metadata.push(entry("arousal", "0.0"));
    metadata.push(entry("message_sent", sent.text.as_str()));
    let ghost m = metadata@;
    let r = new_memory_record(metadata, sent.millis);
    assert(metadata_view(m) =~= assistant_metadata(content@, sent.text@));
    proof {
        lemma_assistant_metadata_keys(content@, sent.text@);
    }
    r
}

/// The record of the companion's reply `content`, sent now: it is
/// `assistant_record_at` one local moment, whose milliseconds fall within
/// two seconds of its seconds.
pub fn assistant_turn_record(content: &str) -> (r: MemoryRecord)
    ensures
        exists|sent: LocalMoment|
            {
                &&& sent.secs * 1000 <= sent.millis < sent.secs * 1000 + 2000
                &&& metadata_view(r.metadata@) == assistant_metadata(content@, sent.text@)
                &&& r.created_at@ == int_decimal(sent.millis as int)
                &&& r.updated_at@ == int_decimal(sent.millis as int)
            },
        metadata_keys_distinct(r),
        r.id@.len() == 36,
        r.id@[8] == '-' && r.id@[13] == '-' && r.id@[18] == '-' && r.id@[23] == '-',
        r.last_accessed_at@.len() == 0,
        r.access_count == 0,
{
    let now = local_now(DATE_PATTERN);
    assistant_record_at(content, &now)
}

/// The past time that an emotion memory gives a record: its `past_time`
/// read as an integer, else zero.
pub open spec fn past_time_of(r: MemoryRecord) -> i64 {
    match meta(r, "past_time"@) {
        Some(t) => match parsed_i64(t) {
            Some(v) => v,
            None => 0,
        },
        None => 0,
    }
}

/// The past time that the emotion memory gives `record`.
pub fn memory_past_time(record: &MemoryRecord) -> (v: i64)
    ensures
        v == past_time_of(*record),
{
    match metadata_get(&record.metadata, "past_time") {
        Some(t) => match parse_i64(t.as_str()) {
            Some(v) => v,
            None => 0,
        },
        None => 0,
    }
}

/// The past time recorded with a message of the user is read back unchanged
/// by the emotion memory.
pub proof fn lemma_past_time_roundtrip(
    r: MemoryRecord,
    content: Seq<char>,
    valence: Seq<char>,
    arousal: Seq<char>,
    sent: Seq<char>,
    past_time: i64,
)
    requires
        metadata_view(r.metadata@) == user_metadata(
            content,
            valence,
            arousal,
            sent,
            past_time as int,
        ),
    ensures
        past_time_of(r) == past_time,
{
    let m = user_metadata(content, valence, arousal, sent, past_time as int);
    lemma_user_metadata_keys(content, valence, arousal, sent, past_time as int);
    lemma_lookup_distinct(m, 5);
    reveal_strlit("past_time");
    crate::numbers::lemma_decimal_roundtrip(past_time);
}

/// Seconds from the companion's birth to `now` as the emotion model takes
/// them.
pub fn elapsed_since_birth(now_secs: u64, birthday_secs: u64) -> (v: i64)
    requires
        now_secs >= birthday_secs,
    ensures
        v == (now_secs - birthday_secs) as i64,
{
    #[verifier::truncate]
    ((now_secs - birthday_secs) as i64)
}

/// Whether the writing style is due for an update: a full interval has
/// passed since the last one.
pub fn personality_update_due(now: i64, updated_at: i64) -> (b: bool)
    requires
        i64::MIN <= now - updated_at <= i64::MAX,
    ensures
        b == (now - updated_at >= PERSONALITY_UPDATE_INTERVAL_SECS),
{
    now - updated_at >= PERSONALITY_UPDATE_INTERVAL_SECS
}

/// The contents of the user's messages among `records`, in order.
pub open spec fn user_contents(records: Seq<MemoryRecord>) -> Seq<Seq<char>>
    decreases records.len(),
{
    if records.len() == 0 {
        Seq::empty()
    } else {
        let rest = user_contents(records.drop_last());
        if meta(records.last(), "role"@) == Some(USER_ROLE@) {
            match meta(records.last(), "content"@) {
                Some(c) => rest.push(c),
                None => rest,
            }
        } else {
            rest
        }
    }
}

/// The user's messages among `records`, one per line; `None` when there
/// are none, and then the writing style is left as it is.
pub fn user_messages_text(records: &Vec<MemoryRecord>) -> (t: Option<String>)
    ensures
        user_contents(records@).len() == 0 ==> t is None,
        user_contents(records@).len() > 0 ==> (t matches Some(s) && s@ == join_seqs(
            user_contents(records@),
            "\n"@,
        )),
{
    let mut parts: Vec<String> = Vec::new();
    let mut i: usize = 0;
    while i < records.len()
        invariant
            i <= records@.len(),
            string_views(parts@) =~= user_contents(records@.take(i as int)),
        decreases records.len() - i,
    {
        proof {
            assert(records@.take(i + 1).drop_last() =~= records@.take(i as int));
            assert(records@.take(i + 1).last() == records@[i as int]);
        }
        let role = metadata_get(&records[i].metadata, "role");
        let is_user = match &role {
            Some(r) => text_eq(r.as_str(), USER_ROLE),
            None => false,
        };
        if is_user {
            match metadata_get(&records[i].metadata, "content") {
                Some(c) => {
                    parts.push(c);
                    assert(string_views(parts@) =~= user_contents(records@.take(i + 1)));
                },
                None => {},
            }
        }
        i = i + 1;
    }
    assert(records@.take(records@.len() as int) =~= records@);
    if parts.len() == 0 {
        None
    } else {
        Some(join_texts(&parts, "\n"))
    }
}

} // verus!
