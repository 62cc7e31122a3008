//! A conversation turn as a sequence of steps. Between two steps the
//! application does the outside work that the step asked for (predicting the
//! emotion of the last message, finding relevant memories, asking the model)
//! and hands its result to the next step.
use vstd::prelude::*;
use crate::brain::{
    context_text, install_system_message, last_message_content, latest_contents, memory_contents_text, contents,
    relevant_memory_query, turn_context, user_metadata, user_turn_record, welcome_back_messages,
    with_system_first, MEMORY_QUERY_MESSAGES, SYSTEM_ROLE, USER_ROLE, USER_CAME_BACK,
};
use crate::clock::{DATE_PATTERN, LocalMoment, utc_formatted};
use crate::errors::BrainError;
use crate::llm::{ChatMessage, ChatResponse};
use crate::memory::record::{MemoryRecord, metadata_keys_distinct, metadata_view};
use crate::numbers::int_decimal;
use crate::prompts::{chat_prompt, chat_prompt_builder, welcome_back_prompt, welcome_back_prompt_builder};
use crate::text::join_seqs;
use vstd::string::StrSliceExecFns;

verus! {

/// A turn waiting for the emotion of its last message.
pub struct PendingEmotion {
    pub messages: Vec<ChatMessage>,
    /// The last message, whose emotion is to be predicted.
    pub last_content: String,
}

/// A turn waiting for the memories relevant to it.
pub struct PendingMemories {
    pub messages: Vec<ChatMessage>,
    pub last_content: String,
    pub birthday_ts: i64,
    pub writing_style: Option<String>,
    /// The date context of the prompt.
    pub context: String,
    /// When the turn was taken.
    pub sent: LocalMoment,
    pub emotion_label: String,
    pub valence: String,
    pub arousal: String,
    /// The text with which to look up relevant memories.
    pub query: String,
}

/// A turn waiting for the model's reply.
pub struct PendingReply {
    /// The conversation to send to the model, system prompt first.
    pub request: Vec<ChatMessage>,
    pub last_content: String,
    pub birthday_ts: i64,
    pub sent: LocalMoment,
    pub valence: String,
    pub arousal: String,
}

/// The view of an optional string.
pub open spec fn opt_string_view(s: Option<String>) -> Option<Seq<char>> {
    match s {
        Some(v) => Some(v@),
        None => None,
    }
}

/// Starts a turn on the conversation `messages`. A turn on no messages fails
/// at once and asks for no outside work.
pub fn begin_turn(messages: Vec<ChatMessage>) -> (r: Result<PendingEmotion, BrainError>)
    ensures
        messages@.len() == 0 <==> r is Err,
        r matches Err(e) ==> (e matches BrainError::InvalidMessageError(m) && m@ == "Messages vector is empty"@),
        r matches Ok(p) ==> p.messages == messages && p.last_content@ == messages@.last().content@,
{
    let last_content = match last_message_content(&messages) {
        Ok(c) => c,
        Err(e) => return Err(e),
    };
    Ok(PendingEmotion { messages, last_content })
}

impl PendingEmotion {
    /// Goes on with what the store holds (whether a first message was sent
    /// before, the companion's birthday, the last connection and the user's
    /// writing style) and the emotion of the last message: its valence and
    /// arousal written out, and its label or the error that naming it gave.
    /// The date context is taken now and the turn fails first when the
    /// birthday or the last connection is out of the calendar's range, then
    /// with the label's error. The memories relevant to the last messages are
    /// then to be found.
    pub fn emotion_felt(
        self,
        first_message_sent: bool,
        birthday_ts: i64,
        last_connection_ts: i64,
        writing_style: Option<String>,
        emotion_label: Result<String, BrainError>,
        valence: String,
        arousal: String,
    ) -> (r: Result<PendingMemories, BrainError>)
        requires
            self.messages@.len() > 0,
        ensures
            utc_formatted(birthday_ts as int, DATE_PATTERN@) is None ==> (r matches Err(
                BrainError::DateTimeError(m),
            ) && m@ == "Invalid birthday timestamp: "@ + int_decimal(birthday_ts as int)),
            utc_formatted(birthday_ts as int, DATE_PATTERN@) is Some && utc_formatted(
                last_connection_ts as int,
                DATE_PATTERN@,
            ) is None ==> (r matches Err(BrainError::DateTimeError(m)) && m@
                == "Invalid last connection timestamp: "@ + int_decimal(last_connection_ts as int)),
            utc_formatted(birthday_ts as int, DATE_PATTERN@) is Some && utc_formatted(
                last_connection_ts as int,
                DATE_PATTERN@,
            ) is Some ==> match emotion_label {
                Err(e) => r == Err::<PendingMemories, BrainError>(e),
                Ok(label) => r is Ok,
            },
            r matches Ok(p) ==> {
                &&& emotion_label == Ok::<String, BrainError>(p.emotion_label)
                &&& p.messages == self.messages
                &&& p.last_content == self.last_content
                &&& p.birthday_ts == birthday_ts
                &&& p.writing_style == writing_style
                &&& p.context@ == context_text(
                    first_message_sent,
                    utc_formatted(birthday_ts as int, DATE_PATTERN@).unwrap(),
                    p.sent.text@,
                    utc_formatted(last_connection_ts as int, DATE_PATTERN@).unwrap(),
                )
                &&& p.valence == valence
                &&& p.arousal == arousal
                &&& p.query@ == join_seqs(latest_contents(self.messages@, MEMORY_QUERY_MESSAGES as nat), "\n"@)
            },
    {
        let (context, sent) = match turn_context(first_message_sent, birthday_ts, last_connection_ts) {
            Ok(t) => t,
            Err(e) => return Err(e),
        };
        let emotion_label = match emotion_label {
            Ok(l) => l,
            Err(e) => return Err(e),
        };
        let query = match relevant_memory_query(&self.messages) {
            Some(q) => q,
            None => return Err(BrainError::InvalidMessageError(String::new())),
        };
        Ok(PendingMemories {
            messages: self.messages,
            last_content: self.last_content,
            birthday_ts,
            writing_style,
            context,
            sent,
            emotion_label,
            valence,
            arousal,
            query,
        })
    }
}

/// The system message of a turn.
pub open spec fn system_message_of(m: ChatMessage, prompt: Seq<char>) -> bool {
    m.role@ == SYSTEM_ROLE@ && m.content@ == prompt
}

impl PendingMemories {
    /// Goes on with the memories found: their contents, one per line, fill
    /// the prompt with the context, the emotion and the writing style (an
    /// empty one counting as none), and the conversation, with that prompt
    /// as its system message, is to be sent to the model.
    pub fn memories_found(self, records: &Vec<MemoryRecord>) -> (r: PendingReply)
        ensures
            r.request@.len() > 0,
            system_message_of(
                r.request@[0],
                chat_prompt(
                    self.context@,
                    self.emotion_label@,
                    Some(join_seqs(contents(records@), "\n"@)),
                    opt_string_view(self.writing_style),
                ),
            ),
            r.request@ == with_system_first(self.messages@, r.request@[0]),
            r.last_content == self.last_content,
            r.birthday_ts == self.birthday_ts,
            r.sent == self.sent,
            r.valence == self.valence,
            r.arousal == self.arousal,
    {
        let memory = memory_contents_text(records, records.len());
        assert(records@.take(records@.len() as int) =~= records@);
        let style: Option<&str> = match &self.writing_style {
            Some(s) => Some(s.as_str()),
            None => None,
        };
        let prompt = chat_prompt_builder(self.context.as_str(), self.emotion_label.as_str(), Some(memory.as_str()), style);
        let request = install_system_message(self.messages, prompt);
        PendingReply {
            request,
            last_content: self.last_content,
            birthday_ts: self.birthday_ts,
            sent: self.sent,
            valence: self.valence,
            arousal: self.arousal,
        }
    }
}

impl PendingReply {
    /// Ends the turn with the model's reply: it is what the turn answers,
    /// and the user's message is to be remembered with the emotion it
    /// carried and the seconds since the companion's birth. There is no
    /// record to remember when those seconds overflow an `i64`.
    pub fn replied(self, reply: ChatResponse) -> (r: (ChatResponse, Option<MemoryRecord>))
        ensures
            r.0 == reply,
            (r.1 is None) == !(i64::MIN <= self.sent.secs - self.birthday_ts <= i64::MAX),
            r.1 matches Some(rec) ==> {
                &&& metadata_view(rec.metadata@) == user_metadata(
                    self.last_content@,
                    self.valence@,
                    self.arousal@,
                    self.sent.text@,
                    self.sent.secs - self.birthday_ts,
                )
                &&& metadata_keys_distinct(rec)
                &&& rec.id@.len() == 36
                &&& rec.id@[8] == '-' && rec.id@[13] == '-' && rec.id@[18] == '-' && rec.id@[23] == '-'
                &&& rec.created_at@ == int_decimal(self.sent.millis as int)
                &&& rec.updated_at@ == rec.created_at@
                &&& rec.last_accessed_at@.len() == 0
                &&& rec.access_count == 0
            },
    {
        match self.sent.secs.checked_sub(self.birthday_ts) {
            Some(_) => {
                let record = user_turn_record(
                    self.last_content.as_str(),
                    self.valence.as_str(),
                    self.arousal.as_str(),
                    &self.sent,
                    self.birthday_ts,
                );
                (reply, Some(record))
            },
            None => (reply, None),
        }
    }
}

/// The date context of a welcome back and the local moment it was taken
/// at, whose date and time are its "today". It reads as its text.
pub struct WelcomeBackContext {
    pub text: String,
    pub now: LocalMoment,
}

impl core::ops::Deref for WelcomeBackContext {
    type Target = str;

    fn deref(&self) -> &str {
        self.text.as_str()
    }
}

/// The date context of a welcome back, taken now: the birthday, the current
/// local date and time (of the moment returned with it) and the last
/// connection. It fails when the birthday or the last connection is out of
/// the calendar's range.
pub fn welcome_back_context(birthday_ts: i64, last_connection_ts: i64) -> (r: Result<WelcomeBackContext, BrainError>)
    ensures
        (r is Ok) == (utc_formatted(birthday_ts as int, DATE_PATTERN@) is Some && utc_formatted(
            last_connection_ts as int,
            DATE_PATTERN@,
        ) is Some),
        utc_formatted(birthday_ts as int, DATE_PATTERN@) is None ==> (r matches Err(
            BrainError::DateTimeError(m),
        ) && m@ == "Invalid birthday timestamp: "@ + int_decimal(birthday_ts as int)),
        utc_formatted(birthday_ts as int, DATE_PATTERN@) is Some && utc_formatted(
            last_connection_ts as int,
            DATE_PATTERN@,
        ) is None ==> (r matches Err(BrainError::DateTimeError(m)) && m@
            == "Invalid last connection timestamp: "@ + int_decimal(last_connection_ts as int)),
        r matches Ok(c) ==> c.text@ == context_text(
            true,
            utc_formatted(birthday_ts as int, DATE_PATTERN@).unwrap(),
            c.now.text@,
            utc_formatted(last_connection_ts as int, DATE_PATTERN@).unwrap(),
        ),
{
    match turn_context(true, birthday_ts, last_connection_ts) {
        Ok((text, now)) => Ok(WelcomeBackContext { text, now }),
        Err(e) => Err(e),
    }
}

/// The conversation of a welcome back: its prompt, from the context, the
/// most significant memories, the emotion and the writing style (an empty
/// one counting as none), then the user coming back.
pub fn welcome_back_request(
    context: &str,
    significant_memory: &str,
    emotion_label: &str,
    writing_style: Option<String>,
) -> (r: Vec<ChatMessage>)
    ensures
        r@.len() == 2,
        system_message_of(
            r@[0],
            welcome_back_prompt(
                context@,
                significant_memory@,
                emotion_label@,
                crate::prompts::non_empty(opt_string_view(writing_style)),
            ),
        ),
        r@[1].role@ == USER_ROLE@,
        r@[1].content@ == USER_CAME_BACK@,
{
    let style: Option<&str> = match &writing_style {
        Some(s) => if s.as_str().unicode_len() > 0 {
            Some(s.as_str())
        } else {
            None
        },
        None => None,
    };
    let prompt = welcome_back_prompt_builder(context, significant_memory, emotion_label, style);
    welcome_back_messages(prompt)
}

} // verus!
