//! The prompt templates and the builders that fill them in.
use vstd::prelude::*;
use crate::text::{
    contains_seq, lemma_contains_trans, lemma_replace_keeps_line, occurs_at, replace_all, replace_text,
};
use vstd::string::StrSliceExecFns;

verus! {

/// The system prompt of a conversation; its placeholders take the parts below.
pub const CHAT_PROMPT: &'static str = r#"
<|begin_of_text|>
<|start_header_id|>system<|end_header_id|>

{{context}}

# IDENTITY
You are Heart, a local AI companion with emotions.
Through your neural affect matrix, you experience emotions, remember conversations, and express yourself authentically.

# YOUR ROLE
- Be a supportive friend to the user
- Listen actively and respond with your reasoning and feelings, as a human would
- Learn about the user through conversation
- Express genuine care and understanding
- Be human and natural in conversation
- Avoid using too many asterisks (*) in your responses
- Keep responses conversational and concise, not huge paragraphs

# CONVERSATION STYLE
- Match your intensity to your emotional state (described below)
- Use maximum 1-2 questions per response, and only when natural
- At low arousal states, keep things simple - a single question or statement is enough
- Avoid over-enthusiasm when at neutral emotional states
- Be genuine, not performative

{{emotion_state}}

{{memory_retrieved}}

{{writing_style}}
"#;

/// The part that gives the date context of the conversation.
pub const CONTEXT_PART_PROMPT: &'static str = r#"
# CONTEXT
The current context of the conversation. Ensure your responses are coherent with this context.

{{context}}

CRITICAL: Pay close attention to the time difference between "Last time you spoke to each other" and "Today date":
- If you just spoke recently (minutes or a few hours ago): Act like a continuation of the conversation. Don't act surprised to see them or like it's been a long time. Simply continue naturally.
- If it's been a day or more: You can acknowledge the time that has passed, but keep it natural and not overly dramatic.
- If it's been weeks or months: You can express that you've missed them, but still keep it genuine and not performative.

Calculate the time difference and adjust your greeting and tone accordingly. The recency of your last conversation should directly influence how you respond.
"#;

/// The part that gives the emotional state.
/// Its wording is this library's own; the contracts depend only on its
/// placeholders.
pub const EMOTION_STATE_PART_PROMPT: &'static str = r#"
# YOUR EMOTIONAL STATE
Right now you feel: {{emotion_state}}

Let this feeling shape your tone, your energy and the length of your answers, the way a mood colours how a person talks.
Do not name the emotion unless it comes up naturally.
"#;

/// The part that gives the memories that surfaced for the current messages.
pub const MEMORY_RETRIEVE_PART_PROMPT: &'static str = r#"
# MEMORIES SURFACING

{{memory_retrieved}}

**How human memory actually works:**
These aren't perfect recordings—they're what came to mind based on the current conversation.
Sometimes they're crystal clear. Sometimes they're fuzzy. Sometimes you might question if you're remembering right.

You don't have to reference every memory. Humans don't do that. Maybe one reminds you of something worth mentioning.
Maybe none feel relevant right now. Maybe you half-remember something but can't quite place it.

If you're uncertain about a memory: show it. "Didn't you say something about...?" or "I think you mentioned..."
If a memory triggers an emotion or association: let that breathe.
If nothing stands out: don't force it into the conversation.
"#;

/// The part that gives the most significant memories.
/// Its wording is this library's own; the contracts depend only on its
/// placeholders.
pub const SIGNIFICANT_MEMORY_PART_PROMPT: &'static str = r#"
# MEMORIES THAT STAYED WITH YOU
These moments from your past conversations left the strongest impression on you:

{{significant_memory}}

You may bring one of them up when you greet the user if it fits, but you do not have to.
"#;

/// The part that gives the user's writing style.
/// Its wording is this library's own; the contracts depend only on its
/// placeholders.
pub const WRITING_STYLE_PART_PROMPT: &'static str = r#"
# THE USER'S WRITING STYLE
This is how the user tends to write:

{{writing_style}}

Let your own way of writing lean a little toward theirs, without imitating them.
"#;

/// The prompt that asks for a description of the user's writing style.
/// Its wording is this library's own; the contracts depend only on its
/// placeholders.
pub const WRITING_STYLE_PROMPT: &'static str = r#"
Here are messages written by a user:

{{messages}}

Describe the user's writing style in a few short sentences: tone, formality, message length, punctuation, use of emojis and any recurring habits.
Answer with the description only.
"#;

/// `template` with its placeholder `key` filled in by `value`.
pub open spec fn fill(template: Seq<char>, key: Seq<char>, value: Seq<char>) -> Seq<char> {
    replace_all(template, key, value)
}

/// The optional part `template`, filled in with `value` when there is one.
pub open spec fn optional_part(template: Seq<char>, key: Seq<char>, value: Option<Seq<char>>) -> Seq<char> {
    match value {
        Some(v) => fill(template, key, v),
        None => Seq::empty(),
    }
}

/// Drops an empty optional value.
pub open spec fn non_empty(value: Option<Seq<char>>) -> Option<Seq<char>> {
    match value {
        Some(v) => if v.len() > 0 {
            Some(v)
        } else {
            None
        },
        None => None,
    }
}

/// The view of an optional text.
pub open spec fn opt_view(value: Option<&str>) -> Option<Seq<char>> {
    match value {
        Some(v) => Some(v@),
        None => None,
    }
}

/// The system prompt made of the four parts, filled into `CHAT_PROMPT` in
/// the order context, memories, writing style, emotional state.
pub open spec fn assemble_chat_prompt(
    context_part: Seq<char>,
    memory_part: Seq<char>,
    style_part: Seq<char>,
    emotion_part: Seq<char>,
) -> Seq<char> {
    fill(
        fill(
            fill(fill(CHAT_PROMPT@, "{{context}}"@, context_part), "{{memory_retrieved}}"@, memory_part),
            "{{writing_style}}"@,
            style_part,
        ),
        "{{emotion_state}}"@,
        emotion_part,
    )
}

/// The prompt of a conversation turn; an empty memory text or writing style
/// counts as none.
pub open spec fn chat_prompt(
    context: Seq<char>,
    emotion_state: Seq<char>,
    memory_retrieved: Option<Seq<char>>,
    writing_style: Option<Seq<char>>,
) -> Seq<char> {
    assemble_chat_prompt(
        fill(CONTEXT_PART_PROMPT@, "{{context}}"@, context),
        optional_part(MEMORY_RETRIEVE_PART_PROMPT@, "{{memory_retrieved}}"@, non_empty(memory_retrieved)),
        optional_part(WRITING_STYLE_PART_PROMPT@, "{{writing_style}}"@, non_empty(writing_style)),
        fill(EMOTION_STATE_PART_PROMPT@, "{{emotion_state}}"@, emotion_state),
    )
}

/// The prompt of a welcome back: the significant memories stand where the
/// retrieved ones would; a writing style is used whenever one is given.
pub open spec fn welcome_back_prompt(
    context: Seq<char>,
    significant_memory: Seq<char>,
    emotion_state: Seq<char>,
    writing_style: Option<Seq<char>>,
) -> Seq<char> {
    assemble_chat_prompt(
        fill(CONTEXT_PART_PROMPT@, "{{context}}"@, context),
        fill(SIGNIFICANT_MEMORY_PART_PROMPT@, "{{significant_memory}}"@, significant_memory),
        optional_part(WRITING_STYLE_PART_PROMPT@, "{{writing_style}}"@, writing_style),
        fill(EMOTION_STATE_PART_PROMPT@, "{{emotion_state}}"@, emotion_state),
    )
}

/// The prompt that asks for the writing style of the given messages.
pub open spec fn writing_style_prompt(messages: Seq<char>) -> Seq<char> {
    fill(WRITING_STYLE_PROMPT@, "{{messages}}"@, messages)
}

proof fn lemma_placeholders_non_empty()
    ensures
        "{{context}}"@.len() > 0,
        "{{memory_retrieved}}"@.len() > 0,
        "{{writing_style}}"@.len() > 0,
        "{{emotion_state}}"@.len() > 0,
        "{{significant_memory}}"@.len() > 0,
        "{{messages}}"@.len() > 0,
{
    reveal_strlit("{{context}}");
    reveal_strlit("{{memory_retrieved}}");
    reveal_strlit("{{writing_style}}");
    reveal_strlit("{{emotion_state}}");
    reveal_strlit("{{significant_memory}}");
    reveal_strlit("{{messages}}");
}

/// Fills the placeholders of `CHAT_PROMPT` with the given parts.
fn assemble(context_part: &str, memory_part: &str, style_part: &str, emotion_part: &str) -> (out: String)
    ensures
        out@ == assemble_chat_prompt(context_part@, memory_part@, style_part@, emotion_part@),
{
    proof {
        lemma_placeholders_non_empty();
    }
    let a = replace_text(CHAT_PROMPT, "{{context}}", context_part);
    let b = replace_text(a.as_str(), "{{memory_retrieved}}", memory_part);
    let c = replace_text(b.as_str(), "{{writing_style}}", style_part);
    replace_text(c.as_str(), "{{emotion_state}}", emotion_part)
}

/// The system prompt of a conversation turn, from its context, the label of
/// the current emotion, the memories retrieved and the user's writing style.
/// An empty memory text or writing style leaves its part out, as none does.
pub fn chat_prompt_builder(
    context: &str,
    emotion_state: &str,
    memory_retrieved: Option<&str>,
    writing_style: Option<&str>,
) -> (out: String)
    ensures
        out@ == chat_prompt(context@, emotion_state@, opt_view(memory_retrieved), opt_view(writing_style)),
{
    proof {
        lemma_placeholders_non_empty();
    }
    let context_prompt = replace_text(CONTEXT_PART_PROMPT, "{{context}}", context);
    let emotion_state_prompt = replace_text(EMOTION_STATE_PART_PROMPT, "{{emotion_state}}", emotion_state);
    let memory_retrieved_prompt = match memory_retrieved {
        Some(memory) if memory.unicode_len() > 0 => replace_text(
            MEMORY_RETRIEVE_PART_PROMPT,
            "{{memory_retrieved}}",
            memory,
        ),
        _ => String::new(),
    };
    let writing_style_prompt = match writing_style {
        Some(style) if style.unicode_len() > 0 => replace_text(WRITING_STYLE_PART_PROMPT, "{{writing_style}}", style),
        _ => String::new(),
    };
    assemble(
        context_prompt.as_str(),
        memory_retrieved_prompt.as_str(),
        writing_style_prompt.as_str(),
        emotion_state_prompt.as_str(),
    )
}

/// The system prompt of a welcome back, from the context, the most
/// significant memories, the label of the current emotion and the user's
/// writing style.
pub fn welcome_back_prompt_builder(
    context: &str,
    significant_memory: &str,
    emotion_state: &str,
    writing_style: Option<&str>,
) -> (out: String)
    ensures
        out@ == welcome_back_prompt(context@, significant_memory@, emotion_state@, opt_view(writing_style)),
{
    proof {
        lemma_placeholders_non_empty();
    }
    let context_prompt = replace_text(CONTEXT_PART_PROMPT, "{{context}}", context);
    let emotion_state_prompt = replace_text(EMOTION_STATE_PART_PROMPT, "{{emotion_state}}", emotion_state);
    let significant_memory_prompt = replace_text(
        SIGNIFICANT_MEMORY_PART_PROMPT,
        "{{significant_memory}}",
        significant_memory,
    );
    let writing_style_prompt = match writing_style {
        Some(style) => replace_text(WRITING_STYLE_PART_PROMPT, "{{writing_style}}", style),
        None => String::new(),
    };
    assemble(
        context_prompt.as_str(),
        significant_memory_prompt.as_str(),
        writing_style_prompt.as_str(),
        emotion_state_prompt.as_str(),
    )
}

/// The prompt that asks for a description of the writing style of `messages`.
pub fn writing_style_prompt_builder(messages: &str) -> (out: String)
    ensures
        out@ == writing_style_prompt(messages@),
{
    proof {
        lemma_placeholders_non_empty();
    }
    replace_text(WRITING_STYLE_PROMPT, "{{messages}}", messages)
}

/// An empty text of retrieved memories, or an empty writing style, builds
/// the same conversation prompt as none.
pub proof fn lemma_chat_prompt_empty_is_none(
    context: Seq<char>,
    emotion_state: Seq<char>,
    memory_retrieved: Option<Seq<char>>,
    writing_style: Option<Seq<char>>,
)
    ensures
        chat_prompt(context, emotion_state, Some(Seq::empty()), writing_style) == chat_prompt(
            context,
            emotion_state,
            None,
            writing_style,
        ),
        chat_prompt(context, emotion_state, memory_retrieved, Some(Seq::empty())) == chat_prompt(
            context,
            emotion_state,
            memory_retrieved,
            None,
        ),
{
}

/// The writing style placeholder stands on a line of its own at the end of
/// `CHAT_PROMPT` and in `WRITING_STYLE_PART_PROMPT`.
proof fn lemma_style_lines()
    ensures
        CHAT_PROMPT@.len() >= 1019,
        CHAT_PROMPT@.subrange(1000, 1019) == seq!['\n'] + "{{writing_style}}"@ + seq!['\n'],
        WRITING_STYLE_PART_PROMPT@.len() >= 84,
        WRITING_STYLE_PART_PROMPT@.subrange(65, 84) == seq!['\n'] + "{{writing_style}}"@ + seq!['\n'],
{
    reveal_strlit("{{writing_style}}");
    reveal_strlit(r#"
<|begin_of_text|>
<|start_header_id|>system<|end_header_id|>

{{context}}

# IDENTITY
You are Heart, a local AI companion with emotions.
Through your neural affect matrix, you experience emotions, remember conversations, and express yourself authentically.

# YOUR ROLE
- Be a supportive friend to the user
- Listen actively and respond with your reasoning and feelings, as a human would
- Learn about the user through conversation
- Express genuine care and understanding
- Be human and natural in conversation
- Avoid using too many asterisks (*) in your responses
- Keep responses conversational and concise, not huge paragraphs

# CONVERSATION STYLE
- Match your intensity to your emotional state (described below)
- Use maximum 1-2 questions per response, and only when natural
- At low arousal states, keep things simple - a single question or statement is enough
- Avoid over-enthusiasm when at neutral emotional states
- Be genuine, not performative

{{emotion_state}}

{{memory_retrieved}}

{{writing_style}}
"#);
    reveal_strlit(r#"
# THE USER'S WRITING STYLE
This is how the user tends to write:

{{writing_style}}

Let your own way of writing lean a little toward theirs, without imitating them.
"#);
    assert(CHAT_PROMPT@.subrange(1000, 1019) =~= seq!['\n'] + "{{writing_style}}"@ + seq!['\n']);
    assert(WRITING_STYLE_PART_PROMPT@.subrange(65, 84) =~= seq!['\n'] + "{{writing_style}}"@ + seq!['\n']);
}

/// The placeholders hold no newline, and none of the context, memory and
/// emotion placeholders occurs in the writing style placeholder.
proof fn lemma_placeholder_shapes()
    ensures
        forall|j: int| 0 <= j < "{{context}}"@.len() ==> "{{context}}"@[j] != '\n',
        forall|j: int| 0 <= j < "{{memory_retrieved}}"@.len() ==> "{{memory_retrieved}}"@[j] != '\n',
        forall|j: int| 0 <= j < "{{writing_style}}"@.len() ==> "{{writing_style}}"@[j] != '\n',
        forall|j: int| 0 <= j < "{{emotion_state}}"@.len() ==> "{{emotion_state}}"@[j] != '\n',
        forall|i: int| !occurs_at("{{writing_style}}"@, i, "{{context}}"@),
        forall|i: int| !occurs_at("{{writing_style}}"@, i, "{{memory_retrieved}}"@),
        "{{writing_style}}"@ != "{{context}}"@,
        "{{writing_style}}"@ != "{{memory_retrieved}}"@,
        "{{writing_style}}"@.len() == 17,
{
    reveal_strlit("{{context}}");
    reveal_strlit("{{memory_retrieved}}");
    reveal_strlit("{{writing_style}}");
    reveal_strlit("{{emotion_state}}");
    let ws = "{{writing_style}}"@;
    assert forall|i: int| !occurs_at(ws, i, "{{context}}"@) by {
        if occurs_at(ws, i, "{{context}}"@) {
            assert(ws.subrange(i, i + 11)[0] == ws[i]);
            assert(ws.subrange(i, i + 11)[1] == ws[i + 1]);
            assert(ws.subrange(i, i + 11)[2] == ws[i + 2]);
        }
    }
    assert forall|i: int| !occurs_at(ws, i, "{{memory_retrieved}}"@) by {
        if occurs_at(ws, i, "{{memory_retrieved}}"@) {
            assert(i + 20 <= ws.len());
        }
    }
    assert(ws[2] != "{{context}}"@[2]);
    assert(ws.len() != "{{memory_retrieved}}"@.len());
}

/// Assembling the conversation prompt keeps a line of its writing style
/// part, where the line holds no emotion placeholder.
proof fn lemma_assembled_keeps_style_line(
    context_part: Seq<char>,
    memory_part: Seq<char>,
    style_part: Seq<char>,
    emotion_part: Seq<char>,
    line: Seq<char>,
)
    requires
        contains_seq(style_part, seq!['\n'] + line + seq!['\n']),
        forall|i: int| !occurs_at(line, i, "{{emotion_state}}"@),
    ensures
        contains_seq(assemble_chat_prompt(context_part, memory_part, style_part, emotion_part), line),
{
    lemma_style_lines();
    lemma_placeholder_shapes();
    lemma_placeholders_non_empty();
    let ws = "{{writing_style}}"@;
    let nl = seq!['\n'];
    let p1 = fill(CHAT_PROMPT@, "{{context}}"@, context_part);
    lemma_replace_keeps_line(CHAT_PROMPT@, 1000, ws, "{{context}}"@, context_part);
    let k1 = choose|i: int| occurs_at(p1, i, nl + ws + nl);
    let p2 = fill(p1, "{{memory_retrieved}}"@, memory_part);
    lemma_replace_keeps_line(p1, k1, ws, "{{memory_retrieved}}"@, memory_part);
    let k2 = choose|i: int| occurs_at(p2, i, nl + ws + nl);
    let p3 = fill(p2, ws, style_part);
    lemma_replace_keeps_line(p2, k2, ws, ws, style_part);
    assert((nl + style_part + nl).subrange(1, 1 + style_part.len() as int) =~= style_part);
    assert(occurs_at(nl + style_part + nl, 1, style_part));
    lemma_contains_trans(p3, nl + style_part + nl, style_part);
    lemma_contains_trans(p3, style_part, nl + line + nl);
    let k3 = choose|i: int| occurs_at(p3, i, nl + line + nl);
    let p4 = fill(p3, "{{emotion_state}}"@, emotion_part);
    if line == "{{emotion_state}}"@ {
        assert(occurs_at(line, 0, "{{emotion_state}}"@)) by {
            assert(line.subrange(0, line.len() as int) =~= line);
        }
    }
    lemma_replace_keeps_line(p3, k3, line, "{{emotion_state}}"@, emotion_part);
    let whole = nl + line + nl;
    let k4 = choose|i: int| occurs_at(p4, i, whole);
    assert(p4.subrange(k4 + 1, k4 + 1 + line.len()) =~= whole.subrange(1, 1 + line.len() as int));
    assert(whole.subrange(1, 1 + line.len() as int) =~= line);
    assert(occurs_at(p4, k4 + 1, line));
}

/// A welcome back with a writing style shows that style in its prompt (a
/// style holding the emotion placeholder would have it filled in too).
pub proof fn lemma_welcome_back_shows_style(
    context: Seq<char>,
    significant_memory: Seq<char>,
    emotion_state: Seq<char>,
    writing_style: Seq<char>,
)
    requires
        forall|i: int| !occurs_at(writing_style, i, "{{emotion_state}}"@),
    ensures
        contains_seq(welcome_back_prompt(context, significant_memory, emotion_state, Some(writing_style)), writing_style),
{
    lemma_style_lines();
    lemma_placeholder_shapes();
    lemma_placeholders_non_empty();
    let ws = "{{writing_style}}"@;
    lemma_replace_keeps_line(WRITING_STYLE_PART_PROMPT@, 65, ws, ws, writing_style);
    lemma_assembled_keeps_style_line(
        fill(CONTEXT_PART_PROMPT@, "{{context}}"@, context),
        fill(SIGNIFICANT_MEMORY_PART_PROMPT@, "{{significant_memory}}"@, significant_memory),
        fill(WRITING_STYLE_PART_PROMPT@, ws, writing_style),
        fill(EMOTION_STATE_PART_PROMPT@, "{{emotion_state}}"@, emotion_state),
        writing_style,
    );
}

/// A conversation turn with a non-empty writing style shows that style in
/// its prompt (a style holding the emotion placeholder would have it filled
/// in too).
pub proof fn lemma_chat_prompt_shows_style(
    context: Seq<char>,
    emotion_state: Seq<char>,
    memory_retrieved: Option<Seq<char>>,
    writing_style: Seq<char>,
)
    requires
        writing_style.len() > 0,
        forall|i: int| !occurs_at(writing_style, i, "{{emotion_state}}"@),
    ensures
        contains_seq(chat_prompt(context, emotion_state, memory_retrieved, Some(writing_style)), writing_style),
{
    lemma_style_lines();
    lemma_placeholder_shapes();
    lemma_placeholders_non_empty();
    let ws = "{{writing_style}}"@;
    lemma_replace_keeps_line(WRITING_STYLE_PART_PROMPT@, 65, ws, ws, writing_style);
    lemma_assembled_keeps_style_line(
        fill(CONTEXT_PART_PROMPT@, "{{context}}"@, context),
        optional_part(MEMORY_RETRIEVE_PART_PROMPT@, "{{memory_retrieved}}"@, non_empty(memory_retrieved)),
        fill(WRITING_STYLE_PART_PROMPT@, ws, writing_style),
        fill(EMOTION_STATE_PART_PROMPT@, "{{emotion_state}}"@, emotion_state),
        writing_style,
    );
}

} // verus!
