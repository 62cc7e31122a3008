//! The messages exchanged with the local language model server, and the
//! settings and requests of the service that talks to it.
use vstd::prelude::*;
use crate::text::{chars_of, concat2, contains_seq, contains_text, string_of_chars, text_copy};

verus! {

/// One message of a conversation: who speaks and what is said.
pub struct ChatMessage {
    pub role: String,
    pub content: String,
}

/// The model's reply in a conversation.
pub struct ChatResponse {
    pub role: String,
    pub content: String,
}

/// A conversation request to the model server.
pub struct OllamaChatRequest {
    pub model: String,
    pub messages: Vec<ChatMessage>,
    pub stream: bool,
}

/// A one-prompt generation request to the model server.
pub struct OllamaRequest {
    pub model: String,
    pub prompt: String,
    pub stream: bool,
}

/// The model server's answer to a conversation request.
pub struct OllamaChatResponse {
    pub model: String,
    pub created_at: String,
    pub message: ChatResponse,
    pub done: bool,
    pub done_reason: String,
    pub total_duration: u64,
    pub load_duration: u64,
    pub prompt_eval_count: u64,
    pub prompt_eval_duration: u64,
    pub eval_count: u64,
    pub eval_duration: u64,
}

/// The model server's answer to a generation request.
pub struct OllamaResponse {
    pub model: String,
    pub created_at: String,
    pub response: String,
    pub done: bool,
    pub done_reason: String,
    pub total_duration: u64,
    pub load_duration: u64,
    pub prompt_eval_count: u64,
    pub prompt_eval_duration: u64,
    pub eval_count: u64,
    pub eval_duration: u64,
}

/// The server address used when none is configured.
pub const DEFAULT_OLLAMA_HOST: &'static str = "http://localhost:11434";

/// The model used when none is configured.
pub const DEFAULT_OLLAMA_MODEL: &'static str = "llama3.2";

/// The program name used when the model server's binary was not found.
pub const OLLAMA_PROGRAM: &'static str = "ollama";

/// Where the model server listens and which model it runs.
pub struct LlmSettings {
    pub ollama_host: String,
    pub ollama_model: String,
}

/// The settings from the configured host and model, each falling back to
/// its default when not configured.
pub fn llm_settings(host: Option<String>, model: Option<String>) -> (s: LlmSettings)
    ensures
        s.ollama_host@ == match host {
            Some(h) => h@,
            None => DEFAULT_OLLAMA_HOST@,
        },
        s.ollama_model@ == match model {
            Some(m) => m@,
            None => DEFAULT_OLLAMA_MODEL@,
        },
{
    let ollama_host = match host {
        Some(h) => h,
        None => text_copy(DEFAULT_OLLAMA_HOST),
    };
    let ollama_model = match model {
        Some(m) => m,
        None => text_copy(DEFAULT_OLLAMA_MODEL),
    };
    LlmSettings { ollama_host, ollama_model }
}

/// The address of the conversation endpoint of the server at `host`.
pub fn chat_endpoint(host: &str) -> (url: String)
    ensures
        url@ == host@ + "/api/chat"@,
{
    concat2(host, "/api/chat")
}

/// The address of the generation endpoint of the server at `host`.
pub fn generate_endpoint(host: &str) -> (url: String)
    ensures
        url@ == host@ + "/api/generate"@,
{
    concat2(host, "/api/generate")
}

/// The conversation request for `messages`, answered in one piece.
pub fn chat_request(model: &str, messages: Vec<ChatMessage>) -> (r: OllamaChatRequest)
    ensures
        r.model@ == model@,
        r.messages == messages,
        !r.stream,
{
    OllamaChatRequest { model: text_copy(model), messages, stream: false }
}

/// The generation request for `prompt`, answered in one piece.
pub fn generate_request(model: &str, prompt: &str) -> (r: OllamaRequest)
    ensures
        r.model@ == model@,
        r.prompt@ == prompt@,
        !r.stream,
{
    OllamaRequest { model: text_copy(model), prompt: text_copy(prompt), stream: false }
}

/// The reply carried by a conversation answer.
pub fn chat_reply(answer: OllamaChatResponse) -> (r: ChatResponse)
    ensures
        r == answer.message,
{
    answer.message
}

/// The text carried by a generation answer.
pub fn generated_text(answer: OllamaResponse) -> (r: String)
    ensures
        r == answer.response,
{
    answer.response
}

/// Whether the model list the server prints names `model`.
pub fn model_listed(list_output: &str, model: &str) -> (b: bool)
    ensures
        b == contains_seq(list_output@, model@),
{
    contains_text(list_output, model)
}

/// The program to run for the model server: the binary found, else the bare
/// program name.
pub fn ollama_program(binary: Option<String>) -> (p: String)
    ensures
        p@ == match binary {
            Some(b) => b@,
            None => OLLAMA_PROGRAM@,
        },
{
    match binary {
        Some(b) => b,
        None => text_copy(OLLAMA_PROGRAM),
    }
}


/// Whitespace as Unicode defines it (`char::is_whitespace`).
pub open spec fn is_unicode_space(c: char) -> bool {
    ('\t' <= c && c <= '\r') || c == ' ' || c == '\u{85}' || c == '\u{A0}' || c == '\u{1680}' || ('\u{2000}'
        <= c && c <= '\u{200A}') || c == '\u{2028}' || c == '\u{2029}' || c == '\u{202F}' || c == '\u{205F}'
        || c == '\u{3000}'
}

/// `s` without its leading whitespace.
pub open spec fn trim_start(s: Seq<char>) -> Seq<char>
    decreases s.len(),
{
    if s.len() > 0 && is_unicode_space(s[0]) {
        trim_start(s.skip(1))
    } else {
        s
    }
}

/// `s` without its trailing whitespace.
pub open spec fn trim_end(s: Seq<char>) -> Seq<char>
    decreases s.len(),
{
    if s.len() > 0 && is_unicode_space(s.last()) {
        trim_end(s.drop_last())
    } else {
        s
    }
}

/// Where the first line of `t` ends: at its first line feed, or its end.
pub open spec fn line_end(t: Seq<char>, i: int) -> int
    decreases t.len() - i,
{
    if i >= t.len() || t[i] == '\n' {
        i
    } else {
        line_end(t, i + 1)
    }
}

/// The first line of `t` (`str::lines().next()`): up to the first line
/// feed, without a carriage return just before it.
pub open spec fn first_line(t: Seq<char>) -> Seq<char> {
    let k = line_end(t, 0);
    if k < t.len() && k > 0 && t[k - 1] == '\r' {
        t.take(k - 1)
    } else {
        t.take(k)
    }
}

/// The path that a `which` (or `where`) lookup printed: the first line of
/// its trimmed output, or `None` when it printed only whitespace.
pub open spec fn which_path(output: Seq<char>) -> Option<Seq<char>> {
    let t = trim_end(trim_start(output));
    if t.len() == 0 {
        None
    } else {
        Some(first_line(t))
    }
}

fn is_unicode_space_exec(c: char) -> (b: bool)
    ensures
        b == is_unicode_space(c),
{
    ('\t' <= c && c <= '\r') || c == ' ' || c == '\u{85}' || c == '\u{A0}' || c == '\u{1680}' || ('\u{2000}'
        <= c && c <= '\u{200A}') || c == '\u{2028}' || c == '\u{2029}' || c == '\u{202F}' || c == '\u{205F}'
        || c == '\u{3000}'
}

/// The bounds of `v` without its leading and trailing whitespace.
fn trim_bounds(v: &Vec<char>) -> (r: (usize, usize))
    ensures
        r.0 <= r.1 <= v.len(),
        trim_end(trim_start(v@)) == v@.subrange(r.0 as int, r.1 as int),
{
    let mut start: usize = 0;
    assert(v@.skip(0) =~= v@);
    while start < v.len() && is_unicode_space_exec(v[start])
        invariant
            start <= v.len(),
            trim_start(v@) == trim_start(v@.skip(start as int)),
        decreases v.len() - start,
    {
        assert(v@.skip(start as int).skip(1) =~= v@.skip(start + 1));
        start = start + 1;
    }
    let mut end: usize = v.len();
    let ghost ts = v@.skip(start as int);
    assert(ts.take(ts.len() as int) =~= ts);
    while end > start && is_unicode_space_exec(v[end - 1])
        invariant
            start <= end <= v.len(),
            ts == v@.skip(start as int),
            trim_start(v@) == ts,
            trim_end(ts) == trim_end(ts.take(end - start)),
        decreases end,
    {
        assert(ts.take(end - start).drop_last() =~= ts.take(end - start - 1));
        end = end - 1;
    }
    assert(ts.take(end - start) =~= v@.subrange(start as int, end as int));
    (start, end)
}

/// Where the first line of `v[start..end]` ends, relative to `start`.
fn line_end_exec(v: &Vec<char>, start: usize, end: usize) -> (k: usize)
    requires
        start <= end <= v.len(),
    ensures
        start <= k <= end,
        k - start == line_end(v@.subrange(start as int, end as int), 0),
{
    let ghost t = v@.subrange(start as int, end as int);
    let mut k: usize = start;
    while k < end && v[k] != '\n'
        invariant
            start <= k <= end <= v.len(),
            t == v@.subrange(start as int, end as int),
            line_end(t, 0) == line_end(t, k - start),
        decreases end - k,
    {
        assert(t[k - start] == v@[k as int]);
        k = k + 1;
    }
    if k < end {
        assert(t[k - start] == v@[k as int]);
    }
    k
}

/// The characters of `v[start..stop]`.
fn copy_range(v: &Vec<char>, start: usize, stop: usize) -> (out: Vec<char>)
    requires
        start <= stop <= v.len(),
    ensures
        out@ == v@.subrange(start as int, stop as int),
{
    let mut out: Vec<char> = Vec::new();
    let mut i: usize = start;
    while i < stop
        invariant
            start <= i <= stop <= v.len(),
            out@ == v@.subrange(start as int, i as int),
        decreases stop - i,
    {
        out.push(v[i]);
        assert(v@.subrange(start as int, i + 1) =~= v@.subrange(start as int, i as int).push(v@[i as int]));
        i = i + 1;
    }
    out
}

/// The path that a lookup of the model server's binary printed, if any.
pub fn which_output_path(output: &str) -> (p: Option<String>)
    ensures
        match p {
            Some(s) => which_path(output@) == Some(s@),
            None => which_path(output@) is None,
        },
{
    let v = chars_of(output);
    let (start, end) = trim_bounds(&v);
    let ghost t = v@.subrange(start as int, end as int);
    if end == start {
        return None;
    }
    let k = line_end_exec(&v, start, end);
    let stop = if k < end && k > start && v[k - 1] == '\r' { k - 1 } else { k };
    proof {
        if k < end && k > start {
            assert(t[k - start - 1] == v@[k - 1]);
        }
    }
    let line = copy_range(&v, start, stop);
    assert(first_line(t) =~= line@);
    Some(string_of_chars(&line))
}

} // verus!
