use heart::api_response::ApiSuccessResponse;
use heart::llm::{
    chat_endpoint, chat_reply, chat_request, generate_endpoint, generate_request, generated_text, llm_settings,
    model_listed, ollama_program, which_output_path, ChatMessage, ChatResponse, OllamaChatResponse, OllamaResponse,
};
use heart::prompts::{
    chat_prompt_builder, welcome_back_prompt_builder, writing_style_prompt_builder, CHAT_PROMPT, CONTEXT_PART_PROMPT,
    EMOTION_STATE_PART_PROMPT, MEMORY_RETRIEVE_PART_PROMPT, SIGNIFICANT_MEMORY_PART_PROMPT,
    WRITING_STYLE_PART_PROMPT, WRITING_STYLE_PROMPT,
};

fn expected_chat(context: &str, emotion: &str, memory: &str, style: &str) -> String {
    let context_part = CONTEXT_PART_PROMPT.replace("{{context}}", context);
    let emotion_part = EMOTION_STATE_PART_PROMPT.replace("{{emotion_state}}", emotion);
    let memory_part = if memory.is_empty() {
        String::new()
    } else {
        MEMORY_RETRIEVE_PART_PROMPT.replace("{{memory_retrieved}}", memory)
    };
    let style_part = if style.is_empty() {
        String::new()
    } else {
        WRITING_STYLE_PART_PROMPT.replace("{{writing_style}}", style)
    };
    CHAT_PROMPT
        .replace("{{context}}", &context_part)
        .replace("{{memory_retrieved}}", &memory_part)
        .replace("{{writing_style}}", &style_part)
        .replace("{{emotion_state}}", &emotion_part)
}

#[test]
fn chat_prompt_fills_every_part() {
    let prompt = chat_prompt_builder("Today date : Monday", "happy", Some("we talked about cats"), Some("short and lowercase"));
    assert_eq!(prompt, expected_chat("Today date : Monday", "happy", "we talked about cats", "short and lowercase"));
    assert!(prompt.contains("Today date : Monday"));
    assert!(prompt.contains("Right now you feel: happy"));
    assert!(prompt.contains("we talked about cats"));
    assert!(prompt.contains("short and lowercase"));
    assert!(!prompt.contains("{{"));
}

#[test]
fn chat_prompt_empty_parts_are_left_out() {
    let none = chat_prompt_builder("ctx", "calm", None, None);
    let empty = chat_prompt_builder("ctx", "calm", Some(""), Some(""));
    assert_eq!(none, empty);
    assert_eq!(none, expected_chat("ctx", "calm", "", ""));
    assert!(!none.contains("# MEMORIES SURFACING"));
    assert!(!none.contains("# THE USER'S WRITING STYLE"));
}

#[test]
fn welcome_back_prompt_uses_significant_memories() {
    let prompt = welcome_back_prompt_builder("ctx", "the trip to Lisbon", "nostalgic", None);
    let expected = CHAT_PROMPT
        .replace("{{context}}", &CONTEXT_PART_PROMPT.replace("{{context}}", "ctx"))
        .replace(
            "{{memory_retrieved}}",
            &SIGNIFICANT_MEMORY_PART_PROMPT.replace("{{significant_memory}}", "the trip to Lisbon"),
        )
        .replace("{{writing_style}}", "")
        .replace("{{emotion_state}}", &EMOTION_STATE_PART_PROMPT.replace("{{emotion_state}}", "nostalgic"));
    assert_eq!(prompt, expected);
    assert!(!prompt.contains("# MEMORIES SURFACING"));
}

#[test]
fn welcome_back_prompt_keeps_an_empty_style_part() {
    let with_empty = welcome_back_prompt_builder("ctx", "", "calm", Some(""));
    let without = welcome_back_prompt_builder("ctx", "", "calm", None);
    assert_ne!(with_empty, without);
    assert!(with_empty.contains("# THE USER'S WRITING STYLE"));
}

#[test]
fn writing_style_prompt_holds_the_messages() {
    let prompt = writing_style_prompt_builder("hey\nwhat's up");
    assert_eq!(prompt, WRITING_STYLE_PROMPT.replace("{{messages}}", "hey\nwhat's up"));
    assert!(prompt.contains("hey\nwhat's up"));
}

#[test]
fn api_response_has_no_message() {
    let r = ApiSuccessResponse::new(42u32);
    assert_eq!(r.data, 42);
    assert!(r.message.is_none());
}

#[test]
fn llm_settings_fall_back_to_defaults() {
    let s = llm_settings(None, None);
    assert_eq!(s.ollama_host, "http://localhost:11434");
    assert_eq!(s.ollama_model, "llama3.2");
    let s = llm_settings(Some("http://10.0.0.2:9000".to_string()), Some("mistral".to_string()));
    assert_eq!(s.ollama_host, "http://10.0.0.2:9000");
    assert_eq!(s.ollama_model, "mistral");
}

#[test]
fn llm_endpoints_and_requests() {
    assert_eq!(chat_endpoint("http://localhost:11434"), "http://localhost:11434/api/chat");
    assert_eq!(generate_endpoint("http://localhost:11434"), "http://localhost:11434/api/generate");
    let msgs = vec![ChatMessage { role: "user".to_string(), content: "hi".to_string() }];
    let req = chat_request("llama3.2", msgs);
    assert_eq!(req.model, "llama3.2");
    assert_eq!(req.messages.len(), 1);
    assert_eq!(req.messages[0].content, "hi");
    assert!(!req.stream);
    let req = generate_request("llama3.2", "describe");
    assert_eq!(req.prompt, "describe");
    assert!(!req.stream);
}

#[test]
fn llm_replies() {
    let answer = OllamaChatResponse {
        model: "llama3.2".to_string(),
        created_at: "2024-01-01T00:00:00Z".to_string(),
        message: ChatResponse { role: "assistant".to_string(), content: "Hello!".to_string() },
        done: true,
        done_reason: "stop".to_string(),
        total_duration: 1,
        load_duration: 2,
        prompt_eval_count: 3,
        prompt_eval_duration: 4,
        eval_count: 5,
        eval_duration: 6,
    };
    let reply = chat_reply(answer);
    assert_eq!(reply.role, "assistant");
    assert_eq!(reply.content, "Hello!");
    let answer = OllamaResponse {
        model: "llama3.2".to_string(),
        created_at: "2024-01-01T00:00:00Z".to_string(),
        response: "Casual and brief.".to_string(),
        done: true,
        done_reason: "stop".to_string(),
        total_duration: 1,
        load_duration: 2,
        prompt_eval_count: 3,
        prompt_eval_duration: 4,
        eval_count: 5,
        eval_duration: 6,
    };
    assert_eq!(generated_text(answer), "Casual and brief.");
}

#[test]
fn model_listing_and_program() {
    let listing = "NAME              ID              SIZE      MODIFIED\nllama3.2:latest   a80c4f17acd5    2.0 GB    2 days ago\n";
    assert!(model_listed(listing, "llama3.2"));
    assert!(!model_listed(listing, "mistral"));
    assert_eq!(ollama_program(None), "ollama");
    assert_eq!(ollama_program(Some("/usr/local/bin/ollama".to_string())), "/usr/local/bin/ollama");
}

#[test]
fn which_output_gives_first_path() {
    assert_eq!(which_output_path("/usr/local/bin/ollama\n"), Some("/usr/local/bin/ollama".to_string()));
    assert_eq!(
        which_output_path("  C:\\a\\ollama.exe\r\nC:\\b\\ollama.exe\r\n"),
        Some("C:\\a\\ollama.exe".to_string())
    );
    assert_eq!(which_output_path("   \n\t"), None);
    assert_eq!(which_output_path(""), None);
    assert_eq!(which_output_path("x\r\ny"), Some("x".to_string()));
    assert_eq!(which_output_path("\u{a0}path\u{3000}"), Some("path".to_string()));
    for s in ["/a/b\n/c/d\n", " x y \n", "one\r\n", "a\rb\nc"] {
        let t = s.trim();
        assert_eq!(which_output_path(s), Some(t.lines().next().unwrap_or(t).to_string()));
    }
}
