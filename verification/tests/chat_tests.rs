use chatbot_backend::config::{CacheConfig, OllamaConfig};
use chatbot_backend::handlers::chat::{
    chat_optimized, chat_response, complete_chat, decide_chat, relay_end, relay_step,
    stream_cached_response, BackendEvent, ChatPlan, RelayState,
};
use chatbot_backend::models::{ChatMessage, ChatRequest, OllamaResponse, StreamChunk};
use chatbot_backend::services::{CacheService, OllamaClient};

fn cache() -> CacheService {
    CacheService::new(CacheConfig { max_size_mb: 10, ttl_seconds: 60, enabled: true })
}

fn client() -> OllamaClient {
    OllamaClient::new(OllamaConfig {
        api_url: "http://localhost:11434".to_string(),
        model: "default-model".to_string(),
        system_prompt: "default prompt".to_string(),
        keep_alive: "15m".to_string(),
        timeout_seconds: 300,
    })
}

fn partial(content: &str, done: bool) -> BackendEvent {
    BackendEvent::Message(OllamaResponse {
        message: Some(ChatMessage { role: "assistant".to_string(), content: content.to_string() }),
        done,
    })
}

fn done_count(chunks: &[StreamChunk]) -> usize {
    chunks.iter().filter(|chunk| chunk.done).count()
}

#[test]
fn cached_answer_is_replayed_word_by_word() {
    let chunks = stream_cached_response("hello  brave\nworld".to_string(), None);
    assert_eq!(chunks.len(), 4);
    assert_eq!(chunks[0].content, Some("hello ".to_string()));
    assert_eq!(chunks[1].content, Some("brave ".to_string()));
    assert_eq!(chunks[2].content, Some("world".to_string()));
    for chunk in &chunks[..3] {
        assert!(!chunk.done);
        assert_eq!(chunk.cached, Some(true));
        assert_eq!(chunk.request_id, None);
        assert_eq!(chunk.error, None);
    }
    assert_eq!(chunks[3].content, None);
    assert!(chunks[3].done);
    assert_eq!(chunks[3].cached, Some(true));
    assert_eq!(chunks[3].error, None);
    assert_eq!(done_count(&chunks), 1);
}

#[test]
fn replay_of_an_empty_answer_is_one_final_chunk() {
    let chunks = stream_cached_response(String::new(), Some("r1".to_string()));
    assert_eq!(chunks.len(), 1);
    assert!(chunks[0].done);
    assert_eq!(chunks[0].content, None);
    assert_eq!(chunks[0].request_id, Some("r1".to_string()));
}

#[test]
fn replay_carries_the_request_id() {
    let chunks = stream_cached_response("a b".to_string(), Some("r1".to_string()));
    assert_eq!(chunks.len(), 3);
    for chunk in &chunks {
        assert_eq!(chunk.request_id, Some("r1".to_string()));
    }
}

#[test]
fn live_relay_stores_the_whole_answer() {
    let mut cache = cache();
    let mut state = RelayState::new();
    let mut all: Vec<StreamChunk> = Vec::new();
    all.extend(relay_step(&mut state, &mut cache, "key", true, partial("Hel", false)));
    assert!(!cache.contains("key"));
    all.extend(relay_step(&mut state, &mut cache, "key", true, partial("lo", false)));
    all.extend(relay_step(
        &mut state,
        &mut cache,
        "key",
        true,
        BackendEvent::Message(OllamaResponse { message: None, done: false }),
    ));
    all.extend(relay_step(&mut state, &mut cache, "key", true, partial("!", true)));
    assert!(state.finished);
    assert_eq!(state.accumulated, "Hello!");
    assert_eq!(all.len(), 4);
    assert_eq!(all[0].content, Some("Hel".to_string()));
    assert_eq!(all[1].content, Some("lo".to_string()));
    assert_eq!(all[2].content, Some("!".to_string()));
    assert_eq!(all[2].cached, Some(false));
    assert!(all[3].done);
    assert_eq!(all[3].content, None);
    assert_eq!(all[3].cached, Some(false));
    assert_eq!(all[3].error, None);
    assert_eq!(done_count(&all), 1);
    assert_eq!(cache.get("key"), Some("Hello!".to_string()));
    let late = relay_step(&mut state, &mut cache, "key", true, partial("more", true));
    assert!(late.is_empty());
    assert_eq!(state.accumulated, "Hello!");
    assert_eq!(cache.get("key"), Some("Hello!".to_string()));
}

#[test]
fn live_relay_without_caching_stores_nothing() {
    let mut cache = cache();
    let mut state = RelayState::new();
    let chunks = relay_step(&mut state, &mut cache, "key", false, partial("all", true));
    assert_eq!(chunks.len(), 2);
    assert!(chunks[1].done);
    assert!(state.finished);
    assert!(!cache.contains("key"));
}

#[test]
fn failed_relay_ends_with_an_error_and_caches_nothing() {
    let mut cache = cache();
    let mut state = RelayState::new();
    let mut all: Vec<StreamChunk> = Vec::new();
    all.extend(relay_step(&mut state, &mut cache, "key", true, partial("part", false)));
    all.extend(relay_step(
        &mut state,
        &mut cache,
        "key",
        true,
        BackendEvent::Failure("Stream error: reset".to_string()),
    ));
    assert_eq!(all.len(), 2);
    assert_eq!(all[0].content, Some("part".to_string()));
    assert!(all[1].done);
    assert_eq!(all[1].content, None);
    assert_eq!(all[1].cached, None);
    assert_eq!(all[1].error, Some("Stream error: reset".to_string()));
    assert_eq!(done_count(&all), 1);
    assert!(state.finished);
    assert_eq!(cache.get("key"), None);
    assert!(relay_step(&mut state, &mut cache, "key", true, partial("x", true)).is_empty());
    assert_eq!(cache.get("key"), None);
}

#[test]
fn first_call_asks_backend_second_is_served_from_cache() {
    let mut cache = cache();
    let client = client();
    let request = ChatRequest {
        messages: vec![ChatMessage { role: "user".to_string(), content: "hi".to_string() }],
        model: Some("m".to_string()),
        system_prompt: Some("be brief".to_string()),
        stream: false,
        priority: 0,
        use_cache: true,
    };
    let expected_key = CacheService::generate_key(
        &[
            ChatMessage { role: "system".to_string(), content: "be brief".to_string() },
            ChatMessage { role: "user".to_string(), content: "hi".to_string() },
        ],
        "m",
    );
    assert_eq!(expected_key, "43594fdd8bbfc84580070f20f003be364f6c881de58e7ce16763609a749c7b93");
    let plan = chat_optimized(&mut cache, &client, &request, "default-model", "default prompt");
    let (cache_key, use_cache) = match plan {
        ChatPlan::CallBackend { cache_key, request: asked, use_cache } => {
            assert_eq!(asked.model, "m");
            assert!(!asked.stream);
            assert_eq!(asked.keep_alive, Some("15m".to_string()));
            assert_eq!(asked.messages.len(), 2);
            assert_eq!(asked.messages[0].role, "system");
            assert_eq!(asked.messages[0].content, "be brief");
            assert_eq!(asked.messages[1].role, "user");
            assert_eq!(asked.messages[1].content, "hi");
            (cache_key, use_cache)
        }
        _ => panic!("expected a call of the backend"),
    };
    assert_eq!(cache_key, expected_key);
    assert!(use_cache);
    let response = complete_chat(&mut cache, cache_key, use_cache, "hello there".to_string());
    assert_eq!(response.message.role, "assistant");
    assert_eq!(response.message.content, "hello there");
    assert_eq!(response.cached, Some(false));
    assert!(cache.contains(&expected_key));
    let again = chat_optimized(&mut cache, &client, &request, "default-model", "default prompt");
    match again {
        ChatPlan::AnswerCached(response) => {
            assert_eq!(response.message.role, "assistant");
            assert_eq!(response.message.content, "hello there");
            assert_eq!(response.cached, Some(true));
        }
        _ => panic!("expected the cached answer"),
    }
}

#[test]
fn streaming_request_is_relayed_then_replayed() {
    let mut cache = cache();
    let client = client();
    let request = ChatRequest {
        messages: vec![ChatMessage { role: "user".to_string(), content: "hi".to_string() }],
        model: None,
        system_prompt: None,
        stream: true,
        priority: 0,
        use_cache: true,
    };
    let plan = chat_optimized(&mut cache, &client, &request, "default-model", "default prompt");
    let key = match plan {
        ChatPlan::RelayLive { cache_key, request: asked, use_cache } => {
            assert!(use_cache);
            assert!(asked.stream);
            assert_eq!(asked.model, "default-model");
            assert_eq!(asked.messages[0].content, "default prompt");
            cache_key
        }
        _ => panic!("expected a live relay"),
    };
    let mut state = RelayState::new();
    relay_step(&mut state, &mut cache, &key, true, partial("one two", true));
    let again = chat_optimized(&mut cache, &client, &request, "default-model", "default prompt");
    match again {
        ChatPlan::ReplayCached(text) => assert_eq!(text, "one two"),
        _ => panic!("expected a replay"),
    }
}

#[test]
fn request_without_caching_never_asks_the_cache() {
    let mut cache = cache();
    let client = client();
    let request = ChatRequest {
        messages: vec![],
        model: None,
        system_prompt: None,
        stream: false,
        priority: 0,
        use_cache: false,
    };
    let plan = chat_optimized(&mut cache, &client, &request, "m", "p");
    let key = match plan {
        ChatPlan::CallBackend { cache_key, use_cache, .. } => {
            assert!(!use_cache);
            cache_key
        }
        _ => panic!("expected a call of the backend"),
    };
    let stats = cache.stats();
    assert_eq!(stats.hits + stats.misses, 0);
    let response = complete_chat(&mut cache, key.clone(), false, "text".to_string());
    assert_eq!(response.cached, Some(false));
    assert!(!cache.contains(&key));
}

#[test]
fn decisions_follow_lookup_and_mode() {
    let client = client();
    let asked = client.build_request(&[], "m", "p", true);
    match decide_chat(Some("t".to_string()), true, true, "k".to_string(), asked.clone()) {
        ChatPlan::ReplayCached(text) => assert_eq!(text, "t"),
        _ => panic!("expected a replay"),
    }
    match decide_chat(Some("t".to_string()), false, true, "k".to_string(), asked.clone()) {
        ChatPlan::AnswerCached(response) => assert_eq!(response.message.content, "t"),
        _ => panic!("expected the cached answer"),
    }
    match decide_chat(None, true, false, "k".to_string(), asked.clone()) {
        ChatPlan::RelayLive { cache_key, use_cache, .. } => {
            assert_eq!(cache_key, "k");
            assert!(!use_cache);
        }
        _ => panic!("expected a live relay"),
    }
    match decide_chat(None, false, true, "k".to_string(), asked) {
        ChatPlan::CallBackend { cache_key, use_cache, .. } => {
            assert_eq!(cache_key, "k");
            assert!(use_cache);
        }
        _ => panic!("expected a call of the backend"),
    }
    let response = chat_response("x".to_string(), true);
    assert_eq!(response.message.role, "assistant");
    assert_eq!(response.cached, Some(true));
}

#[test]
fn backend_stream_that_just_stops_still_ends_once() {
    let mut cache = cache();
    let mut state = RelayState::new();
    let mut all: Vec<StreamChunk> = Vec::new();
    all.extend(relay_step(&mut state, &mut cache, "key", true, partial("half", false)));
    assert!(!state.finished);
    all.extend(relay_end(&mut state));
    assert!(state.finished);
    assert_eq!(state.accumulated, "half");
    assert_eq!(all.len(), 2);
    assert_eq!(all[0].content, Some("half".to_string()));
    assert!(!all[0].done);
    assert!(all[1].done);
    assert_eq!(all[1].content, None);
    assert_eq!(all[1].request_id, None);
    assert_eq!(all[1].cached, Some(false));
    assert_eq!(all[1].error, None);
    assert_eq!(done_count(&all), 1);
    assert_eq!(cache.get("key"), None);
    assert!(relay_end(&mut state).is_empty());
    assert!(relay_step(&mut state, &mut cache, "key", true, partial("x", true)).is_empty());
    assert_eq!(cache.get("key"), None);
}

#[test]
fn end_of_an_empty_backend_stream_is_one_final_chunk() {
    let mut state = RelayState::new();
    let chunks = relay_end(&mut state);
    assert_eq!(chunks.len(), 1);
    assert!(chunks[0].done);
    assert!(state.finished);
}

#[test]
fn end_after_completion_or_failure_adds_nothing() {
    let mut cache = cache();
    let mut state = RelayState::new();
    let chunks = relay_step(&mut state, &mut cache, "key", true, partial("all", true));
    assert_eq!(done_count(&chunks), 1);
    assert!(relay_end(&mut state).is_empty());
    assert_eq!(cache.get("key"), Some("all".to_string()));
    let mut failed = RelayState::new();
    let chunks =
        relay_step(&mut failed, &mut cache, "other", true, BackendEvent::Failure("x".to_string()));
    assert_eq!(done_count(&chunks), 1);
    assert!(relay_end(&mut failed).is_empty());
}
