use chatbot_backend::config::{
    default_timeout, default_true, default_workers, BatchConfig, CacheConfig, OllamaConfig,
    QueueConfig,
};
use chatbot_backend::handlers::queue::ClientError;
use chatbot_backend::handlers::stats::{
    get_stats, manage_cache, parse_action, warmed_response, CacheCommand,
};
use chatbot_backend::models::{duplicate_text, ChatMessage, OllamaResponse};
use chatbot_backend::services::batch::{percent, ProcessStep};
use chatbot_backend::services::ollama::{with_system_prompt, BackendError};
use chatbot_backend::services::{BatchProcessor, CacheService, OllamaClient, QueueService};

fn cache() -> CacheService {
    CacheService::new(CacheConfig { max_size_mb: 10, ttl_seconds: 60, enabled: true })
}

fn client() -> OllamaClient {
    OllamaClient::new(OllamaConfig {
        api_url: "http://localhost:11434".to_string(),
        model: "test".to_string(),
        system_prompt: "test".to_string(),
        keep_alive: "15m".to_string(),
        timeout_seconds: 300,
    })
}

fn processor() -> BatchProcessor {
    BatchProcessor::new(BatchConfig {
        max_batch_size: 3,
        batch_timeout_ms: 2000,
        enable_deduplication: true,
    })
}

fn user(content: &str) -> ChatMessage {
    ChatMessage { role: "user".to_string(), content: content.to_string() }
}

#[test]
fn test_batch_processor_stats() {
    let cache_config = CacheConfig { max_size_mb: 10, ttl_seconds: 60, enabled: true };

    let ollama_config = OllamaConfig {
        api_url: "http://localhost:11434".to_string(),
        model: "test".to_string(),
        system_prompt: "test".to_string(),
        keep_alive: "15m".to_string(),
        timeout_seconds: 300,
    };

    let batch_config =
        BatchConfig { max_batch_size: 3, batch_timeout_ms: 2000, enable_deduplication: true };

    let _cache = CacheService::new(cache_config);
    let _ollama = OllamaClient::new(ollama_config);
    let processor = BatchProcessor::new(batch_config);

    let stats = processor.stats();
    assert_eq!(stats.total_requests, 0);
}

#[test]
fn defaults_of_the_settings() {
    assert_eq!(default_workers(), 4);
    assert_eq!(default_timeout(), 300);
    assert!(default_true());
}

#[test]
fn processor_serves_the_second_request_from_the_cache() {
    let mut cache = cache();
    let client = client();
    let mut processor = processor();
    let step = processor.process(&mut cache, &client, &[user("hi")], "m", "be brief");
    let key = match step {
        ProcessStep::CallBackend { cache_key, request } => {
            assert_eq!(request.model, "m");
            assert!(!request.stream);
            assert_eq!(request.messages.len(), 2);
            assert_eq!(request.messages[0].role, "system");
            assert_eq!(request.messages[0].content, "be brief");
            assert_eq!(request.keep_alive, Some("15m".to_string()));
            cache_key
        }
        ProcessStep::Served(_) => panic!("nothing is cached yet"),
    };
    assert_eq!(key, "43594fdd8bbfc84580070f20f003be364f6c881de58e7ce16763609a749c7b93");
    assert_eq!(processor.finish(&mut cache, key, "answer".to_string()), "answer");
    match processor.process(&mut cache, &client, &[user("hi")], "m", "be brief") {
        ProcessStep::Served(text) => assert_eq!(text, "answer"),
        ProcessStep::CallBackend { .. } => panic!("the answer is cached"),
    }
    let stats = processor.stats();
    assert_eq!(stats.total_requests, 2);
    assert_eq!(stats.cached_responses, 1);
    assert_eq!(stats.batches_processed, 1);
    assert_eq!(stats.total_batch_size, 1);
    assert_eq!(stats.deduplicated_requests, 0);
    assert_eq!(stats.cache_hit_rate, 50);
    assert_eq!(stats.deduplication_rate, 0);
}

#[test]
fn failed_backend_call_leaves_no_entry() {
    let mut cache = cache();
    let client = client();
    let mut processor = processor();
    let first = processor.process(&mut cache, &client, &[user("hi")], "m", "p");
    assert!(matches!(first, ProcessStep::CallBackend { .. }));
    let second = processor.process(&mut cache, &client, &[user("hi")], "m", "p");
    assert!(matches!(second, ProcessStep::CallBackend { .. }));
    let stats = processor.stats();
    assert_eq!(stats.total_requests, 2);
    assert_eq!(stats.cached_responses, 0);
    assert_eq!(stats.batches_processed, 0);
    assert_eq!(stats.cache_hit_rate, 0);
}

#[test]
fn percentages_are_rounded() {
    assert_eq!(percent(0, 0), 0);
    assert_eq!(percent(0, 7), 0);
    assert_eq!(percent(1, 3), 33);
    assert_eq!(percent(2, 3), 67);
    assert_eq!(percent(1, 2), 50);
    assert_eq!(percent(1, 8), 13);
    assert_eq!(percent(1, 200), 1);
    assert_eq!(percent(1, 201), 0);
    assert_eq!(percent(7, 7), 100);
    assert_eq!(percent(u64::MAX, u64::MAX), 100);
    assert_eq!(percent(3, 2), 150);
    assert_eq!(percent(u64::MAX, 1), u32::MAX);
}

#[test]
fn settle_counts_hits_only() {
    let client = client();
    let mut processor = processor();
    let mut cache = cache();
    let _ = processor.process(&mut cache, &client, &[], "m", "p");
    let asked = client.build_request(&[], "m", "p", false);
    match processor.settle(Some("t".to_string()), "k".to_string(), asked) {
        ProcessStep::Served(text) => assert_eq!(text, "t"),
        ProcessStep::CallBackend { .. } => panic!("a hit is served"),
    }
    assert_eq!(processor.stats().cached_responses, 1);
    assert_eq!(processor.stats().cache_hit_rate, 100);
}

#[test]
fn warm_request_says_hello() {
    let request = BatchProcessor::warm_model(&client(), "m");
    assert_eq!(request.model, "m");
    assert!(!request.stream);
    assert_eq!(request.messages.len(), 2);
    assert_eq!(request.messages[0].role, "system");
    assert_eq!(request.messages[0].content, "You are a helpful assistant.");
    assert_eq!(request.messages[1].role, "user");
    assert_eq!(request.messages[1].content, "Hello");
}

#[test]
fn backend_addresses() {
    assert_eq!(client().chat_url(), "http://localhost:11434/api/chat");
    assert_eq!(client().health_url(), "http://localhost:11434/api/tags");
}

#[test]
fn system_prompt_leads_the_transcript() {
    let all = with_system_prompt(&[user("a"), user("b")], "sys");
    assert_eq!(all.len(), 3);
    assert_eq!(all[0].role, "system");
    assert_eq!(all[0].content, "sys");
    assert_eq!(all[1].content, "a");
    assert_eq!(all[2].content, "b");
}

#[test]
fn text_of_a_completion() {
    let full = OllamaResponse { message: Some(user("answer")), done: true };
    assert_eq!(OllamaClient::response_text(full), "answer");
    let bare = OllamaResponse { message: None, done: true };
    assert_eq!(OllamaClient::response_text(bare), "");
}

#[test]
fn first_valid_reading_is_picked() {
    let picked = OllamaClient::select_response(vec![
        None,
        Some(OllamaResponse { message: Some(user("first")), done: false }),
        Some(OllamaResponse { message: Some(user("second")), done: true }),
    ])
    .unwrap();
    assert_eq!(picked.message.unwrap().content, "first");
    assert!(!picked.done);
}

#[test]
fn chunk_without_valid_reading_is_an_error() {
    let none = OllamaClient::select_response(vec![None, None]);
    assert!(matches!(none, Err(BackendError::NoValidResponse)));
    let empty = OllamaClient::select_response(vec![]);
    assert!(matches!(empty, Err(BackendError::NoValidResponse)));
}

#[test]
fn texts_of_the_errors() {
    assert_eq!(
        BackendError::Send("refused".to_string()).message(),
        "Failed to send request to Ollama: refused"
    );
    assert_eq!(
        BackendError::Status("500 Internal Server Error".to_string(), "boom".to_string())
            .message(),
        "Ollama API error: 500 Internal Server Error - boom"
    );
    assert_eq!(
        BackendError::StreamStatus("404 Not Found".to_string()).message(),
        "Ollama API error: 404 Not Found"
    );
    assert_eq!(
        BackendError::Parse("eof".to_string()).message(),
        "Failed to parse Ollama response: eof"
    );
    assert_eq!(BackendError::Stream("reset".to_string()).message(), "Stream error: reset");
    assert_eq!(BackendError::Utf8("bad".to_string()).message(), "UTF-8 error: bad");
    assert_eq!(BackendError::NoValidResponse.message(), "No valid response in chunk");
}

#[test]
fn actions_are_read_by_name() {
    assert!(matches!(parse_action("clear", None), Ok(CacheCommand::ClearAll)));
    assert!(matches!(
        parse_action("clear_response_cache", None),
        Ok(CacheCommand::ClearResponseCache)
    ));
    assert!(matches!(
        parse_action("clear_conversation_cache", None),
        Ok(CacheCommand::ClearConversationCache)
    ));
    match parse_action("warm_model", None) {
        Ok(CacheCommand::WarmModel(model)) => assert_eq!(model, "deepseek-r1:8b"),
        _ => panic!("expected a warming command"),
    }
    match parse_action("warm_model", Some("llama3".to_string())) {
        Ok(CacheCommand::WarmModel(model)) => assert_eq!(model, "llama3"),
        _ => panic!("expected a warming command"),
    }
    assert!(matches!(parse_action("Clear", None), Err(ClientError::UnknownAction)));
    assert!(matches!(parse_action("", None), Err(ClientError::UnknownAction)));
}

#[test]
fn clearing_commands_clear_their_caches() {
    let mut responses = cache();
    let mut conversations = cache();
    responses.set("r".to_string(), "1".to_string());
    conversations.set("c".to_string(), "2".to_string());
    let answer =
        manage_cache(&mut responses, &mut conversations, &CacheCommand::ClearResponseCache)
            .unwrap();
    assert!(answer.success);
    assert_eq!(answer.message, "Response cache cleared");
    assert!(!responses.contains("r"));
    assert!(conversations.contains("c"));
    responses.set("r".to_string(), "1".to_string());
    let answer =
        manage_cache(&mut responses, &mut conversations, &CacheCommand::ClearConversationCache)
            .unwrap();
    assert_eq!(answer.message, "Conversation cache cleared");
    assert!(responses.contains("r"));
    assert!(!conversations.contains("c"));
    conversations.set("c".to_string(), "2".to_string());
    let answer = manage_cache(&mut responses, &mut conversations, &CacheCommand::ClearAll).unwrap();
    assert_eq!(answer.message, "All caches cleared");
    assert!(!responses.contains("r"));
    assert!(!conversations.contains("c"));
    responses.set("r".to_string(), "1".to_string());
    let warm = manage_cache(
        &mut responses,
        &mut conversations,
        &CacheCommand::WarmModel("m".to_string()),
    );
    assert!(warm.is_none());
    assert!(responses.contains("r"));
    let warmed = warmed_response("m");
    assert!(warmed.success);
    assert_eq!(warmed.message, "Model m warmed");
}

#[test]
fn counters_of_the_whole_gateway() {
    let mut responses = cache();
    let conversations = cache();
    let processor = processor();
    let mut queue =
        QueueService::new(QueueConfig { max_concurrent: 1, estimated_time_per_request_ms: 10 });
    let _ = responses.get("missing");
    let _ = queue.enqueue(vec![], "m".to_string(), "p".to_string());
    queue.set_processing(true);
    let counts = get_stats(&responses, &conversations, &processor, &queue);
    assert_eq!(counts.response_cache.misses, 1);
    assert_eq!(counts.response_cache.hits, 0);
    assert_eq!(counts.conversation_cache.misses, 0);
    assert_eq!(counts.batch_processor.total_requests, 0);
    assert_eq!(counts.queue_length, 1);
    assert!(counts.is_processing);
}

#[test]
fn copies_keep_what_they_copy() {
    assert_eq!(user("a").duplicate().role, "user");
    assert_eq!(duplicate_text(&Some("x".to_string())), Some("x".to_string()));
    assert_eq!(duplicate_text(&None), None);
}
