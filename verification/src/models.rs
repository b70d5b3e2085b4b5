//! The values that travel between clients, the gateway and the backend,
//! each with the mathematical view that the contracts speak of.
use vstd::prelude::*;

verus! {

/// One turn of a conversation.
#[derive(Debug, Clone)]
pub struct ChatMessage {
    pub role: String,
    pub content: String,
}

/// What a `ChatMessage` says: its role and its content as sequences of
/// characters.
pub struct MessageView {
    pub role: Seq<char>,
    pub content: Seq<char>,
}

impl View for ChatMessage {
    type V = MessageView;

    open spec fn view(&self) -> MessageView {
        MessageView { role: self.role@, content: self.content@ }
    }
}

/// The views of a sequence of messages, in order.
pub open spec fn transcript(messages: Seq<ChatMessage>) -> Seq<MessageView> {
    Seq::new(messages.len(), |i: int| messages[i]@)
}

/// The characters of an optional text.
pub open spec fn opt_text(text: Option<String>) -> Option<Seq<char>> {
    match text {
        Some(t) => Some(t@),
        None => None,
    }
}

impl ChatMessage {
    /// A copy of the message with the same role and content.
    pub fn duplicate(&self) -> (copy: ChatMessage)
        ensures
            copy@ == self@,
    {
        ChatMessage { role: self.role.clone(), content: self.content.clone() }
    }
}

/// A copy of an optional text.
pub fn duplicate_text(text: &Option<String>) -> (copy: Option<String>)
    ensures
        opt_text(copy) == opt_text(*text),
{
    match text {
        Some(t) => Some(t.clone()),
        None => None,
    }
}

/// A client's request for a chat completion.
#[derive(Debug, Clone)]
pub struct ChatRequest {
    pub messages: Vec<ChatMessage>,
    pub model: Option<String>,
    pub system_prompt: Option<String>,
    pub stream: bool,
    pub priority: i32,
    pub use_cache: bool,
}

/// The answer to a chat request that did not ask for a stream.
#[derive(Debug, Clone)]
pub struct ChatResponse {
    pub message: ChatMessage,
    pub cached: Option<bool>,
}

/// One unit of a streamed answer.
#[derive(Debug, Clone)]
pub struct StreamChunk {
    pub content: Option<String>,
    pub done: bool,
    pub request_id: Option<String>,
    pub cached: Option<bool>,
    pub error: Option<String>,
}

/// What a `StreamChunk` carries.
pub struct ChunkView {
    pub content: Option<Seq<char>>,
    pub done: bool,
    pub request_id: Option<Seq<char>>,
    pub cached: Option<bool>,
    pub error: Option<Seq<char>>,
}

impl View for StreamChunk {
    type V = ChunkView;

    open spec fn view(&self) -> ChunkView {
        ChunkView {
            content: opt_text(self.content),
            done: self.done,
            request_id: opt_text(self.request_id),
            cached: self.cached,
            error: opt_text(self.error),
        }
    }
}

/// The views of a sequence of chunks, in order.
pub open spec fn chunk_views(chunks: Seq<StreamChunk>) -> Seq<ChunkView> {
    Seq::new(chunks.len(), |i: int| chunks[i]@)
}

/// A client's request to be put into the admission queue.
#[derive(Debug, Clone)]
pub struct QueueRequest {
    pub messages: Vec<ChatMessage>,
    pub model: Option<String>,
    pub system_prompt: Option<String>,
}

/// Where a queued request stands.
#[derive(Debug, Clone)]
pub struct QueueStatus {
    pub queue_position: usize,
    pub queue_length: usize,
    pub estimated_wait_time: u64,
    pub is_processing: bool,
}

/// The answer to an admission: the new id and where it stands.
#[derive(Debug, Clone)]
pub struct QueueResponse {
    pub request_id: String,
    pub status: QueueStatus,
}

/// The answer to a status query on one id.
#[derive(Debug, Clone)]
pub struct QueueStatusResponse {
    pub request_id: String,
    pub completed: bool,
    pub status: Option<QueueStatus>,
}

/// The outcome of a cache management action.
#[derive(Debug, Clone)]
pub struct ActionResponse {
    pub success: bool,
    pub message: String,
}

/// What is sent to the backend for one chat completion.
#[derive(Debug, Clone)]
pub struct OllamaRequest {
    pub model: String,
    pub messages: Vec<ChatMessage>,
    pub stream: bool,
    pub keep_alive: Option<String>,
}

/// One event of the backend's answer.
#[derive(Debug, Clone)]
pub struct OllamaResponse {
    pub message: Option<ChatMessage>,
    pub done: bool,
}

/// The counters of a response cache, from which its rates are derived.
#[derive(Debug, Clone, Copy)]
pub struct CacheCounts {
    pub total_entries: u64,
    pub hits: u64,
    pub misses: u64,
    pub max_size_mb: u64,
}

/// The counters of the request processor with its two rounded percentages.
#[derive(Debug, Clone, Copy)]
pub struct BatchCounts {
    pub total_requests: u64,
    pub cached_responses: u64,
    pub deduplicated_requests: u64,
    pub batches_processed: u64,
    pub total_batch_size: u64,
    pub cache_hit_rate: u32,
    pub deduplication_rate: u32,
}

} // verus!
