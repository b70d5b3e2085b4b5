//! Settings of the gateway and of its services.
use vstd::prelude::*;

verus! {

#[derive(Debug, Clone)]
pub struct Config {
    pub server: ServerConfig,
    pub ollama: OllamaConfig,
    pub cache: CacheConfig,
    pub conversation_cache: CacheConfig,
    pub queue: QueueConfig,
    pub batch: BatchConfig,
    pub cors: CorsConfig,
}

#[derive(Debug, Clone)]
pub struct ServerConfig {
    pub host: String,
    pub port: u16,
    pub workers: usize,
}

#[derive(Debug, Clone)]
pub struct OllamaConfig {
    pub api_url: String,
    pub model: String,
    pub system_prompt: String,
    pub keep_alive: String,
    pub timeout_seconds: u64,
}

#[derive(Debug, Clone)]
pub struct CacheConfig {
    pub max_size_mb: u64,
    pub ttl_seconds: u64,
    pub enabled: bool,
}

#[derive(Debug, Clone)]
pub struct QueueConfig {
    pub max_concurrent: usize,
    pub estimated_time_per_request_ms: u64,
}

#[derive(Debug, Clone)]
pub struct BatchConfig {
    pub max_batch_size: usize,
    pub batch_timeout_ms: u64,
    pub enable_deduplication: bool,
}

#[derive(Debug, Clone)]
pub struct CorsConfig {
    pub allowed_origins: Vec<String>,
    pub allowed_methods: Vec<String>,
    pub allowed_headers: Vec<String>,
}

/// Number of server workers when the settings name none.
pub fn default_workers() -> (workers: usize)
    ensures
        workers == 4,
{
    4
}

/// Seconds allowed for one backend call when the settings name none.
pub fn default_timeout() -> (seconds: u64)
    ensures
        seconds == 300,
{
    300
}

/// Switches that are on unless the settings turn them off.
pub fn default_true() -> (on: bool)
    ensures
        on,
{
    true
}

} // verus!
