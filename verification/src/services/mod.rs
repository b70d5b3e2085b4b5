//! The services of the gateway.
pub mod batch;
pub mod cache;
pub mod ollama;
pub mod queue;

pub use batch::BatchProcessor;
pub use cache::CacheService;
pub use ollama::OllamaClient;
pub use queue::QueueService;
