//! The statistics endpoint and the management of the caches.
use crate::handlers::chat::chosen;
use crate::handlers::queue::ClientError;
use crate::models::{ActionResponse, BatchCounts, CacheCounts};
use crate::services::batch::{capped_percent, BatchProcessor};
use crate::services::cache::{no_entries, CacheMetrics, CacheService};
use crate::services::queue::QueueService;
use vstd::prelude::*;
use vstd::string::StringExecFns;

verus! {

/// The counters of the whole gateway.
#[derive(Debug, Clone, Copy)]
pub struct SystemCounts {
    pub response_cache: CacheCounts,
    pub conversation_cache: CacheCounts,
    pub batch_processor: BatchCounts,
    pub queue_length: usize,
    pub is_processing: bool,
}

/// What a management action asks for.
#[derive(Debug, Clone)]
pub enum CacheCommand {
    /// Clear both caches.
    ClearAll,
    /// Clear the response cache.
    ClearResponseCache,
    /// Clear the conversation cache.
    ClearConversationCache,
    /// Make the backend load the model.
    WarmModel(String),
}

/// Gathers the counters of the caches, the processor and the queue.
pub fn get_stats(
    response_cache: &CacheService,
    conversation_cache: &CacheService,
    batch_processor: &BatchProcessor,
    queue: &QueueService,
) -> (counts: SystemCounts)
    ensures
        counts.response_cache.hits == response_cache.metrics().hits,
        counts.response_cache.misses == response_cache.metrics().misses,
        counts.response_cache.max_size_mb == response_cache.max_size_mb(),
        counts.conversation_cache.hits == conversation_cache.metrics().hits,
        counts.conversation_cache.misses == conversation_cache.metrics().misses,
        counts.conversation_cache.max_size_mb == conversation_cache.max_size_mb(),
        counts.batch_processor.total_requests == batch_processor.metrics().total_requests,
        counts.batch_processor.cached_responses == batch_processor.metrics().cached_responses,
        counts.batch_processor.deduplicated_requests
            == batch_processor.metrics().deduplicated_requests,
        counts.batch_processor.batches_processed == batch_processor.metrics().batches_processed,
        counts.batch_processor.total_batch_size == batch_processor.metrics().total_batch_size,
        counts.batch_processor.cache_hit_rate == capped_percent(
            batch_processor.metrics().cached_responses as nat,
            batch_processor.metrics().total_requests as nat,
        ),
        counts.batch_processor.deduplication_rate == capped_percent(
            batch_processor.metrics().deduplicated_requests as nat,
            batch_processor.metrics().total_requests as nat,
        ),
        counts.queue_length == queue.entries().len(),
        counts.is_processing == queue.processing(),
{
    let (queue_length, is_processing) = queue.get_queue_info();
    SystemCounts {
        response_cache: response_cache.stats(),
        conversation_cache: conversation_cache.stats(),
        batch_processor: batch_processor.stats(),
        queue_length,
        is_processing,
    }
}

/// Reads the name of a management action. `model` is the model that the
/// action's data names, if any; warming falls back on the gateway's usual
/// model. Any other name is turned down.
pub fn parse_action(
    action: &str,
    model: Option<String>,
) -> (command: Result<CacheCommand, ClientError>)
    ensures
        match command {
            Ok(CacheCommand::ClearAll) => action@ == "clear"@,
            Ok(CacheCommand::ClearResponseCache) => action@ == "clear_response_cache"@,
            Ok(CacheCommand::ClearConversationCache) => action@ == "clear_conversation_cache"@,
            Ok(CacheCommand::WarmModel(name)) => action@ == "warm_model"@ && name@ == chosen(
                model,
                "deepseek-r1:8b"@,
            ),
            Err(error) => error is UnknownAction && action@ != "clear"@ && action@
                != "clear_response_cache"@ && action@ != "clear_conversation_cache"@ && action@
                != "warm_model"@,
        },
{
    let name = action.to_owned();
    if name == "clear".to_owned() {
        Ok(CacheCommand::ClearAll)
    } else if name == "clear_response_cache".to_owned() {
        Ok(CacheCommand::ClearResponseCache)
    } else if name == "clear_conversation_cache".to_owned() {
        Ok(CacheCommand::ClearConversationCache)
    } else if name == "warm_model".to_owned() {
        let name = match model {
            Some(own) => own,
            None => "deepseek-r1:8b".to_owned(),
        };
        Ok(CacheCommand::WarmModel(name))
    } else {
        Err(ClientError::UnknownAction)
    }
}

/// Whether a command clears the response cache.
pub open spec fn clears_responses(command: CacheCommand) -> bool {
    command is ClearAll || command is ClearResponseCache
}

/// Whether a command clears the conversation cache.
pub open spec fn clears_conversations(command: CacheCommand) -> bool {
    command is ClearAll || command is ClearConversationCache
}

/// What the gateway answers once a command is carried out.
pub open spec fn done_message(command: CacheCommand) -> Seq<char> {
    match command {
        CacheCommand::ClearAll => "All caches cleared"@,
        CacheCommand::ClearResponseCache => "Response cache cleared"@,
        CacheCommand::ClearConversationCache => "Conversation cache cleared"@,
        CacheCommand::WarmModel(model) => "Model "@ + model@ + " warmed"@,
    }
}

/// Whether a cache is as `clear` leaves it.
pub open spec fn is_cleared(before: &CacheService, after: &CacheService) -> bool {
    &&& after.written() == no_entries()
    &&& after.metrics() == (CacheMetrics { hits: 0, misses: 0 })
    &&& after.same_limits(before)
    &&& after.store_fits()
}

/// Carries out the part of a command that concerns the caches: a clearing
/// command clears its caches and is answered; a warming command leaves both
/// caches as they are and is answered with `None`, since the backend is to
/// be called first.
pub fn manage_cache(
    response_cache: &mut CacheService,
    conversation_cache: &mut CacheService,
    command: &CacheCommand,
) -> (answer: Option<ActionResponse>)
    ensures
        if clears_responses(*command) {
            is_cleared(old(response_cache), final(response_cache))
        } else {
            old(response_cache).same_as(final(response_cache))
        },
        if clears_conversations(*command) {
            is_cleared(old(conversation_cache), final(conversation_cache))
        } else {
            old(conversation_cache).same_as(final(conversation_cache))
        },
        match *command {
            CacheCommand::WarmModel(_) => answer is None,
            _ => answer matches Some(response) && response.success && response.message@
                == done_message(*command),
        },
{
    match command {
        CacheCommand::ClearAll => {
            response_cache.clear();
            conversation_cache.clear();
            Some(ActionResponse { success: true, message: "All caches cleared".to_owned() })
        },
        CacheCommand::ClearResponseCache => {
            response_cache.clear();
            Some(ActionResponse { success: true, message: "Response cache cleared".to_owned() })
        },
        CacheCommand::ClearConversationCache => {
            conversation_cache.clear();
            Some(
                ActionResponse {
                    success: true,
                    message: "Conversation cache cleared".to_owned(),
                },
            )
        },
        CacheCommand::WarmModel(_) => None,
    }
}

/// The answer to a warming command once the backend has loaded the model.
pub fn warmed_response(model: &str) -> (response: ActionResponse)
    ensures
        response.success,
        response.message@ == "Model "@ + model@ + " warmed"@,
{
    ActionResponse {
        success: true,
        message: String::from_str("Model ").concat(model).concat(" warmed"),
    }
}

} // verus!
