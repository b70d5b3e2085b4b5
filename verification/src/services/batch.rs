//! The request processor: cache first, backend on a miss, with counters.
use crate::config::BatchConfig;
use crate::models::{transcript, BatchCounts, ChatMessage, MessageView, OllamaRequest};
use crate::services::cache::{fingerprint, CacheService};
use crate::services::ollama::{full_transcript, OllamaClient};
use vstd::prelude::*;

verus! {

/// The counters of the request processor.
#[derive(Debug, Clone, Copy)]
pub struct BatchMetrics {
    pub total_requests: u64,
    pub cached_responses: u64,
    pub deduplicated_requests: u64,
    pub batches_processed: u64,
    pub total_batch_size: u64,
}

/// `part` out of `whole` in percent, rounded to the nearest whole number,
/// a half upwards; zero where `whole` is zero.
pub open spec fn rounded_percent(part: nat, whole: nat) -> nat {
    if whole == 0 {
        0
    } else {
        (200 * part + whole) / (2 * whole)
    }
}

/// A rounded percentage as far as 32 bits hold it.
pub open spec fn capped_percent(part: nat, whole: nat) -> nat {
    if rounded_percent(part, whole) > u32::MAX {
        u32::MAX as nat
    } else {
        rounded_percent(part, whole)
    }
}

/// A part of a whole is at most a hundred percent of it.
pub proof fn lemma_percent_of_part(part: nat, whole: nat)
    requires
        part <= whole,
    ensures
        rounded_percent(part, whole) <= 100,
        capped_percent(part, whole) == rounded_percent(part, whole),
{
    if whole > 0 {
        assert((200 * part + whole) / (2 * whole) <= 100) by (nonlinear_arith)
            requires
                part <= whole,
                whole > 0,
        ;
    }
}

/// Computes a rounded percentage.
pub fn percent(part: u64, whole: u64) -> (rate: u32)
    ensures
        rate == capped_percent(part as nat, whole as nat),
        part <= whole ==> rate == rounded_percent(part as nat, whole as nat) && rate <= 100,
{
    proof {
        if part <= whole {
            lemma_percent_of_part(part as nat, whole as nat);
        }
    }
    if whole == 0 {
        0
    } else {
        let p: u128 = part as u128;
        let w: u128 = whole as u128;
        let q: u128 = (200 * p + w) / (2 * w);
        if q > 0xFFFF_FFFFu128 {
            0xFFFF_FFFFu32
        } else {
            q as u32
        }
    }
}

/// What the processor does next with a request.
#[derive(Debug, Clone)]
pub enum ProcessStep {
    /// The answer was in the cache.
    Served(String),
    /// The backend has to be asked; the answer belongs under `cache_key`.
    CallBackend { cache_key: String, request: OllamaRequest },
}

/// The request processor.
pub struct BatchProcessor {
    config: BatchConfig,
    stats: BatchMetrics,
}

impl BatchProcessor {
    /// The counters.
    pub closed spec fn metrics(&self) -> BatchMetrics {
        self.stats
    }

    /// The settings that the processor was made with.
    pub closed spec fn settings(&self) -> BatchConfig {
        self.config
    }

    /// No more requests were served from the cache, or by joining another,
    /// than were made.
    pub open spec fn wf(&self) -> bool {
        &&& self.metrics().cached_responses <= self.metrics().total_requests
        &&& self.metrics().deduplicated_requests <= self.metrics().total_requests
    }

    /// The cache key of a request: the fingerprint of the model and of the
    /// transcript with its leading system message.
    pub open spec fn key_of(
        messages: Seq<MessageView>,
        model: Seq<char>,
        system_prompt: Seq<char>,
    ) -> Seq<char> {
        fingerprint(model, full_transcript(system_prompt, messages))
    }

    /// A processor with the given settings and all counters at zero.
    pub fn new(config: BatchConfig) -> (processor: BatchProcessor)
        ensures
            processor.wf(),
            processor.settings() == config,
            processor.metrics() == (BatchMetrics {
                total_requests: 0,
                cached_responses: 0,
                deduplicated_requests: 0,
                batches_processed: 0,
                total_batch_size: 0,
            }),
    {
        BatchProcessor {
            config,
            stats: BatchMetrics {
                total_requests: 0,
                cached_responses: 0,
                deduplicated_requests: 0,
                batches_processed: 0,
                total_batch_size: 0,
            },
        }
    }

    /// Decides on a request whose lookup in the cache gave `found`: a hit is
    /// counted and served, a miss goes to the backend.
    pub fn settle(
        &mut self,
        found: Option<String>,
        cache_key: String,
        request: OllamaRequest,
    ) -> (step: ProcessStep)
        requires
            old(self).wf(),
            old(self).metrics().cached_responses < old(self).metrics().total_requests,
        ensures
            final(self).wf(),
            match found {
                Some(text) => step == ProcessStep::Served(text) && final(self).metrics() == (
                BatchMetrics {
                    cached_responses: (old(self).metrics().cached_responses + 1) as u64,
                    ..old(self).metrics()
                }),
                None => step == (ProcessStep::CallBackend { cache_key, request }) && final(self).metrics() == old(self).metrics(),
            },
    {
        match found {
            Some(text) => {
                self.stats.cached_responses = self.stats.cached_responses + 1;
                ProcessStep::Served(text)
            },
            None => ProcessStep::CallBackend { cache_key, request },
        }
    }

    /// Takes a request in: counts it, looks its fingerprint up in the cache,
    /// and either serves the cached answer or names the request to send to
    /// the backend.
    pub fn process(
        &mut self,
        cache: &mut CacheService,
        client: &OllamaClient,
        messages: &[ChatMessage],
        model: &str,
        system_prompt: &str,
    ) -> (step: ProcessStep)
        requires
            old(self).wf(),
            old(self).metrics().total_requests < u64::MAX,
            old(cache).can_look_up(Self::key_of(transcript(messages@), model@, system_prompt@)),
        ensures
            final(self).wf(),
            final(self).metrics().total_requests == old(self).metrics().total_requests + 1,
            final(self).metrics().deduplicated_requests == old(self).metrics().deduplicated_requests,
            final(self).metrics().batches_processed == old(self).metrics().batches_processed,
            final(self).metrics().total_batch_size == old(self).metrics().total_batch_size,
            match step {
                ProcessStep::Served(text) => {
                    &&& old(cache).looked_up(
                        final(cache),
                        Self::key_of(transcript(messages@), model@, system_prompt@),
                        Some(text@),
                    )
                    &&& final(self).metrics().cached_responses == old(self).metrics().cached_responses + 1
                },
                ProcessStep::CallBackend { cache_key, request } => {
                    &&& old(cache).looked_up(
                        final(cache),
                        Self::key_of(transcript(messages@), model@, system_prompt@),
                        None,
                    )
                    &&& cache_key@ == Self::key_of(transcript(messages@), model@, system_prompt@)
                    &&& client.asks(request, transcript(messages@), model@, system_prompt@, false)
                    &&& final(self).metrics().cached_responses == old(self).metrics().cached_responses
                },
            },
    {
        self.stats.total_requests = self.stats.total_requests + 1;
        let request = client.build_request(messages, model, system_prompt, false);
        let cache_key = CacheService::generate_key(request.messages.as_slice(), model);
        let found = cache.get(cache_key.as_str());
        self.settle(found, cache_key, request)
    }

    /// Takes the backend's answer to a request in: stores it in the cache
    /// under the request's key, counts one batch of one request, and hands
    /// the answer on.
    pub fn finish(
        &mut self,
        cache: &mut CacheService,
        cache_key: String,
        response: String,
    ) -> (text: String)
        requires
            old(self).wf(),
            old(self).metrics().batches_processed < u64::MAX,
            old(self).metrics().total_batch_size < u64::MAX,
        ensures
            final(self).wf(),
            text == response,
            old(cache).stored(final(cache), cache_key@, response@),
            final(self).metrics() == (BatchMetrics {
                batches_processed: (old(self).metrics().batches_processed + 1) as u64,
                total_batch_size: (old(self).metrics().total_batch_size + 1) as u64,
                ..old(self).metrics()
            }),
    {
        cache.set(cache_key, response.clone());
        self.stats.batches_processed = self.stats.batches_processed + 1;
        self.stats.total_batch_size = self.stats.total_batch_size + 1;
        response
    }

    /// The counters with the share of requests served from the cache and the
    /// share served by joining another request, both in rounded percent.
    pub fn stats(&self) -> (counts: BatchCounts)
        ensures
            counts.total_requests == self.metrics().total_requests,
            counts.cached_responses == self.metrics().cached_responses,
            counts.deduplicated_requests == self.metrics().deduplicated_requests,
            counts.batches_processed == self.metrics().batches_processed,
            counts.total_batch_size == self.metrics().total_batch_size,
            counts.cache_hit_rate == capped_percent(
                self.metrics().cached_responses as nat,
                self.metrics().total_requests as nat,
            ),
            counts.deduplication_rate == capped_percent(
                self.metrics().deduplicated_requests as nat,
                self.metrics().total_requests as nat,
            ),
            self.wf() ==> counts.cache_hit_rate <= 100 && counts.deduplication_rate <= 100,
    {
        BatchCounts {
            total_requests: self.stats.total_requests,
            cached_responses: self.stats.cached_responses,
            deduplicated_requests: self.stats.deduplicated_requests,
            batches_processed: self.stats.batches_processed,
            total_batch_size: self.stats.total_batch_size,
            cache_hit_rate: percent(self.stats.cached_responses, self.stats.total_requests),
            deduplication_rate: percent(
                self.stats.deduplicated_requests,
                self.stats.total_requests,
            ),
        }
    }

    /// The throwaway request that makes the backend load a model.
    pub fn warm_model(client: &OllamaClient, model: &str) -> (request: OllamaRequest)
        ensures
            client.asks(
                request,
                seq![(MessageView { role: "user"@, content: "Hello"@ })],
                model@,
                "You are a helpful assistant."@,
                false,
            ),
    {
        let mut messages: Vec<ChatMessage> = Vec::new();
        messages.push(ChatMessage { role: "user".to_owned(), content: "Hello".to_owned() });
        proof {
            assert(transcript(messages@) =~= seq![
                (MessageView { role: "user"@, content: "Hello"@ }),
            ]);
        }
        client.build_request(messages.as_slice(), model, "You are a helpful assistant.", false)
    }
}

} // verus!
