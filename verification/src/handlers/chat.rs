//! The chat endpoint: cache first, then the backend, and the relay that
//! turns an answer into a stream of chunks.
use crate::models::{
    chunk_views, duplicate_text, opt_text, transcript, ChatMessage, ChatRequest, ChatResponse,
    ChunkView, MessageView, OllamaRequest, OllamaResponse, StreamChunk,
};
use crate::services::batch::BatchProcessor;
use crate::services::cache::CacheService;
use crate::services::ollama::OllamaClient;
use crate::text::{split_words, texts, words_of};
use vstd::prelude::*;
use vstd::string::StringExecFns;

verus! {

/// A chunk that carries a fragment of the answer.
pub open spec fn content_chunk(text: Seq<char>, request_id: Option<Seq<char>>, cached: bool)
    -> ChunkView {
    ChunkView {
        content: Some(text),
        done: false,
        request_id,
        cached: Some(cached),
        error: None,
    }
}

/// The chunk that ends a stream.
pub open spec fn final_chunk(
    request_id: Option<Seq<char>>,
    cached: Option<bool>,
    error: Option<Seq<char>>,
) -> ChunkView {
    ChunkView { content: None, done: true, request_id, cached, error }
}

/// The fragment that carries the word at place `i`: the word, followed by
/// a space unless it is the last.
pub open spec fn word_fragment(words: Seq<Seq<char>>, i: int) -> Seq<char> {
    if i < words.len() - 1 {
        words[i] + seq![' ']
    } else {
        words[i]
    }
}

/// The replay of a cached answer: one chunk for each word, then the chunk
/// that ends the stream.
pub open spec fn replay_chunks(
    words: Seq<Seq<char>>,
    request_id: Option<Seq<char>>,
) -> Seq<ChunkView> {
    Seq::new(
        words.len() + 1,
        |i: int|
            if i < words.len() {
                content_chunk(word_fragment(words, i), request_id, true)
            } else {
                final_chunk(request_id, Some(true), None)
            },
    )
}

/// Replays a cached answer word by word.
pub fn stream_cached_response(
    content: String,
    request_id: Option<String>,
) -> (chunks: Vec<StreamChunk>)
    ensures
        chunk_views(chunks@) == replay_chunks(words_of(content@), opt_text(request_id)),
{
    let words = split_words(content.as_str());
    let total = words.len();
    let mut chunks: Vec<StreamChunk> = Vec::new();
    let mut i: usize = 0;
    proof {
        reveal_strlit(" ");
        assert(" "@ =~= seq![' ']);
    }
    while i < total
        invariant
            i <= total,
            total == words.len(),
            chunks.len() == i,
            texts(words@) == words_of(content@),
            " "@ == seq![' '],
            forall|j: int|
                0 <= j < i ==> (#[trigger] chunks[j])@ == content_chunk(
                    word_fragment(words_of(content@), j),
                    opt_text(request_id),
                    true,
                ),
        decreases total - i,
    {
        proof {
            assert(texts(words@)[i as int] == words@[i as int]@);
        }
        let word = words[i].clone();
        let fragment = if i < total - 1 {
            word.concat(" ")
        } else {
            word
        };
        chunks.push(
            StreamChunk {
                content: Some(fragment),
                done: false,
                request_id: duplicate_text(&request_id),
                cached: Some(true),
                error: None,
            },
        );
        i += 1;
    }
    chunks.push(
        StreamChunk { content: None, done: true, request_id, cached: Some(true), error: None },
    );
    proof {
        let want = replay_chunks(words_of(content@), opt_text(request_id));
        assert(texts(words@).len() == words@.len());
        assert(chunk_views(chunks@).len() == want.len());
        assert forall|j: int| 0 <= j < want.len() implies chunk_views(chunks@)[j] == want[j] by {
            if j < total {
                assert(chunks[j]@ == want[j]);
            }
        }
        assert(chunk_views(chunks@) =~= want);
    }
    chunks
}

/// What the backend's stream hands over next.
#[derive(Debug, Clone)]
pub enum BackendEvent {
    /// A partial answer.
    Message(OllamaResponse),
    /// The transport failed; the text says why.
    Failure(String),
}

/// Whether an event ends the relay.
pub open spec fn is_terminal(event: BackendEvent) -> bool {
    match event {
        BackendEvent::Message(response) => response.done,
        BackendEvent::Failure(_) => true,
    }
}

/// The text that an event adds to the answer.
pub open spec fn increment(event: BackendEvent) -> Seq<char> {
    match event {
        BackendEvent::Message(response) => match response.message {
            Some(message) => message.content@,
            None => Seq::empty(),
        },
        BackendEvent::Failure(_) => Seq::empty(),
    }
}

/// The chunks that an event of a live relay is turned into.
pub open spec fn emitted(event: BackendEvent) -> Seq<ChunkView> {
    match event {
        BackendEvent::Message(response) => {
            let part = match response.message {
                Some(message) => seq![content_chunk(message.content@, None, false)],
                None => Seq::empty(),
            };
            if response.done {
                part.push(final_chunk(None, Some(false), None))
            } else {
                part
            }
        },
        BackendEvent::Failure(why) => seq![final_chunk(None, None, Some(why@))],
    }
}

/// Whether an event makes the relay store the answer: only the
/// backend's word that the answer is complete does, and only where caching
/// was asked for.
pub open spec fn stores(event: BackendEvent, use_cache: bool) -> bool {
    use_cache && (event matches BackendEvent::Message(response) && response.done)
}

/// The chunks of a live relay over a sequence of events. After an event
/// that ends the relay, nothing more is emitted.
pub open spec fn relay_trace(finished: bool, events: Seq<BackendEvent>) -> Seq<ChunkView>
    decreases events.len(),
{
    if events.len() == 0 || finished {
        Seq::empty()
    } else {
        emitted(events[0]) + relay_trace(is_terminal(events[0]), events.drop_first())
    }
}

/// Whether one of the events ends the relay.
pub open spec fn ends_itself(events: Seq<BackendEvent>) -> bool {
    exists|k: int| 0 <= k < events.len() && is_terminal(#[trigger] events[k])
}

/// What the end of the backend's stream adds: the chunk that ends the
/// stream, unless the relay has ended already.
pub open spec fn closing(finished: bool) -> Seq<ChunkView> {
    if finished {
        Seq::empty()
    } else {
        seq![final_chunk(None, Some(false), None)]
    }
}

/// The whole of a live relay: the chunks of the events, then what the end
/// of the backend's stream adds.
pub open spec fn relay_stream(events: Seq<BackendEvent>) -> Seq<ChunkView> {
    relay_trace(false, events) + closing(ends_itself(events))
}

/// The state of a live relay between two events.
#[derive(Debug, Clone)]
pub struct RelayState {
    pub accumulated: String,
    pub finished: bool,
}

impl RelayState {
    /// The state of a relay that has seen no event.
    pub fn new() -> (state: RelayState)
        ensures
            state.accumulated@.len() == 0,
            !state.finished,
    {
        RelayState { accumulated: String::new(), finished: false }
    }
}

/// Takes one event of the backend's stream: adds its text to the answer so
/// far, turns it into chunks, and on completion stores the whole answer
/// under the key if caching was asked for. A relay that has ended takes no
/// more events.
pub fn relay_step(
    state: &mut RelayState,
    cache: &mut CacheService,
    cache_key: &str,
    use_cache: bool,
    event: BackendEvent,
) -> (chunks: Vec<StreamChunk>)
    ensures
        old(state).finished ==> chunks@.len() == 0 && *final(state) == *old(state) && old(cache).same_as(final(cache)),
        !old(state).finished ==> {
            &&& chunk_views(chunks@) == emitted(event)
            &&& final(state).finished == is_terminal(event)
            &&& final(state).accumulated@ == old(state).accumulated@ + increment(event)
            &&& if stores(event, use_cache) {
                old(cache).stored(final(cache), cache_key@, final(state).accumulated@)
            } else {
                old(cache).same_as(final(cache))
            }
        },
{
    let mut chunks: Vec<StreamChunk> = Vec::new();
    if state.finished {
        return chunks;
    }
    match event {
        BackendEvent::Message(response) => {
            let done = response.done;
            match response.message {
                Some(message) => {
                    state.accumulated.append(message.content.as_str());
                    chunks.push(
                        StreamChunk {
                            content: Some(message.content),
                            done: false,
                            request_id: None,
                            cached: Some(false),
                            error: None,
                        },
                    );
                },
                None => {
                    assert(state.accumulated@ =~= old(state).accumulated@ + increment(event));
                },
            }
            if done {
                if use_cache {
                    cache.set(cache_key.to_owned(), state.accumulated.clone());
                }
                chunks.push(
                    StreamChunk {
                        content: None,
                        done: true,
                        request_id: None,
                        cached: Some(false),
                        error: None,
                    },
                );
                state.finished = true;
            }
        },
        BackendEvent::Failure(why) => {
            chunks.push(
                StreamChunk {
                    content: None,
                    done: true,
                    request_id: None,
                    cached: None,
                    error: Some(why),
                },
            );
            state.finished = true;
            assert(state.accumulated@ =~= old(state).accumulated@ + increment(event));
        },
    }
    assert(chunk_views(chunks@) =~= emitted(event));
    chunks
}

/// Takes the end of the backend's stream. Where the relay has not ended
/// yet, the backend stopped without saying that the answer is complete: the
/// chunk that ends the stream is emitted all the same, and the answer so far
/// is kept out of the cache, since nothing says that it is whole. A relay
/// that has ended emits nothing more.
pub fn relay_end(state: &mut RelayState) -> (chunks: Vec<StreamChunk>)
    ensures
        final(state).finished,
        final(state).accumulated == old(state).accumulated,
        chunk_views(chunks@) == closing(old(state).finished),
{
    let mut chunks: Vec<StreamChunk> = Vec::new();
    if !state.finished {
        chunks.push(
            StreamChunk {
                content: None,
                done: true,
                request_id: None,
                cached: Some(false),
                error: None,
            },
        );
        state.finished = true;
    }
    assert(chunk_views(chunks@) =~= closing(old(state).finished));
    chunks
}

/// A stream ends once. In the replay of a cached answer the last chunk, and
/// no other, says that the stream is done.
pub proof fn lemma_replay_ends_once(words: Seq<Seq<char>>, request_id: Option<Seq<char>>)
    ensures
        replay_chunks(words, request_id).len() == words.len() + 1,
        replay_chunks(words, request_id).last().done,
        forall|i: int|
            0 <= i < replay_chunks(words, request_id).len() && (#[trigger] replay_chunks(
                words,
                request_id,
            )[i]).done ==> i == words.len(),
{
}

/// Among the chunks of the events of a live relay, one that says that the
/// stream is done is the last: there is at most one, and nothing follows it.
/// There is one where one of the events ends the relay, and none where none
/// does.
pub proof fn lemma_relay_trace_ends_once(events: Seq<BackendEvent>)
    ensures
        !ends_itself(events) ==> forall|i: int|
            0 <= i < relay_trace(false, events).len() ==> !(#[trigger] relay_trace(
                false,
                events,
            )[i]).done,
        forall|i: int|
            0 <= i < relay_trace(false, events).len() && (#[trigger] relay_trace(
                false,
                events,
            )[i]).done ==> i == relay_trace(false, events).len() - 1,
        (exists|k: int| 0 <= k < events.len() && is_terminal(#[trigger] events[k]))
            ==> relay_trace(false, events).len() > 0 && relay_trace(false, events).last().done,
    decreases events.len(),
{
    let trace = relay_trace(false, events);
    if events.len() > 0 {
        let first = emitted(events[0]);
        let rest = events.drop_first();
        if is_terminal(events[0]) {
            assert(relay_trace(true, rest) =~= Seq::<ChunkView>::empty());
            assert(trace =~= first);
        } else {
            lemma_relay_trace_ends_once(rest);
            let tail = relay_trace(false, rest);
            assert(trace =~= first + tail);
            if !ends_itself(events) {
                assert forall|k: int| 0 <= k < rest.len() implies !is_terminal(
                    #[trigger] rest[k],
                ) by {
                    assert(rest[k] == events[k + 1]);
                }
                assert forall|i: int| 0 <= i < trace.len() implies !(#[trigger] trace[i]).done by {
                    if i >= first.len() {
                        assert(trace[i] == tail[i - first.len()]);
                    }
                }
            }
            assert forall|i: int| 0 <= i < trace.len() && (#[trigger] trace[i]).done implies i
                == trace.len() - 1 by {
                if i >= first.len() {
                    assert(trace[i] == tail[i - first.len()]);
                }
            }
            if exists|k: int| 0 <= k < events.len() && is_terminal(#[trigger] events[k]) {
                let k = choose|k: int| 0 <= k < events.len() && is_terminal(#[trigger] events[k]);
                assert(k > 0);
                assert(rest[k - 1] == events[k]);
                assert(is_terminal(rest[k - 1]));
                assert(trace.last() == tail.last());
            }
        }
    }
}

/// A stream ends once. A live relay, taken to the end of the backend's
/// stream, emits exactly one chunk that says that the stream is done, and it
/// is the last chunk.
pub proof fn lemma_relay_ends_once(events: Seq<BackendEvent>)
    ensures
        relay_stream(events).len() > 0,
        relay_stream(events).last().done,
        forall|i: int|
            0 <= i < relay_stream(events).len() && (#[trigger] relay_stream(events)[i]).done ==> i
                == relay_stream(events).len() - 1,
{
    lemma_relay_trace_ends_once(events);
    let trace = relay_trace(false, events);
    let whole = relay_stream(events);
    assert forall|i: int| 0 <= i < whole.len() && (#[trigger] whole[i]).done implies i
        == whole.len() - 1 by {
        if i < trace.len() {
            assert(whole[i] == trace[i]);
        }
    }
}

/// No caching on failure. Where the relay ends with a failure of the
/// transport, none of its events stores anything.
pub proof fn lemma_no_caching_on_failure(events: Seq<BackendEvent>, last: int, use_cache: bool)
    requires
        0 <= last < events.len(),
        events[last] is Failure,
        forall|k: int| 0 <= k < last ==> !is_terminal(#[trigger] events[k]),
    ensures
        forall|k: int| 0 <= k <= last ==> !stores(#[trigger] events[k], use_cache),
{
}

/// What the chat endpoint does with a request.
#[derive(Debug, Clone)]
pub enum ChatPlan {
    /// The answer was cached and the client asked for a stream: replay it.
    ReplayCached(String),
    /// The answer was cached and the client asked for one response.
    AnswerCached(ChatResponse),
    /// Relay the backend's stream for `request`; the complete answer belongs
    /// under `cache_key` if `use_cache` is set.
    RelayLive { cache_key: String, request: OllamaRequest, use_cache: bool },
    /// Ask the backend for one completion of `request`; the answer belongs
    /// under `cache_key` if `use_cache` is set.
    CallBackend { cache_key: String, request: OllamaRequest, use_cache: bool },
}

/// The message in which the gateway hands an answer to the client.
pub open spec fn assistant_message(content: Seq<char>) -> MessageView {
    MessageView { role: "assistant"@, content }
}

/// Wraps an answer into the response to a request that asked for no stream.
pub fn chat_response(content: String, cached: bool) -> (response: ChatResponse)
    ensures
        response.message@ == assistant_message(content@),
        response.cached == Some(cached),
{
    ChatResponse {
        message: ChatMessage { role: "assistant".to_owned(), content },
        cached: Some(cached),
    }
}

/// Decides on a chat request whose lookup in the cache gave `found`: a
/// cached answer is replayed or returned, according to `stream`; without
/// one the backend is asked, by a stream or by one call.
pub fn decide_chat(
    found: Option<String>,
    stream: bool,
    use_cache: bool,
    cache_key: String,
    request: OllamaRequest,
) -> (plan: ChatPlan)
    ensures
        match found {
            Some(text) => if stream {
                plan == ChatPlan::ReplayCached(text)
            } else {
                plan matches ChatPlan::AnswerCached(response) && response.message@
                    == assistant_message(text@) && response.cached == Some(true)
            },
            None => if stream {
                plan == (ChatPlan::RelayLive { cache_key, request, use_cache })
            } else {
                plan == (ChatPlan::CallBackend { cache_key, request, use_cache })
            },
        },
{
    match found {
        Some(text) => {
            if stream {
                ChatPlan::ReplayCached(text)
            } else {
                ChatPlan::AnswerCached(chat_response(text, true))
            }
        },
        None => {
            if stream {
                ChatPlan::RelayLive { cache_key, request, use_cache }
            } else {
                ChatPlan::CallBackend { cache_key, request, use_cache }
            }
        },
    }
}

/// The text of a setting that a request may override.
pub open spec fn chosen(own: Option<String>, fallback: Seq<char>) -> Seq<char> {
    match own {
        Some(text) => text@,
        None => fallback,
    }
}

/// The cached text that a plan serves, if it serves one.
pub open spec fn served_text(plan: ChatPlan) -> Option<Seq<char>> {
    match plan {
        ChatPlan::ReplayCached(text) => Some(text@),
        ChatPlan::AnswerCached(response) => Some(response.message.content@),
        _ => None,
    }
}

/// Plans the answer to a chat request. The model and the system prompt are
/// the request's own or else the configured ones. With `use_cache` the
/// cache is asked for the fingerprint of the model and the transcript, and a
/// cached answer is served; otherwise, or on a miss, the backend is to be
/// asked.
pub fn chat_optimized(
    cache: &mut CacheService,
    client: &OllamaClient,
    request: &ChatRequest,
    default_model: &str,
    default_system_prompt: &str,
) -> (plan: ChatPlan)
    requires
        request.use_cache ==> old(cache).can_look_up(
            BatchProcessor::key_of(
                transcript(request.messages@),
                chosen(request.model, default_model@),
                chosen(request.system_prompt, default_system_prompt@),
            ),
        ),
    ensures
        if request.use_cache {
            old(cache).looked_up(
                final(cache),
                BatchProcessor::key_of(
                    transcript(request.messages@),
                    chosen(request.model, default_model@),
                    chosen(request.system_prompt, default_system_prompt@),
                ),
                served_text(plan),
            )
        } else {
            old(cache).same_as(final(cache)) && served_text(plan) is None
        },
        match plan {
            ChatPlan::ReplayCached(_) => request.stream,
            ChatPlan::AnswerCached(response) => !request.stream && response.message@.role
                == "assistant"@ && response.cached == Some(true),
            ChatPlan::RelayLive { cache_key, request: asked, use_cache } => {
                &&& request.stream
                &&& use_cache == request.use_cache
                &&& cache_key@ == BatchProcessor::key_of(
                    transcript(request.messages@),
                    chosen(request.model, default_model@),
                    chosen(request.system_prompt, default_system_prompt@),
                )
                &&& client.asks(
                    asked,
                    transcript(request.messages@),
                    chosen(request.model, default_model@),
                    chosen(request.system_prompt, default_system_prompt@),
                    true,
                )
            },
            ChatPlan::CallBackend { cache_key, request: asked, use_cache } => {
                &&& !request.stream
                &&& use_cache == request.use_cache
                &&& cache_key@ == BatchProcessor::key_of(
                    transcript(request.messages@),
                    chosen(request.model, default_model@),
                    chosen(request.system_prompt, default_system_prompt@),
                )
                &&& client.asks(
                    asked,
                    transcript(request.messages@),
                    chosen(request.model, default_model@),
                    chosen(request.system_prompt, default_system_prompt@),
                    false,
                )
            },
        },
{
    let model = match &request.model {
        Some(own) => own.as_str(),
        None => default_model,
    };
    let system_prompt = match &request.system_prompt {
        Some(own) => own.as_str(),
        None => default_system_prompt,
    };
    let asked = client.build_request(
        request.messages.as_slice(),
        model,
        system_prompt,
        request.stream,
    );
    let cache_key = CacheService::generate_key(asked.messages.as_slice(), model);
    let found = if request.use_cache {
        cache.get(cache_key.as_str())
    } else {
        None
    };
    decide_chat(found, request.stream, request.use_cache, cache_key, asked)
}

/// Takes the backend's answer to a chat request in: stores it under the key
/// if caching was asked for, and wraps it into the response.
pub fn complete_chat(cache: &mut CacheService, cache_key: String, use_cache: bool, content: String)
    -> (response: ChatResponse)
    ensures
        response.message@ == assistant_message(content@),
        response.cached == Some(false),
        if use_cache {
            old(cache).stored(final(cache), cache_key@, content@)
        } else {
            old(cache).same_as(final(cache))
        },
{
    if use_cache {
        cache.set(cache_key, content.clone());
    }
    chat_response(content, false)
}

} // verus!
