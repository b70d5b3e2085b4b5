//! The backend's chat protocol: what is sent for a completion and how its
//! answers are read.
use crate::config::OllamaConfig;
use crate::models::{opt_text, transcript, ChatMessage, MessageView, OllamaRequest, OllamaResponse};
use vstd::prelude::*;
use vstd::string::StringExecFns;

verus! {

/// Why a call of the backend failed.
#[derive(Debug, Clone)]
pub enum BackendError {
    /// The request could not be sent; the text says why.
    Send(String),
    /// A completion was answered with a status other than success; the
    /// status and the body of the answer.
    Status(String, String),
    /// A stream was answered with a status other than success.
    StreamStatus(String),
    /// The answer could not be read as a response.
    Parse(String),
    /// The transport failed in the middle of a stream.
    Stream(String),
    /// A chunk of a stream was not valid UTF-8.
    Utf8(String),
    /// No line of a chunk could be read as a response.
    NoValidResponse,
}

/// The text of an error.
pub open spec fn error_text(error: BackendError) -> Seq<char> {
    match error {
        BackendError::Send(why) => "Failed to send request to Ollama: "@ + why@,
        BackendError::Status(status, body) => "Ollama API error: "@ + status@ + " - "@ + body@,
        BackendError::StreamStatus(status) => "Ollama API error: "@ + status@,
        BackendError::Parse(why) => "Failed to parse Ollama response: "@ + why@,
        BackendError::Stream(why) => "Stream error: "@ + why@,
        BackendError::Utf8(why) => "UTF-8 error: "@ + why@,
        BackendError::NoValidResponse => "No valid response in chunk"@,
    }
}

impl BackendError {
    /// The error as a line of text.
    pub fn message(&self) -> (text: String)
        ensures
            text@ == error_text(*self),
    {
        match self {
            BackendError::Send(why) => String::from_str("Failed to send request to Ollama: ").concat(
                why.as_str(),
            ),
            BackendError::Status(status, body) => String::from_str("Ollama API error: ").concat(
                status.as_str(),
            ).concat(" - ").concat(body.as_str()),
            BackendError::StreamStatus(status) => String::from_str("Ollama API error: ").concat(
                status.as_str(),
            ),
            BackendError::Parse(why) => String::from_str("Failed to parse Ollama response: ").concat(
                why.as_str(),
            ),
            BackendError::Stream(why) => String::from_str("Stream error: ").concat(why.as_str()),
            BackendError::Utf8(why) => String::from_str("UTF-8 error: ").concat(why.as_str()),
            BackendError::NoValidResponse => String::from_str("No valid response in chunk"),
        }
    }
}

/// The system message that leads every transcript sent to the backend.
pub open spec fn system_message(system_prompt: Seq<char>) -> MessageView {
    MessageView { role: "system"@, content: system_prompt }
}

/// A transcript with its leading system message.
pub open spec fn full_transcript(
    system_prompt: Seq<char>,
    messages: Seq<MessageView>,
) -> Seq<MessageView> {
    seq![system_message(system_prompt)] + messages
}

/// Puts the system message in front of a client's messages.
pub fn with_system_prompt(messages: &[ChatMessage], system_prompt: &str) -> (all: Vec<ChatMessage>)
    ensures
        transcript(all@) == full_transcript(system_prompt@, transcript(messages@)),
{
    let mut all: Vec<ChatMessage> = Vec::new();
    all.push(ChatMessage { role: "system".to_owned(), content: system_prompt.to_owned() });
    let mut i: usize = 0;
    while i < messages.len()
        invariant
            i <= messages.len(),
            all.len() == i + 1,
            all[0]@ == system_message(system_prompt@),
            forall|j: int| 0 <= j < i ==> all[j + 1]@ == messages[j]@,
        decreases messages.len() - i,
    {
        all.push(messages[i].duplicate());
        i += 1;
    }
    proof {
        let want = full_transcript(system_prompt@, transcript(messages@));
        assert(transcript(all@).len() == want.len());
        assert forall|j: int| 0 <= j < want.len() implies transcript(all@)[j] == want[j] by {
            if j > 0 {
                assert(all[(j - 1) + 1]@ == messages[j - 1]@);
            }
        }
        assert(transcript(all@) =~= want);
    }
    all
}

/// The text of a completion: the content of the answer's message, or the
/// empty text where the answer holds none.
pub open spec fn completion_text(response: OllamaResponse) -> Seq<char> {
    match response.message {
        Some(message) => message.content@,
        None => Seq::empty(),
    }
}

/// The first of the readings of a chunk's lines that succeeded.
pub open spec fn first_reading(readings: Seq<Option<OllamaResponse>>) -> Option<OllamaResponse>
    decreases readings.len(),
{
    if readings.len() == 0 {
        None
    } else if readings[0] is Some {
        readings[0]
    } else {
        first_reading(readings.drop_first())
    }
}

/// The part of the backend's client that needs no connection: its settings
/// and the shape of its requests.
#[derive(Debug, Clone)]
pub struct OllamaClient {
    pub config: OllamaConfig,
}

impl OllamaClient {
    /// Whether `request` is this client's request for a completion of the
    /// messages by the model under the system prompt.
    pub open spec fn asks(
        &self,
        request: OllamaRequest,
        messages: Seq<MessageView>,
        model: Seq<char>,
        system_prompt: Seq<char>,
        stream: bool,
    ) -> bool {
        &&& request.model@ == model
        &&& transcript(request.messages@) == full_transcript(system_prompt, messages)
        &&& request.stream == stream
        &&& opt_text(request.keep_alive) == Some(self.config.keep_alive@)
    }

    /// A client with the given settings.
    pub fn new(config: OllamaConfig) -> (client: OllamaClient)
        ensures
            client.config == config,
    {
        OllamaClient { config }
    }

    /// The address of the chat endpoint.
    pub fn chat_url(&self) -> (url: String)
        ensures
            url@ == self.config.api_url@ + "/api/chat"@,
    {
        self.config.api_url.clone().concat("/api/chat")
    }

    /// The address asked to see whether the backend is up.
    pub fn health_url(&self) -> (url: String)
        ensures
            url@ == self.config.api_url@ + "/api/tags"@,
    {
        self.config.api_url.clone().concat("/api/tags")
    }

    /// The request for a completion: the model, the system message followed
    /// by the client's messages, the streaming mode and the configured time
    /// to keep the model loaded.
    pub fn build_request(
        &self,
        messages: &[ChatMessage],
        model: &str,
        system_prompt: &str,
        stream: bool,
    ) -> (request: OllamaRequest)
        ensures
            self.asks(request, transcript(messages@), model@, system_prompt@, stream),
    {
        OllamaRequest {
            model: model.to_owned(),
            messages: with_system_prompt(messages, system_prompt),
            stream,
            keep_alive: Some(self.config.keep_alive.clone()),
        }
    }

    /// The text of a completion that the backend answered.
    pub fn response_text(response: OllamaResponse) -> (text: String)
        ensures
            text@ == completion_text(response),
    {
        match response.message {
            Some(message) => message.content,
            None => String::new(),
        }
    }

    /// Picks the response of a chunk of a stream from the readings of its
    /// lines, taken in order: the first reading that succeeded. Where none
    /// did, the chunk holds no valid response.
    pub fn select_response(
        readings: Vec<Option<OllamaResponse>>,
    ) -> (picked: Result<OllamaResponse, BackendError>)
        ensures
            match picked {
                Ok(response) => first_reading(readings@) == Some(response),
                Err(error) => first_reading(readings@) is None && error is NoValidResponse,
            },
    {
        let ghost all = readings@;
        let mut rest = readings;
        let mut i: usize = 0;
        proof {
            assert(all.skip(0) =~= all);
        }
        while i < rest.len()
            invariant
                i <= rest.len(),
                rest@ == all,
                all == readings@,
                first_reading(all) == first_reading(all.skip(i as int)),
            decreases rest.len() - i,
        {
            proof {
                assert(all.skip(i as int).drop_first() =~= all.skip(i + 1));
                assert(all.skip(i as int)[0] == all[i as int]);
            }
            if rest[i].is_some() {
                let taken = rest.remove(i);
                return Ok(taken.unwrap());
            }
            i += 1;
        }
        Err(BackendError::NoValidResponse)
    }
}

} // verus!
