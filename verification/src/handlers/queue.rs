//! The queue endpoints: admission, status and cancellation.
use crate::handlers::chat::chosen;
use crate::models::{QueueRequest, QueueResponse, QueueStatusResponse};
use crate::services::queue::{cancelled, lemma_first_exists, position_of, QueueService};
use vstd::prelude::*;

verus! {

/// An input of a client that an endpoint turns down.
#[derive(Debug, Clone, Copy)]
pub enum ClientError {
    /// The request names no request id where one is needed.
    MissingRequestId,
    /// The action is none that the gateway knows.
    UnknownAction,
}

/// The parameters of a status query or a cancellation.
#[derive(Debug, Clone)]
pub struct StatusQuery {
    pub request_id: Option<String>,
}

/// The answer to a status query.
#[derive(Debug, Clone)]
pub enum StatusReport {
    /// The status of one request.
    Request(QueueStatusResponse),
    /// The state of the whole queue.
    Overview { queue_length: usize, is_processing: bool },
}

/// The answer to a cancellation.
#[derive(Debug, Clone)]
pub struct CancelReport {
    pub request_id: String,
    pub cancelled: bool,
}

/// Admits a request to the queue and reports where it stands. The model
/// and the system prompt are the request's own or else the gateway's usual
/// ones.
pub fn enqueue_request(queue: &mut QueueService, request: QueueRequest) -> (response: QueueResponse)
    requires
        old(queue).entries().len() * old(queue).per_request_ms() <= u64::MAX,
    ensures
        final(queue).same_settings(old(queue)),
        final(queue).entries().len() == old(queue).entries().len() + 1,
        final(queue).entries().drop_last() == old(queue).entries(),
        final(queue).entries().last().id == response.request_id,
        final(queue).entries().last().messages == request.messages,
        final(queue).entries().last().model@ == chosen(request.model, "deepseek-r1:8b"@),
        final(queue).entries().last().system_prompt@ == chosen(
            request.system_prompt,
            "Format all responses in markdown."@,
        ),
        Some(response.status) == final(queue).status_of(response.request_id@),
{
    let model = match request.model {
        Some(own) => own,
        None => "deepseek-r1:8b".to_owned(),
    };
    let system_prompt = match request.system_prompt {
        Some(own) => own,
        None => "Format all responses in markdown.".to_owned(),
    };
    let request_id = queue.enqueue(request.messages, model, system_prompt);
    proof {
        let entries = queue.entries();
        let last = entries.len() - 1;
        assert(entries[last].id@ == request_id@);
        lemma_first_exists(entries, request_id@, last);
        let pos = position_of(entries, request_id@)->0;
        let per = queue.per_request_ms() as int;
        let n = old(queue).entries().len() as int;
        assert(pos * per <= u64::MAX) by (nonlinear_arith)
            requires
                0 <= pos <= n,
                0 <= per,
                n * per <= u64::MAX,
        ;
    }
    let status = queue.get_status(request_id.as_str());
    QueueResponse { request_id, status: status.unwrap() }
}

/// Answers a status query: for a request id, where that request stands, or
/// that it is completed where the queue does not hold it; without one, the
/// state of the whole queue.
pub fn get_queue_status(queue: &QueueService, params: StatusQuery) -> (report: StatusReport)
    requires
        params.request_id matches Some(id) ==> queue.wait_fits(id@),
    ensures
        match params.request_id {
            Some(id) => report matches StatusReport::Request(answer) && answer.request_id == id
                && answer.status == queue.status_of(id@) && answer.completed == (
            queue.status_of(id@) is None),
            None => report == (StatusReport::Overview {
                queue_length: queue.entries().len() as usize,
                is_processing: queue.processing(),
            }),
        },
{
    match params.request_id {
        Some(request_id) => {
            let status = queue.get_status(request_id.as_str());
            let completed = status.is_none();
            StatusReport::Request(QueueStatusResponse { request_id, completed, status })
        },
        None => {
            let (queue_length, is_processing) = queue.get_queue_info();
            StatusReport::Overview { queue_length, is_processing }
        },
    }
}

/// Cancels the request that the parameters name. Parameters without a
/// request id are turned down and leave the queue as it is.
pub fn cancel_request(
    queue: &mut QueueService,
    params: StatusQuery,
) -> (outcome: Result<CancelReport, ClientError>)
    ensures
        final(queue).same_settings(old(queue)),
        match params.request_id {
            Some(id) => outcome matches Ok(report) && report.request_id == id && report.cancelled
                == (position_of(old(queue).entries(), id@) is Some) && final(queue).entries()
                == cancelled(old(queue).entries(), id@),
            None => outcome matches Err(error) && error is MissingRequestId && final(queue).entries() == old(queue).entries(),
        },
{
    match params.request_id {
        Some(request_id) => {
            let cancelled = queue.cancel(request_id.as_str());
            Ok(CancelReport { request_id, cancelled })
        },
        None => Err(ClientError::MissingRequestId),
    }
}

} // verus!
