use chatbot_backend::config::QueueConfig;
use chatbot_backend::handlers::queue::{
    cancel_request, enqueue_request, get_queue_status, ClientError, StatusQuery, StatusReport,
};
use chatbot_backend::models::{ChatMessage, QueueRequest};
use chatbot_backend::services::QueueService;

fn new_queue() -> QueueService {
    QueueService::new(QueueConfig { max_concurrent: 1, estimated_time_per_request_ms: 30000 })
}

#[test]
fn test_queue_service() {
    let config = QueueConfig { max_concurrent: 1, estimated_time_per_request_ms: 30000 };

    let mut queue = QueueService::new(config);

    // Test enqueue
    let messages = vec![];
    let id = queue.enqueue(messages, "model".to_string(), "prompt".to_string());

    assert_eq!(queue.len(), 1);

    // Test get_status
    let status = queue.get_status(&id);
    assert!(status.is_some());
    assert_eq!(status.unwrap().queue_position, 1);

    // Test dequeue
    let request = queue.dequeue();
    assert!(request.is_some());
    assert_eq!(queue.len(), 0);
}

#[test]
fn first_in_first_out() {
    let mut queue = new_queue();
    let a = queue.enqueue(vec![], "ma".to_string(), "pa".to_string());
    assert_eq!(queue.get_status(&a).unwrap().queue_position, 1);
    let b = queue.enqueue(vec![], "mb".to_string(), "pb".to_string());
    let first = queue.dequeue().unwrap();
    assert_eq!(first.id, a);
    assert_eq!(first.model, "ma");
    assert_eq!(first.system_prompt, "pa");
    let second = queue.dequeue().unwrap();
    assert_eq!(second.id, b);
    assert_eq!(second.model, "mb");
    assert!(queue.dequeue().is_none());
    assert!(queue.is_empty());
}

#[test]
fn status_of_the_second_of_three() {
    let mut queue = new_queue();
    let _a = queue.enqueue(vec![], "m".to_string(), "p".to_string());
    let b = queue.enqueue(vec![], "m".to_string(), "p".to_string());
    let _c = queue.enqueue(vec![], "m".to_string(), "p".to_string());
    let status = queue.get_status(&b).unwrap();
    assert_eq!(status.queue_position, 2);
    assert_eq!(status.queue_length, 3);
    assert_eq!(status.estimated_wait_time, 30000);
    assert!(!status.is_processing);
}

#[test]
fn processing_flag_shows_on_the_first_only() {
    let mut queue = new_queue();
    let a = queue.enqueue(vec![], "m".to_string(), "p".to_string());
    let b = queue.enqueue(vec![], "m".to_string(), "p".to_string());
    assert!(queue.can_process());
    queue.set_processing(true);
    assert!(!queue.can_process());
    assert_eq!(queue.get_queue_info(), (2, true));
    assert!(queue.get_status(&a).unwrap().is_processing);
    assert!(!queue.get_status(&b).unwrap().is_processing);
    assert_eq!(queue.get_status(&a).unwrap().estimated_wait_time, 0);
    queue.set_processing(false);
    assert!(!queue.get_status(&a).unwrap().is_processing);
}

#[test]
fn cancel_removes_exactly_one() {
    let mut queue = new_queue();
    let a = queue.enqueue(vec![], "m".to_string(), "p".to_string());
    let b = queue.enqueue(vec![], "m".to_string(), "p".to_string());
    let c = queue.enqueue(vec![], "m".to_string(), "p".to_string());
    assert!(queue.cancel(&b));
    assert_eq!(queue.len(), 2);
    assert!(!queue.cancel(&b));
    assert_eq!(queue.len(), 2);
    assert!(queue.get_status(&b).is_none());
    assert_eq!(queue.get_status(&a).unwrap().queue_position, 1);
    assert_eq!(queue.get_status(&c).unwrap().queue_position, 2);
    assert!(!queue.cancel("unknown"));
}

#[test]
fn cancel_takes_the_first_of_equal_ids() {
    let mut queue = new_queue();
    queue.append("same".to_string(), 1, vec![], "first".to_string(), "p".to_string());
    queue.append("same".to_string(), 2, vec![], "second".to_string(), "p".to_string());
    assert!(queue.cancel("same"));
    assert_eq!(queue.len(), 1);
    assert_eq!(queue.get_status("same").unwrap().queue_position, 1);
    let left = queue.dequeue().unwrap();
    assert_eq!(left.model, "second");
    assert_eq!(left.timestamp, 2);
}

#[test]
fn fresh_ids_are_hyphenated_and_differ() {
    let mut queue = new_queue();
    let a = queue.enqueue(vec![], "m".to_string(), "p".to_string());
    let b = queue.enqueue(vec![], "m".to_string(), "p".to_string());
    assert_eq!(a.chars().count(), 36);
    assert_eq!(b.chars().count(), 36);
    assert_eq!(a.chars().filter(|c| *c == '-').count(), 4);
    assert_ne!(a, b);
}

#[test]
fn enqueue_keeps_the_messages() {
    let mut queue = new_queue();
    let messages = vec![ChatMessage { role: "user".to_string(), content: "hi".to_string() }];
    let before = chrono::Utc::now().timestamp_millis();
    let id = queue.enqueue(messages, "m".to_string(), "p".to_string());
    let request = queue.dequeue().unwrap();
    assert_eq!(request.id, id);
    assert_eq!(request.messages.len(), 1);
    assert_eq!(request.messages[0].role, "user");
    assert_eq!(request.messages[0].content, "hi");
    assert!(request.timestamp >= before);
}

#[test]
fn status_of_an_unknown_id_is_absent() {
    let queue = new_queue();
    assert!(queue.get_status("nobody").is_none());
    assert_eq!(queue.get_queue_info(), (0, false));
}

#[test]
fn enqueue_endpoint_uses_the_usual_model() {
    let mut queue = new_queue();
    let response = enqueue_request(
        &mut queue,
        QueueRequest { messages: vec![], model: None, system_prompt: None },
    );
    assert_eq!(response.status.queue_position, 1);
    assert_eq!(response.status.queue_length, 1);
    assert_eq!(response.status.estimated_wait_time, 0);
    let second = enqueue_request(
        &mut queue,
        QueueRequest {
            messages: vec![],
            model: Some("own".to_string()),
            system_prompt: Some("brief".to_string()),
        },
    );
    assert_eq!(second.status.queue_position, 2);
    assert_eq!(second.status.estimated_wait_time, 30000);
    let first = queue.dequeue().unwrap();
    assert_eq!(first.id, response.request_id);
    assert_eq!(first.model, "deepseek-r1:8b");
    assert_eq!(first.system_prompt, "Format all responses in markdown.");
    let next = queue.dequeue().unwrap();
    assert_eq!(next.id, second.request_id);
    assert_eq!(next.model, "own");
    assert_eq!(next.system_prompt, "brief");
}

#[test]
fn status_endpoint_reports_request_or_overview() {
    let mut queue = new_queue();
    let id = queue.enqueue(vec![], "m".to_string(), "p".to_string());
    match get_queue_status(&queue, StatusQuery { request_id: Some(id.clone()) }) {
        StatusReport::Request(answer) => {
            assert_eq!(answer.request_id, id);
            assert!(!answer.completed);
            assert_eq!(answer.status.unwrap().queue_position, 1);
        }
        StatusReport::Overview { .. } => panic!("expected the status of one request"),
    }
    match get_queue_status(&queue, StatusQuery { request_id: Some("gone".to_string()) }) {
        StatusReport::Request(answer) => {
            assert_eq!(answer.request_id, "gone");
            assert!(answer.completed);
            assert!(answer.status.is_none());
        }
        StatusReport::Overview { .. } => panic!("expected the status of one request"),
    }
    match get_queue_status(&queue, StatusQuery { request_id: None }) {
        StatusReport::Overview { queue_length, is_processing } => {
            assert_eq!(queue_length, 1);
            assert!(!is_processing);
        }
        StatusReport::Request(_) => panic!("expected the overview"),
    }
}

#[test]
fn cancel_endpoint_needs_an_id() {
    let mut queue = new_queue();
    let id = queue.enqueue(vec![], "m".to_string(), "p".to_string());
    let missing = cancel_request(&mut queue, StatusQuery { request_id: None });
    assert!(matches!(missing, Err(ClientError::MissingRequestId)));
    assert_eq!(queue.len(), 1);
    let report = cancel_request(&mut queue, StatusQuery { request_id: Some(id.clone()) }).unwrap();
    assert_eq!(report.request_id, id);
    assert!(report.cancelled);
    let again = cancel_request(&mut queue, StatusQuery { request_id: Some(id) }).unwrap();
    assert!(!again.cancelled);
    assert_eq!(queue.len(), 0);
}
