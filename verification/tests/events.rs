use log_server::broadcast::{
    session_step, should_send, EventBroadcaster, SessionAction, SessionSignal, SessionState,
};
use log_server::dto::{CreateLogRequest, CreateSchemaRequest};
use log_server::handlers::WebSocketQuery;
use log_server::{
    create_log, create_schema, delete_log, ws_handler, AppState, LogEvent, MemoryLogRepository,
    MemorySchemaRepository,
};
use serde_json::Value;

type State = AppState<MemorySchemaRepository, MemoryLogRepository>;

fn fresh_state(capacity: usize) -> State {
    AppState::new(
        MemorySchemaRepository::new(),
        MemoryLogRepository::new(),
        EventBroadcaster::new(capacity),
    )
}

fn json(text: &str) -> Value {
    serde_json::from_str(text).unwrap()
}

fn register(state: &mut State, name: &str) -> u128 {
    let payload = CreateSchemaRequest {
        name: name.to_string(),
        version: "1.0.0".to_string(),
        description: None,
        schema_definition: json(
            r#"{"type":"object","properties":{"message":{"type":"string"}},"required":["message"]}"#,
        ),
    };
    create_schema(state, payload).unwrap().2.id
}

fn store(state: &mut State, schema_id: u128, message: &str) -> i32 {
    let data = format!(r#"{{"message":"{}"}}"#, message);
    create_log(state, CreateLogRequest { schema_id, log_data: json(&data) }).unwrap().1.id
}

fn subscribe(state: &mut State, filter: Option<u128>) -> u64 {
    let id = ws_handler(state, WebSocketQuery { schema_id: filter }).unwrap();
    assert_eq!(state.log_broadcast.state_of(id), SessionState::Connecting);
    assert_eq!(state.log_broadcast.signal(id, SessionSignal::Upgraded), SessionAction::Nothing);
    assert_eq!(state.log_broadcast.state_of(id), SessionState::Active);
    id
}

#[test]
fn successfully_connects_to_websocket_endpoint() {
    let mut state = fresh_state(100);
    let first = subscribe(&mut state, None);
    let second = subscribe(&mut state, None);
    assert_ne!(first, second);
    assert_eq!(state.log_broadcast.subscriber_count(), 2);
}

#[test]
fn successfully_connects_with_valid_schema_id() {
    let mut state = fresh_state(100);
    let schema_id = register(&mut state, "ws-valid-schema-test");
    subscribe(&mut state, Some(schema_id));
    assert_eq!(state.log_broadcast.subscriber_count(), 1);
}

#[test]
fn rejects_connection_with_nonexistent_schema_id() {
    let mut state = fresh_state(100);
    let id = uuid::Uuid::new_v4();
    let (status, error) =
        ws_handler(&mut state, WebSocketQuery { schema_id: Some(id.as_u128()) }).unwrap_err();
    assert_eq!(status, 404);
    assert_eq!(error.error, "SCHEMA_NOT_FOUND");
    assert_eq!(error.message, format!("Schema with id '{}' not found", id));
    assert_eq!(state.log_broadcast.subscriber_count(), 0);
}

#[test]
fn handles_graceful_disconnection() {
    let mut state = fresh_state(100);
    let id = subscribe(&mut state, None);
    assert_eq!(
        state.log_broadcast.signal(id, SessionSignal::PeerClosed),
        SessionAction::CancelOutbound
    );
    assert_eq!(state.log_broadcast.state_of(id), SessionState::Closing);
    assert_eq!(state.log_broadcast.signal(id, SessionSignal::PeerClosed), SessionAction::Nothing);
    assert_eq!(
        state.log_broadcast.signal(id, SessionSignal::HalvesStopped),
        SessionAction::Release
    );
    assert_eq!(state.log_broadcast.state_of(id), SessionState::Closed);
    assert_eq!(state.log_broadcast.subscriber_count(), 0);
    assert_eq!(state.log_broadcast.signal(id, SessionSignal::HalvesStopped), SessionAction::Nothing);
    assert_eq!(state.log_broadcast.signal(id, SessionSignal::Upgraded), SessionAction::Nothing);
    assert_eq!(state.log_broadcast.state_of(id), SessionState::Closed);
}

#[test]
fn receives_created_event_when_log_is_created() {
    let mut state = fresh_state(100);
    let schema_id = register(&mut state, "ws-create-event-test");
    let subscriber = subscribe(&mut state, None);
    let log_id = store(&mut state, schema_id, "Test log message");
    match state.log_broadcast.next_event(subscriber) {
        Some(LogEvent::Created { id, schema_id: event_schema, log_data, .. }) => {
            assert_eq!(id, log_id);
            assert_eq!(event_schema, schema_id);
            assert_eq!(log_data["message"], "Test log message");
        }
        other => panic!("Expected Created event, got {:?}", other),
    }
    assert!(state.log_broadcast.next_event(subscriber).is_none());
}

#[test]
fn receives_deleted_event_when_log_is_deleted() {
    let mut state = fresh_state(100);
    let schema_id = register(&mut state, "ws-delete-event-test");
    let log_id = store(&mut state, schema_id, "to be deleted");
    let subscriber = subscribe(&mut state, None);
    delete_log(&mut state, log_id).unwrap();
    match state.log_broadcast.next_event(subscriber) {
        Some(LogEvent::Deleted { id, schema_id: event_schema }) => {
            assert_eq!(id, log_id);
            assert_eq!(event_schema, schema_id);
        }
        other => panic!("Expected Deleted event, got {:?}", other),
    }
    assert!(state.log_broadcast.next_event(subscriber).is_none());
    assert!(delete_log(&mut state, log_id).is_err());
    assert!(state.log_broadcast.next_event(subscriber).is_none());
}

#[test]
fn filters_events_by_schema_id() {
    let mut state = fresh_state(100);
    let first = register(&mut state, "ws-filter-test-1");
    let second = register(&mut state, "ws-filter-test-2");
    let subscriber = subscribe(&mut state, Some(first));
    let skipped = store(&mut state, second, "should not arrive");
    let wanted = store(&mut state, first, "should arrive");
    delete_log(&mut state, skipped).unwrap();
    match state.log_broadcast.next_event(subscriber) {
        Some(event) => {
            assert_eq!(event.schema_id(), first);
            match event {
                LogEvent::Created { id, .. } => assert_eq!(id, wanted),
                other => panic!("Expected Created event, got {:?}", other),
            }
        }
        None => panic!("Expected an event"),
    }
    assert!(state.log_broadcast.next_event(subscriber).is_none());
}

#[test]
fn receives_all_events_without_schema_filter() {
    let mut state = fresh_state(100);
    let first = register(&mut state, "ws-all-events-1");
    let second = register(&mut state, "ws-all-events-2");
    let subscriber = subscribe(&mut state, None);
    let a = store(&mut state, first, "one");
    let b = store(&mut state, second, "two");
    let mut seen = Vec::new();
    while let Some(event) = state.log_broadcast.next_event(subscriber) {
        seen.push(event.schema_id());
    }
    assert_eq!(seen, vec![first, second]);
    assert_ne!(a, b);
}

#[test]
fn multiple_clients_receive_same_events() {
    let mut state = fresh_state(100);
    let schema_id = register(&mut state, "ws-multi-client-test");
    let one = subscribe(&mut state, None);
    let two = subscribe(&mut state, Some(schema_id));
    let waiting = ws_handler(&mut state, WebSocketQuery { schema_id: None }).unwrap();
    let log_id = store(&mut state, schema_id, "for both");
    for subscriber in [one, two] {
        match state.log_broadcast.next_event(subscriber) {
            Some(LogEvent::Created { id, .. }) => assert_eq!(id, log_id),
            other => panic!("Expected Created event, got {:?}", other),
        }
    }
    assert!(state.log_broadcast.next_event(waiting).is_none());
}

#[test]
fn event_contains_correct_data_structure() {
    let mut state = fresh_state(100);
    let schema_id = register(&mut state, "ws-data-structure-test");
    let subscriber = subscribe(&mut state, None);
    let log_id = store(&mut state, schema_id, "Test log message");
    let created = state.log_broadcast.next_event(subscriber).unwrap();
    let wire: Value = serde_json::from_str(&created.to_message()).unwrap();
    assert_eq!(wire, created.to_json());
    assert_eq!(wire["event_type"], "created");
    assert_eq!(wire["id"], log_id);
    assert_eq!(wire["schema_id"], uuid::Uuid::from_u128(schema_id).to_string());
    assert_eq!(wire["log_data"], json(r#"{"message":"Test log message"}"#));
    assert!(wire["created_at"].is_string());
    assert_eq!(wire.as_object().unwrap().len(), 5);
    delete_log(&mut state, log_id).unwrap();
    let deleted = state.log_broadcast.next_event(subscriber).unwrap();
    let wire = deleted.to_json();
    assert_eq!(
        wire,
        json(&format!(
            r#"{{"event_type":"deleted","id":{},"schema_id":"{}"}}"#,
            log_id,
            uuid::Uuid::from_u128(schema_id)
        ))
    );
}

#[test]
fn slow_subscriber_misses_the_oldest_events_and_goes_on() {
    let mut state = fresh_state(2);
    let schema_id = register(&mut state, "slow");
    let subscriber = subscribe(&mut state, None);
    let _first = store(&mut state, schema_id, "1");
    let second = store(&mut state, schema_id, "2");
    let third = store(&mut state, schema_id, "3");
    let mut seen = Vec::new();
    while let Some(event) = state.log_broadcast.next_event(subscriber) {
        match event {
            LogEvent::Created { id, .. } => seen.push(id),
            other => panic!("Expected Created event, got {:?}", other),
        }
    }
    assert_eq!(seen, vec![second, third]);
    assert_eq!(state.log_broadcast.missed_by(subscriber), 1);
    assert_eq!(state.log_broadcast.missed_by(subscriber + 1), 0);
    let fourth = store(&mut state, schema_id, "4");
    match state.log_broadcast.next_event(subscriber) {
        Some(LogEvent::Created { id, .. }) => assert_eq!(id, fourth),
        other => panic!("Expected Created event, got {:?}", other),
    }
}

#[test]
fn publishing_reaches_only_those_who_asked() {
    let mut hub = EventBroadcaster::new(4);
    let event = LogEvent::Deleted { id: 9, schema_id: 7 };
    assert_eq!(hub.publish(&event), 0);
    let all = hub.connect(None).unwrap();
    let seven = hub.connect(Some(7)).unwrap();
    let eight = hub.connect(Some(8)).unwrap();
    assert_eq!(hub.publish(&event), 0);
    for id in [all, seven, eight] {
        hub.signal(id, SessionSignal::Upgraded);
    }
    assert_eq!(hub.publish(&event), 2);
    assert!(hub.next_event(all).is_some());
    assert!(hub.next_event(seven).is_some());
    assert!(hub.next_event(eight).is_none());
    hub.signal(seven, SessionSignal::SendFailed);
    assert_eq!(hub.publish(&event), 1);
    assert!(hub.next_event(seven).is_none());
    assert!(should_send(None, 3));
    assert!(should_send(Some(3), 3));
    assert!(!should_send(Some(4), 3));
}

#[test]
fn session_moves_through_its_states() {
    let nothing = SessionAction::Nothing;
    let release = SessionAction::Release;
    let connecting = SessionState::Connecting;
    let active = SessionState::Active;
    let closing = SessionState::Closing;
    let closed = SessionState::Closed;
    assert_eq!(session_step(connecting, SessionSignal::Upgraded), (active, nothing));
    assert_eq!(session_step(connecting, SessionSignal::PeerGone), (closed, release));
    assert_eq!(session_step(connecting, SessionSignal::PeerMessage), (connecting, nothing));
    assert_eq!(session_step(active, SessionSignal::EventSent), (active, nothing));
    assert_eq!(session_step(active, SessionSignal::PeerMessage), (active, nothing));
    assert_eq!(
        session_step(active, SessionSignal::SendFailed),
        (closing, SessionAction::CancelInbound)
    );
    assert_eq!(
        session_step(active, SessionSignal::FeedEnded),
        (closing, SessionAction::CancelInbound)
    );
    assert_eq!(
        session_step(active, SessionSignal::PeerClosed),
        (closing, SessionAction::CancelOutbound)
    );
    assert_eq!(
        session_step(active, SessionSignal::PeerGone),
        (closing, SessionAction::CancelOutbound)
    );
    assert_eq!(session_step(active, SessionSignal::Shutdown), (closing, SessionAction::CancelBoth));
    assert_eq!(session_step(closing, SessionSignal::Shutdown), (closing, nothing));
    assert_eq!(session_step(closing, SessionSignal::HalvesStopped), (closed, release));
    assert_eq!(session_step(closed, SessionSignal::Upgraded), (closed, nothing));
    assert_eq!(session_step(closed, SessionSignal::HalvesStopped), (closed, nothing));
}
