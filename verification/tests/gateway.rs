use consensus::gateway::{
    reduce, Capability, CapabilitySet, Effect, Event, GatewayState, ViolationSource,
};
use serde_json::Value;

fn chat() -> CapabilitySet {
    CapabilitySet { chat: true, transcription: false }
}

fn transcription() -> CapabilitySet {
    CapabilitySet { chat: false, transcription: true }
}

fn request(stream_id: u64, stream: bool, capability: Capability) -> Event {
    Event::HttpChatRequested { client_stream_id: stream_id, payload: Value::Null, stream, required_capability: capability }
}

fn register(state: GatewayState, worker_id: u64, capabilities: CapabilitySet) -> GatewayState {
    let t = reduce(state, Event::WorkerRegistered { worker_id, capabilities });
    assert!(t.effects.is_empty());
    t.state
}

fn error_message(effect: &Effect) -> Option<(u64, &str)> {
    match effect {
        Effect::SendClientError(e) => Some((e.client_stream_id, e.message.as_str())),
        _ => None,
    }
}

fn done_stream(effect: &Effect) -> Option<u64> {
    match effect {
        Effect::SendClientDone(d) => Some(d.client_stream_id),
        _ => None,
    }
}

#[test]
fn stream_true_assigns_lowest_capable_worker() {
    let state = GatewayState::new(0, 60, 30, 30);
    let state = register(state, 9, chat());
    let state = register(state, 4, transcription());
    let state = register(state, 5, chat());
    let t = reduce(state, request(7, true, Capability::Chat));
    assert_eq!(t.effects.len(), 1);
    match &t.effects[0] {
        Effect::DispatchJob(job) => {
            assert_eq!(job.worker_id, 5);
            assert_eq!(job.client_stream_id, 7);
            assert_eq!(job.capability, Capability::Chat);
        }
        _ => panic!("expected a dispatch"),
    }
    assert!(!t.state.available.contains_key(&5));
    assert!(t.state.available.contains_key(&4));
    assert_eq!(t.state.active_streams.get(&7), Some(&30));
}

#[test]
fn no_capable_worker_is_reported_to_the_client() {
    let state = register(GatewayState::new(0, 60, 30, 30), 1, chat());
    let t = reduce(state, request(2, true, Capability::Transcription));
    assert_eq!(error_message(&t.effects[0]), Some((2, "no idle worker available")));
    assert_eq!(done_stream(&t.effects[1]), Some(2));
    assert!(t.state.available.contains_key(&1));
}

#[test]
fn second_request_on_an_active_stream_is_rejected() {
    let state = register(GatewayState::new(0, 60, 30, 30), 1, chat());
    let state = register(state, 2, chat());
    let t = reduce(state, request(3, true, Capability::Chat));
    let t = reduce(t.state, request(3, true, Capability::Chat));
    assert_eq!(error_message(&t.effects[0]), Some((3, "stream already has an active assignment")));
    assert!(t.state.available.contains_key(&2));
}

#[test]
fn duplicate_worker_registration_is_a_protocol_violation() {
    let state = register(GatewayState::new(0, 60, 30, 30), 7, chat());
    let t = reduce(state, Event::WorkerRegistered { worker_id: 7, capabilities: transcription() });
    assert_eq!(t.effects.len(), 1);
    match &t.effects[0] {
        Effect::ProtocolViolation(v) => {
            assert_eq!(v.source, ViolationSource::Worker("7".into()));
            assert_eq!(v.source.describe(), "worker 7");
            assert_eq!(v.message, "duplicate worker registration");
        }
        _ => panic!("expected a violation"),
    }
}

#[test]
fn assignment_cleared_emits_done_and_unknown_is_violation() {
    let state = register(GatewayState::new(0, 60, 30, 30), 1, chat());
    let t = reduce(state, request(5, true, Capability::Chat));
    let t = reduce(t.state, Event::AssignmentCleared { client_stream_id: 5 });
    assert_eq!(t.effects.len(), 1);
    assert_eq!(done_stream(&t.effects[0]), Some(5));
    let t = reduce(t.state, Event::AssignmentCleared { client_stream_id: 5 });
    match &t.effects[0] {
        Effect::ProtocolViolation(v) => {
            assert_eq!(v.source, ViolationSource::Stream("5".into()));
            assert_eq!(v.message, "assignment cleared for unknown stream");
        }
        _ => panic!("expected a violation"),
    }
}

#[test]
fn ticks_expire_workers_and_streams() {
    let state = register(GatewayState::new(0, 2, 3, 30), 1, chat());
    let state = register(state, 2, chat());
    let t = reduce(state, request(8, true, Capability::Chat));
    let mut state = t.state;
    let t = reduce(state, Event::Tick);
    assert!(t.effects.is_empty());
    assert_eq!(t.state.tick, 1);
    assert!(t.state.available.contains_key(&2));
    state = t.state;
    let t = reduce(state, Event::Tick);
    assert!(t.effects.is_empty());
    assert!(t.state.available.is_empty());
    state = t.state;
    let t = reduce(state, Event::Tick);
    assert_eq!(t.effects.len(), 2);
    assert_eq!(error_message(&t.effects[0]), Some((8, "stream timed out")));
    assert_eq!(done_stream(&t.effects[1]), Some(8));
    assert!(t.state.active_streams.is_empty());
    assert_eq!(t.state.tick, 3);
}

#[test]
fn heartbeats_extend_deadlines() {
    let state = register(GatewayState::new(0, 2, 3, 30), 1, chat());
    let t = reduce(state, Event::Tick);
    let t = reduce(t.state, Event::WorkerHeartbeat { worker_id: 1 });
    assert!(t.effects.is_empty());
    assert_eq!(t.state.available.get(&1).map(|e| e.deadline), Some(3));
    let t = reduce(t.state, Event::WorkerHeartbeat { worker_id: 4 });
    match &t.effects[0] {
        Effect::ProtocolViolation(v) => assert_eq!(v.message, "heartbeat from unknown worker"),
        _ => panic!("expected a violation"),
    }
    let t = reduce(t.state, Event::StreamHeartbeat { client_stream_id: 3 });
    match &t.effects[0] {
        Effect::ProtocolViolation(v) => assert_eq!(v.message, "heartbeat for unknown stream"),
        _ => panic!("expected a violation"),
    }
}

#[test]
fn default_state_has_standard_ttls() {
    let state = GatewayState::default();
    assert_eq!((state.worker_ttl, state.stream_ttl, state.subscriber_ttl), (60, 30, 30));
    assert_eq!(state.tick, 0);
}
