use consensus::connection::{
    after_job, session_step, AfterJob, ClientMessage, GatewayMessage, JobReport, RelayOutcome,
    SessionAction, SessionInput, SessionPhase,
};
use serde_json::Value;

fn connected() -> SessionPhase {
    SessionPhase::Connected { session_id: "s1".into(), subscriber_id: "sub1".into() }
}

fn unsubscribe() -> SessionAction {
    SessionAction::Unsubscribe { session_id: "s1".into(), subscriber_id: "sub1".into() }
}

#[test]
fn the_first_message_must_create_or_subscribe() {
    let step = session_step(SessionPhase::Handshake, SessionInput::ClientText(Some(ClientMessage::Create)));
    assert_eq!(step.phase, SessionPhase::Creating);
    assert_eq!(step.actions, vec![SessionAction::CreateSession]);

    let step = session_step(
        SessionPhase::Handshake,
        SessionInput::ClientText(Some(ClientMessage::Subscribe { session_id: "s1".into() })),
    );
    assert_eq!(step.phase, SessionPhase::Subscribing { session_id: "s1".into() });
    assert_eq!(step.actions, vec![SessionAction::Subscribe]);

    let step = session_step(SessionPhase::Handshake, SessionInput::ClientText(Some(ClientMessage::Heartbeat)));
    assert_eq!(step.phase, SessionPhase::Closed);
    assert_eq!(
        step.actions,
        vec![SessionAction::Send(GatewayMessage::Error {
            message: "expected create or subscribe as first message".into()
        })]
    );

    let step = session_step(SessionPhase::Handshake, SessionInput::ClientClosed);
    assert_eq!(step.phase, SessionPhase::Closed);
    assert!(step.actions.is_empty());
}

#[test]
fn a_created_session_is_confirmed_then_connected() {
    let step = session_step(SessionPhase::Creating, SessionInput::Created(Some("sub1".into())));
    assert_eq!(step.phase, SessionPhase::AwaitingSubscribed { subscriber_id: "sub1".into() });
    let step = session_step(
        step.phase,
        SessionInput::Gateway(GatewayMessage::Subscribed { session_id: "s1".into(), latest_entry_index: None }),
    );
    assert_eq!(step.phase, SessionPhase::Confirming { session_id: "s1".into(), subscriber_id: "sub1".into() });
    assert_eq!(step.actions, vec![SessionAction::Confirm { latest_entry_index: None }]);
    let step = session_step(step.phase, SessionInput::Sent);
    assert_eq!(step.phase, connected());

    let failed = session_step(
        SessionPhase::Confirming { session_id: "s1".into(), subscriber_id: "sub1".into() },
        SessionInput::SendFailed,
    );
    assert_eq!(failed.phase, SessionPhase::Closed);
    assert!(failed.actions.is_empty());
}

#[test]
fn a_connected_session_relays_and_leaves_once() {
    let entry = GatewayMessage::Entry { index: 3, payload: Value::Null };
    let step = session_step(connected(), SessionInput::Gateway(entry));
    assert_eq!(step.phase, connected());
    assert_eq!(step.actions, vec![SessionAction::Send(GatewayMessage::Entry { index: 3, payload: Value::Null })]);

    let step = session_step(
        connected(),
        SessionInput::ClientText(Some(ClientMessage::Append { payload: Value::Bool(true) })),
    );
    assert_eq!(step.actions, vec![SessionAction::Append { payload: Value::Bool(true) }]);

    let step = session_step(connected(), SessionInput::HeartbeatDue);
    assert_eq!(step.actions, vec![SessionAction::Heartbeat]);

    let step = session_step(connected(), SessionInput::ClientText(None));
    assert!(step.actions.is_empty());

    let step = session_step(connected(), SessionInput::Gateway(GatewayMessage::SubscriberRemoved));
    assert_eq!(step.phase, SessionPhase::Closed);
    assert_eq!(step.actions, vec![SessionAction::Send(GatewayMessage::SubscriberRemoved), unsubscribe()]);

    let step = session_step(connected(), SessionInput::ClientClosed);
    assert_eq!(step.phase, SessionPhase::Closed);
    assert_eq!(step.actions, vec![unsubscribe()]);

    let after = session_step(SessionPhase::Closed, SessionInput::HeartbeatDue);
    assert_eq!(after.phase, SessionPhase::Closed);
    assert!(after.actions.is_empty());
}

#[test]
fn a_worker_stays_unless_it_went_away() {
    assert_eq!(
        after_job(RelayOutcome::WorkerEnd),
        AfterJob { report: Some(JobReport::Cleared), register_again: true }
    );
    assert_eq!(
        after_job(RelayOutcome::WorkerError { message: "boom".into() }),
        AfterJob { report: Some(JobReport::Failed { message: "boom".into() }), register_again: true }
    );
    assert_eq!(
        after_job(RelayOutcome::WorkerDisconnected),
        AfterJob {
            report: Some(JobReport::Failed { message: "worker disconnected during job".into() }),
            register_again: false,
        }
    );
    assert_eq!(after_job(RelayOutcome::ClientGone), AfterJob { report: None, register_again: true });
}

#[test]
fn a_cleared_job_that_cannot_be_reported_ends_the_connection() {
    let cleared = after_job(RelayOutcome::WorkerEnd);
    assert!(consensus::connection::register_again(&cleared, true));
    assert!(!consensus::connection::register_again(&cleared, false));
    let failed = after_job(RelayOutcome::WorkerError { message: "boom".into() });
    assert!(consensus::connection::register_again(&failed, false));
    let gone = after_job(RelayOutcome::WorkerDisconnected);
    assert!(!consensus::connection::register_again(&gone, true));
    let client_gone = after_job(RelayOutcome::ClientGone);
    assert!(consensus::connection::register_again(&client_gone, false));
}
