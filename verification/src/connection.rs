//! The decisions of the gateway's WebSocket connections, as step functions:
//! the host reads the socket, the gateway channel and the timers, hands
//! each event to the step, and performs the actions it returns.
use vstd::prelude::*;

use serde_json::Value;

use crate::strings::to_string;

verus! {

// ---------------------------------------------------------------------------
// Session connections
// ---------------------------------------------------------------------------

/// A message of a session client, as parsed from a text frame.
#[derive(Debug, PartialEq)]
pub enum ClientMessage {
    Create,
    Subscribe { session_id: String },
    Append { payload: Value },
    Heartbeat,
}

/// A message of the gateway to a session client.
#[derive(Debug, PartialEq)]
pub enum GatewayMessage {
    Subscribed { session_id: String, latest_entry_index: Option<usize> },
    Entry { index: usize, payload: Value },
    SubscriberRemoved,
    Error { message: String },
}

/// Where a session connection stands.
#[derive(Debug, PartialEq)]
pub enum SessionPhase {
    /// Waiting for the client's first message.
    Handshake,
    /// A new session was asked for; waiting for the subscriber id.
    Creating,
    /// Registered as `subscriber_id`; waiting for the gateway to confirm
    /// the new session.
    AwaitingSubscribed { subscriber_id: String },
    /// Subscribing to `session_id`; waiting for the gateway's reply.
    Subscribing { session_id: String },
    /// The subscription is being confirmed to the client.
    Confirming { session_id: String, subscriber_id: String },
    /// Relaying between the client and `session_id` as `subscriber_id`.
    Connected { session_id: String, subscriber_id: String },
    /// The connection is over.
    Closed,
}

/// What reaches a session connection.
#[derive(Debug, PartialEq)]
pub enum SessionInput {
    /// A text frame from the client: the message it holds, or `None` when
    /// it holds no client message.
    ClientText(Option<ClientMessage>),
    /// A binary, ping or pong frame from the client.
    ClientOther,
    /// The client closed the socket, the socket failed, or (before the
    /// handshake) the first frame did not come in time.
    ClientClosed,
    /// The gateway's reply to a session creation: the subscriber id, or
    /// `None` when it failed.
    Created(Option<String>),
    /// The gateway's reply to a subscription: the subscriber id and the
    /// index of the session's latest entry, or `None` when it failed.
    Subscription(Option<(String, Option<usize>)>),
    /// A message of the gateway for this subscriber.
    Gateway(GatewayMessage),
    /// The gateway's channel closed.
    GatewayClosed,
    /// The last frame sent to the client went out.
    Sent,
    /// The last frame sent to the client could not be sent.
    SendFailed,
    /// The heartbeat period elapsed.
    HeartbeatDue,
}

/// What the host does for a session connection. `Subscribe`, `Confirm`,
/// `Append` and `Heartbeat` refer to the session and subscriber of the
/// phase the step returns.
#[derive(Debug, PartialEq)]
pub enum SessionAction {
    /// Send the message to the client.
    Send(GatewayMessage),
    /// Send the client `subscribed` for the phase's session, with this
    /// latest entry index.
    Confirm { latest_entry_index: Option<usize> },
    /// Ask the gateway for a new session.
    CreateSession,
    /// Subscribe to the phase's session.
    Subscribe,
    /// Append the payload to the session.
    Append { payload: Value },
    /// Tell the gateway the subscriber is alive.
    Heartbeat,
    /// Leave the session.
    Unsubscribe { session_id: String, subscriber_id: String },
}

/// The next phase and the actions of a session connection.
pub struct SessionStep {
    pub phase: SessionPhase,
    pub actions: Vec<SessionAction>,
}

pub open spec fn handshake_error() -> Seq<char> {
    "expected create or subscribe as first message"@
}

/// `phase` and `actions` are what `input` makes of a connection at `old`.
pub open spec fn session_stepped(old: SessionPhase, input: SessionInput, phase: SessionPhase, actions: Seq<SessionAction>) -> bool {
    match old {
        SessionPhase::Handshake => match input {
            SessionInput::ClientText(Some(ClientMessage::Create)) => phase == SessionPhase::Creating
                && actions == seq![SessionAction::CreateSession],
            SessionInput::ClientText(Some(ClientMessage::Subscribe { session_id })) => phase
                == (SessionPhase::Subscribing { session_id }) && actions == seq![SessionAction::Subscribe],
            SessionInput::ClientText(_) => phase == SessionPhase::Closed && actions.len() == 1 && (
            actions[0] matches SessionAction::Send(GatewayMessage::Error { message }) && message@
                == handshake_error()),
            SessionInput::ClientOther | SessionInput::ClientClosed => phase == SessionPhase::Closed
                && actions.len() == 0,
            _ => phase == old && actions.len() == 0,
        },
        SessionPhase::Creating => match input {
            SessionInput::Created(Some(subscriber_id)) => phase
                == (SessionPhase::AwaitingSubscribed { subscriber_id }) && actions.len() == 0,
            SessionInput::Created(None) => phase == SessionPhase::Closed && actions.len() == 0,
            _ => phase == old && actions.len() == 0,
        },
        SessionPhase::AwaitingSubscribed { subscriber_id } => match input {
            SessionInput::Gateway(GatewayMessage::Subscribed { session_id, latest_entry_index }) => phase
                == (SessionPhase::Confirming { session_id, subscriber_id }) && actions == seq![
                SessionAction::Confirm { latest_entry_index },
            ],
            SessionInput::Gateway(_) | SessionInput::GatewayClosed => phase == SessionPhase::Closed
                && actions.len() == 0,
            _ => phase == old && actions.len() == 0,
        },
        SessionPhase::Subscribing { session_id } => match input {
            SessionInput::Subscription(Some((subscriber_id, latest_entry_index))) => phase
                == (SessionPhase::Confirming { session_id, subscriber_id }) && actions == seq![
                SessionAction::Confirm { latest_entry_index },
            ],
            SessionInput::Subscription(None) => phase == SessionPhase::Closed && actions.len() == 0,
            _ => phase == old && actions.len() == 0,
        },
        SessionPhase::Confirming { session_id, subscriber_id } => match input {
            SessionInput::Sent => phase == (SessionPhase::Connected { session_id, subscriber_id })
                && actions.len() == 0,
            SessionInput::SendFailed => phase == SessionPhase::Closed && actions.len() == 0,
            _ => phase == old && actions.len() == 0,
        },
        SessionPhase::Connected { session_id, subscriber_id } => match input {
            SessionInput::Gateway(GatewayMessage::SubscriberRemoved) => phase == SessionPhase::Closed
                && actions == seq![
                SessionAction::Send(GatewayMessage::SubscriberRemoved),
                SessionAction::Unsubscribe { session_id, subscriber_id },
            ],
            SessionInput::Gateway(message) => phase == old && actions == seq![
                SessionAction::Send(message),
            ],
            SessionInput::GatewayClosed | SessionInput::SendFailed | SessionInput::ClientClosed => phase
                == SessionPhase::Closed && actions == seq![
                SessionAction::Unsubscribe { session_id, subscriber_id },
            ],
            SessionInput::ClientText(Some(ClientMessage::Append { payload })) => phase == old
                && actions == seq![SessionAction::Append { payload }],
            SessionInput::ClientText(Some(ClientMessage::Heartbeat)) | SessionInput::HeartbeatDue => phase
                == old && actions == seq![SessionAction::Heartbeat],
            _ => phase == old && actions.len() == 0,
        },
        SessionPhase::Closed => phase == old && actions.len() == 0,
    }
}

fn no_actions() -> (actions: Vec<SessionAction>)
    ensures
        actions@.len() == 0,
{
    Vec::new()
}

fn one_action(action: SessionAction) -> (actions: Vec<SessionAction>)
    ensures
        actions@ == seq![action],
{
    let mut actions = Vec::new();
    actions.push(action);
    proof {
        assert(actions@ =~= seq![action]);
    }
    actions
}

/// Advance a session connection by one event. The first message must
/// create or subscribe to a session; any other closes the connection with
/// an error frame. Once connected, gateway messages are forwarded, client
/// appends and heartbeats are passed on, and the connection leaves its
/// session when the gateway removes the subscriber, a channel closes or a
/// frame cannot be sent.
pub fn session_step(phase: SessionPhase, input: SessionInput) -> (step: SessionStep)
    ensures
        session_stepped(phase, input, step.phase, step.actions@),
{
    match phase {
        SessionPhase::Handshake => match input {
            SessionInput::ClientText(Some(ClientMessage::Create)) => SessionStep {
                phase: SessionPhase::Creating,
                actions: one_action(SessionAction::CreateSession),
            },
            SessionInput::ClientText(Some(ClientMessage::Subscribe { session_id })) => SessionStep {
                phase: SessionPhase::Subscribing { session_id },
                actions: one_action(SessionAction::Subscribe),
            },
            SessionInput::ClientText(_) => SessionStep {
                phase: SessionPhase::Closed,
                actions: one_action(
                    SessionAction::Send(
                        GatewayMessage::Error {
                            message: to_string("expected create or subscribe as first message"),
                        },
                    ),
                ),
            },
            SessionInput::ClientOther | SessionInput::ClientClosed => SessionStep {
                phase: SessionPhase::Closed,
                actions: no_actions(),
            },
            _ => SessionStep { phase: SessionPhase::Handshake, actions: no_actions() },
        },
        SessionPhase::Creating => match input {
            SessionInput::Created(Some(subscriber_id)) => SessionStep {
                phase: SessionPhase::AwaitingSubscribed { subscriber_id },
                actions: no_actions(),
            },
            SessionInput::Created(None) => SessionStep {
                phase: SessionPhase::Closed,
                actions: no_actions(),
            },
            _ => SessionStep { phase: SessionPhase::Creating, actions: no_actions() },
        },
        SessionPhase::AwaitingSubscribed { subscriber_id } => match input {
            SessionInput::Gateway(GatewayMessage::Subscribed { session_id, latest_entry_index }) => SessionStep {
                phase: SessionPhase::Confirming { session_id, subscriber_id },
                actions: one_action(SessionAction::Confirm { latest_entry_index }),
            },
            SessionInput::Gateway(_) | SessionInput::GatewayClosed => SessionStep {
                phase: SessionPhase::Closed,
                actions: no_actions(),
            },
            _ => SessionStep {
                phase: SessionPhase::AwaitingSubscribed { subscriber_id },
                actions: no_actions(),
            },
        },
        SessionPhase::Subscribing { session_id } => match input {
            SessionInput::Subscription(Some((subscriber_id, latest_entry_index))) => SessionStep {
                phase: SessionPhase::Confirming { session_id, subscriber_id },
                actions: one_action(SessionAction::Confirm { latest_entry_index }),
            },
            SessionInput::Subscription(None) => SessionStep {
                phase: SessionPhase::Closed,
                actions: no_actions(),
            },
            _ => SessionStep {
                phase: SessionPhase::Subscribing { session_id },
                actions: no_actions(),
            },
        },
        SessionPhase::Confirming { session_id, subscriber_id } => match input {
            SessionInput::Sent => SessionStep {
                phase: SessionPhase::Connected { session_id, subscriber_id },
                actions: no_actions(),
            },
            SessionInput::SendFailed => SessionStep {
                phase: SessionPhase::Closed,
                actions: no_actions(),
            },
            _ => SessionStep {
                phase: SessionPhase::Confirming { session_id, subscriber_id },
                actions: no_actions(),
            },
        },
        SessionPhase::Connected { session_id, subscriber_id } => match input {
            SessionInput::Gateway(GatewayMessage::SubscriberRemoved) => {
                let mut actions = Vec::new();
                actions.push(SessionAction::Send(GatewayMessage::SubscriberRemoved));
                actions.push(SessionAction::Unsubscribe { session_id, subscriber_id });
                proof {
                    assert(actions@ =~= seq![
                        SessionAction::Send(GatewayMessage::SubscriberRemoved),
                        SessionAction::Unsubscribe { session_id, subscriber_id },
                    ]);
                }
                SessionStep { phase: SessionPhase::Closed, actions }
            },
            SessionInput::Gateway(message) => SessionStep {
                phase: SessionPhase::Connected { session_id, subscriber_id },
                actions: one_action(SessionAction::Send(message)),
            },
            SessionInput::GatewayClosed | SessionInput::SendFailed | SessionInput::ClientClosed => SessionStep {
                phase: SessionPhase::Closed,
                actions: one_action(SessionAction::Unsubscribe { session_id, subscriber_id }),
            },
            SessionInput::ClientText(Some(ClientMessage::Append { payload })) => SessionStep {
                phase: SessionPhase::Connected { session_id, subscriber_id },
                actions: one_action(SessionAction::Append { payload }),
            },
            SessionInput::ClientText(Some(ClientMessage::Heartbeat)) | SessionInput::HeartbeatDue => SessionStep {
                phase: SessionPhase::Connected { session_id, subscriber_id },
                actions: one_action(SessionAction::Heartbeat),
            },
            _ => SessionStep {
                phase: SessionPhase::Connected { session_id, subscriber_id },
                actions: no_actions(),
            },
        },
        SessionPhase::Closed => SessionStep { phase: SessionPhase::Closed, actions: no_actions() },
    }
}

/// A connection leaves its session at most once, and only from the
/// connected phase: every step that asks to unsubscribe closes the
/// connection, and a closed connection asks for nothing more.
pub proof fn lemma_unsubscribe_once(old: SessionPhase, input: SessionInput, phase: SessionPhase, actions: Seq<SessionAction>)
    requires
        session_stepped(old, input, phase, actions),
    ensures
        (exists|i: int| 0 <= i < actions.len() && #[trigger] actions[i] is Unsubscribe) ==> (
        old is Connected && phase is Closed),
        old is Closed ==> phase is Closed && actions.len() == 0,
{
}

// ---------------------------------------------------------------------------
// Worker connections
// ---------------------------------------------------------------------------

/// How relaying a job between a worker and its client ended.
#[derive(Debug, PartialEq, Eq)]
pub enum RelayOutcome {
    /// The worker finished the job.
    WorkerEnd,
    /// The worker reported an error.
    WorkerError { message: String },
    /// The worker's socket went away during the job.
    WorkerDisconnected,
    /// The client hung up; the worker is still there.
    ClientGone,
}

/// What the gateway is told about a relayed job.
#[derive(Debug, PartialEq, Eq)]
pub enum JobReport {
    /// The assignment is done.
    Cleared,
    /// The assignment failed for this reason.
    Failed { message: String },
}

/// What a worker connection does once a job's relay ended: the report to
/// the gateway, if any, and whether the outcome lets the worker register
/// for another job (a cleared report that cannot be delivered still ends
/// the connection: see `register_again`).
#[derive(Debug, PartialEq, Eq)]
pub struct AfterJob {
    pub report: Option<JobReport>,
    pub register_again: bool,
}

/// After a relayed job: a finished job clears the assignment and a failed
/// one fails it, and the worker stays for the next job; a worker that went
/// away fails the assignment and the connection ends; when only the client
/// left, nothing is reported and the worker stays.
pub fn after_job(outcome: RelayOutcome) -> (after: AfterJob)
    ensures
        match outcome {
            RelayOutcome::WorkerEnd => after == (AfterJob { report: Some(JobReport::Cleared), register_again: true }),
            RelayOutcome::WorkerError { message } => after == (AfterJob {
                report: Some(JobReport::Failed { message }),
                register_again: true,
            }),
            RelayOutcome::WorkerDisconnected => !after.register_again && (after.report matches Some(
                JobReport::Failed { message },
            ) && message@ == "worker disconnected during job"@),
            RelayOutcome::ClientGone => after == (AfterJob { report: None, register_again: true }),
        },
{
    match outcome {
        RelayOutcome::WorkerEnd => AfterJob { report: Some(JobReport::Cleared), register_again: true },
        RelayOutcome::WorkerError { message } => AfterJob {
            report: Some(JobReport::Failed { message }),
            register_again: true,
        },
        RelayOutcome::WorkerDisconnected => AfterJob {
            report: Some(JobReport::Failed { message: to_string("worker disconnected during job") }),
            register_again: false,
        },
        RelayOutcome::ClientGone => AfterJob { report: None, register_again: true },
    }
}

/// Whether the worker registers for another job once the report of
/// `after` was handed to the gateway, `delivered` saying whether that
/// worked: a cleared assignment that could not be reported ends the
/// connection; a failed one is reported on a best-effort basis.
pub fn register_again(after: &AfterJob, delivered: bool) -> (again: bool)
    ensures
        again == (after.register_again && (after.report matches Some(JobReport::Cleared) ==> delivered)),
{
    match &after.report {
        Some(JobReport::Cleared) => after.register_again && delivered,
        _ => after.register_again,
    }
}

} // verus!
