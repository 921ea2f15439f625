//! The gateway's dispatch kernel: idle workers wait in a pool ordered by
//! worker id, client streams hold an assignment until they are cleared,
//! fail or time out, and every stream that ends is told that it is done.
//! The kernel decides; the runtime around it performs the effects.
use vstd::prelude::*;

use im::{HashMap, OrdMap};
use serde_json::Value;

use std::time::Duration;

use crate::backoff::{duration_of_secs, secs_to_duration};
use crate::strings::{append_decimal, decimal, to_string};

verus! {

// ---------------------------------------------------------------------------
// Outside types
// ---------------------------------------------------------------------------

#[verifier::external_type_specification]
#[verifier::external_body]
#[verifier::reject_recursive_types(K)]
#[verifier::reject_recursive_types(V)]
pub struct ExOrdMap<K, V>(OrdMap<K, V>);

#[verifier::external_type_specification]
#[verifier::external_body]
#[verifier::reject_recursive_types(K)]
#[verifier::reject_recursive_types(V)]
#[verifier::reject_recursive_types(S)]
pub struct ExHashMap<K, V, S>(HashMap<K, V, S>);

#[verifier::external_type_specification]
#[verifier::external_body]
pub struct ExValue(Value);

// ---------------------------------------------------------------------------
// Data
// ---------------------------------------------------------------------------

/// A kind of job a worker can run.
#[derive(Debug, Clone, Copy, PartialEq, Eq, Structural, Hash)]
pub enum Capability {
    Chat,
    Transcription,
}

/// The capabilities a worker declared.
#[derive(Debug, Clone, Copy, PartialEq, Eq, Structural, Hash)]
pub struct CapabilitySet {
    pub chat: bool,
    pub transcription: bool,
}

impl CapabilitySet {
    pub open spec fn has(self, capability: Capability) -> bool {
        match capability {
            Capability::Chat => self.chat,
            Capability::Transcription => self.transcription,
        }
    }

    /// Whether the set holds `capability`.
    pub fn contains(&self, capability: Capability) -> (holds: bool)
        ensures
            holds == self.has(capability),
    {
        match capability {
            Capability::Chat => self.chat,
            Capability::Transcription => self.transcription,
        }
    }
}

/// An idle worker: when it expires unless it heartbeats, and what it can do.
#[derive(Debug, Clone, Copy, PartialEq, Eq, Structural)]
pub struct WorkerEntry {
    pub deadline: u64,
    pub capabilities: CapabilitySet,
}

// ---------------------------------------------------------------------------
// What the collections hold
// ---------------------------------------------------------------------------

/// The idle workers held by a pool, by worker id.
pub uninterp spec fn pool_contents(pool: OrdMap<u64, WorkerEntry>) -> Map<u64, WorkerEntry>;

/// The stream deadlines held by a stream table, by stream id.
pub uninterp spec fn stream_contents(streams: HashMap<u64, u64>) -> Map<u64, u64>;

/// `im::OrdMap::new`: an empty pool.
#[verifier::external_body]
fn pool_new() -> (pool: OrdMap<u64, WorkerEntry>)
    ensures
        pool_contents(pool).dom().is_empty(),
{
    OrdMap::new()
}

/// `im::OrdMap::contains_key`: whether the pool has the worker.
#[verifier::external_body]
fn pool_contains(pool: &OrdMap<u64, WorkerEntry>, worker_id: u64) -> (found: bool)
    ensures
        found == pool_contents(*pool).dom().contains(worker_id),
{
    pool.contains_key(&worker_id)
}

/// `im::OrdMap::update`: the pool with the worker set to `entry`.
#[verifier::external_body]
fn pool_update(pool: &OrdMap<u64, WorkerEntry>, worker_id: u64, entry: WorkerEntry) -> (updated:
    OrdMap<u64, WorkerEntry>)
    ensures
        pool_contents(updated) == pool_contents(*pool).insert(worker_id, entry),
{
    pool.update(worker_id, entry)
}

/// `im::OrdMap::without`: the pool without the worker.
#[verifier::external_body]
fn pool_without(pool: &OrdMap<u64, WorkerEntry>, worker_id: u64) -> (smaller: OrdMap<
    u64,
    WorkerEntry,
>)
    ensures
        pool_contents(smaller) == pool_contents(*pool).remove(worker_id),
{
    pool.without(&worker_id)
}

/// `im::OrdMap::extract`: the worker's entry and the pool without it, when
/// the pool has the worker.
#[verifier::external_body]
fn pool_extract(pool: &OrdMap<u64, WorkerEntry>, worker_id: u64) -> (extracted: Option<
    (WorkerEntry, OrdMap<u64, WorkerEntry>),
>)
    ensures
        extracted is Some <==> pool_contents(*pool).dom().contains(worker_id),
        extracted matches Some((entry, rest)) ==> entry == pool_contents(*pool)[worker_id]
            && pool_contents(rest) == pool_contents(*pool).remove(worker_id),
{
    pool.extract(&worker_id)
}

/// `im::OrdMap::iter`: the pool's workers, lowest id first.
#[verifier::external_body]
fn pool_entries(pool: &OrdMap<u64, WorkerEntry>) -> (entries: Vec<(u64, WorkerEntry)>)
    ensures
        forall|a: int, b: int| 0 <= a < b < entries@.len() ==> entries@[a].0 < entries@[b].0,
        forall|k: u64|
            pool_contents(*pool).dom().contains(k) <==> exists|a: int|
                0 <= a < entries@.len() && (#[trigger] entries@[a]).0 == k,
        forall|a: int|
            0 <= a < entries@.len() ==> pool_contents(*pool)[(#[trigger] entries@[a]).0]
                == entries@[a].1,
{
    pool.iter().map(|(k, v)| (*k, *v)).collect()
}

/// `im::HashMap::new`: an empty stream table.
#[verifier::external_body]
fn streams_new() -> (streams: HashMap<u64, u64>)
    ensures
        stream_contents(streams).dom().is_empty(),
{
    HashMap::new()
}

/// `im::HashMap::contains_key`: whether the table has the stream.
#[verifier::external_body]
fn streams_contains(streams: &HashMap<u64, u64>, stream_id: u64) -> (found: bool)
    ensures
        found == stream_contents(*streams).dom().contains(stream_id),
{
    streams.contains_key(&stream_id)
}

/// `im::HashMap::update`: the table with the stream's deadline set.
#[verifier::external_body]
fn streams_update(streams: &HashMap<u64, u64>, stream_id: u64, deadline: u64) -> (updated:
    HashMap<u64, u64>)
    ensures
        stream_contents(updated) == stream_contents(*streams).insert(stream_id, deadline),
{
    streams.update(stream_id, deadline)
}

/// `im::HashMap::without`: the table without the stream.
#[verifier::external_body]
fn streams_without(streams: &HashMap<u64, u64>, stream_id: u64) -> (smaller: HashMap<u64, u64>)
    ensures
        stream_contents(smaller) == stream_contents(*streams).remove(stream_id),
{
    streams.without(&stream_id)
}

/// `im::HashMap::iter`: the table's streams with their deadlines, each once,
/// in an order the hasher decides.
#[verifier::external_body]
fn streams_entries(streams: &HashMap<u64, u64>) -> (entries: Vec<(u64, u64)>)
    ensures
        forall|a: int, b: int| 0 <= a < b < entries@.len() ==> entries@[a].0 != entries@[b].0,
        forall|k: u64|
            stream_contents(*streams).dom().contains(k) <==> exists|a: int|
                0 <= a < entries@.len() && (#[trigger] entries@[a]).0 == k,
        forall|a: int|
            0 <= a < entries@.len() ==> stream_contents(*streams)[(#[trigger] entries@[a]).0]
                == entries@[a].1,
{
    streams.iter().map(|(k, v)| (*k, *v)).collect()
}

// ---------------------------------------------------------------------------
// State, events and effects
// ---------------------------------------------------------------------------

/// The kernel's state.
#[derive(Debug, PartialEq)]
pub struct GatewayState {
    pub tick: u64,
    pub worker_ttl: u64,
    pub stream_ttl: u64,
    pub subscriber_ttl: u64,
    pub runtime_id: u128,
    pub session_counter: u64,
    /// Idle workers, by worker id.
    pub available: OrdMap<u64, WorkerEntry>,
    /// Assigned streams, with the tick at which each times out.
    pub active_streams: HashMap<u64, u64>,
}

impl GatewayState {
    pub open spec fn workers(&self) -> Map<u64, WorkerEntry> {
        pool_contents(self.available)
    }

    pub open spec fn streams(&self) -> Map<u64, u64> {
        stream_contents(self.active_streams)
    }

    /// A kernel at tick 0 with no workers and no streams.
    pub fn new(runtime_id: u128, worker_ttl: u64, stream_ttl: u64, subscriber_ttl: u64) -> (state: Self)
        ensures
            state.tick == 0,
            state.worker_ttl == worker_ttl,
            state.stream_ttl == stream_ttl,
            state.subscriber_ttl == subscriber_ttl,
            state.runtime_id == runtime_id,
            state.session_counter == 0,
            state.workers().dom().is_empty(),
            state.streams().dom().is_empty(),
    {
        GatewayState {
            tick: 0,
            worker_ttl,
            stream_ttl,
            subscriber_ttl,
            runtime_id,
            session_counter: 0,
            available: pool_new(),
            active_streams: streams_new(),
        }
    }
}

impl Default for GatewayState {
    /// A kernel with workers kept for 60 ticks, streams for 30 and
    /// subscribers for 30.
    fn default() -> (state: Self)
        ensures
            state.tick == 0,
            state.worker_ttl == 60,
            state.stream_ttl == 30,
            state.subscriber_ttl == 30,
            state.runtime_id == 0,
            state.session_counter == 0,
            state.workers().dom().is_empty(),
            state.streams().dom().is_empty(),
    {
        GatewayState::new(0, 60, 30, 30)
    }
}

/// What happens around the kernel.
#[derive(Debug, PartialEq)]
pub enum Event {
    HttpChatRequested {
        client_stream_id: u64,
        payload: Value,
        stream: bool,
        required_capability: Capability,
    },
    WorkerRegistered { worker_id: u64, capabilities: CapabilitySet },
    AssignmentCleared { client_stream_id: u64 },
    AssignmentFailed { client_stream_id: u64, message: String },
    WorkerHeartbeat { worker_id: u64 },
    StreamHeartbeat { client_stream_id: u64 },
    Tick,
}

/// Where a protocol violation came from.
#[derive(Debug, PartialEq, Eq)]
pub enum ViolationSource {
    Worker(String),
    Stream(String),
    Session(String),
}

pub open spec fn source_text(source: ViolationSource) -> Seq<char> {
    match source {
        ViolationSource::Worker(id) => "worker "@ + id@,
        ViolationSource::Stream(id) => "stream "@ + id@,
        ViolationSource::Session(id) => "session "@ + id@,
    }
}

impl ViolationSource {
    /// How the source reads in a log line.
    pub fn describe(&self) -> (text: String)
        ensures
            text@ == source_text(*self),
    {
        match self {
            ViolationSource::Worker(id) => {
                let mut text = to_string("worker ");
                text.append(id.as_str());
                text
            },
            ViolationSource::Stream(id) => {
                let mut text = to_string("stream ");
                text.append(id.as_str());
                text
            },
            ViolationSource::Session(id) => {
                let mut text = to_string("session ");
                text.append(id.as_str());
                text
            },
        }
    }
}

/// A peer broke the protocol; the runtime logs it.
#[derive(Debug, PartialEq, Eq)]
pub struct ProtocolViolation {
    pub source: ViolationSource,
    pub message: String,
}

/// Send the job to the worker.
#[derive(Debug, PartialEq)]
pub struct DispatchJob {
    pub worker_id: u64,
    pub client_stream_id: u64,
    pub capability: Capability,
    pub payload: Value,
}

/// Send an error frame to the client stream.
#[derive(Debug, PartialEq, Eq)]
pub struct SendClientError {
    pub client_stream_id: u64,
    pub message: String,
}

/// Tell the client stream that it is done.
#[derive(Debug, PartialEq, Eq)]
pub struct SendClientDone {
    pub client_stream_id: u64,
}

/// What the kernel asks the runtime to do.
#[derive(Debug, PartialEq)]
pub enum Effect {
    DispatchJob(DispatchJob),
    SendClientError(SendClientError),
    SendClientDone(SendClientDone),
    ProtocolViolation(ProtocolViolation),
}

/// The state after an event, with the effects it calls for.
#[derive(Debug, PartialEq)]
pub struct Transition {
    pub state: GatewayState,
    pub effects: Vec<Effect>,
}

/// Identifier of a shared session.
#[derive(Debug, PartialEq, Eq, Hash)]
pub struct SessionId(pub String);

impl SessionId {
    /// The identifier as text.
    pub fn as_text(&self) -> (text: &str)
        ensures
            text@ == self.0@,
    {
        self.0.as_str()
    }
}

/// How the runtime around the kernel is paced.
#[derive(Debug, Clone, Copy, PartialEq, Eq)]
pub struct GatewayConfig {
    /// How often the kernel gets a tick.
    pub tick_interval: Duration,
    /// Ticks until an idle worker expires.
    pub worker_ttl: u64,
    /// Ticks until an active stream times out.
    pub stream_ttl: u64,
    /// How often an active stream heartbeats.
    pub stream_heartbeat_interval: Duration,
    /// How often an idle worker heartbeats.
    pub worker_heartbeat_interval: Duration,
    /// Ticks until an idle session subscriber expires.
    pub subscriber_ttl: u64,
}

impl Default for GatewayConfig {
    /// One tick a second; workers kept 60 ticks, streams and subscribers
    /// 30; streams heartbeat every 10 seconds and idle workers every 15.
    fn default() -> (config: Self)
        ensures
            config.tick_interval == duration_of_secs(1),
            config.worker_ttl == 60,
            config.stream_ttl == 30,
            config.stream_heartbeat_interval == duration_of_secs(10),
            config.worker_heartbeat_interval == duration_of_secs(15),
            config.subscriber_ttl == 30,
    {
        GatewayConfig {
            tick_interval: secs_to_duration(1),
            worker_ttl: 60,
            stream_ttl: 30,
            stream_heartbeat_interval: secs_to_duration(10),
            worker_heartbeat_interval: secs_to_duration(15),
            subscriber_ttl: 30,
        }
    }
}

impl GatewayConfig {
    /// The kernel state a runtime with this configuration starts from.
    pub fn initial_state(&self, runtime_id: u128) -> (state: GatewayState)
        ensures
            state.tick == 0,
            state.worker_ttl == self.worker_ttl,
            state.stream_ttl == self.stream_ttl,
            state.subscriber_ttl == self.subscriber_ttl,
            state.runtime_id == runtime_id,
            state.session_counter == 0,
            state.workers().dom().is_empty(),
            state.streams().dom().is_empty(),
    {
        GatewayState::new(runtime_id, self.worker_ttl, self.stream_ttl, self.subscriber_ttl)
    }
}

/// Counts that describe the running gateway.
#[derive(Debug, Clone, Copy, PartialEq, Eq)]
pub struct StateSnapshot {
    pub tick: u64,
    pub available_workers: usize,
    pub active_streams: usize,
    pub worker_registry_count: usize,
    pub stream_registry_count: usize,
    pub subscriber_registry_count: usize,
}

/// The runtime's command channel is closed.
#[derive(Debug, Clone, Copy, PartialEq, Eq)]
pub struct RuntimeSendError;

impl RuntimeSendError {
    /// The error's message.
    pub fn message(&self) -> (text: String)
        ensures
            text@ == "runtime channel closed"@,
    {
        to_string("runtime channel closed")
    }
}

// ---------------------------------------------------------------------------
// Mathematical model
// ---------------------------------------------------------------------------

/// `worker_id` is the lowest idle worker id with `capability`.
pub open spec fn is_first_capable(workers: Map<u64, WorkerEntry>, capability: Capability, worker_id: u64) -> bool {
    &&& workers.dom().contains(worker_id)
    &&& workers[worker_id].capabilities.has(capability)
    &&& forall|k: u64|
        workers.dom().contains(k) && workers[k].capabilities.has(capability) ==> worker_id <= k
}

pub open spec fn has_capable(workers: Map<u64, WorkerEntry>, capability: Capability) -> bool {
    exists|k: u64| workers.dom().contains(k) && #[trigger] workers[k].capabilities.has(capability)
}

pub open spec fn is_error(effect: Effect, stream_id: u64, message: Seq<char>) -> bool {
    effect matches Effect::SendClientError(e) && e.client_stream_id == stream_id && e.message@
        == message
}

pub open spec fn is_done(effect: Effect, stream_id: u64) -> bool {
    effect matches Effect::SendClientDone(d) && d.client_stream_id == stream_id
}

/// The stream gets an error and is done.
pub open spec fn error_and_done(effects: Seq<Effect>, stream_id: u64, message: Seq<char>) -> bool {
    effects.len() == 2 && is_error(effects[0], stream_id, message) && is_done(effects[1], stream_id)
}

/// The one effect is a violation by the worker `worker_id`.
pub open spec fn worker_violation(effects: Seq<Effect>, worker_id: u64, message: Seq<char>) -> bool {
    effects.len() == 1 && (effects[0] matches Effect::ProtocolViolation(v) && (v.source matches ViolationSource::Worker(
        id,
    ) && id@ == decimal(worker_id as nat)) && v.message@ == message)
}

/// The one effect is a violation by the stream `stream_id`.
pub open spec fn stream_violation(effects: Seq<Effect>, stream_id: u64, message: Seq<char>) -> bool {
    effects.len() == 1 && (effects[0] matches Effect::ProtocolViolation(v) && (v.source matches ViolationSource::Stream(
        id,
    ) && id@ == decimal(stream_id as nat)) && v.message@ == message)
}

/// The state is the same but for the maps given.
pub open spec fn same_config(old: GatewayState, new: GatewayState) -> bool {
    &&& new.worker_ttl == old.worker_ttl
    &&& new.stream_ttl == old.stream_ttl
    &&& new.subscriber_ttl == old.subscriber_ttl
    &&& new.runtime_id == old.runtime_id
    &&& new.session_counter == old.session_counter
}

pub open spec fn unchanged(old: GatewayState, new: GatewayState) -> bool {
    &&& same_config(old, new)
    &&& new.tick == old.tick
    &&& new.workers() == old.workers()
    &&& new.streams() == old.streams()
}

/// The idle workers still alive at `tick`.
pub open spec fn live_workers(workers: Map<u64, WorkerEntry>, tick: u64) -> Map<u64, WorkerEntry> {
    workers.restrict(workers.dom().filter(|k: u64| workers[k].deadline > tick))
}

/// The streams still within their deadline at `tick`.
pub open spec fn live_streams(streams: Map<u64, u64>, tick: u64) -> Map<u64, u64> {
    streams.restrict(streams.dom().filter(|k: u64| streams[k] > tick))
}

/// The effects for the streams timed out: for each, in the order given,
/// an error and then done.
pub open spec fn timeout_effects(effects: Seq<Effect>, expired: Seq<u64>) -> bool {
    &&& effects.len() == 2 * expired.len()
    &&& forall|i: int|
        0 <= i < expired.len() ==> is_error(
            #[trigger] effects[2 * i],
            expired[i],
            "stream timed out"@,
        ) && is_done(effects[2 * i + 1], expired[i])
}

/// The event is one the kernel can take in `state` without overflowing
/// its tick arithmetic.
pub open spec fn admissible(state: GatewayState, event: Event) -> bool {
    match event {
        Event::HttpChatRequested { client_stream_id: sid, stream, required_capability: c, .. } => (
        stream && !state.streams().dom().contains(sid) && has_capable(state.workers(), c))
            ==> state.tick + state.stream_ttl <= u64::MAX,
        Event::StreamHeartbeat { client_stream_id: sid } => state.streams().dom().contains(sid)
            ==> state.tick + state.stream_ttl <= u64::MAX,
        Event::WorkerRegistered { worker_id, .. } => !state.workers().dom().contains(worker_id)
            ==> state.tick + state.worker_ttl <= u64::MAX,
        Event::WorkerHeartbeat { worker_id } => state.workers().dom().contains(worker_id)
            ==> state.tick + state.worker_ttl <= u64::MAX,
        Event::Tick => state.tick < u64::MAX,
        _ => true,
    }
}

/// `new` and `effects` are what `event` makes of `old`.
pub open spec fn reduced(old: GatewayState, event: Event, new: GatewayState, effects: Seq<Effect>) -> bool {
    &&& admissible(old, event)
    &&& same_config(old, new)
    &&& match event {
        Event::HttpChatRequested { client_stream_id: sid, payload, stream, required_capability: c } => if !stream {
            unchanged(old, new) && error_and_done(effects, sid, "stream=true is required in this phase"@)
        } else if old.streams().dom().contains(sid) {
            unchanged(old, new) && error_and_done(effects, sid, "stream already has an active assignment"@)
        } else if !has_capable(old.workers(), c) {
            unchanged(old, new) && error_and_done(effects, sid, "no idle worker available"@)
        } else {
            &&& new.tick == old.tick
            &&& effects.len() == 1
            &&& effects[0] matches Effect::DispatchJob(job)
            &&& job.client_stream_id == sid && job.capability == c && job.payload == payload
            &&& is_first_capable(old.workers(), c, job.worker_id)
            &&& new.workers() == old.workers().remove(job.worker_id)
            &&& new.streams() == old.streams().insert(sid, (old.tick + old.stream_ttl) as u64)
        },
        Event::WorkerRegistered { worker_id, capabilities } => if old.workers().dom().contains(worker_id) {
            unchanged(old, new) && worker_violation(effects, worker_id, "duplicate worker registration"@)
        } else {
            &&& new.tick == old.tick
            &&& new.streams() == old.streams()
            &&& new.workers() == old.workers().insert(
                worker_id,
                WorkerEntry { deadline: (old.tick + old.worker_ttl) as u64, capabilities },
            )
            &&& effects.len() == 0
        },
        Event::AssignmentCleared { client_stream_id: sid } => if !old.streams().dom().contains(sid) {
            unchanged(old, new) && stream_violation(effects, sid, "assignment cleared for unknown stream"@)
        } else {
            &&& new.tick == old.tick
            &&& new.workers() == old.workers()
            &&& new.streams() == old.streams().remove(sid)
            &&& effects.len() == 1 && is_done(effects[0], sid)
        },
        Event::AssignmentFailed { client_stream_id: sid, message } => if !old.streams().dom().contains(sid) {
            unchanged(old, new) && stream_violation(effects, sid, "assignment failed for unknown stream"@)
        } else {
            &&& new.tick == old.tick
            &&& new.workers() == old.workers()
            &&& new.streams() == old.streams().remove(sid)
            &&& error_and_done(effects, sid, message@)
        },
        Event::WorkerHeartbeat { worker_id } => if !old.workers().dom().contains(worker_id) {
            unchanged(old, new) && worker_violation(effects, worker_id, "heartbeat from unknown worker"@)
        } else {
            &&& new.tick == old.tick
            &&& new.streams() == old.streams()
            &&& new.workers() == old.workers().insert(
                worker_id,
                WorkerEntry {
                    deadline: (old.tick + old.worker_ttl) as u64,
                    capabilities: old.workers()[worker_id].capabilities,
                },
            )
            &&& effects.len() == 0
        },
        Event::StreamHeartbeat { client_stream_id: sid } => if !old.streams().dom().contains(sid) {
            unchanged(old, new) && stream_violation(effects, sid, "heartbeat for unknown stream"@)
        } else {
            &&& new.tick == old.tick
            &&& new.workers() == old.workers()
            &&& new.streams() == old.streams().insert(sid, (old.tick + old.stream_ttl) as u64)
            &&& effects.len() == 0
        },
        Event::Tick => {
            let tick = (old.tick + 1) as u64;
            &&& new.tick == tick
            &&& new.workers() == live_workers(old.workers(), tick)
            &&& new.streams() == live_streams(old.streams(), tick)
            &&& exists|expired: Seq<u64>|
                {
                    &&& expired.no_duplicates()
                    &&& forall|k: u64|
                        #[trigger] expired.contains(k) <==> (old.streams().dom().contains(k)
                            && old.streams()[k] <= tick)
                    &&& timeout_effects(effects, expired)
                }
        },
    }
}

// ---------------------------------------------------------------------------
// Reducer
// ---------------------------------------------------------------------------

fn error_text(text: &str) -> (message: String)
    ensures
        message@ == text@,
{
    to_string(text)
}

fn send_error_and_done(client_stream_id: u64, message: String) -> (effects: Vec<Effect>)
    ensures
        error_and_done(effects@, client_stream_id, message@),
{
    let mut effects: Vec<Effect> = Vec::new();
    effects.push(Effect::SendClientError(SendClientError { client_stream_id, message }));
    effects.push(Effect::SendClientDone(SendClientDone { client_stream_id }));
    effects
}

fn worker_violation_effect(worker_id: u64, message: &str) -> (effects: Vec<Effect>)
    ensures
        worker_violation(effects@, worker_id, message@),
{
    let mut id = String::new();
    append_decimal(&mut id, worker_id);
    assert(id@ =~= decimal(worker_id as nat));
    let mut effects: Vec<Effect> = Vec::new();
    effects.push(
        Effect::ProtocolViolation(
            ProtocolViolation { source: ViolationSource::Worker(id), message: to_string(message) },
        ),
    );
    effects
}

fn stream_violation_effect(stream_id: u64, message: &str) -> (effects: Vec<Effect>)
    ensures
        stream_violation(effects@, stream_id, message@),
{
    let mut id = String::new();
    append_decimal(&mut id, stream_id);
    assert(id@ =~= decimal(stream_id as nat));
    let mut effects: Vec<Effect> = Vec::new();
    effects.push(
        Effect::ProtocolViolation(
            ProtocolViolation { source: ViolationSource::Stream(id), message: to_string(message) },
        ),
    );
    effects
}

/// The lowest idle worker id with `capability`, if any.
pub fn first_capable_worker_id(state: &GatewayState, capability: Capability) -> (found: Option<u64>)
    ensures
        found is None <==> !has_capable(state.workers(), capability),
        found matches Some(w) ==> is_first_capable(state.workers(), capability, w),
{
    let entries = pool_entries(&state.available);
    let mut i: usize = 0;
    while i < entries.len()
        invariant
            i <= entries@.len(),
            forall|a: int| 0 <= a < i ==> !(#[trigger] entries@[a]).1.capabilities.has(capability),
            forall|a: int, b: int| 0 <= a < b < entries@.len() ==> entries@[a].0 < entries@[b].0,
            forall|k: u64|
                state.workers().dom().contains(k) <==> exists|a: int|
                    0 <= a < entries@.len() && (#[trigger] entries@[a]).0 == k,
            forall|a: int|
                0 <= a < entries@.len() ==> state.workers()[(#[trigger] entries@[a]).0]
                    == entries@[a].1,
        decreases entries.len() - i,
    {
        if entries[i].1.capabilities.contains(capability) {
            let w = entries[i].0;
            proof {
                assert(state.workers().dom().contains(w)) by {
                    assert(entries@[i as int].0 == w);
                }
                assert forall|k: u64|
                    state.workers().dom().contains(k) && state.workers()[k].capabilities.has(
                        capability,
                    ) implies w <= k by {
                    let b = choose|b: int| 0 <= b < entries@.len() && (#[trigger] entries@[b]).0 == k;
                    if b < i {
                        assert(state.workers()[entries@[b].0] == entries@[b].1);
                    } else if b > i {
                        assert(entries@[i as int].0 < entries@[b].0);
                    }
                }
            }
            return Some(w);
        }
        i += 1;
    }
    proof {
        assert forall|k: u64|
            state.workers().dom().contains(k) implies !#[trigger] state.workers()[k].capabilities.has(
                capability,
            ) by {
            let b = choose|b: int| 0 <= b < entries@.len() && (#[trigger] entries@[b]).0 == k;
            assert(state.workers()[entries@[b].0] == entries@[b].1);
        }
    }
    None
}

fn expire_workers(pool: OrdMap<u64, WorkerEntry>, tick: u64) -> (live: OrdMap<u64, WorkerEntry>)
    ensures
        pool_contents(live) == live_workers(pool_contents(pool), tick),
{
    let ghost old = pool_contents(pool);
    let entries = pool_entries(&pool);
    let mut live = pool;
    let mut i: usize = 0;
    while i < entries.len()
        invariant
            i <= entries@.len(),
            forall|k: u64|
                old.dom().contains(k) <==> exists|a: int|
                    0 <= a < entries@.len() && (#[trigger] entries@[a]).0 == k,
            forall|a: int| 0 <= a < entries@.len() ==> old[(#[trigger] entries@[a]).0] == entries@[a].1,
            forall|k: u64|
                #[trigger] pool_contents(live).dom().contains(k) <==> (old.dom().contains(k) && !(
                exists|a: int| 0 <= a < i && (#[trigger] entries@[a]).0 == k && entries@[a].1.deadline <= tick)),
            forall|k: u64| pool_contents(live).dom().contains(k) ==> pool_contents(live)[k] == old[k],
        decreases entries.len() - i,
    {
        let (k, entry) = entries[i];
        if entry.deadline <= tick {
            let ghost before = pool_contents(live);
            live = pool_without(&live, k);
            proof {
                assert forall|q: u64|
                    #[trigger] pool_contents(live).dom().contains(q) <==> (old.dom().contains(q) && !(
                    exists|a: int| 0 <= a < i + 1 && (#[trigger] entries@[a]).0 == q && entries@[a].1.deadline <= tick)) by {
                    if q == k {
                        assert(entries@[i as int].0 == q && entries@[i as int].1.deadline <= tick);
                    } else {
                        if exists|a: int| 0 <= a < i + 1 && (#[trigger] entries@[a]).0 == q && entries@[a].1.deadline <= tick {
                            let a = choose|a: int| 0 <= a < i + 1 && (#[trigger] entries@[a]).0 == q && entries@[a].1.deadline <= tick;
                            assert(a != i);
                        }
                    }
                }
            }
        } else {
            proof {
                assert forall|q: u64|
                    #[trigger] pool_contents(live).dom().contains(q) <==> (old.dom().contains(q) && !(
                    exists|a: int| 0 <= a < i + 1 && (#[trigger] entries@[a]).0 == q && entries@[a].1.deadline <= tick)) by {
                    if exists|a: int| 0 <= a < i + 1 && (#[trigger] entries@[a]).0 == q && entries@[a].1.deadline <= tick {
                        let a = choose|a: int| 0 <= a < i + 1 && (#[trigger] entries@[a]).0 == q && entries@[a].1.deadline <= tick;
                        assert(a != i);
                    }
                }
            }
        }
        i += 1;
    }
    proof {
        let target = live_workers(old, tick);
        assert forall|k: u64| #[trigger] pool_contents(live).dom().contains(k) <==> target.dom().contains(k) by {
            if old.dom().contains(k) {
                let a = choose|a: int| 0 <= a < entries@.len() && (#[trigger] entries@[a]).0 == k;
                if old[k].deadline <= tick {
                    assert(entries@[a].0 == k && entries@[a].1.deadline <= tick);
                } else {
                    if exists|b: int| 0 <= b < entries@.len() && (#[trigger] entries@[b]).0 == k && entries@[b].1.deadline <= tick {
                        let b = choose|b: int| 0 <= b < entries@.len() && (#[trigger] entries@[b]).0 == k && entries@[b].1.deadline <= tick;
                        assert(old[entries@[b].0] == entries@[b].1);
                    }
                }
            }
        }
        assert(pool_contents(live) =~= target);
    }
    live
}

fn expire_streams(streams: HashMap<u64, u64>, tick: u64) -> (result: (HashMap<u64, u64>, Vec<Effect>))
    ensures
        stream_contents(result.0) == live_streams(stream_contents(streams), tick),
        exists|expired: Seq<u64>|
            {
                &&& expired.no_duplicates()
                &&& forall|k: u64|
                    #[trigger] expired.contains(k) <==> (stream_contents(streams).dom().contains(k)
                        && stream_contents(streams)[k] <= tick)
                &&& timeout_effects(result.1@, expired)
            },
{
    let ghost old = stream_contents(streams);
    let entries = streams_entries(&streams);
    let mut live = streams;
    let mut effects: Vec<Effect> = Vec::new();
    let ghost mut expired: Seq<u64> = Seq::empty();
    let mut i: usize = 0;
    while i < entries.len()
        invariant
            i <= entries@.len(),
            forall|a: int, b: int| 0 <= a < b < entries@.len() ==> entries@[a].0 != entries@[b].0,
            forall|k: u64|
                old.dom().contains(k) <==> exists|a: int|
                    0 <= a < entries@.len() && (#[trigger] entries@[a]).0 == k,
            forall|a: int| 0 <= a < entries@.len() ==> old[(#[trigger] entries@[a]).0] == entries@[a].1,
            forall|k: u64|
                #[trigger] stream_contents(live).dom().contains(k) <==> (old.dom().contains(k) && !(
                exists|a: int| 0 <= a < i && (#[trigger] entries@[a]).0 == k && entries@[a].1 <= tick)),
            forall|k: u64| stream_contents(live).dom().contains(k) ==> stream_contents(live)[k] == old[k],
            expired.no_duplicates(),
            forall|k: u64|
                #[trigger] expired.contains(k) <==> exists|a: int|
                    0 <= a < i && (#[trigger] entries@[a]).0 == k && entries@[a].1 <= tick,
            timeout_effects(effects@, expired),
        decreases entries.len() - i,
    {
        let (k, deadline) = entries[i];
        if deadline <= tick {
            live = streams_without(&live, k);
            let ghost before_effects = effects@;
            let ghost before_expired = expired;
            effects.push(
                Effect::SendClientError(
                    SendClientError { client_stream_id: k, message: error_text("stream timed out") },
                ),
            );
            effects.push(Effect::SendClientDone(SendClientDone { client_stream_id: k }));
            proof {
                expired = expired.push(k);
                assert forall|q: u64|
                    #[trigger] stream_contents(live).dom().contains(q) <==> (old.dom().contains(q) && !(
                    exists|a: int| 0 <= a < i + 1 && (#[trigger] entries@[a]).0 == q && entries@[a].1 <= tick)) by {
                    if q == k {
                        assert(entries@[i as int].0 == q && entries@[i as int].1 <= tick);
                    } else {
                        if exists|a: int| 0 <= a < i + 1 && (#[trigger] entries@[a]).0 == q && entries@[a].1 <= tick {
                            let a = choose|a: int| 0 <= a < i + 1 && (#[trigger] entries@[a]).0 == q && entries@[a].1 <= tick;
                            assert(a != i);
                        }
                    }
                }
                assert forall|q: u64|
                    #[trigger] expired.contains(q) <==> exists|a: int|
                        0 <= a < i + 1 && (#[trigger] entries@[a]).0 == q && entries@[a].1 <= tick by {
                    if expired.contains(q) {
                        let j = choose|j: int| 0 <= j < expired.len() && expired[j] == q;
                        if j < before_expired.len() {
                            assert(before_expired[j] == q);
                            assert(before_expired.contains(q));
                        } else {
                            assert(entries@[i as int].0 == q);
                        }
                    }
                    if exists|a: int| 0 <= a < i + 1 && (#[trigger] entries@[a]).0 == q && entries@[a].1 <= tick {
                        let a = choose|a: int| 0 <= a < i + 1 && (#[trigger] entries@[a]).0 == q && entries@[a].1 <= tick;
                        if a < i {
                            assert(before_expired.contains(q));
                            let j = choose|j: int| 0 <= j < before_expired.len() && before_expired[j] == q;
                            assert(expired[j] == q);
                        } else {
                            assert(expired[expired.len() - 1] == q);
                        }
                    }
                }
                assert(expired.no_duplicates()) by {
                    if before_expired.contains(k) {
                        let a = choose|a: int| 0 <= a < i && (#[trigger] entries@[a]).0 == k && entries@[a].1 <= tick;
                        assert(entries@[a].0 != entries@[i as int].0);
                    }
                    assert forall|x: int, y: int| 0 <= x < y < expired.len() implies expired[x] != expired[y] by {
                        if y == expired.len() - 1 {
                            assert(before_expired.contains(expired[x]));
                        } else {
                            assert(before_expired[x] != before_expired[y]);
                        }
                    }
                }
                assert forall|j: int| 0 <= j < expired.len() implies is_error(
                    #[trigger] effects@[2 * j],
                    expired[j],
                    "stream timed out"@,
                ) && is_done(effects@[2 * j + 1], expired[j]) by {
                    if j < before_expired.len() {
                        assert(effects@[2 * j] == before_effects[2 * j]);
                        assert(effects@[2 * j + 1] == before_effects[2 * j + 1]);
                    }
                }
            }
        } else {
            proof {
                assert forall|q: u64|
                    #[trigger] stream_contents(live).dom().contains(q) <==> (old.dom().contains(q) && !(
                    exists|a: int| 0 <= a < i + 1 && (#[trigger] entries@[a]).0 == q && entries@[a].1 <= tick)) by {
                    if exists|a: int| 0 <= a < i + 1 && (#[trigger] entries@[a]).0 == q && entries@[a].1 <= tick {
                        let a = choose|a: int| 0 <= a < i + 1 && (#[trigger] entries@[a]).0 == q && entries@[a].1 <= tick;
                        assert(a != i);
                    }
                }
                assert forall|q: u64|
                    #[trigger] expired.contains(q) <==> exists|a: int|
                        0 <= a < i + 1 && (#[trigger] entries@[a]).0 == q && entries@[a].1 <= tick by {
                    if exists|a: int| 0 <= a < i + 1 && (#[trigger] entries@[a]).0 == q && entries@[a].1 <= tick {
                        let a = choose|a: int| 0 <= a < i + 1 && (#[trigger] entries@[a]).0 == q && entries@[a].1 <= tick;
                        assert(a != i);
                    }
                }
            }
        }
        i += 1;
    }
    proof {
        let target = live_streams(old, tick);
        assert forall|k: u64| #[trigger] stream_contents(live).dom().contains(k) <==> target.dom().contains(k) by {
            if old.dom().contains(k) {
                let a = choose|a: int| 0 <= a < entries@.len() && (#[trigger] entries@[a]).0 == k;
                if old[k] <= tick {
                    assert(entries@[a].0 == k && entries@[a].1 <= tick);
                } else {
                    if exists|b: int| 0 <= b < entries@.len() && (#[trigger] entries@[b]).0 == k && entries@[b].1 <= tick {
                        let b = choose|b: int| 0 <= b < entries@.len() && (#[trigger] entries@[b]).0 == k && entries@[b].1 <= tick;
                        assert(old[entries@[b].0] == entries@[b].1);
                    }
                }
            }
        }
        assert(stream_contents(live) =~= target);
        assert forall|k: u64|
            #[trigger] expired.contains(k) <==> (old.dom().contains(k) && old[k] <= tick) by {
            if old.dom().contains(k) && old[k] <= tick {
                let a = choose|a: int| 0 <= a < entries@.len() && (#[trigger] entries@[a]).0 == k;
                assert(entries@[a].1 <= tick);
            }
            if expired.contains(k) {
                let a = choose|a: int| 0 <= a < entries@.len() && (#[trigger] entries@[a]).0 == k && entries@[a].1 <= tick;
                assert(old[entries@[a].0] == entries@[a].1);
            }
        }
    }
    (live, effects)
}

/// Apply one event: dispatch a streamed chat request to the lowest idle
/// worker with the capability it needs, track registrations, heartbeats,
/// cleared and failed assignments, and expire workers and streams as the
/// ticks pass. Whatever a peer does that the protocol does not allow is
/// reported and changes nothing.
pub fn reduce(state: GatewayState, event: Event) -> (t: Transition)
    requires
        admissible(state, event),
    ensures
        reduced(state, event, t.state, t.effects@),
{
    match event {
        Event::HttpChatRequested { client_stream_id, stream, payload, required_capability } => {
            if !stream {
                let effects = send_error_and_done(
                    client_stream_id,
                    error_text("stream=true is required in this phase"),
                );
                return Transition { state, effects };
            }
            if streams_contains(&state.active_streams, client_stream_id) {
                let effects = send_error_and_done(
                    client_stream_id,
                    error_text("stream already has an active assignment"),
                );
                return Transition { state, effects };
            }
            match first_capable_worker_id(&state, required_capability) {
                Some(worker_id) => {
                    let deadline = state.tick + state.stream_ttl;
                    let available = pool_without(&state.available, worker_id);
                    let active_streams = streams_update(
                        &state.active_streams,
                        client_stream_id,
                        deadline,
                    );
                    let mut effects: Vec<Effect> = Vec::new();
                    effects.push(
                        Effect::DispatchJob(
                            DispatchJob {
                                worker_id,
                                client_stream_id,
                                capability: required_capability,
                                payload,
                            },
                        ),
                    );
                    Transition {
                        state: GatewayState { available, active_streams, ..state },
                        effects,
                    }
                },
                None => {
                    let effects = send_error_and_done(
                        client_stream_id,
                        error_text("no idle worker available"),
                    );
                    Transition { state, effects }
                },
            }
        },
        Event::WorkerRegistered { worker_id, capabilities } => {
            if pool_contains(&state.available, worker_id) {
                let effects = worker_violation_effect(worker_id, "duplicate worker registration");
                return Transition { state, effects };
            }
            let deadline = state.tick + state.worker_ttl;
            let available = pool_update(
                &state.available,
                worker_id,
                WorkerEntry { deadline, capabilities },
            );
            Transition { state: GatewayState { available, ..state }, effects: Vec::new() }
        },
        Event::AssignmentCleared { client_stream_id } => {
            if !streams_contains(&state.active_streams, client_stream_id) {
                let effects = stream_violation_effect(
                    client_stream_id,
                    "assignment cleared for unknown stream",
                );
                return Transition { state, effects };
            }
            let active_streams = streams_without(&state.active_streams, client_stream_id);
            let mut effects: Vec<Effect> = Vec::new();
            effects.push(Effect::SendClientDone(SendClientDone { client_stream_id }));
            Transition { state: GatewayState { active_streams, ..state }, effects }
        },
        Event::AssignmentFailed { client_stream_id, message } => {
            if !streams_contains(&state.active_streams, client_stream_id) {
                let effects = stream_violation_effect(
                    client_stream_id,
                    "assignment failed for unknown stream",
                );
                return Transition { state, effects };
            }
            let active_streams = streams_without(&state.active_streams, client_stream_id);
            let effects = send_error_and_done(client_stream_id, message);
            Transition { state: GatewayState { active_streams, ..state }, effects }
        },
        Event::WorkerHeartbeat { worker_id } => match pool_extract(&state.available, worker_id) {
            Some((entry, available)) => {
                let deadline = state.tick + state.worker_ttl;
                let available = pool_update(
                    &available,
                    worker_id,
                    WorkerEntry { deadline, capabilities: entry.capabilities },
                );
                proof {
                    assert(pool_contents(available) =~= state.workers().insert(
                        worker_id,
                        WorkerEntry { deadline, capabilities: state.workers()[worker_id].capabilities },
                    ));
                }
                Transition { state: GatewayState { available, ..state }, effects: Vec::new() }
            },
            None => {
                let effects = worker_violation_effect(worker_id, "heartbeat from unknown worker");
                Transition { state, effects }
            },
        },
        Event::StreamHeartbeat { client_stream_id } => {
            if !streams_contains(&state.active_streams, client_stream_id) {
                let effects = stream_violation_effect(
                    client_stream_id,
                    "heartbeat for unknown stream",
                );
                return Transition { state, effects };
            }
            let deadline = state.tick + state.stream_ttl;
            let active_streams = streams_update(&state.active_streams, client_stream_id, deadline);
            Transition { state: GatewayState { active_streams, ..state }, effects: Vec::new() }
        },
        Event::Tick => {
            let tick = state.tick + 1;
            let available = expire_workers(state.available, tick);
            let (active_streams, effects) = expire_streams(state.active_streams, tick);
            Transition {
                state: GatewayState {
                    tick,
                    worker_ttl: state.worker_ttl,
                    stream_ttl: state.stream_ttl,
                    subscriber_ttl: state.subscriber_ttl,
                    runtime_id: state.runtime_id,
                    session_counter: state.session_counter,
                    available,
                    active_streams,
                },
                effects,
            }
        },
    }
}

// ---------------------------------------------------------------------------
// Laws
// ---------------------------------------------------------------------------

/// Some effect tells the stream that it is done.
pub open spec fn tells_done(effects: Seq<Effect>, stream_id: u64) -> bool {
    exists|i: int| 0 <= i < effects.len() && is_done(#[trigger] effects[i], stream_id)
}

/// Some effect sends the stream an error.
pub open spec fn tells_error(effects: Seq<Effect>, stream_id: u64) -> bool {
    exists|i: int| 0 <= i < effects.len() && (#[trigger] effects[i] matches Effect::SendClientError(e)
        && e.client_stream_id == stream_id)
}

/// Every stream's deadline is at most one stream lifetime ahead.
pub open spec fn deadlines_bounded(state: GatewayState) -> bool {
    forall|k: u64|
        #[trigger] state.streams().dom().contains(k) ==> state.streams()[k] <= state.tick
            + state.stream_ttl
}

/// The tick never goes back.
pub proof fn lemma_tick_monotonic(old: GatewayState, event: Event, new: GatewayState, effects: Seq<Effect>)
    requires
        reduced(old, event, new, effects),
    ensures
        new.tick >= old.tick,
{
}

/// A stream leaves the active streams only with a done effect for it; when
/// it times out, also with an error.
pub proof fn lemma_removed_stream_is_told_done(
    old: GatewayState,
    event: Event,
    new: GatewayState,
    effects: Seq<Effect>,
    stream_id: u64,
)
    requires
        reduced(old, event, new, effects),
        old.streams().dom().contains(stream_id),
        !new.streams().dom().contains(stream_id),
    ensures
        tells_done(effects, stream_id),
        event is Tick ==> tells_error(effects, stream_id),
{
    match event {
        Event::HttpChatRequested { client_stream_id, .. } => {
            assert(new.streams().dom().contains(stream_id));
        },
        Event::AssignmentCleared { .. } => {
            assert(is_done(effects[0], stream_id));
        },
        Event::AssignmentFailed { .. } => {
            assert(is_done(effects[1], stream_id));
        },
        Event::StreamHeartbeat { .. } => {
            assert(new.streams().dom().contains(stream_id));
        },
        Event::Tick => {
            let tick = (old.tick + 1) as u64;
            assert(old.streams()[stream_id] <= tick) by {
                if old.streams()[stream_id] > tick {
                    assert(live_streams(old.streams(), tick).dom().contains(stream_id));
                }
            }
            let expired = choose|expired: Seq<u64>|
                {
                    &&& expired.no_duplicates()
                    &&& forall|k: u64|
                        #[trigger] expired.contains(k) <==> (old.streams().dom().contains(k)
                            && old.streams()[k] <= tick)
                    &&& timeout_effects(effects, expired)
                };
            assert(expired.contains(stream_id));
            let j = choose|j: int| 0 <= j < expired.len() && expired[j] == stream_id;
            assert(is_error(effects[2 * j], expired[j], "stream timed out"@));
            assert(is_done(effects[2 * j + 1], stream_id));
        },
        _ => {},
    }
}

/// A stream becomes active only by a dispatch to it.
pub proof fn lemma_added_stream_is_dispatched(
    old: GatewayState,
    event: Event,
    new: GatewayState,
    effects: Seq<Effect>,
    stream_id: u64,
)
    requires
        reduced(old, event, new, effects),
        !old.streams().dom().contains(stream_id),
        new.streams().dom().contains(stream_id),
    ensures
        exists|i: int|
            0 <= i < effects.len() && (#[trigger] effects[i] matches Effect::DispatchJob(job)
                && job.client_stream_id == stream_id),
{
    match event {
        Event::HttpChatRequested { .. } => {
            assert(effects[0] matches Effect::DispatchJob(job) && job.client_stream_id == stream_id);
        },
        Event::Tick => {
            assert(live_streams(old.streams(), (old.tick + 1) as u64).dom().contains(stream_id));
        },
        _ => {},
    }
}

/// A dispatch takes an idle worker that has the capability the job needs
/// out of the pool, and makes the stream active.
pub proof fn lemma_dispatch_is_atomic(
    old: GatewayState,
    event: Event,
    new: GatewayState,
    effects: Seq<Effect>,
    i: int,
)
    requires
        reduced(old, event, new, effects),
        0 <= i < effects.len(),
        effects[i] is DispatchJob,
    ensures
        effects[i] matches Effect::DispatchJob(job) && {
            &&& old.workers().dom().contains(job.worker_id)
            &&& old.workers()[job.worker_id].capabilities.has(job.capability)
            &&& event matches Event::HttpChatRequested { required_capability, .. }
                && required_capability == job.capability
            &&& !new.workers().dom().contains(job.worker_id)
            &&& !old.streams().dom().contains(job.client_stream_id)
            &&& new.streams().dom().contains(job.client_stream_id)
        },
{
    match event {
        Event::HttpChatRequested { .. } => {},
        Event::Tick => {
            let tick = (old.tick + 1) as u64;
            let expired = choose|expired: Seq<u64>|
                {
                    &&& expired.no_duplicates()
                    &&& forall|k: u64|
                        #[trigger] expired.contains(k) <==> (old.streams().dom().contains(k)
                            && old.streams()[k] <= tick)
                    &&& timeout_effects(effects, expired)
                };
            let j = i / 2;
            assert(0 <= j < expired.len());
            if i % 2 == 0 {
                assert(i == 2 * j);
                assert(is_error(effects[2 * j], expired[j], "stream timed out"@));
            } else {
                assert(i == 2 * j + 1);
                assert(is_error(effects[2 * j], expired[j], "stream timed out"@));
                assert(is_done(effects[2 * j + 1], expired[j]));
            }
        },
        _ => {},
    }
}

/// Every reduction keeps the stream deadlines within one stream lifetime.
pub proof fn lemma_deadlines_stay_bounded(
    old: GatewayState,
    event: Event,
    new: GatewayState,
    effects: Seq<Effect>,
)
    requires
        deadlines_bounded(old),
        reduced(old, event, new, effects),
    ensures
        deadlines_bounded(new),
{
    match event {
        Event::Tick => {
            let tick = (old.tick + 1) as u64;
            assert forall|k: u64| #[trigger] new.streams().dom().contains(k) implies new.streams()[k]
                <= new.tick + new.stream_ttl by {
                assert(live_streams(old.streams(), tick)[k] == old.streams()[k]);
            }
        },
        _ => {},
    }
}

/// Without other events, every stream is gone after one stream lifetime
/// and one more tick, each having been told that it is done.
pub proof fn lemma_streams_drain(
    states: Seq<GatewayState>,
    effects: Seq<Seq<Effect>>,
)
    requires
        states.len() == effects.len() + 1,
        deadlines_bounded(states[0]),
        effects.len() > states[0].stream_ttl,
        forall|i: int| 0 <= i < effects.len() ==> reduced(#[trigger] states[i], Event::Tick, states[i + 1], effects[i]),
    ensures
        states.last().streams().dom().is_empty(),
{
    let n = effects.len() as int;
    assert forall|i: int| 0 <= i <= n implies {
        &&& (#[trigger] states[i]).tick == states[0].tick + i
        &&& states[i].stream_ttl == states[0].stream_ttl
        &&& deadlines_bounded(states[i])
        &&& forall|k: u64| #[trigger] states[i].streams().dom().contains(k) ==> states[i].streams()[k] <= states[0].tick + states[0].stream_ttl
    } by {
        lemma_tick_chain(states, effects, i);
    }
    assert forall|k: u64| !states.last().streams().dom().contains(k) by {
        if states[n].streams().dom().contains(k) {
            let prev = states[n - 1];
            assert(reduced(prev, Event::Tick, states[n], effects[n - 1]));
            assert(live_streams(prev.streams(), (prev.tick + 1) as u64).dom().contains(k));
            assert(prev.streams()[k] > prev.tick + 1);
        }
    }
}

proof fn lemma_tick_chain(states: Seq<GatewayState>, effects: Seq<Seq<Effect>>, i: int)
    requires
        states.len() == effects.len() + 1,
        deadlines_bounded(states[0]),
        forall|j: int| 0 <= j < effects.len() ==> reduced(#[trigger] states[j], Event::Tick, states[j + 1], effects[j]),
        0 <= i <= effects.len(),
    ensures
        states[i].tick == states[0].tick + i,
        states[i].stream_ttl == states[0].stream_ttl,
        deadlines_bounded(states[i]),
        forall|k: u64| #[trigger] states[i].streams().dom().contains(k) ==> states[i].streams()[k] <= states[0].tick + states[0].stream_ttl,
    decreases i,
{
    if i > 0 {
        lemma_tick_chain(states, effects, i - 1);
        let prev = states[i - 1];
        assert(reduced(prev, Event::Tick, states[i], effects[i - 1]));
        lemma_deadlines_stay_bounded(prev, Event::Tick, states[i], effects[i - 1]);
        let tick = (prev.tick + 1) as u64;
        assert forall|k: u64| #[trigger] states[i].streams().dom().contains(k) implies states[i].streams()[k] <= states[0].tick + states[0].stream_ttl by {
            assert(live_streams(prev.streams(), tick)[k] == prev.streams()[k]);
            assert(prev.streams().dom().contains(k));
        }
    }
}

} // verus!
