//! Seeding a shared session with a fixture's entries: each entry is
//! appended and must come back as the next echo of the session log, lost
//! connections are resumed from what the gateway persisted, and at the end
//! the persisted log must equal the fixture. The host performs each action
//! and reports what happened.
use vstd::prelude::*;

use serde_json::Value;

verus! {

// ---------------------------------------------------------------------------
// The outside comparison
// ---------------------------------------------------------------------------

/// `<Value as PartialEq>::eq`: whether two JSON values are equal.
pub uninterp spec fn json_equal(a: Value, b: Value) -> bool;

/// `<Value as PartialEq>::eq`: whether two JSON values are equal.
#[verifier::external_body]
pub(crate) fn values_equal(a: &Value, b: &Value) -> (eq: bool)
    ensures
        eq == json_equal(*a, *b),
{
    a == b
}

/// `<Value as Clone>::clone`: a copy of a JSON value.
#[verifier::external_body]
pub(crate) fn copy_value(v: &Value) -> (copy: Value)
    ensures
        copy == *v,
{
    v.clone()
}

// ---------------------------------------------------------------------------
// State, events and actions
// ---------------------------------------------------------------------------

/// Where seeding stands.
#[derive(Debug, Clone, Copy, PartialEq, Eq, Structural)]
pub enum Phase {
    /// The next entry was handed to the session to append.
    Appending,
    /// Waiting for the session to echo the next entry.
    AwaitingEcho,
    /// The connection dropped; waiting for it to come back.
    AwaitingReconnect,
    /// Fetching what the gateway persisted from the next entry on.
    Syncing,
    /// Fetching the whole persisted log to compare with the fixture.
    Verifying,
    /// Nothing more to do.
    Finished,
}

/// Why seeding failed.
#[derive(Debug, PartialEq)]
pub enum SeedFailure {
    OutOfOrderEcho { expected: usize, actual: usize },
    EchoPayloadMismatch { index: usize, expected: Value, actual: Value },
    PersistedPayloadMismatch { index: usize, expected: Value, actual: Value },
    PersistedLengthMismatch { expected: usize, actual: usize },
}

/// What the host reports.
pub enum SeedEvent {
    /// The append went through.
    Appended,
    /// The append failed because the connection dropped.
    AppendDisconnected,
    /// The session echoed the entry at `index`.
    SessionEntry { index: usize, payload: Value },
    Disconnected,
    Reconnected,
    Warning,
    /// The gateway's page of persisted entries and its total.
    EntriesFetched { entries: Vec<Value>, total: usize },
}

/// What the host is asked to do.
#[derive(Debug, PartialEq)]
pub enum SeedAction {
    /// Append the fixture entry at `index`.
    Append { index: usize },
    /// Read the session's next event.
    NextEvent,
    /// Fetch up to `limit` persisted entries from `from` on.
    FetchEntries { from: usize, limit: usize },
    /// Seeding is over.
    Done(Result<(), SeedFailure>),
}

/// The seeding state: the fixture's payloads, how many were echoed or
/// found persisted, and the phase.
pub struct Seeder {
    payloads: Vec<Value>,
    next_index: usize,
    phase: Phase,
}

impl Seeder {
    pub closed spec fn payloads(&self) -> Seq<Value> {
        self.payloads@
    }

    pub closed spec fn next_index(&self) -> usize {
        self.next_index
    }

    pub closed spec fn phase(&self) -> Phase {
        self.phase
    }

    /// The entries before `next_index` are settled; while appending,
    /// echoing or syncing, some entry is still unsettled.
    pub open spec fn wf(&self) -> bool {
        &&& self.next_index() <= self.payloads().len()
        &&& (self.phase() is Appending || self.phase() is AwaitingEcho || self.phase() is AwaitingReconnect
            || self.phase() is Syncing) ==> self.next_index() < self.payloads().len()
    }
}

// ---------------------------------------------------------------------------
// Mathematical model
// ---------------------------------------------------------------------------

/// The event is one the host can report in the phase.
pub open spec fn expected_event(phase: Phase, next: usize, len: nat, event: SeedEvent) -> bool {
    match phase {
        Phase::Appending => event is Appended || event is AppendDisconnected,
        Phase::AwaitingEcho | Phase::AwaitingReconnect => event is SessionEntry || event is Disconnected
            || event is Reconnected || event is Warning,
        Phase::Syncing => event matches SeedEvent::EntriesFetched { entries, .. } && next
            + entries@.len() <= len,
        Phase::Verifying => event is EntriesFetched,
        Phase::Finished => false,
    }
}

/// The first position where the page differs from the payloads from
/// `from` on, or the page's length.
pub open spec fn first_difference(payloads: Seq<Value>, from: int, page: Seq<Value>, i: int) -> int
    decreases page.len() - i,
{
    if i < 0 || i >= page.len() {
        page.len() as int
    } else if !json_equal(page[i], payloads[from + i]) {
        i
    } else {
        first_difference(payloads, from, page, i + 1)
    }
}

/// The action that continues seeding with `next` entries settled: append
/// the next one, or verify the whole log.
pub open spec fn continue_action(next: usize, len: nat) -> (Phase, SeedAction) {
    if next < len {
        (Phase::Appending, SeedAction::Append { index: next })
    } else {
        (Phase::Verifying, SeedAction::FetchEntries { from: 0, limit: len as usize })
    }
}

/// The state and action after a resumed connection.
pub open spec fn resume_action(next: usize, len: nat) -> (Phase, SeedAction) {
    if next >= len {
        continue_action(next, len)
    } else {
        (Phase::Syncing, SeedAction::FetchEntries { from: next, limit: (len - next) as usize })
    }
}

// ---------------------------------------------------------------------------
// Executable code
// ---------------------------------------------------------------------------

/// Start seeding `payloads`: the first action.
pub fn start(payloads: Vec<Value>) -> (result: (Seeder, SeedAction))
    ensures
        result.0.wf(),
        result.0.payloads() == payloads@,
        result.0.next_index() == 0,
        (result.0.phase(), result.1) == continue_action(0, payloads@.len()),
{
    let len = payloads.len();
    let seeder = Seeder { payloads, next_index: 0, phase: Phase::Appending };
    if len > 0 {
        (seeder, SeedAction::Append { index: 0 })
    } else {
        (Seeder { phase: Phase::Verifying, ..seeder }, SeedAction::FetchEntries { from: 0, limit: len })
    }
}

fn continue_seeding(seeder: Seeder) -> (result: (Seeder, SeedAction))
    requires
        seeder.wf(),
    ensures
        result.0.wf(),
        result.0.payloads() == seeder.payloads(),
        result.0.next_index() == seeder.next_index(),
        (result.0.phase(), result.1) == continue_action(seeder.next_index(), seeder.payloads().len()),
{
    let next = seeder.next_index;
    let len = seeder.payloads.len();
    if next < len {
        (Seeder { phase: Phase::Appending, ..seeder }, SeedAction::Append { index: next })
    } else {
        (Seeder { phase: Phase::Verifying, ..seeder }, SeedAction::FetchEntries { from: 0, limit: len })
    }
}

fn resume(seeder: Seeder) -> (result: (Seeder, SeedAction))
    requires
        seeder.wf(),
    ensures
        result.0.wf(),
        result.0.payloads() == seeder.payloads(),
        result.0.next_index() == seeder.next_index(),
        (result.0.phase(), result.1) == resume_action(seeder.next_index(), seeder.payloads().len()),
{
    let next = seeder.next_index;
    let len = seeder.payloads.len();
    if next >= len {
        continue_seeding(seeder)
    } else {
        (Seeder { phase: Phase::Syncing, ..seeder }, SeedAction::FetchEntries { from: next, limit: len - next })
    }
}

fn finish(seeder: Seeder, outcome: Result<(), SeedFailure>) -> (result: (Seeder, SeedAction))
    requires
        seeder.wf(),
    ensures
        result.0.wf(),
        result.0.payloads() == seeder.payloads(),
        result.0.next_index() == seeder.next_index(),
        result.0.phase() == Phase::Finished,
        result.1 == SeedAction::Done(outcome),
{
    (Seeder { phase: Phase::Finished, ..seeder }, SeedAction::Done(outcome))
}

/// The first position where `page` differs from the payloads from `from`
/// on, or the page's length.
fn find_difference(payloads: &Vec<Value>, from: usize, page: &Vec<Value>) -> (i: usize)
    requires
        from + page@.len() <= payloads@.len(),
    ensures
        i == first_difference(payloads@, from as int, page@, 0),
        i <= page@.len(),
        i < page@.len() ==> !json_equal(page@[i as int], payloads@[from + i]),
{
    let n = payloads.len();
    let mut i: usize = 0;
    while i < page.len() && values_equal(&page[i], &payloads[from + i])
        invariant
            i <= page@.len(),
            n == payloads@.len(),
            from + page@.len() <= payloads@.len(),
            first_difference(payloads@, from as int, page@, 0) == first_difference(
                payloads@,
                from as int,
                page@,
                i as int,
            ),
        decreases page.len() - i,
    {
        i += 1;
    }
    i
}

/// What an echoed entry does while waiting for the echo of entry `next`.
pub open spec fn echo_outcome(payloads: Seq<Value>, next: usize, index: usize, payload: Value) -> Option<
    (usize, Phase, SeedAction),
> {
    if index < next {
        None
    } else if index > next {
        Some(
            (
                next,
                Phase::Finished,
                SeedAction::Done(Err(SeedFailure::OutOfOrderEcho { expected: next, actual: index })),
            ),
        )
    } else if !json_equal(payload, payloads[next as int]) {
        Some(
            (
                next,
                Phase::Finished,
                SeedAction::Done(
                    Err(
                        SeedFailure::EchoPayloadMismatch {
                            index,
                            expected: payloads[next as int],
                            actual: payload,
                        },
                    ),
                ),
            ),
        )
    } else {
        let (phase, action) = continue_action((next + 1) as usize, payloads.len());
        Some(((next + 1) as usize, phase, action))
    }
}

/// `new` and `action` are what `event` makes of `old`.
pub open spec fn stepped(old: Seeder, event: SeedEvent, new: Seeder, action: SeedAction) -> bool {
    let next = old.next_index();
    let payloads = old.payloads();
    let len = payloads.len();
    &&& new.payloads() == payloads
    &&& match (old.phase(), event) {
        (Phase::Appending, SeedEvent::Appended) => new.next_index() == next && new.phase()
            == Phase::AwaitingEcho && action == SeedAction::NextEvent,
        (Phase::Appending, SeedEvent::AppendDisconnected) => new.next_index() == next
            && new.phase() == Phase::AwaitingReconnect && action == SeedAction::NextEvent,
        (Phase::AwaitingEcho, SeedEvent::SessionEntry { index, payload })
        | (Phase::AwaitingReconnect, SeedEvent::SessionEntry { index, payload }) => match echo_outcome(
            payloads,
            next,
            index,
            payload,
        ) {
            None => new.next_index() == next && new.phase() == old.phase() && action
                == SeedAction::NextEvent,
            Some((n, phase, a)) => new.next_index() == n && new.phase() == phase && action == a,
        },
        (Phase::AwaitingEcho, SeedEvent::Disconnected) => new.next_index() == next && new.phase()
            == Phase::AwaitingReconnect && action == SeedAction::NextEvent,
        (Phase::AwaitingEcho, SeedEvent::Reconnected)
        | (Phase::AwaitingReconnect, SeedEvent::Reconnected) => new.next_index() == next && (
        new.phase(), action) == resume_action(next, len),
        (Phase::AwaitingEcho, SeedEvent::Warning)
        | (Phase::AwaitingReconnect, SeedEvent::Disconnected)
        | (Phase::AwaitingReconnect, SeedEvent::Warning) => new.next_index() == next && new.phase()
            == old.phase() && action == SeedAction::NextEvent,
        (Phase::Syncing, SeedEvent::EntriesFetched { entries, .. }) => {
            let page = entries@;
            let d = first_difference(payloads, next as int, page, 0);
            if d < page.len() {
                &&& new.next_index() == next
                &&& new.phase() == Phase::Finished
                &&& action == SeedAction::Done(
                    Err(
                        SeedFailure::PersistedPayloadMismatch {
                            index: (next + d) as usize,
                            expected: payloads[next + d],
                            actual: page[d],
                        },
                    ),
                )
            } else {
                &&& new.next_index() == next + page.len()
                &&& (new.phase(), action) == continue_action((next + page.len()) as usize, len)
            }
        },
        (Phase::Verifying, SeedEvent::EntriesFetched { entries, total }) => {
            let page = entries@;
            &&& new.next_index() == next
            &&& new.phase() == Phase::Finished
            &&& if total != len || page.len() != len {
                action == SeedAction::Done(
                    Err(SeedFailure::PersistedLengthMismatch { expected: len as usize, actual: total }),
                )
            } else {
                let d = first_difference(payloads, 0, page, 0);
                if d < page.len() {
                    action == SeedAction::Done(
                        Err(
                            SeedFailure::PersistedPayloadMismatch {
                                index: d as usize,
                                expected: payloads[d],
                                actual: page[d],
                            },
                        ),
                    )
                } else {
                    action == SeedAction::Done(Ok(()))
                }
            }
        },
        _ => false,
    }
}

fn handle_echo(seeder: Seeder, index: usize, payload: Value) -> (result: (Seeder, SeedAction))
    requires
        seeder.wf(),
        seeder.phase() is AwaitingEcho || seeder.phase() is AwaitingReconnect,
    ensures
        result.0.wf(),
        result.0.payloads() == seeder.payloads(),
        result.0.next_index() >= seeder.next_index(),
        match echo_outcome(seeder.payloads(), seeder.next_index(), index, payload) {
            None => result.0.next_index() == seeder.next_index() && result.0.phase()
                == seeder.phase() && result.1 == SeedAction::NextEvent,
            Some((n, phase, a)) => result.0.next_index() == n && result.0.phase() == phase
                && result.1 == a,
        },
{
    let next = seeder.next_index;
    let len = seeder.payloads.len();
    if index < next {
        return (seeder, SeedAction::NextEvent);
    }
    if index > next {
        return finish(seeder, Err(SeedFailure::OutOfOrderEcho { expected: next, actual: index }));
    }
    if !values_equal(&payload, &seeder.payloads[next]) {
        let expected = copy_value(&seeder.payloads[next]);
        return finish(
            seeder,
            Err(SeedFailure::EchoPayloadMismatch { index, expected, actual: payload }),
        );
    }
    continue_seeding(Seeder { next_index: next + 1, phase: Phase::Verifying, ..seeder })
}

/// Take the host's report and say what to do next.
pub fn step(seeder: Seeder, event: SeedEvent) -> (result: (Seeder, SeedAction))
    requires
        seeder.wf(),
        expected_event(seeder.phase(), seeder.next_index(), seeder.payloads().len(), event),
    ensures
        result.0.wf(),
        result.0.next_index() >= seeder.next_index(),
        stepped(seeder, event, result.0, result.1),
{
    match (seeder.phase, event) {
        (Phase::Appending, SeedEvent::Appended) => (
            Seeder { phase: Phase::AwaitingEcho, ..seeder },
            SeedAction::NextEvent,
        ),
        (Phase::Appending, SeedEvent::AppendDisconnected) => (
            Seeder { phase: Phase::AwaitingReconnect, ..seeder },
            SeedAction::NextEvent,
        ),
        (Phase::AwaitingEcho, SeedEvent::SessionEntry { index, payload })
        | (Phase::AwaitingReconnect, SeedEvent::SessionEntry { index, payload }) => handle_echo(
            seeder,
            index,
            payload,
        ),
        (Phase::AwaitingEcho, SeedEvent::Disconnected) => (
            Seeder { phase: Phase::AwaitingReconnect, ..seeder },
            SeedAction::NextEvent,
        ),
        (Phase::AwaitingEcho, SeedEvent::Reconnected)
        | (Phase::AwaitingReconnect, SeedEvent::Reconnected) => resume(seeder),
        (Phase::Syncing, SeedEvent::EntriesFetched { entries, .. }) => {
            let next = seeder.next_index;
            let len = seeder.payloads.len();
            let d = find_difference(&seeder.payloads, next, &entries);
            if d < entries.len() {
                let mut entries = entries;
                let ghost page = entries@;
                let actual = entries.remove(d);
                let expected = copy_value(&seeder.payloads[next + d]);
                finish(
                    seeder,
                    Err(SeedFailure::PersistedPayloadMismatch { index: next + d, expected, actual }),
                )
            } else {
                let settled = next + entries.len();
                continue_seeding(Seeder { next_index: settled, phase: Phase::Verifying, ..seeder })
            }
        },
        (Phase::Verifying, SeedEvent::EntriesFetched { entries, total }) => {
            let len = seeder.payloads.len();
            if total != len || entries.len() != len {
                return finish(
                    seeder,
                    Err(SeedFailure::PersistedLengthMismatch { expected: len, actual: total }),
                );
            }
            let d = find_difference(&seeder.payloads, 0, &entries);
            if d < entries.len() {
                let mut entries = entries;
                let actual = entries.remove(d);
                let expected = copy_value(&seeder.payloads[d]);
                finish(
                    seeder,
                    Err(SeedFailure::PersistedPayloadMismatch { index: d, expected, actual }),
                )
            } else {
                finish(seeder, Ok(()))
            }
        },
        (phase, _) => (Seeder { phase, ..seeder }, SeedAction::NextEvent),
    }
}

proof fn lemma_first_difference(payloads: Seq<Value>, from: int, page: Seq<Value>, i: int)
    requires
        0 <= i <= page.len(),
    ensures
        i <= first_difference(payloads, from, page, i) <= page.len(),
        forall|j: int|
            i <= j < first_difference(payloads, from, page, i) ==> json_equal(
                #[trigger] page[j],
                payloads[from + j],
            ),
    decreases page.len() - i,
{
    if i < page.len() && json_equal(page[i], payloads[from + i]) {
        lemma_first_difference(payloads, from, page, i + 1);
    }
}

/// Seeding succeeds only on a persisted log of exactly the fixture's
/// length whose every entry equals the fixture's entry at its position.
pub proof fn lemma_success_means_identical_log(
    old: Seeder,
    event: SeedEvent,
    new: Seeder,
    outcome: SeedAction,
)
    requires
        stepped(old, event, new, outcome),
        outcome == SeedAction::Done(Ok(())),
    ensures
        event matches SeedEvent::EntriesFetched { entries, total } && total == old.payloads().len()
            && entries@.len() == old.payloads().len() && forall|i: int|
            0 <= i < entries@.len() ==> json_equal(#[trigger] entries@[i], old.payloads()[i]),
{
    match (old.phase(), event) {
        (Phase::Verifying, SeedEvent::EntriesFetched { entries, total }) => {
            lemma_first_difference(old.payloads(), 0, entries@, 0);
            assert forall|i: int| 0 <= i < entries@.len() implies json_equal(
                #[trigger] entries@[i],
                old.payloads()[i],
            ) by {
                assert(json_equal(entries@[i], old.payloads()[0 + i]));
            }
        },
        (Phase::Syncing, SeedEvent::EntriesFetched { entries, .. }) => {
            let next = old.next_index();
            let d = first_difference(old.payloads(), next as int, entries@, 0);
            if d >= entries@.len() {
                let settled = (next + entries@.len()) as usize;
                assert(continue_action(settled, old.payloads().len()).1 != SeedAction::Done(
                    Ok(()),
                ));
            }
        },
        (Phase::AwaitingEcho, SeedEvent::SessionEntry { index, payload })
        | (Phase::AwaitingReconnect, SeedEvent::SessionEntry { index, payload }) => {
            let next = old.next_index();
            if index == next && json_equal(payload, old.payloads()[next as int]) {
                assert(continue_action((next + 1) as usize, old.payloads().len()).1
                    != SeedAction::Done(Ok(())));
            }
        },
        _ => {},
    }
}

/// The settled count never goes back.
pub proof fn lemma_settled_monotonic(old: Seeder, event: SeedEvent, new: Seeder, action: SeedAction)
    requires
        old.wf(),
        old.payloads().len() <= usize::MAX,
        stepped(old, event, new, action),
    ensures
        new.next_index() >= old.next_index(),
{
}

} // verus!
