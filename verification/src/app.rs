//! The local consensus app: one participant's conversation, the committed
//! entries coordinated from the shared log, and the participant's drafts.
//! Each event goes to exactly one of the three parts; the others stay as
//! they were.
use vstd::prelude::*;

use crate::conversation;
use crate::coordinator;
use crate::drafts;
use crate::types::{clone_drafts, DraftEntry, Entry};

verus! {

/// The page size for fetching missing committed entries.
pub const COORDINATOR_PAGE_LIMIT: usize = 1000;

/// The app's state.
#[derive(Debug, PartialEq, Eq)]
pub struct State {
    participant: String,
    conversation: conversation::State,
    coordinator: coordinator::State<Entry>,
    drafts: drafts::State,
}

/// An event for one of the app's parts.
#[derive(Debug, PartialEq, Eq)]
pub enum Event {
    ConversationEvent { event: conversation::Event },
    DraftsEvent { event: drafts::Event },
    CoordinatorEvent { event: coordinator::Event<Entry> },
}

/// An effect requested by one of the app's parts.
#[derive(Debug, PartialEq, Eq)]
pub enum Effect {
    ConversationEffect { effect: conversation::Effect },
    CoordinatorEffect { effect: coordinator::Effect<Entry> },
}

/// The state after an event, with the effects it calls for.
#[derive(Debug, PartialEq, Eq)]
pub struct Transition {
    pub state: State,
    pub effects: Vec<Effect>,
}

impl State {
    pub closed spec fn spec_participant(&self) -> Seq<char> {
        self.participant@
    }

    pub closed spec fn spec_conversation(&self) -> conversation::State {
        self.conversation
    }

    pub closed spec fn spec_coordinator(&self) -> coordinator::State<Entry> {
        self.coordinator
    }

    pub closed spec fn spec_drafts(&self) -> drafts::State {
        self.drafts
    }

    /// The parts are well formed.
    pub open spec fn wf(&self) -> bool {
        self.spec_coordinator().wf() && self.spec_drafts().wf()
    }
}

pub open spec fn coordinator_effects(effects: Seq<coordinator::Effect<Entry>>) -> Seq<Effect> {
    effects.map_values(|effect: coordinator::Effect<Entry>| Effect::CoordinatorEffect { effect })
}

pub open spec fn conversation_effects(effects: Seq<conversation::Effect>) -> Seq<Effect> {
    effects.map_values(|effect: conversation::Effect| Effect::ConversationEffect { effect })
}

fn map_coordinator_effects(effects: Vec<coordinator::Effect<Entry>>) -> (mapped: Vec<Effect>)
    ensures
        mapped@ == coordinator_effects(effects@),
{
    let mut rest = effects;
    let ghost all = rest@;
    let mut reversed: Vec<coordinator::Effect<Entry>> = Vec::new();
    while rest.len() > 0
        invariant
            reversed@.len() + rest@.len() == all.len(),
            rest@ == all.take(rest@.len() as int),
            forall|i: int|
                0 <= i < reversed@.len() ==> reversed@[i] == all[all.len() - 1 - i],
        decreases rest.len(),
    {
        let e = rest.pop().unwrap();
        reversed.push(e);
        assert(rest@ =~= all.take(rest@.len() as int));
    }
    let mut mapped: Vec<Effect> = Vec::new();
    while reversed.len() > 0
        invariant
            reversed@.len() + mapped@.len() == all.len(),
            forall|i: int|
                0 <= i < reversed@.len() ==> reversed@[i] == all[all.len() - 1 - i],
            mapped@ == coordinator_effects(all.take(mapped@.len() as int)),
        decreases reversed.len(),
    {
        let ghost n = mapped@.len();
        let effect = reversed.pop().unwrap();
        mapped.push(Effect::CoordinatorEffect { effect });
        assert(all.take(n as int + 1) =~= all.take(n as int).push(all[n as int]));
        assert(mapped@ =~= coordinator_effects(all.take(n as int + 1)));
    }
    assert(all.take(all.len() as int) =~= all);
    mapped
}

/// The conversation's effects as app effects, in order.
pub fn map_conversation_effects(effects: Vec<conversation::Effect>) -> (mapped: Vec<Effect>)
    ensures
        mapped@ == conversation_effects(effects@),
{
    let mut rest = effects;
    let ghost all = rest@;
    let mut reversed: Vec<conversation::Effect> = Vec::new();
    while rest.len() > 0
        invariant
            reversed@.len() + rest@.len() == all.len(),
            rest@ == all.take(rest@.len() as int),
            forall|i: int|
                0 <= i < reversed@.len() ==> reversed@[i] == all[all.len() - 1 - i],
        decreases rest.len(),
    {
        let e = rest.pop().unwrap();
        reversed.push(e);
        assert(rest@ =~= all.take(rest@.len() as int));
    }
    let mut mapped: Vec<Effect> = Vec::new();
    while reversed.len() > 0
        invariant
            reversed@.len() + mapped@.len() == all.len(),
            forall|i: int|
                0 <= i < reversed@.len() ==> reversed@[i] == all[all.len() - 1 - i],
            mapped@ == conversation_effects(all.take(mapped@.len() as int)),
        decreases reversed.len(),
    {
        let ghost n = mapped@.len();
        let effect = reversed.pop().unwrap();
        mapped.push(Effect::ConversationEffect { effect });
        assert(all.take(n as int + 1) =~= all.take(n as int).push(all[n as int]));
        assert(mapped@ =~= conversation_effects(all.take(n as int + 1)));
    }
    assert(all.take(all.len() as int) =~= all);
    mapped
}

/// The drafts' effects as app effects: the drafts never request any.
fn map_draft_effects(effects: Vec<drafts::Effect>) -> (mapped: Vec<Effect>)
    requires
        effects@.len() == 0,
    ensures
        mapped@.len() == 0,
{
    let _ = effects;
    Vec::new()
}

/// Start the app for `participant`, fetching the committed entries up to
/// `latest_entry_index` when it is known.
pub fn init(participant: String, latest_entry_index: Option<usize>) -> (t: Transition)
    requires
        latest_entry_index matches Some(l) ==> l < usize::MAX,
    ensures
        t.state.wf(),
        t.state.spec_participant() == participant@,
        t.state.spec_conversation().messages().len() == 0,
        t.state.spec_coordinator().spec_page_limit() == COORDINATOR_PAGE_LIMIT,
        t.state.spec_coordinator().slots() == coordinator::synced(
            Seq::<Option<Entry>>::empty(),
            latest_entry_index,
        ),
        t.state.spec_drafts().drafts().len() == 0,
        t.state.spec_drafts().next_id() == 0,
        t.state.spec_drafts().spec_notice() is None,
        exists|inner: Seq<coordinator::Effect<Entry>>|
            t.effects@ == coordinator_effects(inner) && coordinator::effect_ranges(inner) == if latest_entry_index is Some {
                coordinator::fetch_plan(
                    t.state.spec_coordinator().slots(),
                    COORDINATOR_PAGE_LIMIT as int,
                    0,
                )
            } else {
                Seq::empty()
            },
{
    let coordinator = coordinator::sync_to_latest(
        coordinator::State::empty(COORDINATOR_PAGE_LIMIT),
        latest_entry_index,
    );
    let ghost inner = coordinator.effects@;
    let effects = map_coordinator_effects(coordinator.effects);
    Transition {
        state: State {
            participant,
            conversation: conversation::init(),
            coordinator: coordinator.state,
            drafts: drafts::init(),
        },
        effects,
    }
}

/// `new` and `effects` are what `event` makes of `old`: the event goes to
/// one part, which changes as that part's reducer says, and the other parts
/// and the participant stay as they were.
pub open spec fn reduced(old: State, event: Event, new: State, effects: Seq<Effect>) -> bool {
    &&& new.spec_participant() == old.spec_participant()
    &&& !(event is ConversationEvent) ==> new.spec_conversation() == old.spec_conversation()
    &&& !(event is CoordinatorEvent) ==> new.spec_coordinator() == old.spec_coordinator()
    &&& !(event is DraftsEvent) ==> new.spec_drafts() == old.spec_drafts()
    &&& match event {
            Event::ConversationEvent { event } => exists|inner: Seq<conversation::Effect>|
                effects == conversation_effects(inner) && conversation::reduced(
                    old.spec_conversation(),
                    event,
                    new.spec_conversation(),
                    inner,
                ),
            Event::DraftsEvent { event } => effects.len() == 0 && drafts::reduced(
                old.spec_drafts(),
                event,
                new.spec_drafts(),
            ),
            Event::CoordinatorEvent { event } => exists|inner: Seq<coordinator::Effect<Entry>>|
                effects == coordinator_effects(inner) && coordinator::reduced(
                    old.spec_coordinator(),
                    event,
                    new.spec_coordinator(),
                    inner,
                ) && new.spec_coordinator().spec_page_limit()
                    == old.spec_coordinator().spec_page_limit(),
        }
}

/// Apply an event to the part it is for; the other parts stay as they were.
pub fn reduce(state: State, event: Event) -> (t: Transition)
    requires
        state.wf(),
        event matches Event::CoordinatorEvent { event: coordinator::Event::Received { index, .. } }
            ==> index < usize::MAX,
        event matches Event::DraftsEvent { event: drafts::Event::DraftClaimRequested { parent, .. } }
            && drafts::optional_ref_error(state.spec_drafts().drafts(), parent) is None
            ==> state.spec_drafts().next_id() < u64::MAX,
    ensures
        t.state.wf(),
        reduced(state, event, t.state, t.effects@),
{
    match event {
        Event::ConversationEvent { event } => reduce_conversation_event(state, event),
        Event::DraftsEvent { event } => reduce_drafts_event(state, event),
        Event::CoordinatorEvent { event } => reduce_coordinator_event(state, event),
    }
}

fn reduce_conversation_event(state: State, event: conversation::Event) -> (t: Transition)
    requires
        state.wf(),
    ensures
        t.state.wf(),
        t.state.spec_participant() == state.spec_participant(),
        t.state.spec_coordinator() == state.spec_coordinator(),
        t.state.spec_drafts() == state.spec_drafts(),
        exists|inner: Seq<conversation::Effect>|
            t.effects@ == conversation_effects(inner) && conversation::reduced(
                state.spec_conversation(),
                event,
                t.state.spec_conversation(),
                inner,
            ),
{
    let transition = conversation::reduce(state.conversation, event);
    let ghost inner = transition.effects@;
    let effects = map_conversation_effects(transition.effects);
    Transition {
        state: State {
            participant: state.participant,
            conversation: transition.state,
            coordinator: state.coordinator,
            drafts: state.drafts,
        },
        effects,
    }
}

fn reduce_drafts_event(state: State, event: drafts::Event) -> (t: Transition)
    requires
        state.wf(),
        event matches drafts::Event::DraftClaimRequested { parent, .. } && drafts::optional_ref_error(
            state.spec_drafts().drafts(),
            parent,
        ) is None ==> state.spec_drafts().next_id() < u64::MAX,
    ensures
        t.state.wf(),
        t.state.spec_participant() == state.spec_participant(),
        t.state.spec_coordinator() == state.spec_coordinator(),
        t.state.spec_conversation() == state.spec_conversation(),
        t.effects@.len() == 0,
        drafts::reduced(state.spec_drafts(), event, t.state.spec_drafts()),
{
    let committed_entries = state.coordinator.committed_prefix();
    let transition = drafts::reduce(
        state.drafts,
        event,
        drafts::Context { committed_entries: committed_entries.as_slice() },
    );
    let effects = map_draft_effects(transition.effects);
    Transition {
        state: State {
            participant: state.participant,
            conversation: state.conversation,
            coordinator: state.coordinator,
            drafts: transition.state,
        },
        effects,
    }
}

fn reduce_coordinator_event(state: State, event: coordinator::Event<Entry>) -> (t: Transition)
    requires
        state.wf(),
        event matches coordinator::Event::Received { index, .. } ==> index < usize::MAX,
    ensures
        t.state.wf(),
        t.state.spec_participant() == state.spec_participant(),
        t.state.spec_conversation() == state.spec_conversation(),
        t.state.spec_drafts() == state.spec_drafts(),
        t.state.spec_coordinator().spec_page_limit() == state.spec_coordinator().spec_page_limit(),
        exists|inner: Seq<coordinator::Effect<Entry>>|
            t.effects@ == coordinator_effects(inner) && coordinator::reduced(
                state.spec_coordinator(),
                event,
                t.state.spec_coordinator(),
                inner,
            ),
{
    let transition = coordinator::reduce(state.coordinator, event);
    let ghost inner = transition.effects@;
    let effects = map_coordinator_effects(transition.effects);
    Transition {
        state: State {
            participant: state.participant,
            conversation: state.conversation,
            coordinator: transition.state,
            drafts: state.drafts,
        },
        effects,
    }
}

/// The participant this app drafts for.
pub fn participant(state: &State) -> (name: &str)
    ensures
        name@ == state.spec_participant(),
{
    state.participant.as_str()
}

/// A copy of the participant's drafts, in order.
pub fn show_drafts(state: &State) -> (drafts: Vec<DraftEntry>)
    ensures
        drafts@ == state.spec_drafts().drafts(),
{
    clone_drafts(drafts::show_drafts(&state.drafts))
}

/// The committed entries: the received prefix of the log without gaps.
pub fn committed_entries(state: &State) -> (entries: Vec<&Entry>)
    ensures
        entries@.len() == coordinator::first_missing(state.spec_coordinator().slots(), 0),
        forall|i: int|
            0 <= i < entries@.len() ==> Some(*entries@[i]) == state.spec_coordinator().slots()[i],
{
    state.coordinator.committed_prefix()
}

/// The notice about the last refused draft request, if any.
pub fn notice(state: &State) -> (notice: Option<drafts::Notice>)
    ensures
        notice == state.spec_drafts().spec_notice(),
{
    match drafts::notice(&state.drafts) {
        Some(n) => Some(*n),
        None => None,
    }
}

/// The coordinator of the committed entries.
pub fn coordinator(state: &State) -> (c: &coordinator::State<Entry>)
    ensures
        *c == state.spec_coordinator(),
{
    &state.coordinator
}

/// The participant's local drafts.
pub fn drafts(state: &State) -> (d: &drafts::State)
    ensures
        *d == state.spec_drafts(),
{
    &state.drafts
}

/// The conversation so far.
pub fn conversation(state: &State) -> (c: &conversation::State)
    ensures
        *c == state.spec_conversation(),
{
    &state.conversation
}

/// The participant never changes: after any run of events from a state,
/// the app still drafts for the same participant.
pub proof fn lemma_participant_is_kept(
    states: Seq<State>,
    events: Seq<Event>,
    effects: Seq<Seq<Effect>>,
)
    requires
        states.len() == events.len() + 1,
        effects.len() == events.len(),
        forall|i: int|
            0 <= i < events.len() ==> reduced(
                #[trigger] states[i],
                events[i],
                states[i + 1],
                effects[i],
            ),
    ensures
        forall|i: int|
            0 <= i < states.len() ==> (#[trigger] states[i]).spec_participant()
                == states[0].spec_participant(),
    decreases events.len(),
{
    if events.len() > 0 {
        let n = events.len() - 1;
        lemma_participant_is_kept(states.take(n + 1), events.take(n), effects.take(n));
        assert forall|i: int| 0 <= i < states.len() implies (#[trigger] states[i]).spec_participant()
            == states[0].spec_participant() by {
            if i <= n {
                assert(states.take(n + 1)[i] == states[i]);
            } else {
                assert(states.take(n + 1)[n] == states[n]);
                assert(reduced(states[n], events[n], states[n + 1], effects[n]));
            }
        }
    }
}

} // verus!
