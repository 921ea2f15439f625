//! Local draft state machine.
//!
//! Drafts are created and removed locally; a draft may refer to another
//! drafted claim, and a drafted claim cannot be removed while another draft
//! refers to it.
use vstd::prelude::*;

use crate::types::{ClaimKind, ClaimRef, DraftContent, DraftEntry, DraftId, EngineError, Entry};
use crate::types::clone_drafts;

verus! {

/// Read-only committed context available to draft decisions. Committed
/// references are not validated against it.
#[derive(Debug, Clone, Copy)]
pub struct Context<'a> {
    pub committed_entries: &'a [&'a Entry],
}

impl<'a> Default for Context<'a> {
    /// The context with no committed entries.
    fn default() -> (context: Self)
        ensures
            context.committed_entries@.len() == 0,
    {
        Context { committed_entries: &[] }
    }
}

#[derive(Debug, PartialEq, Eq)]
pub struct State {
    drafts: Vec<DraftEntry>,
    next_draft_id: u64,
    last_notice: Option<Notice>,
}

/// Requests to the draft state machine.
#[derive(Debug, Clone, PartialEq, Eq)]
pub enum Event {
    DraftClaimRequested { body: String, claim_kind: ClaimKind, parent: Option<ClaimRef> },
    RemoveDraftRequested { draft_id: DraftId },
}

/// Effects requested by the draft state machine. None is ever produced:
/// the field is private and no function of the library builds one.
#[derive(Debug, Clone, Copy, PartialEq, Eq)]
pub struct Effect {
    unconstructible: (),
}

/// Why the last request was refused.
#[derive(Debug, Clone, Copy, PartialEq, Eq, Structural)]
pub enum Notice {
    DraftNotFound { draft_id: DraftId },
    DraftReferenceMustTargetClaim { draft_id: DraftId },
    DraftReferenced { draft_id: DraftId, referenced_by: DraftId },
}

#[derive(Debug, PartialEq, Eq)]
pub struct Transition {
    pub state: State,
    pub effects: Vec<Effect>,
}

#[derive(Debug, Clone, PartialEq, Eq)]
pub struct DraftsView {
    pub drafts: Vec<DraftEntry>,
    pub notice: Option<Notice>,
}

// ---------------------------------------------------------------------------
// Mathematical model
// ---------------------------------------------------------------------------

/// Index of the first draft at or after `i` whose id is `id`, or the
/// number of drafts.
pub open spec fn draft_index_from(drafts: Seq<DraftEntry>, id: DraftId, i: int) -> int
    decreases drafts.len() - i,
{
    if i < 0 {
        0
    } else if i >= drafts.len() {
        drafts.len() as int
    } else if drafts[i].id == id {
        i
    } else {
        draft_index_from(drafts, id, i + 1)
    }
}

/// Index of the first draft whose id is `id`, or the number of drafts.
pub open spec fn draft_index(drafts: Seq<DraftEntry>, id: DraftId) -> int {
    draft_index_from(drafts, id, 0)
}

/// `claim_ref` names the drafted claim `id`.
pub open spec fn names_draft(claim_ref: ClaimRef, id: DraftId) -> bool {
    claim_ref matches ClaimRef::Draft(d) && d == id
}

/// The draft content refers to the draft `id`.
pub open spec fn references(entry: DraftContent, id: DraftId) -> bool {
    match entry {
        DraftContent::Claim { parent, .. } => parent matches Some(p) && names_draft(p, id),
        DraftContent::Relation { source, target, .. } => names_draft(source, id) || names_draft(
            target,
            id,
        ),
        DraftContent::Stance { target, .. } => names_draft(target, id),
        DraftContent::Resolve { claim, .. } => names_draft(claim, id),
        DraftContent::Comment { claim, .. } => claim matches Some(c) && names_draft(c, id),
    }
}

/// Index of the first draft at or after `i` that is not `id` and refers to
/// it, or the number of drafts.
pub open spec fn referencing_index_from(drafts: Seq<DraftEntry>, id: DraftId, i: int) -> int
    decreases drafts.len() - i,
{
    if i < 0 {
        0
    } else if i >= drafts.len() {
        drafts.len() as int
    } else if drafts[i].id != id && references(drafts[i].entry, id) {
        i
    } else {
        referencing_index_from(drafts, id, i + 1)
    }
}

/// Why `claim_ref` cannot be used as a reference, if it cannot.
pub open spec fn claim_ref_error(drafts: Seq<DraftEntry>, claim_ref: ClaimRef) -> Option<
    EngineError,
> {
    match claim_ref {
        ClaimRef::Committed(_) => None,
        ClaimRef::Draft(id) => {
            let i = draft_index(drafts, id);
            if i >= drafts.len() {
                Some(EngineError::DraftNotFound(id))
            } else if drafts[i].entry is Claim {
                None
            } else {
                Some(EngineError::DraftReferenceMustTargetClaim(id))
            }
        },
    }
}

/// Why the optional reference cannot be used, if it cannot.
pub open spec fn optional_ref_error(drafts: Seq<DraftEntry>, claim_ref: Option<ClaimRef>) -> Option<
    EngineError,
> {
    match claim_ref {
        None => None,
        Some(r) => claim_ref_error(drafts, r),
    }
}

/// Why the draft `id` cannot be removed, if it cannot.
pub open spec fn removal_error(drafts: Seq<DraftEntry>, id: DraftId) -> Option<EngineError> {
    let i = draft_index(drafts, id);
    let r = referencing_index_from(drafts, id, 0);
    if i >= drafts.len() {
        Some(EngineError::DraftNotFound(id))
    } else if drafts[i].entry is Claim && r < drafts.len() {
        Some(EngineError::DraftReferenced { draft_id: id, referenced_by: drafts[r].id })
    } else {
        None
    }
}

/// The notice that reports `error`.
pub open spec fn notice_of(error: EngineError) -> Notice {
    match error {
        EngineError::DraftNotFound(draft_id) => Notice::DraftNotFound { draft_id },
        EngineError::DraftReferenceMustTargetClaim(draft_id) => Notice::DraftReferenceMustTargetClaim {
            draft_id,
        },
        EngineError::DraftReferenced { draft_id, referenced_by } => Notice::DraftReferenced {
            draft_id,
            referenced_by,
        },
    }
}

/// The drafted claim that a successful claim request appends.
pub open spec fn drafted_claim(
    id: u64,
    body: String,
    claim_kind: ClaimKind,
    parent: Option<ClaimRef>,
) -> DraftEntry {
    DraftEntry { id: DraftId(id), entry: DraftContent::Claim { body, claim_kind, parent } }
}

/// Every draft id is below `next`, and the ids strictly increase in the
/// order the drafts were made (so no two drafts share an id).
pub open spec fn ids_increasing_below(drafts: Seq<DraftEntry>, next: u64) -> bool {
    &&& forall|i: int| 0 <= i < drafts.len() ==> (#[trigger] drafts[i]).id.0 < next
    &&& forall|i: int, j: int|
        0 <= i < j < drafts.len() ==> (#[trigger] drafts[i]).id.0 < (#[trigger] drafts[j]).id.0
}

impl State {
    /// The drafts, in creation order.
    pub closed spec fn drafts(&self) -> Seq<DraftEntry> {
        self.drafts@
    }

    /// The id the next draft will get.
    pub closed spec fn next_id(&self) -> u64 {
        self.next_draft_id
    }

    /// The notice left by the last refused request.
    pub closed spec fn spec_notice(&self) -> Option<Notice> {
        self.last_notice
    }

    /// Draft ids are below the next id and increase in creation order.
    pub open spec fn wf(&self) -> bool {
        ids_increasing_below(self.drafts(), self.next_id())
    }
}

// ---------------------------------------------------------------------------
// Operations
// ---------------------------------------------------------------------------

pub fn init() -> (state: State)
    ensures
        state.drafts() == Seq::<DraftEntry>::empty(),
        state.next_id() == 0,
        state.spec_notice() is None,
        state.wf(),
{
    State { drafts: Vec::new(), next_draft_id: 0, last_notice: None }
}

/// `new` is what `event` makes of `old`: an accepted request changes the
/// drafts and clears the notice; a refused one keeps the drafts and
/// records why.
pub open spec fn reduced(old: State, event: Event, new: State) -> bool {
    match event {
        Event::DraftClaimRequested { body, claim_kind, parent } => match optional_ref_error(
            old.drafts(),
            parent,
        ) {
            None => {
                &&& new.drafts() == old.drafts().push(
                    drafted_claim(old.next_id(), body, claim_kind, parent),
                )
                &&& new.next_id() == old.next_id() + 1
                &&& new.spec_notice() is None
            },
            Some(error) => {
                &&& new.drafts() == old.drafts()
                &&& new.next_id() == old.next_id()
                &&& new.spec_notice() == Some(notice_of(error))
            },
        },
        Event::RemoveDraftRequested { draft_id } => match removal_error(
            old.drafts(),
            draft_id,
        ) {
            None => {
                &&& new.drafts() == old.drafts().remove(
                    draft_index(old.drafts(), draft_id),
                )
                &&& new.next_id() == old.next_id()
                &&& new.spec_notice() is None
            },
            Some(error) => {
                &&& new.drafts() == old.drafts()
                &&& new.next_id() == old.next_id()
                &&& new.spec_notice() == Some(notice_of(error))
            },
        },
    }
}

/// Apply one request. A refused request leaves the drafts unchanged and
/// records a notice; an accepted one clears the notice.
pub fn reduce(state: State, event: Event, context: Context<'_>) -> (t: Transition)
    requires
        event matches Event::DraftClaimRequested { parent, .. } && optional_ref_error(
            state.drafts(),
            parent,
        ) is None ==> state.next_id() < u64::MAX,
    ensures
        t.effects@.len() == 0,
        state.wf() ==> t.state.wf(),
        reduced(state, event, t.state),
{
    let mut state = state;
    match event {
        Event::DraftClaimRequested { body, claim_kind, parent } => {
            match validate_optional_claim_ref(&state, &parent) {
                Ok(()) => {
                    let ghost before = state.drafts();
                    let id = alloc_draft_id(&mut state);
                    state.drafts.push(
                        DraftEntry { id, entry: DraftContent::Claim { body, claim_kind, parent } },
                    );
                    state.last_notice = None;
                    proof {
                        lemma_push_fresh(before, (id.0 + 1) as u64, state.drafts@.last());
                    }
                },
                Err(error) => {
                    state.last_notice = Some(map_notice(error));
                },
            }
        },
        Event::RemoveDraftRequested { draft_id } => {
            let ghost before = state.drafts();
            match remove_draft_in_place(&mut state, draft_id) {
                Ok(()) => {
                    state.last_notice = None;
                    proof {
                        lemma_draft_index_from(before, draft_id, 0);
                        lemma_remove_keeps_fresh(before, state.next_draft_id, draft_index(before, draft_id));
                    }
                },
                Err(error) => {
                    state.last_notice = Some(map_notice(error));
                },
            }
        },
    }
    let _ = context.committed_entries;
    Transition { state, effects: Vec::new() }
}

/// Draft a claim without touching the notice.
pub fn draft_claim(
    state: State,
    body: String,
    claim_kind: ClaimKind,
    parent: Option<ClaimRef>,
    context: Context<'_>,
) -> (result: Result<(State, DraftId), EngineError>)
    requires
        state.next_id() < u64::MAX,
    ensures
        match optional_ref_error(state.drafts(), parent) {
            None => result matches Ok((s, id)) && {
                &&& id == DraftId(state.next_id())
                &&& s.drafts() == state.drafts().push(
                    drafted_claim(state.next_id(), body, claim_kind, parent),
                )
                &&& s.next_id() == state.next_id() + 1
                &&& s.spec_notice() == state.spec_notice()
                &&& state.wf() ==> s.wf()
            },
            Some(error) => result == Err::<(State, DraftId), EngineError>(error),
        },
{
    let mut state = state;
    let _ = context.committed_entries;
    validate_optional_claim_ref(&state, &parent)?;
    let ghost before = state.drafts();
    let id = alloc_draft_id(&mut state);
    state.drafts.push(DraftEntry { id, entry: DraftContent::Claim { body, claim_kind, parent } });
    proof {
        lemma_push_fresh(before, state.next_draft_id, state.drafts@.last());
    }
    Ok((state, id))
}

/// Remove a draft without touching the notice.
pub fn remove_draft(state: State, draft_id: DraftId, context: Context<'_>) -> (result: Result<
    State,
    EngineError,
>)
    ensures
        match removal_error(state.drafts(), draft_id) {
            None => result matches Ok(s) && {
                &&& s.drafts() == state.drafts().remove(draft_index(state.drafts(), draft_id))
                &&& s.next_id() == state.next_id()
                &&& s.spec_notice() == state.spec_notice()
                &&& state.wf() ==> s.wf()
            },
            Some(error) => result == Err::<State, EngineError>(error),
        },
{
    let mut state = state;
    let _ = context.committed_entries;
    let ghost before = state.drafts();
    remove_draft_in_place(&mut state, draft_id)?;
    proof {
        lemma_draft_index_from(before, draft_id, 0);
        lemma_remove_keeps_fresh(before, state.next_draft_id, draft_index(before, draft_id));
    }
    Ok(state)
}

pub fn view(state: &State) -> (view: DraftsView)
    ensures
        view.drafts@ == state.drafts(),
        view.notice == state.spec_notice(),
{
    DraftsView { drafts: clone_drafts(state.drafts.as_slice()), notice: state.last_notice }
}

pub fn show_drafts(state: &State) -> (drafts: &[DraftEntry])
    ensures
        drafts@ == state.drafts(),
{
    state.drafts.as_slice()
}

pub fn notice(state: &State) -> (notice: Option<&Notice>)
    ensures
        notice is Some == state.spec_notice() is Some,
        notice matches Some(n) ==> *n == state.spec_notice()->0,
{
    state.last_notice.as_ref()
}

/// A state holding `drafts`, with the next id one past the largest.
pub fn state_with_drafts(drafts: Vec<DraftEntry>) -> (state: State)
    requires
        forall|i: int| 0 <= i < drafts.len() ==> (#[trigger] drafts@[i]).id.0 < u64::MAX,
    ensures
        state.drafts() == drafts@,
        state.spec_notice() is None,
        forall|i: int| 0 <= i < drafts.len() ==> (#[trigger] drafts@[i]).id.0 < state.next_id(),
        drafts.len() == 0 ==> state.next_id() == 0,
        drafts.len() > 0 ==> exists|i: int|
            0 <= i < drafts.len() && state.next_id() == (#[trigger] drafts@[i]).id.0 + 1,
{
    let mut next_draft_id: u64 = 0;
    let mut i: usize = 0;
    while i < drafts.len()
        invariant
            i <= drafts.len(),
            forall|i: int| 0 <= i < drafts.len() ==> (#[trigger] drafts@[i]).id.0 < u64::MAX,
            forall|j: int| 0 <= j < i ==> (#[trigger] drafts@[j]).id.0 < next_draft_id,
            i == 0 ==> next_draft_id == 0,
            i > 0 ==> exists|j: int| 0 <= j < i && next_draft_id == (#[trigger] drafts@[j]).id.0 + 1,
        decreases drafts.len() - i,
    {
        let id = drafts[i].id.0;
        if id + 1 > next_draft_id {
            next_draft_id = id + 1;
        }
        i += 1;
    }
    State { drafts, next_draft_id, last_notice: None }
}

fn alloc_draft_id(state: &mut State) -> (id: DraftId)
    requires
        old(state).next_id() < u64::MAX,
    ensures
        id == DraftId(old(state).next_id()),
        final(state).next_id() == old(state).next_id() + 1,
        final(state).drafts() == old(state).drafts(),
        final(state).spec_notice() == old(state).spec_notice(),
{
    let id = DraftId(state.next_draft_id);
    state.next_draft_id += 1;
    id
}

fn validate_optional_claim_ref(state: &State, claim_ref: &Option<ClaimRef>) -> (result: Result<
    (),
    EngineError,
>)
    ensures
        match optional_ref_error(state.drafts(), *claim_ref) {
            None => result is Ok,
            Some(error) => result == Err::<(), EngineError>(error),
        },
{
    if let Some(claim_ref) = claim_ref {
        validate_claim_ref(state, claim_ref)?;
    }
    Ok(())
}

fn validate_claim_ref(state: &State, claim_ref: &ClaimRef) -> (result: Result<(), EngineError>)
    ensures
        match claim_ref_error(state.drafts(), *claim_ref) {
            None => result is Ok,
            Some(error) => result == Err::<(), EngineError>(error),
        },
{
    match claim_ref {
        ClaimRef::Committed(_) => Ok(()),
        ClaimRef::Draft(draft_id) => match find_draft(state, *draft_id) {
            Some(draft) => match &draft.entry {
                DraftContent::Claim { .. } => Ok(()),
                _ => Err(EngineError::DraftReferenceMustTargetClaim(*draft_id)),
            },
            None => Err(EngineError::DraftNotFound(*draft_id)),
        },
    }
}

pub proof fn lemma_draft_index_from(drafts: Seq<DraftEntry>, id: DraftId, i: int)
    requires
        0 <= i <= drafts.len(),
    ensures
        i <= draft_index_from(drafts, id, i) <= drafts.len(),
        forall|j: int| i <= j < draft_index_from(drafts, id, i) ==> (#[trigger] drafts[j]).id != id,
        draft_index_from(drafts, id, i) < drafts.len() ==> drafts[draft_index_from(
            drafts,
            id,
            i,
        )].id == id,
    decreases drafts.len() - i,
{
    if i < drafts.len() && drafts[i].id != id {
        lemma_draft_index_from(drafts, id, i + 1);
    }
}

proof fn lemma_referencing_index_from(drafts: Seq<DraftEntry>, id: DraftId, i: int)
    requires
        0 <= i <= drafts.len(),
    ensures
        i <= referencing_index_from(drafts, id, i) <= drafts.len(),
        forall|j: int|
            i <= j < referencing_index_from(drafts, id, i) ==> !((#[trigger] drafts[j]).id != id
                && references(drafts[j].entry, id)),
    decreases drafts.len() - i,
{
    if i < drafts.len() && !(drafts[i].id != id && references(drafts[i].entry, id)) {
        lemma_referencing_index_from(drafts, id, i + 1);
    }
}

fn find_draft_index(drafts: &Vec<DraftEntry>, draft_id: DraftId) -> (index: usize)
    ensures
        index == draft_index(drafts@, draft_id),
{
    let mut i: usize = 0;
    while i < drafts.len()
        invariant
            i <= drafts.len(),
            draft_index(drafts@, draft_id) == draft_index_from(drafts@, draft_id, i as int),
        decreases drafts.len() - i,
    {
        if drafts[i].id == draft_id {
            return i;
        }
        i += 1;
    }
    i
}

fn remove_draft_in_place(state: &mut State, draft_id: DraftId) -> (result: Result<(), EngineError>)
    ensures
        final(state).next_id() == old(state).next_id(),
        final(state).spec_notice() == old(state).spec_notice(),
        match removal_error(old(state).drafts(), draft_id) {
            None => {
                &&& result is Ok
                &&& final(state).drafts() == old(state).drafts().remove(
                    draft_index(old(state).drafts(), draft_id),
                )
            },
            Some(error) => {
                &&& result == Err::<(), EngineError>(error)
                &&& final(state).drafts() == old(state).drafts()
            },
        },
{
    proof {
        lemma_draft_index_from(state.drafts@, draft_id, 0);
        lemma_referencing_index_from(state.drafts@, draft_id, 0);
    }
    let pos = find_draft_index(&state.drafts, draft_id);
    if pos >= state.drafts.len() {
        return Err(EngineError::DraftNotFound(draft_id));
    }
    let removed_is_claim = match &state.drafts[pos].entry {
        DraftContent::Claim { .. } => true,
        _ => false,
    };
    if removed_is_claim {
        let mut j: usize = 0;
        while j < state.drafts.len()
            invariant
                j <= state.drafts.len(),
                state.drafts@ == old(state).drafts@,
                state.next_draft_id == old(state).next_draft_id,
                state.last_notice == old(state).last_notice,
                pos == draft_index(state.drafts@, draft_id),
                pos < state.drafts.len(),
                state.drafts@[pos as int].entry is Claim,
                referencing_index_from(state.drafts@, draft_id, 0) == referencing_index_from(
                    state.drafts@,
                    draft_id,
                    j as int,
                ),
            decreases state.drafts.len() - j,
        {
            let draft = &state.drafts[j];
            if draft.id != draft_id && draft_references_draft(&draft.entry, draft_id) {
                assert(referencing_index_from(state.drafts@, draft_id, j as int) == j);
                return Err(EngineError::DraftReferenced { draft_id, referenced_by: draft.id });
            }
            j += 1;
        }
    }
    state.drafts.remove(pos);
    Ok(())
}

fn find_draft(state: &State, draft_id: DraftId) -> (draft: Option<&DraftEntry>)
    ensures
        draft is Some <==> draft_index(state.drafts(), draft_id) < state.drafts().len(),
        draft matches Some(d) ==> *d == state.drafts()[draft_index(state.drafts(), draft_id)],
{
    proof {
        lemma_draft_index_from(state.drafts@, draft_id, 0);
    }
    let i = find_draft_index(&state.drafts, draft_id);
    if i < state.drafts.len() {
        Some(&state.drafts[i])
    } else {
        None
    }
}

fn claim_ref_names(claim_ref: &ClaimRef, draft_id: DraftId) -> (names: bool)
    ensures
        names == names_draft(*claim_ref, draft_id),
{
    match claim_ref {
        ClaimRef::Draft(id) => *id == draft_id,
        ClaimRef::Committed(_) => false,
    }
}

fn optional_claim_ref_names(claim_ref: &Option<ClaimRef>, draft_id: DraftId) -> (names: bool)
    ensures
        names == (*claim_ref matches Some(r) && names_draft(r, draft_id)),
{
    match claim_ref {
        Some(r) => claim_ref_names(r, draft_id),
        None => false,
    }
}

fn draft_references_draft(entry: &DraftContent, draft_id: DraftId) -> (refers: bool)
    ensures
        refers == references(*entry, draft_id),
{
    match entry {
        DraftContent::Claim { parent, .. } => optional_claim_ref_names(parent, draft_id),
        DraftContent::Relation { source, target, .. } => claim_ref_names(source, draft_id)
            || claim_ref_names(target, draft_id),
        DraftContent::Stance { target, .. } => claim_ref_names(target, draft_id),
        DraftContent::Resolve { claim, .. } => claim_ref_names(claim, draft_id),
        DraftContent::Comment { claim, .. } => optional_claim_ref_names(claim, draft_id),
    }
}

fn map_notice(error: EngineError) -> (notice: Notice)
    ensures
        notice == notice_of(error),
{
    match error {
        EngineError::DraftNotFound(draft_id) => Notice::DraftNotFound { draft_id },
        EngineError::DraftReferenceMustTargetClaim(draft_id) => Notice::DraftReferenceMustTargetClaim {
            draft_id,
        },
        EngineError::DraftReferenced { draft_id, referenced_by } => Notice::DraftReferenced {
            draft_id,
            referenced_by,
        },
    }
}

// ---------------------------------------------------------------------------
// Laws
// ---------------------------------------------------------------------------

proof fn lemma_push_fresh(drafts: Seq<DraftEntry>, next: u64, entry: DraftEntry)
    requires
        entry.id.0 + 1 == next,
    ensures
        ids_increasing_below(drafts, (next - 1) as u64) ==> ids_increasing_below(
            drafts.push(entry),
            next,
        ),
{
}

proof fn lemma_remove_keeps_fresh(drafts: Seq<DraftEntry>, next: u64, i: int)
    requires
        0 <= i < drafts.len(),
    ensures
        ids_increasing_below(drafts, next) ==> ids_increasing_below(drafts.remove(i), next),
{
    let r = drafts.remove(i);
    if ids_increasing_below(drafts, next) {
        assert forall|a: int| 0 <= a < r.len() implies (#[trigger] r[a]).id.0 < next by {
            if a < i {
                assert(r[a] == drafts[a]);
            } else {
                assert(r[a] == drafts[a + 1]);
            }
        }
        assert forall|a: int, b: int| 0 <= a < b < r.len() implies (#[trigger] r[a]).id.0 < (
        #[trigger] r[b]).id.0 by {
            let a2 = if a < i { a } else { a + 1 };
            let b2 = if b < i { b } else { b + 1 };
            assert(r[a] == drafts[a2]);
            assert(r[b] == drafts[b2]);
        }
    }
}

/// A newly drafted claim gets an id above that of every existing draft.
pub proof fn lemma_new_draft_id_is_fresh(state: State, body: String, claim_kind: ClaimKind, parent: Option<ClaimRef>)
    requires
        state.wf(),
    ensures
        forall|i: int|
            0 <= i < state.drafts().len() ==> (#[trigger] state.drafts()[i]).id.0 < drafted_claim(
                state.next_id(),
                body,
                claim_kind,
                parent,
            ).id.0,
{
}

/// Ids are never handed out twice: the next id never goes back, and the
/// only draft a request can add carries the id that was next, which is
/// above every id handed out before (removed drafts' ids included, as
/// those were below it too).
pub proof fn lemma_draft_ids_never_reused(old: State, event: Event, new: State)
    requires
        old.wf(),
        reduced(old, event, new),
    ensures
        new.next_id() >= old.next_id(),
        forall|i: int|
            0 <= i < new.drafts().len() && !old.drafts().contains(#[trigger] new.drafts()[i]) ==> new.drafts()[i].id.0
                == old.next_id() && i == new.drafts().len() - 1,
{
    match event {
        Event::DraftClaimRequested { .. } => {},
        Event::RemoveDraftRequested { draft_id } => {
            if removal_error(old.drafts(), draft_id) is None {
                let k = draft_index(old.drafts(), draft_id);
                lemma_draft_index_from(old.drafts(), draft_id, 0);
                assert forall|i: int| 0 <= i < new.drafts().len() implies old.drafts().contains(
                    #[trigger] new.drafts()[i],
                ) by {
                    if i < k {
                        assert(new.drafts()[i] == old.drafts()[i]);
                    } else {
                        assert(new.drafts()[i] == old.drafts()[i + 1]);
                    }
                }
            }
        },
    }
}

/// Removing an existing, unreferenced draft removes exactly that draft:
/// one fewer draft, the others kept in their relative order, and the
/// removed id no longer present.
pub proof fn lemma_removal_removes_exactly_one(drafts: Seq<DraftEntry>, next: u64, id: DraftId)
    requires
        ids_increasing_below(drafts, next),
        removal_error(drafts, id) is None,
    ensures
        drafts.remove(draft_index(drafts, id)).len() + 1 == drafts.len(),
        forall|i: int|
            0 <= i < drafts.remove(draft_index(drafts, id)).len() ==> #[trigger] drafts.remove(
                draft_index(drafts, id),
            )[i].id != id,
        forall|i: int|
            0 <= i < draft_index(drafts, id) ==> #[trigger] drafts.remove(draft_index(drafts, id))[i]
                == drafts[i],
        forall|i: int|
            draft_index(drafts, id) <= i < drafts.len() - 1 ==> #[trigger] drafts.remove(
                draft_index(drafts, id),
            )[i] == drafts[i + 1],
{
    lemma_draft_index_from(drafts, id, 0);
    let k = draft_index(drafts, id);
    let r = drafts.remove(k);
    assert forall|i: int| 0 <= i < r.len() implies #[trigger] r[i].id != id by {
        if i < k {
            assert(r[i] == drafts[i]);
        } else {
            assert(r[i] == drafts[i + 1]);
            assert(drafts[k].id != drafts[i + 1].id);
        }
    }
}

/// A drafted claim is removed only when no other draft refers to it: after
/// a removal that succeeds, no remaining draft names the removed claim as
/// a parent, as a relation's source or target, as a stance's target, as the
/// claim it resolves or as the claim it comments on.
pub proof fn lemma_removed_claim_leaves_no_reference(old: State, id: DraftId, new: State)
    requires
        old.wf(),
        reduced(old, Event::RemoveDraftRequested { draft_id: id }, new),
        new.spec_notice() is None,
        exists|i: int|
            0 <= i < old.drafts().len() && (#[trigger] old.drafts()[i]).id == id
                && old.drafts()[i].entry is Claim,
    ensures
        forall|j: int|
            0 <= j < new.drafts().len() ==> match (#[trigger] new.drafts()[j]).entry {
                DraftContent::Claim { parent, .. } => parent != Some(ClaimRef::Draft(id)),
                DraftContent::Relation { source, target, .. } => source != ClaimRef::Draft(id)
                    && target != ClaimRef::Draft(id),
                DraftContent::Stance { target, .. } => target != ClaimRef::Draft(id),
                DraftContent::Resolve { claim, .. } => claim != ClaimRef::Draft(id),
                DraftContent::Comment { claim, .. } => claim != Some(ClaimRef::Draft(id)),
            },
{
    let drafts = old.drafts();
    let i = choose|i: int| 0 <= i < drafts.len() && (#[trigger] drafts[i]).id == id && drafts[i].entry is Claim;
    lemma_draft_index_from(drafts, id, 0);
    let k = draft_index(drafts, id);
    if k != i {
        if k < i {
            assert(drafts[k].id.0 < drafts[i].id.0);
        } else {
            assert(drafts[i].id != id);
        }
    }
    assert(removal_error(drafts, id) is None);
    lemma_referencing_index_from(drafts, id, 0);
    lemma_removal_removes_exactly_one(drafts, old.next_id(), id);
    let rest = drafts.remove(k);
    assert(new.drafts() == rest);
    assert forall|j: int| 0 <= j < rest.len() implies match (#[trigger] rest[j]).entry {
        DraftContent::Claim { parent, .. } => parent != Some(ClaimRef::Draft(id)),
        DraftContent::Relation { source, target, .. } => source != ClaimRef::Draft(id)
            && target != ClaimRef::Draft(id),
        DraftContent::Stance { target, .. } => target != ClaimRef::Draft(id),
        DraftContent::Resolve { claim, .. } => claim != ClaimRef::Draft(id),
        DraftContent::Comment { claim, .. } => claim != Some(ClaimRef::Draft(id)),
    } by {
        let o = if j < k { j } else { j + 1 };
        assert(rest[j] == drafts[o]);
        assert(rest[j].id != id);
        assert(!references(drafts[o].entry, id));
    }
}

} // verus!
